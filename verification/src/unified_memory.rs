//! Byte buffers shared between the CPU and an accelerator, and the model tables
//! built on them: a transformer's key/value cache and a token embedding table. Every
//! buffer starts zeroed; floats are stored as four bytes each.
use vstd::prelude::*;

verus! {

/// A zero-initialised byte buffer.
pub struct UnifiedMemoryBuffer {
    data: Vec<u8>,
}

/// `n` zero bytes.
pub open spec fn zeros(n: nat) -> Seq<u8> {
    Seq::new(n, |i: int| 0u8)
}

impl UnifiedMemoryBuffer {
    /// The buffer's contents.
    pub closed spec fn bytes(&self) -> Seq<u8> {
        self.data@
    }

    /// A buffer of `size` zero bytes.
    pub fn new(size: usize) -> (r: Result<Self, String>)
        ensures
            r matches Ok(b) && b.bytes() == zeros(size as nat),
    {
        let data: Vec<u8> = vec![0u8; size];
        assert(data@ =~= zeros(size as nat));
        Ok(UnifiedMemoryBuffer { data })
    }

    /// The size in bytes.
    pub fn len(&self) -> (r: usize)
        ensures
            r == self.bytes().len(),
    {
        self.data.len()
    }

    /// The contents, for reading.
    pub fn as_slice(&self) -> (r: &[u8])
        ensures
            r@ == self.bytes(),
    {
        self.data.as_slice()
    }

    /// The contents, for writing in place.
    pub fn as_mut_slice(&mut self) -> (r: &mut [u8])
        ensures
            r@ == old(self).bytes(),
            final(r)@ == final(self).bytes(),
    {
        self.data.as_mut_slice()
    }
}

impl Clone for UnifiedMemoryBuffer {
    /// A separate buffer with the same contents.
    fn clone(&self) -> (r: Self)
        ensures
            r.bytes() == self.bytes(),
    {
        let mut data: Vec<u8> = Vec::new();
        let mut i: usize = 0;
        while i < self.data.len()
            invariant
                i <= self.data@.len(),
                data@ == self.data@.subrange(0, i as int),
            decreases self.data@.len() - i,
        {
            data.push(self.data[i]);
            i = i + 1;
            assert(data@ =~= self.data@.subrange(0, i as int));
        }
        assert(self.data@.subrange(0, self.data@.len() as int) =~= self.data@);
        UnifiedMemoryBuffer { data }
    }
}

/// The key and value buffers of a transformer's attention cache.
pub struct KVCache {
    k_buffer: UnifiedMemoryBuffer,
    v_buffer: UnifiedMemoryBuffer,
}

impl KVCache {
    /// The key buffer's contents.
    pub closed spec fn keys(&self) -> Seq<u8> {
        self.k_buffer.bytes()
    }

    /// The value buffer's contents.
    pub closed spec fn values(&self) -> Seq<u8> {
        self.v_buffer.bytes()
    }

    /// A cache for `max_seq_len` positions of `embedding_dim` floats: each of the two
    /// buffers holds `max_seq_len * embedding_dim * 4` zero bytes.
    pub fn new(max_seq_len: usize, embedding_dim: usize) -> (r: Result<Self, String>)
        requires
            max_seq_len * embedding_dim * 4 <= usize::MAX,
        ensures
            r matches Ok(c) && c.keys() == zeros((max_seq_len * embedding_dim * 4) as nat)
                && c.values() == zeros((max_seq_len * embedding_dim * 4) as nat),
    {
        assert(max_seq_len * embedding_dim <= usize::MAX) by (nonlinear_arith)
            requires
                max_seq_len * embedding_dim * 4 <= usize::MAX,
        ;
        let buffer_size = max_seq_len * embedding_dim * 4;
        let k_buffer = match UnifiedMemoryBuffer::new(buffer_size) {
            Ok(b) => b,
            Err(e) => {
                return Err(e);
            },
        };
        let v_buffer = match UnifiedMemoryBuffer::new(buffer_size) {
            Ok(b) => b,
            Err(e) => {
                return Err(e);
            },
        };
        Ok(KVCache { k_buffer, v_buffer })
    }

    /// The keys, for reading.
    pub fn k_data(&self) -> (r: &[u8])
        ensures
            r@ == self.keys(),
    {
        self.k_buffer.as_slice()
    }

    /// The keys, for writing in place.
    pub fn k_data_mut(&mut self) -> (r: &mut [u8])
        ensures
            r@ == old(self).keys(),
            final(r)@ == final(self).keys(),
            final(self).values() == old(self).values(),
    {
        self.k_buffer.as_mut_slice()
    }

    /// The values, for reading.
    pub fn v_data(&self) -> (r: &[u8])
        ensures
            r@ == self.values(),
    {
        self.v_buffer.as_slice()
    }

    /// The values, for writing in place.
    pub fn v_data_mut(&mut self) -> (r: &mut [u8])
        ensures
            r@ == old(self).values(),
            final(r)@ == final(self).values(),
            final(self).keys() == old(self).keys(),
    {
        self.v_buffer.as_mut_slice()
    }
}

/// A table of token embeddings.
pub struct EmbeddingTable {
    data: UnifiedMemoryBuffer,
}

impl EmbeddingTable {
    /// The table's contents.
    pub closed spec fn bytes(&self) -> Seq<u8> {
        self.data.bytes()
    }

    /// A table of `vocab_size` embeddings of `embedding_dim` floats, zeroed:
    /// `vocab_size * embedding_dim * 4` bytes.
    pub fn new(vocab_size: usize, embedding_dim: usize) -> (r: Result<Self, String>)
        requires
            vocab_size * embedding_dim * 4 <= usize::MAX,
        ensures
            r matches Ok(t) && t.bytes() == zeros((vocab_size * embedding_dim * 4) as nat),
    {
        assert(vocab_size * embedding_dim <= usize::MAX) by (nonlinear_arith)
            requires
                vocab_size * embedding_dim * 4 <= usize::MAX,
        ;
        let buffer_size = vocab_size * embedding_dim * 4;
        match UnifiedMemoryBuffer::new(buffer_size) {
            Ok(data) => Ok(EmbeddingTable { data }),
            Err(e) => Err(e),
        }
    }

    /// The embeddings, for reading.
    pub fn data(&self) -> (r: &[u8])
        ensures
            r@ == self.bytes(),
    {
        self.data.as_slice()
    }

    /// The embeddings, for writing in place.
    pub fn data_mut(&mut self) -> (r: &mut [u8])
        ensures
            r@ == old(self).bytes(),
            final(r)@ == final(self).bytes(),
    {
        self.data.as_mut_slice()
    }
}

} // verus!
