use lao_orchestrator_core::unified_memory::{EmbeddingTable, KVCache, UnifiedMemoryBuffer};

#[test]
fn test_unified_memory_allocation() {
    let buf = UnifiedMemoryBuffer::new(1024);
    assert!(buf.is_ok());
    let buf = buf.unwrap();
    assert_eq!(buf.len(), 1024);
}

#[test]
fn test_kv_cache_creation() {
    let cache = KVCache::new(512, 128);
    assert!(cache.is_ok());
}

#[test]
fn test_embedding_table() {
    let table = EmbeddingTable::new(32000, 4096);
    assert!(table.is_ok());
}

#[test]
fn test_buffer_access() {
    let mut buf = UnifiedMemoryBuffer::new(256).unwrap();
    let slice = buf.as_mut_slice();
    slice[0] = 42;
    assert_eq!(buf.as_slice()[0], 42);
}

#[test]
fn buffers_start_zeroed_and_clone_separately() {
    let mut buf = UnifiedMemoryBuffer::new(4).unwrap();
    assert_eq!(buf.as_slice(), &[0, 0, 0, 0]);
    let copy = buf.clone();
    buf.as_mut_slice()[1] = 7;
    assert_eq!(copy.as_slice(), &[0, 0, 0, 0]);
    assert_eq!(buf.as_slice(), &[0, 7, 0, 0]);
}

#[test]
fn kv_cache_buffers_hold_four_bytes_per_float() {
    let mut cache = KVCache::new(3, 2).unwrap();
    assert_eq!(cache.k_data().len(), 24);
    assert_eq!(cache.v_data().len(), 24);
    cache.k_data_mut()[0] = 1;
    cache.v_data_mut()[23] = 2;
    assert_eq!(cache.k_data()[0], 1);
    assert_eq!(cache.v_data()[0], 0);
    assert_eq!(cache.v_data()[23], 2);
    let mut t = EmbeddingTable::new(2, 2).unwrap();
    t.data_mut()[15] = 9;
    assert_eq!(t.data().len(), 16);
    assert_eq!(t.data()[15], 9);
}
