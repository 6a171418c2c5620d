//! Model registry: resolves logical roles to physical model files, backends and
//! metadata. Pure data plus validation.
use vstd::prelude::*;
use crate::model::types::{ModelId, ModelRole, RoleView};
use crate::text::{chars_of, push_str, string_of};

verus! {

/// One configured model.
#[derive(Debug, PartialEq)]
pub struct ModelEntry {
    pub id: ModelId,
    pub format: String,
    pub path: String,
    pub backend: String,
    pub context_tokens: Option<u32>,
    pub estimated_memory_bytes: Option<u64>,
    pub roles: Vec<ModelRole>,
    /// Backend-specific execution parameters, as JSON text.
    pub execution_config: String,
    /// Overrides the backend's default tool-calling capability when `Some`.
    pub tool_calling: Option<bool>,
    /// Whether the model supports extended reasoning, when declared.
    pub reasoning: Option<bool>,
}

/// A registry construction failure.
#[derive(Debug, PartialEq)]
pub struct RegistryError {
    pub message: String,
}

/// The ids of a sequence of entries, in order.
pub open spec fn entry_ids(entries: Seq<ModelEntry>) -> Seq<Seq<char>> {
    entries.map_values(|e: ModelEntry| e.id@)
}

/// No id occurs twice.
pub open spec fn distinct(ids: Seq<Seq<char>>) -> bool {
    forall|i: int, j: int| 0 <= i < j < ids.len() ==> ids[i] != ids[j]
}

/// `j` is the first position whose id already occurred earlier.
pub open spec fn first_duplicate_at(ids: Seq<Seq<char>>, j: int) -> bool {
    &&& 0 <= j < ids.len()
    &&& exists|i: int| 0 <= i < j && ids[i] == ids[j]
    &&& distinct(ids.subrange(0, j))
}

/// The roles of a role table, in order.
pub open spec fn role_keys(roles: Seq<(ModelRole, Vec<ModelId>)>) -> Seq<RoleView> {
    roles.map_values(|r: (ModelRole, Vec<ModelId>)| r.0@)
}

/// No role occurs twice.
pub open spec fn distinct_roles(keys: Seq<RoleView>) -> bool {
    forall|i: int, j: int| 0 <= i < j < keys.len() ==> keys[i] != keys[j]
}

/// Every id that some role lists is the id of an entry.
pub open spec fn roles_resolve(roles: Seq<(ModelRole, Vec<ModelId>)>, ids: Seq<Seq<char>>) -> bool {
    forall|r: int, k: int|
        0 <= r < roles.len() && 0 <= k < roles[r].1@.len() ==> ids.contains(
            #[trigger] roles[r].1@[k]@,
        )
}

/// `(r, k)` is the first role reference (in table order) to an id without an entry.
pub open spec fn first_unknown_at(
    roles: Seq<(ModelRole, Vec<ModelId>)>,
    ids: Seq<Seq<char>>,
    r: int,
    k: int,
) -> bool {
    &&& 0 <= r < roles.len()
    &&& 0 <= k < roles[r].1@.len()
    &&& !ids.contains(roles[r].1@[k]@)
    &&& forall|r2: int, k2: int|
        0 <= r2 < roles.len() && 0 <= k2 < roles[r2].1@.len() && (r2 < r || (r2 == r && k2 < k))
            ==> ids.contains(#[trigger] roles[r2].1@[k2]@)
}

/// The registry: entries with distinct ids, and per-role candidate lists that only
/// name registered models.
pub struct ModelRegistry {
    entries: Vec<ModelEntry>,
    roles: Vec<(ModelRole, Vec<ModelId>)>,
}

impl ModelRegistry {
    #[verifier::type_invariant]
    spec fn well_formed(self) -> bool {
        &&& distinct(entry_ids(self.entries@))
        &&& distinct_roles(role_keys(self.roles@))
        &&& roles_resolve(self.roles@, entry_ids(self.entries@))
    }

    /// The registered entries, in insertion order.
    pub closed spec fn entry_seq(&self) -> Seq<ModelEntry> {
        self.entries@
    }

    /// The role table.
    pub closed spec fn role_seq(&self) -> Seq<(ModelRole, Vec<ModelId>)> {
        self.roles@
    }

    /// The entry registered under `id`, if any.
    pub open spec fn lookup(&self, id: Seq<char>) -> Option<ModelEntry> {
        if exists|i: int| 0 <= i < self.entry_seq().len() && (#[trigger] self.entry_seq()[i]).id@
            == id {
            Some(
                self.entry_seq()[choose|i: int|
                    0 <= i < self.entry_seq().len() && (#[trigger] self.entry_seq()[i]).id@
                        == id],
            )
        } else {
            None
        }
    }

    /// The configured candidate ids for a role (empty when the role has no table).
    pub open spec fn role_candidates(&self, role: RoleView) -> Seq<Seq<char>> {
        if exists|r: int| 0 <= r < self.role_seq().len() && (#[trigger] self.role_seq()[r]).0@
            == role {
            self.role_seq()[choose|r: int|
                0 <= r < self.role_seq().len() && (#[trigger] self.role_seq()[r]).0@
                    == role].1@.map_values(|m: ModelId| m@)
        } else {
            Seq::empty()
        }
    }

    /// Validates and builds a registry. Fails on the first duplicate model id, then
    /// on the first role reference to an unregistered model.
    pub fn new(entries: Vec<ModelEntry>, roles: Vec<(ModelRole, Vec<ModelId>)>) -> (r: Result<
        Self,
        RegistryError,
    >)
        requires
            distinct_roles(role_keys(roles@)),
        ensures
            r matches Ok(reg) ==> reg.entry_seq() == entries@ && reg.role_seq() == roles@,
            r is Ok <==> distinct(entry_ids(entries@)) && roles_resolve(
                roles@,
                entry_ids(entries@),
            ),
            !distinct(entry_ids(entries@)) ==> (r matches Err(e) && exists|j: int|
                first_duplicate_at(entry_ids(entries@), j) && e.message@ == "duplicate model id '"@
                    + entry_ids(entries@)[j] + "'"@),
            distinct(entry_ids(entries@)) && !roles_resolve(roles@, entry_ids(entries@)) ==> (
            r matches Err(e) && exists|ri: int, k: int|
                first_unknown_at(roles@, entry_ids(entries@), ri, k) && e.message@ == "role '"@
                    + crate::model::types::role_name(roles@[ri].0@) + "' references unknown model '"@
                    + roles@[ri].1@[k]@ + "'"@),
    {
        let ghost ids = entry_ids(entries@);
        let mut j: usize = 0;
        while j < entries.len()
            invariant
                j <= entries@.len(),
                ids == entry_ids(entries@),
                distinct(ids.subrange(0, j as int)),
            decreases entries@.len() - j,
        {
            let mut i: usize = 0;
            while i < j
                invariant
                    i <= j < entries@.len(),
                    ids == entry_ids(entries@),
                    distinct(ids.subrange(0, j as int)),
                    forall|k: int| 0 <= k < i ==> ids[k] != ids[j as int],
                decreases j - i,
            {
                if entries[i].id.0 == entries[j].id.0 {
                    let mut msg: Vec<char> = Vec::new();
                    push_str(&mut msg, "duplicate model id '");
                    push_str(&mut msg, entries[j].id.0.as_str());
                    push_str(&mut msg, "'");
                    proof {
                        assert(ids[i as int] == ids[j as int]);
                        assert(first_duplicate_at(ids, j as int));
                        assert(!distinct(ids));
                    }
                    return Err(RegistryError { message: string_of(msg.as_slice()) });
                }
                i = i + 1;
            }
            proof {
                assert forall|a: int, b: int|
                    0 <= a < b < j + 1 implies #[trigger] ids.subrange(0, j + 1)[a]
                    != #[trigger] ids.subrange(0, j + 1)[b] by {
                    if b < j {
                        assert(ids.subrange(0, j as int)[a] != ids.subrange(0, j as int)[b]);
                    }
                }
            }
            j = j + 1;
        }
        assert(ids.subrange(0, entries@.len() as int) =~= ids);
        let mut ri: usize = 0;
        while ri < roles.len()
            invariant
                ri <= roles@.len(),
                ids == entry_ids(entries@),
                distinct(ids),
                forall|r2: int, k2: int|
                    0 <= r2 < ri && 0 <= k2 < roles@[r2].1@.len() ==> ids.contains(
                        #[trigger] roles@[r2].1@[k2]@,
                    ),
            decreases roles@.len() - ri,
        {
            let mut k: usize = 0;
            while k < roles[ri].1.len()
                invariant
                    ri < roles@.len(),
                    k <= roles@[ri as int].1@.len(),
                    ids == entry_ids(entries@),
                    distinct(ids),
                    forall|r2: int, k2: int|
                        0 <= r2 < ri && 0 <= k2 < roles@[r2].1@.len() ==> ids.contains(
                            #[trigger] roles@[r2].1@[k2]@,
                        ),
                    forall|k2: int| 0 <= k2 < k ==> ids.contains(#[trigger] roles@[ri as int].1@[k2]@),
                decreases roles@[ri as int].1@.len() - k,
            {
                let mut found = false;
                let mut e: usize = 0;
                while e < entries.len()
                    invariant
                        ri < roles@.len(),
                        k < roles@[ri as int].1@.len(),
                        e <= entries@.len(),
                        ids == entry_ids(entries@),
                        found ==> ids.contains(roles@[ri as int].1@[k as int]@),
                        !found ==> forall|x: int| 0 <= x < e ==> ids[x] != roles@[ri as int].1@[k as int]@,
                    decreases entries@.len() - e,
                {
                    if entries[e].id.0 == roles[ri].1[k].0 {
                        proof {
                            assert(ids[e as int] == roles@[ri as int].1@[k as int]@);
                        }
                        found = true;
                    }
                    e = e + 1;
                }
                if !found {
                    let mut msg: Vec<char> = Vec::new();
                    push_str(&mut msg, "role '");
                    let rn = roles[ri].0.name();
                    push_str(&mut msg, rn.as_str());
                    push_str(&mut msg, "' references unknown model '");
                    push_str(&mut msg, roles[ri].1[k].0.as_str());
                    push_str(&mut msg, "'");
                    proof {
                        assert(!ids.contains(roles@[ri as int].1@[k as int]@));
                        assert(first_unknown_at(roles@, ids, ri as int, k as int));
                    }
                    return Err(RegistryError { message: string_of(msg.as_slice()) });
                }
                k = k + 1;
            }
            ri = ri + 1;
        }
        let reg = ModelRegistry { entries, roles };
        Ok(reg)
    }

    /// The entry registered under `id`.
    pub fn get(&self, id: &ModelId) -> (r: Option<&ModelEntry>)
        ensures
            r is None <==> self.lookup(id@) is None,
            r matches Some(e) ==> self.lookup(id@) == Some(*e),
    {
        proof {
            use_type_invariant(self);
        }
        let mut i: usize = 0;
        while i < self.entries.len()
            invariant
                i <= self.entries@.len(),
                distinct(entry_ids(self.entries@)),
                forall|k: int| 0 <= k < i ==> self.entries@[k].id@ != id@,
            decreases self.entries@.len() - i,
        {
            if self.entries[i].id.0 == id.0 {
                proof {
                    let c = choose|c: int|
                        0 <= c < self.entry_seq().len() && (#[trigger] self.entry_seq()[c]).id@
                            == id@;
                    assert(self.entry_seq()[i as int].id@ == id@);
                    if c != i {
                        let (a, b) = if c < i { (c, i as int) } else { (i as int, c) };
                        assert(entry_ids(self.entries@)[a] == entry_ids(self.entries@)[b]);
                    }
                }
                return Some(&self.entries[i]);
            }
            i = i + 1;
        }
        None
    }

    /// Candidate models for a role, in configured priority order.
    pub fn candidates_for_role(&self, role: &ModelRole) -> (r: Vec<ModelId>)
        ensures
            r@.map_values(|m: ModelId| m@) == self.role_candidates(role@),
    {
        proof {
            use_type_invariant(self);
        }
        let mut i: usize = 0;
        while i < self.roles.len()
            invariant
                i <= self.roles@.len(),
                distinct_roles(role_keys(self.roles@)),
                forall|k: int| 0 <= k < i ==> self.roles@[k].0@ != role@,
            decreases self.roles@.len() - i,
        {
            if self.roles[i].0.same_as(role) {
                let ids = &self.roles[i].1;
                let mut out: Vec<ModelId> = Vec::new();
                let mut k: usize = 0;
                while k < ids.len()
                    invariant
                        k <= ids@.len(),
                        out@.map_values(|m: ModelId| m@) == ids@.subrange(0, k as int).map_values(
                            |m: ModelId| m@,
                        ),
                    decreases ids@.len() - k,
                {
                    let c = ids[k].clone();
                    assert(c@ == ids@[k as int]@);
                    let ghost prev = out@;
                    out.push(c);
                    proof {
                        assert(out@.map_values(|m: ModelId| m@) =~= prev.map_values(|m: ModelId| m@).push(c@));
                        assert(ids@.subrange(0, k + 1).map_values(|m: ModelId| m@) =~= ids@.subrange(0, k as int).map_values(|m: ModelId| m@).push(ids@[k as int]@));
                    }
                    k = k + 1;
                    assert(out@.map_values(|m: ModelId| m@) =~= ids@.subrange(
                        0,
                        k as int,
                    ).map_values(|m: ModelId| m@));
                }
                proof {
                    assert(ids@.subrange(0, ids@.len() as int) =~= ids@);
                    let c = choose|c: int|
                        0 <= c < self.role_seq().len() && (#[trigger] self.role_seq()[c]).0@
                            == role@;
                    assert(self.role_seq()[i as int].0@ == role@);
                    if c != i {
                        let (a, b) = if c < i { (c, i as int) } else { (i as int, c) };
                        assert(role_keys(self.roles@)[a] == role_keys(self.roles@)[b]);
                    }
                }
                return out;
            }
            i = i + 1;
        }
        let out: Vec<ModelId> = Vec::new();
        assert(out@.map_values(|m: ModelId| m@) =~= Seq::<Seq<char>>::empty());
        out
    }

    /// Number of registered models.
    pub fn len(&self) -> (r: usize)
        ensures
            r == self.entry_seq().len(),
    {
        self.entries.len()
    }

    /// Whether no model is registered.
    pub fn is_empty(&self) -> (r: bool)
        ensures
            r == (self.entry_seq().len() == 0),
    {
        self.entries.len() == 0
    }
}

/// The entry with the same fields as `e`, its roles the same sequence.
pub open spec fn same_entry(a: ModelEntry, e: ModelEntry) -> bool {
    &&& a.id == e.id
    &&& a.format == e.format
    &&& a.path == e.path
    &&& a.backend == e.backend
    &&& a.context_tokens == e.context_tokens
    &&& a.estimated_memory_bytes == e.estimated_memory_bytes
    &&& a.roles@ == e.roles@
    &&& a.execution_config == e.execution_config
    &&& a.tool_calling == e.tool_calling
    &&& a.reasoning == e.reasoning
}

impl Clone for ModelEntry {
    fn clone(&self) -> (r: Self)
        ensures
            same_entry(r, *self),
    {
        let mut roles: Vec<ModelRole> = Vec::new();
        let mut k: usize = 0;
        while k < self.roles.len()
            invariant
                k <= self.roles@.len(),
                roles@ == self.roles@.subrange(0, k as int),
            decreases self.roles@.len() - k,
        {
            roles.push(self.roles[k].clone());
            k = k + 1;
            assert(roles@ =~= self.roles@.subrange(0, k as int));
        }
        assert(self.roles@.subrange(0, self.roles@.len() as int) =~= self.roles@);
        ModelEntry {
            id: self.id.clone(),
            format: self.format.clone(),
            path: self.path.clone(),
            backend: self.backend.clone(),
            context_tokens: self.context_tokens,
            estimated_memory_bytes: self.estimated_memory_bytes,
            roles,
            execution_config: self.execution_config.clone(),
            tool_calling: self.tool_calling,
            reasoning: self.reasoning,
        }
    }
}

/// What the filesystem reports for a model's path.
pub enum PathState {
    /// A regular file of this many bytes.
    File { size: u64 },
    /// A directory (a model kept as a directory of files).
    Directory,
    /// Something that is neither.
    Other,
    /// It could not be read; the error's message.
    Unreadable(String),
}

/// An entry with whether its model can be loaded, why not, and its file's size.
#[derive(Debug, PartialEq)]
pub struct ResolvedModelEntry {
    pub entry: ModelEntry,
    pub available: bool,
    pub unavailable_reason: Option<String>,
    pub file_size_bytes: Option<u64>,
}

/// `r` is resolved from a model at `path` whose path turned out as `state`: a regular
/// file is available with its size, a directory is available without one, anything
/// else is unavailable with the reason.
pub open spec fn resolution_of(r: ResolvedModelEntry, path: Seq<char>, state: PathState) -> bool {
    match state {
        PathState::File { size } => r.available && r.unavailable_reason is None
            && r.file_size_bytes == Some(size),
        PathState::Directory => r.available && r.unavailable_reason is None
            && r.file_size_bytes is None,
        PathState::Other => !r.available && r.file_size_bytes is None && (r.unavailable_reason matches Some(m)
            && m@ == path + " is neither a regular file nor a directory"@),
        PathState::Unreadable(e) => !r.available && r.file_size_bytes is None && (r.unavailable_reason matches Some(m)
            && m@ == path + ": "@ + e@),
    }
}

/// The entry resolved against what its path turned out to be. A missing file is
/// unavailable, not an error.
pub fn resolve_entry(entry: ModelEntry, state: PathState) -> (r: ResolvedModelEntry)
    ensures
        r.entry == entry,
        resolution_of(r, entry.path@, state),
{
    match state {
        PathState::File { size } => ResolvedModelEntry {
            entry,
            available: true,
            unavailable_reason: None,
            file_size_bytes: Some(size),
        },
        PathState::Directory => ResolvedModelEntry {
            entry,
            available: true,
            unavailable_reason: None,
            file_size_bytes: None,
        },
        PathState::Other => {
            let mut v = chars_of(entry.path.as_str());
            push_str(&mut v, " is neither a regular file nor a directory");
            ResolvedModelEntry {
                entry,
                available: false,
                unavailable_reason: Some(string_of(v.as_slice())),
                file_size_bytes: None,
            }
        },
        PathState::Unreadable(e) => {
            let mut v = chars_of(entry.path.as_str());
            push_str(&mut v, ": ");
            push_str(&mut v, e.as_str());
            ResolvedModelEntry {
                entry,
                available: false,
                unavailable_reason: Some(string_of(v.as_slice())),
                file_size_bytes: None,
            }
        },
    }
}

fn copy_state(s: &PathState) -> (r: PathState)
    ensures
        r == *s,
{
    match s {
        PathState::File { size } => PathState::File { size: *size },
        PathState::Directory => PathState::Directory,
        PathState::Other => PathState::Other,
        PathState::Unreadable(e) => PathState::Unreadable(e.clone()),
    }
}

impl ModelRegistry {
    /// The entry under `id` resolved against what its path turned out to be
    /// (`resolve_entry`); none when no model has that id.
    pub fn resolve(&self, id: &ModelId, state: PathState) -> (r: Option<ResolvedModelEntry>)
        ensures
            r is None <==> self.lookup(id@) is None,
            r matches Some(res) ==> same_entry(res.entry, self.lookup(id@)->0) && resolution_of(
                res,
                self.lookup(id@)->0.path@,
                state,
            ),
    {
        match self.get(id) {
            Some(e) => Some(resolve_entry(e.clone(), state)),
            None => None,
        }
    }

    /// The paths of the registered models, in registration order.
    pub fn paths(&self) -> (r: Vec<String>)
        ensures
            r@.len() == self.entry_seq().len(),
            forall|i: int| 0 <= i < r@.len() ==> r@[i] == #[trigger] self.entry_seq()[i].path,
    {
        let mut out: Vec<String> = Vec::new();
        let mut i: usize = 0;
        while i < self.entries.len()
            invariant
                i <= self.entries@.len(),
                out@.len() == i,
                forall|k: int| 0 <= k < i ==> out@[k] == #[trigger] self.entries@[k].path,
            decreases self.entries@.len() - i,
        {
            out.push(self.entries[i].path.clone());
            i = i + 1;
        }
        out
    }

    /// Every entry, in registration order, resolved against the state of its path
    /// (`states` in the order of `paths`).
    pub fn all_resolved(&self, states: &Vec<PathState>) -> (r: Vec<ResolvedModelEntry>)
        requires
            states@.len() == self.entry_seq().len(),
        ensures
            r@.len() == self.entry_seq().len(),
            forall|i: int|
                0 <= i < r@.len() ==> same_entry(#[trigger] r@[i].entry, self.entry_seq()[i])
                    && resolution_of(r@[i], self.entry_seq()[i].path@, states@[i]),
    {
        let mut out: Vec<ResolvedModelEntry> = Vec::new();
        let mut i: usize = 0;
        while i < self.entries.len()
            invariant
                i <= self.entries@.len(),
                states@.len() == self.entries@.len(),
                out@.len() == i,
                forall|k: int|
                    0 <= k < i ==> same_entry(#[trigger] out@[k].entry, self.entries@[k])
                        && resolution_of(out@[k], self.entries@[k].path@, states@[k]),
            decreases self.entries@.len() - i,
        {
            let e = self.entries[i].clone();
            let r = resolve_entry(e, copy_state(&states[i]));
            out.push(r);
            i = i + 1;
        }
        out
    }
}

} // verus!
