//! Persisted workflow run state and the in-memory index of it. Times are whole
//! seconds since the Unix epoch; reading and writing the state files is left to the
//! caller, which hands loaded states in and persists what the index reports.
use vstd::prelude::*;
use crate::text::{str_eq, views};

verus! {

/// Where a workflow run stands.
#[derive(Debug, Clone, Copy, PartialEq, Eq, Structural)]
pub enum WorkflowStatus {
    Pending,
    Running,
    Completed,
    Failed,
    Cancelled,
    Scheduled,
}

/// When a workflow runs again: an optional cron-like expression, the next run time,
/// whether it is enabled, an optional cap on runs and how many it has made.
#[derive(Debug, PartialEq)]
pub struct WorkflowSchedule {
    pub cron_expression: Option<String>,
    pub next_run: Option<u64>,
    pub enabled: bool,
    pub max_runs: Option<u32>,
    pub run_count: u32,
}

impl Clone for WorkflowSchedule {
    fn clone(&self) -> (r: Self)
        ensures
            r == *self,
    {
        WorkflowSchedule {
            cron_expression: match &self.cron_expression {
                Some(c) => Some(c.clone()),
                None => None,
            },
            next_run: self.next_run,
            enabled: self.enabled,
            max_runs: self.max_runs,
            run_count: self.run_count,
        }
    }
}

/// The persisted state of one workflow.
#[derive(Debug, PartialEq)]
pub struct WorkflowState {
    pub workflow_id: String,
    pub workflow_name: String,
    pub total_steps: usize,
    pub status: WorkflowStatus,
    pub workflow_path: Option<String>,
    pub schedule: Option<WorkflowSchedule>,
    pub completed_at: Option<u64>,
}

impl Clone for WorkflowState {
    fn clone(&self) -> (r: Self)
        ensures
            r == *self,
    {
        WorkflowState {
            workflow_id: self.workflow_id.clone(),
            workflow_name: self.workflow_name.clone(),
            total_steps: self.total_steps,
            status: self.status,
            workflow_path: match &self.workflow_path {
                Some(p) => Some(p.clone()),
                None => None,
            },
            schedule: match &self.schedule {
                Some(s) => Some(s.clone()),
                None => None,
            },
            completed_at: self.completed_at,
        }
    }
}

impl WorkflowState {
    /// A pending workflow with `total_steps` steps, no schedule and no path.
    pub fn new(workflow_id: String, workflow_name: String, total_steps: usize) -> (r: Self)
        ensures
            r.workflow_id == workflow_id,
            r.workflow_name == workflow_name,
            r.total_steps == total_steps,
            r.status == WorkflowStatus::Pending,
            r.workflow_path is None,
            r.schedule is None,
            r.completed_at is None,
    {
        WorkflowState {
            workflow_id,
            workflow_name,
            total_steps,
            status: WorkflowStatus::Pending,
            workflow_path: None,
            schedule: None,
            completed_at: None,
        }
    }
}

/// The position of the state with id `id` in `s`, if there is one.
pub open spec fn position_of(s: Seq<WorkflowState>, id: Seq<char>) -> Option<int> {
    if exists|i: int| 0 <= i < s.len() && (#[trigger] s[i]).workflow_id@ == id {
        Some(choose|i: int| 0 <= i < s.len() && (#[trigger] s[i]).workflow_id@ == id)
    } else {
        None
    }
}

/// No two states share an id.
pub open spec fn unique_ids(s: Seq<WorkflowState>) -> bool {
    forall|i: int, j: int|
        0 <= i < s.len() && 0 <= j < s.len() && i != j ==> (#[trigger] s[i]).workflow_id@
            != (#[trigger] s[j]).workflow_id@
}

/// `s` with `st` stored under its id: replacing the state with that id, or added
/// at the end.
pub open spec fn upsert(s: Seq<WorkflowState>, st: WorkflowState) -> Seq<WorkflowState> {
    match position_of(s, st.workflow_id@) {
        Some(i) => s.update(i, st),
        None => s.push(st),
    }
}

/// The states of `s` that satisfy `keep`, in order.
pub open spec fn keep_where(s: Seq<WorkflowState>, keep: spec_fn(WorkflowState) -> bool) -> Seq<
    WorkflowState,
>
    decreases s.len(),
{
    if s.len() == 0 {
        Seq::empty()
    } else if keep(s.last()) {
        keep_where(s.drop_last(), keep).push(s.last())
    } else {
        keep_where(s.drop_last(), keep)
    }
}

/// A state is kept unless its id is `id`.
pub open spec fn not_id(id: Seq<char>) -> spec_fn(WorkflowState) -> bool {
    |st: WorkflowState| st.workflow_id@ != id
}

/// Running or pending.
pub open spec fn is_active(st: WorkflowState) -> bool {
    st.status == WorkflowStatus::Running || st.status == WorkflowStatus::Pending
}

pub open spec fn is_scheduled(st: WorkflowState) -> bool {
    st.status == WorkflowStatus::Scheduled
}

/// A finished state (completed, failed or cancelled) that finished more than
/// `max_age_hours` hours before `now`.
pub open spec fn expired(st: WorkflowState, now: u64, max_age_hours: u64) -> bool {
    &&& (st.status == WorkflowStatus::Completed || st.status == WorkflowStatus::Failed
        || st.status == WorkflowStatus::Cancelled)
    &&& st.completed_at matches Some(c) && c + max_age_hours * 3600 < now
}

/// Keeping some states of a list with unique ids keeps ids unique, and keeps only
/// states of the list that pass the test.
pub proof fn lemma_keep_unique(s: Seq<WorkflowState>, keep: spec_fn(WorkflowState) -> bool)
    requires
        unique_ids(s),
    ensures
        unique_ids(keep_where(s, keep)),
        forall|k: int|
            0 <= k < keep_where(s, keep).len() ==> s.contains(#[trigger] keep_where(s, keep)[k])
                && keep(keep_where(s, keep)[k]),
    decreases s.len(),
{
    if s.len() > 0 {
        let d = s.drop_last();
        assert(unique_ids(d)) by {
            assert forall|i: int, j: int|
                0 <= i < d.len() && 0 <= j < d.len() && i != j implies (#[trigger] d[i]).workflow_id@
                != (#[trigger] d[j]).workflow_id@ by {
                assert(d[i] == s[i] && d[j] == s[j]);
            }
        }
        lemma_keep_unique(d, keep);
        let kd = keep_where(d, keep);
        assert forall|k: int| 0 <= k < kd.len() implies s.contains(#[trigger] kd[k]) by {
            let w = choose|w: int| 0 <= w < d.len() && d[w] == kd[k];
            assert(s[w] == d[w]);
        }
        if keep(s.last()) {
            let r = kd.push(s.last());
            assert forall|k: int| 0 <= k < kd.len() implies (#[trigger] kd[k]).workflow_id@
                != s.last().workflow_id@ by {
                let w = choose|w: int| 0 <= w < d.len() && d[w] == kd[k];
                assert(s[w] == d[w]);
                assert(s[s.len() - 1] == s.last());
            }
            assert forall|i: int, j: int|
                0 <= i < r.len() && 0 <= j < r.len() && i != j implies (#[trigger] r[i]).workflow_id@
                != (#[trigger] r[j]).workflow_id@ by {
                if i < kd.len() && j < kd.len() {
                    assert(r[i] == kd[i] && r[j] == kd[j]);
                } else if i < kd.len() {
                    assert(r[i] == kd[i]);
                } else if j < kd.len() {
                    assert(r[j] == kd[j]);
                }
            }
            assert forall|k: int| 0 <= k < r.len() implies s.contains(#[trigger] r[k]) && keep(
                r[k],
            ) by {
                if k < kd.len() {
                    assert(r[k] == kd[k]);
                } else {
                    assert(s[s.len() - 1] == r[k]);
                }
            }
        }
    }
}

/// The state index: at most one state per workflow id, in the order they were first
/// stored.
pub struct WorkflowStateManager {
    state_dir: String,
    states: Vec<WorkflowState>,
}

impl WorkflowStateManager {
    #[verifier::type_invariant]
    spec fn ids_are_unique(self) -> bool {
        unique_ids(self.states@)
    }

    /// The stored states.
    pub closed spec fn stored(self) -> Seq<WorkflowState> {
        self.states@
    }

    /// The directory the state files live in.
    pub closed spec fn dir(self) -> Seq<char> {
        self.state_dir@
    }

    fn find(&self, id: &str) -> (r: Option<usize>)
        ensures
            match r {
                Some(i) => position_of(self.stored(), id@) == Some(i as int),
                None => position_of(self.stored(), id@) is None,
            },
    {
        proof {
            use_type_invariant(self);
        }
        let mut i: usize = 0;
        while i < self.states.len()
            invariant
                i <= self.states@.len(),
                unique_ids(self.states@),
                forall|k: int| 0 <= k < i ==> (#[trigger] self.states@[k]).workflow_id@ != id@,
            decreases self.states@.len() - i,
        {
            if str_eq(self.states[i].workflow_id.as_str(), id) {
                proof {
                    let s = self.states@;
                    assert(exists|k: int| 0 <= k < s.len() && (#[trigger] s[k]).workflow_id@ == id@);
                    let c = choose|k: int| 0 <= k < s.len() && (#[trigger] s[k]).workflow_id@ == id@;
                    if c != i {
                        assert(s[c].workflow_id@ != s[i as int].workflow_id@);
                    }
                }
                return Some(i);
            }
            i = i + 1;
        }
        None
    }

    /// An empty index for `state_dir`.
    pub fn empty(state_dir: String) -> (r: Self)
        ensures
            r.stored().len() == 0,
            r.dir() == state_dir@,
    {
        WorkflowStateManager { state_dir, states: Vec::new() }
    }

    /// The index over the states read from `state_dir`, each stored in turn (a later
    /// state replaces an earlier one with the same id).
    pub fn new(state_dir: String, loaded: Vec<WorkflowState>) -> (r: Self)
        ensures
            r.dir() == state_dir@,
            r.stored() == upsert_all(Seq::empty(), loaded@),
            unique_ids(r.stored()),
    {
        let mut m = WorkflowStateManager::empty(state_dir);
        let mut i: usize = 0;
        while i < loaded.len()
            invariant
                i <= loaded@.len(),
                m.dir() == state_dir@,
                m.stored() == upsert_all(Seq::empty(), loaded@.subrange(0, i as int)),
                unique_ids(m.stored()),
            decreases loaded@.len() - i,
        {
            assert(loaded@.subrange(0, i + 1).drop_last() =~= loaded@.subrange(0, i as int));
            m.save_state(&loaded[i]);
            i = i + 1;
        }
        assert(loaded@.subrange(0, loaded@.len() as int) =~= loaded@);
        m
    }

    /// The directory the state files live in.
    pub fn state_dir(&self) -> (r: &str)
        ensures
            r@ == self.dir(),
    {
        self.state_dir.as_str()
    }

    /// Stores `state` under its id, replacing any state with that id.
    pub fn save_state(&mut self, state: &WorkflowState)
        ensures
            final(self).stored() == upsert(old(self).stored(), *state),
            unique_ids(final(self).stored()),
            final(self).dir() == old(self).dir(),
    {
        proof {
            use_type_invariant(&*self);
        }
        let ghost s = self.states@;
        match self.find(state.workflow_id.as_str()) {
            Some(i) => {
                let mut v: Vec<WorkflowState> = Vec::new();
                std::mem::swap(&mut v, &mut self.states);
                v.set(i, state.clone());
                assert(v@ =~= s.update(i as int, *state));
                assert(unique_ids(v@)) by {
                    let t = v@;
                    assert forall|a: int, b: int|
                        0 <= a < t.len() && 0 <= b < t.len() && a != b implies (#[trigger] t[a]).workflow_id@
                        != (#[trigger] t[b]).workflow_id@ by {
                        if a != i && b != i {
                            assert(t[a] == s[a] && t[b] == s[b]);
                        } else if a == i {
                            assert(t[b] == s[b]);
                            assert(s[i as int].workflow_id@ == state.workflow_id@);
                        } else {
                            assert(t[a] == s[a]);
                            assert(s[i as int].workflow_id@ == state.workflow_id@);
                        }
                    }
                }
                self.states = v;
            },
            None => {
                let mut v: Vec<WorkflowState> = Vec::new();
                std::mem::swap(&mut v, &mut self.states);
                v.push(state.clone());
                assert(v@ =~= s.push(*state));
                assert(unique_ids(v@)) by {
                    let t = v@;
                    assert forall|a: int, b: int|
                        0 <= a < t.len() && 0 <= b < t.len() && a != b implies (#[trigger] t[a]).workflow_id@
                        != (#[trigger] t[b]).workflow_id@ by {
                        if a < s.len() && b < s.len() {
                            assert(t[a] == s[a] && t[b] == s[b]);
                        } else if a < s.len() {
                            assert(t[a] == s[a]);
                        } else {
                            assert(t[b] == s[b]);
                        }
                    }
                }
                self.states = v;
            },
        }
    }

    /// The stored state with id `workflow_id`.
    pub fn get_state(&self, workflow_id: &str) -> (r: Option<WorkflowState>)
        ensures
            match position_of(self.stored(), workflow_id@) {
                Some(i) => r == Some(self.stored()[i]),
                None => r is None,
            },
    {
        match self.find(workflow_id) {
            Some(i) => Some(self.states[i].clone()),
            None => None,
        }
    }

    /// Forgets the state with id `workflow_id`; nothing happens when there is none.
    pub fn delete_state(&mut self, workflow_id: &str)
        ensures
            final(self).stored() == keep_where(old(self).stored(), not_id(workflow_id@)),
            unique_ids(final(self).stored()),
            final(self).dir() == old(self).dir(),
    {
        proof {
            use_type_invariant(&*self);
        }
        let ghost s = self.states@;
        let mut kept: Vec<WorkflowState> = Vec::new();
        let mut i: usize = 0;
        while i < self.states.len()
            invariant
                i <= s.len(),
                s == self.states@,
                kept@ == keep_where(s.subrange(0, i as int), not_id(workflow_id@)),
            decreases s.len() - i,
        {
            assert(s.subrange(0, i + 1).drop_last() =~= s.subrange(0, i as int));
            if !str_eq(self.states[i].workflow_id.as_str(), workflow_id) {
                kept.push(self.states[i].clone());
            }
            i = i + 1;
        }
        assert(s.subrange(0, s.len() as int) =~= s);
        proof {
            lemma_keep_unique(s, not_id(workflow_id@));
        }
        self.states = kept;
    }

    fn states_where(&self, which: u8) -> (r: Vec<WorkflowState>)
        requires
            which < 3,
        ensures
            r@ == keep_where(
                self.stored(),
                if which == 0 {
                    |st: WorkflowState| true
                } else if which == 1 {
                    |st: WorkflowState| is_active(st)
                } else {
                    |st: WorkflowState| is_scheduled(st)
                },
            ),
    {
        let ghost keep = if which == 0 {
            |st: WorkflowState| true
        } else if which == 1 {
            |st: WorkflowState| is_active(st)
        } else {
            |st: WorkflowState| is_scheduled(st)
        };
        let ghost s = self.states@;
        let mut out: Vec<WorkflowState> = Vec::new();
        let mut i: usize = 0;
        while i < self.states.len()
            invariant
                which < 3,
                i <= s.len(),
                s == self.states@,
                keep == (if which == 0 {
                    |st: WorkflowState| true
                } else if which == 1 {
                    |st: WorkflowState| is_active(st)
                } else {
                    |st: WorkflowState| is_scheduled(st)
                }),
                out@ == keep_where(s.subrange(0, i as int), keep),
            decreases s.len() - i,
        {
            assert(s.subrange(0, i + 1).drop_last() =~= s.subrange(0, i as int));
            let st = &self.states[i];
            let wanted = if which == 0 {
                true
            } else if which == 1 {
                match st.status {
                    WorkflowStatus::Running | WorkflowStatus::Pending => true,
                    _ => false,
                }
            } else {
                match st.status {
                    WorkflowStatus::Scheduled => true,
                    _ => false,
                }
            };
            assert(wanted == keep(*st));
            if wanted {
                out.push(st.clone());
            }
            i = i + 1;
        }
        assert(s.subrange(0, s.len() as int) =~= s);
        out
    }

    /// Every stored state, in storage order.
    pub fn list_states(&self) -> (r: Vec<WorkflowState>)
        ensures
            r@ == self.stored(),
    {
        let r = self.states_where(0);
        proof {
            lemma_keep_all(self.stored());
        }
        r
    }

    /// The running and pending states.
    pub fn list_active_workflows(&self) -> (r: Vec<WorkflowState>)
        ensures
            r@ == keep_where(self.stored(), |st: WorkflowState| is_active(st)),
    {
        self.states_where(1)
    }

    /// The scheduled states.
    pub fn list_scheduled_workflows(&self) -> (r: Vec<WorkflowState>)
        ensures
            r@ == keep_where(self.stored(), |st: WorkflowState| is_scheduled(st)),
    {
        self.states_where(2)
    }

    /// Forgets the finished states that finished more than `max_age_hours` hours
    /// before `now`, and returns their ids in storage order (the caller removes
    /// their files; their number is what was cleaned up).
    pub fn cleanup_old_states(&mut self, now: u64, max_age_hours: u64) -> (r: Vec<String>)
        requires
            max_age_hours * 3600 <= u64::MAX,
        ensures
            final(self).stored() == keep_where(
                old(self).stored(),
                |st: WorkflowState| !expired(st, now, max_age_hours),
            ),
            views(r@) == keep_where(
                old(self).stored(),
                |st: WorkflowState| expired(st, now, max_age_hours),
            ).map_values(|st: WorkflowState| st.workflow_id@),
            final(self).dir() == old(self).dir(),
    {
        proof {
            use_type_invariant(&*self);
        }
        let ghost s = self.states@;
        let ghost stay = |st: WorkflowState| !expired(st, now, max_age_hours);
        let ghost gone = |st: WorkflowState| expired(st, now, max_age_hours);
        let mut kept: Vec<WorkflowState> = Vec::new();
        let mut removed: Vec<String> = Vec::new();
        let age: u64 = max_age_hours * 3600;
        let mut i: usize = 0;
        while i < self.states.len()
            invariant
                i <= s.len(),
                s == self.states@,
                age == max_age_hours * 3600,
                stay == (|st: WorkflowState| !expired(st, now, max_age_hours)),
                gone == (|st: WorkflowState| expired(st, now, max_age_hours)),
                kept@ == keep_where(s.subrange(0, i as int), stay),
                views(removed@) == keep_where(s.subrange(0, i as int), gone).map_values(
                    |st: WorkflowState| st.workflow_id@,
                ),
            decreases s.len() - i,
        {
            assert(s.subrange(0, i + 1).drop_last() =~= s.subrange(0, i as int));
            let st = &self.states[i];
            let finished = match st.status {
                WorkflowStatus::Completed | WorkflowStatus::Failed | WorkflowStatus::Cancelled => true,
                _ => false,
            };
            let old_enough = match st.completed_at {
                Some(c) => (c as u128) + (age as u128) < (now as u128),
                None => false,
            };
            assert((finished && old_enough) == expired(*st, now, max_age_hours));
            let ghost before = keep_where(s.subrange(0, i as int), gone);
            if finished && old_enough {
                let ghost r0 = views(removed@);
                removed.push(st.workflow_id.clone());
                assert(views(removed@) =~= r0.push(st.workflow_id@));
                assert(before.push(*st).map_values(|st: WorkflowState| st.workflow_id@) =~= before.map_values(
                    |st: WorkflowState| st.workflow_id@,
                ).push(st.workflow_id@));
            } else {
                kept.push(st.clone());
            }
            i = i + 1;
        }
        assert(s.subrange(0, s.len() as int) =~= s);
        proof {
            lemma_keep_unique(s, stay);
        }
        self.states = kept;
        removed
    }
}

proof fn lemma_keep_all(s: Seq<WorkflowState>)
    ensures
        keep_where(s, |st: WorkflowState| true) == s,
    decreases s.len(),
{
    if s.len() > 0 {
        lemma_keep_all(s.drop_last());
        assert(s.drop_last().push(s.last()) =~= s);
    }
}

/// `s` with each of `more` stored in turn.
pub open spec fn upsert_all(s: Seq<WorkflowState>, more: Seq<WorkflowState>) -> Seq<WorkflowState>
    decreases more.len(),
{
    if more.len() == 0 {
        s
    } else {
        upsert(upsert_all(s, more.drop_last()), more.last())
    }
}

/// Every state that storing `more` into `s` leaves comes from `s` or from `more`.
pub proof fn lemma_upsert_all_members(s: Seq<WorkflowState>, more: Seq<WorkflowState>)
    ensures
        forall|k: int|
            0 <= k < upsert_all(s, more).len() ==> s.contains(#[trigger] upsert_all(s, more)[k])
                || more.contains(upsert_all(s, more)[k]),
    decreases more.len(),
{
    if more.len() > 0 {
        let d = more.drop_last();
        lemma_upsert_all_members(s, d);
        let prev = upsert_all(s, d);
        let r = upsert_all(s, more);
        assert forall|k: int| 0 <= k < r.len() implies s.contains(#[trigger] r[k]) || more.contains(r[k]) by {
            if r[k] != more.last() {
                match position_of(prev, more.last().workflow_id@) {
                    Some(i) => {
                        assert(r[k] == prev[k]);
                    },
                    None => {
                        assert(r[k] == prev[k]);
                    },
                }
                if d.contains(prev[k]) {
                    let w = choose|w: int| 0 <= w < d.len() && d[w] == prev[k];
                    assert(more[w] == d[w]);
                }
            } else {
                assert(more[more.len() - 1] == more.last());
            }
        }
    }
}

/// Storing a state and then looking up its id gives that state back.
pub proof fn lemma_saved_state_is_found(s: Seq<WorkflowState>, st: WorkflowState)
    requires
        unique_ids(s),
    ensures
        ({
            let r = upsert(s, st);
            position_of(r, st.workflow_id@) matches Some(i) && r[i] == st
        }),
{
    let r = upsert(s, st);
    let target: int = match position_of(s, st.workflow_id@) {
        Some(i) => i,
        None => s.len() as int,
    };
    assert(r[target] == st);
    assert(r[target].workflow_id@ == st.workflow_id@);
    let j = choose|j: int| 0 <= j < r.len() && (#[trigger] r[j]).workflow_id@ == st.workflow_id@;
    if j != target {
        match position_of(s, st.workflow_id@) {
            Some(i) => {
                assert(r[j] == s[j]);
                assert(s[i].workflow_id@ == st.workflow_id@);
            },
            None => {
                assert(r[j] == s[j]);
            },
        }
    }
}

/// After a state is forgotten, looking up its id finds nothing.
pub proof fn lemma_deleted_state_is_gone(s: Seq<WorkflowState>, id: Seq<char>)
    ensures
        position_of(keep_where(s, not_id(id)), id) is None,
    decreases s.len(),
{
    if s.len() > 0 {
        lemma_deleted_state_is_gone(s.drop_last(), id);
        let p = keep_where(s.drop_last(), not_id(id));
        let r = keep_where(s, not_id(id));
        if exists|i: int| 0 <= i < r.len() && (#[trigger] r[i]).workflow_id@ == id {
            let i = choose|i: int| 0 <= i < r.len() && (#[trigger] r[i]).workflow_id@ == id;
            if i < p.len() {
                assert(r[i] == p[i]);
            }
        }
    }
}

} // verus!
