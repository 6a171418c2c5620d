//! The workflow scheduler: which workflows run when, which are due, and how a run
//! advances a schedule. Times are whole seconds since the Unix epoch, handed in by
//! the caller, which also runs the due workflows and persists the states that the
//! scheduler reports.
use vstd::prelude::*;
use crate::text::{
    chars_of, parse_u32, parse_u64, parse_unsigned, push_str, split_chars, split_on, str_eq,
    string_of, views,
};
use crate::workflow_state::{
    is_scheduled, keep_where, lemma_keep_unique, lemma_upsert_all_members, not_id, unique_ids, upsert,
    upsert_all, WorkflowSchedule, WorkflowState, WorkflowStateManager, WorkflowStatus,
};
use crate::workflow_types::StepLog;

verus! {

/// How long a run-due lock may exist before it is taken as stale and reclaimed.
pub const RUN_DUE_LOCK_STALE_SECS: u64 = 3600;

/// Whether a run-due lock of the given age (when it could be measured) is stale.
pub fn lock_is_stale(age_secs: Option<u64>) -> (r: bool)
    ensures
        r == (age_secs matches Some(a) && a > RUN_DUE_LOCK_STALE_SECS),
{
    match age_secs {
        Some(a) => a > RUN_DUE_LOCK_STALE_SECS,
        None => false,
    }
}

/// When a cron-like expression next fires after `now`: `interval:<minutes>` after
/// that many minutes, `daily:<hour>:<minute>` after a day, `weekly:<day>:<hour>:<minute>`
/// after a week. The numbers are checked as `u64` minutes and `u32` hours and
/// minutes; the time of day and the day are not otherwise used.
pub open spec fn cron_next(expr: Seq<char>, now: u64) -> Result<int, Seq<char>> {
    let p = split_on(expr, ':');
    if p.len() == 2 && p[0] == "interval"@ {
        match parse_unsigned(p[1], u64::MAX as nat) {
            Some(m) => Ok(now + m * 60),
            None => Err("Invalid interval minutes: "@ + p[1]),
        }
    } else if p.len() == 3 && p[0] == "daily"@ {
        match parse_unsigned(p[1], u32::MAX as nat) {
            None => Err("Invalid hour: "@ + p[1]),
            Some(_) => match parse_unsigned(p[2], u32::MAX as nat) {
                None => Err("Invalid minute: "@ + p[2]),
                Some(_) => Ok(now + 86400),
            },
        }
    } else if p.len() == 4 && p[0] == "weekly"@ {
        Ok(now + 604800)
    } else {
        Err("Invalid cron expression format: "@ + expr)
    }
}

/// When a schedule next fires after `now`: by its expression, or an hour later when
/// it has none.
pub open spec fn next_run_for(schedule: WorkflowSchedule, now: u64) -> Result<int, Seq<char>> {
    match schedule.cron_expression {
        Some(e) => cron_next(e@, now),
        None => Ok(now + 3600),
    }
}

/// A computed time is representable.
pub open spec fn in_range(r: Result<int, Seq<char>>) -> bool {
    r matches Ok(t) ==> t <= u64::MAX
}

/// The time `parse_simple_cron` computes for `cron_expr`, or its error.
pub fn parse_simple_cron(cron_expr: &str, now: u64) -> (r: Result<u64, String>)
    requires
        in_range(cron_next(cron_expr@, now)),
    ensures
        match r {
            Ok(t) => cron_next(cron_expr@, now) == Ok::<int, Seq<char>>(t as int),
            Err(e) => cron_next(cron_expr@, now) == Err::<int, Seq<char>>(e@),
        },
{
    let parts = split_chars(cron_expr, ':');
    let ghost p = views(parts@);
    assert(p.len() == parts@.len());
    if parts.len() == 2 && str_eq(parts[0].as_str(), "interval") {
        assert(p[0] == parts@[0]@ && p[1] == parts@[1]@);
        match parse_u64(parts[1].as_str()) {
            Some(m) => {
                assert(now + m * 60 <= u64::MAX);
                Ok(now + m * 60)
            },
            None => {
                let mut msg = chars_of("Invalid interval minutes: ");
                push_str(&mut msg, parts[1].as_str());
                Err(string_of(msg.as_slice()))
            },
        }
    } else if parts.len() == 3 && str_eq(parts[0].as_str(), "daily") {
        assert(p[0] == parts@[0]@ && p[1] == parts@[1]@ && p[2] == parts@[2]@);
        match parse_u32(parts[1].as_str()) {
            None => {
                let mut msg = chars_of("Invalid hour: ");
                push_str(&mut msg, parts[1].as_str());
                Err(string_of(msg.as_slice()))
            },
            Some(_) => match parse_u32(parts[2].as_str()) {
                None => {
                    let mut msg = chars_of("Invalid minute: ");
                    push_str(&mut msg, parts[2].as_str());
                    Err(string_of(msg.as_slice()))
                },
                Some(_) => Ok(now + 86400),
            },
        }
    } else if parts.len() == 4 && str_eq(parts[0].as_str(), "weekly") {
        assert(p[0] == parts@[0]@);
        Ok(now + 604800)
    } else {
        proof {
            if parts@.len() > 0 {
                assert(p[0] == parts@[0]@);
            }
        }
        let mut msg = chars_of("Invalid cron expression format: ");
        push_str(&mut msg, cron_expr);
        Err(string_of(msg.as_slice()))
    }
}

/// When `schedule` next fires after `now`.
pub fn calculate_next_run(schedule: &WorkflowSchedule, now: u64) -> (r: Result<u64, String>)
    requires
        in_range(next_run_for(*schedule, now)),
    ensures
        match r {
            Ok(t) => next_run_for(*schedule, now) == Ok::<int, Seq<char>>(t as int),
            Err(e) => next_run_for(*schedule, now) == Err::<int, Seq<char>>(e@),
        },
{
    match &schedule.cron_expression {
        Some(expr) => parse_simple_cron(expr.as_str(), now),
        None => Ok(now + 3600),
    }
}

/// Whether the next run of `schedule` after `now` is a representable time (so that
/// computing it does not overflow).
pub fn next_run_in_range(schedule: &WorkflowSchedule, now: u64) -> (r: bool)
    ensures
        r == in_range(next_run_for(*schedule, now)),
{
    match &schedule.cron_expression {
        None => now <= u64::MAX - 3600,
        Some(expr) => {
            let parts = split_chars(expr.as_str(), ':');
            let ghost p = views(parts@);
            assert(p.len() == parts@.len());
            if parts.len() == 2 && str_eq(parts[0].as_str(), "interval") {
                assert(p[0] == parts@[0]@ && p[1] == parts@[1]@);
                match parse_u64(parts[1].as_str()) {
                    Some(m) => (m as u128) * 60 + (now as u128) <= u64::MAX as u128,
                    None => true,
                }
            } else if parts.len() == 3 && str_eq(parts[0].as_str(), "daily") {
                assert(p[0] == parts@[0]@ && p[1] == parts@[1]@ && p[2] == parts@[2]@);
                if parse_u32(parts[1].as_str()).is_some() && parse_u32(parts[2].as_str()).is_some() {
                    now <= u64::MAX - 86400
                } else {
                    true
                }
            } else if parts.len() == 4 && str_eq(parts[0].as_str(), "weekly") {
                assert(p[0] == parts@[0]@);
                now <= u64::MAX - 604800
            } else {
                proof {
                    if parts@.len() > 0 {
                        assert(p[0] == parts@[0]@);
                    }
                }
                true
            }
        },
    }
}

/// A workflow known to the scheduler.
#[derive(Debug, PartialEq)]
pub struct ScheduledWorkflow {
    pub workflow_path: String,
    pub schedule: WorkflowSchedule,
    pub last_run: Option<u64>,
    pub next_run: u64,
}

impl Clone for ScheduledWorkflow {
    fn clone(&self) -> (r: Self)
        ensures
            r == *self,
    {
        ScheduledWorkflow {
            workflow_path: self.workflow_path.clone(),
            schedule: self.schedule.clone(),
            last_run: self.last_run,
            next_run: self.next_run,
        }
    }
}

/// The position of `id` among the scheduled entries.
pub open spec fn entry_pos(e: Seq<(String, ScheduledWorkflow)>, id: Seq<char>) -> Option<int> {
    if exists|i: int| 0 <= i < e.len() && (#[trigger] e[i]).0@ == id {
        Some(choose|i: int| 0 <= i < e.len() && (#[trigger] e[i]).0@ == id)
    } else {
        None
    }
}

/// No id is scheduled twice.
pub open spec fn unique_entries(e: Seq<(String, ScheduledWorkflow)>) -> bool {
    forall|i: int, j: int|
        0 <= i < e.len() && 0 <= j < e.len() && i != j ==> (#[trigger] e[i]).0@ != (#[trigger] e[j]).0@
}

/// `e` with `w` scheduled under `id`: replacing the entry for `id`, or added at the end.
pub open spec fn put_entry(e: Seq<(String, ScheduledWorkflow)>, id: String, w: ScheduledWorkflow) -> Seq<
    (String, ScheduledWorkflow),
> {
    match entry_pos(e, id@) {
        Some(i) => e.update(i, (id, w)),
        None => e.push((id, w)),
    }
}

/// `e` without the entry for `id`, in order.
pub open spec fn drop_entry(e: Seq<(String, ScheduledWorkflow)>, id: Seq<char>) -> Seq<
    (String, ScheduledWorkflow),
>
    decreases e.len(),
{
    if e.len() == 0 {
        Seq::empty()
    } else if e.last().0@ == id {
        drop_entry(e.drop_last(), id)
    } else {
        drop_entry(e.drop_last(), id).push(e.last())
    }
}

/// The ids of the enabled entries whose next run is not after `now`, in order.
pub open spec fn due_ids(e: Seq<(String, ScheduledWorkflow)>, now: u64) -> Seq<Seq<char>>
    decreases e.len(),
{
    if e.len() == 0 {
        Seq::empty()
    } else if e.last().1.next_run <= now && e.last().1.schedule.enabled {
        due_ids(e.drop_last(), now).push(e.last().0@)
    } else {
        due_ids(e.drop_last(), now)
    }
}

/// A state loaded from disk is brought back into the scheduler: it is scheduled, has
/// a path and an enabled schedule.
pub open spec fn reloadable(st: WorkflowState) -> bool {
    &&& st.status == WorkflowStatus::Scheduled
    &&& st.workflow_path is Some
    &&& st.schedule matches Some(s) && s.enabled
}

/// When a reloaded schedule runs next: its stored time, else the time computed
/// from `now`, else `now` itself.
pub open spec fn reload_next_run(s: WorkflowSchedule, now: u64) -> int {
    match s.next_run {
        Some(t) => t as int,
        None => match next_run_for(s, now) {
            Ok(t) => t,
            Err(_) => now as int,
        },
    }
}

/// The schedule after one more run at `now`, next firing at `next`: one more run
/// counted, disabled once it has made its maximum number of runs.
pub open spec fn advanced(s: WorkflowSchedule, next: u64) -> WorkflowSchedule {
    WorkflowSchedule {
        cron_expression: s.cron_expression,
        next_run: Some(next),
        enabled: s.enabled && !(s.max_runs matches Some(m) && s.run_count + 1 >= m),
        max_runs: s.max_runs,
        run_count: (s.run_count + 1) as u32,
    }
}

/// The scheduler: the state index and the scheduled workflows, one entry per id.
pub struct WorkflowScheduler {
    state_manager: WorkflowStateManager,
    scheduled: Vec<(String, ScheduledWorkflow)>,
    state_dir: String,
}

impl WorkflowScheduler {
    #[verifier::type_invariant]
    spec fn entries_unique(self) -> bool {
        unique_entries(self.scheduled@)
    }

    /// The scheduled workflows, with their ids.
    pub closed spec fn entries(self) -> Seq<(String, ScheduledWorkflow)> {
        self.scheduled@
    }

    /// The stored workflow states.
    pub closed spec fn states(self) -> Seq<WorkflowState> {
        self.state_manager.stored()
    }

    /// The directory the state files live in.
    pub closed spec fn dir(self) -> Seq<char> {
        self.state_dir@
    }

    /// The directory the state files live in.
    pub fn state_dir(&self) -> (r: &str)
        ensures
            r@ == self.dir(),
    {
        self.state_dir.as_str()
    }

    fn find(&self, id: &str) -> (r: Option<usize>)
        ensures
            match r {
                Some(i) => entry_pos(self.entries(), id@) == Some(i as int),
                None => entry_pos(self.entries(), id@) is None,
            },
    {
        proof {
            use_type_invariant(self);
        }
        let mut i: usize = 0;
        while i < self.scheduled.len()
            invariant
                i <= self.scheduled@.len(),
                unique_entries(self.scheduled@),
                forall|k: int| 0 <= k < i ==> (#[trigger] self.scheduled@[k]).0@ != id@,
            decreases self.scheduled@.len() - i,
        {
            if str_eq(self.scheduled[i].0.as_str(), id) {
                proof {
                    let e = self.scheduled@;
                    assert(exists|k: int| 0 <= k < e.len() && (#[trigger] e[k]).0@ == id@);
                    let c = choose|k: int| 0 <= k < e.len() && (#[trigger] e[k]).0@ == id@;
                    if c != i {
                        assert(e[c].0@ != e[i as int].0@);
                    }
                }
                return Some(i);
            }
            i = i + 1;
        }
        None
    }

    fn put(&mut self, id: String, w: ScheduledWorkflow)
        ensures
            final(self).entries() == put_entry(old(self).entries(), id, w),
            final(self).states() == old(self).states(),
            final(self).dir() == old(self).dir(),
    {
        proof {
            use_type_invariant(&*self);
        }
        let ghost e = self.scheduled@;
        let found = self.find(id.as_str());
        let mut v: Vec<(String, ScheduledWorkflow)> = Vec::new();
        std::mem::swap(&mut v, &mut self.scheduled);
        let ghost idv = id@;
        match found {
            Some(i) => {
                v.set(i, (id, w));
                assert(unique_entries(v@)) by {
                    let t = v@;
                    assert forall|a: int, b: int|
                        0 <= a < t.len() && 0 <= b < t.len() && a != b implies (#[trigger] t[a]).0@
                        != (#[trigger] t[b]).0@ by {
                        if a != i && b != i {
                            assert(t[a] == e[a] && t[b] == e[b]);
                        } else if a == i {
                            assert(t[b] == e[b]);
                            assert(e[i as int].0@ == idv);
                        } else {
                            assert(t[a] == e[a]);
                            assert(e[i as int].0@ == idv);
                        }
                    }
                }
            },
            None => {
                v.push((id, w));
                assert(unique_entries(v@)) by {
                    let t = v@;
                    assert forall|a: int, b: int|
                        0 <= a < t.len() && 0 <= b < t.len() && a != b implies (#[trigger] t[a]).0@
                        != (#[trigger] t[b]).0@ by {
                        if a < e.len() && b < e.len() {
                            assert(t[a] == e[a] && t[b] == e[b]);
                        } else if a < e.len() {
                            assert(t[a] == e[a]);
                        } else {
                            assert(t[b] == e[b]);
                        }
                    }
                }
            },
        }
        self.scheduled = v;
    }

    /// A scheduler over the states loaded from `state_dir`: each scheduled state
    /// with a path and an enabled schedule is scheduled again, to run at its stored
    /// next run time (else at the time computed from `now`, else at `now`).
    pub fn new(state_dir: String, loaded: Vec<WorkflowState>, now: u64) -> (r: Self)
        requires
            forall|i: int|
                0 <= i < loaded@.len() && reloadable(#[trigger] loaded@[i])
                    && loaded@[i].schedule->0.next_run is None ==> in_range(
                    next_run_for(loaded@[i].schedule->0, now),
                ),
        ensures
            r.dir() == state_dir@,
            r.states() == upsert_all(Seq::empty(), loaded@),
            r.entries() == reload_entries(
                keep_where(r.states(), |st: WorkflowState| is_scheduled(st)),
                now,
            ),
    {
        let ghost lv = loaded@;
        let manager = WorkflowStateManager::new(state_dir.clone(), loaded);
        let states = manager.list_scheduled_workflows();
        proof {
            lemma_upsert_all_members(Seq::empty(), lv);
            lemma_keep_unique(manager.stored(), |st: WorkflowState| is_scheduled(st));
        }
        let mut scheduler = WorkflowScheduler {
            state_manager: manager,
            scheduled: Vec::new(),
            state_dir,
        };
        let mut i: usize = 0;
        assert(states@.subrange(0, 0) =~= Seq::<WorkflowState>::empty());
        while i < states.len()
            invariant
                i <= states@.len(),
                forall|k: int|
                    0 <= k < states@.len() ==> lv.contains(#[trigger] states@[k]) && is_scheduled(
                        states@[k],
                    ),
                forall|j: int|
                    0 <= j < lv.len() && reloadable(#[trigger] lv[j]) && lv[j].schedule->0.next_run is None
                        ==> in_range(next_run_for(lv[j].schedule->0, now)),
                scheduler.entries() == reload_entries(states@.subrange(0, i as int), now),
                scheduler.states() == upsert_all(Seq::empty(), lv),
                scheduler.dir() == state_dir@,
            decreases states@.len() - i,
        {
            let st = &states[i];
            assert(states@.subrange(0, i + 1).drop_last() =~= states@.subrange(0, i as int));
            assert(states@.subrange(0, i + 1).last() == *st);
            assert(lv.contains(*st));
            let ghost j = choose|j: int| 0 <= j < lv.len() && lv[j] == *st;
            match (&st.workflow_path, &st.schedule) {
                (Some(path), Some(schedule)) => {
                    if schedule.enabled {
                        assert(reloadable(lv[j]));
                        let next = match schedule.next_run {
                            Some(t) => t,
                            None => match calculate_next_run(schedule, now) {
                                Ok(t) => t,
                                Err(_) => now,
                            },
                        };
                        let w = ScheduledWorkflow {
                            workflow_path: path.clone(),
                            schedule: schedule.clone(),
                            last_run: st.completed_at,
                            next_run: next,
                        };
                        scheduler.put(st.workflow_id.clone(), w);
                    }
                },
                _ => {},
            }
            i = i + 1;
        }
        assert(states@.subrange(0, states@.len() as int) =~= states@);
        scheduler
    }
}

impl WorkflowScheduler {
    /// Schedules `workflow_id` to run `workflow_path` on `schedule`: its next run is
    /// computed from `now` (an invalid expression fails and changes nothing), it
    /// replaces any schedule of that id, and a `Scheduled` state carrying the path and
    /// schedule is stored and returned for the caller to persist.
    pub fn schedule_workflow(
        &mut self,
        workflow_id: String,
        workflow_path: String,
        schedule: WorkflowSchedule,
        now: u64,
    ) -> (r: Result<WorkflowState, String>)
        requires
            in_range(next_run_for(schedule, now)),
        ensures
            final(self).dir() == old(self).dir(),
            match next_run_for(schedule, now) {
                Err(msg) => r matches Err(e) && e@ == msg && final(self).entries() == old(
                    self,
                ).entries() && final(self).states() == old(self).states(),
                Ok(t) => r matches Ok(state) && {
                    let s2 = WorkflowSchedule { next_run: Some(t as u64), ..schedule };
                    &&& state.workflow_id == workflow_id
                    &&& state.workflow_name@ == "Scheduled Workflow"@
                    &&& state.total_steps == 0
                    &&& state.status == WorkflowStatus::Scheduled
                    &&& state.workflow_path == Some(workflow_path)
                    &&& state.schedule == Some(s2)
                    &&& state.completed_at is None
                    &&& final(self).entries() == put_entry(
                        old(self).entries(),
                        workflow_id,
                        ScheduledWorkflow {
                            workflow_path,
                            schedule: s2,
                            last_run: None,
                            next_run: t as u64,
                        },
                    )
                    &&& final(self).states() == upsert(old(self).states(), state)
                },
            },
    {
        let next_run = match calculate_next_run(&schedule, now) {
            Ok(t) => t,
            Err(e) => {
                return Err(e);
            },
        };
        let mut schedule = schedule;
        schedule.next_run = Some(next_run);
        let scheduled = ScheduledWorkflow {
            workflow_path: workflow_path.clone(),
            schedule: schedule.clone(),
            last_run: None,
            next_run,
        };
        self.put(workflow_id.clone(), scheduled);
        let mut state = WorkflowState::new(workflow_id, String::from_str("Scheduled Workflow"), 0);
        state.status = WorkflowStatus::Scheduled;
        state.workflow_path = Some(workflow_path);
        state.schedule = Some(schedule);
        let mut m = WorkflowStateManager::empty(String::new());
        proof {
            use_type_invariant(&*self);
        }
        std::mem::swap(&mut m, &mut self.state_manager);
        m.save_state(&state);
        self.state_manager = m;
        Ok(state)
    }

    /// Stops scheduling `workflow_id` and forgets its state (the caller removes its
    /// file). Nothing happens to other workflows.
    pub fn unschedule_workflow(&mut self, workflow_id: &str)
        ensures
            final(self).entries() == drop_entry(old(self).entries(), workflow_id@),
            final(self).states() == keep_where(old(self).states(), not_id(workflow_id@)),
            final(self).dir() == old(self).dir(),
    {
        proof {
            use_type_invariant(&*self);
        }
        let ghost e = self.scheduled@;
        let mut kept: Vec<(String, ScheduledWorkflow)> = Vec::new();
        let mut i: usize = 0;
        assert(e.subrange(0, 0) =~= Seq::<(String, ScheduledWorkflow)>::empty());
        while i < self.scheduled.len()
            invariant
                i <= e.len(),
                e == self.scheduled@,
                unique_entries(e),
                kept@ == drop_entry(e.subrange(0, i as int), workflow_id@),
                unique_entries(kept@),
                forall|k: int| 0 <= k < kept@.len() ==> e.subrange(0, i as int).contains(#[trigger] kept@[k]),
            decreases e.len() - i,
        {
            assert(e.subrange(0, i + 1).drop_last() =~= e.subrange(0, i as int));
            let entry = &self.scheduled[i];
            if !str_eq(entry.0.as_str(), workflow_id) {
                let ghost k0 = kept@;
                kept.push((entry.0.clone(), entry.1.clone()));
                proof {
                    assert(kept@ =~= k0.push(e[i as int]));
                    assert forall|a: int, b: int|
                        0 <= a < kept@.len() && 0 <= b < kept@.len() && a != b implies (#[trigger] kept@[a]).0@
                        != (#[trigger] kept@[b]).0@ by {
                        if a < k0.len() && b < k0.len() {
                        } else if a < k0.len() {
                            let w = choose|w: int| 0 <= w < i && e.subrange(0, i as int)[w] == k0[a];
                            assert(e[w] == k0[a]);
                        } else if b < k0.len() {
                            let w = choose|w: int| 0 <= w < i && e.subrange(0, i as int)[w] == k0[b];
                            assert(e[w] == k0[b]);
                        }
                    }
                    assert forall|k: int| 0 <= k < kept@.len() implies e.subrange(0, i + 1).contains(
                        #[trigger] kept@[k],
                    ) by {
                        if k < k0.len() {
                            let w = choose|w: int| 0 <= w < i && e.subrange(0, i as int)[w] == k0[k];
                            assert(e.subrange(0, i + 1)[w] == k0[k]);
                        } else {
                            assert(e.subrange(0, i + 1)[i as int] == e[i as int]);
                        }
                    }
                }
            } else {
                proof {
                    assert forall|k: int| 0 <= k < kept@.len() implies e.subrange(0, i + 1).contains(
                        #[trigger] kept@[k],
                    ) by {
                        let w = choose|w: int| 0 <= w < i && e.subrange(0, i as int)[w] == kept@[k];
                        assert(e.subrange(0, i + 1)[w] == kept@[k]);
                    }
                }
            }
            i = i + 1;
        }
        assert(e.subrange(0, e.len() as int) =~= e);
        self.scheduled = kept;
        let mut m = WorkflowStateManager::empty(String::new());
        proof {
            use_type_invariant(&*self);
        }
        std::mem::swap(&mut m, &mut self.state_manager);
        m.delete_state(workflow_id);
        self.state_manager = m;
    }

    /// The ids of the enabled workflows whose next run is not after `now`, in
    /// scheduling order.
    pub fn get_due_workflows(&self, now: u64) -> (r: Vec<String>)
        ensures
            views(r@) == due_ids(self.entries(), now),
    {
        let ghost e = self.scheduled@;
        let mut out: Vec<String> = Vec::new();
        let mut i: usize = 0;
        assert(e.subrange(0, 0) =~= Seq::<(String, ScheduledWorkflow)>::empty());
        assert(views(out@) =~= Seq::<Seq<char>>::empty());
        while i < self.scheduled.len()
            invariant
                i <= e.len(),
                e == self.scheduled@,
                views(out@) == due_ids(e.subrange(0, i as int), now),
            decreases e.len() - i,
        {
            assert(e.subrange(0, i + 1).drop_last() =~= e.subrange(0, i as int));
            let entry = &self.scheduled[i];
            if entry.1.next_run <= now && entry.1.schedule.enabled {
                let ghost o = views(out@);
                out.push(entry.0.clone());
                assert(views(out@) =~= o.push(entry.0@));
            }
            i = i + 1;
        }
        assert(e.subrange(0, e.len() as int) =~= e);
        out
    }

    /// The scheduled workflows with their ids, in scheduling order.
    pub fn list_scheduled_workflows(&self) -> (r: Vec<(String, ScheduledWorkflow)>)
        ensures
            r@ == self.entries(),
    {
        let mut out: Vec<(String, ScheduledWorkflow)> = Vec::new();
        let mut i: usize = 0;
        while i < self.scheduled.len()
            invariant
                i <= self.scheduled@.len(),
                out@ == self.scheduled@.subrange(0, i as int),
            decreases self.scheduled@.len() - i,
        {
            let entry = &self.scheduled[i];
            out.push((entry.0.clone(), entry.1.clone()));
            i = i + 1;
            assert(out@ =~= self.scheduled@.subrange(0, i as int));
        }
        assert(self.scheduled@.subrange(0, self.scheduled@.len() as int) =~= self.scheduled@);
        out
    }

    /// The stored state of `workflow_id`.
    pub fn get_workflow_history(&self, workflow_id: &str) -> (r: Option<WorkflowState>)
        ensures
            match crate::workflow_state::position_of(self.states(), workflow_id@) {
                Some(i) => r == Some(self.states()[i]),
                None => r is None,
            },
    {
        self.state_manager.get_state(workflow_id)
    }

    /// Every stored state.
    pub fn list_workflow_states(&self) -> (r: Vec<WorkflowState>)
        ensures
            r@ == self.states(),
    {
        self.state_manager.list_states()
    }

    /// Forgets finished states older than `max_age_hours` hours at `now`; returns
    /// their ids (see `WorkflowStateManager::cleanup_old_states`).
    pub fn cleanup_old_states(&mut self, now: u64, max_age_hours: u64) -> (r: Vec<String>)
        requires
            max_age_hours * 3600 <= u64::MAX,
        ensures
            final(self).states() == keep_where(
                old(self).states(),
                |st: WorkflowState| !crate::workflow_state::expired(st, now, max_age_hours),
            ),
            views(r@) == keep_where(
                old(self).states(),
                |st: WorkflowState| crate::workflow_state::expired(st, now, max_age_hours),
            ).map_values(|st: WorkflowState| st.workflow_id@),
            final(self).entries() == old(self).entries(),
            final(self).dir() == old(self).dir(),
    {
        let mut m = WorkflowStateManager::empty(String::new());
        proof {
            use_type_invariant(&*self);
        }
        std::mem::swap(&mut m, &mut self.state_manager);
        let removed = m.cleanup_old_states(now, max_age_hours);
        self.state_manager = m;
        removed
    }

    /// Records a run of `workflow_id` at `now`: the run count goes up by one, the
    /// next run is computed from `now` (an invalid expression fails and changes
    /// nothing), and the schedule is disabled once it reaches its maximum number of
    /// runs. When the workflow has a stored state, that state takes the new schedule
    /// and `now` as its completion time, and is returned for the caller to persist.
    /// A workflow that is not scheduled is left alone.
    pub fn update_workflow_run(&mut self, workflow_id: &str, now: u64) -> (r: Result<
        Option<WorkflowState>,
        String,
    >)
        requires
            old(self).entry_runnable(workflow_id@, now),
        ensures
            final(self).dir() == old(self).dir(),
            match entry_pos(old(self).entries(), workflow_id@) {
                None => r matches Ok(None) && final(self).entries() == old(self).entries()
                    && final(self).states() == old(self).states(),
                Some(i) => {
                    let (id, w) = old(self).entries()[i];
                    match next_run_for(w.schedule, now) {
                        Err(msg) => r matches Err(e) && e@ == msg && final(self).entries() == old(
                            self,
                        ).entries() && final(self).states() == old(self).states(),
                        Ok(t) => {
                            let s2 = advanced(w.schedule, t as u64);
                            &&& final(self).entries() == old(self).entries().update(
                                i,
                                (
                                    id,
                                    ScheduledWorkflow {
                                        workflow_path: w.workflow_path,
                                        schedule: s2,
                                        last_run: Some(now),
                                        next_run: t as u64,
                                    },
                                ),
                            )
                            &&& match crate::workflow_state::position_of(
                                old(self).states(),
                                workflow_id@,
                            ) {
                                None => r matches Ok(None) && final(self).states() == old(
                                    self,
                                ).states(),
                                Some(j) => {
                                    let st = WorkflowState {
                                        schedule: Some(s2),
                                        completed_at: Some(now),
                                        ..old(self).states()[j]
                                    };
                                    r == Ok::<Option<WorkflowState>, String>(Some(st))
                                        && final(self).states() == upsert(old(self).states(), st)
                                },
                            }
                        },
                    }
                },
            },
    {
        proof {
            use_type_invariant(&*self);
        }
        let i = match self.find(workflow_id) {
            Some(i) => i,
            None => {
                return Ok(None);
            },
        };
        let ghost e = self.scheduled@;
        let schedule = self.scheduled[i].1.schedule.clone();
        let next_run = match calculate_next_run(&schedule, now) {
            Ok(t) => t,
            Err(err) => {
                return Err(err);
            },
        };
        let mut v: Vec<(String, ScheduledWorkflow)> = Vec::new();
        std::mem::swap(&mut v, &mut self.scheduled);
        let (id, w) = v.remove(i);
        let mut sched = w.schedule;
        sched.run_count = sched.run_count + 1;
        sched.next_run = Some(next_run);
        if let Some(max) = sched.max_runs {
            if sched.run_count >= max {
                sched.enabled = false;
            }
        }
        let updated = ScheduledWorkflow {
            workflow_path: w.workflow_path,
            schedule: sched.clone(),
            last_run: Some(now),
            next_run,
        };
        v.insert(i, (id, updated));
        assert(v@ =~= e.update(i as int, v@[i as int]));
        assert(unique_entries(v@)) by {
            let t = v@;
            assert forall|a: int, b: int|
                0 <= a < t.len() && 0 <= b < t.len() && a != b implies (#[trigger] t[a]).0@
                != (#[trigger] t[b]).0@ by {
                if a != i && b != i {
                    assert(t[a] == e[a] && t[b] == e[b]);
                } else if a == i {
                    assert(t[b] == e[b]);
                    assert(t[a].0 == e[a].0);
                } else {
                    assert(t[a] == e[a]);
                    assert(t[b].0 == e[b].0);
                }
            }
        }
        self.scheduled = v;
        match self.state_manager.get_state(workflow_id) {
            Some(mut state) => {
                state.schedule = Some(sched);
                state.completed_at = Some(now);
                let mut m = WorkflowStateManager::empty(String::new());
                proof {
                    use_type_invariant(&*self);
                }
                std::mem::swap(&mut m, &mut self.state_manager);
                m.save_state(&state);
                self.state_manager = m;
                Ok(Some(state))
            },
            None => Ok(None),
        }
    }

    /// A run of `workflow_id` at `now` can be recorded: when it is scheduled, its
    /// next run is a representable time and its run count can go up by one.
    pub open spec fn entry_runnable(self, workflow_id: Seq<char>, now: u64) -> bool {
        match entry_pos(self.entries(), workflow_id) {
            Some(i) => {
                &&& in_range(next_run_for(self.entries()[i].1.schedule, now))
                &&& self.entries()[i].1.schedule.run_count < u32::MAX
            },
            None => true,
        }
    }
}

/// The result of one due workflow: its run's logs, or the run's error, the update's
/// error, or both joined by `; `.
pub fn combine_run_results(run: Result<Vec<StepLog>, String>, update: Result<(), String>) -> (r:
    Result<Vec<StepLog>, String>)
    ensures
        match (run, update) {
            (Ok(logs), Ok(())) => r == Ok::<Vec<StepLog>, String>(logs),
            (Err(a), Ok(())) => r matches Err(e) && e == a,
            (Ok(_), Err(b)) => r matches Err(e) && e == b,
            (Err(a), Err(b)) => r matches Err(e) && e@ == a@ + "; "@ + b@,
        },
{
    match (run, update) {
        (Ok(logs), Ok(())) => Ok(logs),
        (Err(a), Ok(())) => Err(a),
        (Ok(_), Err(b)) => Err(b),
        (Err(a), Err(b)) => {
            let mut m = chars_of(a.as_str());
            push_str(&mut m, "; ");
            push_str(&mut m, b.as_str());
            Err(string_of(m.as_slice()))
        },
    }
}

/// The entries reloaded from `states`, in order: one per reloadable state.
pub open spec fn reload_entries(states: Seq<WorkflowState>, now: u64) -> Seq<(String, ScheduledWorkflow)>
    decreases states.len(),
{
    if states.len() == 0 {
        Seq::empty()
    } else {
        let prev = reload_entries(states.drop_last(), now);
        let st = states.last();
        if reloadable(st) {
            put_entry(
                prev,
                st.workflow_id,
                ScheduledWorkflow {
                    workflow_path: st.workflow_path->0,
                    schedule: st.schedule->0,
                    last_run: st.completed_at,
                    next_run: reload_next_run(st.schedule->0, now) as u64,
                },
            )
        } else {
            prev
        }
    }
}

/// A workflow is due exactly when one of its entries is enabled and its next run is
/// not after `now`: disabled workflows are never due.
pub proof fn lemma_due_means_enabled_and_ripe(e: Seq<(String, ScheduledWorkflow)>, now: u64, x: Seq<char>)
    ensures
        due_ids(e, now).contains(x) <==> exists|i: int|
            0 <= i < e.len() && (#[trigger] e[i]).0@ == x && e[i].1.schedule.enabled && e[i].1.next_run
                <= now,
    decreases e.len(),
{
    if e.len() > 0 {
        let d = e.drop_last();
        lemma_due_means_enabled_and_ripe(d, now, x);
        if due_ids(e, now).contains(x) {
            if due_ids(d, now).contains(x) {
                let i = choose|i: int|
                    0 <= i < d.len() && (#[trigger] d[i]).0@ == x && d[i].1.schedule.enabled
                        && d[i].1.next_run <= now;
                assert(e[i] == d[i]);
            } else {
                assert(e[e.len() - 1] == e.last());
            }
        }
        if exists|i: int|
            0 <= i < e.len() && (#[trigger] e[i]).0@ == x && e[i].1.schedule.enabled && e[i].1.next_run
                <= now {
            let i = choose|i: int|
                0 <= i < e.len() && (#[trigger] e[i]).0@ == x && e[i].1.schedule.enabled
                    && e[i].1.next_run <= now;
            if i < e.len() - 1 {
                assert(d[i] == e[i]);
                let w = choose|w: int| 0 <= w < due_ids(d, now).len() && due_ids(d, now)[w] == x;
                if e.last().1.next_run <= now && e.last().1.schedule.enabled {
                    assert(due_ids(e, now)[w] == x);
                }
            } else {
                assert(due_ids(e, now).last() == x);
                assert(due_ids(e, now)[due_ids(e, now).len() - 1] == x);
            }
        }
    }
}

/// Recording a run counts it, and once the count reaches the schedule's maximum the
/// schedule is disabled; a disabled schedule stays disabled.
pub proof fn lemma_run_limit_disables(s: WorkflowSchedule, next: u64)
    requires
        s.run_count < u32::MAX,
    ensures
        advanced(s, next).run_count == s.run_count + 1,
        advanced(s, next).next_run == Some(next),
        (s.max_runs matches Some(m) && s.run_count + 1 >= m) ==> !advanced(s, next).enabled,
        !s.enabled ==> !advanced(s, next).enabled,
        (s.enabled && !(s.max_runs matches Some(m) && s.run_count + 1 >= m)) ==> advanced(
            s,
            next,
        ).enabled,
{
}

/// After unscheduling an id, nothing is scheduled under it.
pub proof fn lemma_unscheduled_is_gone(e: Seq<(String, ScheduledWorkflow)>, id: Seq<char>)
    ensures
        entry_pos(drop_entry(e, id), id) is None,
        forall|k: int|
            0 <= k < drop_entry(e, id).len() ==> (#[trigger] drop_entry(e, id)[k]).0@ != id,
    decreases e.len(),
{
    if e.len() > 0 {
        lemma_unscheduled_is_gone(e.drop_last(), id);
        let p = drop_entry(e.drop_last(), id);
        if e.last().0@ != id {
            assert forall|k: int| 0 <= k < drop_entry(e, id).len() implies (#[trigger] drop_entry(
                e,
                id,
            )[k]).0@ != id by {
                if k < p.len() {
                    assert(drop_entry(e, id)[k] == p[k]);
                }
            }
        }
    }
}

/// After scheduling `w` under `id`, it is what is scheduled under `id`.
pub proof fn lemma_scheduled_is_found(e: Seq<(String, ScheduledWorkflow)>, id: String, w: ScheduledWorkflow)
    ensures
        exists|i: int|
            0 <= i < put_entry(e, id, w).len() && #[trigger] put_entry(e, id, w)[i] == (id, w),
{
    match entry_pos(e, id@) {
        Some(i) => {
            assert(put_entry(e, id, w)[i] == (id, w));
        },
        None => {
            assert(put_entry(e, id, w)[e.len() as int] == (id, w));
        },
    }
}

} // verus!
