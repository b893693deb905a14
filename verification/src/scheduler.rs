//! Cron schedules of workflows: the book of schedules and the decisions the
//! scheduler loop takes each tick (which schedules are due, whether a run may start,
//! and what a finished run records).

use vstd::prelude::*;
use crate::ids::{clock_reading, new_id, now_millis};
use crate::workflow::{copy_workflow, workflow_same, Workflow, WorkflowSchedule};

verus! {

/// Whether `cron` accepts a text as a cron expression (`Schedule::from_str`).
pub uninterp spec fn cron_valid(expr: Seq<char>) -> bool;

/// The error text `cron` gives for a text it refuses.
pub uninterp spec fn cron_error_text(expr: Seq<char>) -> Seq<char>;

/// Check a cron expression with `cron::Schedule::from_str`.
#[verifier::external_body]
fn parse_cron(expr: &str) -> (r: Result<(), String>)
    ensures
        match r {
            Ok(_) => cron_valid(expr@),
            Err(e) => !cron_valid(expr@) && e@ == cron_error_text(expr@),
        },
{
    match <cron::Schedule as std::str::FromStr>::from_str(expr) {
        Ok(_) => Ok(()),
        Err(e) => Err(e.to_string()),
    }
}

/// The first time after `now` (milliseconds since the UNIX epoch, UTC) at which a
/// cron expression fires, as `Schedule::after(now).next()` gives it; none for an
/// expression `cron` refuses, a time outside `chrono`'s range, or no later firing.
pub uninterp spec fn cron_next(expr: Seq<char>, now: i64) -> Option<i64>;

/// The latest time (milliseconds since the UNIX epoch) at which the next firing of a
/// cron expression is looked up: `Schedule::after` first adds a second to the time it
/// starts from, which `chrono` refuses (it panics) within the last second of its range,
/// near the end of the year 262142. This bound lies some seven thousand years before.
pub const CRON_CLOCK_LIMIT: i64 = 8_000_000_000_000_000;

/// `cron::Schedule::from_str` then `Schedule::after(now).next()`; `upcoming(Utc)` is
/// this at the clock's current time. The search starts one second after `now` and
/// yields a firing time at a whole second, so a firing time lies after `now`.
#[verifier::external_body]
fn cron_next_after(expr: &str, now: i64) -> (r: Option<i64>)
    requires
        now <= CRON_CLOCK_LIMIT,
    ensures
        r == cron_next(expr@, now),
        !cron_valid(expr@) ==> r is None,
        r matches Some(t) ==> t > now,
{
    let schedule = match <cron::Schedule as std::str::FromStr>::from_str(expr) {
        Ok(s) => s,
        Err(_) => return None,
    };
    match chrono::DateTime::<chrono::Utc>::from_timestamp_millis(now) {
        Some(t) => schedule.after(&t).next().map(|x| x.timestamp_millis()),
        None => None,
    }
}

/// The next firing time of a cron expression after `now`; none after the clock limit.
pub open spec fn next_fire(expr: Seq<char>, now: i64) -> Option<i64> {
    if now <= CRON_CLOCK_LIMIT {
        cron_next(expr, now)
    } else {
        None
    }
}

/// The next firing time of a cron expression after `now`, looked up only up to the
/// clock limit.
pub fn next_fire_time(expr: &str, now: i64) -> (r: Option<i64>)
    ensures
        r == next_fire(expr@, now),
        r matches Some(t) ==> t > now,
{
    if now <= CRON_CLOCK_LIMIT {
        cron_next_after(expr, now)
    } else {
        None
    }
}

/// The run record of a schedule.
#[derive(Debug, Clone, Copy, PartialEq, Eq)]
pub struct ScheduledExecution {
    pub schedule_id: u128,
    pub workflow_id: u128,
    pub next_run: i64,
    pub last_run: Option<i64>,
    pub active_runs: u32,
    pub successful_runs: u64,
    pub failed_runs: u64,
}

/// One schedule: the workflow, its configuration, the parsed cron expression and the
/// run record.
pub struct ScheduleEntry {
    pub workflow: Workflow,
    pub config: WorkflowSchedule,
    pub execution: ScheduledExecution,
}

/// The schedules of the scheduler, and whether its loop runs.
pub struct ScheduleBook {
    entries: Vec<ScheduleEntry>,
    running: bool,
}

/// The run records, in order.
pub open spec fn records_of(entries: Seq<ScheduleEntry>) -> Seq<ScheduledExecution> {
    entries.map_values(|e: ScheduleEntry| e.execution)
}

/// No two schedules share an identifier.
pub open spec fn ids_unique(records: Seq<ScheduledExecution>) -> bool {
    forall|a: int, b: int|
        0 <= a < records.len() && 0 <= b < records.len() && a != b ==> #[trigger] records[a].schedule_id
            != #[trigger] records[b].schedule_id
}

/// The position of the schedule with identifier `id`.
pub open spec fn index_of(records: Seq<ScheduledExecution>, id: u128) -> int {
    choose|i: int| 0 <= i < records.len() && #[trigger] records[i].schedule_id == id
}

/// Some schedule has identifier `id`.
pub open spec fn has_id(records: Seq<ScheduledExecution>, id: u128) -> bool {
    exists|i: int| 0 <= i < records.len() && #[trigger] records[i].schedule_id == id
}

/// The identifiers of the schedules due at `now`, in order.
pub open spec fn due_ids(records: Seq<ScheduledExecution>, now: i64) -> Seq<u128>
    decreases records.len(),
{
    if records.len() == 0 {
        Seq::empty()
    } else {
        let pre = due_ids(records.drop_last(), now);
        if records.last().next_run <= now {
            pre.push(records.last().schedule_id)
        } else {
            pre
        }
    }
}

/// `s` without the item at the position of the schedule with identifier `id`, when
/// there is one.
pub open spec fn unless_id<T>(s: Seq<T>, records: Seq<ScheduledExecution>, id: u128) -> Seq<T> {
    if has_id(records, id) {
        s.remove(index_of(records, id))
    } else {
        s
    }
}

/// Whether a run of a schedule may start: it is enabled and below its concurrency limit.
pub open spec fn may_start(config: WorkflowSchedule, record: ScheduledExecution) -> bool {
    config.enabled && match config.max_concurrent_runs {
        Some(m) => record.active_runs < m,
        None => true,
    }
}

/// The record of a started run: one more active run, started at `now`, next run at the
/// next firing time, or an hour later when there is none.
pub open spec fn started(record: ScheduledExecution, now: i64, next: Option<i64>) -> ScheduledExecution {
    ScheduledExecution {
        active_runs: (record.active_runs + 1) as u32,
        last_run: Some(now),
        next_run: match next {
            Some(t) => t,
            None => (now + 3_600_000) as i64,
        },
        ..record
    }
}

/// The record of a finished run: one active run less, and one more success or failure.
pub open spec fn finished(record: ScheduledExecution, succeeded: bool) -> ScheduledExecution {
    ScheduledExecution {
        active_runs: if record.active_runs > 0 { (record.active_runs - 1) as u32 } else { 0 },
        successful_runs: if succeeded { (record.successful_runs + 1) as u64 } else { record.successful_runs },
        failed_runs: if succeeded { record.failed_runs } else { (record.failed_runs + 1) as u64 },
        ..record
    }
}

impl ScheduleBook {
    /// The run records, in the order the schedules were added.
    pub closed spec fn records(&self) -> Seq<ScheduledExecution> {
        records_of(self.entries@)
    }

    /// The configurations, in the same order.
    pub closed spec fn configs(&self) -> Seq<WorkflowSchedule> {
        self.entries@.map_values(|e: ScheduleEntry| e.config)
    }

    /// The workflows of the schedules, in the order of their records.
    pub closed spec fn workflows(&self) -> Seq<Workflow> {
        self.entries@.map_values(|e: ScheduleEntry| e.workflow)
    }

    /// Whether the loop runs.
    pub closed spec fn is_on(&self) -> bool {
        self.running
    }

    /// The book is well formed: identifiers are unique.
    pub closed spec fn wf(&self) -> bool {
        ids_unique(self.records())
    }

    /// An empty book, not running.
    pub fn new() -> (r: Self)
        ensures
            r.wf(),
            r.records().len() == 0,
            r.workflows().len() == 0,
            !r.is_on(),
    {
        ScheduleBook { entries: Vec::new(), running: false }
    }

    fn find(&self, id: u128) -> (r: Option<usize>)
        requires
            self.wf(),
        ensures
            match r {
                Some(i) => i < self.records().len() && self.records()[i as int].schedule_id == id && index_of(
                    self.records(),
                    id,
                ) == i,
                None => !has_id(self.records(), id),
            },
    {
        let ghost rs = self.records();
        let mut i: usize = 0;
        while i < self.entries.len()
            invariant
                i <= self.entries@.len(),
                rs == records_of(self.entries@),
                rs.len() == self.entries@.len(),
                ids_unique(rs),
                forall|k: int| 0 <= k < i ==> #[trigger] rs[k].schedule_id != id,
            decreases self.entries.len() - i,
        {
            assert(rs[i as int] == self.entries@[i as int].execution);
            if self.entries[i].execution.schedule_id == id {
                proof {
                    let c = index_of(rs, id);
                    assert(0 <= c < rs.len() && rs[c].schedule_id == id);
                    if c != i {
                        assert(rs[c].schedule_id != rs[i as int].schedule_id);
                    }
                }
                return Some(i);
            }
            i = i + 1;
        }
        None
    }

    /// Add a schedule given its parsed expression, the new identifier and its first
    /// firing time; without a firing time nothing is added. A schedule that already has
    /// the identifier is replaced.
    pub fn add_parsed(&mut self, workflow: Workflow, config: WorkflowSchedule, id: u128, next: Option<i64>) -> (r: Result<u128, String>)
        requires
            old(self).wf(),
        ensures
            final(self).wf(),
            final(self).is_on() == old(self).is_on(),
            next is None ==> final(self).workflows() == old(self).workflows(),
            next is Some ==> final(self).workflows() == unless_id(old(self).workflows(), old(self).records(), id).push(
                workflow,
            ),
            next is None ==> final(self).configs() == old(self).configs(),
            next is Some ==> final(self).configs() == unless_id(old(self).configs(), old(self).records(), id).push(config),
            match next {
                None => r matches Err(e) && e@ == "No upcoming schedule found"@ && final(self).records() == old(self).records(),
                Some(t) => r == Ok::<u128, String>(id) && final(self).records() == unless_id(
                    old(self).records(),
                    old(self).records(),
                    id,
                ).push(
                    ScheduledExecution {
                        schedule_id: id,
                        workflow_id: workflow.metadata.id,
                        next_run: t,
                        last_run: None,
                        active_runs: 0,
                        successful_runs: 0,
                        failed_runs: 0,
                    },
                ),
            },
    {
        let t = match next {
            None => {
                return Err(String::from_str("No upcoming schedule found"));
            },
            Some(t) => t,
        };
        let ghost before0 = self.records();
        let ghost wbefore0 = self.workflows();
        let ghost cbefore0 = self.configs();
        match self.find(id) {
            Some(i) => {
                let _ = self.entries.remove(i);
                proof {
                    assert(self.records() =~= before0.remove(i as int));
                    assert(self.workflows() =~= wbefore0.remove(i as int));
                    assert(self.configs() =~= cbefore0.remove(i as int));
                    assert forall|a: int, b: int|
                        0 <= a < self.records().len() && 0 <= b < self.records().len() && a != b implies #[trigger] self.records()[a].schedule_id
                            != #[trigger] self.records()[b].schedule_id by {
                        let a0 = if a < i { a } else { a + 1 };
                        let b0 = if b < i { b } else { b + 1 };
                        assert(self.records()[a] == before0[a0]);
                        assert(self.records()[b] == before0[b0]);
                    }
                    assert forall|k: int| 0 <= k < self.records().len() implies #[trigger] self.records()[k].schedule_id != id by {
                        let k0 = if k < i { k } else { k + 1 };
                        assert(self.records()[k] == before0[k0]);
                        assert(before0[i as int].schedule_id == id);
                    }
                }
            },
            None => {},
        }
        let execution = ScheduledExecution {
            schedule_id: id,
            workflow_id: workflow.metadata.id,
            next_run: t,
            last_run: None,
            active_runs: 0,
            successful_runs: 0,
            failed_runs: 0,
        };
        let ghost before = self.records();
        let ghost wbefore = self.workflows();
        let ghost cbefore = self.configs();
        let ghost w = workflow;
        let ghost c = config;
        assert(forall|k: int| 0 <= k < before.len() ==> #[trigger] before[k].schedule_id != id);
        self.entries.push(ScheduleEntry { workflow, config, execution });
        proof {
            assert(self.configs() =~= cbefore.push(c));
            assert(self.records() =~= before.push(execution));
            assert(self.workflows() =~= wbefore.push(w));
            assert forall|a: int, b: int|
                0 <= a < self.records().len() && 0 <= b < self.records().len() && a != b implies #[trigger] self.records()[a].schedule_id
                    != #[trigger] self.records()[b].schedule_id by {
                if a == before.len() {
                    assert(self.records()[b] == before[b]);
                } else if b == before.len() {
                    assert(self.records()[a] == before[a]);
                } else {
                    assert(self.records()[a] == before[a] && self.records()[b] == before[b]);
                }
            }
        }
        Ok(id)
    }

    /// Add a schedule: parse its cron expression, take a fresh identifier and its first
    /// firing time.
    pub fn add_schedule(&mut self, workflow: Workflow, config: WorkflowSchedule) -> (r: Result<u128, String>)
        requires
            old(self).wf(),
        ensures
            final(self).wf(),
            final(self).is_on() == old(self).is_on(),
            !cron_valid(config.cron@) ==> (r matches Err(e) && e@ == "Invalid cron expression: "@ + cron_error_text(config.cron@)
                && final(self).records() == old(self).records()),
            r is Err ==> final(self).records() == old(self).records() && final(self).workflows() == old(self).workflows(),
            r matches Ok(id) ==> final(self).workflows() == unless_id(old(self).workflows(), old(self).records(), id).push(
                workflow,
            ),
            r matches Ok(id) ==> final(self).configs() == unless_id(old(self).configs(), old(self).records(), id).push(
                config,
            ),
            r is Ok ==> exists|now: i64|
                #[trigger] clock_reading(now) && next_fire(config.cron@, now) == Some(final(self).records().last().next_run),
            r matches Ok(id) ==> (cron_valid(config.cron@)
                && final(self).records().drop_last() == unless_id(old(self).records(), old(self).records(), id)
                && final(self).records().last().schedule_id == id
                && final(self).records().last().workflow_id == workflow.metadata.id
                && final(self).records().last().active_runs == 0
                && final(self).records().last().last_run is None),
    {
        match parse_cron(config.cron.as_str()) {
            Ok(_) => {},
            Err(e) => {
                let mut m = String::from_str("Invalid cron expression: ");
                m.append(e.as_str());
                return Err(m);
            },
        };
        let id = new_id();
        let now = now_millis();
        let next = next_fire_time(config.cron.as_str(), now);
        let ghost cfg = config;
        let r = self.add_parsed(workflow, config, id, next);
        proof {
            if r is Ok {
                assert(self.records().drop_last() =~= unless_id(old(self).records(), old(self).records(), id));
                assert(self.records().last().next_run == next_fire(cfg.cron@, now)->0);
            }
        }
        r
    }

    /// Remove a schedule; whether it was there.
    pub fn remove_schedule(&mut self, id: u128) -> (r: bool)
        requires
            old(self).wf(),
        ensures
            final(self).wf(),
            final(self).is_on() == old(self).is_on(),
            r == has_id(old(self).records(), id),
            r ==> final(self).records() == old(self).records().remove(index_of(old(self).records(), id)),
            r ==> final(self).workflows() == old(self).workflows().remove(index_of(old(self).records(), id)),
            !r ==> final(self).records() == old(self).records(),
            !r ==> final(self).workflows() == old(self).workflows(),
    {
        match self.find(id) {
            None => false,
            Some(i) => {
                let ghost before = self.records();
                let ghost wbefore = self.workflows();
                let _ = self.entries.remove(i);
                proof {
                    assert(self.records() =~= before.remove(i as int));
                    assert(self.workflows() =~= wbefore.remove(i as int));
                    assert forall|a: int, b: int|
                        0 <= a < self.records().len() && 0 <= b < self.records().len() && a != b implies #[trigger] self.records()[a].schedule_id
                            != #[trigger] self.records()[b].schedule_id by {
                        let a0 = if a < i { a } else { a + 1 };
                        let b0 = if b < i { b } else { b + 1 };
                        assert(self.records()[a] == before[a0]);
                        assert(self.records()[b] == before[b0]);
                    }
                }
                true
            },
        }
    }

    /// The run records of all schedules.
    pub fn list_schedules(&self) -> (r: Vec<ScheduledExecution>)
        ensures
            r@ == self.records(),
    {
        let mut out: Vec<ScheduledExecution> = Vec::new();
        let mut i: usize = 0;
        while i < self.entries.len()
            invariant
                i <= self.entries@.len(),
                out@ == records_of(self.entries@).take(i as int),
            decreases self.entries.len() - i,
        {
            out.push(self.entries[i].execution);
            assert(out@ =~= records_of(self.entries@).take(i + 1));
            i = i + 1;
        }
        assert(records_of(self.entries@).take(self.entries@.len() as int) =~= records_of(self.entries@));
        out
    }

    /// The run record of a schedule.
    pub fn get_schedule(&self, id: u128) -> (r: Option<ScheduledExecution>)
        requires
            self.wf(),
        ensures
            match r {
                Some(x) => has_id(self.records(), id) && x == self.records()[index_of(self.records(), id)],
                None => !has_id(self.records(), id),
            },
    {
        match self.find(id) {
            Some(i) => Some(self.entries[i].execution),
            None => None,
        }
    }

    /// The schedules due at `now`: those whose next run is not later than `now`.
    pub fn due_at(&self, now: i64) -> (r: Vec<u128>)
        ensures
            r@ == due_ids(self.records(), now),
    {
        let ghost rs = self.records();
        let mut out: Vec<u128> = Vec::new();
        let mut i: usize = 0;
        while i < self.entries.len()
            invariant
                i <= self.entries@.len(),
                rs == records_of(self.entries@),
                out@ == due_ids(rs.take(i as int), now),
            decreases self.entries.len() - i,
        {
            assert(rs.take(i + 1).drop_last() =~= rs.take(i as int));
            assert(rs[i as int] == self.entries@[i as int].execution);
            if self.entries[i].execution.next_run <= now {
                out.push(self.entries[i].execution.schedule_id);
            }
            i = i + 1;
        }
        assert(rs.take(rs.len() as int) =~= rs);
        out
    }

    /// Start a run of a due schedule at `now` when it may start: its record counts the
    /// run and takes `next` (or an hour later) as next run, and the workflow to run is
    /// returned; otherwise nothing changes.
    pub fn start_run_at(&mut self, id: u128, now: i64, next: Option<i64>) -> (r: Option<Workflow>)
        requires
            old(self).wf(),
            now + 3_600_000 <= i64::MAX,
            has_id(old(self).records(), id) ==> old(self).records()[index_of(old(self).records(), id)].active_runs
                < u32::MAX,
        ensures
            final(self).wf(),
            final(self).is_on() == old(self).is_on(),
            final(self).configs() == old(self).configs(),
            final(self).workflows() == old(self).workflows(),
            r matches Some(w) ==> workflow_same(w, old(self).workflows()[index_of(old(self).records(), id)]),
            ({
                let i = index_of(old(self).records(), id);
                if has_id(old(self).records(), id) && may_start(old(self).configs()[i], old(self).records()[i]) {
                    r is Some && final(self).records() == old(self).records().update(
                        i,
                        started(old(self).records()[i], now, next),
                    )
                } else {
                    r is None && final(self).records() == old(self).records()
                }
            }),
    {
        let i = match self.find(id) {
            None => {
                return None;
            },
            Some(i) => i,
        };
        let ghost before = self.records();
        let ghost configs = self.configs();
        assert(configs[i as int] == self.entries@[i as int].config);
        assert(before[i as int] == self.entries@[i as int].execution);
        let allowed = self.entries[i].config.enabled && match self.entries[i].config.max_concurrent_runs {
            Some(m) => self.entries[i].execution.active_runs < m,
            None => true,
        };
        if !allowed {
            return None;
        }
        let ghost workflows = self.workflows();
        assert(workflows[i as int] == self.entries@[i as int].workflow);
        let workflow = copy_workflow(&self.entries[i].workflow);
        let mut e = self.entries.remove(i);
        let mut rec = e.execution;
        rec.active_runs = rec.active_runs + 1;
        rec.last_run = Some(now);
        rec.next_run = match next {
            Some(t) => t,
            None => now + 3_600_000,
        };
        e.execution = rec;
        self.entries.insert(i, e);
        proof {
            assert(self.records() =~= before.update(i as int, started(before[i as int], now, next)));
            assert(self.configs() =~= configs);
            assert(self.workflows() =~= workflows);
            assert forall|a: int, b: int|
                0 <= a < self.records().len() && 0 <= b < self.records().len() && a != b implies #[trigger] self.records()[a].schedule_id
                    != #[trigger] self.records()[b].schedule_id by {
                assert(self.records()[a].schedule_id == before[a].schedule_id);
                assert(self.records()[b].schedule_id == before[b].schedule_id);
            }
        }
        Some(workflow)
    }

    /// The first firing time of a schedule after `now`; none for an unknown schedule.
    pub fn upcoming_at(&self, id: u128, now: i64) -> (r: Option<i64>)
        requires
            self.wf(),
        ensures
            has_id(self.records(), id) ==> r == next_fire(self.configs()[index_of(self.records(), id)].cron@, now),
            r matches Some(t) ==> t > now,
            !has_id(self.records(), id) ==> r is None,
    {
        match self.find(id) {
            Some(i) => {
                assert(self.configs()[i as int] == self.entries@[i as int].config);
                next_fire_time(self.entries[i].config.cron.as_str(), now)
            },
            None => None,
        }
    }

    /// The next firing time of a schedule, after the clock's current time; none for an
    /// unknown schedule.
    pub fn upcoming(&self, id: u128) -> (r: Option<i64>)
        requires
            self.wf(),
        ensures
            !has_id(self.records(), id) ==> r is None,
            has_id(self.records(), id) ==> exists|now: i64|
                #[trigger] clock_reading(now) && r == next_fire(self.configs()[index_of(self.records(), id)].cron@, now),
    {
        let now = now_millis();
        self.upcoming_at(id, now)
    }

    /// Start a run now, when it may start: its record takes the clock's current time as
    /// last run and the schedule's next firing time after it as next run.
    pub fn start_run(&mut self, id: u128) -> (r: Option<Workflow>)
        requires
            old(self).wf(),
            has_id(old(self).records(), id) ==> old(self).records()[index_of(old(self).records(), id)].active_runs
                < u32::MAX,
        ensures
            final(self).wf(),
            final(self).is_on() == old(self).is_on(),
            final(self).workflows() == old(self).workflows(),
            final(self).configs() == old(self).configs(),
            r matches Some(w) ==> workflow_same(w, old(self).workflows()[index_of(old(self).records(), id)]),
            ({
                let i = index_of(old(self).records(), id);
                if has_id(old(self).records(), id) && may_start(old(self).configs()[i], old(self).records()[i]) {
                    r is Some && exists|now: i64|
                        #[trigger] clock_reading(now) && final(self).records() == old(self).records().update(
                            i,
                            started(old(self).records()[i], now, next_fire(old(self).configs()[i].cron@, now)),
                        ) && final(self).records()[i].next_run > now
                } else {
                    r is None && final(self).records() == old(self).records()
                }
            }),
    {
        let now = now_millis();
        let next = self.upcoming_at(id, now);
        self.start_run_at(id, now, next)
    }

    /// Record that a run of a schedule finished (or failed).
    pub fn finish_run(&mut self, id: u128, succeeded: bool)
        requires
            old(self).wf(),
            has_id(old(self).records(), id) ==> old(self).records()[index_of(old(self).records(), id)].successful_runs
                < u64::MAX && old(self).records()[index_of(old(self).records(), id)].failed_runs < u64::MAX,
        ensures
            final(self).wf(),
            final(self).is_on() == old(self).is_on(),
            final(self).configs() == old(self).configs(),
            final(self).workflows() == old(self).workflows(),
            has_id(old(self).records(), id) ==> final(self).records() == old(self).records().update(
                index_of(old(self).records(), id),
                finished(old(self).records()[index_of(old(self).records(), id)], succeeded),
            ),
            !has_id(old(self).records(), id) ==> final(self).records() == old(self).records(),
    {
        let i = match self.find(id) {
            None => {
                return;
            },
            Some(i) => i,
        };
        let ghost before = self.records();
        let ghost configs = self.configs();
        let ghost workflows = self.workflows();
        assert(before[i as int] == self.entries@[i as int].execution);
        let mut e = self.entries.remove(i);
        let mut rec = e.execution;
        rec.active_runs = if rec.active_runs > 0 { rec.active_runs - 1 } else { 0 };
        if succeeded {
            rec.successful_runs = rec.successful_runs + 1;
        } else {
            rec.failed_runs = rec.failed_runs + 1;
        }
        e.execution = rec;
        self.entries.insert(i, e);
        proof {
            assert(self.records() =~= before.update(i as int, finished(before[i as int], succeeded)));
            assert(self.configs() =~= configs);
            assert(self.workflows() =~= workflows);
            assert forall|a: int, b: int|
                0 <= a < self.records().len() && 0 <= b < self.records().len() && a != b implies #[trigger] self.records()[a].schedule_id
                    != #[trigger] self.records()[b].schedule_id by {
                assert(self.records()[a].schedule_id == before[a].schedule_id);
                assert(self.records()[b].schedule_id == before[b].schedule_id);
            }
        }
    }

    /// Mark the loop as running.
    pub fn start(&mut self)
        ensures
            final(self).is_on(),
            final(self).records() == old(self).records(),
            final(self).configs() == old(self).configs(),
            final(self).workflows() == old(self).workflows(),
            final(self).wf() == old(self).wf(),
    {
        self.running = true;
    }

    /// Mark the loop as stopped.
    pub fn stop(&mut self)
        ensures
            !final(self).is_on(),
            final(self).records() == old(self).records(),
            final(self).configs() == old(self).configs(),
            final(self).workflows() == old(self).workflows(),
            final(self).wf() == old(self).wf(),
    {
        self.running = false;
    }

    /// Whether the loop runs.
    pub fn is_running(&self) -> (r: bool)
        ensures
            r == self.is_on(),
    {
        self.running
    }
}

} // verus!
