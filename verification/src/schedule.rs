//! Stored workflow schedules: when one is due, how a run is recorded, and the shape
//! check of its cron expression.

use vstd::prelude::*;
use crate::executors::push_str;
use crate::ids::{clock_reading, new_id, now_millis};
use crate::text::{char_is_whitespace, chars_of, is_whitespace_char};

verus! {

/// A stored schedule of a workflow. Times are milliseconds since the UNIX epoch.
#[derive(Debug, Clone)]
pub struct StoredSchedule {
    pub id: u128,
    pub workflow_id: u128,
    pub name: String,
    pub description: Option<String>,
    /// Cron expression (for example `0 0 * * *`).
    pub cron: String,
    pub timezone: String,
    pub enabled: bool,
    /// Input variables of the runs: names and JSON texts.
    pub input_variables: Vec<(String, String)>,
    pub created_at: i64,
    pub updated_at: i64,
    pub last_run: Option<i64>,
    pub next_run: Option<i64>,
    pub run_count: u64,
    /// Largest number of runs, `None` for no limit.
    pub max_runs: Option<u64>,
    /// After this time the schedule no longer runs.
    pub expires_at: Option<i64>,
}

/// A schedule is due at `now` when it is enabled, not expired, under its run limit, and
/// its next run time has come.
pub open spec fn schedule_due(s: StoredSchedule, now: i64) -> bool {
    &&& s.enabled
    &&& !(s.expires_at matches Some(e) && now > e)
    &&& !(s.max_runs matches Some(m) && s.run_count >= m)
    &&& (s.next_run matches Some(n) && now >= n)
}

/// The number of whitespace-separated words of a text (`str::split_whitespace`).
pub open spec fn word_count(s: Seq<char>) -> nat
    decreases s.len(),
{
    if s.len() == 0 {
        0
    } else {
        word_count(s.drop_last()) + if !is_whitespace_char(s.last()) && (s.len() == 1 || is_whitespace_char(
            s[s.len() - 2],
        )) {
            1nat
        } else {
            0nat
        }
    }
}

/// Why a schedule does not pass its shape check, if it does not.
pub open spec fn schedule_problem(s: StoredSchedule) -> Option<Seq<char>> {
    if word_count(s.cron@) != 5 && word_count(s.cron@) != 6 {
        Some("Invalid cron expression '"@ + s.cron@ + "': must have 5 or 6 parts"@)
    } else if s.timezone@.len() == 0 {
        Some("Timezone cannot be empty"@)
    } else {
        None
    }
}

fn count_words(s: &str) -> (r: usize)
    ensures
        r == word_count(s@),
{
    let cs = chars_of(s);
    let mut n: usize = 0;
    let mut i: usize = 0;
    while i < cs.len()
        invariant
            cs@ == s@,
            i <= cs@.len(),
            n == word_count(s@.take(i as int)),
            n <= i,
        decreases cs.len() - i,
    {
        assert(s@.take(i + 1).drop_last() =~= s@.take(i as int));
        assert(s@.take(i + 1).last() == cs@[i as int]);
        if i > 0 {
            assert(s@.take(i + 1)[i - 1] == cs@[i - 1]);
        }
        if !char_is_whitespace(cs[i]) && (i == 0 || char_is_whitespace(cs[i - 1])) {
            n = n + 1;
        }
        i = i + 1;
    }
    assert(s@.take(cs@.len() as int) =~= s@);
    n
}

impl StoredSchedule {
    /// An enabled UTC schedule with the given identity and creation time, never run.
    pub fn new_with(id: u128, workflow_id: u128, name: String, cron: String, now: i64) -> (r: Self)
        ensures
            r.id == id,
            r.workflow_id == workflow_id,
            r.name == name,
            r.cron == cron,
            r.description is None,
            r.timezone@ == "UTC"@,
            r.enabled,
            r.input_variables@.len() == 0,
            r.created_at == now,
            r.updated_at == now,
            r.last_run is None,
            r.next_run is None,
            r.run_count == 0,
            r.max_runs is None,
            r.expires_at is None,
    {
        StoredSchedule {
            id,
            workflow_id,
            name,
            description: None,
            cron,
            timezone: String::from_str("UTC"),
            enabled: true,
            input_variables: Vec::new(),
            created_at: now,
            updated_at: now,
            last_run: None,
            next_run: None,
            run_count: 0,
            max_runs: None,
            expires_at: None,
        }
    }

    /// An enabled UTC schedule with a fresh identifier, created now.
    pub fn new(workflow_id: u128, name: String, cron: String) -> (r: Self)
        ensures
            r.workflow_id == workflow_id,
            r.name == name,
            r.cron == cron,
            r.description is None,
            r.timezone@ == "UTC"@,
            r.enabled,
            r.input_variables@.len() == 0,
            r.created_at == r.updated_at,
            r.last_run is None,
            r.next_run is None,
            r.run_count == 0,
            r.max_runs is None,
            r.expires_at is None,
    {
        let id = new_id();
        let now = now_millis();
        Self::new_with(id, workflow_id, name, cron, now)
    }

    /// Whether the schedule is due at `now`.
    pub fn should_run_at(&self, now: i64) -> (r: bool)
        ensures
            r == schedule_due(*self, now),
    {
        if !self.enabled {
            return false;
        }
        if let Some(expires_at) = self.expires_at {
            if now > expires_at {
                return false;
            }
        }
        if let Some(max_runs) = self.max_runs {
            if self.run_count >= max_runs {
                return false;
            }
        }
        if let Some(next_run) = self.next_run {
            return now >= next_run;
        }
        false
    }

    /// Whether the schedule is due now.
    pub fn should_run(&self) -> (r: bool)
        ensures
            r ==> self.enabled && self.next_run is Some,
            !self.enabled ==> !r,
            self.next_run is None ==> !r,
            (self.max_runs matches Some(m) && self.run_count >= m) ==> !r,
            exists|now: i64| #[trigger] clock_reading(now) && r == schedule_due(*self, now),
    {
        let now = now_millis();
        self.should_run_at(now)
    }

    /// Record a run at `now`.
    pub fn mark_executed_at(&mut self, now: i64)
        requires
            old(self).run_count < u64::MAX,
        ensures
            *final(self) == (StoredSchedule { last_run: Some(now), run_count: (old(self).run_count + 1) as u64, ..*old(self) }),
    {
        self.last_run = Some(now);
        self.run_count = self.run_count + 1;
    }

    /// Record a run now.
    pub fn mark_executed(&mut self)
        requires
            old(self).run_count < u64::MAX,
        ensures
            final(self).last_run is Some,
            final(self).run_count == old(self).run_count + 1,
            final(self).enabled == old(self).enabled,
            final(self).next_run == old(self).next_run,
            final(self).max_runs == old(self).max_runs,
    {
        let now = now_millis();
        self.mark_executed_at(now);
    }

    /// Check the shape of the cron expression (five or six fields) and that the time
    /// zone is named.
    pub fn validate(&self) -> (r: Result<(), String>)
        ensures
            match schedule_problem(*self) {
                None => r is Ok,
                Some(m) => r matches Err(e) && e@ == m,
            },
    {
        let parts = count_words(self.cron.as_str());
        if parts != 5 && parts != 6 {
            let mut m = String::from_str("Invalid cron expression '");
            push_str(&mut m, self.cron.as_str());
            push_str(&mut m, "': must have 5 or 6 parts");
            return Err(m);
        }
        if self.timezone.as_str().unicode_len() == 0 {
            return Err(String::from_str("Timezone cannot be empty"));
        }
        Ok(())
    }
}

/// The record of one run started by a schedule.
#[derive(Debug, Clone)]
pub struct ScheduleExecution {
    pub id: u128,
    pub schedule_id: u128,
    pub execution_id: u128,
    pub triggered_at: i64,
    pub success: bool,
    pub error: Option<String>,
    pub duration_ms: Option<u64>,
}

impl ScheduleExecution {
    /// A record of a run triggered at `now`, not yet successful.
    pub fn new_at(id: u128, schedule_id: u128, execution_id: u128, now: i64) -> (r: Self)
        ensures
            r == (ScheduleExecution {
                id,
                schedule_id,
                execution_id,
                triggered_at: now,
                success: false,
                error: None,
                duration_ms: None,
            }),
    {
        ScheduleExecution { id, schedule_id, execution_id, triggered_at: now, success: false, error: None, duration_ms: None }
    }

    /// A record with a fresh identifier of a run triggered now.
    pub fn new(schedule_id: u128, execution_id: u128) -> (r: Self)
        ensures
            r.schedule_id == schedule_id,
            r.execution_id == execution_id,
            !r.success,
            r.error is None,
            r.duration_ms is None,
    {
        let id = new_id();
        let now = now_millis();
        Self::new_at(id, schedule_id, execution_id, now)
    }
}

} // verus!
