//! Background maintenance scheduling: how often each collection task runs,
//! when it is due, and the idempotency key of its queued job. Collection work
//! is queued as leased jobs, one per interval slot, so a slow task never
//! piles up behind another.
use vstd::prelude::*;
use crate::num::{dec_signed, parse_u64, parse_unsigned, push_dec_signed};
use crate::text::{chars_of, extend_chars, owned, string_from_chars, trim, trim_chars};

verus! {

pub const DEFAULT_INTERVAL_SECS: u64 = 300;
pub const DEFAULT_CATALOG_SYNC_INTERVAL_SECS: u64 = 900;
pub const DEFAULT_CANDIDATE_COLLECTION_INTERVAL_SECS: u64 = 21_600;
pub const DEFAULT_ENRICHMENT_INTERVAL_SECS: u64 = 300;
pub const TASK_INTERVAL_MIN_SECS: u64 = 60;
pub const TASK_INTERVAL_MAX_SECS: u64 = 86_400;
/// The smallest scheduler tick, in seconds.
pub const SCHEDULER_INTERVAL_MIN_SECS: u64 = 30;

/// An interval setting: a number of seconds in `[minimum, 86400]`, else
/// `default`.
pub open spec fn configured_interval_spec(raw: Option<Seq<char>>, default: u64, minimum: u64) -> u64 {
    match raw {
        Some(s) => match parse_unsigned(s, u64::MAX as nat) {
            Some(v) => if minimum <= v && v <= 86_400 {
                v as u64
            } else {
                default
            },
            None => default,
        },
        None => default,
    }
}

/// The interval setting whose raw value is `raw` (`None` when unset).
pub fn configured_interval(raw: Option<&str>, default: u64, minimum: u64) -> (r: u64)
    ensures
        r == configured_interval_spec(
            match raw {
                Some(s) => Some(s@),
                None => None,
            },
            default,
            minimum,
        ),
{
    match raw {
        Some(s) => match parse_u64(s) {
            Some(v) => if minimum <= v && v <= TASK_INTERVAL_MAX_SECS {
                v
            } else {
                default
            },
            None => default,
        },
        None => default,
    }
}

/// How often each collection task runs, in seconds.
#[derive(Debug, Clone, Copy, PartialEq, Eq)]
pub struct TaskIntervals {
    pub catalog_sync_secs: u64,
    pub candidate_collection_secs: u64,
    pub enrichment_secs: u64,
}

impl Default for TaskIntervals {
    fn default() -> (r: Self)
        ensures
            r.catalog_sync_secs == 900,
            r.candidate_collection_secs == 21_600,
            r.enrichment_secs == 300,
    {
        TaskIntervals {
            catalog_sync_secs: DEFAULT_CATALOG_SYNC_INTERVAL_SECS,
            candidate_collection_secs: DEFAULT_CANDIDATE_COLLECTION_INTERVAL_SECS,
            enrichment_secs: DEFAULT_ENRICHMENT_INTERVAL_SECS,
        }
    }
}

impl TaskIntervals {
    /// The intervals from the raw catalog sync, candidate collection and
    /// enrichment settings; each at least a minute.
    pub fn from_env(catalog_sync: Option<&str>, candidate_collection: Option<&str>, enrichment: Option<&str>) -> (r: Self)
        ensures
            r.catalog_sync_secs == configured_interval_spec(
                match catalog_sync {
                    Some(s) => Some(s@),
                    None => None,
                },
                900,
                60,
            ),
            r.candidate_collection_secs == configured_interval_spec(
                match candidate_collection {
                    Some(s) => Some(s@),
                    None => None,
                },
                21_600,
                60,
            ),
            r.enrichment_secs == configured_interval_spec(
                match enrichment {
                    Some(s) => Some(s@),
                    None => None,
                },
                300,
                60,
            ),
    {
        TaskIntervals {
            catalog_sync_secs: configured_interval(catalog_sync, DEFAULT_CATALOG_SYNC_INTERVAL_SECS, TASK_INTERVAL_MIN_SECS),
            candidate_collection_secs: configured_interval(
                candidate_collection,
                DEFAULT_CANDIDATE_COLLECTION_INTERVAL_SECS,
                TASK_INTERVAL_MIN_SECS,
            ),
            enrichment_secs: configured_interval(enrichment, DEFAULT_ENRICHMENT_INTERVAL_SECS, TASK_INTERVAL_MIN_SECS),
        }
    }
}

/// An ASCII hexadecimal digit.
pub open spec fn is_hex_digit(c: char) -> bool {
    ('0' <= c && c <= '9') || ('a' <= c && c <= 'f') || ('A' <= c && c <= 'F')
}

/// A Steam Web API key: 32 hexadecimal digits once trimmed.
pub open spec fn steam_key_shape(raw: Seq<char>) -> bool {
    let t = trim(raw);
    t.len() == 32 && forall|i: int| 0 <= i < t.len() ==> is_hex_digit(#[trigger] t[i])
}

/// Whether the raw Steam Web API key setting holds a usable key.
pub fn steam_web_api_key_configured(raw: Option<&str>) -> (r: bool)
    ensures
        r == (raw matches Some(s) && steam_key_shape(s@)),
{
    match raw {
        None => false,
        Some(s) => {
            let c = chars_of(s);
            let t = trim_chars(c.as_slice());
            if t.len() != 32 {
                return false;
            }
            let mut i: usize = 0;
            while i < t.len()
                invariant
                    i <= t@.len(),
                    t@ == trim(s@),
                    raw == Some(s),
                    t@.len() == 32,
                    forall|k: int| 0 <= k < i ==> is_hex_digit(#[trigger] t@[k]),
                decreases t@.len() - i,
            {
                let ch = t[i];
                if !(('0' <= ch && ch <= '9') || ('a' <= ch && ch <= 'f') || ('A' <= ch && ch <= 'F')) {
                    assert(!is_hex_digit(t@[i as int]));
                    return false;
                }
                i = i + 1;
            }
            true
        },
    }
}

/// A queued collection task.
#[derive(Debug, Clone, Copy, PartialEq, Eq)]
pub enum ScheduledTask {
    CatalogSync,
    CandidateCollection,
    Enrichment,
}

pub open spec fn scheduled_task_name(t: ScheduledTask) -> Seq<char> {
    match t {
        ScheduledTask::CatalogSync => "catalog_sync"@,
        ScheduledTask::CandidateCollection => "candidate_collection"@,
        ScheduledTask::Enrichment => "enrichment"@,
    }
}

pub open spec fn scheduled_task_type(t: ScheduledTask) -> Seq<char> {
    match t {
        ScheduledTask::CatalogSync => "sync_catalog"@,
        ScheduledTask::CandidateCollection => "collect_candidates"@,
        ScheduledTask::Enrichment => "enrich_catalog"@,
    }
}

impl ScheduledTask {
    /// The name under which the task's refresh status is kept.
    pub fn task_name(self) -> (r: &'static str)
        ensures
            r@ == scheduled_task_name(self),
    {
        match self {
            ScheduledTask::CatalogSync => "catalog_sync",
            ScheduledTask::CandidateCollection => "candidate_collection",
            ScheduledTask::Enrichment => "enrichment",
        }
    }

    /// The job type the task is queued as.
    pub fn task_type(self) -> (r: &'static str)
        ensures
            r@ == scheduled_task_type(self),
    {
        match self {
            ScheduledTask::CatalogSync => "sync_catalog",
            ScheduledTask::CandidateCollection => "collect_candidates",
            ScheduledTask::Enrichment => "enrich_catalog",
        }
    }

    /// The task's interval among `intervals`.
    pub fn interval_secs(self, intervals: &TaskIntervals) -> (r: u64)
        ensures
            r == match self {
                ScheduledTask::CatalogSync => intervals.catalog_sync_secs,
                ScheduledTask::CandidateCollection => intervals.candidate_collection_secs,
                ScheduledTask::Enrichment => intervals.enrichment_secs,
            },
    {
        match self {
            ScheduledTask::CatalogSync => intervals.catalog_sync_secs,
            ScheduledTask::CandidateCollection => intervals.candidate_collection_secs,
            ScheduledTask::Enrichment => intervals.enrichment_secs,
        }
    }
}

/// `x` clamped to the range of `i64`.
pub open spec fn clamp_i64(x: int) -> i64 {
    if x > i64::MAX {
        i64::MAX
    } else if x < i64::MIN {
        i64::MIN
    } else {
        x as i64
    }
}

/// A count of seconds reinterpreted as a signed 64-bit number.
pub open spec fn secs_as_i64(secs: u64) -> int {
    if secs <= i64::MAX {
        secs as int
    } else {
        secs as int - 0x1_0000_0000_0000_0000
    }
}

/// An interval in milliseconds, saturating.
pub open spec fn interval_ms_spec(secs: u64) -> i64 {
    clamp_i64(secs_as_i64(secs) * 1000)
}

/// The time one interval after `now_ms`, saturating.
pub open spec fn next_run_spec(now_ms: i64, secs: u64) -> i64 {
    clamp_i64(now_ms + interval_ms_spec(secs))
}

/// Division rounding toward zero, as machine division does.
pub open spec fn div_toward_zero(a: int, b: int) -> int {
    if a >= 0 {
        a / b
    } else {
        -((-a) / b)
    }
}

/// The interval slot `now_ms` falls in.
pub open spec fn slot_spec(now_ms: i64, secs: u64) -> int {
    let ms = interval_ms_spec(secs);
    div_toward_zero(now_ms as int, if ms < 1 { 1 } else { ms as int })
}

fn interval_ms(secs: u64) -> (r: i64)
    ensures
        r == interval_ms_spec(secs),
{
    let s: i128 = if secs <= 0x7FFF_FFFF_FFFF_FFFF {
        secs as i128
    } else {
        secs as i128 - 0x1_0000_0000_0000_0000i128
    };
    let p: i128 = s * 1000;
    if p > 0x7FFF_FFFF_FFFF_FFFFi128 {
        i64::MAX
    } else if p < -0x8000_0000_0000_0000i128 {
        i64::MIN
    } else {
        p as i64
    }
}

/// The time one interval of `secs` seconds after `now_ms`, saturating.
pub fn next_run_at(now_ms: i64, secs: u64) -> (r: i64)
    ensures
        r == next_run_spec(now_ms, secs),
{
    let sum: i128 = now_ms as i128 + interval_ms(secs) as i128;
    if sum > 0x7FFF_FFFF_FFFF_FFFFi128 {
        i64::MAX
    } else if sum < -0x8000_0000_0000_0000i128 {
        i64::MIN
    } else {
        sum as i64
    }
}

fn slot_of(now_ms: i64, secs: u64) -> (r: i64)
    ensures
        r as int == slot_spec(now_ms, secs),
{
    let ms = interval_ms(secs);
    let d: u64 = if ms < 1 {
        1
    } else {
        ms as u64
    };
    if now_ms >= 0 {
        let q = (now_ms as u64) / d;
        q as i64
    } else {
        let mag: u64 = (0i128 - now_ms as i128) as u64;
        let q = mag / d;
        assert(q <= mag);
        (0i128 - q as i128) as i64
    }
}

/// What one scheduler pass does about a collection task.
#[derive(Debug)]
pub enum TaskPlan {
    /// The task cannot run (no Steam key); record its next run with this
    /// error category.
    RecordDisabled { next_run_at_ms: i64, error_category: &'static str },
    /// The task's next run is still ahead.
    NotDue,
    /// A scheduled job of the task's type is still active; nothing is queued
    /// or recorded.
    AlreadyQueued,
    /// Queue the task under this idempotency key and record its next run.
    Enqueue { idempotency_key: String, next_run_at_ms: i64 },
}

/// The idempotency key of `task`'s job in interval slot `slot`.
pub open spec fn idempotency_key_spec(task: ScheduledTask, slot: int) -> Seq<char> {
    "m7-scheduler:"@ + scheduled_task_name(task) + ":"@ + dec_signed(slot)
}

/// What a pass at `now_ms` does about `task` (run every `secs` seconds),
/// given whether it can run, when its last record said it runs next, and
/// whether a scheduled job of its type is still active.
pub open spec fn plan_spec(
    task: ScheduledTask,
    enabled: bool,
    previous_next_run_at_ms: Option<i64>,
    active_job: bool,
    now_ms: i64,
    secs: u64,
    r: TaskPlan,
) -> bool {
    let next = next_run_spec(now_ms, secs);
    if !enabled {
        r matches TaskPlan::RecordDisabled { next_run_at_ms, error_category } && next_run_at_ms == next
            && error_category@ == "auth"@
    } else if previous_next_run_at_ms matches Some(n) && n > now_ms {
        r is NotDue
    } else if active_job {
        r is AlreadyQueued
    } else {
        r matches TaskPlan::Enqueue { idempotency_key, next_run_at_ms } && next_run_at_ms == next
            && idempotency_key@ == idempotency_key_spec(task, slot_spec(now_ms, secs))
    }
}

/// What a pass at `now_ms` does about `task`, run every `secs` seconds:
/// a task that cannot run records its next run with the `auth` category; a
/// task whose recorded next run is still ahead waits, and so does one whose
/// scheduled job is still active; any other task is queued once per
/// interval slot.
pub fn plan_scheduled_task(
    task: ScheduledTask,
    enabled: bool,
    previous_next_run_at_ms: Option<i64>,
    active_job: bool,
    now_ms: i64,
    secs: u64,
) -> (r: TaskPlan)
    ensures
        plan_spec(task, enabled, previous_next_run_at_ms, active_job, now_ms, secs, r),
{
    let next = next_run_at(now_ms, secs);
    if !enabled {
        return TaskPlan::RecordDisabled { next_run_at_ms: next, error_category: "auth" };
    }
    match previous_next_run_at_ms {
        Some(n) => if n > now_ms {
            return TaskPlan::NotDue;
        },
        None => {},
    }
    if active_job {
        return TaskPlan::AlreadyQueued;
    }
    let slot = slot_of(now_ms, secs);
    let mut key = chars_of("m7-scheduler:");
    extend_chars(&mut key, chars_of(task.task_name()).as_slice());
    extend_chars(&mut key, chars_of(":").as_slice());
    push_dec_signed(&mut key, slot);
    TaskPlan::Enqueue { idempotency_key: string_from_chars(key.as_slice()), next_run_at_ms: next }
}

/// What the status table holds for a task.
#[derive(Debug, Clone, PartialEq, Eq)]
pub struct RefreshStatus {
    pub last_success_at_ms: Option<i64>,
    pub next_run_at_ms: Option<i64>,
    pub last_error_category: Option<String>,
    pub cursor_value: Option<String>,
}

/// The view of an optional string.
pub open spec fn opt_text(o: Option<String>) -> Option<Seq<char>> {
    match o {
        Some(s) => Some(s@),
        None => None,
    }
}

/// The status a scheduler pass records for a task it planned: the last
/// success and the cursor stay as they were, the next run is the planned
/// one, and the error category is the plan's (none for a queued task).
pub fn scheduled_status(previous: Option<&RefreshStatus>, next_run_at_ms: i64, error_category: Option<&str>) -> (r: RefreshStatus)
    ensures
        r.last_success_at_ms == match previous {
            Some(p) => p.last_success_at_ms,
            None => None,
        },
        opt_text(r.cursor_value) == match previous {
            Some(p) => opt_text(p.cursor_value),
            None => None,
        },
        r.next_run_at_ms == Some(next_run_at_ms),
        opt_text(r.last_error_category) == match error_category {
            Some(c) => Some(c@),
            None => None,
        },
{
    let (last_success_at_ms, cursor_value) = match previous {
        Some(p) => (
            p.last_success_at_ms,
            match &p.cursor_value {
                Some(c) => Some(owned(c.as_str())),
                None => None,
            },
        ),
        None => (None, None),
    };
    RefreshStatus {
        last_success_at_ms,
        next_run_at_ms: Some(next_run_at_ms),
        last_error_category: match error_category {
            Some(c) => Some(owned(c)),
            None => None,
        },
        cursor_value,
    }
}

/// Two passes in the same interval slot queue a task under the same key, so
/// the job queue keeps one job per task and slot.
pub proof fn lemma_one_key_per_slot(
    task: ScheduledTask,
    p1: Option<i64>,
    p2: Option<i64>,
    now1: i64,
    now2: i64,
    secs: u64,
    r1: TaskPlan,
    r2: TaskPlan,
)
    requires
        plan_spec(task, true, p1, false, now1, secs, r1),
        plan_spec(task, true, p2, false, now2, secs, r2),
        r1 is Enqueue,
        r2 is Enqueue,
        slot_spec(now1, secs) == slot_spec(now2, secs),
    ensures
        r1->idempotency_key@ == r2->idempotency_key@,
{
}

/// An interval setting is taken when it is a number of seconds from
/// `minimum` to a day (86400); anything else, or no setting, gives the
/// default.
pub proof fn lemma_interval_setting(raw: Option<Seq<char>>, default: u64, minimum: u64)
    ensures
        (raw matches Some(s) && parse_unsigned(s, u64::MAX as nat) matches Some(v) && minimum <= v <= 86_400)
            ==> configured_interval_spec(raw, default, minimum) == parse_unsigned(raw->0, u64::MAX as nat)->0,
        !(raw matches Some(s) && parse_unsigned(s, u64::MAX as nat) matches Some(v) && minimum <= v <= 86_400)
            ==> configured_interval_spec(raw, default, minimum) == default,
{
}

/// A Steam Web API key is usable exactly when, trimmed, it is 32 characters
/// each a decimal digit or a letter from a to f in either case.
pub proof fn lemma_steam_key_shape(raw: Seq<char>)
    ensures
        steam_key_shape(raw) <==> trim(raw).len() == 32 && forall|i: int|
            0 <= i < trim(raw).len() ==> ({
                let c = #[trigger] trim(raw)[i];
                ('0' <= c <= '9') || ('a' <= c <= 'f') || ('A' <= c <= 'F')
            }),
{
}

/// When the next run is: one interval after now, in milliseconds (for times
/// and intervals far from the ends of the clock); and the slot a pass falls
/// in is the number of whole intervals since time zero.
pub proof fn lemma_next_run_and_slot(now_ms: i64, secs: u64)
    requires
        0 <= now_ms <= 1_000_000_000_000_000,
        1 <= secs <= 1_000_000_000,
    ensures
        next_run_spec(now_ms, secs) == now_ms + secs * 1000,
        slot_spec(now_ms, secs) == (now_ms as int) / (secs * 1000),
{
    assert(secs * 1000 <= 1_000_000_000_000) by (nonlinear_arith)
        requires
            secs <= 1_000_000_000,
    ;
    assert(secs * 1000 >= 1000) by (nonlinear_arith)
        requires
            secs >= 1,
    ;
}

/// What a scheduling pass may do: a task that cannot run is never queued and
/// records its next run with the "auth" category; a due task without an
/// active job is queued under a key "m7-scheduler:<task>:<slot>"; a task
/// whose recorded next run is ahead, or whose job is still active, is not
/// queued.
pub proof fn lemma_plan_rules(
    task: ScheduledTask,
    enabled: bool,
    previous_next_run_at_ms: Option<i64>,
    active_job: bool,
    now_ms: i64,
    secs: u64,
    r: TaskPlan,
)
    requires
        plan_spec(task, enabled, previous_next_run_at_ms, active_job, now_ms, secs, r),
    ensures
        !enabled ==> (r matches TaskPlan::RecordDisabled { error_category, .. } && error_category@ == "auth"@),
        r is Enqueue <==> enabled && !active_job && !(previous_next_run_at_ms matches Some(n) && n > now_ms),
        r matches TaskPlan::Enqueue { idempotency_key, .. } ==> idempotency_key@ == "m7-scheduler:"@
            + scheduled_task_name(task) + ":"@ + dec_signed(slot_spec(now_ms, secs)),
        enabled && (previous_next_run_at_ms matches Some(n) && n > now_ms) ==> r is NotDue,
        enabled && !(previous_next_run_at_ms matches Some(n) && n > now_ms) && active_job ==> r is AlreadyQueued,
{
}

} // verus!
