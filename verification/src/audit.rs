//! Structured audit events: one record per task execution, dry-runs and
//! blocked attempts included.

use vstd::prelude::*;
use std::collections::BTreeMap;

verus! {

/// The version of this library, recorded in every audit event.
pub const MERIADOC_VERSION: &'static str = "0.2.1";

/// The version of the audit event schema.
pub const AUDIT_SCHEMA_VERSION: &'static str = "1";

/// Which entry point ran the task.
#[derive(Debug, Clone, Copy, PartialEq, Eq, Structural)]
pub enum CallerKind {
    McpStdio,
    McpHttp,
    Cli,
    Api,
}

/// What was done with the task.
#[derive(Debug, Clone, Copy, PartialEq, Eq, Structural)]
pub enum AuditAction {
    TaskRun,
    TaskDryRun,
    TaskBlocked,
}

/// How it ended.
#[derive(Debug, Clone, Copy, PartialEq, Eq, Structural)]
pub enum AuditOutcome {
    Success,
    Failure,
    Blocked,
    DryRun,
}

/// One audit record. Environment variable values appear only in
/// `logged_env`, for the variables a task opted in through `audit.log_env`.
#[derive(Debug)]
pub struct AuditEvent {
    pub timestamp: String,
    pub schema_version: &'static str,
    pub caller: CallerKind,
    pub action: AuditAction,
    pub task: String,
    /// The job the task ran in; `None` for a standalone run.
    pub job: Option<String>,
    pub project: String,
    pub project_root: String,
    pub risk_level: String,
    pub exit_code: Option<i32>,
    pub duration_ms: Option<u64>,
    pub env_override_keys: Vec<String>,
    /// Values of the overridden variables the task opted into logging.
    pub logged_env: BTreeMap<String, String>,
    pub outcome: AuditOutcome,
    pub meriadoc_version: &'static str,
    pub pid: u32,
}

#[verifier::external_type_specification]
#[verifier::external_body]
pub struct ExSystemTime(std::time::SystemTime);

/// The Unix time of 10000-01-01T00:00:00Z: every instant before it falls in
/// a year with four digits.
pub const YEAR_10000_UNIX_SECONDS: i64 = 253402300800;

/// The text `chrono` renders for the UTC instant `secs` seconds and `nanos`
/// nanoseconds after the Unix epoch, as RFC 3339 with milliseconds and `Z`.
pub uninterp spec fn rfc3339_utc_millis_text(secs: i64, nanos: u32) -> Seq<char>;

/// A decimal digit.
pub open spec fn is_digit(c: char) -> bool {
    '0' <= c && c <= '9'
}

/// The value of the decimal digit `c`.
pub open spec fn digit_value(c: char) -> int {
    c as int - '0' as int
}

/// The value of the two decimal digits at `i` and `i + 1`.
pub open spec fn two_digit_value(s: Seq<char>, i: int) -> int {
    digit_value(s[i]) * 10 + digit_value(s[i + 1])
}

/// `s` has the form `YYYY-MM-DDTHH:MM:SS.mmmZ`.
pub open spec fn is_rfc3339_utc_millis(s: Seq<char>) -> bool {
    &&& s.len() == 24
    &&& s[4] == '-' && s[7] == '-' && s[10] == 'T' && s[13] == ':' && s[16] == ':'
    &&& s[19] == '.' && s[23] == 'Z'
    &&& forall|i: int|
        0 <= i < 23 && i != 4 && i != 7 && i != 10 && i != 13 && i != 16 && i != 19 ==> is_digit(
            #[trigger] s[i],
        )
}

/// The time of day and the milliseconds that `s` shows are those of the
/// instant `secs` seconds and `nanos` nanoseconds after the Unix epoch.
pub open spec fn shows_time_of_day(s: Seq<char>, secs: int, nanos: int) -> bool {
    &&& two_digit_value(s, 11) == (secs % 86400) / 3600
    &&& two_digit_value(s, 14) == (secs % 3600) / 60
    &&& two_digit_value(s, 17) == secs % 60
    &&& digit_value(s[20]) * 100 + two_digit_value(s, 21) == nanos / 1_000_000
}

/// Calls `std::time::SystemTime::now`: the clock's reading, of which nothing
/// is stated.
#[verifier::external_body]
fn system_time_now() -> (t: std::time::SystemTime) {
    std::time::SystemTime::now()
}

/// Calls `std::time::SystemTime::duration_since` with `UNIX_EPOCH` and takes
/// the duration as whole seconds and the nanoseconds beyond them. It is
/// `None` when `t` is before the epoch (the call's `Err`). As
/// `Duration::subsec_nanos` documents, the nanoseconds are below one
/// billion; nothing else is stated.
#[verifier::external_body]
fn since_unix_epoch(t: &std::time::SystemTime) -> (r: Option<(u64, u32)>)
    ensures
        r matches Some(d) ==> d.1 < 1_000_000_000,
{
    match t.duration_since(std::time::UNIX_EPOCH) {
        Ok(d) => Some((d.as_secs(), d.subsec_nanos())),
        Err(_) => None,
    }
}

/// Calls `chrono::DateTime::from_timestamp(secs, nanos)` and renders the
/// instant with `to_rfc3339_opts(SecondsFormat::Millis, true)`. The text is
/// named [`rfc3339_utc_millis_text`]. Beside the name stands what the
/// source shows: `from_timestamp` gives `None` only for an instant outside
/// chrono's range or an invalid nanosecond count; the rendering is
/// `YYYY-MM-DD`, `T`, `HH:MM:SS`, `.` and the milliseconds, then `Z` for UTC,
/// with four year digits for the years 0 to 9999. So from the epoch up to
/// the year 10000, with fewer than a billion nanoseconds, there is a text of
/// that form, showing the instant's time of day and milliseconds.
#[verifier::external_body]
fn rfc3339_utc_millis(secs: i64, nanos: u32) -> (r: Option<String>)
    ensures
        r matches Some(s) ==> s@ == rfc3339_utc_millis_text(secs, nanos),
        r is None ==> !(0 <= secs < YEAR_10000_UNIX_SECONDS && nanos < 1_000_000_000),
        r matches Some(s) ==> (0 <= secs < YEAR_10000_UNIX_SECONDS && nanos < 1_000_000_000 ==> is_rfc3339_utc_millis(s@)),
        r matches Some(s) ==> (0 <= secs < YEAR_10000_UNIX_SECONDS && nanos < 1_000_000_000 ==> shows_time_of_day(s@, secs as int, nanos as int)),
{
    match chrono::DateTime::from_timestamp(secs, nanos) {
        Some(t) => Some(t.to_rfc3339_opts(chrono::SecondsFormat::Millis, true)),
        None => None,
    }
}

/// The largest `i64`.
pub open spec fn i64_max() -> int {
    0x7fff_ffff_ffff_ffff
}

/// `t` is chrono's rendering of the clock reading `reading` (whole seconds
/// and nanoseconds since the Unix epoch).
pub open spec fn renders_reading(reading: Option<(u64, u32)>, t: Seq<char>) -> bool {
    reading matches Some(d) && d.0 <= i64_max() && t == rfc3339_utc_millis_text(d.0 as i64, d.1)
}

/// The reading lies between the Unix epoch and the year 10000, with fewer
/// than a billion nanoseconds: chrono renders it in the four-digit-year form.
pub open spec fn reading_renderable(reading: Option<(u64, u32)>) -> bool {
    reading matches Some(d) && d.0 < YEAR_10000_UNIX_SECONDS && d.1 < 1_000_000_000
}

/// `t` has the form `YYYY-MM-DDTHH:MM:SS.mmmZ` and shows the time of day and
/// milliseconds of `reading`.
pub open spec fn shows_reading(reading: Option<(u64, u32)>, t: Seq<char>) -> bool {
    reading matches Some(d) && is_rfc3339_utc_millis(t) && shows_time_of_day(t, d.0 as int, d.1 as int)
}

/// The RFC 3339 text (milliseconds, `Z`) of a clock reading given as whole
/// seconds and nanoseconds since the Unix epoch: `None` for no reading (a
/// clock before the epoch) and for seconds beyond `i64`; otherwise what
/// chrono renders, which it always does from the epoch up to the year 10000.
pub fn rfc3339_since_epoch(reading: Option<(u64, u32)>) -> (r: Option<String>)
    ensures
        reading is None ==> r is None,
        reading matches Some(d) && d.0 > i64_max() ==> r is None,
        r matches Some(t) ==> renders_reading(reading, t@),
        reading_renderable(reading) ==> r is Some,
        r matches Some(t) ==> (reading_renderable(reading) ==> shows_reading(reading, t@)),
{
    match reading {
        Some((secs, nanos)) => {
            if secs > 9223372036854775807u64 {
                None
            } else {
                rfc3339_utc_millis(secs as i64, nanos)
            }
        },
        None => None,
    }
}

/// The text of an optional name, as an owned optional text.
fn owned_option(s: Option<&str>) -> (r: Option<String>)
    ensures
        match s {
            Some(x) => r matches Some(y) && y@ == x@,
            None => r is None,
        },
{
    match s {
        Some(x) => Some(String::from_str(x)),
        None => None,
    }
}

/// Whether an action ran the task's commands, so that its record carries an
/// exit code and a duration. For `task.blocked` and `task.dry_run` both are
/// null.
pub open spec fn action_has_run(action: AuditAction) -> bool {
    action == AuditAction::TaskRun
}

/// The exit code, or duration, an event of `action` records when it is
/// given `value`: the value for a run, nothing for a blocked or dry run.
pub open spec fn recorded_for<T>(action: AuditAction, value: Option<T>) -> Option<T> {
    if action_has_run(action) {
        value
    } else {
        None
    }
}

/// Builds the audit record of one execution that took place at `timestamp`.
/// Every field is the argument of the same name, except that a blocked or
/// dry run records no exit code and no duration; the schema version is `1`
/// and the recorded version is this library's. `pid` is the id of the
/// running process.
pub fn build_event_at(
    timestamp: String,
    caller: CallerKind,
    action: AuditAction,
    task: &str,
    job: Option<&str>,
    project: &str,
    project_root: &str,
    risk_level: &str,
    exit_code: Option<i32>,
    duration_ms: Option<u64>,
    env_override_keys: Vec<String>,
    logged_env: BTreeMap<String, String>,
    outcome: AuditOutcome,
    pid: u32,
) -> (e: AuditEvent)
    ensures
        e.timestamp == timestamp,
        e.schema_version@ == AUDIT_SCHEMA_VERSION@,
        e.caller == caller,
        e.action == action,
        e.task@ == task@,
        match job {
            Some(j) => e.job matches Some(s) && s@ == j@,
            None => e.job is None,
        },
        e.project@ == project@,
        e.project_root@ == project_root@,
        e.risk_level@ == risk_level@,
        e.exit_code == recorded_for(action, exit_code),
        e.duration_ms == recorded_for(action, duration_ms),
        e.env_override_keys == env_override_keys,
        e.logged_env == logged_env,
        e.outcome == outcome,
        e.meriadoc_version@ == MERIADOC_VERSION@,
        e.pid == pid,
{
    let ran = match action {
        AuditAction::TaskRun => true,
        AuditAction::TaskDryRun => false,
        AuditAction::TaskBlocked => false,
    };
    AuditEvent {
        timestamp,
        schema_version: AUDIT_SCHEMA_VERSION,
        caller,
        action,
        task: String::from_str(task),
        job: owned_option(job),
        project: String::from_str(project),
        project_root: String::from_str(project_root),
        risk_level: String::from_str(risk_level),
        exit_code: if ran {
            exit_code
        } else {
            None
        },
        duration_ms: if ran {
            duration_ms
        } else {
            None
        },
        env_override_keys,
        logged_env,
        outcome,
        meriadoc_version: MERIADOC_VERSION,
        pid,
    }
}

/// The text of an optional name, taken as characters.
pub open spec fn option_text(s: Option<&str>) -> Option<Seq<char>> {
    match s {
        Some(x) => Some(x@),
        None => None,
    }
}

/// `e` records, apart from its timestamp, the execution described by the
/// other arguments, as [`build_event_at`] builds it.
pub open spec fn records_execution(
    e: AuditEvent,
    caller: CallerKind,
    action: AuditAction,
    task: &str,
    job: Option<&str>,
    project: &str,
    project_root: &str,
    risk_level: &str,
    exit_code: Option<i32>,
    duration_ms: Option<u64>,
    env_override_keys: Vec<String>,
    logged_env: BTreeMap<String, String>,
    outcome: AuditOutcome,
    pid: u32,
) -> bool {
    &&& e.schema_version@ == AUDIT_SCHEMA_VERSION@
    &&& e.caller == caller
    &&& e.action == action
    &&& e.task@ == task@
    &&& match e.job {
        Some(s) => option_text(job) == Some(s@),
        None => job is None,
    }
    &&& e.project@ == project@
    &&& e.project_root@ == project_root@
    &&& e.risk_level@ == risk_level@
    &&& e.exit_code == recorded_for(action, exit_code)
    &&& e.duration_ms == recorded_for(action, duration_ms)
    &&& e.env_override_keys == env_override_keys
    &&& e.logged_env == logged_env
    &&& e.outcome == outcome
    &&& e.meriadoc_version@ == MERIADOC_VERSION@
    &&& e.pid == pid
}

/// Builds the audit record of one execution at the clock reading `reading`
/// (whole seconds and nanoseconds since the Unix epoch): its timestamp is
/// [`rfc3339_since_epoch`] of the reading, the other fields are those
/// [`build_event_at`] gives. It is `None` exactly when the reading has no
/// text.
pub fn build_event_from_reading(
    reading: Option<(u64, u32)>,
    caller: CallerKind,
    action: AuditAction,
    task: &str,
    job: Option<&str>,
    project: &str,
    project_root: &str,
    risk_level: &str,
    exit_code: Option<i32>,
    duration_ms: Option<u64>,
    env_override_keys: Vec<String>,
    logged_env: BTreeMap<String, String>,
    outcome: AuditOutcome,
    pid: u32,
) -> (r: Option<AuditEvent>)
    ensures
        reading is None ==> r is None,
        reading matches Some(d) && d.0 > i64_max() ==> r is None,
        reading_renderable(reading) ==> r is Some,
        r matches Some(e) ==> renders_reading(reading, e.timestamp@),
        r matches Some(e) ==> (reading_renderable(reading) ==> shows_reading(reading, e.timestamp@)),
        r matches Some(e) ==> records_execution(
            e,
            caller,
            action,
            task,
            job,
            project,
            project_root,
            risk_level,
            exit_code,
            duration_ms,
            env_override_keys,
            logged_env,
            outcome,
            pid,
        ),
{
    match rfc3339_since_epoch(reading) {
        Some(timestamp) => Some(
            build_event_at(
                timestamp,
                caller,
                action,
                task,
                job,
                project,
                project_root,
                risk_level,
                exit_code,
                duration_ms,
                env_override_keys,
                logged_env,
                outcome,
                pid,
            ),
        ),
        None => None,
    }
}

/// The timestamp `t` is a rendering of a clock reading at or after the Unix
/// epoch; before the year 10000 it has the form `YYYY-MM-DDTHH:MM:SS.mmmZ`
/// and shows the reading's time of day and milliseconds.
pub open spec fn is_clock_timestamp(t: Seq<char>) -> bool {
    exists|reading: Option<(u64, u32)>|
        {
            &&& #[trigger] renders_reading(reading, t)
            &&& reading matches Some(d) && d.1 < 1_000_000_000
            &&& reading_renderable(reading) ==> shows_reading(reading, t)
        }
}

/// Builds the audit record of one execution, stamped with the current UTC
/// time: it reads the clock and hands the reading to
/// [`build_event_from_reading`]. It is `None` when the clock reads before the
/// Unix epoch or beyond what chrono represents, which is the clock's to
/// decide, not the library's.
pub fn build_event(
    caller: CallerKind,
    action: AuditAction,
    task: &str,
    job: Option<&str>,
    project: &str,
    project_root: &str,
    risk_level: &str,
    exit_code: Option<i32>,
    duration_ms: Option<u64>,
    env_override_keys: Vec<String>,
    logged_env: BTreeMap<String, String>,
    outcome: AuditOutcome,
    pid: u32,
) -> (r: Option<AuditEvent>)
    ensures
        r matches Some(e) ==> is_clock_timestamp(e.timestamp@),
        r matches Some(e) ==> records_execution(
            e,
            caller,
            action,
            task,
            job,
            project,
            project_root,
            risk_level,
            exit_code,
            duration_ms,
            env_override_keys,
            logged_env,
            outcome,
            pid,
        ),
{
    let now = system_time_now();
    let reading = since_unix_epoch(&now);
    let r = build_event_from_reading(
        reading,
        caller,
        action,
        task,
        job,
        project,
        project_root,
        risk_level,
        exit_code,
        duration_ms,
        env_override_keys,
        logged_env,
        outcome,
        pid,
    );
    proof {
        if r is Some {
            assert(renders_reading(reading, r->0.timestamp@));
        }
    }
    r
}

/// Blocked and dry-run events never carry an exit code or a duration.
pub proof fn lemma_unrun_events_record_no_result(action: AuditAction, exit_code: Option<i32>, duration_ms: Option<u64>)
    requires
        action == AuditAction::TaskBlocked || action == AuditAction::TaskDryRun,
    ensures
        recorded_for(action, exit_code) is None,
        recorded_for(action, duration_ms) is None,
{
}

/// A sink that appends one NDJSON record per event to a file.
#[derive(Debug)]
pub struct FileSink {
    pub path: String,
}

/// A sink that writes one NDJSON record per event to standard error.
#[derive(Debug)]
pub struct StderrSink;

/// The line that carries one serialized record in an NDJSON stream: the
/// record followed by a newline.
pub fn ndjson_line(record: String) -> (line: String)
    ensures
        line@ == record@.push('\n'),
{
    let mut line = record;
    line.append("\n");
    proof {
        reveal_strlit("\n");
    }
    assert(line@ =~= record@.push('\n'));
    line
}

} // verus!
