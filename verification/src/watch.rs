//! Watch mode: periodic health monitoring. The library holds the watch
//! configuration, the interval syntax and the change detection that decides
//! when an alert fires; scheduling, storage and webhooks live in the
//! application.

use vstd::prelude::*;
use crate::clock::{chrono_ms_in_range, now_ms};
use crate::report::{string_views, HealthReport, Severity};
use crate::text::{dec, join_seqs, join_strings, parse_u64, parse_u64_spec, trim_spec, trim_text, u64_text};

verus! {

/// Configuration for watch mode.
pub struct WatchConfig {
    /// Check interval (e.g. "6h", "30m", "1h").
    pub interval: String,
    /// Webhook URL for alerts (Slack, generic HTTP POST).
    pub webhook_url: Option<String>,
    /// Path to the SQLite database for state tracking.
    pub sqlite_path: String,
    /// Only watch tables in this namespace.
    pub namespace: Option<String>,
}

impl Default for WatchConfig {
    fn default() -> (c: Self)
        ensures
            c.interval@ == "6h"@,
            c.webhook_url.is_none(),
            c.sqlite_path@ == "./frost-watch.db"@,
            c.namespace.is_none(),
    {
        WatchConfig {
            interval: String::from_str("6h"),
            webhook_url: None,
            sqlite_path: String::from_str("./frost-watch.db"),
            namespace: None,
        }
    }
}

/// Errors of watch mode.
pub enum WatchError {
    /// The watch configuration is invalid.
    Config(String),
    /// The state database failed.
    Sqlite(String),
    /// A file could not be read or written.
    Io(String),
    /// A webhook could not be delivered.
    Webhook(String),
    /// Anything else.
    Other(String),
}

impl WatchError {
    /// The error's message, as it is displayed.
    pub fn message(&self) -> (s: String)
        ensures
            s@ == match self {
                WatchError::Config(m) => "watch config error: "@ + m@,
                WatchError::Sqlite(m) => "SQLite error: "@ + m@,
                WatchError::Io(m) => "I/O error: "@ + m@,
                WatchError::Webhook(m) => "webhook error: "@ + m@,
                WatchError::Other(m) => "watch error: "@ + m@,
            },
    {
        let (mut s, m) = match self {
            WatchError::Config(m) => (String::from_str("watch config error: "), m),
            WatchError::Sqlite(m) => (String::from_str("SQLite error: "), m),
            WatchError::Io(m) => (String::from_str("I/O error: "), m),
            WatchError::Webhook(m) => (String::from_str("webhook error: "), m),
            WatchError::Other(m) => (String::from_str("watch error: "), m),
        };
        s.append(m.as_str());
        s
    }
}

/// Seconds per unit of the interval syntax (`s`, `m`, `h`, `d`).
pub open spec fn unit_seconds(c: char) -> Option<nat> {
    if c == 's' {
        Some(1)
    } else if c == 'm' {
        Some(60)
    } else if c == 'h' {
        Some(3600)
    } else if c == 'd' {
        Some(86400)
    } else {
        None
    }
}

/// The interval text is split before its last byte; the split is defined
/// when the trimmed text is empty or ends in an ASCII character.
pub open spec fn interval_splittable(s: Seq<char>) -> bool {
    let t = trim_spec(s);
    t.len() > 0 ==> (t.last() as u32) < 128
}

/// The number of seconds fits in 64 bits, when the text is well formed.
pub open spec fn interval_fits(s: Seq<char>) -> bool {
    let t = trim_spec(s);
    t.len() > 0 ==> match (parse_u64_spec(t.drop_last()), unit_seconds(t.last())) {
        (Some(n), Some(k)) => n * k <= u64::MAX,
        _ => true,
    }
}

/// What `parse_interval` returns: `Ok(seconds)`, or `Err` with the message
/// of a configuration error.
pub open spec fn interval_result(s: Seq<char>) -> Result<nat, Seq<char>> {
    let t = trim_spec(s);
    if t.len() == 0 {
        Err("empty interval"@)
    } else {
        match parse_u64_spec(t.drop_last()) {
            None => Err("invalid interval: "@ + t),
            Some(n) => match unit_seconds(t.last()) {
                Some(k) => Ok((n as nat) * k),
                None => Err("unknown interval unit '"@ + seq![t.last()] + "', expected s/m/h/d"@),
            },
        }
    }
}

/// Parses an interval such as "6h", "30m" or "1d" into seconds: surrounding
/// whitespace is ignored; a decimal count is followed by one unit letter.
pub fn parse_interval(s: &str) -> (r: Result<u64, WatchError>)
    requires
        interval_splittable(s@),
        interval_fits(s@),
    ensures
        r matches Ok(n) ==> interval_result(s@) == Ok::<nat, Seq<char>>(n as nat),
        r matches Err(e) ==> e matches WatchError::Config(m) && interval_result(s@) == Err::<nat, Seq<char>>(m@),
{
    let t = trim_text(s);
    let n = t.unicode_len();
    if n == 0 {
        return Err(WatchError::Config(String::from_str("empty interval")));
    }
    let body = t.as_str().substring_char(0, n - 1);
    let unit = t.as_str().get_char(n - 1);
    proof {
        assert(body@ =~= t@.drop_last());
        assert(unit == t@.last());
    }
    let num = match parse_u64(body) {
        Some(v) => v,
        None => {
            let mut m = String::from_str("invalid interval: ");
            m.append(t.as_str());
            return Err(WatchError::Config(m));
        },
    };
    proof {
        assert(parse_u64_spec(t@.drop_last()) == Some(num));
        assert(t@ == trim_spec(s@));
    }
    if unit == 's' {
        proof {
            assert(unit_seconds(unit) == Some(1nat));
            assert(t@.len() > 0);
            assert(interval_result(s@) == Ok::<nat, Seq<char>>((num as nat) * 1));
        }
        Ok(num)
    } else if unit == 'm' {
        proof {
            assert(unit_seconds(unit) == Some(60nat));
        }
        Ok(num * 60)
    } else if unit == 'h' {
        proof {
            assert(unit_seconds(unit) == Some(3600nat));
        }
        Ok(num * 3600)
    } else if unit == 'd' {
        proof {
            assert(unit_seconds(unit) == Some(86400nat));
        }
        Ok(num * 86400)
    } else {
        let mut m = String::from_str("unknown interval unit '");
        m.append(t.as_str().substring_char(n - 1, n));
        m.append("', expected s/m/h/d");
        proof {
            assert(t@.subrange(n - 1, n as int) =~= seq![t@.last()]);
        }
        Err(WatchError::Config(m))
    }
}

/// A stored health report summary.
pub struct StoredReport {
    pub table_name: String,
    pub severity: String,
    pub finding_count: usize,
    pub critical_count: usize,
    pub warning_count: usize,
    /// When the check ran (ms since the epoch).
    pub checked_at_ms: i64,
    pub report_json: String,
}

/// A health change that triggered an alert.
pub struct WatchAlert {
    pub table_name: String,
    pub previous_severity: String,
    pub current_severity: String,
    pub message: String,
    pub new_findings: Vec<String>,
    pub resolved_findings: Vec<String>,
    /// When the alert fired (ms since the epoch).
    pub alerted_at_ms: i64,
}

/// The outcome of one watch cycle.
pub struct WatchCycleResult {
    pub tables_checked: usize,
    pub alerts_fired: usize,
    pub alerts: Vec<WatchAlert>,
}

/// What change detection needs of the previous check: its overall severity
/// label and the IDs of its non-passing findings (empty when the stored
/// report could not be read).
pub struct PreviousCheck {
    pub severity: String,
    pub finding_ids: Vec<String>,
}

/// IDs of the non-passing findings, in order.
pub open spec fn failing_ids(r: HealthReport) -> Seq<Seq<char>> {
    failing_ids_of(r.findings@)
}

pub open spec fn failing_ids_of(fs: Seq<crate::report::Finding>) -> Seq<Seq<char>>
    decreases fs.len(),
{
    if fs.len() == 0 {
        Seq::empty()
    } else if fs.last().severity != Severity::Pass {
        failing_ids_of(fs.drop_last()).push(fs.last().check_id@)
    } else {
        failing_ids_of(fs.drop_last())
    }
}

/// The items of `a` that do not occur in `b`, in order.
pub open spec fn missing_from(a: Seq<Seq<char>>, b: Seq<Seq<char>>) -> Seq<Seq<char>>
    decreases a.len(),
{
    if a.len() == 0 {
        Seq::empty()
    } else if b.contains(a.last()) {
        missing_from(a.drop_last(), b)
    } else {
        missing_from(a.drop_last(), b).push(a.last())
    }
}

/// The alert message for a change from the previous check.
pub open spec fn change_message(new: Seq<Seq<char>>, resolved: Seq<Seq<char>>, prev: Seq<char>, cur: Seq<char>) -> Seq<char> {
    let parts = if new.len() > 0 { seq!["new: "@ + join_seqs(new, ", "@)] } else { Seq::empty() };
    let parts = if resolved.len() > 0 { parts.push("resolved: "@ + join_seqs(resolved, ", "@)) } else { parts };
    let parts = if prev != cur { parts.push(prev + " -> "@ + cur) } else { parts };
    join_seqs(parts, "; "@)
}

/// The alert change detection raises, as a function of the report, the
/// previous check and the instant.
pub open spec fn alert_fires(current: HealthReport, previous: Option<PreviousCheck>) -> bool {
    match previous {
        None => current.overall.severity != Severity::Pass,
        Some(p) => {
            let cur = failing_ids(current);
            let prev = string_views(p.finding_ids@);
            missing_from(cur, prev).len() > 0 || missing_from(prev, cur).len() > 0
                || p.severity@ != current.overall.severity.label_spec()
        },
    }
}

pub open spec fn previous_of(previous: Option<&PreviousCheck>) -> Option<PreviousCheck> {
    match previous {
        Some(p) => Some(*p),
        None => None,
    }
}

/// `a` is the alert for `current` after `previous`: the table, both
/// severities, the findings that appeared and cleared, and the message.
pub open spec fn is_alert(a: WatchAlert, current: HealthReport, previous: Option<PreviousCheck>) -> bool {
    &&& a.table_name@ == current.table_name@
    &&& a.current_severity@ == current.overall.severity.label_spec()
    &&& match previous {
        None => {
            &&& a.previous_severity@ == "unknown"@
            &&& a.message@ == "First check: "@ + dec(failing_ids(current).len()) + " finding(s) detected"@
            &&& string_views(a.new_findings@) == failing_ids(current)
            &&& a.resolved_findings@.len() == 0
        },
        Some(p) => {
            let cur = failing_ids(current);
            let prev = string_views(p.finding_ids@);
            &&& a.previous_severity@ == p.severity@
            &&& string_views(a.new_findings@) == missing_from(cur, prev)
            &&& string_views(a.resolved_findings@) == missing_from(prev, cur)
            &&& a.message@ == change_message(missing_from(cur, prev), missing_from(prev, cur), p.severity@,
                current.overall.severity.label_spec())
        },
    }
}

proof fn lemma_missing_from_covered(a: Seq<Seq<char>>, b: Seq<Seq<char>>)
    requires
        forall|i: int| 0 <= i < a.len() ==> b.contains(#[trigger] a[i]),
    ensures
        missing_from(a, b).len() == 0,
    decreases a.len(),
{
    if a.len() > 0 {
        assert forall|i: int| 0 <= i < a.drop_last().len() implies b.contains(#[trigger] a.drop_last()[i]) by {
            assert(a.drop_last()[i] == a[i]);
        }
        lemma_missing_from_covered(a.drop_last(), b);
        assert(b.contains(a[a.len() - 1]));
    }
}

/// Checking a table again with the same failing findings and the same
/// overall severity as the stored check raises no alert.
pub proof fn law_unchanged_check_is_silent(current: HealthReport, previous: PreviousCheck)
    requires
        string_views(previous.finding_ids@) == failing_ids(current),
        previous.severity@ == current.overall.severity.label_spec(),
    ensures
        !alert_fires(current, Some(previous)),
{
    let ids = failing_ids(current);
    assert forall|i: int| 0 <= i < ids.len() implies ids.contains(#[trigger] ids[i]) by {}
    lemma_missing_from_covered(ids, ids);
}

proof fn lemma_missing_from_member(a: Seq<Seq<char>>, b: Seq<Seq<char>>, x: Seq<char>)
    requires
        missing_from(a, b).contains(x),
    ensures
        a.contains(x),
        !b.contains(x),
    decreases a.len(),
{
    if a.len() > 0 {
        let prev = missing_from(a.drop_last(), b);
        if prev.contains(x) {
            lemma_missing_from_member(a.drop_last(), b, x);
            let i = choose|i: int| 0 <= i < a.drop_last().len() && a.drop_last()[i] == x;
            assert(a[i] == x);
        } else {
            assert(missing_from(a, b) == prev.push(a.last()));
            assert(x == a.last());
            assert(a[a.len() - 1] == x);
        }
    }
}

/// An alert never lists a finding both as new and as resolved: new
/// findings fail now and did not before, resolved ones the other way round.
pub proof fn law_new_and_resolved_are_disjoint(current: HealthReport, previous: PreviousCheck, x: Seq<char>)
    ensures
        missing_from(failing_ids(current), string_views(previous.finding_ids@)).contains(x) ==> {
            &&& failing_ids(current).contains(x)
            &&& !string_views(previous.finding_ids@).contains(x)
            &&& !missing_from(string_views(previous.finding_ids@), failing_ids(current)).contains(x)
        },
{
    let cur = failing_ids(current);
    let prev = string_views(previous.finding_ids@);
    if missing_from(cur, prev).contains(x) {
        lemma_missing_from_member(cur, prev, x);
        if missing_from(prev, cur).contains(x) {
            lemma_missing_from_member(prev, cur, x);
        }
    }
}

fn failing_finding_ids(r: &HealthReport) -> (ids: Vec<String>)
    ensures
        string_views(ids@) == failing_ids(*r),
{
    let mut ids: Vec<String> = Vec::new();
    let mut i: usize = 0;
    while i < r.findings.len()
        invariant
            i <= r.findings@.len(),
            string_views(ids@) == failing_ids_of(r.findings@.take(i as int)),
        decreases r.findings@.len() - i,
    {
        proof {
            assert(r.findings@.take(i + 1).drop_last() =~= r.findings@.take(i as int));
        }
        if r.findings[i].severity.rank_exec() != 0 {
            let ghost before = string_views(ids@);
            ids.push(r.findings[i].check_id.clone());
            proof {
                assert(string_views(ids@) =~= before.push(r.findings@[i as int].check_id@));
            }
        }
        i = i + 1;
    }
    proof {
        assert(r.findings@.take(r.findings@.len() as int) =~= r.findings@);
    }
    ids
}

fn contains_string(v: &Vec<String>, s: &String) -> (b: bool)
    ensures
        b == string_views(v@).contains(s@),
{
    let mut i: usize = 0;
    while i < v.len()
        invariant
            i <= v@.len(),
            forall|j: int| 0 <= j < i ==> v@[j]@ != s@,
        decreases v@.len() - i,
    {
        if v[i] == *s {
            assert(string_views(v@)[i as int] == s@);
            return true;
        }
        i = i + 1;
    }
    proof {
        if string_views(v@).contains(s@) {
            let j = choose|j: int| 0 <= j < string_views(v@).len() && string_views(v@)[j] == s@;
            assert(v@[j]@ == s@);
        }
    }
    false
}

fn strings_missing_from(a: &Vec<String>, b: &Vec<String>) -> (r: Vec<String>)
    ensures
        string_views(r@) == missing_from(string_views(a@), string_views(b@)),
{
    let mut r: Vec<String> = Vec::new();
    let mut i: usize = 0;
    while i < a.len()
        invariant
            i <= a@.len(),
            string_views(r@) == missing_from(string_views(a@.take(i as int)), string_views(b@)),
        decreases a@.len() - i,
    {
        proof {
            assert(a@.take(i + 1).drop_last() =~= a@.take(i as int));
            assert(string_views(a@.take(i + 1)).drop_last() =~= string_views(a@.take(i as int)));
            assert(string_views(a@.take(i + 1)).last() == a@[i as int]@);
        }
        if !contains_string(b, &a[i]) {
            let ghost before = string_views(r@);
            r.push(a[i].clone());
            proof {
                assert(string_views(r@) =~= before.push(a@[i as int]@));
            }
        }
        i = i + 1;
    }
    proof {
        assert(a@.take(a@.len() as int) =~= a@);
    }
    r
}

/// Compares a new report with the previous check and raises an alert,
/// stamped `now_ms`, when health changed: on a first check, when anything
/// fails; afterwards, when failing findings appeared or cleared or the
/// overall severity changed.
pub fn detect_changes_at(current: &HealthReport, previous: Option<&PreviousCheck>, now_ms: i64) -> (r: Option<WatchAlert>)
    ensures
        r is Some <==> alert_fires(*current, previous_of(previous)),
        r matches Some(a) ==> is_alert(a, *current, previous_of(previous)) && a.alerted_at_ms == now_ms,
{
    let current_severity = current.overall.severity.label();
    let current_ids = failing_finding_ids(current);
    match previous {
        None => {
            if current.overall.severity.rank_exec() == 0 {
                return None;
            }
            let mut message = String::from_str("First check: ");
            message.append(u64_text(current_ids.len() as u64).as_str());
            message.append(" finding(s) detected");
            proof {
                assert(string_views(current_ids@).len() == current_ids@.len());
            }
            Some(WatchAlert {
                table_name: current.table_name.clone(),
                previous_severity: String::from_str("unknown"),
                current_severity,
                message,
                new_findings: current_ids,
                resolved_findings: Vec::new(),
                alerted_at_ms: now_ms,
            })
        },
        Some(prev) => {
            let new_findings = strings_missing_from(&current_ids, &prev.finding_ids);
            let resolved_findings = strings_missing_from(&prev.finding_ids, &current_ids);
            let severity_changed = !(prev.severity == current_severity);
            if new_findings.len() == 0 && resolved_findings.len() == 0 && !severity_changed {
                return None;
            }
            let mut parts: Vec<String> = Vec::new();
            let ghost p0 = string_views(parts@);
            if new_findings.len() > 0 {
                let mut part = String::from_str("new: ");
                part.append(join_strings(&new_findings, ", ").as_str());
                parts.push(part);
            }
            let ghost p1 = string_views(parts@);
            proof {
                if new_findings.len() > 0 {
                    assert(p1 =~= seq!["new: "@ + join_seqs(string_views(new_findings@), ", "@)]);
                } else {
                    assert(p1 =~= Seq::<Seq<char>>::empty());
                }
            }
            if resolved_findings.len() > 0 {
                let mut part = String::from_str("resolved: ");
                part.append(join_strings(&resolved_findings, ", ").as_str());
                parts.push(part);
                proof {
                    assert(string_views(parts@) =~= p1.push("resolved: "@ + join_seqs(string_views(resolved_findings@), ", "@)));
                }
            }
            let ghost p2 = string_views(parts@);
            if severity_changed {
                let mut part = prev.severity.clone();
                part.append(" -> ");
                part.append(current_severity.as_str());
                parts.push(part);
                proof {
                    assert(string_views(parts@) =~= p2.push(prev.severity@ + " -> "@ + current_severity@));
                }
            }
            let message = join_strings(&parts, "; ");
            proof {
                assert(string_views(new_findings@).len() == new_findings@.len());
                assert(string_views(resolved_findings@).len() == resolved_findings@.len());
                assert(string_views(parts@) == parts@.map_values(|x: String| x@));
            }
            Some(WatchAlert {
                table_name: current.table_name.clone(),
                previous_severity: prev.severity.clone(),
                current_severity,
                message,
                new_findings,
                resolved_findings,
                alerted_at_ms: now_ms,
            })
        },
    }
}

/// Change detection stamped with the current instant.
pub fn detect_changes(current: &HealthReport, previous: Option<&PreviousCheck>) -> (r: Option<WatchAlert>)
    ensures
        r is Some <==> alert_fires(*current, previous_of(previous)),
        r matches Some(a) ==> is_alert(a, *current, previous_of(previous)) && chrono_ms_in_range(a.alerted_at_ms as int),
{
    let now = now_ms();
    detect_changes_at(current, previous, now)
}

} // verus!

verus! {

/// Seconds to wait before the next cycle: the interval less the whole
/// seconds the cycle took (none when the clock went back), never below zero.
pub open spec fn sleep_after(interval_secs: u64, cycle_start_ms: i64, now_ms: i64) -> nat {
    let elapsed = crate::clock::whole_seconds(now_ms - cycle_start_ms);
    let elapsed = if elapsed < 0 { 0 } else { elapsed };
    if interval_secs >= elapsed { (interval_secs - elapsed) as nat } else { 0 }
}

/// The pause between two watch cycles, from the interval and the instants
/// the cycle started and ended.
pub fn sleep_seconds(interval_secs: u64, cycle_start_ms: i64, now_ms: i64) -> (s: u64)
    requires
        chrono_ms_in_range(cycle_start_ms as int),
        chrono_ms_in_range(now_ms as int),
    ensures
        s == sleep_after(interval_secs, cycle_start_ms, now_ms),
{
    let diff = now_ms - cycle_start_ms;
    let secs = diff / 1000;
    let elapsed: u64 = if secs < 0 { 0 } else { secs as u64 };
    interval_secs.saturating_sub(elapsed)
}

/// The one-line text of a webhook alert.
pub open spec fn webhook_text_spec(a: WatchAlert) -> Seq<char> {
    "frost watch alert: *"@ + a.table_name@ + "* \u{2014} "@ + a.message@
}

/// The detail block of a webhook alert: table, severity change and message.
pub open spec fn webhook_details_spec(a: WatchAlert) -> Seq<char> {
    "*frost watch alert*\n*Table:* "@ + a.table_name@ + "\n*Severity:* "@ + a.previous_severity@ + " \u{2192} "@
        + a.current_severity@ + "\n*Details:* "@ + a.message@
}

/// The one-line text the webhook posts for an alert.
pub fn webhook_text(a: &WatchAlert) -> (s: String)
    ensures
        s@ == webhook_text_spec(*a),
{
    let mut s = String::from_str("frost watch alert: *");
    s.append(a.table_name.as_str());
    s.append("* \u{2014} ");
    s.append(a.message.as_str());
    s
}

/// The detail block the webhook posts for an alert.
pub fn webhook_details(a: &WatchAlert) -> (s: String)
    ensures
        s@ == webhook_details_spec(*a),
{
    let mut s = String::from_str("*frost watch alert*\n*Table:* ");
    s.append(a.table_name.as_str());
    s.append("\n*Severity:* ");
    s.append(a.previous_severity.as_str());
    s.append(" \u{2192} ");
    s.append(a.current_severity.as_str());
    s.append("\n*Details:* ");
    s.append(a.message.as_str());
    s
}

} // verus!

verus! {

/// What change detection needs of a stored check: its severity label and
/// the failing findings of its stored report, none when the report could
/// not be read back.
pub fn previous_check(severity: String, stored_report: Option<&HealthReport>) -> (p: PreviousCheck)
    ensures
        p.severity == severity,
        string_views(p.finding_ids@) == match stored_report {
            Some(r) => failing_ids(*r),
            None => Seq::<Seq<char>>::empty(),
        },
{
    let finding_ids = match stored_report {
        Some(r) => failing_finding_ids(r),
        None => {
            let v: Vec<String> = Vec::new();
            proof {
                assert(string_views(v@) =~= Seq::<Seq<char>>::empty());
            }
            v
        },
    };
    PreviousCheck { severity, finding_ids }
}

} // verus!

verus! {

/// How long a repeated alert is suppressed after the one it repeats.
pub const ALERT_COOLDOWN_MS: i64 = 3_600_000;

/// `alert` repeats `earlier` within the cooldown: the same table, the same
/// severities and message, fired less than an hour after it.
pub open spec fn repeats_within_cooldown(earlier: WatchAlert, alert: WatchAlert) -> bool {
    &&& earlier.table_name@ == alert.table_name@
    &&& earlier.previous_severity@ == alert.previous_severity@
    &&& earlier.current_severity@ == alert.current_severity@
    &&& earlier.message@ == alert.message@
    &&& earlier.alerted_at_ms <= alert.alerted_at_ms
    &&& alert.alerted_at_ms - earlier.alerted_at_ms < ALERT_COOLDOWN_MS
}

/// Whether `alert` is suppressed as a duplicate: some recent alert is one
/// it repeats within the cooldown.
pub fn suppressed_by_cooldown(recent: &Vec<WatchAlert>, alert: &WatchAlert) -> (b: bool)
    ensures
        b <==> exists|i: int| 0 <= i < recent@.len() && repeats_within_cooldown(#[trigger] recent@[i], *alert),
{
    let mut i: usize = 0;
    while i < recent.len()
        invariant
            i <= recent@.len(),
            forall|k: int| 0 <= k < i ==> !repeats_within_cooldown(#[trigger] recent@[k], *alert),
        decreases recent@.len() - i,
    {
        let e = &recent[i];
        if e.table_name == alert.table_name && e.previous_severity == alert.previous_severity
            && e.current_severity == alert.current_severity && e.message == alert.message
            && e.alerted_at_ms <= alert.alerted_at_ms
            && (alert.alerted_at_ms as i128) - (e.alerted_at_ms as i128) < ALERT_COOLDOWN_MS as i128
        {
            return true;
        }
        i = i + 1;
    }
    false
}

} // verus!

verus! {

/// Some finding of `fs` with ID `id` is not passing.
pub open spec fn fails_in(fs: Seq<crate::report::Finding>, id: Seq<char>) -> bool {
    exists|i: int| 0 <= i < fs.len() && fs[i].severity != Severity::Pass && fs[i].check_id@ == id
}

proof fn lemma_failing_ids_contains(fs: Seq<crate::report::Finding>, x: Seq<char>)
    ensures
        failing_ids_of(fs).contains(x) <==> fails_in(fs, x),
    decreases fs.len(),
{
    if fs.len() > 0 {
        let d = fs.drop_last();
        lemma_failing_ids_contains(d, x);
        let prev = failing_ids_of(d);
        if fails_in(d, x) {
            let i = choose|i: int| 0 <= i < d.len() && d[i].severity != Severity::Pass && d[i].check_id@ == x;
            assert(fs[i] == d[i]);
        }
        if fails_in(fs, x) {
            let i = choose|i: int| 0 <= i < fs.len() && fs[i].severity != Severity::Pass && fs[i].check_id@ == x;
            if i < fs.len() - 1 {
                assert(d[i] == fs[i]);
            }
        }
        if fs.last().severity != Severity::Pass {
            let now = prev.push(fs.last().check_id@);
            assert(now[now.len() - 1] == fs.last().check_id@);
            if prev.contains(x) {
                let k = choose|k: int| 0 <= k < prev.len() && prev[k] == x;
                assert(now[k] == x);
            }
            if now.contains(x) {
                let k = choose|k: int| 0 <= k < now.len() && now[k] == x;
                if k < prev.len() {
                    assert(prev[k] == x);
                }
            }
        }
    }
}

proof fn lemma_missing_nonempty(a: Seq<Seq<char>>, b: Seq<Seq<char>>)
    ensures
        missing_from(a, b).len() > 0 <==> exists|i: int| 0 <= i < a.len() && !b.contains(a[i]),
    decreases a.len(),
{
    if a.len() > 0 {
        let d = a.drop_last();
        lemma_missing_nonempty(d, b);
        if exists|i: int| 0 <= i < d.len() && !b.contains(d[i]) {
            let i = choose|i: int| 0 <= i < d.len() && !b.contains(d[i]);
            assert(a[i] == d[i]);
        }
        if exists|i: int| 0 <= i < a.len() && !b.contains(a[i]) {
            let i = choose|i: int| 0 <= i < a.len() && !b.contains(a[i]);
            if i < a.len() - 1 {
                assert(d[i] == a[i]);
            }
        }
    }
}

/// Change detection against a previous check alerts exactly when
/// something changed: the overall severity label, a check that fails now
/// but did not before, or one that failed before but does not now.
pub proof fn law_alert_on_change(current: HealthReport, p: PreviousCheck)
    ensures
        p.severity@ != current.overall.severity.label_spec() ==> alert_fires(current, Some(p)),
        (exists|id: Seq<char>| fails_in(current.findings@, id) && !string_views(p.finding_ids@).contains(id))
            ==> alert_fires(current, Some(p)),
        (exists|j: int| 0 <= j < p.finding_ids@.len() && !fails_in(current.findings@, #[trigger] p.finding_ids@[j]@))
            ==> alert_fires(current, Some(p)),
        p.severity@ == current.overall.severity.label_spec()
            && (forall|id: Seq<char>| fails_in(current.findings@, id) <==> string_views(p.finding_ids@).contains(id))
            ==> !alert_fires(current, Some(p)),
{
    let cur = failing_ids(current);
    let prev = string_views(p.finding_ids@);
    lemma_missing_nonempty(cur, prev);
    lemma_missing_nonempty(prev, cur);
    if exists|id: Seq<char>| fails_in(current.findings@, id) && !prev.contains(id) {
        let id = choose|id: Seq<char>| fails_in(current.findings@, id) && !prev.contains(id);
        lemma_failing_ids_contains(current.findings@, id);
        let i = choose|i: int| 0 <= i < cur.len() && cur[i] == id;
        assert(!prev.contains(cur[i]));
    }
    if exists|j: int| 0 <= j < p.finding_ids@.len() && !fails_in(current.findings@, #[trigger] p.finding_ids@[j]@) {
        let j = choose|j: int| 0 <= j < p.finding_ids@.len() && !fails_in(current.findings@, #[trigger] p.finding_ids@[j]@);
        lemma_failing_ids_contains(current.findings@, p.finding_ids@[j]@);
        assert(prev[j] == p.finding_ids@[j]@);
        assert(!cur.contains(prev[j]));
    }
    if p.severity@ == current.overall.severity.label_spec()
        && (forall|id: Seq<char>| fails_in(current.findings@, id) <==> prev.contains(id)) {
        assert forall|i: int| 0 <= i < cur.len() implies prev.contains(cur[i]) by {
            assert(cur.contains(cur[i]));
            lemma_failing_ids_contains(current.findings@, cur[i]);
        }
        assert forall|i: int| 0 <= i < prev.len() implies cur.contains(prev[i]) by {
            assert(prev.contains(prev[i]));
            lemma_failing_ids_contains(current.findings@, prev[i]);
        }
    }
}

proof fn lemma_missing_contains(a: Seq<Seq<char>>, b: Seq<Seq<char>>, x: Seq<char>)
    ensures
        missing_from(a, b).contains(x) <==> a.contains(x) && !b.contains(x),
    decreases a.len(),
{
    if a.len() > 0 {
        let d = a.drop_last();
        lemma_missing_contains(d, b, x);
        let md = missing_from(d, b);
        if d.contains(x) {
            let k = choose|k: int| 0 <= k < d.len() && d[k] == x;
            assert(a[k] == x);
        }
        if a.contains(x) {
            let k = choose|k: int| 0 <= k < a.len() && a[k] == x;
            if k < d.len() {
                assert(d[k] == x);
            }
        }
        if !b.contains(a.last()) {
            let r = md.push(a.last());
            assert(r[r.len() - 1] == a.last());
            if md.contains(x) {
                let k = choose|k: int| 0 <= k < md.len() && md[k] == x;
                assert(r[k] == x);
            }
            if r.contains(x) {
                let k = choose|k: int| 0 <= k < r.len() && r[k] == x;
                if k < md.len() {
                    assert(md[k] == x);
                }
            }
        }
    }
}

/// An alert against a previous check carries both severity labels, lists
/// as new exactly the checks that fail now but did not before, and as
/// resolved exactly those that failed before but do not now.
pub proof fn law_alert_lists_changes(a: WatchAlert, current: HealthReport, p: PreviousCheck)
    requires
        is_alert(a, current, Some(p)),
    ensures
        a.previous_severity@ == p.severity@,
        a.current_severity@ == current.overall.severity.label_spec(),
        forall|x: Seq<char>| #[trigger] string_views(a.new_findings@).contains(x)
            <==> fails_in(current.findings@, x) && !string_views(p.finding_ids@).contains(x),
        forall|x: Seq<char>| #[trigger] string_views(a.resolved_findings@).contains(x)
            <==> string_views(p.finding_ids@).contains(x) && !fails_in(current.findings@, x),
{
    let cur = failing_ids(current);
    let prev = string_views(p.finding_ids@);
    assert forall|x: Seq<char>| #[trigger] string_views(a.new_findings@).contains(x)
        <==> fails_in(current.findings@, x) && !prev.contains(x) by {
        lemma_missing_contains(cur, prev, x);
        lemma_failing_ids_contains(current.findings@, x);
    }
    assert forall|x: Seq<char>| #[trigger] string_views(a.resolved_findings@).contains(x)
        <==> prev.contains(x) && !fails_in(current.findings@, x) by {
        lemma_missing_contains(prev, cur, x);
        lemma_failing_ids_contains(current.findings@, x);
    }
}

/// The first check of a table alerts exactly when it does not pass.
pub proof fn law_first_check_alerts(current: HealthReport)
    ensures
        alert_fires(current, None) <==> current.overall.severity != Severity::Pass,
{
}

} // verus!
