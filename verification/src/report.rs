//! Structured health report types.

use vstd::prelude::*;

verus! {

/// How serious a finding is. Ordered `Pass < Warning < Critical`.
#[derive(Clone, Copy, Debug, PartialEq, Eq, Structural, PartialOrd, Ord, Hash)]
pub enum Severity {
    /// Everything looks good.
    Pass,
    /// Something to keep an eye on.
    Warning,
    /// Needs attention.
    Critical,
}

impl Severity {
    /// Position of the severity in the order `Pass < Warning < Critical`.
    pub open spec fn rank(self) -> nat {
        match self {
            Severity::Pass => 0,
            Severity::Warning => 1,
            Severity::Critical => 2,
        }
    }

    /// The upper-case label of the severity.
    pub open spec fn label_spec(self) -> Seq<char> {
        match self {
            Severity::Pass => "PASS"@,
            Severity::Warning => "WARNING"@,
            Severity::Critical => "CRITICAL"@,
        }
    }

    /// The upper-case label of the severity ("PASS", "WARNING", "CRITICAL").
    pub fn label(&self) -> (s: String)
        ensures
            s@ == self.label_spec(),
    {
        match self {
            Severity::Pass => String::from_str("PASS"),
            Severity::Warning => String::from_str("WARNING"),
            Severity::Critical => String::from_str("CRITICAL"),
        }
    }

    /// The severity of higher rank.
    pub fn worse(self, other: Severity) -> (s: Severity)
        ensures
            s.rank() == if self.rank() >= other.rank() { self.rank() } else { other.rank() },
            s == self || s == other,
    {
        if self.rank_exec() >= other.rank_exec() {
            self
        } else {
            other
        }
    }

    pub fn rank_exec(&self) -> (r: u8)
        ensures
            r as nat == self.rank(),
    {
        match self {
            Severity::Pass => 0,
            Severity::Warning => 1,
            Severity::Critical => 2,
        }
    }
}

/// Structured, check-specific details of a finding: a JSON-like value.
/// `Decimal(v, p)` is the number `v / 10^p`.
#[derive(Debug)]
pub enum Detail {
    Null,
    Bool(bool),
    Int(i64),
    UInt(u64),
    Decimal(i128, u32),
    Text(String),
    List(Vec<Detail>),
    Object(Vec<(String, Detail)>),
}

/// `d` is an object whose keys are exactly `ks`, in that order.
pub open spec fn keys_are(d: Detail, ks: Seq<Seq<char>>) -> bool {
    match d {
        Detail::Object(es) => {
            &&& es@.len() == ks.len()
            &&& forall|i: int| 0 <= i < ks.len() ==> (#[trigger] es@[i]).0@ == ks[i]
        },
        _ => false,
    }
}

/// `d` is an object with an entry `key` whose value is `v`.
pub open spec fn has_entry(d: Detail, key: Seq<char>, v: Detail) -> bool {
    match d {
        Detail::Object(es) => exists|i: int| 0 <= i < es@.len() && es@[i].0@ == key && es@[i].1 == v,
        _ => false,
    }
}

/// `d` is an object with an entry `key` whose value is the text `t`.
pub open spec fn has_text(d: Detail, key: Seq<char>, t: Seq<char>) -> bool {
    match d {
        Detail::Object(es) => exists|i: int|
            0 <= i < es@.len() && es@[i].0@ == key && (es@[i].1 matches Detail::Text(s) && s@ == t),
        _ => false,
    }
}

/// `d` is a list of texts, the `k`-th being `ts[k]`.
pub open spec fn is_text_list(d: Detail, ts: Seq<Seq<char>>) -> bool {
    match d {
        Detail::List(items) => {
            &&& items@.len() == ts.len()
            &&& forall|k: int| 0 <= k < ts.len() ==> (#[trigger] items@[k] matches Detail::Text(t) && t@ == ts[k])
        },
        _ => false,
    }
}

/// `d` is an object with an entry `key` whose value is the list of texts `ts`.
pub open spec fn has_text_list(d: Detail, key: Seq<char>, ts: Seq<Seq<char>>) -> bool {
    match d {
        Detail::Object(es) => exists|i: int| 0 <= i < es@.len() && es@[i].0@ == key && is_text_list(es@[i].1, ts),
        _ => false,
    }
}

/// The views of a sequence of strings.
pub open spec fn string_views(s: Seq<String>) -> Seq<Seq<char>> {
    s.map_values(|x: String| x@)
}

/// A list detail holding the given strings as texts, in order.
pub fn text_list(v: Vec<String>) -> (d: Detail)
    ensures
        is_text_list(d, string_views(v@)),
{
    let mut items: Vec<Detail> = Vec::new();
    let mut i: usize = 0;
    while i < v.len()
        invariant
            i <= v@.len(),
            items@.len() == i,
            forall|k: int| 0 <= k < i ==> (#[trigger] items@[k] matches Detail::Text(t) && t@ == v@[k]@),
        decreases v@.len() - i,
    {
        items.push(Detail::Text(v[i].clone()));
        i = i + 1;
    }
    Detail::List(items)
}

/// A complete health report for one table.
pub struct HealthReport {
    pub table_name: String,
    pub location: String,
    pub summary: TableSummary,
    pub findings: Vec<Finding>,
    pub overall: OverallStatus,
    /// When the report was generated (ms since the epoch).
    pub generated_at_ms: i64,
}

/// High-level table stats shown at the top of the report.
#[derive(Clone, Copy, Debug, PartialEq, Eq, Structural)]
pub struct TableSummary {
    pub snapshot_count: u64,
    pub data_file_count: u64,
    pub total_size_bytes: u64,
    pub total_record_count: u64,
}

/// A single health finding (one check's output).
pub struct Finding {
    /// Machine-readable check identifier.
    pub check_id: String,
    /// Human-readable check name.
    pub check_name: String,
    pub severity: Severity,
    /// One-line description of what was found.
    pub message: String,
    /// Why this matters.
    pub impact: String,
    /// Suggested fix (human-readable).
    pub fix_suggestion: Option<String>,
    /// Machine-executable fix command.
    pub fix_command: Option<String>,
    /// Estimated savings if the issue is fixed.
    pub estimated_savings: Option<String>,
    /// Additional structured details (check-specific).
    pub details: Detail,
}

/// Overall status derived from the worst finding.
#[derive(Clone, Copy, Debug, PartialEq, Eq, Structural)]
pub struct OverallStatus {
    pub severity: Severity,
    pub pass_count: usize,
    pub warning_count: usize,
    pub critical_count: usize,
}

/// Number of findings in `fs` with severity `s`.
pub open spec fn count_severity(fs: Seq<Finding>, s: Severity) -> nat
    decreases fs.len(),
{
    if fs.len() == 0 {
        0
    } else {
        count_severity(fs.drop_last(), s) + if fs.last().severity == s { 1nat } else { 0nat }
    }
}

/// The worst severity among `fs` (`Pass` when there are none).
pub open spec fn worst_severity(fs: Seq<Finding>) -> Severity {
    if count_severity(fs, Severity::Critical) > 0 {
        Severity::Critical
    } else if count_severity(fs, Severity::Warning) > 0 {
        Severity::Warning
    } else {
        Severity::Pass
    }
}

/// The test of a finding's severity against `s`.
pub open spec fn has_severity(s: Severity) -> spec_fn(Finding) -> bool {
    |f: Finding| f.severity == s
}

/// The overall severity is the maximum of the findings' severities
/// (`Pass` when there are none), and each count is the number of findings
/// with that severity.
pub proof fn law_overall_is_max(fs: Seq<Finding>)
    ensures
        forall|i: int| 0 <= i < fs.len() ==> (#[trigger] fs[i]).severity.rank() <= worst_severity(fs).rank(),
        fs.len() == 0 ==> worst_severity(fs) == Severity::Pass,
        fs.len() > 0 ==> exists|i: int| 0 <= i < fs.len() && fs[i].severity == worst_severity(fs),
        count_severity(fs, Severity::Pass) == fs.filter(has_severity(Severity::Pass)).len(),
        count_severity(fs, Severity::Warning) == fs.filter(has_severity(Severity::Warning)).len(),
        count_severity(fs, Severity::Critical) == fs.filter(has_severity(Severity::Critical)).len(),
{
    lemma_count_positive(fs, Severity::Critical);
    lemma_count_positive(fs, Severity::Warning);
    lemma_count_positive(fs, Severity::Pass);
    lemma_count_bounds(fs);
    assert forall|i: int| 0 <= i < fs.len() implies (#[trigger] fs[i]).severity.rank() <= worst_severity(fs).rank() by {
        if fs[i].severity == Severity::Critical {
            assert(count_severity(fs, Severity::Critical) > 0);
        } else if fs[i].severity == Severity::Warning {
            assert(count_severity(fs, Severity::Warning) > 0);
        }
    }
    lemma_count_is_filter(fs, Severity::Pass);
    lemma_count_is_filter(fs, Severity::Warning);
    lemma_count_is_filter(fs, Severity::Critical);
}

proof fn lemma_count_is_filter(fs: Seq<Finding>, s: Severity)
    ensures
        count_severity(fs, s) == fs.filter(has_severity(s)).len(),
    decreases fs.len(),
{
    reveal(Seq::filter);
    if fs.len() > 0 {
        lemma_count_is_filter(fs.drop_last(), s);
        let p = has_severity(s);
        assert(p(fs.last()) == (fs.last().severity == s));
    }
}

pub proof fn lemma_count_bounds(fs: Seq<Finding>)
    ensures
        count_severity(fs, Severity::Pass) + count_severity(fs, Severity::Warning)
            + count_severity(fs, Severity::Critical) == fs.len(),
    decreases fs.len(),
{
    if fs.len() > 0 {
        lemma_count_bounds(fs.drop_last());
    }
}

/// A severity occurs among the findings exactly when its count is positive.
pub proof fn lemma_count_positive(fs: Seq<Finding>, s: Severity)
    ensures
        count_severity(fs, s) > 0 <==> exists|i: int| 0 <= i < fs.len() && fs[i].severity == s,
    decreases fs.len(),
{
    if fs.len() > 0 {
        lemma_count_positive(fs.drop_last(), s);
        if count_severity(fs.drop_last(), s) > 0 {
            let i = choose|i: int| 0 <= i < fs.drop_last().len() && fs.drop_last()[i].severity == s;
            assert(fs[i].severity == s);
        }
        if exists|i: int| 0 <= i < fs.len() && fs[i].severity == s {
            let i = choose|i: int| 0 <= i < fs.len() && fs[i].severity == s;
            if i < fs.len() - 1 {
                assert(fs.drop_last()[i].severity == s);
            }
        }
    }
}

impl HealthReport {
    /// Build the overall status from findings: counts per severity, and the
    /// worst severity present (`Pass` when there are no findings).
    pub fn compute_overall(findings: &[Finding]) -> (o: OverallStatus)
        ensures
            o.pass_count == count_severity(findings@, Severity::Pass),
            o.warning_count == count_severity(findings@, Severity::Warning),
            o.critical_count == count_severity(findings@, Severity::Critical),
            o.severity == worst_severity(findings@),
    {
        let mut pass_count: usize = 0;
        let mut warning_count: usize = 0;
        let mut critical_count: usize = 0;
        let mut i: usize = 0;
        while i < findings.len()
            invariant
                i <= findings@.len(),
                pass_count == count_severity(findings@.take(i as int), Severity::Pass),
                warning_count == count_severity(findings@.take(i as int), Severity::Warning),
                critical_count == count_severity(findings@.take(i as int), Severity::Critical),
            decreases findings@.len() - i,
        {
            proof {
                assert(findings@.take(i + 1).drop_last() =~= findings@.take(i as int));
                lemma_count_bounds(findings@.take(i as int));
            }
            match findings[i].severity {
                Severity::Pass => pass_count = pass_count + 1,
                Severity::Warning => warning_count = warning_count + 1,
                Severity::Critical => critical_count = critical_count + 1,
            }
            i = i + 1;
        }
        proof {
            assert(findings@.take(findings@.len() as int) =~= findings@);
        }
        let severity = if critical_count > 0 {
            Severity::Critical
        } else if warning_count > 0 {
            Severity::Warning
        } else {
            Severity::Pass
        };
        OverallStatus { severity, pass_count, warning_count, critical_count }
    }
}

/// The overall severity is at least as bad as every finding's, it is the
/// severity of some finding when there are findings, and the three counts
/// add up to the number of findings.
pub proof fn law_overall_is_worst(findings: Seq<Finding>)
    ensures
        forall|i: int| 0 <= i < findings.len() ==> findings[i].severity.rank() <= worst_severity(findings).rank(),
        findings.len() > 0 ==> exists|i: int| 0 <= i < findings.len() && findings[i].severity == worst_severity(findings),
        count_severity(findings, Severity::Pass) + count_severity(findings, Severity::Warning)
            + count_severity(findings, Severity::Critical) == findings.len(),
{
    lemma_count_bounds(findings);
    lemma_count_positive(findings, Severity::Critical);
    lemma_count_positive(findings, Severity::Warning);
    lemma_count_positive(findings, Severity::Pass);
    assert forall|i: int| 0 <= i < findings.len() implies findings[i].severity.rank() <= worst_severity(findings).rank() by {
        if findings[i].severity == Severity::Critical {
        } else if findings[i].severity == Severity::Warning {
        }
    }
    if findings.len() > 0 {
        if count_severity(findings, Severity::Critical) == 0 && count_severity(findings, Severity::Warning) == 0 {
            assert(count_severity(findings, Severity::Pass) > 0);
        }
    }
}

/// The CI gate: a report is critical exactly when some finding is critical,
/// and it passes exactly when no finding fails.
pub proof fn law_critical_gate(findings: Seq<Finding>)
    ensures
        (worst_severity(findings) == Severity::Critical)
            <==> (exists|i: int| 0 <= i < findings.len() && findings[i].severity == Severity::Critical),
        (worst_severity(findings) == Severity::Pass)
            <==> (forall|i: int| 0 <= i < findings.len() ==> findings[i].severity == Severity::Pass),
{
    lemma_count_positive(findings, Severity::Critical);
    lemma_count_positive(findings, Severity::Warning);
    if worst_severity(findings) == Severity::Pass {
        assert forall|i: int| 0 <= i < findings.len() implies findings[i].severity == Severity::Pass by {
            if findings[i].severity == Severity::Critical {
            } else if findings[i].severity == Severity::Warning {
            }
        }
    }
}

} // verus!
