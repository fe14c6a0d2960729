//! Text renderings of reports for terminals and CI logs.

use vstd::prelude::*;
use crate::checks::ratio_text;
use crate::report::{Finding, HealthReport, OverallStatus, Severity};
use crate::text::{dec, fraction_text, u64_text};

verus! {

/// A byte count in the largest binary unit it reaches (KB, MB, GB, TB) with
/// one decimal, or in bytes.
pub open spec fn format_bytes_spec(b: u64) -> Seq<char> {
    if b >= 1099511627776 {
        fraction_text(b as nat, 1099511627776, 1) + " TB"@
    } else if b >= 1073741824 {
        fraction_text(b as nat, 1073741824, 1) + " GB"@
    } else if b >= 1048576 {
        fraction_text(b as nat, 1048576, 1) + " MB"@
    } else if b >= 1024 {
        fraction_text(b as nat, 1024, 1) + " KB"@
    } else {
        dec(b as nat) + " B"@
    }
}

pub fn format_bytes(bytes: u64) -> (s: String)
    ensures
        s@ == format_bytes_spec(bytes),
{
    let (den, unit): (u128, &str) = if bytes >= 1099511627776 {
        (1099511627776, " TB")
    } else if bytes >= 1073741824 {
        (1073741824, " GB")
    } else if bytes >= 1048576 {
        (1048576, " MB")
    } else if bytes >= 1024 {
        (1024, " KB")
    } else {
        let mut s = u64_text(bytes);
        s.append(" B");
        return s;
    };
    let mut s = ratio_text(bytes as u128, den, 1);
    s.append(unit);
    s
}

/// A count in thousands (K), millions (M) or billions (B) with one decimal,
/// or in full below a thousand.
pub open spec fn format_number_spec(n: u64) -> Seq<char> {
    if n >= 1_000_000_000 {
        fraction_text(n as nat, 1_000_000_000, 1) + "B"@
    } else if n >= 1_000_000 {
        fraction_text(n as nat, 1_000_000, 1) + "M"@
    } else if n >= 1_000 {
        fraction_text(n as nat, 1_000, 1) + "K"@
    } else {
        dec(n as nat)
    }
}

pub fn format_number(n: u64) -> (s: String)
    ensures
        s@ == format_number_spec(n),
{
    let (den, unit): (u128, &str) = if n >= 1_000_000_000 {
        (1_000_000_000, "B")
    } else if n >= 1_000_000 {
        (1_000_000, "M")
    } else if n >= 1_000 {
        (1_000, "K")
    } else {
        return u64_text(n);
    };
    let mut s = ratio_text(n as u128, den, 1);
    s.append(unit);
    s
}

/// The workflow-command line of a failing finding.
pub open spec fn annotation(f: Finding) -> Seq<char> {
    (if f.severity == Severity::Warning { "::warning title=frost: "@ } else { "::error title=frost: "@ })
        + f.check_name@ + "::"@ + f.message@
}

/// Annotations of the failing findings, in order.
pub open spec fn annotations(fs: Seq<Finding>) -> Seq<Seq<char>>
    decreases fs.len(),
{
    if fs.len() == 0 {
        Seq::empty()
    } else if fs.last().severity == Severity::Pass {
        annotations(fs.drop_last())
    } else {
        annotations(fs.drop_last()).push(annotation(fs.last()))
    }
}

/// GitHub Actions annotations: a `::warning` or `::error` line per failing
/// finding; passing findings print nothing.
pub fn github_actions_lines(report: &HealthReport) -> (lines: Vec<String>)
    ensures
        crate::report::string_views(lines@) == annotations(report.findings@),
{
    let mut lines: Vec<String> = Vec::new();
    let mut i: usize = 0;
    while i < report.findings.len()
        invariant
            i <= report.findings@.len(),
            crate::report::string_views(lines@) == annotations(report.findings@.take(i as int)),
        decreases report.findings@.len() - i,
    {
        proof {
            assert(report.findings@.take(i + 1).drop_last() =~= report.findings@.take(i as int));
        }
        let f = &report.findings[i];
        let prefix = match f.severity {
            Severity::Pass => None,
            Severity::Warning => Some("::warning title=frost: "),
            Severity::Critical => Some("::error title=frost: "),
        };
        match prefix {
            Some(p) => {
                let mut line = String::from_str(p);
                line.append(f.check_name.as_str());
                line.append("::");
                line.append(f.message.as_str());
                let ghost before = crate::report::string_views(lines@);
                lines.push(line);
                proof {
                    assert(crate::report::string_views(lines@) =~= before.push(line@));
                }
            },
            None => {},
        }
        i = i + 1;
    }
    proof {
        assert(report.findings@.take(report.findings@.len() as int) =~= report.findings@);
    }
    lines
}

/// The overall line of a report: "All checks passed", or the warning and
/// critical counts.
pub fn overall_text(o: &OverallStatus) -> (s: String)
    ensures
        o.severity == Severity::Pass ==> s@ == "All checks passed"@,
        o.severity != Severity::Pass ==> s@ == dec(o.warning_count as nat) + " warning(s), "@
            + dec(o.critical_count as nat) + " critical"@,
{
    match o.severity {
        Severity::Pass => String::from_str("All checks passed"),
        _ => {
            let mut s = u64_text(o.warning_count as u64);
            s.append(" warning(s), ");
            s.append(u64_text(o.critical_count as u64).as_str());
            s.append(" critical");
            s
        },
    }
}

} // verus!
