//! Flags tables still on Iceberg format-version 1.
//!
//! v1 lacks row-level deletes, branching/tagging and equality deletes; most
//! production Iceberg should be on v2, so v1 is a warning.

use vstd::prelude::*;
use crate::checks::{entry, lit, pass_finding};
use crate::config::Thresholds;
use crate::metadata::TableMetadata;
use crate::report::{has_entry, keys_are, Detail, Finding, Severity};
use crate::text::{dec_int, i64_text};

verus! {

pub struct FormatV1Check;

pub open spec fn format_v1_impact() -> Seq<char> {
    "v1 lacks row-level deletes (no merge-on-read), equality deletes, branching/tagging, and several catalog-level features that newer readers (Trino 4xx+, Snowflake, recent Spark) increasingly assume. Migration is non-destructive but requires a metadata rewrite."@
}

pub open spec fn format_v1_suggestion() -> Seq<char> {
    "Upgrade the table to format-version 2 by setting the table property `format-version=2` and rewriting the metadata."@
}

pub open spec fn format_v1_savings() -> Seq<char> {
    "Unlocks merge-on-read, branching/tagging, and equality deletes."@
}

/// `ALTER TABLE <table> SET TBLPROPERTIES ('format-version' = '2')`.
pub open spec fn format_upgrade_text(table: Seq<char>) -> Seq<char> {
    "ALTER TABLE "@ + table + " SET TBLPROPERTIES ('format-version' = '2')"@
}

pub fn format_upgrade_command(table: &String) -> (s: String)
    ensures
        s@ == format_upgrade_text(table@),
{
    let mut s = lit("ALTER TABLE ");
    s.append(table.as_str());
    s.append(" SET TBLPROPERTIES ('format-version' = '2')");
    s
}

/// The finding `f` is what the check reports for `m` under `t`.
pub open spec fn format_v1_finding(f: Finding, m: TableMetadata, t: Thresholds) -> bool {
    &&& f.check_id@ == "format_v1"@
    &&& f.check_name@ == "Format Version"@
    &&& has_entry(f.details, "format_version"@, Detail::Int(m.format_version as i64))
    &&& keys_are(f.details, seq!["format_version"@])
    &&& (m.format_version >= 2 ==> {
        &&& f.severity == Severity::Pass
        &&& f.message@ == "Format version "@ + dec_int(m.format_version as int) + " (current spec)"@
        &&& f.impact@ == Seq::<char>::empty()
        &&& f.fix_suggestion.is_none()
        &&& f.fix_command.is_none()
        &&& f.estimated_savings.is_none()
    })
    &&& (m.format_version < 2 ==> {
        &&& f.severity == Severity::Warning
        &&& f.message@ == "Table is on Iceberg format-version 1"@
        &&& f.impact@ == format_v1_impact()
        &&& f.fix_suggestion matches Some(s) && s@ == format_v1_suggestion()
        &&& f.fix_command matches Some(c) && c@ == format_upgrade_text(m.table_name@)
        &&& f.estimated_savings matches Some(s) && s@ == format_v1_savings()
    })
}

impl FormatV1Check {
    pub fn id(&self) -> (s: &'static str)
        ensures
            s@ == "format_v1"@,
    {
        "format_v1"
    }

    pub fn name(&self) -> (s: &'static str)
        ensures
            s@ == "Format Version"@,
    {
        "Format Version"
    }

    /// Passes on format-version 2 or later; warns on anything older.
    pub fn check(&self, metadata: &TableMetadata, _thresholds: &Thresholds) -> (f: Finding)
        ensures
            format_v1_finding(f, *metadata, *_thresholds),
    {
        let details = Detail::Object(vec![entry("format_version", Detail::Int(metadata.format_version as i64))]);
        proof {
            assert(details->Object_0@[0].0@ == "format_version"@);
            assert(keys_are(details, seq!["format_version"@]));
        }
        if metadata.format_version >= 2 {
            let mut message = lit("Format version ");
            message.append(i64_text(metadata.format_version as i64).as_str());
            message.append(" (current spec)");
            return pass_finding("format_v1", "Format Version", message, details);
        }
        Finding {
            check_id: lit("format_v1"),
            check_name: lit("Format Version"),
            severity: Severity::Warning,
            message: lit("Table is on Iceberg format-version 1"),
            impact: lit("v1 lacks row-level deletes (no merge-on-read), equality deletes, branching/tagging, and several catalog-level features that newer readers (Trino 4xx+, Snowflake, recent Spark) increasingly assume. Migration is non-destructive but requires a metadata rewrite."),
            fix_suggestion: Some(lit("Upgrade the table to format-version 2 by setting the table property `format-version=2` and rewriting the metadata.")),
            fix_command: Some(format_upgrade_command(&metadata.table_name)),
            estimated_savings: Some(lit("Unlocks merge-on-read, branching/tagging, and equality deletes.")),
            details,
        }
    }
}

} // verus!
