//! Flags oversized table metadata.

use vstd::prelude::*;
use crate::checks::{call_command, call_text, entry, lit, pass_finding, ratio_text};
use crate::config::Thresholds;
use crate::metadata::TableMetadata;
use crate::report::{has_entry, has_text, keys_are, Detail, Finding, Severity};
use crate::text::fraction_text;

verus! {

pub struct MetadataSizeCheck;

pub open spec fn metadata_size_severity(size: u64, max: u64) -> Severity {
    if size <= max {
        Severity::Pass
    } else if size > 3 * max {
        Severity::Critical
    } else {
        Severity::Warning
    }
}

pub open spec fn metadata_size_impact() -> Seq<char> {
    "Large metadata slows table loading in every engine. Spark, Trino, and other readers must download and parse all metadata before planning queries."@
}

pub open spec fn metadata_size_suggestion() -> Seq<char> {
    "Expire old snapshots and rewrite manifests to reduce metadata volume"@
}

/// The finding `f` is what the check reports for `m` under `t`.
pub open spec fn metadata_size_finding(f: Finding, m: TableMetadata, t: Thresholds) -> bool {
    &&& f.check_id@ == "metadata_size"@
    &&& f.check_name@ == "Metadata Size"@
    &&& f.severity == metadata_size_severity(m.metadata_size_bytes, t.max_metadata_bytes)
    &&& has_entry(f.details, "metadata_size_bytes"@, Detail::UInt(m.metadata_size_bytes))
    &&& has_entry(f.details, "threshold_bytes"@, Detail::UInt(t.max_metadata_bytes))
    &&& (f.severity == Severity::Pass ==> keys_are(f.details, seq!["metadata_size_bytes"@, "threshold_bytes"@]))
    &&& (f.severity != Severity::Pass ==> keys_are(f.details, seq!["metadata_size_bytes"@, "metadata_size_mb"@,
        "threshold_bytes"@]))
    &&& (f.severity == Severity::Pass ==> {
        &&& f.message@ == "Metadata size "@ + fraction_text(m.metadata_size_bytes as nat, 1048576, 1)
            + " MB (threshold: "@ + fraction_text(t.max_metadata_bytes as nat, 1048576, 0) + " MB)"@
        &&& f.impact@ == Seq::<char>::empty()
        &&& f.fix_suggestion.is_none()
        &&& f.fix_command.is_none()
        &&& f.estimated_savings.is_none()
    })
    &&& (f.severity != Severity::Pass ==> {
        &&& f.message@ == "Metadata size is "@ + fraction_text(m.metadata_size_bytes as nat, 1048576, 1)
            + " MB — oversized"@
        &&& f.impact@ == metadata_size_impact()
        &&& f.fix_suggestion matches Some(s) && s@ == metadata_size_suggestion()
        &&& f.fix_command matches Some(c) && c@ == call_text("rewrite_manifests"@, m.table_name@, ")"@)
        &&& f.estimated_savings matches Some(s) && s@ == "~"@
            + fraction_text(m.metadata_size_bytes as nat, 2097152, 0) + " MB metadata reduction possible"@
        &&& has_text(f.details, "metadata_size_mb"@, fraction_text(m.metadata_size_bytes as nat, 1048576, 1))
    })
}

impl MetadataSizeCheck {
    pub fn id(&self) -> (s: &'static str)
        ensures
            s@ == "metadata_size"@,
    {
        "metadata_size"
    }

    pub fn name(&self) -> (s: &'static str)
        ensures
            s@ == "Metadata Size"@,
    {
        "Metadata Size"
    }

    /// Passes while total metadata size stays within the threshold; warns
    /// above it and is critical above three times it.
    pub fn check(&self, metadata: &TableMetadata, thresholds: &Thresholds) -> (f: Finding)
        ensures
            metadata_size_finding(f, *metadata, *thresholds),
    {
        let size = metadata.metadata_size_bytes;
        let max = thresholds.max_metadata_bytes;
        let size_mb = ratio_text(size as u128, 1048576, 1);
        if size <= max {
            let mut message = lit("Metadata size ");
            message.append(size_mb.as_str());
            message.append(" MB (threshold: ");
            message.append(ratio_text(max as u128, 1048576, 0).as_str());
            message.append(" MB)");
            let details = Detail::Object(vec![
                entry("metadata_size_bytes", Detail::UInt(size)),
                entry("threshold_bytes", Detail::UInt(max)),
            ]);
            proof {
                assert(details->Object_0@[0].0@ == "metadata_size_bytes"@);
                assert(details->Object_0@[1].0@ == "threshold_bytes"@);
                assert(keys_are(details, seq!["metadata_size_bytes"@, "threshold_bytes"@]));
            }
            return pass_finding("metadata_size", "Metadata Size", message, details);
        }
        let severity = if (size as u128) > 3 * (max as u128) { Severity::Critical } else { Severity::Warning };
        let mut message = lit("Metadata size is ");
        message.append(size_mb.as_str());
        message.append(" MB — oversized");
        let mut savings = lit("~");
        savings.append(ratio_text(size as u128, 2097152, 0).as_str());
        savings.append(" MB metadata reduction possible");
        let details = Detail::Object(vec![
            entry("metadata_size_bytes", Detail::UInt(size)),
            entry("metadata_size_mb", Detail::Text(size_mb)),
            entry("threshold_bytes", Detail::UInt(max)),
        ]);
        proof {
            assert(details->Object_0@[0].0@ == "metadata_size_bytes"@);
            assert(details->Object_0@[1].0@ == "metadata_size_mb"@);
            assert(details->Object_0@[2].0@ == "threshold_bytes"@);
            assert(keys_are(details, seq!["metadata_size_bytes"@, "metadata_size_mb"@, "threshold_bytes"@]));
        }
        Finding {
            check_id: lit("metadata_size"),
            check_name: lit("Metadata Size"),
            severity,
            message,
            impact: lit("Large metadata slows table loading in every engine. Spark, Trino, and other readers must download and parse all metadata before planning queries."),
            fix_suggestion: Some(lit("Expire old snapshots and rewrite manifests to reduce metadata volume")),
            fix_command: Some(call_command("rewrite_manifests", &metadata.table_name, ")")),
            estimated_savings: Some(savings),
            details,
        }
    }
}

} // verus!
