//! Detects partition-spec churn.
//!
//! Each retired spec leaves data files behind that the planner has to
//! re-resolve at query time. Tables are flagged with too many distinct specs
//! or with files still resident under retired specs. Files whose spec ID is
//! unknown (older writers) are not counted.

use vstd::prelude::*;
use crate::checks::{entry, lit, pass_finding};
use crate::config::Thresholds;
use crate::metadata::{DataFile, TableMetadata};
use crate::report::{has_entry, keys_are, Detail, Finding, Severity};
use crate::text::{dec, dec_int, i64_text, u64_text};

verus! {

pub struct PartitionSpecEvolutionCheck;

/// The file was written under a known spec other than `default_id`.
pub open spec fn under_old_spec(f: DataFile, default_id: i32) -> bool {
    f.spec_id matches Some(s) && s != default_id
}

/// Number of files written under a spec other than the default.
pub open spec fn old_spec_file_count(files: Seq<DataFile>, default_id: i32) -> nat
    decreases files.len(),
{
    if files.len() == 0 {
        0
    } else {
        old_spec_file_count(files.drop_last(), default_id) + if under_old_spec(files.last(), default_id) { 1nat } else { 0nat }
    }
}

/// The distinct retired spec IDs those files carry, in order of first
/// occurrence.
pub open spec fn retired_spec_ids(files: Seq<DataFile>, default_id: i32) -> Seq<i32>
    decreases files.len(),
{
    if files.len() == 0 {
        Seq::empty()
    } else {
        let r = retired_spec_ids(files.drop_last(), default_id);
        let f = files.last();
        if under_old_spec(f, default_id) && !r.contains(f.spec_id->0) { r.push(f.spec_id->0) } else { r }
    }
}

proof fn lemma_old_count_le(files: Seq<DataFile>, default_id: i32)
    ensures
        old_spec_file_count(files, default_id) <= files.len(),
    decreases files.len(),
{
    if files.len() > 0 {
        lemma_old_count_le(files.drop_last(), default_id);
    }
}

pub open spec fn spec_evolution_severity(m: TableMetadata, t: Thresholds) -> Severity {
    let total = m.partition_specs@.len();
    let old = old_spec_file_count(m.data_files@, m.partition_spec.spec_id);
    if total <= t.max_partition_specs && old == 0 {
        Severity::Pass
    } else if total > 2 * t.max_partition_specs || old > m.data_files@.len() / 4 {
        Severity::Critical
    } else {
        Severity::Warning
    }
}

/// The parts of the message, joined by `; `.
pub open spec fn spec_evolution_message(m: TableMetadata, t: Thresholds) -> Seq<char> {
    let total = m.partition_specs@.len();
    let old = old_spec_file_count(m.data_files@, m.partition_spec.spec_id);
    let specs_part = dec(total) + " partition specs (threshold: "@ + dec(t.max_partition_specs as nat) + ")"@;
    let files_part = dec(old) + " files still under "@ + dec(retired_spec_ids(m.data_files@, m.partition_spec.spec_id).len())
        + " retired spec(s)"@;
    if total > t.max_partition_specs && old > 0 {
        specs_part + "; "@ + files_part
    } else if total > t.max_partition_specs {
        specs_part
    } else {
        files_part
    }
}

/// `d` is a list of the integers `ids`, in order.
pub open spec fn is_id_list(d: Detail, ids: Seq<i32>) -> bool {
    match d {
        Detail::List(items) => {
            &&& items@.len() == ids.len()
            &&& forall|k: int| 0 <= k < ids.len() ==> #[trigger] items@[k] == Detail::Int(ids[k] as i64)
        },
        _ => false,
    }
}

pub open spec fn rewrite_all_text(table: Seq<char>) -> Seq<char> {
    "CALL catalog.system.rewrite_data_files(table => '"@ + table
        + "', where => 'true', options => map('rewrite-all', 'true'))"@
}

pub open spec fn spec_evolution_impact() -> Seq<char> {
    "Partition-spec evolution churn forces the query planner to resolve each retired spec separately, slowing planning. Files written under old specs must be rewritten under the current spec to fully retire it."@
}

pub open spec fn spec_evolution_suggestion() -> Seq<char> {
    "Rewrite files under retired partition specs so the table can fully transition to the current spec. Avoid further spec changes unless absolutely necessary — repartitioning has a real planner cost."@
}

fn contains_id(v: &Vec<i32>, x: i32) -> (b: bool)
    ensures
        b == v@.contains(x),
{
    let mut i: usize = 0;
    while i < v.len()
        invariant
            i <= v@.len(),
            forall|j: int| 0 <= j < i ==> v@[j] != x,
        decreases v@.len() - i,
    {
        if v[i] == x {
            return true;
        }
        i = i + 1;
    }
    false
}

/// Files under retired specs, and the distinct retired spec IDs.
pub fn retired_spec_usage(files: &Vec<DataFile>, default_id: i32) -> (r: (u64, Vec<i32>))
    ensures
        r.0 == old_spec_file_count(files@, default_id),
        r.1@ == retired_spec_ids(files@, default_id),
{
    let mut count: u64 = 0;
    let mut ids: Vec<i32> = Vec::new();
    let mut i: usize = 0;
    while i < files.len()
        invariant
            i <= files@.len(),
            count == old_spec_file_count(files@.take(i as int), default_id),
            ids@ == retired_spec_ids(files@.take(i as int), default_id),
        decreases files@.len() - i,
    {
        proof {
            assert(files@.take(i + 1).drop_last() =~= files@.take(i as int));
            lemma_old_count_le(files@.take(i as int), default_id);
        }
        match files[i].spec_id {
            Some(sid) => {
                if sid != default_id {
                    count = count + 1;
                    if !contains_id(&ids, sid) {
                        ids.push(sid);
                    }
                }
            },
            None => {},
        }
        i = i + 1;
    }
    proof {
        assert(files@.take(files@.len() as int) =~= files@);
    }
    (count, ids)
}

fn id_list(ids: &Vec<i32>) -> (d: Detail)
    ensures
        is_id_list(d, ids@),
{
    let mut items: Vec<Detail> = Vec::new();
    let mut i: usize = 0;
    while i < ids.len()
        invariant
            i <= ids@.len(),
            items@.len() == i,
            forall|k: int| 0 <= k < i ==> #[trigger] items@[k] == Detail::Int(ids@[k] as i64),
        decreases ids@.len() - i,
    {
        items.push(Detail::Int(ids[i] as i64));
        i = i + 1;
    }
    Detail::List(items)
}

/// The finding `f` is what the check reports for `m` under `t`.
pub open spec fn partition_spec_evolution_finding(f: Finding, m: TableMetadata, t: Thresholds) -> bool {
    &&& f.check_id@ == "partition_spec_evolution"@
    &&& f.check_name@ == "Partition Spec Evolution"@
    &&& f.severity == spec_evolution_severity(m, t)
    &&& f.estimated_savings.is_none()
    &&& has_entry(f.details, "total_specs"@, Detail::UInt(m.partition_specs@.len() as u64))
    &&& has_entry(f.details, "default_spec_id"@, Detail::Int(m.partition_spec.spec_id as i64))
    &&& (has_entry(f.details, "files_under_old_specs"@,
        Detail::UInt(old_spec_file_count(m.data_files@, m.partition_spec.spec_id) as u64)))
    &&& (f.severity == Severity::Pass ==> {
        &&& f.message@ == dec(m.partition_specs@.len()) + " partition spec(s) declared, all data under default spec "@
            + dec_int(m.partition_spec.spec_id as int)
        &&& f.impact@ == Seq::<char>::empty()
        &&& f.fix_suggestion.is_none()
        &&& f.fix_command.is_none()
        &&& keys_are(f.details, seq!["total_specs"@, "default_spec_id"@, "files_under_old_specs"@])
    })
    &&& (f.severity != Severity::Pass ==> {
        &&& f.message@ == spec_evolution_message(m, t)
        &&& keys_are(f.details, seq!["total_specs"@, "default_spec_id"@, "files_under_old_specs"@,
            "retired_spec_ids"@, "threshold_max_specs"@])
        &&& f.impact@ == spec_evolution_impact()
        &&& f.fix_suggestion matches Some(s) && s@ == spec_evolution_suggestion()
        &&& f.fix_command matches Some(c) && c@ == rewrite_all_text(m.table_name@)
        &&& has_entry(f.details, "threshold_max_specs"@, Detail::UInt(t.max_partition_specs as u64))
        &&& f.details matches Detail::Object(es) && es@.len() == 5 && es@[3].0@ == "retired_spec_ids"@
            && is_id_list(es@[3].1, retired_spec_ids(m.data_files@, m.partition_spec.spec_id))
    })
}

impl PartitionSpecEvolutionCheck {
    pub fn id(&self) -> (s: &'static str)
        ensures
            s@ == "partition_spec_evolution"@,
    {
        "partition_spec_evolution"
    }

    pub fn name(&self) -> (s: &'static str)
        ensures
            s@ == "Partition Spec Evolution"@,
    {
        "Partition Spec Evolution"
    }

    /// Passes while the number of specs is within the threshold and no file
    /// lies under a retired spec. Critical beyond twice the threshold or
    /// when more than a quarter of the files lie under retired specs.
    pub fn check(&self, metadata: &TableMetadata, thresholds: &Thresholds) -> (f: Finding)
        ensures
            partition_spec_evolution_finding(f, *metadata, *thresholds),
    {
        let total = metadata.partition_specs.len();
        let default_id = metadata.partition_spec.spec_id;
        let (old, ids) = retired_spec_usage(&metadata.data_files, default_id);
        proof {
            lemma_old_count_le(metadata.data_files@, default_id);
        }
        let too_many = total > thresholds.max_partition_specs;
        let has_old = old > 0;
        if !too_many && !has_old {
            let mut message = u64_text(total as u64);
            message.append(" partition spec(s) declared, all data under default spec ");
            message.append(i64_text(default_id as i64).as_str());
            let details = Detail::Object(vec![
                entry("total_specs", Detail::UInt(total as u64)),
                entry("default_spec_id", Detail::Int(default_id as i64)),
                entry("files_under_old_specs", Detail::UInt(old)),
            ]);
            proof {
                assert(details->Object_0@[0].0@ == "total_specs"@);
                assert(details->Object_0@[1].0@ == "default_spec_id"@);
                assert(details->Object_0@[2].0@ == "files_under_old_specs"@);
                assert(keys_are(details, seq!["total_specs"@, "default_spec_id"@, "files_under_old_specs"@]));
            }
            return pass_finding("partition_spec_evolution", "Partition Spec Evolution", message, details);
        }
        let severity = if (total as u128) > 2 * (thresholds.max_partition_specs as u128)
            || old > (metadata.data_files.len() as u64) / 4 {
            Severity::Critical
        } else {
            Severity::Warning
        };
        let mut specs_part = u64_text(total as u64);
        specs_part.append(" partition specs (threshold: ");
        specs_part.append(u64_text(thresholds.max_partition_specs as u64).as_str());
        specs_part.append(")");
        let mut files_part = u64_text(old);
        files_part.append(" files still under ");
        files_part.append(u64_text(ids.len() as u64).as_str());
        files_part.append(" retired spec(s)");
        let message = if too_many && has_old {
            let mut m = specs_part;
            m.append("; ");
            m.append(files_part.as_str());
            m
        } else if too_many {
            specs_part
        } else {
            files_part
        };
        let mut command = lit("CALL catalog.system.rewrite_data_files(table => '");
        command.append(metadata.table_name.as_str());
        command.append("', where => 'true', options => map('rewrite-all', 'true'))");
        let details = Detail::Object(vec![
            entry("total_specs", Detail::UInt(total as u64)),
            entry("default_spec_id", Detail::Int(default_id as i64)),
            entry("files_under_old_specs", Detail::UInt(old)),
            entry("retired_spec_ids", id_list(&ids)),
            entry("threshold_max_specs", Detail::UInt(thresholds.max_partition_specs as u64)),
        ]);
        proof {
            assert(details->Object_0@[0].0@ == "total_specs"@);
            assert(details->Object_0@[1].0@ == "default_spec_id"@);
            assert(details->Object_0@[2].0@ == "files_under_old_specs"@);
            assert(details->Object_0@[3].0@ == "retired_spec_ids"@);
            assert(details->Object_0@[4].0@ == "threshold_max_specs"@);
            assert(keys_are(details, seq!["total_specs"@, "default_spec_id"@, "files_under_old_specs"@, "retired_spec_ids"@, "threshold_max_specs"@]));
            assert(message@ =~= spec_evolution_message(*metadata, *thresholds));
            assert(command@ =~= rewrite_all_text(metadata.table_name@));
        }
        Finding {
            check_id: lit("partition_spec_evolution"),
            check_name: lit("Partition Spec Evolution"),
            severity,
            message,
            impact: lit("Partition-spec evolution churn forces the query planner to resolve each retired spec separately, slowing planning. Files written under old specs must be rewritten under the current spec to fully retire it."),
            fix_suggestion: Some(lit("Rewrite files under retired partition specs so the table can fully transition to the current spec. Avoid further spec changes unless absolutely necessary — repartitioning has a real planner cost.")),
            fix_command: Some(command),
            estimated_savings: None,
            details,
        }
    }
}

} // verus!
