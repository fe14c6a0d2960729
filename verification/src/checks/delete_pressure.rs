//! Delete-file pressure, weighted by delete type and rows affected — not
//! just file count.
//!
//! Equality deletes force a full predicate scan against every overlapping
//! data file at read time; position deletes only need a sorted lookup. The
//! equality weight reflects that asymmetry. The fraction of table rows
//! shadowed by deletes is reported too, because a single equality delete
//! that shadows 10% of the table is much worse than 100 deletes that shadow
//! 0.001%.

use vstd::prelude::*;
use crate::checks::{call_command, call_text, entry, lit, pass_finding, ratio_text, ratio_text_spec};
use crate::config::Thresholds;
use crate::metadata::{data_records, delete_bytes, delete_records, DeleteFile, DeleteType, TableMetadata};
use crate::report::{has_entry, has_text, keys_are, Detail, Finding, Severity};
use crate::text::{dec, fraction_text, u64_text};

verus! {

pub struct DeletePressureCheck;

/// Number of delete files of type `t`.
pub open spec fn count_of_type(files: Seq<DeleteFile>, t: DeleteType) -> nat
    decreases files.len(),
{
    if files.len() == 0 {
        0
    } else {
        count_of_type(files.drop_last(), t) + if files.last().delete_type == t { 1nat } else { 0nat }
    }
}

/// Rows deleted by the delete files of type `t`.
pub open spec fn rows_of_type(files: Seq<DeleteFile>, t: DeleteType) -> nat
    decreases files.len(),
{
    if files.len() == 0 {
        0
    } else {
        rows_of_type(files.drop_last(), t) + if files.last().delete_type == t {
            files.last().record_count as nat
        } else {
            0nat
        }
    }
}

proof fn lemma_type_split(files: Seq<DeleteFile>)
    ensures
        count_of_type(files, DeleteType::PositionDelete) + count_of_type(files, DeleteType::EqualityDelete) == files.len(),
        rows_of_type(files, DeleteType::PositionDelete) + rows_of_type(files, DeleteType::EqualityDelete)
            == delete_records(files),
    decreases files.len(),
{
    if files.len() > 0 {
        lemma_type_split(files.drop_last());
    }
}

/// Position files weigh 1; equality files, about five times as costly at
/// read time, weigh 5.
pub open spec fn effective_pressure(files: Seq<DeleteFile>) -> nat {
    count_of_type(files, DeleteType::PositionDelete) + 5 * count_of_type(files, DeleteType::EqualityDelete)
}

/// More than `pct` percent of the table's rows are shadowed by deletes.
pub open spec fn shadow_above(m: TableMetadata, pct: nat) -> bool {
    data_records(m.data_files@) > 0 && delete_records(m.delete_files@) * 100 > pct * data_records(m.data_files@)
}

pub open spec fn delete_pressure_severity(m: TableMetadata, t: Thresholds) -> Severity {
    let p = effective_pressure(m.delete_files@);
    if m.delete_files@.len() == 0 {
        Severity::Pass
    } else if p > 5 * t.max_delete_files || shadow_above(m, 25) {
        Severity::Critical
    } else if p > t.max_delete_files || shadow_above(m, 5) {
        Severity::Warning
    } else {
        Severity::Pass
    }
}

/// The share of rows shadowed, in percent, with `places` decimals.
pub open spec fn shadow_pct_text(m: TableMetadata, places: nat) -> Seq<char> {
    ratio_text_spec(delete_records(m.delete_files@) * 100, data_records(m.data_files@), places)
}

/// `<n> delete files (<p> position, <e> equality)`.
pub open spec fn delete_counts_text(files: Seq<DeleteFile>) -> Seq<char> {
    dec(files.len()) + " delete files ("@ + dec(count_of_type(files, DeleteType::PositionDelete)) + " position, "@
        + dec(count_of_type(files, DeleteType::EqualityDelete)) + " equality)"@
}

pub open spec fn delete_pressure_message(m: TableMetadata, t: Thresholds) -> Seq<char> {
    if delete_pressure_severity(m, t) == Severity::Pass {
        delete_counts_text(m.delete_files@) + ", shadowing "@ + shadow_pct_text(m, 2) + "% of rows"@
    } else {
        delete_counts_text(m.delete_files@) + " shadowing "@ + shadow_pct_text(m, 2)
            + "% of rows; effective pressure "@ + dec(effective_pressure(m.delete_files@)) + " (threshold "@
            + dec(t.max_delete_files as nat) + ")"@
    }
}

pub open spec fn delete_pressure_impact(m: TableMetadata) -> Seq<char> {
    "Delete files force merge-on-read at scan time. Equality deletes are ~5x more expensive than position deletes since they require a full predicate scan against every overlapping data file. "@
        + shadow_pct_text(m, 2) + "% of table rows are currently shadowed by pending deletes."@
}

pub open spec fn delete_pressure_suggestion() -> Seq<char> {
    "Compact data files to apply pending deletes and eliminate merge-on-read overhead."@
}

pub open spec fn delete_pressure_savings(files: Seq<DeleteFile>) -> Seq<char> {
    "Eliminate merge-on-read overhead for "@ + dec(files.len()) + " delete files ("@
        + fraction_text(delete_bytes(files), 1048576, 1) + " MB)"@
}

/// The finding `f` is what the check reports for `m` under `t`.
pub open spec fn delete_pressure_finding(f: Finding, m: TableMetadata, t: Thresholds) -> bool {
    &&& f.check_id@ == "delete_pressure"@
    &&& f.check_name@ == "Delete File Pressure"@
    &&& f.severity == delete_pressure_severity(m, t)
    &&& has_entry(f.details, "delete_file_count"@, Detail::UInt(m.delete_files@.len() as u64))
    &&& (m.delete_files@.len() == 0 ==> {
        &&& f.message@ == "No outstanding position or equality deletes"@
        &&& keys_are(f.details, seq!["delete_file_count"@])
    })
    &&& (m.delete_files@.len() > 0 && f.severity == Severity::Pass ==> keys_are(f.details, seq![
        "delete_file_count"@, "position_deletes"@, "equality_deletes"@, "delete_rows_total"@, "table_rows"@,
        "row_shadow_pct"@, "effective_pressure"@, "equality_weight"@]))
    &&& (f.severity != Severity::Pass ==> keys_are(f.details, seq![
        "delete_file_count"@, "position_deletes"@, "equality_deletes"@, "position_delete_rows"@,
        "equality_delete_rows"@, "delete_rows_total"@, "table_rows"@, "row_shadow_pct"@, "total_delete_bytes"@,
        "effective_pressure"@, "equality_weight"@, "threshold"@]))
    &&& (m.delete_files@.len() > 0 ==> {
        let files = m.delete_files@;
        &&& f.message@ == delete_pressure_message(m, t)
        &&& has_entry(f.details, "position_deletes"@,
            Detail::UInt(count_of_type(files, DeleteType::PositionDelete) as u64))
        &&& has_entry(f.details, "equality_deletes"@,
            Detail::UInt(count_of_type(files, DeleteType::EqualityDelete) as u64))
        &&& has_entry(f.details, "delete_rows_total"@, Detail::UInt(delete_records(files) as u64))
        &&& has_entry(f.details, "table_rows"@, Detail::UInt(data_records(m.data_files@) as u64))
        &&& has_text(f.details, "row_shadow_pct"@, shadow_pct_text(m, 4))
        &&& has_text(f.details, "effective_pressure"@, dec(effective_pressure(files)) + ".0"@)
        &&& has_entry(f.details, "equality_weight"@, Detail::Decimal(50, 1))
    })
    &&& (f.severity == Severity::Pass ==> {
        &&& f.impact@ == Seq::<char>::empty()
        &&& f.fix_suggestion.is_none()
        &&& f.fix_command.is_none()
        &&& f.estimated_savings.is_none()
    })
    &&& (f.severity != Severity::Pass ==> {
        let files = m.delete_files@;
        &&& f.impact@ == delete_pressure_impact(m)
        &&& f.fix_suggestion matches Some(s) && s@ == delete_pressure_suggestion()
        &&& f.fix_command matches Some(c)
            && c@ == call_text("rewrite_data_files"@, m.table_name@, ", strategy => 'binpack')"@)
        &&& f.estimated_savings matches Some(s) && s@ == delete_pressure_savings(files)
        &&& has_entry(f.details, "position_delete_rows"@,
            Detail::UInt(rows_of_type(files, DeleteType::PositionDelete) as u64))
        &&& has_entry(f.details, "equality_delete_rows"@,
            Detail::UInt(rows_of_type(files, DeleteType::EqualityDelete) as u64))
        &&& has_entry(f.details, "total_delete_bytes"@, Detail::UInt(delete_bytes(files) as u64))
        &&& has_entry(f.details, "threshold"@, Detail::UInt(t.max_delete_files))
    })
}

impl DeletePressureCheck {
    pub fn id(&self) -> (s: &'static str)
        ensures
            s@ == "delete_pressure"@,
    {
        "delete_pressure"
    }

    pub fn name(&self) -> (s: &'static str)
        ensures
            s@ == "Delete File Pressure"@,
    {
        "Delete File Pressure"
    }

    /// Weighs outstanding delete files (equality deletes five times a
    /// position delete) against the threshold, and measures the share of
    /// table rows they shadow. Critical above five times the threshold or
    /// 25% of rows; warning above the threshold or 5% of rows.
    pub fn check(&self, metadata: &TableMetadata, thresholds: &Thresholds) -> (f: Finding)
        requires
            metadata.totals_fit(),
        ensures
            delete_pressure_finding(f, *metadata, *thresholds),
    {
        let files = &metadata.delete_files;
        let n = files.len();
        if n == 0 {
            let details = Detail::Object(vec![entry("delete_file_count", Detail::UInt(0))]);
            proof {
                assert(details->Object_0@[0].0@ == "delete_file_count"@);
                assert(keys_are(details, seq!["delete_file_count"@]));
            }
            return pass_finding("delete_pressure", "Delete File Pressure",
                lit("No outstanding position or equality deletes"), details);
        }
        let ghost fs = files@;
        let mut position_count: u64 = 0;
        let mut equality_count: u64 = 0;
        let mut position_rows: u64 = 0;
        let mut equality_rows: u64 = 0;
        let mut total_bytes: u64 = 0;
        let mut i: usize = 0;
        while i < n
            invariant
                n == fs.len(),
                fs == files@,
                i <= n,
                delete_bytes(fs) <= u64::MAX,
                delete_records(fs) <= u64::MAX,
                position_count == count_of_type(fs.take(i as int), DeleteType::PositionDelete),
                equality_count == count_of_type(fs.take(i as int), DeleteType::EqualityDelete),
                position_rows == rows_of_type(fs.take(i as int), DeleteType::PositionDelete),
                equality_rows == rows_of_type(fs.take(i as int), DeleteType::EqualityDelete),
                total_bytes == delete_bytes(fs.take(i as int)),
            decreases n - i,
        {
            proof {
                assert(fs.take(i + 1).drop_last() =~= fs.take(i as int));
                lemma_type_split(fs.take(i + 1));
                lemma_type_split(fs.take(i as int));
                crate::metadata::lemma_delete_records_monotone(fs, i + 1, n as int);
                crate::metadata::lemma_delete_bytes_monotone(fs, i + 1, n as int);
                assert(fs.take(n as int) =~= fs);
            }
            let f = &files[i];
            total_bytes = total_bytes + f.file_size_bytes;
            match f.delete_type {
                DeleteType::PositionDelete => {
                    position_count = position_count + 1;
                    position_rows = position_rows + f.record_count;
                },
                DeleteType::EqualityDelete => {
                    equality_count = equality_count + 1;
                    equality_rows = equality_rows + f.record_count;
                },
            }
            i = i + 1;
        }
        proof {
            assert(fs.take(n as int) =~= fs);
            lemma_type_split(fs);
        }
        let total_rows = position_rows + equality_rows;
        let table_rows = crate::metadata::total_data_records(&metadata.data_files);
        let pressure: u128 = (position_count as u128) + (equality_count as u128) * 5;
        let max = thresholds.max_delete_files;
        let shadow25 = table_rows > 0 && (total_rows as u128) * 100 > 25 * (table_rows as u128);
        let shadow5 = table_rows > 0 && (total_rows as u128) * 100 > 5 * (table_rows as u128);
        let pct2 = ratio_text((total_rows as u128) * 100, table_rows as u128, 2);
        let pct4 = ratio_text((total_rows as u128) * 100, table_rows as u128, 4);

        let mut counts = u64_text(n as u64);
        counts.append(" delete files (");
        counts.append(u64_text(position_count).as_str());
        counts.append(" position, ");
        counts.append(u64_text(equality_count).as_str());
        counts.append(" equality)");

        let mut pressure_text = crate::text::u128_text(pressure);
        pressure_text.append(".0");

        let severity = if pressure > 5 * (max as u128) || shadow25 {
            Severity::Critical
        } else if pressure > max as u128 || shadow5 {
            Severity::Warning
        } else {
            let mut message = counts;
            message.append(", shadowing ");
            message.append(pct2.as_str());
            message.append("% of rows");
            let details = Detail::Object(vec![
                entry("delete_file_count", Detail::UInt(n as u64)),
                entry("position_deletes", Detail::UInt(position_count)),
                entry("equality_deletes", Detail::UInt(equality_count)),
                entry("delete_rows_total", Detail::UInt(total_rows)),
                entry("table_rows", Detail::UInt(table_rows)),
                entry("row_shadow_pct", Detail::Text(pct4)),
                entry("effective_pressure", Detail::Text(pressure_text)),
                entry("equality_weight", Detail::Decimal(50, 1)),
            ]);
            proof {
                assert(details->Object_0@[0].0@ == "delete_file_count"@);
                assert(details->Object_0@[1].0@ == "position_deletes"@);
                assert(details->Object_0@[2].0@ == "equality_deletes"@);
                assert(details->Object_0@[3].0@ == "delete_rows_total"@);
                assert(details->Object_0@[4].0@ == "table_rows"@);
                assert(details->Object_0@[5].0@ == "row_shadow_pct"@);
                assert(details->Object_0@[6].0@ == "effective_pressure"@);
                assert(details->Object_0@[7].0@ == "equality_weight"@);
                assert(keys_are(details, seq!["delete_file_count"@, "position_deletes"@, "equality_deletes"@, "delete_rows_total"@, "table_rows"@, "row_shadow_pct"@, "effective_pressure"@, "equality_weight"@]));
                assert(message@ =~= delete_pressure_message(*metadata, *thresholds));
            }
            return pass_finding("delete_pressure", "Delete File Pressure", message, details);
        };

        let mut message = counts;
        message.append(" shadowing ");
        message.append(pct2.as_str());
        message.append("% of rows; effective pressure ");
        message.append(crate::text::u128_text(pressure).as_str());
        message.append(" (threshold ");
        message.append(u64_text(max).as_str());
        message.append(")");

        let mut impact = lit("Delete files force merge-on-read at scan time. Equality deletes are ~5x more expensive than position deletes since they require a full predicate scan against every overlapping data file. ");
        impact.append(pct2.as_str());
        impact.append("% of table rows are currently shadowed by pending deletes.");

        let mut savings = lit("Eliminate merge-on-read overhead for ");
        savings.append(u64_text(n as u64).as_str());
        savings.append(" delete files (");
        savings.append(ratio_text(total_bytes as u128, 1048576, 1).as_str());
        savings.append(" MB)");

        let details = Detail::Object(vec![
            entry("delete_file_count", Detail::UInt(n as u64)),
            entry("position_deletes", Detail::UInt(position_count)),
            entry("equality_deletes", Detail::UInt(equality_count)),
            entry("position_delete_rows", Detail::UInt(position_rows)),
            entry("equality_delete_rows", Detail::UInt(equality_rows)),
            entry("delete_rows_total", Detail::UInt(total_rows)),
            entry("table_rows", Detail::UInt(table_rows)),
            entry("row_shadow_pct", Detail::Text(pct4)),
            entry("total_delete_bytes", Detail::UInt(total_bytes)),
            entry("effective_pressure", Detail::Text(pressure_text)),
            entry("equality_weight", Detail::Decimal(50, 1)),
            entry("threshold", Detail::UInt(max)),
        ]);
        proof {
            assert(details->Object_0@[0].0@ == "delete_file_count"@);
            assert(details->Object_0@[1].0@ == "position_deletes"@);
            assert(details->Object_0@[2].0@ == "equality_deletes"@);
            assert(details->Object_0@[3].0@ == "position_delete_rows"@);
            assert(details->Object_0@[4].0@ == "equality_delete_rows"@);
            assert(details->Object_0@[5].0@ == "delete_rows_total"@);
            assert(details->Object_0@[6].0@ == "table_rows"@);
            assert(details->Object_0@[7].0@ == "row_shadow_pct"@);
            assert(details->Object_0@[8].0@ == "total_delete_bytes"@);
            assert(details->Object_0@[9].0@ == "effective_pressure"@);
            assert(details->Object_0@[10].0@ == "equality_weight"@);
            assert(details->Object_0@[11].0@ == "threshold"@);
            assert(keys_are(details, seq!["delete_file_count"@, "position_deletes"@, "equality_deletes"@, "position_delete_rows"@, "equality_delete_rows"@, "delete_rows_total"@, "table_rows"@, "row_shadow_pct"@, "total_delete_bytes"@, "effective_pressure"@, "equality_weight"@, "threshold"@]));
            assert(message@ =~= delete_pressure_message(*metadata, *thresholds));
            assert(impact@ =~= delete_pressure_impact(*metadata));
            assert(savings@ =~= delete_pressure_savings(fs));
        }
        Finding {
            check_id: lit("delete_pressure"),
            check_name: lit("Delete File Pressure"),
            severity,
            message,
            impact,
            fix_suggestion: Some(lit("Compact data files to apply pending deletes and eliminate merge-on-read overhead.")),
            fix_command: Some(call_command("rewrite_data_files", &metadata.table_name, ", strategy => 'binpack')")),
            estimated_savings: Some(savings),
            details,
        }
    }
}

} // verus!

verus! {

/// How a delete-pressure finding grades the table: no delete files pass;
/// deletes shadowing more than 5% of the table's rows, or an effective
/// pressure (equality deletes weighing five position deletes) above the
/// limit, warn at least; more than 25% of rows, or a pressure above five
/// times the limit, are critical; below both lower marks the check passes.
pub proof fn law_delete_pressure_grades(f: Finding, m: TableMetadata, t: Thresholds)
    requires
        delete_pressure_finding(f, m, t),
    ensures
        m.delete_files@.len() == 0 ==> f.severity == Severity::Pass,
        data_records(m.data_files@) > 0 && delete_records(m.delete_files@) * 100 > 5 * data_records(m.data_files@)
            ==> f.severity != Severity::Pass,
        data_records(m.data_files@) > 0 && delete_records(m.delete_files@) * 100 > 25 * data_records(m.data_files@)
            ==> f.severity == Severity::Critical,
        count_of_type(m.delete_files@, DeleteType::PositionDelete)
            + 5 * count_of_type(m.delete_files@, DeleteType::EqualityDelete) > t.max_delete_files
            ==> f.severity != Severity::Pass,
        count_of_type(m.delete_files@, DeleteType::PositionDelete)
            + 5 * count_of_type(m.delete_files@, DeleteType::EqualityDelete) > 5 * t.max_delete_files
            ==> f.severity == Severity::Critical,
        m.delete_files@.len() > 0
            && delete_records(m.delete_files@) * 100 <= 5 * data_records(m.data_files@)
            && count_of_type(m.delete_files@, DeleteType::PositionDelete)
                + 5 * count_of_type(m.delete_files@, DeleteType::EqualityDelete) <= t.max_delete_files
            ==> f.severity == Severity::Pass,
{
    let files = m.delete_files@;
    if files.len() == 0 {
        assert(delete_records(files) == 0);
        assert(count_of_type(files, DeleteType::PositionDelete) == 0);
        assert(count_of_type(files, DeleteType::EqualityDelete) == 0);
    }
}

} // verus!
