//! The counts that the cost estimate is made from. The estimate itself
//! prices these counts in dollars, with rates the user configures; that
//! arithmetic is floating point and stays with the application.

use vstd::prelude::*;
use crate::checks::delete_pressure::count_of_type;
use crate::fix::{count_selected, selected_count, FileSelection};
use crate::metadata::{data_bytes, total_data_bytes, DeleteType, TableMetadata};

verus! {

/// Snapshots retained before the excess counts as bloat.
pub const RETAINED_SNAPSHOTS: u64 = 100;

/// File size assumed for orphans when the table has no data files.
pub const DEFAULT_FILE_BYTES: u64 = 128 * 1024 * 1024;

/// What the cost estimate counts in a table.
#[derive(Clone, Copy, Debug, PartialEq, Eq, Structural)]
pub struct CostCounts {
    /// Stored files beyond those the table references.
    pub orphan_count: u64,
    /// Mean data file size (128 MiB when there are no data files).
    pub avg_file_bytes: u64,
    /// Snapshots beyond the hundred retained.
    pub excess_snapshots: u64,
    /// Data files under 8 MiB.
    pub small_files: u64,
    pub position_deletes: u64,
    pub equality_deletes: u64,
}

/// The counts of `m`.
pub open spec fn cost_counts_spec(m: TableMetadata) -> CostCounts {
    let referenced = m.data_files@.len() + m.delete_files@.len();
    let paths = m.all_storage_paths@.len();
    CostCounts {
        orphan_count: if paths > referenced { (paths - referenced) as u64 } else { 0 },
        avg_file_bytes: if m.data_files@.len() == 0 {
            134_217_728u64
        } else {
            (data_bytes(m.data_files@) / m.data_files@.len()) as u64
        },
        excess_snapshots: if m.snapshots@.len() > 100 { (m.snapshots@.len() - 100) as u64 } else { 0 },
        small_files: selected_count(m.data_files@, FileSelection::Small) as u64,
        position_deletes: count_of_type(m.delete_files@, DeleteType::PositionDelete) as u64,
        equality_deletes: count_of_type(m.delete_files@, DeleteType::EqualityDelete) as u64,
    }
}

proof fn lemma_count_of_type_bound(files: Seq<crate::metadata::DeleteFile>, t: DeleteType)
    ensures
        count_of_type(files, t) <= files.len(),
    decreases files.len(),
{
    if files.len() > 0 {
        lemma_count_of_type_bound(files.drop_last(), t);
    }
}

fn count_deletes(m: &TableMetadata, t: DeleteType) -> (n: u64)
    ensures
        n == count_of_type(m.delete_files@, t),
{
    let mut n: u64 = 0;
    let mut i: usize = 0;
    while i < m.delete_files.len()
        invariant
            i <= m.delete_files@.len(),
            n == count_of_type(m.delete_files@.take(i as int), t),
            n <= i,
        decreases m.delete_files@.len() - i,
    {
        proof {
            assert(m.delete_files@.take(i + 1).drop_last() =~= m.delete_files@.take(i as int));
        }
        if m.delete_files[i].delete_type == t {
            n = n + 1;
        }
        i = i + 1;
    }
    proof {
        assert(m.delete_files@.take(m.delete_files@.len() as int) =~= m.delete_files@);
    }
    n
}

/// Counts what the cost estimate prices: orphans, the mean file size,
/// excess snapshots, small files and delete files of each kind.
pub fn cost_counts(m: &TableMetadata) -> (c: CostCounts)
    requires
        m.totals_fit(),
    ensures
        c == cost_counts_spec(*m),
{
    let referenced = m.data_files.len() as u128 + m.delete_files.len() as u128;
    let paths = m.all_storage_paths.len() as u128;
    let orphan_count: u64 = if paths > referenced { (paths - referenced) as u64 } else { 0 };
    let avg_file_bytes = if m.data_files.len() == 0 {
        DEFAULT_FILE_BYTES
    } else {
        total_data_bytes(&m.data_files) / (m.data_files.len() as u64)
    };
    let n = m.snapshots.len() as u64;
    let excess_snapshots = if n > RETAINED_SNAPSHOTS { n - RETAINED_SNAPSHOTS } else { 0 };
    let (small_files, _) = count_selected(&m.data_files, FileSelection::Small);
    CostCounts {
        orphan_count,
        avg_file_bytes,
        excess_snapshots,
        small_files,
        position_deletes: count_deletes(m, DeleteType::PositionDelete),
        equality_deletes: count_deletes(m, DeleteType::EqualityDelete),
    }
}

} // verus!
