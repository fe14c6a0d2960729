//! Configuration types: catalog choice, check thresholds, output format.
//!
//! Thresholds that are fractions are held as integers at a fixed scale,
//! named by their scale: `_x100` is hundredths, `_x10000` ten-thousandths.

use vstd::prelude::*;

verus! {

/// Which catalog backend to read table metadata from.
pub enum CatalogConfig {
    Rest { uri: String, warehouse: String, token: Option<String>, prefix: Option<String> },
    Glue { region: Option<String>, warehouse: String },
    Filesystem { warehouse: String },
}

impl Default for CatalogConfig {
    fn default() -> (c: Self)
        ensures
            c matches CatalogConfig::Filesystem { warehouse } && warehouse@ == "./warehouse"@,
    {
        CatalogConfig::Filesystem { warehouse: String::from_str("./warehouse") }
    }
}

/// Thresholds for health checks.
#[derive(Clone, Copy, Debug, PartialEq, Eq, Structural)]
pub struct Thresholds {
    /// Files smaller than this (in bytes) are "small files". Default: 8 MB.
    pub small_file_bytes: u64,
    /// Maximum number of snapshots before flagging bloat. Default: 100.
    pub max_snapshots: u64,
    /// Maximum age of oldest snapshot in days. Default: 7.
    pub max_snapshot_age_days: u64,
    /// Flag if any partition dimension exceeds this ratio × median, in
    /// hundredths. Default: 1000 (10.0×).
    pub partition_skew_ratio_x100: u64,
    /// Maximum outstanding (weighted) delete files before flagging. Default: 50.
    pub max_delete_files: u64,
    /// Hours since last commit before a table is stale. Default: 48.
    pub stale_table_hours: u64,
    /// Maximum total metadata size in bytes. Default: 500 MB.
    pub max_metadata_bytes: u64,
    /// Distinct partition specs before flagging churn. Default: 3.
    pub max_partition_specs: usize,
    /// Minimum percentage of files honoring the sort order, in hundredths
    /// of a percent. Default: 8000 (80%).
    pub min_sort_compliance_pct_x100: u64,
    /// Minimum percentage of files carrying column statistics, in
    /// hundredths of a percent. Default: 5000 (50%).
    pub min_stats_coverage_pct_x100: u64,
    /// Days after which a branch's target snapshot is stale. Default: 30.
    pub stale_branch_days: u64,
    /// Allowed relative drift between declared target file size and the
    /// observed median, in ten-thousandths. Default: 5000 (0.5).
    pub target_file_size_drift_x10000: u64,
}

impl Default for Thresholds {
    fn default() -> (t: Self)
        ensures
            t.small_file_bytes == 8 * 1024 * 1024,
            t.max_snapshots == 100,
            t.max_snapshot_age_days == 7,
            t.partition_skew_ratio_x100 == 1000,
            t.max_delete_files == 50,
            t.stale_table_hours == 48,
            t.max_metadata_bytes == 500 * 1024 * 1024,
            t.max_partition_specs == 3,
            t.min_sort_compliance_pct_x100 == 8000,
            t.min_stats_coverage_pct_x100 == 5000,
            t.stale_branch_days == 30,
            t.target_file_size_drift_x10000 == 5000,
    {
        Thresholds {
            small_file_bytes: 8 * 1024 * 1024,
            max_snapshots: 100,
            max_snapshot_age_days: 7,
            partition_skew_ratio_x100: 1000,
            max_delete_files: 50,
            stale_table_hours: 48,
            max_metadata_bytes: 500 * 1024 * 1024,
            max_partition_specs: 3,
            min_sort_compliance_pct_x100: 8000,
            min_stats_coverage_pct_x100: 5000,
            stale_branch_days: 30,
            target_file_size_drift_x10000: 5000,
        }
    }
}

/// Output format of reports.
#[derive(Clone, Copy, Debug, PartialEq, Eq, Structural)]
pub enum OutputFormat {
    Pretty,
    Json,
    GithubActions,
}

#[derive(Clone, Copy, Debug, PartialEq, Eq, Structural)]
pub struct OutputConfig {
    /// Default output format.
    pub default_format: OutputFormat,
}

impl Default for OutputConfig {
    fn default() -> (c: Self)
        ensures
            c.default_format == OutputFormat::Pretty,
    {
        OutputConfig { default_format: OutputFormat::Pretty }
    }
}

} // verus!

verus! {

/// Top-level frost configuration (the application reads it from frost.toml).
/// The cost model's settings, which are rates and prices, stay with the
/// application.
pub struct FrostConfig {
    pub catalog: CatalogConfig,
    pub thresholds: Thresholds,
    pub output: OutputConfig,
    pub watch: crate::watch::WatchConfig,
}

impl Default for FrostConfig {
    fn default() -> (c: Self)
        ensures
            c.catalog matches CatalogConfig::Filesystem { warehouse } && warehouse@ == "./warehouse"@,
            c.thresholds.small_file_bytes == 8 * 1024 * 1024,
            c.thresholds.max_snapshots == 100,
            c.output.default_format == OutputFormat::Pretty,
            c.watch.interval@ == "6h"@,
    {
        FrostConfig {
            catalog: CatalogConfig::default(),
            thresholds: Thresholds::default(),
            output: OutputConfig::default(),
            watch: crate::watch::WatchConfig::default(),
        }
    }
}

} // verus!
