//! Runtime settings and their defaults.
//!
//! Loading them from `YanMiRestore.toml` happens outside the library; the
//! scanners take the values they need as arguments.
use vstd::prelude::*;
use crate::text::owned;

verus! {

#[derive(Debug)]
pub struct AppConfig {
    pub ui: UiConfig,
    pub scan: ScanConfig,
    pub carver: CarverConfig,
    pub fs: FsConfig,
    pub partition: PartitionConfig,
    pub recovery: RecoveryConfig,
}

#[derive(Debug)]
pub struct UiConfig {
    pub progress_refresh_hz: u8,
    pub progress_tick_ms: u64,
    pub startup_hold_seconds: u64,
    pub scan_progress_template: String,
    pub recover_progress_template: String,
    pub progress_chars: String,
    pub spinner_frames: Vec<String>,
    pub scan_progress_prefix: String,
    pub recover_progress_prefix: String,
}

#[derive(Debug)]
pub struct ScanConfig {
    pub max_logical_findings: usize,
    pub recycle_dirs: Vec<String>,
}

#[derive(Debug, Clone, Copy, PartialEq, Eq, Structural)]
pub struct CarverConfig {
    pub max_scan_bytes: usize,
    pub max_items_per_signature: usize,
    pub jpeg_min_size_bytes: usize,
    pub jpeg_max_size_bytes: usize,
    pub png_min_size_bytes: usize,
    pub png_max_size_bytes: usize,
    pub pdf_min_size_bytes: usize,
    pub pdf_max_size_bytes: usize,
    pub sqlite_fallback_size_bytes: usize,
    pub zip_search_window_bytes: usize,
    pub mp4_search_window_bytes: usize,
}

#[derive(Debug, Clone, Copy, PartialEq, Eq, Structural)]
pub struct FsConfig {
    pub ntfs: NtfsConfig,
    pub fat: FatConfig,
    pub ext4: Ext4Config,
}

#[derive(Debug, Clone, Copy, PartialEq, Eq, Structural)]
pub struct NtfsConfig {
    pub max_findings: usize,
    pub max_mft_records_metadata: usize,
    pub max_mft_records_deep: usize,
}

#[derive(Debug, Clone, Copy, PartialEq, Eq, Structural)]
pub struct FatConfig {
    pub max_findings_metadata: usize,
    pub max_findings_deep: usize,
    pub max_cluster_chain_metadata: usize,
    pub max_cluster_chain_deep: usize,
    pub max_directory_visits_metadata: usize,
    pub max_directory_visits_deep: usize,
}

#[derive(Debug, Clone, Copy, PartialEq, Eq, Structural)]
pub struct Ext4Config {
    pub max_deleted_items_per_volume: usize,
    pub max_inodes_metadata: u64,
    pub max_inodes_deep: u64,
    pub max_extent_leaf_items: usize,
    pub max_extent_tree_nodes: usize,
}

#[derive(Debug, Clone, Copy, PartialEq, Eq, Structural)]
pub struct PartitionConfig {
    pub max_gpt_entries: usize,
    pub max_ebr_chain_entries: usize,
}

#[derive(Debug, Clone, Copy, PartialEq, Eq, Structural)]
pub struct RecoveryConfig {
    pub copy_buffer_size: usize,
    pub raw_io_alignment_bytes: u64,
}

/// `max(a, b)` as `Ord::max` computes it.
pub open spec fn max_of(a: int, b: int) -> int {
    if a >= b { a } else { b }
}

impl Default for UiConfig {
    /// The default interface settings.
    fn default() -> (r: UiConfig)
        ensures
            r.progress_refresh_hz == 20,
            r.progress_tick_ms == 120,
            r.startup_hold_seconds == 8,
            r.scan_progress_template@ == "{spinner:.green} {prefix:.bold} [{elapsed_precise}] [{bar:32.cyan/blue}] {pos}/{len} {percent:>3}% {msg}"@,
            r.recover_progress_template@ == "{spinner:.green} {prefix:.bold} [{elapsed_precise}] [{bar:32.yellow/blue}] {pos}/{len} {percent:>3}% {msg}"@,
            r.progress_chars@ == "=>-"@,
            r.spinner_frames@.len() == 4,
            r.spinner_frames@[0]@ == "|"@,
            r.spinner_frames@[1]@ == "/"@,
            r.spinner_frames@[2]@ == "-"@,
            r.spinner_frames@[3]@ == "\\"@,
            r.scan_progress_prefix@ == "扫描"@,
            r.recover_progress_prefix@ == "恢复"@,
    {
        let mut spinner_frames: Vec<String> = Vec::new();
        spinner_frames.push(owned("|"));
        spinner_frames.push(owned("/"));
        spinner_frames.push(owned("-"));
        spinner_frames.push(owned("\\"));
        UiConfig {
            progress_refresh_hz: 20,
            progress_tick_ms: 120,
            startup_hold_seconds: 8,
            scan_progress_template: owned(
                "{spinner:.green} {prefix:.bold} [{elapsed_precise}] [{bar:32.cyan/blue}] {pos}/{len} {percent:>3}% {msg}",
            ),
            recover_progress_template: owned(
                "{spinner:.green} {prefix:.bold} [{elapsed_precise}] [{bar:32.yellow/blue}] {pos}/{len} {percent:>3}% {msg}",
            ),
            progress_chars: owned("=>-"),
            spinner_frames,
            scan_progress_prefix: owned("扫描"),
            recover_progress_prefix: owned("恢复"),
        }
    }
}

impl Default for ScanConfig {
    /// The default logical scan settings: 2000 findings and the usual
    fn default() -> (r: ScanConfig)
        ensures
            r.max_logical_findings == 2000,
            r.recycle_dirs@.len() == 6,
            r.recycle_dirs@[0]@ == "$Recycle.Bin"@,
            r.recycle_dirs@[1]@ == "RECYCLER"@,
            r.recycle_dirs@[2]@ == "Recycler"@,
            r.recycle_dirs@[3]@ == "RECYCLED"@,
            r.recycle_dirs@[4]@ == ".Trash"@,
            r.recycle_dirs@[5]@ == ".Trashes"@,
    {
        let mut recycle_dirs: Vec<String> = Vec::new();
        recycle_dirs.push(owned("$Recycle.Bin"));
        recycle_dirs.push(owned("RECYCLER"));
        recycle_dirs.push(owned("Recycler"));
        recycle_dirs.push(owned("RECYCLED"));
        recycle_dirs.push(owned(".Trash"));
        recycle_dirs.push(owned(".Trashes"));
        ScanConfig { max_logical_findings: 2000, recycle_dirs }
    }
}

impl Default for CarverConfig {
    /// The default carving settings.
    fn default() -> (r: CarverConfig)
        ensures
            r == (CarverConfig {
                max_scan_bytes: 536870912,
                max_items_per_signature: 200,
                jpeg_min_size_bytes: 1024,
                jpeg_max_size_bytes: 33554432,
                png_min_size_bytes: 256,
                png_max_size_bytes: 33554432,
                pdf_min_size_bytes: 1024,
                pdf_max_size_bytes: 134217728,
                sqlite_fallback_size_bytes: 1048576,
                zip_search_window_bytes: 67108864,
                mp4_search_window_bytes: 268435456,
            }),
    {
        CarverConfig {
            max_scan_bytes: 536870912,
            max_items_per_signature: 200,
            jpeg_min_size_bytes: 1024,
            jpeg_max_size_bytes: 33554432,
            png_min_size_bytes: 256,
            png_max_size_bytes: 33554432,
            pdf_min_size_bytes: 1024,
            pdf_max_size_bytes: 134217728,
            sqlite_fallback_size_bytes: 1048576,
            zip_search_window_bytes: 67108864,
            mp4_search_window_bytes: 268435456,
        }
    }
}

impl Default for NtfsConfig {
    fn default() -> (r: NtfsConfig)
        ensures
            r == (NtfsConfig {
                max_findings: 5000,
                max_mft_records_metadata: 20000,
                max_mft_records_deep: 100000,
            }),
    {
        NtfsConfig { max_findings: 5000, max_mft_records_metadata: 20000, max_mft_records_deep: 100000 }
    }
}

impl Default for FatConfig {
    fn default() -> (r: FatConfig)
        ensures
            r == (FatConfig {
                max_findings_metadata: 5000,
                max_findings_deep: 20000,
                max_cluster_chain_metadata: 16384,
                max_cluster_chain_deep: 131072,
                max_directory_visits_metadata: 4096,
                max_directory_visits_deep: 32768,
            }),
    {
        FatConfig {
            max_findings_metadata: 5000,
            max_findings_deep: 20000,
            max_cluster_chain_metadata: 16384,
            max_cluster_chain_deep: 131072,
            max_directory_visits_metadata: 4096,
            max_directory_visits_deep: 32768,
        }
    }
}

impl Default for Ext4Config {
    fn default() -> (r: Ext4Config)
        ensures
            r == (Ext4Config {
                max_deleted_items_per_volume: 8000,
                max_inodes_metadata: 250000,
                max_inodes_deep: 2000000,
                max_extent_leaf_items: 32000,
                max_extent_tree_nodes: 16000,
            }),
    {
        Ext4Config {
            max_deleted_items_per_volume: 8000,
            max_inodes_metadata: 250000,
            max_inodes_deep: 2000000,
            max_extent_leaf_items: 32000,
            max_extent_tree_nodes: 16000,
        }
    }
}

impl Default for FsConfig {
    fn default() -> (r: FsConfig)
        ensures
            r.ntfs == NtfsConfig::default_config_spec(),
            r.fat == FatConfig::default_config_spec(),
            r.ext4 == Ext4Config::default_config_spec(),
    {
        FsConfig {
            ntfs: NtfsConfig::default(),
            fat: FatConfig::default(),
            ext4: Ext4Config::default(),
        }
    }
}

impl NtfsConfig {
    pub open spec fn default_config_spec() -> NtfsConfig {
        NtfsConfig { max_findings: 5000, max_mft_records_metadata: 20000, max_mft_records_deep: 100000 }
    }
}

impl FatConfig {
    pub open spec fn default_config_spec() -> FatConfig {
        FatConfig {
            max_findings_metadata: 5000,
            max_findings_deep: 20000,
            max_cluster_chain_metadata: 16384,
            max_cluster_chain_deep: 131072,
            max_directory_visits_metadata: 4096,
            max_directory_visits_deep: 32768,
        }
    }
}

impl Ext4Config {
    pub open spec fn default_config_spec() -> Ext4Config {
        Ext4Config {
            max_deleted_items_per_volume: 8000,
            max_inodes_metadata: 250000,
            max_inodes_deep: 2000000,
            max_extent_leaf_items: 32000,
            max_extent_tree_nodes: 16000,
        }
    }
}

impl Default for PartitionConfig {
    fn default() -> (r: PartitionConfig)
        ensures
            r == (PartitionConfig { max_gpt_entries: 4096, max_ebr_chain_entries: 128 }),
    {
        PartitionConfig { max_gpt_entries: 4096, max_ebr_chain_entries: 128 }
    }
}

impl Default for RecoveryConfig {
    fn default() -> (r: RecoveryConfig)
        ensures
            r == (RecoveryConfig { copy_buffer_size: 65536, raw_io_alignment_bytes: 512 }),
    {
        RecoveryConfig { copy_buffer_size: 65536, raw_io_alignment_bytes: 512 }
    }
}

impl Default for AppConfig {
    /// The default settings of every section.
    fn default() -> (r: AppConfig)
        ensures
            r.carver == CarverConfig::default_config_spec(),
            r.fs.ntfs == NtfsConfig::default_config_spec(),
            r.fs.fat == FatConfig::default_config_spec(),
            r.fs.ext4 == Ext4Config::default_config_spec(),
            r.partition == (PartitionConfig { max_gpt_entries: 4096, max_ebr_chain_entries: 128 }),
            r.recovery == (RecoveryConfig { copy_buffer_size: 65536, raw_io_alignment_bytes: 512 }),
            r.scan.max_logical_findings == 2000,
            r.scan.recycle_dirs@.len() == 6,
            r.ui.progress_refresh_hz == 20,
            r.ui.progress_tick_ms == 120,
            r.ui.startup_hold_seconds == 8,
    {
        AppConfig {
            ui: UiConfig::default(),
            scan: ScanConfig::default(),
            carver: CarverConfig::default(),
            fs: FsConfig::default(),
            partition: PartitionConfig::default(),
            recovery: RecoveryConfig::default(),
        }
    }
}

impl CarverConfig {
    pub open spec fn default_config_spec() -> CarverConfig {
        CarverConfig {
            max_scan_bytes: 536870912,
            max_items_per_signature: 200,
            jpeg_min_size_bytes: 1024,
            jpeg_max_size_bytes: 33554432,
            png_min_size_bytes: 256,
            png_max_size_bytes: 33554432,
            pdf_min_size_bytes: 1024,
            pdf_max_size_bytes: 134217728,
            sqlite_fallback_size_bytes: 1048576,
            zip_search_window_bytes: 67108864,
            mp4_search_window_bytes: 268435456,
        }
    }
}

impl RecoveryConfig {
    /// The copy buffer size in bytes (at least 1024).
    pub fn effective_copy_buffer_size(&self) -> (r: usize)
        ensures
            r == max_of(self.copy_buffer_size as int, 1024),
    {
        if self.copy_buffer_size < 1024 { 1024 } else { self.copy_buffer_size }
    }

    /// The raw-volume read alignment in bytes (at least 1).
    pub fn effective_raw_io_alignment(&self) -> (r: u64)
        ensures
            r == max_of(self.raw_io_alignment_bytes as int, 1),
    {
        if self.raw_io_alignment_bytes < 1 { 1 } else { self.raw_io_alignment_bytes }
    }
}

impl UiConfig {
    /// Progress redraws per second (at least 1).
    pub fn effective_refresh_hz(&self) -> (r: u8)
        ensures
            r == max_of(self.progress_refresh_hz as int, 1),
    {
        if self.progress_refresh_hz < 1 { 1 } else { self.progress_refresh_hz }
    }

    /// Spinner tick interval in milliseconds (at least 10).
    pub fn effective_tick_ms(&self) -> (r: u64)
        ensures
            r == max_of(self.progress_tick_ms as int, 10),
    {
        if self.progress_tick_ms < 10 { 10 } else { self.progress_tick_ms }
    }

    /// How long a started-without-arguments window stays open, in seconds (at least 1).
    pub fn effective_startup_hold_seconds(&self) -> (r: u64)
        ensures
            r == max_of(self.startup_hold_seconds as int, 1),
    {
        if self.startup_hold_seconds < 1 { 1 } else { self.startup_hold_seconds }
    }
}

} // verus!
