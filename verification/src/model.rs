//! Data model shared by planning, scanning and recovery.
use vstd::prelude::*;

verus! {

/// Kind of target medium.
#[derive(Debug, Clone, Copy, PartialEq, Eq, Structural)]
pub enum TargetKind {
    /// Decide automatically.
    Auto,
    /// Local HDD/SSD of a computer.
    PcDisk,
    /// Removable storage such as portable drives and USB sticks.
    UsbDisk,
    /// Exported phone backup or image.
    Phone,
    /// Anything that fits no other kind.
    Other,
}

impl Default for TargetKind {
    fn default() -> (r: TargetKind)
        ensures
            r == TargetKind::Auto,
    {
        TargetKind::Auto
    }
}

/// Scan depth.
#[derive(Debug, Clone, Copy, PartialEq, Eq, Structural)]
pub enum ScanDepth {
    /// Metadata first, faster.
    Metadata,
    /// Deep scan over a wider range.
    Deep,
}

impl Default for ScanDepth {
    fn default() -> (r: ScanDepth)
        ensures
            r == ScanDepth::Metadata,
    {
        ScanDepth::Metadata
    }
}

/// File-system hint.
#[derive(Debug, Clone, Copy, PartialEq, Eq, Structural)]
pub enum FsHint {
    Auto,
    Ntfs,
    Fat32,
    Exfat,
    Ext4,
    Apfs,
    F2fs,
}

impl Default for FsHint {
    fn default() -> (r: FsHint)
        ensures
            r == FsHint::Auto,
    {
        FsHint::Auto
    }
}

/// FAT family volume kind.
#[derive(Debug, Clone, Copy, PartialEq, Eq, Structural)]
pub enum FatVolumeKind {
    Fat12,
    Fat16,
    Fat32,
    ExFat,
}

/// A partition found in a partition table.
#[derive(Debug)]
pub struct PartitionCandidate {
    pub offset: u64,
    pub size: u64,
    pub label: String,
    pub scheme: String,
}

/// Abstract view of a partition candidate.
pub struct CandModel {
    pub offset: u64,
    pub size: u64,
    pub label: Seq<char>,
    pub scheme: Seq<char>,
}

impl View for PartitionCandidate {
    type V = CandModel;

    open spec fn view(&self) -> CandModel {
        CandModel { offset: self.offset, size: self.size, label: self.label@, scheme: self.scheme@ }
    }
}

pub open spec fn cands(v: Seq<PartitionCandidate>) -> Seq<CandModel> {
    v.map_values(|c: PartitionCandidate| c@)
}

/// A device offered by the `devices` listing.
#[derive(Debug)]
pub struct DeviceCandidate {
    pub path: String,
    pub target_kind: TargetKind,
    pub note: String,
}

/// One readable segment of the source medium.
#[derive(Debug, Clone, Copy, PartialEq, Eq, Structural)]
pub struct SourceSegment {
    /// Start offset.
    pub offset: u64,
    /// Length in bytes.
    pub length: u64,
    /// Whether the segment is sparse (all zeros).
    pub sparse: bool,
}

/// A recoverable candidate.
#[derive(Debug)]
pub struct RecoverableItem {
    /// Unique identifier.
    pub id: String,
    /// Category.
    pub category: String,
    /// Confidence in hundredths (0..=100).
    pub confidence_percent: u8,
    /// Human-readable note.
    pub note: String,
    /// Suggested output file name.
    pub suggested_name: String,
    /// Logical source path (recycle bin entries).
    pub source_path: Option<String>,
    /// Contiguous source offset (carved entries).
    pub source_offset: Option<u64>,
    /// Contiguous source length.
    pub size_bytes: Option<u64>,
    /// Segment coordinates (fragmented entries).
    pub source_segments: Vec<SourceSegment>,
}

/// Abstract view of a recoverable candidate.
pub struct ItemModel {
    pub id: Seq<char>,
    pub category: Seq<char>,
    pub confidence_percent: u8,
    pub note: Seq<char>,
    pub suggested_name: Seq<char>,
    pub source_path: Option<Seq<char>>,
    pub source_offset: Option<u64>,
    pub size_bytes: Option<u64>,
    pub source_segments: Seq<SourceSegment>,
}

pub open spec fn opt_str_view(o: Option<String>) -> Option<Seq<char>> {
    match o {
        Some(s) => Some(s@),
        None => None,
    }
}

impl View for RecoverableItem {
    type V = ItemModel;

    open spec fn view(&self) -> ItemModel {
        ItemModel {
            id: self.id@,
            category: self.category@,
            confidence_percent: self.confidence_percent,
            note: self.note@,
            suggested_name: self.suggested_name@,
            source_path: opt_str_view(self.source_path),
            source_offset: self.source_offset,
            size_bytes: self.size_bytes,
            source_segments: self.source_segments@,
        }
    }
}

/// The views of a list of recoverable candidates.
pub open spec fn item_views(v: Seq<RecoverableItem>) -> Seq<ItemModel> {
    v.map_values(|i: RecoverableItem| i@)
}

/// NTFS scan statistics.
#[derive(Debug, Clone, Copy, PartialEq, Eq, Structural)]
pub struct NtfsDataSummary {
    pub recoverable: u64,
    pub metadata_only: u64,
    pub unsupported_compressed: u64,
    pub unsupported_encrypted: u64,
    pub unsupported_compressed_encrypted: u64,
    pub runlist_failed: u64,
    pub recoverable_with_sparse: u64,
}

/// FAT/exFAT scan statistics.
#[derive(Debug, Clone, Copy, PartialEq, Eq, Structural)]
pub struct FatDataSummary {
    pub volumes_scanned: u64,
    pub fat12_volumes: u64,
    pub fat16_volumes: u64,
    pub fat32_volumes: u64,
    pub exfat_volumes: u64,
    pub deleted_files: u64,
    pub deleted_directories: u64,
    pub with_recovery_segments: u64,
    pub metadata_only: u64,
}

/// ext4 scan statistics.
#[derive(Debug, Clone, Copy, PartialEq, Eq, Structural)]
pub struct Ext4DataSummary {
    pub volumes_scanned: u64,
    pub deleted_files: u64,
    pub deleted_directories: u64,
    pub with_recovery_segments: u64,
    pub with_sparse_segments: u64,
    pub metadata_only: u64,
    pub extents_depth_unsupported: u64,
    pub legacy_pointer_files: u64,
}

/// `a + b` clamped to `u64::MAX`.
pub open spec fn sat_add(a: u64, b: u64) -> u64 {
    if a + b > u64::MAX { u64::MAX } else { (a + b) as u64 }
}

impl Default for NtfsDataSummary {
    /// An all-zero summary.
    fn default() -> (r: NtfsDataSummary)
        ensures
            r == NtfsDataSummary::zero(),
    {
        NtfsDataSummary::new_zero()
    }
}

impl NtfsDataSummary {
    pub open spec fn zero() -> NtfsDataSummary {
        NtfsDataSummary {
            recoverable: 0,
            metadata_only: 0,
            unsupported_compressed: 0,
            unsupported_encrypted: 0,
            unsupported_compressed_encrypted: 0,
            runlist_failed: 0,
            recoverable_with_sparse: 0,
        }
    }

    /// Field-wise saturating sum.
    pub open spec fn sum(a: NtfsDataSummary, b: NtfsDataSummary) -> NtfsDataSummary {
        NtfsDataSummary {
            recoverable: sat_add(a.recoverable, b.recoverable),
            metadata_only: sat_add(a.metadata_only, b.metadata_only),
            unsupported_compressed: sat_add(a.unsupported_compressed, b.unsupported_compressed),
            unsupported_encrypted: sat_add(a.unsupported_encrypted, b.unsupported_encrypted),
            unsupported_compressed_encrypted: sat_add(
                a.unsupported_compressed_encrypted,
                b.unsupported_compressed_encrypted,
            ),
            runlist_failed: sat_add(a.runlist_failed, b.runlist_failed),
            recoverable_with_sparse: sat_add(a.recoverable_with_sparse, b.recoverable_with_sparse),
        }
    }

    /// An all-zero summary.
    pub fn new_zero() -> (r: NtfsDataSummary)
        ensures
            r == NtfsDataSummary::zero(),
    {
        NtfsDataSummary {
            recoverable: 0,
            metadata_only: 0,
            unsupported_compressed: 0,
            unsupported_encrypted: 0,
            unsupported_compressed_encrypted: 0,
            runlist_failed: 0,
            recoverable_with_sparse: 0,
        }
    }

    /// Adds another summary into this one, field by field, saturating.
    pub fn add_assign(&mut self, other: &NtfsDataSummary)
        ensures
            *final(self) == NtfsDataSummary::sum(*old(self), *other),
    {
        self.recoverable = self.recoverable.saturating_add(other.recoverable);
        self.metadata_only = self.metadata_only.saturating_add(other.metadata_only);
        self.unsupported_compressed = self.unsupported_compressed.saturating_add(
            other.unsupported_compressed,
        );
        self.unsupported_encrypted = self.unsupported_encrypted.saturating_add(
            other.unsupported_encrypted,
        );
        self.unsupported_compressed_encrypted = self.unsupported_compressed_encrypted.saturating_add(
            other.unsupported_compressed_encrypted,
        );
        self.runlist_failed = self.runlist_failed.saturating_add(other.runlist_failed);
        self.recoverable_with_sparse = self.recoverable_with_sparse.saturating_add(
            other.recoverable_with_sparse,
        );
    }

    /// Whether every counter is zero.
    pub fn is_zero(&self) -> (r: bool)
        ensures
            r == (*self == NtfsDataSummary::zero()),
    {
        self.recoverable == 0 && self.metadata_only == 0 && self.unsupported_compressed == 0
            && self.unsupported_encrypted == 0 && self.unsupported_compressed_encrypted == 0
            && self.runlist_failed == 0 && self.recoverable_with_sparse == 0
    }
}

impl Default for FatDataSummary {
    /// An all-zero summary.
    fn default() -> (r: FatDataSummary)
        ensures
            r == FatDataSummary::zero(),
    {
        FatDataSummary::new_zero()
    }
}

impl FatDataSummary {
    pub open spec fn zero() -> FatDataSummary {
        FatDataSummary {
            volumes_scanned: 0,
            fat12_volumes: 0,
            fat16_volumes: 0,
            fat32_volumes: 0,
            exfat_volumes: 0,
            deleted_files: 0,
            deleted_directories: 0,
            with_recovery_segments: 0,
            metadata_only: 0,
        }
    }

    /// Field-wise saturating sum.
    pub open spec fn sum(a: FatDataSummary, b: FatDataSummary) -> FatDataSummary {
        FatDataSummary {
            volumes_scanned: sat_add(a.volumes_scanned, b.volumes_scanned),
            fat12_volumes: sat_add(a.fat12_volumes, b.fat12_volumes),
            fat16_volumes: sat_add(a.fat16_volumes, b.fat16_volumes),
            fat32_volumes: sat_add(a.fat32_volumes, b.fat32_volumes),
            exfat_volumes: sat_add(a.exfat_volumes, b.exfat_volumes),
            deleted_files: sat_add(a.deleted_files, b.deleted_files),
            deleted_directories: sat_add(a.deleted_directories, b.deleted_directories),
            with_recovery_segments: sat_add(a.with_recovery_segments, b.with_recovery_segments),
            metadata_only: sat_add(a.metadata_only, b.metadata_only),
        }
    }

    /// An all-zero summary.
    pub fn new_zero() -> (r: FatDataSummary)
        ensures
            r == FatDataSummary::zero(),
    {
        FatDataSummary {
            volumes_scanned: 0,
            fat12_volumes: 0,
            fat16_volumes: 0,
            fat32_volumes: 0,
            exfat_volumes: 0,
            deleted_files: 0,
            deleted_directories: 0,
            with_recovery_segments: 0,
            metadata_only: 0,
        }
    }

    /// Adds another summary into this one, field by field, saturating.
    pub fn add_assign(&mut self, other: &FatDataSummary)
        ensures
            *final(self) == FatDataSummary::sum(*old(self), *other),
    {
        self.volumes_scanned = self.volumes_scanned.saturating_add(other.volumes_scanned);
        self.fat12_volumes = self.fat12_volumes.saturating_add(other.fat12_volumes);
        self.fat16_volumes = self.fat16_volumes.saturating_add(other.fat16_volumes);
        self.fat32_volumes = self.fat32_volumes.saturating_add(other.fat32_volumes);
        self.exfat_volumes = self.exfat_volumes.saturating_add(other.exfat_volumes);
        self.deleted_files = self.deleted_files.saturating_add(other.deleted_files);
        self.deleted_directories = self.deleted_directories.saturating_add(
            other.deleted_directories,
        );
        self.with_recovery_segments = self.with_recovery_segments.saturating_add(
            other.with_recovery_segments,
        );
        self.metadata_only = self.metadata_only.saturating_add(other.metadata_only);
    }

    /// Whether every counter is zero.
    pub fn is_zero(&self) -> (r: bool)
        ensures
            r == (*self == FatDataSummary::zero()),
    {
        self.volumes_scanned == 0 && self.fat12_volumes == 0 && self.fat16_volumes == 0
            && self.fat32_volumes == 0 && self.exfat_volumes == 0 && self.deleted_files == 0
            && self.deleted_directories == 0 && self.with_recovery_segments == 0
            && self.metadata_only == 0
    }
}

impl Default for Ext4DataSummary {
    /// An all-zero summary.
    fn default() -> (r: Ext4DataSummary)
        ensures
            r == Ext4DataSummary::zero(),
    {
        Ext4DataSummary::new_zero()
    }
}

impl Ext4DataSummary {
    pub open spec fn zero() -> Ext4DataSummary {
        Ext4DataSummary {
            volumes_scanned: 0,
            deleted_files: 0,
            deleted_directories: 0,
            with_recovery_segments: 0,
            with_sparse_segments: 0,
            metadata_only: 0,
            extents_depth_unsupported: 0,
            legacy_pointer_files: 0,
        }
    }

    /// Field-wise saturating sum.
    pub open spec fn sum(a: Ext4DataSummary, b: Ext4DataSummary) -> Ext4DataSummary {
        Ext4DataSummary {
            volumes_scanned: sat_add(a.volumes_scanned, b.volumes_scanned),
            deleted_files: sat_add(a.deleted_files, b.deleted_files),
            deleted_directories: sat_add(a.deleted_directories, b.deleted_directories),
            with_recovery_segments: sat_add(a.with_recovery_segments, b.with_recovery_segments),
            with_sparse_segments: sat_add(a.with_sparse_segments, b.with_sparse_segments),
            metadata_only: sat_add(a.metadata_only, b.metadata_only),
            extents_depth_unsupported: sat_add(
                a.extents_depth_unsupported,
                b.extents_depth_unsupported,
            ),
            legacy_pointer_files: sat_add(a.legacy_pointer_files, b.legacy_pointer_files),
        }
    }

    /// An all-zero summary.
    pub fn new_zero() -> (r: Ext4DataSummary)
        ensures
            r == Ext4DataSummary::zero(),
    {
        Ext4DataSummary {
            volumes_scanned: 0,
            deleted_files: 0,
            deleted_directories: 0,
            with_recovery_segments: 0,
            with_sparse_segments: 0,
            metadata_only: 0,
            extents_depth_unsupported: 0,
            legacy_pointer_files: 0,
        }
    }

    /// Adds another summary into this one, field by field, saturating.
    pub fn add_assign(&mut self, other: &Ext4DataSummary)
        ensures
            *final(self) == Ext4DataSummary::sum(*old(self), *other),
    {
        self.volumes_scanned = self.volumes_scanned.saturating_add(other.volumes_scanned);
        self.deleted_files = self.deleted_files.saturating_add(other.deleted_files);
        self.deleted_directories = self.deleted_directories.saturating_add(
            other.deleted_directories,
        );
        self.with_recovery_segments = self.with_recovery_segments.saturating_add(
            other.with_recovery_segments,
        );
        self.with_sparse_segments = self.with_sparse_segments.saturating_add(
            other.with_sparse_segments,
        );
        self.metadata_only = self.metadata_only.saturating_add(other.metadata_only);
        self.extents_depth_unsupported = self.extents_depth_unsupported.saturating_add(
            other.extents_depth_unsupported,
        );
        self.legacy_pointer_files = self.legacy_pointer_files.saturating_add(
            other.legacy_pointer_files,
        );
    }

    /// Whether every counter is zero.
    pub fn is_zero(&self) -> (r: bool)
        ensures
            r == (*self == Ext4DataSummary::zero()),
    {
        self.volumes_scanned == 0 && self.deleted_files == 0 && self.deleted_directories == 0
            && self.with_recovery_segments == 0 && self.with_sparse_segments == 0
            && self.metadata_only == 0 && self.extents_depth_unsupported == 0
            && self.legacy_pointer_files == 0
    }
}

/// Adding an all-zero summary leaves a summary unchanged.
pub proof fn law_ntfs_add_zero_identity(a: NtfsDataSummary)
    ensures
        NtfsDataSummary::sum(a, NtfsDataSummary::zero()) == a,
{
}

/// The sum of two summaries is zero exactly when both are zero.
pub proof fn law_ntfs_sum_zero_iff(a: NtfsDataSummary, b: NtfsDataSummary)
    ensures
        (NtfsDataSummary::sum(a, b) == NtfsDataSummary::zero()) <==> (a
            == NtfsDataSummary::zero() && b == NtfsDataSummary::zero()),
{
}

/// Accumulation order does not matter: the sum is commutative.
pub proof fn law_ntfs_sum_commutative(a: NtfsDataSummary, b: NtfsDataSummary)
    ensures
        NtfsDataSummary::sum(a, b) == NtfsDataSummary::sum(b, a),
{
}

/// Adding an all-zero summary leaves a summary unchanged.
pub proof fn law_fat_add_zero_identity(a: FatDataSummary)
    ensures
        FatDataSummary::sum(a, FatDataSummary::zero()) == a,
{
}

/// The sum of two summaries is zero exactly when both are zero.
pub proof fn law_fat_sum_zero_iff(a: FatDataSummary, b: FatDataSummary)
    ensures
        (FatDataSummary::sum(a, b) == FatDataSummary::zero()) <==> (a == FatDataSummary::zero()
            && b == FatDataSummary::zero()),
{
}

/// Accumulation order does not matter: the sum is commutative.
pub proof fn law_fat_sum_commutative(a: FatDataSummary, b: FatDataSummary)
    ensures
        FatDataSummary::sum(a, b) == FatDataSummary::sum(b, a),
{
}

/// Adding an all-zero summary leaves a summary unchanged.
pub proof fn law_ext4_add_zero_identity(a: Ext4DataSummary)
    ensures
        Ext4DataSummary::sum(a, Ext4DataSummary::zero()) == a,
{
}

/// The sum of two summaries is zero exactly when both are zero.
pub proof fn law_ext4_sum_zero_iff(a: Ext4DataSummary, b: Ext4DataSummary)
    ensures
        (Ext4DataSummary::sum(a, b) == Ext4DataSummary::zero()) <==> (a
            == Ext4DataSummary::zero() && b == Ext4DataSummary::zero()),
{
}

/// Accumulation order does not matter: the sum is commutative.
pub proof fn law_ext4_sum_commutative(a: Ext4DataSummary, b: Ext4DataSummary)
    ensures
        Ext4DataSummary::sum(a, b) == Ext4DataSummary::sum(b, a),
{
}

/// Aggregated per-file-system statistics.
#[derive(Debug)]
pub struct FsMetrics {
    pub ntfs: Option<NtfsDataSummary>,
    pub fat: Option<FatDataSummary>,
    pub ext4: Option<Ext4DataSummary>,
}

/// NTFS scan output.
#[derive(Debug)]
pub struct NtfsScanOutput {
    pub items: Vec<RecoverableItem>,
    pub summary: NtfsDataSummary,
}

/// ext4 scan output.
#[derive(Debug)]
pub struct Ext4ScanOutput {
    pub items: Vec<RecoverableItem>,
    pub summary: Ext4DataSummary,
}

/// Input of plan generation.
#[derive(Debug)]
pub struct PlanInput {
    pub case_id: String,
    pub target_kind: TargetKind,
    pub depth: ScanDepth,
    pub fs_hint: FsHint,
    pub include_carving: bool,
}

/// Scan request.
#[derive(Debug)]
pub struct ScanRequest {
    pub plan: PlanInput,
    /// Source path (directory, image or raw volume).
    pub source: String,
    /// Report output directory.
    pub output_dir: String,
    pub target_kind: TargetKind,
    pub depth: ScanDepth,
    pub fs_hint: FsHint,
    pub include_carving: bool,
}

/// Recovery request.
#[derive(Debug)]
pub struct RecoveryRequest {
    /// Scan report path (JSON).
    pub report_path: String,
    /// Recovery output directory.
    pub destination: String,
    pub dry_run: bool,
    pub keep_original_name: bool,
    pub preserve_timestamps: bool,
    pub skip_carved: bool,
}

/// One stage of a plan.
#[derive(Debug)]
pub struct PlanStage {
    pub id: String,
    pub title: String,
    pub detail: String,
}

/// Scan plan.
#[derive(Debug)]
pub struct ScanPlan {
    pub case_id: String,
    pub target_kind: TargetKind,
    pub depth: ScanDepth,
    pub fs_hint: FsHint,
    pub stages: Vec<PlanStage>,
    pub safety_rules: Vec<String>,
    pub assumptions: Vec<String>,
}

/// Result of recovering one candidate.
#[derive(Debug)]
pub struct RecoveryAction {
    pub item_id: String,
    /// Status (success / failure / skipped / planned).
    pub status: String,
    pub note: String,
    pub output_path: Option<String>,
    pub bytes_written: Option<u64>,
}

/// Abstract view of a recovery action.
pub struct ActionModel {
    pub item_id: Seq<char>,
    pub status: Seq<char>,
    pub note: Seq<char>,
    pub output_path: Option<Seq<char>>,
    pub bytes_written: Option<u64>,
}

impl View for RecoveryAction {
    type V = ActionModel;

    open spec fn view(&self) -> ActionModel {
        ActionModel {
            item_id: self.item_id@,
            status: self.status@,
            note: self.note@,
            output_path: opt_str_view(self.output_path),
            bytes_written: self.bytes_written,
        }
    }
}

/// The complete manifest of one recovery run.
#[derive(Debug)]
pub struct RecoverySession {
    /// Generation time (RFC 3339).
    pub generated_at: String,
    pub case_id: String,
    pub destination: String,
    pub dry_run: bool,
    pub action_count: u64,
    pub actions: Vec<RecoveryAction>,
    pub notes: Vec<String>,
    pub manifest_path: String,
}

/// Device information collected at scan time.
#[derive(Debug)]
pub struct DeviceSnapshot {
    pub source: String,
    pub source_type: String,
    pub size_bytes: u64,
    pub detected_target_kind: Option<TargetKind>,
    pub device_hint: Option<String>,
    pub low_level_source_path: Option<String>,
    pub notes: Vec<String>,
}

/// File-system scan result.
#[derive(Debug)]
pub struct FsScanResult {
    pub detected_fs: Option<String>,
    pub deleted_entry_candidates: u64,
    pub notes: Vec<String>,
    pub items: Vec<RecoverableItem>,
    pub metrics: Option<FsMetrics>,
}

/// Signature carving result.
#[derive(Debug)]
pub struct CarveResult {
    pub enabled: bool,
    pub signatures: Vec<String>,
    pub carved_candidates: u64,
    pub notes: Vec<String>,
    pub items: Vec<RecoverableItem>,
}

/// A complete scan report.
#[derive(Debug)]
pub struct ScanReport {
    pub generated_at: String,
    pub plan: ScanPlan,
    pub source: String,
    pub device_snapshot: DeviceSnapshot,
    pub fs_result: FsScanResult,
    pub carve_result: CarveResult,
    pub findings: Vec<RecoverableItem>,
    pub warnings: Vec<String>,
}

} // verus!
