//! File-system detection on boot sectors and superblocks, the volume
//! lists built from partition tables, the per-volume statistics and the
//! assembly of the file-system scan result. Reading the source happens
//! outside the library, which is handed the bytes or the error.
use vstd::prelude::*;
use crate::bytes::{be_at, le_at, read_le_u16, read_le_u32};
use crate::config::{Ext4Config, FatConfig, ScanConfig};
use crate::device::{extension_of, path_extension};
use crate::model::{
    cands, item_views, CandModel, Ext4DataSummary, Ext4ScanOutput, FatDataSummary, FatVolumeKind,
    FsHint, FsMetrics, FsScanResult, ItemModel, NtfsDataSummary, NtfsScanOutput, PartitionCandidate,
    RecoverableItem, ScanDepth,
};
use crate::report::join;
use crate::text::{chars_contain, contains_seq, dec, dec_padded, digits_value, lemma_dec_padded_value, lower_chars, lower_seq, owned, push_dec, push_dec_padded, push_note, push_str, str_chars, strs};

verus! {

/// `EXFAT   `.
pub open spec fn exfat_oem() -> Seq<u8> {
    seq![0x45u8, 0x58, 0x46, 0x41, 0x54, 0x20, 0x20, 0x20]
}

/// `FAT`.
pub open spec fn fat_tag() -> Seq<u8> {
    seq![0x46u8, 0x41, 0x54]
}

/// A plausible FAT12/16/32 boot sector: non-zero geometry, the boot
/// signature, and `FAT` at the start of either file-system type field.
pub open spec fn likely_fat(boot: Seq<u8>) -> bool {
    &&& le_at(boot, 11, 2) != 0
    &&& boot[13] != 0
    &&& le_at(boot, 14, 2) != 0
    &&& boot[16] != 0
    &&& boot[510] == 0x55
    &&& boot[511] == 0xAA
    &&& (boot.subrange(54, 57) == fat_tag() || boot.subrange(82, 85) == fat_tag())
}

/// FAT32 when there are no root entries, no 16-bit FAT size and a 32-bit
/// FAT size; FAT12 and FAT16 are both reported as FAT16.
pub open spec fn fat_kind(boot: Seq<u8>) -> FatVolumeKind {
    if le_at(boot, 17, 2) == 0 && le_at(boot, 22, 2) == 0 && le_at(boot, 36, 4) > 0 {
        FatVolumeKind::Fat32
    } else {
        FatVolumeKind::Fat16
    }
}

/// The FAT family volume a boot sector belongs to, if any.
pub open spec fn fat_boot_kind(boot: Seq<u8>) -> Option<FatVolumeKind> {
    if boot.subrange(3, 11) == exfat_oem() {
        Some(FatVolumeKind::ExFat)
    } else if likely_fat(boot) {
        Some(fat_kind(boot))
    } else {
        None
    }
}

/// Detects a FAT or exFAT volume from its 512-byte boot sector.
pub fn detect_fat_kind(boot: &[u8]) -> (r: Option<FatVolumeKind>)
    requires
        boot@.len() == 512,
    ensures
        r == fat_boot_kind(boot@),
{
    let exfat: [u8; 8] = [0x45, 0x58, 0x46, 0x41, 0x54, 0x20, 0x20, 0x20];
    let fat: [u8; 3] = [0x46, 0x41, 0x54];
    assert(exfat@ =~= exfat_oem());
    assert(fat@ =~= fat_tag());
    if crate::bytes::bytes_occur_at(boot, &exfat, 3) {
        return Some(FatVolumeKind::ExFat);
    }
    let bytes_per_sector = read_le_u16(boot, 11).unwrap();
    let reserved = read_le_u16(boot, 14).unwrap();
    let likely = bytes_per_sector != 0 && boot[13] != 0 && reserved != 0 && boot[16] != 0 && boot[510]
        == 0x55 && boot[511] == 0xAA && (crate::bytes::bytes_occur_at(boot, &fat, 54)
        || crate::bytes::bytes_occur_at(boot, &fat, 82));
    if !likely {
        return None;
    }
    let root_entries = read_le_u16(boot, 17).unwrap();
    let fat16_size = read_le_u16(boot, 22).unwrap();
    let fat32_size = read_le_u32(boot, 36).unwrap();
    if root_entries == 0 && fat16_size == 0 && fat32_size > 0 {
        Some(FatVolumeKind::Fat32)
    } else {
        Some(FatVolumeKind::Fat16)
    }
}

proof fn lemma_le_at_bytes(boot: Seq<u8>, off: int)
    requires
        0 <= off,
        off + 4 <= boot.len(),
    ensures
        le_at(boot, off, 2) == boot[off] as nat + 256 * boot[off + 1] as nat,
        le_at(boot, off, 4) == boot[off] as nat + 256 * boot[off + 1] as nat + 65536
            * boot[off + 2] as nat + 16777216 * boot[off + 3] as nat,
{
    let f2 = boot.subrange(off, off + 2);
    let f4 = boot.subrange(off, off + 4);
    assert(f2.drop_first().drop_first().len() == 0);
    assert(f4.drop_first().drop_first().drop_first().drop_first().len() == 0);
    reveal_with_fuel(crate::bytes::le_uint, 5);
}

/// A 512-byte boot sector without `EXFAT   ` at offset 3 is taken for a
/// FAT12/16/32 volume exactly when its bytes per sector, sectors per
/// cluster, reserved sectors and FAT count are non-zero, it ends in
/// `55 AA`, and `FAT` opens the type field at offset 54 or the one at
/// offset 82; either field alone is enough.
pub proof fn law_fat_detected(boot: Seq<u8>)
    requires
        boot.len() == 512,
        !(boot[3] == 0x45 && boot[4] == 0x58 && boot[5] == 0x46 && boot[6] == 0x41 && boot[7] == 0x54
            && boot[8] == 0x20 && boot[9] == 0x20 && boot[10] == 0x20),
    ensures
        fat_boot_kind(boot) is Some <==> ((boot[11] != 0 || boot[12] != 0) && boot[13] != 0 && (boot[14]
            != 0 || boot[15] != 0) && boot[16] != 0 && boot[510] == 0x55 && boot[511] == 0xAA && ((boot[54]
            == 0x46 && boot[55] == 0x41 && boot[56] == 0x54) || (boot[82] == 0x46 && boot[83] == 0x41
            && boot[84] == 0x54))),
        fat_boot_kind(boot) != Some(FatVolumeKind::ExFat),
        fat_boot_kind(boot) != Some(FatVolumeKind::Fat12),
{
    lemma_le_at_bytes(boot, 11);
    lemma_le_at_bytes(boot, 14);
    if boot.subrange(3, 11) == exfat_oem() {
        assert(boot[3] == boot.subrange(3, 11)[0]);
        assert(boot[4] == boot.subrange(3, 11)[1]);
        assert(boot[5] == boot.subrange(3, 11)[2]);
        assert(boot[6] == boot.subrange(3, 11)[3]);
        assert(boot[7] == boot.subrange(3, 11)[4]);
        assert(boot[8] == boot.subrange(3, 11)[5]);
        assert(boot[9] == boot.subrange(3, 11)[6]);
        assert(boot[10] == boot.subrange(3, 11)[7]);
    }
    let t16 = boot[54] == 0x46 && boot[55] == 0x41 && boot[56] == 0x54;
    let t32 = boot[82] == 0x46 && boot[83] == 0x41 && boot[84] == 0x54;
    if t16 {
        assert(boot.subrange(54, 57) =~= fat_tag());
    }
    if t32 {
        assert(boot.subrange(82, 85) =~= fat_tag());
    }
    if boot.subrange(54, 57) == fat_tag() {
        assert(boot[54] == boot.subrange(54, 57)[0]);
        assert(boot[55] == boot.subrange(54, 57)[1]);
        assert(boot[56] == boot.subrange(54, 57)[2]);
    }
    if boot.subrange(82, 85) == fat_tag() {
        assert(boot[82] == boot.subrange(82, 85)[0]);
        assert(boot[83] == boot.subrange(82, 85)[1]);
        assert(boot[84] == boot.subrange(82, 85)[2]);
    }
}

/// A boot sector with `EXFAT   ` at offset 3 is an exFAT volume, whatever
/// the rest holds.
pub proof fn law_exfat_detected(boot: Seq<u8>)
    requires
        boot.len() == 512,
        boot[3] == 0x45 && boot[4] == 0x58 && boot[5] == 0x46 && boot[6] == 0x41 && boot[7] == 0x54
            && boot[8] == 0x20 && boot[9] == 0x20 && boot[10] == 0x20,
    ensures
        fat_boot_kind(boot) == Some(FatVolumeKind::ExFat),
{
    assert(boot.subrange(3, 11) =~= exfat_oem());
}

/// A detected FAT volume is FAT32 exactly when it has no root directory
/// entries (offset 17), no 16-bit FAT size (offset 22) and a non-zero
/// 32-bit FAT size (offset 36); otherwise it is reported as FAT16.
pub proof fn law_fat32_kind(boot: Seq<u8>)
    requires
        boot.len() == 512,
        fat_boot_kind(boot) is Some,
        fat_boot_kind(boot) != Some(FatVolumeKind::ExFat),
    ensures
        fat_boot_kind(boot) == Some(FatVolumeKind::Fat32) <==> (boot[17] == 0 && boot[18] == 0 && boot[22]
            == 0 && boot[23] == 0 && (boot[36] != 0 || boot[37] != 0 || boot[38] != 0 || boot[39] != 0)),
        fat_boot_kind(boot) == Some(FatVolumeKind::Fat32) || fat_boot_kind(boot) == Some(
            FatVolumeKind::Fat16,
        ),
{
    lemma_le_at_bytes(boot, 17);
    lemma_le_at_bytes(boot, 22);
    lemma_le_at_bytes(boot, 36);
}

/// The name `{:?}` gives a FAT volume kind.
pub open spec fn fat_kind_name(k: FatVolumeKind) -> Seq<char> {
    match k {
        FatVolumeKind::Fat12 => "Fat12"@,
        FatVolumeKind::Fat16 => "Fat16"@,
        FatVolumeKind::Fat32 => "Fat32"@,
        FatVolumeKind::ExFat => "ExFat"@,
    }
}

pub fn fat_kind_debug(k: FatVolumeKind) -> (r: &'static str)
    ensures
        r@ == fat_kind_name(k),
{
    match k {
        FatVolumeKind::Fat12 => "Fat12",
        FatVolumeKind::Fat16 => "Fat16",
        FatVolumeKind::Fat32 => "Fat32",
        FatVolumeKind::ExFat => "ExFat",
    }
}

/// The name `{:?}` gives a scan depth.
pub open spec fn depth_name(d: ScanDepth) -> Seq<char> {
    match d {
        ScanDepth::Metadata => "Metadata"@,
        ScanDepth::Deep => "Deep"@,
    }
}

pub fn depth_debug(d: ScanDepth) -> (r: &'static str)
    ensures
        r@ == depth_name(d),
{
    match d {
        ScanDepth::Metadata => "Metadata",
        ScanDepth::Deep => "Deep",
    }
}

/// `[label @ offset]`, the volume tag of the FAT and ext4 notes.
pub open spec fn at_tag(label: Seq<char>, offset: u64) -> Seq<char> {
    "["@ + label + " @ "@ + dec(offset as nat) + "]"@
}

fn push_at_tag(s: &mut String, label: &str, offset: u64)
    ensures
        final(s)@ == old(s)@ + at_tag(label@, offset),
{
    push_str(s, "[");
    push_str(s, label);
    push_str(s, " @ ");
    push_dec(s, offset);
    push_str(s, "]");
}

/// The finding limit of a FAT scan at a depth (at least one).
pub open spec fn fat_finding_cap(cfg: FatConfig, depth: ScanDepth) -> usize {
    let v = match depth {
        ScanDepth::Metadata => cfg.max_findings_metadata,
        ScanDepth::Deep => cfg.max_findings_deep,
    };
    if v < 1 { 1 } else { v }
}

pub fn max_fat_findings(cfg: &FatConfig, depth: ScanDepth) -> (r: usize)
    ensures
        r == fat_finding_cap(*cfg, depth),
{
    let v = match depth {
        ScanDepth::Metadata => cfg.max_findings_metadata,
        ScanDepth::Deep => cfg.max_findings_deep,
    };
    if v < 1 { 1 } else { v }
}

pub open spec fn err_view<T>(r: Result<T, String>) -> Result<T, Seq<char>> {
    match r {
        Ok(v) => Ok(v),
        Err(e) => Err(e@),
    }
}

/// The notes of the FAT scan of a volume, given what detecting it gave.
pub open spec fn fat_scan_notes(
    label: Seq<char>,
    offset: u64,
    detected: Result<Option<FatVolumeKind>, Seq<char>>,
    depth: ScanDepth,
    cfg: FatConfig,
) -> Seq<Seq<char>> {
    match detected {
        Ok(Some(k)) => seq![
            "FAT 扫描 "@ + at_tag(label, offset) + "：识别到卷类型 "@ + fat_kind_name(k) + "，当前版本暂未启用深度删除目录项解析。"@,
            "FAT 扫描配置：depth="@ + depth_name(depth) + "，max_findings="@ + dec(fat_finding_cap(cfg, depth) as nat),
        ],
        Ok(None) => seq!["FAT 扫描 "@ + at_tag(label, offset) + "：未识别为 FAT/exFAT 卷。"@],
        Err(e) => seq!["FAT 扫描 "@ + at_tag(label, offset) + "：读取签名失败（"@ + e + "）。"@],
    }
}

/// The FAT scan of a volume: no deleted entries are parsed yet; the notes
/// say what was detected.
pub fn scan_deleted_entries_at(
    label: &str,
    offset: u64,
    detected: Result<Option<FatVolumeKind>, String>,
    depth: ScanDepth,
    cfg: &FatConfig,
    notes: &mut Vec<String>,
) -> (r: Vec<RecoverableItem>)
    ensures
        r@.len() == 0,
        strs(final(notes)@) == strs(old(notes)@) + fat_scan_notes(label@, offset, err_view(detected), depth, *cfg),
{
    let ghost d = err_view(detected);
    match detected {
        Ok(Some(k)) => {
            let mut a = owned("FAT 扫描 ");
            push_at_tag(&mut a, label, offset);
            push_str(&mut a, "：识别到卷类型 ");
            push_str(&mut a, fat_kind_debug(k));
            push_str(&mut a, "，当前版本暂未启用深度删除目录项解析。");
            push_note(notes, a);
            let mut b = owned("FAT 扫描配置：depth=");
            push_str(&mut b, depth_debug(depth));
            push_str(&mut b, "，max_findings=");
            push_dec(&mut b, max_fat_findings(cfg, depth) as u64);
            push_note(notes, b);
        },
        Ok(None) => {
            let mut a = owned("FAT 扫描 ");
            push_at_tag(&mut a, label, offset);
            push_str(&mut a, "：未识别为 FAT/exFAT 卷。");
            push_note(notes, a);
        },
        Err(e) => {
            let mut a = owned("FAT 扫描 ");
            push_at_tag(&mut a, label, offset);
            push_str(&mut a, "：读取签名失败（");
            push_str(&mut a, e.as_str());
            push_str(&mut a, "）。");
            push_note(notes, a);
        },
    }
    assert(strs(notes@) =~= strs(old(notes)@) + fat_scan_notes(label@, offset, d, depth, *cfg));
    Vec::new()
}

/// Where the ext4 superblock magic of a volume lies, unless that overflows.
pub open spec fn ext4_magic_pos(volume_offset: u64) -> Option<u64> {
    if volume_offset + 1080 > u64::MAX { None } else { Some((volume_offset + 1080) as u64) }
}

pub fn ext4_magic_position(volume_offset: u64) -> (r: Option<u64>)
    ensures
        r == ext4_magic_pos(volume_offset),
{
    match volume_offset.checked_add(1024) {
        None => None,
        Some(sb) => sb.checked_add(56),
    }
}

/// The ext4 superblock magic `0xEF53` (little-endian) in two bytes.
pub fn is_ext4_magic(bytes: &[u8]) -> (r: bool)
    requires
        bytes@.len() == 2,
    ensures
        r == (le_at(bytes@, 0, 2) == 0xEF53),
{
    read_le_u16(bytes, 0).unwrap() == 0xEF53
}

/// Where the APFS container magic of a volume lies, unless that overflows.
pub open spec fn apfs_magic_pos(volume_offset: u64) -> Option<u64> {
    if volume_offset + 32 > u64::MAX { None } else { Some((volume_offset + 32) as u64) }
}

pub fn apfs_magic_position(volume_offset: u64) -> (r: Option<u64>)
    ensures
        r == apfs_magic_pos(volume_offset),
{
    volume_offset.checked_add(32)
}

/// `NXSB` (container) or `APSB` (volume superblock).
pub open spec fn apfs_magic(b: Seq<u8>) -> bool {
    b == seq![0x4Eu8, 0x58, 0x53, 0x42] || b == seq![0x41u8, 0x50, 0x53, 0x42]
}

pub fn is_apfs_magic(bytes: &[u8]) -> (r: bool)
    requires
        bytes@.len() == 4,
    ensures
        r == apfs_magic(bytes@),
{
    let nx: [u8; 4] = [0x4E, 0x58, 0x53, 0x42];
    let ap: [u8; 4] = [0x41, 0x50, 0x53, 0x42];
    let r = crate::bytes::bytes_occur_at(bytes, &nx, 0) || crate::bytes::bytes_occur_at(bytes, &ap, 0);
    proof {
        assert(nx@ =~= seq![0x4Eu8, 0x58, 0x53, 0x42]);
        assert(ap@ =~= seq![0x41u8, 0x50, 0x53, 0x42]);
        assert(bytes@.subrange(0, 4) =~= bytes@);
    }
    r
}

/// Where the F2FS superblock magic of a volume lies, unless that overflows.
pub open spec fn f2fs_magic_pos(volume_offset: u64) -> Option<u64> {
    if volume_offset + 1024 > u64::MAX { None } else { Some((volume_offset + 1024) as u64) }
}

pub fn f2fs_magic_position(volume_offset: u64) -> (r: Option<u64>)
    ensures
        r == f2fs_magic_pos(volume_offset),
{
    volume_offset.checked_add(1024)
}

/// The F2FS superblock magic `0xF2F52010` (little-endian) in four bytes.
pub fn is_f2fs_magic(bytes: &[u8]) -> (r: bool)
    requires
        bytes@.len() == 4,
    ensures
        r == (le_at(bytes@, 0, 4) == 0xF2F52010),
{
    read_le_u32(bytes, 0).unwrap() == 0xF2F52010
}

/// The deleted-item limit of an ext4 volume (at least one).
pub open spec fn ext4_item_cap(cfg: Ext4Config) -> usize {
    if cfg.max_deleted_items_per_volume < 1 { 1 } else { cfg.max_deleted_items_per_volume }
}

pub fn max_deleted_items_per_volume(cfg: &Ext4Config) -> (r: usize)
    ensures
        r == ext4_item_cap(*cfg),
{
    if cfg.max_deleted_items_per_volume < 1 { 1 } else { cfg.max_deleted_items_per_volume }
}

/// The notes of the ext4 scan of a volume, given what detecting it gave.
pub open spec fn ext4_scan_notes(label: Seq<char>, offset: u64, detected: Result<bool, Seq<char>>, depth: ScanDepth, cfg: Ext4Config) -> Seq<Seq<char>> {
    match detected {
        Ok(true) => seq![
            "ext4 扫描 "@ + at_tag(label, offset) + "：已识别 ext4 签名，当前版本暂未启用深度 inode 解析。"@,
            "ext4 扫描配置：depth="@ + depth_name(depth) + "，max_deleted_items_per_volume="@ + dec(ext4_item_cap(cfg) as nat),
        ],
        Ok(false) => seq!["ext4 扫描 "@ + at_tag(label, offset) + "：未识别为 ext4 卷。"@],
        Err(e) => seq!["ext4 扫描 "@ + at_tag(label, offset) + "：读取签名失败（"@ + e + "）。"@],
    }
}

/// The ext4 scan of a volume: no deleted inodes are parsed yet; a
/// detected volume is counted, and the notes say what was detected.
pub fn scan_deleted_inodes_at(
    label: &str,
    offset: u64,
    detected: Result<bool, String>,
    depth: ScanDepth,
    cfg: &Ext4Config,
    notes: &mut Vec<String>,
) -> (r: Ext4ScanOutput)
    ensures
        r.items@.len() == 0,
        r.summary == (if detected == Ok::<bool, String>(true) {
            Ext4DataSummary { volumes_scanned: 1, ..Ext4DataSummary::zero() }
        } else {
            Ext4DataSummary::zero()
        }),
        strs(final(notes)@) == strs(old(notes)@) + ext4_scan_notes(label@, offset, err_view(detected), depth, *cfg),
{
    let ghost d = err_view(detected);
    let mut summary = Ext4DataSummary::new_zero();
    match detected {
        Ok(true) => {
            let mut a = owned("ext4 扫描 ");
            push_at_tag(&mut a, label, offset);
            push_str(&mut a, "：已识别 ext4 签名，当前版本暂未启用深度 inode 解析。");
            push_note(notes, a);
            let mut b = owned("ext4 扫描配置：depth=");
            push_str(&mut b, depth_debug(depth));
            push_str(&mut b, "，max_deleted_items_per_volume=");
            push_dec(&mut b, max_deleted_items_per_volume(cfg) as u64);
            push_note(notes, b);
            summary.volumes_scanned = 1;
        },
        Ok(false) => {
            let mut a = owned("ext4 扫描 ");
            push_at_tag(&mut a, label, offset);
            push_str(&mut a, "：未识别为 ext4 卷。");
            push_note(notes, a);
        },
        Err(e) => {
            let mut a = owned("ext4 扫描 ");
            push_at_tag(&mut a, label, offset);
            push_str(&mut a, "：读取签名失败（");
            push_str(&mut a, e.as_str());
            push_str(&mut a, "）。");
            push_note(notes, a);
        },
    }
    assert(strs(notes@) =~= strs(old(notes)@) + ext4_scan_notes(label@, offset, d, depth, *cfg));
    Ext4ScanOutput { items: Vec::new(), summary }
}

/// `deleted-directory`.
pub open spec fn dir_marker() -> Seq<char> {
    "deleted-directory"@
}

/// How many of the items are deleted directories (by category).
pub open spec fn dir_count(items: Seq<ItemModel>) -> nat
    decreases items.len(),
{
    if items.len() == 0 {
        0
    } else {
        (if contains_seq(items.last().category, dir_marker()) { 1nat } else { 0nat }) + dir_count(items.drop_last())
    }
}

/// How many of the items carry data segments.
pub open spec fn segmented_count(items: Seq<ItemModel>) -> nat
    decreases items.len(),
{
    if items.len() == 0 {
        0
    } else {
        (if items.last().source_segments.len() > 0 { 1nat } else { 0nat }) + segmented_count(items.drop_last())
    }
}

proof fn lemma_counts_bounded(items: Seq<ItemModel>)
    ensures
        dir_count(items) <= items.len(),
        segmented_count(items) <= items.len(),
    decreases items.len(),
{
    if items.len() > 0 {
        lemma_counts_bounded(items.drop_last());
    }
}

/// The statistics of one FAT family volume from its items.
pub open spec fn fat_volume_summary(items: Seq<ItemModel>, kind: FatVolumeKind) -> FatDataSummary {
    FatDataSummary {
        volumes_scanned: 1,
        fat12_volumes: if kind == FatVolumeKind::Fat12 { 1 } else { 0 },
        fat16_volumes: if kind == FatVolumeKind::Fat16 { 1 } else { 0 },
        fat32_volumes: if kind == FatVolumeKind::Fat32 { 1 } else { 0 },
        exfat_volumes: if kind == FatVolumeKind::ExFat { 1 } else { 0 },
        deleted_files: (items.len() - dir_count(items)) as u64,
        deleted_directories: dir_count(items) as u64,
        with_recovery_segments: segmented_count(items) as u64,
        metadata_only: (items.len() - segmented_count(items)) as u64,
    }
}

/// Each item of a FAT volume counts once, as a file or as a directory, and
/// once, as recoverable or as metadata only; the volume counts once, under its kind.
pub proof fn law_fat_volume_counts_partition(items: Seq<ItemModel>, kind: FatVolumeKind)
    requires
        items.len() <= u64::MAX,
    ensures
        ({
            let s = fat_volume_summary(items, kind);
            &&& s.deleted_files + s.deleted_directories == items.len()
            &&& s.with_recovery_segments + s.metadata_only == items.len()
            &&& s.fat12_volumes + s.fat16_volumes + s.fat32_volumes + s.exfat_volumes == 1
            &&& s.volumes_scanned == 1
        }),
{
    lemma_counts_bounded(items);
}

pub fn summarize_fat_volume(items: &Vec<RecoverableItem>, kind: FatVolumeKind) -> (r: FatDataSummary)
    ensures
        r == fat_volume_summary(item_views(items@), kind),
{
    let mut summary = FatDataSummary::new_zero();
    summary.volumes_scanned = 1;
    match kind {
        FatVolumeKind::Fat12 => summary.fat12_volumes = 1,
        FatVolumeKind::Fat16 => summary.fat16_volumes = 1,
        FatVolumeKind::Fat32 => summary.fat32_volumes = 1,
        FatVolumeKind::ExFat => summary.exfat_volumes = 1,
    }
    let marker = str_chars("deleted-directory");
    let mut i: usize = 0;
    while i < items.len()
        invariant
            i <= items@.len(),
            marker@ == dir_marker(),
            summary.volumes_scanned == 1,
            summary.fat12_volumes == (if kind == FatVolumeKind::Fat12 { 1u64 } else { 0u64 }),
            summary.fat16_volumes == (if kind == FatVolumeKind::Fat16 { 1u64 } else { 0u64 }),
            summary.fat32_volumes == (if kind == FatVolumeKind::Fat32 { 1u64 } else { 0u64 }),
            summary.exfat_volumes == (if kind == FatVolumeKind::ExFat { 1u64 } else { 0u64 }),
            summary.deleted_directories == dir_count(item_views(items@.subrange(0, i as int))),
            summary.deleted_files == i - dir_count(item_views(items@.subrange(0, i as int))),
            summary.with_recovery_segments == segmented_count(item_views(items@.subrange(0, i as int))),
            summary.metadata_only == i - segmented_count(item_views(items@.subrange(0, i as int))),
        decreases items.len() - i,
    {
        proof {
            let pre = item_views(items@.subrange(0, i + 1));
            assert(pre.drop_last() =~= item_views(items@.subrange(0, i as int)));
            lemma_counts_bounded(item_views(items@.subrange(0, i as int)));
        }
        let cat = str_chars(items[i].category.as_str());
        if chars_contain(cat.as_slice(), marker.as_slice()) {
            summary.deleted_directories = summary.deleted_directories + 1;
        } else {
            summary.deleted_files = summary.deleted_files + 1;
        }
        if items[i].source_segments.len() == 0 {
            summary.metadata_only = summary.metadata_only + 1;
        } else {
            summary.with_recovery_segments = summary.with_recovery_segments + 1;
        }
        i += 1;
    }
    assert(items@.subrange(0, items@.len() as int) =~= items@);
    summary
}

/// The offsets of the partition candidates.
pub open spec fn cand_offsets(c: Seq<CandModel>) -> Seq<u64> {
    c.map_values(|x: CandModel| x.offset)
}

/// Whether the partition at `i` is probed for a file system: its offset
/// was not seen before it (offset 0 counts as seen once the whole source
/// matched).
pub open spec fn probed(offsets: Seq<u64>, i: int, zero_taken: bool) -> bool {
    !(zero_taken && offsets[i] == 0) && forall|j: int| 0 <= j < i ==> offsets[j] != offsets[i]
}

/// Which partitions to probe, in order.
pub fn probe_plan(zero_taken: bool, partitions: &Vec<PartitionCandidate>) -> (r: Vec<bool>)
    ensures
        r@.len() == partitions@.len(),
        forall|i: int| 0 <= i < r@.len() ==> r@[i] == probed(cand_offsets(cands(partitions@)), i, zero_taken),
{
    let ghost offs = cand_offsets(cands(partitions@));
    let mut r: Vec<bool> = Vec::new();
    let mut i: usize = 0;
    while i < partitions.len()
        invariant
            i <= partitions@.len(),
            offs == cand_offsets(cands(partitions@)),
            r@.len() == i,
            forall|k: int| 0 <= k < i ==> r@[k] == probed(offs, k, zero_taken),
        decreases partitions.len() - i,
    {
        let off = partitions[i].offset;
        assert(offs[i as int] == off);
        let mut fresh = !(zero_taken && off == 0);
        let mut j: usize = 0;
        while j < i
            invariant
                j <= i < partitions@.len(),
                offs == cand_offsets(cands(partitions@)),
                offs[i as int] == off,
                fresh == (!(zero_taken && off == 0) && forall|k: int| 0 <= k < j ==> offs[k] != off),
            decreases i - j,
        {
            assert(offs[j as int] == partitions@[j as int].offset);
            if partitions[j].offset == off {
                fresh = false;
            }
            j += 1;
        }
        r.push(fresh);
        i += 1;
    }
    r
}

/// `scheme:label@offset`, the label of a volume found in a partition.
pub open spec fn part_volume_label(c: CandModel) -> Seq<char> {
    c.scheme + ":"@ + c.label + "@"@ + dec(c.offset as nat)
}

fn push_part_label(s: &mut String, c: &PartitionCandidate)
    ensures
        final(s)@ == old(s)@ + part_volume_label(c@),
{
    push_str(s, c.scheme.as_str());
    push_str(s, ":");
    push_str(s, c.label.as_str());
    push_str(s, "@");
    push_dec(s, c.offset);
}

/// The note for a partition whose probe failed.
pub open spec fn probe_error_note(name: Seq<char>, c: CandModel, e: Seq<char>) -> Seq<char> {
    name + " 在分区 "@ + c.label + "（偏移 "@ + dec(c.offset as nat) + "）的签名检测失败："@ + e
}

pub open spec fn probe_view(p: Option<Result<bool, String>>) -> Option<Result<bool, Seq<char>>> {
    match p {
        Some(r) => Some(err_view(r)),
        None => None,
    }
}

/// The volumes found in the first `n` partitions and the notes of failed probes.
pub open spec fn volumes_upto(
    name: Seq<char>,
    parts: Seq<CandModel>,
    probes: Seq<Option<Result<bool, Seq<char>>>>,
    n: nat,
) -> (Seq<(u64, Seq<char>)>, Seq<Seq<char>>)
    decreases n,
{
    if n == 0 {
        (Seq::empty(), Seq::empty())
    } else {
        let prev = volumes_upto(name, parts, probes, (n - 1) as nat);
        let c = parts[n - 1];
        match probes[n - 1] {
            Some(Ok(true)) => (prev.0.push((c.offset, part_volume_label(c))), prev.1),
            Some(Err(e)) => (prev.0, prev.1.push(probe_error_note(name, c, e))),
            _ => prev,
        }
    }
}

/// The volumes of one file system: the whole source when it matched, then
/// each probed partition that matched; the notes are those of the probe at
/// offset 0, of the partition scan, and of failed partition probes.
pub open spec fn volume_list(
    name: Seq<char>,
    at_zero: Result<bool, Seq<char>>,
    partition_notes: Seq<Seq<char>>,
    parts: Seq<CandModel>,
    probes: Seq<Option<Result<bool, Seq<char>>>>,
) -> (Seq<(u64, Seq<char>)>, Seq<Seq<char>>) {
    let (v0, n0): (Seq<(u64, Seq<char>)>, Seq<Seq<char>>) = match at_zero {
        Ok(true) => (seq![(0u64, "whole-image"@)], Seq::empty()),
        Ok(false) => (Seq::empty(), Seq::empty()),
        Err(e) => (Seq::empty(), seq![name + " 在偏移 0 的签名检测失败："@ + e]),
    };
    let rest = volumes_upto(name, parts, probes, parts.len());
    (v0 + rest.0, n0 + partition_notes + rest.1)
}

pub open spec fn vol_views(v: Seq<(u64, String)>) -> Seq<(u64, Seq<char>)> {
    v.map_values(|x: (u64, String)| (x.0, x.1@))
}

fn append_notes(notes: &mut Vec<String>, more: Vec<String>)
    ensures
        strs(final(notes)@) == strs(old(notes)@) + strs(more@),
{
    let mut more = more;
    let ghost m = strs(more@);
    notes.append(&mut more);
    assert(strs(notes@) =~= strs(old(notes)@) + m);
}

/// Builds the volume list of one file system (`name` as the notes call it)
/// from the probe at offset 0, the partition scan and the probes the plan
/// asked for.
pub fn collect_volumes(
    name: &str,
    at_zero: Result<bool, String>,
    partition_notes: Vec<String>,
    partitions: &Vec<PartitionCandidate>,
    probes: &Vec<Option<Result<bool, String>>>,
    notes: &mut Vec<String>,
) -> (r: Vec<(u64, String)>)
    requires
        probes@.len() == partitions@.len(),
    ensures
        ({
            let l = volume_list(
                name@,
                err_view(at_zero),
                strs(partition_notes@),
                cands(partitions@),
                probes@.map_values(|p: Option<Result<bool, String>>| probe_view(p)),
            );
            &&& vol_views(r@) == l.0
            &&& strs(final(notes)@) == strs(old(notes)@) + l.1
        }),
{
    let ghost parts = cands(partitions@);
    let ghost pv = probes@.map_values(|p: Option<Result<bool, String>>| probe_view(p));
    let ghost n00 = strs(notes@);
    let mut vols: Vec<(u64, String)> = Vec::new();
    let ghost z = err_view(at_zero);
    match at_zero {
        Ok(true) => {
            vols.push((0, owned("whole-image")));
        },
        Ok(false) => {},
        Err(e) => {
            let mut n = owned(name);
            push_str(&mut n, " 在偏移 0 的签名检测失败：");
            push_str(&mut n, e.as_str());
            push_note(notes, n);
        },
    }
    append_notes(notes, partition_notes);
    let ghost v0 = vol_views(vols@);
    let ghost n1 = strs(notes@);
    let mut i: usize = 0;
    assert(v0 + volumes_upto(name@, parts, pv, 0).0 =~= vol_views(vols@));
    assert(n1 + volumes_upto(name@, parts, pv, 0).1 =~= strs(notes@));
    while i < partitions.len()
        invariant
            i <= partitions@.len() == probes@.len(),
            parts == cands(partitions@),
            pv == probes@.map_values(|p: Option<Result<bool, String>>| probe_view(p)),
            vol_views(vols@) == v0 + volumes_upto(name@, parts, pv, i as nat).0,
            strs(notes@) == n1 + volumes_upto(name@, parts, pv, i as nat).1,
        decreases partitions.len() - i,
    {
        let c = &partitions[i];
        assert(parts[i as int] == c@);
        assert(pv[i as int] == probe_view(probes@[i as int]));
        let ghost before_v = vol_views(vols@);
        let ghost before_n = strs(notes@);
        match &probes[i] {
            Some(Ok(true)) => {
                let mut l = String::new();
                push_part_label(&mut l, c);
                vols.push((c.offset, l));
                assert(vol_views(vols@) =~= before_v.push((c.offset, part_volume_label(c@))));
            },
            Some(Err(e)) => {
                let mut n = owned(name);
                push_str(&mut n, " 在分区 ");
                push_str(&mut n, c.label.as_str());
                push_str(&mut n, "（偏移 ");
                push_dec(&mut n, c.offset);
                push_str(&mut n, "）的签名检测失败：");
                push_str(&mut n, e.as_str());
                push_note(notes, n);
            },
            _ => {},
        }
        i += 1;
    }
    proof {
        let l = volume_list(name@, z, strs(partition_notes@), parts, pv);
        assert(vol_views(vols@) =~= l.0);
        assert(strs(notes@) =~= n00 + l.1);
    }
    vols
}

pub open spec fn fat_probe_view(p: Option<Result<Option<FatVolumeKind>, String>>) -> Option<Result<Option<FatVolumeKind>, Seq<char>>> {
    match p {
        Some(r) => Some(err_view(r)),
        None => None,
    }
}

/// The FAT family volumes found in the first `n` partitions and the notes of failed probes.
pub open spec fn fat_volumes_upto(
    parts: Seq<CandModel>,
    probes: Seq<Option<Result<Option<FatVolumeKind>, Seq<char>>>>,
    n: nat,
) -> (Seq<(u64, Seq<char>, FatVolumeKind)>, Seq<Seq<char>>)
    decreases n,
{
    if n == 0 {
        (Seq::empty(), Seq::empty())
    } else {
        let prev = fat_volumes_upto(parts, probes, (n - 1) as nat);
        let c = parts[n - 1];
        match probes[n - 1] {
            Some(Ok(Some(k))) => (prev.0.push((c.offset, part_volume_label(c) + ":"@ + fat_kind_name(k), k)), prev.1),
            Some(Err(e)) => (prev.0, prev.1.push(probe_error_note("FAT"@, c, e))),
            _ => prev,
        }
    }
}

/// The FAT family volumes, as `volume_list` but each labelled and kept with its kind.
pub open spec fn fat_volume_list(
    at_zero: Result<Option<FatVolumeKind>, Seq<char>>,
    partition_notes: Seq<Seq<char>>,
    parts: Seq<CandModel>,
    probes: Seq<Option<Result<Option<FatVolumeKind>, Seq<char>>>>,
) -> (Seq<(u64, Seq<char>, FatVolumeKind)>, Seq<Seq<char>>) {
    let (v0, n0): (Seq<(u64, Seq<char>, FatVolumeKind)>, Seq<Seq<char>>) = match at_zero {
        Ok(Some(k)) => (seq![(0u64, "whole-image:"@ + fat_kind_name(k), k)], Seq::empty()),
        Ok(None) => (Seq::empty(), Seq::empty()),
        Err(e) => (Seq::empty(), seq!["FAT 在偏移 0 的签名检测失败："@ + e]),
    };
    let rest = fat_volumes_upto(parts, probes, parts.len());
    (v0 + rest.0, n0 + partition_notes + rest.1)
}

pub open spec fn fat_vol_views(v: Seq<(u64, String, FatVolumeKind)>) -> Seq<(u64, Seq<char>, FatVolumeKind)> {
    v.map_values(|x: (u64, String, FatVolumeKind)| (x.0, x.1@, x.2))
}

pub fn collect_fat_volumes(
    at_zero: Result<Option<FatVolumeKind>, String>,
    partition_notes: Vec<String>,
    partitions: &Vec<PartitionCandidate>,
    probes: &Vec<Option<Result<Option<FatVolumeKind>, String>>>,
    notes: &mut Vec<String>,
) -> (r: Vec<(u64, String, FatVolumeKind)>)
    requires
        probes@.len() == partitions@.len(),
    ensures
        ({
            let l = fat_volume_list(
                err_view(at_zero),
                strs(partition_notes@),
                cands(partitions@),
                probes@.map_values(|p: Option<Result<Option<FatVolumeKind>, String>>| fat_probe_view(p)),
            );
            &&& fat_vol_views(r@) == l.0
            &&& strs(final(notes)@) == strs(old(notes)@) + l.1
        }),
{
    let ghost parts = cands(partitions@);
    let ghost pv = probes@.map_values(|p: Option<Result<Option<FatVolumeKind>, String>>| fat_probe_view(p));
    let ghost n00 = strs(notes@);
    let mut vols: Vec<(u64, String, FatVolumeKind)> = Vec::new();
    let ghost z = err_view(at_zero);
    match at_zero {
        Ok(Some(k)) => {
            let mut l = owned("whole-image:");
            push_str(&mut l, fat_kind_debug(k));
            vols.push((0, l, k));
        },
        Ok(None) => {},
        Err(e) => {
            let mut n = owned("FAT 在偏移 0 的签名检测失败：");
            push_str(&mut n, e.as_str());
            push_note(notes, n);
        },
    }
    append_notes(notes, partition_notes);
    let ghost v0 = fat_vol_views(vols@);
    let ghost n1 = strs(notes@);
    let mut i: usize = 0;
    assert(v0 + fat_volumes_upto(parts, pv, 0).0 =~= fat_vol_views(vols@));
    assert(n1 + fat_volumes_upto(parts, pv, 0).1 =~= strs(notes@));
    while i < partitions.len()
        invariant
            i <= partitions@.len() == probes@.len(),
            parts == cands(partitions@),
            pv == probes@.map_values(|p: Option<Result<Option<FatVolumeKind>, String>>| fat_probe_view(p)),
            fat_vol_views(vols@) == v0 + fat_volumes_upto(parts, pv, i as nat).0,
            strs(notes@) == n1 + fat_volumes_upto(parts, pv, i as nat).1,
        decreases partitions.len() - i,
    {
        let c = &partitions[i];
        assert(parts[i as int] == c@);
        assert(pv[i as int] == fat_probe_view(probes@[i as int]));
        let ghost before_v = fat_vol_views(vols@);
        match &probes[i] {
            Some(Ok(Some(k))) => {
                let mut l = String::new();
                push_part_label(&mut l, c);
                push_str(&mut l, ":");
                push_str(&mut l, fat_kind_debug(*k));
                vols.push((c.offset, l, *k));
                assert(fat_vol_views(vols@) =~= before_v.push((c.offset, part_volume_label(c@) + ":"@ + fat_kind_name(*k), *k)));
            },
            Some(Err(e)) => {
                let mut n = owned("FAT");
                push_str(&mut n, " 在分区 ");
                push_str(&mut n, c.label.as_str());
                push_str(&mut n, "（偏移 ");
                push_dec(&mut n, c.offset);
                push_str(&mut n, "）的签名检测失败：");
                push_str(&mut n, e.as_str());
                push_note(notes, n);
            },
            _ => {},
        }
        i += 1;
    }
    proof {
        let l = fat_volume_list(z, strs(partition_notes@), parts, pv);
        assert(fat_vol_views(vols@) =~= l.0);
        assert(strs(notes@) =~= n00 + l.1);
    }
    vols
}

/// The file systems probed under a hint.
#[derive(Debug, Clone, Copy, PartialEq, Eq, Structural)]
pub struct ProbeSet {
    pub ntfs: bool,
    pub fat: bool,
    pub ext4: bool,
    pub apfs: bool,
    pub f2fs: bool,
}

/// Automatic detection probes everything; a hint probes its own family.
pub open spec fn probes_for(hint: FsHint) -> ProbeSet {
    ProbeSet {
        ntfs: hint == FsHint::Auto || hint == FsHint::Ntfs,
        fat: hint == FsHint::Auto || hint == FsHint::Fat32 || hint == FsHint::Exfat,
        ext4: hint == FsHint::Auto || hint == FsHint::Ext4,
        apfs: hint == FsHint::Auto || hint == FsHint::Apfs,
        f2fs: hint == FsHint::Auto || hint == FsHint::F2fs,
    }
}

pub fn probe_set(hint: FsHint) -> (r: ProbeSet)
    ensures
        r == probes_for(hint),
{
    ProbeSet {
        ntfs: hint == FsHint::Auto || hint == FsHint::Ntfs,
        fat: hint == FsHint::Auto || hint == FsHint::Fat32 || hint == FsHint::Exfat,
        ext4: hint == FsHint::Auto || hint == FsHint::Ext4,
        apfs: hint == FsHint::Auto || hint == FsHint::Apfs,
        f2fs: hint == FsHint::Auto || hint == FsHint::F2fs,
    }
}

/// The id an item of volume `index` of a file system gets: `fs-volNN-id`.
pub open spec fn volume_item_id(fs: Seq<char>, index: nat, id: Seq<char>) -> Seq<char> {
    fs + "-vol"@ + dec_padded(index, 2) + "-"@ + id
}

pub open spec fn with_volume_id(item: ItemModel, fs: Seq<char>, index: nat) -> ItemModel {
    ItemModel { id: volume_item_id(fs, index, item.id), ..item }
}

pub open spec fn with_volume_ids(items: Seq<ItemModel>, fs: Seq<char>, index: nat) -> Seq<ItemModel> {
    items.map_values(|i: ItemModel| with_volume_id(i, fs, index))
}

/// Prefixes the ids of the items of volume `index` and appends them to `all`.
fn append_volume_items(all: &mut Vec<RecoverableItem>, items: Vec<RecoverableItem>, fs: &str, index: usize)
    ensures
        item_views(final(all)@) == item_views(old(all)@) + with_volume_ids(item_views(items@), fs@, index as nat),
{
    let ghost a0 = item_views(all@);
    let ghost orig = items@;
    let ghost src = item_views(items@);
    let mut rest = items;
    let n = rest.len();
    let mut k: usize = 0;
    assert(rest@ =~= orig.subrange(0, n as int));
    while rest.len() > 0
        invariant
            n == orig.len() == src.len(),
            src == item_views(orig),
            k + rest@.len() == n,
            rest@ == orig.subrange(k as int, n as int),
            item_views(all@) == a0 + with_volume_ids(src.subrange(0, k as int), fs@, index as nat),
        decreases rest.len(),
    {
        let ghost r0 = rest@;
        let it = rest.remove(0);
        assert(it == orig[k as int]);
        assert(rest@ =~= orig.subrange(k + 1, n as int));
        let mut id = owned(fs);
        push_str(&mut id, "-vol");
        push_dec_padded(&mut id, index as u64, 2);
        push_str(&mut id, "-");
        push_str(&mut id, it.id.as_str());
        let moved = RecoverableItem { id, ..it };
        let ghost before = item_views(all@);
        all.push(moved);
        k += 1;
        proof {
            assert(item_views(all@) =~= before.push(moved@));
            assert(moved@ == with_volume_id(src[k - 1], fs@, index as nat));
            assert(with_volume_ids(src.subrange(0, k as int), fs@, index as nat) =~= with_volume_ids(
                src.subrange(0, k - 1),
                fs@,
                index as nat,
            ).push(with_volume_id(src[k - 1], fs@, index as nat)));
        }
    }
    assert(src.subrange(0, n as int) =~= src);
}

/// A summary folded into an optional running total.
pub open spec fn fold_ntfs(total: Option<NtfsDataSummary>, s: NtfsDataSummary) -> Option<NtfsDataSummary> {
    match total {
        Some(t) => Some(NtfsDataSummary::sum(t, s)),
        None => Some(s),
    }
}

pub open spec fn fold_fat(total: Option<FatDataSummary>, s: FatDataSummary) -> Option<FatDataSummary> {
    match total {
        Some(t) => Some(FatDataSummary::sum(t, s)),
        None => Some(s),
    }
}

pub open spec fn fold_ext4(total: Option<Ext4DataSummary>, s: Ext4DataSummary) -> Option<Ext4DataSummary> {
    match total {
        Some(t) => Some(Ext4DataSummary::sum(t, s)),
        None => Some(s),
    }
}

/// The heuristic file-system scanner.
#[derive(Debug, Default)]
pub struct HeuristicFsScanner;

/// A file-system scan in progress: what the volumes of each file system gave so far.
#[derive(Debug)]
pub struct FsScanState {
    pub hint: FsHint,
    pub notes: Vec<String>,
    pub items: Vec<RecoverableItem>,
    pub ntfs: Option<NtfsDataSummary>,
    pub fat: Option<FatDataSummary>,
    pub ext4: Option<Ext4DataSummary>,
    pub ntfs_detected: bool,
    pub fat_detected: bool,
    pub ext4_detected: bool,
    pub apfs_detected: bool,
    pub f2fs_detected: bool,
}

/// The notes a scan opens with.
pub open spec fn intro_notes(depth: ScanDepth) -> Seq<Seq<char>> {
    let a = seq![
        "APFS/F2FS 删除元数据解析尚未实现。"@,
        "当前版本支持回收站逻辑枚举、NTFS/FAT/exFAT/ext4 删除扫描，以及 MBR/GPT（含扩展/逻辑分区链）偏移探测。"@,
    ];
    if depth == ScanDepth::Deep { a.push("已启用深度模式：将扩大 NTFS/FAT/ext4 扫描范围。"@) } else { a }
}

impl HeuristicFsScanner {
    /// Starts a scan at `depth` under `hint`.
    pub fn begin(&self, depth: ScanDepth, hint: FsHint) -> (r: FsScanState)
        ensures
            r.hint == hint,
            strs(r.notes@) == intro_notes(depth),
            r.items@.len() == 0,
            r.ntfs is None && r.fat is None && r.ext4 is None,
            !r.ntfs_detected && !r.fat_detected && !r.ext4_detected && !r.apfs_detected && !r.f2fs_detected,
    {
        let mut notes: Vec<String> = Vec::new();
        push_note(&mut notes, owned("APFS/F2FS 删除元数据解析尚未实现。"));
        push_note(
            &mut notes,
            owned("当前版本支持回收站逻辑枚举、NTFS/FAT/exFAT/ext4 删除扫描，以及 MBR/GPT（含扩展/逻辑分区链）偏移探测。"),
        );
        if depth == ScanDepth::Deep {
            push_note(&mut notes, owned("已启用深度模式：将扩大 NTFS/FAT/ext4 扫描范围。"));
        }
        assert(strs(notes@) =~= intro_notes(depth));
        FsScanState {
            hint,
            notes,
            items: Vec::new(),
            ntfs: None,
            fat: None,
            ext4: None,
            ntfs_detected: false,
            fat_detected: false,
            ext4_detected: false,
            apfs_detected: false,
            f2fs_detected: false,
        }
    }
}

/// Readable guess at a source from its extension, when no file system was found.
pub open spec fn fs_guess(path: Seq<char>) -> Option<Seq<char>> {
    match extension_of(path) {
        None => None,
        Some(e) => {
            let l = lower_seq(e);
            if l == "img"@ || l == "raw"@ || l == "dd"@ {
                Some("unknown-image"@)
            } else if l == "e01"@ {
                Some("ewf-image"@)
            } else if l == "vhd"@ || l == "vhdx"@ {
                Some("virtual-disk"@)
            } else {
                None
            }
        },
    }
}

fn chars_are(cs: &Vec<char>, s: &str) -> (r: bool)
    ensures
        r == (cs@ == s@),
{
    let sc = str_chars(s);
    if cs.len() != sc.len() {
        return false;
    }
    let mut i: usize = 0;
    while i < cs.len()
        invariant
            cs@.len() == sc@.len(),
            sc@ == s@,
            i <= cs@.len(),
            forall|j: int| 0 <= j < i ==> cs@[j] == sc@[j],
        decreases cs.len() - i,
    {
        if cs[i] != sc[i] {
            return false;
        }
        i += 1;
    }
    assert(cs@ =~= s@);
    true
}

pub fn detect_fs_from_path(path: &str) -> (r: Option<String>)
    ensures
        match fs_guess(path@) {
            Some(g) => r matches Some(s) && s@ == g,
            None => r is None,
        },
{
    match path_extension(path) {
        None => None,
        Some(e) => {
            let ec = str_chars(e.as_str());
            let l = lower_chars(&ec);
            if chars_are(&l, "img") || chars_are(&l, "raw") || chars_are(&l, "dd") {
                Some(owned("unknown-image"))
            } else if chars_are(&l, "e01") {
                Some(owned("ewf-image"))
            } else if chars_are(&l, "vhd") || chars_are(&l, "vhdx") {
                Some(owned("virtual-disk"))
            } else {
                None
            }
        },
    }
}

/// The names of the detected file systems, in probe order.
pub open spec fn detected_names(n: bool, f: bool, e: bool, a: bool, f2: bool) -> Seq<Seq<char>> {
    let s0: Seq<Seq<char>> = if n { seq!["ntfs"@] } else { Seq::empty() };
    let s1 = if f { s0.push("fat-family"@) } else { s0 };
    let s2 = if e { s1.push("ext4"@) } else { s1 };
    let s3 = if a { s2.push("apfs"@) } else { s2 };
    if f2 { s3.push("f2fs"@) } else { s3 }
}

/// The file system a scan reports: the hint's own name, or under automatic
/// detection the one found, `mixed-…` for several, or a guess from the
/// source's extension for none.
pub open spec fn detected_fs_of(hint: FsHint, names: Seq<Seq<char>>, path: Seq<char>) -> Option<Seq<char>> {
    match hint {
        FsHint::Auto => if names.len() == 0 {
            fs_guess(path)
        } else if names.len() == 1 {
            Some(names[0])
        } else {
            Some("mixed-"@ + join(names, "-"@))
        },
        FsHint::Ntfs => Some("ntfs"@),
        FsHint::Fat32 => Some("fat32"@),
        FsHint::Exfat => Some("exfat"@),
        FsHint::Ext4 => Some("ext4"@),
        FsHint::Apfs => Some("apfs"@),
        FsHint::F2fs => Some("f2fs"@),
    }
}

/// A summary kept in the metrics only when it counted something.
pub open spec fn nonzero_ntfs(s: Option<NtfsDataSummary>) -> Option<NtfsDataSummary> {
    match s {
        Some(x) => if x == NtfsDataSummary::zero() { None } else { Some(x) },
        None => None,
    }
}

pub open spec fn nonzero_fat(s: Option<FatDataSummary>) -> Option<FatDataSummary> {
    match s {
        Some(x) => if x == FatDataSummary::zero() { None } else { Some(x) },
        None => None,
    }
}

pub open spec fn nonzero_ext4(s: Option<Ext4DataSummary>) -> Option<Ext4DataSummary> {
    match s {
        Some(x) => if x == Ext4DataSummary::zero() { None } else { Some(x) },
        None => None,
    }
}

impl FsScanState {
    /// Takes in the items and notes of the recycle-bin walk of a directory source.
    pub fn add_logical(&mut self, items: Vec<RecoverableItem>, notes: Vec<String>)
        ensures
            item_views(final(self).items@) == item_views(old(self).items@) + item_views(items@),
            strs(final(self).notes@) == strs(old(self).notes@) + strs(notes@),
            final(self).hint == old(self).hint,
            final(self).ntfs == old(self).ntfs && final(self).fat == old(self).fat && final(self).ext4 == old(self).ext4,
            final(self).ntfs_detected == old(self).ntfs_detected && final(self).fat_detected == old(self).fat_detected
                && final(self).ext4_detected == old(self).ext4_detected && final(self).apfs_detected == old(self).apfs_detected
                && final(self).f2fs_detected == old(self).f2fs_detected,
    {
        let mut items = items;
        let ghost iv = item_views(items@);
        self.items.append(&mut items);
        assert(item_views(self.items@) =~= item_views(old(self).items@) + iv);
        append_notes(&mut self.notes, notes);
    }

    /// Takes in the MFT scan of NTFS volume `index`.
    pub fn add_ntfs_volume(&mut self, index: usize, output: NtfsScanOutput)
        ensures
            final(self).ntfs == fold_ntfs(old(self).ntfs, output.summary),
            item_views(final(self).items@) == item_views(old(self).items@) + with_volume_ids(
                item_views(output.items@),
                "ntfs"@,
                index as nat,
            ),
            final(self).notes == old(self).notes,
            final(self).hint == old(self).hint,
            final(self).fat == old(self).fat && final(self).ext4 == old(self).ext4,
            final(self).ntfs_detected == old(self).ntfs_detected && final(self).fat_detected == old(self).fat_detected
                && final(self).ext4_detected == old(self).ext4_detected && final(self).apfs_detected == old(self).apfs_detected
                && final(self).f2fs_detected == old(self).f2fs_detected,
    {
        let summary = output.summary;
        match &mut self.ntfs {
            Some(t) => t.add_assign(&summary),
            None => {
                self.ntfs = Some(summary);
            },
        }
        append_volume_items(&mut self.items, output.items, "ntfs", index);
    }

    /// Takes in the items of FAT family volume `index` of `kind`.
    pub fn add_fat_volume(&mut self, index: usize, items: Vec<RecoverableItem>, kind: FatVolumeKind)
        ensures
            final(self).fat == fold_fat(old(self).fat, fat_volume_summary(item_views(items@), kind)),
            item_views(final(self).items@) == item_views(old(self).items@) + with_volume_ids(
                item_views(items@),
                "fat"@,
                index as nat,
            ),
            final(self).notes == old(self).notes,
            final(self).hint == old(self).hint,
            final(self).ntfs == old(self).ntfs && final(self).ext4 == old(self).ext4,
            final(self).ntfs_detected == old(self).ntfs_detected && final(self).fat_detected == old(self).fat_detected
                && final(self).ext4_detected == old(self).ext4_detected && final(self).apfs_detected == old(self).apfs_detected
                && final(self).f2fs_detected == old(self).f2fs_detected,
    {
        let summary = summarize_fat_volume(&items, kind);
        match &mut self.fat {
            Some(t) => t.add_assign(&summary),
            None => {
                self.fat = Some(summary);
            },
        }
        append_volume_items(&mut self.items, items, "fat", index);
    }

    /// Takes in the inode scan of ext4 volume `index`.
    pub fn add_ext4_volume(&mut self, index: usize, output: Ext4ScanOutput)
        ensures
            final(self).ext4 == fold_ext4(old(self).ext4, output.summary),
            item_views(final(self).items@) == item_views(old(self).items@) + with_volume_ids(
                item_views(output.items@),
                "ext4"@,
                index as nat,
            ),
            final(self).notes == old(self).notes,
            final(self).hint == old(self).hint,
            final(self).ntfs == old(self).ntfs && final(self).fat == old(self).fat,
            final(self).ntfs_detected == old(self).ntfs_detected && final(self).fat_detected == old(self).fat_detected
                && final(self).ext4_detected == old(self).ext4_detected && final(self).apfs_detected == old(self).apfs_detected
                && final(self).f2fs_detected == old(self).f2fs_detected,
    {
        let summary = output.summary;
        match &mut self.ext4 {
            Some(t) => t.add_assign(&summary),
            None => {
                self.ext4 = Some(summary);
            },
        }
        append_volume_items(&mut self.items, output.items, "ext4", index);
    }

    /// Records whether NTFS, FAT or ext4 volumes were found (`family` 0, 1
    /// or 2), noting a probed family that was not.
    pub fn end_family(&mut self, family: u8, detected: bool, probed: bool)
        requires
            family < 3,
        ensures
            family == 0 ==> final(self).ntfs_detected == detected,
            family != 0 ==> final(self).ntfs_detected == old(self).ntfs_detected,
            family == 1 ==> final(self).fat_detected == detected,
            family != 1 ==> final(self).fat_detected == old(self).fat_detected,
            family == 2 ==> final(self).ext4_detected == detected,
            family != 2 ==> final(self).ext4_detected == old(self).ext4_detected,
            strs(final(self).notes@) == strs(old(self).notes@) + (if !detected && probed {
                seq![
                    if family == 0 {
                        "源文件未检测到 NTFS 卷，已跳过 MFT 扫描。"@
                    } else if family == 1 {
                        "源文件未检测到 FAT/exFAT 卷，已跳过 FAT 扫描。"@
                    } else {
                        "源文件未检测到 ext4 卷，已跳过 ext4 inode 扫描。"@
                    },
                ]
            } else {
                Seq::<Seq<char>>::empty()
            }),
            final(self).items == old(self).items,
            final(self).hint == old(self).hint,
            final(self).ntfs == old(self).ntfs && final(self).fat == old(self).fat && final(self).ext4 == old(self).ext4,
            final(self).apfs_detected == old(self).apfs_detected && final(self).f2fs_detected == old(self).f2fs_detected,
    {
        if family == 0 {
            self.ntfs_detected = detected;
        } else if family == 1 {
            self.fat_detected = detected;
        } else {
            self.ext4_detected = detected;
        }
        if !detected && probed {
            let n = if family == 0 {
                owned("源文件未检测到 NTFS 卷，已跳过 MFT 扫描。")
            } else if family == 1 {
                owned("源文件未检测到 FAT/exFAT 卷，已跳过 FAT 扫描。")
            } else {
                owned("源文件未检测到 ext4 卷，已跳过 ext4 inode 扫描。")
            };
            push_note(&mut self.notes, n);
        }
        assert(strs(self.notes@) =~= strs(old(self).notes@) + (if !detected && probed {
            seq![
                if family == 0 {
                    "源文件未检测到 NTFS 卷，已跳过 MFT 扫描。"@
                } else if family == 1 {
                    "源文件未检测到 FAT/exFAT 卷，已跳过 FAT 扫描。"@
                } else {
                    "源文件未检测到 ext4 卷，已跳过 ext4 inode 扫描。"@
                },
            ]
        } else {
            Seq::<Seq<char>>::empty()
        }));
    }

    /// Records the APFS (`apfs`) or F2FS volume signatures found (`count`),
    /// noting that their deleted metadata is not parsed, or that none was
    /// found when that family was the hint.
    pub fn note_signatures(&mut self, apfs: bool, count: usize, probed: bool)
        ensures
            apfs ==> final(self).apfs_detected == (count > 0) && final(self).f2fs_detected == old(self).f2fs_detected,
            !apfs ==> final(self).f2fs_detected == (count > 0) && final(self).apfs_detected == old(self).apfs_detected,
            strs(final(self).notes@) == strs(old(self).notes@) + (if count > 0 {
                seq!["检测到 "@ + dec(count as nat) + (if apfs { " 个 APFS 卷签名"@ } else { " 个 F2FS 卷签名"@ }) + "，但删除元数据解析尚未实现。"@]
            } else if probed && old(self).hint == (if apfs { FsHint::Apfs } else { FsHint::F2fs }) {
                seq![if apfs { "源文件未检测到 APFS 卷签名。"@ } else { "源文件未检测到 F2FS 卷签名。"@ }]
            } else {
                Seq::<Seq<char>>::empty()
            }),
            final(self).items == old(self).items,
            final(self).hint == old(self).hint,
            final(self).ntfs == old(self).ntfs && final(self).fat == old(self).fat && final(self).ext4 == old(self).ext4,
            final(self).ntfs_detected == old(self).ntfs_detected && final(self).fat_detected == old(self).fat_detected
                && final(self).ext4_detected == old(self).ext4_detected,
    {
        if apfs {
            self.apfs_detected = count > 0;
        } else {
            self.f2fs_detected = count > 0;
        }
        let own = if apfs { FsHint::Apfs } else { FsHint::F2fs };
        if count > 0 {
            let mut n = owned("检测到 ");
            push_dec(&mut n, count as u64);
            push_str(&mut n, if apfs { " 个 APFS 卷签名" } else { " 个 F2FS 卷签名" });
            push_str(&mut n, "，但删除元数据解析尚未实现。");
            push_note(&mut self.notes, n);
        } else if probed && self.hint == own {
            push_note(&mut self.notes, if apfs { owned("源文件未检测到 APFS 卷签名。") } else { owned("源文件未检测到 F2FS 卷签名。") });
        }
        assert(strs(self.notes@) =~= strs(old(self).notes@) + (if count > 0 {
            seq!["检测到 "@ + dec(count as nat) + (if apfs { " 个 APFS 卷签名"@ } else { " 个 F2FS 卷签名"@ }) + "，但删除元数据解析尚未实现。"@]
        } else if probed && old(self).hint == (if apfs { FsHint::Apfs } else { FsHint::F2fs }) {
            seq![if apfs { "源文件未检测到 APFS 卷签名。"@ } else { "源文件未检测到 F2FS 卷签名。"@ }]
        } else {
            Seq::<Seq<char>>::empty()
        }));
    }
}

impl FsScanState {
    /// The file-system scan result: the detected file system (see
    /// `detected_fs_of`), the candidates and notes, and the statistics of
    /// the file systems that counted something.
    pub fn finish(self, source: &str) -> (r: FsScanResult)
        ensures
            r.detected_fs matches Some(v) ==> detected_fs_of(
                self.hint,
                detected_names(self.ntfs_detected, self.fat_detected, self.ext4_detected, self.apfs_detected, self.f2fs_detected),
                source@,
            ) == Some(v@),
            r.detected_fs is None ==> detected_fs_of(
                self.hint,
                detected_names(self.ntfs_detected, self.fat_detected, self.ext4_detected, self.apfs_detected, self.f2fs_detected),
                source@,
            ) is None,
            r.deleted_entry_candidates == self.items@.len(),
            r.items@ == self.items@,
            r.notes@ == self.notes@,
            (nonzero_ntfs(self.ntfs) is None && nonzero_fat(self.fat) is None && nonzero_ext4(self.ext4) is None)
                ==> r.metrics is None,
            !(nonzero_ntfs(self.ntfs) is None && nonzero_fat(self.fat) is None && nonzero_ext4(self.ext4) is None)
                ==> (r.metrics matches Some(m) && m.ntfs == nonzero_ntfs(self.ntfs) && m.fat == nonzero_fat(self.fat)
                && m.ext4 == nonzero_ext4(self.ext4)),
    {
        let ghost names = detected_names(self.ntfs_detected, self.fat_detected, self.ext4_detected, self.apfs_detected, self.f2fs_detected);
        let detected_fs = match self.hint {
            FsHint::Auto => {
                let mut found: Vec<&'static str> = Vec::new();
                if self.ntfs_detected {
                    found.push("ntfs");
                }
                if self.fat_detected {
                    found.push("fat-family");
                }
                if self.ext4_detected {
                    found.push("ext4");
                }
                if self.apfs_detected {
                    found.push("apfs");
                }
                if self.f2fs_detected {
                    found.push("f2fs");
                }
                proof {
                    assert(found@.len() == names.len());
                    assert(forall|j: int| 0 <= j < found@.len() ==> (#[trigger] found@[j])@ == names[j]);
                }
                if found.len() == 0 {
                    detect_fs_from_path(source)
                } else if found.len() == 1 {
                    Some(owned(found[0]))
                } else {
                    let mut v = owned("mixed-");
                    let mut k: usize = 0;
                    while k < found.len()
                        invariant
                            k <= found@.len(),
                            found@.len() == names.len(),
                            found@.len() > 1,
                            forall|j: int| 0 <= j < found@.len() ==> (#[trigger] found@[j])@ == names[j],
                            v@ == "mixed-"@ + join(names.subrange(0, k as int), "-"@),
                        decreases found.len() - k,
                    {
                        proof {
                            crate::report::lemma_join_push(names.subrange(0, k as int), names[k as int], "-"@);
                            assert(names.subrange(0, k + 1) =~= names.subrange(0, k as int).push(names[k as int]));
                        }
                        if k > 0 {
                            push_str(&mut v, "-");
                        }
                        push_str(&mut v, found[k]);
                        k += 1;
                    }
                    assert(names.subrange(0, names.len() as int) =~= names);
                    Some(v)
                }
            },
            FsHint::Ntfs => Some(owned("ntfs")),
            FsHint::Fat32 => Some(owned("fat32")),
            FsHint::Exfat => Some(owned("exfat")),
            FsHint::Ext4 => Some(owned("ext4")),
            FsHint::Apfs => Some(owned("apfs")),
            FsHint::F2fs => Some(owned("f2fs")),
        };
        let ntfs = match self.ntfs {
            Some(s) => if s.is_zero() { None } else { Some(s) },
            None => None,
        };
        let fat = match self.fat {
            Some(s) => if s.is_zero() { None } else { Some(s) },
            None => None,
        };
        let ext4 = match self.ext4 {
            Some(s) => if s.is_zero() { None } else { Some(s) },
            None => None,
        };
        let metrics = if ntfs.is_some() || fat.is_some() || ext4.is_some() {
            Some(FsMetrics { ntfs, fat, ext4 })
        } else {
            None
        };
        FsScanResult {
            detected_fs,
            deleted_entry_candidates: self.items.len() as u64,
            notes: self.notes,
            items: self.items,
            metrics,
        }
    }
}

/// The recycle-bin directory names to look for (empty names left out).
pub open spec fn recycle_names(dirs: Seq<Seq<char>>) -> Seq<Seq<char>>
    decreases dirs.len(),
{
    if dirs.len() == 0 {
        Seq::empty()
    } else if dirs.last().len() == 0 {
        recycle_names(dirs.drop_last())
    } else {
        recycle_names(dirs.drop_last()).push(dirs.last())
    }
}

pub fn recycle_dir_names(cfg: &ScanConfig) -> (r: Vec<String>)
    ensures
        strs(r@) == recycle_names(strs(cfg.recycle_dirs@)),
{
    let mut out: Vec<String> = Vec::new();
    let mut i: usize = 0;
    while i < cfg.recycle_dirs.len()
        invariant
            i <= cfg.recycle_dirs@.len(),
            strs(out@) == recycle_names(strs(cfg.recycle_dirs@.subrange(0, i as int))),
        decreases cfg.recycle_dirs.len() - i,
    {
        proof {
            assert(strs(cfg.recycle_dirs@.subrange(0, i + 1)).drop_last() =~= strs(cfg.recycle_dirs@.subrange(0, i as int)));
        }
        if str_chars(cfg.recycle_dirs[i].as_str()).len() > 0 {
            push_note(&mut out, cfg.recycle_dirs[i].clone());
        }
        i += 1;
    }
    assert(cfg.recycle_dirs@.subrange(0, cfg.recycle_dirs@.len() as int) =~= cfg.recycle_dirs@);
    out
}

/// The candidate for the `visited`-th file found in a recycle bin.
pub open spec fn logical_item(visited: nat, file_name: Option<Seq<char>>, source: Seq<char>, size: Option<u64>) -> ItemModel {
    ItemModel {
        id: "logical-"@ + dec_padded(visited, 6),
        category: "logical-trash-file"@,
        confidence_percent: 72,
        note: "在回收站/垃圾桶目录中发现该文件。"@,
        suggested_name: match file_name {
            Some(n) => n,
            None => "unknown.bin"@,
        },
        source_path: Some(source),
        source_offset: None,
        size_bytes: size,
        source_segments: Seq::empty(),
    }
}

/// The number in a logical candidate's id (`logical-NNNNNN`).
pub open spec fn logical_number(id: Seq<char>) -> nat {
    digits_value(id.skip(8))
}

/// The ids of the logical candidates carry strictly increasing numbers, none
/// above the number of files visited.
pub open spec fn logical_ids_increasing(items: Seq<ItemModel>, visited: nat) -> bool {
    &&& forall|i: int| 0 <= i < items.len() ==> logical_number(#[trigger] items[i].id) <= visited
    &&& forall|i: int, j: int|
        0 <= i < j < items.len() ==> logical_number(#[trigger] items[i].id) < logical_number(#[trigger] items[j].id)
}

/// No two logical candidates share an id.
pub proof fn law_logical_ids_distinct(items: Seq<ItemModel>, visited: nat)
    requires
        logical_ids_increasing(items, visited),
    ensures
        forall|i: int, j: int| 0 <= i < j < items.len() ==> #[trigger] items[i].id != #[trigger] items[j].id,
{
}

/// The walk over the recycle-bin directories of a directory source.
#[derive(Debug)]
pub struct LogicalScan {
    pub max_findings: usize,
    pub visited: usize,
    pub items: Vec<RecoverableItem>,
    pub notes: Vec<String>,
}

impl LogicalScan {
    /// The candidates stay within the limit and their ids carry strictly
    /// increasing numbers up to the files visited.
    pub open spec fn ids_ok(&self) -> bool {
        &&& self.items@.len() <= self.max_findings
        &&& logical_ids_increasing(item_views(self.items@), self.visited as nat)
    }

    /// Starts a walk limited to the configured number of findings (at least one).
    pub fn new(cfg: &ScanConfig) -> (r: LogicalScan)
        ensures
            r.max_findings == (if cfg.max_logical_findings < 1 { 1 } else { cfg.max_logical_findings }),
            r.visited == 0,
            r.items@.len() == 0,
            r.notes@.len() == 0,
            r.ids_ok(),
    {
        LogicalScan {
            max_findings: if cfg.max_logical_findings < 1 { 1 } else { cfg.max_logical_findings },
            visited: 0,
            items: Vec::new(),
            notes: Vec::new(),
        }
    }

    /// Notes that no recycle-bin directory exists under the source.
    pub fn no_recycle_dirs(&mut self)
        ensures
            strs(final(self).notes@) == strs(old(self).notes@).push("在提供的源路径下未找到回收站/垃圾桶目录。"@),
            final(self).items == old(self).items,
            final(self).visited == old(self).visited,
            final(self).max_findings == old(self).max_findings,
    {
        push_note(&mut self.notes, owned("在提供的源路径下未找到回收站/垃圾桶目录。"));
    }

    /// Notes a directory that could not be read.
    pub fn unreadable_dir(&mut self, dir: &str, error: &str)
        ensures
            strs(final(self).notes@) == strs(old(self).notes@).push("无法读取目录 "@ + dir@ + "："@ + error@),
            final(self).items == old(self).items,
            final(self).visited == old(self).visited,
            final(self).max_findings == old(self).max_findings,
    {
        let mut n = owned("无法读取目录 ");
        push_str(&mut n, dir);
        push_str(&mut n, "：");
        push_str(&mut n, error);
        push_note(&mut self.notes, n);
    }

    /// Notes a directory entry that could not be read.
    pub fn unreadable_entry(&mut self, error: &str)
        ensures
            strs(final(self).notes@) == strs(old(self).notes@).push("读取目录项失败："@ + error@),
            final(self).items == old(self).items,
            final(self).visited == old(self).visited,
            final(self).max_findings == old(self).max_findings,
    {
        let mut n = owned("读取目录项失败：");
        push_str(&mut n, error);
        push_note(&mut self.notes, n);
    }

    /// Notes an entry whose type could not be read.
    pub fn unreadable_type(&mut self, path: &str, error: &str)
        ensures
            strs(final(self).notes@) == strs(old(self).notes@).push("无法读取 "@ + path@ + " 的文件类型："@ + error@),
            final(self).items == old(self).items,
            final(self).visited == old(self).visited,
            final(self).max_findings == old(self).max_findings,
    {
        let mut n = owned("无法读取 ");
        push_str(&mut n, path);
        push_str(&mut n, " 的文件类型：");
        push_str(&mut n, error);
        push_note(&mut self.notes, n);
    }

    /// Counts a file found in a recycle bin and keeps it as a candidate
    /// Counts a file found once the candidate limit is reached.
    pub fn count_file(&mut self)
        requires
            old(self).visited < usize::MAX,
            old(self).items@.len() >= old(self).max_findings,
        ensures
            final(self).visited == old(self).visited + 1,
            final(self).max_findings == old(self).max_findings,
            final(self).notes == old(self).notes,
            final(self).items == old(self).items,
            old(self).ids_ok() ==> final(self).ids_ok(),
    {
        self.visited = self.visited + 1;
    }

    /// while the limit is not reached.
    pub fn on_file(&mut self, file_name: Option<String>, source: String, size: Option<u64>)
        requires
            old(self).visited < usize::MAX,
        ensures
            final(self).visited == old(self).visited + 1,
            final(self).max_findings == old(self).max_findings,
            final(self).notes == old(self).notes,
            old(self).items@.len() >= old(self).max_findings ==> final(self).items == old(self).items,
            old(self).items@.len() < old(self).max_findings ==> item_views(final(self).items@) == item_views(
                old(self).items@,
            ).push(
                logical_item(
                    (old(self).visited + 1) as nat,
                    match file_name {
                        Some(n) => Some(n@),
                        None => None,
                    },
                    source@,
                    size,
                ),
            ),
            old(self).ids_ok() ==> final(self).ids_ok(),
    {
        self.visited = self.visited + 1;
        if self.items.len() >= self.max_findings {
            return;
        }
        let mut id = owned("logical-");
        push_dec_padded(&mut id, self.visited as u64, 6);
        let name = match file_name {
            Some(n) => n,
            None => owned("unknown.bin"),
        };
        let item = RecoverableItem {
            id,
            category: owned("logical-trash-file"),
            confidence_percent: 72,
            note: owned("在回收站/垃圾桶目录中发现该文件。"),
            suggested_name: name,
            source_path: Some(source),
            source_offset: None,
            size_bytes: size,
            source_segments: Vec::new(),
        };
        let ghost before = item_views(self.items@);
        proof {
            reveal_strlit("logical-");
            assert(item@.id.skip(8) =~= dec_padded(self.visited as nat, 6));
            lemma_dec_padded_value(self.visited as nat, 6);
        }
        self.items.push(item);
        proof {
            assert(item_views(self.items@) =~= before.push(item@));
            assert(item@.source_segments =~= Seq::<crate::model::SourceSegment>::empty());
        }
    }

    /// The candidates and notes of the walk, noting when it was cut at its limit.
    pub fn finish(self) -> (r: (Vec<RecoverableItem>, Vec<String>))
        ensures
            r.0@ == self.items@,
            strs(r.1@) == strs(self.notes@) + (if self.visited > self.max_findings {
                seq!["逻辑扫描结果已截断为 "@ + dec(self.max_findings as nat) + " 条。"@]
            } else {
                Seq::<Seq<char>>::empty()
            }),
    {
        let mut notes = self.notes;
        if self.visited > self.max_findings {
            let mut n = owned("逻辑扫描结果已截断为 ");
            push_dec(&mut n, self.max_findings as u64);
            push_str(&mut n, " 条。");
            push_note(&mut notes, n);
        }
        proof {
            assert(strs(notes@) =~= strs(self.notes@) + (if self.visited > self.max_findings {
                seq!["逻辑扫描结果已截断为 "@ + dec(self.max_findings as nat) + " 条。"@]
            } else {
                Seq::<Seq<char>>::empty()
            }));
        }
        (self.items, notes)
    }
}

} // verus!
