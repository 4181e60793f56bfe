use yanmi_restore::config::{Ext4Config, FatConfig, ScanConfig};
use yanmi_restore::fs_scan::{
    collect_fat_volumes, collect_volumes, detect_fat_kind, detect_fs_from_path, ext4_magic_position,
    is_apfs_magic, is_ext4_magic, is_f2fs_magic, probe_plan, probe_set, scan_deleted_entries_at,
    scan_deleted_inodes_at, summarize_fat_volume, HeuristicFsScanner, LogicalScan,
};
use yanmi_restore::model::{
    FatVolumeKind, FsHint, NtfsDataSummary, NtfsScanOutput, PartitionCandidate, RecoverableItem,
    ScanDepth, SourceSegment,
};

fn item(id: &str, category: &str, segments: Vec<SourceSegment>) -> RecoverableItem {
    RecoverableItem {
        id: id.to_string(),
        category: category.to_string(),
        confidence_percent: 80,
        note: String::new(),
        suggested_name: "a.bin".to_string(),
        source_path: None,
        source_offset: None,
        size_bytes: None,
        source_segments: segments,
    }
}

#[test]
fn summarize_fat_volume_counts_types_and_recovery_modes() {
    let items = vec![
        RecoverableItem {
            id: "a".to_string(),
            category: "fat-deleted-file".to_string(),
            confidence_percent: 80,
            note: String::new(),
            suggested_name: "a.bin".to_string(),
            source_path: None,
            source_offset: None,
            size_bytes: Some(10),
            source_segments: vec![SourceSegment { offset: 100, length: 10, sparse: false }],
        },
        RecoverableItem {
            id: "b".to_string(),
            category: "exfat-deleted-directory".to_string(),
            confidence_percent: 60,
            note: String::new(),
            suggested_name: "dir".to_string(),
            source_path: None,
            source_offset: None,
            size_bytes: None,
            source_segments: Vec::new(),
        },
    ];

    let summary = summarize_fat_volume(&items, FatVolumeKind::ExFat);
    assert_eq!(summary.volumes_scanned, 1);
    assert_eq!(summary.exfat_volumes, 1);
    assert_eq!(summary.deleted_files, 1);
    assert_eq!(summary.deleted_directories, 1);
    assert_eq!(summary.with_recovery_segments, 1);
    assert_eq!(summary.metadata_only, 1);
}

fn write_u16(buf: &mut [u8], offset: usize, value: u16) {
    buf[offset..offset + 2].copy_from_slice(&value.to_le_bytes());
}

fn write_u32(buf: &mut [u8], offset: usize, value: u32) {
    buf[offset..offset + 4].copy_from_slice(&value.to_le_bytes());
}

#[test]
fn detect_exfat_boot() {
    let mut image = vec![0_u8; 1024 * 1024];
    image[3..11].copy_from_slice(b"EXFAT   ");
    image[510] = 0x55;
    image[511] = 0xAA;
    assert_eq!(detect_fat_kind(&image[0..512]), Some(FatVolumeKind::ExFat));
}

#[test]
fn detect_fat32_boot() {
    let mut image = vec![0_u8; 1024 * 1024];
    write_u16(&mut image, 11, 512);
    image[13] = 1;
    write_u16(&mut image, 14, 32);
    image[16] = 2;
    write_u16(&mut image, 17, 0);
    write_u16(&mut image, 22, 0);
    write_u32(&mut image, 36, 4096);
    image[82..87].copy_from_slice(b"FAT32");
    image[510] = 0x55;
    image[511] = 0xAA;
    assert_eq!(detect_fat_kind(&image[0..512]), Some(FatVolumeKind::Fat32));
    image[36] = 0;
    image[37] = 0;
    assert_eq!(detect_fat_kind(&image[0..512]), Some(FatVolumeKind::Fat16));
    image[510] = 0;
    assert_eq!(detect_fat_kind(&image[0..512]), None);
}

#[test]
fn scan_returns_placeholder_output() {
    let mut notes = Vec::new();
    let cfg = FatConfig::default();
    let items = scan_deleted_entries_at("unit", 0, Ok(Some(FatVolumeKind::ExFat)), ScanDepth::Deep, &cfg, &mut notes);
    assert!(items.is_empty());
    assert!(!notes.is_empty());
    assert_eq!(notes[0], "FAT 扫描 [unit @ 0]：识别到卷类型 ExFat，当前版本暂未启用深度删除目录项解析。");
    assert!(notes[1].starts_with("FAT 扫描配置：depth=Deep，max_findings="));
}

#[test]
fn detects_ext4_signature() {
    let mut image = vec![0_u8; 16 * 1024];
    write_u16(&mut image, 1024 + 56, 0xEF53);
    let pos = ext4_magic_position(0).unwrap() as usize;
    assert!(is_ext4_magic(&image[pos..pos + 2]));
    assert_eq!(ext4_magic_position(u64::MAX - 10), None);
}

#[test]
fn scan_ext4_placeholder_output() {
    let mut notes = Vec::new();
    let cfg = Ext4Config::default();
    let output = scan_deleted_inodes_at("unit", 0, Ok(true), ScanDepth::Deep, &cfg, &mut notes);
    assert_eq!(output.summary.volumes_scanned, 1);
    assert!(output.items.is_empty());
    assert!(!notes.is_empty());
    let mut n2 = Vec::new();
    let none = scan_deleted_inodes_at("unit", 512, Ok(false), ScanDepth::Metadata, &cfg, &mut n2);
    assert_eq!(none.summary.volumes_scanned, 0);
    assert_eq!(n2, vec!["ext4 扫描 [unit @ 512]：未识别为 ext4 卷。"]);
}

#[test]
fn detects_apfs_signature() {
    let mut image = vec![0_u8; 4 * 1024];
    image[32..36].copy_from_slice(b"NXSB");
    assert!(is_apfs_magic(&image[32..36]));
    assert!(is_apfs_magic(b"APSB"));
    assert!(!is_apfs_magic(b"NXSA"));
}

#[test]
fn detects_f2fs_signature() {
    let mut image = vec![0_u8; 4 * 1024];
    image[1024..1028].copy_from_slice(&0xF2F5_2010_u32.to_le_bytes());
    assert!(is_f2fs_magic(&image[1024..1028]));
}

fn part(offset: u64, label: &str) -> PartitionCandidate {
    PartitionCandidate { offset, size: 10, label: label.to_string(), scheme: "MBR".to_string() }
}

#[test]
fn volumes_are_listed_once_per_offset() {
    let parts = vec![part(0, "mbr-1-linux"), part(1048576, "mbr-2-linux")];
    assert_eq!(probe_plan(true, &parts), vec![false, true]);
    assert_eq!(probe_plan(false, &parts), vec![true, true]);
    let mut notes = Vec::new();
    let vols = collect_volumes(
        "ext4",
        Ok(true),
        vec!["分区扫描：检测到 2 个 MBR 分区候选项。".to_string()],
        &parts,
        &vec![None, Some(Err("boom".to_string()))],
        &mut notes,
    );
    assert_eq!(vols, vec![(0, "whole-image".to_string())]);
    assert_eq!(
        notes,
        vec!["分区扫描：检测到 2 个 MBR 分区候选项。", "ext4 在分区 mbr-2-linux（偏移 1048576）的签名检测失败：boom"]
    );
    let mut n2 = Vec::new();
    let vols = collect_volumes("NTFS", Err("denied".to_string()), Vec::new(), &parts, &vec![Some(Ok(false)), Some(Ok(true))], &mut n2);
    assert_eq!(vols, vec![(1048576, "MBR:mbr-2-linux@1048576".to_string())]);
    assert_eq!(n2, vec!["NTFS 在偏移 0 的签名检测失败：denied"]);
    let mut n3 = Vec::new();
    let fat = collect_fat_volumes(Ok(None), Vec::new(), &parts, &vec![Some(Ok(Some(FatVolumeKind::Fat32))), None], &mut n3);
    assert_eq!(fat, vec![(0, "MBR:mbr-1-linux@0:Fat32".to_string(), FatVolumeKind::Fat32)]);
}

#[test]
fn fs_scan_state_assembles_the_result() {
    let scanner = HeuristicFsScanner;
    let mut state = scanner.begin(ScanDepth::Deep, FsHint::Auto);
    assert_eq!(state.notes.len(), 3);
    let probes = probe_set(FsHint::Auto);
    assert!(probes.ntfs && probes.fat && probes.ext4 && probes.apfs && probes.f2fs);
    let mut summary = NtfsDataSummary::new_zero();
    summary.recoverable = 2;
    state.add_ntfs_volume(0, NtfsScanOutput { items: vec![item("mft-000001", "ntfs-mft-deleted-file", Vec::new())], summary });
    state.end_family(0, true, true);
    state.end_family(1, false, true);
    state.add_fat_volume(3, vec![item("x", "fat-deleted-file", Vec::new())], FatVolumeKind::Fat16);
    state.end_family(2, true, true);
    state.note_signatures(true, 0, true);
    state.note_signatures(false, 2, true);
    let result = state.finish("disk.img");
    assert_eq!(result.detected_fs.as_deref(), Some("mixed-ntfs-ext4-f2fs"));
    assert_eq!(result.deleted_entry_candidates, 2);
    assert_eq!(result.items[0].id, "ntfs-vol00-mft-000001");
    assert_eq!(result.items[1].id, "fat-vol03-x");
    let metrics = result.metrics.unwrap();
    assert_eq!(metrics.ntfs.unwrap().recoverable, 2);
    assert_eq!(metrics.fat.unwrap().fat16_volumes, 1);
    assert!(metrics.ext4.is_none());
    assert!(result.notes.contains(&"源文件未检测到 FAT/exFAT 卷，已跳过 FAT 扫描。".to_string()));
    assert!(result.notes.contains(&"检测到 2 个 F2FS 卷签名，但删除元数据解析尚未实现。".to_string()));
}

#[test]
fn hint_names_the_file_system() {
    let scanner = HeuristicFsScanner;
    let state = scanner.begin(ScanDepth::Metadata, FsHint::Exfat);
    let result = state.finish("disk.img");
    assert_eq!(result.detected_fs.as_deref(), Some("exfat"));
    assert!(result.metrics.is_none());
    let state = scanner.begin(ScanDepth::Metadata, FsHint::Auto);
    assert_eq!(state.finish("evidence.E01").detected_fs.as_deref(), Some("ewf-image"));
    assert_eq!(detect_fs_from_path("x.vhdx").as_deref(), Some("virtual-disk"));
    assert_eq!(detect_fs_from_path("x.txt"), None);
}

#[test]
fn logical_walk_counts_and_truncates() {
    let cfg = ScanConfig { max_logical_findings: 1, recycle_dirs: vec!["$Recycle.Bin".to_string()] };
    let mut walk = LogicalScan::new(&cfg);
    walk.on_file(Some("a.txt".to_string()), "/src/$Recycle.Bin/a.txt".to_string(), Some(3));
    walk.on_file(None, "/src/$Recycle.Bin/b".to_string(), None);
    let (items, notes) = walk.finish();
    assert_eq!(items.len(), 1);
    assert_eq!(items[0].id, "logical-000001");
    assert_eq!(items[0].category, "logical-trash-file");
    assert_eq!(items[0].confidence_percent, 72);
    assert_eq!(items[0].source_path.as_deref(), Some("/src/$Recycle.Bin/a.txt"));
    assert_eq!(notes, vec!["逻辑扫描结果已截断为 1 条。"]);
}

#[test]
fn logical_ids_are_distinct_and_limited() {
    let cfg = ScanConfig { max_logical_findings: 3, recycle_dirs: vec![".Trash".to_string()] };
    let mut walk = LogicalScan::new(&cfg);
    for k in 0..5 {
        walk.on_file(Some(format!("f{k}.txt")), format!("/t/.Trash/f{k}.txt"), Some(k));
    }
    let (items, notes) = walk.finish();
    let ids: Vec<&str> = items.iter().map(|i| i.id.as_str()).collect();
    assert_eq!(ids, vec!["logical-000001", "logical-000002", "logical-000003"]);
    assert_eq!(notes, vec!["逻辑扫描结果已截断为 3 条。"]);
}

#[test]
fn files_beyond_the_limit_are_only_counted() {
    let cfg = ScanConfig { max_logical_findings: 1, recycle_dirs: vec![".Trash".to_string()] };
    let mut walk = LogicalScan::new(&cfg);
    walk.on_file(Some("a.txt".to_string()), "/t/.Trash/a.txt".to_string(), Some(3));
    walk.count_file();
    walk.count_file();
    assert_eq!(walk.visited, 3);
    let (items, notes) = walk.finish();
    assert_eq!(items.len(), 1);
    assert_eq!(notes, vec!["逻辑扫描结果已截断为 1 条。"]);
}
