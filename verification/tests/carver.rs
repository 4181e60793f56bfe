use yanmi_restore::carver::{
    carve_bytes, carve_mp4, carve_signature, carve_sqlite, carve_zip_office, normalize_size_range,
    parse_mp4_box_range, prefix_read_len, signature_specs, supported_signatures, SignatureCarver,
};
use yanmi_restore::config::CarverConfig;
use yanmi_restore::model::{FsHint, PlanInput, ScanDepth, ScanRequest, TargetKind};

const MAX_ITEMS: usize = 200;

#[test]
fn carve_sqlite_from_header() {
    let mut data = vec![0_u8; 8192];
    let start = 512;
    data[start..start + 16].copy_from_slice(b"SQLite format 3\0");
    data[start + 16..start + 18].copy_from_slice(&4096_u16.to_be_bytes());
    data[start + 28..start + 32].copy_from_slice(&2_u32.to_be_bytes());

    let (items, truncated) = carve_sqlite(&data, MAX_ITEMS, 1024 * 1024);
    assert!(!truncated);
    assert_eq!(items.len(), 1);
    assert!(items[0].suggested_name.ends_with(".sqlite"));
    assert_eq!(items[0].source_offset, Some(start as u64));
}

#[test]
fn carve_zip_office_docx() {
    let mut data = vec![0_u8; 16384];
    let start = 1024;
    data[start..start + 4].copy_from_slice(b"PK\x03\x04");
    let body = b"[Content_Types].xmlword/document.xml";
    data[start + 4..start + 4 + body.len()].copy_from_slice(body);
    let eocd = start + 512;
    data[eocd..eocd + 4].copy_from_slice(b"PK\x05\x06");

    let (items, truncated) = carve_zip_office(&data, MAX_ITEMS, 64 * 1024 * 1024);
    assert!(!truncated);
    assert_eq!(items.len(), 1);
    assert!(items[0].suggested_name.ends_with(".docx"));
    assert_eq!(items[0].source_offset, Some(start as u64));
}

#[test]
fn carve_mp4_box_sequence() {
    let mut data = Vec::new();

    data.extend_from_slice(&24_u32.to_be_bytes());
    data.extend_from_slice(b"ftyp");
    data.extend_from_slice(b"isom");
    data.extend_from_slice(&[0_u8; 12]);

    data.extend_from_slice(&16_u32.to_be_bytes());
    data.extend_from_slice(b"mdat");
    data.extend_from_slice(&[0_u8; 8]);

    let (items, truncated) = carve_mp4(&data, MAX_ITEMS, 256 * 1024 * 1024);
    assert!(!truncated);
    assert_eq!(items.len(), 1);
    assert!(items[0].suggested_name.ends_with(".mp4"));
    assert_eq!(items[0].source_offset, Some(0));
}

#[test]
fn sqlite_item_fields_are_exact() {
    let mut data = vec![0_u8; 8192];
    data[512..528].copy_from_slice(b"SQLite format 3\0");
    data[528..530].copy_from_slice(&4096_u16.to_be_bytes());
    data[540..544].copy_from_slice(&2_u32.to_be_bytes());
    let (items, _) = carve_sqlite(&data, MAX_ITEMS, 1024 * 1024);
    let it = &items[0];
    assert_eq!(it.id, "carve-sqlite-00001");
    assert_eq!(it.category, "signature-carved");
    assert_eq!(it.confidence_percent, 88);
    assert_eq!(it.suggested_name, "carved_1_512.sqlite");
    // 4096 * 2 bytes from 512 run past the end: the size stops at the data.
    assert_eq!(it.size_bytes, Some(8192 - 512));
    assert_eq!(it.note, "sqlite 签名命中，偏移 512，估计长度 7680 字节。");
}

#[test]
fn sqlite_zero_pages_use_the_fallback_size() {
    let mut data = vec![0_u8; 8192];
    data[0..16].copy_from_slice(b"SQLite format 3\0");
    let (items, _) = carve_sqlite(&data, MAX_ITEMS, 4096);
    assert_eq!(items[0].size_bytes, Some(4096));
}

#[test]
fn jpeg_signature_is_carved_between_header_and_footer() {
    let cfg = CarverConfig::default();
    let specs = signature_specs(&cfg);
    let mut data = vec![0_u8; 8192];
    data[100..103].copy_from_slice(&[0xFF, 0xD8, 0xFF]);
    data[2100..2102].copy_from_slice(&[0xFF, 0xD9]);
    let (items, truncated) = carve_signature(&data, &specs[0], MAX_ITEMS);
    assert!(!truncated);
    assert_eq!(items.len(), 1);
    assert_eq!(items[0].id, "carve-jpg-00001");
    assert_eq!(items[0].source_offset, Some(100));
    assert_eq!(items[0].size_bytes, Some(2002));
    assert_eq!(items[0].confidence_percent, 85);
    assert_eq!(items[0].note, "jpeg 签名命中，偏移 100，估计长度 2002 字节。");
}

#[test]
fn spans_below_the_minimum_size_are_skipped() {
    let cfg = CarverConfig::default();
    let specs = signature_specs(&cfg);
    let mut data = vec![0_u8; 4096];
    data[10..13].copy_from_slice(&[0xFF, 0xD8, 0xFF]);
    data[20..22].copy_from_slice(&[0xFF, 0xD9]);
    let (items, _) = carve_signature(&data, &specs[0], MAX_ITEMS);
    assert!(items.is_empty());
}

#[test]
fn item_limit_truncates() {
    let mut data = vec![0_u8; 4096];
    data[0..16].copy_from_slice(b"SQLite format 3\0");
    data[1000..1016].copy_from_slice(b"SQLite format 3\0");
    let (items, truncated) = carve_sqlite(&data, 1, 4096);
    assert!(truncated);
    assert_eq!(items.len(), 1);
}

#[test]
fn xlsx_is_told_from_docx() {
    let mut data = vec![0_u8; 4096];
    data[0..4].copy_from_slice(b"PK\x03\x04");
    let body = b"[Content_Types].xmlxl/workbook.xml";
    data[4..4 + body.len()].copy_from_slice(body);
    data[600..604].copy_from_slice(b"PK\x05\x06");
    let (items, _) = carve_zip_office(&data, MAX_ITEMS, 1024);
    assert_eq!(items.len(), 1);
    assert_eq!(items[0].id, "carve-xlsx-00001");
    assert_eq!(items[0].size_bytes, Some(604));
}

#[test]
fn mp4_box_walk_limits() {
    let mut data = Vec::new();
    data.extend_from_slice(&16_u32.to_be_bytes());
    data.extend_from_slice(b"ftyp");
    data.extend_from_slice(&[0_u8; 8]);
    data.extend_from_slice(&16_u32.to_be_bytes());
    data.extend_from_slice(b"free");
    data.extend_from_slice(&[0_u8; 8]);
    assert_eq!(parse_mp4_box_range(&data, 0, data.len()), Some((32, false)));
    assert_eq!(parse_mp4_box_range(&data, 0, 4), None);
    let mut bad = data.clone();
    bad[3] = 4;
    assert_eq!(parse_mp4_box_range(&bad, 0, bad.len()), None);
}

#[test]
fn size_ranges_are_normalized() {
    assert_eq!(normalize_size_range(0, 0, 1024, 4096), (1024, 4096));
    assert_eq!(normalize_size_range(5000, 100, 1024, 4096), (5000, 5000));
    assert_eq!(normalize_size_range(0, 0, 0, 0), (1, 1));
}

#[test]
fn supported_signature_list() {
    assert_eq!(supported_signatures(), vec!["jpg", "png", "pdf", "sqlite", "docx", "xlsx", "mp4"]);
}

#[test]
fn prefix_plan_notes() {
    let mut notes = Vec::new();
    assert_eq!(prefix_read_len(Some(10), 1024, &mut notes), 10);
    assert!(notes.is_empty());
    assert_eq!(prefix_read_len(Some(3 * 1024 * 1024), 0, &mut notes), 1024 * 1024);
    assert_eq!(notes, vec!["源文件大于 1 MiB，本次仅扫描前 1 MiB。"]);
    let mut n2 = Vec::new();
    assert_eq!(prefix_read_len(None, 2 * 1024 * 1024, &mut n2), 2 * 1024 * 1024);
    assert_eq!(n2, vec!["无法读取源文件元数据，已按上限读取前 2 MiB。"]);
    let mut n3 = Vec::new();
    assert_eq!(prefix_read_len(Some(0), 0, &mut n3), 0);
    assert_eq!(n3, vec!["源文件为空。"]);
}

fn request(include_carving: bool) -> ScanRequest {
    ScanRequest {
        plan: PlanInput {
            case_id: "CASE-1".to_string(),
            target_kind: TargetKind::Auto,
            depth: ScanDepth::Metadata,
            fs_hint: FsHint::Auto,
            include_carving,
        },
        source: "disk.img".to_string(),
        output_dir: "out".to_string(),
        target_kind: TargetKind::Auto,
        depth: ScanDepth::Metadata,
        fs_hint: FsHint::Auto,
        include_carving,
    }
}

#[test]
fn carver_outcomes_by_request() {
    let cfg = CarverConfig::default();
    let carver = SignatureCarver;
    let off = carver.carve(&request(false), false, None, Vec::new(), &cfg);
    assert!(!off.enabled);
    assert_eq!(off.notes, vec!["本次任务未启用签名雕刻。"]);
    let dir = carver.carve(&request(true), true, None, Vec::new(), &cfg);
    assert!(dir.enabled);
    assert_eq!(dir.notes, vec!["签名雕刻需要原始镜像/设备文件，目录类型源已跳过。"]);
    assert_eq!(dir.signatures.len(), 7);
    let empty = carver.carve(&request(true), false, Some(vec![0_u8; 4096]), Vec::new(), &cfg);
    assert_eq!(empty.carved_candidates, 0);
    assert_eq!(empty.notes, vec!["在当前扫描范围内未发现签名命中。"]);
}

#[test]
fn all_detectors_run_in_order() {
    let cfg = CarverConfig { max_items_per_signature: 1, ..CarverConfig::default() };
    let mut data = vec![0_u8; 8192];
    data[0..16].copy_from_slice(b"SQLite format 3\0");
    data[4096..4112].copy_from_slice(b"SQLite format 3\0");
    let (items, notes) = carve_bytes(&data, &cfg, vec!["先前".to_string()]);
    assert_eq!(items.len(), 1);
    assert_eq!(notes, vec!["先前", "签名 sqlite 命中数量达到上限 1。"]);
}

#[test]
fn carved_items_lie_within_the_scanned_bytes() {
    let cfg = CarverConfig::default();
    let mut data = vec![0_u8; 8192];
    // A SQLite header near the end whose declared size runs past the buffer.
    data[6000..6016].copy_from_slice(b"SQLite format 3\0");
    data[6016] = 0x10;
    data[6017] = 0x00;
    data[6028..6032].copy_from_slice(&100_u32.to_be_bytes());
    // A JPEG span.
    data[100..103].copy_from_slice(&[0xFF, 0xD8, 0xFF]);
    data[3000..3002].copy_from_slice(&[0xFF, 0xD9]);
    let (items, _) = carve_bytes(&data, &cfg, Vec::new());
    assert_eq!(items.len(), 2);
    for item in &items {
        let end = item.source_offset.unwrap() + item.size_bytes.unwrap();
        assert!(end <= data.len() as u64);
    }
    assert_eq!(items[1].source_offset, Some(6000));
    assert_eq!(items[1].size_bytes, Some(8192 - 6000));
}

#[test]
fn limit_note_only_when_the_limit_is_reached() {
    let mut data = vec![0_u8; 4096];
    data[0..16].copy_from_slice(b"SQLite format 3\0");
    let (items, truncated) = carve_sqlite(&data, 2, 4096);
    assert_eq!(items.len(), 1);
    assert!(!truncated);
    let (items, truncated) = carve_sqlite(&data, 1, 4096);
    assert_eq!(items.len(), 1);
    assert!(truncated);
}
