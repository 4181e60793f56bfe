use yanmi_restore::config::NtfsConfig;
use yanmi_restore::model::ScanDepth;
use yanmi_restore::ntfs::{begin_mft_scan, has_ntfs_oem, parse_data_runs};

#[test]
fn parse_data_runs_handles_fragmented_and_sparse_segments() {
    let runs = [0x11, 0x03, 0x0A, 0x01, 0x04, 0x11, 0x02, 0x02, 0x00];
    let segments = parse_data_runs(&runs, 4096, 1024).expect("parse runs");
    assert_eq!(segments.len(), 3);
    assert_eq!(segments[0].offset, 1024 + (10 * 4096));
    assert_eq!(segments[0].length, 3 * 4096);
    assert!(!segments[0].sparse);
    assert_eq!(segments[1].offset, 0);
    assert_eq!(segments[1].length, 4 * 4096);
    assert!(segments[1].sparse);
    assert_eq!(segments[2].offset, 1024 + (12 * 4096));
    assert_eq!(segments[2].length, 2 * 4096);
    assert!(!segments[2].sparse);
}

#[test]
fn detects_ntfs_signature() {
    let mut boot = [0_u8; 512];
    boot[3..11].copy_from_slice(b"NTFS    ");
    assert!(has_ntfs_oem(&boot));
    boot[3] = b'X';
    assert!(!has_ntfs_oem(&boot));
}

#[test]
fn malformed_run_lists_are_refused() {
    // A header that promises more bytes than the list holds.
    assert!(parse_data_runs(&[0x21, 0x03], 4096, 0).is_none());
}

#[test]
fn utf16_names_are_decoded_without_nul() {
    let mut bytes = Vec::new();
    for unit in "报告.txt\0".encode_utf16() {
        bytes.extend_from_slice(&unit.to_le_bytes());
    }
    assert_eq!(yanmi_restore::ntfs::decode_utf16le(&bytes, 0, bytes.len()), Some("报告.txt".to_string()));
    assert_eq!(yanmi_restore::ntfs::decode_utf16le(&bytes, 0, 3), None);
    assert_eq!(yanmi_restore::ntfs::name_without_nul(&"\0\0".to_string()), None);
    assert_eq!(yanmi_restore::ntfs::name_without_nul(&"a\0b".to_string()), Some("ab".to_string()));
}

fn put_u16(buf: &mut [u8], offset: usize, value: u16) {
    buf[offset..offset + 2].copy_from_slice(&value.to_le_bytes());
}

fn put_u32(buf: &mut [u8], offset: usize, value: u32) {
    buf[offset..offset + 4].copy_from_slice(&value.to_le_bytes());
}

fn put_u64(buf: &mut [u8], offset: usize, value: u64) {
    buf[offset..offset + 8].copy_from_slice(&value.to_le_bytes());
}

/// A volume with 4 KiB clusters, the MFT at cluster 1 and 1 KiB records:
/// record 0 is a deleted file `a.txt`, record 1 is in use.
fn small_volume() -> Vec<u8> {
    let mut image = vec![0_u8; 8192];
    image[3..11].copy_from_slice(b"NTFS    ");
    put_u16(&mut image, 11, 512);
    image[13] = 8;
    put_u64(&mut image, 40, 16);
    put_u64(&mut image, 48, 1);
    image[64] = 0xF6;

    let rec = 4096;
    image[rec..rec + 4].copy_from_slice(b"FILE");
    put_u16(&mut image, rec + 20, 56);
    put_u16(&mut image, rec + 22, 0);
    let fname = rec + 56;
    put_u32(&mut image, fname, 0x30);
    put_u32(&mut image, fname + 4, 104);
    image[fname + 8] = 0;
    put_u32(&mut image, fname + 16, 76);
    put_u16(&mut image, fname + 20, 24);
    let content = fname + 24;
    put_u64(&mut image, content + 48, 1234);
    image[content + 64] = 5;
    for (k, unit) in "a.txt".encode_utf16().enumerate() {
        put_u16(&mut image, content + 66 + 2 * k, unit);
    }
    let data = fname + 104;
    put_u32(&mut image, data, 0x80);
    put_u32(&mut image, data + 4, 32);
    image[data + 8] = 0;
    put_u32(&mut image, data + 16, 1234);
    put_u32(&mut image, data + 32, 0xFFFF_FFFF);

    let used = rec + 1024;
    image[used..used + 4].copy_from_slice(b"FILE");
    put_u16(&mut image, used + 20, 56);
    put_u16(&mut image, used + 22, 1);
    put_u32(&mut image, used + 56, 0xFFFF_FFFF);
    image
}

#[test]
fn mft_scan_finds_the_deleted_record() {
    let image = small_volume();
    let mut notes = Vec::new();
    let mut scan = begin_mft_scan(&image[0..512], Some(image.len() as u64), ScanDepth::Metadata, &NtfsConfig::default(), 0, "unit", &mut notes)
        .expect("scan starts");
    assert_eq!(scan.mft_offset, 4096);
    assert_eq!(scan.records_to_scan, 4);
    assert_eq!(
        notes,
        vec![
            "NTFS 引导信息 [unit @ 0]：每扇区字节=512，每簇扇区=8，簇大小=4096，总扇区=16，MFT LCN=1，记录大小=1024",
            "NTFS MFT 扫描 [unit @ 0]：从偏移 4096 扫描 4 条记录。",
        ]
    );
    for index in 0..scan.records_to_scan {
        let start = scan.record_offset(index) as usize;
        let record = image[start..start + 1024].to_vec();
        assert!(scan.absorb_record(&record, index, &mut notes));
    }
    let output = scan.finish(&mut notes);
    assert_eq!(output.items.len(), 1);
    let item = &output.items[0];
    assert_eq!(item.id, "ntfs-mft-00000000");
    assert_eq!(item.category, "ntfs-mft-deleted-file");
    assert_eq!(item.suggested_name, "a.txt");
    assert_eq!(item.size_bytes, Some(1234));
    assert!(item.source_segments.is_empty());
    assert_eq!(output.summary.metadata_only, 1);
    assert_eq!(output.summary.recoverable, 0);
    assert_eq!(output.summary.recoverable + output.summary.metadata_only, output.items.len() as u64);
    assert_eq!(notes.last().unwrap(), "NTFS MFT 扫描完成 [unit @ 0]：发现 1 个删除候选项。");
}

#[test]
fn utf16_pairs_and_unpaired_surrogates() {
    let units: [u16; 6] = [0xD83D, 0xDE00, 0xD800, 0x0061, 0xDC00, 0x4E2D];
    let mut bytes = Vec::new();
    for unit in units {
        bytes.extend_from_slice(&unit.to_le_bytes());
    }
    let expected = String::from_utf16_lossy(&units);
    assert_eq!(expected, "😀\u{FFFD}a\u{FFFD}中");
    assert_eq!(yanmi_restore::ntfs::decode_utf16le(&bytes, 0, bytes.len()), Some(expected));
}

#[test]
fn decoded_runs_are_whole_clusters_past_the_volume() {
    // 0x21: 1-byte length (2 clusters), 2-byte offset 0x0100; 0x01: sparse run of 3 clusters;
    // 0x11: 1 cluster at relative offset -1 (0xFF).
    let runs = [0x21, 0x02, 0x00, 0x01, 0x01, 0x03, 0x11, 0x01, 0xFF, 0x00];
    let cluster = 4096_u64;
    let volume = 1_048_576_u64;
    let segments = parse_data_runs(&runs, cluster, volume).expect("runs decode");
    assert_eq!(segments.len(), 3);
    for segment in &segments {
        assert_eq!(segment.length % cluster, 0);
        assert!(segment.length >= cluster);
        if segment.sparse {
            assert_eq!(segment.offset, 0);
        } else {
            assert!(segment.offset >= volume);
        }
    }
    assert_eq!(segments[0].offset, volume + 0x100 * cluster);
    assert_eq!(segments[2].offset, volume + 0xFF * cluster);
}
