use yanmi_restore::error::RecoveryError;
use yanmi_restore::recovery::{
    align_up_usize, aligned_read, candidate_name, check_alignment, drive_letter_from_device_path,
    is_windows_reserved_name, next_name_attempt, output_name_at, planned_actions, sanitize_name, segment_plan,
    segment_shortfall, split_file_name, validate_destination_path, windows_volume_key, PathView,
};
use yanmi_restore::model::{RecoverableItem, SourceSegment};

fn named_item(id: &str, name: &str, size: Option<u64>) -> RecoverableItem {
    RecoverableItem {
        id: id.to_string(),
        category: "signature-carved".to_string(),
        confidence_percent: 85,
        note: String::new(),
        suggested_name: name.to_string(),
        source_path: None,
        source_offset: Some(0),
        size_bytes: size,
        source_segments: Vec::new(),
    }
}

/// The first name the output search settles on, given the names already taken.
fn first_free_name(item: &RecoverableItem, keep_original_name: bool, taken: &[&str]) -> String {
    let mut counter = 0_u32;
    loop {
        let name = output_name_at(item, keep_original_name, counter);
        match next_name_attempt(counter, taken.contains(&name.as_str())) {
            Some(next) => counter = next,
            None => return name,
        }
    }
}

#[test]
fn align_up_works() {
    assert_eq!(align_up_usize(1024, 512), Some(1024));
    assert_eq!(align_up_usize(1025, 512), Some(1536));
    assert_eq!(align_up_usize(0, 512), Some(0));
}

#[test]
fn align_up_rejects_zero_and_overflow() {
    assert_eq!(align_up_usize(7, 0), None);
    assert_eq!(align_up_usize(usize::MAX, 512), None);
}

#[test]
fn parse_drive_letter_from_device_path() {
    assert_eq!(drive_letter_from_device_path(r"\\.\F:"), Some('f'));
    assert_eq!(drive_letter_from_device_path(r"\\?\g:"), Some('g'));
    assert_eq!(drive_letter_from_device_path(r"F:\"), None);
    assert_eq!(drive_letter_from_device_path(r"C:\data"), None);
}

#[test]
fn sanitize_name_keeps_chinese_and_filters_invalid_chars() {
    assert_eq!(sanitize_name("微信图片_2026:02:21?.jpg"), "微信图片_2026_02_21_.jpg");
    assert_eq!(sanitize_name("  报表 .xlsx "), "报表 .xlsx");
    assert_eq!(sanitize_name("CON"), "_CON");
}

#[test]
fn sanitize_name_edge_cases() {
    assert_eq!(sanitize_name("  ...  "), "item.bin");
    assert_eq!(sanitize_name("a\u{1}b"), "a_b");
    assert_eq!(sanitize_name("lpt1"), "_lpt1");
    assert_eq!(sanitize_name("name. . "), "name");
    assert!(is_windows_reserved_name("com9"));
    assert!(!is_windows_reserved_name("com10"));
}

#[test]
fn build_unique_path_preserves_extension() {
    let item = named_item("carve-jpg-00001", "照片.jpg", Some(10));
    assert_eq!(first_free_name(&item, true, &["照片.jpg"]), "照片_1.jpg");
    assert_eq!(first_free_name(&item, true, &[]), "照片.jpg");
    assert_eq!(first_free_name(&item, true, &["照片.jpg", "照片_1.jpg"]), "照片_2.jpg");
    assert_eq!(first_free_name(&item, false, &[]), "carve-jpg-00001_照片.jpg");
    assert_eq!(candidate_name("照片.jpg", 0), "照片.jpg");
    assert_eq!(candidate_name("照片.jpg", 1), "照片_1.jpg");
    assert_eq!(candidate_name("README", 2), "README_2");
    assert_eq!(candidate_name(".bashrc", 3), ".bashrc_3");
}

#[test]
fn split_file_name_follows_stem_and_extension() {
    assert_eq!(split_file_name("a.tar.gz"), ("a.tar".to_string(), Some("gz".to_string())));
    assert_eq!(split_file_name(".hidden"), (".hidden".to_string(), None));
    assert_eq!(split_file_name(""), ("item".to_string(), None));
    assert_eq!(split_file_name(".."), ("item".to_string(), None));
}

fn view(text: &str, comps: &[&str]) -> PathView {
    PathView {
        text: text.to_string(),
        components: comps.iter().map(|c| c.to_string()).collect(),
        prefix: None,
    }
}

#[test]
fn reject_destination_inside_source() {
    let source = view("/tmp/case/source", &["/", "tmp", "case", "source"]);
    let destination = view("/tmp/case/source/restore", &["/", "tmp", "case", "source", "restore"]);
    let result = validate_destination_path(&source, &destination);
    assert!(result.is_err());
    match result {
        Err(RecoveryError::UnsafeDestination(m)) => {
            assert_eq!(m, "目标路径 /tmp/case/source/restore 位于源路径 /tmp/case/source 内部")
        }
        _ => panic!("expected an unsafe destination"),
    }
}

#[test]
fn destination_checks_parent_equal_and_volume() {
    let source = view("/tmp/case/source", &["/", "tmp", "case", "source"]);
    let parent = view("/tmp/case", &["/", "tmp", "case"]);
    match validate_destination_path(&source, &parent) {
        Err(RecoveryError::UnsafeDestination(m)) => {
            assert_eq!(m, "目标路径 /tmp/case 是源路径 /tmp/case/source 的上级目录")
        }
        _ => panic!("expected a parent of the source to be refused"),
    }
    let image = view("/a/b/img.dd", &["/", "a", "b", "img.dd"]);
    let image_parent = view("/a/b", &["/", "a", "b"]);
    assert!(matches!(
        validate_destination_path(&image, &image_parent),
        Err(RecoveryError::UnsafeDestination(_))
    ));
    let sibling = view("/tmp/case/restore", &["/", "tmp", "case", "restore"]);
    assert!(validate_destination_path(&source, &sibling).is_ok());
    let raw = view(r"\\.\F:", &[r"\\.\F:"]);
    let mut same_volume = view(r"F:\restore", &["F:", r"\", "restore"]);
    same_volume.prefix = Some("F:".to_string());
    match validate_destination_path(&raw, &same_volume) {
        Err(RecoveryError::UnsafeDestination(m)) => {
            assert_eq!(m, r"源路径（\\.\F:）与目标路径（F:\restore）位于同一 Windows 卷")
        }
        _ => panic!("expected the same volume to be refused"),
    }
    assert_eq!(windows_volume_key(r"\\.\F:", None).as_deref(), Some("f:"));
    assert_eq!(windows_volume_key(r"G:\x", Some("G:")).as_deref(), Some("g:"));
    assert_eq!(windows_volume_key("/tmp", None), None);
}

#[test]
fn segment_plans_cut_at_the_requested_size() {
    let segs = vec![
        SourceSegment { offset: 100, length: 10, sparse: false },
        SourceSegment { offset: 0, length: 20, sparse: true },
        SourceSegment { offset: 500, length: 30, sparse: false },
    ];
    let pieces = segment_plan(&segs, Some(25)).unwrap();
    assert_eq!(pieces.len(), 2);
    assert_eq!((pieces[0].offset, pieces[0].length, pieces[0].sparse), (100, 10, false));
    assert_eq!((pieces[1].offset, pieces[1].length, pieces[1].sparse), (0, 15, true));
    let all = segment_plan(&segs, None).unwrap();
    assert_eq!(all.iter().map(|p| p.length).sum::<u64>(), 60);
    let overflow = vec![
        SourceSegment { offset: 0, length: u64::MAX, sparse: true },
        SourceSegment { offset: 0, length: 1, sparse: true },
    ];
    assert_eq!(segment_plan(&overflow, None).unwrap_err(), "分段长度发生溢出");
    assert_eq!(
        segment_shortfall(Some(100), 60).as_deref(),
        Some("请求从分段恢复 100 字节，但仅写入 60 字节")
    );
    assert_eq!(segment_shortfall(Some(60), 60), None);
}

#[test]
fn aligned_copy_supports_unaligned_window() {
    let payload: Vec<u8> = (0..20000).map(|v| (v % 251) as u8).collect();
    let buffer = 65536;
    assert_eq!(check_alignment(512, buffer), Ok(512 + buffer));
    let mut restored = Vec::new();
    let mut current = 333_u64;
    let mut remaining = 4097_u64;
    while remaining > 0 {
        let read = aligned_read(current, remaining, 512, buffer).unwrap();
        assert_eq!(read.start % 512, 0);
        assert_eq!(read.len % 512, 0);
        let window = &payload[read.start as usize..read.start as usize + read.len];
        restored.extend_from_slice(&window[read.skip..read.skip + read.chunk]);
        current += read.chunk as u64;
        remaining -= read.chunk as u64;
    }
    assert_eq!(restored.len(), 4097);
    assert_eq!(&restored[..], &payload[333..(333 + 4097)]);
}

#[test]
fn alignment_must_be_a_power_of_two() {
    assert_eq!(check_alignment(0, 1024).unwrap_err(), "原始卷对齐读取的对齐值不能为 0");
    assert_eq!(check_alignment(384, 1024).unwrap_err(), "原始卷对齐值必须是 2 的幂");
    assert_eq!(check_alignment(4096, 1024), Ok(5120));
}

#[test]
fn reject_destination_on_same_windows_volume() {
    let base = [r"C:", r"\", "Users", "A", "AppData", "Local", "Temp", "recover-vol-test-1"];
    let mut source_parts: Vec<&str> = base.to_vec();
    source_parts.push("source");
    let mut destination_parts: Vec<&str> = base.to_vec();
    destination_parts.push("restore");
    let mut source = view(r"C:\Users\A\AppData\Local\Temp\recover-vol-test-1\source", &source_parts);
    source.prefix = Some("C:".to_string());
    let mut destination = view(r"C:\Users\A\AppData\Local\Temp\recover-vol-test-1\restore", &destination_parts);
    destination.prefix = Some("C:".to_string());

    let result = validate_destination_path(&source, &destination);
    assert!(result.is_err());
}

#[test]
fn numbered_names_never_repeat_the_preferred_one() {
    for preferred in ["", ".", "..", "a", "a.b", ".x", "x.", "报告.tar.gz"] {
        for counter in [1_u32, 2, 10, u32::MAX] {
            let name = candidate_name(preferred, counter);
            assert_ne!(name, preferred);
            assert!(name.chars().count() > preferred.chars().count());
        }
    }
    assert_eq!(candidate_name("..", 1), "item_1");
    assert_eq!(candidate_name("x.", 2), "x_2.");
}

#[test]
fn name_attempts_stop_at_a_free_name() {
    assert_eq!(next_name_attempt(0, false), None);
    assert_eq!(next_name_attempt(0, true), Some(1));
    assert_eq!(next_name_attempt(u32::MAX, true), Some(u32::MAX));
}

#[test]
fn dry_run_plans_every_finding() {
    let findings = vec![named_item("a", "a.jpg", Some(5)), named_item("b", "b.pdf", None)];
    let actions = planned_actions(&findings);
    assert_eq!(actions.len(), 2);
    assert_eq!(actions[0].item_id, "a");
    assert_eq!(actions[0].status, "计划");
    assert_eq!(actions[0].note, "预演模式：不执行实际提取。");
    assert_eq!(actions[0].output_path, None);
    assert_eq!(actions[0].bytes_written, Some(5));
    assert_eq!(actions[1].item_id, "b");
    assert_eq!(actions[1].bytes_written, None);
    assert!(planned_actions(&Vec::new()).is_empty());
}
