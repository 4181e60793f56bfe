use yanmi_restore::model::{
    FsHint, FsMetrics, NtfsDataSummary, PlanInput, RecoveryAction, RecoverySession, ScanDepth, TargetKind,
};
use yanmi_restore::report::{
    detected_fs_label, fs_hint_label, fs_metrics_lines, plan_lines, report_file_name, sanitize_case_id,
    scan_depth_label, session_lines,
};
use yanmi_restore::scanner::build_plan;

#[test]
fn labels() {
    assert_eq!(scan_depth_label(ScanDepth::Deep), "深度扫描");
    assert_eq!(fs_hint_label(FsHint::Exfat), "exFAT");
    assert_eq!(detected_fs_label("ntfs"), "NTFS");
    assert_eq!(detected_fs_label("fat-family"), "FAT/exFAT");
    assert_eq!(detected_fs_label("mixed-ntfs-fat-family-ext4"), "混合（NTFS + FAT + exFAT + ext4）");
    assert_eq!(detected_fs_label("mixed-zzz"), "混合（未知）");
    assert_eq!(detected_fs_label("mixed-"), "混合（未知）");
    assert_eq!(detected_fs_label("unknown-image"), "未知（unknown-image）");
}

#[test]
fn case_ids_become_file_names() {
    assert_eq!(sanitize_case_id("CASE 1/A"), "CASE_1_A");
    assert_eq!(sanitize_case_id(""), "case");
    assert_eq!(sanitize_case_id("案件-1"), "__-1");
    assert_eq!(report_file_name("CASE-1001"), "CASE-1001-scan-report.json");
}

#[test]
fn plan_is_printed_in_sections() {
    let plan = build_plan(&PlanInput {
        case_id: "CASE-1".to_string(),
        target_kind: TargetKind::UsbDisk,
        depth: ScanDepth::Metadata,
        fs_hint: FsHint::Auto,
        include_carving: false,
    });
    let lines = plan_lines(&plan);
    assert_eq!(lines[0], "=== 恢复方案 ===");
    assert_eq!(lines[1], "案件编号：CASE-1");
    assert_eq!(lines[2], "目标类型：移动硬盘");
    assert_eq!(lines[7], "1. 采集数据源: 以只读方式打开数据源并采集介质基础信息。");
    assert_eq!(lines[9], "3. 导出恢复: 将恢复数据导出到与源盘不同的目标介质。");
    assert_eq!(lines.last().unwrap(), "- SSD 设备上的 TRIM 可能永久擦除已删除数据块。");
}

fn action(status: &str) -> RecoveryAction {
    RecoveryAction {
        item_id: "x".to_string(),
        status: status.to_string(),
        note: String::new(),
        output_path: None,
        bytes_written: None,
    }
}

#[test]
fn session_summary_counts_statuses() {
    let session = RecoverySession {
        generated_at: "t".to_string(),
        case_id: "CASE-1".to_string(),
        destination: "/restore".to_string(),
        dry_run: true,
        action_count: 3,
        actions: vec![action("成功"), action("失败"), action("成功")],
        notes: vec!["本命令不会修改源介质。".to_string()],
        manifest_path: "/restore/恢复清单.json".to_string(),
    };
    let lines = session_lines(&session);
    assert_eq!(lines[2], "运行模式：预演");
    assert_eq!(lines[5], "成功数量：2");
    assert_eq!(lines[6], "失败数量：1");
    assert_eq!(lines[8], "补充说明：");
    assert_eq!(lines[9], "- 本命令不会修改源介质。");
}

#[test]
fn metrics_lines() {
    let mut s = NtfsDataSummary::new_zero();
    s.recoverable = 4;
    let lines = fs_metrics_lines(&FsMetrics { ntfs: Some(s), fat: None, ext4: None });
    assert_eq!(
        lines,
        vec!["NTFS 统计：可恢复=4 | 仅元数据=0 | 压缩=0 | 加密=0 | 压缩且加密=0 | 运行列表失败=0 | 含稀疏段可恢复=0"]
    );
}
