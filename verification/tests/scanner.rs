use yanmi_restore::cli::{confirm_prompt, device_lines, is_confirmation, needs_confirmation, RecoverArgs};
use yanmi_restore::config::UiConfig;
use yanmi_restore::model::{DeviceCandidate, DeviceSnapshot, FsHint, PlanInput, ScanDepth, ScanRequest, TargetKind};
use yanmi_restore::scanner::{
    build_plan, build_warnings, scan_progress_chars, scan_progress_prefix, scan_progress_template,
    spinner_frames, target_kind_label,
};

fn plan_input(kind: TargetKind, carving: bool) -> PlanInput {
    PlanInput {
        case_id: "CASE-0001".to_string(),
        target_kind: kind,
        depth: ScanDepth::Deep,
        fs_hint: FsHint::Ntfs,
        include_carving: carving,
    }
}

#[test]
fn plan_stages_follow_carving() {
    let plan = build_plan(&plan_input(TargetKind::PcDisk, true));
    let ids: Vec<&str> = plan.stages.iter().map(|s| s.id.as_str()).collect();
    assert_eq!(ids, vec!["stage-1", "stage-2", "stage-3", "stage-4"]);
    assert_eq!(plan.case_id, "CASE-0001");
    assert_eq!(plan.safety_rules.len(), 3);
    let plan = build_plan(&plan_input(TargetKind::Phone, false));
    let ids: Vec<&str> = plan.stages.iter().map(|s| s.id.as_str()).collect();
    assert_eq!(ids, vec!["stage-1", "stage-2", "stage-4"]);
    assert_eq!(plan.assumptions.len(), 4);
    assert_eq!(plan.assumptions[3], "锁定或加密设备可能阻断删除数据恢复。");
}

fn snapshot(kind: Option<TargetKind>, source_type: &str, low: Option<&str>) -> DeviceSnapshot {
    DeviceSnapshot {
        source: "/src".to_string(),
        source_type: source_type.to_string(),
        size_bytes: 0,
        detected_target_kind: kind,
        device_hint: None,
        low_level_source_path: low.map(|s| s.to_string()),
        notes: Vec::new(),
    }
}

fn request() -> ScanRequest {
    ScanRequest {
        plan: plan_input(TargetKind::Auto, false),
        source: "/src".to_string(),
        output_dir: "out".to_string(),
        target_kind: TargetKind::Auto,
        depth: ScanDepth::Deep,
        fs_hint: FsHint::Auto,
        include_carving: false,
    }
}

#[test]
fn warnings_depend_on_mode() {
    let w = build_warnings(&request(), &snapshot(Some(TargetKind::Phone), "mounted-path", None), true);
    assert_eq!(w.len(), 2);
    assert_eq!(w[0], "当前为手机目录模式，通常只能覆盖逻辑文件，难以命中底层删除数据块。");
    let w = build_warnings(&request(), &snapshot(None, "mounted-path", Some(r"\\.\F:")), false);
    assert!(w.is_empty());
    let w = build_warnings(&request(), &snapshot(Some(TargetKind::UsbDisk), "mounted-path", None), false);
    assert_eq!(w, vec!["当前为目录扫描模式，覆盖范围有限；建议使用原始磁盘镜像以提升恢复覆盖率。"]);
}

#[test]
fn progress_display_falls_back() {
    let mut ui = UiConfig::default();
    assert!(scan_progress_template(&ui).contains("cyan"));
    ui.scan_progress_template = "   ".to_string();
    assert!(scan_progress_template(&ui).starts_with("{spinner:.green}"));
    ui.progress_chars = " x ".to_string();
    assert_eq!(scan_progress_chars(&ui), "=>-");
    ui.scan_progress_prefix = " 扫 ".to_string();
    assert_eq!(scan_progress_prefix(&ui), "扫");
    ui.spinner_frames = vec![" a ".to_string(), "".to_string()];
    assert_eq!(spinner_frames(&ui), vec!["|", "/", "-", "\\"]);
    ui.spinner_frames = vec![" a ".to_string(), "".to_string(), "b".to_string()];
    assert_eq!(spinner_frames(&ui), vec!["a", "b"]);
}

#[test]
fn confirmation_flow() {
    assert!(needs_confirmation(TargetKind::Auto, false));
    assert!(!needs_confirmation(TargetKind::Auto, true));
    assert!(!needs_confirmation(TargetKind::Phone, false));
    assert!(is_confirmation(" YES \n"));
    assert!(is_confirmation("y"));
    assert!(!is_confirmation("no"));
    assert!(!is_confirmation(""));
    assert_eq!(confirm_prompt(None, &None), "自动识别结果：其他设备（无可用识别依据）");
    assert_eq!(target_kind_label(TargetKind::PcDisk), "电脑硬盘");
}

#[test]
fn recover_arguments_make_the_request() {
    let args = RecoverArgs {
        report: "r.json".to_string(),
        destination: "/restore".to_string(),
        execute: false,
        no_keep_original_name: false,
        no_preserve_timestamps: true,
        skip_carved: true,
    };
    let req = args.recovery_request();
    assert!(req.dry_run);
    assert!(req.keep_original_name);
    assert!(!req.preserve_timestamps);
    assert!(req.skip_carved);
}

#[test]
fn device_listing_lines() {
    let none: Vec<DeviceCandidate> = Vec::new();
    assert_eq!(device_lines(&none), vec!["未检测到可用设备。可手动使用 --source 指定路径。"]);
    let devices = vec![DeviceCandidate { path: "/".to_string(), target_kind: TargetKind::PcDisk, note: "系统根卷".to_string() }];
    assert_eq!(
        device_lines(&devices),
        vec!["共检测到 1 个设备：", "1. / | 类型：电脑硬盘 | 说明：系统根卷", "可直接复制以上路径用于 scan --source <路径>。"]
    );
}
