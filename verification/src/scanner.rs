//! Scan planning, the scan's closing warnings and the labels of the
//! progress display.
use vstd::prelude::*;
use crate::config::UiConfig;
use crate::model::{
    item_views, CarveResult, DeviceSnapshot, FsScanResult, PlanInput, PlanStage, RecoverableItem, ScanPlan, ScanReport,
    ScanRequest, SourceSegment, TargetKind,
};
use crate::text::{owned, push_note, str_chars, strs, trim, trim_string};

verus! {

/// Readable label of a target kind.
pub open spec fn target_kind_text(kind: TargetKind) -> Seq<char> {
    match kind {
        TargetKind::Auto => "自动判断"@,
        TargetKind::PcDisk => "电脑硬盘"@,
        TargetKind::UsbDisk => "移动硬盘"@,
        TargetKind::Phone => "手机"@,
        TargetKind::Other => "其他设备"@,
    }
}

pub fn target_kind_label(kind: TargetKind) -> (r: &'static str)
    ensures
        r@ == target_kind_text(kind),
{
    match kind {
        TargetKind::Auto => "自动判断",
        TargetKind::PcDisk => "电脑硬盘",
        TargetKind::UsbDisk => "移动硬盘",
        TargetKind::Phone => "手机",
        TargetKind::Other => "其他设备",
    }
}

/// Abstract view of a plan stage.
pub struct StageModel {
    pub id: Seq<char>,
    pub title: Seq<char>,
    pub detail: Seq<char>,
}

impl View for PlanStage {
    type V = StageModel;

    open spec fn view(&self) -> StageModel {
        StageModel { id: self.id@, title: self.title@, detail: self.detail@ }
    }
}

pub open spec fn stage_views(v: Seq<PlanStage>) -> Seq<StageModel> {
    v.map_values(|s: PlanStage| s@)
}

pub open spec fn stage_of(id: Seq<char>, title: Seq<char>, detail: Seq<char>) -> StageModel {
    StageModel { id, title, detail }
}

pub fn stage(id: &str, title: &str, detail: &str) -> (r: PlanStage)
    ensures
        r@ == stage_of(id@, title@, detail@),
{
    PlanStage { id: owned(id), title: owned(title), detail: owned(detail) }
}

/// The stages of a plan: carving only when it is requested.
pub open spec fn plan_stages(include_carving: bool) -> Seq<StageModel> {
    let a = seq![
        stage_of("stage-1"@, "采集数据源"@, "以只读方式打开数据源并采集介质基础信息。"@),
        stage_of("stage-2"@, "元数据扫描"@, "解析文件系统元数据并定位已删除条目。"@),
    ];
    let b = if include_carving {
        a.push(stage_of("stage-3"@, "签名雕刻"@, "在未分配区域中扫描已知文件签名。"@))
    } else {
        a
    };
    b.push(stage_of("stage-4"@, "导出恢复"@, "将恢复数据导出到与源盘不同的目标介质。"@))
}

/// The assumptions of a plan for a target kind.
pub open spec fn plan_assumptions(kind: TargetKind) -> Seq<Seq<char>> {
    let a = seq!["程序不会向源介质写入任何数据。"@, "恢复文件会导出到其他磁盘。"@];
    if kind == TargetKind::Phone {
        a + seq!["手机恢复通常需要逻辑备份导出或物理镜像。"@, "锁定或加密设备可能阻断删除数据恢复。"@]
    } else {
        a.push("SSD 设备上的 TRIM 可能永久擦除已删除数据块。"@)
    }
}

pub open spec fn plan_safety_rules() -> Seq<Seq<char>> {
    seq!["始终以只读方式挂载源介质。"@, "禁止将恢复数据写回源卷。"@, "保留案件清单与操作日志以便追溯。"@]
}

/// Builds the recovery plan for a case.
pub fn build_plan(input: &PlanInput) -> (r: ScanPlan)
    ensures
        r.case_id@ == input.case_id@,
        r.target_kind == input.target_kind,
        r.depth == input.depth,
        r.fs_hint == input.fs_hint,
        stage_views(r.stages@) == plan_stages(input.include_carving),
        strs(r.assumptions@) == plan_assumptions(input.target_kind),
        strs(r.safety_rules@) == plan_safety_rules(),
{
    let mut stages: Vec<PlanStage> = Vec::new();
    stages.push(stage("stage-1", "采集数据源", "以只读方式打开数据源并采集介质基础信息。"));
    stages.push(stage("stage-2", "元数据扫描", "解析文件系统元数据并定位已删除条目。"));
    if input.include_carving {
        stages.push(stage("stage-3", "签名雕刻", "在未分配区域中扫描已知文件签名。"));
    }
    stages.push(stage("stage-4", "导出恢复", "将恢复数据导出到与源盘不同的目标介质。"));
    assert(stage_views(stages@) =~= plan_stages(input.include_carving));

    let mut assumptions: Vec<String> = Vec::new();
    push_note(&mut assumptions, owned("程序不会向源介质写入任何数据。"));
    push_note(&mut assumptions, owned("恢复文件会导出到其他磁盘。"));
    match input.target_kind {
        TargetKind::Phone => {
            push_note(&mut assumptions, owned("手机恢复通常需要逻辑备份导出或物理镜像。"));
            push_note(&mut assumptions, owned("锁定或加密设备可能阻断删除数据恢复。"));
        },
        _ => {
            push_note(&mut assumptions, owned("SSD 设备上的 TRIM 可能永久擦除已删除数据块。"));
        },
    }
    assert(strs(assumptions@) =~= plan_assumptions(input.target_kind));

    let mut safety_rules: Vec<String> = Vec::new();
    push_note(&mut safety_rules, owned("始终以只读方式挂载源介质。"));
    push_note(&mut safety_rules, owned("禁止将恢复数据写回源卷。"));
    push_note(&mut safety_rules, owned("保留案件清单与操作日志以便追溯。"));
    assert(strs(safety_rules@) =~= plan_safety_rules());

    ScanPlan {
        case_id: input.case_id.clone(),
        target_kind: input.target_kind,
        depth: input.depth,
        fs_hint: input.fs_hint,
        stages,
        safety_rules,
        assumptions,
    }
}

/// The warnings closing a scan report.
pub open spec fn warnings_of(
    requested: TargetKind,
    detected: Option<TargetKind>,
    source_type: Seq<char>,
    low_level: bool,
    no_findings: bool,
) -> Seq<Seq<char>> {
    let kind = match detected {
        Some(k) => k,
        None => requested,
    };
    let mounted = source_type == "mounted-path"@;
    let a: Seq<Seq<char>> = if kind == TargetKind::Phone && mounted && !low_level {
        seq!["当前为手机目录模式，通常只能覆盖逻辑文件，难以命中底层删除数据块。"@]
    } else {
        Seq::empty()
    };
    let b = if kind != TargetKind::Phone && mounted && !low_level {
        a.push("当前为目录扫描模式，覆盖范围有限；建议使用原始磁盘镜像以提升恢复覆盖率。"@)
    } else {
        a
    };
    if no_findings {
        b.push("本次未发现可恢复候选项。建议使用原始镜像并启用签名雕刻后重试。"@)
    } else {
        b
    }
}

pub fn build_warnings(request: &ScanRequest, snapshot: &DeviceSnapshot, no_findings: bool) -> (r: Vec<String>)
    ensures
        strs(r@) == warnings_of(
            request.target_kind,
            snapshot.detected_target_kind,
            snapshot.source_type@,
            snapshot.low_level_source_path is Some,
            no_findings,
        ),
{
    let mut warnings: Vec<String> = Vec::new();
    let kind = match snapshot.detected_target_kind {
        Some(k) => k,
        None => request.target_kind,
    };
    let low = snapshot.low_level_source_path.is_some();
    let mounted = snapshot.source_type == owned("mounted-path");
    if kind == TargetKind::Phone && mounted && !low {
        push_note(&mut warnings, owned("当前为手机目录模式，通常只能覆盖逻辑文件，难以命中底层删除数据块。"));
    }
    if kind != TargetKind::Phone && mounted && !low {
        push_note(&mut warnings, owned("当前为目录扫描模式，覆盖范围有限；建议使用原始磁盘镜像以提升恢复覆盖率。"));
    }
    if no_findings {
        push_note(&mut warnings, owned("本次未发现可恢复候选项。建议使用原始镜像并启用签名雕刻后重试。"));
    }
    assert(strs(warnings@) =~= warnings_of(
        request.target_kind,
        snapshot.detected_target_kind,
        snapshot.source_type@,
        snapshot.low_level_source_path is Some,
        no_findings,
    ));
    warnings
}

/// A configured display text, trimmed, or `fallback` when nothing is left.
pub open spec fn text_or(configured: Seq<char>, fallback: Seq<char>) -> Seq<char> {
    if trim(configured).len() == 0 { fallback } else { trim(configured) }
}

/// A configured progress-bar character set, trimmed, or `fallback` when
/// fewer than two characters are left.
pub open spec fn chars_or(configured: Seq<char>, fallback: Seq<char>) -> Seq<char> {
    if trim(configured).len() < 2 { fallback } else { trim(configured) }
}

fn trimmed_or(configured: &str, fallback: &str, min_len: usize) -> (r: String)
    ensures
        r@ == (if trim(configured@).len() < min_len { fallback@ } else { trim(configured@) }),
{
    let t = trim_string(configured);
    let n = str_chars(t.as_str()).len();
    if n < min_len { owned(fallback) } else { t }
}

pub fn scan_progress_template(ui: &UiConfig) -> (r: String)
    ensures
        r@ == text_or(
            ui.scan_progress_template@,
            "{spinner:.green} {prefix:.bold} [{elapsed_precise}] [{bar:32.cyan/blue}] {pos}/{len} {percent:>3}% {msg}"@,
        ),
{
    trimmed_or(
        ui.scan_progress_template.as_str(),
        "{spinner:.green} {prefix:.bold} [{elapsed_precise}] [{bar:32.cyan/blue}] {pos}/{len} {percent:>3}% {msg}",
        1,
    )
}

pub fn recover_progress_template(ui: &UiConfig) -> (r: String)
    ensures
        r@ == text_or(
            ui.recover_progress_template@,
            "{spinner:.green} {prefix:.bold} [{elapsed_precise}] [{bar:32.yellow/blue}] {pos}/{len} {percent:>3}% {msg}"@,
        ),
{
    trimmed_or(
        ui.recover_progress_template.as_str(),
        "{spinner:.green} {prefix:.bold} [{elapsed_precise}] [{bar:32.yellow/blue}] {pos}/{len} {percent:>3}% {msg}",
        1,
    )
}

pub fn scan_progress_chars(ui: &UiConfig) -> (r: String)
    ensures
        r@ == chars_or(ui.progress_chars@, "=>-"@),
{
    trimmed_or(ui.progress_chars.as_str(), "=>-", 2)
}

pub fn recover_progress_chars(ui: &UiConfig) -> (r: String)
    ensures
        r@ == chars_or(ui.progress_chars@, "=>-"@),
{
    trimmed_or(ui.progress_chars.as_str(), "=>-", 2)
}

pub fn scan_progress_prefix(ui: &UiConfig) -> (r: String)
    ensures
        r@ == text_or(ui.scan_progress_prefix@, "扫描"@),
{
    trimmed_or(ui.scan_progress_prefix.as_str(), "扫描", 1)
}

pub fn recover_progress_prefix(ui: &UiConfig) -> (r: String)
    ensures
        r@ == text_or(ui.recover_progress_prefix@, "恢复"@),
{
    trimmed_or(ui.recover_progress_prefix.as_str(), "恢复", 1)
}

/// The trimmed non-empty frames of a list, in order.
pub open spec fn nonempty_trimmed(frames: Seq<Seq<char>>) -> Seq<Seq<char>>
    decreases frames.len(),
{
    if frames.len() == 0 {
        Seq::empty()
    } else {
        let rest = nonempty_trimmed(frames.drop_last());
        if trim(frames.last()).len() == 0 { rest } else { rest.push(trim(frames.last())) }
    }
}

/// The spinner frames: the configured ones, trimmed with empty ones left
/// out, unless fewer than two remain; then `| / - \`.
pub open spec fn spinner_frames_of(frames: Seq<Seq<char>>) -> Seq<Seq<char>> {
    if nonempty_trimmed(frames).len() < 2 {
        seq!["|"@, "/"@, "-"@, "\\"@]
    } else {
        nonempty_trimmed(frames)
    }
}

pub fn spinner_frames(ui: &UiConfig) -> (r: Vec<String>)
    ensures
        strs(r@) == spinner_frames_of(strs(ui.spinner_frames@)),
{
    let mut out: Vec<String> = Vec::new();
    let mut i: usize = 0;
    while i < ui.spinner_frames.len()
        invariant
            i <= ui.spinner_frames@.len(),
            strs(out@) == nonempty_trimmed(strs(ui.spinner_frames@.subrange(0, i as int))),
        decreases ui.spinner_frames.len() - i,
    {
        proof {
            assert(strs(ui.spinner_frames@.subrange(0, i + 1)).drop_last() =~= strs(ui.spinner_frames@.subrange(0, i as int)));
        }
        let t = trim_string(ui.spinner_frames[i].as_str());
        if str_chars(t.as_str()).len() > 0 {
            push_note(&mut out, t);
        }
        i += 1;
    }
    assert(ui.spinner_frames@.subrange(0, ui.spinner_frames@.len() as int) =~= ui.spinner_frames@);
    if out.len() < 2 {
        let mut d: Vec<String> = Vec::new();
        push_note(&mut d, owned("|"));
        push_note(&mut d, owned("/"));
        push_note(&mut d, owned("-"));
        push_note(&mut d, owned("\\"));
        assert(strs(d@) =~= seq!["|"@, "/"@, "-"@, "\\"@]);
        d
    } else {
        out
    }
}

/// A copy of a candidate.
pub fn clone_item(item: &RecoverableItem) -> (r: RecoverableItem)
    ensures
        r@ == item@,
{
    let mut segs: Vec<SourceSegment> = Vec::new();
    let mut i: usize = 0;
    while i < item.source_segments.len()
        invariant
            i <= item.source_segments@.len(),
            segs@ == item.source_segments@.subrange(0, i as int),
        decreases item.source_segments.len() - i,
    {
        segs.push(item.source_segments[i]);
        i += 1;
        assert(segs@ =~= item.source_segments@.subrange(0, i as int));
    }
    assert(item.source_segments@.subrange(0, item.source_segments@.len() as int) =~= item.source_segments@);
    RecoverableItem {
        id: item.id.clone(),
        category: item.category.clone(),
        confidence_percent: item.confidence_percent,
        note: item.note.clone(),
        suggested_name: item.suggested_name.clone(),
        source_path: match &item.source_path {
            Some(p) => Some(p.clone()),
            None => None,
        },
        source_offset: item.source_offset,
        size_bytes: item.size_bytes,
        source_segments: segs,
    }
}

fn append_copies(all: &mut Vec<RecoverableItem>, items: &Vec<RecoverableItem>)
    ensures
        item_views(final(all)@) == item_views(old(all)@) + item_views(items@),
{
    let ghost a0 = item_views(all@);
    let mut i: usize = 0;
    while i < items.len()
        invariant
            i <= items@.len(),
            item_views(all@) == a0 + item_views(items@.subrange(0, i as int)),
        decreases items.len() - i,
    {
        let c = clone_item(&items[i]);
        let ghost before = item_views(all@);
        all.push(c);
        proof {
            assert(item_views(all@) =~= before.push(c@));
            assert(item_views(items@.subrange(0, i + 1)) =~= item_views(items@.subrange(0, i as int)).push(items@[i as int]@));
        }
        i += 1;
        assert(item_views(all@) =~= a0 + item_views(items@.subrange(0, i as int)));
    }
    assert(items@.subrange(0, items@.len() as int) =~= items@);
}

/// How many progress steps a scan has: one more when carving.
pub open spec fn scan_steps_of(include_carving: bool) -> u64 {
    if include_carving { 5 } else { 4 }
}

pub fn scan_steps(include_carving: bool) -> (r: u64)
    ensures
        r == scan_steps_of(include_carving),
{
    if include_carving { 5 } else { 4 }
}

/// The progress message once the file systems are scanned.
pub fn after_fs_message(include_carving: bool) -> (r: &'static str)
    ensures
        r@ == (if include_carving { "执行签名特征扫描"@ } else { "汇总扫描结果"@ }),
{
    if include_carving { "执行签名特征扫描" } else { "汇总扫描结果" }
}

/// The source the scanners read: the raw volume behind a drive root when
/// one was opened, else the requested source.
pub fn effective_source(request: &ScanRequest, snapshot: &DeviceSnapshot) -> (r: String)
    ensures
        r@ == (match snapshot.low_level_source_path {
            Some(p) => p@,
            None => request.source@,
        }),
{
    match &snapshot.low_level_source_path {
        Some(p) => p.clone(),
        None => request.source.clone(),
    }
}

/// Assembles a scan report: the findings are the file-system candidates
/// followed by the carved ones, and the warnings close it.
pub fn scan_report(
    request: &ScanRequest,
    generated_at: String,
    plan: ScanPlan,
    source: String,
    device_snapshot: DeviceSnapshot,
    fs_result: FsScanResult,
    carve_result: CarveResult,
) -> (r: ScanReport)
    ensures
        r.generated_at == generated_at,
        r.source == source,
        item_views(r.findings@) == item_views(fs_result.items@) + item_views(carve_result.items@),
        strs(r.warnings@) == warnings_of(
            request.target_kind,
            device_snapshot.detected_target_kind,
            device_snapshot.source_type@,
            device_snapshot.low_level_source_path is Some,
            fs_result.items@.len() + carve_result.items@.len() == 0,
        ),
        r.fs_result == fs_result,
        r.carve_result == carve_result,
        r.device_snapshot == device_snapshot,
        r.plan == plan,
{
    let mut findings: Vec<RecoverableItem> = Vec::new();
    append_copies(&mut findings, &fs_result.items);
    append_copies(&mut findings, &carve_result.items);
    let warnings = build_warnings(request, &device_snapshot, findings.len() == 0);
    ScanReport { generated_at, plan, source, device_snapshot, fs_result, carve_result, findings, warnings }
}

} // verus!
