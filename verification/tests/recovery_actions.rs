use yanmi_restore::model::{RecoverableItem, SourceSegment};
use yanmi_restore::recovery::{
    carved_action, logical_action, logical_missing_action, planned_action, preferred_output_name,
    progress_message, recovery_route, segment_action, session_notes, skip_action, RecoveryRoute,
};

fn item(category: &str) -> RecoverableItem {
    RecoverableItem {
        id: "ntfs-vol00-mft-000042".to_string(),
        category: category.to_string(),
        confidence_percent: 90,
        note: "详情".to_string(),
        suggested_name: "报告:终稿?.docx".to_string(),
        source_path: None,
        source_offset: None,
        size_bytes: Some(10),
        source_segments: Vec::new(),
    }
}

#[test]
fn routes_follow_the_candidate() {
    let carved = RecoverableItem { source_offset: Some(5), ..item("signature-carved") };
    assert_eq!(recovery_route(&carved, true), RecoveryRoute::SkipCarved);
    assert_eq!(recovery_route(&carved, false), RecoveryRoute::Carved { offset: 5, size: 10 });
    let segs = RecoverableItem {
        source_segments: vec![SourceSegment { offset: 0, length: 1, sparse: false }],
        ..item("ntfs-mft-deleted-file")
    };
    assert_eq!(recovery_route(&segs, false), RecoveryRoute::Segments);
    assert_eq!(recovery_route(&item("ntfs-mft-deleted-file"), false), RecoveryRoute::NtfsMetadataOnly);
    assert_eq!(recovery_route(&item("ext4-deleted-file"), false), RecoveryRoute::Ext4WithoutSegments);
    let logical = RecoverableItem { source_path: Some("/x".to_string()), ..item("logical-trash-file") };
    assert_eq!(recovery_route(&logical, false), RecoveryRoute::Logical);
    let nothing = RecoverableItem { size_bytes: None, ..item("other") };
    assert_eq!(recovery_route(&nothing, false), RecoveryRoute::NoCoordinates);
}

#[test]
fn actions_carry_their_notes() {
    let it = item("ntfs-mft-deleted-file");
    let skipped = skip_action(&it, RecoveryRoute::NtfsMetadataOnly);
    assert_eq!(skipped.status, "跳过");
    assert_eq!(skipped.note, "该 NTFS 条目仅有元数据，当前版本无法恢复数据段。扫描详情：详情");
    let planned = planned_action(&it);
    assert_eq!(planned.status, "计划");
    assert_eq!(planned.bytes_written, Some(10));
    let ok = carved_action(&it, "/r/a.jpg", 4096, Ok(100), true);
    assert_eq!(ok.note, "已从偏移 4096 提取雕刻数据。该条目来自底层数据段，缺少可用原始时间戳。");
    assert_eq!(ok.bytes_written, Some(100));
    let failed = segment_action(&it, "/r/a", Err("磁盘已满".to_string()), false);
    assert_eq!(failed.status, "失败");
    assert_eq!(failed.note, "分段提取失败：磁盘已满");
    assert_eq!(failed.output_path.as_deref(), Some("/r/a"));
    let copied = logical_action(&it, "/r/b", Ok(7), true, Some("denied".to_string()));
    assert_eq!(copied.note, "已从回收站/垃圾桶路径复制逻辑删除文件，但同步时间戳失败：denied");
    let missing = logical_missing_action(&it, "/gone");
    assert_eq!(missing.note, "未找到源逻辑文件：/gone");
}

#[test]
fn output_names_and_progress() {
    let it = item("x");
    assert_eq!(preferred_output_name(&it, true), "报告_终稿_.docx");
    assert_eq!(preferred_output_name(&it, false), "ntfs-vol00-mft-000042_报告_终稿_.docx");
    assert_eq!(progress_message(0, 3, "a.jpg"), "正在处理 1/3：a.jpg");
}

#[test]
fn session_notes_follow_the_request() {
    let notes = session_notes(2, 1, true, true, false, true, false);
    assert_eq!(
        notes,
        vec![
            "本命令不会修改源介质。",
            "成功恢复数量：2",
            "失败数量：1",
            "当前为预演模式。",
            "输出文件名策略：优先使用原文件名，冲突时自动追加序号。",
            "时间戳策略：不额外同步，使用恢复写入时间。",
            "候选过滤策略：已跳过签名雕刻候选项，仅恢复文件系统候选项。",
        ]
    );
    let empty = session_notes(0, 0, false, false, true, false, true);
    assert_eq!(empty.len(), 6);
    assert_eq!(empty[5], "扫描报告中没有可恢复候选项。");
}

#[test]
fn manifest_name() {
    assert_eq!(yanmi_restore::recovery::manifest_file_name(), "恢复清单.json");
}
