use yanmi_restore::config::{AppConfig, CarverConfig, RecoveryConfig};
use yanmi_restore::model::{Ext4DataSummary, FatDataSummary, FsHint, NtfsDataSummary, ScanDepth, TargetKind};

#[test]
fn summaries_add_field_by_field() {
    let mut a = NtfsDataSummary::new_zero();
    assert!(a.is_zero());
    let mut b = NtfsDataSummary::new_zero();
    b.recoverable = 3;
    b.runlist_failed = 1;
    a.add_assign(&b);
    a.add_assign(&b);
    assert_eq!(a.recoverable, 6);
    assert_eq!(a.runlist_failed, 2);
    assert!(!a.is_zero());
}

#[test]
fn summaries_saturate() {
    let mut a = FatDataSummary::new_zero();
    a.deleted_files = u64::MAX;
    let mut b = FatDataSummary::new_zero();
    b.deleted_files = 5;
    a.add_assign(&b);
    assert_eq!(a.deleted_files, u64::MAX);
    let mut e = Ext4DataSummary::new_zero();
    let zero = Ext4DataSummary::new_zero();
    e.add_assign(&zero);
    assert!(e.is_zero());
}

#[test]
fn defaults() {
    assert_eq!(TargetKind::default(), TargetKind::Auto);
    assert_eq!(ScanDepth::default(), ScanDepth::Metadata);
    assert_eq!(FsHint::default(), FsHint::Auto);
    let cfg = AppConfig::default();
    assert_eq!(cfg.carver.max_items_per_signature, 200);
    assert_eq!(cfg.partition.max_gpt_entries, 4096);
    assert_eq!(cfg.recovery.copy_buffer_size, 65536);
    let c = CarverConfig::default();
    assert_eq!(c.max_scan_bytes, 512 * 1024 * 1024);
    let r = RecoveryConfig { copy_buffer_size: 10, raw_io_alignment_bytes: 0 };
    assert_eq!(r.effective_copy_buffer_size(), 1024);
    assert_eq!(r.effective_raw_io_alignment(), 1);
}

#[test]
fn summaries_default_to_zero() {
    use_defaults();
}

fn use_defaults() {
    let n = yanmi_restore::model::NtfsDataSummary::default();
    assert!(n.is_zero());
    assert_eq!(n, yanmi_restore::model::NtfsDataSummary::new_zero());
    let f = yanmi_restore::model::FatDataSummary::default();
    assert!(f.is_zero());
    assert_eq!(f.volumes_scanned, 0);
    let e = yanmi_restore::model::Ext4DataSummary::default();
    assert!(e.is_zero());
    assert_eq!(e.legacy_pointer_files, 0);
}
