use yanmi_restore::device::{
    classify_unix_path, drive_letters, is_image_like_extension, looks_like_phone_source, path_extension,
    path_file_name, raw_volume_path, windows_volume_root,
};
use yanmi_restore::model::TargetKind;

#[test]
fn detect_image_extension() {
    assert!(is_image_like_extension("disk.img"));
    assert!(is_image_like_extension("evidence.raw"));
    assert!(is_image_like_extension("dump.vhdx"));
    assert!(!is_image_like_extension("note.txt"));
}

#[test]
fn detect_phone_path_tokens() {
    let none: Vec<String> = Vec::new();
    assert!(looks_like_phone_source(
        r"C:\Users\A\AppData\Roaming\Apple Computer\MobileSync\Backup",
        false,
        &none
    ));
    assert!(looks_like_phone_source(r"D:\Phone\DCIM", false, &none));
    assert!(!looks_like_phone_source(r"D:\Evidence\disk.img", false, &none));
}

#[test]
fn phone_detection_by_extension_and_entries() {
    let none: Vec<String> = Vec::new();
    assert!(looks_like_phone_source("/backups/device.AB", false, &none));
    assert!(looks_like_phone_source("/fw/update.ipsw", false, &none));
    assert!(!looks_like_phone_source("/fw/update.ipsw", true, &none));
    let entries = vec!["Music".to_string(), "Apple Computer".to_string()];
    assert!(looks_like_phone_source("/mnt/stick", true, &entries));
    let other = vec!["Music".to_string()];
    assert!(!looks_like_phone_source("/mnt/stick", true, &other));
}

#[test]
fn file_names_and_extensions_follow_path_rules() {
    assert_eq!(path_file_name("/a/b/c.tar.gz").as_deref(), Some("c.tar.gz"));
    assert_eq!(path_file_name("foo.txt/.").as_deref(), Some("foo.txt"));
    assert_eq!(path_file_name("foo.txt//").as_deref(), Some("foo.txt"));
    assert_eq!(path_file_name("/"), None);
    assert_eq!(path_file_name("a/.."), None);
    assert_eq!(path_file_name(""), None);
    assert_eq!(path_extension("/a/b/c.tar.gz").as_deref(), Some("gz"));
    assert_eq!(path_extension("/a/.bashrc"), None);
    assert_eq!(path_extension("/a/noext"), None);
    assert_eq!(path_extension("/a/b.").as_deref(), Some(""));
}

#[test]
fn unix_paths_are_classified_by_mount_point() {
    let (k, h) = classify_unix_path("/media/user/USB").unwrap();
    assert_eq!(k, TargetKind::UsbDisk);
    assert_eq!(h, "命中可移动设备挂载目录规则");
    assert_eq!(classify_unix_path("/mnt/data").unwrap().0, TargetKind::Other);
    assert_eq!(classify_unix_path("/home/user/disk.img").unwrap().0, TargetKind::PcDisk);
    assert!(classify_unix_path("relative/path").is_none());
}

#[test]
fn windows_roots_and_raw_volumes() {
    assert_eq!(windows_volume_root("f:/evidence/x.img").as_deref(), Some("F:\\"));
    assert_eq!(windows_volume_root(r"\\?\C:\Users").as_deref(), Some("C:\\"));
    assert_eq!(windows_volume_root(r"\\server\share\dir").as_deref(), Some(r"\\server\share\"));
    assert_eq!(windows_volume_root(r"\\server"), None);
    assert_eq!(windows_volume_root("relative"), None);
    assert_eq!(raw_volume_path("e:\\").as_deref(), Some(r"\\.\E:"));
    assert_eq!(raw_volume_path(r"\\server\share\"), None);
}

#[test]
fn drive_mask_lists_letters() {
    assert_eq!(drive_letters(0b1101), vec!['A', 'C', 'D']);
    assert_eq!(drive_letters(0), Vec::<char>::new());
    assert_eq!(drive_letters(1 << 25), vec!['Z']);
}

#[test]
fn source_types_of_directories_and_files() {
    assert_eq!(yanmi_restore::device::source_type(true), "mounted-path");
    assert_eq!(yanmi_restore::device::source_type(false), "image-file");
    assert_eq!(yanmi_restore::device::PHONE_ENTRY_SAMPLE, 64);
}
