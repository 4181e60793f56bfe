use yanmi_restore::model::PartitionCandidate;
use yanmi_restore::partition::{decode_utf16_name, gpt_type_name, is_windows_raw_device_path, mbr_partition_type_name};
use yanmi_restore::partition_scan::PartitionScan;

/// Runs a partition scan over an in-memory image, reading what it asks for.
fn discover(image: &[u8]) -> (Vec<PartitionCandidate>, Vec<String>) {
    let mut scan = PartitionScan::new(image.len() as u64, 4096, 128);
    while let Some((offset, len)) = scan.pending_read() {
        let start = offset as usize;
        let data = if start <= image.len() && image.len() - start >= len {
            Ok(image[start..start + len].to_vec())
        } else {
            Err("failed to fill whole buffer".to_string())
        };
        scan.feed(data);
    }
    scan.finish()
}

fn write_u32(buf: &mut [u8], offset: usize, value: u32) {
    buf[offset..offset + 4].copy_from_slice(&value.to_le_bytes());
}

fn write_u64(buf: &mut [u8], offset: usize, value: u64) {
    buf[offset..offset + 8].copy_from_slice(&value.to_le_bytes());
}

#[test]
fn discover_mbr_partition() {
    let mut image = vec![0_u8; 2 * 1024 * 1024];
    image[510] = 0x55;
    image[511] = 0xAA;
    let entry = 446;
    image[entry + 4] = 0x07;
    write_u32(&mut image, entry + 8, 2048);
    write_u32(&mut image, entry + 12, 1000);

    let (partitions, notes) = discover(&image);
    assert_eq!(partitions.len(), 1);
    assert_eq!(partitions[0].offset, 2048 * 512);
    assert!(partitions[0].label.contains("mbr-1"));
    assert_eq!(partitions[0].label, "mbr-1-ntfs-exfat");
    assert_eq!(partitions[0].scheme, "MBR");
    assert_eq!(partitions[0].size, 1000 * 512);
    assert_eq!(notes, vec!["分区扫描：检测到 1 个 MBR 分区候选项。"]);
}

#[test]
fn discover_gpt_partition() {
    let mut image = vec![0_u8; 2 * 1024 * 1024];
    image[510] = 0x55;
    image[511] = 0xAA;
    let mbr_entry = 446;
    image[mbr_entry + 4] = 0xEE;
    write_u32(&mut image, mbr_entry + 8, 1);
    write_u32(&mut image, mbr_entry + 12, 4096);

    let header = 512;
    image[header..header + 8].copy_from_slice(b"EFI PART");
    write_u32(&mut image, header + 12, 92);
    write_u64(&mut image, header + 72, 2);
    write_u32(&mut image, header + 80, 1);
    write_u32(&mut image, header + 84, 128);

    let entry = 1024;
    let basic_guid = [
        0xA2, 0xA0, 0xD0, 0xEB, 0xE5, 0xB9, 0x33, 0x44, 0x87, 0xC0, 0x68, 0xB6, 0xB7, 0x26, 0x99, 0xC7,
    ];
    image[entry..entry + 16].copy_from_slice(&basic_guid);
    write_u64(&mut image, entry + 32, 2048);
    write_u64(&mut image, entry + 40, 4095);
    let name = "Data";
    let utf16: Vec<u16> = name.encode_utf16().collect();
    for (idx, ch) in utf16.iter().enumerate() {
        let pos = entry + 56 + idx * 2;
        image[pos..pos + 2].copy_from_slice(&ch.to_le_bytes());
    }

    let (partitions, notes) = discover(&image);
    assert_eq!(partitions.len(), 1);
    assert_eq!(partitions[0].offset, 2048 * 512);
    assert_eq!(partitions[0].scheme, "GPT");
    assert_eq!(partitions[0].label, "Data");
    assert_eq!(partitions[0].size, 2048 * 512);
    assert_eq!(notes, vec!["分区扫描：检测到 1 个 GPT 分区候选项。"]);
}

#[test]
fn discover_extended_logical_partitions() {
    let mut image = vec![0_u8; 6 * 1024 * 1024];
    image[510] = 0x55;
    image[511] = 0xAA;
    let mbr_entry = 446;
    image[mbr_entry + 4] = 0x0F;
    write_u32(&mut image, mbr_entry + 8, 2048);
    write_u32(&mut image, mbr_entry + 12, 4096);

    let ebr1 = 2048 * 512;
    image[ebr1 + 510] = 0x55;
    image[ebr1 + 511] = 0xAA;
    let ebr1_logical = ebr1 + 446;
    image[ebr1_logical + 4] = 0x07;
    write_u32(&mut image, ebr1_logical + 8, 63);
    write_u32(&mut image, ebr1_logical + 12, 1000);
    let ebr1_next = ebr1 + 462;
    image[ebr1_next + 4] = 0x0F;
    write_u32(&mut image, ebr1_next + 8, 2000);
    write_u32(&mut image, ebr1_next + 12, 2000);

    let ebr2_lba = 4048_u32;
    let ebr2 = (ebr2_lba as usize) * 512;
    image[ebr2 + 510] = 0x55;
    image[ebr2 + 511] = 0xAA;
    let ebr2_logical = ebr2 + 446;
    image[ebr2_logical + 4] = 0x0B;
    write_u32(&mut image, ebr2_logical + 8, 63);
    write_u32(&mut image, ebr2_logical + 12, 500);

    let (partitions, notes) = discover(&image);
    assert_eq!(partitions.len(), 2);
    assert_eq!(partitions[0].offset, 2111 * 512);
    assert!(partitions[0].label.contains("mbr-logical-1"));
    assert_eq!(partitions[1].offset, 4111 * 512);
    assert!(partitions[1].label.contains("mbr-logical-2"));
    assert_eq!(partitions[1].label, "mbr-logical-2-fat32");
    assert_eq!(
        notes,
        vec!["分区扫描：MBR 表项 1 扩展出 2 个逻辑分区。", "分区扫描：检测到 2 个 MBR 分区候选项。"]
    );
}

#[test]
fn small_sources_and_missing_signatures() {
    let (p, notes) = discover(&[0_u8; 100]);
    assert!(p.is_empty());
    assert_eq!(notes, vec!["分区扫描：源文件小于 512 字节。"]);
    let (p, notes) = discover(&vec![0_u8; 4096]);
    assert!(p.is_empty());
    assert_eq!(notes, vec!["分区扫描：在 LBA0 未发现 MBR 签名。"]);
    let (p, notes) = discover(&vec![0_u8; 600]);
    assert!(p.is_empty());
    assert_eq!(
        notes,
        vec!["分区扫描：在 LBA0 未发现 MBR 签名。", "分区扫描：无法读取 LBA1 的 GPT 头：failed to fill whole buffer"]
    );
}

#[test]
fn extended_partition_without_logical_ones() {
    let mut image = vec![0_u8; 1024 * 1024];
    image[510] = 0x55;
    image[511] = 0xAA;
    image[446 + 4] = 0x05;
    write_u32(&mut image, 446 + 8, 8);
    write_u32(&mut image, 446 + 12, 16);
    let (p, notes) = discover(&image);
    assert!(p.is_empty());
    assert_eq!(
        notes,
        vec![
            "分区扫描：MBR 表项 1 的 EBR 1 签名无效。",
            "分区扫描：MBR 表项 1 为扩展分区（类型 0x05），但未解析出逻辑分区。",
        ]
    );
}

#[test]
fn primary_entry_beyond_the_source() {
    let mut image = vec![0_u8; 4096];
    image[510] = 0x55;
    image[511] = 0xAA;
    image[446 + 4] = 0x83;
    write_u32(&mut image, 446 + 8, 100);
    write_u32(&mut image, 446 + 12, 10);
    let (p, notes) = discover(&image);
    assert!(p.is_empty());
    assert_eq!(notes, vec!["分区扫描：MBR 表项 1 的偏移 51200 超出文件大小 4096。"]);
}

#[test]
fn partitions_at_one_offset_are_merged() {
    let mut image = vec![0_u8; 2 * 1024 * 1024];
    image[510] = 0x55;
    image[511] = 0xAA;
    image[446 + 4] = 0x07;
    write_u32(&mut image, 446 + 8, 2048);
    write_u32(&mut image, 446 + 12, 100);
    image[462 + 4] = 0x83;
    write_u32(&mut image, 462 + 8, 2048);
    write_u32(&mut image, 462 + 12, 300);
    image[478 + 4] = 0x0B;
    write_u32(&mut image, 478 + 8, 100);
    write_u32(&mut image, 478 + 12, 10);
    let (p, _) = discover(&image);
    assert_eq!(p.len(), 2);
    assert_eq!(p[0].offset, 100 * 512);
    assert_eq!(p[1].offset, 2048 * 512);
    assert_eq!(p[1].size, 300 * 512);
    assert_eq!(p[1].label, "mbr-1-ntfs-exfat,mbr-2-linux");
    assert_eq!(p[1].scheme, "MBR");
}

#[test]
fn type_names_and_raw_paths() {
    assert_eq!(mbr_partition_type_name(0x0C), "fat32");
    assert_eq!(mbr_partition_type_name(0x99), "unknown");
    assert_eq!(gpt_type_name(&[0_u8; 16]), "unknown");
    assert!(is_windows_raw_device_path(r"\\.\E:"));
    assert!(!is_windows_raw_device_path(r"E:\"));
    let mut name = vec![0_u8; 8];
    name[0] = b' ';
    name[2] = b'A';
    assert_eq!(decode_utf16_name(&name, 0), "A");
}

#[test]
fn scan_reads_are_bounded_by_the_limits() {
    let mut image = vec![0_u8; 2 * 1024 * 1024];
    image[510] = 0x55;
    image[511] = 0xAA;
    image[446 + 4] = 0xEE;
    write_u32(&mut image, 446 + 8, 1);
    write_u32(&mut image, 446 + 12, 4096);
    // An extended partition whose first EBR points back to itself.
    image[462 + 4] = 0x05;
    write_u32(&mut image, 462 + 8, 100);
    write_u32(&mut image, 462 + 12, 200);
    let ebr = 100 * 512;
    image[ebr + 510] = 0x55;
    image[ebr + 511] = 0xAA;
    image[ebr + 446 + 16 + 4] = 0x05;
    write_u32(&mut image, ebr + 446 + 16 + 8, 0);
    write_u32(&mut image, ebr + 446 + 16 + 12, 10);
    // A GPT declaring 128 entries.
    image[512..520].copy_from_slice(b"EFI PART");
    write_u32(&mut image, 512 + 12, 92);
    write_u64(&mut image, 512 + 72, 2);
    write_u32(&mut image, 512 + 80, 128);
    write_u32(&mut image, 512 + 84, 128);

    let mut scan = PartitionScan::new(image.len() as u64, 4, 3);
    let mut reads = 0;
    while let Some((offset, len)) = scan.pending_read() {
        let start = offset as usize;
        scan.feed(Ok(image[start..start + len].to_vec()));
        reads += 1;
    }
    // The MBR, one EBR (the self reference ends the chain), the GPT header and four entries.
    assert_eq!(reads, 7);
    let (_, notes) = scan.finish();
    assert!(notes.contains(&"分区扫描：GPT 分区项已从 128 条截断到 4 条。".to_string()));
}
