use manage::image::{Image, LBA, MBR, MbrPartition, PartitionTable, CHS};

fn decode_chs(chs: &CHS) -> (u32, u8, u8) {
    (chs.sector_cylinder as u32 >> 6, chs.head, chs.sector())
}

#[test]
fn chs_from_values_packs_fields() {
    let chs = CHS::from_values(2, 3, 5);
    assert_eq!(chs.head, 3);
    assert_eq!(chs.sector(), 2);
    assert_eq!(chs.sector_cylinder, 2 | (5 << 6));
}

#[test]
fn chs_from_values_keeps_low_bits() {
    let chs = CHS::from_values(0xff, 1, 1023);
    assert_eq!(chs.sector(), 63);
    assert_eq!(chs.sector_cylinder >> 6, 1023);
    let chs = CHS::from_values(1, 0, 1024);
    assert_eq!(chs.sector_cylinder >> 6, 0);
}

#[test]
fn lba_zero_is_first_sector() {
    let chs = LBA::from_value(0).as_chs();
    assert_eq!(decode_chs(&chs), (0, 0, 1));
}

#[test]
fn lba_one_is_second_sector() {
    let chs = LBA::from_value(1).as_chs();
    assert_eq!(decode_chs(&chs), (0, 0, 2));
}

#[test]
fn lba_track_and_cylinder_boundaries() {
    assert_eq!(decode_chs(&LBA::from_value(62).as_chs()), (0, 0, 63));
    assert_eq!(decode_chs(&LBA::from_value(63).as_chs()), (0, 1, 1));
    assert_eq!(decode_chs(&LBA::from_value(1007).as_chs()), (0, 15, 63));
    assert_eq!(decode_chs(&LBA::from_value(1008).as_chs()), (1, 0, 1));
}

#[test]
fn lba_round_trip_below_limit() {
    for lba in [0u32, 1, 5000, 123456, 1032191] {
        let (c, h, s) = decode_chs(&LBA::from_value(lba).as_chs());
        assert_eq!((c * 16 + h as u32) * 63 + s as u32 - 1, lba);
    }
}

#[test]
fn lba_saturates_past_cylinder_1023() {
    assert_eq!(decode_chs(&LBA::from_value(1032192).as_chs()), (1023, 15, 63));
    assert_eq!(decode_chs(&LBA::from_value(u32::MAX).as_chs()), (1023, 15, 63));
}

#[test]
fn lba_byte_offset_and_difference() {
    assert_eq!(u64::from(LBA::from_value(3)), 1536);
    let offset: u64 = LBA::from_value(1).into();
    assert_eq!(offset, 512);
    assert_eq!((LBA::from_value(10) - LBA::from_value(4)).sector, 6);
}

#[test]
fn partition_head_end_is_sector_one() {
    assert_eq!(PartitionTable::MBR(MBR::empty()).partition_head_end().sector, 1);
    assert_eq!(PartitionTable::Unpartitioned.partition_head_end().sector, 1);
}

#[test]
fn empty_partition_is_zero() {
    let p = MbrPartition::empty();
    assert_eq!(p.status, 0);
    assert_eq!(p.partition_type, 0);
    assert_eq!(p.first_sector.sector, 0);
    assert_eq!(p.sector_size.sector, 0);
    assert_eq!(p.first_sector_chs.sector_cylinder, 0);
}

#[test]
fn new_partition_is_bootable() {
    let p = MbrPartition::new(0x0c, LBA::from_value(2048), LBA::from_value(4096));
    assert_eq!(p.status, 0x80);
    assert_eq!(p.partition_type, 0x0c);
    assert_eq!(p.sector_size.sector, 2048);
    assert_eq!(decode_chs(&p.first_sector_chs), (2, 0, 33));
    assert_eq!(decode_chs(&p.last_sector_chs), (4, 1, 2));
}

#[test]
fn empty_mbr_has_signature_420() {
    let mbr = MBR::empty();
    assert_eq!(mbr.disk_signature, 420);
    for p in mbr.primary_partitions.iter() {
        assert_eq!(p.status, 0);
    }
}

#[test]
fn mbr_merged_into_boot_sector() {
    let mut boot = [0xaau8; 512];
    boot[510] = 0x55;
    boot[511] = 0xaa;
    let mut mbr = MBR::empty();
    mbr.disk_signature = 0x1234_5678;
    mbr.primary_partitions[1] = MbrPartition::new(0x83, LBA::from_value(1), LBA::from_value(0x0102_0304));
    let out = mbr.combine_with_bootsector(boot);
    assert!(out[..0x1b8].iter().all(|b| *b == 0xaa));
    assert_eq!(&out[0x1b8..0x1bc], &[0x78, 0x56, 0x34, 0x12]);
    assert_eq!(&out[0x1bc..0x1be], &[0, 0]);
    assert!(out[0x1be..0x1ce].iter().all(|b| *b == 0));
    let p = &out[0x1ce..0x1de];
    assert_eq!(p[0], 0x80);
    assert_eq!(&p[1..4], &[0, 2, 0]);
    assert_eq!(p[4], 0x83);
    assert_eq!(&p[5..8], &[15, 0xff, 0xff]);
    assert_eq!(&p[8..12], &[1, 0, 0, 0]);
    assert_eq!(&p[12..16], &[0x03, 0x03, 0x02, 0x01]);
    assert!(out[0x1de..0x1fe].iter().all(|b| *b == 0));
    assert_eq!(&out[0x1fe..], &[0x55, 0xaa]);
}

#[test]
fn image_create_has_no_table() {
    let image = Image::create(4194304);
    assert_eq!(image.size, 4194304);
    assert!(matches!(image.partition_table, PartitionTable::Unpartitioned));
}

#[test]
fn partition_table_write_covers_first_sector() {
    let mut image = Image::create(4194304);
    let boot = [7u8; 512];
    let w = image.write_partition_table(PartitionTable::Unpartitioned, boot);
    assert_eq!(w.offset, 0);
    assert_eq!(w.bytes, boot.to_vec());
    let w = image.write_partition_table(PartitionTable::MBR(MBR::empty()), boot);
    assert_eq!(w.offset, 0);
    assert_eq!(&w.bytes[0x1b8..0x1bc], &[164, 1, 0, 0]);
    assert_eq!(w.bytes[0x1b7], 7);
    assert_eq!(w.bytes[0x1fe], 7);
    assert!(matches!(image.partition_table, PartitionTable::MBR(_)));
}

#[test]
fn sodalite_writes_settings_and_code() {
    let image = Image::create(4194304);
    let code = vec![9u8; 32256 * 3 + 1];
    let (settings, body) = image.write_sodalite(&code);
    assert_eq!(settings.offset, 0xd3);
    assert_eq!(settings.bytes, vec![2, 0, 4]);
    assert_eq!(body.offset, 512);
    assert_eq!(body.bytes, code);
    let (settings, _) = image.write_sodalite(&[]);
    assert_eq!(settings.bytes, vec![2, 0, 1]);
}

#[test]
fn image_layout_after_all_writes() {
    let mut image = Image::create(2048);
    let boot = [1u8; 512];
    let mut disk = vec![0u8; 2048];
    let w = image.write_partition_table(PartitionTable::MBR(MBR::empty()), boot);
    disk[w.offset as usize..w.offset as usize + w.bytes.len()].copy_from_slice(&w.bytes);
    let code = [5u8; 100];
    let (s, c) = image.write_sodalite(&code);
    for (k, b) in s.bytes.iter().enumerate() {
        disk[s.offset as usize + k] = *b;
    }
    for (k, b) in c.bytes.iter().enumerate() {
        disk[c.offset as usize + k] = *b;
    }
    assert!(disk[..0xd3].iter().all(|b| *b == 1));
    assert_eq!(&disk[0xd3..0xd6], &[2, 0, 1]);
    assert_eq!(&disk[0x1b8..0x1bc], &[164, 1, 0, 0]);
    assert!(disk[512..612].iter().all(|b| *b == 5));
    assert!(disk[612..].iter().all(|b| *b == 0));
}
