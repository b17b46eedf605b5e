use manage::units::DataSize;

fn parsed(s: &str) -> Result<u64, &'static str> {
    DataSize::parse(s).map(|d| d.0)
}

#[test]
fn unit_after_nine_is_read() {
    assert_eq!(parsed("19kB"), Ok(19000));
    assert_eq!(parsed("19KiB"), Ok(19 * 1024));
    assert_eq!(parsed("19kib"), Ok(19 * 128));
    assert_eq!(parsed("19kb"), Ok(19 * 125));
    assert_eq!(parsed("9B"), Ok(9));
    assert_eq!(parsed("9b"), Ok(9));
    assert_eq!(parsed("29MB"), Ok(29_000_000));
    assert_eq!(parsed("9GiB"), Ok(9 * 1024 * 1024 * 1024));
    assert_eq!(parsed("9tb"), Ok(9 * 125_000_000_000));
    assert_eq!(parsed("9TIB"), Ok(9 * 1024 * 1024 * 1024 * 1024));
}

#[test]
fn unit_right_after_other_digits_is_not_a_number() {
    assert_eq!(parsed("512B"), Err("wrong number format"));
    assert_eq!(parsed("1kB"), Err("wrong number format"));
    assert_eq!(parsed(""), Err("wrong number format"));
    assert_eq!(parsed("kB"), Err("wrong number format"));
}

#[test]
fn number_without_unit() {
    assert_eq!(parsed("9"), Err("no unit"));
    assert_eq!(parsed("1239"), Err("no unit"));
}

#[test]
fn unknown_unit() {
    assert_eq!(parsed("19xB"), Err("wrong unit"));
    assert_eq!(parsed("19kiBB"), Err("wrong unit"));
    assert_eq!(parsed("99B"), Err("wrong unit"));
}

#[test]
fn prefixed_numbers_count_as_zero() {
    assert_eq!(parsed("0x19kB"), Ok(0));
    assert_eq!(parsed("0b9B"), Ok(0));
    assert_eq!(parsed("0o9MiB"), Ok(0));
    assert_eq!(parsed("0x10B"), Err("no unit"));
    assert_eq!(parsed("0d19kB"), Ok(19000));
}

#[test]
fn too_large_number() {
    assert_eq!(parsed("88888888888888888888889kB"), Err("wrong number format"));
    assert_eq!(parsed("18446744073709kB"), Ok(18446744073709000));
}

#[test]
fn sector_alignment() {
    assert!(DataSize(1024).full_512_sectors());
    assert!(DataSize(0).full_512_sectors());
    assert!(!DataSize(1000).full_512_sectors());
}
