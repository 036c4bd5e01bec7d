use pacmap::package_info::PackageSize;

// Magnitudes are hundredths of the printed unit: 1.0 is 100, 1025.0 is 102500.
#[test]
fn test_package_size_ordering() {
    assert!(PackageSize::Bytes(100) < PackageSize::KiB(100));
    assert!(PackageSize::Bytes(100) < PackageSize::MiB(100));
    assert!(PackageSize::Bytes(102500) > PackageSize::KiB(100));
    assert!(PackageSize::KiB(100) < PackageSize::Bytes(102500));
    assert!(PackageSize::KiB(100) > PackageSize::Bytes(100));
    assert!(PackageSize::KiB(100) < PackageSize::MiB(100));
    assert!(PackageSize::KiB(102500) > PackageSize::MiB(100));
    assert!(PackageSize::MiB(100) < PackageSize::KiB(102500));
    assert!(PackageSize::MiB(100) > PackageSize::Bytes(100));
    assert!(PackageSize::MiB(100) > PackageSize::KiB(100));
}

#[test]
fn size_from_str_whole_number() {
    assert_eq!(PackageSize::from_str("123 B"), Ok(PackageSize::Bytes(12300)));
}

#[test]
fn size_from_str_two_decimals() {
    assert_eq!(PackageSize::from_str("10.00 KiB"), Ok(PackageSize::KiB(1000)));
    assert_eq!(PackageSize::from_str("1.50 MiB"), Ok(PackageSize::MiB(150)));
}

#[test]
fn size_from_str_one_decimal() {
    assert_eq!(PackageSize::from_str("2.5 KiB"), Ok(PackageSize::KiB(250)));
}

#[test]
fn size_from_str_extra_decimals_are_truncated() {
    assert_eq!(PackageSize::from_str("1.239 KiB"), Ok(PackageSize::KiB(123)));
}

#[test]
fn size_from_str_extra_tokens_ignored() {
    assert_eq!(PackageSize::from_str("4.00 MiB trailing words"), Ok(PackageSize::MiB(400)));
}

#[test]
fn size_from_str_rejects_bad_unit() {
    assert_eq!(PackageSize::from_str("10.00 GiB"), Err(()));
    assert_eq!(PackageSize::from_str("10.00"), Err(()));
    assert_eq!(PackageSize::from_str(""), Err(()));
}

#[test]
fn size_from_str_rejects_bad_number() {
    assert_eq!(PackageSize::from_str("abc KiB"), Err(()));
    assert_eq!(PackageSize::from_str(". KiB"), Err(()));
    assert_eq!(PackageSize::from_str("-1 KiB"), Err(()));
}

#[test]
fn size_cross_unit_equality_is_comparable() {
    // 1024.00 Bytes and 1.00 KiB normalize to the same magnitude.
    let a = PackageSize::Bytes(102400);
    let b = PackageSize::KiB(100);
    assert!(!(a < b));
    assert!(!(b < a));
}

#[test]
fn size_default_is_zero_bytes() {
    assert_eq!(PackageSize::default(), PackageSize::Bytes(0));
}

#[test]
fn size_to_text_prints_two_decimals() {
    assert_eq!(PackageSize::KiB(1000).to_text(), "10.00 KiB");
    assert_eq!(PackageSize::Bytes(0).to_text(), "0.00 Bytes");
    assert_eq!(PackageSize::MiB(12345).to_text(), "123.45 MiB");
    assert_eq!(PackageSize::Bytes(7).to_text(), "0.07 Bytes");
}
