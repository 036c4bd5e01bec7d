use pacmap::package_info::{
    interpret_query_output, parse_all, OptionalDep, PackageInfo, PackageSize, ParseError,
};

#[test]
fn parse_simple_record() {
    let text = "Name : foo\nDepends On : bar baz\nRequired By : None\nInstalled Size : 10.00 KiB\n";
    let (name, pi) = PackageInfo::parse(text).unwrap();
    assert_eq!(name, "foo");
    assert_eq!(pi.depends.len(), 2);
    assert_eq!(pi.depends[0].0, "bar");
    assert_eq!(pi.depends[1].0, "baz");
    assert_eq!(pi.required_by.len(), 1);
    assert_eq!(pi.required_by[0].0, "None");
    assert_eq!(pi.size, PackageSize::KiB(1000));
    assert!(pi.size < PackageSize::MiB(100));
    assert!(pi.size > PackageSize::Bytes(100));
    assert!(pi.optional.is_empty());
    assert!(pi.other.is_empty());
}

#[test]
fn parse_keeps_unrecognized_fields() {
    let text = "Name : foo\nVersion : 1.2-3\nDepends On : bar\nRequired By : None\nInstalled Size : 1.00 B\n";
    let (_, pi) = PackageInfo::parse(text).unwrap();
    assert_eq!(pi.other.len(), 1);
    assert_eq!(pi.other[0].0, "Version");
    assert_eq!(pi.other[0].1, "1.2-3");
}

#[test]
fn parse_trims_padded_keys() {
    // pacman pads keys into columns; the key is trimmed, the value kept.
    let text = "Name            : foo\nDepends On      : bar\nRequired By     : None\nInstalled Size  : 5.00 KiB\n";
    let (name, pi) = PackageInfo::parse(text).unwrap();
    assert_eq!(name, "foo");
    assert_eq!(pi.depends[0].0, "bar");
    assert_eq!(pi.size, PackageSize::KiB(500));
}

#[test]
fn parse_collects_optional_deps_continuations() {
    let text = "Name : foo\nOptional Deps : alpha: speeds things up\n  beta: extra output\nDepends On : bar\nRequired By : None\nInstalled Size : 1.00 B\n";
    let (_, pi) = PackageInfo::parse(text).unwrap();
    assert_eq!(pi.optional.len(), 2);
    assert_eq!(pi.optional[0].package_name, "alpha");
    assert_eq!(pi.optional[0].reason, "speeds things up");
    assert_eq!(pi.optional[1].package_name, "beta");
    assert_eq!(pi.optional[1].reason, "extra output");
}

#[test]
fn parse_drops_malformed_continuation_lines() {
    let text = "Name : foo\njust a stray line\nDepends On : bar\nRequired By : None\nInstalled Size : 1.00 B\n";
    let (_, pi) = PackageInfo::parse(text).unwrap();
    assert!(pi.optional.is_empty());
}

#[test]
fn parse_missing_name_fails() {
    let text = "Depends On : bar\nRequired By : None\nInstalled Size : 1.00 B\n";
    assert!(matches!(PackageInfo::parse(text), Err(ParseError::MissingName)));
}

#[test]
fn parse_missing_depends_fails() {
    let text = "Name : foo\nRequired By : None\nInstalled Size : 1.00 B\n";
    assert!(matches!(PackageInfo::parse(text), Err(ParseError::MissingDepends)));
}

#[test]
fn parse_missing_required_by_fails() {
    let text = "Name : foo\nDepends On : bar\nInstalled Size : 1.00 B\n";
    assert!(matches!(PackageInfo::parse(text), Err(ParseError::MissingRequiredBy)));
}

#[test]
fn parse_missing_size_fails() {
    let text = "Name : foo\nDepends On : bar\nRequired By : None\n";
    assert!(matches!(PackageInfo::parse(text), Err(ParseError::BadSize)));
}

#[test]
fn parse_unreadable_size_fails() {
    let text = "Name : foo\nDepends On : bar\nRequired By : None\nInstalled Size : much\n";
    assert!(matches!(PackageInfo::parse(text), Err(ParseError::BadSize)));
}

#[test]
fn parse_bad_optional_dep_value_fails() {
    let text = "Name : foo\nOptional Deps : None\nDepends On : bar\nRequired By : None\nInstalled Size : 1.00 B\n";
    assert!(matches!(PackageInfo::parse(text), Err(ParseError::BadOptionalDep)));
}

#[test]
fn optional_dep_from_str_splits_name_and_reason() {
    let d = OptionalDep::from_str("alpha: for extra colors").unwrap();
    assert_eq!(d.package_name, "alpha");
    assert_eq!(d.reason, "for extra colors");
}

#[test]
fn optional_dep_from_str_needs_separator() {
    assert!(OptionalDep::from_str("no separator here").is_err());
}

#[test]
fn batch_parse_two_records() {
    let text = "Name : foo\nDepends On : bar\nRequired By : None\nInstalled Size : 1.00 KiB\n\nName : baz\nDepends On : foo\nRequired By : None\nInstalled Size : 2.00 KiB\n";
    let records = parse_all(text);
    assert_eq!(records.len(), 2);
    let names: Vec<&str> = records.iter().map(|(n, _)| n.as_str()).collect();
    assert!(names.contains(&"foo"));
    assert!(names.contains(&"baz"));
}

#[test]
fn batch_parse_later_record_overwrites_earlier() {
    let text = "Name : foo\nDepends On : bar\nRequired By : None\nInstalled Size : 1.00 KiB\n\nName : foo\nDepends On : quux\nRequired By : None\nInstalled Size : 3.00 KiB\n";
    let records = parse_all(text);
    assert_eq!(records.len(), 1);
    assert_eq!(records[0].0, "foo");
    assert_eq!(records[0].1.depends[0].0, "quux");
}

#[test]
fn batch_parse_skips_malformed_record() {
    let text = "Name : foo\nDepends On : bar\nRequired By : None\nInstalled Size : 1.00 KiB\n\ngarbage with no fields\n";
    let records = parse_all(text);
    assert_eq!(records.len(), 1);
    assert_eq!(records[0].0, "foo");
}

#[test]
fn query_output_empty_means_absent() {
    assert!(interpret_query_output("").is_none());
}

#[test]
fn query_output_error_marker_means_absent() {
    assert!(interpret_query_output("error: package 'nope' was not found").is_none());
}

#[test]
fn query_output_record_is_parsed() {
    let text = "Name : foo\nDepends On : bar\nRequired By : None\nInstalled Size : 10.00 KiB\n";
    let (name, pi) = interpret_query_output(text).unwrap();
    assert_eq!(name, "foo");
    assert_eq!(pi.depends.len(), 1);
}

#[test]
fn query_output_unparsable_record_is_absent() {
    assert!(interpret_query_output("Nonsense output\n").is_none());
}

#[test]
fn sssv_splits_on_whitespace() {
    let names = pacmap::package_info::sssv(String::from("a b  c"));
    assert_eq!(names.len(), 3);
    assert_eq!(names[0].0, "a");
    assert_eq!(names[1].0, "b");
    assert_eq!(names[2].0, "c");
}

#[test]
fn sssv_empty_gives_no_names() {
    assert!(pacmap::package_info::sssv(String::new()).is_empty());
    assert!(pacmap::package_info::sssv(String::from("   ")).is_empty());
}
