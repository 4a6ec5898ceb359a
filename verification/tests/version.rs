use typst_upgrade::version::Version;

#[test]
fn version_parse_reads_three_components() {
    assert_eq!(Version::parse("1.2.3"), Some(Version::new(1, 2, 3)));
    assert_eq!(Version::parse("0.0.0"), Some(Version::new(0, 0, 0)));
    assert_eq!(Version::parse("10.20.30"), Some(Version::new(10, 20, 30)));
    assert_eq!(
        Version::parse("18446744073709551615.18446744073709551615.0"),
        Some(Version::new(u64::MAX, u64::MAX, 0))
    );
}

#[test]
fn version_parse_refuses_what_is_no_version() {
    for text in [
        "", "1", "1.2", "1.2.", ".1.2", "1..2", "1.2.3.4", "1.2.3 ", " 1.2.3", "a.b.c", "1.2.x",
        "1.2.3-alpha", "1.2.3+build", "+1.2.3", "-1.2.3", "1.2.3\n", "１.２.３",
    ] {
        assert_eq!(Version::parse(text), None, "{:?}", text);
    }
}

#[test]
fn version_parse_refuses_leading_zeros_and_large_components() {
    for text in [
        "01.2.3",
        "1.02.3",
        "1.2.03",
        "00.0.0",
        "18446744073709551616.0.0",
        "0.18446744073709551616.0",
        "0.0.99999999999999999999",
    ] {
        assert!(Version::has_shape(text), "{:?}", text);
        assert_eq!(Version::parse(text), None, "{:?}", text);
    }
}

#[test]
fn has_shape_tells_three_runs_of_digits() {
    for text in ["1.2.3", "01.002.0003", "0.0.0", "99999999999999999999.1.1"] {
        assert!(Version::has_shape(text), "{:?}", text);
    }
    for text in ["", "1.2", "1.2.3.4", "1.2.3-rc", "1,2,3", "1.2.3.", "٣.٢.١"] {
        assert!(!Version::has_shape(text), "{:?}", text);
    }
}

#[test]
fn version_to_string_writes_the_components_with_dots() {
    assert_eq!(Version::new(1, 2, 3).to_string(), "1.2.3");
    assert_eq!(Version::new(0, 0, 0).to_string(), "0.0.0");
    assert_eq!(Version::new(10, 200, 3000).to_string(), "10.200.3000");
    assert_eq!(
        Version::new(u64::MAX, 0, 9).to_string(),
        "18446744073709551615.0.9"
    );
}

#[test]
fn version_text_round_trips() {
    for version in [
        Version::new(0, 0, 0),
        Version::new(1, 0, 0),
        Version::new(9, 10, 11),
        Version::new(100, 1000, 10000),
        Version::new(u64::MAX, u64::MAX, u64::MAX),
    ] {
        assert_eq!(Version::parse(&version.to_string()), Some(version));
    }
}

#[test]
fn versions_are_ordered_by_major_then_minor_then_patch() {
    let ordered = [
        Version::new(0, 0, 0),
        Version::new(0, 0, 1),
        Version::new(0, 1, 0),
        Version::new(0, 9, 9),
        Version::new(1, 0, 0),
        Version::new(1, 0, 10),
        Version::new(1, 2, 3),
        Version::new(2, 0, 0),
    ];
    for i in 0..ordered.len() {
        for j in 0..ordered.len() {
            assert_eq!(ordered[i].lt(&ordered[j]), i < j, "{:?} {:?}", ordered[i], ordered[j]);
            assert_eq!(ordered[i] < ordered[j], i < j, "{:?} {:?}", ordered[i], ordered[j]);
        }
    }
}

#[test]
fn compatible_versions_share_the_major_component() {
    let current = Version::new(1, 2, 3);
    assert!(current.is_compatible_with(&Version::new(1, 2, 4)));
    assert!(current.is_compatible_with(&Version::new(1, 9, 0)));
    assert!(current.is_compatible_with(&Version::new(1, 0, 0)));
    assert!(!current.is_compatible_with(&Version::new(2, 0, 0)));
    assert!(!current.is_compatible_with(&Version::new(0, 2, 3)));
}

#[test]
fn compatible_versions_of_major_zero_share_the_minor_component() {
    let current = Version::new(0, 1, 0);
    assert!(current.is_compatible_with(&Version::new(0, 1, 1)));
    assert!(current.is_compatible_with(&Version::new(0, 1, 0)));
    assert!(!current.is_compatible_with(&Version::new(0, 2, 0)));
    assert!(!current.is_compatible_with(&Version::new(1, 1, 0)));
}
