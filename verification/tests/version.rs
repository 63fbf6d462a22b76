use pcre::Version;

#[test]
fn version_parse_reads_two_numbers() {
    assert_eq!(Version::parse("8.20"), Some(Version { major: 8, minor: 20 }));
    assert_eq!(Version::parse("10.0"), Some(Version { major: 10, minor: 0 }));
    assert_eq!(Version::parse("008.020"), Some(Version { major: 8, minor: 20 }));
    assert_eq!(Version::parse("+8.+2"), Some(Version { major: 8, minor: 2 }));
}

#[test]
fn version_parse_does_not_read_behind_the_second_dot() {
    assert_eq!(Version::parse("8.20.1"), Some(Version { major: 8, minor: 20 }));
    assert_eq!(Version::parse("8.20.x"), Some(Version { major: 8, minor: 20 }));
}

#[test]
fn version_parse_refuses_what_is_no_version() {
    assert_eq!(Version::parse(""), None);
    assert_eq!(Version::parse("8"), None);
    assert_eq!(Version::parse("8."), None);
    assert_eq!(Version::parse(".20"), None);
    assert_eq!(Version::parse("8.x"), None);
    assert_eq!(Version::parse("a.20"), None);
    assert_eq!(Version::parse("-8.20"), None);
    assert_eq!(Version::parse("+.20"), None);
    assert_eq!(Version::parse("8.20 2011-10-21"), None);
    assert_eq!(Version::parse(" 8.20"), None);
}

#[test]
fn version_parse_refuses_a_number_that_does_not_fit() {
    assert_eq!(Version::parse("340282366920938463463374607431768211456.0"), None);
    let most = format!("{}.{}", usize::MAX, usize::MAX);
    assert_eq!(Version::parse(&most), Some(Version { major: usize::MAX, minor: usize::MAX }));
}

#[test]
fn version_as_text() {
    assert_eq!(Version { major: 8, minor: 20 }.to_str(), "8.20");
    assert_eq!(Version { major: 0, minor: 0 }.to_str(), "0.0");
    assert_eq!(Version { major: 10, minor: 407 }.to_str(), "10.407");
}

#[test]
fn version_text_is_read_back() {
    let v = Version { major: 12, minor: 345 };
    assert_eq!(Version::parse(&v.to_str()), Some(v));
}

#[test]
fn version_order() {
    let old = Version { major: 8, minor: 3 };
    let new = Version { major: 8, minor: 20 };
    let newer = Version { major: 10, minor: 0 };
    assert!(old.lt(&new));
    assert!(!new.lt(&old));
    assert!(new.lt(&newer));
    assert!(!newer.lt(&new));
    assert!(!new.lt(&new));
}

#[test]
fn version_at_the_head_of_the_engine_text() {
    assert_eq!(Version::leading("8.20 2011-10-21"), Some(Version { major: 8, minor: 20 }));
    assert_eq!(Version::leading("8.45"), Some(Version { major: 8, minor: 45 }));
    assert_eq!(Version::leading("10.2-RC1"), Some(Version { major: 10, minor: 2 }));
    assert_eq!(Version::leading("8.20.1"), Some(Version { major: 8, minor: 20 }));
    assert_eq!(Version::leading("8"), None);
    assert_eq!(Version::leading("8."), None);
    assert_eq!(Version::leading("8.x"), None);
    assert_eq!(Version::leading(".20"), None);
    assert_eq!(Version::leading(" 8.20"), None);
    assert_eq!(Version::leading("+8.20"), None);
    assert_eq!(Version::leading(""), None);
    assert_eq!(Version::leading("99999999999999999999999999.0"), None);
}

#[test]
fn supported_versions() {
    assert_eq!(Version::minimum(), Version { major: 8, minor: 20 });
    assert!(Version { major: 8, minor: 20 }.is_supported());
    assert!(Version { major: 8, minor: 45 }.is_supported());
    assert!(Version { major: 10, minor: 0 }.is_supported());
    assert!(!Version { major: 8, minor: 19 }.is_supported());
    assert!(!Version { major: 7, minor: 99 }.is_supported());
}
