use release_watch::version::is_release_version;

#[test]
fn accepts_three_numeric_components() {
    assert!(is_release_version("1.39.0"));
    assert!(is_release_version("1.39.1"));
    assert!(is_release_version("0.0.0"));
    assert!(is_release_version("10.200.3000"));
}

#[test]
fn rejects_pre_release_and_build_suffixes() {
    assert!(!is_release_version("1.39.1-rc.1"));
    assert!(!is_release_version("1.39.1+build"));
    assert!(!is_release_version("v1.39.1"));
}

#[test]
fn rejects_wrong_number_of_components() {
    assert!(!is_release_version("1.39"));
    assert!(!is_release_version("1.2.3.4"));
    assert!(!is_release_version("1"));
}

#[test]
fn rejects_empty_and_malformed_components() {
    assert!(!is_release_version(""));
    assert!(!is_release_version(".1.2"));
    assert!(!is_release_version("1..2"));
    assert!(!is_release_version("1.2."));
    assert!(!is_release_version("a.b.c"));
    assert!(!is_release_version("1.x.3"));
}

#[test]
fn rejects_surrounding_characters_and_non_ascii_digits() {
    assert!(!is_release_version(" 1.2.3"));
    assert!(!is_release_version("1.2.3\n"));
    assert!(!is_release_version("\u{661}.\u{662}.\u{663}"));
}
