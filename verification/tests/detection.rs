use ruby_version_scan::detect::{build_version_mismatches, compare_two_versions, detect_version_mismatches};
use ruby_version_scan::version::{RubyVersion, VersionLevel};

fn record(major: &str, minor: &str, teeny: Option<&str>, patch: Option<&str>, file: &str) -> RubyVersion {
    RubyVersion {
        major: major.to_string(),
        minor: minor.to_string(),
        teeny: teeny.map(|s| s.to_string()),
        patch: patch.map(|s| s.to_string()),
        found_in_file: file.to_string(),
    }
}

#[test]
fn equal_components_yield_no_mismatch() {
    let a = record("3", "1", Some("2"), None, "a");
    let b = record("3", "1", Some("2"), None, "b");
    assert!(compare_two_versions(&a, &b).is_none());
}

#[test]
fn major_difference_reported_first() {
    let a = record("2", "0", Some("9"), None, "a");
    let b = record("3", "1", Some("2"), None, "b");
    let m = compare_two_versions(&a, &b).unwrap();
    assert_eq!(m.level, VersionLevel::Major);
    assert_eq!(m.versions.len(), 2);
    assert_eq!(m.versions[0].found_in_file, "a");
    assert_eq!(m.versions[1].found_in_file, "b");
}

#[test]
fn minor_difference_reported() {
    let a = record("3", "1", Some("2"), None, "a");
    let b = record("3", "2", Some("0"), None, "b");
    let m = compare_two_versions(&a, &b).unwrap();
    assert_eq!(m.level, VersionLevel::Minor);
}

#[test]
fn teeny_difference_reported() {
    let a = record("3", "1", Some("2"), None, "a");
    let b = record("3", "1", Some("3"), None, "b");
    let m = compare_two_versions(&a, &b).unwrap();
    assert_eq!(m.level, VersionLevel::Teeny);
}

#[test]
fn patch_difference_reported() {
    let a = record("2", "7", Some("6"), Some("219"), "a");
    let b = record("2", "7", Some("6"), Some("220"), "b");
    let m = compare_two_versions(&a, &b).unwrap();
    assert_eq!(m.level, VersionLevel::Patch);
}

#[test]
fn absent_patch_against_present_patch_is_a_difference() {
    let a = record("2", "7", Some("6"), Some("219"), "a");
    let b = record("2", "7", Some("6"), None, "b");
    let m = compare_two_versions(&a, &b).unwrap();
    assert_eq!(m.level, VersionLevel::Patch);
}

#[test]
fn absent_teeny_against_present_teeny_is_a_difference() {
    let a = record("3", "1", None, None, "a");
    let b = record("3", "1", Some("0"), None, "b");
    let m = compare_two_versions(&a, &b).unwrap();
    assert_eq!(m.level, VersionLevel::Teeny);
}

#[test]
fn component_comparison_is_textual_not_numeric() {
    let a = record("3", "1", Some("9"), None, "a");
    let b = record("3", "1", Some("09"), None, "b");
    let m = compare_two_versions(&a, &b).unwrap();
    assert_eq!(m.level, VersionLevel::Teeny);
}

#[test]
fn no_divergence_yields_empty_list() {
    let versions = vec![
        record("3", "1", Some("2"), None, "a"),
        record("3", "1", Some("2"), None, "b"),
        record("3", "1", Some("2"), None, "c"),
    ];
    assert!(detect_version_mismatches(&versions).is_empty());
}

#[test]
fn all_pairs_are_compared_in_stable_order() {
    let versions = vec![
        record("1", "0", None, None, "a"),
        record("2", "0", None, None, "b"),
        record("3", "0", None, None, "c"),
    ];
    let mismatches = detect_version_mismatches(&versions);
    assert_eq!(mismatches.len(), 3);
    assert_eq!(mismatches[0].versions[0].found_in_file, "a");
    assert_eq!(mismatches[0].versions[1].found_in_file, "b");
    assert_eq!(mismatches[1].versions[0].found_in_file, "a");
    assert_eq!(mismatches[1].versions[1].found_in_file, "c");
    assert_eq!(mismatches[2].versions[0].found_in_file, "b");
    assert_eq!(mismatches[2].versions[1].found_in_file, "c");
    for m in &mismatches {
        assert_eq!(m.level, VersionLevel::Major);
    }
}

#[test]
fn pair_count_stays_under_the_pair_bound() {
    let versions = vec![
        record("1", "0", None, None, "a"),
        record("1", "0", None, None, "b"),
        record("2", "0", None, None, "c"),
        record("2", "1", None, None, "d"),
    ];
    let mismatches = detect_version_mismatches(&versions);
    assert!(mismatches.len() <= 4 * 3 / 2);
    assert_eq!(mismatches.len(), 5);
}

#[test]
fn each_pair_is_classified_independently() {
    let versions = vec![
        record("3", "1", Some("2"), None, "a"),
        record("3", "2", Some("2"), None, "b"),
        record("3", "1", Some("9"), None, "c"),
    ];
    let mismatches = detect_version_mismatches(&versions);
    assert_eq!(mismatches.len(), 3);
    assert_eq!(mismatches[0].level, VersionLevel::Minor);
    assert_eq!(mismatches[1].level, VersionLevel::Teeny);
    assert_eq!(mismatches[2].level, VersionLevel::Minor);
}

#[test]
fn build_consumes_and_matches_detect() {
    let versions = vec![
        record("3", "1", Some("2"), None, "a"),
        record("3", "2", Some("0"), None, "b"),
    ];
    let from_ref = detect_version_mismatches(&versions);
    let from_owned = build_version_mismatches(versions);
    assert_eq!(from_owned.len(), 1);
    assert_eq!(from_owned.len(), from_ref.len());
    assert_eq!(from_owned[0].level, VersionLevel::Minor);
}

#[test]
fn record_equality_includes_the_source_file() {
    let a = record("3", "1", Some("2"), None, "a");
    let same = record("3", "1", Some("2"), None, "a");
    let elsewhere = record("3", "1", Some("2"), None, "b");
    assert!(a == same);
    assert!(a != elsewhere);
}

#[test]
fn record_equality_counts_asymmetric_absence_as_unequal() {
    let with_teeny = record("3", "1", Some("2"), None, "a");
    let without_teeny = record("3", "1", None, None, "a");
    assert!(with_teeny != without_teeny);
    assert!(without_teeny != with_teeny);
}

#[test]
fn level_labels() {
    assert_eq!(VersionLevel::Major.label(), "Major");
    assert_eq!(VersionLevel::Minor.label(), "Minor");
    assert_eq!(VersionLevel::Teeny.label(), "Teeny");
    assert_eq!(VersionLevel::Patch.label(), "Patch");
}

#[test]
fn render_omits_patch_without_teeny() {
    let v = record("3", "1", None, Some("9"), "a");
    assert_eq!(v.render(), "3.1");
}
