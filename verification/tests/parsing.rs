use ruby_version_scan::parse::{parse_bare_version, parse_tool_versions, parse_tool_versions_line};

#[test]
fn parse_bare_three_components() {
    let v = parse_bare_version("3.1.2", "./x/.ruby-version").unwrap();
    assert_eq!(v.major, "3");
    assert_eq!(v.minor, "1");
    assert_eq!(v.teeny.as_deref(), Some("2"));
    assert_eq!(v.patch, None);
    assert_eq!(v.found_in_file, "./x/.ruby-version");
}

#[test]
fn parse_bare_two_components() {
    let v = parse_bare_version("3.1", "f").unwrap();
    assert_eq!(v.major, "3");
    assert_eq!(v.minor, "1");
    assert_eq!(v.teeny, None);
    assert_eq!(v.patch, None);
}

#[test]
fn parse_bare_with_patch_suffix() {
    let v = parse_bare_version("2.7.6-p219", "f").unwrap();
    assert_eq!(v.major, "2");
    assert_eq!(v.minor, "7");
    assert_eq!(v.teeny.as_deref(), Some("6"));
    assert_eq!(v.patch.as_deref(), Some("219"));
}

#[test]
fn parse_bare_trailing_newline() {
    let v = parse_bare_version("3.1.2\n", "f").unwrap();
    assert_eq!(v.teeny.as_deref(), Some("2"));
}

#[test]
fn parse_bare_multidigit_components() {
    let v = parse_bare_version("10.23.456-p7890", "f").unwrap();
    assert_eq!(v.major, "10");
    assert_eq!(v.minor, "23");
    assert_eq!(v.teeny.as_deref(), Some("456"));
    assert_eq!(v.patch.as_deref(), Some("7890"));
}

#[test]
fn parse_bare_keeps_leading_zeros() {
    let v = parse_bare_version("09.1.2", "f").unwrap();
    assert_eq!(v.major, "09");
}

#[test]
fn parse_bare_malformed_is_no_record() {
    assert!(parse_bare_version("", "f").is_none());
    assert!(parse_bare_version("ruby 3.1.2", "f").is_none());
    assert!(parse_bare_version("3", "f").is_none());
    assert!(parse_bare_version("3.", "f").is_none());
    assert!(parse_bare_version(".1.2", "f").is_none());
    assert!(parse_bare_version("v3.1.2", "f").is_none());
}

#[test]
fn parse_bare_stops_at_non_digit_teeny() {
    let v = parse_bare_version("3.1.x", "f").unwrap();
    assert_eq!(v.major, "3");
    assert_eq!(v.minor, "1");
    assert_eq!(v.teeny, None);
    assert_eq!(v.patch, None);
}

#[test]
fn parse_bare_incomplete_patch_suffix() {
    let v = parse_bare_version("3.1.2-p", "f").unwrap();
    assert_eq!(v.teeny.as_deref(), Some("2"));
    assert_eq!(v.patch, None);
}

#[test]
fn render_round_trip_two_components() {
    let v = parse_bare_version("3.1", "f").unwrap();
    assert_eq!(v.render(), "3.1");
}

#[test]
fn render_round_trip_three_components() {
    let v = parse_bare_version("3.1.2", "f").unwrap();
    assert_eq!(v.render(), "3.1.2");
}

#[test]
fn render_round_trip_with_patch() {
    let v = parse_bare_version("2.7.6-p219", "f").unwrap();
    assert_eq!(v.render(), "2.7.6-p219");
}

#[test]
fn tool_line_with_ruby_token() {
    let v = parse_tool_versions_line("ruby 3.1.2", "t").unwrap();
    assert_eq!(v.major, "3");
    assert_eq!(v.minor, "1");
    assert_eq!(v.teeny.as_deref(), Some("2"));
    assert_eq!(v.found_in_file, "t");
}

#[test]
fn tool_line_other_tool_is_ignored() {
    assert!(parse_tool_versions_line("nodejs 18.0.0", "t").is_none());
    assert!(parse_tool_versions_line("ruby3.1.2", "t").is_none());
    assert!(parse_tool_versions_line(" ruby 3.1.2", "t").is_none());
    assert!(parse_tool_versions_line("", "t").is_none());
}

#[test]
fn tool_versions_skips_other_tools() {
    let v = parse_tool_versions("nodejs 18.0.0\nruby 3.1.2\n", "t").unwrap();
    assert_eq!(v.major, "3");
    assert_eq!(v.minor, "1");
    assert_eq!(v.teeny.as_deref(), Some("2"));
}

#[test]
fn tool_versions_first_ruby_line_wins() {
    let v = parse_tool_versions("ruby 1.2.3\nruby 4.5.6\n", "t").unwrap();
    assert_eq!(v.major, "1");
    assert_eq!(v.minor, "2");
    assert_eq!(v.teeny.as_deref(), Some("3"));
}

#[test]
fn tool_versions_without_ruby_line() {
    assert!(parse_tool_versions("nodejs 18.0.0\npython 3.11.4\n", "t").is_none());
    assert!(parse_tool_versions("", "t").is_none());
}

#[test]
fn tool_versions_with_carriage_returns() {
    let v = parse_tool_versions("nodejs 18.0.0\r\nruby 3.1.2\r\n", "t").unwrap();
    assert_eq!(v.major, "3");
    assert_eq!(v.minor, "1");
    assert_eq!(v.teeny.as_deref(), Some("2"));
}

#[test]
fn tool_versions_with_patch_suffix() {
    let v = parse_tool_versions("ruby 2.7.6-p219", "t").unwrap();
    assert_eq!(v.patch.as_deref(), Some("219"));
}
