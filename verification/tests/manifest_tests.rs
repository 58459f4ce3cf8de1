use chop::manifest::parse_manifest;
use chop::search::AppInfo;

fn parse_ok(text: &str) -> chop::manifest::AppManifest {
    match parse_manifest(text.as_bytes()) {
        Ok(m) => m,
        Err(e) => panic!("expected a parse, got error: {}", e),
    }
}

fn parse_err(text: &str) -> String {
    match parse_manifest(text.as_bytes()) {
        Ok(_) => panic!("expected an error, got a parse"),
        Err(e) => e,
    }
}

#[test]
fn license_plain_string() {
    let m = parse_ok(
        r#"{"version":"1.0","description":"d","homepage":"h","license":"MIT"}"#,
    );
    assert_eq!(m.license.text(), "MIT");
}

#[test]
fn license_object_form() {
    let m = parse_ok(
        r#"{"version":"1.0","description":"d","homepage":"h","license":{"identifier":"MIT"}}"#,
    );
    assert_eq!(m.license.text(), "MIT");
}

#[test]
fn license_both_forms_normalize_alike() {
    let a = parse_ok(
        r#"{"version":"1.0","description":"d","homepage":"h","license":"MIT"}"#,
    );
    let b = parse_ok(
        r#"{"version":"1.0","description":"d","homepage":"h","license":{"identifier":"MIT"}}"#,
    );
    assert_eq!(a.license.text(), b.license.text());
}

#[test]
fn license_object_extra_fields_ignored() {
    let m = parse_ok(
        r#"{"version":"1.0","description":"d","homepage":"h",
            "license":{"identifier":"Apache-2.0","url":"https://example.org"}}"#,
    );
    assert_eq!(m.license.text(), "Apache-2.0");
}

#[test]
fn scenario_gpl_identifier() {
    let m = parse_ok(
        r#"{"version":"3.0","description":"d","homepage":"h","license":{"identifier":"GPL-3.0"}}"#,
    );
    let info = AppInfo::from_manifest("tool".to_string(), "main".to_string(), &m);
    assert_eq!(info.license, "GPL-3.0");
}

#[test]
fn notes_single_string() {
    let m = parse_ok(
        r#"{"version":"1.0","description":"d","homepage":"h","license":"MIT","notes":"x"}"#,
    );
    let info = AppInfo::from_manifest("a".to_string(), "b".to_string(), &m);
    assert_eq!(info.notes, Some("x".to_string()));
}

#[test]
fn notes_list_joined_in_order() {
    let m = parse_ok(
        r#"{"version":"1.0","description":"d","homepage":"h","license":"MIT",
            "notes":["line1","line2"]}"#,
    );
    let info = AppInfo::from_manifest("a".to_string(), "b".to_string(), &m);
    let notes = info.notes.expect("notes should be present");
    assert_eq!(notes, "line1\n         line2");
    let first = notes.find("line1").unwrap();
    let second = notes.find("line2").unwrap();
    assert!(first < second);
}

#[test]
fn notes_absent() {
    let m = parse_ok(
        r#"{"version":"1.0","description":"d","homepage":"h","license":"MIT"}"#,
    );
    let info = AppInfo::from_manifest("a".to_string(), "b".to_string(), &m);
    assert_eq!(info.notes, None);
}

#[test]
fn notes_null_is_absent() {
    let m = parse_ok(
        r#"{"version":"1.0","description":"d","homepage":"h","license":"MIT","notes":null}"#,
    );
    let info = AppInfo::from_manifest("a".to_string(), "b".to_string(), &m);
    assert_eq!(info.notes, None);
}

#[test]
fn fields_copied_through() {
    let m = parse_ok(
        r#"{"version":"2.39.1","description":"distributed vcs","homepage":"https://git-scm.com","license":"GPL-2.0"}"#,
    );
    let info = AppInfo::from_manifest("git".to_string(), "main".to_string(), &m);
    assert_eq!(info.name, "git");
    assert_eq!(info.bucket, "main");
    assert_eq!(info.version, "2.39.1");
    assert_eq!(info.description, "distributed vcs");
    assert_eq!(info.homepage, "https://git-scm.com");
}

#[test]
fn malformed_json_rejected() {
    let e = parse_err(r#"{"version": "1.0", "description": "#);
    assert!(!e.is_empty());
}

#[test]
fn non_object_rejected() {
    parse_err(r#"["not", "an", "object"]"#);
    parse_err(r#""just a string""#);
}

#[test]
fn missing_fields_rejected() {
    let e = parse_err(r#"{"description":"d","homepage":"h","license":"MIT"}"#);
    assert_eq!(e, "manifest holds no version string");
    parse_err(r#"{"version":"1.0","homepage":"h","license":"MIT"}"#);
    parse_err(r#"{"version":"1.0","description":"d","license":"MIT"}"#);
    let e = parse_err(r#"{"version":"1.0","description":"d","homepage":"h"}"#);
    assert_eq!(e, "manifest holds no license");
}

#[test]
fn wrong_field_types_rejected() {
    parse_err(r#"{"version":1,"description":"d","homepage":"h","license":"MIT"}"#);
    parse_err(r#"{"version":"1.0","description":"d","homepage":"h","license":7}"#);
    parse_err(r#"{"version":"1.0","description":"d","homepage":"h","license":{"name":"MIT"}}"#);
    parse_err(
        r#"{"version":"1.0","description":"d","homepage":"h","license":"MIT","notes":["a",3]}"#,
    );
    parse_err(
        r#"{"version":"1.0","description":"d","homepage":"h","license":"MIT","notes":{"a":"b"}}"#,
    );
}

#[test]
fn notes_singleton_list_has_no_separator() {
    let m = parse_ok(
        r#"{"version":"1.0","description":"d","homepage":"h","license":"MIT","notes":["only"]}"#,
    );
    let info = AppInfo::from_manifest("a".to_string(), "b".to_string(), &m);
    assert_eq!(info.notes, Some("only".to_string()));
}

#[test]
fn notes_empty_list_is_empty_string() {
    let m = parse_ok(
        r#"{"version":"1.0","description":"d","homepage":"h","license":"MIT","notes":[]}"#,
    );
    let info = AppInfo::from_manifest("a".to_string(), "b".to_string(), &m);
    assert_eq!(info.notes, Some(String::new()));
}

#[test]
fn duplicate_keys_keep_the_last_value() {
    let m = parse_ok(
        r#"{"version":"1.0","version":"2.0","description":"d","homepage":"h","license":"MIT"}"#,
    );
    assert_eq!(m.version, "2.0");
}

#[test]
fn top_level_extra_fields_ignored() {
    let m = parse_ok(
        r#"{"version":"1.0","description":"d","homepage":"h","license":"MIT",
            "bin":"tool.exe","checkver":{"url":"https://example.org"}}"#,
    );
    assert_eq!(m.version, "1.0");
}
