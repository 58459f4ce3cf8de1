use chop::manifest::parse_manifest;
use chop::output::{Message, SinkState};
use chop::scan::{evaluate, scan_bytes, ManifestFile, ParsedEntry, ScanOutcome};

fn file(bucket: &str, name: &str, body: &str) -> ManifestFile {
    ManifestFile {
        bucket: bucket.to_string(),
        name: name.to_string(),
        path: format!("{}/bucket/{}.json", bucket, name),
        bytes: body.as_bytes().to_vec(),
    }
}

fn manifest_body(description: &str) -> String {
    format!(
        r#"{{"version":"1.0","description":"{}","homepage":"https://example.org","license":"MIT"}}"#,
        description
    )
}

fn main_bucket() -> Vec<ManifestFile> {
    vec![
        file("main", "git", &manifest_body("distributed vcs")),
        file("main", "curl", &manifest_body("http client")),
    ]
}

fn match_keys(out: &ScanOutcome) -> Vec<(String, String)> {
    let mut keys: Vec<(String, String)> = out
        .matches
        .iter()
        .map(|a| (a.bucket.clone(), a.name.clone()))
        .collect();
    keys.sort();
    keys
}

#[test]
fn scenario_two_files_three_queries() {
    let files = main_bucket();

    let out = scan_bytes(&files, "git");
    assert_eq!(out.matches.len(), 1);
    assert_eq!(out.matches[0].bucket, "main");
    assert_eq!(out.matches[0].name, "git");
    assert_eq!(out.errors.len(), 0);

    let out = scan_bytes(&files, "client");
    assert_eq!(out.matches.len(), 1);
    assert_eq!(out.matches[0].name, "curl");

    let out = scan_bytes(&files, "zzz");
    assert_eq!(out.matches.len(), 0);
    assert_eq!(out.errors.len(), 0);
}

#[test]
fn query_is_lowercased_once() {
    let files = main_bucket();
    let out = scan_bytes(&files, "GIT");
    assert_eq!(out.matches.len(), 1);
    assert_eq!(out.matches[0].name, "git");
}

#[test]
fn single_fault_is_isolated() {
    let mut files = Vec::new();
    for i in 0..9 {
        let name = format!("app{}", i);
        files.push(file("main", &name, &manifest_body("a tool")));
    }
    files.insert(4, file("main", "broken", r#"{"version": oops"#));

    let out = scan_bytes(&files, "app");
    assert_eq!(out.matches.len(), 9);
    assert_eq!(out.errors.len(), 1);
    assert_eq!(out.errors[0].path, "main/bucket/broken.json");

    let mut sink = SinkState::new();
    for a in out.matches {
        sink.handle(Message::Info {
            appname: a.name.clone(),
            bucket_name: a.bucket.clone(),
            details: a,
        });
    }
    for e in out.errors {
        sink.handle(Message::Failure { path: e.path, message: e.message });
    }
    sink.handle(Message::Close);
    assert!(sink.done);
    assert_eq!(sink.matches.len(), 9);
    assert_eq!(sink.errors.len(), 1);
}

#[test]
fn match_set_is_order_independent() {
    let mut files = main_bucket();
    files.push(file("extras", "gittool", &manifest_body("git helper")));
    let forward = scan_bytes(&files, "git");
    files.reverse();
    let backward = scan_bytes(&files, "git");
    assert_eq!(match_keys(&forward), match_keys(&backward));
    assert_eq!(forward.matches.len(), 2);
}

#[test]
fn each_match_reported_once() {
    let files = main_bucket();
    let out = scan_bytes(&files, "t");
    let mut keys = match_keys(&out);
    let before = keys.len();
    keys.dedup();
    assert_eq!(keys.len(), before);
}

#[test]
fn scanning_twice_reports_the_same_outcome() {
    let mut files = main_bucket();
    files.push(file("main", "broken", "not json"));
    let first = scan_bytes(&files, "c");
    let second = scan_bytes(&files, "c");
    assert_eq!(match_keys(&first), match_keys(&second));
    assert_eq!(first.errors.len(), second.errors.len());
}

#[test]
fn evaluate_reports_parse_failure() {
    let entry = ParsedEntry {
        bucket: "main".to_string(),
        name: "bad".to_string(),
        path: "main/bucket/bad.json".to_string(),
        manifest: parse_manifest(b"{"),
    };
    match evaluate(&entry, "anything") {
        Some(Message::Failure { path, message }) => {
            assert_eq!(path, "main/bucket/bad.json");
            assert!(!message.is_empty());
        },
        _ => panic!("expected a failure event"),
    }
}

#[test]
fn evaluate_reports_match_and_non_match() {
    let entry = ParsedEntry {
        bucket: "main".to_string(),
        name: "git".to_string(),
        path: "main/bucket/git.json".to_string(),
        manifest: parse_manifest(manifest_body("distributed vcs").as_bytes()),
    };
    match evaluate(&entry, "vcs") {
        Some(Message::Info { appname, bucket_name, details }) => {
            assert_eq!(appname, "git");
            assert_eq!(bucket_name, "main");
            assert_eq!(details.description, "distributed vcs");
            assert_eq!(details.license, "MIT");
        },
        _ => panic!("expected a match event"),
    }
    assert!(evaluate(&entry, "zzz").is_none());
}

#[test]
fn unicode_query_through_whole_scan() {
    let files = vec![file("main", "café", &manifest_body("coffee shop locator"))];
    let out = scan_bytes(&files, "CAFÉ");
    assert_eq!(out.matches.len(), 1);
    assert_eq!(out.matches[0].name, "café");
}

#[test]
fn sink_is_terminal_after_close() {
    let mut sink = SinkState::new();
    sink.handle(Message::Close);
    assert!(sink.done);
    let m = parse_manifest(manifest_body("d").as_bytes()).unwrap();
    let info = chop::search::AppInfo::from_manifest("a".to_string(), "b".to_string(), &m);
    sink.handle(Message::Info {
        appname: "a".to_string(),
        bucket_name: "b".to_string(),
        details: info,
    });
    sink.handle(Message::Failure { path: "p".to_string(), message: "m".to_string() });
    assert_eq!(sink.matches.len(), 0);
    assert_eq!(sink.errors.len(), 0);
    assert!(sink.done);
}
