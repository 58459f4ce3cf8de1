use chop::config::ScoopConfig;
use chop::search::{find_sub, matches_query, str_contains_sub};

#[test]
fn matches_on_name() {
    assert!(matches_query("git", "distributed vcs", "git"));
    assert!(matches_query("git-lfs", "large file storage", "git"));
}

#[test]
fn matches_on_description() {
    assert!(matches_query("curl", "http client", "client"));
}

#[test]
fn no_match() {
    assert!(!matches_query("curl", "http client", "zzz"));
}

#[test]
fn match_is_case_insensitive() {
    assert!(matches_query("CMake", "Cross-platform build tool", "cmake"));
    assert!(matches_query("tool", "An HTTP Client", "http client"));
}

#[test]
fn empty_query_matches_everything() {
    assert!(matches_query("anything", "at all", ""));
}

#[test]
fn substring_positions_are_character_based() {
    assert!(str_contains_sub("héllo", "éll"));
    assert!(str_contains_sub("naïve", "ïv"));
    assert!(!str_contains_sub("naïve", "ïx"));
    assert!(str_contains_sub("héllo", ""));
    assert!(!str_contains_sub("ab", "abc"));
}

#[test]
fn multibyte_lowercasing() {
    assert!(matches_query("Über", "tool", "über"));
}

#[test]
fn find_positions_are_character_based() {
    assert_eq!(find_sub("naïve", "ve"), Some(3));
    assert_eq!(find_sub("héllo", "éll"), Some(1));
    assert_eq!(find_sub("abcabc", "bc"), Some(1));
    assert_eq!(find_sub("abc", ""), Some(0));
    assert_eq!(find_sub("abc", "zzz"), None);
}

#[test]
fn buckets_path_is_derived_from_root() {
    let config = ScoopConfig { root_path: "/home/user/scoop".to_string() };
    assert_eq!(config.buckets_path(), "/home/user/scoop/buckets");
}
