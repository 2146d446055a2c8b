//! Pattern matching and filtering, exercised through the public surface.

use scandir::filter::PathFilter;
use scandir::glob::glob_match_exec;
use scandir::glob::lex_le_exec;
use scandir::types::ReturnMode;
use scandir::types::ScanConfig;

fn config_with(
    dir_include: Vec<String>,
    dir_exclude: Vec<String>,
    file_include: Vec<String>,
    file_exclude: Vec<String>,
    skip_hidden: bool,
    case_sensitive: bool,
) -> ScanConfig {
    ScanConfig {
        root: String::new(),
        sorted: false,
        skip_hidden,
        max_depth: 0,
        max_file_cnt: 0,
        dir_include,
        dir_exclude,
        file_include,
        file_exclude,
        case_sensitive,
        return_mode: ReturnMode::Basic,
        store: true,
    }
}

#[test]
fn star_matches_any_run() {
    assert!(glob_match_exec(b"*.txt", b"notes.txt"));
    assert!(glob_match_exec(b"*.txt", b".txt"));
    assert!(!glob_match_exec(b"*.txt", b"notes.txt.bak"));
    assert!(glob_match_exec(b"a*b*c", b"axxbyyc"));
    assert!(!glob_match_exec(b"a*b*c", b"axxbyy"));
}

#[test]
fn question_mark_matches_one_byte() {
    assert!(glob_match_exec(b"?.rs", b"a.rs"));
    assert!(!glob_match_exec(b"?.rs", b"ab.rs"));
    assert!(!glob_match_exec(b"?.rs", b".rs"));
}

#[test]
fn character_classes_and_ranges() {
    assert!(glob_match_exec(b"[abc].txt", b"b.txt"));
    assert!(!glob_match_exec(b"[abc].txt", b"d.txt"));
    assert!(glob_match_exec(b"[a-c]1", b"b1"));
    assert!(!glob_match_exec(b"[a-c]1", b"d1"));
    assert!(glob_match_exec(b"[!a-c]1", b"d1"));
    assert!(!glob_match_exec(b"[!a-c]1", b"b1"));
}

#[test]
fn unclosed_bracket_is_literal() {
    assert!(glob_match_exec(b"a[b", b"a[b"));
    assert!(!glob_match_exec(b"a[b", b"ab"));
}

#[test]
fn empty_pattern_matches_only_empty() {
    assert!(glob_match_exec(b"", b""));
    assert!(!glob_match_exec(b"", b"x"));
    assert!(glob_match_exec(b"*", b""));
}

#[test]
fn lexicographic_order_on_names() {
    assert!(lex_le_exec(b"abc", b"abd"));
    assert!(!lex_le_exec(b"abd", b"abc"));
    assert!(lex_le_exec(b"ab", b"abc"));
    assert!(lex_le_exec(b"abc", b"abc"));
}

#[test]
fn hidden_names_are_skipped_when_asked() {
    let f = PathFilter::new(&config_with(vec![], vec![], vec![], vec![], true, true));
    assert!(!f.matches(".hidden", false));
    assert!(!f.matches(".git", true));
    assert!(f.matches("shown", false));
    let keep = PathFilter::new(&config_with(vec![], vec![], vec![], vec![], false, true));
    assert!(keep.matches(".hidden", false));
}

#[test]
fn exclude_wins_over_include() {
    let f = PathFilter::new(&config_with(
        vec![],
        vec![],
        vec![String::from("*.txt")],
        vec![String::from("secret*")],
        false,
        true,
    ));
    assert!(f.matches("notes.txt", false));
    assert!(!f.matches("secret.txt", false));
    assert!(!f.matches("notes.log", false));
}

#[test]
fn dir_and_file_patterns_are_independent() {
    let f = PathFilter::new(&config_with(
        vec![],
        vec![String::from("target")],
        vec![String::from("*.rs")],
        vec![],
        false,
        true,
    ));
    assert!(!f.matches("target", true));
    assert!(f.matches("src", true));
    assert!(f.matches("main.rs", false));
    assert!(!f.matches("target", false));
}

#[test]
fn case_insensitive_folds_ascii() {
    let f = PathFilter::new(&config_with(
        vec![],
        vec![],
        vec![String::from("*.TXT")],
        vec![],
        false,
        false,
    ));
    assert!(f.matches("notes.txt", false));
    assert!(f.matches("NOTES.TXT", false));
    let strict = PathFilter::new(&config_with(
        vec![],
        vec![],
        vec![String::from("*.TXT")],
        vec![],
        false,
        true,
    ));
    assert!(!strict.matches("notes.txt", false));
    assert!(strict.matches("NOTES.TXT", false));
}
