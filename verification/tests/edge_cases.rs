//! Edges of the engine: empty trees, exact limits, equal names, deeper
//! depth limits and richer patterns.

use scandir::scandir::Scandir;
use scandir::types::FileKind;
use scandir::types::RawEntry;
use scandir::types::ReturnMode;
use scandir::types::ScanConfig;

fn file(name: &str, size: u64) -> RawEntry {
    RawEntry { name: String::from(name), kind: FileKind::File, size: Some(size), ext: None }
}

fn dir(name: &str) -> RawEntry {
    RawEntry { name: String::from(name), kind: FileKind::Dir, size: None, ext: None }
}

fn config() -> ScanConfig {
    ScanConfig {
        root: String::new(),
        sorted: true,
        skip_hidden: false,
        max_depth: 0,
        max_file_cnt: 0,
        dir_include: vec![],
        dir_exclude: vec![],
        file_include: vec![],
        file_exclude: vec![],
        case_sensitive: true,
        return_mode: ReturnMode::Basic,
        store: true,
    }
}

type Tree = Vec<(String, Result<Vec<RawEntry>, String>)>;

fn lookup(tree: &Tree, path: &str) -> Result<Vec<RawEntry>, String> {
    for (p, listing) in tree {
        if p == path {
            return listing.clone();
        }
    }
    Ok(Vec::new())
}

fn drive(sd: &mut Scandir, tree: &Tree) -> Vec<String> {
    let mut visited = Vec::new();
    let mut guard: u32 = 0;
    while sd.busy() {
        guard += 1;
        assert!(guard < 100000, "scan did not terminate");
        if let Some(job) = sd.take_job() {
            visited.push(job.path.clone());
            let listing = lookup(tree, &job.path);
            sd.feed(job, listing);
        }
    }
    visited
}

fn entry_paths(sd: &mut Scandir) -> Vec<String> {
    let (entries, _) = sd.results(false);
    entries.into_iter().map(|e| e.path).collect()
}

#[test]
fn empty_root_produces_nothing() {
    let tree: Tree = vec![(String::new(), Ok(vec![]))];
    let mut sd = Scandir::new(config());
    assert_eq!(sd.duration(), 0, "no scan has run yet");
    assert!(sd.start());
    drive(&mut sd, &tree);
    assert!(sd.finished());
    assert!(!sd.has_results(false));
    assert_eq!(sd.results_cnt(false), 0);
}

#[test]
fn limit_reached_exactly_at_the_end() {
    let tree: Tree = vec![(
        String::new(),
        Ok(vec![file("a", 1), file("b", 1), file("c", 1)]),
    )];
    let mut cfg = config();
    cfg.max_file_cnt = 3;
    let mut sd = Scandir::new(cfg);
    assert!(sd.start());
    drive(&mut sd, &tree);
    assert!(sd.finished());
    assert_eq!(sd.entries_cnt(false), 3);
    assert!(!sd.has_errors());
}

#[test]
fn limit_above_tree_size_changes_nothing() {
    let tree: Tree = vec![(String::new(), Ok(vec![file("a", 1), file("b", 1)]))];
    let mut cfg = config();
    cfg.max_file_cnt = 100;
    let mut sd = Scandir::new(cfg);
    assert!(sd.start());
    drive(&mut sd, &tree);
    assert_eq!(sd.entries_cnt(false), 2);
}

#[test]
fn equal_names_keep_arrival_order() {
    // Insertion sort is stable: two children of the same name come out
    // in the order the listing held them.
    let tree: Tree = vec![(
        String::new(),
        Ok(vec![file("z", 1), file("same", 10), file("same", 20)]),
    )];
    let mut sd = Scandir::new(config());
    assert!(sd.start());
    drive(&mut sd, &tree);
    let (entries, _) = sd.results(false);
    assert_eq!(entries.len(), 3);
    assert_eq!(entries[0].path, "same");
    assert_eq!(entries[0].size, Some(10));
    assert_eq!(entries[1].path, "same");
    assert_eq!(entries[1].size, Some(20));
    assert_eq!(entries[2].path, "z");
}

#[test]
fn depth_limit_two_stops_below_the_second_level() {
    let tree: Tree = vec![
        (String::new(), Ok(vec![dir("a")])),
        (String::from("a"), Ok(vec![dir("b"), file("f1", 1)])),
        (String::from("a/b"), Ok(vec![file("f2", 1)])),
    ];
    let mut cfg = config();
    cfg.max_depth = 2;
    let mut sd = Scandir::new(cfg);
    assert!(sd.start());
    let visited = drive(&mut sd, &tree);
    assert_eq!(visited, vec![String::new(), String::from("a")]);
    assert_eq!(
        entry_paths(&mut sd),
        vec![String::from("a"), String::from("a/b"), String::from("a/f1")]
    );
}

#[test]
fn several_include_patterns_are_a_union() {
    let tree: Tree = vec![(
        String::new(),
        Ok(vec![file("a.txt", 1), file("b.md", 1), file("c.rs", 1)]),
    )];
    let mut cfg = config();
    cfg.file_include = vec![String::from("*.txt"), String::from("*.md")];
    let mut sd = Scandir::new(cfg);
    assert!(sd.start());
    drive(&mut sd, &tree);
    assert_eq!(
        entry_paths(&mut sd),
        vec![String::from("a.txt"), String::from("b.md")]
    );
}

#[test]
fn classes_and_question_marks_reach_the_scan() {
    let tree: Tree = vec![(
        String::new(),
        Ok(vec![file("f1.rs", 1), file("f2.rx", 1), file("f3.ry", 1), file("f10.rs", 1)]),
    )];
    let mut cfg = config();
    cfg.file_include = vec![String::from("f?.r[sx]")];
    let mut sd = Scandir::new(cfg);
    assert!(sd.start());
    drive(&mut sd, &tree);
    assert_eq!(
        entry_paths(&mut sd),
        vec![String::from("f1.rs"), String::from("f2.rx")]
    );
}

#[test]
fn restart_after_finish_runs_a_fresh_scan() {
    let tree: Tree = vec![(String::new(), Ok(vec![file("x", 1)]))];
    let mut sd = Scandir::new(config());
    assert!(sd.start());
    drive(&mut sd, &tree);
    assert_eq!(sd.entries_cnt(false), 1);
    assert!(sd.start(), "a finished engine can start again");
    drive(&mut sd, &tree);
    assert_eq!(sd.entries_cnt(false), 1, "the new scan starts from empty");
}
