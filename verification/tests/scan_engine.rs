//! The full-enumeration engine, driven over synthetic directory trees.

use scandir::scandir::Scandir;
use scandir::types::EngineState;
use scandir::types::ExtMeta;
use scandir::types::FileKind;
use scandir::types::RawEntry;
use scandir::types::ResultItem;
use scandir::types::ReturnMode;
use scandir::types::ScanConfig;

fn file(name: &str, size: u64) -> RawEntry {
    RawEntry { name: String::from(name), kind: FileKind::File, size: Some(size), ext: None }
}

fn dir(name: &str) -> RawEntry {
    RawEntry { name: String::from(name), kind: FileKind::Dir, size: None, ext: None }
}

fn basic_config() -> ScanConfig {
    ScanConfig {
        root: String::new(),
        sorted: true,
        skip_hidden: false,
        max_depth: 0,
        max_file_cnt: 0,
        dir_include: vec![],
        dir_exclude: vec![],
        file_include: vec![],
        file_exclude: vec![],
        case_sensitive: true,
        return_mode: ReturnMode::Basic,
        store: true,
    }
}

type Tree = Vec<(String, Result<Vec<RawEntry>, String>)>;

fn lookup(tree: &Tree, path: &str) -> Result<Vec<RawEntry>, String> {
    for (p, listing) in tree {
        if p == path {
            return listing.clone();
        }
    }
    Ok(Vec::new())
}

/// Runs the scan to completion and returns the directories visited, in
/// order.
fn drive(sd: &mut Scandir, tree: &Tree) -> Vec<String> {
    let mut visited = Vec::new();
    let mut guard: u32 = 0;
    while sd.busy() {
        guard += 1;
        assert!(guard < 100000, "scan did not terminate");
        if let Some(job) = sd.take_job() {
            visited.push(job.path.clone());
            let listing = lookup(tree, &job.path);
            sd.feed(job, listing);
        }
    }
    visited
}

fn entry_paths(sd: &mut Scandir) -> Vec<String> {
    let (entries, _) = sd.results(false);
    entries.into_iter().map(|e| e.path).collect()
}

#[test]
fn sample_tree_with_hidden_and_include() {
    // Root holds `a/`, `a/x.txt`, `a/.hidden`, `b.log`; hidden entries
    // are skipped and only `*.txt` files pass: the directory and the
    // text file remain.
    let tree: Tree = vec![
        (String::new(), Ok(vec![dir("a"), file("b.log", 3)])),
        (String::from("a"), Ok(vec![file("x.txt", 5), file(".hidden", 1)])),
    ];
    let mut cfg = basic_config();
    cfg.skip_hidden = true;
    cfg.file_include = vec![String::from("*.txt")];
    let mut sd = Scandir::new(cfg);
    assert!(sd.start());
    drive(&mut sd, &tree);
    assert!(sd.finished());
    let paths = entry_paths(&mut sd);
    assert_eq!(paths, vec![String::from("a"), String::from("a/x.txt")]);
    assert!(!sd.has_errors());
}

#[test]
fn count_limit_stops_cleanly() {
    // A thousand files under a limit of ten: exactly ten entries, the
    // engine finished, and no error surfaced.
    let mut listing = Vec::new();
    for i in 0..1000 {
        listing.push(file(&format!("f{:04}.dat", i), 1));
    }
    let tree: Tree = vec![(String::new(), Ok(listing))];
    let mut cfg = basic_config();
    cfg.max_file_cnt = 10;
    let mut sd = Scandir::new(cfg);
    assert!(sd.start());
    drive(&mut sd, &tree);
    assert!(sd.finished());
    assert_eq!(sd.entries_cnt(false), 10);
    assert!(!sd.has_errors());
    assert_eq!(sd.errors_cnt(), 0);
}

#[test]
fn unreadable_subdirectory_is_one_error() {
    // A permission-denied subdirectory: the scan completes, the errors
    // hold exactly that path, and everything else is delivered.
    let tree: Tree = vec![
        (String::new(), Ok(vec![dir("c"), file("f.txt", 2)])),
        (String::from("c"), Err(String::from("permission denied"))),
    ];
    let mut sd = Scandir::new(basic_config());
    assert!(sd.start());
    drive(&mut sd, &tree);
    assert!(sd.finished());
    let (entries, errors) = sd.results(false);
    let paths: Vec<String> = entries.iter().map(|e| e.path.clone()).collect();
    assert_eq!(paths, vec![String::from("c"), String::from("f.txt")]);
    assert_eq!(errors.len(), 1);
    assert_eq!(errors[0].path, "c");
    assert_eq!(errors[0].message, "permission denied");
}

#[test]
fn depth_limit_one_lists_children_only() {
    // With the depth limit at one, the root's immediate children are
    // reported and no subdirectory is ever visited.
    let tree: Tree = vec![
        (String::new(), Ok(vec![dir("d"), file("top.txt", 1)])),
        (String::from("d"), Ok(vec![file("below.txt", 1)])),
    ];
    let mut cfg = basic_config();
    cfg.max_depth = 1;
    let mut sd = Scandir::new(cfg);
    assert!(sd.start());
    let visited = drive(&mut sd, &tree);
    assert_eq!(visited, vec![String::new()]);
    let paths = entry_paths(&mut sd);
    assert_eq!(paths, vec![String::from("d"), String::from("top.txt")]);
}

#[test]
fn excluded_directory_is_never_descended() {
    // A directory matching an exclude pattern is pruned: it is neither
    // reported nor visited, so its children cannot appear even though
    // they would match the include pattern.
    let tree: Tree = vec![
        (String::new(), Ok(vec![dir("keep"), dir("skipme")])),
        (String::from("keep"), Ok(vec![file("k.txt", 1)])),
        (String::from("skipme"), Ok(vec![file("s.txt", 1)])),
    ];
    let mut cfg = basic_config();
    cfg.dir_exclude = vec![String::from("skip*")];
    cfg.file_include = vec![String::from("*.txt")];
    let mut sd = Scandir::new(cfg);
    assert!(sd.start());
    let visited = drive(&mut sd, &tree);
    assert_eq!(visited, vec![String::new(), String::from("keep")]);
    let paths = entry_paths(&mut sd);
    assert_eq!(paths, vec![String::from("keep"), String::from("keep/k.txt")]);
}

#[test]
fn stop_right_after_start_finishes_in_one_step() {
    // Cancellation is observed at the very next directory boundary: one
    // take_job call after stop, the engine is finished without having
    // read anything.
    let tree: Tree = vec![(String::new(), Ok(vec![file("never.txt", 1)]))];
    let mut sd = Scandir::new(basic_config());
    assert!(sd.start());
    assert!(sd.stop());
    assert!(sd.busy());
    let job = sd.take_job();
    assert!(job.is_none());
    assert!(sd.finished());
    assert!(sd.join());
    assert_eq!(entry_paths(&mut sd), Vec::<String>::new());
    let _ = tree;
}

#[test]
fn incremental_drains_rebuild_the_full_run() {
    // The union of successive only-new reads, in call order, is exactly
    // what one full read delivers at the end.
    let tree: Tree = vec![
        (String::new(), Ok(vec![dir("a"), dir("b"), file("r.txt", 1)])),
        (String::from("a"), Ok(vec![file("one.txt", 1), file("two.txt", 1)])),
        (String::from("b"), Ok(vec![file("three.txt", 1)])),
    ];
    let mut sd = Scandir::new(basic_config());
    assert!(sd.start());
    let mut union: Vec<String> = Vec::new();
    let mut guard: u32 = 0;
    while sd.busy() {
        guard += 1;
        assert!(guard < 100000);
        if let Some(job) = sd.take_job() {
            let listing = lookup(&tree, &job.path);
            sd.feed(job, listing);
        }
        let (chunk, _) = sd.results(true);
        union.extend(chunk.into_iter().map(|e| e.path));
    }
    let full = entry_paths(&mut sd);
    assert_eq!(union, full);
    // Each directory's children are reported together, in name order,
    // before the first subdirectory is read.
    assert_eq!(
        full,
        vec![
            String::from("a"),
            String::from("b"),
            String::from("r.txt"),
            String::from("a/one.txt"),
            String::from("a/two.txt"),
            String::from("b/three.txt"),
        ]
    );
}

#[test]
fn full_results_are_idempotent() {
    // Two full reads without an intervening scan return the same set.
    let tree: Tree = vec![(String::new(), Ok(vec![file("x.txt", 1), file("y.txt", 2)]))];
    let mut sd = Scandir::new(basic_config());
    assert!(sd.start());
    drive(&mut sd, &tree);
    let first = entry_paths(&mut sd);
    let second = entry_paths(&mut sd);
    assert_eq!(first, second);
    assert_eq!(first, vec![String::from("x.txt"), String::from("y.txt")]);
}

#[test]
fn without_retention_a_drain_evicts() {
    let tree: Tree = vec![(String::new(), Ok(vec![file("x.txt", 1)]))];
    let mut cfg = basic_config();
    cfg.store = false;
    let mut sd = Scandir::new(cfg);
    assert!(sd.start());
    drive(&mut sd, &tree);
    let (first, _) = sd.results(true);
    assert_eq!(first.len(), 1);
    let (second, _) = sd.results(false);
    assert_eq!(second.len(), 0);
}

#[test]
fn unsorted_mode_keeps_filesystem_order() {
    let tree: Tree = vec![(String::new(), Ok(vec![file("b", 1), file("a", 1), file("c", 1)]))];
    let mut cfg = basic_config();
    cfg.sorted = false;
    let mut sd = Scandir::new(cfg);
    assert!(sd.start());
    drive(&mut sd, &tree);
    assert_eq!(
        entry_paths(&mut sd),
        vec![String::from("b"), String::from("a"), String::from("c")]
    );
}

#[test]
fn sorted_mode_orders_each_listing() {
    let tree: Tree = vec![(String::new(), Ok(vec![file("b", 1), file("a", 1), file("c", 1)]))];
    let mut sd = Scandir::new(basic_config());
    assert!(sd.start());
    drive(&mut sd, &tree);
    assert_eq!(
        entry_paths(&mut sd),
        vec![String::from("a"), String::from("b"), String::from("c")]
    );
}

#[test]
fn extended_mode_keeps_metadata_basic_drops_it() {
    let meta = ExtMeta { atime_ms: 1, mtime_ms: 2, ctime_ms: 3, mode: 4, uid: 5, gid: 6, ino: 7 };
    let raw = RawEntry {
        name: String::from("m.bin"),
        kind: FileKind::File,
        size: Some(9),
        ext: Some(meta),
    };
    let tree: Tree = vec![(String::new(), Ok(vec![raw]))];
    let mut cfg = basic_config();
    cfg.return_mode = ReturnMode::Extended;
    let mut sd = Scandir::new(cfg);
    assert!(sd.start());
    drive(&mut sd, &tree);
    let (entries, _) = sd.results(false);
    assert_eq!(entries[0].ext, Some(meta));
    assert_eq!(entries[0].size, Some(9));

    let mut sd2 = Scandir::new(basic_config());
    assert!(sd2.start());
    drive(&mut sd2, &tree);
    let (entries2, _) = sd2.results(false);
    assert_eq!(entries2[0].ext, None);
}

#[test]
fn as_dict_keys_entries_and_errors_by_path() {
    let tree: Tree = vec![
        (String::new(), Ok(vec![dir("c"), file("f.txt", 2)])),
        (String::from("c"), Err(String::from("denied"))),
    ];
    let mut sd = Scandir::new(basic_config());
    assert!(sd.start());
    drive(&mut sd, &tree);
    let pairs = sd.as_dict(false);
    assert_eq!(pairs.len(), 3);
    assert_eq!(pairs[0].0, "c");
    assert!(matches!(pairs[0].1, ResultItem::Entry(_)));
    assert_eq!(pairs[1].0, "f.txt");
    match &pairs[2].1 {
        ResultItem::Error(e) => {
            assert_eq!(pairs[2].0, "c");
            assert_eq!(e.message, "denied");
        }
        ResultItem::Entry(_) => panic!("expected the error pair last"),
    }
}

#[test]
fn lifecycle_misuse_is_reported() {
    let mut sd = Scandir::new(basic_config());
    assert!(!sd.stop(), "stop before start must fail");
    assert!(!sd.join(), "join before any start must fail");
    assert!(sd.start());
    assert!(!sd.start(), "start while running must fail");
    assert!(!sd.clear(), "clear while running must fail");
    assert!(sd.stop());
    assert!(sd.take_job().is_none());
    assert!(sd.finished());
    assert!(sd.join());
    assert!(sd.clear());
    assert!(!sd.finished());
    assert!(!sd.busy());
    assert_eq!(sd.state, EngineState::Idle);
}

#[test]
fn clear_resets_results_and_duration() {
    let tree: Tree = vec![(String::new(), Ok(vec![file("x.txt", 1)]))];
    let mut sd = Scandir::new(basic_config());
    assert!(sd.start());
    drive(&mut sd, &tree);
    assert_eq!(sd.entries_cnt(false), 1);
    assert!(sd.clear());
    assert_eq!(sd.entries_cnt(false), 0);
    assert_eq!(sd.duration(), 0);
    assert!(sd.start());
    drive(&mut sd, &tree);
    assert_eq!(sd.entries_cnt(false), 1);
}

#[test]
fn counts_and_flags_mirror_reads() {
    let tree: Tree = vec![
        (String::new(), Ok(vec![file("x.txt", 1), file("y.txt", 1)])),
    ];
    let mut sd = Scandir::new(basic_config());
    assert!(sd.start());
    drive(&mut sd, &tree);
    assert!(sd.has_results(false));
    assert!(sd.has_entries(false));
    assert_eq!(sd.results_cnt(false), 2);
    assert_eq!(sd.entries_cnt(false), 2);
    let (entries, _) = sd.results(true);
    assert_eq!(entries.len(), 2);
    assert!(!sd.has_entries(true), "an only-new read consumes");
    assert!(sd.has_entries(false), "retention keeps the history");
}
