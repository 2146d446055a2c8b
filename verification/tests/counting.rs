//! The counting mode, and its agreement with full enumeration.

use scandir::count::Count;
use scandir::scandir::Scandir;
use scandir::types::FileKind;
use scandir::types::RawEntry;
use scandir::types::ReturnMode;
use scandir::types::ScanConfig;

fn file(name: &str, size: u64) -> RawEntry {
    RawEntry { name: String::from(name), kind: FileKind::File, size: Some(size), ext: None }
}

fn dir(name: &str) -> RawEntry {
    RawEntry { name: String::from(name), kind: FileKind::Dir, size: None, ext: None }
}

fn link(name: &str) -> RawEntry {
    RawEntry { name: String::from(name), kind: FileKind::Symlink, size: None, ext: None }
}

fn config() -> ScanConfig {
    ScanConfig {
        root: String::new(),
        sorted: true,
        skip_hidden: true,
        max_depth: 0,
        max_file_cnt: 0,
        dir_include: vec![],
        dir_exclude: vec![],
        file_include: vec![],
        file_exclude: vec![String::from("*.tmp")],
        case_sensitive: true,
        return_mode: ReturnMode::Basic,
        store: true,
    }
}

type Tree = Vec<(String, Result<Vec<RawEntry>, String>)>;

fn sample_tree() -> Tree {
    vec![
        (
            String::new(),
            Ok(vec![dir("a"), dir(".cache"), file("top.txt", 10), file("junk.tmp", 1), link("l")]),
        ),
        (String::from("a"), Ok(vec![file("x.txt", 5), file("y.txt", 7), dir("b")])),
        (String::from("a/b"), Ok(vec![file("deep.txt", 2)])),
    ]
}

fn lookup(tree: &Tree, path: &str) -> Result<Vec<RawEntry>, String> {
    for (p, listing) in tree {
        if p == path {
            return listing.clone();
        }
    }
    Ok(Vec::new())
}

fn drive_count(c: &mut Count, tree: &Tree) {
    let mut guard: u32 = 0;
    while c.busy() {
        guard += 1;
        assert!(guard < 100000, "count did not terminate");
        if let Some(job) = c.take_job() {
            let listing = lookup(tree, &job.path);
            c.feed(job, listing);
        }
    }
}

fn drive_scan(sd: &mut Scandir, tree: &Tree) {
    let mut guard: u32 = 0;
    while sd.busy() {
        guard += 1;
        assert!(guard < 100000, "scan did not terminate");
        if let Some(job) = sd.take_job() {
            let listing = lookup(tree, &job.path);
            sd.feed(job, listing);
        }
    }
}

#[test]
fn aggregate_counts_by_kind() {
    let tree = sample_tree();
    let mut c = Count::new(config());
    assert!(c.start());
    drive_count(&mut c, &tree);
    assert!(c.finished());
    let agg = c.statistics();
    assert_eq!(agg.files, 4, "top.txt, x.txt, y.txt, deep.txt");
    assert_eq!(agg.dirs, 2, "a and a/b; .cache is hidden");
    assert_eq!(agg.slinks, 1);
    assert_eq!(agg.others, 0);
    assert_eq!(agg.errors, 0);
    assert_eq!(agg.size, 0, "sizes need the extended toggle");
}

#[test]
fn extended_count_accumulates_sizes() {
    let tree = sample_tree();
    let mut c = Count::new(config()).extended(true);
    assert!(c.start());
    drive_count(&mut c, &tree);
    let agg = c.statistics();
    assert_eq!(agg.size, 24, "10 + 5 + 7 + 2");
}

#[test]
fn counting_matches_full_scan_on_files() {
    // Against the same tree and filters, the counting mode's file count
    // equals the full mode's entry list restricted to files.
    let tree = sample_tree();
    let mut c = Count::new(config());
    assert!(c.start());
    drive_count(&mut c, &tree);
    let mut sd = Scandir::new(config());
    assert!(sd.start());
    drive_scan(&mut sd, &tree);
    let (entries, _) = sd.results(false);
    let files = entries.iter().filter(|e| e.kind == FileKind::File).count() as u64;
    let dirs = entries.iter().filter(|e| e.kind == FileKind::Dir).count() as u64;
    let slinks = entries.iter().filter(|e| e.kind == FileKind::Symlink).count() as u64;
    let agg = c.statistics();
    assert_eq!(agg.files, files);
    assert_eq!(agg.dirs, dirs);
    assert_eq!(agg.slinks, slinks);
}

#[test]
fn count_records_unreadable_paths() {
    let tree: Tree = vec![
        (String::new(), Ok(vec![dir("c"), file("ok.txt", 1)])),
        (String::from("c"), Err(String::from("permission denied"))),
    ];
    let mut c = Count::new(config());
    assert!(c.start());
    drive_count(&mut c, &tree);
    let agg = c.statistics();
    assert_eq!(agg.errors, 1);
    assert_eq!(agg.files, 1);
    let errors = c.collect_errors();
    assert_eq!(errors.len(), 1);
    assert_eq!(errors[0].path, "c");
}

#[test]
fn count_honors_the_file_limit() {
    let mut listing = Vec::new();
    for i in 0..50 {
        listing.push(file(&format!("f{:02}", i), 1));
    }
    let tree: Tree = vec![(String::new(), Ok(listing))];
    let mut cfg = config();
    cfg.max_file_cnt = 7;
    let mut c = Count::new(cfg);
    assert!(c.start());
    drive_count(&mut c, &tree);
    assert!(c.finished());
    assert_eq!(c.statistics().files, 7);
}
