//! Value types of the engine: directory entries, traversal errors,
//! configuration, aggregate statistics and the engine's lifecycle state,
//! each with a mathematical model used by the contracts.

use vstd::prelude::*;

verus! {

/// The kind of a filesystem object.
#[derive(Clone, Copy, PartialEq, Eq, Structural, Debug)]
pub enum FileKind {
    File,
    Dir,
    Symlink,
    Other,
}

/// Whether entries carry only the basic fields or the extended metadata.
#[derive(Clone, Copy, PartialEq, Eq, Structural, Debug)]
pub enum ReturnMode {
    Basic,
    Extended,
}

/// Lifecycle state of a scan.
#[derive(Clone, Copy, PartialEq, Eq, Structural, Debug)]
pub enum EngineState {
    Idle,
    Running,
    Stopping,
    Finished,
}

/// Extended, platform-dependent metadata of an entry.
#[derive(Clone, Copy, PartialEq, Eq, Structural, Debug)]
pub struct ExtMeta {
    pub atime_ms: i64,
    pub mtime_ms: i64,
    pub ctime_ms: i64,
    pub mode: u32,
    pub uid: u32,
    pub gid: u32,
    pub ino: u64,
}

/// One filesystem object discovered during a scan.
#[derive(Debug)]
pub struct Entry {
    pub path: String,
    pub kind: FileKind,
    pub size: Option<u64>,
    pub ext: Option<ExtMeta>,
}

/// Mathematical model of an [`Entry`].
pub ghost struct EntryModel {
    pub path: Seq<char>,
    pub kind: FileKind,
    pub size: Option<u64>,
    pub ext: Option<ExtMeta>,
}

impl View for Entry {
    type V = EntryModel;

    open spec fn view(&self) -> EntryModel {
        EntryModel { path: self.path@, kind: self.kind, size: self.size, ext: self.ext }
    }
}

impl Clone for Entry {
    fn clone(&self) -> (r: Self)
        ensures
            r@ == self@,
    {
        Entry { path: self.path.clone(), kind: self.kind, size: self.size, ext: self.ext }
    }
}

/// A path-keyed failure encountered while reading or stat-ing during a
/// traversal.
#[derive(Debug)]
pub struct ScanError {
    pub path: String,
    pub message: String,
}

/// Mathematical model of a [`ScanError`].
pub ghost struct ErrorModel {
    pub path: Seq<char>,
    pub message: Seq<char>,
}

impl View for ScanError {
    type V = ErrorModel;

    open spec fn view(&self) -> ErrorModel {
        ErrorModel { path: self.path@, message: self.message@ }
    }
}

impl Clone for ScanError {
    fn clone(&self) -> (r: Self)
        ensures
            r@ == self@,
    {
        ScanError { path: self.path.clone(), message: self.message.clone() }
    }
}

/// One child of a directory, as the driver read it from the filesystem:
/// its bare name, kind, and whatever metadata the driver gathered.
#[derive(Debug)]
pub struct RawEntry {
    pub name: String,
    pub kind: FileKind,
    pub size: Option<u64>,
    pub ext: Option<ExtMeta>,
}

/// Mathematical model of a [`RawEntry`].
pub ghost struct RawModel {
    pub name: Seq<char>,
    pub kind: FileKind,
    pub size: Option<u64>,
    pub ext: Option<ExtMeta>,
}

impl View for RawEntry {
    type V = RawModel;

    open spec fn view(&self) -> RawModel {
        RawModel { name: self.name@, kind: self.kind, size: self.size, ext: self.ext }
    }
}

impl Clone for RawEntry {
    fn clone(&self) -> (r: Self)
        ensures
            r@ == self@,
    {
        RawEntry { name: self.name.clone(), kind: self.kind, size: self.size, ext: self.ext }
    }
}

/// A directory the engine has scheduled for reading, with its depth below
/// the root (the root itself is at depth zero).
#[derive(Debug)]
pub struct DirJob {
    pub path: String,
    pub depth: usize,
}

/// Mathematical model of a [`DirJob`].
pub ghost struct JobModel {
    pub path: Seq<char>,
    pub depth: int,
}

impl View for DirJob {
    type V = JobModel;

    open spec fn view(&self) -> JobModel {
        JobModel { path: self.path@, depth: self.depth as int }
    }
}

impl Clone for DirJob {
    fn clone(&self) -> (r: Self)
        ensures
            r@ == self@,
    {
        DirJob { path: self.path.clone(), depth: self.depth }
    }
}

/// Configuration of a scan; immutable once the scan starts.
///
/// `max_depth` and `max_file_cnt` read zero as "unlimited". The four
/// pattern lists hold glob patterns matched against an entry's bare name.
#[derive(Debug)]
pub struct ScanConfig {
    pub root: String,
    pub sorted: bool,
    pub skip_hidden: bool,
    pub max_depth: usize,
    pub max_file_cnt: usize,
    pub dir_include: Vec<String>,
    pub dir_exclude: Vec<String>,
    pub file_include: Vec<String>,
    pub file_exclude: Vec<String>,
    pub case_sensitive: bool,
    pub return_mode: ReturnMode,
    pub store: bool,
}

/// Mathematical model of a [`ScanConfig`].
pub ghost struct ConfigModel {
    pub root: Seq<char>,
    pub sorted: bool,
    pub skip_hidden: bool,
    pub max_depth: int,
    pub max_file_cnt: int,
    pub dir_include: Seq<Seq<char>>,
    pub dir_exclude: Seq<Seq<char>>,
    pub file_include: Seq<Seq<char>>,
    pub file_exclude: Seq<Seq<char>>,
    pub case_sensitive: bool,
    pub return_mode: ReturnMode,
    pub store: bool,
}

/// The models of a sequence of strings.
pub open spec fn string_models(s: Seq<String>) -> Seq<Seq<char>> {
    s.map_values(|x: String| x@)
}

impl View for ScanConfig {
    type V = ConfigModel;

    open spec fn view(&self) -> ConfigModel {
        ConfigModel {
            root: self.root@,
            sorted: self.sorted,
            skip_hidden: self.skip_hidden,
            max_depth: self.max_depth as int,
            max_file_cnt: self.max_file_cnt as int,
            dir_include: string_models(self.dir_include@),
            dir_exclude: string_models(self.dir_exclude@),
            file_include: string_models(self.file_include@),
            file_exclude: string_models(self.file_exclude@),
            case_sensitive: self.case_sensitive,
            return_mode: self.return_mode,
            store: self.store,
        }
    }
}

/// Running statistics of a counting scan: entry counts by kind, the
/// number of traversal errors, and the cumulative byte size.
#[derive(Clone, Copy, PartialEq, Eq, Structural, Debug)]
pub struct Aggregate {
    pub dirs: u64,
    pub files: u64,
    pub slinks: u64,
    pub others: u64,
    pub errors: u64,
    pub size: u64,
}

/// The unit a consumer drains: an entry, or the error that stands in for
/// an unreadable path.
#[derive(Debug)]
pub enum ResultItem {
    Entry(Entry),
    Error(ScanError),
}

/// Mathematical model of a [`ResultItem`].
pub ghost enum ItemModel {
    Entry(EntryModel),
    Error(ErrorModel),
}

impl View for ResultItem {
    type V = ItemModel;

    open spec fn view(&self) -> ItemModel {
        match self {
            ResultItem::Entry(e) => ItemModel::Entry(e@),
            ResultItem::Error(e) => ItemModel::Error(e@),
        }
    }
}

/// The models of a sequence of entries.
pub open spec fn entry_models(s: Seq<Entry>) -> Seq<EntryModel> {
    s.map_values(|e: Entry| e@)
}

/// The models of a sequence of errors.
pub open spec fn error_models(s: Seq<ScanError>) -> Seq<ErrorModel> {
    s.map_values(|e: ScanError| e@)
}

/// The models of a sequence of raw directory children.
pub open spec fn raw_models(s: Seq<RawEntry>) -> Seq<RawModel> {
    s.map_values(|e: RawEntry| e@)
}

/// The models of a sequence of directory jobs.
pub open spec fn job_models(s: Seq<DirJob>) -> Seq<JobModel> {
    s.map_values(|e: DirJob| e@)
}

/// Taking models commutes with appending, for entries.
pub proof fn lemma_entry_models_push(s: Seq<Entry>, e: Entry)
    ensures
        entry_models(s.push(e)) == entry_models(s).push(e@),
{
    assert(entry_models(s.push(e)).len() == s.push(e).len());
    assert(entry_models(s).len() == s.len());
    assert(entry_models(s.push(e)) =~= entry_models(s).push(e@));
}

/// Taking models commutes with appending, for jobs.
pub proof fn lemma_job_models_push(s: Seq<DirJob>, e: DirJob)
    ensures
        job_models(s.push(e)) == job_models(s).push(e@),
{
    assert(job_models(s.push(e)).len() == s.push(e).len());
    assert(job_models(s).len() == s.len());
    assert(job_models(s.push(e)) =~= job_models(s).push(e@));
}

/// Addition on `u64` that stops at the largest value instead of wrapping.
pub open spec fn sat_add(a: int, b: int) -> int {
    if a + b > u64::MAX {
        u64::MAX as int
    } else {
        a + b
    }
}

/// Executable counterpart of [`sat_add`].
pub fn sat_add_exec(a: u64, b: u64) -> (r: u64)
    ensures
        r as int == sat_add(a as int, b as int),
{
    if a > u64::MAX - b {
        u64::MAX
    } else {
        a + b
    }
}

} // verus!
