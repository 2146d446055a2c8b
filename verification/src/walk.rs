//! The traversal step: what one directory listing contributes to a scan.
//!
//! Given the scan's configuration and the job that named the directory,
//! a listing is first put in lexicographic name order when the scan is
//! sorted, then every child is tested against the filter: an accepted
//! child becomes an entry, and an accepted subdirectory that is still
//! above the depth limit becomes a further job. Pruning is real: a
//! rejected directory contributes neither an entry nor a job, so nothing
//! below it is ever read.

use vstd::prelude::*;

use crate::filter::PathFilter;
use crate::filter::accepts;
use crate::filter::filter_of;
use crate::glob::lex_le;
use crate::glob::lex_le_exec;
use crate::glob::lemma_lex_le_total;
use crate::glob::lemma_lex_le_trans;
use crate::types::ConfigModel;
use crate::types::DirJob;
use crate::types::Entry;
use crate::types::EntryModel;
use crate::types::FileKind;
use crate::types::JobModel;
use crate::types::RawEntry;
use crate::types::RawModel;
use crate::types::ReturnMode;
use crate::types::ScanConfig;
use crate::types::entry_models;
use crate::types::job_models;
use crate::types::lemma_entry_models_push;
use crate::types::lemma_job_models_push;
use crate::types::raw_models;
use vstd::utf8::encode_utf8;

verus! {

/// The byte string a child is ordered and filtered by: its name's UTF-8
/// encoding.
pub open spec fn name_key(r: RawModel) -> Seq<u8> {
    encode_utf8(r.name)
}

/// Inserts a child into a listing directly before the first element its
/// name key does not come after.
pub open spec fn insert_sorted(s: Seq<RawModel>, x: RawModel) -> Seq<RawModel>
    decreases s.len(),
{
    if s.len() == 0 {
        seq![x]
    } else if lex_le(name_key(s[0]), name_key(x)) {
        seq![s[0]] + insert_sorted(s.drop_first(), x)
    } else {
        seq![x] + s
    }
}

/// A listing in lexicographic name order: insertion sort, which keeps
/// children of equal names in their incoming order.
pub open spec fn sort_by_name(s: Seq<RawModel>) -> Seq<RawModel>
    decreases s.len(),
{
    if s.len() == 0 {
        Seq::empty()
    } else {
        insert_sorted(sort_by_name(s.drop_last()), s.last())
    }
}

/// The order children are visited in: sorted by name when the scan asks
/// for it, otherwise as the filesystem handed them out.
pub open spec fn listing_order(c: ConfigModel, kids: Seq<RawModel>) -> Seq<RawModel> {
    if c.sorted {
        sort_by_name(kids)
    } else {
        kids
    }
}

/// The path of a child of `parent` named `name`; an empty parent stands
/// for the scan root itself.
pub open spec fn joined_path(parent: Seq<char>, name: Seq<char>) -> Seq<char> {
    if parent.len() == 0 {
        name
    } else {
        parent + seq!['/'] + name
    }
}

/// Whether the filter of configuration `c` accepts the child.
pub open spec fn child_accepted(c: ConfigModel, r: RawModel) -> bool {
    accepts(filter_of(c), name_key(r), r.kind == FileKind::Dir)
}

/// The entry an accepted child materializes as: extended metadata is
/// kept only on extended scans.
pub open spec fn entry_of(c: ConfigModel, job: JobModel, r: RawModel) -> EntryModel {
    EntryModel {
        path: joined_path(job.path, r.name),
        kind: r.kind,
        size: r.size,
        ext: if c.return_mode == ReturnMode::Extended {
            r.ext
        } else {
            None
        },
    }
}

/// Whether a directory found below a job at this depth is descended
/// into: a directory at the depth limit is listed but not read.
pub open spec fn can_descend(c: ConfigModel, depth: int) -> bool {
    depth < usize::MAX && (c.max_depth == 0 || depth + 1 < c.max_depth)
}

/// The job a descendable child directory turns into.
pub open spec fn job_of_child(job: JobModel, r: RawModel) -> JobModel {
    JobModel { path: joined_path(job.path, r.name), depth: job.depth + 1 }
}

/// The entries one visited listing contributes, in visiting order,
/// before any count limit is applied.
pub open spec fn accepted_entries(c: ConfigModel, job: JobModel, kids: Seq<RawModel>) -> Seq<
    EntryModel,
>
    decreases kids.len(),
{
    if kids.len() == 0 {
        Seq::empty()
    } else {
        let init = accepted_entries(c, job, kids.drop_last());
        if child_accepted(c, kids.last()) {
            init.push(entry_of(c, job, kids.last()))
        } else {
            init
        }
    }
}

/// The further jobs one visited listing schedules, in visiting order:
/// exactly its accepted, descendable child directories.
pub open spec fn sub_jobs(c: ConfigModel, job: JobModel, kids: Seq<RawModel>) -> Seq<JobModel>
    decreases kids.len(),
{
    if kids.len() == 0 {
        Seq::empty()
    } else {
        let init = sub_jobs(c, job, kids.drop_last());
        if kids.last().kind == FileKind::Dir && child_accepted(c, kids.last()) && can_descend(
            c,
            job.depth,
        ) {
            init.push(job_of_child(job, kids.last()))
        } else {
            init
        }
    }
}

/// A listing is in lexicographic name order.
pub open spec fn sorted_by_name(s: Seq<RawModel>) -> bool {
    forall|i: int, j: int|
        0 <= i < j < s.len() ==> lex_le(name_key(s[i]), name_key(s[j]))
}

/// Where [`insert_sorted`] places a child: directly before the first
/// element whose name key does not come before the child's.
pub open spec fn insert_pos(s: Seq<RawModel>, x: RawModel) -> int
    decreases s.len(),
{
    if s.len() == 0 {
        0
    } else if lex_le(name_key(s[0]), name_key(x)) {
        1 + insert_pos(s.drop_first(), x)
    } else {
        0
    }
}

/// The insertion position is a position, everything before it comes
/// before the child, and the element at it (if any) does not.
pub proof fn lemma_insert_pos(s: Seq<RawModel>, x: RawModel)
    ensures
        0 <= insert_pos(s, x) <= s.len(),
        forall|k: int|
            0 <= k < insert_pos(s, x) ==> lex_le(name_key(s[k]), name_key(x)),
        insert_pos(s, x) < s.len() ==> !lex_le(name_key(s[insert_pos(s, x)]), name_key(x)),
    decreases s.len(),
{
    if s.len() > 0 && lex_le(name_key(s[0]), name_key(x)) {
        lemma_insert_pos(s.drop_first(), x);
        let p = insert_pos(s, x);
        assert forall|k: int| 0 <= k < p implies lex_le(name_key(s[k]), name_key(x)) by {
            if k > 0 {
                assert(s.drop_first()[k - 1] == s[k]);
                assert(lex_le(name_key(s.drop_first()[k - 1]), name_key(x)));
            }
        }
        if p < s.len() {
            assert(s.drop_first()[p - 1] == s[p]);
        }
    }
}

/// Inserting into an ordered listing keeps it ordered and only adds the
/// new child: the result is the old listing with the child put at its
/// place.
pub proof fn lemma_insert_sorted_keeps_order(s: Seq<RawModel>, x: RawModel)
    requires
        sorted_by_name(s),
    ensures
        sorted_by_name(insert_sorted(s, x)),
        insert_sorted(s, x).to_multiset() == s.to_multiset().insert(x),
{
    broadcast use vstd::seq_lib::group_to_multiset_ensures;

    lemma_insert_pos(s, x);
    let p = insert_pos(s, x);
    lemma_insert_sorted_at(s, x, p);
    let r = insert_sorted(s, x);
    assert(r == s.subrange(0, p).push(x) + s.skip(p));
    if p < s.len() {
        lemma_lex_le_total(name_key(s[p]), name_key(x));
    }
    assert forall|i: int, j: int|
        0 <= i < j < r.len() implies lex_le(name_key(r[i]), name_key(r[j])) by {
        if i < p && j < p {
        } else if i < p && j == p {
            assert(r[i] == s[i] && r[j] == x);
        } else if i < p {
            assert(r[i] == s[i] && r[j] == s[j - 1]);
        } else if i == p && j > p {
            assert(r[i] == x && r[j] == s[j - 1]);
            if j - 1 > p {
                lemma_lex_le_trans(name_key(x), name_key(s[p]), name_key(s[j - 1]));
            }
        } else {
            assert(r[i] == s[i - 1] && r[j] == s[j - 1]);
        }
    }
    vstd::seq_lib::lemma_multiset_commutative(s.subrange(0, p).push(x), s.skip(p));
    vstd::seq_lib::lemma_multiset_commutative(s.subrange(0, p), s.skip(p));
    assert(s.subrange(0, p) + s.skip(p) =~= s);
    assert(r.to_multiset() =~= s.to_multiset().insert(x));
}

/// Sorting a listing orders it by name and neither adds, drops nor
/// repeats a child: the result holds exactly the same children.
pub proof fn lemma_sort_by_name_ordered(s: Seq<RawModel>)
    ensures
        sorted_by_name(sort_by_name(s)),
        sort_by_name(s).to_multiset() == s.to_multiset(),
    decreases s.len(),
{
    broadcast use vstd::seq_lib::group_to_multiset_ensures;

    if s.len() > 0 {
        lemma_sort_by_name_ordered(s.drop_last());
        lemma_insert_sorted_keeps_order(sort_by_name(s.drop_last()), s.last());
        assert(s.drop_last().push(s.last()) =~= s);
    }
}

/// Builds the path of a child of `parent` named `name`.
pub fn join_path(parent: &String, name: &str) -> (r: String)
    ensures
        r@ == joined_path(parent@, name@),
{
    if parent.as_str().is_empty() {
        let mut r = String::new();
        r.append(name);
        proof {
            assert(r@ =~= name@);
        }
        r
    } else {
        let mut r = parent.clone();
        r.append("/");
        r.append(name);
        proof {
            reveal_strlit("/");
            assert("/"@ =~= seq!['/']);
        }
        r
    }
}

/// Inserts a child into a name-ordered listing at its place.
fn insert_by_name(v: Vec<RawEntry>, x: RawEntry) -> (r: Vec<RawEntry>)
    ensures
        raw_models(r@) == insert_sorted(raw_models(v@), x@),
{
    let mut j: usize = 0;
    while j < v.len()
        invariant
            j <= v@.len(),
            forall|k: int| 0 <= k < j ==> lex_le(name_key(raw_models(v@)[k]), name_key(x@)),
        ensures
            j <= v@.len(),
            forall|k: int| 0 <= k < j ==> lex_le(name_key(raw_models(v@)[k]), name_key(x@)),
            j < v@.len() ==> !lex_le(name_key(raw_models(v@)[j as int]), name_key(x@)),
        decreases v@.len() - j,
    {
        if !lex_le_exec(v[j].name.as_str().as_bytes(), x.name.as_str().as_bytes()) {
            break ;
        }
        j = j + 1;
    }
    proof {
        lemma_insert_sorted_at(raw_models(v@), x@, j as int);
    }
    let mut r = v;
    let ghost pre = r@;
    r.insert(j, x);
    proof {
        assert(raw_models(r@) =~= raw_models(pre).subrange(0, j as int).push(x@) + raw_models(
            pre,
        ).skip(j as int));
    }
    r
}

/// Where the scan loop of [`insert_by_name`] stops is exactly where
/// [`insert_sorted`] places the child.
proof fn lemma_insert_sorted_at(s: Seq<RawModel>, x: RawModel, j: int)
    requires
        0 <= j <= s.len(),
        forall|k: int| 0 <= k < j ==> lex_le(name_key(s[k]), name_key(x)),
        j < s.len() ==> !lex_le(name_key(s[j]), name_key(x)),
    ensures
        insert_sorted(s, x) == s.subrange(0, j).push(x) + s.skip(j),
    decreases s.len(),
{
    if s.len() == 0 {
        assert(insert_sorted(s, x) =~= s.subrange(0, j).push(x) + s.skip(j));
    } else if j == 0 {
        assert(insert_sorted(s, x) =~= s.subrange(0, 0).push(x) + s.skip(0));
    } else {
        lemma_insert_sorted_at(s.drop_first(), x, j - 1);
        assert(s.drop_first().subrange(0, j - 1) =~= s.subrange(1, j));
        assert(s.drop_first().skip(j - 1) =~= s.skip(j));
        assert(insert_sorted(s, x) =~= s.subrange(0, j).push(x) + s.skip(j));
    }
}

/// Puts a listing in lexicographic name order.
fn sort_listing(v: &Vec<RawEntry>) -> (r: Vec<RawEntry>)
    ensures
        raw_models(r@) == sort_by_name(raw_models(v@)),
{
    let mut out: Vec<RawEntry> = Vec::new();
    let mut i: usize = 0;
    while i < v.len()
        invariant
            i <= v@.len(),
            raw_models(out@) == sort_by_name(raw_models(v@).take(i as int)),
        decreases v@.len() - i,
    {
        let e = v[i].clone();
        proof {
            assert(e@ == raw_models(v@)[i as int]);
            assert(raw_models(v@).take(i + 1 as int).drop_last() =~= raw_models(v@).take(i as int));
            assert(raw_models(v@).take(i + 1 as int).last() == e@);
        }
        out = insert_by_name(out, e);
        i = i + 1;
    }
    proof {
        assert(raw_models(v@).take(v@.len() as int) =~= raw_models(v@));
    }
    out
}

/// Applies filter, entry construction and descent policy to one listing,
/// already in visiting order: returns the entries it contributes and the
/// jobs it schedules, each in visiting order.
fn process_ordered(cfg: &ScanConfig, filter: &PathFilter, job: &DirJob, kids: &Vec<RawEntry>) -> (r:
    (Vec<Entry>, Vec<DirJob>))
    requires
        filter@ == filter_of(cfg@),
    ensures
        entry_models(r.0@) == accepted_entries(cfg@, job@, raw_models(kids@)),
        job_models(r.1@) == sub_jobs(cfg@, job@, raw_models(kids@)),
{
    let mut ents: Vec<Entry> = Vec::new();
    let mut jobs: Vec<DirJob> = Vec::new();
    let mut i: usize = 0;
    while i < kids.len()
        invariant
            i <= kids@.len(),
            filter@ == filter_of(cfg@),
            entry_models(ents@) == accepted_entries(cfg@, job@, raw_models(kids@).take(i as int)),
            job_models(jobs@) == sub_jobs(cfg@, job@, raw_models(kids@).take(i as int)),
        decreases kids@.len() - i,
    {
        let child = &kids[i];
        proof {
            assert(child@ == raw_models(kids@)[i as int]);
            assert(raw_models(kids@).take(i + 1 as int).drop_last() =~= raw_models(kids@).take(
                i as int,
            ));
            assert(raw_models(kids@).take(i + 1 as int).last() == child@);
        }
        let is_dir = child.kind == FileKind::Dir;
        if filter.matches(child.name.as_str(), is_dir) {
            let path = join_path(&job.path, child.name.as_str());
            let ext = if cfg.return_mode == ReturnMode::Extended {
                child.ext
            } else {
                None
            };
            let e = Entry { path, kind: child.kind, size: child.size, ext };
            proof {
                assert(e@ == entry_of(cfg@, job@, child@));
                lemma_entry_models_push(ents@, e);
            }
            ents.push(e);
            if is_dir && job.depth < usize::MAX && (cfg.max_depth == 0 || job.depth + 1
                < cfg.max_depth) {
                let sub = DirJob { path: join_path(&job.path, child.name.as_str()), depth: job.depth + 1 };
                proof {
                    assert(sub@ == job_of_child(job@, child@));
                    lemma_job_models_push(jobs@, sub);
                }
                jobs.push(sub);
            }
        }
        i = i + 1;
    }
    proof {
        assert(raw_models(kids@).take(kids@.len() as int) =~= raw_models(kids@));
    }
    (ents, jobs)
}

/// Orders a listing as the scan visits it and processes it: the entries
/// it contributes and the jobs it schedules.
pub fn process_listing(cfg: &ScanConfig, filter: &PathFilter, job: &DirJob, listing: Vec<RawEntry>)
    -> (r: (Vec<Entry>, Vec<DirJob>))
    requires
        filter@ == filter_of(cfg@),
    ensures
        entry_models(r.0@) == accepted_entries(
            cfg@,
            job@,
            listing_order(cfg@, raw_models(listing@)),
        ),
        job_models(r.1@) == sub_jobs(cfg@, job@, listing_order(cfg@, raw_models(listing@))),
{
    if cfg.sorted {
        let kids = sort_listing(&listing);
        process_ordered(cfg, filter, job, &kids)
    } else {
        process_ordered(cfg, filter, job, &listing)
    }
}

} // verus!
