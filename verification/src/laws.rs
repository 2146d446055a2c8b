//! Laws of the engine: the properties that tie its pieces together,
//! stated over the same spec functions the contracts use and proved for
//! every input, not just for the inputs a test can try.

use vstd::prelude::*;

use crate::count::Count;
use crate::count::fold_agg;
use crate::scandir::Scandir;
use crate::types::Aggregate;
use crate::types::ConfigModel;
use crate::types::EntryModel;
use crate::types::FileKind;
use crate::types::JobModel;
use crate::types::RawModel;
use crate::walk::accepted_entries;
use crate::walk::lemma_sort_by_name_ordered;
use crate::walk::listing_order;
use crate::walk::sorted_by_name;
use crate::walk::can_descend;
use crate::walk::child_accepted;
use crate::walk::entry_of;
use crate::walk::job_of_child;
use crate::walk::sub_jobs;

verus! {

/// What a run of only-new reads delivers — entries and errors alike:
/// each read returns the slice of the pushed history between its offset
/// and the next, `from` being the offset the first read starts at.
pub open spec fn chunks_join<T>(s: Seq<T>, cuts: Seq<int>, from: int) -> Seq<T>
    decreases cuts.len(),
{
    if cuts.len() == 0 {
        Seq::empty()
    } else {
        s.subrange(from, cuts[0]) + chunks_join(s, cuts.drop_first(), cuts[0])
    }
}

/// Only-new reads lose nothing and repeat nothing: a full read returns
/// the whole pushed history, and successive only-new reads — each
/// returning the history between its offset and the next, the last one
/// reaching the end — concatenate, in call order, to exactly that same
/// history. So the one-shot collection and the union of incremental
/// drains of the same scan agree.
pub proof fn lemma_incremental_drains_rebuild<T>(s: Seq<T>, cuts: Seq<int>, from: int)
    requires
        0 <= from <= s.len(),
        cuts.len() == 0 ==> from == s.len(),
        cuts.len() > 0 ==> from <= cuts[0] && cuts.last() == s.len(),
        forall|k: int| 0 <= k < cuts.len() ==> #[trigger] cuts[k] <= s.len(),
        forall|k: int| 0 <= k < cuts.len() - 1 ==> #[trigger] cuts[k] <= cuts[k + 1],
    ensures
        chunks_join(s, cuts, from) == s.skip(from),
    decreases cuts.len(),
{
    if cuts.len() == 0 {
        assert(chunks_join(s, cuts, from) =~= s.skip(from));
    } else {
        let rest = cuts.drop_first();
        assert(forall|k: int| 0 <= k < rest.len() ==> #[trigger] rest[k] == cuts[k + 1]);
        lemma_incremental_drains_rebuild(s, rest, cuts[0]);
        assert(chunks_join(s, cuts, from) =~= s.subrange(from, cuts[0]) + s.skip(cuts[0]));
        assert(s.subrange(from, cuts[0]) + s.skip(cuts[0]) =~= s.skip(from));
    }
}

/// A directory whose depth has reached the limit is listed but never
/// descended into: a job the walker may not descend from schedules no
/// further job, whatever its listing holds. In particular, with a depth
/// limit of one, only the root is ever read and only its immediate
/// children are reported.
pub proof fn lemma_depth_limit_prunes(c: ConfigModel, job: JobModel, kids: Seq<RawModel>)
    requires
        !can_descend(c, job.depth),
    ensures
        sub_jobs(c, job, kids).len() == 0,
    decreases kids.len(),
{
    if kids.len() > 0 {
        lemma_depth_limit_prunes(c, job, kids.drop_last());
    }
}

/// A job stems from a listing: some child of the listing is a
/// directory the filter accepted, and the job is that child's.
pub open spec fn job_stems_from(c: ConfigModel, job: JobModel, kids: Seq<RawModel>, j: JobModel)
    -> bool {
    exists|i: int|
        0 <= i < kids.len() && kids[i].kind == FileKind::Dir && #[trigger] child_accepted(
            c,
            kids[i],
        ) && j == job_of_child(job, kids[i])
}

/// An entry stems from a listing: some child of the listing was
/// accepted by the filter, and the entry is that child's.
pub open spec fn entry_stems_from(c: ConfigModel, job: JobModel, kids: Seq<RawModel>, e: EntryModel)
    -> bool {
    exists|i: int|
        0 <= i < kids.len() && #[trigger] child_accepted(c, kids[i]) && e == entry_of(
            c,
            job,
            kids[i],
        )
}

/// Pruning is real: every job a listing schedules stems from a child of
/// that listing that is a directory and that the filter accepted, one
/// depth further down. A directory matching an exclude pattern schedules
/// nothing, so nothing below it is ever read or reported.
pub proof fn lemma_sub_jobs_accepted(c: ConfigModel, job: JobModel, kids: Seq<RawModel>)
    ensures
        forall|k: int|
            0 <= k < sub_jobs(c, job, kids).len() ==> job_stems_from(
                c,
                job,
                kids,
                #[trigger] sub_jobs(c, job, kids)[k],
            ),
        forall|k: int|
            0 <= k < sub_jobs(c, job, kids).len() ==> #[trigger] sub_jobs(c, job, kids)[k].depth
                == job.depth + 1,
    decreases kids.len(),
{
    if kids.len() > 0 {
        let init = kids.drop_last();
        lemma_sub_jobs_accepted(c, job, init);
        let js = sub_jobs(c, job, kids);
        let js0 = sub_jobs(c, job, init);
        assert(forall|i: int| 0 <= i < init.len() ==> init[i] == kids[i]);
        assert forall|k: int| 0 <= k < js.len() implies job_stems_from(c, job, kids, js[k]) by {
            if k < js0.len() {
                assert(job_stems_from(c, job, init, js0[k]));
                let i0 = choose|i: int|
                    0 <= i < init.len() && init[i].kind == FileKind::Dir && #[trigger]
                    child_accepted(c, init[i]) && js0[k] == job_of_child(job, init[i]);
                assert(kids[i0].kind == FileKind::Dir && child_accepted(c, kids[i0]) && js[k]
                    == job_of_child(job, kids[i0]));
            } else {
                let last = kids.len() - 1;
                assert(kids[last].kind == FileKind::Dir && child_accepted(c, kids[last]) && js[k]
                    == job_of_child(job, kids[last]));
            }
        }
    }
}

/// Likewise every reported entry stems from a child the filter
/// accepted: a rejected child is neither reported nor counted.
pub proof fn lemma_entries_accepted(c: ConfigModel, job: JobModel, kids: Seq<RawModel>)
    ensures
        forall|k: int|
            0 <= k < accepted_entries(c, job, kids).len() ==> entry_stems_from(
                c,
                job,
                kids,
                #[trigger] accepted_entries(c, job, kids)[k],
            ),
    decreases kids.len(),
{
    if kids.len() > 0 {
        let init = kids.drop_last();
        lemma_entries_accepted(c, job, init);
        let es = accepted_entries(c, job, kids);
        let es0 = accepted_entries(c, job, init);
        assert(forall|i: int| 0 <= i < init.len() ==> init[i] == kids[i]);
        assert forall|k: int| 0 <= k < es.len() implies entry_stems_from(c, job, kids, es[k]) by {
            if k < es0.len() {
                assert(entry_stems_from(c, job, init, es0[k]));
                let i0 = choose|i: int|
                    0 <= i < init.len() && #[trigger] child_accepted(c, init[i]) && es0[k]
                        == entry_of(c, job, init[i]);
                assert(child_accepted(c, kids[i0]) && es[k] == entry_of(c, job, kids[i0]));
            } else {
                let last = kids.len() - 1;
                assert(child_accepted(c, kids[last]) && es[k] == entry_of(c, job, kids[last]));
            }
        }
    }
}

/// A count limit is a hard ceiling: in every reachable state of a
/// full scan, the entries ever pushed never exceed it. Reaching it
/// finishes the scan cleanly — no error is recorded and nothing more
/// is scheduled — which is stated by the contract of `feed`.
pub proof fn lemma_file_limit_bounds_entries(sd: Scandir)
    requires
        sd.wf(),
        sd.config@.max_file_cnt > 0,
    ensures
        sd.channel.all_entries().len() <= sd.config@.max_file_cnt,
{
}

/// The same ceiling holds of a counting scan: it never folds more
/// entries into the aggregate than the limit allows.
pub proof fn lemma_file_limit_bounds_count(c: Count)
    requires
        c.wf(),
        c.config@.max_file_cnt > 0,
    ensures
        c.seen@.len() <= c.config@.max_file_cnt,
{
}

/// A sorted scan visits each directory's children in lexicographic
/// name order — no child is added, dropped or repeated by the
/// ordering — so its results come out order-exact, not merely
/// order-insensitive.
pub proof fn lemma_sorted_scan_orders_listings(c: ConfigModel, kids: Seq<RawModel>)
    requires
        c.sorted,
    ensures
        sorted_by_name(listing_order(c, kids)),
        listing_order(c, kids).to_multiset() == kids.to_multiset(),
{
    lemma_sort_by_name_ordered(kids);
}

/// Counting agrees with enumerating: folding a run of entries into an
/// aggregate raises the file counter by exactly the number of file
/// entries in the run — the length of the full scan's entry list
/// restricted to files — and likewise for directories, symlinks and
/// the other kinds, as long as the counter does not saturate.
pub proof fn lemma_count_matches_entries(a: Aggregate, items: Seq<EntryModel>, extended: bool)
    requires
        a.files + items.filter(|e: EntryModel| e.kind == FileKind::File).len() <= u64::MAX,
        a.dirs + items.filter(|e: EntryModel| e.kind == FileKind::Dir).len() <= u64::MAX,
        a.slinks + items.filter(|e: EntryModel| e.kind == FileKind::Symlink).len() <= u64::MAX,
        a.others + items.filter(|e: EntryModel| e.kind == FileKind::Other).len() <= u64::MAX,
    ensures
        fold_agg(a, items, extended).files == a.files + items.filter(
            |e: EntryModel| e.kind == FileKind::File,
        ).len(),
        fold_agg(a, items, extended).dirs == a.dirs + items.filter(
            |e: EntryModel| e.kind == FileKind::Dir,
        ).len(),
        fold_agg(a, items, extended).slinks == a.slinks + items.filter(
            |e: EntryModel| e.kind == FileKind::Symlink,
        ).len(),
        fold_agg(a, items, extended).others == a.others + items.filter(
            |e: EntryModel| e.kind == FileKind::Other,
        ).len(),
        fold_agg(a, items, extended).errors == a.errors,
    decreases items.len(),
{
    reveal(Seq::filter);
    if items.len() > 0 {
        let init = items.drop_last();
        assert(init.filter(|e: EntryModel| e.kind == FileKind::File).len() <= items.filter(
            |e: EntryModel| e.kind == FileKind::File,
        ).len()) by {
            init.lemma_filter_len(|e: EntryModel| e.kind == FileKind::File);
        }
        assert(init.filter(|e: EntryModel| e.kind == FileKind::Dir).len() <= items.filter(
            |e: EntryModel| e.kind == FileKind::Dir,
        ).len()) by {
            init.lemma_filter_len(|e: EntryModel| e.kind == FileKind::Dir);
        }
        assert(init.filter(|e: EntryModel| e.kind == FileKind::Symlink).len() <= items.filter(
            |e: EntryModel| e.kind == FileKind::Symlink,
        ).len()) by {
            init.lemma_filter_len(|e: EntryModel| e.kind == FileKind::Symlink);
        }
        assert(init.filter(|e: EntryModel| e.kind == FileKind::Other).len() <= items.filter(
            |e: EntryModel| e.kind == FileKind::Other,
        ).len()) by {
            init.lemma_filter_len(|e: EntryModel| e.kind == FileKind::Other);
        }
        lemma_count_matches_entries(a, init, extended);
    }
}

} // verus!
