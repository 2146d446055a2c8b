//! The counting mode: the same traversal, filters and limits as a full
//! scan, but nothing is materialized — each accepted child only bumps an
//! aggregate of counts by kind (and, on extended counts, the cumulative
//! byte size), so the output stays constant-sized whatever the tree is.

use vstd::prelude::*;

use crate::filter::PathFilter;
use crate::filter::filter_of;
use crate::types::Aggregate;
use crate::types::DirJob;
use crate::types::EngineState;
use crate::types::EntryModel;
use crate::types::ErrorModel;
use crate::types::FileKind;
use crate::types::JobModel;
use crate::types::RawEntry;
use crate::types::ScanConfig;
use crate::types::ScanError;
use crate::types::entry_models;
use crate::types::error_models;
use crate::types::job_models;
use crate::types::raw_models;
use crate::types::sat_add;
use crate::types::sat_add_exec;
use crate::walk::accepted_entries;
use crate::walk::listing_order;
use crate::walk::process_listing;
use crate::walk::sub_jobs;

verus! {

/// The aggregate of an empty scan.
pub open spec fn zero_agg() -> Aggregate {
    Aggregate { dirs: 0, files: 0, slinks: 0, others: 0, errors: 0, size: 0 }
}

/// The aggregate with its error count replaced by `e`, stopped at the
/// largest representable value.
pub open spec fn with_errors(a: Aggregate, e: int) -> Aggregate {
    Aggregate { errors: sat_add(0, e) as u64, ..a }
}

/// One entry folded into the aggregate: its kind's counter bumped, and,
/// on extended counts, its size added. The error counter is untouched.
pub open spec fn add_one(a: Aggregate, e: EntryModel, extended: bool) -> Aggregate {
    Aggregate {
        dirs: if e.kind == FileKind::Dir {
            sat_add(a.dirs as int, 1) as u64
        } else {
            a.dirs
        },
        files: if e.kind == FileKind::File {
            sat_add(a.files as int, 1) as u64
        } else {
            a.files
        },
        slinks: if e.kind == FileKind::Symlink {
            sat_add(a.slinks as int, 1) as u64
        } else {
            a.slinks
        },
        others: if e.kind == FileKind::Other {
            sat_add(a.others as int, 1) as u64
        } else {
            a.others
        },
        errors: a.errors,
        size: if extended && e.size is Some {
            sat_add(a.size as int, e.size->0 as int) as u64
        } else {
            a.size
        },
    }
}

/// A sequence of entries folded into an aggregate, in order.
pub open spec fn fold_agg(a: Aggregate, items: Seq<EntryModel>, extended: bool) -> Aggregate
    decreases items.len(),
{
    if items.len() == 0 {
        a
    } else {
        add_one(fold_agg(a, items.drop_last(), extended), items.last(), extended)
    }
}

/// Folds one entry into an aggregate.
fn agg_add_one(a: Aggregate, kind: FileKind, size: Option<u64>, extended: bool, Ghost(e): Ghost<
    EntryModel,
>) -> (r: Aggregate)
    requires
        e.kind == kind,
        e.size == size,
    ensures
        r == add_one(a, e, extended),
{
    let mut r = a;
    match kind {
        FileKind::Dir => r.dirs = sat_add_exec(r.dirs, 1),
        FileKind::File => r.files = sat_add_exec(r.files, 1),
        FileKind::Symlink => r.slinks = sat_add_exec(r.slinks, 1),
        FileKind::Other => r.others = sat_add_exec(r.others, 1),
    }
    if extended {
        match size {
            Some(s) => r.size = sat_add_exec(r.size, s),
            None => {},
        }
    }
    r
}

/// A counting engine for one root directory; driven exactly like
/// [`crate::scandir::Scandir`], by `take_job` and `feed`.
pub struct Count {
    /// The scan's configuration, immutable while the count runs.
    pub config: ScanConfig,
    /// The configuration's pattern lists, compiled once.
    pub filter: PathFilter,
    /// Whether sizes are accumulated (the extra stat is the driver's).
    pub extended: bool,
    /// Lifecycle state.
    pub state: EngineState,
    /// Directories scheduled and not yet read, top of the stack next.
    pub pending: Vec<DirJob>,
    /// The running aggregate.
    pub agg: Aggregate,
    /// The traversal errors encountered so far.
    pub errors: Vec<ScanError>,
    /// Accepted entries counted by the running scan, for the count limit.
    pub entry_cnt: usize,
    /// Models of every entry folded into the aggregate, in order.
    pub seen: Ghost<Seq<EntryModel>>,
}

impl Count {
    /// The engine is busy while a count runs.
    pub open spec fn is_busy(self) -> bool {
        self.state == EngineState::Running || self.state == EngineState::Stopping
    }

    /// Well-formedness: the filter belongs to the configuration, and the
    /// aggregate is exactly the fold of every entry seen so far with the
    /// error count alongside.
    pub open spec fn wf(self) -> bool {
        &&& self.filter@ == filter_of(self.config@)
        &&& self.agg == with_errors(
            fold_agg(zero_agg(), self.seen@, self.extended),
            self.errors@.len() as int,
        )
        &&& (self.config@.max_file_cnt > 0 ==> self.entry_cnt == self.seen@.len())
        &&& (self.config@.max_file_cnt > 0 ==> self.entry_cnt <= self.config@.max_file_cnt)
        &&& (self.is_busy() && self.config@.max_file_cnt > 0 ==> self.entry_cnt
            < self.config@.max_file_cnt)
    }

    /// A fresh counting engine in the idle state.
    pub fn new(config: ScanConfig) -> (r: Count)
        ensures
            r.wf(),
            r.config == config,
            !r.extended,
            r.state == EngineState::Idle,
            r.seen@.len() == 0,
            r.errors@.len() == 0,
            r.agg == zero_agg(),
    {
        let filter = PathFilter::new(&config);
        let r = Count {
            config,
            filter,
            extended: false,
            state: EngineState::Idle,
            pending: Vec::new(),
            agg: Aggregate { dirs: 0, files: 0, slinks: 0, others: 0, errors: 0, size: 0 },
            errors: Vec::new(),
            entry_cnt: 0,
            seen: Ghost(Seq::empty()),
        };
        proof {
            assert(r.agg == with_errors(fold_agg(zero_agg(), r.seen@, r.extended), 0));
        }
        r
    }

    /// Chooses whether sizes are accumulated; meaningful before the
    /// count starts.
    pub fn extended(self, extended: bool) -> (r: Count)
        requires
            self.wf(),
            self.seen@.len() == 0,
        ensures
            r.wf(),
            r == (Count { extended, ..self }),
    {
        let mut r = self;
        r.extended = extended;
        r
    }

    /// True while a count runs.
    pub fn busy(&self) -> (r: bool)
        ensures
            r == self.is_busy(),
    {
        self.state == EngineState::Running || self.state == EngineState::Stopping
    }

    /// True once the count has run to its end.
    pub fn finished(&self) -> (r: bool)
        ensures
            r == (self.state == EngineState::Finished),
    {
        self.state == EngineState::Finished
    }

    /// Begins a fresh count: schedules the root at depth zero. Refused
    /// while one is already busy.
    pub fn start(&mut self) -> (r: bool)
        requires
            old(self).wf(),
        ensures
            final(self).wf(),
            r == !old(self).is_busy(),
            !r ==> *final(self) == *old(self),
            r ==> {
                &&& final(self).state == EngineState::Running
                &&& final(self).seen@.len() == 0
                &&& final(self).errors@.len() == 0
                &&& final(self).agg == zero_agg()
                &&& job_models(final(self).pending@) == seq![
                    JobModel { path: old(self).config@.root, depth: 0 },
                ]
                &&& final(self).config == old(self).config
                &&& final(self).extended == old(self).extended
            },
    {
        if self.state == EngineState::Running || self.state == EngineState::Stopping {
            return false;
        }
        self.pending = Vec::new();
        self.pending.push(DirJob { path: self.config.root.clone(), depth: 0 });
        self.agg = Aggregate { dirs: 0, files: 0, slinks: 0, others: 0, errors: 0, size: 0 };
        self.errors = Vec::new();
        self.entry_cnt = 0;
        self.seen = Ghost(Seq::empty());
        self.state = EngineState::Running;
        proof {
            assert(job_models(self.pending@) =~= seq![
                JobModel { path: old(self).config@.root, depth: 0 },
            ]);
            assert(self.agg == with_errors(fold_agg(zero_agg(), self.seen@, self.extended), 0));
        }
        true
    }

    /// Hands the driver the next directory to read, or finishes the
    /// count when the backlog is empty. Outside a busy count it is a
    /// no-op.
    pub fn take_job(&mut self) -> (r: Option<DirJob>)
        requires
            old(self).wf(),
        ensures
            final(self).wf(),
            final(self).agg == old(self).agg,
            final(self).seen == old(self).seen,
            final(self).errors == old(self).errors,
            final(self).config == old(self).config,
            final(self).extended == old(self).extended,
            old(self).state == EngineState::Idle || old(self).state == EngineState::Finished ==> r
                == Option::<DirJob>::None && *final(self) == *old(self),
            old(self).state == EngineState::Stopping ==> r == Option::<DirJob>::None
                && final(self).state == EngineState::Finished && final(self).pending@.len() == 0,
            old(self).state == EngineState::Running && old(self).pending@.len() == 0 ==> r
                == Option::<DirJob>::None && final(self).state == EngineState::Finished,
            old(self).state == EngineState::Running && old(self).pending@.len() > 0 ==> {
                &&& r == Option::Some(old(self).pending@.last())
                &&& final(self).state == EngineState::Running
                &&& final(self).pending@ == old(self).pending@.drop_last()
            },
    {
        match self.state {
            EngineState::Idle => None,
            EngineState::Finished => None,
            EngineState::Stopping => {
                self.pending = Vec::new();
                self.state = EngineState::Finished;
                None
            },
            EngineState::Running => {
                if self.pending.len() == 0 {
                    self.state = EngineState::Finished;
                    None
                } else {
                    let j = self.pending.pop().unwrap();
                    Some(j)
                }
            },
        }
    }

    /// Folds the outcome of reading one directory into the count: a
    /// failed read bumps the error counter and the count goes on; a
    /// listing is visited in order under the same filters, depth and
    /// count limits as a full scan, each accepted child folded into the
    /// aggregate instead of being materialized.
    #[verifier::loop_isolation(false)]
    pub fn feed(&mut self, job: DirJob, listing: Result<Vec<RawEntry>, String>)
        requires
            old(self).wf(),
            old(self).is_busy(),
        ensures
            final(self).wf(),
            final(self).config == old(self).config,
            final(self).extended == old(self).extended,
            match listing {
                Result::Err(msg) => {
                    &&& error_models(final(self).errors@) == error_models(old(self).errors@).push(
                        ErrorModel { path: job@.path, message: msg@ },
                    )
                    &&& final(self).seen == old(self).seen
                    &&& final(self).state == old(self).state
                    &&& final(self).pending == old(self).pending
                },
                Result::Ok(l) => {
                    let kids = listing_order(old(self).config@, raw_models(l@));
                    let items = accepted_entries(old(self).config@, job@, kids);
                    let max = old(self).config@.max_file_cnt;
                    let budget = if max == 0 || items.len() <= max - old(self).entry_cnt {
                        items.len() as int
                    } else {
                        max - old(self).entry_cnt
                    };
                    &&& final(self).seen@ == old(self).seen@ + items.take(budget)
                    &&& final(self).errors == old(self).errors
                    &&& if max > 0 && old(self).entry_cnt + budget == max {
                        &&& final(self).state == EngineState::Finished
                        &&& final(self).pending@.len() == 0
                    } else {
                        &&& final(self).state == old(self).state
                        &&& job_models(final(self).pending@) == job_models(old(self).pending@)
                            + sub_jobs(old(self).config@, job@, kids).reverse()
                    }
                },
            },
    {
        match listing {
            Err(msg) => {
                let ghost pre = self.errors@;
                let err = ScanError { path: job.path, message: msg };
                let ghost ev = err@;
                self.errors.push(err);
                self.agg.errors = sat_add_exec(self.agg.errors, 1);
                proof {
                    assert(error_models(self.errors@) =~= error_models(pre).push(ev));
                    assert(self.agg == with_errors(
                        fold_agg(zero_agg(), self.seen@, self.extended),
                        self.errors@.len() as int,
                    ));
                }
            },
            Ok(l) => {
                let (ents, jobs) = process_listing(&self.config, &self.filter, &job, l);
                let ghost items = entry_models(ents@);
                let ghost seen0 = self.seen@;
                let ghost old_cnt = self.entry_cnt as int;
                let max = self.config.max_file_cnt;
                let mut i: usize = 0;
                while i < ents.len() && (max == 0 || self.entry_cnt < max)
                    invariant
                        i <= ents@.len(),
                        self.seen@ == seen0 + items.take(i as int),
                        max > 0 ==> self.entry_cnt == old_cnt + i && self.entry_cnt <= max,
                        max == 0 ==> self.entry_cnt == old_cnt,
                        self.agg == with_errors(
                            fold_agg(zero_agg(), self.seen@, self.extended),
                            self.errors@.len() as int,
                        ),
                        self.errors == old(self).errors,
                        self.config == old(self).config,
                        self.filter == old(self).filter,
                        self.extended == old(self).extended,
                        self.pending == old(self).pending,
                        self.state == old(self).state,
                    decreases ents@.len() - i,
                {
                    let e = &ents[i];
                    proof {
                        assert(e@ == items[i as int]);
                        assert((seen0 + items.take(i + 1 as int)).drop_last() =~= seen0
                            + items.take(i as int));
                        assert((seen0 + items.take(i + 1 as int)).last() == items[i as int]);
                    }
                    self.agg = agg_add_one(self.agg, e.kind, e.size, self.extended, Ghost(e@));
                    self.seen = Ghost(seen0 + items.take(i + 1 as int));
                    if max > 0 {
                        self.entry_cnt = self.entry_cnt + 1;
                    }
                    i = i + 1;
                }
                if max > 0 && self.entry_cnt >= max {
                    self.pending = Vec::new();
                    self.state = EngineState::Finished;
                } else {
                    let ghost all_jobs = job_models(jobs@);
                    let ghost old_pending = job_models(self.pending@);
                    let ghost agg0 = self.agg;
                    let ghost seen1 = self.seen@;
                    let ghost cnt1 = self.entry_cnt;
                    let mut js = jobs;
                    while js.len() > 0
                        invariant
                            js@.len() <= all_jobs.len(),
                            job_models(js@) == all_jobs.take(js@.len() as int),
                            job_models(self.pending@) == old_pending + all_jobs.skip(
                                js@.len() as int,
                            ).reverse(),
                            self.agg == agg0,
                            self.seen@ == seen1,
                            self.entry_cnt == cnt1,
                            self.errors == old(self).errors,
                            self.config == old(self).config,
                            self.filter == old(self).filter,
                            self.extended == old(self).extended,
                            self.state == old(self).state,
                        decreases js@.len(),
                    {
                        let ghost m = js@.len() as int;
                        let ghost js_pre = js@;
                        let j = js.pop().unwrap();
                        proof {
                            assert(job_models(js@) =~= all_jobs.take(m - 1));
                            assert(j == js_pre.last());
                            assert(job_models(js_pre)[m - 1] == js_pre.last()@);
                            assert(j@ == all_jobs[m - 1]);
                            crate::types::lemma_job_models_push(self.pending@, j);
                            assert(old_pending + all_jobs.skip(m - 1).reverse() =~= (old_pending
                                + all_jobs.skip(m).reverse()).push(all_jobs[m - 1]));
                        }
                        self.pending.push(j);
                    }
                    proof {
                        assert(all_jobs.skip(0).reverse() =~= all_jobs.reverse());
                    }
                }
            },
        }
    }

    /// The aggregate so far; final once the count has finished.
    pub fn statistics(&self) -> (r: Aggregate)
        ensures
            r == self.agg,
    {
        self.agg
    }

    /// The traversal errors so far; final once the count has finished.
    pub fn collect_errors(&self) -> (r: Vec<ScanError>)
        ensures
            error_models(r@) == error_models(self.errors@),
    {
        proof {
            assert(error_models(self.errors@).skip(0) =~= error_models(self.errors@));
        }
        crate::channel::clone_errors_from(&self.errors, 0)
    }
}

} // verus!
