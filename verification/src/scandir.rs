//! The scan engine: lifecycle state machine, walker bookkeeping and the
//! consumer surface.
//!
//! The engine owns the configuration, the compiled filter, the result
//! channel and a stack of directories still to read. A driver runs the
//! scan by asking for the next directory with [`Scandir::take_job`],
//! reading it, and handing the outcome back through [`Scandir::feed`];
//! everything the engine decides about that outcome — ordering,
//! filtering, depth and count limits, error recording, termination and
//! cancellation — is stated in the contracts here. Stopping is
//! cooperative: [`Scandir::stop`] raises a flag, and the very next
//! [`Scandir::take_job`] finishes the scan, so stop-to-exit latency is
//! one directory read, never the rest of the tree.

use vstd::prelude::*;

use crate::channel::ResultChannel;
use crate::filter::PathFilter;
use crate::filter::filter_of;
use crate::types::DirJob;
use crate::types::EngineState;
use crate::types::EntryModel;
use crate::types::ItemModel;
use crate::types::Entry;
use crate::types::ErrorModel;
use crate::types::JobModel;
use crate::types::RawEntry;
use crate::types::ResultItem;
use crate::types::ScanConfig;
use crate::types::ScanError;
use crate::types::entry_models;
use crate::types::error_models;
use crate::types::job_models;
use crate::walk::accepted_entries;
use crate::walk::listing_order;
use crate::walk::process_listing;
use crate::walk::sub_jobs;
use crate::types::raw_models;

verus! {

/// Addition on `usize` that stops at the largest value instead of
/// wrapping.
pub open spec fn sat_add_usize(a: int, b: int) -> int {
    if a + b > usize::MAX {
        usize::MAX as int
    } else {
        a + b
    }
}

/// The models of path-keyed result pairs.
pub open spec fn pair_models(s: Seq<(String, ResultItem)>) -> Seq<(Seq<char>, ItemModel)> {
    s.map_values(|p: (String, ResultItem)| (p.0@, p.1@))
}

/// Every entry under its path, then every error under the path that
/// failed, in delivery order.
pub open spec fn dict_of(entries: Seq<EntryModel>, errors: Seq<ErrorModel>) -> Seq<
    (Seq<char>, ItemModel),
> {
    entries.map_values(|e: EntryModel| (e.path, ItemModel::Entry(e))) + errors.map_values(
        |e: ErrorModel| (e.path, ItemModel::Error(e)),
    )
}

/// A wall-clock reading in milliseconds, used only to time scans.
///
/// Relies on `std::time::SystemTime::now`; nothing is promised of the
/// value, since it depends on the clock.
#[verifier::external_body]
fn now_millis() -> u64 {
    match std::time::SystemTime::now().duration_since(std::time::UNIX_EPOCH) {
        Ok(d) => d.as_millis() as u64,
        Err(_) => 0,
    }
}

/// A traversal engine for one root directory.
pub struct Scandir {
    /// The scan's configuration, immutable while the scan runs.
    pub config: ScanConfig,
    /// The configuration's pattern lists, compiled once.
    pub filter: PathFilter,
    /// Lifecycle state.
    pub state: EngineState,
    /// Where produced entries and errors accumulate.
    pub channel: ResultChannel,
    /// Directories scheduled and not yet read, top of the stack next.
    pub pending: Vec<DirJob>,
    /// Material entries produced by the running scan, for the count limit.
    pub entry_cnt: usize,
    /// Whether any scan was ever started on this engine.
    pub started_ever: bool,
    /// Clock reading at the last start.
    pub start_ms: u64,
    /// Wall time of the last finished scan, milliseconds; zero until a
    /// scan finishes, frozen until `clear` or the next `start`.
    pub duration_ms: u64,
}

impl Scandir {
    /// The engine is busy while a scan runs or winds down.
    pub open spec fn is_busy(self) -> bool {
        self.state == EngineState::Running || self.state == EngineState::Stopping
    }

    /// Well-formedness: the filter belongs to the configuration, the
    /// channel is sound and keeps the configuration's retention policy,
    /// the entry counter counts exactly the entries ever pushed, and a
    /// busy scan with a count limit is still under it.
    pub open spec fn wf(self) -> bool {
        &&& self.channel.wf()
        &&& self.filter@ == filter_of(self.config@)
        &&& self.channel.store == self.config@.store
        &&& (self.config@.max_file_cnt > 0 ==> self.entry_cnt
            == self.channel.all_entries().len())
        &&& (self.config@.max_file_cnt > 0 ==> self.entry_cnt <= self.config@.max_file_cnt)
        &&& (self.is_busy() && self.config@.max_file_cnt > 0 ==> self.entry_cnt
            < self.config@.max_file_cnt)
    }

    /// A fresh engine in the idle state. The driver is expected to have
    /// checked that the root exists and is a directory; a root that
    /// turns out unreadable surfaces as a traversal error instead.
    pub fn new(config: ScanConfig) -> (r: Scandir)
        ensures
            r.wf(),
            r.config == config,
            r.state == EngineState::Idle,
            r.channel.all_entries().len() == 0,
            r.channel.all_errors().len() == 0,
            r.pending@.len() == 0,
            r.entry_cnt == 0,
            !r.started_ever,
            r.duration_ms == 0,
    {
        let filter = PathFilter::new(&config);
        let store = config.store;
        Scandir {
            config,
            filter,
            state: EngineState::Idle,
            channel: ResultChannel::new(store),
            pending: Vec::new(),
            entry_cnt: 0,
            started_ever: false,
            start_ms: 0,
            duration_ms: 0,
        }
    }

    /// True while a scan runs or winds down.
    pub fn busy(&self) -> (r: bool)
        ensures
            r == self.is_busy(),
    {
        self.state == EngineState::Running || self.state == EngineState::Stopping
    }

    /// True once a scan has run to its end — naturally, by limit, or by
    /// cancellation — and the engine was not cleared since.
    pub fn finished(&self) -> (r: bool)
        ensures
            r == (self.state == EngineState::Finished),
    {
        self.state == EngineState::Finished
    }

    /// Forgets all results and goes back to idle; refused while a scan
    /// is busy.
    pub fn clear(&mut self) -> (r: bool)
        requires
            old(self).wf(),
        ensures
            final(self).wf(),
            r == !old(self).is_busy(),
            !r ==> *final(self) == *old(self),
            r ==> {
                &&& final(self).state == EngineState::Idle
                &&& final(self).channel.all_entries().len() == 0
                &&& final(self).channel.all_errors().len() == 0
                &&& final(self).pending@.len() == 0
                &&& final(self).entry_cnt == 0
                &&& final(self).duration_ms == 0
                &&& final(self).config == old(self).config
                &&& final(self).started_ever == old(self).started_ever
            },
    {
        if self.state == EngineState::Running || self.state == EngineState::Stopping {
            return false;
        }
        self.channel = ResultChannel::new(self.config.store);
        self.pending = Vec::new();
        self.entry_cnt = 0;
        self.duration_ms = 0;
        self.start_ms = 0;
        self.state = EngineState::Idle;
        true
    }

    /// Begins a fresh scan: schedules the root at depth zero and moves
    /// to running. Refused while a scan is already busy.
    pub fn start(&mut self) -> (r: bool)
        requires
            old(self).wf(),
        ensures
            final(self).wf(),
            r == !old(self).is_busy(),
            !r ==> *final(self) == *old(self),
            r ==> {
                &&& final(self).state == EngineState::Running
                &&& final(self).channel.all_entries().len() == 0
                &&& final(self).channel.all_errors().len() == 0
                &&& final(self).channel.taken_entries() == 0
                &&& final(self).channel.taken_errors() == 0
                &&& job_models(final(self).pending@) == seq![
                    JobModel { path: old(self).config@.root, depth: 0 },
                ]
                &&& final(self).entry_cnt == 0
                &&& final(self).started_ever
                &&& final(self).config == old(self).config
            },
    {
        if self.state == EngineState::Running || self.state == EngineState::Stopping {
            return false;
        }
        self.channel = ResultChannel::new(self.config.store);
        self.pending = Vec::new();
        self.pending.push(DirJob { path: self.config.root.clone(), depth: 0 });
        self.entry_cnt = 0;
        self.started_ever = true;
        self.start_ms = now_millis();
        self.duration_ms = 0;
        self.state = EngineState::Running;
        proof {
            assert(job_models(self.pending@) =~= seq![
                JobModel { path: old(self).config@.root, depth: 0 },
            ]);
        }
        true
    }

    /// Requests cooperative cancellation; refused when no scan is busy.
    /// The flag is observed at the next directory boundary.
    pub fn stop(&mut self) -> (r: bool)
        requires
            old(self).wf(),
        ensures
            final(self).wf(),
            r == old(self).is_busy(),
            !r ==> *final(self) == *old(self),
            r ==> {
                &&& final(self).state == EngineState::Stopping
                &&& final(self).channel == old(self).channel
                &&& final(self).pending == old(self).pending
                &&& final(self).entry_cnt == old(self).entry_cnt
                &&& final(self).config == old(self).config
                &&& final(self).started_ever == old(self).started_ever
                &&& final(self).duration_ms == old(self).duration_ms
            },
    {
        if self.state == EngineState::Running || self.state == EngineState::Stopping {
            self.state = EngineState::Stopping;
            true
        } else {
            false
        }
    }

    /// The engine's share of joining the worker: the misuse check. A
    /// join is meaningful only once a scan was ever started; the
    /// blocking wait itself belongs to the driver that owns the thread.
    pub fn join(&self) -> (r: bool)
        ensures
            r == self.started_ever,
    {
        self.started_ever
    }

    /// Ends the running scan now: records the wall time and drops the
    /// unread backlog.
    fn finish_now(&mut self)
        requires
            old(self).wf(),
        ensures
            final(self).wf(),
            final(self).state == EngineState::Finished,
            final(self).pending@.len() == 0,
            final(self).channel == old(self).channel,
            final(self).entry_cnt == old(self).entry_cnt,
            final(self).config == old(self).config,
            final(self).started_ever == old(self).started_ever,
    {
        let now = now_millis();
        self.duration_ms = if now >= self.start_ms {
            now - self.start_ms
        } else {
            0
        };
        self.pending = Vec::new();
        self.state = EngineState::Finished;
    }

    /// Hands the driver the next directory to read, or finishes the
    /// scan: on cancellation it finishes at once — before any further
    /// filesystem work — and on an empty backlog it finishes naturally.
    /// Outside a busy scan it is a no-op.
    pub fn take_job(&mut self) -> (r: Option<DirJob>)
        requires
            old(self).wf(),
        ensures
            final(self).wf(),
            final(self).channel == old(self).channel,
            final(self).entry_cnt == old(self).entry_cnt,
            final(self).config == old(self).config,
            final(self).started_ever == old(self).started_ever,
            old(self).state == EngineState::Idle || old(self).state == EngineState::Finished ==> r
                == Option::<DirJob>::None && *final(self) == *old(self),
            old(self).state == EngineState::Stopping ==> r == Option::<DirJob>::None
                && final(self).state == EngineState::Finished && final(self).pending@.len() == 0,
            old(self).state == EngineState::Running && old(self).pending@.len() == 0 ==> r
                == Option::<DirJob>::None && final(self).state == EngineState::Finished,
            old(self).state == EngineState::Running && old(self).pending@.len() > 0 ==> {
                &&& r == Option::Some(old(self).pending@.last())
                &&& final(self).state == EngineState::Running
                &&& final(self).pending@ == old(self).pending@.drop_last()
            },
    {
        match self.state {
            EngineState::Idle => None,
            EngineState::Finished => None,
            EngineState::Stopping => {
                self.finish_now();
                None
            },
            EngineState::Running => {
                if self.pending.len() == 0 {
                    self.finish_now();
                    None
                } else {
                    let j = self.pending.pop().unwrap();
                    Some(j)
                }
            },
        }
    }

    /// Whether a read with this flag would deliver anything: entries or
    /// errors.
    pub fn has_results(&self, only_new: bool) -> (r: bool)
        requires
            self.wf(),
        ensures
            r == (self.channel.available_entries(only_new).len() + self.channel.available_errors(
                only_new,
            ).len() > 0),
    {
        self.channel.entries_cnt(only_new) > 0 || self.channel.errors_cnt(only_new) > 0
    }

    /// How many items — entries and errors together — a read with this
    /// flag would deliver.
    pub fn results_cnt(&self, only_new: bool) -> (r: usize)
        requires
            self.wf(),
        ensures
            r as int == sat_add_usize(
                self.channel.available_entries(only_new).len() as int,
                self.channel.available_errors(only_new).len() as int,
            ),
    {
        let a = self.channel.entries_cnt(only_new);
        let b = self.channel.errors_cnt(only_new);
        if a > usize::MAX - b {
            usize::MAX
        } else {
            a + b
        }
    }

    /// Delivers entries and errors under the flag's selection: all
    /// items pushed since the last only-new read, or everything
    /// retained. An only-new read — and, without retention, any read —
    /// moves the consumption offsets to the end of the pushed history,
    /// so an immediate repeat delivers nothing new; a full read on a
    /// retaining channel leaves the engine untouched, so repeating it
    /// returns the same results.
    pub fn results(&mut self, only_new: bool) -> (r: (Vec<Entry>, Vec<ScanError>))
        requires
            old(self).wf(),
        ensures
            final(self).wf(),
            entry_models(r.0@) == old(self).channel.available_entries(only_new),
            error_models(r.1@) == old(self).channel.available_errors(only_new),
            final(self).channel.all_entries() == old(self).channel.all_entries(),
            final(self).channel.all_errors() == old(self).channel.all_errors(),
            final(self).channel.taken_entries() == if only_new || !old(self).config@.store {
                old(self).channel.all_entries().len() as int
            } else {
                old(self).channel.taken_entries()
            },
            final(self).channel.taken_errors() == if only_new || !old(self).config@.store {
                old(self).channel.all_errors().len() as int
            } else {
                old(self).channel.taken_errors()
            },
            final(self).state == old(self).state,
            final(self).config == old(self).config,
            final(self).pending == old(self).pending,
            final(self).entry_cnt == old(self).entry_cnt,
            final(self).started_ever == old(self).started_ever,
            final(self).duration_ms == old(self).duration_ms,
            !only_new && old(self).config@.store ==> *final(self) == *old(self),
    {
        let e = self.channel.take_entries(only_new);
        let er = self.channel.take_errors(only_new);
        (e, er)
    }

    /// Whether a read with this flag would deliver any entry.
    pub fn has_entries(&self, only_new: bool) -> (r: bool)
        requires
            self.wf(),
        ensures
            r == (self.channel.available_entries(only_new).len() > 0),
    {
        self.channel.entries_cnt(only_new) > 0
    }

    /// How many entries a read with this flag would deliver.
    pub fn entries_cnt(&self, only_new: bool) -> (r: usize)
        requires
            self.wf(),
        ensures
            r == self.channel.available_entries(only_new).len(),
    {
        self.channel.entries_cnt(only_new)
    }

    /// Delivers entries only, under the flag's selection, moving the
    /// entry offset as [`Self::results`] would; the error store and its
    /// offset are untouched.
    pub fn entries(&mut self, only_new: bool) -> (r: Vec<Entry>)
        requires
            old(self).wf(),
        ensures
            final(self).wf(),
            entry_models(r@) == old(self).channel.available_entries(only_new),
            final(self).channel.all_entries() == old(self).channel.all_entries(),
            final(self).channel.all_errors() == old(self).channel.all_errors(),
            final(self).channel.taken_entries() == if only_new || !old(self).config@.store {
                old(self).channel.all_entries().len() as int
            } else {
                old(self).channel.taken_entries()
            },
            final(self).channel.taken_errors() == old(self).channel.taken_errors(),
            final(self).state == old(self).state,
            final(self).config == old(self).config,
            final(self).pending == old(self).pending,
            final(self).entry_cnt == old(self).entry_cnt,
            final(self).started_ever == old(self).started_ever,
            final(self).duration_ms == old(self).duration_ms,
    {
        self.channel.take_entries(only_new)
    }

    /// Whether any traversal error has been recorded.
    pub fn has_errors(&self) -> (r: bool)
        requires
            self.wf(),
        ensures
            r == (self.channel.available_errors(false).len() > 0),
    {
        self.channel.errors_cnt(false) > 0
    }

    /// How many traversal errors are retained.
    pub fn errors_cnt(&self) -> (r: usize)
        requires
            self.wf(),
        ensures
            r == self.channel.available_errors(false).len(),
    {
        self.channel.errors_cnt(false)
    }

    /// Delivers errors only, under the flag's selection, moving the
    /// error offset as [`Self::results`] would; the entry store and its
    /// offset are untouched.
    pub fn errors(&mut self, only_new: bool) -> (r: Vec<ScanError>)
        requires
            old(self).wf(),
        ensures
            final(self).wf(),
            error_models(r@) == old(self).channel.available_errors(only_new),
            final(self).channel.all_entries() == old(self).channel.all_entries(),
            final(self).channel.all_errors() == old(self).channel.all_errors(),
            final(self).channel.taken_entries() == old(self).channel.taken_entries(),
            final(self).channel.taken_errors() == if only_new || !old(self).config@.store {
                old(self).channel.all_errors().len() as int
            } else {
                old(self).channel.taken_errors()
            },
            final(self).state == old(self).state,
            final(self).config == old(self).config,
            final(self).pending == old(self).pending,
            final(self).entry_cnt == old(self).entry_cnt,
            final(self).started_ever == old(self).started_ever,
            final(self).duration_ms == old(self).duration_ms,
    {
        self.channel.take_errors(only_new)
    }

    /// Delivers the same selection as [`Self::results`], flattened to
    /// path-keyed pairs: every entry under its path, then every error
    /// under the path that failed.
    #[verifier::loop_isolation(false)]
    pub fn as_dict(&mut self, only_new: bool) -> (r: Vec<(String, ResultItem)>)
        requires
            old(self).wf(),
        ensures
            final(self).wf(),
            pair_models(r@) == dict_of(
                old(self).channel.available_entries(only_new),
                old(self).channel.available_errors(only_new),
            ),
            final(self).channel.all_entries() == old(self).channel.all_entries(),
            final(self).channel.all_errors() == old(self).channel.all_errors(),
            final(self).channel.taken_entries() == if only_new || !old(self).config@.store {
                old(self).channel.all_entries().len() as int
            } else {
                old(self).channel.taken_entries()
            },
            final(self).channel.taken_errors() == if only_new || !old(self).config@.store {
                old(self).channel.all_errors().len() as int
            } else {
                old(self).channel.taken_errors()
            },
            final(self).state == old(self).state,
            final(self).config == old(self).config,
            final(self).pending == old(self).pending,
            final(self).entry_cnt == old(self).entry_cnt,
            final(self).started_ever == old(self).started_ever,
            final(self).duration_ms == old(self).duration_ms,
    {
        let (ents, errs) = self.results(only_new);
        let ghost evs = entry_models(ents@);
        let ghost rvs = error_models(errs@);
        proof {
            assert(evs.len() == ents@.len());
            assert(rvs.len() == errs@.len());
        }
        let mut out: Vec<(String, ResultItem)> = Vec::new();
        let mut i: usize = 0;
        while i < ents.len()
            invariant
                i <= ents@.len(),
                out@.len() == i,
                pair_models(out@) == evs.take(i as int).map_values(
                    |e: EntryModel| (e.path, ItemModel::Entry(e)),
                ),
            decreases ents@.len() - i,
        {
            let e = ents[i].clone();
            let key = e.path.clone();
            let ghost ev = e@;
            let ghost kv = key@;
            proof {
                assert(ev == evs[i as int]);
                assert(kv == ev.path);
            }
            let ghost pre_out = out@;
            out.push((key, ResultItem::Entry(e)));
            proof {
                let rhs = evs.take(i + 1 as int).map_values(
                    |e: EntryModel| (e.path, ItemModel::Entry(e)),
                );
                assert(rhs.len() == i + 1);
                assert(pair_models(out@).len() == i + 1);
                assert forall|t: int| 0 <= t < i + 1 implies pair_models(out@)[t] == rhs[t] by {
                    assert(rhs[t] == (evs[t].path, ItemModel::Entry(evs[t])));
                    assert(pair_models(out@)[t] == (out@[t].0@, out@[t].1@));
                    if t < i {
                        assert(out@[t] == pre_out[t]);
                        assert(pair_models(pre_out)[t] == (pre_out[t].0@, pre_out[t].1@));
                    } else {
                        assert(out@[t].0@ == kv);
                        assert(out@[t].1@ == ItemModel::Entry(ev));
                    }
                }
                assert(pair_models(out@) =~~= rhs);
            }
            i = i + 1;
        }
        let mut k: usize = 0;
        while k < errs.len()
            invariant
                k <= errs@.len(),
                out@.len() == ents@.len() + k,
                pair_models(out@) == evs.map_values(|e: EntryModel| (e.path, ItemModel::Entry(e)))
                    + rvs.take(k as int).map_values(
                    |e: ErrorModel| (e.path, ItemModel::Error(e)),
                ),
            decreases errs@.len() - k,
        {
            let e = errs[k].clone();
            let key = e.path.clone();
            let ghost ev = e@;
            let ghost kv = key@;
            proof {
                assert(ev == rvs[k as int]);
                assert(kv == ev.path);
            }
            let ghost pre_out = out@;
            out.push((key, ResultItem::Error(e)));
            proof {
                let rhs = evs.map_values(|e: EntryModel| (e.path, ItemModel::Entry(e)))
                    + rvs.take(k + 1 as int).map_values(
                    |e: ErrorModel| (e.path, ItemModel::Error(e)),
                );
                assert(rhs.len() == evs.len() + k + 1);
                assert(pair_models(out@).len() == out@.len());
                assert forall|t: int| 0 <= t < out@.len() implies pair_models(out@)[t] == rhs[t] by {
                    assert(pair_models(out@)[t] == (out@[t].0@, out@[t].1@));
                    if t < evs.len() + k {
                        assert(out@[t] == pre_out[t]);
                        assert(pair_models(pre_out)[t] == (pre_out[t].0@, pre_out[t].1@));
                        if t >= evs.len() {
                            assert(rhs[t] == (rvs[t - evs.len()].path, ItemModel::Error(
                                rvs[t - evs.len()],
                            )));
                        }
                    } else {
                        assert(out@[t].0@ == kv);
                        assert(out@[t].1@ == ItemModel::Error(ev));
                        assert(rhs[t] == (rvs[k as int].path, ItemModel::Error(rvs[k as int])));
                    }
                }
                assert(pair_models(out@) =~~= rhs);
            }
            k = k + 1;
        }
        proof {
            assert(evs.take(ents@.len() as int) =~= evs);
            assert(rvs.take(errs@.len() as int) =~= rvs);
        }
        out
    }

    /// Wall time of the last finished scan in milliseconds: zero before
    /// the first start, frozen from finish until `clear` or a new
    /// start. While a scan is busy the value read is the elapsed time
    /// so far, which depends on the clock and is not specified.
    pub fn duration(&self) -> (r: u64)
        ensures
            !self.is_busy() ==> r == self.duration_ms,
    {
        if self.state == EngineState::Running || self.state == EngineState::Stopping {
            let now = now_millis();
            if now >= self.start_ms {
                now - self.start_ms
            } else {
                0
            }
        } else {
            self.duration_ms
        }
    }

    /// Folds the outcome of reading one directory into the scan.
    ///
    /// A failed read becomes one error keyed to the directory's path and
    /// the scan goes on. A successful listing is visited in order:
    /// accepted children become entries, up to the count limit, and
    /// accepted subdirectories above the depth limit are scheduled,
    /// first child on top. Reaching the count limit finishes the scan
    /// cleanly, with no error and nothing further scheduled.
    #[verifier::loop_isolation(false)]
    pub fn feed(&mut self, job: DirJob, listing: Result<Vec<RawEntry>, String>)
        requires
            old(self).wf(),
            old(self).is_busy(),
        ensures
            final(self).wf(),
            final(self).config == old(self).config,
            final(self).started_ever == old(self).started_ever,
            final(self).channel.taken_entries() == old(self).channel.taken_entries(),
            final(self).channel.taken_errors() == old(self).channel.taken_errors(),
            match listing {
                Result::Err(msg) => {
                    &&& final(self).channel.all_errors() == old(self).channel.all_errors().push(
                        ErrorModel { path: job@.path, message: msg@ },
                    )
                    &&& final(self).channel.all_entries() == old(self).channel.all_entries()
                    &&& final(self).entry_cnt == old(self).entry_cnt
                    &&& final(self).state == old(self).state
                    &&& final(self).pending == old(self).pending
                },
                Result::Ok(l) => {
                    let kids = listing_order(old(self).config@, raw_models(l@));
                    let items = accepted_entries(old(self).config@, job@, kids);
                    let max = old(self).config@.max_file_cnt;
                    let budget = if max == 0 || items.len() <= max - old(self).entry_cnt {
                        items.len() as int
                    } else {
                        max - old(self).entry_cnt
                    };
                    &&& final(self).channel.all_entries() == old(self).channel.all_entries()
                        + items.take(budget)
                    &&& (max > 0 ==> final(self).entry_cnt == old(self).entry_cnt + budget)
                    &&& (max == 0 ==> final(self).entry_cnt == old(self).entry_cnt)
                    &&& final(self).channel.all_errors() == old(self).channel.all_errors()
                    &&& if max > 0 && old(self).entry_cnt + budget == max {
                        &&& final(self).state == EngineState::Finished
                        &&& final(self).pending@.len() == 0
                    } else {
                        &&& final(self).state == old(self).state
                        &&& job_models(final(self).pending@) == job_models(old(self).pending@)
                            + sub_jobs(old(self).config@, job@, kids).reverse()
                    }
                },
            },
    {
        match listing {
            Err(msg) => {
                self.channel.push_error(ScanError { path: job.path, message: msg });
            },
            Ok(l) => {
                let (ents, jobs) = process_listing(&self.config, &self.filter, &job, l);
                let ghost items = entry_models(ents@);
                let ghost old_all = self.channel.all_entries();
                let ghost old_cnt = self.entry_cnt as int;
                let max = self.config.max_file_cnt;
                let mut i: usize = 0;
                while i < ents.len() && (max == 0 || self.entry_cnt < max)
                    invariant
                        i <= ents@.len(),
                        self.channel.all_entries() == old_all + items.take(i as int),
                        max > 0 ==> self.entry_cnt == old_cnt + i && self.entry_cnt <= max,
                        max == 0 ==> self.entry_cnt == old_cnt,
                        self.channel.wf(),
                        self.channel.store == old(self).channel.store,
                        self.channel.taken_entries() == old(self).channel.taken_entries(),
                        self.channel.taken_errors() == old(self).channel.taken_errors(),
                        self.channel.all_errors() == old(self).channel.all_errors(),
                        self.config == old(self).config,
                        self.filter == old(self).filter,
                        self.pending == old(self).pending,
                        self.state == old(self).state,
                        self.started_ever == old(self).started_ever,
                    decreases ents@.len() - i,
                {
                    let e = ents[i].clone();
                    proof {
                        assert(e@ == items[i as int]);
                        assert(old_all + items.take(i + 1 as int) =~= (old_all + items.take(
                            i as int,
                        )).push(items[i as int]));
                    }
                    self.channel.push_entry(e);
                    if max > 0 {
                        self.entry_cnt = self.entry_cnt + 1;
                    }
                    i = i + 1;
                }
                if max > 0 && self.entry_cnt >= max {
                    let now = now_millis();
                    self.duration_ms = if now >= self.start_ms {
                        now - self.start_ms
                    } else {
                        0
                    };
                    self.pending = Vec::new();
                    self.state = EngineState::Finished;
                } else {
                    let ghost all_jobs = job_models(jobs@);
                    let ghost old_pending = job_models(self.pending@);
                    let ghost chan0 = self.channel;
                    let ghost cnt0 = self.entry_cnt;
                    let mut js = jobs;
                    while js.len() > 0
                        invariant
                            js@.len() <= all_jobs.len(),
                            job_models(js@) == all_jobs.take(js@.len() as int),
                            job_models(self.pending@) == old_pending + all_jobs.skip(
                                js@.len() as int,
                            ).reverse(),
                            self.channel == chan0,
                            self.config == old(self).config,
                            self.filter == old(self).filter,
                            self.state == old(self).state,
                            self.started_ever == old(self).started_ever,
                            self.entry_cnt == cnt0,
                        decreases js@.len(),
                    {
                        let ghost m = js@.len() as int;
                        let ghost js_pre = js@;
                        let j = js.pop().unwrap();
                        proof {
                            assert(job_models(js@) =~= all_jobs.take(m - 1));
                            assert(j == js_pre.last());
                            assert(job_models(js_pre)[m - 1] == js_pre.last()@);
                            assert(j@ == all_jobs[m - 1]);
                            crate::types::lemma_job_models_push(self.pending@, j);
                            assert(old_pending + all_jobs.skip(m - 1).reverse() =~= (old_pending
                                + all_jobs.skip(m).reverse()).push(all_jobs[m - 1]));
                        }
                        self.pending.push(j);
                    }
                    proof {
                        assert(all_jobs.skip(0).reverse() =~= all_jobs.reverse());
                    }
                }
            },
        }
    }
}

} // verus!
