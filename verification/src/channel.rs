//! The store a scan's worker pushes into and a consumer drains.
//!
//! The channel is append-only and partitioned into entries and errors,
//! each with its own last-consumed offset. An only-new read returns the
//! items pushed since the previous only-new read; a full read returns
//! everything retained. With `store` unset the channel does not retain
//! delivered items: every drain hands out what is held and evicts it.
//! Nothing is ever lost: every pushed item is delivered exactly once to
//! consecutive only-new reads, and the pushed history grows without
//! bound unless eviction is on — a documented trade, not a cap.

use vstd::prelude::*;

use crate::types::Entry;
use crate::types::EntryModel;
use crate::types::ErrorModel;
use crate::types::ScanError;
use crate::types::entry_models;
use crate::types::error_models;

verus! {

/// Thread-unaware core of the result store; a driver that polls from
/// another thread serializes access around it.
pub struct ResultChannel {
    /// Whether delivered items are retained for repeated full reads.
    pub store: bool,
    /// Retained entries, in production order.
    pub entries: Vec<Entry>,
    /// Retained errors, in production order.
    pub errors: Vec<ScanError>,
    /// Index into `entries` of the first item no only-new read has seen.
    pub entries_start: usize,
    /// Index into `errors` of the first item no only-new read has seen.
    pub errors_start: usize,
    /// Models of the entries delivered and evicted (`store` unset).
    pub evicted_entries: Ghost<Seq<EntryModel>>,
    /// Models of the errors delivered and evicted (`store` unset).
    pub evicted_errors: Ghost<Seq<ErrorModel>>,
}

impl ResultChannel {
    /// Every entry ever pushed, in production order.
    pub open spec fn all_entries(self) -> Seq<EntryModel> {
        self.evicted_entries@ + entry_models(self.entries@)
    }

    /// Every error ever pushed, in production order.
    pub open spec fn all_errors(self) -> Seq<ErrorModel> {
        self.evicted_errors@ + error_models(self.errors@)
    }

    /// How many pushed entries only-new reads have delivered so far.
    pub open spec fn taken_entries(self) -> int {
        self.evicted_entries@.len() + self.entries_start
    }

    /// How many pushed errors only-new reads have delivered so far.
    pub open spec fn taken_errors(self) -> int {
        self.evicted_errors@.len() + self.errors_start
    }

    /// Well-formedness: offsets stay inside the stores, and eviction
    /// happens exactly when retention is off.
    pub open spec fn wf(self) -> bool {
        &&& self.entries_start <= self.entries@.len()
        &&& self.errors_start <= self.errors@.len()
        &&& (self.store ==> self.evicted_entries@.len() == 0 && self.evicted_errors@.len() == 0)
        &&& (!self.store ==> self.entries_start == 0 && self.errors_start == 0)
    }

    /// What a read with the given flag returns: the un-delivered suffix,
    /// or everything still retained.
    pub open spec fn available_entries(self, only_new: bool) -> Seq<EntryModel> {
        if only_new {
            self.all_entries().skip(self.taken_entries())
        } else {
            self.all_entries().skip(self.evicted_entries@.len() as int)
        }
    }

    /// The error counterpart of [`Self::available_entries`].
    pub open spec fn available_errors(self, only_new: bool) -> Seq<ErrorModel> {
        if only_new {
            self.all_errors().skip(self.taken_errors())
        } else {
            self.all_errors().skip(self.evicted_errors@.len() as int)
        }
    }

    /// An empty channel with the given retention policy.
    pub fn new(store: bool) -> (r: ResultChannel)
        ensures
            r.wf(),
            r.store == store,
            r.all_entries().len() == 0,
            r.all_errors().len() == 0,
            r.taken_entries() == 0,
            r.taken_errors() == 0,
    {
        ResultChannel {
            store,
            entries: Vec::new(),
            errors: Vec::new(),
            entries_start: 0,
            errors_start: 0,
            evicted_entries: Ghost(Seq::empty()),
            evicted_errors: Ghost(Seq::empty()),
        }
    }

    /// Appends one entry; never blocks and never drops anything.
    pub fn push_entry(&mut self, e: Entry)
        requires
            old(self).wf(),
        ensures
            final(self).wf(),
            final(self).store == old(self).store,
            final(self).all_entries() == old(self).all_entries().push(e@),
            final(self).taken_entries() == old(self).taken_entries(),
            final(self).all_errors() == old(self).all_errors(),
            final(self).taken_errors() == old(self).taken_errors(),
    {
        let ghost pre = self.all_entries();
        self.entries.push(e);
        proof {
            assert(self.all_entries() =~= pre.push(e@));
            assert(self.all_errors() =~= old(self).all_errors());
        }
    }

    /// Appends one error; never blocks and never drops anything.
    pub fn push_error(&mut self, e: ScanError)
        requires
            old(self).wf(),
        ensures
            final(self).wf(),
            final(self).store == old(self).store,
            final(self).all_errors() == old(self).all_errors().push(e@),
            final(self).taken_errors() == old(self).taken_errors(),
            final(self).all_entries() == old(self).all_entries(),
            final(self).taken_entries() == old(self).taken_entries(),
    {
        let ghost pre = self.all_errors();
        self.errors.push(e);
        proof {
            assert(self.all_errors() =~= pre.push(e@));
            assert(self.all_entries() =~= old(self).all_entries());
        }
    }

    /// How many entries a read with this flag would return.
    pub fn entries_cnt(&self, only_new: bool) -> (r: usize)
        requires
            self.wf(),
        ensures
            r == self.available_entries(only_new).len(),
    {
        if only_new {
            self.entries.len() - self.entries_start
        } else {
            self.entries.len()
        }
    }

    /// How many errors a read with this flag would return.
    pub fn errors_cnt(&self, only_new: bool) -> (r: usize)
        requires
            self.wf(),
        ensures
            r == self.available_errors(only_new).len(),
    {
        if only_new {
            self.errors.len() - self.errors_start
        } else {
            self.errors.len()
        }
    }

    /// Delivers entries. An only-new read returns exactly the entries
    /// pushed since the last only-new read and advances the offset; a
    /// full read returns everything retained and, when retention is on,
    /// leaves the channel untouched.
    pub fn take_entries(&mut self, only_new: bool) -> (r: Vec<Entry>)
        requires
            old(self).wf(),
        ensures
            final(self).wf(),
            entry_models(r@) == old(self).available_entries(only_new),
            final(self).store == old(self).store,
            final(self).all_entries() == old(self).all_entries(),
            final(self).taken_entries() == if only_new || !old(self).store {
                old(self).all_entries().len() as int
            } else {
                old(self).taken_entries()
            },
            final(self).all_errors() == old(self).all_errors(),
            final(self).taken_errors() == old(self).taken_errors(),
            !only_new && old(self).store ==> *final(self) == *old(self),
    {
        let from: usize = if only_new {
            self.entries_start
        } else {
            0
        };
        let r = clone_entries_from(&self.entries, from);
        if !self.store {
            proof {
                assert(entry_models(self.entries@).skip(0) =~= entry_models(self.entries@));
            }
            let ghost all = self.all_entries();
            self.evicted_entries = Ghost(self.all_entries());
            self.entries = Vec::new();
            proof {
                assert(self.all_entries() =~= all);
                assert(self.all_errors() =~= old(self).all_errors());
            }
        } else if only_new {
            self.entries_start = self.entries.len();
        }
        r
    }

    /// Delivers errors, with the same selection semantics as
    /// [`Self::take_entries`].
    pub fn take_errors(&mut self, only_new: bool) -> (r: Vec<ScanError>)
        requires
            old(self).wf(),
        ensures
            final(self).wf(),
            error_models(r@) == old(self).available_errors(only_new),
            final(self).store == old(self).store,
            final(self).all_errors() == old(self).all_errors(),
            final(self).taken_errors() == if only_new || !old(self).store {
                old(self).all_errors().len() as int
            } else {
                old(self).taken_errors()
            },
            final(self).all_entries() == old(self).all_entries(),
            final(self).taken_entries() == old(self).taken_entries(),
            !only_new && old(self).store ==> *final(self) == *old(self),
    {
        let from: usize = if only_new {
            self.errors_start
        } else {
            0
        };
        let r = clone_errors_from(&self.errors, from);
        if !self.store {
            proof {
                assert(error_models(self.errors@).skip(0) =~= error_models(self.errors@));
            }
            let ghost all = self.all_errors();
            self.evicted_errors = Ghost(self.all_errors());
            self.errors = Vec::new();
            proof {
                assert(self.all_errors() =~= all);
                assert(self.all_entries() =~= old(self).all_entries());
            }
        } else if only_new {
            self.errors_start = self.errors.len();
        }
        r
    }
}

/// Clones the suffix of an entry store starting at `from`.
pub(crate) fn clone_entries_from(v: &Vec<Entry>, from: usize) -> (r: Vec<Entry>)
    requires
        from <= v@.len(),
    ensures
        entry_models(r@) == entry_models(v@).skip(from as int),
{
    let mut r: Vec<Entry> = Vec::new();
    let mut i: usize = from;
    while i < v.len()
        invariant
            from <= i <= v@.len(),
            r@.len() == i - from,
            entry_models(r@) =~= entry_models(v@).subrange(from as int, i as int),
        decreases v@.len() - i,
    {
        let e = v[i].clone();
        proof {
            assert(e@ == entry_models(v@)[i as int]);
        }
        r.push(e);
        proof {
            assert(entry_models(r@) =~= entry_models(v@).subrange(from as int, i + 1 as int));
        }
        i = i + 1;
    }
    proof {
        assert(entry_models(v@).subrange(from as int, v@.len() as int) =~= entry_models(v@).skip(
            from as int,
        ));
    }
    r
}

/// Clones the suffix of an error store starting at `from`.
pub(crate) fn clone_errors_from(v: &Vec<ScanError>, from: usize) -> (r: Vec<ScanError>)
    requires
        from <= v@.len(),
    ensures
        error_models(r@) == error_models(v@).skip(from as int),
{
    let mut r: Vec<ScanError> = Vec::new();
    let mut i: usize = from;
    while i < v.len()
        invariant
            from <= i <= v@.len(),
            r@.len() == i - from,
            error_models(r@) =~= error_models(v@).subrange(from as int, i as int),
        decreases v@.len() - i,
    {
        let e = v[i].clone();
        proof {
            assert(e@ == error_models(v@)[i as int]);
        }
        r.push(e);
        proof {
            assert(error_models(r@) =~= error_models(v@).subrange(from as int, i + 1 as int));
        }
        i = i + 1;
    }
    proof {
        assert(error_models(v@).subrange(from as int, v@.len() as int) =~= error_models(v@).skip(
            from as int,
        ));
    }
    r
}

} // verus!
