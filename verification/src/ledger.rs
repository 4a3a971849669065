//! The seen-item ledger: which identifiers were already delivered, in this
//! run or in an earlier one.
//!
//! The durable store is kept by the caller. The `Ledger` holds the run's own
//! set and decides from it and from what the store answered; `LedgerState`
//! is the ledger as a whole, store included, and carries the laws.

use crate::text::list_contains;
use vstd::prelude::*;
use vstd::string::*;

verus! {

/// The durable store could not be read or written.
#[derive(Debug, PartialEq, Eq)]
pub struct StorageError {
    /// The store's own message.
    pub detail: String,
}

impl View for StorageError {
    type V = Seq<char>;

    open spec fn view(&self) -> Seq<char> {
        self.detail@
    }
}

impl DeepView for StorageError {
    type V = Seq<char>;

    open spec fn deep_view(&self) -> Seq<char> {
        self.view()
    }
}

/// What the store said when asked whether it holds an identifier.
pub open spec fn lookup_view(stored: Result<bool, StorageError>) -> Result<bool, Seq<char>> {
    match stored {
        Ok(present) => Ok(present),
        Err(error) => Err(error@),
    }
}

/// What the store said when asked to write.
pub open spec fn write_view(written: Result<(), StorageError>) -> Result<(), Seq<char>> {
    match written {
        Ok(done) => Ok(()),
        Err(error) => Err(error@),
    }
}

/// Whether an identifier is to be emitted: never when this run has seen it;
/// otherwise when the store does not hold it. Where the store could not be
/// asked its error is passed on.
pub open spec fn emit_decision(
    in_run: Set<Seq<char>>,
    identifier: Seq<char>,
    stored: Result<bool, Seq<char>>,
) -> Result<bool, Seq<char>> {
    if in_run.contains(identifier) {
        Ok(false)
    } else {
        match stored {
            Ok(present) => Ok(!present),
            Err(error) => Err(error),
        }
    }
}

/// The run's set after an identifier was marked: it joins the set when the
/// store took the write, and the set is unchanged otherwise.
pub open spec fn seen_after_mark(
    in_run: Set<Seq<char>>,
    identifier: Seq<char>,
    written: Result<(), Seq<char>>,
) -> Set<Seq<char>> {
    if written is Ok {
        in_run.insert(identifier)
    } else {
        in_run
    }
}

/// What marking reports: success at once for an identifier that this run has
/// seen, else what the store said.
pub open spec fn mark_result(
    in_run: Set<Seq<char>>,
    identifier: Seq<char>,
    written: Result<(), Seq<char>>,
) -> Result<(), Seq<char>> {
    if in_run.contains(identifier) {
        Ok(())
    } else {
        written
    }
}

/// The identifiers handled in the current run. It is consulted before the
/// durable store, and is never persisted.
pub struct Ledger {
    seen_in_run: Vec<String>,
}

impl View for Ledger {
    type V = Set<Seq<char>>;

    closed spec fn view(&self) -> Set<Seq<char>> {
        self.seen_in_run.deep_view().to_set()
    }
}

impl Ledger {
    /// The ledger at the start of a run: nothing seen yet.
    pub fn new() -> (ledger: Ledger)
        ensures
            ledger@ == Set::<Seq<char>>::empty(),
    {
        Ledger { seen_in_run: Vec::new() }
    }

    /// Whether this run has already handled the identifier. Where it has, the
    /// durable store need not be asked.
    pub fn contains(&self, identifier: &str) -> (seen: bool)
        ensures
            seen == self@.contains(identifier@),
    {
        list_contains(&self.seen_in_run, identifier)
    }

    /// Decides whether an identifier is to be emitted. `stored` is what the
    /// durable store answered when asked whether it holds the identifier; it is
    /// not looked at where this run has already seen the identifier. Nothing
    /// is changed.
    pub fn should_emit(&self, identifier: &str, stored: Result<bool, StorageError>) -> (emit:
        Result<bool, StorageError>)
        ensures
            lookup_view(emit) == emit_decision(self@, identifier@, lookup_view(stored)),
    {
        if self.contains(identifier) {
            Ok(false)
        } else {
            match stored {
                Ok(present) => Ok(!present),
                Err(error) => Err(error),
            }
        }
    }

    /// Records that an identifier was delivered. `written` is what the
    /// durable store answered to the insert-if-absent write; for an identifier
    /// that this run has already seen no write is due and `written` is not
    /// looked at. The identifier joins the run's set only when the store took
    /// the write.
    pub fn mark_seen(&mut self, identifier: &str, written: Result<(), StorageError>) -> (marked:
        Result<(), StorageError>)
        ensures
            write_view(marked) == mark_result(old(self)@, identifier@, write_view(written)),
            final(self)@ == seen_after_mark(
                old(self)@,
                identifier@,
                mark_result(old(self)@, identifier@, write_view(written)),
            ),
    {
        if self.contains(identifier) {
            return Ok(());
        }
        match written {
            Ok(done) => {
                let ghost before = self.seen_in_run.deep_view();
                self.seen_in_run.push(String::from_str(identifier));
                proof {
                    let after = self.seen_in_run.deep_view();
                    assert(after =~= before.push(identifier@));
                    assert forall|id: Seq<char>| after.to_set().contains(id) == before.to_set().insert(
                        identifier@,
                    ).contains(id) by {
                        if before.contains(id) {
                            let j = choose|j: int| 0 <= j < before.len() && before[j] == id;
                            assert(after[j] == id);
                        }
                        if id == identifier@ {
                            assert(after[before.len() as int] == id);
                        }
                    }
                }
                Ok(())
            },
            Err(error) => Err(error),
        }
    }

    /// Forgets what this run has seen, once the durable store was emptied.
    /// `cleared` is what the store answered to the request to delete every
    /// entry; where it failed nothing is forgotten.
    pub fn clear(&mut self, cleared: Result<(), StorageError>) -> (done: Result<(), StorageError>)
        ensures
            write_view(done) == write_view(cleared),
            final(self)@ == if cleared is Ok {
                Set::<Seq<char>>::empty()
            } else {
                old(self)@
            },
    {
        match cleared {
            Ok(done) => {
                self.seen_in_run = Vec::new();
                Ok(())
            },
            Err(error) => Err(error),
        }
    }
}

/// The ledger as a whole: the identifiers that the durable store holds and
/// those that the current run has seen.
pub struct LedgerState {
    pub stored: Set<Seq<char>>,
    pub in_run: Set<Seq<char>>,
}

/// One thing that happens to a ledger between two questions, short of a
/// clear.
pub enum LedgerEvent {
    /// An identifier is marked; `written` says whether the store took the write.
    Mark { identifier: Seq<char>, written: bool },
    /// The run ends and another begins against the same store.
    NextRun,
}

impl LedgerState {
    /// Whatever a run has seen, the store holds: an identifier joins the run's
    /// set only after the store took it.
    pub open spec fn wf(self) -> bool {
        self.in_run.subset_of(self.stored)
    }

    /// What the store answers when asked for an identifier.
    pub open spec fn lookup(self, identifier: Seq<char>) -> Result<bool, Seq<char>> {
        Ok(self.stored.contains(identifier))
    }

    /// Whether the ledger tells to emit an identifier.
    pub open spec fn should_emit(self, identifier: Seq<char>) -> bool {
        emit_decision(self.in_run, identifier, self.lookup(identifier)) == Ok::<bool, Seq<char>>(
            true,
        )
    }

    /// The ledger after an identifier was marked. No write is made for an
    /// identifier that the run has seen; otherwise the store inserts the
    /// identifier if it is absent, unless the write fails.
    pub open spec fn mark_seen(self, identifier: Seq<char>, written: bool) -> LedgerState {
        let answer: Result<(), Seq<char>> = if written {
            Ok(())
        } else {
            Err(Seq::empty())
        };
        LedgerState {
            stored: if !self.in_run.contains(identifier) && written {
                self.stored.insert(identifier)
            } else {
                self.stored
            },
            in_run: seen_after_mark(
                self.in_run,
                identifier,
                mark_result(self.in_run, identifier, answer),
            ),
        }
    }

    /// The ledger after an explicit clear: the store is empty and nothing is
    /// remembered.
    pub open spec fn clear(self) -> LedgerState {
        LedgerState { stored: Set::empty(), in_run: Set::empty() }
    }

    /// The ledger at the start of the next run against the same store.
    pub open spec fn next_run(self) -> LedgerState {
        LedgerState { stored: self.stored, in_run: Set::empty() }
    }

    /// The ledger after one event.
    pub open spec fn after(self, event: LedgerEvent) -> LedgerState {
        match event {
            LedgerEvent::Mark { identifier, written } => self.mark_seen(identifier, written),
            LedgerEvent::NextRun => self.next_run(),
        }
    }

    /// The ledger after a series of events, the first of them first.
    pub open spec fn after_all(self, events: Seq<LedgerEvent>) -> LedgerState
        decreases events.len(),
    {
        if events.len() == 0 {
            self
        } else {
            self.after_all(events.drop_last()).after(events.last())
        }
    }
}

/// No series of marks and new runs takes an identifier out of the store or
/// breaks the ledger's validity.
pub proof fn lemma_store_only_grows(state: LedgerState, events: Seq<LedgerEvent>)
    requires
        state.wf(),
    ensures
        state.after_all(events).wf(),
        state.stored.subset_of(state.after_all(events).stored),
    decreases events.len(),
{
    if events.len() > 0 {
        lemma_store_only_grows(state, events.drop_last());
    }
}

/// Once an identifier was marked with success, the ledger never again tells to
/// emit it: not later in the same run, and not in any later run against the
/// same store, whatever else is marked in between, as long as the store is not
/// cleared.
pub proof fn law_marked_is_not_emitted_again(
    state: LedgerState,
    identifier: Seq<char>,
    events: Seq<LedgerEvent>,
)
    requires
        state.wf(),
    ensures
        !state.mark_seen(identifier, true).after_all(events).should_emit(identifier),
{
    let marked = state.mark_seen(identifier, true);
    lemma_store_only_grows(marked, events);
}

/// After a clear the ledger tells to emit every identifier, whatever was
/// marked before.
pub proof fn law_clear_forgets_everything(state: LedgerState, identifier: Seq<char>)
    ensures
        state.clear().should_emit(identifier),
{
}

/// Marking an identifier a second time in the same run changes nothing and
/// succeeds, whatever the store would say: the second call makes no write, so
/// no duplicate key can be reported.
pub proof fn law_mark_is_idempotent(state: LedgerState, identifier: Seq<char>, again: bool)
    ensures
        state.mark_seen(identifier, true).mark_seen(identifier, again) == state.mark_seen(
            identifier,
            true,
        ),
        forall|answer: Result<(), Seq<char>>|
            #[trigger] mark_result(state.mark_seen(identifier, true).in_run, identifier, answer)
                == Ok::<(), Seq<char>>(()),
{
    let once = state.mark_seen(identifier, true);
    let twice = once.mark_seen(identifier, again);
    assert(twice.in_run =~= once.in_run);
}

} // verus!
