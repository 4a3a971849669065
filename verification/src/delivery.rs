//! What a whole run delivers.
//!
//! `delivered` says it in one piece: the candidates are gone through once, in
//! their order, against a store that answers truthfully and takes every
//! write. `driven` is the controller at work in that world, one event after
//! the other. The law of this module is that the two agree.

use crate::item::{ArticleView, CandidateView, FailureView};
use crate::run::{initial_run, RunActionView, RunConfig, RunEventView, RunView};
use vstd::prelude::*;

verus! {

/// The state of the world and of the counters between two candidates.
pub struct Delivery {
    /// The identifiers that the durable store holds.
    pub stored: Set<Seq<char>>,
    /// The identifiers that the ledger has seen in this run.
    pub in_run: Set<Seq<char>>,
    pub attempted: nat,
    pub included: nat,
    pub skipped: nat,
    pub failed: nat,
    /// The articles included so far.
    pub articles: Seq<ArticleView>,
}

/// Whether a candidate was delivered before, as far as the ledger can tell.
pub open spec fn known(config: RunConfig, so_far: Delivery, candidate: CandidateView) -> bool {
    config.ledger.enabled() && (so_far.in_run.contains(candidate.identifier)
        || so_far.stored.contains(candidate.identifier))
}

/// The delivery after one more candidate, whose processing would give
/// `outcome`. A candidate that is known is skipped and not processed; one
/// that fails is counted; one that succeeds is included and, with the ledger
/// in use, recorded.
pub open spec fn with_candidate(
    config: RunConfig,
    so_far: Delivery,
    candidate: CandidateView,
    outcome: Result<ArticleView, FailureView>,
) -> Delivery {
    let counted = Delivery { attempted: so_far.attempted + 1, ..so_far };
    if known(config, so_far, candidate) {
        Delivery { skipped: so_far.skipped + 1, ..counted }
    } else {
        match outcome {
            Err(failure) => Delivery { failed: so_far.failed + 1, ..counted },
            Ok(article) => {
                let included = Delivery {
                    included: so_far.included + 1,
                    articles: so_far.articles.push(article),
                    ..counted
                };
                if config.ledger.enabled() {
                    Delivery {
                        stored: so_far.stored.insert(candidate.identifier),
                        in_run: so_far.in_run.insert(candidate.identifier),
                        ..included
                    }
                } else {
                    included
                }
            },
        }
    }
}

/// The delivery at the end of a run that stands before the candidate at
/// place `from`: candidates are taken up, one after the other, until none is
/// left or the limit is reached. `outcomes` holds for every candidate what
/// processing it would give.
pub open spec fn delivered_from(
    config: RunConfig,
    candidates: Seq<CandidateView>,
    outcomes: Seq<Result<ArticleView, FailureView>>,
    from: nat,
    so_far: Delivery,
) -> Delivery
    decreases candidates.len() - from,
{
    if from >= candidates.len() || so_far.included >= config.limit {
        so_far
    } else {
        delivered_from(
            config,
            candidates,
            outcomes,
            from + 1,
            with_candidate(config, so_far, candidates[from as int], outcomes[from as int]),
        )
    }
}

/// A delivery before the first candidate.
pub open spec fn nothing_delivered(stored: Set<Seq<char>>, in_run: Set<Seq<char>>) -> Delivery {
    Delivery {
        stored,
        in_run,
        attempted: 0,
        included: 0,
        skipped: 0,
        failed: 0,
        articles: Seq::empty(),
    }
}

/// What a whole run delivers.
pub open spec fn delivered(
    config: RunConfig,
    candidates: Seq<CandidateView>,
    outcomes: Seq<Result<ArticleView, FailureView>>,
    stored: Set<Seq<char>>,
    in_run: Set<Seq<char>>,
) -> Delivery {
    delivered_from(config, candidates, outcomes, 0, nothing_delivered(stored, in_run))
}

/// What the world answers to the action that a run has pending: the store
/// says truthfully what it holds and takes every write, and the item
/// processor gives for the current candidate what `outcomes` holds for it.
pub open spec fn answer(
    run: RunView,
    stored: Set<Seq<char>>,
    outcomes: Seq<Result<ArticleView, FailureView>>,
) -> RunEventView {
    match run.action() {
        RunActionView::Advance => RunEventView::Next,
        RunActionView::Lookup { identifier } => RunEventView::Looked(
            Ok(stored.contains(identifier)),
        ),
        RunActionView::Process { candidate } => RunEventView::Processed(
            outcomes[run.position as int],
        ),
        RunActionView::Record { identifier } => RunEventView::Recorded(Ok(())),
        RunActionView::Pause { seconds } => RunEventView::Paused,
        RunActionView::Finish => RunEventView::Next,
    }
}

/// What the store holds after the action that a run has pending was carried
/// out.
pub open spec fn store_after(run: RunView, stored: Set<Seq<char>>) -> Set<Seq<char>> {
    match run.action() {
        RunActionView::Record { identifier } => stored.insert(identifier),
        _ => stored,
    }
}

/// The run and the store after the controller was driven for up to `steps`
/// events: each pending action is carried out and its event handed back,
/// until the run is over.
pub open spec fn driven(
    run: RunView,
    stored: Set<Seq<char>>,
    outcomes: Seq<Result<ArticleView, FailureView>>,
    steps: nat,
) -> (RunView, Set<Seq<char>>)
    decreases steps,
{
    if steps == 0 || run.phase is Finished {
        (run, stored)
    } else {
        driven(
            run.step(answer(run, stored, outcomes)),
            store_after(run, stored),
            outcomes,
            (steps - 1) as nat,
        )
    }
}

/// Whether a run between two candidates stands where a delivery stands.
pub open spec fn stands_at(run: RunView, stored: Set<Seq<char>>, so_far: Delivery) -> bool {
    &&& run.consistent()
    &&& run.phase is Ready
    &&& so_far.stored == stored
    &&& so_far.in_run == run.in_run
    &&& so_far.attempted == run.attempted
    &&& so_far.included == run.included
    &&& so_far.skipped == run.skipped
    &&& so_far.failed == run.failed
    &&& so_far.articles == run.articles
}

/// Whether a run is over and holds what a delivery holds.
pub open spec fn ended_with(run: RunView, stored: Set<Seq<char>>, end: Delivery) -> bool {
    &&& run.phase is Finished
    &&& end.stored == stored
    &&& end.in_run == run.in_run
    &&& end.attempted == run.attempted
    &&& end.included == run.included
    &&& end.skipped == run.skipped
    &&& end.failed == run.failed
    &&& end.articles == run.articles
}

/// One event takes a driven run one step on.
proof fn lemma_driven_unfolds(
    run: RunView,
    stored: Set<Seq<char>>,
    outcomes: Seq<Result<ArticleView, FailureView>>,
    steps: nat,
)
    requires
        steps > 0,
        !(run.phase is Finished),
    ensures
        driven(run, stored, outcomes, steps) == driven(
            run.step(answer(run, stored, outcomes)),
            store_after(run, stored),
            outcomes,
            (steps - 1) as nat,
        ),
{
}

/// From between two candidates, with five events to spare for each candidate
/// that is left and one more to end the run, the driven controller ends with
/// the delivery that `delivered_from` gives.
proof fn lemma_driven_from(
    run: RunView,
    stored: Set<Seq<char>>,
    outcomes: Seq<Result<ArticleView, FailureView>>,
    so_far: Delivery,
    steps: nat,
)
    requires
        stands_at(run, stored, so_far),
        outcomes.len() == run.candidates.len(),
        steps >= 5 * (run.candidates.len() - run.position) + 1,
    ensures
        ended_with(
            driven(run, stored, outcomes, steps).0,
            driven(run, stored, outcomes, steps).1,
            delivered_from(run.config, run.candidates, outcomes, run.position, so_far),
        ),
    decreases run.candidates.len() - run.position,
{
    let config = run.config;
    let candidates = run.candidates;
    lemma_driven_unfolds(run, stored, outcomes, steps);
    let first = run.step(RunEventView::Next);
    assert(answer(run, stored, outcomes) == RunEventView::Next);
    assert(driven(run, stored, outcomes, steps) == driven(first, stored, outcomes, (steps - 1) as nat));
    if run.included >= config.limit || run.position >= candidates.len() {
        assert(first.phase is Finished);
        assert(driven(first, stored, outcomes, (steps - 1) as nat) == (first, stored));
    } else {
        let candidate = candidates[run.position as int];
        let outcome = outcomes[run.position as int];
        let next = with_candidate(config, so_far, candidate, outcome);
        // The states that the run passes on its way to the next candidate.
        let (arrived, store, used): (RunView, Set<Seq<char>>, nat) = if first.phase is Ready {
            (first, stored, 1nat)
        } else {
            let (second, used_two): (RunView, nat) = if first.phase is AwaitingLookup {
                lemma_driven_unfolds(first, stored, outcomes, (steps - 1) as nat);
                (first.step(answer(first, stored, outcomes)), 2nat)
            } else {
                (first, 1nat)
            };
            if second.phase is Ready {
                (second, stored, used_two)
            } else {
                assert(second.phase is AwaitingItem);
                lemma_driven_unfolds(second, stored, outcomes, (steps - used_two) as nat);
                let third = second.step(answer(second, stored, outcomes));
                let used_three = used_two + 1;
                if third.phase is Ready {
                    (third, stored, used_three)
                } else {
                    let (fourth, store_four, used_four): (RunView, Set<Seq<char>>, nat) =
                        if third.phase is AwaitingRecord {
                        lemma_driven_unfolds(third, stored, outcomes, (steps - used_three) as nat);
                        (
                            third.step(answer(third, stored, outcomes)),
                            store_after(third, stored),
                            used_three + 1,
                        )
                    } else {
                        (third, stored, used_three)
                    };
                    if fourth.phase is Ready {
                        (fourth, store_four, used_four)
                    } else {
                        assert(fourth.phase is AwaitingPause);
                        lemma_driven_unfolds(
                            fourth,
                            store_four,
                            outcomes,
                            (steps - used_four) as nat,
                        );
                        (
                            fourth.step(answer(fourth, store_four, outcomes)),
                            store_four,
                            used_four + 1,
                        )
                    }
                }
            }
        };
        assert(used <= 5);
        assert(driven(run, stored, outcomes, steps) == driven(
            arrived,
            store,
            outcomes,
            (steps - used) as nat,
        ));
        assert(arrived.position == run.position + 1);
        assert(arrived.candidates == candidates && arrived.config == config);
        assert(next.in_run =~= arrived.in_run);
        assert(next.stored =~= store);
        assert(stands_at(arrived, store, next));
        lemma_driven_from(arrived, store, outcomes, next, (steps - used) as nat);
    }
}

/// A run driven to its end delivers what `delivered` says. Whatever the
/// candidates, the limit, the pause and the use of the ledger: when the store
/// answers truthfully and takes every write, the controller ends after at
/// most five events for each candidate and one more; by then it holds the
/// articles of all candidates that were new and succeeded, in the order of
/// the candidates and as far as the limit allows; its counters are those of
/// the delivery; and the store holds what was delivered.
pub proof fn law_run_delivers(
    config: RunConfig,
    candidates: Seq<CandidateView>,
    outcomes: Seq<Result<ArticleView, FailureView>>,
    stored: Set<Seq<char>>,
    in_run: Set<Seq<char>>,
    steps: nat,
)
    requires
        candidates.len() <= usize::MAX,
        outcomes.len() == candidates.len(),
        steps >= 5 * candidates.len() + 1,
    ensures
        ended_with(
            driven(initial_run(config, candidates, in_run), stored, outcomes, steps).0,
            driven(initial_run(config, candidates, in_run), stored, outcomes, steps).1,
            delivered(config, candidates, outcomes, stored, in_run),
        ),
{
    let run = initial_run(config, candidates, in_run);
    lemma_driven_from(run, stored, outcomes, nothing_delivered(stored, in_run), steps);
}

/// The articles of the outcomes that are successes, in their order.
pub open spec fn successes(outcomes: Seq<Result<ArticleView, FailureView>>) -> Seq<ArticleView>
    decreases outcomes.len(),
{
    if outcomes.len() == 0 {
        Seq::<ArticleView>::empty()
    } else {
        let front = successes(outcomes.drop_last());
        match outcomes.last() {
            Ok(article) => front.push(article),
            Err(failure) => front,
        }
    }
}

/// Whether the ledger knows none of the candidates from place `from` on, and
/// no two of them share an identifier. Without a ledger every candidate is
/// new.
pub open spec fn new_from(
    config: RunConfig,
    candidates: Seq<CandidateView>,
    from: int,
    stored: Set<Seq<char>>,
    in_run: Set<Seq<char>>,
) -> bool {
    config.ledger.enabled() ==> {
        &&& forall|i: int|
            from <= i < candidates.len() ==> !stored.contains(
                #[trigger] candidates[i].identifier,
            ) && !in_run.contains(candidates[i].identifier)
        &&& forall|i: int, j: int|
            from <= i < j < candidates.len() ==> #[trigger] candidates[i].identifier
                != #[trigger] candidates[j].identifier
    }
}

/// Whether `count` is the number of candidates that a run takes up: the run
/// goes on until no candidate is left or as many have succeeded as the limit
/// allows, and no further.
pub open spec fn is_reach(
    outcomes: Seq<Result<ArticleView, FailureView>>,
    limit: usize,
    count: nat,
) -> bool {
    &&& count <= outcomes.len()
    &&& count == outcomes.len() || successes(outcomes.take(count as int)).len() >= limit
    &&& forall|fewer: int|
        0 <= fewer < count ==> (#[trigger] successes(outcomes.take(fewer))).len() < limit
}

/// The successes of a front part of the outcomes are a front part of the
/// successes of all.
pub proof fn lemma_successes_grow(outcomes: Seq<Result<ArticleView, FailureView>>, count: int)
    requires
        0 <= count <= outcomes.len(),
    ensures
        successes(outcomes.take(count)).is_prefix_of(successes(outcomes)),
        successes(outcomes.take(count)).len() <= count,
    decreases outcomes.len() - count,
{
    if count == outcomes.len() {
        assert(outcomes.take(count) =~= outcomes);
        lemma_successes_count(outcomes);
    } else {
        lemma_successes_grow(outcomes, count + 1);
        assert(outcomes.take(count + 1).drop_last() =~= outcomes.take(count));
        lemma_successes_count(outcomes.take(count));
    }
}

proof fn lemma_successes_count(outcomes: Seq<Result<ArticleView, FailureView>>)
    ensures
        successes(outcomes).len() <= outcomes.len(),
    decreases outcomes.len(),
{
    if outcomes.len() > 0 {
        lemma_successes_count(outcomes.drop_last());
    }
}

proof fn lemma_new_from(
    config: RunConfig,
    candidates: Seq<CandidateView>,
    outcomes: Seq<Result<ArticleView, FailureView>>,
    from: nat,
    so_far: Delivery,
)
    requires
        from <= candidates.len(),
        outcomes.len() == candidates.len(),
        new_from(config, candidates, from as int, so_far.stored, so_far.in_run),
        so_far.attempted == from,
        so_far.skipped == 0,
        so_far.articles == successes(outcomes.take(from as int)),
        so_far.included == so_far.articles.len(),
        so_far.included + so_far.failed == from,
        forall|fewer: int|
            0 <= fewer < from ==> (#[trigger] successes(outcomes.take(fewer))).len() < config.limit,
    ensures
        ({
            let end = delivered_from(config, candidates, outcomes, from, so_far);
            &&& is_reach(outcomes, config.limit, end.attempted)
            &&& end.articles == successes(outcomes.take(end.attempted as int))
            &&& end.included == end.articles.len()
            &&& end.skipped == 0
            &&& end.included + end.failed == end.attempted
        }),
    decreases candidates.len() - from,
{
    if from >= candidates.len() || so_far.included >= config.limit {
    } else {
        let candidate = candidates[from as int];
        let outcome = outcomes[from as int];
        let next = with_candidate(config, so_far, candidate, outcome);
        assert(!known(config, so_far, candidate));
        assert(outcomes.take(from as int + 1).drop_last() =~= outcomes.take(from as int));
        assert(outcomes.take(from as int + 1).last() == outcome);
        assert forall|fewer: int| 0 <= fewer < from + 1 implies (#[trigger] successes(
            outcomes.take(fewer),
        )).len() < config.limit by {
            if fewer == from {
                assert(successes(outcomes.take(fewer)) == so_far.articles);
            }
        }
        assert(new_from(config, candidates, from as int + 1, next.stored, next.in_run));
        lemma_new_from(config, candidates, outcomes, from + 1, next);
    }
}

/// New candidates are delivered in their order, as far as the limit allows.
/// Where the ledger knows none of the candidates and no two of them share an
/// identifier, or where no ledger is used, a run takes the candidates up one
/// after the other until none is left or the limit is reached. Its articles
/// are the successes among the candidates taken up, in the order of the
/// candidates: all successes where the limit allows as many, else the first
/// of them up to the limit. Every candidate taken up is counted as included
/// or as failed, none as skipped; a candidate behind the one that reached the
/// limit is not taken up at all.
pub proof fn law_new_candidates_are_delivered_in_order(
    config: RunConfig,
    candidates: Seq<CandidateView>,
    outcomes: Seq<Result<ArticleView, FailureView>>,
    stored: Set<Seq<char>>,
    in_run: Set<Seq<char>>,
)
    requires
        outcomes.len() == candidates.len(),
        new_from(config, candidates, 0, stored, in_run),
    ensures
        ({
            let end = delivered(config, candidates, outcomes, stored, in_run);
            &&& is_reach(outcomes, config.limit, end.attempted)
            &&& end.articles == successes(outcomes.take(end.attempted as int))
            &&& end.articles == if successes(outcomes).len() <= config.limit {
                successes(outcomes)
            } else {
                successes(outcomes).take(config.limit as int)
            }
            &&& end.included == end.articles.len()
            &&& end.skipped == 0
            &&& end.included + end.failed == end.attempted
        }),
{
    let start = nothing_delivered(stored, in_run);
    assert(outcomes.take(0) =~= Seq::<Result<ArticleView, FailureView>>::empty());
    assert(start.articles =~= successes(outcomes.take(0)));
    lemma_new_from(config, candidates, outcomes, 0, start);
    let end = delivered(config, candidates, outcomes, stored, in_run);
    let reach = end.attempted as int;
    lemma_successes_grow(outcomes, reach);
    if reach == outcomes.len() {
        assert(outcomes.take(reach) =~= outcomes);
    }
    if reach > 0 {
        assert(successes(outcomes.take(reach - 1)).len() < config.limit);
        assert(outcomes.take(reach).drop_last() =~= outcomes.take(reach - 1));
    }
    assert(end.articles.len() <= config.limit);
    if successes(outcomes).len() > config.limit {
        assert(end.articles =~= successes(outcomes).take(config.limit as int));
    } else {
        assert(end.articles =~= successes(outcomes));
    }
}

proof fn lemma_store_holds_from(
    config: RunConfig,
    candidates: Seq<CandidateView>,
    outcomes: Seq<Result<ArticleView, FailureView>>,
    from: nat,
    so_far: Delivery,
)
    requires
        config.ledger.enabled(),
        from <= candidates.len(),
        outcomes.len() == candidates.len(),
        so_far.attempted == from,
        so_far.in_run.subset_of(so_far.stored),
        forall|i: int|
            0 <= i < from ==> so_far.stored.contains(#[trigger] candidates[i].identifier)
                || outcomes[i] is Err,
    ensures
        ({
            let end = delivered_from(config, candidates, outcomes, from, so_far);
            &&& from <= end.attempted <= candidates.len()
            &&& so_far.stored.subset_of(end.stored)
            &&& end.in_run.subset_of(end.stored)
            &&& forall|i: int|
                0 <= i < end.attempted ==> end.stored.contains(#[trigger] candidates[i].identifier)
                    || outcomes[i] is Err
        }),
    decreases candidates.len() - from,
{
    if from < candidates.len() && so_far.included < config.limit {
        let next = with_candidate(
            config,
            so_far,
            candidates[from as int],
            outcomes[from as int],
        );
        assert forall|i: int| 0 <= i < from + 1 implies next.stored.contains(
            #[trigger] candidates[i].identifier,
        ) || outcomes[i] is Err by {
            if i < from {
                assert(so_far.stored.contains(candidates[i].identifier) || outcomes[i] is Err);
            }
        }
        lemma_store_holds_from(config, candidates, outcomes, from + 1, next);
    }
}

/// What a run delivers, the store holds. With the ledger in use and a
/// ledger that has seen nothing but what the store holds, the store loses
/// nothing in a run, and at the end it holds the identifier of every
/// candidate that was taken up and did not fail: of those that were included,
/// and of those that were skipped because they had been delivered before.
pub proof fn law_store_holds_what_was_delivered(
    config: RunConfig,
    candidates: Seq<CandidateView>,
    outcomes: Seq<Result<ArticleView, FailureView>>,
    stored: Set<Seq<char>>,
    in_run: Set<Seq<char>>,
)
    requires
        config.ledger.enabled(),
        outcomes.len() == candidates.len(),
        in_run.subset_of(stored),
    ensures
        ({
            let end = delivered(config, candidates, outcomes, stored, in_run);
            &&& end.attempted <= candidates.len()
            &&& stored.subset_of(end.stored)
            &&& forall|i: int|
                0 <= i < end.attempted ==> end.stored.contains(#[trigger] candidates[i].identifier)
                    || outcomes[i] is Err
        }),
{
    lemma_store_holds_from(config, candidates, outcomes, 0, nothing_delivered(stored, in_run));
}

proof fn lemma_known_from(
    config: RunConfig,
    candidates: Seq<CandidateView>,
    outcomes: Seq<Result<ArticleView, FailureView>>,
    from: nat,
    so_far: Delivery,
)
    requires
        config.ledger.enabled(),
        from <= candidates.len(),
        outcomes.len() == candidates.len(),
        forall|i: int|
            from <= i < candidates.len() ==> so_far.stored.contains(
                #[trigger] candidates[i].identifier,
            ),
    ensures
        ({
            let end = delivered_from(config, candidates, outcomes, from, so_far);
            &&& end.articles == so_far.articles
            &&& end.included == so_far.included
            &&& end.failed == so_far.failed
            &&& end.stored == so_far.stored
            &&& end.attempted - so_far.attempted == end.skipped - so_far.skipped
        }),
    decreases candidates.len() - from,
{
    if from < candidates.len() && so_far.included < config.limit {
        let candidate = candidates[from as int];
        assert(so_far.stored.contains(candidate.identifier));
        let next = with_candidate(config, so_far, candidate, outcomes[from as int]);
        lemma_known_from(config, candidates, outcomes, from + 1, next);
    }
}

/// What the store holds is not delivered again. With the ledger in use, a
/// run over candidates whose identifiers the store all holds includes no
/// article and changes nothing in the store, whatever processing the
/// candidates would give: every candidate that it takes up is skipped.
pub proof fn law_stored_is_not_delivered_again(
    config: RunConfig,
    candidates: Seq<CandidateView>,
    outcomes: Seq<Result<ArticleView, FailureView>>,
    stored: Set<Seq<char>>,
    in_run: Set<Seq<char>>,
)
    requires
        config.ledger.enabled(),
        outcomes.len() == candidates.len(),
        forall|i: int| 0 <= i < candidates.len() ==> stored.contains(
            #[trigger] candidates[i].identifier,
        ),
    ensures
        ({
            let end = delivered(config, candidates, outcomes, stored, in_run);
            &&& end.articles.len() == 0
            &&& end.included == 0
            &&& end.failed == 0
            &&& end.skipped == end.attempted
            &&& end.stored == stored
        }),
{
    lemma_known_from(config, candidates, outcomes, 0, nothing_delivered(stored, in_run));
}

/// Nothing is delivered twice. Let a first run, with the ledger in use, take
/// up all its candidates, and let processing fail for none. Then a later run
/// over the same candidates against the store as the first run left it, with
/// a ledger that starts anew, includes nothing: whatever its limit, its pause
/// and the outcomes of processing would be, every candidate that it takes up
/// is skipped.
pub proof fn law_nothing_is_delivered_twice(
    config: RunConfig,
    later_config: RunConfig,
    candidates: Seq<CandidateView>,
    outcomes: Seq<Result<ArticleView, FailureView>>,
    later_outcomes: Seq<Result<ArticleView, FailureView>>,
    stored: Set<Seq<char>>,
)
    requires
        config.ledger.enabled(),
        later_config.ledger.enabled(),
        outcomes.len() == candidates.len(),
        later_outcomes.len() == candidates.len(),
        delivered(config, candidates, outcomes, stored, Set::empty()).attempted
            == candidates.len(),
        forall|i: int| 0 <= i < outcomes.len() ==> (#[trigger] outcomes[i]) is Ok,
    ensures
        ({
            let first = delivered(config, candidates, outcomes, stored, Set::empty());
            let later = delivered(
                later_config,
                candidates,
                later_outcomes,
                first.stored,
                Set::empty(),
            );
            &&& later.articles.len() == 0
            &&& later.included == 0
            &&& later.skipped == later.attempted
            &&& later.stored == first.stored
        }),
{
    let first = delivered(config, candidates, outcomes, stored, Set::empty());
    law_store_holds_what_was_delivered(config, candidates, outcomes, stored, Set::empty());
    assert forall|i: int| 0 <= i < candidates.len() implies first.stored.contains(
        #[trigger] candidates[i].identifier,
    ) by {
        assert(outcomes[i] is Ok);
    }
    law_stored_is_not_delivered_again(
        later_config,
        candidates,
        later_outcomes,
        first.stored,
        Set::empty(),
    );
}

} // verus!
