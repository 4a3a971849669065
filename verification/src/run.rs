//! The run controller: it takes the candidates in their order, asks the
//! ledger before and tells it after each item, keeps to the limit and the
//! pause between items, and counts what became of every candidate.
//!
//! The controller does no work of its own on the outside world. `pending`
//! says what is due: a question to the durable store, an item to process, a
//! write, a pause. `advance` takes what came of it.

use crate::item::{
    outcome_view, ArticleView, CandidateItem, CandidateView, FailureView, ItemFailure,
    ProcessedArticle,
};
use crate::text::{decimal, push_decimal};
use crate::ledger::{
    emit_decision, lookup_view, mark_result, seen_after_mark, write_view, Ledger, StorageError,
};
use vstd::prelude::*;
use vstd::string::*;

verus! {

/// How a run uses the ledger.
#[derive(Debug, PartialEq, Eq, Structural, Clone, Copy)]
pub enum LedgerMode {
    /// No ledger: nothing is looked up and nothing is recorded.
    Disabled,
    /// The ledger is asked and told.
    Enabled,
    /// As `Enabled`, after the durable store was emptied.
    EnabledCleared,
}

/// A configuration that cannot be run.
#[derive(Debug, PartialEq, Eq, Structural, Clone, Copy)]
pub enum ConfigError {
    /// The ledger is to be cleared and at the same time not to be used.
    ClearWithoutLedger,
}

/// The mode that the two switches ask for. To clear a ledger that is switched
/// off is a contradiction and is refused.
pub open spec fn mode_for(use_ledger: bool, clear: bool) -> Result<LedgerMode, ConfigError> {
    if use_ledger {
        if clear {
            Ok(LedgerMode::EnabledCleared)
        } else {
            Ok(LedgerMode::Enabled)
        }
    } else if clear {
        Err(ConfigError::ClearWithoutLedger)
    } else {
        Ok(LedgerMode::Disabled)
    }
}

/// Decides the ledger mode from the two switches, before anything else is
/// done.
pub fn ledger_mode(use_ledger: bool, clear: bool) -> (mode: Result<LedgerMode, ConfigError>)
    ensures
        mode == mode_for(use_ledger, clear),
{
    if use_ledger {
        if clear {
            Ok(LedgerMode::EnabledCleared)
        } else {
            Ok(LedgerMode::Enabled)
        }
    } else if clear {
        Err(ConfigError::ClearWithoutLedger)
    } else {
        Ok(LedgerMode::Disabled)
    }
}

impl LedgerMode {
    /// Whether the ledger is asked and told.
    pub open spec fn enabled(self) -> bool {
        !(self is Disabled)
    }

    /// Whether the ledger is asked and told.
    #[verifier::when_used_as_spec(enabled)]
    pub fn uses_ledger(self) -> (uses: bool)
        ensures
            uses == self.enabled(),
    {
        match self {
            LedgerMode::Disabled => false,
            _ => true,
        }
    }

    /// Whether the durable store is to be emptied before the run.
    pub fn clears(self) -> (clears: bool)
        ensures
            clears == (self is EnabledCleared),
    {
        match self {
            LedgerMode::EnabledCleared => true,
            _ => false,
        }
    }
}

/// What a run is asked to do.
#[derive(Debug, PartialEq, Eq, Structural, Clone, Copy)]
pub struct RunConfig {
    /// The largest number of articles to include.
    pub limit: usize,
    /// The pause after each included article, in seconds; 0 for none.
    pub delay_secs: u64,
    /// How the ledger is used.
    pub ledger: LedgerMode,
}

/// The counters of a run.
#[derive(Debug, PartialEq, Eq, Structural, Clone, Copy)]
pub struct RunOutcome {
    pub attempted: usize,
    pub included: usize,
    pub skipped: usize,
    pub failed: usize,
}

/// Why a run ended without a document.
#[derive(Debug, PartialEq, Eq, Structural, Clone, Copy)]
pub enum RunError {
    /// The source gave no candidate.
    EmptySource,
    /// No candidate became an article.
    EmptyResult,
    /// The renderer failed or left no output.
    RenderFailed,
}

/// Where the controller stands with the current candidate.
#[derive(Debug, PartialEq, Eq, Structural, Clone, Copy)]
pub enum Phase {
    /// Between candidates.
    Ready,
    /// The durable store is being asked for the candidate's identifier.
    AwaitingLookup,
    /// The candidate is being processed.
    AwaitingItem,
    /// The durable store is being told of the candidate's identifier.
    AwaitingRecord,
    /// The pause after an included article is being kept.
    AwaitingPause,
    /// The run is over.
    Finished,
}

/// What the caller reports back.
#[derive(Debug, PartialEq, Eq)]
pub enum RunEvent {
    /// Go on with the next candidate.
    Next,
    /// The store's answer to the question whether it holds the identifier.
    Looked(Result<bool, StorageError>),
    /// What became of the item.
    Processed(Result<ProcessedArticle, ItemFailure>),
    /// The store's answer to the insert-if-absent write.
    Recorded(Result<(), StorageError>),
    /// The pause is over.
    Paused,
}

/// `RunEvent` as mathematical text.
pub enum RunEventView {
    Next,
    Looked(Result<bool, Seq<char>>),
    Processed(Result<ArticleView, FailureView>),
    Recorded(Result<(), Seq<char>>),
    Paused,
}

impl View for RunEvent {
    type V = RunEventView;

    open spec fn view(&self) -> RunEventView {
        match self {
            RunEvent::Next => RunEventView::Next,
            RunEvent::Looked(answer) => RunEventView::Looked(lookup_view(*answer)),
            RunEvent::Processed(outcome) => RunEventView::Processed(outcome_view(*outcome)),
            RunEvent::Recorded(answer) => RunEventView::Recorded(write_view(*answer)),
            RunEvent::Paused => RunEventView::Paused,
        }
    }
}

/// What the caller is to do next.
#[derive(Debug, PartialEq, Eq)]
pub enum RunAction {
    /// Nothing outside: report `Next`.
    Advance,
    /// Ask the durable store whether it holds this identifier.
    Lookup { identifier: String },
    /// Run the item processor on this candidate.
    Process { candidate: CandidateItem },
    /// Write this identifier to the durable store, if it is absent.
    Record { identifier: String },
    /// Pause for this many seconds.
    Pause { seconds: u64 },
    /// The run is over: call `finish`.
    Finish,
}

/// `RunAction` as mathematical text.
pub enum RunActionView {
    Advance,
    Lookup { identifier: Seq<char> },
    Process { candidate: CandidateView },
    Record { identifier: Seq<char> },
    Pause { seconds: u64 },
    Finish,
}

impl View for RunAction {
    type V = RunActionView;

    open spec fn view(&self) -> RunActionView {
        match self {
            RunAction::Advance => RunActionView::Advance,
            RunAction::Lookup { identifier } => RunActionView::Lookup { identifier: identifier@ },
            RunAction::Process { candidate } => RunActionView::Process { candidate: candidate@ },
            RunAction::Record { identifier } => RunActionView::Record { identifier: identifier@ },
            RunAction::Pause { seconds } => RunActionView::Pause { seconds: *seconds },
            RunAction::Finish => RunActionView::Finish,
        }
    }
}

/// Something that the caller should report to the operator.
#[derive(Debug, PartialEq, Eq)]
pub enum Notice {
    /// The candidate was skipped: it had been delivered before.
    Skipped { identifier: String },
    /// The candidate was dropped.
    Failed { identifier: String, failure: ItemFailure },
    /// The durable store failed; the run goes on.
    StorageWarning { identifier: String, detail: String },
}

/// `Notice` as mathematical text.
pub enum NoticeView {
    Skipped { identifier: Seq<char> },
    Failed { identifier: Seq<char>, failure: FailureView },
    StorageWarning { identifier: Seq<char>, detail: Seq<char> },
}

impl View for Notice {
    type V = NoticeView;

    open spec fn view(&self) -> NoticeView {
        match self {
            Notice::Skipped { identifier } => NoticeView::Skipped { identifier: identifier@ },
            Notice::Failed { identifier, failure } => NoticeView::Failed {
                identifier: identifier@,
                failure: failure@,
            },
            Notice::StorageWarning { identifier, detail } => NoticeView::StorageWarning {
                identifier: identifier@,
                detail: detail@,
            },
        }
    }
}

impl DeepView for Notice {
    type V = NoticeView;

    open spec fn deep_view(&self) -> NoticeView {
        self.view()
    }
}

/// A run as a mathematical value.
pub struct RunView {
    pub config: RunConfig,
    pub candidates: Seq<CandidateView>,
    /// How many candidates are dealt with.
    pub position: nat,
    pub phase: Phase,
    /// The identifiers that the ledger has seen in this run.
    pub in_run: Set<Seq<char>>,
    pub attempted: nat,
    pub included: nat,
    pub skipped: nat,
    pub failed: nat,
    /// The articles included so far, in the order of their candidates.
    pub articles: Seq<ArticleView>,
}

impl RunView {
    /// Whether a candidate is being dealt with.
    pub open spec fn in_item(self) -> bool {
        self.phase is AwaitingLookup || self.phase is AwaitingItem || self.phase is AwaitingRecord
            || self.phase is AwaitingPause
    }

    /// Whether the current candidate is already counted as included.
    pub open spec fn item_included(self) -> bool {
        self.phase is AwaitingRecord || self.phase is AwaitingPause
    }

    /// What holds of every run from its start on: the counters account for
    /// every candidate taken up, the included articles are counted, and the
    /// limit is kept.
    pub open spec fn consistent(self) -> bool {
        &&& self.position <= self.candidates.len()
        &&& self.candidates.len() <= usize::MAX
        &&& self.in_item() ==> self.position < self.candidates.len()
        &&& self.attempted == self.position + if self.in_item() {
            1nat
        } else {
            0nat
        }
        &&& self.included + self.skipped + self.failed == self.position + if self.item_included() {
            1nat
        } else {
            0nat
        }
        &&& self.included == self.articles.len()
        &&& self.included <= self.config.limit
        &&& (self.phase is AwaitingLookup || self.phase is AwaitingItem) ==> self.included
            < self.config.limit
        &&& !self.config.ledger.enabled() ==> !(self.phase is AwaitingLookup) && !(self.phase is AwaitingRecord)
    }

    /// The candidate that is being dealt with, or is next.
    pub open spec fn current(self) -> CandidateView {
        self.candidates[self.position as int]
    }

    /// The run with the current candidate behind it.
    pub open spec fn moved_on(self) -> RunView {
        RunView { position: self.position + 1, phase: Phase::Ready, ..self }
    }

    /// The run after the current candidate was skipped.
    pub open spec fn after_skip(self) -> RunView {
        RunView { skipped: self.skipped + 1, ..self }.moved_on()
    }

    /// The run once an included article needs nothing more but its pause.
    pub open spec fn after_success(self) -> RunView {
        if self.config.delay_secs > 0 {
            RunView { phase: Phase::AwaitingPause, ..self }
        } else {
            self.moved_on()
        }
    }

    /// The run as it takes up the next candidate. It ends where the limit is
    /// reached or no candidate is left. Otherwise the candidate counts as
    /// attempted; with the ledger in use it is skipped at once where this run
    /// has seen its identifier, and else the store is asked.
    pub open spec fn begun(self) -> RunView {
        if self.included >= self.config.limit || self.position >= self.candidates.len() {
            RunView { phase: Phase::Finished, ..self }
        } else {
            let counted = RunView { attempted: self.attempted + 1, ..self };
            if !self.config.ledger.enabled() {
                RunView { phase: Phase::AwaitingItem, ..counted }
            } else if self.in_run.contains(self.current().identifier) {
                counted.after_skip()
            } else {
                RunView { phase: Phase::AwaitingLookup, ..counted }
            }
        }
    }

    /// The run after the store answered the lookup. The candidate is skipped
    /// where the ledger tells not to emit it; where the store could not be
    /// asked the candidate is processed all the same.
    pub open spec fn looked(self, answer: Result<bool, Seq<char>>) -> RunView {
        match emit_decision(self.in_run, self.current().identifier, answer) {
            Ok(false) => self.after_skip(),
            _ => RunView { phase: Phase::AwaitingItem, ..self },
        }
    }

    /// The run after the item was processed. A failure is counted and the run
    /// moves on. A success appends the article and is counted; with the ledger
    /// in use the identifier is then to be recorded.
    pub open spec fn processed(self, outcome: Result<ArticleView, FailureView>) -> RunView {
        match outcome {
            Err(failure) => RunView { failed: self.failed + 1, ..self }.moved_on(),
            Ok(article) => {
                let counted = RunView {
                    included: self.included + 1,
                    articles: self.articles.push(article),
                    ..self
                };
                if self.config.ledger.enabled() {
                    RunView { phase: Phase::AwaitingRecord, ..counted }
                } else {
                    counted.after_success()
                }
            },
        }
    }

    /// The run after the store answered the write: the ledger marks the
    /// identifier, and a failed write does not stop the run.
    pub open spec fn recorded(self, answer: Result<(), Seq<char>>) -> RunView {
        let identifier = self.current().identifier;
        RunView {
            in_run: seen_after_mark(
                self.in_run,
                identifier,
                mark_result(self.in_run, identifier, answer),
            ),
            ..self
        }.after_success()
    }

    /// The run after an event. An event that is not the one due changes
    /// nothing.
    pub open spec fn step(self, event: RunEventView) -> RunView {
        match self.phase {
            Phase::Ready => match event {
                RunEventView::Next => self.begun(),
                _ => self,
            },
            Phase::AwaitingLookup => match event {
                RunEventView::Looked(answer) => self.looked(answer),
                _ => self,
            },
            Phase::AwaitingItem => match event {
                RunEventView::Processed(outcome) => self.processed(outcome),
                _ => self,
            },
            Phase::AwaitingRecord => match event {
                RunEventView::Recorded(answer) => self.recorded(answer),
                _ => self,
            },
            Phase::AwaitingPause => match event {
                RunEventView::Paused => self.moved_on(),
                _ => self,
            },
            Phase::Finished => self,
        }
    }

    /// What the caller is told about an event, if anything.
    pub open spec fn notice(self, event: RunEventView) -> Option<NoticeView> {
        let identifier = self.current().identifier;
        match self.phase {
            Phase::Ready => match event {
                RunEventView::Next => if self.begun().skipped > self.skipped {
                    Some(NoticeView::Skipped { identifier })
                } else {
                    None
                },
                _ => None,
            },
            Phase::AwaitingLookup => match event {
                RunEventView::Looked(answer) => match emit_decision(
                    self.in_run,
                    identifier,
                    answer,
                ) {
                    Ok(false) => Some(NoticeView::Skipped { identifier }),
                    Ok(true) => None,
                    Err(detail) => Some(NoticeView::StorageWarning { identifier, detail }),
                },
                _ => None,
            },
            Phase::AwaitingItem => match event {
                RunEventView::Processed(Err(failure)) => Some(
                    NoticeView::Failed { identifier, failure },
                ),
                _ => None,
            },
            Phase::AwaitingRecord => match event {
                RunEventView::Recorded(answer) => match mark_result(
                    self.in_run,
                    identifier,
                    answer,
                ) {
                    Ok(done) => None,
                    Err(detail) => Some(NoticeView::StorageWarning { identifier, detail }),
                },
                _ => None,
            },
            _ => None,
        }
    }

    /// What is due in a state.
    pub open spec fn action(self) -> RunActionView {
        match self.phase {
            Phase::Ready => RunActionView::Advance,
            Phase::AwaitingLookup => RunActionView::Lookup {
                identifier: self.current().identifier,
            },
            Phase::AwaitingItem => RunActionView::Process { candidate: self.current() },
            Phase::AwaitingRecord => RunActionView::Record {
                identifier: self.current().identifier,
            },
            Phase::AwaitingPause => RunActionView::Pause { seconds: self.config.delay_secs },
            Phase::Finished => RunActionView::Finish,
        }
    }

    /// The run after a series of events, the first of them first.
    pub open spec fn after_all(self, events: Seq<RunEventView>) -> RunView
        decreases events.len(),
    {
        if events.len() == 0 {
            self
        } else {
            self.after_all(events.drop_last()).step(events.last())
        }
    }
}

/// A run at its start, with what the ledger has seen so far.
pub open spec fn initial_run(
    config: RunConfig,
    candidates: Seq<CandidateView>,
    in_run: Set<Seq<char>>,
) -> RunView {
    RunView {
        config,
        candidates,
        position: 0,
        phase: Phase::Ready,
        in_run,
        attempted: 0,
        included: 0,
        skipped: 0,
        failed: 0,
        articles: Seq::empty(),
    }
}

/// The controller of one run.
pub struct RunController {
    config: RunConfig,
    candidates: Vec<CandidateItem>,
    position: usize,
    phase: Phase,
    ledger: Ledger,
    outcome: RunOutcome,
    articles: Vec<ProcessedArticle>,
}

impl View for RunController {
    type V = RunView;

    closed spec fn view(&self) -> RunView {
        RunView {
            config: self.config,
            candidates: self.candidates.deep_view(),
            position: self.position as nat,
            phase: self.phase,
            in_run: self.ledger@,
            attempted: self.outcome.attempted as nat,
            included: self.outcome.included as nat,
            skipped: self.outcome.skipped as nat,
            failed: self.outcome.failed as nat,
            articles: self.articles.deep_view(),
        }
    }
}

/// The controller after an event, and what is to be reported of it.
pub struct Step {
    pub next: RunController,
    pub notice: Option<Notice>,
}

/// What a finished run hands on: the articles in the order of their
/// candidates, and the counters.
#[derive(Debug, PartialEq, Eq)]
pub struct RunReport {
    pub articles: Vec<ProcessedArticle>,
    pub outcome: RunOutcome,
}

/// Whether counters hold the numbers of a run.
pub open spec fn counts_of(outcome: RunOutcome, run: RunView) -> bool {
    &&& outcome.attempted == run.attempted
    &&& outcome.included == run.included
    &&& outcome.skipped == run.skipped
    &&& outcome.failed == run.failed
}

impl RunController {
    #[verifier::type_invariant]
    spec fn valid(self) -> bool {
        self@.consistent()
    }

    /// Starts a run over the given candidates with the given ledger, which
    /// is consulted only where the configuration switches the ledger on. A
    /// source without candidates is refused.
    pub fn new(config: RunConfig, candidates: Vec<CandidateItem>, ledger: Ledger) -> (run: Result<
        RunController,
        RunError,
    >)
        ensures
            match run {
                Ok(controller) => candidates.len() > 0 && controller@ == initial_run(
                    config,
                    candidates.deep_view(),
                    ledger@,
                ),
                Err(error) => candidates.len() == 0 && error == RunError::EmptySource,
            },
    {
        if candidates.len() == 0 {
            return Err(RunError::EmptySource);
        }
        let controller = RunController {
            config,
            candidates,
            position: 0,
            phase: Phase::Ready,
            ledger,
            outcome: RunOutcome { attempted: 0, included: 0, skipped: 0, failed: 0 },
            articles: Vec::new(),
        };
        assert(controller@.articles =~= Seq::<ArticleView>::empty());
        Ok(controller)
    }

    /// The counters as they stand.
    pub fn outcome(&self) -> (outcome: RunOutcome)
        ensures
            counts_of(outcome, self@),
    {
        self.outcome
    }

    /// What the caller is to do next.
    pub fn pending(&self) -> (action: RunAction)
        ensures
            action@ == self@.action(),
    {
        proof {
            use_type_invariant(self);
        }
        match self.phase {
            Phase::Ready => RunAction::Advance,
            Phase::AwaitingLookup => RunAction::Lookup {
                identifier: self.candidates[self.position].identifier.clone(),
            },
            Phase::AwaitingItem => RunAction::Process {
                candidate: self.candidates[self.position].clone(),
            },
            Phase::AwaitingRecord => RunAction::Record {
                identifier: self.candidates[self.position].identifier.clone(),
            },
            Phase::AwaitingPause => RunAction::Pause { seconds: self.config.delay_secs },
            Phase::Finished => RunAction::Finish,
        }
    }

    /// Takes what came of the action that was due and moves on.
    pub fn advance(self, event: RunEvent) -> (step: Step)
        ensures
            step.next@ == self@.step(event@),
            step.notice.deep_view() == self@.notice(event@),
    {
        proof {
            use_type_invariant(&self);
        }
        let ghost before = self@;
        let RunController { config, candidates, position, phase, ledger, outcome, articles } = self;
        match (phase, event) {
            (Phase::Ready, RunEvent::Next) => {
                if outcome.included >= config.limit || position >= candidates.len() {
                    let next = RunController {
                        config,
                        candidates,
                        position,
                        phase: Phase::Finished,
                        ledger,
                        outcome,
                        articles,
                    };
                    return Step { next, notice: None };
                }
                let counted = RunOutcome { attempted: outcome.attempted + 1, ..outcome };
                if !config.ledger.uses_ledger() {
                    let next = RunController {
                        config,
                        candidates,
                        position,
                        phase: Phase::AwaitingItem,
                        ledger,
                        outcome: counted,
                        articles,
                    };
                    Step { next, notice: None }
                } else if ledger.contains(candidates[position].identifier.as_str()) {
                    let identifier = candidates[position].identifier.clone();
                    let next = RunController {
                        config,
                        candidates,
                        position: position + 1,
                        phase: Phase::Ready,
                        ledger,
                        outcome: RunOutcome { skipped: counted.skipped + 1, ..counted },
                        articles,
                    };
                    Step { next, notice: Some(Notice::Skipped { identifier }) }
                } else {
                    let next = RunController {
                        config,
                        candidates,
                        position,
                        phase: Phase::AwaitingLookup,
                        ledger,
                        outcome: counted,
                        articles,
                    };
                    Step { next, notice: None }
                }
            },
            (Phase::AwaitingLookup, RunEvent::Looked(answer)) => {
                let identifier = candidates[position].identifier.clone();
                match ledger.should_emit(identifier.as_str(), answer) {
                    Ok(false) => {
                        let next = RunController {
                            config,
                            candidates,
                            position: position + 1,
                            phase: Phase::Ready,
                            ledger,
                            outcome: RunOutcome { skipped: outcome.skipped + 1, ..outcome },
                            articles,
                        };
                        Step { next, notice: Some(Notice::Skipped { identifier }) }
                    },
                    Ok(true) => {
                        let next = RunController {
                            config,
                            candidates,
                            position,
                            phase: Phase::AwaitingItem,
                            ledger,
                            outcome,
                            articles,
                        };
                        Step { next, notice: None }
                    },
                    Err(error) => {
                        let next = RunController {
                            config,
                            candidates,
                            position,
                            phase: Phase::AwaitingItem,
                            ledger,
                            outcome,
                            articles,
                        };
                        Step {
                            next,
                            notice: Some(
                                Notice::StorageWarning { identifier, detail: error.detail },
                            ),
                        }
                    },
                }
            },
            (Phase::AwaitingItem, RunEvent::Processed(Err(failure))) => {
                let identifier = candidates[position].identifier.clone();
                let next = RunController {
                    config,
                    candidates,
                    position: position + 1,
                    phase: Phase::Ready,
                    ledger,
                    outcome: RunOutcome { failed: outcome.failed + 1, ..outcome },
                    articles,
                };
                Step { next, notice: Some(Notice::Failed { identifier, failure }) }
            },
            (Phase::AwaitingItem, RunEvent::Processed(Ok(article))) => {
                let mut articles = articles;
                let ghost earlier = articles.deep_view();
                articles.push(article);
                assert(articles.deep_view() =~= earlier.push(article@));
                let counted = RunOutcome { included: outcome.included + 1, ..outcome };
                let (position, phase) = if config.ledger.uses_ledger() {
                    (position, Phase::AwaitingRecord)
                } else if config.delay_secs > 0 {
                    (position, Phase::AwaitingPause)
                } else {
                    (position + 1, Phase::Ready)
                };
                let next = RunController {
                    config,
                    candidates,
                    position,
                    phase,
                    ledger,
                    outcome: counted,
                    articles,
                };
                Step { next, notice: None }
            },
            (Phase::AwaitingRecord, RunEvent::Recorded(answer)) => {
                let mut ledger = ledger;
                let identifier = candidates[position].identifier.clone();
                let notice = match ledger.mark_seen(identifier.as_str(), answer) {
                    Ok(done) => None,
                    Err(error) => Some(Notice::StorageWarning { identifier, detail: error.detail }),
                };
                let (position, phase) = if config.delay_secs > 0 {
                    (position, Phase::AwaitingPause)
                } else {
                    (position + 1, Phase::Ready)
                };
                let next = RunController {
                    config,
                    candidates,
                    position,
                    phase,
                    ledger,
                    outcome,
                    articles,
                };
                Step { next, notice }
            },
            (Phase::AwaitingPause, RunEvent::Paused) => {
                let next = RunController {
                    config,
                    candidates,
                    position: position + 1,
                    phase: Phase::Ready,
                    ledger,
                    outcome,
                    articles,
                };
                Step { next, notice: None }
            },
            (phase, event) => {
                let next = RunController {
                    config,
                    candidates,
                    position,
                    phase,
                    ledger,
                    outcome,
                    articles,
                };
                Step { next, notice: None }
            },
        }
    }

    /// Ends the run. With no article included the run has failed; otherwise
    /// the articles go on to the bundle. The counters are handed out either
    /// way.
    pub fn finish(self) -> (result: Result<RunReport, (RunError, RunOutcome)>)
        ensures
            match result {
                Ok(report) => self@.articles.len() > 0 && report.articles.deep_view()
                    == self@.articles && counts_of(report.outcome, self@),
                Err((error, outcome)) => self@.articles.len() == 0 && error
                    == RunError::EmptyResult && counts_of(outcome, self@),
            },
    {
        if self.articles.len() == 0 {
            Err((RunError::EmptyResult, self.outcome))
        } else {
            Ok(RunReport { articles: self.articles, outcome: self.outcome })
        }
    }
}

/// A run starts in a consistent state.
pub proof fn law_run_starts_consistent(
    config: RunConfig,
    candidates: Seq<CandidateView>,
    in_run: Set<Seq<char>>,
)
    requires
        candidates.len() <= usize::MAX,
    ensures
        initial_run(config, candidates, in_run).consistent(),
{
}

/// No event takes a run out of its consistent states.
pub proof fn law_run_stays_consistent(run: RunView, event: RunEventView)
    requires
        run.consistent(),
    ensures
        run.step(event).consistent(),
{
}

/// Between candidates and at the end, every candidate that was attempted is
/// accounted for exactly once: it was included, skipped or failed. The
/// included ones are those whose articles the run holds.
pub proof fn law_counters_account_for_every_candidate(run: RunView)
    requires
        run.consistent(),
        run.phase is Ready || run.phase is Finished,
    ensures
        run.attempted == run.included + run.skipped + run.failed,
        run.attempted == run.position,
        run.included == run.articles.len(),
{
}

/// The limit is kept. A run never holds more articles than the limit allows;
/// it asks the store about a candidate, and hands one to the item processor,
/// only while it holds fewer; with the limit reached the next candidate is
/// not taken up and the run ends, and stays ended.
pub proof fn law_limit_is_kept(run: RunView, event: RunEventView)
    requires
        run.consistent(),
    ensures
        run.articles.len() <= run.config.limit,
        run.action() is Lookup || run.action() is Process ==> run.articles.len()
            < run.config.limit,
        run.phase is Ready && run.articles.len() >= run.config.limit ==> run.step(
            RunEventView::Next,
        ).phase is Finished && run.step(RunEventView::Next).attempted == run.attempted,
        run.phase is Finished ==> run.step(event) == run,
{
}

/// The candidates are taken in their order: the one handed to the item
/// processor is the one at the run's position, and no event moves the
/// position back or by more than one.
pub proof fn law_candidates_are_taken_in_order(run: RunView, event: RunEventView)
    requires
        run.consistent(),
    ensures
        run.action() matches RunActionView::Process { candidate } ==> candidate
            == run.candidates[run.position as int],
        run.position <= run.step(event).position <= run.position + 1,
        run.step(event).candidates == run.candidates,
{
}

/// The articles keep the order in which their candidates were processed:
/// the success of the item that was due adds its article at the end, and
/// every other event leaves the articles as they are.
pub proof fn law_articles_are_added_at_the_end(run: RunView, event: RunEventView)
    ensures
        match event {
            RunEventView::Processed(Ok(article)) => if run.phase is AwaitingItem {
                run.step(event).articles == run.articles.push(article)
            } else {
                run.step(event).articles == run.articles
            },
            _ => run.step(event).articles == run.articles,
        },
{
}

/// Whatever happens later in a run, the articles included so far stay where
/// they are, in front of all that follow.
pub proof fn law_included_articles_stay(run: RunView, events: Seq<RunEventView>)
    ensures
        run.articles.is_prefix_of(run.after_all(events).articles),
    decreases events.len(),
{
    if events.len() > 0 {
        let earlier = run.after_all(events.drop_last());
        law_included_articles_stay(run, events.drop_last());
        law_articles_are_added_at_the_end(earlier, events.last());
    }
}

/// Whether an event reports that an item succeeded.
pub open spec fn reports_success(event: RunEventView) -> bool {
    event matches RunEventView::Processed(Ok(article))
}

/// Without a successful item there is no article: where none of the events
/// of a run reports success, the run holds no article at its end, and
/// `finish` refuses it.
pub proof fn law_no_success_gives_no_article(
    config: RunConfig,
    candidates: Seq<CandidateView>,
    in_run: Set<Seq<char>>,
    events: Seq<RunEventView>,
)
    requires
        forall|i: int| 0 <= i < events.len() ==> !reports_success(#[trigger] events[i]),
    ensures
        initial_run(config, candidates, in_run).after_all(events).articles.len() == 0,
    decreases events.len(),
{
    if events.len() > 0 {
        let earlier = events.drop_last();
        assert forall|i: int| 0 <= i < earlier.len() implies !reports_success(
            #[trigger] earlier[i],
        ) by {
            assert(earlier[i] == events[i]);
        }
        law_no_success_gives_no_article(config, candidates, in_run, earlier);
        law_articles_are_added_at_the_end(
            initial_run(config, candidates, in_run).after_all(earlier),
            events.last(),
        );
    }
}

/// The line that sums a run up.
pub open spec fn summary_text(outcome: RunOutcome) -> Seq<char> {
    "Summary: attempted="@ + decimal(outcome.attempted as nat) + " included="@ + decimal(
        outcome.included as nat,
    ) + " skipped="@ + decimal(outcome.skipped as nat) + " failed="@ + decimal(
        outcome.failed as nat,
    )
}

impl RunOutcome {
    /// The line that sums a run up, for a run that failed as for one that
    /// did not.
    pub fn summary_line(&self) -> (line: String)
        ensures
            line@ == summary_text(*self),
    {
        let mut line = String::from_str("Summary: attempted=");
        push_decimal(&mut line, self.attempted as u64);
        line.append(" included=");
        push_decimal(&mut line, self.included as u64);
        line.append(" skipped=");
        push_decimal(&mut line, self.skipped as u64);
        line.append(" failed=");
        push_decimal(&mut line, self.failed as u64);
        line
    }
}

/// The exit code of the program: 0 for a run that gave a document, 1 for
/// every failure.
pub open spec fn exit_code_for(result: Result<(), RunError>) -> i32 {
    match result {
        Ok(done) => 0,
        Err(error) => 1,
    }
}

/// The exit code with which the program reports how a run ended.
pub fn exit_code(result: Result<(), RunError>) -> (code: i32)
    ensures
        code == exit_code_for(result),
{
    match result {
        Ok(done) => 0,
        Err(error) => 1,
    }
}

/// What the renderer achieved: it succeeded when it exited with code 0 and
/// the output is there.
pub open spec fn rendered(exit_status: Option<i32>, output_present: bool) -> Result<(), RunError> {
    if exit_status == Some(0i32) && output_present {
        Ok(())
    } else {
        Err(RunError::RenderFailed)
    }
}

/// Judges the renderer by its exit code, if it exited, and by whether its
/// output is there.
pub fn render_result(exit_status: Option<i32>, output_present: bool) -> (result: Result<
    (),
    RunError,
>)
    ensures
        result == rendered(exit_status, output_present),
{
    match exit_status {
        Some(code) => {
            if code == 0 && output_present {
                Ok(())
            } else {
                Err(RunError::RenderFailed)
            }
        },
        None => Err(RunError::RenderFailed),
    }
}

} // verus!
