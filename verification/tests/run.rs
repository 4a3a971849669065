use rmfeeder::bundle::{assemble, BundleError, PageSize};
use rmfeeder::item::{CandidateItem, FetchError, ItemFailure, ProcessedArticle};
use rmfeeder::ledger::{Ledger, StorageError};
use rmfeeder::run::{
    exit_code, ledger_mode, render_result, ConfigError, LedgerMode, Notice, RunAction, RunConfig,
    RunController, RunError, RunEvent, RunOutcome, RunReport,
};
use std::collections::BTreeSet;

fn candidate_named(name: &str) -> CandidateItem {
    CandidateItem {
        identifier: format!("id::{}", name),
        source_url: format!("https://example.com/{}", name),
        display_hint: None,
    }
}

fn article_named(name: &str) -> ProcessedArticle {
    ProcessedArticle { title: name.to_string(), body_html: format!("<p>{}</p>", name) }
}

fn config(limit: usize, delay_secs: u64, ledger: LedgerMode) -> RunConfig {
    RunConfig { limit, delay_secs, ledger }
}

/// What a run did to the world around it.
struct World {
    store: BTreeSet<String>,
    failing: BTreeSet<String>,
    store_broken: bool,
    processed: Vec<String>,
    looked_up: Vec<String>,
    paused: Vec<u64>,
    notices: Vec<Notice>,
}

impl World {
    fn new() -> World {
        World {
            store: BTreeSet::new(),
            failing: BTreeSet::new(),
            store_broken: false,
            processed: Vec::new(),
            looked_up: Vec::new(),
            paused: Vec::new(),
            notices: Vec::new(),
        }
    }

    fn perform(&mut self, action: RunAction) -> Option<RunEvent> {
        match action {
            RunAction::Advance => Some(RunEvent::Next),
            RunAction::Lookup { identifier } => {
                self.looked_up.push(identifier.clone());
                if self.store_broken {
                    Some(RunEvent::Looked(Err(StorageError { detail: "locked".to_string() })))
                } else {
                    Some(RunEvent::Looked(Ok(self.store.contains(&identifier))))
                }
            }
            RunAction::Process { candidate } => {
                let name = candidate.source_url.rsplit('/').next().unwrap().to_string();
                self.processed.push(name.clone());
                if self.failing.contains(&name) {
                    Some(RunEvent::Processed(Err(ItemFailure::ExtractionFailed)))
                } else {
                    Some(RunEvent::Processed(Ok(article_named(&name))))
                }
            }
            RunAction::Record { identifier } => {
                if self.store_broken {
                    Some(RunEvent::Recorded(Err(StorageError { detail: "locked".to_string() })))
                } else {
                    self.store.insert(identifier);
                    Some(RunEvent::Recorded(Ok(())))
                }
            }
            RunAction::Pause { seconds } => {
                self.paused.push(seconds);
                Some(RunEvent::Paused)
            }
            RunAction::Finish => None,
        }
    }

    fn run(
        &mut self,
        config: RunConfig,
        names: &[&str],
    ) -> Result<RunReport, (RunError, RunOutcome)> {
        let candidates: Vec<CandidateItem> = names.iter().map(|n| candidate_named(n)).collect();
        let mut controller = RunController::new(config, candidates, Ledger::new()).unwrap();
        for _ in 0..1000 {
            let event = match self.perform(controller.pending()) {
                Some(event) => event,
                None => return controller.finish(),
            };
            let step = controller.advance(event);
            controller = step.next;
            if let Some(notice) = step.notice {
                self.notices.push(notice);
            }
        }
        panic!("the run does not end");
    }
}

fn counters(attempted: usize, included: usize, skipped: usize, failed: usize) -> RunOutcome {
    RunOutcome { attempted, included, skipped, failed }
}

fn titles(report: &RunReport) -> Vec<String> {
    report.articles.iter().map(|a| a.title.clone()).collect()
}

#[test]
fn no_candidates_is_an_empty_source() {
    let run = RunController::new(config(3, 0, LedgerMode::Enabled), Vec::new(), Ledger::new());
    assert!(matches!(run, Err(RunError::EmptySource)));
}

#[test]
fn all_succeeding_keep_their_order() {
    let mut world = World::new();
    let report = world.run(config(10, 0, LedgerMode::Enabled), &["a", "b", "c"]).unwrap();
    assert_eq!(titles(&report), vec!["a", "b", "c"]);
    assert_eq!(report.outcome, counters(3, 3, 0, 0));
    assert_eq!(world.processed, vec!["a", "b", "c"]);
    let page = PageSize { width_mm: 157, height_mm: 210 };
    let document = assemble(&report.articles, "t", "s", "d", page).unwrap();
    let a = document.find("<li><a href=\"#article-1\">a</a></li>").unwrap();
    let b = document.find("<li><a href=\"#article-2\">b</a></li>").unwrap();
    let c = document.find("<li><a href=\"#article-3\">c</a></li>").unwrap();
    assert!(a < b && b < c);
    let a = document.find("<section id=\"article-1\" class=\"article-block\">\n    <h1>a</h1>").unwrap();
    let b = document.find("<section id=\"article-2\" class=\"article-block\">\n    <h1>b</h1>").unwrap();
    let c = document.find("<section id=\"article-3\" class=\"article-block\">\n    <h1>c</h1>").unwrap();
    assert!(a < b && b < c);
}

#[test]
fn partial_failure_is_counted_and_left_out() {
    let mut world = World::new();
    world.failing.insert("b".to_string());
    let report = world.run(config(10, 0, LedgerMode::Enabled), &["a", "b", "c"]).unwrap();
    assert_eq!(report.outcome, counters(3, 2, 0, 1));
    assert_eq!(titles(&report), vec!["a", "c"]);
    assert_eq!(
        world.notices,
        vec![Notice::Failed {
            identifier: "id::b".to_string(),
            failure: ItemFailure::ExtractionFailed
        }]
    );
    assert!(world.store.contains("id::a") && world.store.contains("id::c"));
    assert!(!world.store.contains("id::b"));
}

#[test]
fn every_candidate_failing_is_an_empty_result() {
    let mut world = World::new();
    for name in ["a", "b", "c"] {
        world.failing.insert(name.to_string());
    }
    let failure = world.run(config(10, 5, LedgerMode::Enabled), &["a", "b", "c"]).unwrap_err();
    assert_eq!(failure, (RunError::EmptyResult, counters(3, 0, 0, 3)));
    assert_eq!(exit_code(Err(failure.0)), 1);
    assert_eq!(assemble(&Vec::new(), "t", "s", "d", PageSize { width_mm: 1, height_mm: 1 }), Err(BundleError::NoArticles));
    assert!(world.store.is_empty());
    assert!(world.paused.is_empty());
}

#[test]
fn limit_stops_before_the_third_candidate() {
    let mut world = World::new();
    let report = world.run(config(2, 0, LedgerMode::Enabled), &["a", "b", "c"]).unwrap();
    assert_eq!(report.outcome, counters(2, 2, 0, 0));
    assert_eq!(world.processed, vec!["a", "b"]);
    assert_eq!(world.looked_up, vec!["id::a", "id::b"]);
    assert!(!world.store.contains("id::c"));
}

#[test]
fn limit_counts_included_articles_only() {
    let mut world = World::new();
    world.failing.insert("a".to_string());
    world.store.insert("id::b".to_string());
    let report = world.run(config(2, 0, LedgerMode::Enabled), &["a", "b", "c", "d", "e"]).unwrap();
    assert_eq!(report.outcome, counters(4, 2, 1, 1));
    assert_eq!(titles(&report), vec!["c", "d"]);
    assert_eq!(world.processed, vec!["a", "c", "d"]);
}

#[test]
fn limit_of_zero_attempts_nothing() {
    let mut world = World::new();
    let failure = world.run(config(0, 0, LedgerMode::Enabled), &["a"]).unwrap_err();
    assert_eq!(failure, (RunError::EmptyResult, counters(0, 0, 0, 0)));
    assert!(world.looked_up.is_empty() && world.processed.is_empty());
}

#[test]
fn delivered_before_is_skipped() {
    let mut world = World::new();
    world.store.insert("id::a".to_string());
    let report = world.run(config(10, 0, LedgerMode::Enabled), &["a", "b"]).unwrap();
    assert_eq!(report.outcome, counters(2, 1, 1, 0));
    assert_eq!(world.processed, vec!["b"]);
    assert_eq!(world.notices, vec![Notice::Skipped { identifier: "id::a".to_string() }]);
}

#[test]
fn second_run_delivers_nothing_again() {
    let mut world = World::new();
    world.run(config(10, 0, LedgerMode::Enabled), &["a", "b"]).unwrap();
    world.processed.clear();
    let failure = world.run(config(10, 0, LedgerMode::Enabled), &["a", "b"]).unwrap_err();
    assert_eq!(failure, (RunError::EmptyResult, counters(2, 0, 2, 0)));
    assert!(world.processed.is_empty());
}

#[test]
fn repeated_identifier_is_skipped_without_asking_the_store() {
    let mut world = World::new();
    let report = world.run(config(10, 0, LedgerMode::Enabled), &["a", "a", "b"]).unwrap();
    assert_eq!(report.outcome, counters(3, 2, 1, 0));
    assert_eq!(world.processed, vec!["a", "b"]);
    assert_eq!(world.looked_up, vec!["id::a", "id::b"]);
}

#[test]
fn ledger_that_has_seen_an_identifier_skips_it() {
    let mut ledger = Ledger::new();
    ledger.mark_seen("id::a", Ok(())).unwrap();
    let run = RunController::new(
        config(5, 0, LedgerMode::Enabled),
        vec![candidate_named("a"), candidate_named("b")],
        ledger,
    )
    .unwrap();
    let step = run.advance(RunEvent::Next);
    assert_eq!(step.notice, Some(Notice::Skipped { identifier: "id::a".to_string() }));
    assert_eq!(step.next.pending(), RunAction::Advance);
    let step = step.next.advance(RunEvent::Next);
    assert_eq!(step.next.pending(), RunAction::Lookup { identifier: "id::b".to_string() });
}

#[test]
fn without_ledger_nothing_is_asked_or_recorded() {
    let mut world = World::new();
    world.store.insert("id::a".to_string());
    let report = world.run(config(10, 0, LedgerMode::Disabled), &["a", "a"]).unwrap();
    assert_eq!(report.outcome, counters(2, 2, 0, 0));
    assert!(world.looked_up.is_empty());
    assert_eq!(world.store.len(), 1);
}

#[test]
fn broken_store_warns_and_does_not_stop_the_run() {
    let mut world = World::new();
    world.store_broken = true;
    let report = world.run(config(10, 0, LedgerMode::Enabled), &["a", "a"]).unwrap();
    assert_eq!(report.outcome, counters(2, 2, 0, 0));
    let warning = |id: &str| Notice::StorageWarning {
        identifier: id.to_string(),
        detail: "locked".to_string(),
    };
    assert_eq!(world.notices, vec![warning("id::a"), warning("id::a"), warning("id::a"), warning("id::a")]);
}

#[test]
fn pause_follows_each_included_article() {
    let mut world = World::new();
    world.failing.insert("b".to_string());
    world.store.insert("id::c".to_string());
    let report = world.run(config(10, 7, LedgerMode::Enabled), &["a", "b", "c", "d"]).unwrap();
    assert_eq!(report.outcome, counters(4, 2, 1, 1));
    assert_eq!(world.paused, vec![7, 7]);
    let mut quiet = World::new();
    quiet.run(config(10, 0, LedgerMode::Disabled), &["a"]).unwrap();
    assert!(quiet.paused.is_empty());
}

#[test]
fn event_that_is_not_due_is_ignored() {
    let run = RunController::new(config(1, 0, LedgerMode::Enabled), vec![candidate_named("a")], Ledger::new()).unwrap();
    let step = run.advance(RunEvent::Paused);
    assert_eq!(step.next.pending(), RunAction::Advance);
    assert_eq!(step.notice, None);
    let step = step.next.advance(RunEvent::Next);
    assert_eq!(step.next.pending(), RunAction::Lookup { identifier: "id::a".to_string() });
    let step = step.next.advance(RunEvent::Processed(Ok(article_named("x"))));
    assert_eq!(step.next.pending(), RunAction::Lookup { identifier: "id::a".to_string() });
    assert_eq!(step.next.outcome(), counters(1, 0, 0, 0));
    let step = step.next.advance(RunEvent::Looked(Ok(false)));
    assert_eq!(step.next.pending(), RunAction::Process { candidate: candidate_named("a") });
    let step = step.next.advance(RunEvent::Processed(Err(ItemFailure::FetchFailed(FetchError::Forbidden))));
    assert_eq!(
        step.notice,
        Some(Notice::Failed {
            identifier: "id::a".to_string(),
            failure: ItemFailure::FetchFailed(FetchError::Forbidden)
        })
    );
    let step = step.next.advance(RunEvent::Next);
    assert_eq!(step.next.pending(), RunAction::Finish);
    let step = step.next.advance(RunEvent::Next);
    assert_eq!(step.next.pending(), RunAction::Finish);
    assert_eq!(step.next.finish(), Err((RunError::EmptyResult, counters(1, 0, 0, 1))));
}

#[test]
fn summary_line_gives_the_four_counters() {
    assert_eq!(
        counters(12, 7, 3, 2).summary_line(),
        "Summary: attempted=12 included=7 skipped=3 failed=2"
    );
    assert_eq!(counters(0, 0, 0, 0).summary_line(), "Summary: attempted=0 included=0 skipped=0 failed=0");
}

#[test]
fn clearing_a_disabled_ledger_is_refused() {
    assert_eq!(ledger_mode(false, true), Err(ConfigError::ClearWithoutLedger));
    assert_eq!(ledger_mode(false, false), Ok(LedgerMode::Disabled));
    assert_eq!(ledger_mode(true, false), Ok(LedgerMode::Enabled));
    assert_eq!(ledger_mode(true, true), Ok(LedgerMode::EnabledCleared));
    assert!(LedgerMode::EnabledCleared.clears() && LedgerMode::EnabledCleared.uses_ledger());
    assert!(!LedgerMode::Enabled.clears() && LedgerMode::Enabled.uses_ledger());
    assert!(!LedgerMode::Disabled.clears() && !LedgerMode::Disabled.uses_ledger());
}

#[test]
fn exit_codes() {
    assert_eq!(exit_code(Ok(())), 0);
    assert_eq!(exit_code(Err(RunError::EmptySource)), 1);
    assert_eq!(exit_code(Err(RunError::EmptyResult)), 1);
    assert_eq!(exit_code(Err(RunError::RenderFailed)), 1);
}

#[test]
fn renderer_must_exit_well_and_leave_output() {
    assert_eq!(render_result(Some(0), true), Ok(()));
    assert_eq!(render_result(Some(0), false), Err(RunError::RenderFailed));
    assert_eq!(render_result(Some(1), true), Err(RunError::RenderFailed));
    assert_eq!(render_result(None, true), Err(RunError::RenderFailed));
}
