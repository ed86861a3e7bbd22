use tootoo::coordinator::{Outcome, Phase, RunAction, RunCoordinator, RunEvent};
use tootoo::domain::contract::{LlmRecommendationItem, LlmRecommendationSnapshot};
use tootoo::domain::number::Binary64;
use tootoo::domain::recommendation::{Candidate, RecommendationSnapshot};
use tootoo::llm::anthropic::Generated;
use tootoo::llm::error::{LlmDiagnosticsError, Stage};
use tootoo::llm::Provider;
use tootoo::storage::lock::lock_key_for_date;
use tootoo::storage::recommendations::{is_unique_violation, PersistError, RawResponse};
use tootoo::time::{Date, Timestamp};
use tootoo::universe::{ScoredCandidate, UniverseOptions};

fn day() -> Date {
    Date::from_ymd(2026, 1, 27).unwrap()
}

fn options(size: usize) -> UniverseOptions {
    UniverseOptions { size, min_trading_value: None, oversample: 5 }
}

fn rows(n: usize) -> Vec<ScoredCandidate> {
    (0..n)
        .map(|i| ScoredCandidate {
            score: Binary64::from_bits((i as f64).to_bits()),
            candidate: Candidate {
                ticker: format!("KRX:{i:06}"),
                name: format!("Company {i}"),
                features: Vec::new(),
            },
        })
        .collect()
}

fn snapshot() -> RecommendationSnapshot {
    LlmRecommendationSnapshot {
        as_of_date: day(),
        generated_at: Timestamp { secs: 1_769_508_000, nanos: 0 },
        items: (1..=20)
            .map(|rank| LlmRecommendationItem {
                rank,
                ticker: format!("KRX:{rank:06}"),
                name: format!("Name {rank}"),
                rationale: vec!["a".to_string(), "b".to_string(), "c".to_string()],
                risk_notes: None,
                confidence: None,
            })
            .collect(),
    }
    .validate_and_into_snapshot(day())
    .unwrap()
}

fn store_error(code: Option<&str>) -> PersistError {
    PersistError { sqlstate: code.map(|c| c.to_string()), message: "insert failed".to_string() }
}

/// A run that holds the lock, has found no snapshot and waits for the features.
fn fetching(size: usize) -> RunCoordinator {
    let run = RunCoordinator::new(day(), options(size));
    let (run, _) = run.step(RunEvent::Start);
    let (run, _) = run.step(RunEvent::LockResult(Ok(true)));
    let (run, action) = run.step(RunEvent::ExistingSuccess(Ok(false)));
    assert!(matches!(action, RunAction::FetchFeatures { .. }));
    run
}

fn generating() -> RunCoordinator {
    let (run, action) = fetching(200).step(RunEvent::Features(Ok(rows(1000))));
    assert!(matches!(action, RunAction::Generate { .. }));
    run
}

#[test]
fn a_run_begins_by_asking_for_the_days_lock() {
    let (run, action) = RunCoordinator::new(day(), options(200)).step(RunEvent::Start);
    assert_eq!(run.phase, Phase::LockAcquisition);
    match action {
        RunAction::AcquireLock { key } => assert_eq!(key, lock_key_for_date(day())),
        other => panic!("unexpected {other:?}"),
    }
}

#[test]
fn a_denied_lock_ends_the_run_without_a_write() {
    let (run, _) = RunCoordinator::new(day(), options(200)).step(RunEvent::Start);
    let (run, action) = run.step(RunEvent::LockResult(Ok(false)));
    assert_eq!(run.phase, Phase::Done(Outcome::LockDenied));
    assert!(run.is_done());
    assert!(matches!(action, RunAction::Exit { outcome: Outcome::LockDenied }));
    assert_eq!(Outcome::LockDenied.exit_code(), 0);
}

#[test]
fn of_two_runs_for_one_day_only_the_one_with_the_lock_goes_on() {
    let (first, a1) = RunCoordinator::new(day(), options(200)).step(RunEvent::Start);
    let (second, a2) = RunCoordinator::new(day(), options(200)).step(RunEvent::Start);
    let (k1, k2) = match (a1, a2) {
        (RunAction::AcquireLock { key: k1 }, RunAction::AcquireLock { key: k2 }) => (k1, k2),
        other => panic!("unexpected {other:?}"),
    };
    assert_eq!(k1, k2);
    let (first, a1) = first.step(RunEvent::LockResult(Ok(true)));
    let (second, a2) = second.step(RunEvent::LockResult(Ok(false)));
    assert_eq!(first.phase, Phase::IdempotencyCheck);
    assert!(matches!(a1, RunAction::CheckExistingSuccess { .. }));
    assert!(second.is_done());
    assert!(matches!(a2, RunAction::Exit { outcome: Outcome::LockDenied }));
}

#[test]
fn a_store_that_cannot_be_asked_for_the_lock_is_a_failed_setup() {
    let (run, _) = RunCoordinator::new(day(), options(200)).step(RunEvent::Start);
    let (run, action) = run.step(RunEvent::LockResult(Err("connection refused".to_string())));
    assert_eq!(run.phase, Phase::Done(Outcome::SetupFailed));
    assert!(matches!(action, RunAction::Exit { outcome: Outcome::SetupFailed }));
    assert_eq!(Outcome::SetupFailed.exit_code(), 1);
}

#[test]
fn an_existing_snapshot_ends_the_run_after_the_release() {
    let (run, _) = RunCoordinator::new(day(), options(200)).step(RunEvent::Start);
    let (run, _) = run.step(RunEvent::LockResult(Ok(true)));
    let (run, action) = run.step(RunEvent::ExistingSuccess(Ok(true)));
    assert_eq!(run.phase, Phase::LockRelease(Outcome::AlreadySatisfied));
    match action {
        RunAction::ReleaseLock { key } => assert_eq!(key, lock_key_for_date(day())),
        other => panic!("unexpected {other:?}"),
    }
    let (run, action) = run.step(RunEvent::LockReleased);
    assert_eq!(run.phase, Phase::Done(Outcome::AlreadySatisfied));
    assert!(matches!(action, RunAction::Exit { outcome: Outcome::AlreadySatisfied }));
    assert_eq!(Outcome::AlreadySatisfied.exit_code(), 0);
}

#[test]
fn a_failed_check_gives_the_lock_back() {
    let (run, _) = RunCoordinator::new(day(), options(200)).step(RunEvent::Start);
    let (run, _) = run.step(RunEvent::LockResult(Ok(true)));
    let (run, action) = run.step(RunEvent::ExistingSuccess(Err("timeout".to_string())));
    assert_eq!(run.phase, Phase::LockRelease(Outcome::SetupFailed));
    assert!(matches!(action, RunAction::ReleaseLock { .. }));
}

#[test]
fn the_store_is_asked_for_size_times_oversample_rows() {
    let run = RunCoordinator::new(day(), options(300));
    let (run, _) = run.step(RunEvent::Start);
    let (run, _) = run.step(RunEvent::LockResult(Ok(true)));
    let (run, action) = run.step(RunEvent::ExistingSuccess(Ok(false)));
    assert_eq!(run.phase, Phase::FetchingFeatures);
    match action {
        RunAction::FetchFeatures { as_of_date, limit, min_trading_value } => {
            assert_eq!(as_of_date, day());
            assert_eq!(limit, 1500);
            assert_eq!(min_trading_value, None);
        }
        other => panic!("unexpected {other:?}"),
    }
}

#[test]
fn options_out_of_range_are_recorded_as_a_failure() {
    let run = RunCoordinator::new(day(), options(100));
    let (run, _) = run.step(RunEvent::Start);
    let (run, _) = run.step(RunEvent::LockResult(Ok(true)));
    let (run, action) = run.step(RunEvent::ExistingSuccess(Ok(false)));
    assert_eq!(run.phase, Phase::RecordingFailure);
    match action {
        RunAction::PersistFailure { as_of_date, error, raw_response } => {
            assert_eq!(as_of_date, day());
            assert_eq!(error, "candidate universe size must be 200..=500 (got 100)");
            assert!(raw_response.is_none());
        }
        other => panic!("unexpected {other:?}"),
    }
}

#[test]
fn the_universe_goes_to_the_generation() {
    let (run, action) = fetching(200).step(RunEvent::Features(Ok(rows(1000))));
    assert_eq!(run.phase, Phase::Generating);
    match action {
        RunAction::Generate { input } => {
            assert_eq!(input.as_of_date, day());
            assert_eq!(input.candidates.len(), 200);
            assert_eq!(input.candidates[0].ticker, "KRX:000999");
            assert_eq!(input.candidates[199].ticker, "KRX:000800");
        }
        other => panic!("unexpected {other:?}"),
    }
}

#[test]
fn too_few_candidates_fail_the_run_before_any_call_to_the_model() {
    let (run, action) = fetching(200).step(RunEvent::Features(Ok(rows(150))));
    assert_eq!(run.phase, Phase::RecordingFailure);
    match action {
        RunAction::PersistFailure { error, raw_response, .. } => {
            assert_eq!(
                error,
                "insufficient candidates for as_of_date=2026-01-27 after ETF/ETN exclusion: expected at least 200, got 150"
            );
            assert!(raw_response.is_none());
        }
        other => panic!("unexpected {other:?}"),
    }
    let (run, action) = run.step(RunEvent::FailureWritten);
    assert_eq!(run.phase, Phase::LockRelease(Outcome::FailureRecorded));
    assert!(matches!(action, RunAction::ReleaseLock { .. }));
    let (run, action) = run.step(RunEvent::LockReleased);
    assert_eq!(run.phase, Phase::Done(Outcome::FailureRecorded));
    assert!(matches!(action, RunAction::Exit { outcome: Outcome::FailureRecorded }));
    assert_eq!(Outcome::FailureRecorded.exit_code(), 0);
}

#[test]
fn features_that_cannot_be_read_are_recorded_as_a_failure() {
    let (run, action) = fetching(200).step(RunEvent::Features(Err("query failed".to_string())));
    assert_eq!(run.phase, Phase::RecordingFailure);
    match action {
        RunAction::PersistFailure { error, .. } => assert_eq!(error, "query failed"),
        other => panic!("unexpected {other:?}"),
    }
}

#[test]
fn a_snapshot_is_written_and_the_lock_given_back() {
    let g = Generated { snapshot: snapshot(), raw_response: "{\"id\":\"msg_1\"}".to_string() };
    let (run, action) = generating().step(RunEvent::Generation(Ok(g)));
    assert_eq!(run.phase, Phase::PersistingSuccess);
    match action {
        RunAction::PersistSuccess { snapshot, raw_response } => {
            assert_eq!(snapshot.items.len(), 20);
            assert_eq!(raw_response, "{\"id\":\"msg_1\"}");
        }
        other => panic!("unexpected {other:?}"),
    }
    let (run, action) = run.step(RunEvent::SuccessWritten(Ok(())));
    assert_eq!(run.phase, Phase::LockRelease(Outcome::Persisted));
    assert!(matches!(action, RunAction::ReleaseLock { .. }));
    let (run, action) = run.step(RunEvent::LockReleased);
    assert_eq!(run.phase, Phase::Done(Outcome::Persisted));
    assert!(matches!(action, RunAction::Exit { outcome: Outcome::Persisted }));
    assert_eq!(Outcome::Persisted.exit_code(), 0);
}

#[test]
fn a_snapshot_that_another_run_wrote_first_is_no_failure() {
    let g = Generated { snapshot: snapshot(), raw_response: String::new() };
    let (run, _) = generating().step(RunEvent::Generation(Ok(g)));
    let (run, action) = run.step(RunEvent::SuccessWritten(Err(store_error(Some("23505")))));
    assert_eq!(run.phase, Phase::LockRelease(Outcome::AlreadyPersisted));
    assert!(matches!(action, RunAction::ReleaseLock { .. }));
    assert_eq!(Outcome::AlreadyPersisted.exit_code(), 0);
}

#[test]
fn another_error_of_the_store_is_recorded_as_a_failure() {
    let g = Generated { snapshot: snapshot(), raw_response: String::new() };
    let (run, _) = generating().step(RunEvent::Generation(Ok(g)));
    let (run, action) = run.step(RunEvent::SuccessWritten(Err(store_error(Some("23503")))));
    assert_eq!(run.phase, Phase::RecordingFailure);
    match action {
        RunAction::PersistFailure { error, raw_response, .. } => {
            assert_eq!(error, "persist_success failed: insert failed");
            assert!(raw_response.is_none());
        }
        other => panic!("unexpected {other:?}"),
    }
}

#[test]
fn the_code_of_a_broken_uniqueness_constraint_is_23505() {
    assert!(is_unique_violation(&store_error(Some("23505"))));
    assert!(!is_unique_violation(&store_error(Some("23503"))));
    assert!(!is_unique_violation(&store_error(Some("235050"))));
    assert!(!is_unique_violation(&store_error(None)));
}

#[test]
fn a_failed_generation_is_recorded_with_the_output_that_was_recovered() {
    let e = LlmDiagnosticsError {
        provider: Provider::Anthropic,
        stage: Stage::ParseAfterRepair,
        detail: "final_error=duplicate rank: 3".to_string(),
        raw_output: Some("{broken".to_string()),
        raw_response_json: Some("{\"id\":\"msg_3\"}".to_string()),
    };
    let (run, action) = generating().step(RunEvent::Generation(Err(e)));
    assert_eq!(run.phase, Phase::RecordingFailure);
    match action {
        RunAction::PersistFailure { as_of_date, error, raw_response } => {
            assert_eq!(as_of_date, day());
            assert_eq!(
                error,
                "LLM error (provider=Anthropic, stage=parse_after_repair): final_error=duplicate rank: 3"
            );
            match raw_response {
                Some(RawResponse::Json(body)) => assert_eq!(body, "{\"id\":\"msg_3\"}"),
                other => panic!("unexpected {other:?}"),
            }
        }
        other => panic!("unexpected {other:?}"),
    }
}

#[test]
fn a_failure_without_a_body_keeps_the_output_as_text() {
    let e = LlmDiagnosticsError {
        provider: Provider::Anthropic,
        stage: Stage::Http,
        detail: "status=500 Internal Server Error".to_string(),
        raw_output: Some("oops".to_string()),
        raw_response_json: None,
    };
    let (_, action) = generating().step(RunEvent::Generation(Err(e)));
    match action {
        RunAction::PersistFailure { raw_response: Some(RawResponse::Text(t)), .. } => {
            assert_eq!(t, "oops")
        }
        other => panic!("unexpected {other:?}"),
    }
}

#[test]
fn an_event_out_of_turn_gives_the_lock_back_and_ends_the_run() {
    let (run, action) = generating().step(RunEvent::LockResult(Ok(true)));
    assert_eq!(run.phase, Phase::LockRelease(Outcome::SetupFailed));
    assert!(matches!(action, RunAction::ReleaseLock { .. }));
    let (run, action) = run.step(RunEvent::Start);
    assert_eq!(run.phase, Phase::Done(Outcome::SetupFailed));
    assert!(matches!(action, RunAction::Exit { outcome: Outcome::SetupFailed }));
    let (run, action) = run.step(RunEvent::FailureWritten);
    assert_eq!(run.phase, Phase::Done(Outcome::SetupFailed));
    assert!(matches!(action, RunAction::Exit { outcome: Outcome::SetupFailed }));
    let (run, action) = RunCoordinator::new(day(), options(200)).step(RunEvent::LockReleased);
    assert_eq!(run.phase, Phase::Done(Outcome::SetupFailed));
    assert!(matches!(action, RunAction::Exit { .. }));
}

#[test]
fn lock_keys_are_the_namespace_crossed_with_the_day() {
    let d = day();
    assert_eq!(lock_key_for_date(d), 0x544F_4F54_4F4F ^ (d.days_from_ce() as i64));
    let other = Date::from_ymd(2026, 1, 28).unwrap();
    assert_ne!(lock_key_for_date(d), lock_key_for_date(other));
    let early = Date::from_ymd(-5, 3, 1).unwrap();
    assert_eq!(lock_key_for_date(early), 0x544F_4F54_4F4F ^ (early.days_from_ce() as i64));
}
