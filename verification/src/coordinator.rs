//! The run coordinator: one run for one trading day, from the lock to the exit.
//!
//! A run takes the day's lock, looks whether the day already has its snapshot, builds
//! the universe, has the recommendations generated, and writes what came of it. The
//! coordinator decides; the caller performs each [`RunAction`] against the store and
//! the model and hands back what happened as a [`RunEvent`].

use crate::domain::number::Binary64;
use crate::domain::recommendation::RecommendationSnapshot;
use crate::llm::anthropic::Generated;
use crate::llm::error::{diagnostics_text, LlmDiagnosticsError};
use crate::llm::GenerateInput;
use crate::storage::lock::{lock_key_for_date, lock_key_of};
use crate::storage::recommendations::{
    failure_raw_response, is_unique_violation, raw_of_failure, unique_violation, PersistError,
    RawResponse,
};
use crate::time::Date;
use crate::universe::{
    build_candidate_universe_db, fetch_limit, fetch_limit_spec, universe_error_text,
    universe_of, ScoredCandidate, UniverseOptions,
};
use vstd::prelude::*;
use vstd::string::StringExecFns;

verus! {

/// The provider as the store's rows name it.
pub const PROVIDER_NAME: &'static str = "anthropic";

/// What the error of a failure's row begins with where the snapshot could not be
/// written.
pub const PERSIST_FAILED_PREFIX: &'static str = "persist_success failed: ";

/// How a run ended.
#[derive(Clone, Copy, Debug, PartialEq, Eq, Structural)]
pub enum Outcome {
    /// Another run holds the day's lock.
    LockDenied,
    /// The day has its successful snapshot already.
    AlreadySatisfied,
    /// The snapshot was written.
    Persisted,
    /// Another run wrote the day's snapshot first.
    AlreadyPersisted,
    /// The run failed, and the failure was handed to the store.
    FailureRecorded,
    /// The store could not be asked what a run must know.
    SetupFailed,
}

/// Where a run stands.
#[derive(Clone, Copy, Debug, PartialEq, Eq, Structural)]
pub enum Phase {
    Idle,
    LockAcquisition,
    IdempotencyCheck,
    FetchingFeatures,
    Generating,
    PersistingSuccess,
    RecordingFailure,
    LockRelease(Outcome),
    Done(Outcome),
}

/// A run for one day.
#[derive(Debug, Clone)]
pub struct RunCoordinator {
    pub as_of_date: Date,
    pub options: UniverseOptions,
    pub phase: Phase,
}

/// What happened to the last action.
#[derive(Debug)]
pub enum RunEvent {
    /// The run is to begin.
    Start,
    /// Whether the lock was taken; an error where the store could not be asked.
    LockResult(Result<bool, String>),
    /// Whether the day has a successful snapshot; an error where the store could not
    /// be asked.
    ExistingSuccess(Result<bool, String>),
    /// The most traded tickers of the day, each with its score; an error where the
    /// store could not be read.
    Features(Result<Vec<ScoredCandidate>, String>),
    /// What came of the generation.
    Generation(Result<Generated, LlmDiagnosticsError>),
    /// Whether the snapshot was written.
    SuccessWritten(Result<(), PersistError>),
    /// The failure was handed to the store, whatever came of it.
    FailureWritten,
    /// The lock was given back, or the attempt was made.
    LockReleased,
}

/// What the caller is to do next.
#[derive(Debug)]
pub enum RunAction {
    /// Try to take the lock with this key, without waiting.
    AcquireLock { key: i64 },
    /// Ask whether the day has a successful snapshot.
    CheckExistingSuccess { as_of_date: Date },
    /// Read the `limit` most traded tickers of the day and score them.
    FetchFeatures { as_of_date: Date, limit: usize, min_trading_value: Option<Binary64> },
    /// Have the recommendations generated.
    Generate { input: GenerateInput },
    /// Write the snapshot and its items, all or nothing.
    PersistSuccess { snapshot: RecommendationSnapshot, raw_response: String },
    /// Write a row for the failure.
    PersistFailure { as_of_date: Date, error: String, raw_response: Option<RawResponse> },
    /// Give the lock back.
    ReleaseLock { key: i64 },
    /// Leave.
    Exit { outcome: Outcome },
}

/// The exit status that an outcome means: zero for every run that completed, the
/// runs that had nothing to do included.
pub open spec fn exit_status(outcome: Outcome) -> int {
    if outcome == Outcome::SetupFailed {
        1
    } else {
        0
    }
}

/// Whether a run in this phase holds the day's lock and has yet to give it back.
pub open spec fn holds_lock(phase: Phase) -> bool {
    match phase {
        Phase::IdempotencyCheck => true,
        Phase::FetchingFeatures => true,
        Phase::Generating => true,
        Phase::PersistingSuccess => true,
        Phase::RecordingFailure => true,
        _ => false,
    }
}

/// Whether an action writes to the store.
pub open spec fn writes(action: RunAction) -> bool {
    action is PersistSuccess || action is PersistFailure
}

/// Whether `action` gives back the lock of `date`.
pub open spec fn releases(action: RunAction, date: Date) -> bool {
    action matches RunAction::ReleaseLock { key } && key == lock_key_of(date@)
}

/// Whether `action` writes a failure of `date` with this error and this output.
pub open spec fn records_failure(
    action: RunAction,
    date: Date,
    text: Seq<char>,
    raw: Option<RawResponse>,
) -> bool {
    action matches RunAction::PersistFailure { as_of_date, error, raw_response } && as_of_date
        == date && error@ == text && raw_response == raw
}

/// What a run does in `phase` when an event comes that is not the answer to its last
/// action: it gives back the lock if it holds it, and ends as a failed setup.
pub open spec fn out_of_turn(phase: Phase, date: Date, next: Phase, action: RunAction) -> bool {
    match phase {
        Phase::Done(o) => next == phase && action == (RunAction::Exit { outcome: o }),
        Phase::LockRelease(o) => next == Phase::Done(o) && action == (RunAction::Exit {
            outcome: o,
        }),
        _ => if holds_lock(phase) {
            next == Phase::LockRelease(Outcome::SetupFailed) && releases(action, date)
        } else {
            next == Phase::Done(Outcome::SetupFailed) && action == (RunAction::Exit {
                outcome: Outcome::SetupFailed,
            })
        },
    }
}

/// The step of a run: in `phase`, for the day `date` and with `options`, `event` leads
/// to the phase `next` and to `action`.
pub open spec fn transition(
    phase: Phase,
    date: Date,
    options: UniverseOptions,
    event: RunEvent,
    next: Phase,
    action: RunAction,
) -> bool {
    match (phase, event) {
        (Phase::Idle, RunEvent::Start) => next == Phase::LockAcquisition && action
            == (RunAction::AcquireLock { key: lock_key_of(date@) }),
        (Phase::LockAcquisition, RunEvent::LockResult(Ok(taken))) => if taken {
            next == Phase::IdempotencyCheck && action == (RunAction::CheckExistingSuccess {
                as_of_date: date,
            })
        } else {
            next == Phase::Done(Outcome::LockDenied) && action == (RunAction::Exit {
                outcome: Outcome::LockDenied,
            })
        },
        (Phase::LockAcquisition, RunEvent::LockResult(Err(_))) => next == Phase::Done(
            Outcome::SetupFailed,
        ) && action == (RunAction::Exit { outcome: Outcome::SetupFailed }),
        (Phase::IdempotencyCheck, RunEvent::ExistingSuccess(Ok(exists))) => if exists {
            next == Phase::LockRelease(Outcome::AlreadySatisfied) && releases(action, date)
        } else {
            match fetch_limit_spec(options) {
                Ok(limit) => next == Phase::FetchingFeatures && action
                    == (RunAction::FetchFeatures {
                    as_of_date: date,
                    limit,
                    min_trading_value: options.min_trading_value,
                }),
                Err(e) => next == Phase::RecordingFailure && records_failure(
                    action,
                    date,
                    universe_error_text(e),
                    None,
                ),
            }
        },
        (Phase::IdempotencyCheck, RunEvent::ExistingSuccess(Err(_))) => next
            == Phase::LockRelease(Outcome::SetupFailed) && releases(action, date),
        (Phase::FetchingFeatures, RunEvent::Features(Ok(rows))) => match universe_of(
            date,
            rows@,
            options,
        ) {
            Ok(candidates) => next == Phase::Generating && (action matches RunAction::Generate {
                input,
            } && input.as_of_date == date && input.candidates@ == candidates && input.wf()),
            Err(e) => next == Phase::RecordingFailure && records_failure(
                action,
                date,
                universe_error_text(e),
                None,
            ),
        },
        (Phase::FetchingFeatures, RunEvent::Features(Err(why))) => next
            == Phase::RecordingFailure && records_failure(action, date, why@, None),
        (Phase::Generating, RunEvent::Generation(Ok(g))) => next == Phase::PersistingSuccess
            && action == (RunAction::PersistSuccess {
            snapshot: g.snapshot,
            raw_response: g.raw_response,
        }),
        (Phase::Generating, RunEvent::Generation(Err(e))) => next == Phase::RecordingFailure
            && records_failure(
            action,
            date,
            diagnostics_text(e.provider, e.stage, e.detail@),
            raw_of_failure(e),
        ),
        (Phase::PersistingSuccess, RunEvent::SuccessWritten(Ok(_))) => next
            == Phase::LockRelease(Outcome::Persisted) && releases(action, date),
        (Phase::PersistingSuccess, RunEvent::SuccessWritten(Err(e))) => if unique_violation(
            e.sqlstate,
        ) {
            next == Phase::LockRelease(Outcome::AlreadyPersisted) && releases(action, date)
        } else {
            next == Phase::RecordingFailure && records_failure(
                action,
                date,
                PERSIST_FAILED_PREFIX@ + e.message@,
                None,
            )
        },
        (Phase::RecordingFailure, RunEvent::FailureWritten) => next == Phase::LockRelease(
            Outcome::FailureRecorded,
        ) && releases(action, date),
        (Phase::LockRelease(o), RunEvent::LockReleased) => next == Phase::Done(o) && action
            == (RunAction::Exit { outcome: o }),
        _ => out_of_turn(phase, date, next, action),
    }
}

/// A run that holds the lock keeps it or gives it back: it never ends without the
/// release. And nothing is written but under the lock.
pub proof fn lemma_lock_discipline(
    phase: Phase,
    date: Date,
    options: UniverseOptions,
    event: RunEvent,
    next: Phase,
    action: RunAction,
)
    requires
        transition(phase, date, options, event, next, action),
    ensures
        holds_lock(phase) ==> holds_lock(next) || (next is LockRelease && releases(action, date)),
        next is Done ==> !holds_lock(phase),
        writes(action) ==> holds_lock(phase) && holds_lock(next),
        next is LockRelease ==> releases(action, date),
        next matches Phase::Done(o) ==> action == (RunAction::Exit { outcome: o }),
{
}

/// How many steps a run in this phase has before it at most.
pub open spec fn steps_left(phase: Phase) -> int {
    match phase {
        Phase::Idle => 8,
        Phase::LockAcquisition => 7,
        Phase::IdempotencyCheck => 6,
        Phase::FetchingFeatures => 5,
        Phase::Generating => 4,
        Phase::PersistingSuccess => 3,
        Phase::RecordingFailure => 2,
        Phase::LockRelease(_) => 1,
        Phase::Done(_) => 0,
    }
}

/// Every step brings a run nearer to its end, in the order of the phases: no phase is
/// entered twice, and a run that is over stays so.
pub proof fn lemma_run_advances(
    phase: Phase,
    date: Date,
    options: UniverseOptions,
    event: RunEvent,
    next: Phase,
    action: RunAction,
)
    requires
        transition(phase, date, options, event, next, action),
    ensures
        phase is Done ==> next == phase,
        !(phase is Done) ==> steps_left(next) < steps_left(phase),
        action is Exit <==> next is Done,
{
}

/// A run that was denied the lock ends at once, as one that had nothing to do: it
/// writes nothing, and its exit status is zero.
pub proof fn lemma_lock_denied_is_a_no_op(
    date: Date,
    options: UniverseOptions,
    next: Phase,
    action: RunAction,
)
    requires
        transition(
            Phase::LockAcquisition,
            date,
            options,
            RunEvent::LockResult(Ok(false)),
            next,
            action,
        ),
    ensures
        next == Phase::Done(Outcome::LockDenied),
        !writes(action),
        action matches RunAction::Exit { outcome } && exit_status(outcome) == 0,
{
}

/// Only a failed setup ends a run with a status other than zero.
pub proof fn lemma_exit_status(outcome: Outcome)
    ensures
        exit_status(outcome) == 0 <==> outcome != Outcome::SetupFailed,
{
}

impl Outcome {
    /// The exit status of a run that ended so.
    pub fn exit_code(&self) -> (r: i32)
        ensures
            r == exit_status(*self),
    {
        match self {
            Outcome::SetupFailed => 1,
            _ => 0,
        }
    }
}

impl RunCoordinator {
    /// A run for `as_of_date` that has not begun.
    pub fn new(as_of_date: Date, options: UniverseOptions) -> (r: RunCoordinator)
        ensures
            r.as_of_date == as_of_date,
            r.options == options,
            r.phase == Phase::Idle,
    {
        RunCoordinator { as_of_date, options, phase: Phase::Idle }
    }

    /// Whether the run is over.
    pub fn is_done(&self) -> (r: bool)
        ensures
            r == (self.phase is Done),
    {
        match self.phase {
            Phase::Done(_) => true,
            _ => false,
        }
    }

    /// The action that writes a failure with the error `error`, and the phase to wait
    /// for its end in.
    fn record_failure(self, error: String, raw_response: Option<RawResponse>) -> (r: (
        RunCoordinator,
        RunAction,
    ))
        ensures
            r.0.as_of_date == self.as_of_date,
            r.0.options == self.options,
            r.0.phase == Phase::RecordingFailure,
            records_failure(r.1, self.as_of_date, error@, raw_response),
    {
        let as_of_date = self.as_of_date;
        (
            RunCoordinator { as_of_date, options: self.options, phase: Phase::RecordingFailure },
            RunAction::PersistFailure { as_of_date, error, raw_response },
        )
    }

    /// The action that gives the lock back, and the phase to wait for its end in.
    fn release(self, outcome: Outcome) -> (r: (RunCoordinator, RunAction))
        ensures
            r.0.as_of_date == self.as_of_date,
            r.0.options == self.options,
            r.0.phase == Phase::LockRelease(outcome),
            releases(r.1, self.as_of_date),
    {
        let key = lock_key_for_date(self.as_of_date);
        (
            RunCoordinator {
                as_of_date: self.as_of_date,
                options: self.options,
                phase: Phase::LockRelease(outcome),
            },
            RunAction::ReleaseLock { key },
        )
    }

    /// The end of the run.
    fn finish(self, outcome: Outcome) -> (r: (RunCoordinator, RunAction))
        ensures
            r.0.as_of_date == self.as_of_date,
            r.0.options == self.options,
            r.0.phase == Phase::Done(outcome),
            r.1 == (RunAction::Exit { outcome }),
    {
        (
            RunCoordinator {
                as_of_date: self.as_of_date,
                options: self.options,
                phase: Phase::Done(outcome),
            },
            RunAction::Exit { outcome },
        )
    }

    /// What the run does with an event that is not the answer to its last action.
    fn step_out_of_turn(self) -> (r: (RunCoordinator, RunAction))
        ensures
            r.0.as_of_date == self.as_of_date,
            r.0.options == self.options,
            out_of_turn(self.phase, self.as_of_date, r.0.phase, r.1),
    {
        match self.phase {
            Phase::Done(o) => self.finish(o),
            Phase::LockRelease(o) => self.finish(o),
            Phase::Idle => self.finish(Outcome::SetupFailed),
            Phase::LockAcquisition => self.finish(Outcome::SetupFailed),
            _ => self.release(Outcome::SetupFailed),
        }
    }

    /// Takes what happened to the last action and says what to do next.
    ///
    /// The run goes from the lock to the check for an existing snapshot, to the
    /// universe, to the generation, to the write, to the release of the lock and to its
    /// end, and skips none of them. A lock that is denied and a snapshot that exists end
    /// the run without an error. Whatever fails once the run has begun its work is
    /// written as a failure's row. A snapshot that another run wrote first is no
    /// failure. The lock is given back on every way out.
    pub fn step(self, event: RunEvent) -> (r: (RunCoordinator, RunAction))
        ensures
            r.0.as_of_date == self.as_of_date,
            r.0.options == self.options,
            transition(self.phase, self.as_of_date, self.options, event, r.0.phase, r.1),
    {
        let date = self.as_of_date;
        match (self.phase, event) {
            (Phase::Idle, RunEvent::Start) => {
                let key = lock_key_for_date(date);
                (
                    RunCoordinator {
                        as_of_date: date,
                        options: self.options,
                        phase: Phase::LockAcquisition,
                    },
                    RunAction::AcquireLock { key },
                )
            },
            (Phase::LockAcquisition, RunEvent::LockResult(Ok(taken))) => {
                if taken {
                    (
                        RunCoordinator {
                            as_of_date: date,
                            options: self.options,
                            phase: Phase::IdempotencyCheck,
                        },
                        RunAction::CheckExistingSuccess { as_of_date: date },
                    )
                } else {
                    self.finish(Outcome::LockDenied)
                }
            },
            (Phase::LockAcquisition, RunEvent::LockResult(Err(_))) => self.finish(
                Outcome::SetupFailed,
            ),
            (Phase::IdempotencyCheck, RunEvent::ExistingSuccess(Ok(exists))) => {
                if exists {
                    self.release(Outcome::AlreadySatisfied)
                } else {
                    match fetch_limit(&self.options) {
                        Ok(limit) => {
                            let min_trading_value = self.options.min_trading_value;
                            (
                                RunCoordinator {
                                    as_of_date: date,
                                    options: self.options,
                                    phase: Phase::FetchingFeatures,
                                },
                                RunAction::FetchFeatures {
                                    as_of_date: date,
                                    limit,
                                    min_trading_value,
                                },
                            )
                        },
                        Err(e) => self.record_failure(e.message(), None),
                    }
                }
            },
            (Phase::IdempotencyCheck, RunEvent::ExistingSuccess(Err(_))) => self.release(
                Outcome::SetupFailed,
            ),
            (Phase::FetchingFeatures, RunEvent::Features(Ok(rows))) => {
                match build_candidate_universe_db(date, rows, &self.options) {
                    Ok(candidates) => match GenerateInput::try_new(date, candidates) {
                        Ok(input) => (
                            RunCoordinator {
                                as_of_date: date,
                                options: self.options,
                                phase: Phase::Generating,
                            },
                            RunAction::Generate { input },
                        ),
                        Err(e) => self.record_failure(e.message(), None),
                    },
                    Err(e) => self.record_failure(e.message(), None),
                }
            },
            (Phase::FetchingFeatures, RunEvent::Features(Err(why))) => self.record_failure(
                why,
                None,
            ),
            (Phase::Generating, RunEvent::Generation(Ok(g))) => (
                RunCoordinator {
                    as_of_date: date,
                    options: self.options,
                    phase: Phase::PersistingSuccess,
                },
                RunAction::PersistSuccess { snapshot: g.snapshot, raw_response: g.raw_response },
            ),
            (Phase::Generating, RunEvent::Generation(Err(e))) => {
                let error = e.message();
                self.record_failure(error, failure_raw_response(e))
            },
            (Phase::PersistingSuccess, RunEvent::SuccessWritten(Ok(_))) => self.release(
                Outcome::Persisted,
            ),
            (Phase::PersistingSuccess, RunEvent::SuccessWritten(Err(e))) => {
                if is_unique_violation(&e) {
                    self.release(Outcome::AlreadyPersisted)
                } else {
                    let mut error = String::from_str(PERSIST_FAILED_PREFIX);
                    error.append(e.message.as_str());
                    self.record_failure(error, None)
                }
            },
            (Phase::RecordingFailure, RunEvent::FailureWritten) => self.release(
                Outcome::FailureRecorded,
            ),
            (Phase::LockRelease(o), RunEvent::LockReleased) => self.finish(o),
            _ => self.step_out_of_turn(),
        }
    }
}

} // verus!
