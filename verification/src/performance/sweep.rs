//! The automatic performance sweep: one at a time, cancellable, and the decisions taken between
//! its steps. Starting servers and running requests happens outside the library.
use vstd::prelude::*;

use crate::error::{kept_details, opt_text, AppError, AppResult, ErrorCode};
use crate::performance::model::BenchmarkPlacement;
use crate::profiles::{ProfileOptionSetting, SettingModel};
use crate::run_slot::{fresh_run_id, run_cancelled, slot_after_cancel, slot_after_finish, ActiveRun};
use crate::text::{chars_equal, chars_of, concat_text};
use crate::text_map::TextMap;

verus! {

/// The error for work refused while a sweep runs.
pub fn sweep_in_progress_error() -> (e: AppError)
    ensures
        e.code == ErrorCode::BenchmarkInProgress,
        e.message@ == "A Performance Lab sweep is already running."@,
        opt_text(e.hint) == Some("Wait for it to finish, or cancel it first."@),
        e.details is None,
{
    AppError::new(ErrorCode::BenchmarkInProgress, "A Performance Lab sweep is already running.").with_hint(
        "Wait for it to finish, or cancel it first.",
    )
}

/// The one sweep allowed at a time.
#[derive(Debug)]
pub struct PerformanceSweepSupervisor {
    pub active: Option<ActiveRun>,
}

/// Proof of holding the sweep slot.
#[derive(Debug, Clone, Copy, PartialEq, Eq, Structural)]
pub struct PerformanceSweepPermit {
    pub id: u128,
}

impl Default for PerformanceSweepSupervisor {
    fn default() -> (s: Self)
        ensures
            s.active is None,
    {
        PerformanceSweepSupervisor { active: None }
    }
}

impl PerformanceSweepSupervisor {
    pub fn begin(&mut self) -> (r: AppResult<PerformanceSweepPermit>)
        ensures
            match r {
                Ok(p) => old(self).active is None && final(self).active == Some(
                    ActiveRun { id: p.id, cancelled: false },
                ),
                Err(e) => {
                    &&& old(self).active is Some
                    &&& final(self).active == old(self).active
                    &&& e.code == ErrorCode::BenchmarkInProgress
                    &&& e.message@ == "A Performance Lab sweep is already running."@
                    &&& opt_text(e.hint) == Some("Wait for it to finish, or cancel it first."@)
                },
            },
    {
        if self.active.is_some() {
            return Err(sweep_in_progress_error());
        }
        let id = fresh_run_id();
        self.active = Some(ActiveRun { id, cancelled: false });
        Ok(PerformanceSweepPermit { id })
    }

    /// Marks the running sweep as cancelled; `false` when nothing was running.
    pub fn cancel(&mut self) -> (r: bool)
        ensures
            r == old(self).active is Some,
            final(self).active == slot_after_cancel(old(self).active),
    {
        match self.active {
            Some(a) => {
                self.active = Some(ActiveRun { id: a.id, cancelled: true });
                true
            },
            None => false,
        }
    }

    pub fn is_running(&self) -> (r: bool)
        ensures
            r == self.active is Some,
    {
        self.active.is_some()
    }

    /// Releases the slot, if `permit` still holds it.
    pub fn finish(&mut self, permit: PerformanceSweepPermit)
        ensures
            final(self).active == slot_after_finish(old(self).active, permit.id),
    {
        if let Some(a) = self.active {
            if a.id == permit.id {
                self.active = None;
            }
        }
    }

    /// Fails once the sweep that `permit` holds has been cancelled.
    pub fn ensure_not_cancelled(&self, permit: PerformanceSweepPermit) -> (r: AppResult<()>)
        ensures
            r is Err <==> run_cancelled(self.active, permit.id),
            r matches Err(e) ==> e.code == ErrorCode::BenchmarkCancelled && e.message@
                == "The automatic performance sweep was cancelled."@ && e.hint is None,
    {
        match self.active {
            Some(a) => if a.id == permit.id && a.cancelled {
                Err(
                    AppError::new(
                        ErrorCode::BenchmarkCancelled,
                        "The automatic performance sweep was cancelled.",
                    ),
                )
            } else {
                Ok(())
            },
            None => Ok(()),
        }
    }
}

/// A sweep starts only with no server running and at least one candidate to measure.
pub fn check_sweep_start(server_active: bool, candidate_count: usize) -> (r: AppResult<()>)
    ensures
        r is Ok <==> (!server_active && candidate_count > 0),
        r matches Err(e) ==> if server_active {
            e.code == ErrorCode::ServerAlreadyRunning && e.message@
                == "Stop the active server before starting an automatic performance sweep."@
                && opt_text(e.hint) == Some(
                "The sweep controls every start and stop so its measurements remain comparable."@,
            )
        } else {
            e.code == ErrorCode::BenchmarkFailed && e.message@
                == "The selected runtime produced no benchmarkable placement candidates."@
                && opt_text(e.hint) == Some(
                "Inspect a GPU runtime and verify that it advertises device placement flags."@,
            )
        },
{
    if server_active {
        return Err(
            AppError::new(
                ErrorCode::ServerAlreadyRunning,
                "Stop the active server before starting an automatic performance sweep.",
            ).with_hint(
                "The sweep controls every start and stop so its measurements remain comparable.",
            ),
        );
    }
    if candidate_count == 0 {
        return Err(
            AppError::new(
                ErrorCode::BenchmarkFailed,
                "The selected runtime produced no benchmarkable placement candidates.",
            ).with_hint(
                "Inspect a GPU runtime and verify that it advertises device placement flags.",
            ),
        );
    }
    Ok(())
}

/// What one measured candidate means for the sweep.
#[derive(Debug, Clone)]
pub enum CandidateOutcome {
    /// The benchmark ran and the server stopped cleanly.
    Measured,
    /// The benchmark failed; the sweep goes on.
    Failed(String),
    /// The server could not be stopped afterwards; the sweep ends with this message recorded.
    Aborted(String),
}

/// Combines a candidate's benchmark error and the server cleanup error.
pub fn candidate_outcome(attempt_error: Option<&str>, stop_error: Option<&str>) -> (r: CandidateOutcome)
    ensures
        match (attempt_error, stop_error) {
            (None, None) => r is Measured,
            (Some(a), None) => r matches CandidateOutcome::Failed(m) && m@ == a@,
            (Some(a), Some(s)) => r matches CandidateOutcome::Aborted(m) && m@ == a@
                + " Server cleanup also failed: "@ + s@,
            (None, Some(s)) => r matches CandidateOutcome::Aborted(m) && m@ == s@,
        },
{
    match (attempt_error, stop_error) {
        (None, None) => CandidateOutcome::Measured,
        (Some(a), None) => CandidateOutcome::Failed(a.to_string()),
        (Some(a), Some(s)) => CandidateOutcome::Aborted(
            concat_text(concat_text(a, " Server cleanup also failed: ").as_str(), s),
        ),
        (None, Some(s)) => CandidateOutcome::Aborted(s.to_string()),
    }
}

/// The server's lifecycle, as far as waiting for it goes.
#[derive(Debug, Clone, Copy, PartialEq, Eq, Structural)]
pub enum ServerPhase {
    Starting,
    Ready,
    Crashed,
    Stopped,
    Stopping,
}

/// The next step while waiting for a candidate's server.
#[derive(Debug, Clone)]
pub enum ReadyStep {
    Ready,
    Wait,
    Fail(AppError),
}

/// The server is serving the profile `profile_id`.
pub open spec fn serves(serving: Option<&str>, profile_id: Seq<char>) -> bool {
    serving matches Some(p) && p@ == profile_id
}

/// One check while waiting for the candidate's server to become ready.
pub fn ready_step(
    serving: Option<&str>,
    profile_id: &str,
    phase: ServerPhase,
    last_error: Option<&str>,
    deadline_passed: bool,
) -> (r: ReadyStep)
    ensures
        if serves(serving, profile_id@) {
            match phase {
                ServerPhase::Ready => r is Ready,
                ServerPhase::Crashed | ServerPhase::Stopped => r matches ReadyStep::Fail(e)
                    && e.code == ErrorCode::BenchmarkFailed && e.message@
                    == "llama-server did not become ready for this candidate."@ && opt_text(
                    e.details,
                ) == kept_details(
                    None,
                    match last_error {
                        Some(t) => t@,
                        None => ""@,
                    },
                ),
                _ => if deadline_passed {
                    r matches ReadyStep::Fail(e) && e.code == ErrorCode::BenchmarkFailed
                        && e.message@
                        == "Timed out while waiting for llama-server to load the candidate."@
                        && opt_text(e.hint) == Some(
                        "Review the server log for memory pressure or unsupported placement options."@,
                    )
                } else {
                    r is Wait
                },
            }
        } else {
            r matches ReadyStep::Fail(e) && e.code == ErrorCode::BenchmarkFailed && e.message@
                == "The server switched to a different profile during the performance sweep."@
        },
{
    let same = match serving {
        Some(p) => chars_equal(chars_of(p).as_slice(), chars_of(profile_id).as_slice()),
        None => false,
    };
    if !same {
        return ReadyStep::Fail(
            AppError::new(
                ErrorCode::BenchmarkFailed,
                "The server switched to a different profile during the performance sweep.",
            ),
        );
    }
    match phase {
        ServerPhase::Ready => ReadyStep::Ready,
        ServerPhase::Crashed | ServerPhase::Stopped => ReadyStep::Fail(
            AppError::new(
                ErrorCode::BenchmarkFailed,
                "llama-server did not become ready for this candidate.",
            ).with_details(
                match last_error {
                    Some(t) => t,
                    None => "",
                },
            ),
        ),
        _ => if deadline_passed {
            ReadyStep::Fail(
                AppError::new(
                    ErrorCode::BenchmarkFailed,
                    "Timed out while waiting for llama-server to load the candidate.",
                ).with_hint(
                    "Review the server log for memory pressure or unsupported placement options.",
                ),
            )
        } else {
            ReadyStep::Wait
        },
    }
}

/// A benchmark needs the selected profile's server to be ready and reachable.
pub fn check_benchmark_target(
    phase: ServerPhase,
    serving: Option<&str>,
    profile_id: &str,
    host: Option<&str>,
    port: Option<u16>,
) -> (r: AppResult<(String, u16)>)
    ensures
        match r {
            Ok((h, p)) => {
                &&& phase == ServerPhase::Ready
                &&& (serving matches Some(s) && s@ == profile_id@)
                &&& (host matches Some(x) && h@ == x@)
                &&& port == Some(p)
            },
            Err(e) => if phase != ServerPhase::Ready {
                e.code == ErrorCode::BenchmarkFailed && e.message@
                    == "The selected server must be idle and Ready before benchmarking."@
            } else if !(serving matches Some(s) && s@ == profile_id@) {
                e.code == ErrorCode::BenchmarkFailed && e.message@
                    == "The active server is using a different profile."@
            } else if host is None {
                e.code == ErrorCode::Internal && e.message@
                    == "The active server has no host for the benchmark request."@
            } else {
                port is None && e.code == ErrorCode::Internal && e.message@
                    == "The active server has no port for the benchmark request."@
            },
        },
{
    if phase != ServerPhase::Ready {
        return Err(
            AppError::new(
                ErrorCode::BenchmarkFailed,
                "The selected server must be idle and Ready before benchmarking.",
            ).with_hint("Start this profile, wait for Ready, and stop other client requests."),
        );
    }
    let same = match serving {
        Some(p) => chars_equal(chars_of(p).as_slice(), chars_of(profile_id).as_slice()),
        None => false,
    };
    if !same {
        return Err(
            AppError::new(
                ErrorCode::BenchmarkFailed,
                "The active server is using a different profile.",
            ).with_hint(
                "Stop the active server, then start the profile selected in Performance Lab.",
            ),
        );
    }
    let h = match host {
        Some(h) => h,
        None => {
            return Err(
                AppError::internal("The active server has no host for the benchmark request."),
            );
        },
    };
    let p = match port {
        Some(p) => p,
        None => {
            return Err(
                AppError::internal("The active server has no port for the benchmark request."),
            );
        },
    };
    Ok((h.to_string(), p))
}

/// The value a placement option records: the explicit value, `auto`, or nothing.
pub open spec fn recorded_value(s: Option<ProfileOptionSetting>) -> Option<Seq<char>> {
    match s {
        Some(v) => match v@ {
            SettingModel::Custom(t) => Some(t),
            SettingModel::Auto => Some("auto"@),
            SettingModel::Default => None,
        },
        None => None,
    }
}

fn custom_value(options: &TextMap<ProfileOptionSetting>, key: &str) -> (r: Option<String>)
    requires
        options.wf(),
    ensures
        opt_text(r) == recorded_value(options.value_of(key@)),
{
    match options.get(key) {
        Some(ProfileOptionSetting::Custom { value }) => Some(value.clone()),
        Some(ProfileOptionSetting::Auto) => Some("auto".to_string()),
        _ => None,
    }
}

/// The placement a benchmark ran with, read from the profile's options.
pub fn placement(options: &TextMap<ProfileOptionSetting>) -> (p: BenchmarkPlacement)
    requires
        options.wf(),
    ensures
        opt_text(p.devices) == recorded_value(options.value_of("device"@)),
        opt_text(p.split_mode) == recorded_value(options.value_of("splitMode"@)),
        opt_text(p.tensor_split) == recorded_value(options.value_of("tensorSplit"@)),
        opt_text(p.gpu_layers) == recorded_value(options.value_of("gpuLayers"@)),
{
    BenchmarkPlacement {
        devices: custom_value(options, "device"),
        split_mode: custom_value(options, "splitMode"),
        tensor_split: custom_value(options, "tensorSplit"),
        gpu_layers: custom_value(options, "gpuLayers"),
    }
}

/// Why the original profile is being put back.
#[derive(Debug, Clone, Copy, PartialEq, Eq, Structural)]
pub enum RestoreReason {
    /// The sweep was cancelled; it then fails with the cancellation error.
    Cancelled,
    /// No candidate produced a measurement; the sweep then ends with nothing applied.
    NoWinner,
    /// Writing the winner to the profile failed; the sweep then fails with that error.
    ApplyFailed,
}

/// How a sweep ended.
#[derive(Debug, Clone, Copy, PartialEq, Eq, Structural)]
pub enum SweepEnd {
    /// The winner was written to the profile.
    Applied,
    /// Nothing could be measured; the original profile was put back.
    NoWinner,
    /// The sweep was cancelled and the original profile put back.
    Cancelled,
    /// Putting the original profile back failed; the sweep fails with that error.
    RestoreFailed,
    /// Writing the winner failed; the sweep fails with that error.
    ApplyFailed,
    /// A candidate's server could not be stopped; the sweep fails with that error.
    CleanupFailed,
}

/// Where a sweep stands; each stage names the work to do next.
#[derive(Debug, Clone, Copy, PartialEq, Eq, Structural)]
pub enum SweepStage {
    /// The candidate at this position comes next, after a cancellation check.
    Next(usize),
    /// The candidate at this position is being measured and its server stopped.
    Measuring(usize),
    /// Every candidate has a result; the best one is being chosen.
    Choosing,
    /// The winner, the candidate at this position, is being written to the profile.
    Applying(usize),
    /// The server is being stopped and the original profile written back.
    Restoring(RestoreReason),
    /// A server would not stop: the original profile record is written back, and the sweep fails.
    Reverting,
    /// The sweep is over.
    Done(SweepEnd),
}

/// What happened since the last step.
#[derive(Debug, Clone, Copy, PartialEq, Eq, Structural)]
pub enum SweepEvent {
    /// The cancellation check: whether the sweep has been cancelled.
    CancelCheck(bool),
    /// A candidate's measurement ended: whether its server failed to stop, and whether the sweep
    /// has been cancelled meanwhile.
    CandidateEnded { server_stuck: bool, cancelled: bool },
    /// The best measured candidate, if any.
    WinnerChosen(Option<usize>),
    /// The pending write (of the winner, or of the original profile) finished: whether it succeeded.
    Completed(bool),
}

/// The stage after `event`, for a sweep over `total` candidates. An event that does not belong to
/// the stage leaves it unchanged.
pub open spec fn sweep_next(stage: SweepStage, total: usize, event: SweepEvent) -> SweepStage {
    match (stage, event) {
        (SweepStage::Next(p), SweepEvent::CancelCheck(cancelled)) => if cancelled {
            SweepStage::Restoring(RestoreReason::Cancelled)
        } else if p < total {
            SweepStage::Measuring(p)
        } else {
            SweepStage::Choosing
        },
        (SweepStage::Measuring(p), SweepEvent::CandidateEnded { server_stuck, cancelled }) => {
            if server_stuck {
                SweepStage::Reverting
            } else if cancelled {
                SweepStage::Restoring(RestoreReason::Cancelled)
            } else if p + 1 < total {
                SweepStage::Next((p + 1) as usize)
            } else {
                SweepStage::Choosing
            }
        },
        (SweepStage::Choosing, SweepEvent::WinnerChosen(winner)) => match winner {
            Some(i) => SweepStage::Applying(i),
            None => SweepStage::Restoring(RestoreReason::NoWinner),
        },
        (SweepStage::Applying(_), SweepEvent::Completed(ok)) => if ok {
            SweepStage::Done(SweepEnd::Applied)
        } else {
            SweepStage::Restoring(RestoreReason::ApplyFailed)
        },
        (SweepStage::Restoring(reason), SweepEvent::Completed(ok)) => match reason {
            RestoreReason::Cancelled => SweepStage::Done(
                if ok {
                    SweepEnd::Cancelled
                } else {
                    SweepEnd::RestoreFailed
                },
            ),
            RestoreReason::NoWinner => SweepStage::Done(
                if ok {
                    SweepEnd::NoWinner
                } else {
                    SweepEnd::RestoreFailed
                },
            ),
            RestoreReason::ApplyFailed => SweepStage::Done(SweepEnd::ApplyFailed),
        },
        (SweepStage::Reverting, SweepEvent::Completed(_)) => SweepStage::Done(SweepEnd::CleanupFailed),
        _ => stage,
    }
}

/// One step of a sweep over `total` candidates.
pub fn sweep_step(stage: SweepStage, total: usize, event: SweepEvent) -> (r: SweepStage)
    ensures
        r == sweep_next(stage, total, event),
{
    match (stage, event) {
        (SweepStage::Next(p), SweepEvent::CancelCheck(cancelled)) => if cancelled {
            SweepStage::Restoring(RestoreReason::Cancelled)
        } else if p < total {
            SweepStage::Measuring(p)
        } else {
            SweepStage::Choosing
        },
        (SweepStage::Measuring(p), SweepEvent::CandidateEnded { server_stuck, cancelled }) => {
            if server_stuck {
                SweepStage::Reverting
            } else if cancelled {
                SweepStage::Restoring(RestoreReason::Cancelled)
            } else if p < total && p + 1 < total {
                SweepStage::Next(p + 1)
            } else {
                SweepStage::Choosing
            }
        },
        (SweepStage::Choosing, SweepEvent::WinnerChosen(winner)) => match winner {
            Some(i) => SweepStage::Applying(i),
            None => SweepStage::Restoring(RestoreReason::NoWinner),
        },
        (SweepStage::Applying(_), SweepEvent::Completed(ok)) => if ok {
            SweepStage::Done(SweepEnd::Applied)
        } else {
            SweepStage::Restoring(RestoreReason::ApplyFailed)
        },
        (SweepStage::Restoring(reason), SweepEvent::Completed(ok)) => match reason {
            RestoreReason::Cancelled => SweepStage::Done(
                if ok {
                    SweepEnd::Cancelled
                } else {
                    SweepEnd::RestoreFailed
                },
            ),
            RestoreReason::NoWinner => SweepStage::Done(
                if ok {
                    SweepEnd::NoWinner
                } else {
                    SweepEnd::RestoreFailed
                },
            ),
            RestoreReason::ApplyFailed => SweepStage::Done(SweepEnd::ApplyFailed),
        },
        (SweepStage::Reverting, SweepEvent::Completed(_)) => SweepStage::Done(SweepEnd::CleanupFailed),
        _ => stage,
    }
}

/// Whether a sweep that ended so returns its record (`Ok`) rather than an error.
pub fn sweep_succeeded(end: SweepEnd) -> (r: bool)
    ensures
        r <==> (end == SweepEnd::Applied || end == SweepEnd::NoWinner),
{
    match end {
        SweepEnd::Applied | SweepEnd::NoWinner => true,
        _ => false,
    }
}

/// Whether `event` is the kind of event that `stage` waits for.
pub open spec fn event_fits(stage: SweepStage, event: SweepEvent) -> bool {
    match (stage, event) {
        (SweepStage::Next(_), SweepEvent::CancelCheck(_)) => true,
        (SweepStage::Measuring(_), SweepEvent::CandidateEnded { .. }) => true,
        (SweepStage::Choosing, SweepEvent::WinnerChosen(_)) => true,
        (SweepStage::Applying(_), SweepEvent::Completed(_)) => true,
        (SweepStage::Restoring(_), SweepEvent::Completed(_)) => true,
        (SweepStage::Reverting, SweepEvent::Completed(_)) => true,
        _ => false,
    }
}

/// The candidates from position `p` on.
pub open spec fn candidates_left(p: nat, total: nat) -> nat {
    if p < total {
        (total - p) as nat
    } else {
        0
    }
}

/// How far a sweep is from its end, counted in steps.
pub open spec fn sweep_rank(stage: SweepStage, total: nat) -> nat {
    match stage {
        SweepStage::Next(p) => 5 + 2 * candidates_left(p as nat, total),
        SweepStage::Measuring(p) => 4 + 2 * candidates_left(p as nat, total),
        SweepStage::Choosing => 3,
        SweepStage::Applying(_) => 2,
        SweepStage::Restoring(_) => 1,
        SweepStage::Reverting => 1,
        SweepStage::Done(_) => 0,
    }
}

/// Whether the sweep is winding down: no candidate runs and no winner is applied from here on.
pub open spec fn winding_down(stage: SweepStage) -> bool {
    stage is Restoring || stage is Reverting || stage is Done
}

/// A sweep always ends: each event that the current stage waits for brings it strictly closer to
/// its end, from 2 × candidates + 5 steps at the start to none once it is over; any other event
/// changes nothing.
pub proof fn sweep_always_progresses(stage: SweepStage, total: usize, event: SweepEvent)
    ensures
        event_fits(stage, event) ==> sweep_rank(sweep_next(stage, total, event), total as nat)
            < sweep_rank(stage, total as nat),
        !event_fits(stage, event) ==> sweep_next(stage, total, event) == stage,
        sweep_rank(stage, total as nat) == 0 <==> stage is Done,
        sweep_rank(SweepStage::Next(0), total as nat) == 2 * total + 5,
{
}

/// Once a cancellation is seen, or a candidate's server will not stop, the sweep winds down: no
/// further candidate is measured and no winner is applied.
pub proof fn cancellation_winds_down(stage: SweepStage, total: usize, event: SweepEvent)
    ensures
        (stage is Next && event == SweepEvent::CancelCheck(true)) ==> sweep_next(stage, total, event)
            == SweepStage::Restoring(RestoreReason::Cancelled),
        (stage is Measuring && event == (SweepEvent::CandidateEnded {
            server_stuck: false,
            cancelled: true,
        })) ==> sweep_next(stage, total, event) == SweepStage::Restoring(RestoreReason::Cancelled),
        stage is Measuring ==> (event matches SweepEvent::CandidateEnded { server_stuck, .. } ==> (
        server_stuck ==> sweep_next(stage, total, event) == SweepStage::Reverting)),
        winding_down(stage) ==> winding_down(sweep_next(stage, total, event)),
{
}

/// A winner counts as applied only once writing it succeeded, and a sweep that ends any other way
/// has first put the original profile back (or, when a server would not stop, its record).
pub proof fn only_a_written_winner_is_applied(stage: SweepStage, total: usize, event: SweepEvent)
    ensures
        (sweep_next(stage, total, event) == SweepStage::Done(SweepEnd::Applied) && !(stage is Done))
            ==> stage is Applying && event == SweepEvent::Completed(true),
        !(stage is Done) ==> (sweep_next(stage, total, event) matches SweepStage::Done(end) ==> (end
            != SweepEnd::Applied ==> (stage is Restoring || stage is Reverting))),
{
}

/// Candidates are measured one at a time and in plan order: measuring position `q` follows the
/// check before it, and the check before position `q` follows the measurement of `q - 1`.
pub proof fn candidates_run_in_order(stage: SweepStage, total: usize, event: SweepEvent)
    ensures
        !(stage is Measuring) ==> (sweep_next(stage, total, event) matches SweepStage::Measuring(q)
            ==> stage == SweepStage::Next(q) && q < total),
        !(stage is Next) ==> (sweep_next(stage, total, event) matches SweepStage::Next(q) ==> q >= 1
            && stage == SweepStage::Measuring((q - 1) as usize)),
{
}

} // verus!
