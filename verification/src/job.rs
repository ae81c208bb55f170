use vstd::prelude::*;

use crate::converting::{line_progress, ConvertingModel, ConvertingRegistry, ProgressTracker};
use crate::decimal::{int_text, push_int};
use crate::slug::{progress_key, progress_key_of};
use crate::text::{owned, push_char};

verus! {

/// Where the conversion of one file stands.
pub enum JobPhase {
    /// Waiting for a free process slot.
    Waiting,
    /// A slot was taken; `ffmpeg` is to be started.
    Starting,
    /// `ffmpeg` runs; its output lines are read.
    Running,
    /// The job was told to stop; `ffmpeg` is being killed.
    Stopping,
    /// The conversion is over.
    Done,
}

/// What happened since the last step of a conversion.
pub enum JobEvent {
    /// A wait is over; `killed` tells whether the job was told to stop.
    Tick { killed: bool },
    /// `ffmpeg` could not be started, for the reason `error`.
    SpawnFailed { error: String },
    /// `ffmpeg` started; `has_output` tells whether its output can be read.
    Spawned { has_output: bool },
    /// Before the next output line: whether the job was told to stop, and
    /// the line (`None` when it could not be read).
    Line { killed: bool, line: Option<String> },
    /// `ffmpeg` was killed and waited for.
    Killed,
    /// `ffmpeg` ended by itself, successfully or with the exit `code`.
    Exited { success: bool, code: Option<i32> },
    /// Waiting for `ffmpeg` to end failed, for the reason `error`.
    WaitFailed { error: String },
}

/// What to do next for a conversion.
pub enum JobAction {
    /// Wait half a second, then step again.
    Wait,
    /// Start `ffmpeg`.
    Spawn,
    /// Read the next output line of `ffmpeg`, or wait for it to end.
    ReadLine,
    /// Kill `ffmpeg` and wait for it.
    KillProcess,
    /// The conversion is over, with this result.
    Finish(Result<(), String>),
}

/// What a step decides, in terms of texts.
pub enum StepOutcome {
    Wait,
    Spawn,
    ReadLine,
    KillProcess,
    Succeed,
    Fail(Seq<char>),
}

/// The decision that an action carries.
pub open spec fn outcome_of(a: JobAction) -> StepOutcome {
    match a {
        JobAction::Wait => StepOutcome::Wait,
        JobAction::Spawn => StepOutcome::Spawn,
        JobAction::ReadLine => StepOutcome::ReadLine,
        JobAction::KillProcess => StepOutcome::KillProcess,
        JobAction::Finish(Ok(())) => StepOutcome::Succeed,
        JobAction::Finish(Err(e)) => StepOutcome::Fail(e@),
    }
}

/// The events that may follow in each phase.
pub open spec fn accepts(phase: JobPhase, event: JobEvent) -> bool {
    match (phase, event) {
        (JobPhase::Waiting, JobEvent::Tick { .. }) => true,
        (JobPhase::Starting, JobEvent::SpawnFailed { .. }) => true,
        (JobPhase::Starting, JobEvent::Spawned { .. }) => true,
        (JobPhase::Running, JobEvent::Line { .. }) => true,
        (JobPhase::Running, JobEvent::Exited { .. }) => true,
        (JobPhase::Running, JobEvent::WaitFailed { .. }) => true,
        (JobPhase::Stopping, JobEvent::Killed) => true,
        _ => false,
    }
}

/// The event ends a running process, so one process is counted.
pub open spec fn ends_process(event: JobEvent) -> bool {
    event is Killed || event is Exited
}

/// One step of the conversion of the file under `key`, of `duration_ms`
/// milliseconds: from its phase, the last percentage it reported and the
/// state of the conversions, and an event, to the next phase, percentage
/// and state, and what to do.
/// - Waiting: told to stop, it fails ("ffmpeg process killed while
///   waiting"); else with a free slot it takes the slot and starts
///   `ffmpeg`; else it waits.
/// - Starting: if `ffmpeg` could not start, it fails ("start ffmpeg fail: "
///   and the reason); without output it fails ("error: stdout"); else it
///   reports `0` and reads.
/// - Running: told to stop, it kills `ffmpeg`; a line that reports a new
///   percentage is reported; when `ffmpeg` ends, the job completes (`100`
///   on success) and succeeds, or fails with "ffmpeg fail code: " and the
///   code (`-1` when there is none); when waiting for it fails, it fails
///   with "err: " and the reason.
/// - Stopping: once killed, the job is aborted (`-1`) and fails ("ffmpeg
///   process killed").
pub open spec fn job_step<H>(
    phase: JobPhase,
    last: i32,
    m: ConvertingModel<H>,
    key: Seq<char>,
    duration_ms: nat,
    event: JobEvent,
) -> (JobPhase, i32, ConvertingModel<H>, StepOutcome) {
    match event {
        JobEvent::Tick { killed } => if killed {
            (JobPhase::Done, last, m, StepOutcome::Fail("ffmpeg process killed while waiting"@))
        } else if m.has_free_instance() {
            (JobPhase::Starting, last, m.start(), StepOutcome::Spawn)
        } else {
            (JobPhase::Waiting, last, m, StepOutcome::Wait)
        },
        JobEvent::SpawnFailed { error } => (
            JobPhase::Done,
            last,
            m,
            StepOutcome::Fail("start ffmpeg fail: "@ + error@),
        ),
        JobEvent::Spawned { has_output } => if has_output {
            (JobPhase::Running, last, m.record(key, 0i32), StepOutcome::ReadLine)
        } else {
            (JobPhase::Done, last, m, StepOutcome::Fail("error: stdout"@))
        },
        JobEvent::Line { killed, line } => if killed {
            (JobPhase::Stopping, last, m, StepOutcome::KillProcess)
        } else {
            match line {
                Some(l) => match line_progress(l@, duration_ms) {
                    Some(p) => if p != last {
                        (JobPhase::Running, p, m.record(key, p), StepOutcome::ReadLine)
                    } else {
                        (JobPhase::Running, last, m, StepOutcome::ReadLine)
                    },
                    None => (JobPhase::Running, last, m, StepOutcome::ReadLine),
                },
                None => (JobPhase::Running, last, m, StepOutcome::ReadLine),
            }
        },
        JobEvent::Killed => (JobPhase::Done, last, m.abort(key), StepOutcome::Fail("ffmpeg process killed"@)),
        JobEvent::Exited { success, code } => (
            JobPhase::Done,
            last,
            m.complete(key, success),
            if success {
                StepOutcome::Succeed
            } else {
                StepOutcome::Fail(
                    "ffmpeg fail code: "@ + int_text(
                        match code {
                            Some(c) => c as int,
                            None => -1,
                        },
                    ),
                )
            },
        ),
        JobEvent::WaitFailed { error } => (JobPhase::Done, last, m, StepOutcome::Fail("err: "@ + error@)),
    }
}

fn message(prefix: &str, rest: &str) -> (m: String)
    ensures
        m@ == prefix@ + rest@,
{
    let mut m = owned(prefix);
    m.append(rest);
    m
}

/// The conversion of one file: its key, its length, its phase and the
/// last percentage it reported.
pub struct ConversionJob {
    key: String,
    duration_ms: u64,
    phase: JobPhase,
    tracker: ProgressTracker,
}

impl ConversionJob {
    /// The phase of the conversion.
    pub closed spec fn phase(&self) -> JobPhase {
        self.phase
    }

    /// The last percentage reported.
    pub closed spec fn last(&self) -> i32 {
        self.tracker.last()
    }

    /// The key the conversion is tracked under.
    pub closed spec fn key(&self) -> Seq<char> {
        self.key@
    }

    /// The length of the file, in milliseconds.
    pub closed spec fn duration_ms(&self) -> nat {
        self.duration_ms as nat
    }

    /// The conversion of the file with stem `file_stem`, of `duration_ms`
    /// milliseconds: waiting, with nothing reported.
    pub fn new(file_stem: &str, duration_ms: u64) -> (job: Self)
        ensures
            job.phase() == JobPhase::Waiting,
            job.last() == 0,
            job.key() == progress_key_of(file_stem@),
            job.duration_ms() == duration_ms,
    {
        ConversionJob {
            key: progress_key(file_stem),
            duration_ms,
            phase: JobPhase::Waiting,
            tracker: ProgressTracker::new(),
        }
    }

    /// The key the conversion is tracked under.
    pub fn key_text(&self) -> (k: &str)
        ensures
            k@ == self.key(),
    {
        self.key.as_str()
    }

    /// Whether `event` may follow in the current phase.
    pub fn accepts_event(&self, event: &JobEvent) -> (b: bool)
        ensures
            b == accepts(self.phase(), *event),
    {
        match (&self.phase, event) {
            (JobPhase::Waiting, JobEvent::Tick { .. }) => true,
            (JobPhase::Starting, JobEvent::SpawnFailed { .. }) => true,
            (JobPhase::Starting, JobEvent::Spawned { .. }) => true,
            (JobPhase::Running, JobEvent::Line { .. }) => true,
            (JobPhase::Running, JobEvent::Exited { .. }) => true,
            (JobPhase::Running, JobEvent::WaitFailed { .. }) => true,
            (JobPhase::Stopping, JobEvent::Killed) => true,
            _ => false,
        }
    }

    /// Takes one step, as `job_step` states, updating the registry.
    pub fn step<H>(&mut self, registry: &mut ConvertingRegistry<H>, event: JobEvent) -> (action: JobAction)
        requires
            accepts(old(self).phase(), event),
            ends_process(event) ==> old(registry).model().current > 0,
            old(registry).model().added.contains(old(self).key()),
        ensures
            (final(self).phase(), final(self).last(), final(registry).model(), outcome_of(action)) == job_step(
                old(self).phase(),
                old(self).last(),
                old(registry).model(),
                old(self).key(),
                old(self).duration_ms(),
                event,
            ),
            final(self).key() == old(self).key(),
            final(self).duration_ms() == old(self).duration_ms(),
            final(registry).model().valid(),
    {
        proof {
            use_type_invariant(&*registry);
            registry.lemma_valid();
        }
        match event {
            JobEvent::Tick { killed } => {
                if killed {
                    self.phase = JobPhase::Done;
                    JobAction::Finish(Err(owned("ffmpeg process killed while waiting")))
                } else if registry.try_start_instance() {
                    self.phase = JobPhase::Starting;
                    JobAction::Spawn
                } else {
                    JobAction::Wait
                }
            },
            JobEvent::SpawnFailed { error } => {
                self.phase = JobPhase::Done;
                JobAction::Finish(Err(message("start ffmpeg fail: ", error.as_str())))
            },
            JobEvent::Spawned { has_output } => {
                if has_output {
                    registry.record_progress(self.key.as_str(), 0);
                    self.phase = JobPhase::Running;
                    JobAction::ReadLine
                } else {
                    self.phase = JobPhase::Done;
                    JobAction::Finish(Err(owned("error: stdout")))
                }
            },
            JobEvent::Line { killed, line } => {
                if killed {
                    self.phase = JobPhase::Stopping;
                    JobAction::KillProcess
                } else {
                    match line {
                        Some(l) => {
                            let mut tracker = ProgressTracker::new();
                            std::mem::swap(&mut tracker, &mut self.tracker);
                            let report = tracker.observe_line(l.as_str(), self.duration_ms);
                            self.tracker = tracker;
                            match report {
                                Some(p) => registry.record_progress(self.key.as_str(), p),
                                None => {},
                            }
                        },
                        None => {},
                    }
                    JobAction::ReadLine
                }
            },
            JobEvent::Killed => {
                registry.abort_job(self.key.as_str());
                self.phase = JobPhase::Done;
                JobAction::Finish(Err(owned("ffmpeg process killed")))
            },
            JobEvent::Exited { success, code } => {
                let _finished = registry.complete_job(self.key.as_str(), success);
                self.phase = JobPhase::Done;
                if success {
                    JobAction::Finish(Ok(()))
                } else {
                    let mut m = owned("ffmpeg fail code: ");
                    let c: i32 = match code {
                        Some(c) => c,
                        None => -1,
                    };
                    push_int(&mut m, c as i64);
                    JobAction::Finish(Err(m))
                }
            },
            JobEvent::WaitFailed { error } => {
                self.phase = JobPhase::Done;
                JobAction::Finish(Err(message("err: ", error.as_str())))
            },
        }
    }
}

} // verus!
