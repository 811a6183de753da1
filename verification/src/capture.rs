//! The lifecycle of a capture session: idle, running, stopped.
//!
//! The ffmpeg process is reached through [`FfmpegProcess`], so that the
//! session can drive the real process or a stand-in. Elapsed time is read
//! from the monotonic clock.

use crate::cli::StartArgs;
use crate::ffmpeg::{
    blackhole_missing_message, ends_in_error, ends_saved, error_end, opt_view, AudioSources,
    CaptureConfig, RunEnd, BLACKHOLE_SETUP,
};
use crate::output::{path_file_stem, segment_pattern, try_segment_display_pattern};
use crate::text::{decimal, push_decimal, string_from};
use vstd::prelude::*;

verus! {

/// Exit code of a process a shell reports as stopped by SIGINT.
pub const SHELL_SIGINT_EXIT_CODE: i32 = 130;

/// Exit code ffmpeg uses when it finishes after an interrupt.
pub const FFMPEG_INTERRUPT_EXIT_CODE: i32 = 255;

/// The ffmpeg process a capture session drives.
///
/// The session speaks of the process through a model: what `spawn`,
/// `request_stop`, `is_running` and `wait_for_exit` answer, each a function of
/// the process as it stands before the call, and whether it has been
/// spawned, which a successful `spawn` makes true. Every implementation supplies
/// the model next to the operations; outside Verus the model's functions are
/// ordinary methods that give the answer the matching operation would give
/// now. That each operation answers as its model says is taken on trust: the
/// real process lives in the application, and stand-ins in tests.
pub trait FfmpegProcess {
    /// What `spawn` answers for the process as it stands.
    spec fn spawn_result(&self) -> Result<(), String>;

    /// What `request_stop` answers for the process as it stands.
    spec fn stop_result(&self) -> Result<(), String>;

    /// What `is_running` answers for the process as it stands.
    spec fn running(&self) -> bool;

    /// What `wait_for_exit` answers for the process as it stands.
    spec fn exit_result(&self) -> Result<Option<i32>, String>;

    /// Whether the process has been spawned.
    spec fn spawned(&self) -> bool;

    /// Starts the process.
    fn spawn(&mut self) -> (r: Result<(), String>)
        ensures
            r == old(self).spawn_result(),
            r is Ok ==> final(self).spawned(),
    ;

    /// Asks the process to stop and finalize its output.
    fn request_stop(&mut self) -> (r: Result<(), String>)
        ensures
            r == old(self).stop_result(),
    ;

    /// Whether the process is still running.
    fn is_running(&mut self) -> (r: bool)
        ensures
            r == old(self).running(),
    ;

    /// Waits for the process to exit and returns its exit code, where it has
    /// one.
    fn wait_for_exit(&mut self) -> (r: Result<Option<i32>, String>)
        ensures
            r == old(self).exit_result(),
    ;

    /// Takes what the process wrote on stderr, where it was kept.
    fn take_stderr(&mut self) -> Option<Vec<u8>>;
}

/// A point on the monotonic clock.
#[verifier::external_type_specification]
#[verifier::external_body]
pub struct ExInstant(std::time::Instant);

/// Reads the monotonic clock.
///
/// Trusted: wraps `Instant::now`; nothing is claimed of the value.
#[verifier::external_body]
fn instant_now() -> std::time::Instant {
    std::time::Instant::now()
}

/// Nanoseconds elapsed since `start`.
///
/// Trusted: wraps `Instant::elapsed`, read as whole nanoseconds; nothing is
/// claimed of the value, which depends on the clock.
#[verifier::external_body]
fn nanos_since(start: &std::time::Instant) -> u128 {
    start.elapsed().as_nanos()
}

/// Capture session state.
#[derive(Debug, Clone, PartialEq)]
pub enum CaptureState {
    Idle,
    Running,
    Stopped,
    Error(String),
}

/// What a capture session is, as values. The process it drives is apart:
/// see [`CaptureSession::process`].
pub struct SessionView {
    pub state: CaptureState,
    /// Whether a start time was recorded.
    pub started: bool,
    /// The configured duration (`-d`) in milliseconds.
    pub duration: Option<u64>,
    /// Whether the user asked the process to stop.
    pub stop_requested: bool,
    /// The elapsed time, in nanoseconds, that the last expiry check read
    /// from the clock.
    pub clock_reading: Option<nat>,
}

/// Whether a session in this state may be started.
pub open spec fn can_start(v: SessionView) -> bool {
    !(v.state is Running)
}

/// A session just after a successful start.
pub open spec fn started_view(v: SessionView) -> SessionView {
    SessionView { state: CaptureState::Running, started: true, stop_requested: false, ..v }
}

/// A session just after a successful stop request.
pub open spec fn stopped_by_user(v: SessionView) -> SessionView {
    SessionView { state: CaptureState::Stopped, stop_requested: true, ..v }
}

/// Whether the configured duration has run out after `elapsed`
/// nanoseconds.
pub open spec fn expired_after(v: SessionView, elapsed: nat) -> bool {
    v.started && (v.duration matches Some(d) && elapsed >= d * 1_000_000)
}

/// Whether an exit code reports a failed capture: any non-zero code, except
/// the interrupt codes of a stop the user asked for.
pub open spec fn exit_fails(code: Option<i32>, stop_requested: bool) -> bool {
    match code {
        None => false,
        Some(c) => c != 0 && !(stop_requested && (c == SHELL_SIGINT_EXIT_CODE || c
            == FFMPEG_INTERRUPT_EXIT_CODE)),
    }
}

/// What one tick of the capture loop concludes from the stop key, the
/// expiry of the duration and the process's exit, in that order.
pub open spec fn tick_of(stop_key: bool, expired: bool, exited: bool) -> CaptureTick {
    if stop_key {
        CaptureTick::StoppedByUser
    } else if expired {
        CaptureTick::Expired
    } else if exited {
        CaptureTick::ProcessExited
    } else {
        CaptureTick::Continue
    }
}

/// Decides one tick of the capture loop: the stop key first, then an
/// expired duration, then an exited process; else capturing goes on.
pub fn tick(stop_key: bool, expired: bool, exited: bool) -> (r: CaptureTick)
    ensures
        r == tick_of(stop_key, expired, exited),
{
    if stop_key {
        CaptureTick::StoppedByUser
    } else if expired {
        CaptureTick::Expired
    } else if exited {
        CaptureTick::ProcessExited
    } else {
        CaptureTick::Continue
    }
}

/// How an expiry check changes a running session: it records the elapsed
/// time `e` it read, and stops the session where the duration ran out.
pub open spec fn checked_at(v: SessionView, e: nat) -> SessionView {
    SessionView {
        state: if expired_after(v, e) {
            CaptureState::Stopped
        } else {
            v.state
        },
        clock_reading: Some(e),
        ..v
    }
}

/// What one tick of the capture loop concluded.
#[derive(Debug, Clone, Copy, PartialEq, Eq, Structural)]
pub enum CaptureTick {
    /// The user pressed the stop key; ffmpeg was asked to finalize.
    StoppedByUser,
    /// The configured duration ran out; ffmpeg ends on its own `-t`.
    Expired,
    /// ffmpeg exited before anyone asked it to.
    ProcessExited,
    /// Keep capturing.
    Continue,
}

/// Capture session manager.
pub struct CaptureSession<P: FfmpegProcess> {
    state: CaptureState,
    process: P,
    start_time: Option<std::time::Instant>,
    duration: Option<u64>,
    stop_requested: bool,
    clock_reading: Ghost<Option<nat>>,
}

impl<P: FfmpegProcess> CaptureSession<P> {
    /// The session, as values.
    pub closed spec fn view(&self) -> SessionView {
        SessionView {
            state: self.state,
            started: self.start_time is Some,
            duration: self.duration,
            stop_requested: self.stop_requested,
            clock_reading: self.clock_reading@,
        }
    }

    /// The ffmpeg process the session drives, as it stands.
    pub closed spec fn process(&self) -> P {
        self.process
    }

    /// A session that has not started, for a capture of `duration`
    /// milliseconds (`None`: until stopped), driving `process`.
    pub fn new(process: P, duration: Option<u64>) -> (r: Self)
        ensures
            r.view() == (SessionView {
                state: CaptureState::Idle,
                started: false,
                duration,
                stop_requested: false,
                clock_reading: None,
            }),
            r.process() == process,
    {
        Self {
            state: CaptureState::Idle,
            process,
            start_time: None,
            duration,
            stop_requested: false,
            clock_reading: Ghost(None),
        }
    }

    fn is_running_state(&self) -> (r: bool)
        ensures
            r == (self.view().state is Running),
    {
        match self.state {
            CaptureState::Running => true,
            _ => false,
        }
    }

    /// Starts the capture: spawns ffmpeg and records the start time.
    ///
    /// A running session is not started again: that is an error, ffmpeg is
    /// not spawned, and the session is left as it was. Otherwise ffmpeg is
    /// spawned once; where that fails, its error is returned and the session
    /// is left as it was.
    pub fn start(&mut self) -> (r: Result<(), String>)
        ensures
            !can_start(old(self).view()) ==> (r matches Err(e) && e@
                == "Capture session already running"@) && final(self).view() == old(self).view()
                && final(self).process() == old(self).process(),
            can_start(old(self).view()) ==> match old(self).process().spawn_result() {
                Ok(_) => r is Ok && final(self).view() == started_view(old(self).view()) && final(self).process().spawned(),
                Err(e) => r == Err::<(), String>(e) && final(self).view() == old(self).view(),
            },
    {
        if self.is_running_state() {
            return Err(String::from_str("Capture session already running"));
        }
        match self.process.spawn() {
            Ok(()) => {},
            Err(e) => return Err(e),
        }
        self.state = CaptureState::Running;
        self.start_time = Some(instant_now());
        self.stop_requested = false;
        Ok(())
    }

    /// Asks ffmpeg to stop, so that it finalizes the recording.
    ///
    /// Only a running session can be stopped; otherwise this is an error,
    /// ffmpeg is not signalled, and the session is left as it was. Where the
    /// request fails, its error is returned and the session keeps running.
    pub fn stop(&mut self) -> (r: Result<(), String>)
        ensures
            !(old(self).view().state is Running) ==> (r matches Err(e) && e@
                == "No capture session running"@) && final(self).view() == old(self).view()
                && final(self).process() == old(self).process(),
            old(self).view().state is Running ==> match old(self).process().stop_result() {
                Ok(_) => r is Ok && final(self).view() == stopped_by_user(old(self).view()),
                Err(e) => r == Err::<(), String>(e) && final(self).view() == old(self).view(),
            },
    {
        if !self.is_running_state() {
            return Err(String::from_str("No capture session running"));
        }
        match self.process.request_stop() {
            Ok(()) => {},
            Err(e) => return Err(e),
        }
        self.stop_requested = true;
        self.state = CaptureState::Stopped;
        Ok(())
    }

    /// The session's state.
    pub fn state(&self) -> (r: &CaptureState)
        ensures
            *r == self.view().state,
    {
        &self.state
    }

    /// Whether ffmpeg exited before the user asked it to stop: the session is
    /// running but the process, asked now, says it is not. The process is
    /// asked only while the session runs.
    pub fn has_exited(&mut self) -> (r: bool)
        ensures
            !(old(self).view().state is Running) ==> !r && final(self).view() == old(self).view() && final(self).process() == old(self).process(),
            old(self).view().state is Running ==> r == !old(self).process().running() && final(self).view() == old(self).view(),
    {
        if !self.is_running_state() {
            return false;
        }
        !self.process.is_running()
    }

    /// Whether the configured duration has run out `elapsed` nanoseconds
    /// after the start.
    pub fn expired_at(&self, elapsed: u64) -> (r: bool)
        ensures
            r == expired_after(self.view(), elapsed as nat),
    {
        match (&self.start_time, self.duration) {
            (Some(_), Some(d)) => (elapsed as u128) >= (d as u128) * 1_000_000,
            _ => false,
        }
    }

    /// Whether the configured duration has run out by now: the answer of
    /// [`expired_at`](Self::expired_at) for the elapsed time read from the
    /// clock, which is recorded. A session not started, or without a
    /// duration, has not expired; a started one with a zero duration has.
    pub fn is_duration_expired(&mut self) -> (r: bool)
        ensures
            final(self).process() == old(self).process(),
            final(self).view().clock_reading matches Some(e) && final(self).view() == (SessionView {
                clock_reading: Some(e),
                ..old(self).view()
            }) && r == expired_after(old(self).view(), e) && (!old(self).view().started ==> e
                == 0),
    {
        let elapsed = self.elapsed();
        self.clock_reading = Ghost(Some(elapsed as nat));
        self.expired_at(elapsed)
    }

    /// Nanoseconds since the session started (saturating at `u64::MAX`);
    /// zero before it has, so that a status line can be drawn at any time.
    pub fn elapsed(&self) -> (r: u64)
        ensures
            !self.view().started ==> r == 0,
    {
        match &self.start_time {
            Some(start) => {
                let ns = nanos_since(start);
                if ns > u64::MAX as u128 {
                    u64::MAX
                } else {
                    ns as u64
                }
            },
            None => 0,
        }
    }

    /// The configured session duration (`-d`) in milliseconds; `None` for an
    /// indefinite capture.
    pub fn duration(&self) -> (r: Option<u64>)
        ensures
            r == self.view().duration,
    {
        self.duration
    }

    /// Marks a running session whose duration has run out as stopped, and
    /// says whether it did. ffmpeg is not signalled: its own `-t` ends it.
    /// The elapsed time read from the clock is recorded.
    pub fn check_and_stop_if_expired(&mut self) -> (r: Result<bool, String>)
        ensures
            final(self).process() == old(self).process(),
            !(old(self).view().state is Running) ==> r == Ok::<bool, String>(false)
                && final(self).view() == old(self).view(),
            old(self).view().state is Running ==> (final(self).view().clock_reading matches Some(e)
                && r == Ok::<bool, String>(expired_after(old(self).view(), e))
                && final(self).view() == checked_at(old(self).view(), e)),
    {
        if !self.is_running_state() {
            return Ok(false);
        }
        if self.is_duration_expired() {
            self.state = CaptureState::Stopped;
            Ok(true)
        } else {
            Ok(false)
        }
    }

    /// One tick of the capture loop, once the wait for the stop key is over:
    /// the stop key stops the session; otherwise a duration that ran out ends
    /// it, and so does ffmpeg exiting on its own; otherwise capturing goes on.
    /// The decision is [`tick`] of the readings taken.
    pub fn poll(&mut self, stop_key: bool) -> (r: Result<CaptureTick, String>)
        ensures
            stop_key && !(old(self).view().state is Running) ==> (r matches Err(e) && e@
                == "No capture session running"@) && final(self).view() == old(self).view()
                && final(self).process() == old(self).process(),
            stop_key && old(self).view().state is Running ==> match old(self).process().stop_result() {
                Ok(_) => r == Ok::<CaptureTick, String>(tick_of(true, false, false)) && final(self).view() == stopped_by_user(old(self).view()),
                Err(e) => r == Err::<CaptureTick, String>(e) && final(self).view() == old(self).view(),
            },
            !stop_key && !(old(self).view().state is Running) ==> r == Ok::<CaptureTick, String>(
                tick_of(false, false, false),
            ) && final(self).view() == old(self).view() && final(self).process() == old(self).process(),
            !stop_key && old(self).view().state is Running ==> (final(self).view().clock_reading
                matches Some(e) && final(self).view() == checked_at(old(self).view(), e) && if expired_after(
                old(self).view(),
                e,
            ) {
                r == Ok::<CaptureTick, String>(tick_of(false, true, false)) && final(self).process() == old(self).process()
            } else {
                r == Ok::<CaptureTick, String>(
                    tick_of(false, false, !old(self).process().running()),
                )
            }),
    {
        if stop_key {
            match self.stop() {
                Ok(()) => {},
                Err(e) => return Err(e),
            }
            return Ok(tick(true, false, false));
        }
        let expired = match self.check_and_stop_if_expired() {
            Ok(b) => b,
            Err(e) => return Err(e),
        };
        let exited = if expired {
            false
        } else {
            self.has_exited()
        };
        Ok(tick(false, expired, exited))
    }

    /// Waits for ffmpeg to exit and checks its exit code: any non-zero code
    /// is an error, except the interrupt codes of a stop the user asked for.
    /// Where the wait itself fails, its error is returned and the session is
    /// left as it was.
    pub fn finish(&mut self) -> (r: Result<(), String>)
        ensures
            match old(self).process().exit_result() {
                Err(e) => r == Err::<(), String>(e) && final(self).view() == old(self).view(),
                Ok(code) => final(self).view() == (SessionView {
                    state: CaptureState::Stopped,
                    ..old(self).view()
                }) && (r is Ok <==> !exit_fails(code, old(self).view().stop_requested)) && (r
                    matches Err(m) ==> code matches Some(c) && m@ == "ffmpeg exited with code "@
                    + exit_code_text(c as int)),
            },
    {
        let exit_code = match self.process.wait_for_exit() {
            Ok(code) => code,
            Err(e) => return Err(e),
        };
        self.state = CaptureState::Stopped;
        match exit_code_error(exit_code, self.stop_requested) {
            Some(m) => Err(m),
            None => Ok(()),
        }
    }
}

/// An exit code as ffmpeg's caller writes it: decimal, with a minus sign
/// where it is negative.
pub open spec fn exit_code_text(c: int) -> Seq<char> {
    if c < 0 {
        seq!['-'] + decimal((-c) as nat)
    } else {
        decimal(c as nat)
    }
}

/// The error a finished capture reports for ffmpeg's exit code, where the
/// code is a failure (see [`exit_fails`]): `ffmpeg exited with code <code>`.
pub fn exit_code_error(code: Option<i32>, stop_requested: bool) -> (r: Option<String>)
    ensures
        r is Some <==> exit_fails(code, stop_requested),
        r matches Some(m) ==> code matches Some(c) && m@ == "ffmpeg exited with code "@
            + exit_code_text(c as int),
{
    if !capture_exit_failed(code, stop_requested) {
        return None;
    }
    let mut digits: Vec<char> = Vec::new();
    match code {
        Some(c) => {
            if c < 0 {
                digits.push('-');
                push_decimal(&mut digits, (0i64 - (c as i64)) as u64);
            } else {
                push_decimal(&mut digits, c as u64);
            }
            let mut m = String::from_str("ffmpeg exited with code ");
            m.append(string_from(&digits).as_str());
            Some(m)
        },
        None => None,
    }
}

/// The ffmpeg configuration of a capture started with `args`: written to
/// `output_path`, mixing `audio`, limited to the duration and split at the
/// interval the options give.
pub fn capture_config(output_path: String, args: &StartArgs, audio: AudioSources) -> (r:
    CaptureConfig)
    ensures
        r.output_path@ == output_path@,
        r.duration == args.duration,
        r.interval == args.every,
        r.verbose == args.verbose,
        r.audio == Some(audio),
{
    let mut config = CaptureConfig::new(output_path).with_verbose(args.verbose).with_audio(audio);
    if let Some(d) = args.duration {
        config = config.with_duration(d);
    }
    if let Some(e) = args.every {
        config = config.with_interval(e);
    }
    config
}

/// The file a failed capture leaves half written, to be deleted so that no
/// corrupt recording stays behind: the output of a single-file capture. In
/// interval mode each finished segment is a standalone, playable file, and
/// the segments are kept.
pub fn failed_capture_partial(output_path: &str, interval: Option<u64>) -> (r: Option<String>)
    ensures
        r is Some <==> interval is None,
        r matches Some(p) ==> p@ == output_path@,
{
    match interval {
        None => Some(String::from_str(output_path)),
        Some(_) => None,
    }
}

// ---------------------------------------------------------------------------
// A capture, from start-up to the saved file
// ---------------------------------------------------------------------------

/// The message a command ends with when it saved its result: this text,
/// a space, and the path.
pub const CAPTURE_SAVED: &'static str = "Saved to";

/// How the capture session ran, once it has.
pub enum SessionEnd {
    /// It could not start, or the capture loop failed; ffmpeg wrote nothing
    /// that could be finished.
    Failed(String),
    /// ffmpeg ran, but finishing it failed: what it wrote is incomplete.
    FinishFailed(String),
    /// ffmpeg finished cleanly.
    Finished,
}

/// What a capture has found out so far.
pub struct CaptureProgress {
    /// The output path, or why none could be prepared, once prepared.
    pub output: Option<Result<String, String>>,
    /// The audio devices to mix, or a short diagnostic of what is missing.
    pub audio: Option<Result<AudioSources, String>>,
    /// How the session ran, once it has.
    pub session: Option<SessionEnd>,
}

/// The step a capture takes next.
pub enum CaptureStep {
    /// Prepare the timestamped, collision-free output path.
    PrepareOutput,
    /// Find the BlackHole and microphone devices.
    DetectAudio,
    /// Run a capture session with this configuration: start it, run the
    /// capture loop, and finish it.
    RunSession(CaptureConfig),
    /// Stop here.
    Finish(RunEnd),
}

/// What a capture reports as saved: the output path, or, in interval mode,
/// the shell glob of its segments; `None` where segments are asked for but
/// the path has no file stem to name them after.
pub open spec fn saved_display(path: Seq<char>, interval: Option<u64>) -> Option<Seq<char>> {
    if interval is None {
        Some(path)
    } else if path_file_stem(path) is Some {
        Some(segment_pattern(path, "_seg*"@))
    } else {
        None
    }
}

/// Decides the next step of `start` from what it has found out so far.
///
/// The output path comes first, then the audio devices: where they are
/// missing the capture stops before ffmpeg is started, with the setup help.
/// Then the session runs. A session whose finish failed leaves its partial
/// file to be deleted (see [`failed_capture_partial`]); a clean one reports
/// the file, or in interval mode the glob of its segments.
pub fn run(args: &StartArgs, progress: &CaptureProgress) -> (r: CaptureStep)
    ensures
        match progress.output {
            None => r is PrepareOutput,
            Some(Err(m)) => r matches CaptureStep::Finish(e) && ends_in_error(e, None, m@),
            Some(Ok(path)) => match progress.audio {
                None => r is DetectAudio,
                Some(Err(d)) => r matches CaptureStep::Finish(e) && ends_in_error(
                    e,
                    None,
                    d@ + "\n\n"@ + BLACKHOLE_SETUP@,
                ),
                Some(Ok(audio)) => match progress.session {
                    None => r matches CaptureStep::RunSession(c) && c.output_path@ == path@
                        && c.duration == args.duration && c.interval == args.every && c.verbose
                        == args.verbose && c.audio == Some(audio),
                    Some(SessionEnd::Failed(m)) => r matches CaptureStep::Finish(e)
                        && ends_in_error(e, None, m@),
                    Some(SessionEnd::FinishFailed(m)) => r matches CaptureStep::Finish(e)
                        && ends_in_error(
                        e,
                        if args.every is None {
                            Some(path@)
                        } else {
                            None
                        },
                        m@,
                    ),
                    Some(SessionEnd::Finished) => match saved_display(path@, args.every) {
                        Some(d) => r matches CaptureStep::Finish(e) && ends_saved(
                            e,
                            d,
                            Seq::empty(),
                        ),
                        None => r matches CaptureStep::Finish(e) && ends_in_error(
                            e,
                            None,
                            "Cannot name the segments of a path without a file name: "@ + path@,
                        ),
                    },
                },
            },
        },
{
    let path = match &progress.output {
        None => return CaptureStep::PrepareOutput,
        Some(Err(m)) => return CaptureStep::Finish(error_end(None, String::from_str(m.as_str()))),
        Some(Ok(path)) => path,
    };
    let audio = match &progress.audio {
        None => return CaptureStep::DetectAudio,
        Some(Err(d)) => return CaptureStep::Finish(
            error_end(None, blackhole_missing_message(d.as_str())),
        ),
        Some(Ok(audio)) => *audio,
    };
    match &progress.session {
        None => CaptureStep::RunSession(capture_config(String::from_str(path.as_str()), args, audio)),
        Some(SessionEnd::Failed(m)) => CaptureStep::Finish(
            error_end(None, String::from_str(m.as_str())),
        ),
        Some(SessionEnd::FinishFailed(m)) => {
            let partial = failed_capture_partial(path.as_str(), args.every);
            let end = RunEnd {
                remove_partial: partial,
                warnings: Vec::new(),
                result: Err(String::from_str(m.as_str())),
            };
            proof {
                assert(opt_view(end.remove_partial) == if args.every is None {
                    Some(path@)
                } else {
                    None::<Seq<char>>
                });
            }
            CaptureStep::Finish(end)
        },
        Some(SessionEnd::Finished) => {
            let shown = if args.every.is_some() {
                try_segment_display_pattern(path.as_str())
            } else {
                Some(String::from_str(path.as_str()))
            };
            match shown {
                Some(d) => {
                    let warnings: Vec<String> = Vec::new();
                    assert(crate::ffmpeg::arg_views(warnings@) =~= Seq::<Seq<char>>::empty());
                    CaptureStep::Finish(RunEnd { remove_partial: None, warnings, result: Ok(d) })
                },
                None => {
                    let mut m = String::from_str(
                        "Cannot name the segments of a path without a file name: ",
                    );
                    m.append(path.as_str());
                    CaptureStep::Finish(error_end(None, m))
                },
            }
        },
    }
}

/// Whether an exit code reports a failed capture: any non-zero code, except
/// the interrupt codes (130, 255) of a stop the user asked for.
pub fn capture_exit_failed(code: Option<i32>, stop_requested: bool) -> (r: bool)
    ensures
        r == exit_fails(code, stop_requested),
{
    match code {
        None => false,
        Some(c) => {
            let expected_interrupt = stop_requested && (c == SHELL_SIGINT_EXIT_CODE || c
                == FFMPEG_INTERRUPT_EXIT_CODE);
            c != 0 && !expected_interrupt
        },
    }
}

/// A running session cannot be started again.
pub proof fn lemma_started_session_cannot_start_again(v: SessionView)
    ensures
        !can_start(started_view(v)),
{
}

/// A stop request ends a session that was started: afterwards it is stopped,
/// it cannot be stopped again, and it can be started again.
pub proof fn lemma_stop_ends_a_started_session(v: SessionView)
    ensures
        stopped_by_user(started_view(v)).state is Stopped,
        stopped_by_user(started_view(v)).stop_requested,
        !(stopped_by_user(started_view(v)).state is Running),
        can_start(stopped_by_user(started_view(v))),
{
}

/// An interrupt exit code is a clean finish only after a stop the user
/// asked for; a zero exit code is always clean.
pub proof fn lemma_interrupt_codes_need_a_stop_request(c: i32)
    ensures
        !exit_fails(Some(0), false),
        !exit_fails(Some(0), true),
        (c == 130 || c == 255) ==> (exit_fails(Some(c), false) && !exit_fails(Some(c), true)),
        (c != 0 && c != 130 && c != 255) ==> exit_fails(Some(c), true) && exit_fails(
            Some(c),
            false,
        ),
{
}

/// A session without a duration never expires, and one with a duration
/// expires exactly once its duration (milliseconds) has elapsed (nanoseconds).
pub proof fn lemma_expiry_follows_the_duration(v: SessionView, elapsed: nat)
    ensures
        v.duration is None ==> !expired_after(v, elapsed),
        v.started && v.duration is Some ==> (expired_after(v, elapsed) <==> elapsed
            >= v.duration->0 * 1_000_000),
{
}

} // verus!
