use std::cell::RefCell;
use std::rc::Rc;

use vidcapture::capture::{
    capture_config, capture_exit_failed, exit_code_error, failed_capture_partial, tick,
    CaptureSession, CaptureState, CaptureTick, FfmpegProcess, FFMPEG_INTERRUPT_EXIT_CODE, SHELL_SIGINT_EXIT_CODE,
};
use vidcapture::capture::{self as cap, CaptureProgress, CaptureStep, SessionEnd};
use vidcapture::cli::StartArgs;
use vidcapture::ffmpeg::AudioSources;

/// Stand-in ffmpeg process that records what the session asked of it.
struct MockFfmpegProcess {
    spawned: Rc<RefCell<bool>>,
    stop_requested: Rc<RefCell<bool>>,
    running: Rc<RefCell<bool>>,
    exit_code: Option<i32>,
    spawn_error: Option<String>,
    stop_error: Option<String>,
    wait_error: Option<String>,
}

type Flags = (Rc<RefCell<bool>>, Rc<RefCell<bool>>, Rc<RefCell<bool>>);

impl MockFfmpegProcess {
    fn new() -> (Self, Rc<RefCell<bool>>, Rc<RefCell<bool>>, Rc<RefCell<bool>>) {
        Self::with_exit_code(Some(0))
    }

    fn with_exit_code(
        exit_code: Option<i32>,
    ) -> (Self, Rc<RefCell<bool>>, Rc<RefCell<bool>>, Rc<RefCell<bool>>) {
        let (spawned, stop_requested, running): Flags = (
            Rc::new(RefCell::new(false)),
            Rc::new(RefCell::new(false)),
            Rc::new(RefCell::new(false)),
        );
        let process = Self {
            spawned: spawned.clone(),
            stop_requested: stop_requested.clone(),
            running: running.clone(),
            exit_code,
            spawn_error: None,
            stop_error: None,
            wait_error: None,
        };
        (process, spawned, stop_requested, running)
    }
}

impl FfmpegProcess for MockFfmpegProcess {
    fn spawn_result(&self) -> Result<(), String> {
        match &self.spawn_error {
            Some(e) => Err(e.clone()),
            None => Ok(()),
        }
    }

    fn stop_result(&self) -> Result<(), String> {
        match &self.stop_error {
            Some(e) => Err(e.clone()),
            None => Ok(()),
        }
    }

    fn running(&self) -> bool {
        *self.running.borrow()
    }

    fn exit_result(&self) -> Result<Option<i32>, String> {
        match &self.wait_error {
            Some(e) => Err(e.clone()),
            None => Ok(self.exit_code),
        }
    }

    fn spawned(&self) -> bool {
        *self.spawned.borrow()
    }

    fn spawn(&mut self) -> Result<(), String> {
        let r = self.spawn_result();
        if r.is_ok() {
            *self.spawned.borrow_mut() = true;
            *self.running.borrow_mut() = true;
        }
        r
    }

    fn request_stop(&mut self) -> Result<(), String> {
        let r = self.stop_result();
        if r.is_ok() {
            *self.stop_requested.borrow_mut() = true;
            *self.running.borrow_mut() = false;
        }
        r
    }

    fn is_running(&mut self) -> bool {
        self.running()
    }

    fn wait_for_exit(&mut self) -> Result<Option<i32>, String> {
        let r = self.exit_result();
        if r.is_ok() {
            *self.running.borrow_mut() = false;
        }
        r
    }

    fn take_stderr(&mut self) -> Option<Vec<u8>> {
        None
    }
}

#[test]
fn session_starts_in_idle_state() {
    let (process, _, _, _) = MockFfmpegProcess::new();
    let session = CaptureSession::new(process, None);
    assert_eq!(*session.state(), CaptureState::Idle);
}

#[test]
fn session_start_spawns_process() {
    let (process, spawned, _, _) = MockFfmpegProcess::new();
    let mut session = CaptureSession::new(process, None);

    session.start().unwrap();

    assert_eq!(*session.state(), CaptureState::Running);
    assert!(*spawned.borrow());
}

#[test]
fn session_stop_requests_process_stop() {
    let (process, _, stop_requested, _) = MockFfmpegProcess::new();
    let mut session = CaptureSession::new(process, None);

    session.start().unwrap();
    session.stop().unwrap();

    assert_eq!(*session.state(), CaptureState::Stopped);
    assert!(*stop_requested.borrow());
}

#[test]
fn cannot_start_twice() {
    let (process, _, _, _) = MockFfmpegProcess::new();
    let mut session = CaptureSession::new(process, None);

    session.start().unwrap();
    assert!(session.start().is_err());
}

#[test]
fn cannot_stop_when_not_running() {
    let (process, _, _, _) = MockFfmpegProcess::new();
    let mut session = CaptureSession::new(process, None);

    assert!(session.stop().is_err());
}

#[test]
fn duration_not_expired_without_duration() {
    let (process, _, _, _) = MockFfmpegProcess::new();
    let mut session = CaptureSession::new(process, None);

    session.start().unwrap();
    assert!(!session.is_duration_expired());
}

#[test]
fn duration_not_expired_before_time() {
    let (process, _, _, _) = MockFfmpegProcess::new();
    let mut session = CaptureSession::new(process, Some(10_000));

    session.start().unwrap();
    assert!(!session.is_duration_expired());
}

#[test]
fn check_and_stop_if_expired_returns_false_when_not_expired() {
    let (process, _, stop_requested, _) = MockFfmpegProcess::new();
    let mut session = CaptureSession::new(process, Some(10_000));

    session.start().unwrap();
    let expired = session.check_and_stop_if_expired().unwrap();

    assert!(!expired);
    assert!(!*stop_requested.borrow());
}

#[test]
fn capture_loop_can_detect_an_early_process_exit() {
    let (process, _, _, running) = MockFfmpegProcess::new();
    let mut session = CaptureSession::new(process, None);

    session.start().unwrap();
    *running.borrow_mut() = false;

    assert!(session.has_exited());
}

#[test]
fn finish_succeeds_on_zero_exit() {
    let (process, _, _, _) = MockFfmpegProcess::new();
    let mut session = CaptureSession::new(process, None);

    session.start().unwrap();
    session.finish().unwrap();

    assert_eq!(*session.state(), CaptureState::Stopped);
}

#[test]
fn finish_accepts_the_exit_code_from_an_interrupted_capture() {
    let (process, _, _, _) = MockFfmpegProcess::with_exit_code(Some(130));
    let mut session = CaptureSession::new(process, None);

    session.start().unwrap();
    session.stop().unwrap();

    session
        .finish()
        .expect("a user-requested interrupt should finish cleanly");
    assert_eq!(*session.state(), CaptureState::Stopped);
}

#[test]
fn elapsed_is_zero_before_start() {
    let (process, _, _, _) = MockFfmpegProcess::new();
    let session = CaptureSession::new(process, None);
    assert_eq!(session.elapsed(), 0);
}

#[test]
fn duration_returns_configured_duration() {
    let (process, _, _, _) = MockFfmpegProcess::new();
    let session = CaptureSession::new(process, Some(30_000));
    assert_eq!(session.duration(), Some(30_000));
}

#[test]
fn duration_returns_none_when_unset() {
    let (process, _, _, _) = MockFfmpegProcess::new();
    let session = CaptureSession::new(process, None);
    assert_eq!(session.duration(), None);
}

// ---- further cases ----

#[test]
fn zero_duration_expires_at_once_and_stops_the_session() {
    let (process, _, stop_requested, _) = MockFfmpegProcess::new();
    let mut session = CaptureSession::new(process, Some(0));

    session.start().unwrap();
    assert!(session.is_duration_expired());
    assert!(session.check_and_stop_if_expired().unwrap());
    assert_eq!(*session.state(), CaptureState::Stopped);
    // ffmpeg ends on its own -t; it is not asked to stop.
    assert!(!*stop_requested.borrow());
}

#[test]
fn expiry_is_measured_against_the_duration() {
    let (process, _, _, _) = MockFfmpegProcess::new();
    let mut session = CaptureSession::new(process, Some(1_500));
    // The duration is in milliseconds, the elapsed time in nanoseconds.
    assert!(!session.expired_at(5_000_000_000), "a session that never started has not expired");
    session.start().unwrap();
    assert!(!session.expired_at(1_499_999_999));
    assert!(session.expired_at(1_500_000_000));
    assert!(session.expired_at(90_000_000_000));
}

#[test]
fn a_failed_spawn_leaves_the_session_idle() {
    let (mut process, spawned, _, _) = MockFfmpegProcess::new();
    process.spawn_error = Some("no such program".to_string());
    let mut session = CaptureSession::new(process, None);

    assert_eq!(session.start(), Err("no such program".to_string()));
    assert_eq!(*session.state(), CaptureState::Idle);
    assert!(!*spawned.borrow());
    assert_eq!(session.elapsed(), 0);
}

#[test]
fn a_running_session_does_not_spawn_ffmpeg_again() {
    let (process, spawned, _, _) = MockFfmpegProcess::new();
    let mut session = CaptureSession::new(process, None);
    session.start().unwrap();
    *spawned.borrow_mut() = false;
    assert_eq!(session.start(), Err("Capture session already running".to_string()));
    assert!(!*spawned.borrow(), "no second ffmpeg may be spawned");
    assert_eq!(*session.state(), CaptureState::Running);
}

#[test]
fn a_failed_stop_request_keeps_the_session_running() {
    let (mut process, _, stop_requested, _) = MockFfmpegProcess::new();
    process.stop_error = Some("kill failed".to_string());
    let mut session = CaptureSession::new(process, None);
    session.start().unwrap();
    assert_eq!(session.stop(), Err("kill failed".to_string()));
    assert_eq!(*session.state(), CaptureState::Running);
    assert!(!*stop_requested.borrow());
}

#[test]
fn stop_on_an_idle_session_does_not_signal_ffmpeg() {
    let (process, _, stop_requested, _) = MockFfmpegProcess::new();
    let mut session = CaptureSession::new(process, None);
    assert_eq!(session.stop(), Err("No capture session running".to_string()));
    assert!(!*stop_requested.borrow());
    assert_eq!(*session.state(), CaptureState::Idle);
}

#[test]
fn a_failed_wait_returns_its_error_and_leaves_the_state() {
    let (mut process, _, _, _) = MockFfmpegProcess::new();
    process.wait_error = Some("wait failed".to_string());
    let mut session = CaptureSession::new(process, None);
    session.start().unwrap();
    assert_eq!(session.finish(), Err("wait failed".to_string()));
    assert_eq!(*session.state(), CaptureState::Running);
}

#[test]
fn a_stopped_session_can_be_started_again() {
    let (process, _, _, _) = MockFfmpegProcess::new();
    let mut session = CaptureSession::new(process, None);
    session.start().unwrap();
    session.stop().unwrap();
    assert!(session.stop().is_err(), "a stopped session cannot be stopped again");
    session.start().unwrap();
    assert_eq!(*session.state(), CaptureState::Running);
}

#[test]
fn finish_reports_a_failing_exit_code() {
    let (process, _, _, _) = MockFfmpegProcess::with_exit_code(Some(1));
    let mut session = CaptureSession::new(process, None);
    session.start().unwrap();
    let err = session.finish().unwrap_err();
    assert_eq!(err, "ffmpeg exited with code 1");
    assert_eq!(*session.state(), CaptureState::Stopped);
}

#[test]
fn finish_reports_an_interrupt_code_the_user_did_not_ask_for() {
    let (process, _, _, _) = MockFfmpegProcess::with_exit_code(Some(255));
    let mut session = CaptureSession::new(process, None);
    session.start().unwrap();
    assert_eq!(session.finish().unwrap_err(), "ffmpeg exited with code 255");
}

#[test]
fn finish_reports_a_negative_exit_code() {
    let (process, _, _, _) = MockFfmpegProcess::with_exit_code(Some(-9));
    let mut session = CaptureSession::new(process, None);
    session.start().unwrap();
    assert_eq!(session.finish().unwrap_err(), "ffmpeg exited with code -9");
}

#[test]
fn finish_accepts_a_process_without_exit_code() {
    let (process, _, _, _) = MockFfmpegProcess::with_exit_code(None);
    let mut session = CaptureSession::new(process, None);
    session.start().unwrap();
    session.finish().unwrap();
}

#[test]
fn capture_exit_failed_exempts_only_requested_interrupts() {
    assert!(!capture_exit_failed(None, false));
    assert!(!capture_exit_failed(Some(0), false));
    assert!(capture_exit_failed(Some(1), true));
    assert!(!capture_exit_failed(Some(SHELL_SIGINT_EXIT_CODE), true));
    assert!(!capture_exit_failed(Some(FFMPEG_INTERRUPT_EXIT_CODE), true));
    assert!(capture_exit_failed(Some(SHELL_SIGINT_EXIT_CODE), false));
    assert!(capture_exit_failed(Some(FFMPEG_INTERRUPT_EXIT_CODE), false));
}

#[test]
fn has_exited_is_false_while_the_process_runs_or_before_start() {
    let (process, _, _, _) = MockFfmpegProcess::new();
    let mut session = CaptureSession::new(process, None);
    assert!(!session.has_exited());
    session.start().unwrap();
    assert!(!session.has_exited());
}

#[test]
fn exit_code_errors_name_the_code() {
    assert_eq!(exit_code_error(Some(1), false), Some("ffmpeg exited with code 1".to_string()));
    assert_eq!(exit_code_error(Some(-2), true), Some("ffmpeg exited with code -2".to_string()));
    assert_eq!(exit_code_error(Some(130), true), None);
    assert_eq!(exit_code_error(Some(0), false), None);
    assert_eq!(exit_code_error(None, false), None);
}

#[test]
fn poll_stops_on_the_stop_key() {
    let (process, _, stop_requested, _) = MockFfmpegProcess::new();
    let mut session = CaptureSession::new(process, Some(60_000));
    session.start().unwrap();
    assert_eq!(session.poll(false), Ok(CaptureTick::Continue));
    assert_eq!(session.poll(true), Ok(CaptureTick::StoppedByUser));
    assert!(*stop_requested.borrow());
    assert_eq!(*session.state(), CaptureState::Stopped);
    assert_eq!(session.poll(true), Err("No capture session running".to_string()));
}

#[test]
fn poll_ends_on_expiry_and_on_an_early_exit() {
    let (process, _, _, _) = MockFfmpegProcess::new();
    let mut session = CaptureSession::new(process, Some(0));
    session.start().unwrap();
    assert_eq!(session.poll(false), Ok(CaptureTick::Expired));
    assert_eq!(*session.state(), CaptureState::Stopped);

    let (process, _, _, running) = MockFfmpegProcess::new();
    let mut session = CaptureSession::new(process, None);
    session.start().unwrap();
    *running.borrow_mut() = false;
    assert_eq!(session.poll(false), Ok(CaptureTick::ProcessExited));
    assert_eq!(*session.state(), CaptureState::Running);
}

#[test]
fn capture_config_follows_the_options() {
    let args = StartArgs { duration: Some(60_000), every: Some(10_000), output: None, verbose: true };
    let audio = AudioSources { system_audio_index: 0, microphone_index: 2 };
    let config = capture_config("out.mp4".to_string(), &args, audio);
    assert_eq!(config.output_path, "out.mp4");
    assert_eq!(config.duration, Some(60_000));
    assert_eq!(config.interval, Some(10_000));
    assert!(config.verbose);
    assert_eq!(config.audio, Some(audio));
    let plain = StartArgs { duration: None, every: None, output: None, verbose: false };
    let config = capture_config("o.mp4".to_string(), &plain, audio);
    assert_eq!((config.duration, config.interval, config.verbose), (None, None, false));
}

#[test]
fn check_and_stop_if_expired_stops_when_expired() {
    let (process, _, stop_requested, _) = MockFfmpegProcess::new();
    let mut session = CaptureSession::new(process, Some(1));

    session.start().unwrap();
    wait_millis(10);

    let expired = session.check_and_stop_if_expired().unwrap();

    assert!(expired);
    assert_eq!(*session.state(), CaptureState::Stopped);
    // ffmpeg is not asked to stop: it exits on its own -t.
    assert!(!*stop_requested.borrow());
}

#[test]
fn elapsed_grows_after_start() {
    let (process, _, _, _) = MockFfmpegProcess::new();
    let mut session = CaptureSession::new(process, None);
    session.start().unwrap();
    let first = session.elapsed();
    wait_millis(5);
    let second = session.elapsed();
    assert!(second >= first, "elapsed should not go backwards");
}

/// Lets `ms` milliseconds pass on the monotonic clock.
fn wait_millis(ms: u64) {
    let start = std::time::Instant::now();
    while start.elapsed() < std::time::Duration::from_millis(ms) {
        std::hint::spin_loop();
    }
}

#[test]
fn the_stop_key_comes_first_then_expiry_then_exit() {
    assert_eq!(tick(true, true, true), CaptureTick::StoppedByUser);
    assert_eq!(tick(false, true, true), CaptureTick::Expired);
    assert_eq!(tick(false, false, true), CaptureTick::ProcessExited);
    assert_eq!(tick(false, false, false), CaptureTick::Continue);
}

#[test]
fn a_failed_single_file_capture_is_cleaned_up() {
    assert_eq!(failed_capture_partial("/r/v.mp4", None), Some("/r/v.mp4".to_string()));
    assert_eq!(failed_capture_partial("/r/v.mp4", Some(10_000)), None);
}

fn start_args(every: Option<u64>) -> StartArgs {
    StartArgs { duration: Some(60_000), every, output: None, verbose: false }
}

fn finish_of(step: CaptureStep) -> vidcapture::ffmpeg::RunEnd {
    match step {
        CaptureStep::Finish(end) => end,
        _ => panic!("expected the capture to finish"),
    }
}

#[test]
fn a_capture_runs_its_steps_in_order() {
    let args = start_args(None);
    let audio = AudioSources { system_audio_index: 0, microphone_index: 1 };
    let mut p = CaptureProgress { output: None, audio: None, session: None };
    assert!(matches!(cap::run(&args, &p), CaptureStep::PrepareOutput));
    p.output = Some(Ok("/r/v.mp4".to_string()));
    assert!(matches!(cap::run(&args, &p), CaptureStep::DetectAudio));
    p.audio = Some(Ok(audio));
    match cap::run(&args, &p) {
        CaptureStep::RunSession(c) => {
            assert_eq!(c.output_path, "/r/v.mp4");
            assert_eq!(c.duration, Some(60_000));
            assert_eq!(c.audio, Some(audio));
        }
        _ => panic!("expected the session to run"),
    }
    p.session = Some(SessionEnd::Finished);
    let end = finish_of(cap::run(&args, &p));
    assert_eq!(end.result, Ok("/r/v.mp4".to_string()));
    assert_eq!(end.remove_partial, None);
}

#[test]
fn missing_audio_stops_the_capture_before_ffmpeg_starts() {
    let args = start_args(None);
    let p = CaptureProgress {
        output: Some(Ok("/r/v.mp4".to_string())),
        audio: Some(Err("No microphone was detected alongside BlackHole.".to_string())),
        session: None,
    };
    let end = finish_of(cap::run(&args, &p));
    let e = end.result.unwrap_err();
    assert!(e.starts_with("No microphone was detected alongside BlackHole.\n\nBlackHole 2ch was not detected"));
}

#[test]
fn a_failed_finish_deletes_the_partial_recording() {
    let audio = AudioSources { system_audio_index: 0, microphone_index: 1 };
    let p = CaptureProgress {
        output: Some(Ok("/r/v.mp4".to_string())),
        audio: Some(Ok(audio)),
        session: Some(SessionEnd::FinishFailed("ffmpeg exited with code 1".to_string())),
    };
    let end = finish_of(cap::run(&start_args(None), &p));
    assert_eq!(end.remove_partial, Some("/r/v.mp4".to_string()));
    assert_eq!(end.result, Err("ffmpeg exited with code 1".to_string()));
    let end = finish_of(cap::run(&start_args(Some(10_000)), &p));
    assert_eq!(end.remove_partial, None);
    let p = CaptureProgress {
        output: Some(Ok("/r/v.mp4".to_string())),
        audio: Some(Ok(audio)),
        session: Some(SessionEnd::Failed("no ffmpeg".to_string())),
    };
    assert_eq!(finish_of(cap::run(&start_args(None), &p)).remove_partial, None);
}

#[test]
fn a_segmented_capture_reports_the_glob_of_its_segments() {
    let audio = AudioSources { system_audio_index: 0, microphone_index: 1 };
    let p = CaptureProgress {
        output: Some(Ok("/r/vidcapture_2026-05-28_14-30-00.mp4".to_string())),
        audio: Some(Ok(audio)),
        session: Some(SessionEnd::Finished),
    };
    let end = finish_of(cap::run(&start_args(Some(10_000)), &p));
    assert_eq!(end.result, Ok("/r/vidcapture_2026-05-28_14-30-00_seg*.mp4".to_string()));
}
