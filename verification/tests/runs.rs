use vidcapture::cli::{parse_label_spec, CutArgs, LabelArgs};
use vidcapture::cut::{self, ffmpeg_failure_message, short_cut_warning, CutProgress, CutStep};
use vidcapture::ffmpeg::{FfmpegRun, RunEnd, FFMPEG_NOT_FOUND};
use vidcapture::label::{
    self, diagnose_drawtext_failure, unreachable_label_warnings, LabelProgress, LabelStep,
    MISSING_DRAWTEXT, MISSING_FONT,
};
use vidcapture::output::SourceKind;

#[test]
fn diagnose_drawtext_failure_explains_a_missing_filter() {
    let diagnosis =
        diagnose_drawtext_failure("[AVFilterGraph] No such filter: 'drawtext'").unwrap();
    assert!(diagnosis.contains("libfreetype"), "got: {}", diagnosis);
}

#[test]
fn diagnose_drawtext_failure_explains_a_missing_font() {
    let diagnosis =
        diagnose_drawtext_failure("[Parsed_drawtext_0] Cannot find a valid font for the family Sans")
            .unwrap();
    assert!(diagnosis.contains("--font"), "got: {}", diagnosis);
}

#[test]
fn diagnose_drawtext_failure_passes_other_errors_through() {
    assert_eq!(diagnose_drawtext_failure("Invalid data found when processing input"), None);
}

// ---- further cases ----

#[test]
fn every_font_error_gets_the_font_diagnosis() {
    for stderr in ["No font filename provided", "x Font not found y"] {
        assert_eq!(diagnose_drawtext_failure(stderr).as_deref(), Some(MISSING_FONT));
    }
    assert_eq!(
        diagnose_drawtext_failure("No such filter: 'drawtext' and Font not found").as_deref(),
        Some(MISSING_DRAWTEXT)
    );
}

#[test]
fn a_short_cut_is_reported_beyond_the_tolerance() {
    assert_eq!(short_cut_warning(10_000, 9_750), None);
    assert_eq!(short_cut_warning(10_000, 12_000), None);
    assert_eq!(
        short_cut_warning(10_000, 9_749),
        Some("cut range extends past end of source (requested 10000ms, wrote 9749ms)".to_string())
    );
}

#[test]
fn failure_messages_do_not_repeat_verbose_output() {
    assert_eq!(ffmpeg_failure_message(true, "exit status: 1", "noise"), "ffmpeg exited with exit status: 1");
    assert_eq!(ffmpeg_failure_message(false, "exit status: 1", "bad input"), "ffmpeg failed:\nbad input");
}

#[test]
fn labels_past_the_end_are_reported() {
    let labels = vec![
        parse_label_spec("text=Intro,from=0s,to=5s").unwrap(),
        parse_label_spec("text=Late,from=20s,to=25s").unwrap(),
        parse_label_spec("text=Edge,from=10s,to=12s").unwrap(),
    ];
    assert_eq!(
        unreachable_label_warnings(&labels, 10_000),
        vec![
            "label 2 ('Late') starts at 20000ms, past the end of the source video (10000ms), so it never appears".to_string(),
            "label 3 ('Edge') starts at 10000ms, past the end of the source video (10000ms), so it never appears".to_string(),
        ]
    );
    assert!(unreachable_label_warnings(&labels, 30_000).is_empty());
}

fn cut_args(to: Option<u64>, verbose: bool) -> CutArgs {
    CutArgs {
        source: "/v/talk.mp4".to_string(),
        from: 10_000,
        to,
        length: None,
        output: None,
        fast: false,
        verbose,
    }
}

fn cut_progress() -> CutProgress {
    CutProgress { source: None, output: None, ffmpeg: None }
}

fn finish_of_cut(step: CutStep) -> RunEnd {
    match step {
        CutStep::Finish(end) => end,
        _ => panic!("expected the cut to finish"),
    }
}

#[test]
fn a_cut_runs_its_steps_in_order() {
    let args = cut_args(Some(25_000), false);
    let mut progress = cut_progress();
    assert!(matches!(cut::run(&args, &progress), CutStep::InspectSource));
    progress.source = Some(SourceKind::File);
    assert!(matches!(cut::run(&args, &progress), CutStep::ResolveOutput));
    progress.output = Some(Ok("/v/talk_cut.mp4".to_string()));
    match cut::run(&args, &progress) {
        CutStep::RunFfmpeg(cmd) => {
            assert_eq!(cmd.program, "ffmpeg");
            assert_eq!(&cmd.args[..7], &["-y", "-ss", "10.000", "-i", "/v/talk.mp4", "-t", "15.000"]);
            assert_eq!(cmd.args.last().unwrap(), "/v/talk_cut.mp4");
        }
        _ => panic!("expected ffmpeg to run"),
    }
    progress.ffmpeg = Some(FfmpegRun::Exited {
        success: true,
        status: "exit status: 0".to_string(),
        stderr: "frame=9 time=00:00:09.500 bitrate=1".to_string(),
    });
    let end = finish_of_cut(cut::run(&args, &progress));
    assert_eq!(end.result, Ok("/v/talk_cut.mp4".to_string()));
    assert_eq!(end.remove_partial, None);
    assert_eq!(
        end.warnings,
        vec!["cut range extends past end of source (requested 15000ms, wrote 9500ms)".to_string()]
    );
}

#[test]
fn a_cut_of_a_missing_or_odd_source_stops_early() {
    let args = cut_args(Some(25_000), false);
    let mut progress = cut_progress();
    progress.source = Some(SourceKind::Missing);
    let end = finish_of_cut(cut::run(&args, &progress));
    assert_eq!(end.result, Err("Source file not found: /v/talk.mp4".to_string()));
    progress.source = Some(SourceKind::NotAFile);
    let end = finish_of_cut(cut::run(&args, &progress));
    assert_eq!(end.result, Err("Source is not a file: /v/talk.mp4".to_string()));
    assert_eq!(end.remove_partial, None);
}

#[test]
fn a_cut_with_a_bad_range_stops_before_the_output() {
    let args = cut_args(None, false);
    let progress = CutProgress { source: Some(SourceKind::File), output: None, ffmpeg: None };
    let end = finish_of_cut(cut::run(&args, &progress));
    assert_eq!(
        end.result,
        Err("Neither --to nor --length specified. One of them is required.".to_string())
    );
}

#[test]
fn a_failed_cut_removes_the_partial_output() {
    let args = cut_args(Some(25_000), false);
    let mut progress = CutProgress {
        source: Some(SourceKind::File),
        output: Some(Ok("/v/out.mp4".to_string())),
        ffmpeg: Some(FfmpegRun::Exited {
            success: false,
            status: "exit status: 1".to_string(),
            stderr: "bad input".to_string(),
        }),
    };
    let end = finish_of_cut(cut::run(&args, &progress));
    assert_eq!(end.remove_partial, Some("/v/out.mp4".to_string()));
    assert_eq!(end.result, Err("ffmpeg failed:\nbad input".to_string()));
    progress.ffmpeg = Some(FfmpegRun::NotFound);
    let end = finish_of_cut(cut::run(&args, &progress));
    assert_eq!(end.remove_partial, None);
    assert_eq!(end.result, Err(FFMPEG_NOT_FOUND.to_string()));
    progress.ffmpeg = Some(FfmpegRun::Failed("broken pipe".to_string()));
    let end = finish_of_cut(cut::run(&args, &progress));
    assert_eq!(end.remove_partial, Some("/v/out.mp4".to_string()));
    assert_eq!(end.result, Err("broken pipe".to_string()));
    progress.output = Some(Err("Output path parent directory does not exist: /x/y.mp4".to_string()));
    let end = finish_of_cut(cut::run(&args, &progress));
    assert_eq!(end.result, Err("Output path parent directory does not exist: /x/y.mp4".to_string()));
}

fn label_args() -> LabelArgs {
    LabelArgs {
        source: "/v/talk.mp4".to_string(),
        labels: vec![
            parse_label_spec("text=Intro,to=5s").unwrap(),
            parse_label_spec("text=Outro,from=1m,length=5s").unwrap(),
        ],
        font: None,
        output: None,
        verbose: false,
    }
}

fn finish_of_label(step: LabelStep) -> RunEnd {
    match step {
        LabelStep::Finish(end) => end,
        _ => panic!("expected the label pass to finish"),
    }
}

#[test]
fn a_label_pass_runs_its_steps_in_order() {
    let args = label_args();
    let mut progress = LabelProgress { source: None, output: None, ffmpeg: None };
    assert!(matches!(label::run(&args, &progress), LabelStep::InspectSource));
    progress.source = Some(SourceKind::File);
    assert!(matches!(label::run(&args, &progress), LabelStep::ResolveOutput));
    progress.output = Some(Ok("/v/talk_labeled.mp4".to_string()));
    match label::run(&args, &progress) {
        LabelStep::RunFfmpeg(cmd) => {
            assert_eq!(&cmd.args[..4], &["-y", "-i", "/v/talk.mp4", "-vf"]);
            assert!(cmd.args[4].contains("text=Outro"));
            assert_eq!(cmd.args.last().unwrap(), "/v/talk_labeled.mp4");
        }
        _ => panic!("expected ffmpeg to run"),
    }
    progress.ffmpeg = Some(FfmpegRun::Exited {
        success: true,
        status: "exit status: 0".to_string(),
        stderr: "time=00:00:30.00".to_string(),
    });
    let end = finish_of_label(label::run(&args, &progress));
    assert_eq!(end.result, Ok("/v/talk_labeled.mp4".to_string()));
    assert_eq!(end.warnings.len(), 1);
    assert!(end.warnings[0].starts_with("label 2 ('Outro') starts at 60000ms"));
}

#[test]
fn a_failed_label_pass_explains_a_missing_drawtext() {
    let args = label_args();
    let progress = LabelProgress {
        source: Some(SourceKind::File),
        output: Some(Ok("/v/o.mp4".to_string())),
        ffmpeg: Some(FfmpegRun::Exited {
            success: false,
            status: "exit status: 8".to_string(),
            stderr: "No such filter: 'drawtext'".to_string(),
        }),
    };
    let end = finish_of_label(label::run(&args, &progress));
    assert_eq!(end.result, Err(MISSING_DRAWTEXT.to_string()));
    assert_eq!(end.remove_partial, Some("/v/o.mp4".to_string()));
    let mut verbose = label_args();
    verbose.verbose = true;
    let progress = LabelProgress {
        source: Some(SourceKind::File),
        output: Some(Ok("/v/o.mp4".to_string())),
        ffmpeg: Some(FfmpegRun::Exited {
            success: false,
            status: "exit status: 1".to_string(),
            stderr: String::new(),
        }),
    };
    let end = finish_of_label(label::run(&verbose, &progress));
    assert_eq!(end.result, Err("ffmpeg exited with exit status: 1".to_string()));
}

#[test]
fn a_label_pass_of_a_missing_source_stops_early() {
    let args = label_args();
    let progress = LabelProgress { source: Some(SourceKind::Missing), output: None, ffmpeg: None };
    let end = finish_of_label(label::run(&args, &progress));
    assert_eq!(end.result, Err("Source file not found: /v/talk.mp4".to_string()));
}

#[test]
fn both_spellings_of_a_range_cut_the_same_footage() {
    let by_end = CutArgs { source: "a.mp4".to_string(), from: 2_000, to: Some(7_500), length: None, output: None, fast: true, verbose: false };
    let by_length = CutArgs { to: None, length: Some(5_500), ..by_end.clone() };
    let progress = || CutProgress {
        source: Some(SourceKind::File),
        output: Some(Ok("b.mp4".to_string())),
        ffmpeg: None,
    };
    let command = |args: &CutArgs| match cut::run(args, &progress()) {
        CutStep::RunFfmpeg(c) => c,
        _ => panic!("expected ffmpeg to run"),
    };
    assert_eq!(command(&by_end), command(&by_length));
}

#[test]
fn a_failed_run_only_ever_deletes_its_own_output() {
    let args = cut_args(Some(25_000), false);
    let progress = CutProgress {
        source: Some(SourceKind::File),
        output: Some(Ok("/v/mine.mp4".to_string())),
        ffmpeg: Some(FfmpegRun::Failed("x".to_string())),
    };
    assert_eq!(finish_of_cut(cut::run(&args, &progress)).remove_partial.as_deref(), Some("/v/mine.mp4"));
}
