use vidcapture::cli::{parse_label_spec, Label};
use vidcapture::ffmpeg::{
    blackhole_missing_message, blackhole_setup_instructions, build_capture_command, build_cut_command,
    build_label_command, build_label_filtergraph, detect_audio_setup, escape_drawtext,
    find_blackhole_index, find_microphone_index, format_seconds, format_seconds3,
    parse_avfoundation_listing, parse_written_length, try_build_capture_command, AudioSources,
    AvfoundationDevice, CaptureConfig, CutConfig, LabelConfig, AUDIO_MIX_FILTER,
};
use vidcapture::output::segment_ffmpeg_pattern;

fn base_config() -> CaptureConfig {
    CaptureConfig::new("vidcapture_2026-05-28_14-30-00.mp4".to_string())
}

fn get_args(config: &CaptureConfig) -> Vec<String> {
    let cmd = build_capture_command(config);
    assert_eq!(cmd.program, "ffmpeg");
    cmd.args
}

fn device(index: usize, name: &str) -> AvfoundationDevice {
    AvfoundationDevice { index, name: name.to_string() }
}

fn has(args: &[String], s: &str) -> bool {
    args.iter().any(|a| a == s)
}

fn position(args: &[String], s: &str) -> usize {
    args.iter().position(|a| a == s).unwrap_or_else(|| panic!("{} missing from {:?}", s, args))
}

fn both_sources() -> AudioSources {
    AudioSources { system_audio_index: 0, microphone_index: 1 }
}

#[test]
fn simple_capture_command() {
    let args = get_args(&base_config());

    assert!(has(&args, "-f"));
    assert!(has(&args, "avfoundation"));
    assert!(has(&args, "-c:v"));
    assert!(has(&args, "libx264"));
    assert!(!has(&args, "-c:a"));
    assert!(!has(&args, "aac"));
    assert!(!has(&args, "filter_complex"));
    assert!(has(&args, "vidcapture_2026-05-28_14-30-00.mp4"));
    assert!(!has(&args, "-t"));
    assert!(!has(&args, "segment"));
}

#[test]
fn screen_capture_uses_full_screen_video_input() {
    let args = get_args(&base_config());

    let input_position = position(&args, "-i");
    assert_eq!(args[input_position + 1], "1:none");

    let avfoundation_inputs = args
        .windows(2)
        .filter(|window| window[0] == "-f" && window[1] == "avfoundation")
        .count();
    assert_eq!(avfoundation_inputs, 1, "screen-only capture needs one input");
    assert!(args.iter().any(|arg| arg.ends_with(".mp4")));
}

#[test]
fn audio_capture_uses_two_avfoundation_inputs() {
    let args = get_args(&base_config().with_audio(both_sources()));

    let avf_count = args
        .windows(2)
        .filter(|window| window[0] == "-f" && window[1] == "avfoundation")
        .count();
    assert_eq!(avf_count, 2, "expected two avfoundation inputs, got {:?}", args);

    let screen_idx = position(&args, "1:0");
    let mic_idx = position(&args, ":1");
    assert!(mic_idx > screen_idx, "mic input must come after screen input");
}

#[test]
fn audio_capture_mixes_streams_with_amix_filter() {
    let args = get_args(&base_config().with_audio(both_sources()));

    let fcp = position(&args, "-filter_complex");
    let filter = &args[fcp + 1];
    assert!(filter.contains("[0:a]"), "got: {}", filter);
    assert!(filter.contains("[1:a]"), "got: {}", filter);
    assert!(filter.contains("amix=inputs=2"), "got: {}", filter);
    assert!(filter.contains("[aout]"), "got: {}", filter);
}

#[test]
fn audio_capture_resamples_each_input_for_sync() {
    let args = get_args(&base_config().with_audio(both_sources()));

    let fcp = position(&args, "-filter_complex");
    let filter = &args[fcp + 1];
    assert_eq!(filter.matches("aresample=async=1").count(), 2, "got filter: {}", filter);
}

#[test]
fn audio_capture_maps_video_and_mixed_audio() {
    let args = get_args(&base_config().with_audio(both_sources()));

    let map_positions: Vec<usize> = args
        .iter()
        .enumerate()
        .filter(|(_, a)| *a == "-map")
        .map(|(i, _)| i)
        .collect();
    assert_eq!(map_positions.len(), 2, "expected exactly two -map flags, got {:?}", args);
    assert_eq!(args[map_positions[0] + 1], "0:v");
    assert_eq!(args[map_positions[1] + 1], "[aout]");
}

#[test]
fn audio_capture_emits_aac_codec() {
    let args = get_args(&base_config().with_audio(both_sources()));

    assert!(has(&args, "-c:a"));
    assert!(has(&args, "aac"));
    assert!(has(&args, "128k"));
}

#[test]
fn capture_with_duration() {
    let args = get_args(&base_config().with_duration(10_000));
    let t_pos = position(&args, "-t");
    assert_eq!(args[t_pos + 1], "10");
}

#[test]
fn capture_with_interval() {
    let args = get_args(&base_config().with_interval(30_000));

    assert!(has(&args, "segment"));
    let st_pos = position(&args, "-segment_time");
    assert_eq!(args[st_pos + 1], "30");
    assert!(args.iter().any(|a| a.contains("seg%03d")), "Expected segment pattern in args: {:?}", args);
}

#[test]
fn capture_with_duration_and_interval() {
    let args = get_args(&base_config().with_duration(60_000).with_interval(10_000));

    let t_pos = position(&args, "-t");
    assert_eq!(args[t_pos + 1], "60");
    let st_pos = position(&args, "-segment_time");
    assert_eq!(args[st_pos + 1], "10");
}

#[test]
fn segment_pattern_generation() {
    assert_eq!(
        segment_ffmpeg_pattern("vidcapture_2026-05-28_14-30-00.mp4"),
        "vidcapture_2026-05-28_14-30-00_seg%03d.mp4"
    );
}

#[test]
fn capture_with_interval_resets_timestamps_for_each_segment() {
    let args = get_args(&base_config().with_interval(10_000));
    let pos = position(&args, "-reset_timestamps");
    assert_eq!(args[pos + 1], "1");
}

#[test]
fn capture_with_interval_force_keyframes_align_to_segment_boundary() {
    let args = get_args(&base_config().with_interval(10_000));
    let pos = position(&args, "-force_key_frames");
    assert_eq!(args[pos + 1], "expr:gte(t,n_forced*10)");
}

#[test]
fn capture_without_interval_omits_seamless_split_flags() {
    let args = get_args(&base_config());
    assert!(!has(&args, "-reset_timestamps"));
    assert!(!has(&args, "-force_key_frames"));
}

#[test]
fn capture_with_interval_segment_pattern_uses_three_digit_padding() {
    let args = get_args(&base_config().with_interval(10_000));
    let pattern = args
        .iter()
        .find(|a| a.contains("seg%03d"))
        .expect("expected segment pattern with %03d padding in args");
    assert_eq!(pattern, "vidcapture_2026-05-28_14-30-00_seg%03d.mp4");
}

#[test]
fn segment_pattern_with_directory() {
    assert_eq!(
        segment_ffmpeg_pattern("/tmp/output/vidcapture_2026-05-28_14-30-00.mp4"),
        "/tmp/output/vidcapture_2026-05-28_14-30-00_seg%03d.mp4"
    );
}

#[test]
fn capture_command_overwrite_flag() {
    let args = get_args(&base_config());
    assert!(has(&args, "-y"));
}

const SAMPLE_LISTING: &str = "\
ffmpeg version 8.1.1 Copyright (c) 2000-2026 the FFmpeg developers
[AVFoundation indev @ 0xc97014140] AVFoundation video devices:
[AVFoundation indev @ 0xc97014140] [0] FaceTime HD Camera
[AVFoundation indev @ 0xc97014140] [1] Capture screen 0
[AVFoundation indev @ 0xc97014140] AVFoundation audio devices:
[AVFoundation indev @ 0xc97014140] [0] BlackHole 2ch
[AVFoundation indev @ 0xc97014140] [1] MacBook Air Microphone
[AVFoundation indev @ 0xc97014140] [2] Microsoft Teams Audio
[in#0 @ 0xc97014000] Error opening input: Input/output error
";

#[test]
fn parse_avfoundation_listing_extracts_video_and_audio() {
    let (video, audio) = parse_avfoundation_listing(SAMPLE_LISTING);

    assert_eq!(video, vec![device(0, "FaceTime HD Camera"), device(1, "Capture screen 0")]);
    assert_eq!(
        audio,
        vec![
            device(0, "BlackHole 2ch"),
            device(1, "MacBook Air Microphone"),
            device(2, "Microsoft Teams Audio"),
        ]
    );
}

#[test]
fn parse_avfoundation_listing_handles_missing_sections() {
    let listing = "\
[AVFoundation indev @ 0xc97014140] AVFoundation video devices:
[AVFoundation indev @ 0xc97014140] [0] FaceTime HD Camera
";
    let (video, audio) = parse_avfoundation_listing(listing);
    assert_eq!(video.len(), 1);
    assert_eq!(audio.len(), 0);
}

#[test]
fn parse_avfoundation_listing_handles_only_audio() {
    let listing = "\
[AVFoundation indev @ 0xc97014140] AVFoundation audio devices:
[AVFoundation indev @ 0xc97014140] [0] BlackHole 2ch
";
    let (video, audio) = parse_avfoundation_listing(listing);
    assert_eq!(video.len(), 0);
    assert_eq!(audio.len(), 1);
    assert_eq!(audio[0].name, "BlackHole 2ch");
}

#[test]
fn parse_avfoundation_listing_empty_input() {
    let (video, audio) = parse_avfoundation_listing("");
    assert!(video.is_empty());
    assert!(audio.is_empty());
}

#[test]
fn find_blackhole_returns_index_in_listing() {
    let (_, audio) = parse_avfoundation_listing(SAMPLE_LISTING);
    assert_eq!(find_blackhole_index(&audio), Some(0));
}

#[test]
fn find_blackhole_requires_2ch_specifically() {
    let devices = vec![device(2, "BLACKHOLE 16CH"), device(5, "MacBook Pro Microphone")];
    assert_eq!(find_blackhole_index(&devices), None);
}

#[test]
fn find_blackhole_accepts_2ch_case_insensitively() {
    let devices = vec![device(0, "blackhole 2ch"), device(3, "Blackhole 2ch")];
    assert_eq!(find_blackhole_index(&devices), Some(0));
}

#[test]
fn find_blackhole_missing_returns_none() {
    let devices = vec![device(0, "MacBook Air Microphone")];
    assert_eq!(find_blackhole_index(&devices), None);
}

#[test]
fn find_microphone_prefers_named_mic_over_virtual_input() {
    let devices = vec![device(0, "Microsoft Teams Audio"), device(1, "MacBook Air Microphone")];
    assert_eq!(find_microphone_index(&devices), Some(1));
}

#[test]
fn find_microphone_skips_blackhole() {
    let (_, audio) = parse_avfoundation_listing(SAMPLE_LISTING);
    assert_eq!(find_microphone_index(&audio), Some(1));
}

#[test]
fn find_microphone_returns_none_if_only_blackhole() {
    let devices = vec![device(0, "BlackHole 2ch")];
    assert_eq!(find_microphone_index(&devices), None);
}

#[test]
fn find_microphone_falls_back_to_first_non_blackhole() {
    let devices = vec![device(0, "BlackHole 2ch"), device(2, "USB Audio CODEC")];
    assert_eq!(find_microphone_index(&devices), Some(2));
}

#[test]
fn blackhole_setup_instructions_mentions_install_steps() {
    let text = blackhole_setup_instructions();
    assert!(text.contains("BlackHole"));
    assert!(text.contains("brew install blackhole-2ch"));
    assert!(text.contains("Multi-Output Device"));
    assert!(text.contains("Audio MIDI Setup"));
    assert!(text.contains("ffmpeg -f avfoundation -list_devices"));
}

// ---- further cases ----

#[test]
fn full_capture_command_with_audio_duration_and_interval() {
    let config = CaptureConfig::new("/rec/vidcapture_2026-05-28_14-30-00.mp4".to_string())
        .with_audio(AudioSources { system_audio_index: 3, microphone_index: 12 })
        .with_duration(1_500)
        .with_interval(90_250)
        .with_verbose(true);
    let expected: Vec<&str> = vec![
        "-y", "-f", "avfoundation", "-i", "1:3", "-f", "avfoundation", "-i", ":12",
        "-filter_complex", AUDIO_MIX_FILTER, "-map", "0:v", "-map", "[aout]", "-c:a", "aac",
        "-b:a", "128k", "-c:v", "libx264", "-preset", "ultrafast", "-crf", "23", "-t", "1.500",
        "-f", "segment", "-segment_time", "90.250", "-reset_timestamps", "1",
        "-force_key_frames", "expr:gte(t,n_forced*90.250)",
        "/rec/vidcapture_2026-05-28_14-30-00_seg%03d.mp4",
    ];
    assert_eq!(get_args(&config), expected);
}

#[test]
fn interval_capture_needs_a_file_stem() {
    assert!(try_build_capture_command(&CaptureConfig::new("/".to_string()).with_interval(1_000)).is_none());
    assert!(try_build_capture_command(&CaptureConfig::new("/".to_string())).is_some());
    assert!(try_build_capture_command(&base_config().with_interval(1_000)).is_some());
}

#[test]
fn seconds_are_whole_or_three_decimals() {
    assert_eq!(format_seconds(10_000), "10");
    assert_eq!(format_seconds(0), "0");
    assert_eq!(format_seconds(1_500), "1.500");
    assert_eq!(format_seconds(5), "0.005");
    assert_eq!(format_seconds3(0), "0.000");
    assert_eq!(format_seconds3(25_000), "25.000");
    assert_eq!(format_seconds3(1_234_567), "1234.567");
}

#[test]
fn cut_command_re_encodes_by_default() {
    let config = CutConfig::new("talk.mp4", 10_000, 1_500, "talk_cut.mp4");
    let cmd = build_cut_command(&config);
    assert_eq!(cmd.program, "ffmpeg");
    assert_eq!(
        cmd.args,
        vec![
            "-y", "-ss", "10.000", "-i", "talk.mp4", "-t", "1.500", "-c:v", "libx264",
            "-preset", "ultrafast", "-crf", "23", "-c:a", "aac", "-b:a", "128k", "talk_cut.mp4",
        ]
    );
}

#[test]
fn fast_cut_command_copies_streams() {
    let config = CutConfig::new("talk.mp4", 0, 5_000, "out.mp4").with_fast(true);
    assert_eq!(
        build_cut_command(&config).args,
        vec![
            "-y", "-ss", "0.000", "-i", "talk.mp4", "-t", "5.000", "-c", "copy",
            "-avoid_negative_ts", "make_zero", "out.mp4",
        ]
    );
}

fn label(spec: &str) -> Label {
    parse_label_spec(spec).unwrap()
}

#[test]
fn label_command_draws_every_label_and_copies_audio() {
    let labels = vec![
        label("text=Intro,from=1m32s,to=2m,position=top"),
        label("text=Demo,from=2m,length=30s,background=none,color=#ffcc00,size=48"),
    ];
    let config = LabelConfig::new("talk.mp4", labels, "talk_labeled.mp4");
    let cmd = build_label_command(&config);
    assert_eq!(cmd.program, "ffmpeg");
    let graph = "drawtext=expansion=none:text=Intro:fontcolor=white:fontsize=32:x=(w-text_w)/2:y=40:box=1:boxcolor=black@0.5:boxborderw=12:enable='between(t,92.000,120.000)',drawtext=expansion=none:text=Demo:fontcolor=#ffcc00:fontsize=48:x=(w-text_w)/2:y=h-text_h-40:enable='between(t,120.000,150.000)'";
    assert_eq!(
        cmd.args,
        vec![
            "-y", "-i", "talk.mp4", "-vf", graph, "-c:v", "libx264", "-preset", "ultrafast",
            "-crf", "23", "-c:a", "copy", "talk_labeled.mp4",
        ]
    );
}

#[test]
fn label_command_passes_the_font_file() {
    let config = LabelConfig::new("in.mov", vec![label("text=Hi,to=1s")], "out.mp4")
        .with_font(Some("/f/Menlo.ttc".to_string()));
    let cmd = build_label_command(&config);
    assert!(cmd.args[4].contains(":fontfile=/f/Menlo.ttc:"), "got: {}", cmd.args[4]);
    assert_eq!(cmd.args[2], "in.mov");
}

#[test]
fn label_filtergraph_names_the_font_file() {
    let labels = vec![label("text=Hi,to=1s")];
    let graph = build_label_filtergraph(&labels, &Some("/fonts/Helvetica.ttc".to_string()));
    assert!(
        graph.starts_with("drawtext=expansion=none:text=Hi:fontfile=/fonts/Helvetica.ttc:fontcolor=white"),
        "got: {}",
        graph
    );
}

#[test]
fn drawtext_escaping_survives_both_reads() {
    assert_eq!(escape_drawtext("plain"), "plain");
    assert_ne!(escape_drawtext("it's"), "it's");
    assert!(escape_drawtext("a:b").contains("\\:"));
    assert!(escape_drawtext("a,b").contains("\\,"));
}

#[test]
fn written_length_is_read_from_the_last_time_token() {
    let stderr = "frame=1 time=00:00:01.00 bitrate=1\nframe=2 time=00:00:05.25 bitrate=2\n";
    assert_eq!(parse_written_length(stderr), Some(5_250));
    assert_eq!(parse_written_length("time=N/A speed=1x"), None);
    assert_eq!(parse_written_length("nothing here"), None);
}

#[test]
fn detect_audio_setup_picks_blackhole_and_the_microphone() {
    let (_, audio) = parse_avfoundation_listing(SAMPLE_LISTING);
    assert_eq!(
        detect_audio_setup(&audio),
        Ok(AudioSources { system_audio_index: 0, microphone_index: 1 })
    );
    assert_eq!(
        detect_audio_setup(&[device(1, "MacBook Air Microphone")]),
        Err("BlackHole 2ch is not installed or not visible to ffmpeg.".to_string())
    );
    assert_eq!(
        detect_audio_setup(&[device(4, "BlackHole 2ch")]),
        Err("No microphone was detected alongside BlackHole.".to_string())
    );
}

#[test]
fn the_missing_blackhole_error_carries_the_setup_steps() {
    let m = blackhole_missing_message("No BlackHole here.");
    assert_eq!(m, format!("No BlackHole here.\n\n{}", blackhole_setup_instructions()));
}
