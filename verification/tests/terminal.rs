use vidcapture::terminal::{
    format_capture_status, format_help, format_status_duration, is_stop_key, StopKeyListener,
};

#[test]
fn stop_key_listener_returns_false_without_a_ready_key() {
    let listener = StopKeyListener::new(true);
    assert!(!listener.wait_for_stop_key(None));
}

#[test]
fn format_help_returns_non_empty_string() {
    assert!(!format_help().is_empty());
}

#[test]
fn format_help_documents_start_command() {
    assert!(format_help().contains("start"));
}

#[test]
fn format_help_documents_help_command() {
    assert!(format_help().contains("help"));
}

#[test]
fn format_help_documents_duration_flag_with_examples() {
    let help = format_help();
    assert!(help.contains("-d"));
    assert!(help.contains("--duration"));
    assert!(help.contains("10s"));
    assert!(help.contains("2m"));
    assert!(help.contains("1h"));
}

#[test]
fn format_help_documents_every_flag_with_examples() {
    let help = format_help();
    assert!(help.contains("-e"));
    assert!(help.contains("--every"));
    assert!(help.contains("segment"));
}

#[test]
fn format_help_documents_output_flag_with_examples() {
    let help = format_help();
    assert!(help.contains("-o"));
    assert!(help.contains("--output"));
    assert!(help.contains("./recordings/"));
}

#[test]
fn format_help_documents_verbose_flag() {
    let help = format_help();
    assert!(help.contains("-v"));
    assert!(help.contains("--verbose"));
}

#[test]
fn format_help_documents_default_output_directory() {
    let help = format_help();
    assert!(help.contains("current working directory") || help.contains("current directory"));
}

#[test]
fn format_help_documents_short_help_flag() {
    let help = format_help();
    assert!(help.contains("-h") && help.contains("--help"));
}

#[test]
fn format_help_documents_duration_format_compound_examples() {
    let help = format_help();
    assert!(help.contains("1h30m"));
    assert!(help.contains("1h30m10s"));
}

#[test]
fn format_help_documents_timespec_ms_unit() {
    let help = format_help();
    assert!(help.contains("ms"));
    assert!(help.contains("1500ms"));
}

#[test]
fn format_help_documents_timespec_decimal() {
    assert!(format_help().contains("1.5s"));
}

#[test]
fn format_help_documents_timestamp_notation() {
    let help = format_help();
    assert!(help.contains("HH:MM:SS"));
    assert!(help.contains("00:01:30.500"));
}

#[test]
fn format_help_notes_cut_needs_ffmpeg_not_blackhole() {
    let help = format_help();
    assert!(help.contains("ffmpeg") && help.contains("not BlackHole"));
}

#[test]
fn format_help_attributes_the_blackhole_note_to_cut_not_to_verbose() {
    let help = format_help();
    let note_line = help
        .lines()
        .find(|line| line.contains("not BlackHole"))
        .expect("help should carry the BlackHole note");
    assert!(note_line.contains("cut"), "the note must name the cut command, got: {}", note_line.trim());
}

#[test]
fn format_help_includes_ffmpeg_install_instructions() {
    assert!(format_help().contains("brew install ffmpeg"));
}

#[test]
fn format_help_includes_blackhole_setup_instructions() {
    let help = format_help();
    assert!(help.to_lowercase().contains("blackhole"));
    assert!(help.contains("Multi-Output Device"));
    assert!(help.contains("Audio MIDI Setup"));
}

#[test]
fn format_help_includes_list_devices_check() {
    let help = format_help();
    assert!(help.contains("avfoundation") && help.contains("list_devices"));
}

#[test]
fn format_help_includes_examples_section() {
    assert!(format_help().contains("EXAMPLES"));
}

#[test]
fn format_status_duration_seconds_only() {
    assert_eq!(format_status_duration(0), "0s");
    assert_eq!(format_status_duration(7_000), "7s");
    assert_eq!(format_status_duration(59_000), "59s");
}

#[test]
fn format_status_duration_minutes_and_seconds() {
    assert_eq!(format_status_duration(60_000), "1m00s");
    assert_eq!(format_status_duration(125_000), "2m05s");
    assert_eq!(format_status_duration(3_599_000), "59m59s");
}

#[test]
fn format_status_duration_full_hours_minutes_seconds() {
    assert_eq!(format_status_duration(3_661_000), "1h01m01s");
    assert_eq!(format_status_duration(7_200_000), "2h00m00s");
}

#[test]
fn format_capture_status_with_duration_includes_remaining() {
    let line = format_capture_status(5_000_000_000, Some(10_000));
    assert!(line.contains("5s elapsed"), "got: {}", line);
    assert!(line.contains("5s remaining"), "got: {}", line);
    assert!(line.contains("press s to stop"), "got: {}", line);
}

#[test]
fn format_capture_status_without_duration_omits_remaining() {
    let line = format_capture_status(5_000_000_000, None);
    assert!(line.contains("5s elapsed"), "got: {}", line);
    assert!(!line.contains("remaining"), "got: {}", line);
}

#[test]
fn format_capture_status_remaining_does_not_go_negative() {
    let line = format_capture_status(11_000_000_000, Some(10_000));
    assert!(line.contains("0s remaining"), "got: {}", line);
}

#[test]
fn format_capture_status_with_long_duration_uses_hours_form() {
    let line = format_capture_status(300_000_000_000, Some(5_410_000));
    assert!(line.contains("5m00s elapsed"), "got: {}", line);
    assert!(line.contains("1h25m10s remaining"), "got: {}", line);
}

#[test]
fn format_help_documents_label_command() {
    let help = format_help();
    assert!(help.contains("label"));
    assert!(help.contains("-l, --label"));
    assert!(help.contains("--font"));
}

#[test]
fn format_help_documents_every_label_spec_key() {
    let help = format_help();
    for key in ["text=", "from=", "to=", "length=", "position=", "color=", "size=", "background="] {
        assert!(help.contains(key), "help text should document the '{}' key", key);
    }
}

#[test]
fn format_help_documents_label_positions_and_colors() {
    let help = format_help();
    assert!(help.contains("top") && help.contains("bottom"));
    assert!(help.contains("black@0.5"));
}

#[test]
fn format_help_includes_a_label_example() {
    let help = format_help();
    assert!(help.contains("vidcapture label"));
    assert!(help.contains("from=1m32s"));
}

#[test]
fn format_help_notes_label_leaves_the_source_video_alone() {
    assert!(format_help().contains("label re-encodes the video and never touches the source video."));
}

// ---- further cases ----

#[test]
fn status_lines_in_full() {
    assert_eq!(
        format_capture_status(65_999_000_000, Some(3_661_000)),
        "Capturing [1m05s elapsed, 59m55s remaining], press s to stop."
    );
    assert_eq!(format_capture_status(999_999_999, None), "Capturing [0s elapsed], press s to stop.");
}

#[test]
fn remaining_time_counts_from_the_exact_elapsed_time() {
    // Half a millisecond past five seconds of a ten-second capture: less than
    // five whole seconds remain.
    assert_eq!(
        format_capture_status(5_000_500_000, Some(10_000)),
        "Capturing [5s elapsed, 4s remaining], press s to stop."
    );
    assert_eq!(
        format_capture_status(5_000_000_000, Some(10_000)),
        "Capturing [5s elapsed, 5s remaining], press s to stop."
    );
}

#[test]
fn only_s_stops_the_capture_and_only_in_raw_mode() {
    assert!(is_stop_key(Some('s')));
    assert!(is_stop_key(Some('S')));
    assert!(!is_stop_key(Some('q')));
    assert!(!is_stop_key(None));
    let listener = StopKeyListener::new(true);
    assert!(listener.reads_keys());
    assert!(listener.wait_for_stop_key(Some('S')));
    assert!(!listener.wait_for_stop_key(Some('x')));
    let sleeper = StopKeyListener::new(false);
    assert!(!sleeper.reads_keys());
    assert!(!sleeper.wait_for_stop_key(Some('s')));
}

#[test]
fn help_default_background_matches_the_parser() {
    assert!(format_help().contains("Default: black@0.5; background=none draws the text bare."));
}
