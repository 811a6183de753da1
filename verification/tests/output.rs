use std::path::Path;

use vidcapture::output::{
    directory_creation_error, output_directory_step, DirectoryStep,
    avoid_collision, derived_output_target, first_free_candidate, generate_filename,
    generate_segment_filename, refuse_overwriting_source, resolve_cut_output_path,
    resolve_label_output_path, segment_display_pattern, segment_ffmpeg_pattern,
    try_segment_display_pattern, try_segment_ffmpeg_pattern, CollisionStep, DerivedOutput,
    DerivedProgress, DerivedStep, OutputConfig, Timestamp, BASE_NAME,
};

fn fixed_timestamp() -> Timestamp {
    Timestamp { year: 2026, month: 5, day: 28, hour: 14, minute: 30, second: 0 }
}

fn test_config() -> OutputConfig {
    OutputConfig::new("/tmp/vidcapture".to_string(), BASE_NAME.to_string())
}

/// A file system held in memory: existing files and directories.
struct FakeFs {
    files: Vec<String>,
    dirs: Vec<String>,
}

impl FakeFs {
    fn new(files: &[&str], dirs: &[&str]) -> Self {
        FakeFs {
            files: files.iter().map(|f| f.to_string()).collect(),
            dirs: dirs.iter().map(|d| d.to_string()).collect(),
        }
    }

    fn is_dir(&self, p: &str) -> bool {
        let p = p.trim_end_matches('/');
        self.dirs.iter().any(|d| d == p)
    }
}

type Decide = fn(&str, Option<&str>, &DerivedProgress) -> DerivedStep;

/// Runs the resolution steps against `fs`, as the command does against the
/// disk; canonical forms are never found.
fn resolve(decide: Decide, source: &str, output: Option<&str>, fs: &mut FakeFs) -> Result<String, String> {
    let mut p = DerivedProgress { output_facts: None, directory: None, canonical: None, taken: Vec::new() };
    loop {
        match decide(source, output, &p) {
            DerivedStep::InspectOutput => {
                let o = output.unwrap();
                let parent_exists = match Path::new(o).parent() {
                    Some(q) if !q.as_os_str().is_empty() => fs.is_dir(q.to_str().unwrap()),
                    _ => true,
                };
                p.output_facts = Some((fs.is_dir(o), parent_exists));
            }
            DerivedStep::CreateDirectory(d) => {
                fs.dirs.push(d.trim_end_matches('/').to_string());
                p.directory = Some(Ok(()));
            }
            DerivedStep::Canonicalize(_) => p.canonical = Some((None, None)),
            DerivedStep::Probe(c) => p.taken.push(fs.files.contains(&c)),
            DerivedStep::Done(r) => return r,
        }
    }
}

fn cut_path(source: &str, output: Option<&str>, fs: &mut FakeFs) -> Result<String, String> {
    resolve(resolve_cut_output_path, source, output, fs)
}

fn label_path(source: &str, output: Option<&str>, fs: &mut FakeFs) -> Result<String, String> {
    resolve(resolve_label_output_path, source, output, fs)
}

#[test]
fn single_segment_filename_format() {
    let result = generate_filename(&test_config(), &fixed_timestamp());
    assert_eq!(result, "/tmp/vidcapture/vidcapture_2026-05-28_14-30-00.mp4");
}

#[test]
fn segment_filename_format() {
    let result = generate_segment_filename(&test_config(), &fixed_timestamp(), 1);
    assert_eq!(result, "/tmp/vidcapture/vidcapture_2026-05-28_14-30-00_seg001.mp4");
}

#[test]
fn segment_filename_padded_number() {
    let result = generate_segment_filename(&test_config(), &fixed_timestamp(), 42);
    assert_eq!(result, "/tmp/vidcapture/vidcapture_2026-05-28_14-30-00_seg042.mp4");
}

#[test]
fn segment_ffmpeg_pattern_uses_three_digit_padding() {
    let result = segment_ffmpeg_pattern("/tmp/vidcapture/vidcapture_2026-05-28_14-30-00.mp4");
    assert_eq!(result, "/tmp/vidcapture/vidcapture_2026-05-28_14-30-00_seg%03d.mp4");
}

#[test]
fn segment_ffmpeg_pattern_handles_no_extension() {
    let result = segment_ffmpeg_pattern("/tmp/vidcapture/vidcapture_2026-05-28_14-30-00");
    assert_eq!(result, "/tmp/vidcapture/vidcapture_2026-05-28_14-30-00_seg%03d");
}

#[test]
fn segment_display_pattern_uses_glob() {
    let result = segment_display_pattern("/tmp/vidcapture/vidcapture_2026-05-28_14-30-00.mp4");
    assert_eq!(result, "/tmp/vidcapture/vidcapture_2026-05-28_14-30-00_seg*.mp4");
}

#[test]
fn label_no_output_resolves_to_source_stem_labeled_mp4() {
    let mut fs = FakeFs::new(&[], &[]);
    assert_eq!(label_path("/videos/talk.mp4", None, &mut fs), Ok("/videos/talk_labeled.mp4".to_string()));
}

#[test]
fn label_output_directory_resolves_inside() {
    let mut fs = FakeFs::new(&[], &["/tmp/labels"]);
    assert_eq!(
        label_path("/tmp/talk.mp4", Some("/tmp/labels"), &mut fs),
        Ok("/tmp/labels/talk_labeled.mp4".to_string())
    );
}

#[test]
fn label_output_file_keeps_the_given_name_as_mp4() {
    let mut fs = FakeFs::new(&[], &["/tmp"]);
    assert_eq!(label_path("/videos/talk.mov", Some("/tmp/out.mkv"), &mut fs), Ok("/tmp/out.mp4".to_string()));
}

#[test]
fn label_refuses_to_overwrite_the_source_video() {
    let mut fs = FakeFs::new(&["/d/talk.mp4"], &["/d"]);
    let err = label_path("/d/talk.mp4", Some("/d/talk.mp4"), &mut fs).unwrap_err();
    assert!(err.contains("Refusing to overwrite source"), "got: {}", err);
}

#[test]
fn label_output_auto_increments_on_collision() {
    let mut fs = FakeFs::new(&["/d/talk.mp4", "/d/talk_labeled.mp4"], &["/d"]);
    assert_eq!(label_path("/d/talk.mp4", None, &mut fs), Ok("/d/talk_labeled_1.mp4".to_string()));
}

#[test]
fn cut_no_output_resolves_to_source_stem_cut_mp4() {
    let mut fs = FakeFs::new(&[], &[]);
    assert_eq!(cut_path("/videos/talk.mp4", None, &mut fs), Ok("/videos/talk_cut.mp4".to_string()));
}

#[test]
fn cut_output_directory_resolves_inside() {
    let mut fs = FakeFs::new(&[], &["/tmp/cuts"]);
    assert_eq!(cut_path("/tmp/talk.mp4", Some("/tmp/cuts"), &mut fs), Ok("/tmp/cuts/talk_cut.mp4".to_string()));
}

#[test]
fn cut_output_directory_with_trailing_slash_resolves_as_dir() {
    let mut fs = FakeFs::new(&[], &["/tmp"]);
    assert_eq!(cut_path("/tmp/talk.mp4", Some("/tmp/slash/"), &mut fs), Ok("/tmp/slash/talk_cut.mp4".to_string()));
    assert!(fs.is_dir("/tmp/slash"), "directory should be created from trailing slash");
}

#[test]
fn cut_output_missing_dir_with_trailing_slash_creates() {
    let mut fs = FakeFs::new(&[], &[]);
    assert_eq!(cut_path("/tmp/talk.mp4", Some("/tmp/made/"), &mut fs), Ok("/tmp/made/talk_cut.mp4".to_string()));
    assert!(fs.is_dir("/tmp/made"));
}

#[test]
fn cut_output_file_path_used_directly() {
    let mut fs = FakeFs::new(&[], &["/d"]);
    assert_eq!(cut_path("/d/talk.mp4", Some("/d/clip.mp4"), &mut fs), Ok("/d/clip.mp4".to_string()));
}

#[test]
fn cut_output_refuses_to_overwrite_source() {
    let mut fs = FakeFs::new(&["/d/talk.mp4"], &["/d"]);
    let err = cut_path("/d/talk.mp4", Some("/d/talk.mp4"), &mut fs).unwrap_err();
    assert!(err.contains("Refusing to overwrite source video"), "got: {}", err);
}

#[test]
fn cut_output_force_mp4_extension() {
    let mut fs = FakeFs::new(&[], &["/d"]);
    assert_eq!(cut_path("/d/talk.mov", Some("/d/clip.mkv"), &mut fs), Ok("/d/clip.mp4".to_string()));
}

#[test]
fn cut_output_no_flag_yields_mp4_even_for_mov_source() {
    let mut fs = FakeFs::new(&[], &[]);
    assert_eq!(cut_path("/videos/talk.mov", None, &mut fs), Ok("/videos/talk_cut.mp4".to_string()));
}

#[test]
fn cut_output_auto_increments_on_collision() {
    let mut fs = FakeFs::new(&["/d/talk.mp4"], &["/d"]);
    let p1 = cut_path("/d/talk.mp4", None, &mut fs).unwrap();
    assert_eq!(p1, "/d/talk_cut.mp4");
    fs.files.push(p1);
    let p2 = cut_path("/d/talk.mp4", None, &mut fs).unwrap();
    assert_eq!(p2, "/d/talk_cut_1.mp4");
}

#[test]
fn cut_output_parent_not_exists_errors() {
    let output = "/nonexistent_dir/clip.mp4";
    let mut fs = FakeFs::new(&[], &[]);
    let msg = cut_path("/videos/talk.mp4", Some(output), &mut fs).unwrap_err();
    assert!(msg.contains("parent directory does not exist"), "got: {}", msg);
    assert!(msg.contains(output), "error must name the requested path, got: {}", msg);
}

#[test]
fn cut_output_existing_file_treated_as_file_not_dir() {
    let mut fs = FakeFs::new(&["/d/existing_file.mp4"], &["/d"]);
    assert_eq!(
        cut_path("/d/talk.mp4", Some("/d/existing_file.mp4"), &mut fs),
        Ok("/d/existing_file_1.mp4".to_string())
    );
}

// ---- further cases ----

#[test]
fn an_output_that_becomes_the_source_as_mp4_is_refused() {
    let mut fs = FakeFs::new(&["/d/talk.mp4"], &["/d"]);
    let err = cut_path("/d/talk.mp4", Some("/d/talk.mov"), &mut fs).unwrap_err();
    assert_eq!(err, "Refusing to overwrite source video: /d/talk.mp4");
}

#[test]
fn the_least_free_number_is_taken() {
    let mut fs = FakeFs::new(&["/d/talk.mp4", "/d/talk_cut.mp4", "/d/talk_cut_1.mp4", "/d/talk_cut_3.mp4"], &["/d"]);
    assert_eq!(cut_path("/d/talk.mp4", None, &mut fs), Ok("/d/talk_cut_2.mp4".to_string()));
}

#[test]
fn a_directory_that_cannot_be_created_is_reported() {
    let mut p = DerivedProgress { output_facts: Some((false, false)), directory: None, canonical: None, taken: Vec::new() };
    match resolve_cut_output_path("/d/talk.mp4", Some("/x/new/"), &p) {
        DerivedStep::CreateDirectory(d) => assert_eq!(d, "/x/new/"),
        _ => panic!("expected the directory to be created"),
    }
    p.directory = Some(Err("Failed to create output directory '/x/new/': denied".to_string()));
    match resolve_cut_output_path("/d/talk.mp4", Some("/x/new/"), &p) {
        DerivedStep::Done(r) => assert_eq!(r, Err("Failed to create output directory '/x/new/': denied".to_string())),
        _ => panic!("expected the resolution to end"),
    }
}

#[test]
fn first_free_candidate_probes_in_order() {
    assert!(matches!(first_free_candidate("/t/a.mp4", &vec![]), CollisionStep::Probe(c) if c == "/t/a.mp4"));
    assert!(matches!(first_free_candidate("/t/a.mp4", &vec![false]), CollisionStep::Use(c) if c == "/t/a.mp4"));
    assert!(matches!(first_free_candidate("/t/a.mp4", &vec![true, true]), CollisionStep::Probe(c) if c == "/t/a_2.mp4"));
    assert!(matches!(first_free_candidate("/t/a.mp4", &vec![true, false, false]), CollisionStep::Use(c) if c == "/t/a_1.mp4"));
    assert!(matches!(first_free_candidate("/", &vec![true]), CollisionStep::Unnamed));
}

#[test]
fn an_existing_directory_receives_the_derived_name() {
    let result = derived_output_target("/videos/talk.mp4", Some("/tmp/clips"), "cut", true, true).unwrap();
    assert_eq!(result, DerivedOutput::InDirectory("/tmp/clips".to_string(), "talk_cut.mp4".to_string()));
}

#[test]
fn a_bare_file_name_needs_no_parent() {
    let result = derived_output_target("talk.mp4", Some("clip.mov"), "cut", false, false).unwrap();
    assert_eq!(result, DerivedOutput::File("clip.mp4".to_string()));
    let result = derived_output_target("talk.mp4", None, "cut", false, false).unwrap();
    assert_eq!(result, DerivedOutput::File("talk_cut.mp4".to_string()));
}

#[test]
fn a_source_without_a_file_name_is_refused() {
    let msg = derived_output_target("/", None, "cut", false, false).unwrap_err();
    assert_eq!(msg, "Cannot determine source file name: /");
}

#[test]
fn the_source_video_is_never_overwritten() {
    let err = refuse_overwriting_source(
        "talk.mp4",
        &Some("/v/talk.mp4".to_string()),
        "/v/./talk.mp4",
        &Some("/v/talk.mp4".to_string()),
    )
    .unwrap_err();
    assert_eq!(err, "Refusing to overwrite source video: talk.mp4");
    assert!(refuse_overwriting_source("/v/talk.mp4", &None, "/v/talk_cut.mp4", &None).is_ok());
    assert!(refuse_overwriting_source("/v/talk.mp4", &None, "/v/talk.mp4", &None).is_err());
}

#[test]
fn paths_are_compared_component_by_component() {
    assert!(refuse_overwriting_source("/videos/talk.mp4", &None, "/videos//talk.mp4", &None).is_err());
    assert!(refuse_overwriting_source("/videos/talk.mp4", &None, "/videos/./talk.mp4", &None).is_err());
}

#[test]
fn collision_candidates_number_the_stem() {
    assert_eq!(avoid_collision("/tmp/test.mp4", 0), Some("/tmp/test.mp4".to_string()));
    assert_eq!(avoid_collision("/tmp/test.mp4", 1), Some("/tmp/test_1.mp4".to_string()));
    assert_eq!(avoid_collision("/tmp/test.mp4", 12), Some("/tmp/test_12.mp4".to_string()));
    assert_eq!(avoid_collision("/tmp/noext", 2), Some("/tmp/noext_2".to_string()));
    assert_eq!(avoid_collision("/", 0), Some("/".to_string()));
    assert_eq!(avoid_collision("/", 1), None);
}

#[test]
fn segment_patterns_need_a_file_stem() {
    assert_eq!(try_segment_ffmpeg_pattern("/"), None);
    assert_eq!(try_segment_display_pattern("/"), None);
    assert_eq!(
        try_segment_display_pattern("rec.mp4"),
        Some("rec_seg*.mp4".to_string())
    );
}

#[test]
fn years_are_padded_to_four_digits() {
    let config = OutputConfig::new("out".to_string(), "cap".to_string());
    let ts = Timestamp { year: 987, month: 1, day: 2, hour: 3, minute: 4, second: 5 };
    assert_eq!(generate_filename(&config, &ts), "out/cap_0987-01-02_03-04-05.mp4");
    let ts = Timestamp { year: 12345, month: 12, day: 31, hour: 23, minute: 59, second: 59 };
    assert_eq!(generate_filename(&config, &ts), "out/cap_+12345-12-31_23-59-59.mp4");
    let ts = Timestamp { year: -5, month: 1, day: 1, hour: 0, minute: 0, second: 0 };
    assert_eq!(generate_filename(&config, &ts), "out/cap_-0005-01-01_00-00-00.mp4");
}

#[test]
fn only_real_dates_and_times_are_valid_timestamps() {
    let at = |year: i32, month: u32, day: u32, hour: u32, minute: u32, second: u32| Timestamp { year, month, day, hour, minute, second };
    assert!(at(2024, 2, 29, 0, 0, 0).is_valid());
    assert!(!at(2025, 2, 29, 0, 0, 0).is_valid());
    assert!(at(2000, 2, 29, 12, 0, 0).is_valid());
    assert!(!at(1900, 2, 29, 12, 0, 0).is_valid());
    assert!(!at(2026, 4, 31, 12, 0, 0).is_valid());
    assert!(at(2026, 12, 31, 23, 59, 59).is_valid());
    assert!(!at(2026, 12, 31, 24, 0, 0).is_valid());
    assert!(!at(2026, 12, 31, 23, 60, 0).is_valid());
    assert!(!at(2026, 12, 31, 23, 59, 60).is_valid());
    assert!(!at(2026, 0, 1, 0, 0, 0).is_valid());
    assert!(!at(2026, 13, 1, 0, 0, 0).is_valid());
    assert!(!at(262143, 1, 1, 0, 0, 0).is_valid());
    assert!(at(-262143, 1, 1, 0, 0, 0).is_valid());
}

#[test]
fn segment_names_extend_the_capture_name() {
    let single = generate_filename(&test_config(), &fixed_timestamp());
    let segment = generate_segment_filename(&test_config(), &fixed_timestamp(), 7);
    assert_eq!(single.trim_end_matches(".mp4").to_string() + "_seg007.mp4", segment);
    let pattern = segment_ffmpeg_pattern(&single);
    assert_eq!(pattern.replace("%03d", "007"), segment);
}

#[test]
fn an_output_directory_is_used_created_or_refused() {
    assert_eq!(output_directory_step("rec", true, true), DirectoryStep::Use);
    assert_eq!(output_directory_step("rec", false, false), DirectoryStep::Create);
    assert_eq!(
        output_directory_step("notes.txt", true, false),
        DirectoryStep::Refuse("Output path exists but is not a directory: notes.txt".to_string())
    );
    assert_eq!(
        directory_creation_error("/blocker/child", "Not a directory (os error 20)"),
        "Failed to create output directory '/blocker/child': Not a directory (os error 20)"
    );
}
