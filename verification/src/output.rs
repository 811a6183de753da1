//! Output naming: timestamped capture filenames, segment patterns, the
//! path a cut or a label pass writes to, and collision-free variants.
//!
//! Paths are held as strings. Splitting a path into its parent, stem and
//! extension, and joining paths, is left to `std::path`, whose results are
//! named by the spec functions below.

use crate::text::{decimal, push_decimal, push_padded, push_str, string_from, zero_padded};
use vstd::prelude::*;

verus! {

/// Base file name (without extension) used for every capture session.
pub const BASE_NAME: &'static str = "vidcapture";

/// Where captures go and what they are called.
#[derive(Debug, Clone, PartialEq, Eq)]
pub struct OutputConfig {
    pub directory: String,
    pub base_name: String,
}

impl OutputConfig {
    pub fn new(directory: String, base_name: String) -> (r: Self)
        ensures
            r.directory@ == directory@,
            r.base_name@ == base_name@,
    {
        Self { directory, base_name }
    }
}

// ---------------------------------------------------------------------------
// Paths
// ---------------------------------------------------------------------------

/// What `Path::parent` gives for the path `p`.
pub uninterp spec fn path_parent(p: Seq<char>) -> Option<Seq<char>>;

/// What `Path::file_stem` gives for the path `p`.
pub uninterp spec fn path_file_stem(p: Seq<char>) -> Option<Seq<char>>;

/// What `Path::extension` gives for the path `p`.
pub uninterp spec fn path_extension(p: Seq<char>) -> Option<Seq<char>>;

/// What `Path::join` gives for `base` joined with `name`.
pub uninterp spec fn path_join(base: Seq<char>, name: Seq<char>) -> Seq<char>;

/// What `PathBuf::set_extension` leaves of `p` given the extension `ext`.
pub uninterp spec fn path_with_extension(p: Seq<char>, ext: Seq<char>) -> Seq<char>;

/// What `Path`'s `==` says of two paths: whether they have the same
/// components, so that `a//b` and `a/./b` name the same path as `a/b`.
pub uninterp spec fn path_eq(a: Seq<char>, b: Seq<char>) -> bool;

/// The characters of an optional string.
pub open spec fn opt_view(s: Option<String>) -> Option<Seq<char>> {
    match s {
        Some(t) => Some(t@),
        None => None,
    }
}

/// The parent directory of `p`.
///
/// Trusted: wraps `Path::parent`; its result is a function of the path's
/// text alone and is named by [`path_parent`].
#[verifier::external_body]
pub(crate) fn parent_of(p: &str) -> (r: Option<String>)
    ensures
        opt_view(r) == path_parent(p@),
{
    std::path::Path::new(p).parent().map(|q| q.to_string_lossy().into_owned())
}

/// The file name of `p` without its extension.
///
/// Trusted: wraps `Path::file_stem`, named by [`path_file_stem`].
#[verifier::external_body]
pub(crate) fn file_stem_of(p: &str) -> (r: Option<String>)
    ensures
        opt_view(r) == path_file_stem(p@),
{
    std::path::Path::new(p).file_stem().map(|q| q.to_string_lossy().into_owned())
}

/// The extension of `p`.
///
/// Trusted: wraps `Path::extension`, named by [`path_extension`].
#[verifier::external_body]
pub(crate) fn extension_of(p: &str) -> (r: Option<String>)
    ensures
        opt_view(r) == path_extension(p@),
{
    std::path::Path::new(p).extension().map(|q| q.to_string_lossy().into_owned())
}

/// `base` joined with `name`.
///
/// Trusted: wraps `Path::join`, named by [`path_join`].
#[verifier::external_body]
pub(crate) fn join_path(base: &str, name: &str) -> (r: String)
    ensures
        r@ == path_join(base@, name@),
{
    std::path::Path::new(base).join(name).to_string_lossy().into_owned()
}

/// `p` with its extension replaced by `ext`.
///
/// Trusted: wraps `PathBuf::set_extension`, named by
/// [`path_with_extension`]. That call panics on an extension holding a path
/// separator, so such an extension is ruled out.
#[verifier::external_body]
pub(crate) fn with_extension(p: &str, ext: &str) -> (r: String)
    requires
        !ext@.contains('/'),
        !ext@.contains('\\'),
    ensures
        r@ == path_with_extension(p@, ext@),
{
    let mut q = std::path::PathBuf::from(p);
    q.set_extension(ext);
    q.to_string_lossy().into_owned()
}

/// Whether `a` and `b` are the same path.
///
/// Trusted: wraps `Path`'s `==`, which compares the paths component by
/// component; named by [`path_eq`].
#[verifier::external_body]
pub(crate) fn paths_equal(a: &str, b: &str) -> (r: bool)
    ensures
        r == path_eq(a@, b@),
{
    std::path::Path::new(a) == std::path::Path::new(b)
}

/// The parent directory of `p`, or `.` where it has none.
pub open spec fn parent_or_dot(p: Seq<char>) -> Seq<char> {
    match path_parent(p) {
        Some(q) => q,
        None => "."@,
    }
}

fn parent_or_dot_of(p: &str) -> (r: String)
    ensures
        r@ == parent_or_dot(p@),
{
    match parent_of(p) {
        Some(q) => q,
        None => String::from_str("."),
    }
}

// ---------------------------------------------------------------------------
// Output directories
// ---------------------------------------------------------------------------

/// What preparing an output directory does, given what the file system
/// holds at its path.
#[derive(Debug, Clone, PartialEq, Eq)]
pub enum DirectoryStep {
    /// A directory is there: use it.
    Use,
    /// Nothing is there: create it, with any missing parents.
    Create,
    /// Something other than a directory is there: refuse, with this message.
    Refuse(String),
}

/// Decides what to do with the output directory `path`, given whether
/// something exists there and whether it is a directory. Every message
/// names the path, so the user knows which `-o` value is unusable.
pub fn output_directory_step(path: &str, exists: bool, is_dir: bool) -> (r: DirectoryStep)
    ensures
        !exists ==> r is Create,
        exists && is_dir ==> r is Use,
        exists && !is_dir ==> (r matches DirectoryStep::Refuse(m) && m@
            == "Output path exists but is not a directory: "@ + path@),
{
    if !exists {
        DirectoryStep::Create
    } else if is_dir {
        DirectoryStep::Use
    } else {
        let mut m = String::from_str("Output path exists but is not a directory: ");
        m.append(path);
        DirectoryStep::Refuse(m)
    }
}

/// The error of an output directory that could not be created: the path,
/// and the reason the system gave.
pub fn directory_creation_error(path: &str, reason: &str) -> (r: String)
    ensures
        r@ == "Failed to create output directory '"@ + path@ + "': "@ + reason@,
{
    let mut m = String::from_str("Failed to create output directory '");
    m.append(path);
    m.append("': ");
    m.append(reason);
    m
}

// ---------------------------------------------------------------------------
// Capture filenames
// ---------------------------------------------------------------------------

/// A wall-clock time as its calendar fields.
#[derive(Debug, Clone, Copy, PartialEq, Eq, Structural)]
pub struct Timestamp {
    pub year: i32,
    pub month: u32,
    pub day: u32,
    pub hour: u32,
    pub minute: u32,
    pub second: u32,
}

/// Whether `year` is a leap year of the proleptic Gregorian calendar.
pub open spec fn is_leap_year(year: int) -> bool {
    year % 4 == 0 && (year % 100 != 0 || year % 400 == 0)
}

/// The number of days of `month` (1 to 12) in `year`.
pub open spec fn days_in_month(year: int, month: nat) -> nat {
    if month == 2 {
        if is_leap_year(year) {
            29
        } else {
            28
        }
    } else if month == 4 || month == 6 || month == 9 || month == 11 {
        30
    } else {
        31
    }
}

/// Whether `t` is a real date and time of day that chrono can hold: a year
/// within chrono's range, a day that exists in its month, and an hour,
/// minute and second on the clock (no leap second).
pub open spec fn valid_timestamp(t: Timestamp) -> bool {
    &&& -262143 <= t.year <= 262142
    &&& 1 <= t.month <= 12
    &&& 1 <= t.day <= days_in_month(t.year as int, t.month as nat)
    &&& t.hour < 24
    &&& t.minute < 60
    &&& t.second < 60
}

impl Timestamp {
    /// Whether this is a date and time of day chrono can format (see
    /// [`valid_timestamp`]).
    pub fn is_valid(&self) -> (r: bool)
        ensures
            r == valid_timestamp(*self),
    {
        let leap = self.year % 4 == 0 && (self.year % 100 != 0 || self.year % 400 == 0);
        proof {
            let y = self.year as int;
            assert(leap == is_leap_year(y)) by {
                assert((self.year % 4 == 0) == (y % 4 == 0));
                assert((self.year % 100 == 0) == (y % 100 == 0));
                assert((self.year % 400 == 0) == (y % 400 == 0));
            }
        }
        let days: u32 = if self.month == 2 {
            if leap {
                29
            } else {
                28
            }
        } else if self.month == 4 || self.month == 6 || self.month == 9 || self.month == 11 {
            30
        } else {
            31
        };
        -262143 <= self.year && self.year <= 262142 && 1 <= self.month && self.month <= 12 && 1
            <= self.day && self.day <= days && self.hour < 24 && self.minute < 60 && self.second
            < 60
    }
}

/// What chrono writes for a date and time under `%Y-%m-%d_%H-%M-%S`.
pub uninterp spec fn chrono_timestamp_text(
    year: int,
    month: nat,
    day: nat,
    hour: nat,
    minute: nat,
    second: nat,
) -> Seq<char>;

/// `t` as `%Y-%m-%d_%H-%M-%S` writes it.
pub open spec fn timestamp_text(t: Timestamp) -> Seq<char> {
    chrono_timestamp_text(
        t.year as int,
        t.month as nat,
        t.day as nat,
        t.hour as nat,
        t.minute as nat,
        t.second as nat,
    )
}

/// `t` written as `%Y-%m-%d_%H-%M-%S`.
///
/// Trusted: wraps chrono's `NaiveDate::from_ymd_opt`, `NaiveDate::and_hms_opt`
/// and `NaiveDateTime::format`. The two constructors give a value for every
/// valid timestamp (chrono returns `None` only out of its year range, on a
/// day the month does not have, or off the clock), so neither unwrap can
/// fail. The text is named by [`chrono_timestamp_text`] over the fields.
#[verifier::external_body]
fn format_timestamp(t: &Timestamp) -> (r: String)
    requires
        valid_timestamp(*t),
    ensures
        r@ == chrono_timestamp_text(
            t.year as int,
            t.month as nat,
            t.day as nat,
            t.hour as nat,
            t.minute as nat,
            t.second as nat,
        ),
{
    let date = chrono::NaiveDate::from_ymd_opt(t.year, t.month, t.day).unwrap();
    let time = date.and_hms_opt(t.hour, t.minute, t.second).unwrap();
    time.format("%Y-%m-%d_%H-%M-%S").to_string()
}

/// The file name of a single-segment capture:
/// `{base_name}_{YYYY-MM-DD_HH-MM-SS}.mp4`.
pub open spec fn capture_file_name(base: Seq<char>, t: Timestamp) -> Seq<char> {
    base + seq!['_'] + timestamp_text(t) + ".mp4"@
}

/// The file name of one interval-mode segment:
/// `{base_name}_{YYYY-MM-DD_HH-MM-SS}_seg{NNN}.mp4`.
pub open spec fn segment_file_name_at(base: Seq<char>, t: Timestamp, n: nat) -> Seq<char> {
    base + seq!['_'] + timestamp_text(t) + "_seg"@ + zero_padded(n, 3) + ".mp4"@
}

/// Generates the timestamped filename of a single-segment capture session
/// inside the configured directory.
pub fn generate_filename(config: &OutputConfig, timestamp: &Timestamp) -> (r: String)
    requires
        valid_timestamp(*timestamp),
    ensures
        r@ == path_join(config.directory@, capture_file_name(config.base_name@, *timestamp)),
{
    let mut name: Vec<char> = Vec::new();
    push_str(&mut name, config.base_name.as_str());
    name.push('_');
    push_str(&mut name, format_timestamp(timestamp).as_str());
    push_str(&mut name, ".mp4");
    assert(name@ =~= capture_file_name(config.base_name@, *timestamp));
    let name = string_from(&name);
    join_path(config.directory.as_str(), name.as_str())
}

/// Generates the filename of segment `segment_number` of an interval-mode
/// capture session inside the configured directory.
pub fn generate_segment_filename(
    config: &OutputConfig,
    timestamp: &Timestamp,
    segment_number: u32,
) -> (r: String)
    requires
        valid_timestamp(*timestamp),
    ensures
        r@ == path_join(
            config.directory@,
            segment_file_name_at(config.base_name@, *timestamp, segment_number as nat),
        ),
{
    let mut name: Vec<char> = Vec::new();
    push_str(&mut name, config.base_name.as_str());
    name.push('_');
    push_str(&mut name, format_timestamp(timestamp).as_str());
    push_str(&mut name, "_seg");
    push_padded(&mut name, segment_number as u64, 3);
    push_str(&mut name, ".mp4");
    assert(name@ =~= segment_file_name_at(config.base_name@, *timestamp, segment_number as nat));
    let name = string_from(&name);
    join_path(config.directory.as_str(), name.as_str())
}

/// Segment files are named after the capture they split: with the stem
/// `{base_name}_{timestamp}`, a single-segment capture is `stem.mp4`, and
/// segment `n` is what the segment muxer's `_seg%03d` marker gives for `n`:
/// `stem_seg{NNN}.mp4`.
pub proof fn lemma_segment_names_extend_the_capture_name(base: Seq<char>, t: Timestamp, n: nat)
    ensures
        capture_file_name(base, t) == marked_name(
            base + seq!['_'] + timestamp_text(t),
            Seq::empty(),
            Some("mp4"@),
        ),
        segment_file_name_at(base, t, n) == marked_name(
            base + seq!['_'] + timestamp_text(t),
            "_seg"@ + zero_padded(n, 3),
            Some("mp4"@),
        ),
{
    reveal_strlit(".mp4");
    reveal_strlit("mp4");
    assert(capture_file_name(base, t) =~= marked_name(
        base + seq!['_'] + timestamp_text(t),
        Seq::empty(),
        Some("mp4"@),
    ));
    assert(segment_file_name_at(base, t, n) =~= marked_name(
        base + seq!['_'] + timestamp_text(t),
        "_seg"@ + zero_padded(n, 3),
        Some("mp4"@),
    ));
}

// ---------------------------------------------------------------------------
// Segment patterns
// ---------------------------------------------------------------------------

/// `stem` followed by `marker`, then `.ext` where there is an extension.
pub open spec fn marked_name(stem: Seq<char>, marker: Seq<char>, ext: Option<Seq<char>>) -> Seq<
    char,
> {
    match ext {
        Some(e) => stem + marker + seq!['.'] + e,
        None => stem + marker,
    }
}

/// The file name `stem` + `marker` + `.ext`.
pub fn marked_file_name(stem: &str, marker: &str, ext: &Option<String>) -> (r: String)
    ensures
        r@ == marked_name(stem@, marker@, opt_view(*ext)),
{
    let mut name: Vec<char> = Vec::new();
    push_str(&mut name, stem);
    push_str(&mut name, marker);
    match ext {
        Some(e) => {
            name.push('.');
            push_str(&mut name, e.as_str());
        },
        None => {},
    }
    string_from(&name)
}

/// The segment-muxer pattern for a base path: its file stem followed by
/// `_seg%03d`, its extension kept, inside its parent directory.
pub open spec fn segment_pattern(base: Seq<char>, marker: Seq<char>) -> Seq<char>
    recommends
        path_file_stem(base) is Some,
{
    path_join(
        parent_or_dot(base),
        marked_name(path_file_stem(base)->0, marker, path_extension(base)),
    )
}

fn marked_path(base_path: &str, marker: &str) -> (r: String)
    requires
        path_file_stem(base_path@) is Some,
    ensures
        r@ == segment_pattern(base_path@, marker@),
{
    let parent = parent_or_dot_of(base_path);
    let stem = match file_stem_of(base_path) {
        Some(s) => s,
        None => {
            assert(false);
            String::new()
        },
    };
    let ext = extension_of(base_path);
    let name = marked_file_name(stem.as_str(), marker, &ext);
    join_path(parent.as_str(), name.as_str())
}

/// Builds the ffmpeg segment-muxer output pattern from a base filename:
/// `vidcapture_2026-05-28_14-30-00.mp4` gives
/// `vidcapture_2026-05-28_14-30-00_seg%03d.mp4`. ffmpeg substitutes the
/// 0-padded segment number for `%03d` at runtime.
pub fn segment_ffmpeg_pattern(base_path: &str) -> (r: String)
    requires
        path_file_stem(base_path@) is Some,
    ensures
        r@ == segment_pattern(base_path@, "_seg%03d"@),
{
    marked_path(base_path, "_seg%03d")
}

/// Builds the path shown to the user for a segment-mode capture session,
/// with a shell glob in place of the printf placeholder:
/// `vidcapture_2026-05-28_14-30-00.mp4` gives
/// `vidcapture_2026-05-28_14-30-00_seg*.mp4`.
pub fn segment_display_pattern(base_path: &str) -> (r: String)
    requires
        path_file_stem(base_path@) is Some,
    ensures
        r@ == segment_pattern(base_path@, "_seg*"@),
{
    marked_path(base_path, "_seg*")
}

/// [`segment_ffmpeg_pattern`] where the path has a file stem; `None` where
/// it has none.
pub fn try_segment_ffmpeg_pattern(base_path: &str) -> (r: Option<String>)
    ensures
        r is Some <==> path_file_stem(base_path@) is Some,
        r matches Some(p) ==> p@ == segment_pattern(base_path@, "_seg%03d"@),
{
    match file_stem_of(base_path) {
        Some(_) => Some(segment_ffmpeg_pattern(base_path)),
        None => None,
    }
}

/// [`segment_display_pattern`] where the path has a file stem; `None` where
/// it has none.
pub fn try_segment_display_pattern(base_path: &str) -> (r: Option<String>)
    ensures
        r is Some <==> path_file_stem(base_path@) is Some,
        r matches Some(p) ==> p@ == segment_pattern(base_path@, "_seg*"@),
{
    match file_stem_of(base_path) {
        Some(_) => Some(segment_display_pattern(base_path)),
        None => None,
    }
}

// ---------------------------------------------------------------------------
// Collision-free names
// ---------------------------------------------------------------------------

/// The candidate path number `n` (from 1) tried when `path` already exists:
/// `_n` appended to its stem, its extension kept, inside its parent.
pub open spec fn collision_candidate_path(path: Seq<char>, n: nat) -> Seq<char>
    recommends
        path_file_stem(path) is Some,
{
    segment_pattern(path, seq!['_'] + decimal(n))
}

/// Builds the path tried as the `n`th alternative to an existing `path`:
/// `test.mp4` gives `test_1.mp4`, `test_2.mp4`, and so on.
pub fn collision_candidate(path: &str, n: u64) -> (r: String)
    requires
        path_file_stem(path@) is Some,
    ensures
        r@ == collision_candidate_path(path@, n as nat),
{
    let mut marker: Vec<char> = Vec::new();
    marker.push('_');
    push_decimal(&mut marker, n);
    let marker = string_from(&marker);
    marked_path(path, marker.as_str())
}

/// The path tried at `attempt` when looking for a name that is not taken:
/// the path itself first (`attempt` 0), then the [`collision_candidate`]
/// numbered `attempt`. `None` where a numbered candidate is asked for but the
/// path has no file stem to number.
pub fn avoid_collision(path: &str, attempt: u64) -> (r: Option<String>)
    ensures
        r is Some <==> (attempt == 0 || path_file_stem(path@) is Some),
        r matches Some(p) ==> p@ == (if attempt == 0 {
            path@
        } else {
            collision_candidate_path(path@, attempt as nat)
        }),
{
    if attempt == 0 {
        return Some(String::from_str(path));
    }
    match file_stem_of(path) {
        Some(_) => Some(collision_candidate(path, attempt)),
        None => None,
    }
}

// ---------------------------------------------------------------------------
// Derived videos (cut, label)
// ---------------------------------------------------------------------------

/// The name a derived video gets by default: `<source-stem>_<suffix>.mp4`.
pub open spec fn derived_name(stem: Seq<char>, suffix: Seq<char>) -> Seq<char> {
    stem + seq!['_'] + suffix + ".mp4"@
}

/// Where a derived video goes, before the file system is touched.
#[derive(Debug, Clone, PartialEq, Eq)]
pub enum DerivedOutput {
    /// Write to this file.
    File(String),
    /// Write a file of this name inside this directory, which is created
    /// where it is missing.
    InDirectory(String, String),
}

/// What a derived output is, as values.
pub enum DerivedOutputView {
    File(Seq<char>),
    InDirectory(Seq<char>, Seq<char>),
}

impl View for DerivedOutput {
    type V = DerivedOutputView;

    open spec fn view(&self) -> DerivedOutputView {
        match self {
            DerivedOutput::File(p) => DerivedOutputView::File(p@),
            DerivedOutput::InDirectory(d, n) => DerivedOutputView::InDirectory(d@, n@),
        }
    }
}

/// The parent of `p`, unless it is empty.
pub open spec fn nonempty_parent(p: Seq<char>) -> Option<Seq<char>> {
    match path_parent(p) {
        Some(q) => if q.len() == 0 {
            None
        } else {
            Some(q)
        },
        None => None,
    }
}

/// Where a derived video of `source` goes, given the `-o` value `output`;
/// `output_is_dir` says whether `output` names an existing directory and
/// `parent_exists` whether its parent exists. `None` where the source has no
/// file name, or where `output` is a file whose parent is missing.
pub open spec fn derived_output(
    source: Seq<char>,
    output: Option<Seq<char>>,
    suffix: Seq<char>,
    output_is_dir: bool,
    parent_exists: bool,
) -> Option<DerivedOutputView> {
    match path_file_stem(source) {
        None => None,
        Some(stem) => match output {
            None => Some(
                DerivedOutputView::File(
                    path_join(parent_or_dot(source), derived_name(stem, suffix)),
                ),
            ),
            Some(path) => if output_is_dir || (path.len() > 0 && path.last() == '/') {
                Some(DerivedOutputView::InDirectory(path, derived_name(stem, suffix)))
            } else if nonempty_parent(path) is Some && !parent_exists {
                None
            } else {
                Some(DerivedOutputView::File(path_with_extension(path, "mp4"@)))
            },
        },
    }
}

/// Why no derived output could be decided: the source has no file name, or
/// the output file's parent directory is missing.
pub open spec fn derived_output_error(source: Seq<char>, output: Option<Seq<char>>) -> Seq<char> {
    match (path_file_stem(source), output) {
        (Some(_), Some(path)) => "Output path parent directory does not exist: "@ + path,
        _ => "Cannot determine source file name: "@ + source,
    }
}

/// Decides where a command that derives a new video from `source` writes it,
/// naming it `<source-stem>_<suffix>.mp4` by default.
///
/// - No output: `<source-stem>_<suffix>.mp4` beside the source.
/// - Output is a directory (an existing one, or one written with a trailing
///   `/`): `<source-stem>_<suffix>.mp4` inside it.
/// - Output is a file path: used directly, with the extension `.mp4`; its
///   parent (`parent_exists`) must exist.
pub fn derived_output_target(
    source: &str,
    output: Option<&str>,
    suffix: &str,
    output_is_dir: bool,
    parent_exists: bool,
) -> (r: Result<DerivedOutput, String>)
    ensures
        match r {
            Ok(d) => derived_output(
                source@,
                match output {
                    Some(o) => Some(o@),
                    None => None,
                },
                suffix@,
                output_is_dir,
                parent_exists,
            ) == Some(d@),
            Err(e) => derived_output(
                source@,
                match output {
                    Some(o) => Some(o@),
                    None => None,
                },
                suffix@,
                output_is_dir,
                parent_exists,
            ) is None && e@ == derived_output_error(
                source@,
                match output {
                    Some(o) => Some(o@),
                    None => None,
                },
            ),
        },
{
    let stem = match file_stem_of(source) {
        Some(s) => s,
        None => {
            let mut m = String::from_str("Cannot determine source file name: ");
            m.append(source);
            return Err(m);
        },
    };
    let mut name: Vec<char> = Vec::new();
    push_str(&mut name, stem.as_str());
    name.push('_');
    push_str(&mut name, suffix);
    push_str(&mut name, ".mp4");
    assert(name@ =~= derived_name(stem@, suffix@));
    let name = string_from(&name);
    match output {
        None => {
            let dir = parent_or_dot_of(source);
            Ok(DerivedOutput::File(join_path(dir.as_str(), name.as_str())))
        },
        Some(path) => {
            let chars = crate::text::chars_of(path);
            let ends_with_slash = chars.len() > 0 && chars[chars.len() - 1] == '/';
            assert(ends_with_slash == (path@.len() > 0 && path@.last() == '/'));
            if output_is_dir || ends_with_slash {
                Ok(DerivedOutput::InDirectory(String::from_str(path), name))
            } else {
                let has_parent = match parent_of(path) {
                    Some(p) => crate::text::chars_of(p.as_str()).len() > 0,
                    None => false,
                };
                assert(has_parent == (nonempty_parent(path@) is Some));
                if has_parent && !parent_exists {
                    let mut m = String::from_str("Output path parent directory does not exist: ");
                    m.append(path);
                    return Err(m);
                }
                proof {
                    reveal_strlit("mp4");
                    assert(!"mp4"@.contains('/'));
                    assert(!"mp4"@.contains('\\'));
                }
                Ok(DerivedOutput::File(with_extension(path, "mp4")))
            }
        },
    }
}

/// What the file system holds at a source path.
#[derive(Debug, Clone, Copy, PartialEq, Eq, Structural)]
pub enum SourceKind {
    /// Nothing.
    Missing,
    /// Something other than a file, such as a directory.
    NotAFile,
    /// A file.
    File,
}

/// The path compared in place of `p`: its canonical form where one could be
/// found, else `p` as given.
pub open spec fn canonical_or(canonical: Option<Seq<char>>, p: Seq<char>) -> Seq<char> {
    match canonical {
        Some(c) => c,
        None => p,
    }
}

/// Refuses a derived output that is the source video itself. Each path is
/// compared in its canonical form where one could be found, else as given,
/// and the two are compared as paths, component by component.
pub fn refuse_overwriting_source(
    source: &str,
    canonical_source: &Option<String>,
    output: &str,
    canonical_output: &Option<String>,
) -> (r: Result<(), String>)
    ensures
        r is Err <==> path_eq(
            canonical_or(opt_view(*canonical_source), source@),
            canonical_or(opt_view(*canonical_output), output@),
        ),
        r matches Err(e) ==> e@ == "Refusing to overwrite source video: "@ + source@,
{
    let s = match canonical_source {
        Some(c) => c.as_str(),
        None => source,
    };
    let o = match canonical_output {
        Some(c) => c.as_str(),
        None => output,
    };
    if paths_equal(s, o) {
        let mut m = String::from_str("Refusing to overwrite source video: ");
        m.append(source);
        Err(m)
    } else {
        Ok(())
    }
}

// ---------------------------------------------------------------------------
// The first free name
// ---------------------------------------------------------------------------

/// The least attempt not taken, where there is one.
pub open spec fn first_untaken_from(taken: Seq<bool>, i: int) -> Option<nat>
    decreases taken.len() - i,
{
    if i < 0 || i >= taken.len() {
        None
    } else if !taken[i] {
        Some(i as nat)
    } else {
        first_untaken_from(taken, i + 1)
    }
}

/// The least attempt whose candidate is not taken, among those probed.
pub open spec fn first_untaken(taken: Seq<bool>) -> Option<nat> {
    first_untaken_from(taken, 0)
}

/// The candidate tried at attempt `k`: the path itself, then the numbered
/// [`collision_candidate_path`]s; `None` where a number is needed but the
/// path has no file stem.
pub open spec fn candidate_at(path: Seq<char>, k: nat) -> Option<Seq<char>> {
    if k == 0 {
        Some(path)
    } else if path_file_stem(path) is Some {
        Some(collision_candidate_path(path, k))
    } else {
        None
    }
}

/// What looking for a free name does next.
pub enum CollisionStep {
    /// This candidate is free: use it.
    Use(String),
    /// Find out whether this candidate is taken.
    Probe(String),
    /// A number is needed, but the path has no file stem to number.
    Unnamed,
}

/// The view of a collision step.
pub enum CollisionStepView {
    Use(Seq<char>),
    Probe(Seq<char>),
    Unnamed,
}

impl View for CollisionStep {
    type V = CollisionStepView;

    open spec fn view(&self) -> CollisionStepView {
        match self {
            CollisionStep::Use(p) => CollisionStepView::Use(p@),
            CollisionStep::Probe(p) => CollisionStepView::Probe(p@),
            CollisionStep::Unnamed => CollisionStepView::Unnamed,
        }
    }
}

/// The step of the search for a free name, where `taken[k]` says whether
/// the candidate of attempt `k` is taken.
pub open spec fn collision_step(path: Seq<char>, taken: Seq<bool>) -> CollisionStepView {
    match first_untaken(taken) {
        Some(k) => match candidate_at(path, k) {
            Some(c) => CollisionStepView::Use(c),
            None => CollisionStepView::Unnamed,
        },
        None => match candidate_at(path, taken.len()) {
            Some(c) => CollisionStepView::Probe(c),
            None => CollisionStepView::Unnamed,
        },
    }
}

/// Looks for the first free name for `path`, given which candidates were
/// found taken so far (`taken[k]` for attempt `k`, see [`avoid_collision`]):
/// the least candidate not taken, or the next candidate to probe where all
/// those probed are taken. So an existing `test.mp4` gives `test_1.mp4`, and
/// `test_2.mp4` where `test_1.mp4` exists too.
pub fn first_free_candidate(path: &str, taken: &Vec<bool>) -> (r: CollisionStep)
    ensures
        r@ == collision_step(path@, taken@),
{
    let mut i: usize = 0;
    while i < taken.len() && taken[i]
        invariant
            i <= taken.len(),
            first_untaken(taken@) == first_untaken_from(taken@, i as int),
        decreases taken.len() - i,
    {
        i = i + 1;
    }
    assert(first_untaken(taken@) == if i < taken.len() {
        Some(i as nat)
    } else {
        None::<nat>
    });
    match avoid_collision(path, i as u64) {
        Some(c) => {
            if i < taken.len() {
                CollisionStep::Use(c)
            } else {
                CollisionStep::Probe(c)
            }
        },
        None => CollisionStep::Unnamed,
    }
}

// ---------------------------------------------------------------------------
// Resolving a derived output on the file system
// ---------------------------------------------------------------------------

/// What resolving a derived output has found out of the file system so far.
pub struct DerivedProgress {
    /// Whether `-o` names an existing directory, and whether the parent of
    /// `-o` exists; read only where there is a `-o`.
    pub output_facts: Option<(bool, bool)>,
    /// How creating the output directory went, where one is needed.
    pub directory: Option<Result<(), String>>,
    /// The canonical forms of the source and of the target, where they could
    /// be found.
    pub canonical: Option<(Option<String>, Option<String>)>,
    /// For each candidate name probed so far (see [`avoid_collision`]),
    /// whether a file of that name exists.
    pub taken: Vec<bool>,
}

/// The step resolving a derived output takes next.
pub enum DerivedStep {
    /// Find out whether `-o` is an existing directory and whether its parent
    /// exists.
    InspectOutput,
    /// Create this output directory, where missing.
    CreateDirectory(String),
    /// Find the canonical forms of the source and of this target.
    Canonicalize(String),
    /// Find out whether a file of this name exists.
    Probe(String),
    /// The path to write, or why there is none.
    Done(Result<String, String>),
}

/// The view of a derived-output step.
pub enum DerivedStepView {
    InspectOutput,
    CreateDirectory(Seq<char>),
    Canonicalize(Seq<char>),
    Probe(Seq<char>),
    Done(Result<Seq<char>, Seq<char>>),
}

impl View for DerivedStep {
    type V = DerivedStepView;

    open spec fn view(&self) -> DerivedStepView {
        match self {
            DerivedStep::InspectOutput => DerivedStepView::InspectOutput,
            DerivedStep::CreateDirectory(d) => DerivedStepView::CreateDirectory(d@),
            DerivedStep::Canonicalize(t) => DerivedStepView::Canonicalize(t@),
            DerivedStep::Probe(c) => DerivedStepView::Probe(c@),
            DerivedStep::Done(Ok(p)) => DerivedStepView::Done(Ok(p@)),
            DerivedStep::Done(Err(e)) => DerivedStepView::Done(Err(e@)),
        }
    }
}

/// The error given where a taken name would need a number but has no file
/// stem to number.
pub open spec fn unnamed_error(path: Seq<char>) -> Seq<char> {
    "Cannot number a path without a file name: "@ + path
}

/// Once the target is known: its canonical form is compared with the
/// source's, refusing to write over the source, and then the first free
/// name is looked for.
pub open spec fn after_target(
    source: Seq<char>,
    target: Seq<char>,
    p: DerivedProgress,
) -> DerivedStepView {
    match p.canonical {
        None => DerivedStepView::Canonicalize(target),
        Some((cs, co)) => if path_eq(
            canonical_or(opt_view(cs), source),
            canonical_or(opt_view(co), target),
        ) {
            DerivedStepView::Done(Err("Refusing to overwrite source video: "@ + source))
        } else {
            match collision_step(target, p.taken@) {
                CollisionStepView::Use(c) => DerivedStepView::Done(Ok(c)),
                CollisionStepView::Probe(c) => DerivedStepView::Probe(c),
                CollisionStepView::Unnamed => DerivedStepView::Done(Err(unnamed_error(target))),
            }
        },
    }
}

/// The next step of resolving where a video derived from `source` is
/// written: the target (see [`derived_output`]), the output directory it
/// needs, the refusal to overwrite the source, then the first free name.
pub open spec fn derived_step(
    source: Seq<char>,
    output: Option<Seq<char>>,
    suffix: Seq<char>,
    p: DerivedProgress,
) -> DerivedStepView {
    if output is Some && p.output_facts is None {
        DerivedStepView::InspectOutput
    } else {
        let (is_dir, parent_exists) = match p.output_facts {
            Some(f) => f,
            None => (false, false),
        };
        match derived_output(source, output, suffix, is_dir, parent_exists) {
            None => DerivedStepView::Done(Err(derived_output_error(source, output))),
            Some(DerivedOutputView::File(t)) => after_target(source, t, p),
            Some(DerivedOutputView::InDirectory(d, n)) => match p.directory {
                None => DerivedStepView::CreateDirectory(d),
                Some(Err(e)) => DerivedStepView::Done(Err(e@)),
                Some(Ok(())) => after_target(source, path_join(d, n), p),
            },
        }
    }
}

/// The target a derived output is resolved from, once the facts it needs are
/// in: the file [`derived_output`] names, or the name inside the directory
/// it names once that directory is there.
pub open spec fn settled_target(
    source: Seq<char>,
    output: Option<Seq<char>>,
    suffix: Seq<char>,
    p: DerivedProgress,
) -> Option<Seq<char>> {
    if output is Some && p.output_facts is None {
        None
    } else {
        let (is_dir, parent_exists) = match p.output_facts {
            Some(f) => f,
            None => (false, false),
        };
        match derived_output(source, output, suffix, is_dir, parent_exists) {
            Some(DerivedOutputView::File(t)) => Some(t),
            Some(DerivedOutputView::InDirectory(d, n)) => match p.directory {
                Some(Ok(())) => Some(path_join(d, n)),
                _ => None,
            },
            None => None,
        }
    }
}

/// The attempt [`first_untaken_from`] settles on was probed and found free,
/// and every attempt before it from `i` on was found taken.
pub proof fn lemma_first_untaken_is_the_least_free_attempt(taken: Seq<bool>, i: int)
    requires
        0 <= i,
    ensures
        first_untaken_from(taken, i) matches Some(k) ==> i <= k < taken.len() && !taken[k as int]
            && forall|j: int| i <= j < k ==> #[trigger] taken[j],
        first_untaken_from(taken, i) is None ==> forall|j: int|
            i <= j < taken.len() ==> #[trigger] taken[j],
    decreases taken.len() - i,
{
    if i < taken.len() && taken[i] {
        lemma_first_untaken_is_the_least_free_attempt(taken, i + 1);
    }
}

/// A derived output that resolving settles on is safe to write: its target
/// is not the source (their canonical forms, where found, differ as paths),
/// and the path is the candidate name of the target at the least attempt
/// that was probed and found free, every earlier candidate having been found
/// taken. Without `-o` the target is `<source-stem>_<suffix>.mp4` beside the
/// source (see [`derived_output`]), so the path is that name or its first
/// free numbered variant.
pub proof fn lemma_a_settled_output_is_free_and_not_the_source(
    source: Seq<char>,
    output: Option<Seq<char>>,
    suffix: Seq<char>,
    p: DerivedProgress,
    path: Seq<char>,
)
    requires
        derived_step(source, output, suffix, p) == DerivedStepView::Done(Ok(path)),
    ensures
        settled_target(source, output, suffix, p) is Some,
        p.canonical is Some,
        ({
            let (cs, co) = p.canonical->0;
            !path_eq(
                canonical_or(opt_view(cs), source),
                canonical_or(opt_view(co), settled_target(source, output, suffix, p)->0),
            )
        }),
        first_untaken(p.taken@) is Some,
        first_untaken(p.taken@)->0 < p.taken@.len(),
        !p.taken@[first_untaken(p.taken@)->0 as int],
        forall|j: int| 0 <= j < first_untaken(p.taken@)->0 ==> #[trigger] p.taken@[j],
        candidate_at(settled_target(source, output, suffix, p)->0, first_untaken(p.taken@)->0)
            == Some(path),
{
    lemma_first_untaken_is_the_least_free_attempt(p.taken@, 0);
}

/// Decides the next step of resolving where a video derived from `source`
/// is written, named `<source-stem>_<suffix>.mp4` by default.
pub fn resolve_derived_output(
    source: &str,
    output: Option<&str>,
    suffix: &str,
    progress: &DerivedProgress,
) -> (r: DerivedStep)
    ensures
        r@ == derived_step(
            source@,
            match output {
                Some(o) => Some(o@),
                None => None,
            },
            suffix@,
            *progress,
        ),
{
    let (is_dir, parent_exists) = match progress.output_facts {
        Some(f) => f,
        None => {
            if output.is_some() {
                return DerivedStep::InspectOutput;
            }
            (false, false)
        },
    };
    let target = match derived_output_target(source, output, suffix, is_dir, parent_exists) {
        Err(e) => return DerivedStep::Done(Err(e)),
        Ok(DerivedOutput::File(t)) => t,
        Ok(DerivedOutput::InDirectory(d, n)) => match &progress.directory {
            None => return DerivedStep::CreateDirectory(d),
            Some(Err(e)) => {
                let m = String::from_str(e.as_str());
                return DerivedStep::Done(Err(m));
            },
            Some(Ok(())) => join_path(d.as_str(), n.as_str()),
        },
    };
    match &progress.canonical {
        None => return DerivedStep::Canonicalize(target),
        Some((cs, co)) => {
            if let Err(e) = refuse_overwriting_source(source, cs, target.as_str(), co) {
                return DerivedStep::Done(Err(e));
            }
        },
    }
    match first_free_candidate(target.as_str(), &progress.taken) {
        CollisionStep::Use(c) => DerivedStep::Done(Ok(c)),
        CollisionStep::Probe(c) => DerivedStep::Probe(c),
        CollisionStep::Unnamed => {
            let mut m = String::from_str("Cannot number a path without a file name: ");
            m.append(target.as_str());
            DerivedStep::Done(Err(m))
        },
    }
}

/// Decides the next step of resolving where a cut of `source` is written:
/// `<source-stem>_cut.mp4` beside it by default; see
/// [`resolve_derived_output`].
pub fn resolve_cut_output_path(source: &str, output: Option<&str>, progress: &DerivedProgress) -> (r:
    DerivedStep)
    ensures
        r@ == derived_step(
            source@,
            match output {
                Some(o) => Some(o@),
                None => None,
            },
            "cut"@,
            *progress,
        ),
{
    resolve_derived_output(source, output, "cut", progress)
}

/// Decides the next step of resolving where a labeled copy of `source` is
/// written: `<source-stem>_labeled.mp4` beside it by default; see
/// [`resolve_derived_output`].
pub fn resolve_label_output_path(
    source: &str,
    output: Option<&str>,
    progress: &DerivedProgress,
) -> (r: DerivedStep)
    ensures
        r@ == derived_step(
            source@,
            match output {
                Some(o) => Some(o@),
                None => None,
            },
            "labeled"@,
            *progress,
        ),
{
    resolve_derived_output(source, output, "labeled", progress)
}

} // verus!
