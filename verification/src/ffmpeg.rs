//! The ffmpeg command lines the tool runs, and the parsing of what ffmpeg
//! prints back: the avfoundation device listing and the progress line of a
//! finished run.

use crate::cli::{Label, LabelPosition, LabelView};
use crate::output::{path_file_stem, segment_ffmpeg_pattern, segment_pattern};
use crate::text::{
    chars_of, contains_seq, contains_str, decimal, find_char, first_index, lowercase,
    push_decimal, push_padded, push_str, slice_chars, split_chars, split_on, starts_with,
    starts_with_str, strip_leading, strip_leading_chars, string_from, to_lowercase, trim,
    trim_chars, trim_start, trim_start_chars, zero_padded, equals_str,
};
use crate::timespec::{is_digit_run, mantissa, read_timestamp_field};
use vstd::prelude::*;

verus! {

/// A program and the arguments it is started with.
#[derive(Debug, Clone, PartialEq, Eq)]
pub struct CommandLine {
    pub program: String,
    pub args: Vec<String>,
}

/// The characters of each string.
pub open spec fn arg_views(v: Seq<String>) -> Seq<Seq<char>> {
    v.map_values(|s: String| s@)
}

/// Appends the argument `s`.
pub fn push_arg(args: &mut Vec<String>, s: &str)
    ensures
        arg_views(final(args)@) == arg_views(old(args)@).push(s@),
{
    args.push(String::from_str(s));
    assert(arg_views(args@) =~= arg_views(old(args)@).push(s@));
}

/// Appends the argument `s`, taken by value.
pub fn push_owned_arg(args: &mut Vec<String>, s: String)
    ensures
        arg_views(final(args)@) == arg_views(old(args)@).push(s@),
{
    let ghost v = s@;
    args.push(s);
    assert(arg_views(args@) =~= arg_views(old(args)@).push(v));
}

/// Audio devices to mix into a recording: the avfoundation audio index
/// captured alongside the screen (BlackHole 2ch, for system audio) and the
/// microphone's.
#[derive(Debug, Clone, Copy, PartialEq, Eq, Structural)]
pub struct AudioSources {
    pub system_audio_index: usize,
    pub microphone_index: usize,
}

/// Configuration of an ffmpeg capture session. Durations are milliseconds.
#[derive(Debug, Clone)]
pub struct CaptureConfig {
    pub output_path: String,
    pub duration: Option<u64>,
    pub interval: Option<u64>,
    pub verbose: bool,
    /// Audio sources to mix into the recording. `None` captures video only.
    pub audio: Option<AudioSources>,
}

impl CaptureConfig {
    pub fn new(output_path: String) -> (r: Self)
        ensures
            r.output_path@ == output_path@,
            r.duration is None,
            r.interval is None,
            !r.verbose,
            r.audio is None,
    {
        Self { output_path, duration: None, interval: None, verbose: false, audio: None }
    }

    pub fn with_duration(self, duration: u64) -> (r: Self)
        ensures
            r == (Self { duration: Some(duration), ..self }),
    {
        Self { duration: Some(duration), ..self }
    }

    pub fn with_interval(self, interval: u64) -> (r: Self)
        ensures
            r == (Self { interval: Some(interval), ..self }),
    {
        Self { interval: Some(interval), ..self }
    }

    pub fn with_verbose(self, verbose: bool) -> (r: Self)
        ensures
            r == (Self { verbose, ..self }),
    {
        Self { verbose, ..self }
    }

    pub fn with_audio(self, audio: AudioSources) -> (r: Self)
        ensures
            r == (Self { audio: Some(audio), ..self }),
    {
        Self { audio: Some(audio), ..self }
    }
}

/// A duration in seconds as ffmpeg is given it: whole seconds as an integer
/// (`10`), anything else with three decimals (`1.500`).
pub open spec fn seconds_text(ms: nat) -> Seq<char> {
    if ms % 1000 == 0 {
        decimal(ms / 1000)
    } else {
        decimal(ms / 1000) + seq!['.'] + zero_padded(ms % 1000, 3)
    }
}

/// A time in seconds with exactly three decimals (`10.500`).
pub open spec fn seconds3_text(ms: nat) -> Seq<char> {
    decimal(ms / 1000) + seq!['.'] + zero_padded(ms % 1000, 3)
}

/// Formats a duration in milliseconds as [`seconds_text`] does.
pub fn format_seconds(ms: u64) -> (r: String)
    ensures
        r@ == seconds_text(ms as nat),
{
    let mut out: Vec<char> = Vec::new();
    push_decimal(&mut out, ms / 1000);
    if ms % 1000 != 0 {
        out.push('.');
        push_padded(&mut out, ms % 1000, 3);
    }
    string_from(&out)
}

/// Formats a time in milliseconds as [`seconds3_text`] does.
pub fn format_seconds3(ms: u128) -> (r: String)
    requires
        ms / 1000 <= u64::MAX,
    ensures
        r@ == seconds3_text(ms as nat),
{
    let mut out: Vec<char> = Vec::new();
    push_decimal(&mut out, (ms / 1000) as u64);
    out.push('.');
    push_padded(&mut out, (ms % 1000) as u64, 3);
    string_from(&out)
}

/// The filter that resamples each avfoundation audio input against its own
/// clock and mixes the two into `[aout]`.
pub const AUDIO_MIX_FILTER: &'static str = "[0:a]aresample=async=1:first_pts=0[a0];[1:a]aresample=async=1:first_pts=0[a1];[a0][a1]amix=inputs=2:duration=longest[aout]";

/// The input arguments: screen and system audio on input 0 and the
/// microphone on input 1, mixed; or the screen alone.
pub open spec fn capture_input_args(audio: Option<AudioSources>) -> Seq<Seq<char>> {
    match audio {
        Some(a) => seq![
            "-f"@,
            "avfoundation"@,
            "-i"@,
            "1:"@ + decimal(a.system_audio_index as nat),
            "-f"@,
            "avfoundation"@,
            "-i"@,
            ":"@ + decimal(a.microphone_index as nat),
            "-filter_complex"@,
            AUDIO_MIX_FILTER@,
            "-map"@,
            "0:v"@,
            "-map"@,
            "[aout]"@,
            "-c:a"@,
            "aac"@,
            "-b:a"@,
            "128k"@,
        ],
        None => seq!["-f"@, "avfoundation"@, "-i"@, "1:none"@],
    }
}

/// The H.264 encoder settings shared by captures and re-encoded cuts.
pub open spec fn h264_args() -> Seq<Seq<char>> {
    seq!["-c:v"@, "libx264"@, "-preset"@, "ultrafast"@, "-crf"@, "23"@]
}

/// The duration limit, where there is one.
pub open spec fn duration_args(duration: Option<u64>) -> Seq<Seq<char>> {
    match duration {
        Some(d) => seq!["-t"@, seconds_text(d as nat)],
        None => Seq::empty(),
    }
}

/// Interval mode: the segment muxer, a fresh timestamp origin per segment,
/// and keyframes forced at every segment boundary.
pub open spec fn interval_args(interval: Option<u64>) -> Seq<Seq<char>> {
    match interval {
        Some(i) => seq![
            "-f"@,
            "segment"@,
            "-segment_time"@,
            seconds_text(i as nat),
            "-reset_timestamps"@,
            "1"@,
            "-force_key_frames"@,
            "expr:gte(t,n_forced*"@ + seconds_text(i as nat) + ")"@,
        ],
        None => Seq::empty(),
    }
}

/// The arguments ffmpeg is started with for a capture session.
pub open spec fn capture_args(c: CaptureConfig) -> Seq<Seq<char>>
    recommends
        c.interval is Some ==> path_file_stem(c.output_path@) is Some,
{
    seq!["-y"@] + capture_input_args(c.audio) + h264_args() + duration_args(c.duration)
        + interval_args(c.interval) + seq![
        if c.interval is Some {
            segment_pattern(c.output_path@, "_seg%03d"@)
        } else {
            c.output_path@
        },
    ]
}

fn push_h264_args(args: &mut Vec<String>)
    ensures
        arg_views(final(args)@) == arg_views(old(args)@) + h264_args(),
{
    push_arg(args, "-c:v");
    push_arg(args, "libx264");
    push_arg(args, "-preset");
    push_arg(args, "ultrafast");
    push_arg(args, "-crf");
    push_arg(args, "23");
    assert(arg_views(args@) =~= arg_views(old(args)@) + h264_args());
}

fn push_capture_inputs(args: &mut Vec<String>, audio: Option<AudioSources>)
    ensures
        arg_views(final(args)@) == arg_views(old(args)@) + capture_input_args(audio),
{
    match audio {
        Some(a) => {
            push_arg(args, "-f");
            push_arg(args, "avfoundation");
            push_arg(args, "-i");
            let mut screen: Vec<char> = Vec::new();
            push_str(&mut screen, "1:");
            push_decimal(&mut screen, a.system_audio_index as u64);
            push_owned_arg(args, string_from(&screen));
            push_arg(args, "-f");
            push_arg(args, "avfoundation");
            push_arg(args, "-i");
            let mut mic: Vec<char> = Vec::new();
            push_str(&mut mic, ":");
            push_decimal(&mut mic, a.microphone_index as u64);
            push_owned_arg(args, string_from(&mic));
            push_arg(args, "-filter_complex");
            push_arg(args, AUDIO_MIX_FILTER);
            push_arg(args, "-map");
            push_arg(args, "0:v");
            push_arg(args, "-map");
            push_arg(args, "[aout]");
            push_arg(args, "-c:a");
            push_arg(args, "aac");
            push_arg(args, "-b:a");
            push_arg(args, "128k");
            assert(arg_views(args@) =~= arg_views(old(args)@) + capture_input_args(audio));
        },
        None => {
            push_arg(args, "-f");
            push_arg(args, "avfoundation");
            push_arg(args, "-i");
            push_arg(args, "1:none");
            assert(arg_views(args@) =~= arg_views(old(args)@) + capture_input_args(audio));
        },
    }
}

/// Builds the ffmpeg command for screen and (optional) audio capture.
///
/// With audio, two avfoundation inputs are opened — the screen with system
/// audio, and the microphone — and their audio is resampled and mixed with
/// `amix`; without, the screen alone is captured. Video is H.264; mixed
/// audio is AAC. A duration becomes `-t`; an interval turns on the segment
/// muxer, which writes `<stem>_seg%03d.<ext>` files.
pub fn build_capture_command(config: &CaptureConfig) -> (r: CommandLine)
    requires
        config.interval is Some ==> path_file_stem(config.output_path@) is Some,
    ensures
        r.program@ == "ffmpeg"@,
        arg_views(r.args@) == capture_args(*config),
{
    let mut args: Vec<String> = Vec::new();
    push_arg(&mut args, "-y");
    push_capture_inputs(&mut args, config.audio);
    push_h264_args(&mut args);
    let ghost before_duration = arg_views(args@);
    match config.duration {
        Some(d) => {
            push_arg(&mut args, "-t");
            push_owned_arg(&mut args, format_seconds(d));
        },
        None => {},
    }
    assert(arg_views(args@) =~= before_duration + duration_args(config.duration));
    let ghost before_interval = arg_views(args@);
    let output = match config.interval {
        Some(i) => {
            let secs = format_seconds(i);
            push_arg(&mut args, "-f");
            push_arg(&mut args, "segment");
            push_arg(&mut args, "-segment_time");
            push_owned_arg(&mut args, format_seconds(i));
            push_arg(&mut args, "-reset_timestamps");
            push_arg(&mut args, "1");
            push_arg(&mut args, "-force_key_frames");
            let mut expr: Vec<char> = Vec::new();
            push_str(&mut expr, "expr:gte(t,n_forced*");
            push_str(&mut expr, secs.as_str());
            push_str(&mut expr, ")");
            push_owned_arg(&mut args, string_from(&expr));
            assert(arg_views(args@) =~= before_interval + interval_args(config.interval));
            segment_ffmpeg_pattern(config.output_path.as_str())
        },
        None => {
            assert(arg_views(args@) =~= before_interval + interval_args(config.interval));
            String::from_str(config.output_path.as_str())
        },
    };
    push_owned_arg(&mut args, output);
    assert(arg_views(args@) =~= capture_args(*config));
    CommandLine { program: String::from_str("ffmpeg"), args }
}

/// [`build_capture_command`] where an interval capture's output path has a
/// file stem to number segments after; `None` where it has none.
pub fn try_build_capture_command(config: &CaptureConfig) -> (r: Option<CommandLine>)
    ensures
        r is Some <==> (config.interval is Some ==> path_file_stem(config.output_path@) is Some),
        r matches Some(c) ==> c.program@ == "ffmpeg"@ && arg_views(c.args@) == capture_args(
            *config,
        ),
{
    if config.interval.is_some() {
        if crate::output::file_stem_of(config.output_path.as_str()).is_none() {
            return None;
        }
    }
    Some(build_capture_command(config))
}

// ---------------------------------------------------------------------------
// The avfoundation device listing
// ---------------------------------------------------------------------------

/// A device exposed by macOS's AVFoundation layer (ffmpeg's avfoundation
/// input).
#[derive(Debug, Clone, PartialEq, Eq)]
pub struct AvfoundationDevice {
    pub index: usize,
    pub name: String,
}

/// A device, as values.
pub struct DeviceView {
    pub index: nat,
    pub name: Seq<char>,
}

impl View for AvfoundationDevice {
    type V = DeviceView;

    open spec fn view(&self) -> DeviceView {
        DeviceView { index: self.index as nat, name: self.name@ }
    }
}

/// The views of a sequence of devices.
pub open spec fn devices_view(v: Seq<AvfoundationDevice>) -> Seq<DeviceView> {
    v.map_values(|d: AvfoundationDevice| d@)
}

/// The kind of device section a listing line belongs to.
#[derive(Debug, Clone, Copy, PartialEq, Eq, Structural)]
pub enum DeviceSection {
    Outside,
    Video,
    Audio,
}

/// The devices read so far, and the section being read.
pub struct ListingState {
    pub section: DeviceSection,
    pub video: Seq<DeviceView>,
    pub audio: Seq<DeviceView>,
}

/// The value of an unsigned decimal, as `str::parse::<usize>` reads it: an
/// optional `+`, then digits whose value fits a `usize`.
pub open spec fn usize_value(t: Seq<char>) -> Option<nat> {
    let body = if t.len() > 0 && t[0] == '+' {
        t.drop_first()
    } else {
        t
    };
    if is_digit_run(body) && mantissa(body) <= usize::MAX {
        Some(mantissa(body))
    } else {
        None
    }
}

/// The body of a listing line: what follows its `[AVFoundation indev @ …]`
/// prefix, that is, the trimmed line after its first `]`, without leading
/// whitespace. `None` where the line has no `]`.
pub open spec fn listing_body(line: Seq<char>) -> Option<Seq<char>> {
    let l = trim(line);
    match first_index(l, ']') {
        None => None,
        Some(k) => Some(trim_start(l.subrange(k + 1, l.len() as int))),
    }
}

/// The device a listing body names: `[<index>] <name>`, the index trimmed
/// and read as a `usize`, the name trimmed of whitespace and leading `[`.
pub open spec fn device_entry(body: Seq<char>) -> Option<DeviceView> {
    if body.len() > 0 && body[0] == '[' {
        let rest = body.drop_first();
        match first_index(rest, ']') {
            None => None,
            Some(k) => match usize_value(trim(rest.subrange(0, k))) {
                None => None,
                Some(index) => Some(
                    DeviceView {
                        index,
                        name: trim(
                            strip_leading(trim(rest.subrange(k + 1, rest.len() as int)), '['),
                        ),
                    },
                ),
            },
        }
    } else {
        None
    }
}

/// Reads one listing line.
pub open spec fn listing_step(st: ListingState, line: Seq<char>) -> ListingState {
    match listing_body(line) {
        None => st,
        Some(body) => if starts_with(body, "AVFoundation video devices:"@) {
            ListingState { section: DeviceSection::Video, ..st }
        } else if starts_with(body, "AVFoundation audio devices:"@) {
            ListingState { section: DeviceSection::Audio, ..st }
        } else {
            match device_entry(body) {
                None => st,
                Some(d) => match st.section {
                    DeviceSection::Video => ListingState { video: st.video.push(d), ..st },
                    DeviceSection::Audio => ListingState { audio: st.audio.push(d), ..st },
                    DeviceSection::Outside => st,
                },
            }
        },
    }
}

/// Reads the listing lines `lines` in order.
pub open spec fn listing_fold(st: ListingState, lines: Seq<Seq<char>>) -> ListingState
    decreases lines.len(),
{
    if lines.len() == 0 {
        st
    } else {
        listing_fold(listing_step(st, lines[0]), lines.drop_first())
    }
}

/// The video and audio devices a listing names. Lines are cut at `\n`; a
/// `\r` before it, like any surrounding whitespace, is trimmed away.
pub open spec fn avfoundation_listing(output: Seq<char>) -> ListingState {
    listing_fold(
        ListingState { section: DeviceSection::Outside, video: Seq::empty(), audio: Seq::empty() },
        split_on(output, '\n'),
    )
}

/// Skips past the `[AVFoundation indev @ 0x…]` prefix of a trimmed listing
/// line.
fn strip_avfoundation_prefix(line: &Vec<char>) -> (r: Option<Vec<char>>)
    ensures
        match first_index(line@, ']') {
            None => r is None,
            Some(k) => r matches Some(b) && b@ == trim_start(
                line@.subrange(k + 1, line@.len() as int),
            ),
        },
{
    let close = find_char(line, ']')?;
    let rest = slice_chars(line, close + 1, line.len());
    Some(trim_start_chars(&rest))
}

/// Reads an unsigned decimal as `str::parse::<usize>` does.
fn parse_usize(value: &Vec<char>) -> (r: Option<usize>)
    ensures
        match r {
            Some(n) => usize_value(value@) == Some(n as nat),
            None => usize_value(value@) is None,
        },
{
    let body = if value.len() > 0 && value[0] == '+' {
        slice_chars(value, 1, value.len())
    } else {
        slice_chars(value, 0, value.len())
    };
    proof {
        if value@.len() > 0 && value@[0] == '+' {
            assert(body@ =~= value@.drop_first());
        } else {
            assert(body@ =~= value@);
        }
    }
    match read_timestamp_field(&body) {
        Some(n) => if n as u128 <= usize::MAX as u128 {
            Some(n as usize)
        } else {
            None
        },
        None => None,
    }
}

/// Reads a device entry `[<index>] <name>` from a listing body.
fn parse_device_entry(body: &Vec<char>) -> (r: Option<AvfoundationDevice>)
    ensures
        match device_entry(body@) {
            None => r is None,
            Some(d) => r matches Some(x) && x@ == d,
        },
{
    if !(body.len() > 0 && body[0] == '[') {
        return None;
    }
    let rest = slice_chars(body, 1, body.len());
    assert(rest@ =~= body@.drop_first());
    let close = find_char(&rest, ']')?;
    let idx = trim_chars(&slice_chars(&rest, 0, close));
    let index = parse_usize(&idx)?;
    let after = trim_chars(&slice_chars(&rest, close + 1, rest.len()));
    let name = trim_chars(&strip_leading_chars(&after, '['));
    Some(AvfoundationDevice { index, name: string_from(&name) })
}

/// Reads one listing line into the section and device lists.
fn read_listing_line(
    raw: &Vec<char>,
    section: &mut DeviceSection,
    video: &mut Vec<AvfoundationDevice>,
    audio: &mut Vec<AvfoundationDevice>,
)
    ensures
        listing_step(
            ListingState {
                section: *old(section),
                video: devices_view(old(video)@),
                audio: devices_view(old(audio)@),
            },
            raw@,
        ) == (ListingState {
            section: *final(section),
            video: devices_view(final(video)@),
            audio: devices_view(final(audio)@),
        }),
{
    let line = trim_chars(raw);
    let body = match strip_avfoundation_prefix(&line) {
        Some(b) => b,
        None => {
            return;
        },
    };
    if starts_with_str(&body, "AVFoundation video devices:") {
        *section = DeviceSection::Video;
        return;
    }
    if starts_with_str(&body, "AVFoundation audio devices:") {
        *section = DeviceSection::Audio;
        return;
    }
    let device = match parse_device_entry(&body) {
        Some(d) => d,
        None => {
            return;
        },
    };
    match *section {
        DeviceSection::Video => {
            let ghost before = devices_view(video@);
            let ghost dv = device@;
            video.push(device);
            assert(devices_view(video@) =~= before.push(dv));
        },
        DeviceSection::Audio => {
            let ghost before = devices_view(audio@);
            let ghost dv = device@;
            audio.push(device);
            assert(devices_view(audio@) =~= before.push(dv));
        },
        DeviceSection::Outside => {},
    }
}

/// Parses the text of `ffmpeg -f avfoundation -list_devices true -i ""`.
///
/// ffmpeg writes the listing on stderr. Every line carries an
/// `[AVFoundation indev @ 0x…]` prefix; after it come section headers
/// (`AVFoundation video devices:` / `AVFoundation audio devices:`) and
/// device entries `[N] name`. Entries are collected as (index, name) pairs
/// into the section they follow; entries outside a section are skipped.
pub fn parse_avfoundation_listing(output: &str) -> (r: (Vec<AvfoundationDevice>, Vec<AvfoundationDevice>))
    ensures
        devices_view(r.0@) == avfoundation_listing(output@).video,
        devices_view(r.1@) == avfoundation_listing(output@).audio,
{
    let chars = chars_of(output);
    let lines = split_chars(&chars, '\n');
    let ghost all = split_on(output@, '\n');
    let mut video: Vec<AvfoundationDevice> = Vec::new();
    let mut audio: Vec<AvfoundationDevice> = Vec::new();
    let mut section = DeviceSection::Outside;
    let mut i: usize = 0;
    assert(all.skip(0) =~= all);
    assert(devices_view(video@) =~= Seq::<DeviceView>::empty());
    assert(devices_view(audio@) =~= Seq::<DeviceView>::empty());
    while i < lines.len()
        invariant
            i <= lines.len(),
            lines@.len() == all.len(),
            forall|k: int| 0 <= k < lines@.len() ==> #[trigger] lines@[k]@ == all[k],
            all == split_on(output@, '\n'),
            avfoundation_listing(output@) == listing_fold(
                ListingState {
                    section,
                    video: devices_view(video@),
                    audio: devices_view(audio@),
                },
                all.skip(i as int),
            ),
        decreases lines.len() - i,
    {
        proof {
            assert(all.skip(i as int)[0] == lines@[i as int]@);
            assert(all.skip(i as int).drop_first() =~= all.skip(i + 1));
        }
        read_listing_line(&lines[i], &mut section, &mut video, &mut audio);
        i = i + 1;
    }
    assert(all.skip(i as int) =~= Seq::<Seq<char>>::empty());
    (video, audio)
}

// ---------------------------------------------------------------------------
// Picking the audio devices
// ---------------------------------------------------------------------------

/// Whether `name` is the 2-channel BlackHole device: `blackhole 2ch` in any
/// case, surrounding whitespace allowed, and no other channel count.
pub open spec fn is_blackhole_name(name: Seq<char>) -> bool {
    trim(lowercase(name)) == "blackhole 2ch"@
}

/// Whether `name` reads as a microphone: it is not BlackHole, and its
/// lowercase form holds `microphone` or begins with `mic `.
pub open spec fn is_named_microphone(name: Seq<char>) -> bool {
    !is_blackhole_name(name) && (contains_seq(lowercase(name), "microphone"@) || starts_with(
        lowercase(name),
        "mic "@,
    ))
}

/// The index of the first BlackHole 2ch device.
pub open spec fn first_blackhole(d: Seq<DeviceView>) -> Option<nat>
    decreases d.len(),
{
    if d.len() == 0 {
        None
    } else if is_blackhole_name(d[0].name) {
        Some(d[0].index)
    } else {
        first_blackhole(d.drop_first())
    }
}

/// The index of the first device named like a microphone.
pub open spec fn first_named_microphone(d: Seq<DeviceView>) -> Option<nat>
    decreases d.len(),
{
    if d.len() == 0 {
        None
    } else if is_named_microphone(d[0].name) {
        Some(d[0].index)
    } else {
        first_named_microphone(d.drop_first())
    }
}

/// The index of the first device that is not BlackHole 2ch.
pub open spec fn first_non_blackhole(d: Seq<DeviceView>) -> Option<nat>
    decreases d.len(),
{
    if d.len() == 0 {
        None
    } else if !is_blackhole_name(d[0].name) {
        Some(d[0].index)
    } else {
        first_non_blackhole(d.drop_first())
    }
}

/// The microphone: the first device named like one, else the first device
/// that is not BlackHole 2ch.
pub open spec fn microphone_choice(d: Seq<DeviceView>) -> Option<nat> {
    match first_named_microphone(d) {
        Some(i) => Some(i),
        None => first_non_blackhole(d),
    }
}

/// A device whose lowercased name begins with `mic ` or holds `microphone`,
/// and which is not BlackHole 2ch, is taken as the microphone unless an
/// earlier device already reads as one: every device listed before it that
/// is BlackHole, or whose lowercased name neither begins with `mic ` nor
/// holds `microphone`, is passed over, however it is named otherwise.
pub proof fn lemma_a_named_microphone_is_preferred(d: Seq<DeviceView>, j: int)
    requires
        0 <= j < d.len(),
        !is_blackhole_name(d[j].name),
        ({
            let n = lowercase(d[j].name);
            (4 <= n.len() && n.subrange(0, 4) == "mic "@) || (exists|k: int|
                0 <= k && k + 10 <= n.len() && #[trigger] n.subrange(k, k + 10) == "microphone"@)
        }),
        forall|i: int|
            0 <= i < j ==> is_blackhole_name(#[trigger] d[i].name) || ({
                let n = lowercase(d[i].name);
                !(4 <= n.len() && n.subrange(0, 4) == "mic "@) && !(exists|k: int|
                    0 <= k && k + 10 <= n.len() && #[trigger] n.subrange(k, k + 10)
                        == "microphone"@)
            }),
    ensures
        first_named_microphone(d) == Some(d[j].index),
        microphone_choice(d) == Some(d[j].index),
    decreases j,
{
    reveal_strlit("mic ");
    reveal_strlit("microphone");
    if j == 0 {
        assert(is_named_microphone(d[0].name));
    } else {
        assert(!is_named_microphone(d[0].name)) by {
            let n = lowercase(d[0].name);
            if !is_blackhole_name(d[0].name) {
                assert(!(4 <= n.len() && n.subrange(0, 4) == "mic "@));
                assert(!(exists|k: int|
                    0 <= k && k + 10 <= n.len() && #[trigger] n.subrange(k, k + 10)
                        == "microphone"@));
            }
        }
        let rest = d.drop_first();
        assert forall|i: int| 0 <= i < j - 1 implies is_blackhole_name(#[trigger] rest[i].name) || ({
            let n = lowercase(rest[i].name);
            !(4 <= n.len() && n.subrange(0, 4) == "mic "@) && !(exists|k: int|
                0 <= k && k + 10 <= n.len() && #[trigger] n.subrange(k, k + 10) == "microphone"@)
        }) by {
            assert(rest[i] == d[i + 1]);
        }
        assert(rest[j - 1] == d[j]);
        lemma_a_named_microphone_is_preferred(rest, j - 1);
        assert(first_named_microphone(d) == first_named_microphone(rest));
    }
}

/// The optional index as a `nat`.
pub open spec fn opt_index(v: Option<usize>) -> Option<nat> {
    match v {
        Some(x) => Some(x as nat),
        None => None,
    }
}

/// True if `name` refers to the 2-channel BlackHole device specifically.
fn is_blackhole_2ch(name: &String) -> (r: bool)
    ensures
        r == is_blackhole_name(name@),
{
    let lower = to_lowercase(&chars_of(name.as_str()));
    let trimmed = trim_chars(&lower);
    equals_str(&trimmed, "blackhole 2ch")
}

/// Finds the index of the BlackHole 2ch audio device, if present.
///
/// The match is strict on the channel count — "BlackHole 2ch", not the
/// 16-channel variant — and otherwise case-insensitive.
pub fn find_blackhole_index(devices: &[AvfoundationDevice]) -> (r: Option<usize>)
    ensures
        opt_index(r) == first_blackhole(devices_view(devices@)),
{
    let ghost all = devices_view(devices@);
    let mut i: usize = 0;
    assert(all.skip(0) =~= all);
    while i < devices.len()
        invariant
            i <= devices.len(),
            all == devices_view(devices@),
            first_blackhole(all) == first_blackhole(all.skip(i as int)),
        decreases devices.len() - i,
    {
        proof {
            assert(all.skip(i as int)[0] == devices@[i as int]@);
            assert(all.skip(i as int).drop_first() =~= all.skip(i + 1));
        }
        if is_blackhole_2ch(&devices[i].name) {
            return Some(devices[i].index);
        }
        i = i + 1;
    }
    assert(all.skip(i as int) =~= Seq::<DeviceView>::empty());
    None
}

/// Whether the device name reads as a microphone.
fn is_named_mic(name: &String) -> (r: bool)
    ensures
        r == is_named_microphone(name@),
{
    let lower = to_lowercase(&chars_of(name.as_str()));
    !is_blackhole_2ch(name) && (contains_str(&lower, "microphone") || starts_with_str(
        &lower,
        "mic ",
    ))
}

/// Finds the index of the user's microphone: the first device whose name
/// includes "microphone" or begins with "mic " (in any case) and that is not
/// BlackHole; failing that, the first audio input that is not BlackHole.
pub fn find_microphone_index(devices: &[AvfoundationDevice]) -> (r: Option<usize>)
    ensures
        opt_index(r) == microphone_choice(devices_view(devices@)),
{
    let ghost all = devices_view(devices@);
    let mut i: usize = 0;
    assert(all.skip(0) =~= all);
    while i < devices.len()
        invariant
            i <= devices.len(),
            all == devices_view(devices@),
            first_named_microphone(all) == first_named_microphone(all.skip(i as int)),
        decreases devices.len() - i,
    {
        proof {
            assert(all.skip(i as int)[0] == devices@[i as int]@);
            assert(all.skip(i as int).drop_first() =~= all.skip(i + 1));
        }
        if is_named_mic(&devices[i].name) {
            return Some(devices[i].index);
        }
        i = i + 1;
    }
    assert(all.skip(i as int) =~= Seq::<DeviceView>::empty());
    let mut j: usize = 0;
    while j < devices.len()
        invariant
            j <= devices.len(),
            all == devices_view(devices@),
            first_named_microphone(all) is None,
            first_non_blackhole(all) == first_non_blackhole(all.skip(j as int)),
        decreases devices.len() - j,
    {
        proof {
            assert(all.skip(j as int)[0] == devices@[j as int]@);
            assert(all.skip(j as int).drop_first() =~= all.skip(j + 1));
        }
        if !is_blackhole_2ch(&devices[j].name) {
            return Some(devices[j].index);
        }
        j = j + 1;
    }
    assert(all.skip(j as int) =~= Seq::<DeviceView>::empty());
    None
}

/// Picks the audio indices a mixed-audio capture needs from the audio devices
/// ffmpeg listed (see [`parse_avfoundation_listing`]): BlackHole 2ch for
/// system audio and the microphone. On failure returns a short diagnostic, to
/// be paired with [`blackhole_setup_instructions`].
pub fn detect_audio_setup(audio: &[AvfoundationDevice]) -> (r: Result<AudioSources, String>)
    ensures
        match r {
            Ok(a) => first_blackhole(devices_view(audio@)) == Some(a.system_audio_index as nat)
                && microphone_choice(devices_view(audio@)) == Some(a.microphone_index as nat),
            Err(e) => if first_blackhole(devices_view(audio@)) is None {
                e@ == "BlackHole 2ch is not installed or not visible to ffmpeg."@
            } else {
                microphone_choice(devices_view(audio@)) is None
                    && e@ == "No microphone was detected alongside BlackHole."@
            },
        },
{
    let system_audio_index = match find_blackhole_index(audio) {
        Some(idx) => idx,
        None => {
            return Err(String::from_str("BlackHole 2ch is not installed or not visible to ffmpeg."));
        },
    };
    let microphone_index = match find_microphone_index(audio) {
        Some(idx) => idx,
        None => {
            return Err(String::from_str("No microphone was detected alongside BlackHole."));
        },
    };
    Ok(AudioSources { system_audio_index, microphone_index })
}

/// The help shown when the BlackHole device is not detected.
pub const BLACKHOLE_SETUP: &'static str = "BlackHole 2ch was not detected in your audio devices.\n\nSetup instructions:\n\n1. Install BlackHole 2ch:\nbrew install blackhole-2ch\n\n2. Open Audio MIDI Setup (in /Applications/Utilities).\n3. Click the + button at the bottom-left and choose\n\"Create Multi-Output Device\".\n4. In the new device, check both \"BlackHole 2ch\" and your\nspeakers/headphones.\n5. Right-click the Multi-Output Device and select\n\"Use This Device For Sound Output\".\n6. Set its drift correction to the BlackHole entry.\n\nSanity-check devices with:\nffmpeg -f avfoundation -list_devices true -i \"\"";

/// Builds the BlackHole installation and setup help.
pub fn blackhole_setup_instructions() -> (r: String)
    ensures
        r@ == BLACKHOLE_SETUP@,
{
    String::from_str(BLACKHOLE_SETUP)
}

/// The error a capture gives where the audio devices it needs are missing:
/// the short diagnostic, a blank line, then the BlackHole setup help.
pub fn blackhole_missing_message(diagnostic: &str) -> (r: String)
    ensures
        r@ == diagnostic@ + "\n\n"@ + BLACKHOLE_SETUP@,
{
    let mut m = String::from_str(diagnostic);
    m.append("\n\n");
    m.append(BLACKHOLE_SETUP);
    m
}

// ---------------------------------------------------------------------------
// Cuts
// ---------------------------------------------------------------------------

/// Configuration of one cut: the source video, the cut range in
/// milliseconds, the output file, and whether to stream-copy.
#[derive(Debug, Clone)]
pub struct CutConfig {
    pub source: String,
    pub start: u64,
    pub length: u64,
    pub output: String,
    pub fast: bool,
}

impl CutConfig {
    pub fn new(source: &str, start: u64, length: u64, output: &str) -> (r: Self)
        ensures
            r.source@ == source@,
            r.start == start,
            r.length == length,
            r.output@ == output@,
            !r.fast,
    {
        CutConfig {
            source: String::from_str(source),
            start,
            length,
            output: String::from_str(output),
            fast: false,
        }
    }

    pub fn with_fast(self, fast: bool) -> (r: Self)
        ensures
            r == (Self { fast, ..self }),
    {
        Self { fast, ..self }
    }
}

/// The arguments ffmpeg is started with for a cut: `-ss` before `-i` for a
/// fast seek, the range as seconds with three decimals, and either a stream
/// copy (`--fast`) or a re-encode to H.264 and AAC.
pub open spec fn cut_args(c: CutConfig) -> Seq<Seq<char>> {
    cut_arg_list(c.source@, c.start as nat, c.length as nat, c.output@, c.fast)
}

/// [`cut_args`] for a cut given by its parts.
pub open spec fn cut_arg_list(
    source: Seq<char>,
    start: nat,
    length: nat,
    output: Seq<char>,
    fast: bool,
) -> Seq<Seq<char>> {
    seq!["-y"@, "-ss"@, seconds3_text(start), "-i"@, source, "-t"@, seconds3_text(length)]
        + (if fast {
        seq!["-c"@, "copy"@, "-avoid_negative_ts"@, "make_zero"@]
    } else {
        h264_args() + seq!["-c:a"@, "aac"@, "-b:a"@, "128k"@]
    }) + seq![output]
}

/// Builds the ffmpeg command for a cut.
pub fn build_cut_command(config: &CutConfig) -> (r: CommandLine)
    ensures
        r.program@ == "ffmpeg"@,
        arg_views(r.args@) == cut_args(*config),
{
    let mut args: Vec<String> = Vec::new();
    push_arg(&mut args, "-y");
    push_arg(&mut args, "-ss");
    push_owned_arg(&mut args, format_seconds3(config.start as u128));
    push_arg(&mut args, "-i");
    push_arg(&mut args, config.source.as_str());
    push_arg(&mut args, "-t");
    push_owned_arg(&mut args, format_seconds3(config.length as u128));
    let ghost head = arg_views(args@);
    if config.fast {
        push_arg(&mut args, "-c");
        push_arg(&mut args, "copy");
        push_arg(&mut args, "-avoid_negative_ts");
        push_arg(&mut args, "make_zero");
    } else {
        push_h264_args(&mut args);
        push_arg(&mut args, "-c:a");
        push_arg(&mut args, "aac");
        push_arg(&mut args, "-b:a");
        push_arg(&mut args, "128k");
    }
    push_arg(&mut args, config.output.as_str());
    assert(arg_views(args@) =~= cut_args(*config));
    CommandLine { program: String::from_str("ffmpeg"), args }
}

// ---------------------------------------------------------------------------
// Labels
// ---------------------------------------------------------------------------

/// Configuration of one label pass.
#[derive(Debug, Clone)]
pub struct LabelConfig {
    pub source: String,
    pub labels: Vec<Label>,
    pub output: String,
    /// Font file to draw with; `None` lets ffmpeg resolve the system font.
    pub font: Option<String>,
}

impl LabelConfig {
    pub fn new(source: &str, labels: Vec<Label>, output: &str) -> (r: Self)
        ensures
            r.source@ == source@,
            r.labels@ == labels@,
            r.output@ == output@,
            r.font is None,
    {
        LabelConfig {
            source: String::from_str(source),
            labels,
            output: String::from_str(output),
            font: None,
        }
    }

    pub fn with_font(self, font: Option<String>) -> (r: Self)
        ensures
            r == (Self { font, ..self }),
    {
        Self { font, ..self }
    }
}

/// How many backslashes put `c` into a drawtext option value: the value is
/// read twice (as filtergraph, then as option), and each read that treats
/// `c` as syntax takes one backslash, its own included.
pub open spec fn backslashes_for(c: char) -> nat {
    if c == ',' || c == ';' || c == '[' || c == ']' {
        1
    } else if c == ':' {
        2
    } else if c == '\'' {
        3
    } else if c == '\\' {
        4
    } else {
        0
    }
}

/// `s` escaped for a drawtext option value with `expansion=none`.
pub open spec fn drawtext_escaped(s: Seq<char>) -> Seq<char>
    decreases s.len(),
{
    if s.len() == 0 {
        Seq::empty()
    } else {
        drawtext_escaped(s.drop_last()) + Seq::new(backslashes_for(s.last()), |i: int| '\\')
            + seq![s.last()]
    }
}

/// Escaping keeps label texts apart: two texts that escape to the same
/// drawtext value are the same text, so no text can pass itself off as
/// another once escaped.
pub proof fn lemma_drawtext_escaping_is_injective(a: Seq<char>, b: Seq<char>)
    requires
        drawtext_escaped(a) == drawtext_escaped(b),
    ensures
        a == b,
    decreases a.len() + b.len(),
{
    let e = drawtext_escaped(a);
    if a.len() == 0 && b.len() == 0 {
        assert(a =~= b);
    } else if a.len() == 0 {
        assert(drawtext_escaped(b).len() > 0);
    } else if b.len() == 0 {
        assert(drawtext_escaped(a).len() > 0);
    } else {
        let pa = drawtext_escaped(a.drop_last());
        let pb = drawtext_escaped(b.drop_last());
        let ka = backslashes_for(a.last());
        let kb = backslashes_for(b.last());
        assert(e.last() == a.last());
        assert(drawtext_escaped(b).last() == b.last());
        assert(a.last() == b.last());
        assert(ka == kb);
        assert(pa =~= e.subrange(0, e.len() - ka - 1));
        assert(pb =~= e.subrange(0, e.len() - kb - 1));
        lemma_drawtext_escaping_is_injective(a.drop_last(), b.drop_last());
        assert(a =~= a.drop_last().push(a.last()));
        assert(b =~= b.drop_last().push(b.last()));
    }
}

/// Escapes `s` for a drawtext option value: `,` `;` `[` `]` take one
/// backslash, `:` two, `'` three and `\` four.
pub fn escape_drawtext(s: &str) -> (r: String)
    ensures
        r@ == drawtext_escaped(s@),
{
    let chars = chars_of(s);
    let mut out: Vec<char> = Vec::new();
    let mut i: usize = 0;
    assert(chars@.take(0) =~= Seq::<char>::empty());
    while i < chars.len()
        invariant
            i <= chars.len(),
            out@ == drawtext_escaped(chars@.take(i as int)),
        decreases chars.len() - i,
    {
        let c = chars[i];
        let n: usize = if c == ',' || c == ';' || c == '[' || c == ']' {
            1
        } else if c == ':' {
            2
        } else if c == '\'' {
            3
        } else if c == '\\' {
            4
        } else {
            0
        };
        let ghost before = out@;
        let mut k: usize = 0;
        while k < n
            invariant
                k <= n,
                out@ =~= before + Seq::new(k as nat, |j: int| '\\'),
            decreases n - k,
        {
            out.push('\\');
            k = k + 1;
        }
        out.push(c);
        proof {
            assert(chars@.take(i + 1).drop_last() =~= chars@.take(i as int));
            assert(chars@.take(i + 1).last() == c);
            assert(n == backslashes_for(c));
            assert(out@ =~= drawtext_escaped(chars@.take(i + 1)));
        }
        i = i + 1;
    }
    assert(chars@.take(chars.len() as int) =~= chars@);
    string_from(&out)
}

/// Where the text of a label sits vertically.
pub open spec fn label_y(p: LabelPosition) -> Seq<char> {
    match p {
        LabelPosition::Top => "40"@,
        LabelPosition::Bottom => "h-text_h-40"@,
    }
}

/// The start of a drawtext filter: the label's text and the font.
pub open spec fn drawtext_head(text: Seq<char>, font: Option<Seq<char>>) -> Seq<char> {
    "drawtext=expansion=none:text="@ + drawtext_escaped(text) + match font {
        Some(f) => ":fontfile="@ + drawtext_escaped(f),
        None => Seq::empty(),
    }
}

/// How a label is drawn: color, size, centred horizontally at its position,
/// on its band where it has one.
pub open spec fn drawtext_style(l: LabelView) -> Seq<char> {
    ":fontcolor="@ + l.color + ":fontsize="@ + decimal(l.size) + ":x=(w-text_w)/2:y="@ + label_y(
        l.position,
    ) + match l.background {
        Some(b) => ":box=1:boxcolor="@ + b + ":boxborderw=12"@,
        None => Seq::empty(),
    }
}

/// When a label is drawn: between the start and the end of its window.
pub open spec fn drawtext_window(start: nat, end: nat) -> Seq<char> {
    ":enable='between(t,"@ + seconds3_text(start) + ","@ + seconds3_text(end) + ")'"@
}

/// The drawtext filter drawing one label, visible during its label window.
pub open spec fn drawtext_filter(l: LabelView, font: Option<Seq<char>>) -> Seq<char> {
    drawtext_head(l.text, font) + drawtext_style(l) + drawtext_window(l.start, l.start + l.length)
}

/// The labels' drawtext filters chained with commas, in order.
pub open spec fn label_filtergraph(labels: Seq<LabelView>, font: Option<Seq<char>>) -> Seq<char>
    decreases labels.len(),
{
    if labels.len() == 0 {
        Seq::empty()
    } else if labels.len() == 1 {
        drawtext_filter(labels[0], font)
    } else {
        label_filtergraph(labels.drop_last(), font) + seq![','] + drawtext_filter(
            labels.last(),
            font,
        )
    }
}

/// The views of a sequence of labels.
pub open spec fn labels_view(v: Seq<Label>) -> Seq<LabelView> {
    v.map_values(|l: Label| l@)
}

fn push_drawtext_head(out: &mut Vec<char>, text: &String, font: &Option<String>)
    ensures
        final(out)@ == old(out)@ + drawtext_head(text@, opt_view(*font)),
{
    let ghost start = out@;
    push_str(out, "drawtext=expansion=none:text=");
    push_str(out, escape_drawtext(text.as_str()).as_str());
    let ghost mid = out@;
    match font {
        Some(f) => {
            push_str(out, ":fontfile=");
            push_str(out, escape_drawtext(f.as_str()).as_str());
        },
        None => {},
    }
    assert(out@ =~= start + drawtext_head(text@, opt_view(*font)));
}

fn push_drawtext_style(out: &mut Vec<char>, label: &Label)
    ensures
        final(out)@ == old(out)@ + drawtext_style(label@),
{
    let ghost start = out@;
    push_str(out, ":fontcolor=");
    push_str(out, label.color.as_str());
    push_str(out, ":fontsize=");
    push_decimal(out, label.size as u64);
    push_str(out, ":x=(w-text_w)/2:y=");
    match label.position {
        LabelPosition::Top => push_str(out, "40"),
        LabelPosition::Bottom => push_str(out, "h-text_h-40"),
    }
    let ghost mid = out@;
    match &label.background {
        Some(b) => {
            push_str(out, ":box=1:boxcolor=");
            push_str(out, b.as_str());
            push_str(out, ":boxborderw=12");
        },
        None => {},
    }
    assert(out@ =~= start + drawtext_style(label@));
}

fn push_drawtext_window(out: &mut Vec<char>, label: &Label)
    ensures
        final(out)@ == old(out)@ + drawtext_window(label.start as nat, (label.start + label.length) as nat),
{
    let ghost start = out@;
    push_str(out, ":enable='between(t,");
    push_str(out, format_seconds3(label.start as u128).as_str());
    push_str(out, ",");
    push_str(out, format_seconds3(label.end()).as_str());
    push_str(out, ")'");
    assert(out@ =~= start + drawtext_window(label.start as nat, (label.start + label.length) as nat));
}

/// Appends the drawtext filter of one label.
fn push_drawtext_filter(out: &mut Vec<char>, label: &Label, font: &Option<String>)
    ensures
        final(out)@ == old(out)@ + drawtext_filter(label@, opt_view(*font)),
{
    let ghost start = out@;
    push_drawtext_head(out, &label.text, font);
    push_drawtext_style(out, label);
    push_drawtext_window(out, label);
    assert(out@ =~= start + drawtext_filter(label@, opt_view(*font)));
}

/// The optional string's characters.
pub open spec fn opt_view(s: Option<String>) -> Option<Seq<char>> {
    match s {
        Some(t) => Some(t@),
        None => None,
    }
}

/// The `-vf` filtergraph drawing every label: one drawtext filter per label,
/// chained with commas in the order the labels were given.
pub fn build_label_filtergraph(labels: &Vec<Label>, font: &Option<String>) -> (r: String)
    ensures
        r@ == label_filtergraph(labels_view(labels@), opt_view(*font)),
{
    let mut out: Vec<char> = Vec::new();
    let mut i: usize = 0;
    let ghost all = labels_view(labels@);
    assert(all.take(0) =~= Seq::<LabelView>::empty());
    while i < labels.len()
        invariant
            i <= labels.len(),
            all == labels_view(labels@),
            out@ == label_filtergraph(all.take(i as int), opt_view(*font)),
        decreases labels.len() - i,
    {
        if i > 0 {
            out.push(',');
        }
        push_drawtext_filter(&mut out, &labels[i], font);
        proof {
            assert(all.take(i + 1).drop_last() =~= all.take(i as int));
            assert(all.take(i + 1).last() == labels@[i as int]@);
            if i == 0 {
                assert(all.take(1).len() == 1);
                assert(out@ =~= label_filtergraph(all.take(i + 1), opt_view(*font)));
            } else {
                assert(out@ =~= label_filtergraph(all.take(i + 1), opt_view(*font)));
            }
        }
        i = i + 1;
    }
    assert(all.take(labels.len() as int) =~= all);
    string_from(&out)
}

/// The arguments ffmpeg is started with for a label pass: the source, the
/// labels' filtergraph, an H.264 re-encode of the video, and the audio
/// copied as it is.
pub open spec fn label_args(c: LabelConfig) -> Seq<Seq<char>> {
    label_arg_list(c.source@, labels_view(c.labels@), opt_view(c.font), c.output@)
}

/// [`label_args`] for a label pass given by its parts.
pub open spec fn label_arg_list(
    source: Seq<char>,
    labels: Seq<LabelView>,
    font: Option<Seq<char>>,
    output: Seq<char>,
) -> Seq<Seq<char>> {
    seq!["-y"@, "-i"@, source, "-vf"@, label_filtergraph(labels, font)] + h264_args() + seq![
        "-c:a"@,
        "copy"@,
        output,
    ]
}

/// Builds the ffmpeg command for a label pass.
pub fn build_label_command(config: &LabelConfig) -> (r: CommandLine)
    ensures
        r.program@ == "ffmpeg"@,
        arg_views(r.args@) == label_args(*config),
{
    label_command(config.source.as_str(), &config.labels, &config.font, config.output.as_str())
}

/// The ffmpeg command drawing `labels` (with `font`, where given) onto
/// `source`, written to `output`.
pub fn label_command(source: &str, labels: &Vec<Label>, font: &Option<String>, output: &str) -> (r:
    CommandLine)
    ensures
        r.program@ == "ffmpeg"@,
        arg_views(r.args@) == label_arg_list(source@, labels_view(labels@), opt_view(*font), output@),
{
    let mut args: Vec<String> = Vec::new();
    push_arg(&mut args, "-y");
    push_arg(&mut args, "-i");
    push_arg(&mut args, source);
    push_arg(&mut args, "-vf");
    push_owned_arg(&mut args, build_label_filtergraph(labels, font));
    push_h264_args(&mut args);
    push_arg(&mut args, "-c:a");
    push_arg(&mut args, "copy");
    push_arg(&mut args, output);
    assert(arg_views(args@) =~= label_arg_list(source@, labels_view(labels@), opt_view(*font), output@));
    CommandLine { program: String::from_str("ffmpeg"), args }
}

// ---------------------------------------------------------------------------
// One-shot runs (cut, label)
// ---------------------------------------------------------------------------

/// How a one-shot ffmpeg run ended.
#[derive(Debug, Clone)]
pub enum FfmpegRun {
    /// There is no ffmpeg on the PATH.
    NotFound,
    /// ffmpeg could not be started or waited for: the error, as text.
    Failed(String),
    /// ffmpeg ran to its exit: whether it succeeded, its exit status as
    /// text, and what it wrote on stderr (nothing where stderr went to the
    /// terminal).
    Exited { success: bool, status: String, stderr: String },
}

/// The error given where ffmpeg is not installed.
pub const FFMPEG_NOT_FOUND: &'static str = "ffmpeg not found. Install it with: brew install ffmpeg";

/// How a one-shot command ends.
#[derive(Debug)]
pub struct RunEnd {
    /// A partly written output to delete, so that a failed run leaves no
    /// corrupt file.
    pub remove_partial: Option<String>,
    /// Warnings to show.
    pub warnings: Vec<String>,
    /// The path the result was saved to, or the error to report.
    pub result: Result<String, String>,
}

/// `end` reports the error `message`, after deleting `partial` where given,
/// with no warning.
pub open spec fn ends_in_error(end: RunEnd, partial: Option<Seq<char>>, message: Seq<char>) -> bool {
    &&& opt_view(end.remove_partial) == partial
    &&& end.warnings@.len() == 0
    &&& end.result matches Err(e) && e@ == message
}

/// `end` reports the output saved to `path`, after the `warnings`.
pub open spec fn ends_saved(end: RunEnd, path: Seq<char>, warnings: Seq<Seq<char>>) -> bool {
    &&& end.remove_partial is None
    &&& arg_views(end.warnings@) == warnings
    &&& end.result matches Ok(p) && p@ == path
}

/// A run ending in the error `message`, deleting `partial` where given.
pub fn error_end(partial: Option<&str>, message: String) -> (r: RunEnd)
    ensures
        ends_in_error(
            r,
            match partial {
                Some(p) => Some(p@),
                None => None,
            },
            message@,
        ),
{
    let remove_partial = match partial {
        Some(p) => Some(String::from_str(p)),
        None => None,
    };
    RunEnd { remove_partial, warnings: Vec::new(), result: Err(message) }
}

// ---------------------------------------------------------------------------
// What a finished run wrote
// ---------------------------------------------------------------------------

/// The last position at or before `at` where `p` occurs in `s`.
pub open spec fn last_index_from(s: Seq<char>, p: Seq<char>, at: int) -> Option<int>
    decreases at + 1,
{
    if at < 0 {
        None
    } else if at + p.len() <= s.len() && s.subrange(at, at + p.len()) == p {
        Some(at)
    } else {
        last_index_from(s, p, at - 1)
    }
}

/// The characters of `t` up to its first whitespace.
pub open spec fn until_white(t: Seq<char>) -> Seq<char>
    decreases t.len(),
{
    if t.len() == 0 || crate::text::is_white(t[0]) {
        Seq::empty()
    } else {
        seq![t[0]] + until_white(t.drop_first())
    }
}

/// The length of video a finished ffmpeg run reports in its stderr: the
/// token after the last `time=`, read as a timespec.
pub open spec fn written_length(stderr: Seq<char>) -> Option<nat> {
    match last_index_from(stderr, "time="@, stderr.len() - 5) {
        None => None,
        Some(k) => match crate::timespec::timespec_millis(
            until_white(stderr.subrange(k + 5, stderr.len() as int)),
        ) {
            Some(v) => if v <= u64::MAX {
                Some(v)
            } else {
                None
            },
            None => None,
        },
    }
}

/// Parses the length of video ffmpeg wrote from the last `time=` token of its
/// stderr (`time=00:00:05.00`), in milliseconds. `None` where there is no
/// such token or it is not a time (`time=N/A`).
pub fn parse_written_length(stderr: &str) -> (r: Option<u64>)
    ensures
        opt_u64(r) == written_length(stderr@),
{
    let s = chars_of(stderr);
    let marker = chars_of("time=");
    proof {
        reveal_strlit("time=");
    }
    assert(marker@.len() == 5);
    if s.len() < 5 {
        assert(last_index_from(s@, "time="@, s@.len() - 5) is None);
        return None;
    }
    let mut at: usize = s.len() - 5;
    let mut found = false;
    loop
        invariant_except_break
            !found,
        invariant
            s@ == stderr@,
            marker@ == "time="@,
            "time="@.len() == 5,
            s.len() >= 5,
            at <= s.len() - 5,
            last_index_from(s@, "time="@, s@.len() - 5) == last_index_from(s@, "time="@, at as int),
        ensures
            found ==> last_index_from(s@, "time="@, s@.len() - 5) == Some(at as int),
            !found ==> last_index_from(s@, "time="@, s@.len() - 5) is None,
        decreases at,
    {
        if crate::text::matches_at(&s, at, &marker) {
            assert(last_index_from(s@, "time="@, at as int) == Some(at as int));
            found = true;
            break;
        }
        if at == 0 {
            assert(last_index_from(s@, "time="@, -1) is None);
            break;
        }
        at = at - 1;
    }
    if !found {
        return None;
    }
    let rest = slice_chars(&s, at + 5, s.len());
    let mut end: usize = 0;
    assert(rest@.take(0) =~= Seq::<char>::empty());
    assert(rest@.skip(0) =~= rest@);
    while end < rest.len() && !crate::text::is_whitespace_char(rest[end])
        invariant
            end <= rest.len(),
            until_white(rest@) == rest@.take(end as int) + until_white(rest@.skip(end as int)),
        decreases rest.len() - end,
    {
        proof {
            assert(rest@.skip(end as int).drop_first() =~= rest@.skip(end + 1));
            assert(rest@.take(end + 1) =~= rest@.take(end as int) + seq![rest@[end as int]]);
        }
        end = end + 1;
    }
    proof {
        assert(until_white(rest@.skip(end as int)) =~= Seq::<char>::empty());
        assert(rest@.take(end as int) =~= rest@.subrange(0, end as int));
    }
    let token = string_from(&slice_chars(&rest, 0, end));
    match crate::timespec::timespec_value(token.as_str()) {
        Ok(v) => if v <= u64::MAX as u128 {
            Some(v as u64)
        } else {
            None
        },
        Err(_) => None,
    }
}

/// The optional count as a `nat`.
pub open spec fn opt_u64(v: Option<u64>) -> Option<nat> {
    match v {
        Some(x) => Some(x as nat),
        None => None,
    }
}

} // verus!
