//! What the tool shows in the terminal: the live status line of a capture,
//! the stop key, and the help text.

use crate::text::{decimal, push_decimal, push_padded, push_str, string_from, zero_padded};
use vstd::prelude::*;

verus! {

/// A number of seconds as the status line writes it: `7s`, `1m05s`,
/// `1h01m01s`.
pub open spec fn status_duration_text(total_secs: nat) -> Seq<char> {
    let hours = total_secs / 3600;
    let minutes = (total_secs % 3600) / 60;
    let seconds = total_secs % 60;
    if hours > 0 {
        decimal(hours) + seq!['h'] + zero_padded(minutes, 2) + seq!['m'] + zero_padded(seconds, 2)
            + seq!['s']
    } else if minutes > 0 {
        decimal(minutes) + seq!['m'] + zero_padded(seconds, 2) + seq!['s']
    } else {
        decimal(seconds) + seq!['s']
    }
}

/// Formats a number of seconds as a compact string for the status line:
/// `0s`, `1m05s`, `1h01m01s`.
pub fn format_status_seconds(total: u64) -> (r: String)
    ensures
        r@ == status_duration_text(total as nat),
{
    let hours = total / 3600;
    let minutes = (total % 3600) / 60;
    let seconds = total % 60;
    let mut out: Vec<char> = Vec::new();
    if hours > 0 {
        push_decimal(&mut out, hours);
        out.push('h');
        push_padded(&mut out, minutes, 2);
        out.push('m');
        push_padded(&mut out, seconds, 2);
        out.push('s');
    } else if minutes > 0 {
        push_decimal(&mut out, minutes);
        out.push('m');
        push_padded(&mut out, seconds, 2);
        out.push('s');
    } else {
        push_decimal(&mut out, seconds);
        out.push('s');
    }
    assert(out@ =~= status_duration_text(total as nat));
    string_from(&out)
}

/// Formats a duration of `ms` milliseconds, in whole seconds, as a compact
/// string for the status line: `0s`, `1m05s`, `1h01m01s`.
pub fn format_status_duration(ms: u64) -> (r: String)
    ensures
        r@ == status_duration_text((ms / 1000) as nat),
{
    format_status_seconds(ms / 1000)
}

/// What remains, in nanoseconds, of a capture of `total` milliseconds after
/// `elapsed` nanoseconds; never below zero.
pub open spec fn remaining_nanos(elapsed: nat, total: u64) -> nat {
    if total * 1_000_000 >= elapsed {
        (total * 1_000_000 - elapsed) as nat
    } else {
        0
    }
}

/// The capture status line after `elapsed` nanoseconds of a capture of
/// `duration` milliseconds (`None`: until stopped). Both times are shown in
/// whole seconds, rounded down; the remaining time never goes below zero.
pub open spec fn capture_status_text(elapsed: nat, duration: Option<u64>) -> Seq<char> {
    match duration {
        Some(total) => "Capturing ["@ + status_duration_text(elapsed / 1_000_000_000)
            + " elapsed, "@ + status_duration_text(remaining_nanos(elapsed, total) / 1_000_000_000)
            + " remaining], press s to stop."@,
        None => "Capturing ["@ + status_duration_text(elapsed / 1_000_000_000)
            + " elapsed], press s to stop."@,
    }
}

/// The countdown stops at zero: once the elapsed time reaches the duration,
/// the status line shows `0s remaining`, however late it is drawn.
pub proof fn lemma_remaining_time_stops_at_zero(elapsed: nat, total: u64)
    requires
        elapsed >= total * 1_000_000,
    ensures
        capture_status_text(elapsed, Some(total)) == "Capturing ["@ + status_duration_text(
            elapsed / 1_000_000_000,
        ) + " elapsed, "@ + seq!['0', 's'] + " remaining], press s to stop."@,
{
    assert(decimal(0) == seq!['0']);
    assert(status_duration_text(0) =~= seq!['0', 's']);
}

/// Builds the capture status line for `elapsed` nanoseconds of a capture of
/// `duration` milliseconds: the elapsed time, the remaining time where there
/// is a duration, and the prompt to press `s`.
pub fn format_capture_status(elapsed: u64, duration: Option<u64>) -> (r: String)
    ensures
        r@ == capture_status_text(elapsed as nat, duration),
{
    let elapsed_text = format_status_seconds(elapsed / 1_000_000_000);
    let mut out: Vec<char> = Vec::new();
    push_str(&mut out, "Capturing [");
    push_str(&mut out, elapsed_text.as_str());
    match duration {
        Some(total) => {
            let total_nanos: u128 = (total as u128) * 1_000_000;
            let remaining: u128 = if total_nanos >= elapsed as u128 {
                total_nanos - elapsed as u128
            } else {
                0
            };
            assert(remaining == remaining_nanos(elapsed as nat, total));
            let secs: u128 = remaining / 1_000_000_000;
            assert(secs <= u64::MAX) by (nonlinear_arith)
                requires
                    secs == remaining / 1_000_000_000,
                    remaining <= total_nanos,
                    total_nanos == total * 1_000_000,
                    total <= u64::MAX,
            ;
            push_str(&mut out, " elapsed, ");
            push_str(&mut out, format_status_seconds(secs as u64).as_str());
            push_str(&mut out, " remaining], press s to stop.");
        },
        None => {
            push_str(&mut out, " elapsed], press s to stop.");
        },
    }
    assert(out@ =~= capture_status_text(elapsed as nat, duration));
    string_from(&out)
}

/// Whether a key press stops the capture: `s`, in either case.
pub fn is_stop_key(key: Option<char>) -> (r: bool)
    ensures
        r == (key == Some('s') || key == Some('S')),
{
    match key {
        Some(c) => c == 's' || c == 'S',
        None => false,
    }
}

/// Waits for the stop key over one capture session.
///
/// Keys can be read only while the terminal is in raw mode; where it could
/// not be put in raw mode (a non-interactive terminal), waiting just lets the
/// timeout pass and no key ever stops the capture.
pub struct StopKeyListener {
    raw_mode_enabled: bool,
}

impl StopKeyListener {
    /// A listener; `raw_mode_enabled` says whether the terminal could be put
    /// in raw mode.
    pub fn new(raw_mode_enabled: bool) -> (r: Self)
        ensures
            r.raw_mode_enabled() == raw_mode_enabled,
    {
        StopKeyListener { raw_mode_enabled }
    }

    /// Whether the terminal is in raw mode, so that keys can be read.
    pub closed spec fn raw_mode_enabled(&self) -> bool {
        self.raw_mode_enabled
    }

    /// Whether keys are read while waiting; where they are not, waiting is a
    /// plain sleep until the timeout.
    pub fn reads_keys(&self) -> (r: bool)
        ensures
            r == self.raw_mode_enabled(),
    {
        self.raw_mode_enabled
    }

    /// Whether waiting stopped the capture, given the key that arrived before
    /// the timeout (`None` where none did, or the event was not a character
    /// key): only `s` or `S`, and only with raw mode on.
    pub fn wait_for_stop_key(&self, key: Option<char>) -> (r: bool)
        ensures
            r == (self.raw_mode_enabled() && (key == Some('s') || key == Some('S'))),
    {
        self.raw_mode_enabled && is_stop_key(key)
    }
}

/// The help text: commands, flags, the label spec and timespec notations,
/// setup instructions, and examples.
pub const HELP_TEXT: &'static str = "vidcapture — CLI screen and audio recorder for macOS

USAGE:
    vidcapture <COMMAND> [FLAGS]
    vidcapture -h | --help    Show short flag help (auto-generated by clap)

COMMANDS:
    start    Start capturing screen and audio
    cut      Cut a range out of an existing video file
    label    Draw timed text labels onto an existing video file
    help     Show this help message with setup instructions

FLAGS (start):
    -d, --duration <TIME>    Capture duration. Stops automatically after this time.
                             Examples: 10s, 2m, 1h, 1h30m10s
    -e, --every <TIME>       Interval mode. Split the capture into segments of this duration.
                             Examples: 10s, 2m
                             Each segment is a standalone, playable MP4.
    -o, --output <DIR>       Output directory for the recorded file(s).
                             Default: current working directory.
                             Example: ./recordings/
                             Created if it does not exist. Filenames auto-increment on collision.
    -v, --verbose            Show ffmpeg output while recording.

FLAGS (cut):
    <SOURCE>                 Path to the source video file. Required.
    -f, --from <TIME>        Start offset of the cut range (default: 0s).
    -t, --to <TIME>          End offset of the cut range. Conflicts with --length.
    -l, --length <TIME>      Cut length. Conflicts with --to.
    -o, --output <PATH>      Output file or directory.
        --fast               Stream-copy instead of re-encoding.
    -v, --verbose            Show ffmpeg output.
    cut requires ffmpeg but not BlackHole, and never touches the source video.

FLAGS (label):
    <SOURCE>                 Path to the source video file. Required.
    -l, --label <SPEC>       A label spec. Repeat -l once per label. Required.
                             Example: -l \"text=Intro,from=1m32s,to=2m,position=top\"
        --font <PATH>        Font file to draw labels with.
                             Default: the system font ffmpeg resolves.
                             Example: /System/Library/Fonts/Helvetica.ttc
    -o, --output <PATH>      Output file or directory.
                             Default: <source>_labeled.mp4 beside the source.
    -v, --verbose            Show ffmpeg output.
    label re-encodes the video and never touches the source video.

LABEL SPEC:
    A comma-separated list of key=value pairs describing one label:
    the text, the label window it is visible for, and how it is drawn.

    text=<TEXT>              The text drawn on the video. Required.
    from=<TIME>              Start of the label window (default: 0s).
    to=<TIME>                End of the label window. Conflicts with length.
    length=<TIME>            How long the label window lasts. Conflicts with to.
    position=top|bottom      Where the label sits in the frame (default: bottom).
    color=<COLOR>            Text color (default: white).
    size=<PIXELS>            Font size in pixels (default: 32).
    background=<COLOR>       Color of the band drawn behind the text.
                             Default: black@0.5; background=none draws the text bare.

    Colors are ffmpeg color names or #RRGGBB, with an optional alpha
    suffix: white, yellow, #ffcc00, black@0.5.
    Time values use the same timespec as every other flag (see below).
    Write a literal comma in text as \\, and a literal backslash as \\\\.

DURATION FORMAT:
    A timespec is one of two notations:

    Unit-suffixed: a sequence of <number><unit> pairs.
        Units: h (hours), m (minutes), s (seconds), ms (milliseconds).
        Decimals are allowed: 1.5s = 1500ms, 0.25m = 15s.
        Examples:
            10s         10 seconds
            1500ms      1.5 seconds
            1.5s        1.5 seconds
            2m          2 minutes
            1h          1 hour
            1h30m       1 hour 30 minutes
            1h30m10s    1 hour 30 minutes 10 seconds

    Timestamp: HH:MM:SS[.mmm] or MM:SS[.mmm].
        Examples:
            00:01:30.500   1 minute 30.5 seconds
            01:30          1 minute 30 seconds
            1:02:03.250    1 hour 2 minutes 3.25 seconds

SETUP:

  1. Install ffmpeg:
       brew install ffmpeg
     Verify with: ffmpeg -version

  2. Install BlackHole 2ch (for system audio capture):
       brew install blackhole-2ch

  3. Configure Multi-Output Device in Audio MIDI Setup:
       a. Open Audio MIDI Setup (in /Applications/Utilities).
       b. Click the + button at the bottom-left and choose \"Create Multi-Output Device\".
       c. In the new device, check both \"BlackHole 2ch\" and your speakers/headphones.
       d. Right-click the Multi-Output Device and select \"Use This Device For Sound Output\".
       e. Set its drift correction to the BlackHole entry.

  4. Sanity check that ffmpeg sees your devices:
       ffmpeg -f avfoundation -list_devices true -i \"\"

EXAMPLES:
    vidcapture start                      # Record until you press 's'
    vidcapture start -d 30s               # Record for 30 seconds
    vidcapture start -e 10s               # Cut into 10-second segments
    vidcapture start -d 1m -e 10s         # 6 segments of 10 seconds, then stop
    vidcapture start -o ./recordings/     # Save into ./recordings/
    vidcapture start -v                   # Show ffmpeg output while recording
    vidcapture cut talk.mp4 --length 5s   # First 5 seconds
    vidcapture cut talk.mp4 --from 10s --to 25s  # From 10s to 25s
    vidcapture cut talk.mp4 --from 10s --length 1.5s  # 1.5s starting at 10s

    # A label across the bottom from 1m32s to 2m:
    vidcapture label talk.mp4 -l \"text=Setting up,from=1m32s,to=2m\"

    # Two labels, one on top with a band behind it:
    vidcapture label talk.mp4 \\
        -l \"text=Intro,from=0s,to=1m,position=top,background=black@0.5\" \\
        -l \"text=Live demo,from=1m,length=90s,color=#ffcc00,size=48\"
";

/// Formats the help text.
pub fn format_help() -> (r: String)
    ensures
        r@ == HELP_TEXT@,
{
    String::from_str(HELP_TEXT)
}

} // verus!
