//! A label pass, run to completion: the steps it takes (check the source,
//! resolve the output, run ffmpeg once), which labels the source is too short
//! to show, and what an ffmpeg without drawtext needs.
//!
//! One-shot by design: no raw mode, no polling loop, no stop key.

use crate::cli::{Label, LabelArgs, LabelView};
use crate::ffmpeg::{
    arg_views, ends_in_error, ends_saved, error_end, label_arg_list, label_command, labels_view,
    opt_view, parse_written_length, written_length, CommandLine, FfmpegRun, RunEnd,
    FFMPEG_NOT_FOUND,
};
use crate::cut::{failure_text, ffmpeg_failure_message};
use crate::output::SourceKind;
use crate::text::{chars_of, contains_seq, contains_str, decimal, push_decimal, push_str, string_from};
use vstd::prelude::*;

verus! {

/// The text a label pass reports its saved file with: this, a space, and the
/// path.
pub const LABEL_SAVED: &'static str = "Labeled video saved to";

/// The warning for label number `number` (from 1) that starts at or after
/// the end of the written video.
pub open spec fn unreachable_text(number: nat, l: LabelView, written: nat) -> Seq<char> {
    "label "@ + decimal(number) + " ('"@ + l.text + "') starts at "@ + decimal(l.start)
        + "ms, past the end of the source video ("@ + decimal(written) + "ms), so it never appears"@
}

/// The warnings for the labels, numbered from `first`, that start at or
/// after `written` milliseconds, in order.
pub open spec fn unreachable_texts(labels: Seq<LabelView>, first: nat, written: nat) -> Seq<
    Seq<char>,
>
    decreases labels.len(),
{
    if labels.len() == 0 {
        Seq::empty()
    } else {
        let rest = unreachable_texts(labels.drop_first(), first + 1, written);
        if labels[0].start >= written {
            seq![unreachable_text(first, labels[0], written)] + rest
        } else {
            rest
        }
    }
}

/// The characters of each string.
pub open spec fn texts_view(v: Seq<String>) -> Seq<Seq<char>> {
    v.map_values(|s: String| s@)
}

/// The warnings for every label whose window starts at or after the end of
/// the `written` milliseconds of video ffmpeg wrote, because such a label
/// never becomes visible. A window that merely runs past the end is not
/// reported: the label shows for the footage that exists.
pub fn unreachable_label_warnings(labels: &Vec<Label>, written: u64) -> (r: Vec<String>)
    ensures
        texts_view(r@) == unreachable_texts(labels_view(labels@), 1, written as nat),
{
    let ghost all = labels_view(labels@);
    let mut out: Vec<String> = Vec::new();
    let mut i: usize = 0;
    assert(all.skip(0) =~= all);
    assert(texts_view(out@) =~= Seq::<Seq<char>>::empty());
    while i < labels.len()
        invariant
            i <= labels.len(),
            all == labels_view(labels@),
            unreachable_texts(all, 1, written as nat) == texts_view(out@) + unreachable_texts(
                all.skip(i as int),
                (i + 1) as nat,
                written as nat,
            ),
        decreases labels.len() - i,
    {
        let label = &labels[i];
        proof {
            assert(all.skip(i as int)[0] == label@);
            assert(all.skip(i as int).drop_first() =~= all.skip(i + 1));
        }
        if label.start >= written {
            let mut w: Vec<char> = Vec::new();
            push_str(&mut w, "label ");
            push_decimal(&mut w, (i as u64) + 1);
            push_str(&mut w, " ('");
            push_str(&mut w, label.text.as_str());
            push_str(&mut w, "') starts at ");
            push_decimal(&mut w, label.start);
            push_str(&mut w, "ms, past the end of the source video (");
            push_decimal(&mut w, written);
            push_str(&mut w, "ms), so it never appears");
            assert(w@ =~= unreachable_text((i + 1) as nat, label@, written as nat));
            let ghost before = texts_view(out@);
            out.push(string_from(&w));
            assert(texts_view(out@) =~= before.push(w@));
            assert(seq![w@] + unreachable_texts(all.skip(i + 1), (i + 2) as nat, written as nat)
                =~= unreachable_texts(all.skip(i as int), (i + 1) as nat, written as nat));
        }
        i = i + 1;
    }
    assert(all.skip(i as int) =~= Seq::<LabelView>::empty());
    assert(texts_view(out@) + Seq::<Seq<char>>::empty() =~= texts_view(out@));
    out
}

/// The explanation for a drawtext failure: an ffmpeg built without the
/// drawtext filter, or one that finds no font.
pub open spec fn drawtext_diagnosis(stderr: Seq<char>) -> Option<Seq<char>> {
    if contains_seq(stderr, "No such filter: 'drawtext'"@) {
        Some(MISSING_DRAWTEXT@)
    } else if contains_seq(stderr, "Cannot find a valid font"@) || contains_seq(
        stderr,
        "No font filename provided"@,
    ) || contains_seq(stderr, "Font not found"@) {
        Some(MISSING_FONT@)
    } else {
        None
    }
}

/// The instructions for an ffmpeg built without the drawtext filter.
pub const MISSING_DRAWTEXT: &'static str = "This ffmpeg was built without the drawtext filter, which labels need.\nInstall one built with libfreetype:\nbrew install ffmpeg";

/// The instructions for an ffmpeg that finds no font to draw with.
pub const MISSING_FONT: &'static str = "ffmpeg could not find a font to draw labels with.\nPoint it at one explicitly, e.g.:\n--font /System/Library/Fonts/Helvetica.ttc";

/// Turns the two ffmpeg build problems that stop `label` specifically into
/// instructions. `drawtext` is compiled in only with libfreetype, and it
/// resolves the default font through fontconfig; an ffmpeg without either
/// runs `start` and `cut` perfectly well and fails only here.
pub fn diagnose_drawtext_failure(stderr: &str) -> (r: Option<String>)
    ensures
        match drawtext_diagnosis(stderr@) {
            Some(d) => r matches Some(x) && x@ == d,
            None => r is None,
        },
{
    let s = chars_of(stderr);
    if contains_str(&s, "No such filter: 'drawtext'") {
        return Some(String::from_str(MISSING_DRAWTEXT));
    }
    if contains_str(&s, "Cannot find a valid font") || contains_str(&s, "No font filename provided")
        || contains_str(&s, "Font not found") {
        return Some(String::from_str(MISSING_FONT));
    }
    None
}

/// The warnings a finished label pass gives: a label that starts at or past
/// the end of what ffmpeg wrote, where it reported that length.
pub open spec fn label_warnings(labels: Seq<LabelView>, written: Option<nat>) -> Seq<Seq<char>> {
    match written {
        Some(w) => unreachable_texts(labels, 1, w),
        None => Seq::empty(),
    }
}

/// The error a failed label pass reports: the diagnosis of a missing
/// drawtext filter or font where ffmpeg's stderr shows one, else ffmpeg's
/// own error.
pub open spec fn label_failure_text(verbose: bool, status: Seq<char>, stderr: Seq<char>) -> Seq<
    char,
> {
    match drawtext_diagnosis(stderr) {
        Some(d) => d,
        None => failure_text(verbose, status, stderr),
    }
}

/// What a label pass has found out so far.
pub struct LabelProgress {
    /// What the source path holds, once checked.
    pub source: Option<SourceKind>,
    /// The output path, or why none could be resolved, once resolved.
    pub output: Option<Result<String, String>>,
    /// How ffmpeg ended, once run.
    pub ffmpeg: Option<FfmpegRun>,
}

/// The step a label pass takes next.
pub enum LabelStep {
    /// Check what the source path holds.
    InspectSource,
    /// Resolve the output path (see `resolve_label_output_path`).
    ResolveOutput,
    /// Run this ffmpeg command to completion.
    RunFfmpeg(CommandLine),
    /// Stop here.
    Finish(RunEnd),
}

/// Decides the next step of `label` from what it has found out so far.
///
/// The source must be an existing file; then the output path is resolved and
/// ffmpeg run once, drawing every label. A failed run deletes the partial
/// output and reports the drawtext diagnosis or ffmpeg's error; a successful
/// one warns about each label that starts past the end of the video written.
pub fn run(args: &LabelArgs, progress: &LabelProgress) -> (r: LabelStep)
    ensures
        r matches LabelStep::Finish(e) ==> (e.remove_partial matches Some(p) ==> (
        progress.output matches Some(Ok(o)) && o@ == p@)),
        match progress.source {
            None => r is InspectSource,
            Some(SourceKind::Missing) => r matches LabelStep::Finish(e) && ends_in_error(
                e,
                None,
                "Source file not found: "@ + args.source@,
            ),
            Some(SourceKind::NotAFile) => r matches LabelStep::Finish(e) && ends_in_error(
                e,
                None,
                "Source is not a file: "@ + args.source@,
            ),
            Some(SourceKind::File) => match progress.output {
                None => r is ResolveOutput,
                Some(Err(m)) => r matches LabelStep::Finish(e) && ends_in_error(e, None, m@),
                Some(Ok(path)) => match progress.ffmpeg {
                    None => r matches LabelStep::RunFfmpeg(c) && c.program@ == "ffmpeg"@
                        && arg_views(c.args@) == label_arg_list(
                        args.source@,
                        labels_view(args.labels@),
                        opt_view(args.font),
                        path@,
                    ),
                    Some(FfmpegRun::NotFound) => r matches LabelStep::Finish(e) && ends_in_error(
                        e,
                        None,
                        FFMPEG_NOT_FOUND@,
                    ),
                    Some(FfmpegRun::Failed(m)) => r matches LabelStep::Finish(e) && ends_in_error(
                        e,
                        Some(path@),
                        m@,
                    ),
                    Some(FfmpegRun::Exited { success, status, stderr }) => if success {
                        r matches LabelStep::Finish(e) && ends_saved(
                            e,
                            path@,
                            label_warnings(labels_view(args.labels@), written_length(stderr@)),
                        )
                    } else {
                        r matches LabelStep::Finish(e) && ends_in_error(
                            e,
                            Some(path@),
                            label_failure_text(args.verbose, status@, stderr@),
                        )
                    },
                },
            },
        },
{
    match progress.source {
        None => return LabelStep::InspectSource,
        Some(SourceKind::Missing) => {
            let mut m = String::from_str("Source file not found: ");
            m.append(args.source.as_str());
            return LabelStep::Finish(error_end(None, m));
        },
        Some(SourceKind::NotAFile) => {
            let mut m = String::from_str("Source is not a file: ");
            m.append(args.source.as_str());
            return LabelStep::Finish(error_end(None, m));
        },
        Some(SourceKind::File) => {},
    }
    let path = match &progress.output {
        None => return LabelStep::ResolveOutput,
        Some(Err(m)) => return LabelStep::Finish(error_end(None, m.clone())),
        Some(Ok(path)) => path,
    };
    match &progress.ffmpeg {
        None => LabelStep::RunFfmpeg(
            label_command(args.source.as_str(), &args.labels, &args.font, path.as_str()),
        ),
        Some(FfmpegRun::NotFound) => LabelStep::Finish(
            error_end(None, String::from_str(FFMPEG_NOT_FOUND)),
        ),
        Some(FfmpegRun::Failed(m)) => LabelStep::Finish(error_end(Some(path.as_str()), m.clone())),
        Some(FfmpegRun::Exited { success, status, stderr }) => {
            if *success {
                let written = parse_written_length(stderr.as_str());
                let warnings = match written {
                    Some(w) => unreachable_label_warnings(&args.labels, w),
                    None => Vec::new(),
                };
                proof {
                    assert(arg_views(warnings@) =~= label_warnings(
                        labels_view(args.labels@),
                        written_length(stderr@),
                    ));
                }
                LabelStep::Finish(
                    RunEnd { remove_partial: None, warnings, result: Ok(path.clone()) },
                )
            } else {
                let message = match diagnose_drawtext_failure(stderr.as_str()) {
                    Some(d) => d,
                    None => ffmpeg_failure_message(args.verbose, status.as_str(), stderr.as_str()),
                };
                LabelStep::Finish(error_end(Some(path.as_str()), message))
            }
        },
    }
}

} // verus!
