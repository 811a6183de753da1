//! A cut, run to completion: the steps it takes (check the source, resolve
//! the output, run ffmpeg once), how it reports a failure, and whether the
//! written range fell short of the one requested.
//!
//! One-shot by design: no raw mode, no polling loop, no stop key.

use crate::cli::{opt_nat, range_error, start_and_length, CutArgs, RangeSpelling};
use crate::ffmpeg::{
    arg_views, build_cut_command, cut_arg_list, ends_in_error, ends_saved, error_end,
    parse_written_length, written_length, CommandLine, CutConfig, FfmpegRun, RunEnd,
    FFMPEG_NOT_FOUND,
};
use crate::output::SourceKind;
use crate::text::{decimal, push_decimal, push_str, string_from};
use vstd::prelude::*;

verus! {

/// The text a cut reports its saved file with: this, a space, and the path.
pub const CUT_SAVED: &'static str = "Cut saved to";

/// A written range shorter than the requested cut length by more than this
/// many milliseconds is reported as a short cut.
pub const SHORT_CUT_TOLERANCE_MS: u64 = 250;

/// Whether a cut that asked for `requested` milliseconds and got `written`
/// fell short by more than the tolerance.
pub open spec fn is_short_cut(requested: nat, written: nat) -> bool {
    requested > written + SHORT_CUT_TOLERANCE_MS
}

/// The warning for a short cut.
pub open spec fn short_cut_text(requested: nat, written: nat) -> Seq<char> {
    "cut range extends past end of source (requested "@ + decimal(requested) + "ms, wrote "@
        + decimal(written) + "ms)"@
}

/// The warning to print when the written range falls short of the requested
/// cut length by more than [`SHORT_CUT_TOLERANCE_MS`]; `None` otherwise.
/// Running past the end of the source is not an error: ffmpeg writes the
/// footage that exists.
pub fn short_cut_warning(requested: u64, written: u64) -> (r: Option<String>)
    ensures
        r is Some <==> is_short_cut(requested as nat, written as nat),
        r matches Some(w) ==> w@ == short_cut_text(requested as nat, written as nat),
{
    let shortfall = if requested > written {
        requested - written
    } else {
        0
    };
    if shortfall > SHORT_CUT_TOLERANCE_MS {
        let mut out: Vec<char> = Vec::new();
        push_str(&mut out, "cut range extends past end of source (requested ");
        push_decimal(&mut out, requested);
        push_str(&mut out, "ms, wrote ");
        push_decimal(&mut out, written);
        push_str(&mut out, "ms)");
        assert(out@ =~= short_cut_text(requested as nat, written as nat));
        Some(string_from(&out))
    } else {
        None
    }
}

/// The error for a failed ffmpeg run. Under `-v` ffmpeg's own output already
/// reached the terminal, so only its exit status is given; otherwise its
/// stderr is.
pub open spec fn failure_text(verbose: bool, status: Seq<char>, stderr: Seq<char>) -> Seq<char> {
    if verbose {
        "ffmpeg exited with "@ + status
    } else {
        "ffmpeg failed:\n"@ + stderr
    }
}

/// Builds the error for a failed ffmpeg run, which reports ffmpeg's error
/// exactly once in either mode.
pub fn ffmpeg_failure_message(verbose: bool, status: &str, stderr: &str) -> (r: String)
    ensures
        r@ == failure_text(verbose, status@, stderr@),
{
    if verbose {
        let mut m = String::from_str("ffmpeg exited with ");
        m.append(status);
        m
    } else {
        let mut m = String::from_str("ffmpeg failed:\n");
        m.append(stderr);
        m
    }
}

/// The warnings a finished cut gives: a short cut, where ffmpeg reported
/// the length it wrote.
pub open spec fn cut_warnings(requested: nat, written: Option<nat>) -> Seq<Seq<char>> {
    match written {
        Some(w) => if is_short_cut(requested, w) {
            seq![short_cut_text(requested, w)]
        } else {
            Seq::empty()
        },
        None => Seq::empty(),
    }
}

/// What a cut has found out so far.
pub struct CutProgress {
    /// What the source path holds, once checked.
    pub source: Option<SourceKind>,
    /// The output path, or why none could be resolved, once resolved.
    pub output: Option<Result<String, String>>,
    /// How ffmpeg ended, once run.
    pub ffmpeg: Option<FfmpegRun>,
}

/// The step a cut takes next.
pub enum CutStep {
    /// Check what the source path holds.
    InspectSource,
    /// Resolve the output path (see `resolve_cut_output_path`).
    ResolveOutput,
    /// Run this ffmpeg command to completion.
    RunFfmpeg(CommandLine),
    /// Stop here.
    Finish(RunEnd),
}

/// Decides the next step of `cut` from what it has found out so far.
///
/// The source must be an existing file, and the range valid; then the
/// output path is resolved and ffmpeg run once. A failed run deletes the
/// partial output and reports ffmpeg's error; a successful one warns where
/// ffmpeg wrote a range more than [`SHORT_CUT_TOLERANCE_MS`] shorter than
/// the one requested.
pub fn run(args: &CutArgs, progress: &CutProgress) -> (r: CutStep)
    ensures
        r matches CutStep::Finish(e) ==> (e.remove_partial matches Some(p) ==> (
        progress.output matches Some(Ok(o)) && o@ == p@)),
        match progress.source {
            None => r is InspectSource,
            Some(SourceKind::Missing) => r matches CutStep::Finish(e) && ends_in_error(
                e,
                None,
                "Source file not found: "@ + args.source@,
            ),
            Some(SourceKind::NotAFile) => r matches CutStep::Finish(e) && ends_in_error(
                e,
                None,
                "Source is not a file: "@ + args.source@,
            ),
            Some(SourceKind::File) => match start_and_length(
                args.from as nat,
                opt_nat(args.to),
                opt_nat(args.length),
            ) {
                None => r matches CutStep::Finish(e) && ends_in_error(
                    e,
                    None,
                    range_error(
                        args.from as nat,
                        opt_nat(args.to),
                        opt_nat(args.length),
                        RangeSpelling::CutFlags,
                    ),
                ),
                Some((start, length)) => match progress.output {
                    None => r is ResolveOutput,
                    Some(Err(m)) => r matches CutStep::Finish(e) && ends_in_error(e, None, m@),
                    Some(Ok(path)) => match progress.ffmpeg {
                        None => r matches CutStep::RunFfmpeg(c) && c.program@ == "ffmpeg"@
                            && arg_views(c.args@) == cut_arg_list(
                            args.source@,
                            start,
                            length,
                            path@,
                            args.fast,
                        ),
                        Some(FfmpegRun::NotFound) => r matches CutStep::Finish(e) && ends_in_error(
                            e,
                            None,
                            FFMPEG_NOT_FOUND@,
                        ),
                        Some(FfmpegRun::Failed(m)) => r matches CutStep::Finish(e)
                            && ends_in_error(e, Some(path@), m@),
                        Some(FfmpegRun::Exited { success, status, stderr }) => if success {
                            r matches CutStep::Finish(e) && ends_saved(
                                e,
                                path@,
                                cut_warnings(length, written_length(stderr@)),
                            )
                        } else {
                            r matches CutStep::Finish(e) && ends_in_error(
                                e,
                                Some(path@),
                                failure_text(args.verbose, status@, stderr@),
                            )
                        },
                    },
                },
            },
        },
{
    match progress.source {
        None => return CutStep::InspectSource,
        Some(SourceKind::Missing) => {
            let mut m = String::from_str("Source file not found: ");
            m.append(args.source.as_str());
            return CutStep::Finish(error_end(None, m));
        },
        Some(SourceKind::NotAFile) => {
            let mut m = String::from_str("Source is not a file: ");
            m.append(args.source.as_str());
            return CutStep::Finish(error_end(None, m));
        },
        Some(SourceKind::File) => {},
    }
    let range = match args.validate_cut_range() {
        Ok(range) => range,
        Err(e) => return CutStep::Finish(error_end(None, e)),
    };
    let path = match &progress.output {
        None => return CutStep::ResolveOutput,
        Some(Err(m)) => return CutStep::Finish(error_end(None, m.clone())),
        Some(Ok(path)) => path,
    };
    match &progress.ffmpeg {
        None => {
            let config = CutConfig::new(args.source.as_str(), range.start, range.length, path.as_str())
                .with_fast(args.fast);
            CutStep::RunFfmpeg(build_cut_command(&config))
        },
        Some(FfmpegRun::NotFound) => CutStep::Finish(
            error_end(None, String::from_str(FFMPEG_NOT_FOUND)),
        ),
        Some(FfmpegRun::Failed(m)) => CutStep::Finish(error_end(Some(path.as_str()), m.clone())),
        Some(FfmpegRun::Exited { success, status, stderr }) => {
            if *success {
                let mut warnings: Vec<String> = Vec::new();
                let written = parse_written_length(stderr.as_str());
                if let Some(w) = written {
                    if let Some(warning) = short_cut_warning(range.length, w) {
                        warnings.push(warning);
                    }
                }
                proof {
                    assert(arg_views(warnings@) =~= cut_warnings(
                        range.length as nat,
                        written_length(stderr@),
                    ));
                }
                CutStep::Finish(
                    RunEnd { remove_partial: None, warnings, result: Ok(path.clone()) },
                )
            } else {
                CutStep::Finish(
                    error_end(
                        Some(path.as_str()),
                        ffmpeg_failure_message(args.verbose, status.as_str(), stderr.as_str()),
                    ),
                )
            }
        },
    }
}

/// Both spellings of a cut range build the same ffmpeg command: an end
/// offset `to` is turned into the length `to - from` before the command is
/// built, so `--to` and the matching `--length` cut the same footage.
pub proof fn lemma_both_spellings_build_the_same_cut(
    source: Seq<char>,
    from: nat,
    to: nat,
    output: Seq<char>,
    fast: bool,
)
    requires
        from < to,
    ensures
        start_and_length(from, Some(to), None) matches Some((s1, l1)) && start_and_length(
            from,
            None,
            Some((to - from) as nat),
        ) matches Some((s2, l2)) && cut_arg_list(source, s1, l1, output, fast) == cut_arg_list(
            source,
            s2,
            l2,
            output,
            fast,
        ),
{
}

} // verus!
