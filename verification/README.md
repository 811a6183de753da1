# vidcapture

Record the screen and audio from the terminal, cut a precise range out of a
video, and draw timed text labels onto one — all by running `ffmpeg`.

The crate is split in two:

- `src/` is the library, written in Verus and verified: the timespec parser,
  the label-spec reader, the ffmpeg command lines for capturing, cutting and
  labelling, the parser of ffmpeg's device listing and progress line, output
  naming, the capture session's lifecycle, and the step-by-step decisions of
  a capture, a cut or a label pass, which `app/` carries out against the
  real process, terminal and disk. Public functions state in their `ensures`
  what they return or change; the properties that span functions are public
  proof functions (`lemma_*`). Three kinds of value are stated only as far as
  they can be: readings of the monotonic clock (nothing is claimed of them
  beyond "zero before the start"), the answers of the ffmpeg process, which
  the capture session states through the model every `FfmpegProcess`
  implementation supplies, and what `std::path`, `str::to_lowercase` and
  chrono compute, which are named by spec functions.
- `app/` is the `vidcapture` command around it: command-line parsing with
  clap, the ffmpeg processes, the terminal's raw mode and stop key, and the
  file system.

Modules of the library:

| module      | what it holds |
|-------------|---------------|
| `timespec`  | `10s`, `1500ms`, `1h30m`, `00:01:30.500`: exact parsing to milliseconds |
| `digits`    | unbounded decimal numbers the timespec parser computes with |
| `cli`       | the commands' options, cut-range validation, label specs |
| `ffmpeg`    | command lines, device listing, written length, drawtext escaping |
| `output`    | capture and segment file names; where a cut or a labeled copy goes, step by step, down to the first free name |
| `capture`   | the steps of `start`, and the capture session: start, stop, expiry, exit codes |
| `cut`       | the steps of a cut and its warnings |
| `label`     | the steps of a label pass and its warnings |
| `terminal`  | the status line, the stop key, the help text |
| `text`      | character helpers shared by the parsers and formatters |

`tests/` runs the library on concrete values.
