//! The command line's values: what each command takes, and the validation
//! that turns a cut range or a label spec into what ffmpeg is given.
//!
//! Durations are carried as whole milliseconds.

use crate::text::{
    ascii_lower, chars_of, equals_str, find_char, first_index, is_digit, is_white, join3, lowercase,
    same_chars, slice_chars, string_from, to_lowercase, trim, trim_chars, trim_end, trim_start,
};
use crate::timespec::{
    duration_text, format_duration, is_digit_run, mantissa, parse_positive_timespec,
    parse_timespec, read_timestamp_field, timespec_error, timespec_fits, timespec_in_range,
    timespec_millis,
};
use vstd::prelude::*;

verus! {

/// The parsed command line.
#[derive(Debug, Clone)]
pub struct Args {
    pub command: Command,
}

/// The commands the tool offers.
#[derive(Debug, Clone)]
pub enum Command {
    /// Start capturing screen and audio.
    Start(StartArgs),
    /// Cut a range out of an existing video file.
    Cut(CutArgs),
    /// Draw timed text labels onto an existing video file.
    Label(LabelArgs),
    /// Show help with setup instructions.
    Help,
}

/// Options of `start`.
#[derive(Debug, Clone)]
pub struct StartArgs {
    /// Capture duration in milliseconds.
    pub duration: Option<u64>,
    /// Interval mode: segment length in milliseconds.
    pub every: Option<u64>,
    /// Output directory (default: current directory).
    pub output: Option<String>,
    /// Show ffmpeg output.
    pub verbose: bool,
}

/// Options of `cut`.
#[derive(Debug, Clone)]
pub struct CutArgs {
    /// Path to the source video file.
    pub source: String,
    /// Start offset of the cut range in milliseconds (default 0).
    pub from: u64,
    /// End offset of the cut range in milliseconds (conflicts with `length`).
    pub to: Option<u64>,
    /// Cut length in milliseconds (conflicts with `to`).
    pub length: Option<u64>,
    /// Output file or directory.
    pub output: Option<String>,
    /// Stream-copy instead of re-encoding.
    pub fast: bool,
    /// Show ffmpeg output.
    pub verbose: bool,
}

/// Validated cut range: a start offset and a length, in milliseconds.
#[derive(Debug, Clone, Copy, PartialEq, Eq, Structural)]
pub struct CutRange {
    pub start: u64,
    pub length: u64,
}

/// A start offset plus either an end offset or a length, resolved to
/// `(start, length)`; `None` where neither or both ends are given, the start
/// does not precede the end, or the length is zero.
pub open spec fn start_and_length(from: nat, to: Option<nat>, length: Option<nat>) -> Option<
    (nat, nat),
> {
    match (to, length) {
        (None, None) => None,
        (Some(t), None) => if from >= t {
            None
        } else {
            Some((from, (t - from) as nat))
        },
        (None, Some(l)) => if l == 0 {
            None
        } else {
            Some((from, l))
        },
        (Some(_), Some(_)) => None,
    }
}

/// `Some(v)` as a `nat`, for an optional count of milliseconds.
pub open spec fn opt_nat(v: Option<u64>) -> Option<nat> {
    match v {
        Some(x) => Some(x as nat),
        None => None,
    }
}

impl CutArgs {
    /// Validates the cut arguments and returns a normalized cut range.
    ///
    /// Returns an error if neither `--to` nor `--length` is given, if
    /// `--from` is not below `--to`, or if `--length` is zero.
    pub fn validate_cut_range(&self) -> (r: Result<CutRange, String>)
        ensures
            match r {
                Ok(range) => start_and_length(self.from as nat, opt_nat(self.to), opt_nat(self.length))
                    == Some((range.start as nat, range.length as nat)),
                Err(e) => start_and_length(
                    self.from as nat,
                    opt_nat(self.to),
                    opt_nat(self.length),
                ) is None && e@ == range_error(
                    self.from as nat,
                    opt_nat(self.to),
                    opt_nat(self.length),
                    RangeSpelling::CutFlags,
                ),
            },
    {
        let (start, length) = resolve_start_and_length(
            self.from,
            self.to,
            self.length,
            RangeSpelling::CutFlags,
        )?;
        Ok(CutRange { start, length })
    }
}

/// How the user spells the three range options, so that a validation error
/// names what they typed: `--from` on `cut`, `from=` inside a label spec.
#[derive(Clone, Copy)]
pub enum RangeSpelling {
    CutFlags,
    LabelKeys,
}

/// How a spelling writes the start offset.
pub open spec fn from_spelled(sp: RangeSpelling) -> Seq<char> {
    match sp {
        RangeSpelling::CutFlags => "--from"@,
        RangeSpelling::LabelKeys => "from="@,
    }
}

/// How a spelling writes the end offset.
pub open spec fn to_spelled(sp: RangeSpelling) -> Seq<char> {
    match sp {
        RangeSpelling::CutFlags => "--to"@,
        RangeSpelling::LabelKeys => "to="@,
    }
}

/// How a spelling writes the length.
pub open spec fn length_spelled(sp: RangeSpelling) -> Seq<char> {
    match sp {
        RangeSpelling::CutFlags => "--length"@,
        RangeSpelling::LabelKeys => "length="@,
    }
}

/// Why a range is refused, in the user's own spelling: no end, a start not
/// before the end (both shown as durations), a zero length, or both ends.
pub open spec fn range_error(from: nat, to: Option<nat>, length: Option<nat>, sp: RangeSpelling) -> Seq<
    char,
> {
    match (to, length) {
        (None, None) => "Neither "@ + to_spelled(sp) + " nor "@ + length_spelled(sp)
            + " specified. One of them is required."@,
        (Some(t), None) => from_spelled(sp) + " ("@ + duration_text(from) + ") must be less than "@
            + to_spelled(sp) + " ("@ + duration_text(t) + ")"@,
        (None, Some(_)) => length_spelled(sp) + " must be greater than zero"@,
        (Some(_), Some(_)) => to_spelled(sp) + " and "@ + length_spelled(sp)
            + " are mutually exclusive."@,
    }
}

impl RangeSpelling {
    fn from_name(self) -> (r: &'static str)
        ensures
            r@ == from_spelled(self),
    {
        match self {
            RangeSpelling::CutFlags => "--from",
            RangeSpelling::LabelKeys => "from=",
        }
    }

    fn to_name(self) -> (r: &'static str)
        ensures
            r@ == to_spelled(self),
    {
        match self {
            RangeSpelling::CutFlags => "--to",
            RangeSpelling::LabelKeys => "to=",
        }
    }

    fn length_name(self) -> (r: &'static str)
        ensures
            r@ == length_spelled(self),
    {
        match self {
            RangeSpelling::CutFlags => "--length",
            RangeSpelling::LabelKeys => "length=",
        }
    }
}

/// Resolves a start offset plus either an end offset or a length into the
/// `(start, length)` pair ffmpeg is given. A cut range and a label window
/// are validated by the same rules.
pub fn resolve_start_and_length(
    from: u64,
    to: Option<u64>,
    length: Option<u64>,
    spelling: RangeSpelling,
) -> (r: Result<(u64, u64), String>)
    ensures
        match r {
            Ok((s, l)) => start_and_length(from as nat, opt_nat(to), opt_nat(length)) == Some(
                (s as nat, l as nat),
            ),
            Err(e) => start_and_length(from as nat, opt_nat(to), opt_nat(length)) is None && e@
                == range_error(from as nat, opt_nat(to), opt_nat(length), spelling),
        },
{
    match (to, length) {
        (None, None) => {
            let mut m = String::from_str("Neither ");
            m.append(spelling.to_name());
            m.append(" nor ");
            m.append(spelling.length_name());
            m.append(" specified. One of them is required.");
            Err(m)
        },
        (Some(to), None) => {
            if from >= to {
                let mut m = String::from_str(spelling.from_name());
                m.append(" (");
                m.append(format_duration(from).as_str());
                m.append(") must be less than ");
                m.append(spelling.to_name());
                m.append(" (");
                m.append(format_duration(to).as_str());
                m.append(")");
                return Err(m);
            }
            Ok((from, to - from))
        },
        (None, Some(len)) => {
            if len == 0 {
                let mut m = String::from_str(spelling.length_name());
                m.append(" must be greater than zero");
                return Err(m);
            }
            Ok((from, len))
        },
        (Some(_), Some(_)) => {
            let mut m = String::from_str(spelling.to_name());
            m.append(" and ");
            m.append(spelling.length_name());
            m.append(" are mutually exclusive.");
            Err(m)
        },
    }
}

/// The two ways of writing a cut range agree: an end offset `to` after the
/// start gives the same range as the length `to - from`, and that range ends
/// at `to`. Giving both, or neither, is refused.
pub proof fn lemma_end_and_length_spell_the_same_range(from: nat, to: nat, length: nat)
    ensures
        from < to ==> start_and_length(from, Some(to), None) == start_and_length(
            from,
            None,
            Some((to - from) as nat),
        ),
        start_and_length(from, Some(to), None) matches Some((s, l)) ==> s == from && s + l == to,
        start_and_length(from, None, Some(length)) matches Some((s, l)) ==> s == from && l
            == length,
        start_and_length(from, Some(to), Some(length)) is None,
        start_and_length(from, None, None) is None,
{
}

/// A label's window ends where its spec says: at `to=` when one is given,
/// else `length=` after `from=`.
pub proof fn lemma_label_window_ends_where_the_spec_says(d: LabelDraft)
    ensures
        label_of_draft(d) matches Some(l) ==> l.start == d.from,
        label_of_draft(d) matches Some(l) ==> (d.to matches Some(t) ==> l.start + l.length == t),
        label_of_draft(d) matches Some(l) ==> (d.length matches Some(n) ==> l.length == n),
        label_of_draft(d) matches Some(l) ==> l.length > 0,
{
}

/// Options of `label`.
#[derive(Debug, Clone)]
pub struct LabelArgs {
    /// Path to the source video file.
    pub source: String,
    /// The labels, one per `-l` spec.
    pub labels: Vec<Label>,
    /// Font file to draw labels with (default: the system font).
    pub font: Option<String>,
    /// Output file or directory.
    pub output: Option<String>,
    /// Show ffmpeg output.
    pub verbose: bool,
}

/// Where in the frame a label is drawn.
#[derive(Debug, Clone, Copy, PartialEq, Eq, Structural)]
pub enum LabelPosition {
    Top,
    Bottom,
}

impl Default for LabelPosition {
    fn default() -> (p: Self)
        ensures
            p == LabelPosition::Bottom,
    {
        LabelPosition::Bottom
    }
}

/// One validated label: its text, the label window it is visible for, and
/// how it is drawn.
#[derive(Debug, Clone, PartialEq, Eq)]
pub struct Label {
    pub text: String,
    /// Start of the label window, in milliseconds from the beginning of the
    /// source video.
    pub start: u64,
    /// How long the label window lasts, in milliseconds.
    pub length: u64,
    pub position: LabelPosition,
    /// Text color, in ffmpeg's color syntax.
    pub color: String,
    /// Font size in pixels.
    pub size: u32,
    /// Band drawn behind the text, in ffmpeg's color syntax; `None` draws the
    /// text bare.
    pub background: Option<String>,
}

/// What a label is, as values.
pub struct LabelView {
    pub text: Seq<char>,
    pub start: nat,
    pub length: nat,
    pub position: LabelPosition,
    pub color: Seq<char>,
    pub size: nat,
    pub background: Option<Seq<char>>,
}

/// The characters of an optional string.
pub open spec fn opt_chars(s: Option<String>) -> Option<Seq<char>> {
    match s {
        Some(t) => Some(t@),
        None => None,
    }
}

impl View for Label {
    type V = LabelView;

    open spec fn view(&self) -> LabelView {
        LabelView {
            text: self.text@,
            start: self.start as nat,
            length: self.length as nat,
            position: self.position,
            color: self.color@,
            size: self.size as nat,
            background: opt_chars(self.background),
        }
    }
}

impl Label {
    /// End of the label window, in milliseconds from the beginning of the
    /// source video.
    pub fn end(&self) -> (r: u128)
        ensures
            r == self.start + self.length,
    {
        self.start as u128 + self.length as u128
    }
}

// ---------------------------------------------------------------------------
// Label specs
// ---------------------------------------------------------------------------

/// A label spec cut into its entries, the state of the cut being
/// `(done, current)` at position `i`: unescaped commas separate entries,
/// `\,` stands for a comma and `\\` for a backslash, and a backslash before
/// anything else is kept.
pub open spec fn pairs_from(s: Seq<char>, i: int, done: Seq<Seq<char>>, cur: Seq<char>) -> Seq<
    Seq<char>,
>
    decreases s.len() - i,
{
    if i < 0 || i >= s.len() {
        done.push(cur)
    } else if s[i] == '\\' && i + 1 < s.len() && (s[i + 1] == ',' || s[i + 1] == '\\') {
        pairs_from(s, i + 2, done, cur.push(s[i + 1]))
    } else if s[i] == ',' {
        pairs_from(s, i + 1, done.push(cur), Seq::empty())
    } else {
        pairs_from(s, i + 1, done, cur.push(s[i]))
    }
}

/// The entries of a label spec.
pub open spec fn label_pairs(s: Seq<char>) -> Seq<Seq<char>> {
    pairs_from(s, 0, Seq::empty(), Seq::empty())
}

/// `t` written for a label spec: each comma as `\,` and each backslash as
/// `\\`, every other character as it is.
pub open spec fn label_text_escaped(t: Seq<char>) -> Seq<char>
    decreases t.len(),
{
    if t.len() == 0 {
        Seq::empty()
    } else {
        (if t[0] == ',' || t[0] == '\\' {
            seq!['\\', t[0]]
        } else {
            seq![t[0]]
        }) + label_text_escaped(t.drop_first())
    }
}

proof fn lemma_escaped_text_is_read_whole(
    s: Seq<char>,
    i: int,
    t: Seq<char>,
    done: Seq<Seq<char>>,
    cur: Seq<char>,
)
    requires
        0 <= i,
        i + label_text_escaped(t).len() <= s.len(),
        s.subrange(i, i + label_text_escaped(t).len()) == label_text_escaped(t),
    ensures
        pairs_from(s, i, done, cur) == pairs_from(
            s,
            i + label_text_escaped(t).len(),
            done,
            cur + t,
        ),
    decreases t.len(),
{
    let e = label_text_escaped(t);
    if t.len() == 0 {
        assert(cur + t =~= cur);
    } else {
        let c = t[0];
        let rest = t.drop_first();
        let er = label_text_escaped(rest);
        let head: Seq<char> = if c == ',' || c == '\\' {
            seq!['\\', c]
        } else {
            seq![c]
        };
        assert(e =~= head + er);
        assert(s[i] == e[0]);
        if c == ',' || c == '\\' {
            assert(s[i + 1] == e[1]);
            assert(s.subrange(i + 2, i + 2 + er.len()) =~= er) by {
                assert forall|k: int| 0 <= k < er.len() implies s.subrange(
                    i + 2,
                    i + 2 + er.len(),
                )[k] == er[k] by {
                    assert(s[i + 2 + k] == e[2 + k]);
                }
            }
            lemma_escaped_text_is_read_whole(s, i + 2, rest, done, cur.push(c));
        } else {
            assert(s.subrange(i + 1, i + 1 + er.len()) =~= er) by {
                assert forall|k: int| 0 <= k < er.len() implies s.subrange(
                    i + 1,
                    i + 1 + er.len(),
                )[k] == er[k] by {
                    assert(s[i + 1 + k] == e[1 + k]);
                }
            }
            lemma_escaped_text_is_read_whole(s, i + 1, rest, done, cur.push(c));
        }
        assert(cur.push(c) + rest =~= cur + t);
    }
}

/// A text written with `\,` for each comma and `\\` for each backslash
/// is read back from a label spec as one entry, exactly that text: commas
/// in a label's text do not split the spec.
pub proof fn lemma_escaped_label_text_reads_back(t: Seq<char>)
    ensures
        label_pairs(label_text_escaped(t)) == seq![t],
{
    let s = label_text_escaped(t);
    assert(s.subrange(0, s.len() as int) =~= s);
    lemma_escaped_text_is_read_whole(s, 0, t, Seq::empty(), Seq::empty());
    assert(Seq::<char>::empty() + t =~= t);
    assert(Seq::<Seq<char>>::empty().push(t) =~= seq![t]);
}

/// The views of a vector of character vectors.
pub open spec fn views(v: Seq<Vec<char>>) -> Seq<Seq<char>> {
    v.map_values(|x: Vec<char>| x@)
}

/// Splits a label spec into its entries on unescaped commas, resolving `\,`
/// to a comma and `\\` to a backslash as it goes.
pub fn split_label_pairs(input: &Vec<char>) -> (r: Vec<Vec<char>>)
    ensures
        views(r@) == label_pairs(input@),
{
    let mut done: Vec<Vec<char>> = Vec::new();
    let mut cur: Vec<char> = Vec::new();
    let mut i: usize = 0;
    let n = input.len();
    assert(views(done@) =~= Seq::<Seq<char>>::empty());
    while i < n
        invariant
            n == input.len(),
            i <= n,
            pairs_from(input@, i as int, views(done@), cur@) == label_pairs(input@),
        decreases n - i,
    {
        let ch = input[i];
        if ch == '\\' && n - i >= 2 && (input[i + 1] == ',' || input[i + 1] == '\\') {
            cur.push(input[i + 1]);
            i = i + 2;
        } else if ch == ',' {
            let finished = cur;
            let ghost before = views(done@);
            done.push(finished);
            assert(views(done@) =~= before.push(finished@));
            cur = Vec::new();
            assert(cur@ =~= Seq::<char>::empty());
            i = i + 1;
        } else {
            cur.push(ch);
            i = i + 1;
        }
    }
    let ghost before = views(done@);
    let last = cur;
    done.push(last);
    assert(views(done@) =~= before.push(last@));
    done
}

/// An ASCII letter or digit.
pub open spec fn is_ascii_alnum(c: char) -> bool {
    ('a' <= c && c <= 'z') || ('A' <= c && c <= 'Z') || is_digit(c)
}

/// A color in ffmpeg's syntax, as far as a label accepts it: a non-empty run
/// of ASCII letters, digits and `#@._-`. This keeps `:` and `'`, which are
/// filtergraph syntax, out of a color.
pub open spec fn is_color(t: Seq<char>) -> bool {
    t.len() > 0 && forall|k: int|
        0 <= k < t.len() ==> {
            let c = #[trigger] t[k];
            is_ascii_alnum(c) || c == '#' || c == '@' || c == '.' || c == '_' || c == '-'
        }
}

/// Whether `a` and `b` are equal when ASCII letters are compared without
/// regard to case.
pub open spec fn ascii_eq_ignore_case(a: Seq<char>, b: Seq<char>) -> bool {
    a.len() == b.len() && forall|k: int| 0 <= k < a.len() ==> ascii_lower(#[trigger] a[k])
        == ascii_lower(b[k])
}

/// The value of an unsigned decimal, as `str::parse::<u32>` reads it: an
/// optional `+`, then digits whose value fits a `u32`.
pub open spec fn u32_value(t: Seq<char>) -> Option<nat> {
    let body = if t.len() > 0 && t[0] == '+' {
        t.drop_first()
    } else {
        t
    };
    if is_digit_run(body) && mantissa(body) <= u32::MAX {
        Some(mantissa(body))
    } else {
        None
    }
}

/// A label while its spec is being read.
pub struct LabelDraft {
    pub text: Option<Seq<char>>,
    pub from: nat,
    pub to: Option<nat>,
    pub length: Option<nat>,
    pub position: LabelPosition,
    pub color: Seq<char>,
    pub size: nat,
    pub background: Option<Seq<char>>,
    pub seen: Seq<Seq<char>>,
}

/// The text color of a label whose spec names none.
pub const DEFAULT_LABEL_COLOR: &'static str = "white";

/// The font size, in pixels, of a label whose spec names none.
pub const DEFAULT_LABEL_SIZE: u32 = 32;

/// The band drawn behind a label whose spec names none, so that the text
/// stays readable on any footage.
pub const DEFAULT_LABEL_BACKGROUND: &'static str = "black@0.5";

/// What a spec says before any entry: start at 0, bottom, white text at
/// 32 pixels on a `black@0.5` band.
pub open spec fn initial_draft() -> LabelDraft {
    LabelDraft {
        text: None,
        from: 0,
        to: None,
        length: None,
        position: LabelPosition::Bottom,
        color: DEFAULT_LABEL_COLOR@,
        size: DEFAULT_LABEL_SIZE as nat,
        background: Some(DEFAULT_LABEL_BACKGROUND@),
        seen: Seq::empty(),
    }
}

/// What reading one entry of a spec gives: the updated label, a rejection
/// with its reason, or a timespec too large for milliseconds in a `u64`.
pub enum EntryOutcome {
    Next(LabelDraft),
    Rejected(Seq<char>),
    Overflow,
}

/// The value of a timespec entry: `None` where it is too large, else the
/// milliseconds, or why they are refused (malformed, or zero where
/// `positive`).
pub open spec fn timespec_entry(value: Seq<char>, positive: bool) -> Option<Result<nat, Seq<char>>> {
    if !timespec_in_range(value) {
        None
    } else {
        match timespec_millis(value) {
            Some(v) => if positive && v == 0 {
                Some(Err("Timespec must be greater than zero, got: '"@ + value + "'"@))
            } else {
                Some(Ok(v))
            },
            None => Some(Err(timespec_error(value))),
        }
    }
}

/// Why a color value given for `key` is refused.
pub open spec fn color_error(value: Seq<char>, key: Seq<char>) -> Seq<char> {
    if value.len() == 0 {
        key + "= must not be empty"@
    } else {
        "Invalid "@ + key + "= value: '"@ + value
            + "'. Expected a color name (white), a hex color (#RRGGBB), optionally with an alpha suffix (black@0.5)."@
    }
}

/// `d` with the timespec entry `value` stored by `store`, or why not.
pub open spec fn timespec_step(
    d: LabelDraft,
    value: Seq<char>,
    positive: bool,
    store: spec_fn(nat) -> LabelDraft,
) -> EntryOutcome {
    match timespec_entry(value, positive) {
        None => EntryOutcome::Overflow,
        Some(Err(m)) => EntryOutcome::Rejected(m),
        Some(Ok(v)) => EntryOutcome::Next(store(v)),
    }
}

/// Reads one entry of a label spec into `d`.
pub open spec fn apply_entry(d: LabelDraft, pair: Seq<char>) -> EntryOutcome {
    if trim(pair).len() == 0 {
        EntryOutcome::Next(d)
    } else {
        match first_index(pair, '=') {
            None => EntryOutcome::Rejected(
                "Label spec entry is not key=value: '"@ + trim(pair) + "'"@,
            ),
            Some(k) => {
                let key = lowercase(trim(pair.subrange(0, k)));
                let value = trim(pair.subrange(k + 1, pair.len() as int));
                if d.seen.contains(key) {
                    EntryOutcome::Rejected("Duplicate key in label spec: '"@ + key + "='"@)
                } else {
                    let d = LabelDraft { seen: d.seen.push(key), ..d };
                    if key == "text"@ {
                        if value.len() == 0 {
                            EntryOutcome::Rejected("text= must not be empty"@)
                        } else {
                            EntryOutcome::Next(LabelDraft { text: Some(value), ..d })
                        }
                    } else if key == "from"@ {
                        timespec_step(d, value, false, |v: nat| LabelDraft { from: v, ..d })
                    } else if key == "to"@ {
                        timespec_step(d, value, true, |v: nat| LabelDraft { to: Some(v), ..d })
                    } else if key == "length"@ {
                        timespec_step(
                            d,
                            value,
                            true,
                            |v: nat| LabelDraft { length: Some(v), ..d },
                        )
                    } else if key == "position"@ {
                        match position_value(value) {
                            Some(p) => EntryOutcome::Next(LabelDraft { position: p, ..d }),
                            None => EntryOutcome::Rejected(
                                "Invalid position= value: '"@ + value
                                    + "'. Expected top or bottom."@,
                            ),
                        }
                    } else if key == "color"@ {
                        if is_color(value) {
                            EntryOutcome::Next(LabelDraft { color: value, ..d })
                        } else {
                            EntryOutcome::Rejected(color_error(value, "color"@))
                        }
                    } else if key == "background"@ {
                        match background_value(value) {
                            Some(b) => EntryOutcome::Next(LabelDraft { background: b, ..d }),
                            None => EntryOutcome::Rejected(color_error(value, "background"@)),
                        }
                    } else if key == "size"@ {
                        match u32_value(value) {
                            Some(n) => if n == 0 {
                                EntryOutcome::Rejected("size= must be greater than zero"@)
                            } else {
                                EntryOutcome::Next(LabelDraft { size: n, ..d })
                            },
                            None => EntryOutcome::Rejected(
                                "Invalid size= value: '"@ + value + "'. Expected pixels, e.g. 32."@,
                            ),
                        }
                    } else {
                        EntryOutcome::Rejected(
                            "Unknown key in label spec: '"@ + key
                                + "='. Valid keys: text, from, to, length, position, color, size, background."@,
                        )
                    }
                }
            },
        }
    }
}

/// Reads the entries `pairs` in order into `d`, stopping at the first
/// rejection or overflow.
pub open spec fn apply_entries(d: LabelDraft, pairs: Seq<Seq<char>>) -> EntryOutcome
    decreases pairs.len(),
{
    if pairs.len() == 0 {
        EntryOutcome::Next(d)
    } else {
        match apply_entry(d, pairs[0]) {
            EntryOutcome::Next(d2) => apply_entries(d2, pairs.drop_first()),
            other => other,
        }
    }
}

/// The label a spec describes, or `None` where it is rejected.
pub open spec fn label_of_draft(d: LabelDraft) -> Option<LabelView> {
    match d.text {
        None => None,
        Some(t) => match start_and_length(d.from, d.to, d.length) {
            None => None,
            Some((start, length)) => Some(
                LabelView {
                    text: t,
                    start,
                    length,
                    position: d.position,
                    color: d.color,
                    size: d.size,
                    background: d.background,
                },
            ),
        },
    }
}

/// Whether reading the spec `s` never meets a timespec too large for a
/// `u64` of milliseconds: the specs [`parse_label_spec`] accepts.
pub open spec fn label_spec_in_range(s: Seq<char>) -> bool {
    !(apply_entries(initial_draft(), label_pairs(s)) is Overflow)
}

/// The label the spec `s` describes; `None` where it is rejected.
pub open spec fn label_spec(s: Seq<char>) -> Option<LabelView> {
    match apply_entries(initial_draft(), label_pairs(s)) {
        EntryOutcome::Next(d) => label_of_draft(d),
        _ => None,
    }
}

/// Why the spec `s` is rejected: the first entry refused, else a missing
/// `text=`, else the label window (see [`range_error`]).
pub open spec fn label_spec_error(s: Seq<char>) -> Seq<char> {
    match apply_entries(initial_draft(), label_pairs(s)) {
        EntryOutcome::Rejected(m) => m,
        EntryOutcome::Next(d) => match d.text {
            None => "Label spec is missing text="@,
            Some(_) => range_error(d.from, d.to, d.length, RangeSpelling::LabelKeys),
        },
        EntryOutcome::Overflow => Seq::empty(),
    }
}

/// What every label a spec describes keeps safe for the filtergraph: text
/// that is non-empty and neither starts nor ends with whitespace, a positive
/// size, and a color and a band (where there is one) made only of the
/// characters [`is_color`] allows.
pub open spec fn draft_is_safe(d: LabelDraft) -> bool {
    &&& (d.text matches Some(t) ==> t.len() > 0 && !is_white(t[0]) && !is_white(t.last()))
    &&& d.size > 0
    &&& is_color(d.color)
    &&& (d.background matches Some(b) ==> is_color(b))
}

proof fn lemma_trim_start_starts_dark(x: Seq<char>)
    ensures
        trim_start(x).len() > 0 ==> !is_white(trim_start(x)[0]),
        trim_start(x).len() <= x.len(),
    decreases x.len(),
{
    if x.len() > 0 && is_white(x[0]) {
        lemma_trim_start_starts_dark(x.drop_first());
    }
}

proof fn lemma_trim_end_is_a_dark_ended_prefix(z: Seq<char>)
    ensures
        trim_end(z).len() <= z.len(),
        trim_end(z) == z.subrange(0, trim_end(z).len() as int),
        trim_end(z).len() > 0 ==> !is_white(trim_end(z).last()),
    decreases z.len(),
{
    if z.len() > 0 && is_white(z.last()) {
        lemma_trim_end_is_a_dark_ended_prefix(z.drop_last());
        let t = trim_end(z.drop_last());
        assert(t =~= z.subrange(0, t.len() as int));
    } else {
        assert(z =~= z.subrange(0, z.len() as int));
    }
}

/// A trimmed value that is not empty neither starts nor ends with
/// whitespace.
proof fn lemma_trimmed_text_is_dark_at_both_ends(x: Seq<char>)
    requires
        trim(x).len() > 0,
    ensures
        !is_white(trim(x)[0]),
        !is_white(trim(x).last()),
{
    let z = trim_start(x);
    lemma_trim_start_starts_dark(x);
    lemma_trim_end_is_a_dark_ended_prefix(z);
    assert(trim(x)[0] == z[0]);
}

proof fn lemma_entry_keeps_the_draft_safe(d: LabelDraft, pair: Seq<char>)
    requires
        draft_is_safe(d),
    ensures
        apply_entry(d, pair) matches EntryOutcome::Next(d2) ==> draft_is_safe(d2),
{
    if trim(pair).len() != 0 {
        if let Some(k) = first_index(pair, '=') {
            let value = trim(pair.subrange(k + 1, pair.len() as int));
            if value.len() > 0 {
                lemma_trimmed_text_is_dark_at_both_ends(pair.subrange(k + 1, pair.len() as int));
            }
        }
    }
}

proof fn lemma_entries_keep_the_draft_safe(d: LabelDraft, pairs: Seq<Seq<char>>)
    requires
        draft_is_safe(d),
    ensures
        apply_entries(d, pairs) matches EntryOutcome::Next(d2) ==> draft_is_safe(d2),
    decreases pairs.len(),
{
    if pairs.len() > 0 {
        lemma_entry_keeps_the_draft_safe(d, pairs[0]);
        if let EntryOutcome::Next(d1) = apply_entry(d, pairs[0]) {
            lemma_entries_keep_the_draft_safe(d1, pairs.drop_first());
        }
    }
}

/// Every label a spec is accepted as is safe to put into the filtergraph:
/// its text is non-empty and trimmed, its window and size are positive, and
/// its color and band (where there is one) hold only letters, digits and
/// `#@._-`, so no `:` or `'` reaches the filtergraph through them.
pub proof fn lemma_accepted_labels_are_filtergraph_safe(s: Seq<char>)
    ensures
        label_spec(s) matches Some(l) ==> {
            &&& l.text.len() > 0
            &&& !is_white(l.text[0])
            &&& !is_white(l.text.last())
            &&& l.length > 0
            &&& l.size > 0
            &&& is_color(l.color)
            &&& (l.background matches Some(b) ==> is_color(b))
        },
{
    reveal_strlit("white");
    reveal_strlit("black@0.5");
    let w = DEFAULT_LABEL_COLOR@;
    let b = DEFAULT_LABEL_BACKGROUND@;
    assert(is_color(w)) by {
        assert forall|k: int| 0 <= k < w.len() implies {
            let c = #[trigger] w[k];
            is_ascii_alnum(c) || c == '#' || c == '@' || c == '.' || c == '_' || c == '-'
        } by {
            assert(w =~= seq!['w', 'h', 'i', 't', 'e']);
        }
    }
    assert(is_color(b)) by {
        assert forall|k: int| 0 <= k < b.len() implies {
            let c = #[trigger] b[k];
            is_ascii_alnum(c) || c == '#' || c == '@' || c == '.' || c == '_' || c == '-'
        } by {
            assert(b =~= seq!['b', 'l', 'a', 'c', 'k', '@', '0', '.', '5']);
        }
    }
    assert(draft_is_safe(initial_draft()));
    lemma_entries_keep_the_draft_safe(initial_draft(), label_pairs(s));
}

/// The position a `position=` value names, in any case.
pub open spec fn position_value(value: Seq<char>) -> Option<LabelPosition> {
    if lowercase(value) == "top"@ {
        Some(LabelPosition::Top)
    } else if lowercase(value) == "bottom"@ {
        Some(LabelPosition::Bottom)
    } else {
        None
    }
}

/// The band a `background=` value asks for: `none` (in any ASCII case)
/// for no band, else a color.
pub open spec fn background_value(value: Seq<char>) -> Option<Option<Seq<char>>> {
    if ascii_eq_ignore_case(value, "none"@) {
        Some(None)
    } else if is_color(value) {
        Some(Some(value))
    } else {
        None
    }
}

/// Parses a `position=` value.
fn parse_label_position(value: &Vec<char>) -> (r: Result<LabelPosition, String>)
    ensures
        match r {
            Ok(p) => position_value(value@) == Some(p),
            Err(e) => position_value(value@) is None && e@ == "Invalid position= value: '"@
                + value@ + "'. Expected top or bottom."@,
        },
{
    let lower = to_lowercase(value);
    if equals_str(&lower, "top") {
        Ok(LabelPosition::Top)
    } else if equals_str(&lower, "bottom") {
        Ok(LabelPosition::Bottom)
    } else {
        let v = string_from(value);
        Err(join3("Invalid position= value: '", v.as_str(), "'. Expected top or bottom."))
    }
}

/// Accepts a color in ffmpeg's syntax: a name (`white`) or a hex triplet
/// (`#RRGGBB`), either optionally with an `@<alpha>` suffix. The charset is
/// restricted rather than fully parsed.
fn parse_ffmpeg_color(value: &Vec<char>, key: &str) -> (r: Result<String, String>)
    ensures
        match r {
            Ok(c) => is_color(value@) && c@ == value@,
            Err(e) => !is_color(value@) && e@ == color_error(value@, key@),
        },
{
    if value.len() == 0 {
        let mut m = String::from_str(key);
        m.append("= must not be empty");
        return Err(m);
    }
    let mut i: usize = 0;
    while i < value.len()
        invariant
            i <= value.len(),
            forall|k: int|
                0 <= k < i ==> {
                    let c = #[trigger] value@[k];
                    is_ascii_alnum(c) || c == '#' || c == '@' || c == '.' || c == '_' || c == '-'
                },
        decreases value.len() - i,
    {
        let c = value[i];
        if !(('a' <= c && c <= 'z') || ('A' <= c && c <= 'Z') || ('0' <= c && c <= '9') || c == '#'
            || c == '@' || c == '.' || c == '_' || c == '-') {
            let v = string_from(value);
            let mut m = String::from_str("Invalid ");
            m.append(key);
            m.append("= value: '");
            m.append(v.as_str());
            m.append(
                "'. Expected a color name (white), a hex color (#RRGGBB), optionally with an alpha suffix (black@0.5).",
            );
            assert(!is_color(value@)) by {
                assert(value@[i as int] == c);
            }
            return Err(m);
        }
        i = i + 1;
    }
    Ok(string_from(value))
}

/// Whether `a` equals `b` with ASCII case ignored.
fn eq_ignore_ascii_case(a: &Vec<char>, b: &Vec<char>) -> (r: bool)
    ensures
        r == ascii_eq_ignore_case(a@, b@),
{
    if a.len() != b.len() {
        return false;
    }
    let mut i: usize = 0;
    while i < a.len()
        invariant
            a.len() == b.len(),
            i <= a.len(),
            forall|k: int| 0 <= k < i ==> ascii_lower(#[trigger] a@[k]) == ascii_lower(b@[k]),
        decreases a.len() - i,
    {
        let x = a[i];
        let y = b[i];
        let lx = if 'A' <= x && x <= 'Z' {
            ((x as u8) + 32) as char
        } else {
            x
        };
        let ly = if 'A' <= y && y <= 'Z' {
            ((y as u8) + 32) as char
        } else {
            y
        };
        if lx != ly {
            return false;
        }
        i = i + 1;
    }
    true
}

/// Parses a `background=` value: a color for the band, or `none` to draw
/// the label's text with no band behind it.
fn parse_label_background(value: &Vec<char>) -> (r: Result<Option<String>, String>)
    ensures
        match r {
            Ok(b) => background_value(value@) == Some(opt_chars(b)),
            Err(e) => background_value(value@) is None && e@ == color_error(value@, "background"@),
        },
{
    let none = chars_of("none");
    if eq_ignore_ascii_case(value, &none) {
        return Ok(None);
    }
    let c = parse_ffmpeg_color(value, "background")?;
    Ok(Some(c))
}

/// Reads an unsigned decimal as `str::parse::<u32>` does.
fn parse_u32(value: &Vec<char>) -> (r: Option<u32>)
    ensures
        match r {
            Some(n) => u32_value(value@) == Some(n as nat),
            None => u32_value(value@) is None,
        },
{
    let body = if value.len() > 0 && value[0] == '+' {
        slice_chars(value, 1, value.len())
    } else {
        slice_chars(value, 0, value.len())
    };
    proof {
        if value@.len() > 0 && value@[0] == '+' {
            assert(body@ =~= value@.drop_first());
        } else {
            assert(body@ =~= value@);
        }
    }
    match read_timestamp_field(&body) {
        Some(n) => if n <= 0xFFFF_FFFFu64 {
            Some(n as u32)
        } else {
            None
        },
        None => None,
    }
}

/// Whether `seen` holds `key`.
fn seen_contains(seen: &Vec<Vec<char>>, key: &Vec<char>) -> (r: bool)
    ensures
        r == views(seen@).contains(key@),
{
    let mut i: usize = 0;
    while i < seen.len()
        invariant
            i <= seen.len(),
            forall|k: int| 0 <= k < i ==> seen@[k]@ != key@,
        decreases seen.len() - i,
    {
        if same_chars(&seen[i], key) {
            assert(views(seen@)[i as int] == key@);
            return true;
        }
        i = i + 1;
    }
    assert forall|k: int| 0 <= k < views(seen@).len() implies views(seen@)[k] != key@ by {
        assert(views(seen@)[k] == seen@[k]@);
    }
    false
}

/// Reads a label spec; `None` where it meets a timespec too large for a
/// `u64` of milliseconds before any rejection.
fn read_label_spec(input: &str) -> (r: Option<Result<Label, String>>)
    ensures
        r is None <==> !label_spec_in_range(input@),
        r matches Some(res) ==> (res is Ok <==> label_spec(input@) is Some),
        r matches Some(Ok(label)) ==> label_spec(input@) == Some(label@),
        r matches Some(Err(e)) ==> e@ == label_spec_error(input@),
{
    let chars = chars_of(input);
    let pairs = split_label_pairs(&chars);
    let ghost all = views(pairs@);
    let mut text: Option<String> = None;
    let mut from: u64 = 0;
    let mut to: Option<u64> = None;
    let mut length: Option<u64> = None;
    let mut position = LabelPosition::Bottom;
    let mut color = String::from_str(DEFAULT_LABEL_COLOR);
    let mut size: u32 = DEFAULT_LABEL_SIZE;
    let mut background: Option<String> = Some(String::from_str(DEFAULT_LABEL_BACKGROUND));
    let mut seen: Vec<Vec<char>> = Vec::new();
    let mut i: usize = 0;
    assert(views(seen@) =~= Seq::<Seq<char>>::empty());
    assert(all.skip(0) =~= all);
    while i < pairs.len()
        invariant
            i <= pairs.len(),
            all == views(pairs@),
            all == label_pairs(input@),
            apply_entries(initial_draft(), label_pairs(input@)) == apply_entries(
                LabelDraft {
                    text: opt_chars(text),
                    from: from as nat,
                    to: opt_nat(to),
                    length: opt_nat(length),
                    position,
                    color: color@,
                    size: size as nat,
                    background: opt_chars(background),
                    seen: views(seen@),
                },
                all.skip(i as int),
            ),
        decreases pairs.len() - i,
    {
        let pair = &pairs[i];
        proof {
            assert(all.skip(i as int)[0] == pair@);
            assert(all.skip(i as int).drop_first() =~= all.skip(i + 1));
        }
        let trimmed = trim_chars(pair);
        if trimmed.len() == 0 {
            i = i + 1;
            continue;
        }
        let eq = match find_char(pair, '=') {
            Some(k) => k,
            None => {
                let t = string_from(&trimmed);
                return Some(Err(join3("Label spec entry is not key=value: '", t.as_str(), "'")));
            },
        };
        let raw_key = slice_chars(pair, 0, eq);
        let key = to_lowercase(&trim_chars(&raw_key));
        let value = trim_chars(&slice_chars(pair, eq + 1, pair.len()));
        if seen_contains(&seen, &key) {
            let k = string_from(&key);
            return Some(Err(join3("Duplicate key in label spec: '", k.as_str(), "='")));
        }
        let ghost seen_before = views(seen@);
        let key_copy = slice_chars(&key, 0, key.len());
        assert(key_copy@ =~= key@);
        seen.push(key_copy);
        assert(views(seen@) =~= seen_before.push(key@));
        let value_text = string_from(&value);
        if equals_str(&key, "text") {
            if value.len() == 0 {
                return Some(Err(String::from_str("text= must not be empty")));
            }
            text = Some(value_text);
        } else if equals_str(&key, "from") {
            if !timespec_fits(value_text.as_str()) {
                return None;
            }
            match parse_timespec(value_text.as_str()) {
                Ok(v) => {
                    from = v;
                },
                Err(e) => {
                    return Some(Err(e));
                },
            }
        } else if equals_str(&key, "to") {
            if !timespec_fits(value_text.as_str()) {
                return None;
            }
            match parse_positive_timespec(value_text.as_str()) {
                Ok(v) => {
                    to = Some(v);
                },
                Err(e) => {
                    return Some(Err(e));
                },
            }
        } else if equals_str(&key, "length") {
            if !timespec_fits(value_text.as_str()) {
                return None;
            }
            match parse_positive_timespec(value_text.as_str()) {
                Ok(v) => {
                    length = Some(v);
                },
                Err(e) => {
                    return Some(Err(e));
                },
            }
        } else if equals_str(&key, "position") {
            match parse_label_position(&value) {
                Ok(p) => {
                    position = p;
                },
                Err(e) => {
                    return Some(Err(e));
                },
            }
        } else if equals_str(&key, "color") {
            match parse_ffmpeg_color(&value, "color") {
                Ok(c) => {
                    color = c;
                },
                Err(e) => {
                    return Some(Err(e));
                },
            }
        } else if equals_str(&key, "background") {
            match parse_label_background(&value) {
                Ok(b) => {
                    background = b;
                },
                Err(e) => {
                    return Some(Err(e));
                },
            }
        } else if equals_str(&key, "size") {
            match parse_u32(&value) {
                Some(n) => {
                    if n == 0 {
                        return Some(Err(String::from_str("size= must be greater than zero")));
                    }
                    size = n;
                },
                None => {
                    return Some(
                        Err(
                            join3(
                                "Invalid size= value: '",
                                value_text.as_str(),
                                "'. Expected pixels, e.g. 32.",
                            ),
                        ),
                    );
                },
            }
        } else {
            let k = string_from(&key);
            return Some(
                Err(
                    join3(
                        "Unknown key in label spec: '",
                        k.as_str(),
                        "='. Valid keys: text, from, to, length, position, color, size, background.",
                    ),
                ),
            );
        }
        i = i + 1;
    }
    assert(all.skip(i as int) =~= Seq::<Seq<char>>::empty());
    let text = match text {
        Some(t) => t,
        None => {
            return Some(Err(String::from_str("Label spec is missing text=")));
        },
    };
    match resolve_start_and_length(from, to, length, RangeSpelling::LabelKeys) {
        Ok((start, length)) => Some(
            Ok(Label { text, start, length, position, color, size, background }),
        ),
        Err(e) => Some(Err(e)),
    }
}

/// Parses one label spec, the value of a single `-l/--label` flag.
///
/// A label spec is a comma-separated list of `key=value` pairs. Inside it
/// `\,` is a literal comma and `\\` a literal backslash, so a label's text
/// may contain either. Keys and values are trimmed, and keys are matched in
/// any case. Recognised keys:
///
/// - `text` (required) — the text drawn on the video.
/// - `from` — start of the label window (default `0s`).
/// - `to` — end of the label window. Conflicts with `length`.
/// - `length` — how long the label window lasts. Conflicts with `to`.
/// - `position` — `top` or `bottom` (default `bottom`).
/// - `color` — text color (default `white`).
/// - `size` — font size in pixels (default `32`).
/// - `background` — color of the band drawn behind the text (default
///   `black@0.5`; `none` draws the text bare).
///
/// Every time-valued key takes the same timespec as the rest of the command
/// line.
pub fn parse_label_spec(input: &str) -> (r: Result<Label, String>)
    requires
        label_spec_in_range(input@),
    ensures
        r is Ok <==> label_spec(input@) is Some,
        r matches Ok(label) ==> label_spec(input@) == Some(label@),
        r matches Err(e) ==> e@ == label_spec_error(input@),
{
    match read_label_spec(input) {
        Some(r) => r,
        None => {
            assert(false);
            Err(String::new())
        },
    }
}

/// Parses a label spec where it never meets a timespec too large for a
/// `u64` of milliseconds; `None` where it does.
pub fn try_parse_label_spec(input: &str) -> (r: Option<Result<Label, String>>)
    ensures
        r is None <==> !label_spec_in_range(input@),
        r matches Some(res) ==> (res is Ok <==> label_spec(input@) is Some),
        r matches Some(Ok(label)) ==> label_spec(input@) == Some(label@),
        r matches Some(Err(e)) ==> e@ == label_spec_error(input@),
{
    read_label_spec(input)
}

} // verus!
