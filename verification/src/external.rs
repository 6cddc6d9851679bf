//! The external beam protocol: a line-oriented text format through which
//! another program drives the beam.
//!
//! ```text
//! B x y intensity dt        a beam sample
//! L x0 y0 x1 y1 intensity   a line segment
//! F                         frame sync: the end of a batch
//! # ...                     a comment
//! ```
//!
//! White space around a line does not count. A command is told by its
//! verb, the first word of the line: `B` and `L` are followed by their
//! numbers, each set off by spaces or tabs; `F` stands alone or is followed
//! by white space. Whatever follows the last number that a command needs,
//! or the white space after `F`, is not looked at. Any other first word is
//! an unknown verb, and the line fails. A number is a decimal with an
//! optional sign, fraction and exponent, or one of the words `nan`, `inf`
//! and `infinity` in any mix of cases.
//!
//! This module recognises the commands and hands out every number as the
//! text that spells it; turning that text into a value is the caller's part.

use vstd::prelude::*;
use vstd::string::StringExecFns;
use crate::beam::BeamSample;
use crate::binary32::Binary32;
use crate::text::{
    check_whitespace, collect_chars, is_blank, is_digit, is_whitespace, piece_to_string, trim, trim_range,
};

verus! {

/// First position at or after `from` that holds no decimal digit.
pub open spec fn digits_end(s: Seq<char>, from: int) -> int
    decreases s.len() - from,
{
    if 0 <= from < s.len() && is_digit(s[from]) {
        digits_end(s, from + 1)
    } else {
        from
    }
}

/// First position at or after `from` that holds no space or tab.
pub open spec fn blanks_end(s: Seq<char>, from: int) -> int
    decreases s.len() - from,
{
    if 0 <= from < s.len() && is_blank(s[from]) {
        blanks_end(s, from + 1)
    } else {
        from
    }
}

/// Whether position `at` holds `c`.
pub open spec fn holds(s: Seq<char>, at: int, c: char) -> bool {
    0 <= at < s.len() && s[at] == c
}

/// Whether position `at` holds a sign.
pub open spec fn holds_sign(s: Seq<char>, at: int) -> bool {
    holds(s, at, '+') || holds(s, at, '-')
}

/// `from`, or the position after the sign that stands there.
pub open spec fn after_sign(s: Seq<char>, from: int) -> int {
    if holds_sign(s, from) {
        from + 1
    } else {
        from
    }
}

/// End of the mantissa that starts at `from`: a sign if any, then digits
/// with an optional point and more digits, or a point and digits.
pub open spec fn mantissa_end(s: Seq<char>, from: int) -> Option<int> {
    let p = after_sign(s, from);
    let d = digits_end(s, p);
    if d > p {
        if holds(s, d, '.') {
            Some(digits_end(s, d + 1))
        } else {
            Some(d)
        }
    } else if holds(s, p, '.') && digits_end(s, p + 1) > p + 1 {
        Some(digits_end(s, p + 1))
    } else {
        None
    }
}

/// End of the decimal number that starts at `from`: a mantissa and, if an
/// `e` or `E` follows it, an exponent, which then must have digits.
pub open spec fn decimal_end(s: Seq<char>, from: int) -> Option<int> {
    match mantissa_end(s, from) {
        None => None,
        Some(m) => if holds(s, m, 'e') || holds(s, m, 'E') {
            let q = after_sign(s, m + 1);
            let e = digits_end(s, q);
            if e > q {
                Some(e)
            } else {
                None
            }
        } else {
            Some(m)
        },
    }
}

/// Whether position `at` holds the letter `lower` in either case.
pub open spec fn holds_letter(s: Seq<char>, at: int, lower: char, upper: char) -> bool {
    holds(s, at, lower) || holds(s, at, upper)
}

/// Whether `nan` stands at `from`, in any mix of cases.
pub open spec fn holds_nan(s: Seq<char>, from: int) -> bool {
    holds_letter(s, from, 'n', 'N') && holds_letter(s, from + 1, 'a', 'A') && holds_letter(
        s,
        from + 2,
        'n',
        'N',
    )
}

/// Whether `inf` stands at `from`, in any mix of cases.
pub open spec fn holds_inf(s: Seq<char>, from: int) -> bool {
    holds_letter(s, from, 'i', 'I') && holds_letter(s, from + 1, 'n', 'N') && holds_letter(
        s,
        from + 2,
        'f',
        'F',
    )
}

/// Whether `infinity` stands at `from`, in any mix of cases.
pub open spec fn holds_infinity(s: Seq<char>, from: int) -> bool {
    holds_inf(s, from) && holds_letter(s, from + 3, 'i', 'I') && holds_letter(s, from + 4, 'n', 'N')
        && holds_letter(s, from + 5, 'i', 'I') && holds_letter(s, from + 6, 't', 'T')
        && holds_letter(s, from + 7, 'y', 'Y')
}

/// End of the number that starts at `from`: a decimal, or else one of the
/// words.
pub open spec fn number_end(s: Seq<char>, from: int) -> Option<int> {
    match decimal_end(s, from) {
        Some(end) => Some(end),
        None => if mantissa_end(s, from) is Some {
            None
        } else if holds_nan(s, from) {
            Some(from + 3)
        } else if holds_infinity(s, from) {
            Some(from + 8)
        } else if holds_inf(s, from) {
            Some(from + 3)
        } else {
            None
        },
    }
}

/// The number field that starts at `from`: at least one blank, then a
/// number. Gives the range of the number.
pub open spec fn field_at(s: Seq<char>, from: int) -> Option<(int, int)> {
    let start = blanks_end(s, from);
    if start > from {
        match number_end(s, start) {
            Some(end) => Some((start, end)),
            None => None,
        }
    } else {
        None
    }
}

/// The texts of `count` number fields in a row, the first starting at
/// `from`.
pub open spec fn fields_from(s: Seq<char>, from: int, count: nat) -> Option<Seq<Seq<char>>>
    decreases count,
{
    if count == 0 {
        Some(Seq::<Seq<char>>::empty())
    } else {
        match field_at(s, from) {
            None => None,
            Some((start, end)) => match fields_from(s, end, (count - 1) as nat) {
                None => None,
                Some(rest) => Some(seq![s.subrange(start, end)] + rest),
            },
        }
    }
}

/// A parsed command. Every number is the text that spells it.
#[derive(Clone, Debug)]
pub enum Command {
    /// A single beam sample: `B x y intensity dt`.
    Beam { x: String, y: String, intensity: String, dt: String },
    /// A line segment: `L x0 y0 x1 y1 intensity`.
    Segment { x0: String, y0: String, x1: String, y1: String, intensity: String },
    /// Frame sync: `F`.
    FrameSync,
}

/// A [`Command`] as a mathematical value.
pub enum CommandView {
    Beam { x: Seq<char>, y: Seq<char>, intensity: Seq<char>, dt: Seq<char> },
    Segment { x0: Seq<char>, y0: Seq<char>, x1: Seq<char>, y1: Seq<char>, intensity: Seq<char> },
    FrameSync,
}

impl View for Command {
    type V = CommandView;

    open spec fn view(&self) -> CommandView {
        match self {
            Command::Beam { x, y, intensity, dt } => CommandView::Beam {
                x: x@,
                y: y@,
                intensity: intensity@,
                dt: dt@,
            },
            Command::Segment { x0, y0, x1, y1, intensity } => CommandView::Segment {
                x0: x0@,
                y0: y0@,
                x1: x1@,
                y1: y1@,
                intensity: intensity@,
            },
            Command::FrameSync => CommandView::FrameSync,
        }
    }
}

/// A line that is no command, no comment and not blank.
#[derive(Clone, Debug)]
pub struct UnknownCommand {
    /// The line, trimmed.
    pub line: String,
}

impl UnknownCommand {
    /// The diagnostic for the line.
    pub fn message(&self) -> (s: String)
        ensures
            s@ == "unknown command: "@ + self.line@,
    {
        String::from_str("unknown command: ").concat(self.line.as_str())
    }
}

/// Whether a word ends before position `at`: the text ends there, or white
/// space stands there.
pub open spec fn word_ends(t: Seq<char>, at: int) -> bool {
    at >= t.len() || is_whitespace(t[at])
}

/// What a trimmed line says, if it is a command.
pub open spec fn command_of(t: Seq<char>) -> Option<CommandView> {
    if holds(t, 0, 'B') && fields_from(t, 1, 4) is Some {
        let f = fields_from(t, 1, 4)->0;
        Some(CommandView::Beam { x: f[0], y: f[1], intensity: f[2], dt: f[3] })
    } else if holds(t, 0, 'L') && fields_from(t, 1, 5) is Some {
        let f = fields_from(t, 1, 5)->0;
        Some(CommandView::Segment { x0: f[0], y0: f[1], x1: f[2], y1: f[3], intensity: f[4] })
    } else if holds(t, 0, 'F') && word_ends(t, 1) {
        Some(CommandView::FrameSync)
    } else {
        None
    }
}

/// Whether a trimmed line carries nothing: it is empty or a comment.
pub open spec fn is_silent(t: Seq<char>) -> bool {
    t.len() == 0 || t[0] == '#'
}

/// What a line says: nothing (`Ok(None)`), a command, or nothing that the
/// protocol knows (`Err`, with the trimmed line).
pub open spec fn parse_spec(line: Seq<char>) -> Result<Option<CommandView>, Seq<char>> {
    let t = trim(line);
    if is_silent(t) {
        Ok(None)
    } else {
        match command_of(t) {
            Some(command) => Ok(Some(command)),
            None => Err(t),
        }
    }
}

fn scan_digits(s: &[char], from: usize) -> (end: usize)
    requires
        from <= s@.len(),
    ensures
        end == digits_end(s@, from as int),
        from <= end <= s@.len(),
{
    let mut p: usize = from;
    while p < s.len() && s[p] >= '0' && s[p] <= '9'
        invariant
            from <= p <= s@.len(),
            digits_end(s@, from as int) == digits_end(s@, p as int),
        decreases s@.len() - p,
    {
        p += 1;
    }
    p
}

fn scan_blanks(s: &[char], from: usize) -> (end: usize)
    requires
        from <= s@.len(),
    ensures
        end == blanks_end(s@, from as int),
        from <= end <= s@.len(),
{
    let mut p: usize = from;
    while p < s.len() && (s[p] == ' ' || s[p] == '\t')
        invariant
            from <= p <= s@.len(),
            blanks_end(s@, from as int) == blanks_end(s@, p as int),
        decreases s@.len() - p,
    {
        p += 1;
    }
    p
}

fn at(s: &[char], pos: usize, c: char) -> (r: bool)
    ensures
        r == holds(s@, pos as int, c),
{
    pos < s.len() && s[pos] == c
}

fn skip_sign(s: &[char], from: usize) -> (p: usize)
    requires
        from <= s@.len(),
    ensures
        p == after_sign(s@, from as int),
        from <= p <= s@.len(),
{
    let len = s.len();
    if from < len && (s[from] == '+' || s[from] == '-') {
        from + 1
    } else {
        from
    }
}

fn scan_mantissa(s: &[char], from: usize) -> (r: Option<usize>)
    requires
        from <= s@.len(),
    ensures
        r is Some <==> mantissa_end(s@, from as int) is Some,
        r matches Some(end) ==> end == mantissa_end(s@, from as int)->0 && from <= end <= s@.len(),
{
    let len = s.len();
    let p = skip_sign(s, from);
    let d = scan_digits(s, p);
    if d > p {
        if d < len && s[d] == '.' {
            Some(scan_digits(s, d + 1))
        } else {
            Some(d)
        }
    } else if p < len && s[p] == '.' {
        let e = scan_digits(s, p + 1);
        if e > p + 1 {
            Some(e)
        } else {
            None
        }
    } else {
        None
    }
}

fn scan_decimal(s: &[char], from: usize) -> (r: Option<usize>)
    requires
        from <= s@.len(),
    ensures
        r is Some <==> decimal_end(s@, from as int) is Some,
        r matches Some(end) ==> end == decimal_end(s@, from as int)->0 && from <= end <= s@.len(),
{
    match scan_mantissa(s, from) {
        None => None,
        Some(m) => {
            if m < s.len() && (s[m] == 'e' || s[m] == 'E') {
                let q = skip_sign(s, m + 1);
                let e = scan_digits(s, q);
                if e > q {
                    Some(e)
                } else {
                    None
                }
            } else {
                Some(m)
            }
        },
    }
}

fn at_letter(s: &[char], pos: usize, lower: char, upper: char) -> (r: bool)
    ensures
        r == holds_letter(s@, pos as int, lower, upper),
{
    at(s, pos, lower) || at(s, pos, upper)
}

fn scan_number(s: &[char], from: usize) -> (r: Option<usize>)
    requires
        from <= s@.len(),
    ensures
        r is Some <==> number_end(s@, from as int) is Some,
        r matches Some(end) ==> end == number_end(s@, from as int)->0 && from <= end <= s@.len(),
{
    match scan_decimal(s, from) {
        Some(end) => Some(end),
        None => {
            if scan_mantissa(s, from).is_some() {
                return None;
            }
            if s.len() - from < 3 {
                return None;
            }
            let nan = at_letter(s, from, 'n', 'N') && at_letter(s, from + 1, 'a', 'A') && at_letter(
                s,
                from + 2,
                'n',
                'N',
            );
            if nan {
                return Some(from + 3);
            }
            let inf = at_letter(s, from, 'i', 'I') && at_letter(s, from + 1, 'n', 'N') && at_letter(
                s,
                from + 2,
                'f',
                'F',
            );
            if !inf {
                return None;
            }
            if s.len() - from >= 8 && at_letter(s, from + 3, 'i', 'I') && at_letter(
                s,
                from + 4,
                'n',
                'N',
            ) && at_letter(s, from + 5, 'i', 'I') && at_letter(s, from + 6, 't', 'T') && at_letter(
                s,
                from + 7,
                'y',
                'Y',
            ) {
                Some(from + 8)
            } else {
                Some(from + 3)
            }
        },
    }
}

fn scan_field(s: &[char], from: usize) -> (r: Option<(usize, usize)>)
    requires
        from <= s@.len(),
    ensures
        r is Some <==> field_at(s@, from as int) is Some,
        r matches Some(range) ==> field_at(s@, from as int) == Some((range.0 as int, range.1 as int))
            && from <= range.0 <= range.1 <= s@.len(),
{
    let start = scan_blanks(s, from);
    if start > from {
        match scan_number(s, start) {
            Some(end) => Some((start, end)),
            None => None,
        }
    } else {
        None
    }
}

/// Extending a row of fields by one more field at its end.
proof fn lemma_fields_extend(s: Seq<char>, from: int, count: nat, done: Seq<Seq<char>>, next: int)
    requires
        fields_from(s, from, count) == Some(done),
        fields_end(s, from, count) == Some(next),
    ensures
        fields_from(s, from, count + 1) == match field_at(s, next) {
            None => None::<Seq<Seq<char>>>,
            Some((start, end)) => Some(done.push(s.subrange(start, end))),
        },
        fields_end(s, from, count + 1) == match field_at(s, next) {
            None => None::<int>,
            Some((start, end)) => Some(end),
        },
    decreases count,
{
    if count == 0 {
        assert(next == from);
        assert(done =~= Seq::<Seq<char>>::empty());
        match field_at(s, from) {
            None => {},
            Some((start, end)) => {
                assert(fields_from(s, end, 0) == Some(Seq::<Seq<char>>::empty()));
                assert(fields_end(s, end, 0) == Some(end));
                assert(seq![s.subrange(start, end)] + Seq::<Seq<char>>::empty() =~= done.push(
                    s.subrange(start, end),
                ));
            },
        }
    } else {
        let first = field_at(s, from)->0;
        let start0 = first.0;
        let end0 = first.1;
        let rest = fields_from(s, end0, (count - 1) as nat)->0;
        assert(done =~= seq![s.subrange(start0, end0)] + rest);
        assert(fields_end(s, end0, (count - 1) as nat) == Some(next));
        lemma_fields_extend(s, end0, (count - 1) as nat, rest, next);
        assert(fields_from(s, from, count + 1) == match fields_from(s, end0, count) {
            None => None::<Seq<Seq<char>>>,
            Some(more) => Some(seq![s.subrange(start0, end0)] + more),
        });
        assert(fields_end(s, from, count + 1) == fields_end(s, end0, count));
        match field_at(s, next) {
            None => {},
            Some((start, end)) => {
                assert(seq![s.subrange(start0, end0)] + rest.push(s.subrange(start, end)) =~= done.push(
                    s.subrange(start, end),
                ));
            },
        }
    }
}

/// Position after `count` number fields in a row, the first starting at
/// `from`.
pub open spec fn fields_end(s: Seq<char>, from: int, count: nat) -> Option<int>
    decreases count,
{
    if count == 0 {
        Some(from)
    } else {
        match field_at(s, from) {
            None => None,
            Some((start, end)) => fields_end(s, end, (count - 1) as nat),
        }
    }
}

/// Once a row of fields fails it stays failed however many more are asked
/// for.
proof fn lemma_fields_fail(s: Seq<char>, from: int, count: nat, more: nat)
    requires
        fields_from(s, from, count) is None,
        more >= count,
    ensures
        fields_from(s, from, more) is None,
    decreases count,
{
    if count > 0 {
        match field_at(s, from) {
            None => {},
            Some((start, end)) => {
                lemma_fields_fail(s, end, (count - 1) as nat, (more - 1) as nat);
            },
        }
    }
}

/// A row of fields, and where it ends, exist together.
proof fn lemma_fields_end_exists(s: Seq<char>, from: int, count: nat)
    ensures
        fields_from(s, from, count) is Some <==> fields_end(s, from, count) is Some,
        fields_from(s, from, count) matches Some(f) ==> f.len() == count,
    decreases count,
{
    if count > 0 {
        match field_at(s, from) {
            None => {},
            Some((start, end)) => {
                lemma_fields_end_exists(s, end, (count - 1) as nat);
            },
        }
    }
}

fn scan_fields(s: &[char], from: usize, count: usize) -> (r: Option<Vec<String>>)
    requires
        from <= s@.len(),
    ensures
        r is Some <==> fields_from(s@, from as int, count as nat) is Some,
        r matches Some(texts) ==> texts@.len() == count && forall|k: int|
            0 <= k < count ==> (#[trigger] texts@[k])@ == fields_from(s@, from as int, count as nat)->0[k],
{
    let mut texts: Vec<String> = Vec::new();
    let mut pos: usize = from;
    let mut k: usize = 0;
    while k < count
        invariant
            k <= count,
            from <= pos <= s@.len(),
            texts@.len() == k,
            fields_from(s@, from as int, k as nat) is Some,
            fields_end(s@, from as int, k as nat) == Some(pos as int),
            forall|j: int|
                0 <= j < k ==> (#[trigger] texts@[j])@ == fields_from(s@, from as int, k as nat)->0[j],
        decreases count - k,
    {
        proof {
            lemma_fields_extend(
                s@,
                from as int,
                k as nat,
                fields_from(s@, from as int, k as nat)->0,
                pos as int,
            );
            lemma_fields_end_exists(s@, from as int, k as nat);
        }
        match scan_field(s, pos) {
            None => {
                proof {
                    lemma_fields_fail(s@, from as int, (k + 1) as nat, count as nat);
                }
                return None;
            },
            Some((start, end)) => {
                texts.push(piece_to_string(s, start, end));
                pos = end;
            },
        }
        k += 1;
    }
    proof {
        lemma_fields_end_exists(s@, from as int, count as nat);
    }
    Some(texts)
}

fn take_text(texts: &mut Vec<String>) -> (s: String)
    requires
        old(texts)@.len() > 0,
    ensures
        s == old(texts)@.last(),
        final(texts)@ == old(texts)@.drop_last(),
{
    match texts.pop() {
        Some(s) => s,
        None => String::new(),
    }
}

/// Parses a single line of the protocol.
///
/// Returns `Ok(None)` for a blank line or a comment, the command for a
/// line that spells one, and the trimmed line as an error otherwise.
pub fn parse_line(line: &str) -> (r: Result<Option<Command>, UnknownCommand>)
    ensures
        match parse_spec(line@) {
            Ok(None) => r matches Ok(None),
            Ok(Some(command)) => r matches Ok(Some(found)) && found@ == command,
            Err(text) => r matches Err(unknown) && unknown.line@ == text,
        },
{
    let chars = collect_chars(line);
    let whole = chars.as_slice();
    let (a, b) = trim_range(whole, 0, whole.len());
    assert(whole@.subrange(0, whole@.len() as int) =~= line@);
    let trimmed_text = piece_to_string(whole, a, b);
    let trimmed = collect_chars(trimmed_text.as_str());
    let t = trimmed.as_slice();
    assert(t@ == trim(line@));
    if t.len() == 0 || t[0] == '#' {
        return Ok(None);
    }
    if t[0] == 'B' {
        match scan_fields(t, 1, 4) {
            Some(mut texts) => {
                let dt = take_text(&mut texts);
                let intensity = take_text(&mut texts);
                let y = take_text(&mut texts);
                let x = take_text(&mut texts);
                return Ok(Some(Command::Beam { x, y, intensity, dt }));
            },
            None => {},
        }
    }
    if t[0] == 'L' {
        match scan_fields(t, 1, 5) {
            Some(mut texts) => {
                let intensity = take_text(&mut texts);
                let y1 = take_text(&mut texts);
                let x1 = take_text(&mut texts);
                let y0 = take_text(&mut texts);
                let x0 = take_text(&mut texts);
                return Ok(Some(Command::Segment { x0, y0, x1, y1, intensity }));
            },
            None => {},
        }
    }
    if t[0] == 'F' && (t.len() == 1 || check_whitespace(t[1])) {
        return Ok(Some(Command::FrameSync));
    }
    Err(UnknownCommand { line: trimmed_text })
}

/// The lines of the protocol that wait to be played, with the speed at
/// which line segments are drawn.
pub struct ExternalSource {
    /// Beam speed along a segment, in screen widths per second.
    pub beam_speed: Binary32,
    lines: Vec<String>,
    position: usize,
}

/// Whether a line is a frame sync.
pub open spec fn is_frame_sync(line: Seq<char>) -> bool {
    parse_spec(line) == Ok::<Option<CommandView>, Seq<char>>(Some(CommandView::FrameSync))
}

/// Index of the first frame sync among `lines[from..]`, or the number of
/// lines.
pub open spec fn frame_end(lines: Seq<Seq<char>>, from: int) -> int
    decreases lines.len() - from,
{
    if from < 0 || from >= lines.len() {
        lines.len() as int
    } else if is_frame_sync(lines[from]) {
        from
    } else {
        frame_end(lines, from + 1)
    }
}

/// The commands of `lines[from..upto]`, in order. Lines that say nothing,
/// or nothing that the protocol knows, are passed over.
pub open spec fn commands_of(lines: Seq<Seq<char>>, from: int, upto: int) -> Seq<CommandView>
    decreases upto - from,
{
    if upto <= from || from < 0 || upto > lines.len() {
        Seq::<CommandView>::empty()
    } else {
        let before = commands_of(lines, from, upto - 1);
        match parse_spec(lines[upto - 1]) {
            Ok(Some(command)) => before.push(command),
            _ => before,
        }
    }
}

/// The samples of the first `n` parts, strung together.
pub open spec fn joined(parts: Seq<Vec<BeamSample>>, n: int) -> Seq<BeamSample>
    decreases n,
{
    if n <= 0 {
        Seq::<BeamSample>::empty()
    } else {
        joined(parts, n - 1) + parts[n - 1]@
    }
}

/// Whether `out` is what `render` makes of a frame: `commands` are the
/// commands of the frame, `parts` is what `render` returned for each of
/// them, and `out` is the parts strung together.
pub open spec fn renders<R: Fn(Command) -> Vec<BeamSample>>(
    render: R,
    frame: Seq<CommandView>,
    commands: Seq<Command>,
    parts: Seq<Vec<BeamSample>>,
    out: Seq<BeamSample>,
) -> bool {
    &&& commands.len() == frame.len()
    &&& parts.len() == frame.len()
    &&& forall|k: int| 0 <= k < commands.len() ==> (#[trigger] commands[k])@ == frame[k]
    &&& forall|k: int| 0 <= k < commands.len() ==> call_ensures(render, (commands[k],), #[trigger] parts[k])
    &&& out == joined(parts, parts.len() as int)
}

/// What the first `n` parts join to depends on those parts only.
proof fn lemma_joined_prefix(a: Seq<Vec<BeamSample>>, b: Seq<Vec<BeamSample>>, n: int)
    requires
        0 <= n <= a.len(),
        n <= b.len(),
        forall|k: int| 0 <= k < n ==> a[k] == b[k],
    ensures
        joined(a, n) == joined(b, n),
    decreases n,
{
    if n > 0 {
        lemma_joined_prefix(a, b, n - 1);
    }
}

impl ExternalSource {
    /// The beam speed.
    pub closed spec fn speed(&self) -> Binary32 {
        self.beam_speed
    }

    /// The lines fed so far.
    pub closed spec fn lines(&self) -> Seq<Seq<char>> {
        Seq::new(self.lines@.len(), |i: int| self.lines@[i]@)
    }

    /// Number of lines already played.
    pub closed spec fn position(&self) -> int {
        self.position as int
    }

    /// The cursor lies within the lines.
    pub closed spec fn wf(&self) -> bool {
        self.position <= self.lines@.len()
    }

    /// A source without lines.
    pub fn new(beam_speed: Binary32) -> (s: Self)
        ensures
            s.wf(),
            s.speed() == beam_speed,
            s.lines() == Seq::<Seq<char>>::empty(),
            s.position() == 0,
    {
        let s = ExternalSource { beam_speed, lines: Vec::new(), position: 0 };
        assert(s.lines() =~= Seq::<Seq<char>>::empty());
        s
    }

    /// Feeds lines of the protocol into the source, behind those that wait.
    pub fn push_lines(&mut self, lines: Vec<String>)
        requires
            old(self).wf(),
        ensures
            final(self).wf(),
            final(self).speed() == old(self).speed(),
            final(self).position() == old(self).position(),
            final(self).lines() == old(self).lines() + Seq::new(lines@.len(), |i: int| lines@[i]@),
    {
        let mut lines = lines;
        let ghost fed = lines@;
        self.lines.append(&mut lines);
        assert(self.lines() =~= old(self).lines() + Seq::new(fed.len(), |i: int| fed[i]@));
    }

    /// Plays the lines up to the next frame sync and returns their
    /// commands in order.
    ///
    /// Blank lines, comments and lines that the protocol does not know are
    /// passed over. The frame sync itself is consumed and not returned; if
    /// there is none, every waiting line is played.
    pub fn next_frame(&mut self) -> (commands: Vec<Command>)
        requires
            old(self).wf(),
        ensures
            final(self).wf(),
            final(self).speed() == old(self).speed(),
            final(self).lines() == old(self).lines(),
            ({
                let end = frame_end(old(self).lines(), old(self).position());
                &&& final(self).position() == if end < old(self).lines().len() {
                    end + 1
                } else {
                    end
                }
                &&& commands@.len() == commands_of(old(self).lines(), old(self).position(), end).len()
                &&& forall|k: int|
                    0 <= k < commands@.len() ==> (#[trigger] commands@[k])@ == commands_of(
                        old(self).lines(),
                        old(self).position(),
                        end,
                    )[k]
            }),
    {
        let mut commands: Vec<Command> = Vec::new();
        let ghost lines = self.lines();
        let ghost start = self.position as int;
        loop
            invariant_except_break
                self.wf(),
                self.speed() == old(self).speed(),
                self.lines() == lines,
                lines == old(self).lines(),
                start == old(self).position(),
                start <= self.position,
                frame_end(lines, start) == frame_end(lines, self.position as int),
                commands@.len() == commands_of(lines, start, self.position as int).len(),
                forall|k: int|
                    0 <= k < commands@.len() ==> (#[trigger] commands@[k])@ == commands_of(
                        lines,
                        start,
                        self.position as int,
                    )[k],
            ensures
                self.wf(),
                self.speed() == old(self).speed(),
                self.lines() == lines,
                lines == old(self).lines(),
                start == old(self).position(),
                ({
                    let end = frame_end(lines, start);
                    &&& self.position() == if end < lines.len() {
                        end + 1
                    } else {
                        end
                    }
                    &&& commands@.len() == commands_of(lines, start, end).len()
                    &&& forall|k: int|
                        0 <= k < commands@.len() ==> (#[trigger] commands@[k])@ == commands_of(
                            lines,
                            start,
                            end,
                        )[k]
                }),
            decreases self.lines@.len() - self.position,
        {
            if self.position >= self.lines.len() {
                break ;
            }
            let parsed = parse_line(self.lines[self.position].as_str());
            let ghost here = self.position as int;
            assert(lines[here] == self.lines@[here]@);
            self.position += 1;
            match parsed {
                Ok(Some(Command::FrameSync)) => {
                    break ;
                },
                Ok(Some(command)) => {
                    commands.push(command);
                },
                Ok(None) => {},
                Err(_) => {},
            }
        }
        commands
    }

    /// Plays the lines up to the next frame sync and returns their
    /// samples: what `render` makes of every command, in the order of the
    /// commands. `render` turns a beam command into its sample and a
    /// segment into the samples along it.
    pub fn generate<R: Fn(Command) -> Vec<BeamSample>>(&mut self, render: R) -> (out: Vec<BeamSample>)
        requires
            old(self).wf(),
            forall|command: Command| call_requires(render, (command,)),
        ensures
            final(self).wf(),
            final(self).speed() == old(self).speed(),
            final(self).lines() == old(self).lines(),
            final(self).position() == if frame_end(old(self).lines(), old(self).position()) < old(
                self,
            ).lines().len() {
                frame_end(old(self).lines(), old(self).position()) + 1
            } else {
                frame_end(old(self).lines(), old(self).position())
            },
            exists|commands: Seq<Command>, parts: Seq<Vec<BeamSample>>| #[trigger]
                renders(
                    render,
                    commands_of(
                        old(self).lines(),
                        old(self).position(),
                        frame_end(old(self).lines(), old(self).position()),
                    ),
                    commands,
                    parts,
                    out@,
                ),
    {
        let mut frame = self.next_frame();
        let ghost commands = frame@;
        let mut out: Vec<BeamSample> = Vec::new();
        let ghost mut parts: Seq<Vec<BeamSample>> = Seq::empty();
        let n = frame.len();
        let mut taken: Vec<Command> = Vec::new();
        // Commands are taken from the back, so the frame is turned around first.
        while frame.len() > 0
            invariant
                frame@.len() + taken@.len() == n,
                n == commands.len(),
                forall|k: int| 0 <= k < frame@.len() ==> frame@[k] == commands[k],
                forall|k: int| 0 <= k < taken@.len() ==> #[trigger] taken@[k] == commands[n - 1 - k],
            decreases frame@.len(),
        {
            match frame.pop() {
                Some(command) => {
                    taken.push(command);
                },
                None => {},
            }
        }
        let mut k: usize = 0;
        while k < n
            invariant
                k <= n,
                n == commands.len(),
                taken@.len() == n - k,
                forall|j: int| 0 <= j < taken@.len() ==> #[trigger] taken@[j] == commands[n - 1 - j],
                forall|command: Command| call_requires(render, (command,)),
                parts.len() == k,
                forall|j: int| 0 <= j < k ==> call_ensures(render, (commands[j],), #[trigger] parts[j]),
                out@ == joined(parts, k as int),
            decreases n - k,
        {
            match taken.pop() {
                Some(command) => {
                    assert(command == commands[k as int]);
                    let mut part = render(command);
                    let ghost before = parts;
                    proof {
                        parts = parts.push(part);
                        lemma_joined_prefix(before, parts, k as int);
                    }
                    out.append(&mut part);
                },
                None => {},
            }
            k += 1;
        }
        proof {
            let frame_views = commands_of(
                old(self).lines(),
                old(self).position(),
                frame_end(old(self).lines(), old(self).position()),
            );
            assert(renders(render, frame_views, commands, parts, out@));
        }
        out
    }

    /// Number of lines that wait to be played.
    pub fn waiting(&self) -> (n: usize)
        requires
            self.wf(),
        ensures
            n == self.lines().len() - self.position(),
    {
        self.lines.len() - self.position
    }
}

} // verus!
