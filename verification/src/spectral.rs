//! Spectral bands and the spectrum table format.
//!
//! The visible range from 380 nm to 780 nm is cut into 16 bands of 25 nm.
//! An emission spectrum may be given as a table with one line per
//! measurement; this module finds the two columns that matter and hands out
//! the fields of every data line, leaving the numbers themselves to the
//! caller.

use vstd::prelude::*;
use vstd::seq_lib::{to_multiset_insert, to_multiset_remove};
use vstd::string::StringExecFns;
use crate::binary32::Binary32;
use crate::text::{
    collect_chars,
    piece_equals,
    piece_to_string,
    split,
    split_ranges,
    trim,
    trim_range,
};

verus! {

/// Number of spectral bands across the visible spectrum.
pub const SPECTRAL_BANDS: usize = 16;

/// Lower end of the visible range, in nanometres.
pub const WAVELENGTH_MIN: u32 = 380;

/// Upper end of the visible range, in nanometres.
pub const WAVELENGTH_MAX: u32 = 780;

/// Width of one band, in nanometres.
pub const BAND_WIDTH: u32 = 25;

/// Lower edge of band `band`, in nanometres.
pub open spec fn band_lower(band: int) -> int {
    WAVELENGTH_MIN + band * BAND_WIDTH
}

/// The wavelength range `[min, max)` of a band, in nanometres.
pub fn band_range(band: usize) -> (r: (u32, u32))
    requires
        band < SPECTRAL_BANDS,
    ensures
        r.0 == band_lower(band as int),
        r.1 == band_lower(band + 1),
        r.1 - r.0 == BAND_WIDTH,
        WAVELENGTH_MIN <= r.0 < r.1 <= WAVELENGTH_MAX,
{
    let min: u32 = WAVELENGTH_MIN + (band as u32) * BAND_WIDTH;
    (min, min + BAND_WIDTH)
}

/// The centre wavelength of a band, in tenths of a nanometre (the centres
/// fall on half nanometres): the midpoint of its range.
pub fn band_center(band: usize) -> (c: u32)
    requires
        band < SPECTRAL_BANDS,
    ensures
        2 * c == 10 * (band_lower(band as int) + band_lower(band + 1)),
{
    let (min, max) = band_range(band);
    5 * (min + max)
}

/// The band whose range contains `wavelength_nm`, if it is visible.
pub fn band_containing(wavelength_nm: u32) -> (band: Option<usize>)
    ensures
        band is Some <==> WAVELENGTH_MIN <= wavelength_nm < WAVELENGTH_MAX,
        band matches Some(b) ==> b < SPECTRAL_BANDS && band_lower(b as int) <= wavelength_nm
            < band_lower(b + 1),
{
    if wavelength_nm < WAVELENGTH_MIN || wavelength_nm >= WAVELENGTH_MAX {
        None
    } else {
        Some(((wavelength_nm - WAVELENGTH_MIN) / BAND_WIDTH) as usize)
    }
}

/// The bands tile the visible range: the first starts at its lower end, the
/// last stops at its upper end, and each band starts where the one before
/// it stops.
pub proof fn lemma_bands_tile_visible_range()
    ensures
        band_lower(0) == WAVELENGTH_MIN,
        band_lower(SPECTRAL_BANDS as int) == WAVELENGTH_MAX,
        forall|b: int| #![trigger band_lower(b)] band_lower(b + 1) - band_lower(b) == BAND_WIDTH,
{
}

/// Packs 16 per-band values into four groups of four, the way the shaders
/// read them: band `i` goes to group `i / 4`, lane `i % 4`.
pub fn pack_bands(values: &[Binary32; 16]) -> (packed: [[Binary32; 4]; 4])
    ensures
        forall|i: int| 0 <= i < 16 ==> packed@[i / 4]@[i % 4] == #[trigger] values@[i],
{
    let packed = [
        [values[0], values[1], values[2], values[3]],
        [values[4], values[5], values[6], values[7]],
        [values[8], values[9], values[10], values[11]],
        [values[12], values[13], values[14], values[15]],
    ];
    assert forall|i: int| 0 <= i < 16 implies packed@[i / 4]@[i % 4] == #[trigger] values@[i] by {
        if i < 4 {
        } else if i < 8 {
        } else if i < 12 {
        } else {
        }
    }
    packed
}

/// Name of the wavelength column.
pub open spec fn wavelength_column() -> Seq<char> {
    "wavelength_nm"@
}

/// Name of the intensity column.
pub open spec fn intensity_column() -> Seq<char> {
    "rel_intensity"@
}

/// What can be wrong with a spectrum table.
#[derive(Debug)]
pub enum CsvSpectrumError {
    /// The header lacks the named column.
    MissingColumn(&'static str),
    /// A field of a data line is not a number. `line` counts from 1;
    /// `detail` is the number parser's own words.
    ParseFloat { line: usize, col: &'static str, detail: String },
    /// There is no header, or fewer than two data points.
    TooFewPoints,
    /// The spectrum integrates to nothing.
    ZeroIntensity,
}

/// The decimal digits of `n`.
pub open spec fn decimal(n: nat) -> Seq<char>
    decreases n,
{
    if n < 10 {
        seq![digit_char(n)]
    } else {
        decimal(n / 10).push(digit_char(n % 10))
    }
}

/// The character for a digit value below ten.
pub open spec fn digit_char(d: nat) -> char {
    if d == 0 {
        '0'
    } else if d == 1 {
        '1'
    } else if d == 2 {
        '2'
    } else if d == 3 {
        '3'
    } else if d == 4 {
        '4'
    } else if d == 5 {
        '5'
    } else if d == 6 {
        '6'
    } else if d == 7 {
        '7'
    } else if d == 8 {
        '8'
    } else {
        '9'
    }
}

fn digit_of(d: usize) -> (c: char)
    requires
        d < 10,
    ensures
        c == digit_char(d as nat),
{
    if d == 0 {
        '0'
    } else if d == 1 {
        '1'
    } else if d == 2 {
        '2'
    } else if d == 3 {
        '3'
    } else if d == 4 {
        '4'
    } else if d == 5 {
        '5'
    } else if d == 6 {
        '6'
    } else if d == 7 {
        '7'
    } else if d == 8 {
        '8'
    } else {
        '9'
    }
}

/// The decimal digits of `n`, as a list of characters.
pub fn decimal_chars(n: usize) -> (v: Vec<char>)
    ensures
        v@ == decimal(n as nat),
    decreases n,
{
    if n < 10 {
        let mut v: Vec<char> = Vec::new();
        v.push(digit_of(n));
        v
    } else {
        let mut v = decimal_chars(n / 10);
        v.push(digit_of(n % 10));
        v
    }
}

impl CsvSpectrumError {
    /// The diagnostic for this error.
    pub open spec fn message_spec(&self) -> Seq<char> {
        match self {
            CsvSpectrumError::MissingColumn(col) => "missing required column: "@ + col@,
            CsvSpectrumError::ParseFloat { line, col, detail } => "line "@ + decimal(*line as nat)
                + ", column '"@ + col@ + "': "@ + detail@,
            CsvSpectrumError::TooFewPoints => "need at least 2 data points for interpolation"@,
            CsvSpectrumError::ZeroIntensity => "total integrated intensity is zero"@,
        }
    }

    /// The diagnostic for this error, with the line and column of a field
    /// that failed to parse.
    pub fn message(&self) -> (s: String)
        ensures
            s@ == self.message_spec(),
    {
        match self {
            CsvSpectrumError::MissingColumn(col) => {
                String::from_str("missing required column: ").concat(col)
            },
            CsvSpectrumError::ParseFloat { line, col, detail } => {
                let digits = decimal_chars(*line);
                let number = piece_to_string(digits.as_slice(), 0, digits.len());
                assert(number@ =~= decimal(*line as nat));
                String::from_str("line ").concat(number.as_str()).concat(", column '").concat(
                    col,
                ).concat("': ").concat(detail.as_str())
            },
            CsvSpectrumError::TooFewPoints => {
                String::from_str("need at least 2 data points for interpolation")
            },
            CsvSpectrumError::ZeroIntensity => String::from_str("total integrated intensity is zero"),
        }
    }
}

/// The two fields of one data line, still as text.
#[derive(Debug)]
pub struct SpectrumRow {
    /// Line of the table that the row stands on, counting from 1.
    pub line: usize,
    /// The trimmed field under `wavelength_nm`; empty if the line is short.
    pub wavelength: String,
    /// The trimmed field under `rel_intensity`; empty if the line is short.
    pub intensity: String,
}

/// A [`SpectrumRow`] as a mathematical value.
pub struct SpectrumRowView {
    pub line: nat,
    pub wavelength: Seq<char>,
    pub intensity: Seq<char>,
}

impl View for SpectrumRow {
    type V = SpectrumRowView;

    open spec fn view(&self) -> SpectrumRowView {
        SpectrumRowView {
            line: self.line as nat,
            wavelength: self.wavelength@,
            intensity: self.intensity@,
        }
    }
}

/// Why a table yields no rows.
pub enum ScanFailure {
    NoHeader,
    MissingWavelength,
    MissingIntensity,
}

/// A line that carries nothing: blank, or a comment that starts with `#`.
pub open spec fn is_skipped_line(line: Seq<char>) -> bool {
    trim(line).len() == 0 || trim(line)[0] == '#'
}

/// Index of the first line among `lines[from..]` that is not skipped, or
/// the number of lines.
pub open spec fn next_content_line(lines: Seq<Seq<char>>, from: int) -> int
    decreases lines.len() - from,
{
    if from < 0 || from >= lines.len() {
        lines.len() as int
    } else if !is_skipped_line(lines[from]) {
        from
    } else {
        next_content_line(lines, from + 1)
    }
}

/// Index of the first of `columns[from..]` that, trimmed, reads `name`, or
/// the number of columns.
pub open spec fn column_index(columns: Seq<Seq<char>>, name: Seq<char>, from: int) -> int
    decreases columns.len() - from,
{
    if from < 0 || from >= columns.len() {
        columns.len() as int
    } else if trim(columns[from]) == name {
        from
    } else {
        column_index(columns, name, from + 1)
    }
}

/// The trimmed field number `index` of a comma-separated line; empty when
/// the line has too few fields.
pub open spec fn field_text(line: Seq<char>, index: int) -> Seq<char> {
    let fields = split(line, ',');
    if 0 <= index < fields.len() {
        trim(fields[index])
    } else {
        Seq::<char>::empty()
    }
}

/// The rows of the data lines among `lines[from..upto]`.
pub open spec fn data_rows(
    lines: Seq<Seq<char>>,
    from: int,
    upto: int,
    wavelength_index: int,
    intensity_index: int,
) -> Seq<SpectrumRowView>
    decreases upto - from,
{
    if upto <= from || upto > lines.len() || from < 0 {
        Seq::<SpectrumRowView>::empty()
    } else {
        let before = data_rows(lines, from, upto - 1, wavelength_index, intensity_index);
        let line = lines[upto - 1];
        if is_skipped_line(line) {
            before
        } else {
            before.push(
                SpectrumRowView {
                    line: upto as nat,
                    wavelength: field_text(line, wavelength_index),
                    intensity: field_text(line, intensity_index),
                },
            )
        }
    }
}

/// What scanning a table yields: the rows of its data lines, or the reason
/// why there are none.
///
/// Lines are separated by line feeds. The first line that is not skipped is
/// the header; among its comma-separated, trimmed names it must hold
/// `wavelength_nm` and `rel_intensity`, in any order and among any others.
/// Every later line that is not skipped is a data line.
pub open spec fn scan_spec(text: Seq<char>) -> Result<Seq<SpectrumRowView>, ScanFailure> {
    let lines = split(text, '\n');
    let header = next_content_line(lines, 0);
    if header >= lines.len() {
        Err(ScanFailure::NoHeader)
    } else {
        let columns = split(lines[header], ',');
        let wavelength_index = column_index(columns, wavelength_column(), 0);
        let intensity_index = column_index(columns, intensity_column(), 0);
        if wavelength_index >= columns.len() {
            Err(ScanFailure::MissingWavelength)
        } else if intensity_index >= columns.len() {
            Err(ScanFailure::MissingIntensity)
        } else {
            Ok(data_rows(lines, header + 1, lines.len() as int, wavelength_index, intensity_index))
        }
    }
}

/// Whether `error` reports `failure`.
pub open spec fn reports(error: CsvSpectrumError, failure: ScanFailure) -> bool {
    match failure {
        ScanFailure::NoHeader => error is TooFewPoints,
        ScanFailure::MissingWavelength => error matches CsvSpectrumError::MissingColumn(col)
            && col@ == wavelength_column(),
        ScanFailure::MissingIntensity => error matches CsvSpectrumError::MissingColumn(col) && col@
            == intensity_column(),
    }
}

fn line_is_skipped(text: &[char], start: usize, end: usize) -> (r: bool)
    requires
        start <= end <= text@.len(),
    ensures
        r == is_skipped_line(text@.subrange(start as int, end as int)),
{
    let (a, b) = trim_range(text, start, end);
    if a == b {
        true
    } else {
        assert(text@.subrange(a as int, b as int)[0] == text@[a as int]);
        text[a] == '#'
    }
}

fn find_column(text: &[char], columns: &Vec<(usize, usize)>, name: &[char]) -> (index: usize)
    requires
        forall|k: int|
            0 <= k < columns@.len() ==> (#[trigger] columns@[k]).0 <= columns@[k].1 <= text@.len(),
    ensures
        index == column_index(
            Seq::new(columns@.len(), |k: int| text@.subrange(columns@[k].0 as int, columns@[k].1 as int)),
            name@,
            0,
        ),
        index <= columns@.len(),
{
    let ghost pieces = Seq::new(
        columns@.len(),
        |k: int| text@.subrange(columns@[k].0 as int, columns@[k].1 as int),
    );
    let mut i: usize = 0;
    while i < columns.len()
        invariant
            i <= columns@.len(),
            pieces.len() == columns@.len(),
            forall|k: int|
                0 <= k < columns@.len() ==> (#[trigger] columns@[k]).0 <= columns@[k].1 <= text@.len(),
            forall|k: int|
                0 <= k < columns@.len() ==> #[trigger] pieces[k] == text@.subrange(
                    columns@[k].0 as int,
                    columns@[k].1 as int,
                ),
            column_index(pieces, name@, 0) == column_index(pieces, name@, i as int),
        decreases columns@.len() - i,
    {
        let (start, end) = columns[i];
        let (a, b) = trim_range(text, start, end);
        assert(pieces[i as int] == text@.subrange(start as int, end as int));
        if piece_equals(text, a, b, name) {
            proof {
                lemma_same_pieces(text@, columns@, pieces);
            }
            return i;
        }
        i += 1;
    }
    proof {
        lemma_same_pieces(text@, columns@, pieces);
    }
    i
}

proof fn lemma_same_pieces(text: Seq<char>, ranges: Seq<(usize, usize)>, pieces: Seq<Seq<char>>)
    requires
        pieces.len() == ranges.len(),
        forall|k: int|
            0 <= k < ranges.len() ==> #[trigger] pieces[k] == text.subrange(
                ranges[k].0 as int,
                ranges[k].1 as int,
            ),
    ensures
        pieces == Seq::new(ranges.len(), |k: int| text.subrange(ranges[k].0 as int, ranges[k].1 as int)),
{
    assert(pieces =~= Seq::new(
        ranges.len(),
        |k: int| text.subrange(ranges[k].0 as int, ranges[k].1 as int),
    ));
}

fn field_string(text: &[char], fields: &Vec<(usize, usize)>, index: usize) -> (s: String)
    requires
        forall|k: int|
            0 <= k < fields@.len() ==> (#[trigger] fields@[k]).0 <= fields@[k].1 <= text@.len(),
    ensures
        s@ == if index < fields@.len() {
            trim(text@.subrange(fields@[index as int].0 as int, fields@[index as int].1 as int))
        } else {
            Seq::<char>::empty()
        },
{
    if index < fields.len() {
        let (start, end) = fields[index];
        let (a, b) = trim_range(text, start, end);
        piece_to_string(text, a, b)
    } else {
        String::new()
    }
}

/// Scans a spectrum table: finds the header and its two columns, and hands
/// out the two fields of every data line with the line's number.
///
/// Fails with `TooFewPoints` when the table has no header line, and with
/// `MissingColumn` when the header lacks one of the two names (the
/// wavelength column is looked for first). The fields are not examined:
/// turning them into numbers is the caller's part.
pub fn scan_spectrum_csv(csv_text: &str) -> (r: Result<Vec<SpectrumRow>, CsvSpectrumError>)
    ensures
        match scan_spec(csv_text@) {
            Ok(rows) => r matches Ok(found) && found@.len() == rows.len() && forall|k: int|
                0 <= k < rows.len() ==> (#[trigger] found@[k])@ == rows[k],
            Err(failure) => r matches Err(error) && reports(error, failure),
        },
{
    let text = collect_chars(csv_text);
    let chars = text.as_slice();
    let bounds = split_ranges(chars, 0, chars.len(), '\n');
    assert(chars@.subrange(0, chars@.len() as int) =~= csv_text@);
    let ghost lines = split(csv_text@, '\n');

    // The header: the first line that carries anything.
    let mut h: usize = 0;
    while h < bounds.len() && line_is_skipped(chars, bounds[h].0, bounds[h].1)
        invariant
            h <= bounds@.len(),
            bounds@.len() == lines.len(),
            chars@ == csv_text@,
            forall|k: int|
                0 <= k < bounds@.len() ==> (#[trigger] bounds@[k]).0 <= bounds@[k].1 <= chars@.len(),
            forall|k: int|
                0 <= k < bounds@.len() ==> chars@.subrange(
                    (#[trigger] bounds@[k]).0 as int,
                    bounds@[k].1 as int,
                ) == lines[k],
            next_content_line(lines, 0) == next_content_line(lines, h as int),
        decreases bounds@.len() - h,
    {
        h += 1;
    }
    if h >= bounds.len() {
        return Err(CsvSpectrumError::TooFewPoints);
    }
    assert(next_content_line(lines, 0) == h);
    let (header_start, header_end) = bounds[h];
    let columns = split_ranges(chars, header_start, header_end, ',');
    let ghost names = split(lines[h as int], ',');
    assert(Seq::new(
        columns@.len(),
        |k: int| chars@.subrange(columns@[k].0 as int, columns@[k].1 as int),
    ) =~= names);

    let wavelength_name = collect_chars("wavelength_nm");
    let intensity_name = collect_chars("rel_intensity");
    let wavelength_index = find_column(chars, &columns, wavelength_name.as_slice());
    if wavelength_index >= columns.len() {
        return Err(CsvSpectrumError::MissingColumn("wavelength_nm"));
    }
    let intensity_index = find_column(chars, &columns, intensity_name.as_slice());
    if intensity_index >= columns.len() {
        return Err(CsvSpectrumError::MissingColumn("rel_intensity"));
    }
    // The data lines.

    let mut rows: Vec<SpectrumRow> = Vec::new();
    let mut k: usize = h + 1;
    while k < bounds.len()
        invariant
            h + 1 <= k <= bounds@.len(),
            bounds@.len() == lines.len(),
            chars@ == csv_text@,
            forall|j: int|
                0 <= j < bounds@.len() ==> (#[trigger] bounds@[j]).0 <= bounds@[j].1 <= chars@.len(),
            forall|j: int|
                0 <= j < bounds@.len() ==> chars@.subrange(
                    (#[trigger] bounds@[j]).0 as int,
                    bounds@[j].1 as int,
                ) == lines[j],
            rows@.len() == data_rows(
                lines,
                h + 1,
                k as int,
                wavelength_index as int,
                intensity_index as int,
            ).len(),
            forall|j: int|
                0 <= j < rows@.len() ==> (#[trigger] rows@[j])@ == data_rows(
                    lines,
                    h + 1,
                    k as int,
                    wavelength_index as int,
                    intensity_index as int,
                )[j],
        decreases bounds@.len() - k,
    {
        let (start, end) = bounds[k];
        assert(chars@.subrange(start as int, end as int) == lines[k as int]);
        if !line_is_skipped(chars, start, end) {
            let fields = split_ranges(chars, start, end, ',');
            let ghost parts = split(lines[k as int], ',');
            let wavelength = field_string(chars, &fields, wavelength_index);
            let intensity = field_string(chars, &fields, intensity_index);
            assert(wavelength@ == field_text(lines[k as int], wavelength_index as int));
            assert(intensity@ == field_text(lines[k as int], intensity_index as int));
            rows.push(SpectrumRow { line: k + 1, wavelength, intensity });
        }
        k += 1;
    }
    Ok(rows)
}

/// The two fields of a data line after the caller has read them as
/// numbers: each is the number, or the number parser's own words on what is
/// wrong with the text.
#[derive(Debug)]
pub struct ParsedRow {
    /// Line of the table that the row stands on, counting from 1.
    pub line: usize,
    pub wavelength: Result<Binary32, String>,
    pub intensity: Result<Binary32, String>,
}

/// One point of a spectrum: a wavelength in nanometres and the intensity
/// measured there.
#[derive(Clone, Copy, Debug, PartialEq, Eq, Structural)]
pub struct SpectrumPoint {
    pub wavelength: Binary32,
    pub intensity: Binary32,
}

/// An intensity as it enters a spectrum: what is negative or not a number
/// counts as zero.
pub open spec fn clamped_intensity(v: Binary32) -> Binary32 {
    if v.is_nan() || v.lt_spec(Binary32 { bits: 0 }) {
        Binary32 { bits: 0 }
    } else {
        v
    }
}

/// Index of the first of `rows[from..]` with a field that is no number, or
/// the number of rows.
pub open spec fn first_bad_row(rows: Seq<ParsedRow>, from: int) -> int
    decreases rows.len() - from,
{
    if from < 0 || from >= rows.len() {
        rows.len() as int
    } else if rows[from].wavelength is Err || rows[from].intensity is Err {
        from
    } else {
        first_bad_row(rows, from + 1)
    }
}

/// The points of rows that are all numbers, in the order of the rows.
pub open spec fn points_of(rows: Seq<ParsedRow>) -> Seq<SpectrumPoint> {
    Seq::new(
        rows.len(),
        |i: int|
            SpectrumPoint {
                wavelength: rows[i].wavelength->Ok_0,
                intensity: clamped_intensity(rows[i].intensity->Ok_0),
            },
    )
}

/// Whether no point has a smaller wavelength than the point before it.
pub open spec fn ascending(points: Seq<SpectrumPoint>) -> bool {
    forall|k: int|
        0 <= k < points.len() - 1 ==> !points[k + 1].wavelength.lt_spec((#[trigger] points[k]).wavelength)
}

/// Turns the rows of a table into the points of a spectrum, sorted by
/// wavelength.
///
/// The first field that is no number, going by rows and within a row from
/// wavelength to intensity, fails the table with its line and column. A
/// table of fewer than two points fails for want of points. Otherwise every
/// row gives one point, with its intensity clamped at zero, and the points
/// come out in ascending order of wavelength.
pub fn spectrum_points(rows_in: Vec<ParsedRow>) -> (r: Result<Vec<SpectrumPoint>, CsvSpectrumError>)
    ensures
        ({
            let bad = first_bad_row(rows_in@, 0);
            if bad < rows_in@.len() {
                r matches Err(CsvSpectrumError::ParseFloat { line, col, detail }) && line == rows_in@[bad].line
                    && if rows_in@[bad].wavelength is Err {
                    col@ == wavelength_column() && detail == rows_in@[bad].wavelength->Err_0
                } else {
                    col@ == intensity_column() && detail == rows_in@[bad].intensity->Err_0
                }
            } else if rows_in@.len() < 2 {
                r matches Err(CsvSpectrumError::TooFewPoints)
            } else {
                r matches Ok(points) && points@.to_multiset() == points_of(rows_in@).to_multiset()
                    && points@.len() == rows_in@.len() && ascending(points@)
            }
        }),
{
    let ghost all = rows_in@;
    let mut rows = rows_in;
    let n = rows.len();
    let mut points: Vec<SpectrumPoint> = Vec::new();
    let mut i: usize = 0;
    while i < n
        invariant
            i <= n,
            all == rows_in@,
            n == all.len(),
            rows@.len() == n,
            forall|k: int| i <= k < n ==> rows@[k] == all[k],
            first_bad_row(all, 0) == first_bad_row(all, i as int),
            points@.len() == i,
            forall|k: int| 0 <= k < i ==> #[trigger] points@[k] == points_of(all)[k],
        decreases n - i,
    {
        let line = rows[i].line;
        let blank = ParsedRow { line, wavelength: Ok(Binary32::zero()), intensity: Ok(Binary32::zero()) };
        let mut row = blank;
        rows.set_and_swap(i, &mut row);
        assert(row == all[i as int]);
        let wavelength = match row.wavelength {
            Ok(v) => v,
            Err(detail) => {
                return Err(CsvSpectrumError::ParseFloat { line, col: "wavelength_nm", detail });
            },
        };
        let intensity = match row.intensity {
            Ok(v) => v,
            Err(detail) => {
                return Err(CsvSpectrumError::ParseFloat { line, col: "rel_intensity", detail });
            },
        };
        let clamped = if intensity.check_nan() || intensity.lt(Binary32::zero()) {
            Binary32::zero()
        } else {
            intensity
        };
        points.push(SpectrumPoint { wavelength, intensity: clamped });
        i += 1;
    }
    if n < 2 {
        return Err(CsvSpectrumError::TooFewPoints);
    }
    assert(points@ =~= points_of(all));
    sort_points(&mut points);
    Ok(points)
}

/// Sorts points by wavelength. Every point is moved towards the front past
/// the points with a larger wavelength, so points that compare alike, or
/// not at all, keep the order they came in.
pub fn sort_points(points: &mut Vec<SpectrumPoint>)
    ensures
        final(points)@.to_multiset() == old(points)@.to_multiset(),
        final(points)@.len() == old(points)@.len(),
        ascending(final(points)@),
{
    let n = points.len();
    if n < 2 {
        return ;
    }
    let mut i: usize = 1;
    while i < n
        invariant
            1 <= i <= n,
            points@.len() == n,
            points@.to_multiset() == old(points)@.to_multiset(),
            ascending(points@.take(i as int)),
        decreases n - i,
    {
        let ghost before = points@;
        let point = points.remove(i);
        let ghost without = points@;
        proof {
            to_multiset_remove(before, i as int);
            assert(without.take(i as int) =~= before.take(i as int));
        }
        let mut j: usize = i;
        while j > 0 && point.wavelength.lt(points[j - 1].wavelength)
            invariant
                j <= i < n,
                points@ == without,
                without.len() == n - 1,
                ascending(without.take(i as int)),
                j < i ==> point.wavelength.lt_spec(without[j as int].wavelength),
            decreases j,
        {
            j -= 1;
        }
        points.insert(j, point);
        proof {
            let after = points@;
            to_multiset_insert(without, j as int, point);
            assert(after.to_multiset() =~= before.to_multiset()) by {
                broadcast use vstd::multiset::group_multiset_axioms;

                before.to_multiset_ensures();
                assert(before.contains(before[i as int]));
            }
            let head = after.take(i + 1);
            let old_head = without.take(i as int);
            assert forall|k: int| 0 <= k < head.len() - 1 implies !head[k + 1].wavelength.lt_spec(
                (#[trigger] head[k]).wavelength,
            ) by {
                if k + 1 < j {
                    assert(head[k] == old_head[k]);
                    assert(head[k + 1] == old_head[k + 1]);
                } else if k + 1 == j {
                    assert(head[k] == without[j - 1]);
                    assert(head[k + 1] == point);
                } else if k == j {
                    assert(head[k] == point);
                    assert(head[k + 1] == without[j as int]);
                } else {
                    assert(head[k] == old_head[k - 1]);
                    assert(head[k + 1] == old_head[k]);
                }
            }
        }
        i += 1;
    }
    assert(points@.take(n as int) =~= points@);
}

/// Checks the total of the band integrals: a spectrum that integrates to
/// zero or less has no weights.
pub fn check_total(total: Binary32) -> (r: Result<(), CsvSpectrumError>)
    ensures
        r is Err <==> total.le_spec(Binary32 { bits: 0 }),
        r matches Err(error) ==> error is ZeroIntensity,
{
    if total.le(Binary32::zero()) {
        Err(CsvSpectrumError::ZeroIntensity)
    } else {
        Ok(())
    }
}

/// The band integrals of a spectrum: the weight of every band, normalised
/// to sum to one, and the total that they were normalised by.
#[derive(Clone, Copy, Debug)]
pub struct BandIntegrals {
    pub weights: [Binary32; 16],
    pub total: Binary32,
}

/// Whether `result` is what `number` reads the text `field` as.
pub open spec fn reads_as<N: Fn(String) -> Result<Binary32, String>>(
    number: N,
    field: Seq<char>,
    result: Result<Binary32, String>,
) -> bool {
    exists|text: String| text@ == field && call_ensures(number, (text,), result)
}

/// Whether `parsed` is `rows` with every field read by `number`.
pub open spec fn parsed_by<N: Fn(String) -> Result<Binary32, String>>(
    number: N,
    rows: Seq<SpectrumRowView>,
    parsed: Seq<ParsedRow>,
) -> bool {
    &&& parsed.len() == rows.len()
    &&& forall|k: int|
        0 <= k < rows.len() ==> (#[trigger] parsed[k]).line == rows[k].line && reads_as(
            number,
            rows[k].wavelength,
            parsed[k].wavelength,
        ) && reads_as(number, rows[k].intensity, parsed[k].intensity)
}

/// Whether `r` is what a table of the rows `parsed` comes to when
/// `integrate` takes the band integrals of its points.
pub open spec fn weighs<I: Fn(Vec<SpectrumPoint>) -> BandIntegrals>(
    integrate: I,
    parsed: Seq<ParsedRow>,
    r: Result<[Binary32; 16], CsvSpectrumError>,
) -> bool {
    let bad = first_bad_row(parsed, 0);
    if bad < parsed.len() {
        r matches Err(CsvSpectrumError::ParseFloat { line, col, detail }) && line == parsed[bad].line
            && if parsed[bad].wavelength is Err {
            col@ == wavelength_column() && detail == parsed[bad].wavelength->Err_0
        } else {
            col@ == intensity_column() && detail == parsed[bad].intensity->Err_0
        }
    } else if parsed.len() < 2 {
        r matches Err(CsvSpectrumError::TooFewPoints)
    } else {
        exists|points: Vec<SpectrumPoint>, integrals: BandIntegrals|
            {
                &&& points@.to_multiset() == points_of(parsed).to_multiset()
                &&& ascending(points@)
                &&& #[trigger] call_ensures(integrate, (points,), integrals)
                &&& if integrals.total.le_spec(Binary32 { bits: 0 }) {
                    r matches Err(CsvSpectrumError::ZeroIntensity)
                } else {
                    r matches Ok(weights) && weights == integrals.weights
                }
            }
    }
}

/// Turns a spectrum table into emission weights for the bands.
///
/// The table has a header that names the columns `wavelength_nm` and
/// `rel_intensity`, in any order and among any others; lines that are blank
/// or start with `#` are skipped. `number` reads a field as a number;
/// `integrate` takes the integral of the spectrum over every band and
/// normalises the integrals by their total.
///
/// Fails when the header or one of the two columns is missing, when a
/// field is no number, when there are fewer than two points, and when the
/// spectrum integrates to nothing.
pub fn csv_to_emission_weights<N, I>(csv_text: &str, number: N, integrate: I) -> (r: Result<
    [Binary32; 16],
    CsvSpectrumError,
>) where N: Fn(String) -> Result<Binary32, String>, I: Fn(Vec<SpectrumPoint>) -> BandIntegrals
    requires
        forall|text: String| call_requires(number, (text,)),
        forall|points: Vec<SpectrumPoint>| call_requires(integrate, (points,)),
    ensures
        match scan_spec(csv_text@) {
            Err(failure) => r matches Err(error) && reports(error, failure),
            Ok(rows) => exists|parsed: Seq<ParsedRow>| #[trigger]
                parsed_by(number, rows, parsed) && weighs(integrate, parsed, r),
        },
{
    let rows = match scan_spectrum_csv(csv_text) {
        Err(error) => {
            return Err(error);
        },
        Ok(rows) => rows,
    };
    let ghost views = scan_spec(csv_text@)->Ok_0;
    let mut parsed: Vec<ParsedRow> = Vec::new();
    let mut k: usize = 0;
    while k < rows.len()
        invariant
            k <= rows@.len(),
            rows@.len() == views.len(),
            forall|j: int| 0 <= j < rows@.len() ==> (#[trigger] rows@[j])@ == views[j],
            forall|text: String| call_requires(number, (text,)),
            parsed_by(number, views.take(k as int), parsed@),
        decreases rows@.len() - k,
    {
        let row = &rows[k];
        let wavelength_text = row.wavelength.clone();
        let intensity_text = row.intensity.clone();
        let wavelength = number(wavelength_text);
        let intensity = number(intensity_text);
        let entry = ParsedRow { line: row.line, wavelength, intensity };
        proof {
            assert(rows@[k as int]@ == views[k as int]);
            assert(reads_as(number, views[k as int].wavelength, wavelength));
            assert(reads_as(number, views[k as int].intensity, intensity));
            let before = parsed@;
            let after = before.push(entry);
            assert(views.take(k + 1) =~= views.take(k as int).push(views[k as int]));
            assert forall|j: int| 0 <= j < k + 1 implies (#[trigger] after[j]).line == views.take(
                k + 1,
            )[j].line && reads_as(number, views.take(k + 1)[j].wavelength, after[j].wavelength)
                && reads_as(number, views.take(k + 1)[j].intensity, after[j].intensity) by {
                if j < k {
                    assert(after[j] == before[j]);
                    assert(views.take(k + 1)[j] == views.take(k as int)[j]);
                }
            }
        }
        parsed.push(entry);
        k += 1;
    }
    proof {
        assert(views.take(rows@.len() as int) =~= views);
    }
    let ghost all = parsed@;
    let points = match spectrum_points(parsed) {
        Err(error) => {
            proof {
                assert(weighs(integrate, all, Err::<[Binary32; 16], CsvSpectrumError>(error)));
            }
            return Err(error);
        },
        Ok(points) => points,
    };
    let ghost sorted = points;
    let integrals = integrate(points);
    let r = if integrals.total.le(Binary32::zero()) {
        Err(CsvSpectrumError::ZeroIntensity)
    } else {
        Ok(integrals.weights)
    };
    proof {
        assert(call_ensures(integrate, (sorted,), integrals));
        assert(weighs(integrate, all, r));
    }
    r
}

} // verus!
