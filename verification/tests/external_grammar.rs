use nom::branch::alt;
use nom::bytes::complete::tag;
use nom::character::complete::{char, satisfy, space1};
use nom::combinator::{eof, peek, recognize};
use nom::number::complete::float;
use nom::sequence::{preceded, terminated};
use nom::{IResult, Parser};

use phosphor::external::{parse_line, Command};

/// What a line says, with every number as its value's encoding.
#[derive(Debug, PartialEq)]
enum Parsed {
    Nothing,
    Beam([u32; 4]),
    Segment([u32; 5]),
    FrameSync,
    Unknown,
}

fn sp_float(input: &str) -> IResult<&str, f32> {
    preceded(space1, float).parse(input)
}

fn beam(input: &str) -> IResult<&str, [f32; 4]> {
    let (rest, (_, x, y, intensity, dt)) = (char('B'), sp_float, sp_float, sp_float, sp_float).parse(input)?;
    Ok((rest, [x, y, intensity, dt]))
}

fn segment(input: &str) -> IResult<&str, [f32; 5]> {
    let (rest, (_, x0, y0, x1, y1, intensity)) =
        (char('L'), sp_float, sp_float, sp_float, sp_float, sp_float).parse(input)?;
    Ok((rest, [x0, y0, x1, y1, intensity]))
}

fn word_end(input: &str) -> IResult<&str, &str> {
    alt((eof, recognize(peek(satisfy(char::is_whitespace))))).parse(input)
}

fn frame_sync(input: &str) -> IResult<&str, &str> {
    terminated(tag("F"), word_end).parse(input)
}

/// The protocol as a parser made of combinators reads it.
fn by_combinators(line: &str) -> Parsed {
    let trimmed = line.trim();
    if trimmed.is_empty() || trimmed.starts_with('#') {
        return Parsed::Nothing;
    }
    if let Ok((_, fields)) = beam(trimmed) {
        return Parsed::Beam(fields.map(f32::to_bits));
    }
    if let Ok((_, fields)) = segment(trimmed) {
        return Parsed::Segment(fields.map(f32::to_bits));
    }
    if frame_sync(trimmed).is_ok() {
        return Parsed::FrameSync;
    }
    Parsed::Unknown
}

fn bits(text: &str) -> u32 {
    text.parse::<f32>().expect("a field spells a number").to_bits()
}

/// The protocol as the library reads it.
fn by_library(line: &str) -> Parsed {
    match parse_line(line) {
        Ok(None) => Parsed::Nothing,
        Ok(Some(Command::Beam { x, y, intensity, dt })) => {
            Parsed::Beam([bits(&x), bits(&y), bits(&intensity), bits(&dt)])
        }
        Ok(Some(Command::Segment {
            x0,
            y0,
            x1,
            y1,
            intensity,
        })) => Parsed::Segment([bits(&x0), bits(&y0), bits(&x1), bits(&y1), bits(&intensity)]),
        Ok(Some(Command::FrameSync)) => Parsed::FrameSync,
        Err(unknown) => {
            assert_eq!(unknown.line, line.trim());
            Parsed::Unknown
        }
    }
}

#[test]
fn chosen_lines_read_alike() {
    let lines = [
        "",
        "   ",
        "# comment",
        "  # comment",
        "B 0.5 0.75 1.0 0.001",
        "B 0.5 0.75 1.0 0.001 trailing",
        "B\t1\t2\t3\t4",
        "B  1 \t 2   3 4",
        "B 1 2 3",
        "B 1 2 3 4e",
        "B 1 2 3 4e5",
        "B 1 2 3 4.e5",
        "B 1 2 3 .5e-5",
        "B 1 2 3 4.5.6",
        "B 1 2 3 --4",
        "B 1 2 3 +4",
        "B 1 2 3 -.4",
        "B 1 2 3 -.",
        "B 1 2 3 .",
        "B nan inf infinity NAN",
        "B NaN Inf Infinity iNf",
        "B infinit inf inf inf",
        "B infx 1 2 3",
        "B inf1 2 3 4",
        "B -inf 1 2 3",
        "B +nan 1 2 3",
        "B 1e400 1e-400 0 -0",
        "B 00 01 1_000 4",
        "B 1,2 3 4 5",
        "B1 2 3 4",
        "B",
        "b 1 2 3 4",
        "L 0.0 0.0 1.0 0.0 1.0",
        "L 0 0 1 0",
        "L 0 0 1 0 1 extra",
        "L0 0 1 0 1",
        "F",
        "F ",
        " F",
        "Frame",
        "FF",
        "F x",
        "F\tx",
        "F\u{a0}x",
        "F#",
        "f",
        "X garbage",
        "B only_two 0.5",
        "\u{a0}B 1 2 3 4\u{3000}",
        "B 1 2 3\u{a0}4",
        "B\u{a0}1 2 3 4",
        "B 1 2 3 4\r",
        "B 1 2 3 ４",
        "B 1 2 3 4#",
        "#B 1 2 3 4",
        "B 1E5 2E+5 3E-5 4E05",
        "B 1.5E 2 3 4",
        "B 0x10 2 3 4",
        "B 1e5e5 2e 3 4",
        "B 123456789012345678901234567890 2 3 4",
        "B .5. .5 .5 .5",
        "LB 1 2 3 4",
        "B \t",
    ];
    for line in lines {
        assert_eq!(by_library(line), by_combinators(line), "{line:?}");
    }
}

#[test]
fn generated_lines_read_alike() {
    // A small alphabet in which commands, numbers and near misses are all
    // likely, walked by a fixed pseudo-random sequence.
    let alphabet: Vec<char> = "BLF#  \t0123456789..--++eEnaNiIfFtyx,\u{a0}".chars().collect();
    let mut state: u64 = 0x2545_f491_4f6c_dd1d;
    let mut next = move || {
        state ^= state << 13;
        state ^= state >> 7;
        state ^= state << 17;
        state
    };
    let mut commands = 0;
    for _ in 0..200_000 {
        let len = (next() % 24) as usize;
        let mut line = String::new();
        // Half of the lines start like a command, to get past the first letter.
        if next() % 2 == 0 {
            line.push_str(["B ", "L ", "B 1 2 3 ", "L 1 2 3 4 ", "F"][(next() % 5) as usize]);
        }
        for _ in 0..len {
            line.push(alphabet[(next() % alphabet.len() as u64) as usize]);
        }
        let expected = by_combinators(&line);
        if matches!(expected, Parsed::Beam(_) | Parsed::Segment(_)) {
            commands += 1;
        }
        assert_eq!(by_library(&line), expected, "{line:?}");
    }
    // The walk does reach well-formed commands.
    assert!(commands > 1000, "only {commands} commands");
}
