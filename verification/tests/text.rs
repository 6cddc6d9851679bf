use phosphor::text::{
    check_whitespace, collect_chars, find_char, piece_equals, piece_to_string, split_ranges, trim_range,
};

fn chars(s: &str) -> Vec<char> {
    s.chars().collect()
}

fn trimmed(s: &str) -> String {
    let c = collect_chars(s);
    let (a, b) = trim_range(&c, 0, c.len());
    piece_to_string(&c, a, b)
}

fn pieces(s: &str, delim: char) -> Vec<String> {
    let c = collect_chars(s);
    split_ranges(&c, 0, c.len(), delim)
        .into_iter()
        .map(|(a, b)| piece_to_string(&c, a, b))
        .collect()
}

#[test]
fn white_space_is_what_the_standard_library_says() {
    for code in 0..=0x11_0000u32 {
        if let Some(c) = char::from_u32(code) {
            assert_eq!(check_whitespace(c), c.is_whitespace(), "U+{code:04X}");
        }
    }
}

#[test]
fn collect_chars_keeps_every_character() {
    for s in ["", "abc", "wavelength_nm", "a\u{d7}b", "\u{3000}x\u{1f600}"] {
        assert_eq!(collect_chars(s), chars(s));
    }
}

#[test]
fn trimming_agrees_with_the_standard_library() {
    for s in [
        "",
        " ",
        "   ",
        "a",
        " a",
        "a ",
        "  a b  ",
        "\t\r\n x \u{a0}\u{2003}",
        "\u{3000}\u{85}",
        "# comment  ",
        "x\u{200b}",
    ] {
        assert_eq!(trimmed(s), s.trim(), "{s:?}");
    }
}

#[test]
fn trim_range_works_inside_a_text() {
    let c = chars("ab,  cd  ,ef");
    assert_eq!(trim_range(&c, 3, 9), (5, 7));
    assert_eq!(trim_range(&c, 3, 5), (5, 5));
    assert_eq!(trim_range(&c, 4, 4), (4, 4));
}

#[test]
fn splitting_agrees_with_the_standard_library() {
    for s in ["", ",", "a", "a,b", "a,,b", ",a,", "a,b,c,d", "no delimiter", ",,,"] {
        let expected: Vec<String> = s.split(',').map(|p| p.to_string()).collect();
        assert_eq!(pieces(s, ','), expected, "{s:?}");
    }
    let lines = "one\ntwo\n\nfour\n";
    let expected: Vec<String> = lines.split('\n').map(|p| p.to_string()).collect();
    assert_eq!(pieces(lines, '\n'), expected);
}

#[test]
fn find_char_gives_the_first_hit_or_the_end() {
    let c = chars("a,b,c");
    assert_eq!(find_char(&c, 0, 5, ','), 1);
    assert_eq!(find_char(&c, 2, 5, ','), 3);
    assert_eq!(find_char(&c, 4, 5, ','), 5);
    assert_eq!(find_char(&c, 0, 1, ','), 1);
    assert_eq!(find_char(&c, 1, 1, ','), 1);
}

#[test]
fn piece_equals_compares_the_whole_piece() {
    let c = chars("xxhelloyy");
    assert!(piece_equals(&c, 2, 7, &chars("hello")));
    assert!(!piece_equals(&c, 2, 6, &chars("hello")));
    assert!(!piece_equals(&c, 2, 7, &chars("hellp")));
    assert!(!piece_equals(&c, 2, 7, &chars("hell")));
    assert!(piece_equals(&c, 3, 3, &chars("")));
}

#[test]
fn piece_to_string_copies_the_piece() {
    let c = chars("0123456789");
    assert_eq!(piece_to_string(&c, 0, 10), "0123456789");
    assert_eq!(piece_to_string(&c, 3, 6), "345");
    assert_eq!(piece_to_string(&c, 4, 4), "");
    let wide = chars("a\u{d7}b");
    assert_eq!(piece_to_string(&wide, 1, 3), "\u{d7}b");
}
