//! Source text for a phosphor table.
//!
//! A database that has been loaded once can be baked into a program: these
//! functions write a phosphor out as the Rust expression that builds it.
//! Numbers are written by their encoding, so what is read back is what was
//! written, bit for bit. Texts are written between quotes, with an escape
//! for every character that could not stand there as it is, so that any
//! text reads back as itself.

use vstd::prelude::*;
use vstd::string::StringExecFns;
use crate::binary32::Binary32;
use crate::database::{format_category, PhosphorCategory, PhosphorLayer, PhosphorType};
use crate::decay::DecayTerm;
use crate::spectral::{decimal, decimal_chars};
use crate::text::{collect_chars, piece_to_string};

verus! {

/// The expression for a number.
pub open spec fn number_text(value: Binary32) -> Seq<char> {
    "phosphor::binary32::Binary32 { bits: "@ + decimal(value.bits as nat) + " }"@
}

/// The expression for a decay term.
pub open spec fn decay_term_text(term: DecayTerm) -> Seq<char> {
    match term {
        DecayTerm::Exponential { amplitude, tau } => "phosphor::decay::DecayTerm::Exponential { amplitude: "@
            + number_text(amplitude) + ", tau: "@ + number_text(tau) + " }"@,
        DecayTerm::PowerLaw { amplitude, alpha, beta } => "phosphor::decay::DecayTerm::PowerLaw { amplitude: "@
            + number_text(amplitude) + ", alpha: "@ + number_text(alpha) + ", beta: "@ + number_text(
            beta,
        ) + " }"@,
    }
}

/// The texts of a list, separated by a comma and a space.
pub open spec fn comma_separated(items: Seq<Seq<char>>) -> Seq<char>
    decreases items.len(),
{
    if items.len() == 0 {
        Seq::<char>::empty()
    } else if items.len() == 1 {
        items[0]
    } else {
        comma_separated(items.drop_last()) + ", "@ + items.last()
    }
}

/// The expression for an array of band weights.
pub open spec fn weights_text(weights: Seq<Binary32>) -> Seq<char> {
    "["@ + comma_separated(weights.map_values(|w: Binary32| number_text(w))) + "]"@
}

/// The expression for a phosphor layer.
pub open spec fn layer_text(weights: Seq<Binary32>, terms: Seq<DecayTerm>) -> Seq<char> {
    "phosphor::database::PhosphorLayer { emission_weights: "@ + weights_text(weights)
        + ", decay_terms: vec!["@ + comma_separated(terms.map_values(|t: DecayTerm| decay_term_text(t)))
        + "] }"@
}

/// The source text that names a category.
pub open spec fn category_text(category: PhosphorCategory) -> Seq<char> {
    match category {
        PhosphorCategory::GeneralPurpose => "phosphor::database::PhosphorCategory::GeneralPurpose"@,
        PhosphorCategory::ShortDecay => "phosphor::database::PhosphorCategory::ShortDecay"@,
        PhosphorCategory::VideoDisplay => "phosphor::database::PhosphorCategory::VideoDisplay"@,
        PhosphorCategory::LongDecaySulfide => "phosphor::database::PhosphorCategory::LongDecaySulfide"@,
    }
}

/// The source text for a truth value.
pub open spec fn bool_text(b: bool) -> Seq<char> {
    if b {
        "true"@
    } else {
        "false"@
    }
}

/// How a character is written between quotes: a backslash, a quote, a
/// line feed, a carriage return and a tab by their escapes, every other
/// character as it is.
pub open spec fn escaped_char(c: char) -> Seq<char> {
    if c == '\\' {
        seq!['\\', '\\']
    } else if c == '"' {
        seq!['\\', '"']
    } else if c == '\n' {
        seq!['\\', 'n']
    } else if c == '\r' {
        seq!['\\', 'r']
    } else if c == '\t' {
        seq!['\\', 't']
    } else {
        seq![c]
    }
}

/// A text as it is written between quotes: every character by
/// [`escaped_char`], in order.
pub open spec fn escaped(text: Seq<char>) -> Seq<char>
    decreases text.len(),
{
    if text.len() == 0 {
        Seq::<char>::empty()
    } else {
        escaped(text.drop_last()) + escaped_char(text.last())
    }
}

/// The character that an escape stands for, given the character after the
/// backslash.
pub open spec fn escape_meaning(c: char) -> char {
    if c == 'n' {
        '\n'
    } else if c == 'r' {
        '\r'
    } else if c == 't' {
        '\t'
    } else {
        c
    }
}

/// What a text between quotes reads back as: a backslash and the character
/// after it stand for one character, every other character for itself.
pub open spec fn read_back(written: Seq<char>) -> Seq<char>
    decreases written.len(),
{
    if written.len() == 0 {
        Seq::<char>::empty()
    } else if written[0] == '\\' && written.len() >= 2 {
        seq![escape_meaning(written[1])] + read_back(written.skip(2))
    } else {
        seq![written[0]] + read_back(written.skip(1))
    }
}

/// Whether a quote at position `at` of a written text would end the text:
/// it is a quote, and it is not part of an escape.
pub open spec fn bare_quote(written: Seq<char>, at: int) -> bool
    decreases written.len(),
{
    if written.len() == 0 || at < 0 {
        false
    } else if written[0] == '\\' && written.len() >= 2 {
        at >= 2 && bare_quote(written.skip(2), at - 2)
    } else {
        (at == 0 && written[0] == '"') || (at >= 1 && bare_quote(written.skip(1), at - 1))
    }
}

/// Writing goes piece by piece: a text in two parts is written as the one
/// part followed by the other.
pub proof fn lemma_escaped_concat(a: Seq<char>, b: Seq<char>)
    ensures
        escaped(a + b) == escaped(a) + escaped(b),
    decreases b.len(),
{
    if b.len() == 0 {
        assert(a + b =~= a);
        assert(escaped(a) + escaped(b) =~= escaped(a));
    } else {
        lemma_escaped_concat(a, b.drop_last());
        assert((a + b).drop_last() =~= a + b.drop_last());
        assert((a + b).last() == b.last());
        assert(escaped(a + b) =~= escaped(a) + escaped(b));
    }
}

proof fn lemma_escaped_front(text: Seq<char>)
    requires
        text.len() > 0,
    ensures
        escaped(text) == escaped_char(text[0]) + escaped(text.skip(1)),
{
    let head = seq![text[0]];
    assert(text =~= head + text.skip(1));
    lemma_escaped_concat(head, text.skip(1));
    assert(head.drop_last() =~= Seq::<char>::empty());
    assert(head.last() == text[0]);
    assert(escaped(head.drop_last()) =~= Seq::<char>::empty());
    assert(escaped(head) == escaped(head.drop_last()) + escaped_char(head.last()));
    assert(escaped(head) =~= escaped_char(text[0]));
}

/// Every text reads back as itself: what is written for a text stands for
/// that text and no other.
pub proof fn lemma_text_reads_back(text: Seq<char>)
    ensures
        read_back(escaped(text)) == text,
    decreases text.len(),
{
    if text.len() > 0 {
        let rest = text.skip(1);
        let piece = escaped_char(text[0]);
        let written = piece + escaped(rest);
        lemma_escaped_front(text);
        lemma_text_reads_back(rest);
        assert(written.skip(piece.len() as int) =~= escaped(rest));
        assert(read_back(written) =~= seq![text[0]] + rest);
        assert(seq![text[0]] + rest =~= text);
    }
}

/// No quote of a written text ends it: wherever a quote stands in what is
/// written for a text, it is part of an escape.
pub proof fn lemma_no_bare_quote(text: Seq<char>, at: int)
    ensures
        !bare_quote(escaped(text), at),
    decreases text.len(),
{
    if text.len() > 0 {
        let rest = text.skip(1);
        let piece = escaped_char(text[0]);
        let written = piece + escaped(rest);
        lemma_escaped_front(text);
        lemma_no_bare_quote(rest, at - piece.len());
        assert(written.skip(piece.len() as int) =~= escaped(rest));
    }
}

/// The expression for a text: the text between quotes, escaped.
pub open spec fn quoted_text(text: Seq<char>) -> Seq<char> {
    "String::from(\""@ + escaped(text) + "\")"@
}

/// The expression for a phosphor.
pub open spec fn phosphor_text(p: PhosphorType) -> Seq<char> {
    "phosphor::database::PhosphorType {\n        designation: "@ + quoted_text(p.designation@)
        + ",\n        description: "@ + quoted_text(p.description@)
        + ",\n        category: "@ + category_text(p.category) + ",\n        is_dual_layer: "@
        + bool_text(p.is_dual_layer) + ",\n        fluorescence: "@ + layer_text(
        p.fluorescence.emission_weights@,
        p.fluorescence.decay_terms@,
    ) + ",\n        phosphorescence: "@ + layer_text(
        p.phosphorescence.emission_weights@,
        p.phosphorescence.decay_terms@,
    ) + ",\n        peak_wavelength_nm: "@ + number_text(p.peak_wavelength_nm)
        + ",\n        relative_luminance: "@ + number_text(p.relative_luminance)
        + ",\n        relative_writing_speed: "@ + number_text(p.relative_writing_speed) + ",\n    }"@
}

/// Writes a number as the expression that builds it.
pub fn format_number(value: Binary32) -> (s: String)
    ensures
        s@ == number_text(value),
{
    let digits = decimal_chars(value.bits as usize);
    let number = piece_to_string(digits.as_slice(), 0, digits.len());
    assert(number@ =~= decimal(value.bits as nat));
    String::from_str("phosphor::binary32::Binary32 { bits: ").concat(number.as_str()).concat(" }")
}

/// Writes a decay term as the expression that builds it.
pub fn format_decay_term(term: &DecayTerm) -> (s: String)
    ensures
        s@ == decay_term_text(*term),
{
    match term {
        DecayTerm::Exponential { amplitude, tau } => {
            String::from_str("phosphor::decay::DecayTerm::Exponential { amplitude: ").concat(
                format_number(*amplitude).as_str(),
            ).concat(", tau: ").concat(format_number(*tau).as_str()).concat(" }")
        },
        DecayTerm::PowerLaw { amplitude, alpha, beta } => {
            String::from_str("phosphor::decay::DecayTerm::PowerLaw { amplitude: ").concat(
                format_number(*amplitude).as_str(),
            ).concat(", alpha: ").concat(format_number(*alpha).as_str()).concat(", beta: ").concat(
                format_number(*beta).as_str(),
            ).concat(" }")
        },
    }
}

/// Writes band weights as the array expression that builds them.
pub fn format_weights(w: &[Binary32; 16]) -> (s: String)
    ensures
        s@ == weights_text(w@),
{
    let ghost texts = w@.map_values(|v: Binary32| number_text(v));
    let mut inner = String::new();
    let mut i: usize = 0;
    while i < 16
        invariant
            i <= 16,
            texts == w@.map_values(|v: Binary32| number_text(v)),
            texts.len() == 16,
            inner@ == comma_separated(texts.take(i as int)),
        decreases 16 - i,
    {
        let item = format_number(w[i]);
        proof {
            assert(texts.take(i + 1).drop_last() =~= texts.take(i as int));
            assert(texts.take(i + 1).last() == texts[i as int]);
            assert(texts[i as int] == number_text(w@[i as int]));
        }
        if i > 0 {
            inner.append(", ");
        }
        inner.append(item.as_str());
        proof {
            if i == 0 {
                assert(inner@ =~= item@);
            }
        }
        i += 1;
    }
    assert(texts.take(16) =~= texts);
    String::from_str("[").concat(inner.as_str()).concat("]")
}

fn format_terms(terms: &Vec<DecayTerm>) -> (s: String)
    ensures
        s@ == comma_separated(terms@.map_values(|t: DecayTerm| decay_term_text(t))),
{
    let ghost texts = terms@.map_values(|t: DecayTerm| decay_term_text(t));
    let mut inner = String::new();
    let mut i: usize = 0;
    while i < terms.len()
        invariant
            i <= terms@.len(),
            texts == terms@.map_values(|t: DecayTerm| decay_term_text(t)),
            texts.len() == terms@.len(),
            inner@ == comma_separated(texts.take(i as int)),
        decreases terms@.len() - i,
    {
        let item = format_decay_term(&terms[i]);
        proof {
            assert(texts.take(i + 1).drop_last() =~= texts.take(i as int));
            assert(texts.take(i + 1).last() == texts[i as int]);
            assert(texts[i as int] == decay_term_text(terms@[i as int]));
        }
        if i > 0 {
            inner.append(", ");
        }
        inner.append(item.as_str());
        proof {
            if i == 0 {
                assert(inner@ =~= item@);
            }
        }
        i += 1;
    }
    assert(texts.take(terms@.len() as int) =~= texts);
    inner
}

/// Writes a phosphor layer as the expression that builds it.
pub fn format_layer(layer: &PhosphorLayer) -> (s: String)
    ensures
        s@ == layer_text(layer.emission_weights@, layer.decay_terms@),
{
    String::from_str("phosphor::database::PhosphorLayer { emission_weights: ").concat(
        format_weights(&layer.emission_weights).as_str(),
    ).concat(", decay_terms: vec![").concat(format_terms(&layer.decay_terms).as_str()).concat("] }")
}

/// Writes a text as the expression that builds it: between quotes, with
/// an escape wherever the text holds a backslash, a quote, a line feed, a
/// carriage return or a tab.
pub fn format_text(text: &str) -> (s: String)
    ensures
        s@ == quoted_text(text@),
{
    let chars = collect_chars(text);
    let mut inner = String::new();
    let mut i: usize = 0;
    while i < chars.len()
        invariant
            i <= chars@.len(),
            chars@ == text@,
            inner@ == escaped(chars@.take(i as int)),
        decreases chars@.len() - i,
    {
        let c = chars[i];
        proof {
            assert(chars@.take(i + 1).drop_last() =~= chars@.take(i as int));
            assert(chars@.take(i + 1).last() == c);
            reveal_strlit("\\\\");
            reveal_strlit("\\\"");
            reveal_strlit("\\n");
            reveal_strlit("\\r");
            reveal_strlit("\\t");
            assert("\\\\"@ =~= seq!['\\', '\\']);
            assert("\\\""@ =~= seq!['\\', '"']);
            assert("\\n"@ =~= seq!['\\', 'n']);
            assert("\\r"@ =~= seq!['\\', 'r']);
            assert("\\t"@ =~= seq!['\\', 't']);
        }
        if c == '\\' {
            inner.append("\\\\");
        } else if c == '"' {
            inner.append("\\\"");
        } else if c == '\n' {
            inner.append("\\n");
        } else if c == '\r' {
            inner.append("\\r");
        } else if c == '\t' {
            inner.append("\\t");
        } else {
            let one = piece_to_string(chars.as_slice(), i, i + 1);
            assert(one@ =~= seq![c]);
            inner.append(one.as_str());
        }
        i += 1;
    }
    assert(chars@.take(chars@.len() as int) =~= chars@);
    String::from_str("String::from(\"").concat(inner.as_str()).concat("\")")
}

/// Writes a phosphor as the expression that builds it.
pub fn format_phosphor(p: &PhosphorType) -> (s: String)
    ensures
        s@ == phosphor_text(*p),
{
    let dual = if p.is_dual_layer {
        "true"
    } else {
        "false"
    };
    String::from_str("phosphor::database::PhosphorType {\n        designation: ").concat(
        format_text(p.designation.as_str()).as_str(),
    ).concat(",\n        description: ").concat(format_text(p.description.as_str()).as_str()).concat(
        ",\n        category: ",
    ).concat(format_category(&p.category)).concat(",\n        is_dual_layer: ").concat(dual).concat(
        ",\n        fluorescence: ",
    ).concat(format_layer(&p.fluorescence).as_str()).concat(",\n        phosphorescence: ").concat(
        format_layer(&p.phosphorescence).as_str(),
    ).concat(",\n        peak_wavelength_nm: ").concat(
        format_number(p.peak_wavelength_nm).as_str(),
    ).concat(",\n        relative_luminance: ").concat(
        format_number(p.relative_luminance).as_str(),
    ).concat(",\n        relative_writing_speed: ").concat(
        format_number(p.relative_writing_speed).as_str(),
    ).concat(",\n    }")
}

/// Writes a whole table as an array expression, one phosphor after
/// another.
pub fn format_table(phosphors: &Vec<PhosphorType>) -> (s: String)
    ensures
        s@ == "[\n    "@ + table_body(phosphors@, phosphors@.len() as int) + "\n]"@,
{
    let mut body = String::new();
    let mut i: usize = 0;
    while i < phosphors.len()
        invariant
            i <= phosphors@.len(),
            body@ == table_body(phosphors@, i as int),
        decreases phosphors@.len() - i,
    {
        let entry = format_phosphor(&phosphors[i]);
        if i > 0 {
            body.append(",\n    ");
        }
        body.append(entry.as_str());
        proof {
            if i == 0 {
                assert(body@ =~= entry@);
            }
        }
        i += 1;
    }
    String::from_str("[\n    ").concat(body.as_str()).concat("\n]")
}

/// The expressions of the first `n` phosphors, separated by a comma and a
/// line break.
pub open spec fn table_body(phosphors: Seq<PhosphorType>, n: int) -> Seq<char>
    decreases n,
{
    if n <= 0 {
        Seq::<char>::empty()
    } else if n == 1 {
        phosphor_text(phosphors[0])
    } else {
        table_body(phosphors, n - 1) + ",\n    "@ + phosphor_text(phosphors[n - 1])
    }
}

} // verus!
