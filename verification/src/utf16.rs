//! UTF-16: what the wide entry points of Windows read and write.

use vstd::prelude::*;

verus! {

/// The code units of one character.
pub open spec fn units_of(c: char) -> Seq<u16> {
    let n = (c as u32) as int;
    if n < 0x10000 {
        seq![n as u16]
    } else {
        seq![
            (0xD800 + (n - 0x10000) / 0x400) as u16,
            (0xDC00 + (n - 0x10000) % 0x400) as u16,
        ]
    }
}

/// The code units of a text, in order.
pub open spec fn encoded(text: Seq<char>) -> Seq<u16>
    decreases text.len(),
{
    if text.len() == 0 {
        seq![]
    } else {
        encoded(text.drop_last()) + units_of(text.last())
    }
}

/// Whether `u` is the first half of a surrogate pair.
pub open spec fn is_lead(u: u16) -> bool {
    0xD800 <= u <= 0xDBFF
}

/// Whether `u` is the second half of a surrogate pair.
pub open spec fn is_trail(u: u16) -> bool {
    0xDC00 <= u <= 0xDFFF
}

/// The text that code units stand for, with the replacement character for
/// each half of a surrogate pair that stands alone.
pub open spec fn decoded(units: Seq<u16>) -> Seq<char>
    decreases units.len(),
{
    if units.len() == 0 {
        seq![]
    } else if !is_lead(units[0]) && !is_trail(units[0]) {
        seq![(units[0] as u32) as char] + decoded(units.skip(1))
    } else if is_lead(units[0]) && units.len() >= 2 && is_trail(units[1]) {
        seq![
            ((0x10000 + (units[0] - 0xD800) * 0x400 + (units[1] - 0xDC00)) as u32) as char,
        ] + decoded(units.skip(2))
    } else {
        seq!['\u{FFFD}'] + decoded(units.skip(1))
    }
}

/// `String::from_utf16_lossy` of the standard library: it decodes UTF-16 and
/// replaces invalid data with U+FFFD. The contract claims that the result is
/// [`decoded`] of the code units.
#[verifier::external_body]
pub(crate) fn decode(units: &[u16]) -> (r: String)
    ensures
        r@ == decoded(units@),
{
    String::from_utf16_lossy(units)
}

/// Encode `text` as UTF-16.
pub fn encode(text: &str) -> (r: Vec<u16>)
    ensures
        r@ == encoded(text@),
{
    let mut out: Vec<u16> = Vec::new();
    for c in it: text.chars()
        invariant
            out@ == encoded(it.seq().take(it.index() as int)),
            it.seq() == text@,
    {
        proof {
            vstd::utf8::char_is_scalar(c);
        }
        let n: u32 = c as u32;
        if n < 0x10000 {
            out.push(n as u16);
        } else {
            let m: u32 = n - 0x10000;
            out.push((0xD800 + m / 0x400) as u16);
            out.push((0xDC00 + m % 0x400) as u16);
        }
        proof {
            let next = it.seq().take(it.index() as int + 1);
            assert(next.drop_last() =~= it.seq().take(it.index() as int));
            assert(next.last() == c);
            assert(out@ =~= encoded(next));
        }
    }
    proof {
        assert(text@.take(text@.len() as int) =~= text@);
    }
    out
}

proof fn lemma_encoded_concat(a: Seq<char>, b: Seq<char>)
    ensures
        encoded(a + b) == encoded(a) + encoded(b),
    decreases b.len(),
{
    if b.len() == 0 {
        assert(a + b =~= a);
    } else {
        assert((a + b).drop_last() =~= a + b.drop_last());
        lemma_encoded_concat(a, b.drop_last());
        assert(encoded(a + b) =~= encoded(a) + encoded(b));
    }
}

proof fn lemma_decoded_first(c: char, rest: Seq<u16>)
    ensures
        decoded(units_of(c) + rest) == seq![c] + decoded(rest),
{
    vstd::utf8::char_is_scalar(c);
    vstd::utf8::char_u32_cast(c, c as u32);
    let units = units_of(c) + rest;
    let n = (c as u32) as int;
    if n < 0x10000 {
        assert(units[0] == n as u16);
        assert(units.skip(1) =~= rest);
    } else {
        assert(units[0] as int == 0xD800 + (n - 0x10000) / 0x400);
        assert(units[1] as int == 0xDC00 + (n - 0x10000) % 0x400);
        assert(units.skip(2) =~= rest);
    }
}

/// Encoding a text and decoding the result gives the text back.
pub proof fn decoding_undoes_encoding(text: Seq<char>)
    ensures
        decoded(encoded(text)) == text,
    decreases text.len(),
{
    if text.len() > 0 {
        let first = seq![text[0]];
        let rest = text.drop_first();
        assert(text =~= first + rest);
        lemma_encoded_concat(first, rest);
        reveal_with_fuel(encoded, 2);
        assert(first.drop_last() =~= seq![]);
        assert(encoded(first) =~= units_of(text[0]));
        lemma_decoded_first(text[0], encoded(rest));
        decoding_undoes_encoding(rest);
    }
}

/// A character below 0x10000 is one code unit, its number. Any other is a
/// surrogate pair, whose halves carry ten bits each of how far it is above that.
pub proof fn a_character_is_one_unit_or_a_pair(c: char)
    ensures
        (c as u32) < 0x10000 ==> units_of(c).len() == 1 && units_of(c)[0] == c as u32,
        (c as u32) >= 0x10000 ==> {
            &&& units_of(c).len() == 2
            &&& 0xD800 <= units_of(c)[0] < 0xDC00
            &&& 0xDC00 <= units_of(c)[1] < 0xE000
            &&& 0x10000 + (units_of(c)[0] - 0xD800) * 0x400 + (units_of(c)[1] - 0xDC00)
                == c as u32
        },
{
    vstd::utf8::char_is_scalar(c);
    vstd::utf8::char_u32_cast(c, c as u32);
}

/// A text is encoded character by character, and reads back as it was.
pub proof fn a_text_is_encoded_character_by_character(
    text: &str,
    r: Vec<u16>,
    first: Seq<char>,
    second: Seq<char>,
    c: char,
)
    requires
        call_ensures(encode, (text,), r),
    ensures
        r@ == encoded(text@),
        decoded(r@) == text@,
        encoded(seq![]) == Seq::<u16>::empty(),
        encoded(seq![c]) == units_of(c),
        encoded(first + second) == encoded(first) + encoded(second),
{
    decoding_undoes_encoding(text@);
    lemma_encoded_concat(first, second);
    reveal_with_fuel(encoded, 2);
    assert(seq![c].drop_last() =~= seq![]);
    assert(encoded(seq![c]) =~= units_of(c));
}

} // verus!
