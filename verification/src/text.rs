//! Hexadecimal text.

use vstd::prelude::*;

verus! {

/// `String::push` of the standard library: it appends one character. The
/// contract claims just that.
pub assume_specification[ String::push ](s: &mut String, c: char)
    ensures
        final(s)@ == old(s)@.push(c),
;

/// The lower-case hexadecimal digit of `d`, for `d` below sixteen.
pub open spec fn hex_digit(d: int) -> char {
    seq![
        '0', '1', '2', '3', '4', '5', '6', '7', '8', '9', 'a', 'b', 'c', 'd', 'e', 'f',
    ][d]
}

/// `n` in hexadecimal, without leading zeros.
pub open spec fn hex(n: nat) -> Seq<char>
    decreases n,
{
    if n < 16 {
        seq![hex_digit(n as int)]
    } else {
        hex(n / 16).push(hex_digit((n % 16) as int))
    }
}

/// The last `width` hexadecimal digits of `n`.
pub open spec fn hex_fixed(n: nat, width: nat) -> Seq<char>
    decreases width,
{
    if width == 0 {
        seq![]
    } else {
        hex_fixed(n / 16, (width - 1) as nat).push(hex_digit((n % 16) as int))
    }
}

fn digit(d: u32) -> (c: char)
    requires
        d < 16,
    ensures
        c == hex_digit(d as int),
{
    match d {
        0 => '0',
        1 => '1',
        2 => '2',
        3 => '3',
        4 => '4',
        5 => '5',
        6 => '6',
        7 => '7',
        8 => '8',
        9 => '9',
        10 => 'a',
        11 => 'b',
        12 => 'c',
        13 => 'd',
        14 => 'e',
        _ => 'f',
    }
}

/// Append `value` in hexadecimal, without leading zeros.
pub fn push_hex(s: &mut String, value: u32)
    ensures
        final(s)@ == old(s)@ + hex(value as nat),
    decreases value,
{
    if value >= 16 {
        push_hex(s, value / 16);
    }
    s.push(digit(value % 16));
    assert(s@ =~= old(s)@ + hex(value as nat));
}

/// Append the last `width` hexadecimal digits of `value`.
pub fn push_hex_fixed(s: &mut String, value: u32, width: u32)
    ensures
        final(s)@ == old(s)@ + hex_fixed(value as nat, width as nat),
    decreases width,
{
    if width > 0 {
        push_hex_fixed(s, value / 16, width - 1);
        s.push(digit(value % 16));
    }
    assert(s@ =~= old(s)@ + hex_fixed(value as nat, width as nat));
}

/// Two bytes that read alike as two digits are the same byte.
pub proof fn lemma_hex_byte_is_injective(a: u8, b: u8)
    requires
        hex_fixed(a as nat, 2) == hex_fixed(b as nat, 2),
    ensures
        a == b,
{
    reveal_with_fuel(hex_fixed, 3);
    let (x, y) = (hex_fixed(a as nat, 2), hex_fixed(b as nat, 2));
    assert(x[0] == hex_digit((a / 16) as int % 16) && x[1] == hex_digit(a as int % 16));
    assert(y[0] == hex_digit((b / 16) as int % 16) && y[1] == hex_digit(b as int % 16));
}

/// The number that a hexadecimal digit stands for, by its place in the code
/// table.
pub open spec fn digit_value(c: char) -> int {
    if '0' <= c <= '9' {
        c as int - 0x30
    } else if 'a' <= c <= 'f' {
        c as int - 0x57
    } else {
        -1
    }
}

/// The number that a text spells in hexadecimal.
pub open spec fn spelled(text: Seq<char>) -> int
    decreases text.len(),
{
    if text.len() == 0 {
        0
    } else {
        16 * spelled(text.drop_last()) + digit_value(text.last())
    }
}

/// How many numbers `width` digits spell.
pub open spec fn spellings(width: nat) -> nat
    decreases width,
{
    if width == 0 {
        1
    } else {
        16 * spellings((width - 1) as nat)
    }
}

/// A digit stands for its number.
pub proof fn a_digit_stands_for_its_number(d: int)
    requires
        0 <= d < 16,
    ensures
        digit_value(hex_digit(d)) == d,
{
}

/// A number in hexadecimal spells that number, in digits alone and without
/// leading zeros.
pub proof fn hexadecimal_spells_its_number(n: nat)
    ensures
        spelled(hex(n)) == n,
        hex(n).len() > 0,
        n > 0 ==> hex(n)[0] != '0',
        n == 0 ==> hex(n).len() == 1,
        forall|i: int| 0 <= i < hex(n).len() ==> 0 <= digit_value(#[trigger] hex(n)[i]) < 16,
    decreases n,
{
    a_digit_stands_for_its_number((n % 16) as int);
    if n < 16 {
        reveal_with_fuel(spelled, 2);
        assert(hex(n).drop_last() =~= seq![]);
        assert(hex(n).last() == hex_digit(n as int));
    } else {
        hexadecimal_spells_its_number(n / 16);
        assert(hex(n).drop_last() =~= hex(n / 16));
        assert(hex(n)[0] == hex(n / 16)[0]);
        assert forall|i: int| 0 <= i < hex(n).len() implies 0 <= digit_value(#[trigger] hex(n)[i])
            < 16 by {
            if i < hex(n / 16).len() {
                assert(hex(n)[i] == hex(n / 16)[i]);
            }
        }
    }
}

/// A number with a fixed number of digits has that many of them and, where they
/// are enough, spells that number.
pub proof fn fixed_digits_spell_their_number(n: nat, width: nat)
    ensures
        hex_fixed(n, width).len() == width,
        n < spellings(width) ==> spelled(hex_fixed(n, width)) == n,
        forall|i: int|
            0 <= i < width ==> 0 <= digit_value(#[trigger] hex_fixed(n, width)[i]) < 16,
    decreases width,
{
    if width > 0 {
        let text = hex_fixed(n, width);
        let front = hex_fixed(n / 16, (width - 1) as nat);
        a_digit_stands_for_its_number((n % 16) as int);
        fixed_digits_spell_their_number(n / 16, (width - 1) as nat);
        assert(text.drop_last() =~= front);
        assert forall|i: int| 0 <= i < width implies 0 <= digit_value(#[trigger] text[i]) < 16 by {
            if i < width - 1 {
                assert(text[i] == front[i]);
            }
        }
    }
}

/// What is appended to a text spells the number that was given, behind the text
/// as it was.
pub proof fn what_is_appended_spells_its_number(
    plain: &mut String,
    fixed: &mut String,
    value: u32,
    width: u32,
    p: (),
    f: (),
)
    requires
        call_ensures(push_hex, (plain, value), p),
        call_ensures(push_hex_fixed, (fixed, value, width), f),
    ensures
        old(plain)@.is_prefix_of(final(plain)@),
        spelled(final(plain)@.skip(old(plain)@.len() as int)) == value,
        old(fixed)@.is_prefix_of(final(fixed)@),
        final(fixed)@.len() == old(fixed)@.len() + width,
        value < spellings(width as nat) ==> spelled(
            final(fixed)@.skip(old(fixed)@.len() as int),
        ) == value,
{
    hexadecimal_spells_its_number(value as nat);
    fixed_digits_spell_their_number(value as nat, width as nat);
    assert(final(plain)@.skip(old(plain)@.len() as int) =~= hex(value as nat));
    assert(final(fixed)@.skip(old(fixed)@.len() as int) =~= hex_fixed(
        value as nat,
        width as nat,
    ));
}

} // verus!
