//! Hexadecimal text: single digits, fixed-width numbers and byte strings.
//!
//! Digits are read in either case and written in upper case.

use vstd::prelude::*;
use crate::text::Text;

verus! {

/// The value of a hexadecimal digit in either case, `None` for every other
/// character.
pub open spec fn hex_digit_value(c: char) -> Option<u8> {
    if '0' <= c && c <= '9' {
        Some((c as u8 - '0' as u8) as u8)
    } else if 'A' <= c && c <= 'F' {
        Some((c as u8 - 'A' as u8 + 10) as u8)
    } else if 'a' <= c && c <= 'f' {
        Some((c as u8 - 'a' as u8 + 10) as u8)
    } else {
        None
    }
}

/// Whether `c` is a hexadecimal digit.
pub open spec fn is_hex_digit(c: char) -> bool {
    hex_digit_value(c) is Some
}

/// The value of `c` as a hexadecimal digit, and zero if it is none.
pub open spec fn hex_digit_or_zero(c: char) -> nat {
    match hex_digit_value(c) {
        Some(d) => d as nat,
        None => 0,
    }
}

/// Whether every character of `s` is a hexadecimal digit.
pub open spec fn all_hex(s: Seq<char>) -> bool {
    forall|i: int| 0 <= i < s.len() ==> is_hex_digit(#[trigger] s[i])
}

/// How many hexadecimal digits stand at the front of `s`.
pub open spec fn hex_run(s: Seq<char>) -> nat
    decreases s.len(),
{
    if s.len() > 0 && is_hex_digit(s[0]) {
        1 + hex_run(s.drop_first())
    } else {
        0
    }
}

/// The number that the digits of `s` denote, most significant digit first.
pub open spec fn hex_value(s: Seq<char>) -> nat
    decreases s.len(),
{
    if s.len() == 0 {
        0
    } else {
        16 * hex_value(s.drop_last()) + hex_digit_or_zero(s.last())
    }
}

/// The upper-case digit for a value below 16.
pub open spec fn upper_hex_char(d: nat) -> char {
    if d < 10 {
        ('0' as u8 + d) as char
    } else {
        ('A' as u8 + d - 10) as char
    }
}

/// The `width` least significant hexadecimal digits of `value`, most
/// significant first, in upper case.
pub open spec fn upper_hex(value: nat, width: nat) -> Seq<char>
    decreases width,
{
    if width == 0 {
        Seq::empty()
    } else {
        upper_hex(value / 16, (width - 1) as nat).push(upper_hex_char(value % 16))
    }
}

/// Two upper-case digits for each byte of `data`, in order.
pub open spec fn hex_of_bytes(data: Seq<u8>) -> Seq<char> {
    Seq::new(
        2 * data.len(),
        |i: int|
            if i % 2 == 0 {
                upper_hex_char((data[i / 2] / 16) as nat)
            } else {
                upper_hex_char((data[i / 2] % 16) as nat)
            },
    )
}

/// The bytes that the digit pairs of `s` denote, in order.
pub open spec fn bytes_of_hex(s: Seq<char>) -> Seq<u8> {
    Seq::new(
        s.len() / 2,
        |i: int| (16 * hex_digit_or_zero(s[2 * i]) + hex_digit_or_zero(s[2 * i + 1])) as u8,
    )
}

/// A lower-case hexadecimal letter in upper case; every other character as
/// it is.
pub open spec fn upper_char(c: char) -> char {
    if 'a' <= c && c <= 'f' {
        (c as u8 - 0x20) as char
    } else {
        c
    }
}

/// `s` with its lower-case hexadecimal letters in upper case.
pub open spec fn upper_case(s: Seq<char>) -> Seq<char> {
    Seq::new(s.len(), |i: int| upper_char(s[i]))
}

/// 16 to the power `n`.
pub open spec fn pow16(n: nat) -> nat
    decreases n,
{
    if n == 0 {
        1
    } else {
        16 * pow16((n - 1) as nat)
    }
}

/// The powers of 16 that an identifier or a byte can reach.
pub proof fn lemma_pow16_values()
    ensures
        pow16(0) == 1,
        pow16(1) == 0x10,
        pow16(2) == 0x100,
        pow16(3) == 0x1000,
        pow16(4) == 0x1_0000,
        pow16(5) == 0x10_0000,
        pow16(6) == 0x100_0000,
        pow16(7) == 0x1000_0000,
        pow16(8) == 0x1_0000_0000,
{
    reveal_with_fuel(pow16, 10);
}

/// A fixed-width number has exactly `width` characters, all of them digits.
pub proof fn lemma_upper_hex_shape(value: nat, width: nat)
    ensures
        upper_hex(value, width).len() == width,
        all_hex(upper_hex(value, width)),
    decreases width,
{
    if width > 0 {
        lemma_upper_hex_shape(value / 16, (width - 1) as nat);
    }
}

/// Where the first character that is no hexadecimal digit stands, there the
/// digits at the front of `s` end.
pub proof fn lemma_hex_run(s: Seq<char>, n: nat)
    requires
        n <= s.len(),
        forall|k: int| 0 <= k < n ==> is_hex_digit(#[trigger] s[k]),
        n == s.len() || !is_hex_digit(s[n as int]),
    ensures
        hex_run(s) == n,
        all_hex(s) <==> n == s.len(),
    decreases n,
{
    if n > 0 {
        let rest = s.drop_first();
        assert forall|k: int| 0 <= k < n - 1 implies is_hex_digit(#[trigger] rest[k]) by {
            assert(rest[k] == s[k + 1]);
        }
        lemma_hex_run(rest, (n - 1) as nat);
    }
}

/// The digits of `s` denote a number below 16 to the power of their count.
pub proof fn lemma_hex_value_bound(s: Seq<char>)
    ensures
        hex_value(s) < pow16(s.len()),
    decreases s.len(),
{
    if s.len() > 0 {
        lemma_hex_value_bound(s.drop_last());
    }
}

/// Reading a fixed-width number back gives the value that was written, as
/// long as the value fits the width.
pub proof fn lemma_hex_value_of_upper_hex(value: nat, width: nat)
    requires
        value < pow16(width),
    ensures
        hex_value(upper_hex(value, width)) == value,
    decreases width,
{
    if width > 0 {
        lemma_hex_value_of_upper_hex(value / 16, (width - 1) as nat);
        assert(upper_hex(value, width).drop_last() =~= upper_hex(value / 16, (width - 1) as nat));
    }
}

/// Reading a written byte string back gives the bytes, and what is written
/// is two digits a byte.
pub proof fn lemma_bytes_of_hex_of_bytes(data: Seq<u8>)
    ensures
        hex_of_bytes(data).len() == 2 * data.len(),
        all_hex(hex_of_bytes(data)),
        bytes_of_hex(hex_of_bytes(data)) == data,
{
}

/// Writing the number that digits denote, in as many digits, gives the
/// digits, in upper case.
pub proof fn lemma_upper_hex_of_hex_value(s: Seq<char>)
    requires
        all_hex(s),
    ensures
        upper_hex(hex_value(s), s.len()) == upper_case(s),
    decreases s.len(),
{
    if s.len() > 0 {
        lemma_upper_hex_of_hex_value(s.drop_last());
    }
}

/// Writing the bytes that digit pairs denote gives the digits, in upper
/// case.
pub proof fn lemma_hex_of_bytes_of_hex(s: Seq<char>)
    requires
        all_hex(s),
        s.len() % 2 == 0,
    ensures
        hex_of_bytes(bytes_of_hex(s)) == upper_case(s),
{
}

/// Decodes one hexadecimal digit.
pub(crate) fn hex_digit(c: char) -> (r: Option<u8>)
    ensures
        r == hex_digit_value(c),
{
    if '0' <= c && c <= '9' {
        Some(c as u8 - 0x30)
    } else if 'A' <= c && c <= 'F' {
        Some(c as u8 - 0x41 + 10)
    } else if 'a' <= c && c <= 'f' {
        Some(c as u8 - 0x61 + 10)
    } else {
        None
    }
}

/// The upper-case digit for `d`, as text.
pub(crate) fn upper_hex_digit(d: u8) -> (r: &'static str)
    requires
        d < 16,
    ensures
        r@ == seq![upper_hex_char(d as nat)],
{
    proof {
        reveal_strlit("0");
        reveal_strlit("1");
        reveal_strlit("2");
        reveal_strlit("3");
        reveal_strlit("4");
        reveal_strlit("5");
        reveal_strlit("6");
        reveal_strlit("7");
        reveal_strlit("8");
        reveal_strlit("9");
        reveal_strlit("A");
        reveal_strlit("B");
        reveal_strlit("C");
        reveal_strlit("D");
        reveal_strlit("E");
        reveal_strlit("F");
    }
    match d {
        0 => "0",
        1 => "1",
        2 => "2",
        3 => "3",
        4 => "4",
        5 => "5",
        6 => "6",
        7 => "7",
        8 => "8",
        9 => "9",
        10 => "A",
        11 => "B",
        12 => "C",
        13 => "D",
        14 => "E",
        _ => "F",
    }
}

/// Appends the `width` least significant digits of `value` to `out`.
pub(crate) fn push_upper_hex(out: &mut String, value: u32, width: usize)
    ensures
        final(out)@ == old(out)@ + upper_hex(value as nat, width as nat),
    decreases width,
{
    if width > 0 {
        push_upper_hex(out, value / 16, width - 1);
        out.append(upper_hex_digit((value % 16) as u8));
    }
}

/// Appends two digits for each byte of `data` to `out`.
pub(crate) fn push_hex_bytes(out: &mut String, data: &[u8])
    ensures
        final(out)@ == old(out)@ + hex_of_bytes(data@),
{
    let n = data.len();
    let mut i: usize = 0;
    while i < n
        invariant
            n == data@.len(),
            i <= n,
            out@ == old(out)@ + hex_of_bytes(data@.take(i as int)),
        decreases n - i,
    {
        let b = data[i];
        out.append(upper_hex_digit(b / 16));
        out.append(upper_hex_digit(b % 16));
        assert(hex_of_bytes(data@.take(i + 1)) =~= hex_of_bytes(data@.take(i as int)) + seq![
            upper_hex_char((b / 16) as nat),
            upper_hex_char((b % 16) as nat),
        ]);
        i += 1;
    }
}

/// Reads the `width` characters of `input` from `start` as one hexadecimal
/// number. If one of them is no hexadecimal digit, the error says how many
/// digits stand before the first such character.
pub(crate) fn parse_hex(input: &Text, start: usize, width: usize) -> (r: Result<u32, usize>)
    requires
        start + width <= input@.len(),
        width <= 8,
    ensures
        match r {
            Ok(value) => {
                &&& all_hex(input@.subrange(start as int, start + width))
                &&& value == hex_value(input@.subrange(start as int, start + width))
            },
            Err(digits) => {
                &&& !all_hex(input@.subrange(start as int, start + width))
                &&& digits == hex_run(input@.subrange(start as int, start + width))
                &&& digits < width
            },
        },
{
    let ghost field = input@.subrange(start as int, start + width);
    let len: usize = input.len();
    let mut acc: u32 = 0;
    let mut i: usize = 0;
    while i < width
        invariant
            start + width <= input@.len() == len,
            width <= 8,
            i <= width,
            field == input@.subrange(start as int, start + width),
            all_hex(field.take(i as int)),
            acc == hex_value(field.take(i as int)),
        decreases width - i,
    {
        let c = input.char_at(start + i);
        assert(c == field[i as int]);
        match hex_digit(c) {
            None => {
                proof {
                    assert forall|k: int| 0 <= k < i implies is_hex_digit(#[trigger] field[k]) by {
                        assert(field[k] == field.take(i as int)[k]);
                    }
                    lemma_hex_run(field, i as nat);
                }
                return Err(i);
            },
            Some(d) => {
                proof {
                    lemma_hex_value_bound(field.take(i as int));
                    lemma_pow16_values();
                    assert(field.take(i + 1).drop_last() =~= field.take(i as int));
                }
                acc = acc * 16 + d as u32;
            },
        }
        i += 1;
    }
    assert(field.take(width as int) =~= field);
    Ok(acc)
}

/// Reads `count` digit pairs of `input` from `start` as bytes, into an array
/// whose other slots are zero. If one of the characters is no hexadecimal
/// digit, the error says how many digits stand before the first such
/// character.
pub(crate) fn parse_hex_bytes(input: &Text, start: usize, count: usize) -> (r: Result<
    [u8; 8],
    usize,
>)
    requires
        start + 2 * count <= input@.len(),
        count <= 8,
    ensures
        match r {
            Ok(bytes) => {
                &&& all_hex(input@.subrange(start as int, start + 2 * count))
                &&& bytes@.take(count as int) == bytes_of_hex(
                    input@.subrange(start as int, start + 2 * count),
                )
                &&& forall|k: int| count <= k < 8 ==> bytes@[k] == 0
            },
            Err(digits) => {
                &&& !all_hex(input@.subrange(start as int, start + 2 * count))
                &&& digits == hex_run(input@.subrange(start as int, start + 2 * count))
                &&& digits < 2 * count
            },
        },
{
    let ghost field = input@.subrange(start as int, start + 2 * count);
    let len: usize = input.len();
    let mut bytes = [0u8; 8];
    let mut i: usize = 0;
    while i < count
        invariant
            start + 2 * count <= input@.len() == len,
            count <= 8,
            i <= count,
            field == input@.subrange(start as int, start + 2 * count),
            all_hex(field.take(2 * i)),
            forall|k: int| 0 <= k < i ==> bytes@[k] == bytes_of_hex(field)[k],
            forall|k: int| i <= k < 8 ==> bytes@[k] == 0,
        decreases count - i,
    {
        let ghost pair = input@.subrange(start + 2 * i, start + 2 * i + 2);
        match parse_hex(input, start + 2 * i, 2) {
            Err(digits) => {
                proof {
                    lemma_hex_run(pair, hex_run(pair));
                    assert forall|k: int| 0 <= k < 2 * i + digits implies is_hex_digit(
                        #[trigger] field[k],
                    ) by {
                        if k < 2 * i {
                            assert(field[k] == field.take(2 * i)[k]);
                        } else {
                            assert(field[k] == pair[k - 2 * i]);
                        }
                    }
                    assert(field[2 * i + digits] == pair[digits as int]);
                    lemma_hex_run(field, (2 * i + digits) as nat);
                }
                return Err(2 * i + digits);
            },
            Ok(v) => {
                proof {
                    reveal_with_fuel(hex_value, 3);
                    assert(pair[0] == field[2 * i] && pair[1] == field[2 * i + 1]);
                    assert(field.take(2 * (i + 1)) =~= field.take(2 * i) + pair);
                }
                bytes[i] = v as u8;
            },
        }
        i += 1;
    }
    assert(field.take(2 * count) =~= field);
    Ok(bytes)
}

} // verus!
