//! Text helpers: searching and cutting strings at ASCII bytes, decimal
//! numbers in both directions, and putting messages together.

use vstd::prelude::*;
use vstd::string::*;
use vstd::utf8::*;

verus! {

/// Index of the last occurrence of `byte` in `bytes`, or -1 where it does
/// not occur.
pub open spec fn last_index_of(bytes: Seq<u8>, byte: u8) -> int
    decreases bytes.len(),
{
    if bytes.len() == 0 {
        -1
    } else if bytes.last() == byte {
        bytes.len() - 1
    } else {
        last_index_of(bytes.drop_last(), byte)
    }
}

/// The index that `last_index_of` gives holds `byte`, and no later one does.
pub proof fn lemma_last_index_of(bytes: Seq<u8>, byte: u8)
    ensures
        -1 <= last_index_of(bytes, byte) < bytes.len(),
        last_index_of(bytes, byte) >= 0 ==> bytes[last_index_of(bytes, byte)] == byte,
        forall|i: int| last_index_of(bytes, byte) < i < bytes.len() ==> bytes[i] != byte,
    decreases bytes.len(),
{
    if bytes.len() > 0 && bytes.last() != byte {
        let front = bytes.drop_last();
        lemma_last_index_of(front, byte);
        assert forall|i: int| last_index_of(bytes, byte) < i < bytes.len() implies bytes[i]
            != byte by {
            if i < front.len() {
                assert(bytes[i] == front[i]);
            }
        }
    }
}

/// Finds the last occurrence of `byte` in `bytes`.
pub fn rfind_byte(bytes: &[u8], byte: u8) -> (r: Option<usize>)
    ensures
        match r {
            Some(k) => last_index_of(bytes@, byte) == k,
            None => last_index_of(bytes@, byte) == -1,
        },
{
    let mut i: usize = bytes.len();
    proof {
        assert(bytes@.take(i as int) =~= bytes@);
    }
    while i > 0
        invariant
            i <= bytes@.len(),
            last_index_of(bytes@, byte) == last_index_of(bytes@.take(i as int), byte),
        decreases i,
    {
        if bytes[i - 1] == byte {
            return Some(i - 1);
        }
        proof {
            assert(bytes@.take(i as int).drop_last() =~= bytes@.take(i - 1));
        }
        i = i - 1;
    }
    None
}

/// Cuts `s` around the ASCII byte at index `k`: the text before it and the
/// text after it.
pub(crate) fn split_around(s: &str, k: usize) -> (r: (&str, &str))
    requires
        k < s.spec_bytes().len(),
        s.spec_bytes()[k as int] < 0x80,
    ensures
        r.0.spec_bytes() == s.spec_bytes().subrange(0, k as int),
        r.1.spec_bytes() == s.spec_bytes().subrange(k + 1, s.spec_bytes().len() as int),
{
    proof {
        encode_utf8_valid_utf8(s@);
        is_char_boundary_iff_not_is_continuation_byte(s.spec_bytes(), k as int);
    }
    let (before, from) = s.split_at(k);
    proof {
        let tail = from.spec_bytes();
        encode_utf8_valid_utf8(from@);
        assert(tail[0] == s.spec_bytes()[k as int]);
        assert(length_of_first_scalar(tail) == 1);
        assert(is_char_boundary(pop_first_scalar(tail), 0));
        assert(is_char_boundary(tail, 1));
    }
    let (_, after) = from.split_at(1);
    proof {
        assert(after.spec_bytes() =~= s.spec_bytes().subrange(
            k + 1,
            s.spec_bytes().len() as int,
        ));
        assert(before.spec_bytes() =~= s.spec_bytes().subrange(0, k as int));
    }
    (before, after)
}

/// A character boundary of a text is one of its tail from an earlier
/// boundary on, counted from there.
pub proof fn lemma_boundary_in_tail(bytes: Seq<u8>, from: int, at: int)
    requires
        valid_utf8(bytes),
        0 <= from <= at <= bytes.len(),
        is_char_boundary(bytes, from),
    ensures
        valid_utf8(bytes.subrange(from, bytes.len() as int)),
        is_char_boundary(bytes.subrange(from, bytes.len() as int), at - from) == is_char_boundary(
            bytes,
            at,
        ),
{
    let tail = bytes.subrange(from, bytes.len() as int);
    valid_utf8_split(bytes, from);
    if at == from {
    } else if at == bytes.len() {
        is_char_boundary_start_end_of_seq(tail);
        is_char_boundary_start_end_of_seq(bytes);
    } else {
        is_char_boundary_iff_not_is_continuation_byte(tail, at - from);
        is_char_boundary_iff_not_is_continuation_byte(bytes, at);
        assert(tail[at - from] == bytes[at]);
    }
}

/// The text of a string is what its bytes decode to.
pub proof fn lemma_text_of_bytes(s: &str)
    ensures
        s@ == decode_utf8(s.spec_bytes()),
        valid_utf8(s.spec_bytes()),
{
    encode_utf8_valid_utf8(s@);
    encode_utf8_decode_utf8(s@);
}

/// Whether two strings hold the same text.
pub fn same_text(a: &str, b: &str) -> (r: bool)
    ensures
        r == (a@ == b@),
{
    let x = a.as_bytes();
    let y = b.as_bytes();
    proof {
        encode_utf8_decode_utf8(a@);
        encode_utf8_decode_utf8(b@);
    }
    if x.len() != y.len() {
        return false;
    }
    let mut i: usize = 0;
    while i < x.len()
        invariant
            i <= x@.len(),
            x@.len() == y@.len(),
            x@ == encode_utf8(a@),
            y@ == encode_utf8(b@),
            forall|j: int| 0 <= j < i ==> x@[j] == y@[j],
        decreases x@.len() - i,
    {
        if x[i] != y[i] {
            return false;
        }
        i = i + 1;
    }
    assert(x@ =~= y@);
    true
}

/// `a` followed by `b` followed by `c`.
pub fn concat3(a: &str, b: &str, c: &str) -> (r: String)
    ensures
        r@ == a@ + b@ + c@,
{
    let mut r = String::from_str(a);
    r.append(b);
    r.append(c);
    r
}

/// The character of a decimal digit.
pub open spec fn digit_char(d: nat) -> char {
    if d == 0 {
        '0'
    } else if d == 1 {
        '1'
    } else if d == 2 {
        '2'
    } else if d == 3 {
        '3'
    } else if d == 4 {
        '4'
    } else if d == 5 {
        '5'
    } else if d == 6 {
        '6'
    } else if d == 7 {
        '7'
    } else if d == 8 {
        '8'
    } else {
        '9'
    }
}

/// The decimal digits of a natural number, without leading zeros.
pub open spec fn decimal_digits(n: nat) -> Seq<char>
    decreases n,
{
    if n < 10 {
        seq![digit_char(n)]
    } else {
        decimal_digits(n / 10).push(digit_char(n % 10))
    }
}

fn digit_text(d: u64) -> (r: &'static str)
    requires
        d < 10,
    ensures
        r@ == seq![digit_char(d as nat)],
{
    proof {
        reveal_strlit("0");
        reveal_strlit("1");
        reveal_strlit("2");
        reveal_strlit("3");
        reveal_strlit("4");
        reveal_strlit("5");
        reveal_strlit("6");
        reveal_strlit("7");
        reveal_strlit("8");
        reveal_strlit("9");
    }
    let r = if d == 0 {
        "0"
    } else if d == 1 {
        "1"
    } else if d == 2 {
        "2"
    } else if d == 3 {
        "3"
    } else if d == 4 {
        "4"
    } else if d == 5 {
        "5"
    } else if d == 6 {
        "6"
    } else if d == 7 {
        "7"
    } else if d == 8 {
        "8"
    } else {
        "9"
    };
    assert(r@ =~= seq![digit_char(d as nat)]);
    r
}

/// Writes `n` in decimal.
pub fn decimal_string(n: u64) -> (s: String)
    ensures
        s@ == decimal_digits(n as nat),
    decreases n,
{
    if n < 10 {
        String::from_str(digit_text(n))
    } else {
        let mut s = decimal_string(n / 10);
        s.append(digit_text(n % 10));
        assert(s@ =~= decimal_digits(n as nat));
        s
    }
}

/// Whether a byte is an ASCII decimal digit.
pub open spec fn is_digit(byte: u8) -> bool {
    0x30 <= byte <= 0x39
}

/// Whether every byte is an ASCII decimal digit.
pub open spec fn all_digits(bytes: Seq<u8>) -> bool {
    forall|i: int| 0 <= i < bytes.len() ==> is_digit(#[trigger] bytes[i])
}

/// The number that a run of decimal digits spells.
pub open spec fn decimal_value(digits: Seq<u8>) -> nat
    decreases digits.len(),
{
    if digits.len() == 0 {
        0
    } else {
        10 * decimal_value(digits.drop_last()) + (digits.last() - 0x30) as nat
    }
}

/// The digits of an unsigned number in text: the text itself, without a
/// leading plus sign where it has one.
pub open spec fn unsigned_digits(text: Seq<u8>) -> Seq<u8> {
    if text.len() > 0 && text[0] == 0x2B {
        text.drop_first()
    } else {
        text
    }
}

/// The 16-bit unsigned number that `text` spells in decimal: an optional
/// plus sign, then at least one digit and nothing else, with a value of at
/// most 65535.
pub open spec fn parse_u16(text: Seq<u8>) -> Option<u16> {
    let digits = unsigned_digits(text);
    if digits.len() > 0 && all_digits(digits) && decimal_value(digits) <= 0xFFFF {
        Some(decimal_value(digits) as u16)
    } else {
        None
    }
}

/// A prefix of a run of digits spells no more than the whole run.
pub proof fn lemma_decimal_value_prefix(digits: Seq<u8>, k: int)
    requires
        0 <= k <= digits.len(),
        all_digits(digits),
    ensures
        decimal_value(digits.take(k)) <= decimal_value(digits),
    decreases digits.len() - k,
{
    if k < digits.len() {
        let longer = digits.take(k + 1);
        assert(longer.drop_last() =~= digits.take(k));
        assert(is_digit(digits[k]));
        assert(longer.last() == digits[k]);
        lemma_decimal_value_prefix(digits, k + 1);
    } else {
        assert(digits.take(k) =~= digits);
    }
}

/// Reads a 16-bit unsigned decimal number.
pub fn parse_u16_text(text: &[u8]) -> (r: Option<u16>)
    ensures
        r == parse_u16(text@),
{
    let start: usize = if text.len() > 0 && text[0] == 0x2B {
        1
    } else {
        0
    };
    if start == text.len() {
        return None;
    }
    let ghost digits = unsigned_digits(text@);
    assert(digits =~= text@.subrange(start as int, text@.len() as int));
    let mut value: u32 = 0;
    let mut i: usize = start;
    proof {
        assert(digits.take(0) =~= Seq::<u8>::empty());
    }
    while i < text.len()
        invariant
            start <= i <= text@.len(),
            digits == text@.subrange(start as int, text@.len() as int),
            digits == unsigned_digits(text@),
            all_digits(digits.take(i - start)),
            value == decimal_value(digits.take(i - start)),
            value <= 0xFFFF,
        decreases text@.len() - i,
    {
        let byte: u8 = text[i];
        proof {
            assert(digits[i - start] == byte);
            assert(digits.take(i - start + 1).drop_last() =~= digits.take(i - start));
            assert(digits.take(i - start + 1).last() == byte);
        }
        if byte < 0x30 || byte > 0x39 {
            proof {
                assert(!is_digit(digits[i - start]));
            }
            return None;
        }
        value = value * 10 + (byte - 0x30) as u32;
        proof {
            assert forall|j: int| 0 <= j < i - start + 1 implies is_digit(
                #[trigger] digits.take(i - start + 1)[j],
            ) by {
                if j < i - start {
                    assert(digits.take(i - start + 1)[j] == digits.take(i - start)[j]);
                }
            }
        }
        if value > 0xFFFF {
            proof {
                if all_digits(digits) {
                    lemma_decimal_value_prefix(digits, i - start + 1);
                }
            }
            return None;
        }
        i = i + 1;
    }
    proof {
        assert(digits.take(i - start) =~= digits);
    }
    Some(value as u16)
}

/// The digits of a signed number in text, with what leads them: a minus
/// sign, a plus sign or nothing.
pub open spec fn signed_digits(text: Seq<u8>) -> Seq<u8> {
    if text.len() > 0 && (text[0] == 0x2B || text[0] == 0x2D) {
        text.drop_first()
    } else {
        text
    }
}

/// The 32-bit signed number that `text` spells in decimal: an optional
/// sign, then at least one digit and nothing else, with a value that fits.
pub open spec fn parse_i32(text: Seq<u8>) -> Option<i32> {
    let digits = signed_digits(text);
    let negative = text.len() > 0 && text[0] == 0x2D;
    if digits.len() == 0 || !all_digits(digits) {
        None
    } else if negative {
        if decimal_value(digits) <= 0x8000_0000 {
            Some((-decimal_value(digits)) as i32)
        } else {
            None
        }
    } else {
        if decimal_value(digits) <= 0x7FFF_FFFF {
            Some(decimal_value(digits) as i32)
        } else {
            None
        }
    }
}

/// Reads a 32-bit signed decimal number.
pub fn parse_i32_text(text: &[u8]) -> (r: Option<i32>)
    ensures
        r == parse_i32(text@),
{
    let negative: bool = text.len() > 0 && text[0] == 0x2D;
    let start: usize = if text.len() > 0 && (text[0] == 0x2B || text[0] == 0x2D) {
        1
    } else {
        0
    };
    if start == text.len() {
        return None;
    }
    let limit: u64 = if negative {
        0x8000_0000
    } else {
        0x7FFF_FFFF
    };
    let ghost digits = signed_digits(text@);
    assert(digits =~= text@.subrange(start as int, text@.len() as int));
    let mut value: u64 = 0;
    let mut i: usize = start;
    proof {
        assert(digits.take(0) =~= Seq::<u8>::empty());
    }
    while i < text.len()
        invariant
            start <= i <= text@.len(),
            digits == text@.subrange(start as int, text@.len() as int),
            digits == signed_digits(text@),
            negative == (text@.len() > 0 && text@[0] == 0x2D),
            limit == (if negative {
                0x8000_0000u64
            } else {
                0x7FFF_FFFFu64
            }),
            all_digits(digits.take(i - start)),
            value == decimal_value(digits.take(i - start)),
            value <= limit,
        decreases text@.len() - i,
    {
        let byte: u8 = text[i];
        proof {
            assert(digits[i - start] == byte);
            assert(digits.take(i - start + 1).drop_last() =~= digits.take(i - start));
            assert(digits.take(i - start + 1).last() == byte);
        }
        if byte < 0x30 || byte > 0x39 {
            proof {
                assert(!is_digit(digits[i - start]));
            }
            return None;
        }
        value = value * 10 + (byte - 0x30) as u64;
        proof {
            assert forall|j: int| 0 <= j < i - start + 1 implies is_digit(
                #[trigger] digits.take(i - start + 1)[j],
            ) by {
                if j < i - start {
                    assert(digits.take(i - start + 1)[j] == digits.take(i - start)[j]);
                }
            }
        }
        if value > limit {
            proof {
                if all_digits(digits) {
                    lemma_decimal_value_prefix(digits, i - start + 1);
                }
            }
            return None;
        }
        i = i + 1;
    }
    proof {
        assert(digits.take(i - start) =~= digits);
    }
    if negative {
        Some((-(value as i64)) as i32)
    } else {
        Some(value as i32)
    }
}

/// A whole number in decimal, with a minus sign where it is negative.
pub open spec fn signed_decimal(n: int) -> Seq<char> {
    if n < 0 {
        "-"@ + decimal_digits((-n) as nat)
    } else {
        decimal_digits(n as nat)
    }
}

/// Writes `n` in decimal.
pub fn signed_string(n: i32) -> (s: String)
    ensures
        s@ == signed_decimal(n as int),
{
    if n < 0 {
        String::from_str("-").concat(decimal_string((-(n as i64)) as u64).as_str())
    } else {
        decimal_string(n as u64)
    }
}

/// How often `byte` occurs in `bytes`.
pub open spec fn count_of(bytes: Seq<u8>, byte: u8) -> nat
    decreases bytes.len(),
{
    if bytes.len() == 0 {
        0
    } else if bytes.last() == byte {
        1 + count_of(bytes.drop_last(), byte)
    } else {
        count_of(bytes.drop_last(), byte)
    }
}

/// Counts how often `byte` occurs in `bytes`.
pub fn count_byte(bytes: &[u8], byte: u8) -> (n: usize)
    ensures
        n == count_of(bytes@, byte),
{
    let mut n: usize = 0;
    let mut i: usize = 0;
    proof {
        assert(bytes@.take(0) =~= Seq::<u8>::empty());
    }
    while i < bytes.len()
        invariant
            i <= bytes@.len(),
            n <= i,
            n == count_of(bytes@.take(i as int), byte),
        decreases bytes@.len() - i,
    {
        proof {
            assert(bytes@.take(i + 1).drop_last() =~= bytes@.take(i as int));
            assert(bytes@.take(i + 1).last() == bytes@[i as int]);
        }
        if bytes[i] == byte {
            n = n + 1;
        }
        i = i + 1;
    }
    proof {
        assert(bytes@.take(i as int) =~= bytes@);
    }
    n
}

} // verus!
