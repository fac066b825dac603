//! Text primitives: decimal and hexadecimal rendering, ASCII case folding and
//! the parsing of unsigned decimal numbers.
use vstd::prelude::*;

verus! {

/// The character that stands for the digit `d` in bases up to sixteen.
pub open spec fn digit_char(d: int) -> char {
    if d == 0 {
        '0'
    } else if d == 1 {
        '1'
    } else if d == 2 {
        '2'
    } else if d == 3 {
        '3'
    } else if d == 4 {
        '4'
    } else if d == 5 {
        '5'
    } else if d == 6 {
        '6'
    } else if d == 7 {
        '7'
    } else if d == 8 {
        '8'
    } else if d == 9 {
        '9'
    } else if d == 10 {
        'a'
    } else if d == 11 {
        'b'
    } else if d == 12 {
        'c'
    } else if d == 13 {
        'd'
    } else if d == 14 {
        'e'
    } else {
        'f'
    }
}

/// The decimal digits of `n`, without leading zeros.
pub open spec fn decimal(n: nat) -> Seq<char>
    decreases n,
{
    if n < 10 {
        seq![digit_char(n as int)]
    } else {
        decimal(n / 10).push(digit_char((n % 10) as int))
    }
}

/// Two lower-case hexadecimal digits for every byte, high digit first.
pub open spec fn hex(bytes: Seq<u8>) -> Seq<char> {
    Seq::new(
        2 * bytes.len(),
        |i: int| digit_char(if i % 2 == 0 { bytes[i / 2] as int / 16 } else { bytes[i / 2] as int % 16 }),
    )
}

/// An ASCII capital becomes its small letter; every other character stays.
pub open spec fn ascii_lower_char(c: char) -> char {
    if 'A' <= c && c <= 'Z' {
        ((c as u8) + 32) as char
    } else {
        c
    }
}

/// `s` with its ASCII capitals made small.
pub open spec fn ascii_lower(s: Seq<char>) -> Seq<char> {
    s.map_values(|c: char| ascii_lower_char(c))
}

pub open spec fn is_digit(c: char) -> bool {
    '0' <= c && c <= '9'
}

/// The number that a sequence of decimal digits denotes.
pub open spec fn digits_value(digits: Seq<char>) -> nat
    decreases digits.len(),
{
    if digits.len() == 0 {
        0
    } else {
        digits_value(digits.drop_last()) * 10 + (digits.last() as nat - '0' as nat) as nat
    }
}

/// What remains of `s` behind an optional plus sign.
pub open spec fn unsigned_digits(s: Seq<char>) -> Seq<char> {
    if s.len() > 0 && s[0] == '+' {
        s.drop_first()
    } else {
        s
    }
}

/// The number that `s` spells, if `s` is an optional plus sign followed by one
/// or more decimal digits and nothing else.
pub open spec fn spelled_number(s: Seq<char>) -> Option<nat> {
    let digits = unsigned_digits(s);
    if digits.len() > 0 && forall|i: int| 0 <= i < digits.len() ==> is_digit(#[trigger] digits[i]) {
        Some(digits_value(digits))
    } else {
        None
    }
}

/// The digit `d` as a one-character string.
fn digit_str(d: u8) -> (r: &'static str)
    requires
        d < 16,
    ensures
        r@ == seq![digit_char(d as int)],
{
    proof {
        reveal_strlit("0");
        reveal_strlit("1");
        reveal_strlit("2");
        reveal_strlit("3");
        reveal_strlit("4");
        reveal_strlit("5");
        reveal_strlit("6");
        reveal_strlit("7");
        reveal_strlit("8");
        reveal_strlit("9");
        reveal_strlit("a");
        reveal_strlit("b");
        reveal_strlit("c");
        reveal_strlit("d");
        reveal_strlit("e");
        reveal_strlit("f");
    }
    match d {
        0 => "0",
        1 => "1",
        2 => "2",
        3 => "3",
        4 => "4",
        5 => "5",
        6 => "6",
        7 => "7",
        8 => "8",
        9 => "9",
        10 => "a",
        11 => "b",
        12 => "c",
        13 => "d",
        14 => "e",
        _ => "f",
    }
}

/// Appends the decimal digits of `n`.
pub(crate) fn push_decimal(s: &mut String, n: usize)
    ensures
        final(s)@ == old(s)@ + decimal(n as nat),
    decreases n,
{
    if n >= 10 {
        push_decimal(s, n / 10);
    }
    s.append(digit_str((n % 10) as u8));
}

/// Appends the two hexadecimal digits of every byte.
pub(crate) fn push_hex(s: &mut String, bytes: &[u8])
    ensures
        final(s)@ == old(s)@ + hex(bytes@),
{
    let mut i: usize = 0;
    while i < bytes.len()
        invariant
            i <= bytes@.len(),
            s@ == old(s)@ + hex(bytes@.take(i as int)),
        decreases bytes.len() - i,
    {
        let b: u8 = bytes[i];
        s.append(digit_str(b / 16));
        s.append(digit_str(b % 16));
        assert(hex(bytes@.take(i + 1)) =~= hex(bytes@.take(i as int)) + seq![
            digit_char(b as int / 16),
        ] + seq![digit_char(b as int % 16)]);
        i += 1;
    }
    assert(bytes@.take(bytes@.len() as int) =~= bytes@);
}

/// Whether the two strings agree up to the case of ASCII letters.
pub(crate) fn eq_ignore_ascii_case(a: &str, b: &str) -> (r: bool)
    ensures
        r == (ascii_lower(a@) == ascii_lower(b@)),
{
    let n: usize = a.unicode_len();
    if n != b.unicode_len() {
        assert(ascii_lower(a@).len() != ascii_lower(b@).len());
        return false;
    }
    let mut i: usize = 0;
    while i < n
        invariant
            i <= n,
            n == a@.len(),
            n == b@.len(),
            forall|j: int| 0 <= j < i ==> ascii_lower_char(a@[j]) == ascii_lower_char(b@[j]),
        decreases n - i,
    {
        if lower_char(a.get_char(i)) != lower_char(b.get_char(i)) {
            assert(ascii_lower(a@)[i as int] != ascii_lower(b@)[i as int]);
            return false;
        }
        i += 1;
    }
    assert(ascii_lower(a@) =~= ascii_lower(b@));
    true
}

fn lower_char(c: char) -> (r: char)
    ensures
        r == ascii_lower_char(c),
{
    if 'A' <= c && c <= 'Z' {
        ((c as u8) + 32) as char
    } else {
        c
    }
}

/// A longer run of digits never denotes a smaller number.
proof fn lemma_prefix_value(digits: Seq<char>, i: int)
    requires
        0 <= i <= digits.len(),
        forall|j: int| 0 <= j < digits.len() ==> is_digit(#[trigger] digits[j]),
    ensures
        digits_value(digits.take(i)) <= digits_value(digits),
    decreases digits.len(),
{
    if i < digits.len() {
        let shorter = digits.drop_last();
        assert forall|j: int| 0 <= j < shorter.len() implies is_digit(#[trigger] shorter[j]) by {
            assert(shorter[j] == digits[j]);
        }
        lemma_prefix_value(shorter, i);
        assert(shorter.take(i) =~= digits.take(i));
    } else {
        assert(digits.take(i) =~= digits);
    }
}

/// Reads an unsigned decimal number: an optional plus sign and one or more
/// digits, nothing else, whose value fits in 64 bits.
pub(crate) fn parse_u64(s: &str) -> (r: Option<u64>)
    ensures
        r == (match spelled_number(s@) {
            Some(v) => if v <= u64::MAX {
                Some(v as u64)
            } else {
                None
            },
            None => None,
        }),
{
    let n: usize = s.unicode_len();
    let start: usize = if n > 0 && s.get_char(0) == '+' {
        1
    } else {
        0
    };
    let ghost digits = unsigned_digits(s@);
    if n == start {
        return None;
    }
    let mut value: u64 = 0;
    let mut i: usize = start;
    while i < n
        invariant
            start <= i <= n,
            start < n,
            n == s@.len(),
            digits == unsigned_digits(s@),
            digits.len() == n - start,
            forall|j: int| 0 <= j < digits.len() ==> digits[j] == s@[j + start],
            forall|j: int| 0 <= j < i - start ==> is_digit(#[trigger] digits[j]),
            value == digits_value(digits.take(i - start)),
        decreases n - i,
    {
        let c: char = s.get_char(i);
        let ghost k = i - start;
        assert(c == digits[k]);
        if !('0' <= c && c <= '9') {
            return None;
        }
        let d: u64 = c as u64 - '0' as u64;
        assert(digits.take(k + 1).drop_last() =~= digits.take(k));
        assert(digits_value(digits.take(k + 1)) == value * 10 + d);
        if value > (u64::MAX - d) / 10 {
            proof {
                assert(value * 10 + d > u64::MAX);
                if spelled_number(s@) is Some {
                    lemma_prefix_value(digits, k + 1);
                }
            }
            return None;
        }
        value = value * 10 + d;
        i += 1;
    }
    assert(digits.take(n - start) =~= digits);
    Some(value)
}

/// Reads an unsigned decimal number that fits in a machine word.
pub(crate) fn parse_usize(s: &str) -> (r: Option<usize>)
    ensures
        r == (match spelled_number(s@) {
            Some(v) => if v <= usize::MAX {
                Some(v as usize)
            } else {
                None
            },
            None => None,
        }),
{
    match parse_u64(s) {
        Some(v) => if v <= usize::MAX as u64 {
            Some(v as usize)
        } else {
            None
        },
        None => None,
    }
}

/// The decimal digits of a number spell that number.
pub proof fn decimal_spells_number(n: nat)
    ensures
        spelled_number(decimal(n)) == Some(n),
{
    lemma_decimal_digits(n);
    assert(is_digit(decimal(n)[0]));
}

proof fn lemma_decimal_digits(n: nat)
    ensures
        decimal(n).len() > 0,
        forall|i: int| 0 <= i < decimal(n).len() ==> is_digit(#[trigger] decimal(n)[i]),
        digits_value(decimal(n)) == n,
    decreases n,
{
    if n < 10 {
        assert(decimal(n).drop_last() =~= Seq::<char>::empty());
        assert(digits_value(decimal(n).drop_last()) == 0);
    } else {
        lemma_decimal_digits(n / 10);
        assert(decimal(n).drop_last() =~= decimal(n / 10));
    }
}

proof fn lemma_digit_char_injective(d: int, e: int)
    requires
        0 <= d < 16,
        0 <= e < 16,
        digit_char(d) == digit_char(e),
    ensures
        d == e,
{
}

/// Two different byte strings have different hexadecimal texts.
pub proof fn hex_injective(a: Seq<u8>, b: Seq<u8>)
    requires
        hex(a) == hex(b),
    ensures
        a == b,
{
    assert(hex(a).len() == 2 * a.len());
    assert(hex(b).len() == 2 * b.len());
    assert forall|i: int| 0 <= i < a.len() implies a[i] == b[i] by {
        let hi: int = 2 * i;
        let lo: int = 2 * i + 1;
        assert(hi / 2 == i && hi % 2 == 0 && lo / 2 == i && lo % 2 == 1);
        assert(0 <= hi < hex(a).len() && 0 <= lo < hex(a).len());
        assert(hex(a)[hi] == digit_char(a[i] as int / 16));
        assert(hex(a)[lo] == digit_char(a[i] as int % 16));
        assert(hex(b)[hi] == digit_char(b[i] as int / 16));
        assert(hex(b)[lo] == digit_char(b[i] as int % 16));
        lemma_digit_char_injective(a[i] as int / 16, b[i] as int / 16);
        lemma_digit_char_injective(a[i] as int % 16, b[i] as int % 16);
    }
    assert(a =~= b);
}

/// The number that a hexadecimal digit in small letters stands for.
pub open spec fn hex_digit_value(c: char) -> int {
    if '0' <= c && c <= '9' {
        c as int - '0' as int
    } else {
        c as int - 'a' as int + 10
    }
}

/// A character is a hexadecimal digit in small letters.
pub open spec fn is_hex_digit(c: char) -> bool {
    ('0' <= c && c <= '9') || ('a' <= c && c <= 'f')
}

/// Every byte reads back from its two hexadecimal digits, the high one first.
pub proof fn hex_reads_back(bytes: Seq<u8>, i: int)
    requires
        0 <= i < bytes.len(),
    ensures
        hex(bytes).len() == 2 * bytes.len(),
        is_hex_digit(hex(bytes)[2 * i]),
        is_hex_digit(hex(bytes)[2 * i + 1]),
        hex_digit_value(hex(bytes)[2 * i]) * 16 + hex_digit_value(hex(bytes)[2 * i + 1])
            == bytes[i],
{
    let hi: int = 2 * i;
    let lo: int = 2 * i + 1;
    assert(hi / 2 == i && hi % 2 == 0 && lo / 2 == i && lo % 2 == 1);
    assert(hex(bytes)[hi] == digit_char(bytes[i] as int / 16));
    assert(hex(bytes)[lo] == digit_char(bytes[i] as int % 16));
}

/// An ASCII capital is made the small letter that has its place in the alphabet,
/// and nothing else is changed.
pub proof fn lowering_keeps_the_place_in_the_alphabet(s: Seq<char>, i: int)
    requires
        0 <= i < s.len(),
    ensures
        ascii_lower(s).len() == s.len(),
        'A' <= s[i] && s[i] <= 'Z' ==> ascii_lower(s)[i] as int - 'a' as int == s[i] as int
            - 'A' as int,
        !('A' <= s[i] && s[i] <= 'Z') ==> ascii_lower(s)[i] == s[i],
{
}

/// A plus sign and a zero in front of a number change nothing.
pub proof fn plus_sign_and_zero_change_nothing(n: nat)
    ensures
        spelled_number(seq!['+'] + decimal(n)) == Some(n),
        spelled_number(seq!['0'] + decimal(n)) == Some(n),
{
    lemma_decimal_digits(n);
    let digits = decimal(n);
    let signed = seq!['+'] + digits;
    assert(signed.drop_first() =~= digits);
    let padded = seq!['0'] + digits;
    lemma_leading_zero(digits);
    assert(padded[0] == '0');
    assert forall|i: int| 0 <= i < padded.len() implies is_digit(#[trigger] padded[i]) by {
        if i > 0 {
            assert(padded[i] == digits[i - 1]);
        }
    }
}

proof fn lemma_leading_zero(digits: Seq<char>)
    ensures
        digits_value(seq!['0'] + digits) == digits_value(digits),
    decreases digits.len(),
{
    let padded = seq!['0'] + digits;
    if digits.len() > 0 {
        lemma_leading_zero(digits.drop_last());
        assert(padded.drop_last() =~= seq!['0'] + digits.drop_last());
    } else {
        assert(padded.drop_last() =~= Seq::<char>::empty());
        assert(digits_value(padded.drop_last()) == 0);
    }
}

/// A text spells no number if it is empty, is a plus sign alone, or has behind an
/// optional plus sign a character that is no decimal digit.
pub proof fn other_texts_spell_no_number(s: Seq<char>, i: int)
    requires
        s.len() == 0 || s == seq!['+'] || (0 <= i < s.len() && !('0' <= s[i] && s[i] <= '9') && !(i
            == 0 && s[i] == '+')),
    ensures
        spelled_number(s) is None,
{
    let digits = unsigned_digits(s);
    if s.len() > 0 && s != seq!['+'] {
        if s[0] == '+' {
            assert(digits[i - 1] == s[i]);
        } else {
            assert(digits[i] == s[i]);
        }
    }
}

} // verus!
