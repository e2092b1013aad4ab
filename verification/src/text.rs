//! Numbers as text: the digits that identifiers are written with in backend
//! keys and in printed names, and the reading of such digits back.

use vstd::prelude::*;

verus! {

/// The characters of `s`, one by one.
pub fn chars_of(s: &str) -> (v: Vec<char>)
    ensures
        v@ == s@,
{
    broadcast use vstd::string::group_string_axioms;

    let mut v: Vec<char> = Vec::new();
    for c in it: s.chars()
        invariant
            it.seq() == s@,
            v@ == it.seq().subrange(0, it.index()),
    {
        proof {
            assert(it.seq().subrange(0, it.index() + 1) =~= it.seq().subrange(0, it.index()).push(
                c,
            ));
        }
        v.push(c);
    }
    assert(v@ =~= s@);
    v
}

/// The character that stands for the digit `d` (upper case above nine).
pub open spec fn digit_char(d: int) -> char {
    if d == 0 {
        '0'
    } else if d == 1 {
        '1'
    } else if d == 2 {
        '2'
    } else if d == 3 {
        '3'
    } else if d == 4 {
        '4'
    } else if d == 5 {
        '5'
    } else if d == 6 {
        '6'
    } else if d == 7 {
        '7'
    } else if d == 8 {
        '8'
    } else if d == 9 {
        '9'
    } else if d == 10 {
        'A'
    } else if d == 11 {
        'B'
    } else if d == 12 {
        'C'
    } else if d == 13 {
        'D'
    } else if d == 14 {
        'E'
    } else {
        'F'
    }
}

/// The digit that `c` stands for, if it is a decimal digit.
pub open spec fn decimal_digit(c: char) -> Option<int> {
    if c == '0' {
        Some(0int)
    } else if c == '1' {
        Some(1int)
    } else if c == '2' {
        Some(2int)
    } else if c == '3' {
        Some(3int)
    } else if c == '4' {
        Some(4int)
    } else if c == '5' {
        Some(5int)
    } else if c == '6' {
        Some(6int)
    } else if c == '7' {
        Some(7int)
    } else if c == '8' {
        Some(8int)
    } else if c == '9' {
        Some(9int)
    } else {
        None
    }
}

/// `n` written in decimal, or in upper-case hexadecimal where `hex` is set:
/// most significant digit first, without leading zeros (zero itself is the
/// single digit `0`).
pub open spec fn radix_text(n: nat, hex: bool) -> Seq<char>
    decreases n,
{
    if hex {
        if n < 16 {
            seq![digit_char(n as int)]
        } else {
            radix_text(n / 16, true).push(digit_char((n % 16) as int))
        }
    } else {
        if n < 10 {
            seq![digit_char(n as int)]
        } else {
            radix_text(n / 10, false).push(digit_char((n % 10) as int))
        }
    }
}

/// `n` in decimal.
pub open spec fn decimal_text(n: nat) -> Seq<char> {
    radix_text(n, false)
}

/// `n` in upper-case hexadecimal.
pub open spec fn upper_hex_text(n: nat) -> Seq<char> {
    radix_text(n, true)
}

/// Every character of `s` is a decimal digit.
pub open spec fn all_decimal_digits(s: Seq<char>) -> bool {
    forall|i: int| 0 <= i < s.len() ==> (#[trigger] decimal_digit(s[i])) is Some
}

/// The number that a run of decimal digits denotes (zero for the empty run).
pub open spec fn decimal_value(s: Seq<char>) -> nat
    decreases s.len(),
{
    if s.len() == 0 {
        0
    } else {
        (decimal_value(s.drop_last()) * 10 + decimal_digit(s.last()).unwrap()) as nat
    }
}

/// What reading `s` as an unsigned 64-bit number gives: an optional `+`, then
/// one or more decimal digits whose value fits; anything else is refused.
pub open spec fn parse_u64_spec(s: Seq<char>) -> Option<u64> {
    let digits = if s.len() > 0 && s[0] == '+' {
        s.subrange(1, s.len() as int)
    } else {
        s
    };
    digits_u64(digits)
}

/// The number that `digits` denotes, where it is a non-empty run of decimal
/// digits with a value that fits in 64 bits.
pub open spec fn digits_u64(digits: Seq<char>) -> Option<u64> {
    if digits.len() > 0 && all_decimal_digits(digits) && decimal_value(digits) <= u64::MAX {
        Some(decimal_value(digits) as u64)
    } else {
        None
    }
}

/// The one-character string for a digit below sixteen.
fn digit_str(d: u8) -> (s: &'static str)
    requires
        d < 16,
    ensures
        s@ == seq![digit_char(d as int)],
        s.is_ascii(),
{
    proof {
        reveal_strlit("0");
        reveal_strlit("1");
        reveal_strlit("2");
        reveal_strlit("3");
        reveal_strlit("4");
        reveal_strlit("5");
        reveal_strlit("6");
        reveal_strlit("7");
        reveal_strlit("8");
        reveal_strlit("9");
        reveal_strlit("A");
        reveal_strlit("B");
        reveal_strlit("C");
        reveal_strlit("D");
        reveal_strlit("E");
        reveal_strlit("F");
    }
    let s = match d {
        0 => "0",
        1 => "1",
        2 => "2",
        3 => "3",
        4 => "4",
        5 => "5",
        6 => "6",
        7 => "7",
        8 => "8",
        9 => "9",
        10 => "A",
        11 => "B",
        12 => "C",
        13 => "D",
        14 => "E",
        _ => "F",
    };
    assert(s@ =~= seq![digit_char(d as int)]);
    s
}

/// Appends `n` to `out`, in decimal or, where `hex` is set, in upper-case
/// hexadecimal.
pub fn push_radix(out: &mut String, n: u64, hex: bool)
    ensures
        final(out)@ == old(out)@ + radix_text(n as nat, hex),
{
    let mut digits: Vec<u8> = Vec::new();
    let mut rest: u64 = n;
    let base: u64 = if hex { 16 } else { 10 };
    // least significant digit first
    while rest >= base
        invariant
            base == if hex { 16u64 } else { 10u64 },
            forall|i: int| 0 <= i < digits.len() ==> digits[i] < 16,
            radix_text(n as nat, hex) == radix_text(rest as nat, hex) + low_digits(digits@),
        decreases rest,
    {
        let d: u8 = if hex { (rest % 16) as u8 } else { (rest % 10) as u8 };
        let next: u64 = if hex { rest / 16 } else { rest / 10 };
        proof {
            assert(radix_text(rest as nat, hex) == radix_text(next as nat, hex).push(
                digit_char(d as int),
            ));
            assert(low_digits(digits@.push(d)) =~= seq![digit_char(d as int)] + low_digits(
                digits@,
            )) by {
                assert(digits@.push(d).drop_last() =~= digits@);
            }
            assert(radix_text(next as nat, hex).push(digit_char(d as int)) + low_digits(digits@)
                =~= radix_text(next as nat, hex) + low_digits(digits@.push(d)));
        }
        digits.push(d);
        rest = next;
    }
    let lead: u8 = rest as u8;
    out.append(digit_str(lead));
    assert(radix_text(rest as nat, hex) =~= seq![digit_char(lead as int)]);
    let ghost start = old(out)@ + seq![digit_char(lead as int)];
    let mut i: usize = digits.len();
    assert(digits@.subrange(0, i as int) =~= digits@);
    while i > 0
        invariant
            i <= digits.len(),
            forall|k: int| 0 <= k < digits.len() ==> digits[k] < 16,
            out@ + low_digits(digits@.subrange(0, i as int)) == start + low_digits(digits@),
        decreases i,
    {
        i = i - 1;
        proof {
            let upto = digits@.subrange(0, i as int + 1);
            assert(upto.drop_last() =~= digits@.subrange(0, i as int));
            assert(upto.last() == digits[i as int]);
            assert(low_digits(upto) == seq![digit_char(digits[i as int] as int)] + low_digits(
                digits@.subrange(0, i as int),
            ));
            assert((out@ + seq![digit_char(digits[i as int] as int)]) + low_digits(
                digits@.subrange(0, i as int),
            ) =~= out@ + low_digits(upto));
        }
        out.append(digit_str(digits[i]));
    }
    proof {
        assert(digits@.subrange(0, 0) =~= Seq::<u8>::empty());
        assert(out@ + Seq::<char>::empty() =~= out@);
        assert(start + low_digits(digits@) =~= old(out)@ + (seq![digit_char(lead as int)]
            + low_digits(digits@)));
    }
}

/// The characters of digits that were collected least significant first,
/// put back in reading order.
pub open spec fn low_digits(digits: Seq<u8>) -> Seq<char>
    decreases digits.len(),
{
    if digits.len() == 0 {
        Seq::empty()
    } else {
        seq![digit_char(digits.last() as int)] + low_digits(digits.drop_last())
    }
}

/// A run of digits denotes at least what any of its prefixes denotes.
pub proof fn lemma_decimal_value_prefix(s: Seq<char>, k: int)
    requires
        0 <= k <= s.len(),
        all_decimal_digits(s),
    ensures
        decimal_value(s.subrange(0, k)) <= decimal_value(s),
    decreases s.len(),
{
    if k == s.len() {
        assert(s.subrange(0, k) =~= s);
    } else {
        let front = s.drop_last();
        assert(decimal_digit(s.last()) is Some);
        assert forall|i: int| 0 <= i < front.len() implies (#[trigger] decimal_digit(front[i]))
            is Some by {
            assert(front[i] == s[i]);
        }
        lemma_decimal_value_prefix(front, k);
        assert(front.subrange(0, k) =~= s.subrange(0, k));
    }
}

/// Reads `text` as an unsigned 64-bit number: an optional `+`, then decimal
/// digits. Leading zeros are accepted; an empty run of digits, any other
/// character, or a value above `u64::MAX` is refused.
pub fn parse_u64(text: &str) -> (r: Option<u64>)
    ensures
        r == parse_u64_spec(text@),
{
    let chars = chars_of(text);
    let start: usize = if chars.len() > 0 && chars[0] == '+' { 1 } else { 0 };
    let ghost digits = chars@.subrange(start as int, chars@.len() as int);
    assert(parse_u64_spec(text@) == digits_u64(digits)) by {
        assert(chars@.subrange(0, chars@.len() as int) =~= chars@);
    }
    if chars.len() == start {
        return None;
    }
    let mut value: u64 = 0;
    let mut i: usize = start;
    assert(digits.subrange(0, 0) =~= Seq::<char>::empty());
    while i < chars.len()
        invariant
            start <= i <= chars.len(),
            digits == chars@.subrange(start as int, chars@.len() as int),
            parse_u64_spec(text@) == digits_u64(digits),
            all_decimal_digits(digits.subrange(0, i - start)),
            value == decimal_value(digits.subrange(0, i - start)),
        decreases chars.len() - i,
    {
        let c = chars[i];
        let ghost seen = digits.subrange(0, i - start);
        let ghost more = digits.subrange(0, i - start + 1);
        proof {
            assert(more.drop_last() =~= seen);
            assert(more.last() == c);
            assert(digits[i - start] == c);
        }
        let d: u64 = match digit_of(c) {
            Some(d) => d,
            None => {
                return None;
            },
        };
        let next = match value.checked_mul(10) {
            Some(v) => v.checked_add(d),
            None => None,
        };
        proof {
            assert forall|k: int| 0 <= k < more.len() implies (#[trigger] decimal_digit(more[k]))
                is Some by {
                if k < seen.len() {
                    assert(more[k] == seen[k]);
                }
            }
            assert(decimal_value(more) == value * 10 + d);
        }
        match next {
            Some(v) => {
                value = v;
            },
            None => {
                proof {
                    if all_decimal_digits(digits) {
                        lemma_decimal_value_prefix(digits, i - start + 1);
                    }
                }
                return None;
            },
        }
        i = i + 1;
    }
    assert(digits.subrange(0, i - start) =~= digits);
    Some(value)
}

/// The value of a decimal digit character.
fn digit_of(c: char) -> (r: Option<u64>)
    ensures
        match r {
            Some(d) => decimal_digit(c) == Some(d as int),
            None => decimal_digit(c) is None,
        },
{
    match c {
        '0' => Some(0),
        '1' => Some(1),
        '2' => Some(2),
        '3' => Some(3),
        '4' => Some(4),
        '5' => Some(5),
        '6' => Some(6),
        '7' => Some(7),
        '8' => Some(8),
        '9' => Some(9),
        _ => None,
    }
}

/// The decimal text of a number consists of digits only and denotes it.
pub proof fn lemma_decimal_text_value(n: nat)
    ensures
        decimal_text(n).len() > 0,
        all_decimal_digits(decimal_text(n)),
        decimal_value(decimal_text(n)) == n,
    decreases n,
{
    if n < 10 {
        let t = decimal_text(n);
        assert(t.drop_last() =~= Seq::<char>::empty());
        assert(decimal_value(t.drop_last()) == 0);
    } else {
        lemma_decimal_text_value(n / 10);
        let front = decimal_text(n / 10);
        let t = decimal_text(n);
        assert(t == front.push(digit_char((n % 10) as int)));
        assert(t.drop_last() =~= front);
        assert forall|i: int| 0 <= i < t.len() implies (#[trigger] decimal_digit(t[i])) is Some by {
            if i < front.len() {
                assert(t[i] == front[i]);
            }
        }
    }
}

/// Reading back the decimal text of a number gives that number.
pub proof fn lemma_decimal_round_trip(n: u64)
    ensures
        parse_u64_spec(decimal_text(n as nat)) == Some(n),
{
    lemma_decimal_text_value(n as nat);
    let t = decimal_text(n as nat);
    assert(decimal_digit(t[0]) is Some);
}

/// Different numbers have different decimal texts.
pub proof fn lemma_decimal_text_injective(a: nat, b: nat)
    requires
        decimal_text(a) == decimal_text(b),
    ensures
        a == b,
{
    lemma_decimal_text_value(a);
    lemma_decimal_text_value(b);
}

/// The number whose decimal text `s` is, if `s` is the decimal text of a
/// number that fits in 64 bits: digits only, no sign, no leading zeros.
/// Each number has one such text, and each such text one number.
pub open spec fn decimal_u64_spec(s: Seq<char>) -> Option<u64> {
    match parse_u64_spec(s) {
        Some(n) => if decimal_text(n as nat) == s {
            Some(n)
        } else {
            None
        },
        None => None,
    }
}

/// Reads `text` as the decimal text of an unsigned 64-bit number. A sign,
/// leading zeros, any other character, an empty text or a value above
/// `u64::MAX` are refused.
pub fn parse_decimal_u64(text: &str) -> (r: Option<u64>)
    ensures
        r == decimal_u64_spec(text@),
{
    match parse_u64(text) {
        Some(n) => {
            let mut written = String::new();
            push_radix(&mut written, n, false);
            assert(written@ =~= decimal_text(n as nat));
            if written == String::from_str(text) {
                Some(n)
            } else {
                None
            }
        },
        None => None,
    }
}

/// A text is read as the number `n` exactly if it is the decimal text of
/// `n`.
pub proof fn lemma_decimal_u64(s: Seq<char>, n: u64)
    ensures
        decimal_u64_spec(s) == Some(n) <==> s == decimal_text(n as nat),
{
    lemma_decimal_round_trip(n);
}

} // verus!
