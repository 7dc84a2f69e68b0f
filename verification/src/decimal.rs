//! Decimal text of integers: the digits that stand for a number, and the number
//! that a string of digits stands for.
//!
//! The text form is the plain one: digits `0` to `9`, most significant first,
//! no separators, a leading `-` for a negative number. Reading accepts one
//! leading sign (`+`, and `-` where the target is signed) and leading zeros, and
//! refuses anything else: the empty string, a lone sign, blanks, other
//! characters, and a value outside the target's range.

use vstd::prelude::*;

verus! {

/// The character of the decimal digit `d`.
pub open spec fn digit_char(d: int) -> char {
    (d + 48) as char
}

/// Whether `c` is one of `'0'` to `'9'`.
pub open spec fn is_digit(c: char) -> bool {
    '0' <= c <= '9'
}

/// The number that the digit `c` stands for.
pub open spec fn digit_value(c: char) -> int {
    c as int - 48
}

/// Whether `s` holds digits only.
pub open spec fn all_digits(s: Seq<char>) -> bool {
    forall|i: int| 0 <= i < s.len() ==> is_digit(#[trigger] s[i])
}

/// The number that the digits `s` stand for, most significant digit first.
pub open spec fn digits_value(s: Seq<char>) -> nat
    decreases s.len(),
{
    if s.len() == 0 {
        0
    } else {
        (digits_value(s.drop_last()) * 10 + digit_value(s.last())) as nat
    }
}

/// The decimal digits of `n`, without leading zeros.
pub open spec fn decimal_nat(n: nat) -> Seq<char>
    decreases n,
{
    if n < 10 {
        seq![digit_char(n as int)]
    } else {
        decimal_nat(n / 10).push(digit_char((n % 10) as int))
    }
}

/// The decimal text of `i`: its digits, after a `-` where `i` is negative.
pub open spec fn decimal_int(i: int) -> Seq<char> {
    if i < 0 {
        seq!['-'] + decimal_nat((-i) as nat)
    } else {
        decimal_nat(i as nat)
    }
}

/// The number that `body` stands for, where it is one or more digits and the
/// number is at most `limit`.
pub open spec fn digits_within(body: Seq<char>, limit: nat) -> Option<nat> {
    if body.len() > 0 && all_digits(body) && digits_value(body) <= limit {
        Some(digits_value(body))
    } else {
        None
    }
}

/// The unsigned number that `s` stands for: an optional `+`, then digits, with
/// a value of at most `limit`.
pub open spec fn parse_unsigned(s: Seq<char>, limit: nat) -> Option<nat> {
    if s.len() > 0 && s[0] == '+' {
        digits_within(s.skip(1), limit)
    } else {
        digits_within(s, limit)
    }
}

/// The signed number that `s` stands for: an optional `+` or `-`, then digits,
/// with a value from `-below` to `above`.
pub open spec fn parse_signed(s: Seq<char>, below: nat, above: nat) -> Option<int> {
    if s.len() > 0 && s[0] == '-' {
        match digits_within(s.skip(1), below) {
            Some(m) => Some(-(m as int)),
            None => None,
        }
    } else {
        match parse_unsigned(s, above) {
            Some(m) => Some(m as int),
            None => None,
        }
    }
}

/// What `parse_u64` returns on `s`.
pub open spec fn parse_u64_spec(s: Seq<char>) -> Option<u64> {
    match parse_unsigned(s, u64::MAX as nat) {
        Some(v) => Some(v as u64),
        None => None,
    }
}

/// What `parse_i32` returns on `s`.
pub open spec fn parse_i32_spec(s: Seq<char>) -> Option<i32> {
    match parse_signed(s, 0x8000_0000, 0x7fff_ffff) {
        Some(v) => Some(v as i32),
        None => None,
    }
}

/// The digits `d`, least significant first, written most significant first.
spec fn written(d: Seq<u8>) -> Seq<char> {
    Seq::new(d.len(), |i: int| digit_char(d[d.len() - 1 - i] as int))
}

/// The digits of a number are digits, and stand for that number.
pub proof fn lemma_decimal_nat(n: nat)
    ensures
        decimal_nat(n).len() > 0,
        all_digits(decimal_nat(n)),
        digits_value(decimal_nat(n)) == n,
        is_digit(decimal_nat(n)[0]),
    decreases n,
{
    if n < 10 {
        let s = decimal_nat(n);
        assert(s.drop_last().len() == 0);
        assert(digits_value(s) == digits_value(s.drop_last()) * 10 + digit_value(s.last()));
    } else {
        lemma_decimal_nat(n / 10);
        let p = decimal_nat(n / 10);
        let s = decimal_nat(n);
        assert(s.drop_last() =~= p);
        assert(s[0] == p[0]);
    }
}

/// A number read from more digits is no smaller than one read from the first
/// few of them.
pub proof fn lemma_digits_value_grows(s: Seq<char>, k: int)
    requires
        all_digits(s),
        0 <= k <= s.len(),
    ensures
        digits_value(s.subrange(0, k)) <= digits_value(s),
    decreases s.len() - k,
{
    if k == s.len() {
        assert(s.subrange(0, k) =~= s);
    } else {
        lemma_digits_value_grows(s.drop_last(), k);
        assert(s.drop_last().subrange(0, k) =~= s.subrange(0, k));
        assert(is_digit(s.last()));
    }
}

/// Reading the decimal digits of `n` gives `n` back.
pub proof fn lemma_parse_unsigned_decimal(n: nat, limit: nat)
    requires
        n <= limit,
    ensures
        parse_unsigned(decimal_nat(n), limit) == Some(n),
{
    lemma_decimal_nat(n);
}

/// Reading the decimal text of `i` gives `i` back.
pub proof fn lemma_parse_signed_decimal(i: int, below: nat, above: nat)
    requires
        -(below as int) <= i <= above as int,
    ensures
        parse_signed(decimal_int(i), below, above) == Some(i),
{
    if i < 0 {
        let m = (-i) as nat;
        lemma_decimal_nat(m);
        assert(decimal_int(i).skip(1) =~= decimal_nat(m));
    } else {
        lemma_decimal_nat(i as nat);
    }
}

/// The digit that `c` stands for, where it is a digit.
fn digit_of(c: char) -> (d: Option<u8>)
    ensures
        match d {
            Some(v) => is_digit(c) && v == digit_value(c),
            None => !is_digit(c),
        },
{
    if '0' <= c && c <= '9' {
        Some((c as u32 - 48) as u8)
    } else {
        None
    }
}

/// The one-character text of the digit `d`.
fn digit_text(d: u8) -> (s: &'static str)
    requires
        d < 10,
    ensures
        s@ == seq![digit_char(d as int)],
{
    proof {
        reveal_strlit("0");
        reveal_strlit("1");
        reveal_strlit("2");
        reveal_strlit("3");
        reveal_strlit("4");
        reveal_strlit("5");
        reveal_strlit("6");
        reveal_strlit("7");
        reveal_strlit("8");
        reveal_strlit("9");
    }
    let s = if d == 0 {
        "0"
    } else if d == 1 {
        "1"
    } else if d == 2 {
        "2"
    } else if d == 3 {
        "3"
    } else if d == 4 {
        "4"
    } else if d == 5 {
        "5"
    } else if d == 6 {
        "6"
    } else if d == 7 {
        "7"
    } else if d == 8 {
        "8"
    } else {
        "9"
    };
    assert(s@ =~= seq![digit_char(d as int)]);
    s
}

/// The decimal text of `n`.
pub fn format_u64(n: u64) -> (s: String)
    ensures
        s@ == decimal_nat(n as nat),
{
    let mut digits: Vec<u8> = Vec::new();
    let mut rest: u64 = n;
    while rest >= 10
        invariant
            decimal_nat(n as nat) == decimal_nat(rest as nat) + written(digits@),
            forall|i: int| 0 <= i < digits.len() ==> digits[i] < 10,
        decreases rest,
    {
        let ghost before = digits@;
        digits.push((rest % 10) as u8);
        proof {
            assert(written(digits@) =~= seq![digit_char((rest % 10) as int)] + written(before));
            assert(decimal_nat(rest as nat) + written(before) =~= decimal_nat((rest / 10) as nat)
                + written(digits@));
        }
        rest = rest / 10;
    }
    let ghost before = digits@;
    digits.push(rest as u8);
    proof {
        assert(written(digits@) =~= decimal_nat(rest as nat) + written(before));
    }
    let mut s = String::new();
    let mut i: usize = digits.len();
    while i > 0
        invariant
            0 <= i <= digits.len(),
            forall|j: int| 0 <= j < digits.len() ==> digits[j] < 10,
            s@ == written(digits@).subrange(0, digits.len() - i),
        decreases i,
    {
        i -= 1;
        s.append(digit_text(digits[i]));
        assert(s@ =~= written(digits@).subrange(0, digits.len() - i));
    }
    assert(s@ =~= written(digits@));
    s
}

/// The decimal text of `i`.
pub fn format_i64(i: i64) -> (s: String)
    ensures
        s@ == decimal_int(i as int),
{
    if i < 0 {
        let magnitude: u64 = if i == i64::MIN {
            0x8000_0000_0000_0000
        } else {
            (-i) as u64
        };
        let digits = format_u64(magnitude);
        let mut s = String::new();
        s.append("-");
        s.append(digits.as_str());
        proof {
            reveal_strlit("-");
            assert(s@ =~= seq!['-'] + decimal_nat((-i) as nat));
        }
        s
    } else {
        format_u64(i as u64)
    }
}

/// The first character of `s`, if it has one.
fn first_char(s: &str) -> (c: Option<char>)
    ensures
        match c {
            Some(x) => s@.len() > 0 && x == s@[0],
            None => s@.len() == 0,
        },
{
    if s.is_empty() {
        None
    } else {
        Some(s.get_char(0))
    }
}

/// Reads the digits of `s` after its first character, where `signed` says that
/// this one is a sign, and else all of `s`.
fn parse_digits(s: &str, signed: bool, limit: u64) -> (r: Option<u64>)
    requires
        signed ==> s@.len() > 0,
    ensures
        r == match digits_within(if signed { s@.skip(1) } else { s@ }, limit as nat) {
            Some(v) => Some(v as u64),
            None => None,
        },
{
    let ghost start: int = if signed { 1 } else { 0 };
    let ghost body = if signed { s@.skip(1) } else { s@ };
    assert(body =~= s@.skip(start));
    let mut skip = signed;
    let mut any = false;
    let mut value: u128 = 0;
    for c in it: s.chars()
        invariant
            it.seq() == s@,
            start == if signed { 1int } else { 0int },
            start <= s@.len(),
            body == (if signed { s@.skip(1) } else { s@ }),
            body == s@.skip(start),
            skip <==> signed && it.index() == 0,
            any <==> it.index() > start,
            it.index() >= start ==> all_digits(s@.subrange(start, it.index())),
            it.index() >= start ==> value == digits_value(s@.subrange(start, it.index())),
            it.index() < start ==> value == 0,
            value <= limit,
    {
        let ghost at = it.index();
        if skip {
            skip = false;
            assert(s@.subrange(start, at + 1).len() == 0);
        } else {
            match digit_of(c) {
                Some(d) => {
                    let next: u128 = value * 10 + d as u128;
                    proof {
                        let read = s@.subrange(start, at + 1);
                        assert(read.drop_last() =~= s@.subrange(start, at));
                        assert(read.last() == c);
                        assert(next == digits_value(read));
                        assert(all_digits(read));
                        assert(body.subrange(0, at + 1 - start) =~= read);
                    }
                    if next > limit as u128 {
                        proof {
                            if all_digits(body) {
                                lemma_digits_value_grows(body, at + 1 - start);
                            }
                        }
                        return None;
                    }
                    value = next;
                    any = true;
                },
                None => {
                    assert(body[at - start] == c);
                    return None;
                },
            }
        }
    }
    assert(s@.subrange(start, s@.len() as int) =~= body);
    if any {
        Some(value as u64)
    } else {
        None
    }
}

/// Reads an unsigned 64-bit number from its decimal text.
pub fn parse_u64(s: &str) -> (r: Option<u64>)
    ensures
        r == parse_u64_spec(s@),
{
    match first_char(s) {
        Some('+') => parse_digits(s, true, u64::MAX),
        _ => parse_digits(s, false, u64::MAX),
    }
}

/// Reads a signed 32-bit number from its decimal text.
pub fn parse_i32(s: &str) -> (r: Option<i32>)
    ensures
        r == parse_i32_spec(s@),
{
    match first_char(s) {
        Some('-') => match parse_digits(s, true, 0x8000_0000) {
            Some(m) => Some((-(m as i64)) as i32),
            None => None,
        },
        Some('+') => match parse_digits(s, true, 0x7fff_ffff) {
            Some(m) => Some(m as i32),
            None => None,
        },
        _ => match parse_digits(s, false, 0x7fff_ffff) {
            Some(m) => Some(m as i32),
            None => None,
        },
    }
}

} // verus!
