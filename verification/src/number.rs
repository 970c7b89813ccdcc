//! Decimal numbers in text.
use crate::text::{copy_range, string_of};
use vstd::prelude::*;

verus! {

/// Whether `c` is one of the ten ASCII digits.
pub open spec fn is_digit(c: char) -> bool {
    48 <= c as u32 <= 57
}

/// Whether `s` holds digits only.
pub open spec fn all_digits(s: Seq<char>) -> bool {
    forall|i: int| 0 <= i < s.len() ==> is_digit(#[trigger] s[i])
}

/// The number that the digits of `s` write.
pub open spec fn value_of(s: Seq<char>) -> nat
    decreases s.len(),
{
    if s.len() == 0 {
        0
    } else {
        (value_of(s.subrange(0, s.len() - 1)) * 10 + (s[s.len() - 1] as u32 - 48)) as nat
    }
}

/// The number that `s` writes with digits alone, where it is at most `max`.
pub open spec fn digits_number(s: Seq<char>, max: nat) -> Option<nat> {
    if s.len() > 0 && all_digits(s) && value_of(s) <= max {
        Some(value_of(s))
    } else {
        None
    }
}

/// `s` without the one sign character `sign` in front, where digits may follow it.
pub open spec fn without_sign(s: Seq<char>, sign: char) -> Seq<char> {
    if s.len() >= 2 && s[0] == sign {
        s.subrange(1, s.len() as int)
    } else {
        s
    }
}

/// The unsigned number that `s` writes: digits, with a plus sign in front or none.
pub open spec fn unsigned_number(s: Seq<char>, max: nat) -> Option<nat> {
    digits_number(without_sign(s, '+'), max)
}

/// The 64-bit signed number that `s` writes: digits, with one sign in front or none.
pub open spec fn signed_number(s: Seq<char>) -> Option<int> {
    if s.len() >= 2 && s[0] == '-' {
        match digits_number(s.subrange(1, s.len() as int), 0x8000_0000_0000_0000) {
            Some(n) => Some(-(n as int)),
            None => None,
        }
    } else {
        match unsigned_number(s, 0x7fff_ffff_ffff_ffff) {
            Some(n) => Some(n as int),
            None => None,
        }
    }
}

/// Dropping digits from the end of a number does not make it greater.
proof fn value_of_prefix(s: Seq<char>, n: int)
    requires
        all_digits(s),
        0 <= n <= s.len(),
    ensures
        value_of(s.subrange(0, n)) <= value_of(s),
    decreases s.len() - n,
{
    if n == s.len() {
        assert(s.subrange(0, n) == s);
    } else {
        value_of_prefix(s, n + 1);
        let longer = s.subrange(0, n + 1);
        assert(longer.subrange(0, longer.len() - 1) == s.subrange(0, n));
        assert(is_digit(s[n]));
    }
}

/// Whether `c` is one of the ten ASCII digits.
pub fn is_ascii_digit(c: char) -> (b: bool)
    ensures
        b == is_digit(c),
{
    let u: u32 = c as u32;
    48 <= u && u <= 57
}

/// The number that `s` writes with digits alone, where it is at most `max`.
pub fn parse_digits(s: &Vec<char>, max: u64) -> (n: Option<u64>)
    ensures
        digits_number(s@, max as nat) == (match n {
            Some(v) => Some(v as nat),
            None => None,
        }),
{
    if s.len() == 0 {
        return None;
    }
    let mut acc: u64 = 0;
    let mut i: usize = 0;
    assert(s@.subrange(0, 0) == Seq::<char>::empty());
    while i < s.len()
        invariant
            i <= s@.len(),
            acc <= max,
            forall|k: int| 0 <= k < i ==> is_digit(#[trigger] s@[k]),
            acc == value_of(s@.subrange(0, i as int)),
        decreases s@.len() - i,
    {
        if !is_ascii_digit(s[i]) {
            assert(!is_digit(s@[i as int]));
            return None;
        }
        let digit: u32 = s[i] as u32 - 48;
        let next: u128 = acc as u128 * 10 + digit as u128;
        let ghost longer = s@.subrange(0, i + 1);
        assert(longer.subrange(0, longer.len() - 1) == s@.subrange(0, i as int));
        assert(next == value_of(longer));
        if next > max as u128 {
            proof {
                if all_digits(s@) {
                    value_of_prefix(s@, i + 1);
                }
            }
            return None;
        }
        acc = next as u64;
        i = i + 1;
    }
    assert(s@.subrange(0, s@.len() as int) == s@);
    Some(acc)
}

/// The unsigned number that `s` writes, where it is at most `max`.
pub fn parse_unsigned(s: &Vec<char>, max: u64) -> (n: Option<u64>)
    ensures
        unsigned_number(s@, max as nat) == (match n {
            Some(v) => Some(v as nat),
            None => None,
        }),
{
    if s.len() >= 2 && s[0] == '+' {
        parse_digits(&copy_range(s, 1, s.len()), max)
    } else {
        parse_digits(s, max)
    }
}

/// The 64-bit signed number that `s` writes.
pub fn parse_signed(s: &Vec<char>) -> (n: Option<i64>)
    ensures
        signed_number(s@) == (match n {
            Some(v) => Some(v as int),
            None => None,
        }),
{
    if s.len() >= 2 && s[0] == '-' {
        match parse_digits(&copy_range(s, 1, s.len()), 0x8000_0000_0000_0000) {
            Some(v) => {
                if v == 0x8000_0000_0000_0000 {
                    Some(i64::MIN)
                } else {
                    Some(-(v as i64))
                }
            },
            None => None,
        }
    } else {
        match parse_unsigned(s, 0x7fff_ffff_ffff_ffff) {
            Some(v) => Some(v as i64),
            None => None,
        }
    }
}

/// `n` in decimal digits, without leading zeros.
pub open spec fn decimal(n: nat) -> Seq<char>
    decreases n,
{
    if n < 10 {
        seq![(48 + n) as char]
    } else {
        decimal(n / 10).push((48 + n % 10) as char)
    }
}

/// `n` in decimal digits, with a minus sign where it is negative.
pub open spec fn signed_decimal(n: int) -> Seq<char> {
    if n < 0 {
        seq!['-'] + decimal((-n) as nat)
    } else {
        decimal(n as nat)
    }
}

/// A number written in decimal reads back as itself.
pub proof fn decimal_reads_back(n: nat, max: nat)
    requires
        n <= max,
    ensures
        all_digits(decimal(n)),
        decimal(n).len() > 0,
        digits_number(decimal(n), max) == Some(n),
        unsigned_number(decimal(n), max) == Some(n),
{
    decimal_value(n);
    assert(is_digit(decimal(n)[0]));
    assert(without_sign(decimal(n), '+') == decimal(n));
}

proof fn decimal_value(n: nat)
    ensures
        all_digits(decimal(n)),
        decimal(n).len() > 0,
        value_of(decimal(n)) == n,
    decreases n,
{
    if n < 10 {
        let s = decimal(n);
        assert(s.subrange(0, 0) == Seq::<char>::empty());
        assert(value_of(s.subrange(0, s.len() - 1)) == 0);
        assert(s[0] as u32 == 48 + n);
    } else {
        decimal_value(n / 10);
        let s = decimal(n);
        assert(s.subrange(0, s.len() - 1) == decimal(n / 10));
        assert(s[s.len() - 1] as u32 == 48 + n % 10);
    }
}

fn digit_char(digit: u64) -> (c: char)
    requires
        digit < 10,
    ensures
        c == (48 + digit) as char,
{
    (48 + digit as u8) as char
}

/// `n` in decimal digits.
pub fn decimal_chars(n: u64) -> (s: Vec<char>)
    ensures
        s@ == decimal(n as nat),
    decreases n,
{
    if n < 10 {
        let mut s: Vec<char> = Vec::new();
        s.push(digit_char(n));
        s
    } else {
        let mut s = decimal_chars(n / 10);
        s.push(digit_char(n % 10));
        s
    }
}

/// `n` in decimal digits.
pub fn decimal_of(n: u64) -> (s: String)
    ensures
        s@ == decimal(n as nat),
{
    string_of(&decimal_chars(n))
}

/// `n` in decimal digits, with a minus sign where it is negative.
pub fn signed_decimal_of(n: i32) -> (s: String)
    ensures
        s@ == signed_decimal(n as int),
{
    if n < 0 {
        let mut s = "-".to_string();
        let magnitude: u64 = (-(n as i64)) as u64;
        s.append(decimal_of(magnitude).as_str());
        proof {
            reveal_strlit("-");
            assert("-"@ =~= seq!['-']);
        }
        s
    } else {
        decimal_of(n as u64)
    }
}

/// An exit code as it is written for a developer: "Some(1)" or "None".
pub open spec fn debug_code(code: Option<i32>) -> Seq<char> {
    match code {
        Some(n) => "Some("@ + signed_decimal(n as int) + ")"@,
        None => "None"@,
    }
}

/// An exit code as it is written for a developer.
pub fn debug_code_of(code: Option<i32>) -> (text: String)
    ensures
        text@ == debug_code(code),
{
    match code {
        Some(n) => {
            let mut text = "Some(".to_string();
            text.append(signed_decimal_of(n).as_str());
            text.append(")");
            text
        },
        None => "None".to_string(),
    }
}

// ---------------------------------------------------------------------------
// Laws
// ---------------------------------------------------------------------------

/// One digit more makes a number ten times as great, and adds the digit. Nothing but digits writes a
/// number, and no number is written with nothing.
pub proof fn digits_add_up(s: Seq<char>, c: char, max: nat)
    ensures
        is_digit(c) && all_digits(s) && 10 * value_of(s) + (c as u32 - 48) <= max ==> digits_number(
            s.push(c),
            max,
        ) == Some((10 * value_of(s) + (c as u32 - 48)) as nat),
        is_digit(c) && all_digits(s) && 10 * value_of(s) + (c as u32 - 48) > max ==> digits_number(
            s.push(c),
            max,
        ) is None,
        !is_digit(c) || !all_digits(s) ==> digits_number(s.push(c), max) is None,
        digits_number(Seq::empty(), max) is None,
        value_of(Seq::empty()) == 0,
{
    let longer = s.push(c);
    assert(longer.subrange(0, longer.len() - 1) == s);
    assert(longer[longer.len() - 1] == c);
    if all_digits(longer) {
        assert forall|i: int| 0 <= i < s.len() implies is_digit(#[trigger] s[i]) by {
            assert(longer[i] == s[i]);
        }
    }
    if is_digit(c) && all_digits(s) {
        assert forall|i: int| 0 <= i < longer.len() implies is_digit(#[trigger] longer[i]) by {
            if i < s.len() {
                assert(longer[i] == s[i]);
            }
        }
    }
}

/// A number is written without leading zeros.
pub proof fn decimal_has_no_leading_zero(n: nat)
    ensures
        n > 0 ==> decimal(n)[0] != '0',
        n == 0 ==> decimal(n) == seq!['0'],
    decreases n,
{
    if n >= 10 {
        decimal_value(n / 10);
        decimal_has_no_leading_zero(n / 10);
        assert(decimal(n)[0] == decimal(n / 10)[0]);
    } else {
        assert(decimal(n)[0] as u32 == 48 + n);
    }
}

/// A signed number that is written reads back as itself, also with a plus sign in front.
pub proof fn signed_decimal_reads_back(n: int)
    requires
        i64::MIN <= n <= i64::MAX,
    ensures
        signed_number(signed_decimal(n)) == Some(n),
        n >= 0 ==> signed_number(seq!['+'] + signed_decimal(n)) == Some(n),
        n < 0 ==> signed_decimal(n)[0] == '-',
{
    if n < 0 {
        let m = (-n) as nat;
        decimal_reads_back(m, 0x8000_0000_0000_0000);
        let s = seq!['-'] + decimal(m);
        assert(s.subrange(1, s.len() as int) == decimal(m));
    } else {
        let m = n as nat;
        decimal_reads_back(m, 0x7fff_ffff_ffff_ffff);
        assert(is_digit(decimal(m)[0]));
        let s = seq!['+'] + decimal(m);
        assert(s.subrange(1, s.len() as int) == decimal(m));
    }
}

/// One plus sign in front of digits does not count; a second sign makes the text no number.
pub proof fn plus_sign_does_not_count(s: Seq<char>, max: nat)
    ensures
        s.len() > 0 ==> unsigned_number(seq!['+'] + s, max) == digits_number(s, max),
        s.len() > 0 && s[0] != '+' ==> unsigned_number(s, max) == digits_number(s, max),
        unsigned_number(seq![], max) is None,
        unsigned_number(seq!['+'], max) is None,
        unsigned_number(seq!['-'] + s, max) is None,
{
    let signed = seq!['+'] + s;
    assert(signed.subrange(1, signed.len() as int) == s);
    let negative = seq!['-'] + s;
    assert(!is_digit(negative[0]));
    let plus = seq!['+'];
    assert(!is_digit(plus[0]));
}

} // verus!
