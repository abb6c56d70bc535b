//! Decimal text of integers, both ways: what `to_string` prints and what
//! `str::parse` accepts, for the integer types the bot reads and prints.

use vstd::prelude::*;
use crate::text::push_char;

verus! {

/// An ASCII decimal digit.
pub open spec fn is_digit(c: char) -> bool {
    48 <= (c as u32) <= 57
}

/// The value of a decimal digit.
pub open spec fn digit_value(c: char) -> nat {
    ((c as u32) - 48) as nat
}

/// The character of a digit value below ten.
pub open spec fn digit_char(d: nat) -> char {
    ((d + 48) as u8) as char
}

/// The decimal digits of `n`, most significant first, without leading zeros.
pub open spec fn nat_digits(n: nat) -> Seq<char>
    decreases n,
{
    if n < 10 {
        seq![digit_char(n)]
    } else {
        nat_digits(n / 10).push(digit_char(n % 10))
    }
}

/// The decimal text of an integer, with a leading `-` when it is negative.
pub open spec fn int_decimal(i: int) -> Seq<char> {
    if i < 0 {
        seq!['-'] + nat_digits((-i) as nat)
    } else {
        nat_digits(i as nat)
    }
}

pub open spec fn all_digits(s: Seq<char>) -> bool {
    forall|i: int| 0 <= i < s.len() ==> is_digit(#[trigger] s[i])
}

/// The number that a string of digits denotes.
pub open spec fn digits_value(s: Seq<char>) -> nat
    decreases s.len(),
{
    if s.len() == 0 {
        0
    } else {
        digits_value(s.drop_last()) * 10 + digit_value(s.last())
    }
}

/// The integer a text denotes as a signed decimal: an optional `+` or `-`,
/// then one or more digits. `None` for any other text.
pub open spec fn signed_text_value(s: Seq<char>) -> Option<int> {
    if s.len() > 0 && s[0] == '-' {
        let body = s.drop_first();
        if body.len() > 0 && all_digits(body) {
            Some(-digits_value(body))
        } else {
            None
        }
    } else {
        let body = if s.len() > 0 && s[0] == '+' { s.drop_first() } else { s };
        if body.len() > 0 && all_digits(body) {
            Some(digits_value(body) as int)
        } else {
            None
        }
    }
}

/// The number a text denotes as an unsigned decimal: an optional `+`,
/// then one or more digits. `None` for any other text.
pub open spec fn unsigned_text_value(s: Seq<char>) -> Option<nat> {
    let body = if s.len() > 0 && s[0] == '+' { s.drop_first() } else { s };
    if body.len() > 0 && all_digits(body) {
        Some(digits_value(body))
    } else {
        None
    }
}

/// What `s.parse::<isize>()` gives: the value when the text denotes an
/// integer in range, `None` otherwise.
pub open spec fn isize_parse_spec(s: Seq<char>) -> Option<isize> {
    match signed_text_value(s) {
        Some(v) => if isize::MIN <= v <= isize::MAX { Some(v as isize) } else { None },
        None => None,
    }
}

/// What `s.parse::<u64>()` gives.
pub open spec fn u64_parse_spec(s: Seq<char>) -> Option<u64> {
    match unsigned_text_value(s) {
        Some(v) => if v <= u64::MAX { Some(v as u64) } else { None },
        None => None,
    }
}

fn digit_to_char(d: u64) -> (c: char)
    requires
        d < 10,
    ensures
        c == digit_char(d as nat),
{
    let b: u8 = (d as u8) + 48;
    b as char
}

/// Appends the decimal digits of `n`.
fn push_digits(out: &mut String, n: u64)
    ensures
        final(out)@ == old(out)@ + nat_digits(n as nat),
    decreases n,
{
    if n >= 10 {
        push_digits(out, n / 10);
    }
    let d: char = digit_to_char(n % 10);
    push_char(out, d);
    proof {
        if n < 10 {
            assert(n % 10 == n);
        }
    }
}

/// `n.to_string()` for an unsigned integer.
pub fn u64_text(n: u64) -> (r: String)
    ensures
        r@ == nat_digits(n as nat),
{
    let mut r = String::new();
    push_digits(&mut r, n);
    r
}

/// `n.to_string()` for a signed integer.
pub fn i64_text(n: i64) -> (r: String)
    ensures
        r@ == int_decimal(n as int),
{
    let mut r = String::new();
    if n < 0 {
        push_char(&mut r, '-');
        let m: i128 = -(n as i128);
        push_digits(&mut r, m as u64);
    } else {
        push_digits(&mut r, n as u64);
    }
    r
}

proof fn lemma_digits_take(s: Seq<char>, i: int)
    requires
        0 <= i < s.len(),
    ensures
        digits_value(s.take(i + 1)) == digits_value(s.take(i)) * 10 + digit_value(s[i]),
{
    assert(s.take(i + 1).drop_last() == s.take(i));
}

/// The value of the digits `body[from..]` read onto `acc`, or `None` once it passes
/// `limit`: reads a nonempty digit string and says whether its value stays within `limit`.
fn read_digits(body: &Vec<char>, from: usize, limit: u128) -> (r: Option<u128>)
    requires
        from <= body.len(),
        limit <= u64::MAX as u128 + 1,
    ensures
        match r {
            Some(v) => all_digits(body@.skip(from as int)) && v == digits_value(body@.skip(from as int))
                && v <= limit,
            None => !all_digits(body@.skip(from as int)) || digits_value(body@.skip(from as int)) > limit,
        },
{
    let ghost b = body@.skip(from as int);
    let mut acc: u128 = 0;
    let mut i: usize = from;
    while i < body.len()
        invariant
            from <= i <= body.len(),
            b == body@.skip(from as int),
            limit <= u64::MAX as u128 + 1,
            all_digits(b.take(i - from)),
            acc == digits_value(b.take(i - from)),
            acc <= limit,
        decreases body.len() - i,
    {
        let c = body[i];
        let code: u32 = c as u32;
        if code < 48 || code > 57 {
            assert(!is_digit(b[i - from]));
            return None;
        }
        proof {
            lemma_digits_take(b, i - from);
            assert(b.take(i - from + 1) == b.take(i - from).push(c));
        }
        acc = acc * 10 + ((code - 48) as u128);
        i = i + 1;
        if acc > limit {
            proof {
                lemma_digits_grow(b, i - from);
            }
            return None;
        }
    }
    assert(b.take(i - from) == b);
    Some(acc)
}

/// Appending digits never lowers the value: a digit string is worth at least
/// as much as each of its prefixes, once those prefixes are all digits.
proof fn lemma_digits_grow(b: Seq<char>, k: int)
    requires
        0 <= k <= b.len(),
    ensures
        all_digits(b) ==> digits_value(b) >= digits_value(b.take(k)),
    decreases b.len() - k,
{
    if k < b.len() {
        lemma_digits_grow(b, k + 1);
        lemma_digits_take(b, k);
    } else {
        assert(b.take(k) == b);
    }
}

/// `s.parse::<isize>()`.
pub fn parse_isize(s: &str) -> (r: Option<isize>)
    ensures
        r == isize_parse_spec(s@),
{
    let v = crate::text::chars_of(s);
    let n = v.len();
    if n > 0 && v[0] == '-' {
        if n == 1 {
            return None;
        }
        let limit: u128 = (isize::MAX as u128) + 1;
        assert(v@.drop_first() == v@.skip(1));
        match read_digits(&v, 1, limit) {
            Some(m) => {
                let neg: i128 = -(m as i128);
                Some(neg as isize)
            },
            None => None,
        }
    } else {
        let start: usize = if n > 0 && v[0] == '+' { 1 } else { 0 };
        if start == n {
            return None;
        }
        assert(v@.drop_first() == v@.skip(1));
        assert(v@ == v@.skip(0));
        let limit: u128 = isize::MAX as u128;
        match read_digits(&v, start, limit) {
            Some(m) => Some(m as isize),
            None => None,
        }
    }
}

/// `s.parse::<u64>()`.
pub fn parse_u64(s: &str) -> (r: Option<u64>)
    ensures
        r == u64_parse_spec(s@),
{
    let v = crate::text::chars_of(s);
    let n = v.len();
    let start: usize = if n > 0 && v[0] == '+' { 1 } else { 0 };
    if start == n {
        return None;
    }
    assert(v@.drop_first() == v@.skip(1));
    assert(v@ == v@.skip(0));
    match read_digits(&v, start, u64::MAX as u128) {
        Some(m) => Some(m as u64),
        None => None,
    }
}


proof fn lemma_digit_char(d: nat)
    requires
        d < 10,
    ensures
        is_digit(digit_char(d)),
        digit_value(digit_char(d)) == d,
{
}

/// The digits of `n` are a nonempty digit string whose value is `n`.
pub proof fn lemma_nat_digits(n: nat)
    ensures
        nat_digits(n).len() >= 1,
        all_digits(nat_digits(n)),
        digits_value(nat_digits(n)) == n,
    decreases n,
{
    if n < 10 {
        lemma_digit_char(n);
        assert(nat_digits(n).drop_last() == Seq::<char>::empty());
        assert(digits_value(Seq::<char>::empty()) == 0);
    } else {
        lemma_nat_digits(n / 10);
        lemma_digit_char(n % 10);
        let s = nat_digits(n);
        assert(s.drop_last() == nat_digits(n / 10));
        assert(s.last() == digit_char(n % 10));
        assert(digits_value(s) == digits_value(nat_digits(n / 10)) * 10 + digit_value(s.last()));
        assert((n / 10) * 10 + n % 10 == n);
        assert forall|i: int| 0 <= i < s.len() implies is_digit(#[trigger] s[i]) by {
            if i < s.len() - 1 {
                assert(s[i] == nat_digits(n / 10)[i]);
            }
        }
    }
}

/// Reading back what the bot prints: the decimal text of any `isize`
/// parses as that same `isize`.
pub proof fn law_isize_text_round_trip(n: isize)
    ensures
        isize_parse_spec(int_decimal(n as int)) == Some(n),
{
    if n < 0 {
        let m: nat = (-n) as nat;
        lemma_nat_digits(m);
        let s = int_decimal(n as int);
        assert(s.drop_first() == nat_digits(m));
    } else {
        lemma_nat_digits(n as nat);
        let s = nat_digits(n as nat);
        assert(is_digit(s[0]));
    }
}

/// Reading back what the bot prints: the decimal text of any `u64`
/// parses as that same `u64`.
pub proof fn law_u64_text_round_trip(n: u64)
    ensures
        u64_parse_spec(nat_digits(n as nat)) == Some(n),
{
    lemma_nat_digits(n as nat);
    assert(is_digit(nat_digits(n as nat)[0]));
}

} // verus!
