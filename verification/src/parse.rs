//! Numbers in text, lines, and fields between commas.
use crate::arith::wrap_signed;
use crate::text::{chars, digit_of, digit_value, number, trim, trimmed_chars};
use crate::types::{I256, U256};
use crate::vault_math::{wadd, wmul};
use vstd::prelude::*;

verus! {

/// The whole number that a text spells, if it lies between two bounds: decimal digits
/// after an optional sign. A minus sign is one only where a bound is negative.
pub open spec fn spelled(s: Seq<char>, min: int, max: int) -> Option<int> {
    let minus = s.len() > 0 && s[0] == '-' && min < 0;
    let plus = s.len() > 0 && s[0] == '+';
    let digits = if minus || plus {
        s.skip(1)
    } else {
        s
    };
    match number(digits, 10) {
        Some(n) => {
            let v = if minus {
                -n
            } else {
                n
            };
            if digits.len() > 0 && min <= v <= max {
                Some(v)
            } else {
                None
            }
        },
        None => None,
    }
}

proof fn number_bound(s: Seq<char>, k: int)
    requires
        0 <= k <= s.len(),
        number(s, 10) is Some,
    ensures
        number(s.take(k), 10) is Some,
        0 <= number(s.take(k), 10)->0 <= number(s, 10)->0,
    decreases s.len() - k,
{
    if k < s.len() {
        number_bound(s, k + 1);
        assert(s.take(k + 1).drop_last() =~= s.take(k));
        number_sign(s.take(k));
    } else {
        assert(s.take(k) =~= s);
        number_sign(s);
    }
}

proof fn number_sign(s: Seq<char>)
    requires
        number(s, 10) is Some,
    ensures
        number(s, 10)->0 >= 0,
    decreases s.len(),
{
    if s.len() > 0 {
        number_sign(s.drop_last());
    }
}

proof fn number_fails(s: Seq<char>, k: int)
    requires
        0 <= k <= s.len(),
        number(s.take(k), 10) is None,
    ensures
        number(s, 10) is None,
    decreases s.len() - k,
{
    if k < s.len() {
        assert(s.take(k + 1).drop_last() =~= s.take(k));
        number_fails(s, k + 1);
    } else {
        assert(s.take(k) =~= s);
    }
}

/// The number that `v[from], ..` spells, if it is at most `max`.
fn digits_from(v: &Vec<char>, from: usize, max: u64) -> (r: Option<u64>)
    requires
        from <= v.len(),
    ensures
        match r {
            Some(n) => number(v@.skip(from as int), 10) == Some(n as int) && n <= max,
            None => match number(v@.skip(from as int), 10) {
                Some(n) => n > max,
                None => true,
            },
        },
{
    let ghost s = v@.skip(from as int);
    let mut n: u64 = 0;
    let mut i: usize = from;
    assert(s.take(0) =~= Seq::<char>::empty());
    while i < v.len()
        invariant
            from <= i <= v.len(),
            s == v@.skip(from as int),
            number(s.take(i - from), 10) == Some(n as int),
            n <= max,
        decreases v.len() - i,
    {
        let ghost k = i - from;
        assert(s.take(k + 1).drop_last() =~= s.take(k));
        assert(s.take(k + 1).last() == v[i as int]);
        let d: u64 = match digit_of(v[i], 10) {
            Some(d) => d as u64,
            None => {
                proof {
                    number_fails(s, k + 1);
                }
                return None;
            },
        };
        if n as u128 * 10 + d as u128 > max as u128 {
            proof {
                if number(s, 10) is Some {
                    number_bound(s, k + 1);
                }
            }
            return None;
        }
        n = n * 10 + d;
        i = i + 1;
    }
    assert(s.take(v.len() - from) =~= s);
    Some(n)
}

/// The number that a text spells, if it is at most `max`.
pub fn parse_unsigned(s: &str, max: u64) -> (r: Option<u64>)
    ensures
        spelled(s@, 0, max as int) == (match r {
            Some(n) => Some(n as int),
            None => None,
        }),
{
    let v: Vec<char> = chars(s);
    if v.len() == 0 {
        return None;
    }
    let from: usize = if v[0] == '+' {
        1
    } else {
        0
    };
    assert(v@.skip(0) =~= v@);
    if from >= v.len() {
        return None;
    }
    let r: Option<u64> = digits_from(&v, from, max);
    proof {
        if number(v@.skip(from as int), 10) is Some {
            number_sign(v@.skip(from as int));
        }
    }
    r
}

/// The 64-bit number that characters spell.
pub fn parse_i64(v: &Vec<char>) -> (r: Option<i64>)
    ensures
        spelled(v@, i64::MIN as int, i64::MAX as int) == (match r {
            Some(n) => Some(n as int),
            None => None,
        }),
{
    if v.len() == 0 {
        return None;
    }
    let minus: bool = v[0] == '-';
    let from: usize = if minus || v[0] == '+' {
        1
    } else {
        0
    };
    assert(v@.skip(0) =~= v@);
    if from >= v.len() {
        return None;
    }
    proof {
        if number(v@.skip(from as int), 10) is Some {
            number_sign(v@.skip(from as int));
        }
    }
    if minus {
        match digits_from(v, from, 0x8000_0000_0000_0000) {
            Some(n) => if n == 0x8000_0000_0000_0000 {
                Some(i64::MIN)
            } else {
                Some(-(n as i64))
            },
            None => None,
        }
    } else {
        match digits_from(v, from, 0x7fff_ffff_ffff_ffff) {
            Some(n) => Some(n as i64),
            None => None,
        }
    }
}

/// The number modulo 2^256 that the decimal digits of a text spell. All other
/// characters are passed over.
pub open spec fn digits_value(s: Seq<char>) -> int
    decreases s.len(),
{
    if s.len() == 0 {
        0
    } else {
        match digit_value(s.last(), 10) {
            Some(d) => wadd(wmul(digits_value(s.drop_last()), 10), d),
            None => digits_value(s.drop_last()),
        }
    }
}

/// The signed number that the decimal digits of a text spell, negative where the text
/// begins with a minus sign.
pub open spec fn signed_digits_value(s: Seq<char>) -> int {
    let t = trim(s);
    if t.len() > 0 && t[0] == '-' {
        wrap_signed(-digits_value(t))
    } else {
        wrap_signed(digits_value(t))
    }
}

fn digits_of(v: &Vec<char>) -> (r: U256)
    ensures
        r@ == digits_value(v@),
{
    let mut r: U256 = U256::ZERO();
    let ten: U256 = U256::from_u64(10);
    let mut i: usize = 0;
    assert(v@.take(0) =~= Seq::<char>::empty());
    while i < v.len()
        invariant
            i <= v.len(),
            ten@ == 10,
            r@ == digits_value(v@.take(i as int)),
        decreases v.len() - i,
    {
        assert(v@.take(i + 1).drop_last() =~= v@.take(i as int));
        match digit_of(v[i], 10) {
            Some(d) => {
                r = r * ten + U256::from_u64(d as u64);
            },
            None => {},
        }
        i = i + 1;
    }
    assert(v@.take(v.len() as int) =~= v@);
    r
}

/// The number that the decimal digits of a text spell.
pub fn parse_u256(s: &str) -> (r: U256)
    ensures
        r@ == digits_value(trim(s@)),
{
    let v: Vec<char> = trimmed_chars(s);
    digits_of(&v)
}

/// The signed number that the decimal digits of a text spell.
pub fn parse_i256(s: &str) -> (r: I256)
    ensures
        r@ == signed_digits_value(s@),
{
    let v: Vec<char> = trimmed_chars(s);
    let magnitude: U256 = digits_of(&v);
    if v.len() > 0 && v[0] == '-' {
        crate::arb::signed(magnitude, true)
    } else {
        I256(magnitude)
    }
}

/// Whether a text comes before another one, by its characters.
pub open spec fn text_before(a: Seq<char>, b: Seq<char>) -> bool
    decreases a.len(),
{
    if b.len() == 0 {
        false
    } else if a.len() == 0 {
        true
    } else if a[0] != b[0] {
        a[0] < b[0]
    } else {
        text_before(a.skip(1), b.skip(1))
    }
}

/// Whether a text comes before another one.
pub fn precedes(a: &str, b: &str) -> (r: bool)
    ensures
        r == text_before(a@, b@),
{
    let x: Vec<char> = chars(a);
    let y: Vec<char> = chars(b);
    let mut i: usize = 0;
    assert(x@.skip(0) =~= x@);
    assert(y@.skip(0) =~= y@);
    while i < x.len() && i < y.len()
        invariant
            x@ == a@,
            y@ == b@,
            i <= x.len(),
            i <= y.len(),
            text_before(x@, y@) == text_before(x@.skip(i as int), y@.skip(i as int)),
        decreases x.len() - i,
    {
        if x[i] != y[i] {
            return x[i] < y[i];
        }
        assert(x@.skip(i as int).skip(1) =~= x@.skip(i + 1));
        assert(y@.skip(i as int).skip(1) =~= y@.skip(i + 1));
        i = i + 1;
    }
    i < y.len()
}

/// The text before the first occurrence of a character, or all of it.
pub open spec fn until(s: Seq<char>, c: char) -> Seq<char>
    decreases s.len(),
{
    if s.len() == 0 || s[0] == c {
        seq![]
    } else {
        seq![s[0]] + until(s.skip(1), c)
    }
}

/// The text behind the first occurrence of a character; `None` where there is none.
pub open spec fn behind(s: Seq<char>, c: char) -> Option<Seq<char>>
    decreases s.len(),
{
    if s.len() == 0 {
        None
    } else if s[0] == c {
        Some(s.skip(1))
    } else {
        behind(s.skip(1), c)
    }
}

/// The field `k` of a text with commas between the fields.
pub open spec fn field(s: Seq<char>, k: nat) -> Option<Seq<char>>
    decreases k,
{
    if k == 0 {
        Some(until(s, ','))
    } else {
        match behind(s, ',') {
            Some(rest) => field(rest, (k - 1) as nat),
            None => None,
        }
    }
}

/// The place of the first occurrence of a character from a place on, or the end.
fn find(v: &Vec<char>, from: usize, c: char) -> (r: usize)
    requires
        from <= v.len(),
    ensures
        from <= r <= v.len(),
        v@.subrange(from as int, r as int) == until(v@.skip(from as int), c),
        r < v.len() ==> behind(v@.skip(from as int), c) == Some(v@.skip(r + 1)),
        r == v.len() ==> behind(v@.skip(from as int), c) is None,
{
    let mut i: usize = from;
    let ghost s = v@.skip(from as int);
    assert(v@.subrange(from as int, from as int) + until(s, c) =~= until(s, c));
    while i < v.len() && v[i] != c
        invariant
            from <= i <= v.len(),
            s == v@.skip(from as int),
            v@.subrange(from as int, i as int) + until(v@.skip(i as int), c) == until(s, c),
            behind(v@.skip(i as int), c) == behind(s, c),
        decreases v.len() - i,
    {
        let ghost t = v@.skip(i as int);
        assert(t.skip(1) =~= v@.skip(i + 1));
        assert(v@.subrange(from as int, i as int) + (seq![t[0]] + until(t.skip(1), c))
            =~= v@.subrange(from as int, i + 1) + until(t.skip(1), c));
        i = i + 1;
    }
    assert(v@.subrange(from as int, i as int) + Seq::<char>::empty() =~= v@.subrange(
        from as int,
        i as int,
    ));
    if i < v.len() {
        assert(v@.skip(i as int).skip(1) =~= v@.skip(i + 1));
    }
    i
}

fn copy_part(v: &Vec<char>, from: usize, to: usize) -> (r: Vec<char>)
    requires
        from <= to <= v.len(),
    ensures
        r@ == v@.subrange(from as int, to as int),
{
    let mut out: Vec<char> = Vec::new();
    let mut i: usize = from;
    while i < to
        invariant
            from <= i <= to <= v.len(),
            out@ == v@.subrange(from as int, i as int),
        decreases to - i,
    {
        out.push(v[i]);
        i = i + 1;
        assert(out@ =~= v@.subrange(from as int, i as int));
    }
    out
}

/// The field `k` of characters with commas between the fields.
pub fn nth_field(v: &Vec<char>, k: usize) -> (r: Option<Vec<char>>)
    ensures
        field(v@, k as nat) == (match r {
            Some(x) => Some(x@),
            None => None,
        }),
{
    let mut from: usize = 0;
    let mut left: usize = k;
    assert(v@.skip(0) =~= v@);
    while left > 0
        invariant
            from <= v.len(),
            left <= k,
            field(v@, k as nat) == field(v@.skip(from as int), left as nat),
        decreases left,
    {
        let at: usize = find(v, from, ',');
        if at == v.len() {
            return None;
        }
        from = at + 1;
        left = left - 1;
    }
    let to: usize = find(v, from, ',');
    Some(copy_part(v, from, to))
}

/// A line without the carriage return that ends it.
pub open spec fn without_return(s: Seq<char>) -> Seq<char> {
    if s.len() > 0 && s.last() == '\r' {
        s.drop_last()
    } else {
        s
    }
}

/// The lines of a text. A line ends with a line feed, or with a carriage return and a
/// line feed; what follows the last line feed is a line unless it is empty.
pub open spec fn lines_of(s: Seq<char>) -> Seq<Seq<char>>
    decreases s.len(),
    via lines_decrease
{
    if s.len() == 0 {
        seq![]
    } else {
        match behind(s, '\n') {
            Some(rest) => seq![without_return(until(s, '\n'))] + lines_of(rest),
            None => seq![s],
        }
    }
}

#[via_fn]
proof fn lines_decrease(s: Seq<char>) {
    if s.len() > 0 {
        behind_shorter(s, '\n');
    }
}

proof fn behind_shorter(s: Seq<char>, c: char)
    ensures
        behind(s, c) matches Some(rest) ==> rest.len() < s.len(),
    decreases s.len(),
{
    if s.len() > 0 && s[0] != c {
        behind_shorter(s.skip(1), c);
    }
}

/// Texts by their characters.
pub open spec fn texts(v: Seq<Vec<char>>) -> Seq<Seq<char>> {
    Seq::new(v.len(), |i: int| v[i]@)
}

/// The lines of a text.
pub fn split_lines(s: &str) -> (r: Vec<Vec<char>>)
    ensures
        texts(r@) == lines_of(s@),
{
    let v: Vec<char> = chars(s);
    let mut out: Vec<Vec<char>> = Vec::new();
    let mut from: usize = 0;
    assert(v@.skip(0) =~= v@);
    assert(texts(out@) + lines_of(v@) =~= lines_of(v@));
    while from < v.len()
        invariant
            v@ == s@,
            from <= v.len(),
            texts(out@) + lines_of(v@.skip(from as int)) == lines_of(s@),
        decreases v.len() - from,
    {
        let at: usize = find(&v, from, '\n');
        let ghost rest = v@.skip(from as int);
        if at == v.len() {
            let line: Vec<char> = copy_part(&v, from, at);
            proof {
                assert(line@ =~= rest);
                assert(texts(out@.push(line)) =~= texts(out@) + lines_of(rest));
            }
            out.push(line);
            return out;
        }
        let to: usize = if at > from && v[at - 1] == '\r' {
            at - 1
        } else {
            at
        };
        let line: Vec<char> = copy_part(&v, from, to);
        proof {
            assert(line@ =~= without_return(until(rest, '\n')));
            assert(texts(out@.push(line)) + lines_of(v@.skip(at + 1)) =~= texts(out@) + lines_of(
                rest,
            ));
        }
        out.push(line);
        from = at + 1;
    }
    assert(texts(out@) + lines_of(v@.skip(from as int)) =~= texts(out@));
    out
}

} // verus!
