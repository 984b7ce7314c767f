//! Decimal and hexadecimal text, white space and string building.
use vstd::prelude::*;
use vstd::string::*;

verus! {

/// The digit character for `d` in `0 .. 10`.
pub open spec fn digit_char(d: int) -> char {
    (('0' as int) + d) as char
}

/// `n` in decimal, without leading zeros.
pub open spec fn dec(n: int) -> Seq<char>
    decreases n,
{
    if n < 10 {
        seq![digit_char(n)]
    } else {
        dec(n / 10).push(digit_char(n % 10))
    }
}

/// The last `k` decimal digits of `n`, zeros included.
pub open spec fn dec_padded(n: int, k: nat) -> Seq<char>
    decreases k,
{
    if k == 0 {
        seq![]
    } else {
        dec_padded(n / 10, (k - 1) as nat).push(digit_char(n % 10))
    }
}

/// `n` in decimal with a minus sign in front where it is negative.
pub open spec fn dec_signed(n: int) -> Seq<char> {
    if n < 0 {
        seq!['-'] + dec(-n)
    } else {
        dec(n)
    }
}

/// `10^k`.
pub open spec fn ten_pow(k: nat) -> int
    decreases k,
{
    if k == 0 {
        1
    } else {
        10 * ten_pow((k - 1) as nat)
    }
}

/// The value of a digit character in base 10 or 16; `None` for any other character.
pub open spec fn digit_value(c: char, base: int) -> Option<int> {
    if '0' <= c <= '9' {
        Some(c as int - '0' as int)
    } else if base == 16 && 'a' <= c <= 'f' {
        Some(c as int - 'a' as int + 10)
    } else if base == 16 && 'A' <= c <= 'F' {
        Some(c as int - 'A' as int + 10)
    } else {
        None
    }
}

/// The number that `s` spells in `base`, most significant digit first;
/// zero for the empty text, `None` where a character is no digit.
pub open spec fn number(s: Seq<char>, base: int) -> Option<int>
    decreases s.len(),
{
    if s.len() == 0 {
        Some(0)
    } else {
        match (number(s.drop_last(), base), digit_value(s.last(), base)) {
            (Some(n), Some(d)) => Some(n * base + d),
            _ => None,
        }
    }
}

/// The characters with Unicode's `White_Space` property.
pub open spec fn is_space(c: char) -> bool {
    let n = c as int;
    ||| 0x09 <= n <= 0x0D
    ||| n == 0x20
    ||| n == 0x85
    ||| n == 0xA0
    ||| n == 0x1680
    ||| 0x2000 <= n <= 0x200A
    ||| n == 0x2028
    ||| n == 0x2029
    ||| n == 0x202F
    ||| n == 0x205F
    ||| n == 0x3000
}

/// `s` without the white space in front.
pub open spec fn trim_front(s: Seq<char>) -> Seq<char>
    decreases s.len(),
{
    if s.len() > 0 && is_space(s[0]) {
        trim_front(s.skip(1))
    } else {
        s
    }
}

/// `s` without the white space behind.
pub open spec fn trim_back(s: Seq<char>) -> Seq<char>
    decreases s.len(),
{
    if s.len() > 0 && is_space(s.last()) {
        trim_back(s.drop_last())
    } else {
        s
    }
}

/// `s` without the white space around it.
pub open spec fn trim(s: Seq<char>) -> Seq<char> {
    trim_back(trim_front(s))
}

/// `s` without any number of copies of `0` followed by `x` in front.
pub open spec fn strip_radix(s: Seq<char>, x: char) -> Seq<char>
    decreases s.len(),
{
    if s.len() >= 2 && s[0] == '0' && s[1] == x {
        strip_radix(s.skip(2), x)
    } else {
        s
    }
}

/// The characters of `s`.
pub fn chars(s: &str) -> (r: Vec<char>)
    ensures
        r@ == s@,
{
    let mut out: Vec<char> = Vec::new();
    for c in it: s.chars()
        invariant
            it.seq() == s@,
            out@ == it.seq().take(it.index()),
    {
        out.push(c);
        assert(out@ =~= it.seq().take(it.index() + 1));
    }
    assert(s@.take(s@.len() as int) =~= s@);
    out
}

/// The characters `v[from], .., v[to - 1]` without the white space around them.
fn trimmed(v: &Vec<char>) -> (r: Vec<char>)
    ensures
        r@ == trim(v@),
{
    let mut from: usize = 0;
    assert(v@.skip(0) =~= v@);
    while from < v.len() && is_space_char(v[from])
        invariant
            from <= v.len(),
            trim_front(v@.skip(from as int)) == trim_front(v@),
        decreases v.len() - from,
    {
        assert(v@.skip(from as int).skip(1) =~= v@.skip(from + 1));
        from = from + 1;
    }
    let mut to: usize = v.len();
    let ghost front = v@.skip(from as int);
    assert(trim_front(front) == front);
    assert(front.take(v.len() - from) =~= front);
    while to > from && is_space_char(v[to - 1])
        invariant
            from <= to <= v.len(),
            front == v@.skip(from as int),
            trim_back(front.take(to - from)) == trim_back(front),
        decreases to,
    {
        assert(front.take(to - from).drop_last() =~= front.take(to - 1 - from));
        to = to - 1;
    }
    let mut out: Vec<char> = Vec::new();
    let mut i: usize = from;
    while i < to
        invariant
            from <= i <= to <= v.len(),
            out@ == v@.subrange(from as int, i as int),
        decreases to - i,
    {
        out.push(v[i]);
        i = i + 1;
        assert(out@ =~= v@.subrange(from as int, i as int));
    }
    assert(out@ =~= front.take(to - from));
    out
}

fn is_space_char(c: char) -> (r: bool)
    ensures
        r == is_space(c),
{
    let n: u32 = c as u32;
    (0x09 <= n && n <= 0x0D) || n == 0x20 || n == 0x85 || n == 0xA0 || n == 0x1680 || (0x2000 <= n
        && n <= 0x200A) || n == 0x2028 || n == 0x2029 || n == 0x202F || n == 0x205F || n == 0x3000
}

/// The characters of `s` without the white space around them.
pub fn trimmed_chars(s: &str) -> (r: Vec<char>)
    ensures
        r@ == trim(s@),
{
    let v: Vec<char> = chars(s);
    trimmed(&v)
}

/// `v` without any number of copies of `0` followed by `x` in front.
pub fn stripped_radix(v: &Vec<char>, x: char) -> (r: Vec<char>)
    ensures
        r@ == strip_radix(v@, x),
{
    let mut from: usize = 0;
    assert(v@.skip(0) =~= v@);
    while v.len() - from >= 2 && v[from] == '0' && v[from + 1] == x
        invariant
            from <= v.len(),
            strip_radix(v@.skip(from as int), x) == strip_radix(v@, x),
        decreases v.len() - from,
    {
        assert(v@.skip(from as int).skip(2) =~= v@.skip(from + 2));
        from = from + 2;
    }
    let mut out: Vec<char> = Vec::new();
    let mut i: usize = from;
    while i < v.len()
        invariant
            from <= i <= v.len(),
            out@ == v@.subrange(from as int, i as int),
        decreases v.len() - i,
    {
        out.push(v[i]);
        i = i + 1;
        assert(out@ =~= v@.subrange(from as int, i as int));
    }
    assert(out@ =~= v@.skip(from as int));
    out
}

/// The value of a digit character.
pub fn digit_of(c: char, base: u32) -> (r: Option<u32>)
    requires
        base == 10 || base == 16,
    ensures
        r matches Some(d) ==> d < base && digit_value(c, base as int) == Some(d as int),
        r is None ==> digit_value(c, base as int) is None,
{
    let n: u32 = c as u32;
    if '0' <= c && c <= '9' {
        Some(n - 48)
    } else if base == 16 && 'a' <= c && c <= 'f' {
        Some(n - 87)
    } else if base == 16 && 'A' <= c && c <= 'F' {
        Some(n - 55)
    } else {
        None
    }
}

fn digit_str(d: u64) -> (r: &'static str)
    requires
        d < 10,
    ensures
        r@ == seq![digit_char(d as int)],
{
    proof {
        reveal_strlit("0");
        reveal_strlit("1");
        reveal_strlit("2");
        reveal_strlit("3");
        reveal_strlit("4");
        reveal_strlit("5");
        reveal_strlit("6");
        reveal_strlit("7");
        reveal_strlit("8");
        reveal_strlit("9");
    }
    let r = match d {
        0 => "0",
        1 => "1",
        2 => "2",
        3 => "3",
        4 => "4",
        5 => "5",
        6 => "6",
        7 => "7",
        8 => "8",
        _ => "9",
    };
    assert(r@ =~= seq![digit_char(d as int)]);
    r
}

/// Appends `n` in decimal.
pub fn push_dec(out: &mut String, n: u64)
    ensures
        final(out)@ == old(out)@ + dec(n as int),
    decreases n,
{
    let ghost start = out@;
    if n >= 10 {
        push_dec(out, n / 10);
    }
    out.append(digit_str(n % 10));
    assert(out@ =~= start + dec(n as int));
}

/// Appends the last `k` decimal digits of `n`.
pub fn push_dec_padded(out: &mut String, n: u64, k: usize)
    ensures
        final(out)@ == old(out)@ + dec_padded(n as int, k as nat),
    decreases k,
{
    let ghost start = out@;
    if k > 0 {
        push_dec_padded(out, n / 10, k - 1);
        out.append(digit_str(n % 10));
    }
    assert(out@ =~= start + dec_padded(n as int, k as nat));
}

/// Appends `n` in decimal with its sign.
pub fn push_dec_i64(out: &mut String, n: i64)
    ensures
        final(out)@ == old(out)@ + dec_signed(n as int),
{
    let ghost start = out@;
    if n < 0 {
        proof {
            reveal_strlit("-");
        }
        out.append("-");
        push_dec(out, (-(n + 1)) as u64 + 1);
        assert("-"@ =~= seq!['-']);
        assert(out@ =~= start + dec_signed(n as int));
    } else {
        push_dec(out, n as u64);
    }
}

/// Splitting a number at a power of ten splits its decimal text.
pub proof fn dec_split(q: int, r: int, k: nat)
    requires
        q > 0,
        0 <= r < ten_pow(k),
    ensures
        dec(q * ten_pow(k) + r) == dec(q) + dec_padded(r, k),
    decreases k,
{
    let n = q * ten_pow(k) + r;
    if k == 0 {
        assert(dec(q) + dec_padded(r, k) =~= dec(q));
    } else {
        let t = ten_pow((k - 1) as nat);
        assert(ten_pow(k) == 10 * t);
        assert(t >= 1) by {
            ten_pow_pos((k - 1) as nat);
        }
        assert(n == 10 * (q * t) + r) by (nonlinear_arith)
            requires
                n == q * (10 * t) + r,
        ;
        assert(q * t >= 1) by (nonlinear_arith)
            requires
                q > 0,
                t >= 1,
        ;
        assert(n / 10 == q * t + r / 10 && n % 10 == r % 10);
        dec_split(q, r / 10, (k - 1) as nat);
        assert(dec(n) =~= dec(q) + dec_padded(r, k));
    }
}

pub proof fn ten_pow_pos(k: nat)
    ensures
        ten_pow(k) >= 1,
    decreases k,
{
    if k > 0 {
        ten_pow_pos((k - 1) as nat);
    }
}

/// Reading a decimal text back gives the number, and the text is all digits.
pub proof fn dec_reads_back(n: int)
    requires
        n >= 0,
    ensures
        number(dec(n), 10) == Some(n),
        dec(n).len() > 0,
        forall|i: int| 0 <= i < dec(n).len() ==> '0' <= #[trigger] dec(n)[i] <= '9',
    decreases n,
{
    reveal_with_fuel(number, 2);
    if n < 10 {
        assert(dec(n).drop_last() =~= Seq::<char>::empty());
    } else {
        dec_reads_back(n / 10);
        assert(dec(n).drop_last() =~= dec(n / 10));
        assert(dec(n).last() == digit_char(n % 10));
    }
}

/// A text that neither starts nor ends with white space is its own trimmed text.
pub proof fn trim_of_solid(s: Seq<char>)
    requires
        s.len() > 0 ==> !is_space(s[0]) && !is_space(s.last()),
    ensures
        trim(s) == s,
{
}

/// `String::push` of the standard library appends a character.
pub assume_specification[ String::push ](s: &mut String, c: char)
    ensures
        final(s)@ == old(s)@.push(c),
;

/// The text of some characters.
pub fn text_of(v: &Vec<char>) -> (r: String)
    ensures
        r@ == v@,
{
    let mut out: String = String::new();
    let mut i: usize = 0;
    assert(v@.take(0) =~= Seq::<char>::empty());
    while i < v.len()
        invariant
            i <= v.len(),
            out@ == v@.take(i as int),
        decreases v.len() - i,
    {
        out.push(v[i]);
        i = i + 1;
        assert(out@ =~= v@.take(i as int));
    }
    assert(v@.take(v.len() as int) =~= v@);
    out
}

/// Whether two texts are equal.
pub fn same_text(a: &str, b: &str) -> (r: bool)
    ensures
        r == (a@ == b@),
{
    let x: String = a.to_owned();
    let y: String = b.to_owned();
    x == y
}

/// The upper-case form of a text.
pub uninterp spec fn uppercase(s: Seq<char>) -> Seq<char>;

/// The lower-case form of a text.
pub uninterp spec fn lowercase(s: Seq<char>) -> Seq<char>;

/// Calls `str::to_uppercase` of the standard library. Its result, the text mapped
/// by Unicode's upper-case rules, is named `uppercase` and left otherwise unsaid.
#[verifier::external_body]
pub(crate) fn to_upper(s: &str) -> (r: String)
    ensures
        r@ == uppercase(s@),
{
    s.to_uppercase()
}

/// Calls `str::to_lowercase` of the standard library. Its result, the text mapped
/// by Unicode's lower-case rules, is named `lowercase` and left otherwise unsaid.
#[verifier::external_body]
pub(crate) fn to_lower(s: &str) -> (r: String)
    ensures
        r@ == lowercase(s@),
{
    s.to_lowercase()
}

} // verus!
