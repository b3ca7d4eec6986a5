//! Text helpers shared by the library: decimal rendering, whitespace
//! trimming, integer parsing and substring replacement, each stated over
//! `Seq<char>` views.

use vstd::prelude::*;
use vstd::string::*;
use vstd::utf8::*;

verus! {

/// Appends one character to a `String`.
///
/// Trusted: calls `String::push`, whose documentation says it appends the
/// given char to the end of the string.
#[verifier::external_body]
pub(crate) fn push_char(s: &mut String, c: char)
    ensures
        final(s)@ == old(s)@.push(c),
{
    s.push(c);
}

/// Appends a string slice to a `String`.
pub fn push_str(s: &mut String, t: &str)
    ensures
        final(s)@ == old(s)@ + t@,
{
    s.append(t);
}

/// Copies a `&str` into a fresh `String`.
pub fn to_owned_string(t: &str) -> (r: String)
    ensures
        r@ == t@,
{
    String::from_str(t)
}

/// The character for a decimal digit.
pub open spec fn digit_char(d: nat) -> char {
    (48 + d) as char
}

/// The decimal digits of `n`, without sign or leading zeros ("0" for zero).
pub open spec fn decimal(n: nat) -> Seq<char>
    decreases n,
{
    if n < 10 {
        seq![digit_char(n)]
    } else {
        decimal(n / 10).push(digit_char(n % 10))
    }
}

/// `s` preceded by as many '0' characters as needed to reach `width`.
pub open spec fn zero_pad(s: Seq<char>, width: nat) -> Seq<char> {
    if s.len() < width {
        Seq::new((width - s.len()) as nat, |i: int| '0') + s
    } else {
        s
    }
}

/// Signed decimal rendering, as `i64::to_string` gives it.
pub open spec fn signed_decimal(n: int) -> Seq<char> {
    if n < 0 {
        seq!['-'] + decimal((-n) as nat)
    } else {
        decimal(n as nat)
    }
}

pub proof fn lemma_decimal_nonempty(n: nat)
    ensures
        decimal(n).len() >= 1,
    decreases n,
{
    if n >= 10 {
        lemma_decimal_nonempty(n / 10);
    }
}

/// The decimal digits of `n` read back as digits give `n`; a number of at
/// least four digits' size is written with at least four.
pub proof fn lemma_decimal_digits(n: nat)
    ensures
        all_digits(decimal(n)),
        digits_value(decimal(n)) == n,
        n < 10 ==> decimal(n).len() == 1,
        10 <= n < 100 ==> decimal(n).len() == 2,
        n >= 1000 ==> decimal(n).len() >= 4,
    decreases n,
{
    let c = digit_char(n % 10);
    assert((c as u32) == 48 + n % 10);
    if n < 10 {
        assert(decimal(n) =~= seq![c]);
        assert(decimal(n).drop_last() =~= Seq::<char>::empty());
        assert(decimal(n).last() == c);
        assert(digits_value(decimal(n)) == digits_value(decimal(n).drop_last()) * 10 + ((c as u32) - 48) as nat);
    } else {
        lemma_decimal_digits(n / 10);
        let p = decimal(n / 10);
        assert(decimal(n) == p.push(c));
        assert(decimal(n).drop_last() =~= p);
        assert(decimal(n).last() == c);
        assert(digits_value(decimal(n)) == digits_value(p) * 10 + ((c as u32) - 48) as nat);
        assert forall|i: int| 0 <= i < decimal(n).len() implies is_digit(#[trigger] decimal(n)[i]) by {
            if i < p.len() {
                assert(decimal(n)[i] == p[i]);
            }
        }
        assert(n == (n / 10) * 10 + n % 10);
        if n >= 1000 {
            assert(n / 10 >= 100);
            lemma_decimal_digits(n / 100);
        }
    }
}

/// A number under a hundred, zero-padded to two places, is two digits that
/// read back as the number.
pub proof fn lemma_pad2(n: nat)
    requires
        n < 100,
    ensures
        zero_pad(decimal(n), 2).len() == 2,
        all_digits(zero_pad(decimal(n), 2)),
        digits_value(zero_pad(decimal(n), 2)) == n,
{
    lemma_decimal_digits(n);
    let z = zero_pad(decimal(n), 2);
    if n < 10 {
        assert(z =~= seq!['0', decimal(n)[0]]);
        assert(z.drop_last() =~= seq!['0']);
        assert(seq!['0'].drop_last() =~= Seq::<char>::empty());
        assert(decimal(n).drop_last() =~= Seq::<char>::empty());
        assert(is_digit(decimal(n)[0]));
        assert(decimal(n)[0] == decimal(n).last());
        assert(z.last() == decimal(n)[0]);
        assert(digits_value(seq!['0']) == digits_value(Seq::<char>::empty()) * 10 + ((('0' as char) as u32) - 48) as nat);
        assert(digits_value(z) == digits_value(seq!['0']) * 10 + ((z.last() as u32) - 48) as nat);
        assert(digits_value(decimal(n)) == digits_value(Seq::<char>::empty()) * 10 + ((decimal(n).last() as u32) - 48) as nat);
    } else {
        assert(z == decimal(n));
    }
}

fn digit(d: u64) -> (c: char)
    requires
        d < 10,
    ensures
        c == digit_char(d as nat),
{
    let b: u8 = 48u8 + (d as u8);
    b as char
}

/// Appends the decimal digits of `n`.
pub fn push_decimal(s: &mut String, n: u64)
    ensures
        final(s)@ == old(s)@ + decimal(n as nat),
    decreases n,
{
    if n >= 10 {
        push_decimal(s, n / 10);
    }
    push_char(s, digit(n % 10));
    proof {
        if n >= 10 {
            assert(decimal(n as nat) == decimal((n / 10) as nat).push(digit_char((n % 10) as nat)));
        }
    }
}

/// The decimal rendering of `n`, as `u64::to_string` gives it.
pub fn u64_to_string(n: u64) -> (r: String)
    ensures
        r@ == decimal(n as nat),
{
    let mut s = String::new();
    push_decimal(&mut s, n);
    assert(s@ =~= decimal(n as nat));
    s
}

/// The decimal rendering of `n`, as `i64::to_string` gives it.
pub fn i64_to_string(n: i64) -> (r: String)
    ensures
        r@ == signed_decimal(n as int),
{
    let mut s = String::new();
    if n < 0 {
        push_char(&mut s, '-');
        let m: i128 = -(n as i128);
        push_decimal(&mut s, m as u64);
        assert(s@ =~= signed_decimal(n as int));
    } else {
        push_decimal(&mut s, n as u64);
        assert(s@ =~= signed_decimal(n as int));
    }
    s
}

/// Appends `n` in decimal, left-padded with zeros to `width` characters,
/// as the format specifier `{:0width}` renders an unsigned integer.
pub fn push_padded(s: &mut String, n: u64, width: usize)
    ensures
        final(s)@ == old(s)@ + zero_pad(decimal(n as nat), width as nat),
{
    let digits = u64_to_string(n);
    let len = digits.unicode_len();
    let ghost start = s@;
    if len < width {
        let pad = width - len;
        let mut i: usize = 0;
        while i < pad
            invariant
                i <= pad,
                pad == width - len,
                s@ == start + Seq::new(i as nat, |j: int| '0'),
            decreases pad - i,
        {
            push_char(s, '0');
            i = i + 1;
            assert(s@ =~= start + Seq::new(i as nat, |j: int| '0'));
        }
        push_str(s, digits.as_str());
        assert(s@ =~= start + zero_pad(decimal(n as nat), width as nat));
    } else {
        push_str(s, digits.as_str());
    }
}

/// Whitespace as `char::is_whitespace` defines it: the Unicode
/// `White_Space` property.
pub open spec fn is_ws(c: char) -> bool {
    let u = c as u32;
    (0x09 <= u && u <= 0x0d) || u == 0x20 || u == 0x85 || u == 0xa0 || u == 0x1680 || (0x2000
        <= u && u <= 0x200a) || u == 0x2028 || u == 0x2029 || u == 0x202f || u == 0x205f || u
        == 0x3000
}

/// `char::is_whitespace`.
pub fn is_whitespace(c: char) -> (b: bool)
    ensures
        b == is_ws(c),
{
    let u = c as u32;
    (0x09 <= u && u <= 0x0d) || u == 0x20 || u == 0x85 || u == 0xa0 || u == 0x1680 || (0x2000
        <= u && u <= 0x200a) || u == 0x2028 || u == 0x2029 || u == 0x202f || u == 0x205f || u
        == 0x3000
}

/// Number of leading whitespace characters of `s`.
pub open spec fn lead_ws(s: Seq<char>) -> nat
    decreases s.len(),
{
    if s.len() > 0 && is_ws(s[0]) {
        1 + lead_ws(s.drop_first())
    } else {
        0
    }
}

/// Number of trailing whitespace characters of `s`.
pub open spec fn trail_ws(s: Seq<char>) -> nat
    decreases s.len(),
{
    if s.len() > 0 && is_ws(s.last()) {
        1 + trail_ws(s.drop_last())
    } else {
        0
    }
}

/// `str::trim`: `s` without leading and trailing whitespace.
pub open spec fn trim(s: Seq<char>) -> Seq<char> {
    let a = s.skip(lead_ws(s) as int);
    a.take(a.len() - trail_ws(a))
}

pub proof fn lemma_lead_ws_bound(s: Seq<char>)
    ensures
        lead_ws(s) <= s.len(),
        forall|i: int| 0 <= i < lead_ws(s) ==> is_ws(#[trigger] s[i]),
        lead_ws(s) < s.len() ==> !is_ws(s[lead_ws(s) as int]),
    decreases s.len(),
{
    if s.len() > 0 && is_ws(s[0]) {
        lemma_lead_ws_bound(s.drop_first());
        assert forall|i: int| 0 <= i < lead_ws(s) implies is_ws(#[trigger] s[i]) by {
            if i > 0 {
                assert(s[i] == s.drop_first()[i - 1]);
            }
        }
    }
}

pub proof fn lemma_trail_ws_bound(s: Seq<char>)
    ensures
        trail_ws(s) <= s.len(),
        forall|i: int| s.len() - trail_ws(s) <= i < s.len() ==> is_ws(#[trigger] s[i]),
        trail_ws(s) < s.len() ==> !is_ws(s[s.len() - trail_ws(s) - 1]),
    decreases s.len(),
{
    if s.len() > 0 && is_ws(s.last()) {
        lemma_trail_ws_bound(s.drop_last());
        assert forall|i: int| s.len() - trail_ws(s) <= i < s.len() implies is_ws(#[trigger] s[i]) by {
            if i < s.len() - 1 {
                assert(s[i] == s.drop_last()[i]);
            }
        }
    }
}

/// Characterizes `lead_ws` by its defining property.
pub proof fn lemma_lead_ws_unique(s: Seq<char>, k: nat)
    requires
        k <= s.len(),
        forall|i: int| 0 <= i < k ==> is_ws(#[trigger] s[i]),
        k < s.len() ==> !is_ws(s[k as int]),
    ensures
        lead_ws(s) == k,
    decreases s.len(),
{
    if k > 0 {
        assert(is_ws(s[0]));
        assert forall|i: int| 0 <= i < k - 1 implies is_ws(#[trigger] s.drop_first()[i]) by {
            assert(s.drop_first()[i] == s[i + 1]);
        }
        if k - 1 < s.drop_first().len() {
            assert(s.drop_first()[k - 1] == s[k as int]);
        }
        lemma_lead_ws_unique(s.drop_first(), (k - 1) as nat);
    }
}

/// Characterizes `trail_ws` by its defining property.
pub proof fn lemma_trail_ws_unique(s: Seq<char>, k: nat)
    requires
        k <= s.len(),
        forall|i: int| s.len() - k <= i < s.len() ==> is_ws(#[trigger] s[i]),
        k < s.len() ==> !is_ws(s[s.len() - k - 1]),
    ensures
        trail_ws(s) == k,
    decreases s.len(),
{
    if k > 0 {
        assert(is_ws(s.last()));
        let t = s.drop_last();
        assert forall|i: int| t.len() - (k - 1) <= i < t.len() implies is_ws(#[trigger] t[i]) by {
            assert(t[i] == s[i]);
        }
        if k - 1 < t.len() {
            assert(t[t.len() - (k - 1) - 1] == s[s.len() - k - 1]);
        }
        lemma_trail_ws_unique(t, (k - 1) as nat);
    }
}

/// Character bounds `(start, end)` of `trim(s@)` inside `s@`.
pub fn trim_bounds(s: &str) -> (r: (usize, usize))
    ensures
        r.0 <= r.1 <= s@.len(),
        r.0 == lead_ws(s@),
        s@.subrange(r.0 as int, r.1 as int) == trim(s@),
{
    let n = s.unicode_len();
    let mut a: usize = 0;
    while a < n && is_whitespace(s.get_char(a))
        invariant
            a <= n,
            n == s@.len(),
            forall|i: int| 0 <= i < a ==> is_ws(#[trigger] s@[i]),
        decreases n - a,
    {
        a = a + 1;
    }
    proof {
        lemma_lead_ws_unique(s@, a as nat);
    }
    let mut b: usize = n;
    while b > a && is_whitespace(s.get_char(b - 1))
        invariant
            a <= b <= n,
            n == s@.len(),
            forall|i: int| b <= i < n ==> is_ws(#[trigger] s@[i]),
        decreases b - a,
    {
        b = b - 1;
    }
    proof {
        let t = s@.skip(a as int);
        assert forall|i: int| t.len() - (n - b) <= i < t.len() implies is_ws(#[trigger] t[i]) by {
            assert(t[i] == s@[i + a]);
        }
        if (n - b) < t.len() {
            assert(t[t.len() - (n - b) - 1] == s@[b - 1]);
        }
        lemma_trail_ws_unique(t, (n - b) as nat);
        assert(s@.subrange(a as int, b as int) =~= trim(s@));
    }
    (a, b)
}

/// `str::trim`, returning an owned copy.
pub fn trim_string(s: &str) -> (r: String)
    ensures
        r@ == trim(s@),
{
    let (a, b) = trim_bounds(s);
    let t = s.substring_char(a, b);
    String::from_str(t)
}

/// `s.trim().is_empty()`.
pub fn is_blank(s: &str) -> (b: bool)
    ensures
        b == (trim(s@).len() == 0),
{
    let (a, c) = trim_bounds(s);
    a == c
}

/// Whether `p` occurs in `s` at character position `i`.
pub open spec fn occurs_at(s: Seq<char>, p: Seq<char>, i: int) -> bool {
    0 <= i && i + p.len() <= s.len() && s.subrange(i, i + p.len()) == p
}

/// `str::starts_with` for a string pattern.
pub open spec fn starts_with(s: Seq<char>, p: Seq<char>) -> bool {
    occurs_at(s, p, 0)
}

/// Whether `p` occurs at position `i` of `s`, decided by comparison.
pub fn matches_at(s: &str, p: &str, i: usize) -> (b: bool)
    requires
        i <= s@.len(),
    ensures
        b == occurs_at(s@, p@, i as int),
{
    let n = s.unicode_len();
    let m = p.unicode_len();
    if m > n - i {
        return false;
    }
    let mut k: usize = 0;
    while k < m
        invariant
            k <= m,
            m == p@.len(),
            n == s@.len(),
            i + m <= n,
            forall|j: int| 0 <= j < k ==> s@[i + j] == p@[j],
        decreases m - k,
    {
        if s.get_char(i + k) != p.get_char(k) {
            assert(s@.subrange(i as int, i + m)[k as int] != p@[k as int]);
            return false;
        }
        k = k + 1;
    }
    assert(s@.subrange(i as int, i + m) =~= p@);
    true
}

/// Whether `p` occurs anywhere in `s`.
pub open spec fn occurs_in(s: Seq<char>, p: Seq<char>) -> bool {
    exists|i: int| occurs_at(s, p, i)
}

/// `str::contains` for a string pattern, decided by comparison at each
/// position.
pub fn contains_str(s: &str, p: &str) -> (b: bool)
    ensures
        b == occurs_in(s@, p@),
{
    let n = s.unicode_len();
    let mut i: usize = 0;
    loop
        invariant
            i <= n,
            n == s@.len(),
            forall|j: int| 0 <= j < i ==> !#[trigger] occurs_at(s@, p@, j),
        decreases n - i,
    {
        if matches_at(s, p, i) {
            return true;
        }
        if i == n {
            assert forall|j: int| !#[trigger] occurs_at(s@, p@, j) by {
                if j > n as int {
                    assert(!(j + p@.len() <= s@.len()));
                }
            }
            return false;
        }
        i = i + 1;
    }
}

/// `str::starts_with`.
pub fn has_prefix(s: &str, p: &str) -> (b: bool)
    ensures
        b == starts_with(s@, p@),
{
    matches_at(s, p, 0)
}

/// `str::replace`: every non-overlapping occurrence of `p`, scanning from the
/// left, replaced by `r`. An empty pattern matches before every character
/// and at the end.
pub open spec fn replace_all(s: Seq<char>, p: Seq<char>, r: Seq<char>) -> Seq<char>
    decreases s.len(), 1int,
{
    if p.len() == 0 {
        replace_empty(s, r)
    } else {
        replace_from(s, p, r)
    }
}

/// Replacement of the empty pattern: `r` before each character and at the end.
pub open spec fn replace_empty(s: Seq<char>, r: Seq<char>) -> Seq<char>
    decreases s.len(),
{
    if s.len() == 0 {
        r
    } else {
        r + seq![s[0]] + replace_empty(s.drop_first(), r)
    }
}

/// Replacement of a non-empty pattern, scanning from the start of `s`.
pub open spec fn replace_from(s: Seq<char>, p: Seq<char>, r: Seq<char>) -> Seq<char>
    decreases s.len(),
{
    if s.len() == 0 || p.len() == 0 {
        s
    } else if occurs_at(s, p, 0) {
        r + replace_from(s.skip(p.len() as int), p, r)
    } else {
        seq![s[0]] + replace_from(s.drop_first(), p, r)
    }
}

proof fn lemma_replace_from_step(s: Seq<char>, p: Seq<char>, r: Seq<char>, i: int, acc: Seq<char>)
    requires
        p.len() > 0,
        0 <= i < s.len(),
    ensures
        occurs_at(s, p, i) ==> replace_from(s.skip(i), p, r) == r + replace_from(s.skip(i + p.len()), p, r),
        !occurs_at(s, p, i) ==> replace_from(s.skip(i), p, r) == seq![s[i]] + replace_from(s.skip(i + 1), p, r),
{
    let t = s.skip(i);
    assert(t.len() > 0);
    if occurs_at(s, p, i) {
        assert(t.subrange(0, p.len() as int) =~= s.subrange(i, i + p.len()));
        assert(t.skip(p.len() as int) =~= s.skip(i + p.len()));
    } else {
        if occurs_at(t, p, 0) {
            assert(t.subrange(0, p.len() as int) =~= s.subrange(i, i + p.len()));
        }
        assert(t.drop_first() =~= s.skip(i + 1));
    }
}

/// Replacing a non-empty pattern that does not occur leaves the text as it
/// is.
pub proof fn lemma_replace_absent(s: Seq<char>, p: Seq<char>, r: Seq<char>)
    requires
        p.len() > 0,
        forall|i: int| !#[trigger] occurs_at(s, p, i),
    ensures
        replace_all(s, p, r) == s,
    decreases s.len(),
{
    if s.len() > 0 {
        assert(!occurs_at(s, p, 0));
        let t = s.drop_first();
        assert forall|i: int| !#[trigger] occurs_at(t, p, i) by {
            if occurs_at(t, p, i) {
                assert(s.subrange(i + 1, i + 1 + p.len()) =~= t.subrange(i, i + p.len()));
                assert(occurs_at(s, p, i + 1));
            }
        }
        lemma_replace_absent(t, p, r);
        assert(seq![s[0]] + t =~= s);
    }
}

/// `str::replace` (`s.replace(p, r)`), written out over characters.
pub fn replace(s: &str, p: &str, r: &str) -> (out: String)
    ensures
        out@ == replace_all(s@, p@, r@),
{
    let n = s.unicode_len();
    let m = p.unicode_len();
    let mut out = String::new();
    if m == 0 {
        let mut i: usize = 0;
        assert(s@.skip(0) =~= s@);
        assert(out@ + replace_empty(s@.skip(0), r@) =~= replace_all(s@, p@, r@));
        while i < n
            invariant
                i <= n,
                n == s@.len(),
                p@.len() == 0,
                out@ + replace_empty(s@.skip(i as int), r@) == replace_all(s@, p@, r@),
            decreases n - i,
        {
            let ghost prev = out@;
            proof {
                assert(s@.skip(i as int).drop_first() =~= s@.skip(i + 1));
            }
            push_str(&mut out, r);
            push_char(&mut out, s.get_char(i));
            assert(out@ =~= prev + r@ + seq![s@[i as int]]);
            i = i + 1;
        }
        push_str(&mut out, r);
        assert(s@.skip(n as int) =~= Seq::<char>::empty());
        return out;
    }
    let mut i: usize = 0;
    assert(s@.skip(0) =~= s@);
    while i < n
        invariant
            i <= n,
            n == s@.len(),
            m == p@.len(),
            m > 0,
            out@ + replace_from(s@.skip(i as int), p@, r@) == replace_all(s@, p@, r@),
        decreases n - i,
    {
        let ghost prev = out@;
        proof {
            lemma_replace_from_step(s@, p@, r@, i as int, out@);
        }
        if matches_at(s, p, i) {
            push_str(&mut out, r);
            assert(out@ + replace_from(s@.skip(i + m), p@, r@) =~= prev + (r@ + replace_from(s@.skip(i + m), p@, r@)));
            i = i + m;
        } else {
            push_char(&mut out, s.get_char(i));
            assert(out@ + replace_from(s@.skip(i + 1), p@, r@) =~= prev + (seq![s@[i as int]] + replace_from(s@.skip(i + 1), p@, r@)));
            i = i + 1;
        }
    }
    assert(s@.skip(n as int).len() == 0);
    assert(out@ =~= replace_all(s@, p@, r@));
    out
}

/// Value of a run of ASCII decimal digits (most significant first).
pub open spec fn digits_value(s: Seq<char>) -> nat
    decreases s.len(),
{
    if s.len() == 0 {
        0
    } else {
        digits_value(s.drop_last()) * 10 + ((s.last() as u32) - 48) as nat
    }
}

pub open spec fn is_digit(c: char) -> bool {
    '0' <= c && c <= '9'
}

pub open spec fn all_digits(s: Seq<char>) -> bool {
    s.len() > 0 && forall|i: int| 0 <= i < s.len() ==> is_digit(#[trigger] s[i])
}

/// The integer that `s` denotes as `FromStr` for a signed integer reads it:
/// an optional `+` or `-` followed by at least one ASCII digit.
pub open spec fn signed_value(s: Seq<char>) -> Option<int> {
    if s.len() > 0 && s[0] == '-' && all_digits(s.drop_first()) {
        Some(-(digits_value(s.drop_first()) as int))
    } else if s.len() > 0 && s[0] == '+' && all_digits(s.drop_first()) {
        Some(digits_value(s.drop_first()) as int)
    } else if all_digits(s) {
        Some(digits_value(s) as int)
    } else {
        None
    }
}

/// The integer that `s` denotes as `FromStr` for an unsigned integer reads
/// it: an optional `+` followed by at least one ASCII digit.
pub open spec fn unsigned_value(s: Seq<char>) -> Option<nat> {
    if s.len() > 0 && s[0] == '+' && all_digits(s.drop_first()) {
        Some(digits_value(s.drop_first()))
    } else if all_digits(s) {
        Some(digits_value(s))
    } else {
        None
    }
}

/// `str::parse::<i64>`: `Some` exactly when `s` is a signed decimal in range.
pub open spec fn parse_i64_spec(s: Seq<char>) -> Option<i64> {
    match signed_value(s) {
        Some(v) => if i64::MIN <= v <= i64::MAX {
            Some(v as i64)
        } else {
            None
        },
        None => None,
    }
}

/// `str::parse::<u16>`: `Some` exactly when `s` is an unsigned decimal in range.
pub open spec fn parse_u16_spec(s: Seq<char>) -> Option<u16> {
    match unsigned_value(s) {
        Some(v) => if v <= u16::MAX {
            Some(v as u16)
        } else {
            None
        },
        None => None,
    }
}

proof fn lemma_digits_value_prefix(s: Seq<char>, i: int)
    requires
        0 <= i < s.len(),
    ensures
        digits_value(s.take(i + 1)) == digits_value(s.take(i)) * 10 + ((s[i] as u32) - 48) as nat,
{
    assert(s.take(i + 1).drop_last() =~= s.take(i));
}

proof fn lemma_digits_value_monotone(s: Seq<char>, i: int)
    requires
        0 <= i <= s.len(),
        forall|j: int| 0 <= j < s.len() ==> is_digit(#[trigger] s[j]),
    ensures
        digits_value(s.take(i)) <= digits_value(s),
    decreases s.len() - i,
{
    if i < s.len() {
        lemma_digits_value_monotone(s, i + 1);
        lemma_digits_value_prefix(s, i);
    } else {
        assert(s.take(i) =~= s);
    }
}

/// Reads the digits of `s@[from..]`: `Some(value)` when they are all digits,
/// there is at least one and the value does not exceed `limit`.
fn read_digits(s: &str, from: usize, limit: u64) -> (r: Option<u64>)
    requires
        from <= s@.len(),
        limit >= 9,
    ensures
        r == (if all_digits(s@.skip(from as int)) && digits_value(s@.skip(from as int)) <= limit {
            Some(digits_value(s@.skip(from as int)) as u64)
        } else {
            None
        }),
{
    let n = s.unicode_len();
    let ghost t = s@.skip(from as int);
    if from == n {
        return None;
    }
    let mut acc: u64 = 0;
    let mut i: usize = from;
    while i < n
        invariant
            from <= i <= n,
            n == s@.len(),
            t == s@.skip(from as int),
            forall|j: int| 0 <= j < i - from ==> is_digit(#[trigger] t[j]),
            acc as nat == digits_value(t.take(i - from)),
            acc <= limit,
            limit >= 9,
        decreases n - i,
    {
        let c = s.get_char(i);
        if c < '0' || c > '9' {
            assert(!is_digit(t[i - from]));
            return None;
        }
        let d = (c as u32 - 48) as u64;
        proof {
            lemma_digits_value_prefix(t, i - from);
        }
        if acc > (limit - d) / 10 {
            proof {
                assert(forall|j: int| 0 <= j < i - from + 1 ==> is_digit(#[trigger] t[j]));
                assert(digits_value(t.take(i - from + 1)) > limit) by (nonlinear_arith)
                    requires
                        acc > (limit - d) / 10,
                        d <= limit,
                        digits_value(t.take(i - from + 1)) == acc * 10 + d,
                        d <= 9,
                ;
                if all_digits(t) {
                    lemma_digits_value_monotone(t, i - from + 1);
                }
            }
            return None;
        }
        proof {
            assert(acc * 10 + d <= limit) by (nonlinear_arith)
                requires
                    acc <= (limit - d) / 10,
                    d <= limit,
            ;
        }
        acc = acc * 10 + d;
        i = i + 1;
    }
    assert(t.take(n - from) =~= t);
    Some(acc)
}

/// `str::parse::<i64>()`, as an `Option`.
pub fn parse_i64(s: &str) -> (r: Option<i64>)
    ensures
        r == parse_i64_spec(s@),
{
    let n = s.unicode_len();
    if n > 0 && s.get_char(0) == '-' {
        assert(s@.skip(1) =~= s@.drop_first());
        match read_digits(s, 1, 9223372036854775808u64) {
            Some(v) => {
                let x: i128 = -(v as i128);
                Some(x as i64)
            },
            None => None,
        }
    } else if n > 0 && s.get_char(0) == '+' {
        assert(s@.skip(1) =~= s@.drop_first());
        match read_digits(s, 1, 9223372036854775807u64) {
            Some(v) => Some(v as i64),
            None => None,
        }
    } else {
        assert(s@.skip(0) =~= s@);
        match read_digits(s, 0, 9223372036854775807u64) {
            Some(v) => Some(v as i64),
            None => None,
        }
    }
}

/// `str::parse::<u64>`: `Some` exactly when `s` is an unsigned decimal in range.
pub open spec fn parse_u64_spec(s: Seq<char>) -> Option<u64> {
    match unsigned_value(s) {
        Some(v) => if v <= u64::MAX {
            Some(v as u64)
        } else {
            None
        },
        None => None,
    }
}

/// `str::parse::<u64>()`, as an `Option`.
pub fn parse_u64(s: &str) -> (r: Option<u64>)
    ensures
        r == parse_u64_spec(s@),
{
    let n = s.unicode_len();
    if n > 0 && s.get_char(0) == '+' {
        assert(s@.skip(1) =~= s@.drop_first());
        read_digits(s, 1, 18446744073709551615u64)
    } else {
        assert(s@.skip(0) =~= s@);
        read_digits(s, 0, 18446744073709551615u64)
    }
}

/// `str::parse::<u16>()`, as an `Option`.
pub fn parse_u16(s: &str) -> (r: Option<u16>)
    ensures
        r == parse_u16_spec(s@),
{
    let n = s.unicode_len();
    if n > 0 && s.get_char(0) == '+' {
        assert(s@.skip(1) =~= s@.drop_first());
        match read_digits(s, 1, 65535u64) {
            Some(v) => Some(v as u16),
            None => None,
        }
    } else {
        assert(s@.skip(0) =~= s@);
        match read_digits(s, 0, 65535u64) {
            Some(v) => Some(v as u16),
            None => None,
        }
    }
}

/// String equality by contents.
pub fn str_eq(a: &str, b: &str) -> (r: bool)
    ensures
        r == (a@ == b@),
{
    if a.unicode_len() != b.unicode_len() {
        return false;
    }
    let r = matches_at(a, b, 0);
    assert(a@.subrange(0, a@.len() as int) =~= a@);
    r
}

// ---------------------------------------------------------------------------
// Byte positions: a `String` is UTF-8, and its length and edit positions
// count bytes.
// ---------------------------------------------------------------------------

/// Length of `s` in UTF-8 bytes (`str::len`).
pub open spec fn byte_len(s: Seq<char>) -> nat {
    encode_utf8(s).len()
}

/// Whether byte offset `i` of `s` is a character boundary.
pub open spec fn char_boundary(s: Seq<char>, i: int) -> bool {
    is_char_boundary(encode_utf8(s), i)
}

/// `s` with `c` inserted at byte offset `i` (`String::insert`).
pub open spec fn insert_at_byte(s: Seq<char>, i: int, c: char) -> Seq<char> {
    decode_utf8(encode_utf8(s).take(i) + encode_utf8(seq![c]) + encode_utf8(s).skip(i))
}

/// `s` without the character that starts at byte offset `i`
/// (`String::remove`).
pub open spec fn remove_at_byte(s: Seq<char>, i: int) -> Seq<char> {
    let b = encode_utf8(s);
    decode_utf8(b.take(i) + b.skip(i + length_of_first_scalar(b.skip(i))))
}

/// A character inserted at a byte offset and then removed from that offset
/// leaves the text as it was; the insertion point is still a character
/// boundary afterwards, inside the text.
pub proof fn lemma_remove_inserted(s: Seq<char>, i: int, c: char)
    requires
        char_boundary(s, i),
    ensures
        0 <= i <= byte_len(s),
        remove_at_byte(insert_at_byte(s, i, c), i) == s,
        char_boundary(insert_at_byte(s, i, c), i),
        i < byte_len(insert_at_byte(s, i, c)),
        byte_len(insert_at_byte(s, i, c)) == byte_len(s) + encode_utf8(seq![c]).len(),
{
    broadcast use encode_utf8_valid_utf8, encode_utf8_decode_utf8;

    let e = encode_utf8(s);
    let cs = encode_utf8(seq![c]);
    assert(0 <= i <= e.len()) by {
        reveal_with_fuel(is_char_boundary, 1);
    }
    valid_utf8_split(e, i);
    let pre = e.take(i);
    let post = e.skip(i);
    assert(pre =~= e.subrange(0, i));
    assert(post =~= e.subrange(i, e.len() as int));
    valid_utf8_concat(pre, cs);
    valid_utf8_concat(pre + cs, post);
    let x = pre + cs + post;
    decode_utf8_encode_utf8(x);
    assert(encode_utf8(insert_at_byte(s, i, c)) == x);
    assert(seq![c].drop_first() =~= Seq::<char>::empty());
    assert(seq![c][0] == c);
    assert(encode_utf8(Seq::<char>::empty()) =~= Seq::<u8>::empty());
    assert(cs == encode_scalar(c as u32) + encode_utf8(seq![c].drop_first()));
    assert(cs =~= encode_scalar(c as u32));
    char_is_scalar(c);
    assert(cs.len() > 0);
    let t = seq![c] + decode_utf8(post);
    assert(t.drop_first() =~= decode_utf8(post));
    decode_utf8_encode_utf8(post);
    assert(encode_utf8(t) =~= cs + post);
    encode_utf8_first_scalar(t);
    assert(x.take(i) =~= pre);
    assert(x.skip(i) =~= cs + post);
    assert(x.skip(i + cs.len()) =~= post);
    assert(pre + post =~= e);
    assert(x.take(i) + x.skip(i + length_of_first_scalar(x.skip(i))) =~= e);
    // the insertion point starts the inserted character
    is_char_boundary_start_end_of_seq(cs);
    is_char_boundary_iff_not_is_continuation_byte(cs, 0);
    assert(x[i] == cs[0]);
    is_char_boundary_iff_not_is_continuation_byte(x, i);
}

/// `String::len`: the length in bytes. A `String` never holds more than
/// `isize::MAX` bytes.
#[verifier::external_body]
pub(crate) fn string_byte_len(s: &String) -> (n: usize)
    ensures
        n == byte_len(s@),
        n <= isize::MAX,
{
    s.len()
}

/// `str::len` of a `&str`: the length in bytes.
#[verifier::external_body]
pub(crate) fn str_byte_len(s: &str) -> (n: usize)
    ensures
        n == byte_len(s@),
        n <= isize::MAX,
{
    s.len()
}

/// `str::is_char_boundary`: whether byte offset `i` is the start of a
/// character or the end of the string (false past the end).
#[verifier::external_body]
pub(crate) fn str_is_char_boundary(s: &str, i: usize) -> (b: bool)
    ensures
        b == char_boundary(s@, i as int),
{
    s.is_char_boundary(i)
}

/// `String::insert`: inserts `c` at byte offset `i`, which must be a
/// character boundary (the call panics otherwise).
#[verifier::external_body]
pub(crate) fn string_insert(s: &mut String, i: usize, c: char)
    requires
        char_boundary(old(s)@, i as int),
    ensures
        final(s)@ == insert_at_byte(old(s)@, i as int, c),
{
    s.insert(i, c);
}

/// `String::remove`: removes the character that starts at byte offset `i`,
/// which must lie inside the string on a character boundary (the call
/// panics otherwise).
#[verifier::external_body]
pub(crate) fn string_remove(s: &mut String, i: usize)
    requires
        i < byte_len(old(s)@),
        char_boundary(old(s)@, i as int),
    ensures
        final(s)@ == remove_at_byte(old(s)@, i as int),
{
    s.remove(i);
}

// ---------------------------------------------------------------------------
// Splitting and joining.
// ---------------------------------------------------------------------------

/// The first position at or after `st` where `c` occurs in `s`.
pub open spec fn next_index(s: Seq<char>, c: char, st: int) -> Option<int>
    decreases s.len() - st,
{
    if st < 0 || st >= s.len() {
        None
    } else if s[st] == c {
        Some(st)
    } else {
        next_index(s, c, st + 1)
    }
}

/// `str::split(c)` of `s` from position `st` on: the pieces between
/// occurrences of `c`, empty ones included.
pub open spec fn split_from(s: Seq<char>, c: char, st: int) -> Seq<Seq<char>>
    decreases s.len() - st, 1int,
{
    if st < 0 || st > s.len() {
        Seq::empty()
    } else {
        match next_index(s, c, st) {
            None => seq![s.subrange(st, s.len() as int)],
            Some(k) => if st <= k < s.len() {
                seq![s.subrange(st, k)] + split_from(s, c, k + 1)
            } else {
                Seq::empty()
            },
        }
    }
}

/// `str::split(c)`.
pub open spec fn split_on(s: Seq<char>, c: char) -> Seq<Seq<char>> {
    split_from(s, c, 0)
}

pub proof fn lemma_next_index(s: Seq<char>, c: char, st: int)
    requires
        0 <= st,
    ensures
        match next_index(s, c, st) {
            Some(k) => st <= k < s.len() && s[k] == c && forall|j: int|
                st <= j < k ==> #[trigger] s[j] != c,
            None => forall|j: int| st <= j < s.len() ==> #[trigger] s[j] != c,
        },
    decreases s.len() - st,
{
    if st < s.len() && s[st] != c {
        lemma_next_index(s, c, st + 1);
    }
}

/// Finds the next `c` at or after `st` in `s`.
pub fn find_char(s: &str, c: char, st: usize) -> (r: Option<usize>)
    requires
        st <= s@.len(),
    ensures
        match next_index(s@, c, st as int) {
            Some(k) => r == Some(k as usize),
            None => r is None,
        },
{
    let n = s.unicode_len();
    let mut i = st;
    proof {
        lemma_next_index(s@, c, st as int);
    }
    while i < n
        invariant
            st <= i <= n,
            n == s@.len(),
            forall|j: int| st <= j < i ==> #[trigger] s@[j] != c,
        decreases n - i,
    {
        if s.get_char(i) == c {
            proof {
                lemma_next_index(s@, c, st as int);
                if let Some(k) = next_index(s@, c, st as int) {
                    if k < i {
                        assert(s@[k] != c);
                    }
                    if k > i {
                        assert(s@[i as int] != c);
                    }
                }
            }
            return Some(i);
        }
        i = i + 1;
    }
    proof {
        lemma_next_index(s@, c, st as int);
        if let Some(k) = next_index(s@, c, st as int) {
            assert(s@[k] != c);
        }
    }
    None
}

/// `str::split(c)`, each piece copied out.
pub fn split_string(s: &str, c: char) -> (r: Vec<String>)
    ensures
        r@.map_values(|x: String| x@) == split_on(s@, c),
{
    let n = s.unicode_len();
    let mut out: Vec<String> = Vec::new();
    let mut st: usize = 0;
    loop
        invariant
            st <= n,
            n == s@.len(),
            out@.map_values(|x: String| x@) + split_from(s@, c, st as int) == split_on(s@, c),
        decreases n - st,
    {
        let ghost prev = out@.map_values(|x: String| x@);
        proof {
            lemma_next_index(s@, c, st as int);
        }
        match find_char(s, c, st) {
            Some(k) => {
                let piece = s.substring_char(st, k);
                out.push(String::from_str(piece));
                assert(out@.map_values(|x: String| x@) + split_from(s@, c, (k + 1) as int)
                    =~= prev + split_from(s@, c, st as int));
                st = k + 1;
            },
            None => {
                let piece = s.substring_char(st, n);
                out.push(String::from_str(piece));
                assert(out@.map_values(|x: String| x@) =~= prev + split_from(s@, c, st as int));
                return out;
            },
        }
    }
}

/// `pieces` joined with `sep` between consecutive pieces (`join`).
pub open spec fn join_with(pieces: Seq<Seq<char>>, sep: Seq<char>) -> Seq<char>
    decreases pieces.len(),
{
    if pieces.len() == 0 {
        Seq::empty()
    } else if pieces.len() == 1 {
        pieces[0]
    } else {
        join_with(pieces.drop_last(), sep) + sep + pieces.last()
    }
}

/// Joins strings with a separator.
pub fn join_strings(pieces: &Vec<String>, sep: &str) -> (r: String)
    ensures
        r@ == join_with(pieces@.map_values(|x: String| x@), sep@),
{
    let ghost pv = pieces@.map_values(|x: String| x@);
    let mut out = String::new();
    let mut i: usize = 0;
    assert(pv.take(0) =~= Seq::<Seq<char>>::empty());
    while i < pieces.len()
        invariant
            i <= pieces.len(),
            pv == pieces@.map_values(|x: String| x@),
            out@ == join_with(pv.take(i as int), sep@),
        decreases pieces.len() - i,
    {
        assert(pv.take(i + 1).drop_last() =~= pv.take(i as int));
        if i > 0 {
            push_str(&mut out, sep);
        } else {
            assert(out@ =~= Seq::<char>::empty());
        }
        push_str(&mut out, pieces[i].as_str());
        assert(out@ =~= join_with(pv.take(i + 1), sep@));
        i = i + 1;
    }
    assert(pv.take(pieces.len() as int) =~= pv);
    out
}

} // verus!
