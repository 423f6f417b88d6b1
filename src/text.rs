//! Small text parsers used for the presentation values of a design block.
use vstd::prelude::*;

verus! {

/// `s` with every trailing repetition of `suf` removed (nothing is removed
/// when `suf` is empty).
pub open spec fn trim_end_all(s: Seq<char>, suf: Seq<char>) -> Seq<char>
    decreases s.len(),
{
    if suf.len() > 0 && s.len() >= suf.len() && s.subrange(s.len() - suf.len(), s.len() as int)
        == suf {
        trim_end_all(s.subrange(0, s.len() - suf.len()), suf)
    } else {
        s
    }
}

pub open spec fn is_digit(c: char) -> bool {
    '0' <= c && c <= '9'
}

pub open spec fn digit_of(c: char) -> nat {
    (c as nat - '0' as nat) as nat
}

pub open spec fn all_digits(s: Seq<char>) -> bool {
    forall|i: int| 0 <= i < s.len() ==> is_digit(#[trigger] s[i])
}

/// The value of a string of decimal digits, most significant first.
pub open spec fn digits_value(s: Seq<char>) -> nat
    decreases s.len(),
{
    if s.len() == 0 {
        0
    } else {
        10 * digits_value(s.drop_last()) + digit_of(s.last())
    }
}

/// The digits of an unsigned number: `s` without one leading `+`.
pub open spec fn unsigned_body(s: Seq<char>) -> Seq<char> {
    if s.len() > 0 && s[0] == '+' {
        s.drop_first()
    } else {
        s
    }
}

/// What a `u32` written in decimal reads as: an optional `+`, then one or
/// more digits whose value fits in 32 bits.
pub open spec fn u32_of(s: Seq<char>) -> Option<u32> {
    let d = unsigned_body(s);
    if d.len() > 0 && all_digits(d) && digits_value(d) <= u32::MAX {
        Some(digits_value(d) as u32)
    } else {
        None
    }
}

proof fn lemma_digits_value_grows(s: Seq<char>, i: int)
    requires
        0 <= i <= s.len(),
    ensures
        digits_value(s.subrange(0, i)) <= digits_value(s),
    decreases s.len() - i,
{
    if i < s.len() {
        lemma_digits_value_grows(s, i + 1);
        assert(s.subrange(0, i + 1).drop_last() =~= s.subrange(0, i));
    } else {
        assert(s.subrange(0, i) =~= s);
    }
}

/// Number of characters left once every trailing repetition of `suf` is
/// removed from `s`.
pub fn trimmed_len(s: &str, suf: &str) -> (n: usize)
    ensures
        n <= s@.len(),
        s@.subrange(0, n as int) == trim_end_all(s@, suf@),
{
    let len = s.unicode_len();
    let k = suf.unicode_len();
    let mut n: usize = len;
    assert(s@.subrange(0, n as int) =~= s@);
    loop
        invariant
            n <= len == s@.len(),
            k == suf@.len(),
            trim_end_all(s@.subrange(0, n as int), suf@) == trim_end_all(s@, suf@),
        decreases n,
    {
        if k == 0 || n < k {
            return n;
        }
        let start = n - k;
        let ghost pre = s@.subrange(0, n as int);
        assert(pre.subrange(pre.len() - k, pre.len() as int) =~= s@.subrange(start as int, n as int));
        if matches_at(s, start, suf) {
            assert(pre.subrange(0, pre.len() - k) =~= s@.subrange(0, start as int));
            n = start;
        } else {
            return n;
        }
    }
}

/// Whether `suf` occurs in `s` at character position `start`.
fn matches_at(s: &str, start: usize, suf: &str) -> (r: bool)
    requires
        start + suf@.len() <= s@.len(),
    ensures
        r == (s@.subrange(start as int, start + suf@.len()) == suf@),
{
    let _len = s.unicode_len();
    let k = suf.unicode_len();
    let mut j: usize = 0;
    while j < k
        invariant
            j <= k == suf@.len(),
            start + k <= s@.len() == _len,
            forall|m: int| 0 <= m < j ==> s@[start + m] == suf@[m],
        decreases k - j,
    {
        if s.get_char(start + j) != suf.get_char(j) {
            assert(s@.subrange(start as int, start + k)[j as int] != suf@[j as int]);
            return false;
        }
        j = j + 1;
    }
    assert(s@.subrange(start as int, start + k) =~= suf@);
    true
}

/// Whether two strings hold the same characters.
pub fn str_eq(a: &str, b: &str) -> (r: bool)
    ensures
        r == (a@ == b@),
{
    if a.unicode_len() != b.unicode_len() {
        return false;
    }
    let r = matches_at(a, 0, b);
    assert(a@.subrange(0, b@.len() as int) =~= a@);
    r
}

/// Reads the first `n` characters of `s` as a `u32` in decimal.
pub fn parse_u32_prefix(s: &str, n: usize) -> (r: Option<u32>)
    requires
        n <= s@.len(),
    ensures
        r == u32_of(s@.subrange(0, n as int)),
{
    let ghost t = s@.subrange(0, n as int);
    let mut i: usize = 0;
    if n > 0 && s.get_char(0) == '+' {
        assert(t[0] == '+');
        i = 1;
    }
    let ghost d = unsigned_body(t);
    assert(d =~= t.subrange(i as int, t.len() as int));
    if i == n {
        assert(d.len() == 0);
        return None;
    }
    let start = i;
    let mut acc: u64 = 0;
    while i < n
        invariant
            start <= i <= n <= s@.len(),
            t == s@.subrange(0, n as int),
            d == t.subrange(start as int, n as int),
            d == unsigned_body(t),
            all_digits(d.subrange(0, i - start)),
            acc == digits_value(d.subrange(0, i - start)),
            acc <= u32::MAX,
        decreases n - i,
    {
        let c = s.get_char(i);
        assert(c == d[i - start]);
        if c < '0' || c > '9' {
            assert(!all_digits(d));
            return None;
        }
        let ghost p = d.subrange(0, i - start + 1);
        assert(p.drop_last() =~= d.subrange(0, i - start));
        assert(p.last() == c);
        assert(digits_value(p) == 10 * acc + digit_of(c));
        acc = acc * 10 + (c as u64 - '0' as u64);
        i = i + 1;
        assert(all_digits(d.subrange(0, i - start)));
        if acc > u32::MAX as u64 {
            assert(p == d.subrange(0, i - start));
            proof {
                lemma_digits_value_grows(d, i - start);
            }
            return None;
        }
    }
    assert(d.subrange(0, i - start) =~= d);
    Some(acc as u32)
}

/// Length in twips (twentieths of a point) of one centimetre.
pub const TWIPS_PER_CM: u64 = 567;

/// Margin used when a margin value cannot be read: 2 cm in twips.
pub const DEFAULT_MARGIN_TWIPS: i32 = 1134;

/// Integer parts from this value on give a length beyond the `i32` range.
const INT_PART_CAP: u64 = 3787450;

/// `p` splits the unsigned decimal `b` into its integer digits `b[..p]` and,
/// when a point stands at `p`, its fraction digits after that point.
pub open spec fn split_at_point(b: Seq<char>, p: int) -> bool {
    &&& 0 <= p <= b.len()
    &&& all_digits(b.subrange(0, p))
    &&& p == b.len() || (b[p] == '.' && all_digits(b.subrange(p + 1, b.len() as int)))
}

/// An unsigned decimal number: digits, optionally a point and more digits,
/// with at least one digit in all.
pub open spec fn is_unsigned_decimal(b: Seq<char>) -> bool {
    &&& b.len() > 0
    &&& b != seq!['.']
    &&& exists|p: int| split_at_point(b, p)
}

/// Number of leading sign characters (`+` or `-`) of a decimal: zero or one.
pub open spec fn sign_len(s: Seq<char>) -> int {
    if s.len() > 0 && (s[0] == '+' || s[0] == '-') {
        1
    } else {
        0
    }
}

/// `floor(567 * 0.f)` for the fraction digits `f`: the twips of a fraction
/// of a centimetre, rounded toward zero.
pub open spec fn frac_twips(f: Seq<char>) -> nat
    decreases f.len(),
{
    if f.len() == 0 {
        0
    } else {
        (567 * digit_of(f[0]) + frac_twips(f.drop_first())) / 10
    }
}

/// `x` saturated to the range of `i32`.
pub open spec fn clamp_i32(x: int) -> int {
    if x > i32::MAX {
        i32::MAX as int
    } else if x < i32::MIN {
        i32::MIN as int
    } else {
        x
    }
}

/// The twips of a signed decimal count of centimetres, rounded toward zero
/// and saturated to `i32`; `None` when `s` is no decimal number.
pub open spec fn decimal_twips(s: Seq<char>) -> Option<int> {
    let b = s.subrange(sign_len(s), s.len() as int);
    if is_unsigned_decimal(b) {
        let p = choose|p: int| split_at_point(b, p);
        let frac = if p < b.len() { b.subrange(p + 1, b.len() as int) } else { seq![] };
        let mag = (digits_value(b.subrange(0, p)) * 567 + frac_twips(frac)) as int;
        Some(clamp_i32(if sign_len(s) == 1 && s[0] == '-' { -mag } else { mag }))
    } else {
        None
    }
}

/// What a margin value such as `"2.5 cm"` gives in twips: every trailing
/// `" cm"` is dropped and the rest read as a decimal count of centimetres;
/// a value that cannot be read gives 2 cm.
pub open spec fn margin_twips(s: Seq<char>) -> int {
    match decimal_twips(trim_end_all(s, " cm"@)) {
        Some(v) => v,
        None => DEFAULT_MARGIN_TWIPS as int,
    }
}

proof fn lemma_split_unique(b: Seq<char>, p: int, q: int)
    requires
        split_at_point(b, p),
        split_at_point(b, q),
    ensures
        p == q,
{
    if p < q {
        assert(b.subrange(0, q)[p] == b[p]);
    } else if q < p {
        assert(b.subrange(0, p)[q] == b[q]);
    }
}

proof fn lemma_no_split_at_stop(b: Seq<char>, j: int)
    requires
        0 <= j < b.len(),
        all_digits(b.subrange(0, j)),
        !is_digit(b[j]),
        b[j] != '.',
    ensures
        forall|p: int| !split_at_point(b, p),
{
    assert forall|p: int| !split_at_point(b, p) by {
        if split_at_point(b, p) && p > j {
            assert(b.subrange(0, p)[j] == b[j]);
        }
        if split_at_point(b, p) && p < j {
            assert(b.subrange(0, j)[p] == b[p]);
        }
    }
}

proof fn lemma_no_split_in_frac(b: Seq<char>, j: int, k: int)
    requires
        0 <= j < k < b.len(),
        all_digits(b.subrange(0, j)),
        b[j] == '.',
        !is_digit(b[k]),
    ensures
        forall|p: int| !split_at_point(b, p),
{
    assert forall|p: int| !split_at_point(b, p) by {
        if split_at_point(b, p) && p > j {
            assert(b.subrange(0, p)[j] == b[j]);
        }
        if split_at_point(b, p) && p < j {
            assert(b.subrange(0, j)[p] == b[p]);
        }
        if split_at_point(b, p) && p == j {
            assert(b.subrange(p + 1, b.len() as int)[k - p - 1] == b[k]);
        }
    }
}

/// Reads the first `n` characters of `s` as a signed decimal count of
/// centimetres and gives its twips.
fn decimal_twips_prefix(s: &str, n: usize) -> (r: Option<i32>)
    requires
        n <= s@.len(),
    ensures
        r matches Some(v) ==> decimal_twips(s@.subrange(0, n as int)) == Some(v as int),
        r is None ==> decimal_twips(s@.subrange(0, n as int)) is None,
{
    let ghost t = s@.subrange(0, n as int);
    let mut i: usize = 0;
    let mut negative = false;
    if n > 0 {
        let c0 = s.get_char(0);
        assert(t[0] == c0);
        if c0 == '-' {
            negative = true;
            i = 1;
        } else if c0 == '+' {
            i = 1;
        }
    }
    let start = i;
    let ghost b = t.subrange(start as int, n as int);
    assert(sign_len(t) == start);
    if start == n {
        return None;
    }
    if start + 1 == n && s.get_char(start) == '.' {
        assert(b =~= seq!['.']);
        return None;
    }
    let mut acc: u64 = 0;
    while i < n
        invariant
            start <= i <= n <= s@.len(),
            t == s@.subrange(0, n as int),
            b == t.subrange(start as int, n as int),
            all_digits(b.subrange(0, i - start)),
            acc == if digits_value(b.subrange(0, i - start)) < INT_PART_CAP {
                digits_value(b.subrange(0, i - start))
            } else {
                INT_PART_CAP as nat
            },
        ensures
            start <= i <= n,
            all_digits(b.subrange(0, i - start)),
            i < n ==> !is_digit(b[i - start]),
            acc == if digits_value(b.subrange(0, i - start)) < INT_PART_CAP {
                digits_value(b.subrange(0, i - start))
            } else {
                INT_PART_CAP as nat
            },
        decreases n - i,
    {
        let c = s.get_char(i);
        assert(b[i - start] == c);
        if c < '0' || c > '9' {
            break;
        }
        let ghost q = b.subrange(0, i - start + 1);
        assert(q.drop_last() =~= b.subrange(0, i - start));
        assert(q.last() == c);
        acc = acc * 10 + (c as u64 - '0' as u64);
        if acc > INT_PART_CAP {
            acc = INT_PART_CAP;
        }
        i = i + 1;
        assert(all_digits(b.subrange(0, i - start)));
    }
    let point = i;
    let ghost p = point - start;
    let mut frac: u64 = 0;
    if point < n {
        if s.get_char(point) != '.' {
            proof {
                lemma_no_split_at_stop(b, p);
            }
            return None;
        }
        let mut k: usize = n;
        while k > point + 1
            invariant
                start <= point < k <= n <= s@.len(),
                t == s@.subrange(0, n as int),
                b == t.subrange(start as int, n as int),
                all_digits(b.subrange(k - start, b.len() as int)),
                frac == frac_twips(b.subrange(k - start, b.len() as int)),
                frac < 567,
                p == point - start,
                b[p] == '.',
                all_digits(b.subrange(0, p)),
                sign_len(t) == start,
            decreases k,
        {
            let c = s.get_char(k - 1);
            assert(b[k - 1 - start] == c);
            if c < '0' || c > '9' {
                proof {
                    lemma_no_split_in_frac(b, p, k - 1 - start);
                }
                return None;
            }
            let ghost f = b.subrange(k - 1 - start, b.len() as int);
            assert(f.drop_first() =~= b.subrange(k - start, b.len() as int));
            assert(f[0] == c);
            frac = (567 * (c as u64 - '0' as u64) + frac) / 10;
            k = k - 1;
            assert forall|m: int| 0 <= m < f.len() implies is_digit(#[trigger] f[m]) by {
                if m > 0 {
                    assert(f[m] == f.drop_first()[m - 1]);
                }
            }
            assert(f =~= b.subrange(k - start, b.len() as int));
        }
    }
    assert(split_at_point(b, p));
    proof {
        let q = choose|q: int| split_at_point(b, q);
        lemma_split_unique(b, p, q);
    }
    let mag: i64 = (acc * 567 + frac) as i64;
    let v: i64 = if negative { -mag } else { mag };
    if v > i32::MAX as i64 {
        Some(i32::MAX)
    } else if v < i32::MIN as i64 {
        Some(i32::MIN)
    } else {
        Some(v as i32)
    }
}

/// Converts a margin value with a centimetre suffix (`"2 cm"`) into twips;
/// a value that cannot be read gives the 2 cm default.
pub fn parse_margin(margin: &str) -> (r: i32)
    ensures
        r == margin_twips(margin@),
{
    let n = trimmed_len(margin, " cm");
    match decimal_twips_prefix(margin, n) {
        Some(v) => v,
        None => DEFAULT_MARGIN_TWIPS,
    }
}

proof fn lemma_trim_stops(d: Seq<char>, suf: Seq<char>)
    requires
        d.len() > 0,
        is_digit(d.last()),
        suf.len() > 0,
        !is_digit(suf.last()),
    ensures
        trim_end_all(d, suf) == d,
{
    if d.len() >= suf.len() && d.subrange(d.len() - suf.len(), d.len() as int) == suf {
        assert(d.subrange(d.len() - suf.len(), d.len() as int).last() == d.last());
    }
}

proof fn lemma_trim_once(d: Seq<char>, suf: Seq<char>)
    requires
        suf.len() > 0,
    ensures
        trim_end_all(d + suf, suf) == trim_end_all(d, suf),
{
    let s = d + suf;
    assert(s.subrange(s.len() - suf.len(), s.len() as int) =~= suf);
    assert(s.subrange(0, s.len() - suf.len()) =~= d);
}

/// A whole number `n` of centimetres written as digits and followed by
/// `" cm"` gives `567 * n` twips (saturated to `i32`): the conversion is
/// linear in the value.
pub proof fn lemma_margin_whole_cm(d: Seq<char>)
    requires
        d.len() > 0,
        all_digits(d),
    ensures
        margin_twips(d + " cm"@) == clamp_i32((567 * digits_value(d)) as int),
{
    reveal_strlit(" cm");
    assert(is_digit(d.last()));
    lemma_trim_once(d, " cm"@);
    lemma_trim_stops(d, " cm"@);
    assert(is_digit(d[0]));
    assert(sign_len(d) == 0);
    assert(d.subrange(0, d.len() as int) =~= d);
    assert(split_at_point(d, d.len() as int));
    assert(d != seq!['.']) by {
        if d == seq!['.'] {
            assert(d[0] == '.');
        }
    }
    let p = choose|p: int| split_at_point(d, p);
    lemma_split_unique(d, p, d.len() as int);
}

/// A margin value that does not read as a number of centimetres gives the
/// 2 cm default, in twips.
pub proof fn lemma_margin_unreadable(s: Seq<char>)
    requires
        decimal_twips(trim_end_all(s, " cm"@)) is None,
    ensures
        margin_twips(s) == 2 * TWIPS_PER_CM,
{
}

/// `10` to the power `n`.
pub open spec fn pow10(n: nat) -> nat
    decreases n,
{
    if n == 0 {
        1
    } else {
        10 * pow10((n - 1) as nat)
    }
}

proof fn lemma_pow10_positive(n: nat)
    ensures
        pow10(n) > 0,
    decreases n,
{
    if n > 0 {
        lemma_pow10_positive((n - 1) as nat);
    }
}

proof fn lemma_digits_value_front(f: Seq<char>)
    requires
        f.len() > 0,
    ensures
        digits_value(f) == digit_of(f[0]) * pow10((f.len() - 1) as nat) + digits_value(
            f.drop_first(),
        ),
    decreases f.len(),
{
    if f.len() > 1 {
        let g = f.drop_last();
        lemma_digits_value_front(g);
        assert(g.drop_first() =~= f.drop_first().drop_last());
        assert(f.drop_first().last() == f.last());
        assert(g[0] == f[0]);
        let p = pow10((g.len() - 1) as nat);
        assert(pow10((f.len() - 1) as nat) == 10 * p);
        assert(digits_value(f.drop_first()) == 10 * digits_value(g.drop_first()) + digit_of(f.last()));
        assert(digits_value(f) == 10 * digits_value(g) + digit_of(f.last()));
        let d0 = digit_of(f[0]) as int;
        assert(10 * (d0 * p) == d0 * (10 * p)) by (nonlinear_arith);
        assert(digits_value(g) == d0 * p + digits_value(g.drop_first()));
        assert(digits_value(f) == d0 * (10 * p) + digits_value(f.drop_first()));
        assert(digit_of(f[0]) * pow10((f.len() - 1) as nat) == d0 * (10 * p));
    } else {
        assert(f.drop_first().len() == 0);
        assert(f.drop_last().len() == 0);
        assert(f.last() == f[0]);
        assert(pow10(0) == 1);
        assert(digits_value(f.drop_last()) == 0);
        assert(f.len() == 1);
        assert(pow10((f.len() - 1) as nat) == 1) by {
            assert((f.len() - 1) as nat == 0nat);
        }
    }
}

/// The digit-by-digit twips of a fraction are the exact product rounded
/// down: for fraction digits `f` of value `F`, `floor(567 * F / 10^k)`
/// where `k` is the number of digits.
pub proof fn lemma_frac_twips_exact(f: Seq<char>)
    ensures
        frac_twips(f) == (567 * digits_value(f)) / pow10(f.len()),
    decreases f.len(),
{
    if f.len() > 0 {
        let r = f.drop_first();
        lemma_frac_twips_exact(r);
        lemma_digits_value_front(f);
        lemma_pow10_positive(r.len());
        let p = pow10(r.len()) as int;
        let d = digit_of(f[0]) as int;
        let rv = digits_value(r) as int;
        assert(pow10(f.len()) == 10 * p);
        let x = 567 * d * p + 567 * rv;
        assert(567 * (d * p + rv) == 567 * d * p + 567 * rv) by (nonlinear_arith);
        vstd::arithmetic::div_mod::lemma_div_denominator(x, p, 10);
        vstd::arithmetic::div_mod::lemma_hoist_over_denominator(567 * rv, 567 * d, p as nat);
        assert(567 * rv + (567 * d) * p == 567 * d * p + 567 * rv) by (nonlinear_arith);
        assert(0 <= d && 0 <= rv && 0 < p);
        assert(0 <= 567 * d * p) by (nonlinear_arith)
            requires
                0 <= d,
                0 < p,
        ;
        assert(p * 10 == 10 * p);
    }
}

} // verus!
