use vstd::prelude::*;

verus! {

pub open spec fn is_digit(c: char) -> bool {
    '0' <= c && c <= '9'
}

pub open spec fn all_digits(d: Seq<char>) -> bool {
    forall|i: int| 0 <= i < d.len() ==> is_digit(#[trigger] d[i])
}

/// Reads the decimal digits `d` onto `acc`, most significant first.
pub open spec fn digits_from(acc: int, d: Seq<char>) -> int
    decreases d.len(),
{
    if d.len() == 0 {
        acc
    } else {
        digits_from(acc * 10 + (d[0] as int - '0' as int), d.drop_first())
    }
}

/// Length of a leading `+` or `-`.
pub open spec fn sign_len(s: Seq<char>) -> int {
    if s.len() > 0 && (s[0] == '+' || s[0] == '-') {
        1
    } else {
        0
    }
}

pub open spec fn is_negative(s: Seq<char>) -> bool {
    s.len() > 0 && s[0] == '-'
}

/// The integer written by `s`: an optional sign and at least one digit.
pub open spec fn signed_value(s: Seq<char>) -> Option<int> {
    let d = s.skip(sign_len(s));
    if d.len() > 0 && all_digits(d) {
        Some(
            if is_negative(s) {
                -digits_from(0, d)
            } else {
                digits_from(0, d)
            },
        )
    } else {
        None
    }
}

/// The unsigned integer written by `s`: an optional `+` and at least one digit.
pub open spec fn unsigned_value(s: Seq<char>) -> Option<int> {
    if is_negative(s) {
        None
    } else {
        signed_value(s)
    }
}

/// `v` when it lies in `[lo, hi]`.
pub open spec fn within(v: Option<int>, lo: int, hi: int) -> Option<int> {
    match v {
        Some(x) => if lo <= x <= hi {
            Some(x)
        } else {
            None
        },
        None => None,
    }
}

proof fn lemma_digits_grow(acc: int, d: Seq<char>)
    requires
        acc >= 0,
        all_digits(d),
    ensures
        digits_from(acc, d) >= acc,
    decreases d.len(),
{
    if d.len() > 0 {
        assert(is_digit(d[0]));
        assert(all_digits(d.drop_first())) by {
            assert forall|i: int| 0 <= i < d.drop_first().len() implies is_digit(
                #[trigger] d.drop_first()[i],
            ) by {
                assert(d.drop_first()[i] == d[i + 1]);
            }
        }
        lemma_digits_grow(acc * 10 + (d[0] as int - '0' as int), d.drop_first());
    }
}

/// Reads the digits of `s` between `start` and `end` onto `acc`, giving up
/// once the value exceeds `bound`.
fn accumulate(s: &str, start: usize, end: usize, acc: u128, bound: u128) -> (r: Option<u128>)
    requires
        start <= end <= s@.len(),
        acc <= bound,
    ensures
        ({
            let d = s@.subrange(start as int, end as int);
            match r {
                Some(m) => all_digits(d) && m as int == digits_from(acc as int, d) && m <= bound,
                None => !all_digits(d) || digits_from(acc as int, d) > bound,
            }
        }),
{
    let ghost d = s@.subrange(start as int, end as int);
    let mut total: u128 = acc;
    let mut i: usize = start;
    while i < end
        invariant
            end <= s@.len(),
            start <= i <= end,
            d == s@.subrange(start as int, end as int),
            total <= bound,
            acc <= bound,
            all_digits(s@.subrange(start as int, i as int)),
            digits_from(acc as int, d) == digits_from(total as int, s@.subrange(i as int, end as int)),
        decreases end - i,
    {
        let c = s.get_char(i);
        let ghost rest = s@.subrange(i as int, end as int);
        assert(rest[0] == c);
        assert(rest.drop_first() == s@.subrange(i + 1, end as int));
        if !('0' <= c && c <= '9') {
            assert(d[i - start] == c);
            return None;
        }
        let v = (c as u32 - '0' as u32) as u128;
        if v > bound || total > (bound - v) / 10 {
            proof {
                assert(total * 10 + v > bound) by (nonlinear_arith)
                    requires
                        v > bound || total > (bound - v) / 10,
                        total >= 0,
                ;
                if all_digits(d) {
                    assert(all_digits(rest.drop_first())) by {
                        assert forall|k: int| 0 <= k < rest.drop_first().len() implies is_digit(
                            #[trigger] rest.drop_first()[k],
                        ) by {
                            assert(rest.drop_first()[k] == d[i + 1 - start + k]);
                        }
                    }
                    lemma_digits_grow(total * 10 + v, rest.drop_first());
                    assert(digits_from(total as int, rest) == digits_from(
                        total * 10 + v,
                        rest.drop_first(),
                    ));
                    assert(digits_from(acc as int, d) > bound);
                }
            }
            return None;
        }
        assert(total * 10 + v <= bound) by (nonlinear_arith)
            requires
                total <= (bound - v) / 10,
                v <= bound,
        ;
        total = total * 10 + v;
        assert(s@.subrange(start as int, i + 1) == s@.subrange(start as int, i as int).push(c));
        i = i + 1;
    }
    assert(d == s@.subrange(start as int, end as int));
    Some(total)
}

/// Length of the sign, and whether it is a minus.
fn sign_of(s: &str) -> (r: (usize, bool))
    ensures
        r.0 as int == sign_len(s@),
        r.1 == is_negative(s@),
        r.0 <= s@.len(),
{
    if s.unicode_len() == 0 {
        return (0, false);
    }
    let c = s.get_char(0);
    if c == '-' {
        (1, true)
    } else if c == '+' {
        (1, false)
    } else {
        (0, false)
    }
}

/// Parses a signed integer the way `i64::from_str` does: an optional sign and
/// at least one digit, within the range of `i64`.
pub fn parse_i64(s: &str) -> (r: Option<i64>)
    ensures
        match r {
            Some(v) => within(signed_value(s@), i64::MIN as int, i64::MAX as int) == Some(
                v as int,
            ),
            None => within(signed_value(s@), i64::MIN as int, i64::MAX as int) is None,
        },
{
    let (start, neg) = sign_of(s);
    let n = s.unicode_len();
    assert(s@.skip(start as int) == s@.subrange(start as int, n as int));
    if start == n {
        return None;
    }
    let bound: u128 = if neg {
        9223372036854775808
    } else {
        9223372036854775807
    };
    match accumulate(s, start, n, 0, bound) {
        Some(m) => {
            if neg {
                Some((0 - (m as i128)) as i64)
            } else {
                Some(m as i64)
            }
        },
        None => None,
    }
}

/// Parses an unsigned integer the way `usize::from_str` does: an optional `+`
/// and at least one digit, within the range of `usize`.
pub fn parse_usize(s: &str) -> (r: Option<usize>)
    ensures
        match r {
            Some(v) => within(unsigned_value(s@), 0, usize::MAX as int) == Some(v as int),
            None => within(unsigned_value(s@), 0, usize::MAX as int) is None,
        },
{
    let (start, neg) = sign_of(s);
    let n = s.unicode_len();
    assert(s@.skip(start as int) == s@.subrange(start as int, n as int));
    if neg || start == n {
        return None;
    }
    match accumulate(s, start, n, 0, usize::MAX as u128) {
        Some(m) => Some(m as usize),
        None => None,
    }
}

/// Parses an integer in the range of `u32`; `-0` counts as zero.
pub fn parse_u32(s: &str) -> (r: Option<u32>)
    ensures
        match r {
            Some(v) => within(signed_value(s@), 0, u32::MAX as int) == Some(v as int),
            None => within(signed_value(s@), 0, u32::MAX as int) is None,
        },
{
    let (start, neg) = sign_of(s);
    let n = s.unicode_len();
    assert(s@.skip(start as int) == s@.subrange(start as int, n as int));
    if start == n {
        return None;
    }
    let bound: u128 = if neg {
        0
    } else {
        4294967295
    };
    match accumulate(s, start, n, 0, bound) {
        Some(m) => Some(m as u32),
        None => None,
    }
}

/// A number in plain decimal notation, held exactly: its value is
/// `mantissa / 10^scale`, negated when `negative` is set.
#[derive(Clone, Copy, Debug, PartialEq, Eq, Structural)]
pub struct Decimal {
    pub negative: bool,
    pub mantissa: u128,
    pub scale: usize,
}

/// Index of the first `.` in `b`, or its length when it has none.
pub open spec fn dot_pos(b: Seq<char>) -> int
    decreases b.len(),
{
    if b.len() == 0 || b[0] == '.' {
        0
    } else {
        1 + dot_pos(b.drop_first())
    }
}

/// The digits after the point of the unsigned part `b`.
pub open spec fn fraction_part(b: Seq<char>) -> Seq<char> {
    if dot_pos(b) < b.len() {
        b.skip(dot_pos(b) + 1)
    } else {
        Seq::empty()
    }
}

/// The decimal written by `s` in plain notation: an optional sign, then digits
/// with at most one point among them and at least one digit, as in `-0.5`,
/// `27000`, `.5` or `5.`; its digits, read as one integer, must fit in `u128`.
pub open spec fn plain_decimal(s: Seq<char>) -> Option<Decimal> {
    let b = s.skip(sign_len(s));
    let ip = b.take(dot_pos(b));
    let fp = fraction_part(b);
    let m = digits_from(digits_from(0, ip), fp);
    if all_digits(ip) && all_digits(fp) && ip.len() + fp.len() > 0 && m <= u128::MAX {
        Some(Decimal { negative: is_negative(s), mantissa: m as u128, scale: fp.len() as usize })
    } else {
        None
    }
}

proof fn lemma_dot_pos(b: Seq<char>, k: int)
    requires
        0 <= k <= b.len(),
        forall|j: int| 0 <= j < k ==> b[j] != '.',
        k == b.len() || b[k] == '.',
    ensures
        dot_pos(b) == k,
    decreases k,
{
    if k > 0 {
        assert(b[0] != '.');
        let t = b.drop_first();
        assert forall|j: int| 0 <= j < k - 1 implies t[j] != '.' by {
            assert(t[j] == b[j + 1]);
        }
        lemma_dot_pos(t, k - 1);
    }
}

/// Parses a decimal in plain notation; see [`plain_decimal`].
fn parse_plain(s: &str) -> (r: Option<Decimal>)
    ensures
        r == plain_decimal(s@),
{
    let (start, neg) = sign_of(s);
    let n = s.unicode_len();
    let mut p: usize = start;
    while p < n && s.get_char(p) != '.'
        invariant
            n == s@.len(),
            start <= p <= n,
            forall|j: int| start <= j < p ==> s@[j] != '.',
        decreases n - p,
    {
        p = p + 1;
    }
    let ghost b = s@.skip(start as int);
    proof {
        lemma_dot_pos(b, p - start);
        assert(b.take(p - start) == s@.subrange(start as int, p as int));
    }
    let frac_start: usize = if p < n {
        p + 1
    } else {
        n
    };
    assert(fraction_part(b) == s@.subrange(frac_start as int, n as int));
    if p - start + (n - frac_start) == 0 {
        return None;
    }
    let max: u128 = 340282366920938463463374607431768211455;
    match accumulate(s, start, p, 0, max) {
        None => {
            proof {
                let fp = fraction_part(b);
                let ip = b.take(dot_pos(b));
                if all_digits(ip) && all_digits(fp) {
                    lemma_digits_grow(digits_from(0, ip), fp);
                }
            }
            None
        },
        Some(a) => match accumulate(s, frac_start, n, a, max) {
            None => None,
            Some(m) => Some(Decimal { negative: neg, mantissa: m, scale: n - frac_start }),
        },
    }
}

/// The character of a digit below ten.
pub open spec fn digit_char(k: int) -> char {
    seq!['0', '1', '2', '3', '4', '5', '6', '7', '8', '9'][k]
}

/// The decimal digits of `n`, without leading zeros.
pub open spec fn digits_of(n: nat) -> Seq<char>
    decreases n,
{
    if n < 10 {
        seq![digit_char(n as int)]
    } else {
        digits_of(n / 10).push(digit_char((n % 10) as int))
    }
}

/// `ds` with zeros in front, up to `width` characters.
pub open spec fn padded(ds: Seq<char>, width: int) -> Seq<char> {
    if ds.len() >= width {
        ds
    } else {
        Seq::new((width - ds.len()) as nat, |i: int| '0') + ds
    }
}

/// The plain notation of a decimal: a `-` when negative, the digits of the
/// mantissa with at least one before the point, and `scale` digits after it.
pub open spec fn decimal_text(d: Decimal) -> Seq<char> {
    let ds = padded(digits_of(d.mantissa as nat), d.scale + 1);
    let k = ds.len() - d.scale;
    let body = if d.scale == 0 {
        ds
    } else {
        ds.take(k) + seq!['.'] + ds.skip(k)
    };
    if d.negative {
        seq!['-'] + body
    } else {
        body
    }
}

proof fn lemma_digits_concat(acc: int, a: Seq<char>, b: Seq<char>)
    ensures
        digits_from(acc, a + b) == digits_from(digits_from(acc, a), b),
    decreases a.len(),
{
    if a.len() > 0 {
        assert((a + b).drop_first() == a.drop_first() + b);
        assert((a + b)[0] == a[0]);
        lemma_digits_concat(acc * 10 + (a[0] as int - '0' as int), a.drop_first(), b);
    } else {
        assert(a + b == b);
    }
}

proof fn lemma_digits_of(n: nat)
    ensures
        all_digits(digits_of(n)),
        digits_from(0, digits_of(n)) == n,
        digits_of(n).len() >= 1,
    decreases n,
{
    let c = digit_char((n % 10) as int);
    assert(is_digit(c) && c as int - '0' as int == n % 10);
    if n >= 10 {
        lemma_digits_of(n / 10);
        let t = digits_of(n / 10);
        lemma_digits_concat(0, t, seq![c]);
        assert(t.push(c) == t + seq![c]);
        assert(seq![c].drop_first().len() == 0);
        assert(digits_from((n / 10) as int, seq![c]) == digits_from(((n / 10) * 10 + (n % 10)) as int, seq![c].drop_first()));
        assert((n / 10) * 10 + (n % 10) == n);
        assert forall|i: int| 0 <= i < t.push(c).len() implies is_digit(#[trigger] t.push(c)[i]) by {
            if i < t.len() {
                assert(t.push(c)[i] == t[i]);
            }
        }
    } else {
        assert(seq![c].drop_first().len() == 0);
        assert(digits_from(0, seq![c]) == digits_from(n as int, seq![c].drop_first()));
    }
}

proof fn lemma_zeros(acc: int, z: Seq<char>)
    requires
        forall|i: int| 0 <= i < z.len() ==> z[i] == '0',
    ensures
        digits_from(acc, z) == acc * pow10(z.len()),
    decreases z.len(),
{
    if z.len() > 0 {
        lemma_zeros(acc * 10, z.drop_first());
        assert(z.drop_first().len() == z.len() - 1);
        assert(acc * 10 * pow10((z.len() - 1) as nat) == acc * pow10(z.len())) by (nonlinear_arith)
            requires pow10(z.len()) == 10 * pow10((z.len() - 1) as nat);
    }
}

pub open spec fn pow10(n: nat) -> int
    decreases n,
{
    if n == 0 {
        1
    } else {
        10 * pow10((n - 1) as nat)
    }
}

#[verifier::rlimit(60)]
proof fn lemma_plain_text(d: Decimal)
    ensures
        plain_decimal(decimal_text(d)) == Some(d),
{
    let m = d.mantissa as nat;
    lemma_digits_of(m);
    let dg = digits_of(m);
    let ds = padded(dg, d.scale + 1);
    let k = ds.len() - d.scale;
    if dg.len() < d.scale + 1 {
        let z = Seq::new((d.scale + 1 - dg.len()) as nat, |i: int| '0');
        lemma_zeros(0, z);
        lemma_digits_concat(0, z, dg);
        assert forall|i: int| 0 <= i < ds.len() implies is_digit(#[trigger] ds[i]) by {
            if i >= z.len() {
                assert(ds[i] == dg[i - z.len()]);
            }
        }
    }
    assert(all_digits(ds));
    assert(digits_from(0, ds) == m);
    let body = if d.scale == 0 {
        ds
    } else {
        ds.take(k) + seq!['.'] + ds.skip(k)
    };
    let s = decimal_text(d);
    assert(s.skip(sign_len(s)) == body) by {
        if d.negative {
            assert(s[0] == '-');
            assert(s.skip(1) == body);
        } else {
            assert(s == body);
            assert(is_digit(ds[0]));
            assert(body[0] == ds[0]);
        }
    }
    assert(is_negative(s) == d.negative) by {
        if !d.negative {
            assert(is_digit(ds[0]));
            assert(body[0] == ds[0]);
        }
    }
    if d.scale == 0 {
        assert forall|j: int| 0 <= j < body.len() implies body[j] != '.' by {
            assert(is_digit(body[j]));
        }
        lemma_dot_pos(body, body.len() as int);
        assert(body.take(body.len() as int) == body);
        assert(fraction_part(body) == Seq::<char>::empty());
        assert(ds + Seq::<char>::empty() == ds);
        lemma_digits_concat(0, ds, Seq::<char>::empty());
    } else {
        assert forall|j: int| 0 <= j < k implies body[j] != '.' by {
            assert(body[j] == ds[j]);
            assert(is_digit(ds[j]));
        }
        lemma_dot_pos(body, k);
        let ip = body.take(k);
        let fp = fraction_part(body);
        assert(ip == ds.take(k));
        assert(fp == ds.skip(k));
        assert(ds.take(k) + ds.skip(k) == ds);
        lemma_digits_concat(0, ds.take(k), ds.skip(k));
        assert(all_digits(ip)) by {
            assert forall|j: int| 0 <= j < ip.len() implies is_digit(#[trigger] ip[j]) by {
                assert(ip[j] == ds[j]);
            }
        }
        assert(all_digits(fp)) by {
            assert forall|j: int| 0 <= j < fp.len() implies is_digit(#[trigger] fp[j]) by {
                assert(fp[j] == ds[j + k]);
            }
        }
    }
}

/// Index of the first `e` or `E` in `s`, or its length when it has none.
pub open spec fn exp_pos(s: Seq<char>) -> int
    decreases s.len(),
{
    if s.len() == 0 || s[0] == 'e' || s[0] == 'E' {
        0
    } else {
        1 + exp_pos(s.drop_first())
    }
}

/// The decimal written by `s`: a number in plain notation (see
/// [`plain_decimal`]), optionally followed by an exponent, `e` or `E` then an
/// integer that fits in `i64`, as in `1e5` or `2.5E-3`. A positive exponent
/// multiplies the mantissa, which must still fit in `u128`; a negative one adds
/// to the scale. Words such as `inf` or `NaN` are not decimals.
pub open spec fn decimal_value(s: Seq<char>) -> Option<Decimal> {
    let k = exp_pos(s);
    match plain_decimal(s.take(k)) {
        None => None,
        Some(d) => if k == s.len() {
            Some(d)
        } else {
            match within(signed_value(s.skip(k + 1)), i64::MIN as int, i64::MAX as int) {
                None => None,
                Some(x) => if x >= 0 {
                    let m = d.mantissa * pow10(x as nat);
                    if m <= u128::MAX {
                        Some(Decimal { negative: d.negative, mantissa: m as u128, scale: d.scale })
                    } else {
                        None
                    }
                } else {
                    let sc = d.scale - x;
                    if sc <= usize::MAX {
                        Some(Decimal { negative: d.negative, mantissa: d.mantissa, scale: sc as usize })
                    } else {
                        None
                    }
                },
            }
        },
    }
}

proof fn lemma_exp_pos(b: Seq<char>, k: int)
    requires
        0 <= k <= b.len(),
        forall|j: int| 0 <= j < k ==> b[j] != 'e' && b[j] != 'E',
        k == b.len() || b[k] == 'e' || b[k] == 'E',
    ensures
        exp_pos(b) == k,
    decreases k,
{
    if k > 0 {
        let t = b.drop_first();
        assert forall|j: int| 0 <= j < k - 1 implies t[j] != 'e' && t[j] != 'E' by {
            assert(t[j] == b[j + 1]);
        }
        lemma_exp_pos(t, k - 1);
    }
}

proof fn lemma_pow10_add(a: nat, b: nat)
    ensures
        pow10(a + b) == pow10(a) * pow10(b),
        pow10(a) >= 1,
    decreases a,
{
    if a > 0 {
        lemma_pow10_add((a - 1) as nat, b);
        assert((a - 1) as nat + b == (a + b - 1) as nat);
        assert(pow10(a + b) == 10 * pow10((a + b - 1) as nat));
        assert(10 * (pow10((a - 1) as nat) * pow10(b)) == (10 * pow10((a - 1) as nat)) * pow10(b))
            by (nonlinear_arith);
    }
}

/// Parses a decimal, with an optional exponent; see [`decimal_value`].
pub fn parse_decimal(s: &str) -> (r: Option<Decimal>)
    ensures
        r == decimal_value(s@),
{
    let n = s.unicode_len();
    let mut k: usize = 0;
    while k < n && s.get_char(k) != 'e' && s.get_char(k) != 'E'
        invariant
            n == s@.len(),
            k <= n,
            forall|j: int| 0 <= j < k ==> s@[j] != 'e' && s@[j] != 'E',
        decreases n - k,
    {
        k = k + 1;
    }
    proof {
        lemma_exp_pos(s@, k as int);
    }
    let base = s.substring_char(0, k);
    assert(base@ == s@.take(k as int));
    let d = match parse_plain(base) {
        Some(d) => d,
        None => return None,
    };
    if k == n {
        return Some(d);
    }
    let ex = s.substring_char(k + 1, n);
    assert(ex@ == s@.skip(k + 1));
    let x = match parse_i64(ex) {
        Some(x) => x,
        None => return None,
    };
    if x >= 0 {
        if d.mantissa == 0 {
            assert(0 * pow10(x as nat) == 0);
            return Some(d);
        }
        let max: u128 = 340282366920938463463374607431768211455;
        let mut m: u128 = d.mantissa;
        let mut i: i64 = 0;
        assert(pow10(0) == 1);
        let ghost target = d.mantissa * pow10(x as nat);
        assert(target <= u128::MAX ==> decimal_value(s@) == Some(
            Decimal { negative: d.negative, mantissa: target as u128, scale: d.scale },
        ));
        assert(target > u128::MAX ==> decimal_value(s@) is None);
        while i < x
            invariant
                target == d.mantissa * pow10(x as nat),
                target <= u128::MAX ==> decimal_value(s@) == Some(
                    Decimal { negative: d.negative, mantissa: target as u128, scale: d.scale },
                ),
                target > u128::MAX ==> decimal_value(s@) is None,
                0 <= i <= x,
                d.mantissa > 0,
                max == u128::MAX,
                m as int == d.mantissa * pow10(i as nat),
            decreases x - i,
        {
            if m > max / 10 {
                proof {
                    lemma_pow10_add(i as nat, (x - i) as nat);
                    lemma_pow10_add((x - i - 1) as nat, 1);
                    assert(pow10(0) == 1 && pow10(1) == 10);
                    let q = pow10((x - i - 1) as nat);
                    assert(pow10((x - i) as nat) == q * 10) by {
                        assert((x - i - 1) as nat + 1 == (x - i) as nat);
                    }
                    assert(m * (q * 10) >= m * 10) by (nonlinear_arith)
                        requires q >= 1, m >= 0;
                    assert(d.mantissa * pow10(x as nat) == m * pow10((x - i) as nat)) by (
                    nonlinear_arith)
                        requires
                            m == d.mantissa * pow10(i as nat),
                            pow10(x as nat) == pow10(i as nat) * pow10((x - i) as nat),
                    ;
                    assert(m * 10 > max) by (nonlinear_arith)
                        requires m > max / 10;
                    let big = d.mantissa * pow10(x as nat);
                    let pw = pow10((x - i) as nat);
                    assert(big > u128::MAX) by (nonlinear_arith)
                        requires
                            big == m * pw,
                            pw == q * 10,
                            q >= 1,
                            m * 10 > max,
                            max == u128::MAX,
                            m >= 0,
                    ;
                }
                return None;
            }
            proof {
                lemma_pow10_add(i as nat, 1);
                assert(pow10(0) == 1 && pow10(1) == 10);
                assert(d.mantissa * pow10((i + 1) as nat) == (d.mantissa * pow10(i as nat)) * 10)
                    by (nonlinear_arith)
                    requires pow10((i + 1) as nat) == pow10(i as nat) * 10;
            }
            m = m * 10;
            i = i + 1;
        }
        assert(i == x);
        Some(Decimal { negative: d.negative, mantissa: m, scale: d.scale })
    } else {
        let extra: u128 = (0 - (x as i128)) as u128;
        if extra > (usize::MAX - d.scale) as u128 {
            return None;
        }
        Some(Decimal { negative: d.negative, mantissa: d.mantissa, scale: d.scale + extra as usize })
    }
}

/// Writing a decimal in plain notation and reading it back gives the same
/// decimal.
pub proof fn lemma_decimal_text(d: Decimal)
    ensures
        decimal_value(decimal_text(d)) == Some(d),
{
    lemma_plain_text(d);
    let t = decimal_text(d);
    let ds = padded(digits_of(d.mantissa as nat), d.scale + 1);
    lemma_digits_of(d.mantissa as nat);
    assert forall|j: int| 0 <= j < t.len() implies t[j] != 'e' && t[j] != 'E' by {
        assert(forall|i: int| 0 <= i < digits_of(d.mantissa as nat).len() ==> is_digit(
            #[trigger] digits_of(d.mantissa as nat)[i],
        ));
        if t[j] == 'e' || t[j] == 'E' {
            assert(false);
        }
    }
    lemma_exp_pos(t, t.len() as int);
    assert(t.take(t.len() as int) == t);
}

/// Writing an unsigned integer in decimal and reading it back gives the same
/// integer.
pub proof fn lemma_unsigned_text(n: nat)
    ensures
        unsigned_value(digits_of(n)) == Some(n as int),
{
    lemma_digits_of(n);
    let t = digits_of(n);
    assert(is_digit(t[0]));
    assert(sign_len(t) == 0);
    assert(t.skip(0) == t);
}

/// Decoding a decimal, writing it out and decoding again yields the same
/// quantity.
pub proof fn lemma_decimal_round_trip(s: Seq<char>)
    requires
        decimal_value(s) is Some,
    ensures
        decimal_value(decimal_text(decimal_value(s)->Some_0)) == decimal_value(s),
{
    lemma_decimal_text(decimal_value(s)->Some_0);
}

fn digit_of(k: u128) -> (c: char)
    requires
        k < 10,
    ensures
        c == digit_char(k as int),
{
    match k {
        0 => '0',
        1 => '1',
        2 => '2',
        3 => '3',
        4 => '4',
        5 => '5',
        6 => '6',
        7 => '7',
        8 => '8',
        _ => '9',
    }
}

fn digits_vec(n: u128) -> (r: Vec<char>)
    ensures
        r@ == digits_of(n as nat),
    decreases n,
{
    if n < 10 {
        vec![digit_of(n)]
    } else {
        let mut v = digits_vec(n / 10);
        v.push(digit_of(n % 10));
        v
    }
}

impl Decimal {
    /// The plain notation of this decimal, which decodes back to it.
    pub fn to_chars(&self) -> (r: Vec<char>)
        requires
            self.scale < usize::MAX,
        ensures
            r@ == decimal_text(*self),
    {
        let dg = digits_vec(self.mantissa);
        let width = self.scale + 1;
        let mut ds: Vec<char> = Vec::new();
        let mut i: usize = dg.len();
        while i < width
            invariant
                dg.len() <= i <= width || (width <= dg.len() && i == dg.len()),
                ds@ == Seq::new((i - dg.len()) as nat, |j: int| '0'),
            decreases width - i,
        {
            ds.push('0');
            i = i + 1;
        }
        let ghost zeros = ds@;
        let mut j: usize = 0;
        while j < dg.len()
            invariant
                j <= dg@.len(),
                ds@ == zeros + dg@.take(j as int),
            decreases dg.len() - j,
        {
            ds.push(dg[j]);
            j = j + 1;
            assert(dg@.take(j as int) == dg@.take(j - 1).push(dg@[j - 1]));
        }
        assert(dg@.take(dg.len() as int) == dg@);
        assert(ds@ == padded(dg@, self.scale + 1)) by {
            if dg@.len() >= self.scale + 1 {
                assert(zeros.len() == 0);
                assert(zeros + dg@ == dg@);
            }
        }
        let mut out: Vec<char> = Vec::new();
        if self.negative {
            out.push('-');
        }
        let ghost pre = out@;
        let k = ds.len() - self.scale;
        let mut p: usize = 0;
        while p < ds.len()
            invariant
                k <= ds@.len(),
                p <= ds@.len(),
                self.scale < usize::MAX,
                k == ds@.len() - self.scale,
                out@ == pre + if self.scale == 0 || p <= k {
                    ds@.take(p as int)
                } else {
                    ds@.take(k as int) + seq!['.'] + ds@.subrange(k as int, p as int)
                },
            decreases ds.len() - p,
        {
            if p == k && self.scale != 0 {
                out.push('.');
            }
            out.push(ds[p]);
            p = p + 1;
            assert(ds@.take(p as int) == ds@.take(p - 1).push(ds@[p - 1]));
            if p > k {
                assert(ds@.subrange(k as int, p as int) == ds@.subrange(k as int, p - 1).push(
                    ds@[p - 1],
                ));
            }
        }
        assert(ds@.take(ds.len() as int) == ds@);
        assert(ds@.subrange(k as int, ds.len() as int) == ds@.skip(k as int));
        assert(seq!['-'] + Seq::<char>::empty() == seq!['-']);
        out
    }
}

/// `a` and `b` denote the same number: both zero, whatever their signs, or
/// the same sign and equal quotients `mantissa / 10^scale`.
pub open spec fn same_value(a: Decimal, b: Decimal) -> bool {
    ||| a.mantissa == 0 && b.mantissa == 0
    ||| a.negative == b.negative && a.mantissa * pow10(b.scale as nat) == b.mantissa * pow10(
        a.scale as nat,
    )
}

/// Whether `a * 10^d` equals `b`.
fn scaled_eq(a: u128, d: usize, b: u128) -> (r: bool)
    ensures
        r == (a * pow10(d as nat) == b),
{
    if a == 0 {
        assert(0 * pow10(d as nat) == 0);
        return b == 0;
    }
    let max: u128 = 340282366920938463463374607431768211455;
    let mut m: u128 = a;
    let mut i: usize = 0;
    assert(pow10(0) == 1);
    while i < d
        invariant
            0 <= i <= d,
            a > 0,
            max == u128::MAX,
            m as int == a * pow10(i as nat),
        decreases d - i,
    {
        if m > max / 10 {
            proof {
                lemma_pow10_add(i as nat, (d - i) as nat);
                lemma_pow10_add((d - i - 1) as nat, 1);
                assert(pow10(0) == 1 && pow10(1) == 10);
                let q = pow10((d - i - 1) as nat);
                assert((d - i - 1) as nat + 1 == (d - i) as nat);
                let pw = pow10((d - i) as nat);
                let big = a * pow10(d as nat);
                assert(big == m * pw) by (nonlinear_arith)
                    requires
                        m == a * pow10(i as nat),
                        pow10(d as nat) == pow10(i as nat) * pw,
                        big == a * pow10(d as nat),
                ;
                assert(big > u128::MAX) by (nonlinear_arith)
                    requires
                        big == m * pw,
                        pw == q * 10,
                        q >= 1,
                        m > max / 10,
                        max == u128::MAX,
                ;
            }
            return false;
        }
        proof {
            lemma_pow10_add(i as nat, 1);
            assert(pow10(0) == 1 && pow10(1) == 10);
            assert(a * pow10((i + 1) as nat) == (a * pow10(i as nat)) * 10) by (nonlinear_arith)
                requires pow10((i + 1) as nat) == pow10(i as nat) * 10;
        }
        m = m * 10;
        i = i + 1;
    }
    m == b
}

proof fn lemma_cancel(a: int, b: int, lo: nat, d: nat)
    ensures
        (a * pow10(lo + d) == b * pow10(lo)) == (a * pow10(d) == b),
{
    lemma_pow10_add(lo, d);
    let p = pow10(lo);
    let q = pow10(d);
    assert(p >= 1);
    assert((a * (p * q) == b * p) == (a * q == b)) by (nonlinear_arith)
        requires p >= 1;
}

impl Decimal {
    /// Whether this decimal and `other` denote the same number, as `27000`
    /// and `27000.0` do.
    pub fn same_value(&self, other: &Decimal) -> (r: bool)
        ensures
            r == same_value(*self, *other),
    {
        if self.mantissa == 0 && other.mantissa == 0 {
            return true;
        }
        if self.negative != other.negative {
            return false;
        }
        if self.scale <= other.scale {
            proof {
                lemma_cancel(
                    self.mantissa as int,
                    other.mantissa as int,
                    self.scale as nat,
                    (other.scale - self.scale) as nat,
                );
                assert(self.scale as nat + (other.scale - self.scale) as nat == other.scale as nat);
            }
            scaled_eq(self.mantissa, other.scale - self.scale, other.mantissa)
        } else {
            proof {
                lemma_cancel(
                    other.mantissa as int,
                    self.mantissa as int,
                    other.scale as nat,
                    (self.scale - other.scale) as nat,
                );
                assert(other.scale as nat + (self.scale - other.scale) as nat == self.scale as nat);
            }
            scaled_eq(other.mantissa, self.scale - other.scale, self.mantissa)
        }
    }
}

/// An instant, held as the signed count of nanoseconds since the Unix epoch.
///
/// Note on units: the exchange documents its timestamps as milliseconds since
/// the epoch, yet every decoder here reads the wire count as nanoseconds, so
/// that `1695716760565` is an instant in January 1970. This keeps the instants
/// that existing consumers rely on; it is very likely a unit mistake, to be
/// corrected only once the owner of the data confirms the unit.
#[derive(Clone, Copy, Debug, PartialEq, Eq, Structural)]
pub struct Timestamp {
    pub nanos: i64,
}

} // verus!
