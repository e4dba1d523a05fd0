//! Exact decimal readings and their text form.
use vstd::prelude::*;
use vstd::string::StringExecFns;

verus! {

/// A reading `mantissa × 10^(-scale)`: the exact value that an upstream API
/// sent as a JSON number.
#[derive(Clone, Copy, Debug, PartialEq, Eq)]
pub struct Decimal {
    pub mantissa: i64,
    pub scale: u32,
}

/// The character of one decimal digit.
pub open spec fn digit_char(d: nat) -> char {
    if d == 0 { '0' }
    else if d == 1 { '1' }
    else if d == 2 { '2' }
    else if d == 3 { '3' }
    else if d == 4 { '4' }
    else if d == 5 { '5' }
    else if d == 6 { '6' }
    else if d == 7 { '7' }
    else if d == 8 { '8' }
    else { '9' }
}

/// The decimal digits of `n`, most significant first, without leading zeros.
pub open spec fn digits_of(n: nat) -> Seq<char>
    decreases n,
{
    if n < 10 {
        seq![digit_char(n)]
    } else {
        digits_of(n / 10) + seq![digit_char(n % 10)]
    }
}

/// `n` zero characters.
pub open spec fn zeros(n: nat) -> Seq<char> {
    Seq::new(n, |i: int| '0')
}

/// `mag × 10^(-scale)` with the trailing zeros of its fraction removed.
pub open spec fn normalize(mag: nat, scale: nat) -> (nat, nat)
    decreases scale,
{
    if scale > 0 && mag % 10 == 0 {
        normalize(mag / 10, (scale - 1) as nat)
    } else {
        (mag, scale)
    }
}

/// The shortest text of `mag × 10^(-scale)`: no exponent, no trailing zeros in
/// the fraction, no decimal point for a whole number.
pub open spec fn unsigned_text(mag: nat, scale: nat) -> Seq<char> {
    let m = normalize(mag, scale).0;
    let k = normalize(mag, scale).1;
    let s = digits_of(m);
    if k == 0 {
        s
    } else if k >= s.len() {
        "0."@ + zeros((k - s.len()) as nat) + s
    } else {
        s.subrange(0, s.len() - k) + "."@ + s.subrange(s.len() - k, s.len() as int)
    }
}

/// The text of `mantissa × 10^(-scale)`, with a minus sign when it is negative.
pub open spec fn number_text(mantissa: int, scale: nat) -> Seq<char> {
    if mantissa < 0 {
        "-"@ + unsigned_text((-mantissa) as nat, scale)
    } else {
        unsigned_text(mantissa as nat, scale)
    }
}

/// The text of a reading.
pub open spec fn decimal_text(d: Decimal) -> Seq<char> {
    number_text(d.mantissa as int, d.scale as nat)
}

/// The text of a percentage reading divided by 100.
pub open spec fn ratio_text(d: Decimal) -> Seq<char> {
    number_text(d.mantissa as int, d.scale as nat + 2)
}

/// The text of a whole number.
pub open spec fn int_text(v: int) -> Seq<char> {
    number_text(v, 0)
}

fn digit_str(d: u64) -> (r: &'static str)
    requires
        d < 10,
    ensures
        r@ == seq![digit_char(d as nat)],
{
    if d == 0 {
        proof { reveal_strlit("0"); }
        "0"
    } else if d == 1 {
        proof { reveal_strlit("1"); }
        "1"
    } else if d == 2 {
        proof { reveal_strlit("2"); }
        "2"
    } else if d == 3 {
        proof { reveal_strlit("3"); }
        "3"
    } else if d == 4 {
        proof { reveal_strlit("4"); }
        "4"
    } else if d == 5 {
        proof { reveal_strlit("5"); }
        "5"
    } else if d == 6 {
        proof { reveal_strlit("6"); }
        "6"
    } else if d == 7 {
        proof { reveal_strlit("7"); }
        "7"
    } else if d == 8 {
        proof { reveal_strlit("8"); }
        "8"
    } else {
        proof { reveal_strlit("9"); }
        "9"
    }
}

fn push_digits(out: &mut String, n: u64)
    ensures
        final(out)@ == old(out)@ + digits_of(n as nat),
    decreases n,
{
    if n >= 10 {
        push_digits(out, n / 10);
    }
    out.append(digit_str(n % 10));
    proof {
        if n >= 10 {
            assert(old(out)@ + digits_of(n as nat) =~= old(out)@ + digits_of((n / 10) as nat)
                + seq![digit_char((n % 10) as nat)]);
        }
    }
}

fn push_zeros(out: &mut String, n: u64)
    ensures
        final(out)@ == old(out)@ + zeros(n as nat),
{
    let mut i: u64 = 0;
    while i < n
        invariant
            i <= n,
            out@ == old(out)@ + zeros(i as nat),
        decreases n - i,
    {
        out.append("0");
        proof { reveal_strlit("0"); }
        i = i + 1;
        assert(out@ =~= old(out)@ + zeros(i as nat));
    }
}

fn push_unsigned(out: &mut String, mag: u64, scale: u64)
    ensures
        final(out)@ == old(out)@ + unsigned_text(mag as nat, scale as nat),
{
    let mut m = mag;
    let mut k = scale;
    while k > 0 && m % 10 == 0
        invariant
            normalize(m as nat, k as nat) == normalize(mag as nat, scale as nat),
        decreases k,
    {
        m = m / 10;
        k = k - 1;
    }
    assert(normalize(m as nat, k as nat) == (m as nat, k as nat));
    if k == 0 {
        push_digits(out, m);
    } else {
        let mut s = String::new();
        push_digits(&mut s, m);
        let len = s.as_str().unicode_len();
        if k >= len as u64 {
            out.append("0.");
            push_zeros(out, k - len as u64);
            out.append(s.as_str());
            assert(out@ =~= old(out)@ + unsigned_text(mag as nat, scale as nat));
        } else {
            let cut = len - k as usize;
            out.append(s.as_str().substring_char(0, cut));
            out.append(".");
            out.append(s.as_str().substring_char(cut, len));
            assert(out@ =~= old(out)@ + unsigned_text(mag as nat, scale as nat));
        }
    }
}

/// Appends the text of `mantissa × 10^(-scale)`.
pub fn push_number(out: &mut String, mantissa: i64, scale: u64)
    ensures
        final(out)@ == old(out)@ + number_text(mantissa as int, scale as nat),
{
    if mantissa < 0 {
        out.append("-");
        let mag: u64 = (0i128 - mantissa as i128) as u64;
        push_unsigned(out, mag, scale);
        assert(out@ =~= old(out)@ + number_text(mantissa as int, scale as nat));
    } else {
        push_unsigned(out, mantissa as u64, scale);
    }
}

impl Decimal {
    /// The reading `mantissa × 10^(-scale)`.
    pub fn new(mantissa: i64, scale: u32) -> (r: Decimal)
        ensures
            r.mantissa == mantissa,
            r.scale == scale,
    {
        Decimal { mantissa, scale }
    }

    /// A whole number as a reading.
    pub fn from_int(v: i64) -> (r: Decimal)
        ensures
            r.mantissa == v,
            r.scale == 0,
    {
        Decimal { mantissa: v, scale: 0 }
    }

    /// The shortest decimal text of the reading (`57.3`, `-4`, `0.005`).
    pub fn to_text(&self) -> (r: String)
        ensures
            r@ == decimal_text(*self),
    {
        let mut out = String::new();
        push_number(&mut out, self.mantissa, self.scale as u64);
        assert(out@ =~= decimal_text(*self));
        out
    }

    /// The text of the reading divided by 100, as ratio metrics show a
    /// percentage (`57.3` gives `0.573`).
    pub fn to_ratio_text(&self) -> (r: String)
        ensures
            r@ == ratio_text(*self),
    {
        let mut out = String::new();
        push_number(&mut out, self.mantissa, self.scale as u64 + 2);
        assert(out@ =~= ratio_text(*self));
        out
    }
}

proof fn lemma_digits_single_line(n: nat)
    ensures
        forall|i: int| 0 <= i < digits_of(n).len() ==> digits_of(n)[i] != '\n',
    decreases n,
{
    if n >= 10 {
        lemma_digits_single_line(n / 10);
        let p = digits_of(n / 10);
        assert forall|i: int| 0 <= i < digits_of(n).len() implies digits_of(n)[i] != '\n' by {
            if i < p.len() {
                assert(digits_of(n)[i] == p[i]);
            }
        }
    }
}

/// The text of a number holds no line feed.
pub proof fn lemma_number_text_single_line(mantissa: int, scale: nat)
    ensures
        forall|i: int| 0 <= i < number_text(mantissa, scale).len() ==> number_text(mantissa, scale)[i] != '\n',
{
    let mag: nat = if mantissa < 0 { (-mantissa) as nat } else { mantissa as nat };
    let m = normalize(mag, scale).0;
    lemma_digits_single_line(m);
    reveal_strlit("0.");
    reveal_strlit(".");
    reveal_strlit("-");
    let u = unsigned_text(mag, scale);
    assert forall|i: int| 0 <= i < u.len() implies u[i] != '\n' by {
        let ds = digits_of(m);
        let k = normalize(mag, scale).1;
        if k != 0 && k >= ds.len() {
            let z = zeros((k - ds.len()) as nat);
            if i < 2 {
                assert(u[i] == "0."@[i]);
            } else if i < 2 + z.len() {
                assert(u[i] == z[i - 2]);
            } else {
                assert(u[i] == ds[i - 2 - z.len()]);
            }
        } else if k != 0 {
            let a = ds.subrange(0, ds.len() - k);
            if i < a.len() {
                assert(u[i] == ds[i]);
            } else if i == a.len() {
                assert(u[i] == '.');
            } else {
                assert(u[i] == ds[i - 1]);
            }
        }
    }
    let t = number_text(mantissa, scale);
    assert forall|i: int| 0 <= i < t.len() implies t[i] != '\n' by {
        if mantissa < 0 {
            if i > 0 {
                assert(t[i] == u[i - 1]);
            }
        }
    }
}

/// `10^n`.
pub open spec fn pow10(n: nat) -> nat
    decreases n,
{
    if n == 0 {
        1
    } else {
        10 * pow10((n - 1) as nat)
    }
}

proof fn lemma_pow10_positive(n: nat)
    ensures
        pow10(n) >= 1,
    decreases n,
{
    if n > 0 {
        lemma_pow10_positive((n - 1) as nat);
    }
}

proof fn lemma_pow10_add(a: nat, b: nat)
    ensures
        pow10(a + b) == pow10(a) * pow10(b),
    decreases a,
{
    if a > 0 {
        lemma_pow10_add((a - 1) as nat, b);
        assert(pow10(a + b) == 10 * pow10((a - 1 + b) as nat));
        let x = pow10((a - 1) as nat);
        let y = pow10(b);
        assert(pow10(a) == 10 * x);
        assert(10 * (x * y) == (10 * x) * y) by (nonlinear_arith);
    } else {
        assert(a + b == b);
        assert(pow10(a) == 1);
    }
}

proof fn lemma_normalize(mag: nat, k: nat)
    ensures
        normalize(mag, k).1 <= k,
        mag == normalize(mag, k).0 * pow10((k - normalize(mag, k).1) as nat),
        normalize(mag, k).1 == 0 || normalize(mag, k).0 % 10 != 0,
    decreases k,
{
    if k > 0 && mag % 10 == 0 {
        let k1 = (k - 1) as nat;
        lemma_normalize(mag / 10, k1);
        let m = normalize(mag / 10, k1).0;
        let p = normalize(mag / 10, k1).1;
        let x = pow10((k1 - p) as nat);
        assert(mag / 10 == m * x);
        assert(mag == 10 * (mag / 10));
        assert(normalize(mag, k) == normalize(mag / 10, k1));
        assert(k1 - p + 1 == k - p);
        assert(pow10((k - p) as nat) == 10 * pow10(((k - p) - 1) as nat));
        assert(((k - p) - 1) as nat == (k1 - p) as nat);
        assert(pow10((k - p) as nat) == 10 * x);
        assert(10 * (m * x) == m * (10 * x)) by (nonlinear_arith);
        assert(mag == m * pow10((k - p) as nat));
    } else {
        assert(normalize(mag, k) == (mag, k));
        assert(pow10(0) == 1);
        assert(mag == mag * pow10(0));
    }
}

proof fn lemma_normal_forms_equal(a: nat, p: nat, b: nat, q: nat, e: nat)
    requires
        p <= e,
        q <= e,
        a * pow10((e - p) as nat) == b * pow10((e - q) as nat),
        p == 0 || a % 10 != 0,
        q == 0 || b % 10 != 0,
    ensures
        a == b,
        p == q,
{
    if p < q {
        let d = (q - p) as nat;
        let r = (e - q) as nat;
        lemma_pow10_add(d, r);
        lemma_pow10_positive(r);
        lemma_pow10_positive((d - 1) as nat);
        let x = pow10(d);
        let y = pow10(r);
        assert(a * (x * y) == (a * x) * y) by (nonlinear_arith);
        assert(a * x == b) by (nonlinear_arith)
            requires
                (a * x) * y == b * y,
                y >= 1,
        ;
        let z = pow10((d - 1) as nat);
        assert(x == 10 * z);
        assert(a * (10 * z) == 10 * (a * z)) by (nonlinear_arith);
        assert((10 * (a * z)) % 10 == 0) by (nonlinear_arith);
    } else if q < p {
        let d = (p - q) as nat;
        let r = (e - p) as nat;
        lemma_pow10_add(d, r);
        lemma_pow10_positive(r);
        lemma_pow10_positive((d - 1) as nat);
        let x = pow10(d);
        let y = pow10(r);
        assert(b * (x * y) == (b * x) * y) by (nonlinear_arith);
        assert(b * x == a) by (nonlinear_arith)
            requires
                (b * x) * y == a * y,
                y >= 1,
        ;
        let z = pow10((d - 1) as nat);
        assert(x == 10 * z);
        assert(b * (10 * z) == 10 * (b * z)) by (nonlinear_arith);
        assert((10 * (b * z)) % 10 == 0) by (nonlinear_arith);
    } else {
        let y = pow10((e - p) as nat);
        lemma_pow10_positive((e - p) as nat);
        assert(a == b) by (nonlinear_arith)
            requires
                a * y == b * y,
                y >= 1,
        ;
    }
}

proof fn lemma_unsigned_text_canonical(x: nat, k1: nat, y: nat, k2: nat)
    requires
        x * pow10(k2) == y * pow10(k1),
    ensures
        unsigned_text(x, k1) == unsigned_text(y, k2),
{
    lemma_normalize(x, k1);
    lemma_normalize(y, k2);
    let a = normalize(x, k1).0;
    let p = normalize(x, k1).1;
    let b = normalize(y, k2).0;
    let q = normalize(y, k2).1;
    let e = k1 + k2;
    lemma_pow10_add((k1 - p) as nat, k2);
    lemma_pow10_add((k2 - q) as nat, k1);
    let u = pow10((k1 - p) as nat);
    let v = pow10((k2 - q) as nat);
    assert((a * u) * pow10(k2) == a * (u * pow10(k2))) by (nonlinear_arith);
    assert((b * v) * pow10(k1) == b * (v * pow10(k1))) by (nonlinear_arith);
    assert((e - p) as nat == (k1 - p) as nat + k2);
    assert((e - q) as nat == (k2 - q) as nat + k1);
    lemma_normal_forms_equal(a, p, b, q, e);
}

/// Two decimals with the same value have the same text: `m1 × 10^(-k1)`
/// and `m2 × 10^(-k2)` are equal exactly when `m1 × 10^k2 == m2 × 10^k1`.
pub proof fn lemma_text_canonical(m1: int, k1: nat, m2: int, k2: nat)
    requires
        m1 * pow10(k2) == m2 * pow10(k1),
    ensures
        number_text(m1, k1) == number_text(m2, k2),
{
    let x = pow10(k1);
    let y = pow10(k2);
    lemma_pow10_positive(k1);
    lemma_pow10_positive(k2);
    assert(m1 < 0 <==> m2 < 0) by (nonlinear_arith)
        requires
            m1 * y == m2 * x,
            x >= 1,
            y >= 1,
    ;
    if m1 < 0 {
        assert((-m1) * y == (-m2) * x) by (nonlinear_arith)
            requires
                m1 * y == m2 * x,
        ;
        lemma_unsigned_text_canonical((-m1) as nat, k1, (-m2) as nat, k2);
    } else {
        lemma_unsigned_text_canonical(m1 as nat, k1, m2 as nat, k2);
    }
}

/// A ratio is rendered as the percentage divided by 100, exactly: whatever
/// decimal `m × 10^(-k)` equals `d / 100`, its text is the ratio text of `d`.
pub proof fn law_ratio_is_hundredth(d: Decimal, m: int, k: nat)
    requires
        m * 100 * pow10(d.scale as nat) == d.mantissa * pow10(k),
    ensures
        number_text(m, k) == ratio_text(d),
{
    let s = d.scale as nat;
    assert(pow10(s + 2) == 100 * pow10(s)) by {
        assert(pow10(s + 2) == 10 * pow10(s + 1));
        assert(pow10(s + 1) == 10 * pow10(s));
    }
    assert(m * 100 * pow10(s) == m * (100 * pow10(s))) by (nonlinear_arith);
    lemma_text_canonical(m, k, d.mantissa as int, s + 2);
}

/// A decimal digit.
pub open spec fn is_digit(c: char) -> bool {
    '0' <= c && c <= '9'
}

/// Reading `b` from the left: the value of its digits, ignoring any point,
/// the number of points, and the number of digits after the first point.
pub open spec fn scan(b: Seq<char>) -> (nat, nat, nat)
    decreases b.len(),
{
    if b.len() == 0 {
        (0, 0, 0)
    } else {
        let prev = scan(b.drop_last());
        let c = b.last();
        if c == '.' {
            (prev.0, prev.1 + 1, prev.2)
        } else {
            (prev.0 * 10 + (c as u32 - '0' as u32) as nat, prev.1, if prev.1 > 0 { prev.2 + 1 } else { prev.2 })
        }
    }
}

/// The text starts with a minus sign.
pub open spec fn is_negative_text(s: Seq<char>) -> bool {
    s.len() > 0 && s[0] == '-'
}

/// The text after an optional minus sign.
pub open spec fn unsigned_part(s: Seq<char>) -> Seq<char> {
    if is_negative_text(s) { s.subrange(1, s.len() as int) } else { s }
}

/// Digits with at most one point, which is neither first nor last:
/// `12`, `0.5`, `57.30`.
pub open spec fn is_decimal_body(b: Seq<char>) -> bool {
    &&& b.len() > 0
    &&& forall|i: int| 0 <= i < b.len() ==> is_digit(#[trigger] b[i]) || b[i] == '.'
    &&& scan(b).1 <= 1
    &&& b[0] != '.'
    &&& b.last() != '.'
}

/// `s` is the text of `d` written out: an optional minus sign, then digits
/// with an optional point, whose value is `d`'s value and whose digit count
/// after the point is `d`'s scale.
pub open spec fn is_text_of(s: Seq<char>, d: Decimal) -> bool {
    let b = unsigned_part(s);
    &&& is_decimal_body(b)
    &&& d.mantissa == (if is_negative_text(s) { -(scan(b).0 as int) } else { scan(b).0 as int })
    &&& d.scale == scan(b).2
}

impl Decimal {
    /// Reads a decimal written as an optional minus sign, digits and an
    /// optional fraction (`57.3`, `-4`, `0.005`). `None` when the text has
    /// another form, or its value or scale does not fit a `Decimal`.
    #[verifier::rlimit(50)]
    pub fn parse(s: &str) -> (r: Option<Decimal>)
        ensures
            match r {
                Some(d) => is_text_of(s@, d),
                None => forall|d: Decimal| !is_text_of(s@, d),
            },
    {
        let n = s.unicode_len();
        let neg = n > 0 && s.get_char(0) == '-';
        let start: usize = if neg { 1 } else { 0 };
        let ghost b = unsigned_part(s@);
        assert(b =~= s@.subrange(start as int, n as int));
        if start == n {
            return None;
        }
        let limit: u128 = if neg { 9223372036854775808 } else { 9223372036854775807 };
        let mut mag: u64 = 0;
        let mut over = false;
        let mut points: usize = 0;
        let mut frac: usize = 0;
        let mut i: usize = start;
        while i < n
            invariant
                start <= i <= n,
                n == s@.len(),
                b == s@.subrange(start as int, n as int),
                b == unsigned_part(s@),
                neg == is_negative_text(s@),
                limit == (if neg { 9223372036854775808u128 } else { 9223372036854775807u128 }),
                mag <= limit,
                !over ==> mag == scan(b.take(i - start)).0,
                over ==> scan(b.take(i - start)).0 > limit,
                points == scan(b.take(i - start)).1,
                frac == scan(b.take(i - start)).2,
                frac <= i,
                points <= 1,
                forall|j: int| 0 <= j < i - start ==> is_digit(#[trigger] b[j]) || b[j] == '.',
            decreases n - i,
        {
            let c = s.get_char(i);
            let ghost k = (i - start) as int;
            assert(b.take(k + 1).drop_last() =~= b.take(k));
            assert(b.take(k + 1).last() == c);
            if c == '.' {
                if points > 0 {
                    proof {
                        lemma_scan_points_only_grow(b, k + 1);
                        lemma_not_a_body(s@, b);
                    }
                    return None;
                }
                points = points + 1;
            } else if '0' <= c && c <= '9' {
                let digit = (c as u32 - '0' as u32) as u128;
                let next: u128 = mag as u128 * 10 + digit;
                if !over {
                    if next > limit {
                        over = true;
                    } else {
                        mag = next as u64;
                    }
                }
                if points > 0 {
                    frac = frac + 1;
                }
            } else {
                proof {
                    assert(b[k] == c);
                    assert(!(is_digit(b[k]) || b[k] == '.'));
                    lemma_not_a_body(s@, b);
                }
                return None;
            }
            i = i + 1;
        }
        assert(b.take(n - start) =~= b);
        if s.get_char(start) == '.' || s.get_char(n - 1) == '.' {
            proof {
                assert(b[0] == s@[start as int]);
                assert(b.last() == s@[n - 1]);
                lemma_not_a_body(s@, b);
            }
            return None;
        }
        if over || frac > 4294967295 {
            proof {
                assert forall|d: Decimal| !is_text_of(s@, d) by {
                    if is_text_of(s@, d) {
                        assert(d.scale == frac);
                        assert(scan(b).0 > limit);
                    }
                }
            }
            return None;
        }
        let mantissa: i64 = if neg { (0 - mag as i128) as i64 } else { mag as i64 };
        Some(Decimal { mantissa, scale: frac as u32 })
    }
}

proof fn lemma_not_a_body(s: Seq<char>, b: Seq<char>)
    requires
        b == unsigned_part(s),
        !is_decimal_body(b),
    ensures
        forall|d: Decimal| !is_text_of(s, d),
{
}

proof fn lemma_scan_points_only_grow(b: Seq<char>, k: int)
    requires
        0 <= k <= b.len(),
    ensures
        scan(b).1 >= scan(b.take(k)).1,
    decreases b.len() - k,
{
    if k < b.len() {
        lemma_scan_points_only_grow(b, k + 1);
        assert(b.take(k + 1).drop_last() =~= b.take(k));
    } else {
        assert(b.take(k) =~= b);
    }
}

} // verus!
