//! Exact numbers of the calculator and their decimal text.
use vstd::prelude::*;

verus! {

/// Most fractional digits shown for a value whose decimal expansion does not end.
pub const MAX_FRACTION_DIGITS: u64 = 16;

/// The character of the decimal digit `d` (`d < 10`).
pub open spec fn digit_char(d: nat) -> char {
    if d == 0 { '0' }
    else if d == 1 { '1' }
    else if d == 2 { '2' }
    else if d == 3 { '3' }
    else if d == 4 { '4' }
    else if d == 5 { '5' }
    else if d == 6 { '6' }
    else if d == 7 { '7' }
    else if d == 8 { '8' }
    else { '9' }
}

/// Decimal text of a natural number, without leading zeros.
pub open spec fn digits_of(n: nat) -> Seq<char>
    decreases n,
{
    if n < 10 {
        seq![digit_char(n)]
    } else {
        digits_of(n / 10).push(digit_char(n % 10))
    }
}

/// Appends the digit `d` to `out`.
fn push_digit(out: &mut String, d: u64)
    requires
        d < 10,
    ensures
        final(out)@ == old(out)@.push(digit_char(d as nat)),
{
    let s: &str = if d == 0 {
        "0"
    } else if d == 1 {
        "1"
    } else if d == 2 {
        "2"
    } else if d == 3 {
        "3"
    } else if d == 4 {
        "4"
    } else if d == 5 {
        "5"
    } else if d == 6 {
        "6"
    } else if d == 7 {
        "7"
    } else if d == 8 {
        "8"
    } else {
        "9"
    };
    proof {
        reveal_strlit("0");
        reveal_strlit("1");
        reveal_strlit("2");
        reveal_strlit("3");
        reveal_strlit("4");
        reveal_strlit("5");
        reveal_strlit("6");
        reveal_strlit("7");
        reveal_strlit("8");
        reveal_strlit("9");
    }
    out.append(s);
    assert(s@ =~= seq![digit_char(d as nat)]);
}

/// Appends the decimal text of `n` to `out`.
pub fn push_natural(out: &mut String, n: u64)
    ensures
        final(out)@ == old(out)@ + digits_of(n as nat),
    decreases n,
{
    let ghost before = out@;
    if n >= 10 {
        push_natural(out, n / 10);
        push_digit(out, n % 10);
        assert(digits_of(n as nat) == digits_of((n / 10) as nat).push(digit_char((n % 10) as nat)));
    } else {
        push_digit(out, n);
    }
    assert(out@ =~= before + digits_of(n as nat));
}


/// A number of the calculator: an exact fraction `num / den`, or one of the
/// non-finite results of a division by zero. Arithmetic leaves its results in
/// lowest terms.
#[derive(Clone, Copy, Debug, PartialEq, Eq, Structural)]
pub enum Number {
    Finite { num: i64, den: u64 },
    PosInf,
    NegInf,
    NaN,
}

/// The mathematical value that a `Number` stands for, with unbounded parts;
/// used in specifications only.
pub enum Exact {
    Finite { num: int, den: int },
    PosInf,
    NegInf,
    NaN,
}

impl View for Number {
    type V = Exact;

    open spec fn view(&self) -> Exact {
        match *self {
            Number::Finite { num, den } => Exact::Finite { num: num as int, den: den as int },
            Number::PosInf => Exact::PosInf,
            Number::NegInf => Exact::NegInf,
            Number::NaN => Exact::NaN,
        }
    }
}

/// Whether `e` fits the fields of a `Number`, with a positive denominator.
pub open spec fn representable(e: Exact) -> bool {
    match e {
        Exact::Finite { num, den } => i64::MIN <= num <= i64::MAX && 1 <= den <= u64::MAX,
        _ => true,
    }
}

/// The `Number` that holds a representable `e`.
pub open spec fn number_of(e: Exact) -> Number {
    match e {
        Exact::Finite { num, den } => Number::Finite { num: num as i64, den: den as u64 },
        Exact::PosInf => Number::PosInf,
        Exact::NegInf => Number::NegInf,
        Exact::NaN => Number::NaN,
    }
}

pub open spec fn abs(n: int) -> nat {
    if n < 0 { (-n) as nat } else { n as nat }
}

/// The greatest common divisor of `a` and `b`, by Euclid's algorithm.
pub open spec fn gcd(a: nat, b: nat) -> nat
    decreases b,
{
    if b == 0 { a } else { gcd(b, a % b) }
}

/// The fraction `num / den` in lowest terms.
pub open spec fn reduce(num: int, den: nat) -> Exact {
    let g = gcd(abs(num), den);
    let m = abs(num) / g;
    Exact::Finite { num: if num < 0 { -m } else { m as int }, den: (den / g) as int }
}

/// The exact whole number `n`.
pub open spec fn whole(n: int) -> Exact {
    Exact::Finite { num: n, den: 1 }
}

/// Whether `e` is a finite number.
pub open spec fn is_finite(e: Exact) -> bool {
    e is Finite
}

/// `10` to the power `k`.
pub open spec fn pow10(k: nat) -> nat
    decreases k,
{
    if k == 0 { 1 } else { 10 * pow10((k - 1) as nat) }
}

/// The natural number that a sequence of decimal digits spells.
pub open spec fn digits_value(s: Seq<u8>) -> nat
    decreases s.len(),
{
    if s.len() == 0 { 0 } else { digits_value(s.drop_last()) * 10 + s.last() as nat }
}

/// The fractional digits that the text of `num / den` shows.
pub open spec fn shown_fraction(num: int, den: int) -> Seq<u8> {
    trim_zeros(fraction_digits(abs(num) % (den as nat), den as nat, MAX_FRACTION_DIGITS as nat))
}

/// The value of the decimal text of a finite `e` followed by the digit `d`:
/// `12` and `5` give `125`, `-12` and `5` give `-125`, `2.5` and `3` give `2.53`; in lowest terms.
pub open spec fn appended(e: Exact, d: nat) -> Exact
    recommends
        is_finite(e),
{
    match e {
        Exact::Finite { num, den } => {
            let q = abs(num) / (den as nat);
            let f = shown_fraction(num, den);
            let k = f.len();
            let m: int = if k == 0 { (10 * q + d) as int } else { ((q * pow10(k) + digits_value(f)) * 10 + d) as int };
            let den2: nat = if k == 0 { 1 } else { pow10(k + 1) };
            reduce(if num < 0 { -m } else { m }, den2)
        },
        _ => e,
    }
}

/// `e + c`, in lowest terms.
pub open spec fn plus(e: Exact, c: nat) -> Exact {
    match e {
        Exact::Finite { num, den } => reduce(num + c * den, den as nat),
        _ => e,
    }
}

/// `e - c`, in lowest terms.
pub open spec fn minus(e: Exact, c: nat) -> Exact {
    match e {
        Exact::Finite { num, den } => reduce(num - c * den, den as nat),
        _ => e,
    }
}

/// `e * c`, in lowest terms; an infinity times zero is `NaN`.
pub open spec fn times(e: Exact, c: nat) -> Exact {
    match e {
        Exact::Finite { num, den } => reduce(num * c, den as nat),
        Exact::NaN => Exact::NaN,
        _ => if c == 0 { Exact::NaN } else { e },
    }
}

/// `e / c`, in lowest terms; a division by zero gives an infinity of the sign of `e`, or `NaN` for zero.
pub open spec fn divided(e: Exact, c: nat) -> Exact {
    match e {
        Exact::Finite { num, den } => if c == 0 {
            if num > 0 {
                Exact::PosInf
            } else if num < 0 {
                Exact::NegInf
            } else {
                Exact::NaN
            }
        } else {
            reduce(num, (den * c) as nat)
        },
        _ => e,
    }
}

/// The first `count` digits of the decimal expansion of `rem / den` (`rem < den`), stopping
/// early where the expansion ends.
pub open spec fn fraction_digits(rem: nat, den: nat, count: nat) -> Seq<u8>
    decreases count,
{
    if count == 0 || rem == 0 || den == 0 {
        seq![]
    } else {
        seq![((rem * 10) / den) as u8] + fraction_digits((rem * 10) % den, den, (count - 1) as nat)
    }
}

/// `s` without its trailing zeros.
pub open spec fn trim_zeros(s: Seq<u8>) -> Seq<u8>
    decreases s.len(),
{
    if s.len() > 0 && s.last() == 0 {
        trim_zeros(s.drop_last())
    } else {
        s
    }
}

/// The characters of a sequence of decimal digits.
pub open spec fn digits_text(s: Seq<u8>) -> Seq<char> {
    s.map_values(|d: u8| digit_char(d as nat))
}

/// Decimal text of `e`: the sign, the whole part, and a point with the fractional
/// digits when there are any (at most `MAX_FRACTION_DIGITS` of them, cut off
/// beyond); `inf`, `-inf` or `NaN` for the other values.
pub open spec fn number_text(e: Exact) -> Seq<char> {
    match e {
        Exact::Finite { num, den } => {
            let sign = if num < 0 { seq!['-'] } else { Seq::<char>::empty() };
            let d = den as nat;
            let frac = shown_fraction(num, den);
            let tail = if frac.len() == 0 { Seq::<char>::empty() } else { seq!['.'] + digits_text(frac) };
            sign + digits_of(abs(num) / d) + tail
        },
        Exact::PosInf => seq!['i', 'n', 'f'],
        Exact::NegInf => seq!['-', 'i', 'n', 'f'],
        Exact::NaN => seq!['N', 'a', 'N'],
    }
}


/// The magnitude of `n`.
fn magnitude(n: i64) -> (r: u64)
    ensures
        r as nat == abs(n as int),
{
    if n < 0 {
        (-(n as i128)) as u64
    } else {
        n as u64
    }
}

/// Appends to `digits` the expansion that `fraction_digits` gives.
fn push_fraction(digits: &mut Vec<u8>, rem: u64, den: u64, count: u64)
    requires
        rem < den,
    ensures
        final(digits)@ == old(digits)@ + fraction_digits(rem as nat, den as nat, count as nat),
    decreases count,
{
    let ghost before = digits@;
    if count == 0 || rem == 0 {
        assert(digits@ =~= before + fraction_digits(rem as nat, den as nat, count as nat));
        return;
    }
    let scaled: u128 = rem as u128 * 10;
    let d: u128 = scaled / (den as u128);
    assert(d < 10) by (nonlinear_arith)
        requires
            d == scaled / (den as u128),
            scaled == rem * 10,
            rem < den,
    ;
    let next: u128 = scaled % (den as u128);
    digits.push(d as u8);
    push_fraction(digits, next as u64, den, count - 1);
    assert(digits@ =~= before + fraction_digits(rem as nat, den as nat, count as nat));
}

/// Appends the characters of `digits[0..n]` to `out`.
fn push_digits(out: &mut String, digits: &Vec<u8>, n: usize)
    requires
        n <= digits@.len(),
        forall|i: int| 0 <= i < digits@.len() ==> digits@[i] < 10,
    ensures
        final(out)@ == old(out)@ + digits_text(digits@.subrange(0, n as int)),
{
    let ghost before = out@;
    let mut i: usize = 0;
    while i < n
        invariant
            i <= n <= digits@.len(),
            forall|j: int| 0 <= j < digits@.len() ==> digits@[j] < 10,
            out@ == before + digits_text(digits@.subrange(0, i as int)),
        decreases n - i,
    {
        push_digit(out, digits[i] as u64);
        assert(digits_text(digits@.subrange(0, i + 1)) =~= digits_text(digits@.subrange(0, i as int)).push(
            digit_char(digits@[i as int] as nat),
        ));
        i = i + 1;
    }
    assert(out@ =~= before + digits_text(digits@.subrange(0, n as int)));
}

proof fn lemma_fraction_digits_small(rem: nat, den: nat, count: nat)
    requires
        rem < den,
    ensures
        forall|i: int|
            0 <= i < fraction_digits(rem, den, count).len() ==> #[trigger] fraction_digits(
                rem,
                den,
                count,
            )[i] < 10,
    decreases count,
{
    if count == 0 || rem == 0 || den == 0 {
    } else {
        let d = (rem * 10) / den;
        assert(d < 10) by (nonlinear_arith)
            requires
                d == (rem * 10) / den,
                rem < den,
        ;
        let next = (rem * 10) % den;
        assert(next < den) by (nonlinear_arith)
            requires
                next == (rem * 10) % den,
                rem < den,
        ;
        lemma_fraction_digits_small(next, den, (count - 1) as nat);
        let s = fraction_digits(rem, den, count);
        assert(s == seq![d as u8] + fraction_digits(next, den, (count - 1) as nat));
        assert forall|i: int| 0 <= i < s.len() implies #[trigger] s[i] < 10 by {
            if i > 0 {
                assert(s[i] == fraction_digits(next, den, (count - 1) as nat)[i - 1]);
            }
        }
    }
}

proof fn lemma_trim_zeros_step(s: Seq<u8>, n: int)
    requires
        0 < n <= s.len(),
        s[n - 1] == 0,
    ensures
        trim_zeros(s.subrange(0, n)) == trim_zeros(s.subrange(0, n - 1)),
{
    let t = s.subrange(0, n);
    assert(t.drop_last() =~= s.subrange(0, n - 1));
}

/// Length of `digits` without its trailing zeros.
fn trimmed_len(digits: &Vec<u8>) -> (n: usize)
    ensures
        n <= digits@.len(),
        trim_zeros(digits@) == digits@.subrange(0, n as int),
{
    let mut n: usize = digits.len();
    assert(digits@.subrange(0, n as int) =~= digits@);
    while n > 0 && digits[n - 1] == 0
        invariant
            n <= digits@.len(),
            trim_zeros(digits@.subrange(0, n as int)) == trim_zeros(digits@),
        decreases n,
    {
        proof {
            lemma_trim_zeros_step(digits@, n as int);
        }
        n = n - 1;
    }
    let ghost kept = digits@.subrange(0, n as int);
    if n > 0 {
        assert(kept.last() == digits@[n - 1]);
    }
    assert(trim_zeros(kept) == kept);
    n
}

proof fn lemma_fraction_digits_len(rem: nat, den: nat, count: nat)
    ensures
        fraction_digits(rem, den, count).len() <= count,
    decreases count,
{
    if count > 0 && rem != 0 && den != 0 {
        lemma_fraction_digits_len((rem * 10) % den, den, (count - 1) as nat);
    }
}

/// The fractional digits that the text of `m / den` shows: `r.0[0..r.1]`.
fn shown_digits(m: u64, den: u64) -> (r: (Vec<u8>, usize))
    requires
        den >= 1,
    ensures
        r.1 <= r.0@.len(),
        r.1 <= MAX_FRACTION_DIGITS,
        r.0@.subrange(0, r.1 as int) == shown_fraction(m as int, den as int),
        forall|i: int| 0 <= i < r.0@.len() ==> r.0@[i] < 10,
{
    let mut digits: Vec<u8> = Vec::new();
    push_fraction(&mut digits, m % den, den, MAX_FRACTION_DIGITS);
    proof {
        lemma_fraction_digits_small((m % den) as nat, den as nat, MAX_FRACTION_DIGITS as nat);
        lemma_fraction_digits_len((m % den) as nat, den as nat, MAX_FRACTION_DIGITS as nat);
        assert(digits@ =~= fraction_digits((m % den) as nat, den as nat, MAX_FRACTION_DIGITS as nat));
    }
    let n = trimmed_len(&digits);
    (digits, n)
}

proof fn lemma_pow10_le(i: nat, j: nat)
    requires
        i <= j,
    ensures
        1 <= pow10(i) <= pow10(j),
    decreases j,
{
    if j > i {
        lemma_pow10_le(i, (j - 1) as nat);
    } else if i > 0 {
        lemma_pow10_le((i - 1) as nat, (i - 1) as nat);
    }
}

proof fn lemma_pow10_16()
    ensures
        pow10(16) == 10_000_000_000_000_000,
{
    reveal_with_fuel(pow10, 17);
}

/// The number that `digits[0..n]` spell, and `10` to the power `n`.
fn digits_number(digits: &Vec<u8>, n: usize) -> (r: (u64, u64))
    requires
        n <= digits@.len(),
        n <= MAX_FRACTION_DIGITS,
        forall|i: int| 0 <= i < digits@.len() ==> digits@[i] < 10,
    ensures
        r.0 as nat == digits_value(digits@.subrange(0, n as int)),
        r.1 as nat == pow10(n as nat),
        r.0 < r.1,
        r.1 <= 10_000_000_000_000_000,
{
    let mut v: u64 = 0;
    let mut p: u64 = 1;
    let mut i: usize = 0;
    assert(digits@.subrange(0, 0) =~= Seq::<u8>::empty());
    proof {
        lemma_pow10_le(n as nat, 16);
        lemma_pow10_16();
    }
    while i < n
        invariant
            i <= n <= digits@.len(),
            n <= MAX_FRACTION_DIGITS,
            forall|j: int| 0 <= j < digits@.len() ==> digits@[j] < 10,
            v as nat == digits_value(digits@.subrange(0, i as int)),
            p as nat == pow10(i as nat),
            v < p,
            pow10(n as nat) <= 10_000_000_000_000_000,
        decreases n - i,
    {
        let dg = digits[i];
        proof {
            lemma_pow10_le((i + 1) as nat, 16);
            lemma_pow10_16();
            assert(v * 10 + dg < p * 10) by (nonlinear_arith)
                requires
                    v < p,
                    dg < 10,
            ;
            assert(digits@.subrange(0, i + 1).drop_last() =~= digits@.subrange(0, i as int));
        }
        v = v * 10 + dg as u64;
        p = p * 10;
        i = i + 1;
    }
    (v, p)
}

/// Appends the decimal text of `num / den` to `out`.
fn push_finite(out: &mut String, num: i64, den: u64)
    requires
        den >= 1,
    ensures
        final(out)@ == old(out)@ + number_text(Exact::Finite { num: num as int, den: den as int }),
{
    let ghost before = out@;
    let ghost e = Exact::Finite { num: num as int, den: den as int };
    proof {
        reveal_strlit("-");
        reveal_strlit(".");
    }
    if num < 0 {
        out.append("-");
    }
    let m = magnitude(num);
    push_natural(out, m / den);
    let (digits, n) = shown_digits(m, den);
    let ghost kept = digits@.subrange(0, n as int);
    if n > 0 {
        out.append(".");
        push_digits(out, &digits, n);
    } else {
        assert(kept =~= Seq::<u8>::empty());
    }
    assert(out@ =~= before + number_text(e));
}

proof fn lemma_gcd_bounds(a: nat, b: nat)
    requires
        b > 0,
    ensures
        1 <= gcd(a, b) <= b,
    decreases b,
{
    assert(gcd(a, b) == gcd(b, a % b));
    if a % b != 0 {
        lemma_gcd_bounds(b, a % b);
    } else {
        assert(gcd(b, 0) == b);
    }
}

/// The greatest common divisor of `a` and `b`.
fn gcd_of(a: u128, b: u128) -> (r: u128)
    ensures
        r == gcd(a as nat, b as nat),
{
    let mut x = a;
    let mut y = b;
    while y != 0
        invariant
            gcd(x as nat, y as nat) == gcd(a as nat, b as nat),
        decreases y,
    {
        let t = x % y;
        x = y;
        y = t;
    }
    x
}

/// `num / den` in lowest terms, if it fits a `Number`.
fn reduce_fit(num: i128, den: u128) -> (r: Option<Number>)
    requires
        den >= 1,
        num > i128::MIN,
    ensures
        r is Some <==> representable(reduce(num as int, den as nat)),
        r matches Some(v) ==> v@ == reduce(num as int, den as nat) && v.wf(),
{
    let mag: u128 = if num < 0 { (-num) as u128 } else { num as u128 };
    let g = gcd_of(mag, den);
    proof {
        lemma_gcd_bounds(mag as nat, den as nat);
    }
    let m = mag / g;
    let d = den / g;
    assert(d >= 1) by (nonlinear_arith)
        requires
            d == den / g,
            1 <= g <= den,
    ;
    if d > u64::MAX as u128 {
        return None;
    }
    if num < 0 {
        if m <= 0x8000_0000_0000_0000 {
            Some(Number::Finite { num: (-(m as i128)) as i64, den: d as u64 })
        } else {
            None
        }
    } else if m <= 0x7fff_ffff_ffff_ffff {
        Some(Number::Finite { num: m as i64, den: d as u64 })
    } else {
        None
    }
}

impl Number {
    /// Whether a finite value is a fraction in lowest terms.
    pub open spec fn in_lowest_terms(&self) -> bool {
        match *self {
            Number::Finite { num, den } => gcd(abs(num as int), den as nat) == 1,
            _ => true,
        }
    }

    /// Whether a finite value has a positive denominator.
    pub open spec fn wf(&self) -> bool {
        match *self {
            Number::Finite { num, den } => den >= 1,
            _ => true,
        }
    }

    /// The whole number `n`.
    pub fn whole(n: i64) -> (r: Number)
        ensures
            r@ == whole(n as int),
            r.wf(),
    {
        Number::Finite { num: n, den: 1 }
    }

    /// Whether the value is finite.
    pub fn is_finite(&self) -> (r: bool)
        ensures
            r == is_finite(self@),
    {
        match *self {
            Number::Finite { .. } => true,
            _ => false,
        }
    }

    /// Decimal text of the value, as `number_text` gives it.
    pub fn text(&self) -> (r: String)
        requires
            self.wf(),
        ensures
            r@ == number_text(self@),
    {
        let mut out = String::new();
        self.push_text(&mut out);
        assert(out@ =~= number_text(self@));
        out
    }

    /// Appends the decimal text of the value to `out`.
    pub fn push_text(&self, out: &mut String)
        requires
            self.wf(),
        ensures
            final(out)@ == old(out)@ + number_text(self@),
    {
        let ghost before = out@;
        proof {
            reveal_strlit("inf");
            reveal_strlit("-inf");
            reveal_strlit("NaN");
        }
        match *self {
            Number::Finite { num, den } => {
                push_finite(out, num, den);
            },
            Number::PosInf => {
                out.append("inf");
                assert(out@ =~= before + number_text(self@));
            },
            Number::NegInf => {
                out.append("-inf");
                assert(out@ =~= before + number_text(self@));
            },
            Number::NaN => {
                out.append("NaN");
                assert(out@ =~= before + number_text(self@));
            },
        }
    }

    /// The value of the decimal text followed by the digit `d`, if the value is
    /// finite and the result fits.
    pub fn append_digit(&self, d: u8) -> (r: Option<Number>)
        requires
            self.wf(),
            d < 10,
        ensures
            r is Some <==> is_finite(self@) && representable(appended(self@, d as nat)),
            r matches Some(v) ==> v@ == appended(self@, d as nat) && v.wf(),
    {
        match *self {
            Number::Finite { num, den } => {
                let m = magnitude(num);
                let q: u64 = m / den;
                let (digits, n) = shown_digits(m, den);
                let v: u128;
                let den2: u64;
                if n == 0 {
                    v = q as u128 * 10 + d as u128;
                    den2 = 1;
                } else {
                    let (f, p) = digits_number(&digits, n);
                    assert(q as u128 * p as u128 <= 0xffff_ffff_ffff_ffff * 10_000_000_000_000_000)
                        by (nonlinear_arith)
                        requires
                            q <= 0xffff_ffff_ffff_ffff,
                            p <= 10_000_000_000_000_000,
                    ;
                    v = (q as u128 * p as u128 + f as u128) * 10 + d as u128;
                    den2 = p * 10;
                }
                assert(v < 0x1000_0000_0000_0000_0000_0000_0000_0000);
                Self::signed_fit(num < 0, v, den2)
            },
            _ => None,
        }
    }

    /// `self + c`, if the result fits.
    pub fn checked_add(&self, c: u64) -> (r: Option<Number>)
        requires
            self.wf(),
            c <= i64::MAX,
        ensures
            r is Some <==> representable(plus(self@, c as nat)),
            r matches Some(v) ==> v@ == plus(self@, c as nat) && v.wf(),
    {
        match *self {
            Number::Finite { num, den } => {
                let prod: u128 = Self::scale(c, den);
                reduce_fit(num as i128 + prod as i128, den as u128)
            },
            _ => Some(*self),
        }
    }

    /// `self - c`, if the result fits.
    pub fn checked_sub(&self, c: u64) -> (r: Option<Number>)
        requires
            self.wf(),
            c <= i64::MAX,
        ensures
            r is Some <==> representable(minus(self@, c as nat)),
            r matches Some(v) ==> v@ == minus(self@, c as nat) && v.wf(),
    {
        match *self {
            Number::Finite { num, den } => {
                let prod: u128 = Self::scale(c, den);
                reduce_fit(num as i128 - prod as i128, den as u128)
            },
            _ => Some(*self),
        }
    }

    /// `self * c`, if the result fits.
    pub fn checked_mul(&self, c: u64) -> (r: Option<Number>)
        requires
            self.wf(),
            c <= i64::MAX,
        ensures
            r is Some <==> representable(times(self@, c as nat)),
            r matches Some(v) ==> v@ == times(self@, c as nat) && v.wf(),
    {
        match *self {
            Number::Finite { num, den } => {
                let n = num as i128;
                let k = c as i128;
                assert(-0x4000_0000_0000_0000_0000_0000_0000_0000 <= n * k <= 0x4000_0000_0000_0000_0000_0000_0000_0000)
                    by (nonlinear_arith)
                    requires
                        -0x8000_0000_0000_0000 <= n <= 0x7fff_ffff_ffff_ffff,
                        0 <= k <= 0x7fff_ffff_ffff_ffff,
                ;
                reduce_fit(n * k, den as u128)
            },
            Number::NaN => Some(Number::NaN),
            _ => if c == 0 {
                Some(Number::NaN)
            } else {
                Some(*self)
            },
        }
    }

    /// `self / c`, if the result fits; a division by zero gives an infinity or `NaN`.
    pub fn checked_div(&self, c: u64) -> (r: Option<Number>)
        requires
            self.wf(),
            c <= i64::MAX,
        ensures
            r is Some <==> representable(divided(self@, c as nat)),
            r matches Some(v) ==> v@ == divided(self@, c as nat) && v.wf(),
    {
        match *self {
            Number::Finite { num, den } => {
                if c == 0 {
                    if num > 0 {
                        Some(Number::PosInf)
                    } else if num < 0 {
                        Some(Number::NegInf)
                    } else {
                        Some(Number::NaN)
                    }
                } else {
                    let d: u128 = Self::scale(c, den);
                    assert(d == den * c && d >= 1) by (nonlinear_arith)
                        requires
                            d == c * den,
                            c >= 1,
                            den >= 1,
                    ;
                    reduce_fit(num as i128, d)
                }
            },
            _ => Some(*self),
        }
    }

    /// `-v / den` or `v / den` in lowest terms, if it fits.
    fn signed_fit(negative: bool, v: u128, den: u64) -> (r: Option<Number>)
        requires
            den >= 1,
            v < 0x1000_0000_0000_0000_0000_0000_0000_0000,
        ensures
            r is Some <==> representable(reduce(if negative { -v } else { v as int }, den as nat)),
            r matches Some(n) ==> n@ == reduce(if negative { -v } else { v as int }, den as nat) && n.wf(),
    {
        let n: i128 = if negative { -(v as i128) } else { v as i128 };
        reduce_fit(n, den as u128)
    }

    /// `c * den`, exactly.
    fn scale(c: u64, den: u64) -> (r: u128)
        requires
            c <= i64::MAX,
        ensures
            r == c * den,
            r <= 0x7fff_ffff_ffff_ffff * 0xffff_ffff_ffff_ffff,
    {
        assert(c as int * den as int <= 0x7fff_ffff_ffff_ffff * 0xffff_ffff_ffff_ffff) by (nonlinear_arith)
            requires
                c <= 0x7fff_ffff_ffff_ffff,
                den <= 0xffff_ffff_ffff_ffff,
        ;
        c as u128 * den as u128
    }
}

} // verus!
