//! Exact byte rates and their human-readable rendering.

use vstd::prelude::*;

verus! {

/// Microseconds in one second.
pub const MICROS_PER_SECOND: u64 = 1_000_000;

/// A rate of `bytes` transferred over `micros` microseconds, kept as an exact
/// fraction so that no rounding happens before the rate is displayed.
#[derive(Clone, Copy, Debug, PartialEq, Eq)]
pub struct Rate {
    bytes: u64,
    micros: u64,
}

impl Rate {
    /// The duration is positive and fits a signed 64-bit count of microseconds.
    pub open spec fn wf(self) -> bool {
        0 < self.spec_micros() <= i64::MAX
    }

    pub closed spec fn spec_bytes(self) -> nat {
        self.bytes as nat
    }

    pub closed spec fn spec_micros(self) -> nat {
        self.micros as nat
    }

    /// Numerator of the rate in bytes per second: `bytes_per_second == num / den`.
    pub open spec fn num(self) -> int {
        self.spec_bytes() * MICROS_PER_SECOND
    }

    /// Denominator of the rate in bytes per second.
    pub open spec fn den(self) -> int {
        self.spec_micros() as int
    }

    /// `bytes` over `micros` microseconds; a non-positive duration counts as one second.
    pub fn over(bytes: u64, micros: i64) -> (r: Rate)
        ensures
            r.wf(),
            r.spec_bytes() == bytes,
            r.spec_micros() == effective_micros(micros as int),
    {
        let m: u64 = if micros <= 0 {
            MICROS_PER_SECOND
        } else {
            micros as u64
        };
        Rate { bytes, micros: m }
    }

    /// `bytes` transferred in exactly one second.
    pub fn per_second(bytes: u64) -> (r: Rate)
        ensures
            r.wf(),
            r.spec_bytes() == bytes,
            r.spec_micros() == MICROS_PER_SECOND,
    {
        Rate { bytes, micros: MICROS_PER_SECOND }
    }

    pub fn bytes(&self) -> (r: u64)
        ensures
            r == self.spec_bytes(),
    {
        self.bytes
    }

    pub fn micros(&self) -> (r: u64)
        ensures
            r == self.spec_micros(),
    {
        self.micros
    }

    /// The text shown for this rate.
    pub fn humanize(&self) -> (s: String)
        requires
            self.wf(),
        ensures
            s@ == rate_text(self.num(), self.den()),
    {
        humanize(self)
    }
}

/// The duration actually divided by: a non-positive one is taken as one second.
pub open spec fn effective_micros(micros: int) -> int {
    if micros <= 0 {
        MICROS_PER_SECOND as int
    } else {
        micros
    }
}

/// Nearest integer to `p / q`, ties going to the even neighbour.
pub open spec fn round_half_even(p: int, q: int) -> int {
    let f = p / q;
    let r = p % q;
    if 2 * r > q {
        f + 1
    } else if 2 * r < q {
        f
    } else if f % 2 == 0 {
        f
    } else {
        f + 1
    }
}

pub open spec fn digit_char(d: int) -> char {
    seq!['0', '1', '2', '3', '4', '5', '6', '7', '8', '9'][d]
}

/// Decimal digits of `n`, without leading zeros.
pub open spec fn digits(n: nat) -> Seq<char>
    decreases n,
{
    if n < 10 {
        seq![digit_char(n as int)]
    } else {
        digits(n / 10).push(digit_char((n % 10) as int))
    }
}

/// `t` tenths written with exactly one decimal place.
pub open spec fn tenths(t: nat) -> Seq<char> {
    digits(t / 10) + seq!['.', digit_char((t % 10) as int)]
}

/// How many times 1024 divides the rate for display: 1 (KB/s) to 3 (GB/s).
pub open spec fn unit_level(n: int, d: int) -> int {
    if n < 1048576 * d {
        1
    } else if n < 1073741824 * d {
        2
    } else {
        3
    }
}

pub open spec fn unit_divisor(k: int) -> int {
    if k == 1 {
        1024
    } else if k == 2 {
        1048576
    } else {
        1073741824
    }
}

pub open spec fn unit_label(k: int) -> Seq<char> {
    if k == 1 {
        seq!['K', 'B', '/', 's']
    } else if k == 2 {
        seq!['M', 'B', '/', 's']
    } else {
        seq!['G', 'B', '/', 's']
    }
}

/// The display text of a rate of `n / d` bytes per second.
pub open spec fn rate_text(n: int, d: int) -> Seq<char> {
    if n < d {
        seq!['-', '-']
    } else if n < 1024 * d {
        digits(round_half_even(n, d) as nat) + seq![' ', 'B', '/', 's']
    } else {
        let k = unit_level(n, d);
        let q = unit_divisor(k) * d;
        let value = if n >= 100 * q {
            digits(round_half_even(n, q) as nat)
        } else {
            tenths(round_half_even(10 * n, q) as nat)
        };
        value + seq![' '] + unit_label(k)
    }
}

fn round_half_even_exec(p: u128, q: u128) -> (r: u128)
    requires
        0 < q,
        p < u128::MAX,
    ensures
        r == round_half_even(p as int, q as int),
{
    let f = p / q;
    let rem = p % q;
    assert(f <= p) by (nonlinear_arith)
        requires
            f == p / q,
            q > 0,
    ;
    if rem > q - rem {
        f + 1
    } else if rem < q - rem {
        f
    } else if f % 2 == 0 {
        f
    } else {
        f + 1
    }
}

fn digit_text(d: u128) -> (r: &'static str)
    requires
        d < 10,
    ensures
        r@ == seq![digit_char(d as int)],
{
    proof {
        reveal_strlit("0");
        reveal_strlit("1");
        reveal_strlit("2");
        reveal_strlit("3");
        reveal_strlit("4");
        reveal_strlit("5");
        reveal_strlit("6");
        reveal_strlit("7");
        reveal_strlit("8");
        reveal_strlit("9");
    }
    let r = if d == 0 {
        "0"
    } else if d == 1 {
        "1"
    } else if d == 2 {
        "2"
    } else if d == 3 {
        "3"
    } else if d == 4 {
        "4"
    } else if d == 5 {
        "5"
    } else if d == 6 {
        "6"
    } else if d == 7 {
        "7"
    } else if d == 8 {
        "8"
    } else {
        "9"
    };
    assert(r@ =~= seq![digit_char(d as int)]);
    r
}

/// Appends the decimal digits of `n` to `s`.
pub fn append_decimal(s: &mut String, n: u128)
    ensures
        final(s)@ == old(s)@ + digits(n as nat),
    decreases n,
{
    if n >= 10 {
        append_decimal(s, n / 10);
    }
    s.append(digit_text(n % 10));
    proof {
        if n >= 10 {
            assert(final(s)@ =~= old(s)@ + digits(n as nat));
        } else {
            assert(final(s)@ =~= old(s)@ + digits(n as nat));
        }
    }
}

/// Appends `t` tenths with one decimal place to `s`.
fn append_tenths(s: &mut String, t: u128)
    ensures
        final(s)@ == old(s)@ + tenths(t as nat),
{
    append_decimal(s, t / 10);
    s.append(".");
    s.append(digit_text(t % 10));
    proof {
        reveal_strlit(".");
        assert(final(s)@ =~= old(s)@ + tenths(t as nat));
    }
}

/// Renders a rate: `--` below one byte per second, whole bytes below 1024,
/// then KB/s, MB/s or GB/s (never beyond), with one decimal place below 100.
pub fn humanize(rate: &Rate) -> (s: String)
    requires
        rate.wf(),
    ensures
        s@ == rate_text(rate.num(), rate.den()),
{
    let n: u128 = rate.bytes as u128 * 1_000_000;
    let d: u128 = rate.micros as u128;
    assert(n <= 0xFFFF_FFFF_FFFF_FFFFu128 * 1_000_000) by (nonlinear_arith)
        requires
            n == rate.bytes as u128 * 1_000_000,
            rate.bytes <= 0xFFFF_FFFF_FFFF_FFFFu64,
    ;
    let mut s = String::new();
    proof {
        reveal_strlit("--");
        reveal_strlit(" B/s");
        reveal_strlit(" KB/s");
        reveal_strlit(" MB/s");
        reveal_strlit(" GB/s");
    }
    if n < d {
        s.append("--");
        assert(s@ =~= rate_text(rate.num(), rate.den()));
        return s;
    }
    if n < 1024 * d {
        append_decimal(&mut s, round_half_even_exec(n, d));
        s.append(" B/s");
        assert(s@ =~= rate_text(rate.num(), rate.den()));
        return s;
    }
    let (q, label): (u128, &str) = if n < 1048576 * d {
        (1024 * d, " KB/s")
    } else if n < 1073741824 * d {
        (1048576 * d, " MB/s")
    } else {
        (1073741824 * d, " GB/s")
    };
    let ghost k = unit_level(rate.num(), rate.den());
    assert(q == unit_divisor(k) * rate.den());
    assert(label@ =~= seq![' '] + unit_label(k));
    if n >= 100 * q {
        append_decimal(&mut s, round_half_even_exec(n, q));
    } else {
        append_tenths(&mut s, round_half_even_exec(10 * n, q));
    }
    s.append(label);
    assert(s@ =~= rate_text(rate.num(), rate.den()));
    s
}

/// At or above 1024^3 bytes per second the unit stays GB/s, however large the rate.
pub proof fn lemma_unit_saturates(n: int, d: int)
    requires
        0 < d,
        n >= 1073741824 * d,
    ensures
        rate_text(n, d).len() >= 4,
        rate_text(n, d).subrange(rate_text(n, d).len() - 4, rate_text(n, d).len() as int)
            == seq!['G', 'B', '/', 's'],
{
    assert(n >= 1024 * d) by (nonlinear_arith)
        requires
            n >= 1073741824 * d,
            d > 0,
    ;
    assert(n >= 1048576 * d) by (nonlinear_arith)
        requires
            n >= 1073741824 * d,
            d > 0,
    ;
    let t = rate_text(n, d);
    assert(t.subrange(t.len() - 4, t.len() as int) =~= seq!['G', 'B', '/', 's']);
}

} // verus!
