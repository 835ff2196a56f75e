//! Decimal numbers and their canonical text rendering.
//!
//! Theme values (hues, chroma, lightness, pixel widths) are JSON numbers.
//! The library holds them as exact decimals: a sign, an integer mantissa and
//! a decimal scale, denoting `(-1)^neg * mantissa / 10^scale`. Rendering is
//! verified down to the character sequence, so generated CSS is a pure
//! function of the configuration.

use vstd::prelude::*;
use vstd::string::*;

verus! {

/// A decimal number `(-1)^neg * mantissa / 10^scale`.
///
/// `scale` is the count of digits after the decimal point; `scale == 0`
/// renders with no point at all, and a value such as `0.0` (mantissa 0,
/// scale 1) keeps its written form.
#[derive(Clone, Copy, Debug, PartialEq, Eq, Structural)]
pub struct Num {
    pub neg: bool,
    pub mantissa: u64,
    pub scale: u32,
}

/// A `Num` the renderer accepts: `10^scale` must fit in a `u64`.
pub open spec fn num_wf(v: Num) -> bool {
    v.scale <= 17
}

impl Num {
    /// The whole number `n`.
    pub fn whole(n: u64) -> (r: Num)
        ensures
            r == (Num { neg: false, mantissa: n, scale: 0 }),
    {
        Num { neg: false, mantissa: n, scale: 0 }
    }

    /// The decimal `mantissa / 10^scale`.
    pub fn frac(mantissa: u64, scale: u32) -> (r: Num)
        ensures
            r == (Num { neg: false, mantissa, scale }),
    {
        Num { neg: false, mantissa, scale }
    }
}

pub open spec fn pow10(e: nat) -> nat
    decreases e,
{
    if e == 0 {
        1
    } else {
        10 * pow10((e - 1) as nat)
    }
}

pub proof fn lemma_pow10_pos(e: nat)
    ensures
        pow10(e) >= 1,
    decreases e,
{
    if e > 0 {
        lemma_pow10_pos((e - 1) as nat);
    }
}

pub proof fn lemma_pow10_16()
    ensures
        pow10(16) == 10_000_000_000_000_000,
{
    assert(pow10(0) == 1);
    assert(pow10(1) == 10);
    assert(pow10(2) == 100);
    assert(pow10(3) == 1000);
    assert(pow10(4) == 10_000);
    assert(pow10(5) == 100_000);
    assert(pow10(6) == 1_000_000);
    assert(pow10(7) == 10_000_000);
    assert(pow10(8) == 100_000_000);
    assert(pow10(9) == 1_000_000_000);
    assert(pow10(10) == 10_000_000_000);
    assert(pow10(11) == 100_000_000_000);
    assert(pow10(12) == 1_000_000_000_000);
    assert(pow10(13) == 10_000_000_000_000);
    assert(pow10(14) == 100_000_000_000_000);
    assert(pow10(15) == 1_000_000_000_000_000);
    assert(pow10(16) == 10_000_000_000_000_000);
}

pub proof fn lemma_pow10_le(a: nat, b: nat)
    requires
        a <= b,
    ensures
        pow10(a) <= pow10(b),
    decreases b,
{
    if a < b {
        lemma_pow10_le(a, (b - 1) as nat);
        lemma_pow10_pos((b - 1) as nat);
    }
}

/// `10^e` as a machine integer.
pub fn pow10_u64(e: u32) -> (r: u64)
    requires
        e <= 17,
    ensures
        r == pow10(e as nat),
    decreases e,
{
    if e == 0 {
        1
    } else {
        let p = pow10_u64(e - 1);
        proof {
            lemma_pow10_le((e - 1) as nat, 16);
            lemma_pow10_16();
        }
        10 * p
    }
}

/// The character for one decimal digit.
pub open spec fn spec_digit(d: int) -> char {
    if d == 0 {
        '0'
    } else if d == 1 {
        '1'
    } else if d == 2 {
        '2'
    } else if d == 3 {
        '3'
    } else if d == 4 {
        '4'
    } else if d == 5 {
        '5'
    } else if d == 6 {
        '6'
    } else if d == 7 {
        '7'
    } else if d == 8 {
        '8'
    } else {
        '9'
    }
}

/// The usual decimal rendering of `n`, most significant digit first,
/// without leading zeros (`0` renders as "0").
pub open spec fn spec_dec(n: nat) -> Seq<char>
    decreases n,
{
    if n < 10 {
        seq![spec_digit(n as int)]
    } else {
        spec_dec(n / 10).push(spec_digit((n % 10) as int))
    }
}

/// The low `w` decimal digits of `n`, zero-padded to exactly `w` characters.
pub open spec fn spec_padded(n: nat, w: nat) -> Seq<char>
    decreases w,
{
    if w == 0 {
        Seq::<char>::empty()
    } else {
        spec_padded(n / 10, (w - 1) as nat).push(spec_digit((n % 10) as int))
    }
}

/// The canonical rendering of a decimal: optional minus sign, integer part,
/// and, when `scale > 0`, a point followed by exactly `scale` fraction digits.
pub open spec fn spec_num(v: Num) -> Seq<char> {
    let sign = if v.neg {
        seq!['-']
    } else {
        Seq::<char>::empty()
    };
    if v.scale == 0 {
        sign + spec_dec(v.mantissa as nat)
    } else {
        sign + spec_dec(v.mantissa as nat / pow10(v.scale as nat)) + seq!['.'] + spec_padded(
            v.mantissa as nat,
            v.scale as nat,
        )
    }
}

fn digit_str(d: u64) -> (r: &'static str)
    requires
        d < 10,
    ensures
        r@ == seq![spec_digit(d as int)],
{
    if d == 0 {
        proof {
            reveal_strlit("0");
        }
        let s = "0";
        proof {
            assert(s@ =~= seq![spec_digit(d as int)]);
        }
        s
    } else if d == 1 {
        proof {
            reveal_strlit("1");
        }
        let s = "1";
        proof {
            assert(s@ =~= seq![spec_digit(d as int)]);
        }
        s
    } else if d == 2 {
        proof {
            reveal_strlit("2");
        }
        let s = "2";
        proof {
            assert(s@ =~= seq![spec_digit(d as int)]);
        }
        s
    } else if d == 3 {
        proof {
            reveal_strlit("3");
        }
        let s = "3";
        proof {
            assert(s@ =~= seq![spec_digit(d as int)]);
        }
        s
    } else if d == 4 {
        proof {
            reveal_strlit("4");
        }
        let s = "4";
        proof {
            assert(s@ =~= seq![spec_digit(d as int)]);
        }
        s
    } else if d == 5 {
        proof {
            reveal_strlit("5");
        }
        let s = "5";
        proof {
            assert(s@ =~= seq![spec_digit(d as int)]);
        }
        s
    } else if d == 6 {
        proof {
            reveal_strlit("6");
        }
        let s = "6";
        proof {
            assert(s@ =~= seq![spec_digit(d as int)]);
        }
        s
    } else if d == 7 {
        proof {
            reveal_strlit("7");
        }
        let s = "7";
        proof {
            assert(s@ =~= seq![spec_digit(d as int)]);
        }
        s
    } else if d == 8 {
        proof {
            reveal_strlit("8");
        }
        let s = "8";
        proof {
            assert(s@ =~= seq![spec_digit(d as int)]);
        }
        s
    } else {
        proof {
            reveal_strlit("9");
        }
        let s = "9";
        proof {
            assert(s@ =~= seq![spec_digit(d as int)]);
        }
        s
    }
}

/// Renders `n` in decimal.
pub fn u64_dec(n: u64) -> (r: String)
    ensures
        r@ == spec_dec(n as nat),
    decreases n,
{
    if n < 10 {
        String::from_str(digit_str(n))
    } else {
        let mut s = u64_dec(n / 10);
        s.append(digit_str(n % 10));
        proof {
            assert(s@ =~= spec_dec(n as nat));
        }
        s
    }
}

/// Renders the low `w` digits of `n`, zero-padded to width `w`.
pub fn padded_dec(n: u64, w: u32) -> (r: String)
    ensures
        r@ == spec_padded(n as nat, w as nat),
    decreases w,
{
    if w == 0 {
        String::new()
    } else {
        let mut s = padded_dec(n / 10, w - 1);
        s.append(digit_str(n % 10));
        proof {
            assert(s@ =~= spec_padded(n as nat, w as nat));
        }
        s
    }
}

/// Renders a decimal exactly as `spec_num` describes it.
pub fn num_to_string(v: &Num) -> (r: String)
    requires
        num_wf(*v),
    ensures
        r@ == spec_num(*v),
{
    let mut s = String::new();
    if v.neg {
        proof {
            reveal_strlit("-");
        }
        s.append("-");
    }
    if v.scale == 0 {
        let d = u64_dec(v.mantissa);
        s.append(d.as_str());
        proof {
            assert(s@ =~= spec_num(*v));
        }
        s
    } else {
        let p = pow10_u64(v.scale);
        proof {
            lemma_pow10_pos(v.scale as nat);
        }
        let ip = u64_dec(v.mantissa / p);
        s.append(ip.as_str());
        proof {
            reveal_strlit(".");
        }
        s.append(".");
        let fp = padded_dec(v.mantissa, v.scale);
        s.append(fp.as_str());
        proof {
            assert(s@ =~= spec_num(*v));
        }
        s
    }
}

} // verus!
