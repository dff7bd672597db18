//! Scaling byte counts and byte rates onto the Bytes/KB/MB/GB ladder, and
//! their text.
//!
//! All arithmetic is exact on integers: a displayed value is the exact
//! quotient rounded to hundredths, ties to the even hundredth.

use vstd::prelude::*;
use vstd::arithmetic::div_mod::{
    lemma_div_is_ordered,
    lemma_div_is_ordered_by_denominator,
    lemma_div_multiples_vanish,
};
use crate::text::{decimal, fixed_two, push_decimal, push_fixed_two};
use crate::units::{GB_SIZE, HALF_TB, KB_SIZE, MB_SIZE, NANOS_PER_SEC, TWO_GB, TWO_KB, TWO_MB, Unit};

verus! {

/// A quantity re-expressed in a unit: `amount` counts hundredths of the unit
/// when `fractional`, whole units otherwise.
#[derive(Clone, Copy, Debug, PartialEq, Eq, Structural)]
pub struct Scaled {
    pub unit: Unit,
    pub amount: u64,
    pub fractional: bool,
}

impl Scaled {
    /// The quantity as written: `2.00 KB`, `2048 Bytes`.
    pub open spec fn text(self) -> Seq<char> {
        (if self.fractional {
            fixed_two(self.amount as nat)
        } else {
            decimal(self.amount as nat)
        }) + " "@ + self.unit.label()
    }

    /// Appends the quantity's text to `out`.
    pub fn push_text(&self, out: &mut String)
        ensures
            final(out)@ == old(out)@ + self.text(),
    {
        if self.fractional {
            push_fixed_two(out, self.amount);
        } else {
            push_decimal(out, self.amount);
        }
        out.append(" ");
        out.append(self.unit.label_str());
        assert(final(out)@ =~= old(out)@ + self.text());
    }
}

/// `n / d` rounded to the nearest integer, ties to the even one.
pub open spec fn round_half_even(n: nat, d: nat) -> nat
    recommends
        d > 0,
{
    let q = n / d;
    let r = n % d;
    if 2 * r < d {
        q
    } else if 2 * r > d {
        q + 1
    } else if q % 2 == 0 {
        q
    } else {
        q + 1
    }
}

/// A byte count on the ladder: whole bytes up to 2 KB, then KB and MB with
/// two decimals, then GB with two decimals taken from whole MB, and above
/// 512 GB whole GB.
pub open spec fn scaled_bytes(bytes: nat) -> Scaled {
    if bytes <= TWO_KB {
        Scaled { unit: Unit::Bytes, amount: bytes as u64, fractional: false }
    } else if bytes <= TWO_MB {
        Scaled { unit: Unit::KB, amount: round_half_even(100 * bytes, KB_SIZE as nat) as u64, fractional: true }
    } else if bytes <= TWO_GB {
        Scaled { unit: Unit::MB, amount: round_half_even(100 * bytes, MB_SIZE as nat) as u64, fractional: true }
    } else if bytes <= HALF_TB {
        Scaled {
            unit: Unit::GB,
            amount: round_half_even(100 * (bytes / MB_SIZE as nat), KB_SIZE as nat) as u64,
            fractional: true,
        }
    } else {
        Scaled { unit: Unit::GB, amount: (bytes / GB_SIZE as nat) as u64, fractional: false }
    }
}

/// The byte count that a rate is computed from: exact up to 2 GB, whole MB
/// up to 512 GB, whole GB above.
pub open spec fn rate_base(bytes: nat) -> nat {
    if bytes <= TWO_GB {
        bytes
    } else if bytes <= HALF_TB {
        (bytes / MB_SIZE as nat) * MB_SIZE as nat
    } else {
        (bytes / GB_SIZE as nat) * GB_SIZE as nat
    }
}

/// The rate of `bytes` over `nanos` nanoseconds on the ladder, in hundredths
/// of the unit: the rate is `rate_base(bytes) * 10^9 / nanos` bytes a second,
/// and each unit holds rates up to twice its size.
pub open spec fn scaled_rate(bytes: nat, nanos: nat) -> Scaled {
    let f: nat = 100 * rate_base(bytes) * NANOS_PER_SEC as nat;
    let unit = if rate_base(bytes) * NANOS_PER_SEC <= TWO_KB * nanos {
        Unit::Bytes
    } else if rate_base(bytes) * NANOS_PER_SEC <= TWO_MB * nanos {
        Unit::KB
    } else if rate_base(bytes) * NANOS_PER_SEC <= TWO_GB * nanos {
        Unit::MB
    } else {
        Unit::GB
    };
    Scaled { unit, amount: round_half_even(f, nanos * unit.size()) as u64, fractional: true }
}

/// The text of a byte count.
pub open spec fn bytes_text(bytes: nat) -> Seq<char> {
    scaled_bytes(bytes).text()
}

/// The text of a rate: the scaled rate followed by `/sec`.
pub open spec fn rate_text(bytes: nat, nanos: nat) -> Seq<char> {
    scaled_rate(bytes, nanos).text() + "/sec"@
}

proof fn lemma_round_bound(n: nat, d: nat, k: nat)
    requires
        d > 0,
        n <= k * d,
    ensures
        round_half_even(n, d) <= k + 1,
{
    lemma_div_is_ordered(n as int, (d * k) as int, d as int);
    lemma_div_multiples_vanish(k as int, d as int);
    assert(d * k == k * d) by (nonlinear_arith);
}

fn round_half_even_exec(n: u128, d: u128) -> (r: u128)
    requires
        d > 0,
        n < u128::MAX,
    ensures
        r == round_half_even(n as nat, d as nat),
{
    let q = n / d;
    let r = n % d;
    proof {
        lemma_div_is_ordered_by_denominator(n as int, 1, d as int);
    }
    if r < d - r {
        q
    } else if r > d - r {
        q + 1
    } else if q % 2 == 0 {
        q
    } else {
        q + 1
    }
}

/// Places a byte count on the display ladder.
pub fn scale_bytes(bytes: u64) -> (s: Scaled)
    ensures
        s == scaled_bytes(bytes as nat),
{
    if bytes <= TWO_KB {
        Scaled { unit: Unit::Bytes, amount: bytes, fractional: false }
    } else if bytes <= TWO_MB {
        proof { lemma_round_bound(100 * bytes as nat, KB_SIZE as nat, 204800); }
        let h = round_half_even_exec(100 * bytes as u128, KB_SIZE as u128);
        Scaled { unit: Unit::KB, amount: h as u64, fractional: true }
    } else if bytes <= TWO_GB {
        proof { lemma_round_bound(100 * bytes as nat, MB_SIZE as nat, 204800); }
        let h = round_half_even_exec(100 * bytes as u128, MB_SIZE as u128);
        Scaled { unit: Unit::MB, amount: h as u64, fractional: true }
    } else if bytes <= HALF_TB {
        let mb = bytes / MB_SIZE;
        proof {
            lemma_div_is_ordered(bytes as int, HALF_TB as int, MB_SIZE as int);
            lemma_round_bound(100 * mb as nat, KB_SIZE as nat, 51200);
        }
        let h = round_half_even_exec(100 * mb as u128, KB_SIZE as u128);
        Scaled { unit: Unit::GB, amount: h as u64, fractional: true }
    } else {
        Scaled { unit: Unit::GB, amount: bytes / GB_SIZE, fractional: false }
    }
}

/// Places the rate of `bytes` over `nanos` nanoseconds on the display ladder.
/// A rate is only taken over at least one second.
pub fn scale_rate(bytes: u64, nanos: u64) -> (s: Scaled)
    requires
        nanos >= NANOS_PER_SEC,
    ensures
        s == scaled_rate(bytes as nat, nanos as nat),
{
    let base: u64 = if bytes <= TWO_GB {
        bytes
    } else if bytes <= HALF_TB {
        proof {
            assert((bytes / MB_SIZE) * MB_SIZE <= bytes) by (nonlinear_arith);
        }
        (bytes / MB_SIZE) * MB_SIZE
    } else {
        proof {
            assert((bytes / GB_SIZE) * GB_SIZE <= bytes) by (nonlinear_arith);
        }
        (bytes / GB_SIZE) * GB_SIZE
    };
    assert(base == rate_base(bytes as nat));
    let f: u128 = base as u128 * NANOS_PER_SEC as u128;
    let n: u128 = nanos as u128;
    let unit = if f <= TWO_KB as u128 * n {
        Unit::Bytes
    } else if f <= TWO_MB as u128 * n {
        Unit::KB
    } else if f <= TWO_GB as u128 * n {
        Unit::MB
    } else {
        Unit::GB
    };
    let size: u128 = match unit {
        Unit::Bytes => 1,
        Unit::KB => KB_SIZE as u128,
        Unit::MB => MB_SIZE as u128,
        Unit::GB => GB_SIZE as u128,
    };
    proof {
        let a = 100 * f as nat;
        let d = n as nat * size as nat;
        assert(n <= u64::MAX);
        assert(d <= u64::MAX * GB_SIZE) by (nonlinear_arith)
            requires d == n as nat * size as nat, n <= u64::MAX, size <= GB_SIZE;
        if unit == Unit::Bytes {
            assert(a <= 204800 * d) by (nonlinear_arith)
                requires a == 100 * f as nat, f <= 2048 * n, d == n as nat * size as nat, size == 1;
            lemma_round_bound(a, d, 204800);
        } else if unit == Unit::KB {
            assert(a <= 204800 * d) by (nonlinear_arith)
                requires a == 100 * f as nat, f <= 2048 * 1024 * n, d == n as nat * size as nat, size == 1024;
            lemma_round_bound(a, d, 204800);
        } else if unit == Unit::MB {
            assert(a <= 204800 * d) by (nonlinear_arith)
                requires a == 100 * f as nat, f <= 2048 * 1048576 * n, d == n as nat * size as nat, size == 1048576;
            lemma_round_bound(a, d, 204800);
        } else {
            let k: nat = 1717986918400;
            assert(d >= 1000000000 * 1073741824) by (nonlinear_arith)
                requires d == n as nat * size as nat, n >= 1000000000, size == 1073741824;
            assert(f <= 18446744073709551615 * 1000000000) by (nonlinear_arith)
                requires f == base as nat * 1000000000, base <= 18446744073709551615;
            assert(k * (1000000000 * 1073741824) <= k * d) by (nonlinear_arith)
                requires d >= 1000000000 * 1073741824, k == 1717986918400;
            lemma_round_bound(a, d, k);
        }
    }
    let h = round_half_even_exec(100 * f, n * size);
    Scaled { unit, amount: h as u64, fractional: true }
}

/// The text of a byte count: `2048 Bytes`, `2.00 KB`, `600 GB`.
pub fn format_bytes(bytes: u64) -> (r: String)
    ensures
        r@ == bytes_text(bytes as nat),
{
    let mut out = String::new();
    scale_bytes(bytes).push_text(&mut out);
    assert(out@ =~= bytes_text(bytes as nat));
    out
}

/// The text of the rate of `bytes` over `nanos` nanoseconds: `1.50 MB/sec`.
/// A rate is only taken over at least one second.
pub fn format_flow(bytes: u64, nanos: u64) -> (r: String)
    requires
        nanos >= NANOS_PER_SEC,
    ensures
        r@ == rate_text(bytes as nat, nanos as nat),
{
    let mut out = String::new();
    scale_rate(bytes, nanos).push_text(&mut out);
    out.append("/sec");
    assert(out@ =~= rate_text(bytes as nat, nanos as nat));
    out
}

} // verus!
