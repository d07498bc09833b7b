//! Fixed-point decimal coordinates and exact fractions.
//!
//! A coordinate is an `i64` holding the coordinate value scaled by
//! `COORD_SCALE`, so a drawing's native units carry up to six decimal places
//! exactly. Offsets and extents of a normalized sub-path are exact fractions
//! of the drawing's nominal size.

use vstd::prelude::*;

verus! {

/// Scale of a fixed-point coordinate: one drawing unit is this many ticks.
pub const COORD_SCALE: u64 = 1000000;

/// Largest magnitude a coordinate may have, leaving headroom so that sums of
/// two coordinates never overflow an `i64`.
pub const COORD_LIMIT: i64 = 1000000000000000;

/// A well-formed coordinate value stays within the headroom bound.
pub open spec fn coord_wf(v: int) -> bool {
    -(COORD_LIMIT as int) <= v <= COORD_LIMIT as int
}

/// The character for a single decimal digit.
pub open spec fn digit_char(d: int) -> char
    recommends
        0 <= d < 10,
{
    if d == 0 {
        '0'
    } else if d == 1 {
        '1'
    } else if d == 2 {
        '2'
    } else if d == 3 {
        '3'
    } else if d == 4 {
        '4'
    } else if d == 5 {
        '5'
    } else if d == 6 {
        '6'
    } else if d == 7 {
        '7'
    } else if d == 8 {
        '8'
    } else {
        '9'
    }
}

/// Decimal digits of a natural number, most significant first, no leading
/// zeros (a single `0` for zero).
pub open spec fn dec_str(n: nat) -> Seq<char>
    decreases n,
{
    if n < 10 {
        seq![digit_char(n as int)]
    } else {
        dec_str(n / 10).push(digit_char((n % 10) as int))
    }
}

/// Decimal text of an integer: a leading minus sign for negative values.
pub open spec fn int_str(v: int) -> Seq<char> {
    if v < 0 {
        seq!['-'] + dec_str((-v) as nat)
    } else {
        dec_str(v as nat)
    }
}

/// The last `k` decimal digits of `n`, zero-padded to exactly `k` characters.
pub open spec fn pad_str(n: nat, k: nat) -> Seq<char>
    decreases k,
{
    if k == 0 {
        Seq::empty()
    } else {
        pad_str(n / 10, (k - 1) as nat).push(digit_char((n % 10) as int))
    }
}

/// Removes every trailing `'0'` character.
pub open spec fn trim_zeros(s: Seq<char>) -> Seq<char>
    decreases s.len(),
{
    if s.len() > 0 && s.last() == '0' {
        trim_zeros(s.drop_last())
    } else {
        s
    }
}

/// Text of a fixed-point coordinate in drawing units: the integer part in
/// decimal, then, when the fractional part is not zero, a dot and the
/// fractional digits with trailing zeros removed.
pub open spec fn coord_str(v: int) -> Seq<char> {
    let m = if v < 0 {
        -v
    } else {
        v
    };
    let sign: Seq<char> = if v < 0 {
        seq!['-']
    } else {
        Seq::empty()
    };
    let ip = m / (COORD_SCALE as int);
    let fp = m % (COORD_SCALE as int);
    if fp == 0 {
        sign + dec_str(ip as nat)
    } else {
        sign + dec_str(ip as nat) + seq!['.'] + trim_zeros(pad_str(fp as nat, 6))
    }
}

/// The character of one decimal digit.
pub fn digit_to_char(d: u64) -> (c: char)
    requires
        d < 10,
    ensures
        c == digit_char(d as int),
{
    if d == 0 {
        '0'
    } else if d == 1 {
        '1'
    } else if d == 2 {
        '2'
    } else if d == 3 {
        '3'
    } else if d == 4 {
        '4'
    } else if d == 5 {
        '5'
    } else if d == 6 {
        '6'
    } else if d == 7 {
        '7'
    } else if d == 8 {
        '8'
    } else {
        '9'
    }
}

/// Decimal digits of `n`, appended to `out`.
pub fn fmt_u64(n: u64, out: &mut Vec<char>)
    ensures
        final(out)@ == old(out)@ + dec_str(n as nat),
    decreases n,
{
    if n < 10 {
        out.push(digit_to_char(n));
        proof {
            assert(old(out)@ + dec_str(n as nat) =~= out@);
        }
    } else {
        fmt_u64(n / 10, out);
        out.push(digit_to_char(n % 10));
        proof {
            assert(old(out)@ + dec_str(n as nat) =~= out@);
        }
    }
}

/// Decimal text of a signed integer, appended to `out`.
pub fn fmt_i64(v: i64, out: &mut Vec<char>)
    requires
        v != i64::MIN,
    ensures
        final(out)@ == old(out)@ + int_str(v as int),
{
    if v < 0 {
        out.push('-');
        fmt_u64((-v) as u64, out);
        proof {
            assert(old(out)@ + int_str(v as int) =~= out@);
        }
    } else {
        fmt_u64(v as u64, out);
    }
}

/// The last `k` decimal digits of `n`, zero-padded, appended to `out`.
fn fmt_pad(n: u64, k: u64, out: &mut Vec<char>)
    ensures
        final(out)@ == old(out)@ + pad_str(n as nat, k as nat),
    decreases k,
{
    if k == 0 {
        proof {
            assert(old(out)@ + pad_str(n as nat, 0) =~= out@);
        }
    } else {
        fmt_pad(n / 10, k - 1, out);
        out.push(digit_to_char(n % 10));
        proof {
            assert(old(out)@ + pad_str(n as nat, k as nat) =~= out@);
        }
    }
}

/// Text of a fixed-point coordinate, appended to `out`.
pub fn fmt_coord(v: i64, out: &mut Vec<char>)
    requires
        coord_wf(v as int),
    ensures
        final(out)@ == old(out)@ + coord_str(v as int),
{
    let m: u64 = if v < 0 {
        (-v) as u64
    } else {
        v as u64
    };
    let ip: u64 = m / COORD_SCALE;
    let fp: u64 = m % COORD_SCALE;
    if v < 0 {
        out.push('-');
    }
    fmt_u64(ip, out);
    if fp != 0 {
        out.push('.');
        let mut frac: Vec<char> = Vec::new();
        fmt_pad(fp, 6, &mut frac);
        proof {
            assert(frac@ =~= pad_str(fp as nat, 6));
        }
        while frac.len() > 0 && frac[frac.len() - 1] == '0'
            invariant
                trim_zeros(frac@) == trim_zeros(pad_str(fp as nat, 6)),
            decreases frac@.len(),
        {
            frac.pop();
        }
        proof {
            assert(trim_zeros(frac@) == frac@);
        }
        out.append(&mut frac);
        proof {
            assert(old(out)@ + coord_str(v as int) =~= out@);
        }
    } else {
        proof {
            assert(old(out)@ + coord_str(v as int) =~= out@);
        }
    }
}

/// An exact fraction; offsets and extents of a normalized sub-path are
/// fractions of the drawing's nominal size.
#[derive(Clone, Copy)]
pub struct Frac {
    pub num: i64,
    pub den: i64,
}

impl Frac {
    /// A well-formed fraction has a positive denominator within the
    /// coordinate bound and a numerator with headroom for one addition.
    pub open spec fn wf(self) -> bool {
        &&& 0 < self.den <= COORD_LIMIT as int
        &&& -2 * (COORD_LIMIT as int) <= self.num <= 2 * (COORD_LIMIT as int)
    }

    /// The fraction is at least one.
    pub open spec fn ge_one(self) -> bool {
        self.num >= self.den
    }

    /// Text of the fraction: numerator, a slash, denominator.
    pub open spec fn text(self) -> Seq<char> {
        int_str(self.num as int) + seq!['/'] + dec_str(self.den as nat)
    }
}

/// Checks a fraction's well-formedness bounds.
pub fn frac_is_wf(f: &Frac) -> (r: bool)
    ensures
        r == f.wf(),
{
    0 < f.den && f.den <= COORD_LIMIT && -2 * COORD_LIMIT <= f.num && f.num <= 2 * COORD_LIMIT
}

/// Text of a fraction, appended to `out`.
pub fn fmt_frac(f: &Frac, out: &mut Vec<char>)
    requires
        f.wf(),
    ensures
        final(out)@ == old(out)@ + f.text(),
{
    fmt_i64(f.num, out);
    out.push('/');
    fmt_u64(f.den as u64, out);
    proof {
        assert(old(out)@ + f.text() =~= out@);
    }
}

} // verus!
