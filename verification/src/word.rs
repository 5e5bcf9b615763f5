//! 32-bit word arithmetic: the two's-complement reading of a word, the
//! word a mathematical integer wraps to, and the signed multiply and
//! divide that fill the HI/LO accumulators.

use vstd::prelude::*;
use vstd::arithmetic::div_mod::{
    lemma_fundamental_div_mod, lemma_fundamental_div_mod_converse, lemma_small_mod,
};

verus! {

/// The word that the integer `n` wraps to, modulo 2^32.
pub open spec fn to_u32(n: int) -> u32 {
    (n % 0x1_0000_0000) as u32
}

/// The two's-complement value of a word.
pub open spec fn as_signed(v: u32) -> int {
    if v >= 0x8000_0000 {
        v - 0x1_0000_0000
    } else {
        v as int
    }
}

/// Truncating signed division (round toward zero), defined for a nonzero
/// divisor.
pub open spec fn tdiv(a: int, b: int) -> int {
    let m = abs_of(a) / abs_of(b);
    if (a < 0) == (b < 0) {
        m
    } else {
        -m
    }
}

/// The remainder matching `tdiv`: it has the sign of the dividend.
pub open spec fn trem(a: int, b: int) -> int {
    a - b * tdiv(a, b)
}

pub open spec fn abs_of(n: int) -> int {
    if n < 0 {
        -n
    } else {
        n
    }
}

/// The two's-complement value of a word, as a 64-bit integer.
pub fn signed_of(v: u32) -> (r: i64)
    ensures
        r == as_signed(v),
{
    if v >= 0x8000_0000 {
        v as i64 - 0x1_0000_0000
    } else {
        v as i64
    }
}

/// The word an integer wraps to, for integers within 2^33 of zero (every
/// sum, difference, link address or transfer target the engine forms).
pub fn word_of(n: i64) -> (r: u32)
    requires
        -0x2_0000_0000 <= n <= 0x2_0000_0000,
    ensures
        r == to_u32(n as int),
{
    if n >= 0 {
        let r = ((n as u64) % 0x1_0000_0000) as u32;
        proof {
            lemma_fundamental_div_mod(n as int, 0x1_0000_0000);
        }
        r
    } else {
        let k = ((-n) as u64) % 0x1_0000_0000;
        proof {
            lemma_fundamental_div_mod((-n) as int, 0x1_0000_0000);
        }
        if k == 0 {
            proof {
                let nn = (-n) as int;
                lemma_fundamental_div_mod_converse(
                    n as int,
                    0x1_0000_0000,
                    -(nn / 0x1_0000_0000),
                    0,
                );
            }
            0
        } else {
            proof {
                let nn = (-n) as int;
                lemma_fundamental_div_mod_converse(
                    n as int,
                    0x1_0000_0000,
                    -(nn / 0x1_0000_0000) - 1,
                    0x1_0000_0000 - (nn % 0x1_0000_0000),
                );
            }
            (0x1_0000_0000u64 - k) as u32
        }
    }
}

/// Whether `a` is below `b` when both words are read as signed values.
pub fn signed_lt(a: u32, b: u32) -> (r: bool)
    ensures
        r == (as_signed(a) < as_signed(b)),
{
    signed_of(a) < signed_of(b)
}

/// The signed sum if it fits in a signed word, `None` on signed overflow.
pub fn add_signed_checked(a: u32, b: u32) -> (r: Option<u32>)
    ensures
        r is Some <==> -0x8000_0000 <= as_signed(a) + as_signed(b) <= 0x7FFF_FFFF,
        r is Some ==> r == Some(to_u32(as_signed(a) + as_signed(b))),
{
    let s = signed_of(a) + signed_of(b);
    if s < -0x8000_0000 || s > 0x7FFF_FFFF {
        None
    } else {
        Some(word_of(s))
    }
}

/// The signed difference if it fits in a signed word, `None` on signed
/// overflow.
pub fn sub_signed_checked(a: u32, b: u32) -> (r: Option<u32>)
    ensures
        r is Some <==> -0x8000_0000 <= as_signed(a) - as_signed(b) <= 0x7FFF_FFFF,
        r is Some ==> r == Some(to_u32(as_signed(a) - as_signed(b))),
{
    let s = signed_of(a) - signed_of(b);
    if s < -0x8000_0000 || s > 0x7FFF_FFFF {
        None
    } else {
        Some(word_of(s))
    }
}

/// The high and low words of the full 64-bit signed product.
pub fn mult_parts(a: u32, b: u32) -> (r: (u32, u32))
    ensures
        r.0 == to_u32(as_signed(a) * as_signed(b) / 0x1_0000_0000),
        r.1 == to_u32(as_signed(a) * as_signed(b)),
{
    let pa = signed_of(a);
    let pb = signed_of(b);
    assert(-0x4000_0000_0000_0000 <= pa * pb <= 0x4000_0000_0000_0000) by (nonlinear_arith)
        requires
            -0x8000_0000 <= pa <= 0x7FFF_FFFF,
            -0x8000_0000 <= pb <= 0x7FFF_FFFF,
    ;
    let p = pa * pb;
    if p >= 0 {
        let pu = p as u64;
        let lo = (pu % 0x1_0000_0000) as u32;
        let hiu = pu / 0x1_0000_0000;
        proof {
            lemma_fundamental_div_mod(p as int, 0x1_0000_0000);
            lemma_small_mod(hiu as nat, 0x1_0000_0000);
        }
        (hiu as u32, lo)
    } else {
        let n = (-p) as u64;
        let nq = n / 0x1_0000_0000;
        let nr = n % 0x1_0000_0000;
        proof {
            lemma_fundamental_div_mod(n as int, 0x1_0000_0000);
        }
        if nr == 0 {
            proof {
                lemma_fundamental_div_mod_converse(p as int, 0x1_0000_0000, -(nq as int), 0);
                lemma_fundamental_div_mod_converse(
                    -(nq as int),
                    0x1_0000_0000,
                    -1,
                    0x1_0000_0000 - nq as int,
                );
            }
            (((0x1_0000_0000u64 - nq)) as u32, 0)
        } else {
            proof {
                lemma_fundamental_div_mod_converse(
                    p as int,
                    0x1_0000_0000,
                    -(nq as int) - 1,
                    0x1_0000_0000 - nr as int,
                );
                lemma_fundamental_div_mod_converse(
                    -(nq as int) - 1,
                    0x1_0000_0000,
                    -1,
                    0xFFFF_FFFF - nq as int,
                );
            }
            ((0xFFFF_FFFFu64 - nq) as u32, (0x1_0000_0000u64 - nr) as u32)
        }
    }
}

/// The LO (truncating quotient) and HI (remainder) words of a signed
/// division; the divisor word must not be zero.
pub fn div_parts(a: u32, b: u32) -> (r: (u32, u32))
    requires
        b != 0,
    ensures
        r.0 == to_u32(trem(as_signed(a), as_signed(b))),
        r.1 == to_u32(tdiv(as_signed(a), as_signed(b))),
{
    let sa = signed_of(a);
    let sb = signed_of(b);
    let am: u64 = if sa < 0 {
        (-sa) as u64
    } else {
        sa as u64
    };
    let bm: u64 = if sb < 0 {
        (-sb) as u64
    } else {
        sb as u64
    };
    let qm = am / bm;
    let rm = am % bm;
    proof {
        lemma_fundamental_div_mod(am as int, bm as int);
    }
    let q: i64 = if (sa < 0) != (sb < 0) {
        -(qm as i64)
    } else {
        qm as i64
    };
    let rr: i64 = if sa < 0 {
        -(rm as i64)
    } else {
        rm as i64
    };
    proof {
        assert(q == tdiv(sa as int, sb as int));
        assert(sb as int * q as int == sb * q) by (nonlinear_arith);
        assert(rr == sa - sb * q) by (nonlinear_arith)
            requires
                am == bm * qm + rm,
                am == abs_of(sa as int),
                bm == abs_of(sb as int),
                q == (if (sa < 0) != (sb < 0) { -(qm as int) } else { qm as int }),
                rr == (if sa < 0 { -(rm as int) } else { rm as int }),
        ;
    }
    (word_of(rr), word_of(q))
}

} // verus!
