//! Load-balanced solver selection.
//!
//! Picks among the solvers whose load ratio lies below a configurable
//! threshold the one with the highest weighted free capacity,
//! `(1 - load_ratio) * weight`; when every solver is at or above the
//! threshold, it falls back to the solver with the least load ratio. Ties
//! keep the earliest solver. The routing key plays no part. Load ratios
//! are exact rationals: `pending_load / max_capacity`, or one when the
//! capacity is zero; the threshold is a rational given by numerator and
//! denominator.

use vstd::prelude::*;

use crate::error::RouterError;
use crate::solver::{views_of, SolverInfo, SolverView};

verus! {

/// Numerator of a solver's load ratio (the ratio is one when the capacity
/// is zero).
pub open spec fn ratio_num(v: SolverView) -> int {
    if v.max_capacity == 0 {
        1
    } else {
        v.pending_load as int
    }
}

/// Denominator of a solver's load ratio; always positive.
pub open spec fn ratio_den(v: SolverView) -> int {
    if v.max_capacity == 0 {
        1
    } else {
        v.max_capacity as int
    }
}

/// The solver's load ratio lies strictly below the threshold `tn / td`.
pub open spec fn below_threshold(v: SolverView, tn: u64, td: u64) -> bool {
    ratio_num(v) * td < tn * ratio_den(v)
}

/// Numerator of a solver's score `(1 - load_ratio) * weight`, over the
/// denominator `ratio_den`.
pub open spec fn score_num(v: SolverView) -> int {
    (ratio_den(v) - ratio_num(v)) * v.weight
}

/// The first solver's score is at least the second's.
pub open spec fn score_ge(a: SolverView, b: SolverView) -> bool {
    score_num(a) * ratio_den(b) >= score_num(b) * ratio_den(a)
}

/// The first solver's load ratio is at most the second's.
pub open spec fn ratio_le(a: SolverView, b: SolverView) -> bool {
    ratio_num(a) * ratio_den(b) <= ratio_num(b) * ratio_den(a)
}

/// Some listed solver lies below the threshold.
pub open spec fn has_candidate(s: Seq<SolverView>, tn: u64, td: u64) -> bool {
    exists|i: int| 0 <= i < s.len() && below_threshold(#[trigger] s[i], tn, td)
}

/// Position `i` holds the first below-threshold solver of maximal score:
/// no candidate scores higher, and every earlier candidate scores strictly
/// lower.
pub open spec fn is_first_best_candidate(s: Seq<SolverView>, tn: u64, td: u64, i: int) -> bool {
    &&& 0 <= i < s.len()
    &&& below_threshold(s[i], tn, td)
    &&& forall|j: int|
        0 <= j < s.len() && below_threshold(#[trigger] s[j], tn, td) ==> score_ge(s[i], s[j])
    &&& forall|j: int|
        0 <= j < i && below_threshold(#[trigger] s[j], tn, td) ==> !score_ge(s[j], s[i])
}

/// Position `i` holds the first solver of least load ratio.
pub open spec fn is_first_least_loaded(s: Seq<SolverView>, i: int) -> bool {
    &&& 0 <= i < s.len()
    &&& forall|j: int| 0 <= j < s.len() ==> ratio_le(s[i], #[trigger] s[j])
    &&& forall|j: int| 0 <= j < i ==> !ratio_le(#[trigger] s[j], s[i])
}

/// Chaining a non-strict and a strict rational inequality over positive
/// denominators: `n1/d1 <= n2/d2` and `n2/d2 < n3/d3` give `n1/d1 < n3/d3`.
proof fn lemma_frac_le_lt_trans(n1: int, d1: int, n2: int, d2: int, n3: int, d3: int)
    requires
        d1 > 0,
        d2 > 0,
        d3 > 0,
        n1 * d2 <= n2 * d1,
        n2 * d3 < n3 * d2,
    ensures
        n1 * d3 < n3 * d1,
{
    assert(n1 * d2 * d3 <= n2 * d1 * d3) by (nonlinear_arith)
        requires
            n1 * d2 <= n2 * d1,
            d3 > 0,
    ;
    assert(n2 * d3 * d1 < n3 * d2 * d1) by (nonlinear_arith)
        requires
            n2 * d3 < n3 * d2,
            d1 > 0,
    ;
    assert(n1 * d2 * d3 < n3 * d2 * d1) by (nonlinear_arith)
        requires
            n1 * d2 * d3 <= n2 * d1 * d3,
            n2 * d3 * d1 < n3 * d2 * d1,
    ;
    assert(n1 * d3 < n3 * d1) by (nonlinear_arith)
        requires
            n1 * d2 * d3 < n3 * d2 * d1,
            d2 > 0,
    ;
}

/// Chaining a strict and a non-strict rational inequality over positive
/// denominators: `n1/d1 < n2/d2` and `n2/d2 <= n3/d3` give `n1/d1 < n3/d3`.
proof fn lemma_frac_lt_le_trans(n1: int, d1: int, n2: int, d2: int, n3: int, d3: int)
    requires
        d1 > 0,
        d2 > 0,
        d3 > 0,
        n1 * d2 < n2 * d1,
        n2 * d3 <= n3 * d2,
    ensures
        n1 * d3 < n3 * d1,
{
    assert(n1 * d2 * d3 < n2 * d1 * d3) by (nonlinear_arith)
        requires
            n1 * d2 < n2 * d1,
            d3 > 0,
    ;
    assert(n2 * d3 * d1 <= n3 * d2 * d1) by (nonlinear_arith)
        requires
            n2 * d3 <= n3 * d2,
            d1 > 0,
    ;
    assert(n1 * d2 * d3 < n3 * d2 * d1) by (nonlinear_arith)
        requires
            n1 * d2 * d3 < n2 * d1 * d3,
            n2 * d3 * d1 <= n3 * d2 * d1,
    ;
    assert(n1 * d3 < n3 * d1) by (nonlinear_arith)
        requires
            n1 * d2 * d3 < n3 * d2 * d1,
            d2 > 0,
    ;
}

/// A strictly higher score stays strictly higher across anything it
/// already dominates.
proof fn lemma_score_chain(x: SolverView, y: SolverView, z: SolverView)
    requires
        !score_ge(y, x),
        score_ge(y, z),
    ensures
        score_ge(x, z),
        !score_ge(z, x),
{
    lemma_frac_le_lt_trans(
        score_num(z),
        ratio_den(z),
        score_num(y),
        ratio_den(y),
        score_num(x),
        ratio_den(x),
    );
}

/// A strictly lower ratio stays strictly lower across anything the old
/// minimum was below.
proof fn lemma_ratio_chain(x: SolverView, y: SolverView, z: SolverView)
    requires
        !ratio_le(y, x),
        ratio_le(y, z),
    ensures
        ratio_le(x, z),
        !ratio_le(z, x),
{
    lemma_frac_lt_le_trans(
        ratio_num(x),
        ratio_den(x),
        ratio_num(y),
        ratio_den(y),
        ratio_num(z),
        ratio_den(z),
    );
}

/// Splits a 128-by-64-bit product into high and low 64-bit-radix limbs.
fn mul_parts(x: u128, y: u64) -> (r: (u128, u128))
    ensures
        r.1 < 0x1_0000_0000_0000_0000,
        (x as int) * (y as int) == (r.0 as int) * 0x1_0000_0000_0000_0000 + (r.1 as int),
{
    let two64: u128 = 0x1_0000_0000_0000_0000;
    let x_hi = x / two64;
    let x_lo = x % two64;
    proof {
        assert(x_hi < two64 && x_lo < two64);
        assert(x_hi * (y as u128) < two64 * two64) by (nonlinear_arith)
            requires
                x_hi < two64,
                (y as u128) < two64,
                two64 == 0x1_0000_0000_0000_0000u128,
        ;
        assert(x_lo * (y as u128) < two64 * two64) by (nonlinear_arith)
            requires
                x_lo < two64,
                (y as u128) < two64,
                two64 == 0x1_0000_0000_0000_0000u128,
        ;
    }
    let p_hi = x_hi * (y as u128);
    let p_lo = x_lo * (y as u128);
    let carry = p_lo / two64;
    let lo = p_lo % two64;
    proof {
        assert(p_hi + carry < u128::MAX) by (nonlinear_arith)
            requires
                p_hi == x_hi * (y as u128),
                x_hi < 0x1_0000_0000_0000_0000u128,
                (y as u128) < 0x1_0000_0000_0000_0000u128,
                carry < 0x1_0000_0000_0000_0000u128,
        ;
    }
    let hi = p_hi + carry;
    proof {
        assert((x as int) * (y as int) == (hi as int) * 0x1_0000_0000_0000_0000 + (lo as int))
            by (nonlinear_arith)
            requires
                x == x_hi * 0x1_0000_0000_0000_0000u128 + x_lo,
                p_lo == x_lo * (y as u128),
                p_hi == x_hi * (y as u128),
                p_lo == carry * 0x1_0000_0000_0000_0000u128 + lo,
                hi == p_hi + carry,
        ;
    }
    (hi, lo)
}

/// Whether `x1 * y1 >= x2 * y2`, exactly, for products up to 192 bits.
fn mul_ge(x1: u128, y1: u64, x2: u128, y2: u64) -> (r: bool)
    ensures
        r == ((x1 as int) * (y1 as int) >= (x2 as int) * (y2 as int)),
{
    let (h1, l1) = mul_parts(x1, y1);
    let (h2, l2) = mul_parts(x2, y2);
    let r = h1 > h2 || (h1 == h2 && l1 >= l2);
    proof {
        assert(r == ((x1 as int) * (y1 as int) >= (x2 as int) * (y2 as int))) by (nonlinear_arith)
            requires
                (x1 as int) * (y1 as int) == (h1 as int) * 0x1_0000_0000_0000_0000 + (l1 as int),
                (x2 as int) * (y2 as int) == (h2 as int) * 0x1_0000_0000_0000_0000 + (l2 as int),
                l1 < 0x1_0000_0000_0000_0000,
                l2 < 0x1_0000_0000_0000_0000,
                0 <= l1,
                0 <= l2,
                0 <= h1,
                0 <= h2,
                r == (h1 > h2 || (h1 == h2 && l1 >= l2)),
        ;
    }
    r
}

/// The sign and magnitude of a solver's score numerator, with its
/// denominator.
fn score_parts(v: &SolverInfo) -> (r: (bool, u128, u64))
    ensures
        r.2 as int == ratio_den(v@),
        r.2 > 0,
        r.0 ==> r.1 > 0 && score_num(v@) == -(r.1 as int),
        !r.0 ==> score_num(v@) == r.1 as int,
{
    if v.max_capacity == 0 {
        proof {
            assert(score_num(v@) == 0) by (nonlinear_arith)
                requires
                    ratio_den(v@) == 1,
                    ratio_num(v@) == 1,
                    score_num(v@) == (ratio_den(v@) - ratio_num(v@)) * v@.weight,
            ;
        }
        (false, 0, 1)
    } else if v.pending_load <= v.max_capacity {
        let free = v.max_capacity - v.pending_load;
        proof {
            assert((free as u128) * (v.weight as u128) < u128::MAX) by (nonlinear_arith)
                requires
                    (free as u128) < 0x1_0000_0000_0000_0000u128,
                    (v.weight as u128) < 0x1_0000_0000u128,
            ;
        }
        let mag = (free as u128) * (v.weight as u128);
        proof {
            assert(score_num(v@) == mag as int) by (nonlinear_arith)
                requires
                    score_num(v@) == (ratio_den(v@) - ratio_num(v@)) * v@.weight,
                    ratio_den(v@) - ratio_num(v@) == free as int,
                    mag as int == (free as int) * (v@.weight as int),
            ;
        }
        (false, mag, v.max_capacity)
    } else {
        let over = v.pending_load - v.max_capacity;
        proof {
            assert((over as u128) * (v.weight as u128) < u128::MAX) by (nonlinear_arith)
                requires
                    (over as u128) < 0x1_0000_0000_0000_0000u128,
                    (v.weight as u128) < 0x1_0000_0000u128,
            ;
        }
        let mag = (over as u128) * (v.weight as u128);
        proof {
            assert(score_num(v@) == -(mag as int) && (mag as int == 0 <==> v@.weight == 0))
                by (nonlinear_arith)
                requires
                    score_num(v@) == (ratio_den(v@) - ratio_num(v@)) * v@.weight,
                    ratio_num(v@) - ratio_den(v@) == over as int,
                    over > 0,
                    mag as int == (over as int) * (v@.weight as int),
            ;
        }
        if mag == 0 {
            (false, 0, v.max_capacity)
        } else {
            (true, mag, v.max_capacity)
        }
    }
}

/// Whether the first solver's score is at least the second's.
fn score_ge_exec(a: &SolverInfo, b: &SolverInfo) -> (r: bool)
    ensures
        r == score_ge(a@, b@),
{
    let (neg_a, mag_a, den_a) = score_parts(a);
    let (neg_b, mag_b, den_b) = score_parts(b);
    if !neg_a && !neg_b {
        let r = mul_ge(mag_a, den_b, mag_b, den_a);
        proof {
            assert(r == score_ge(a@, b@)) by (nonlinear_arith)
                requires
                    score_num(a@) == mag_a as int,
                    score_num(b@) == mag_b as int,
                    ratio_den(a@) == den_a as int,
                    ratio_den(b@) == den_b as int,
                    r == ((mag_a as int) * (den_b as int) >= (mag_b as int) * (den_a as int)),
                    score_ge(a@, b@) == (score_num(a@) * ratio_den(b@) >= score_num(b@)
                        * ratio_den(a@)),
            ;
        }
        r
    } else if !neg_a && neg_b {
        proof {
            assert(score_num(a@) * ratio_den(b@) >= 0 > score_num(b@) * ratio_den(a@))
                by (nonlinear_arith)
                requires
                    score_num(a@) >= 0,
                    score_num(b@) < 0,
                    ratio_den(a@) > 0,
                    ratio_den(b@) > 0,
            ;
        }
        true
    } else if neg_a && !neg_b {
        proof {
            assert(score_num(a@) * ratio_den(b@) < 0 <= score_num(b@) * ratio_den(a@))
                by (nonlinear_arith)
                requires
                    score_num(a@) < 0,
                    score_num(b@) >= 0,
                    ratio_den(a@) > 0,
                    ratio_den(b@) > 0,
            ;
        }
        false
    } else {
        let r = mul_ge(mag_b, den_a, mag_a, den_b);
        proof {
            assert(r == score_ge(a@, b@)) by (nonlinear_arith)
                requires
                    score_num(a@) == -(mag_a as int),
                    score_num(b@) == -(mag_b as int),
                    ratio_den(a@) == den_a as int,
                    ratio_den(b@) == den_b as int,
                    r == ((mag_b as int) * (den_a as int) >= (mag_a as int) * (den_b as int)),
                    score_ge(a@, b@) == (score_num(a@) * ratio_den(b@) >= score_num(b@)
                        * ratio_den(a@)),
            ;
        }
        r
    }
}

/// Whether the first solver's load ratio is at most the second's.
fn ratio_le_exec(a: &SolverInfo, b: &SolverInfo) -> (r: bool)
    ensures
        r == ratio_le(a@, b@),
{
    let (num_a, den_a) = if a.max_capacity == 0 {
        (1u64, 1u64)
    } else {
        (a.pending_load, a.max_capacity)
    };
    let (num_b, den_b) = if b.max_capacity == 0 {
        (1u64, 1u64)
    } else {
        (b.pending_load, b.max_capacity)
    };
    proof {
        assert((num_a as u128) * (den_b as u128) < u128::MAX && (num_b as u128) * (den_a as u128)
            < u128::MAX) by (nonlinear_arith)
            requires
                (num_a as u128) < 0x1_0000_0000_0000_0000u128,
                (num_b as u128) < 0x1_0000_0000_0000_0000u128,
                (den_a as u128) < 0x1_0000_0000_0000_0000u128,
                (den_b as u128) < 0x1_0000_0000_0000_0000u128,
        ;
    }
    let r = (num_a as u128) * (den_b as u128) <= (num_b as u128) * (den_a as u128);
    proof {
        assert(r == ratio_le(a@, b@)) by (nonlinear_arith)
            requires
                ratio_num(a@) == num_a as int,
                ratio_num(b@) == num_b as int,
                ratio_den(a@) == den_a as int,
                ratio_den(b@) == den_b as int,
                r == ((num_a as int) * (den_b as int) <= (num_b as int) * (den_a as int)),
                ratio_le(a@, b@) == (ratio_num(a@) * ratio_den(b@) <= ratio_num(b@) * ratio_den(
                    a@,
                )),
        ;
    }
    r
}

/// Whether the solver's load ratio lies strictly below `tn / td`.
fn below_exec(v: &SolverInfo, tn: u64, td: u64) -> (r: bool)
    ensures
        r == below_threshold(v@, tn, td),
{
    let (num, den) = if v.max_capacity == 0 {
        (1u64, 1u64)
    } else {
        (v.pending_load, v.max_capacity)
    };
    proof {
        assert((num as u128) * (td as u128) < u128::MAX && (tn as u128) * (den as u128)
            < u128::MAX) by (nonlinear_arith)
            requires
                (num as u128) < 0x1_0000_0000_0000_0000u128,
                (tn as u128) < 0x1_0000_0000_0000_0000u128,
                (td as u128) < 0x1_0000_0000_0000_0000u128,
                (den as u128) < 0x1_0000_0000_0000_0000u128,
        ;
    }
    let r = (num as u128) * (td as u128) < (tn as u128) * (den as u128);
    proof {
        assert(r == below_threshold(v@, tn, td)) by (nonlinear_arith)
            requires
                ratio_num(v@) == num as int,
                ratio_den(v@) == den as int,
                r == ((num as int) * (td as int) < (tn as int) * (den as int)),
                below_threshold(v@, tn, td) == (ratio_num(v@) * td < tn * ratio_den(v@)),
        ;
    }
    r
}

/// Load-balanced solver selection strategy.
#[derive(Debug)]
pub struct LoadBalancedStrategy {
    threshold_num: u64,
    threshold_den: u64,
}

impl LoadBalancedStrategy {
    /// The threshold numerator.
    pub closed spec fn spec_threshold_num(self) -> u64 {
        self.threshold_num
    }

    /// The threshold denominator.
    pub closed spec fn spec_threshold_den(self) -> u64 {
        self.threshold_den
    }

    #[verifier::type_invariant]
    spec fn type_wf(self) -> bool {
        self.threshold_den > 0
    }

    /// Creates the strategy with the default load threshold of nine
    /// tenths.
    pub fn new() -> (r: Self)
        ensures
            r.spec_threshold_num() == 9,
            r.spec_threshold_den() == 10,
    {
        Self { threshold_num: 9, threshold_den: 10 }
    }

    /// Creates the strategy with a custom load threshold, given as the
    /// rational `numerator / denominator`.
    pub fn with_threshold(numerator: u64, denominator: u64) -> (r: Self)
        requires
            denominator > 0,
        ensures
            r.spec_threshold_num() == numerator,
            r.spec_threshold_den() == denominator,
    {
        Self { threshold_num: numerator, threshold_den: denominator }
    }

    /// Selects a solver. Among the solvers below the load threshold, the
    /// first one of maximal weighted free capacity wins; when none is
    /// below the threshold, the first solver of least load ratio wins.
    /// Fails only on an empty list. The routing key is ignored.
    pub fn select(&self, available: &Vec<SolverInfo>, _routing_key: &str) -> (r: Result<
        SolverInfo,
        RouterError,
    >)
        ensures
            r is Ok <==> available@.len() > 0,
            r matches Err(e) ==> e == RouterError::NoSolverAvailable,
            has_candidate(
                views_of(available@),
                self.spec_threshold_num(),
                self.spec_threshold_den(),
            ) ==> (r matches Ok(v) && exists|i: int|
                #[trigger] is_first_best_candidate(
                    views_of(available@),
                    self.spec_threshold_num(),
                    self.spec_threshold_den(),
                    i,
                ) && v@ == views_of(available@)[i]),
            available@.len() > 0 && !has_candidate(
                views_of(available@),
                self.spec_threshold_num(),
                self.spec_threshold_den(),
            ) ==> (r matches Ok(v) && exists|i: int|
                #[trigger] is_first_least_loaded(views_of(available@), i) && v@ == views_of(
                    available@,
                )[i]),
    {
        proof {
            use_type_invariant(self);
        }
        let ghost s = views_of(available@);
        let ghost tn = self.threshold_num;
        let ghost td = self.threshold_den;
        if available.len() == 0 {
            return Err(RouterError::NoSolverAvailable);
        }
        let mut best: Option<usize> = None;
        let mut i: usize = 0;
        while i < available.len()
            invariant
                0 <= i <= available@.len(),
                s == views_of(available@),
                s.len() == available@.len(),
                tn == self.spec_threshold_num(),
                td == self.spec_threshold_den(),
                best is None ==> forall|j: int|
                    0 <= j < i ==> !below_threshold(#[trigger] s[j], tn, td),
                best matches Some(b) ==> 0 <= b < i && below_threshold(s[b as int], tn, td) && (
                forall|j: int|
                    0 <= j < i && below_threshold(#[trigger] s[j], tn, td) ==> score_ge(
                        s[b as int],
                        s[j],
                    )) && (forall|j: int|
                    0 <= j < b && below_threshold(#[trigger] s[j], tn, td) ==> !score_ge(
                        s[j],
                        s[b as int],
                    )),
            decreases available.len() - i,
        {
            proof {
                assert(available@[i as int]@ == s[i as int]);
            }
            if below_exec(&available[i], self.threshold_num, self.threshold_den) {
                match best {
                    None => {
                        best = Some(i);
                    },
                    Some(b) => {
                        if !score_ge_exec(&available[b], &available[i]) {
                            proof {
                                let ghost bv = s[b as int];
                                let ghost iv = s[i as int];
                                assert forall|j: int|
                                    0 <= j < i + 1 && below_threshold(
                                        #[trigger] s[j],
                                        tn,
                                        td,
                                    ) implies score_ge(iv, s[j]) by {
                                    if j < i {
                                        lemma_score_chain(iv, bv, s[j]);
                                    } else {
                                        lemma_score_chain(iv, bv, bv);
                                    }
                                }
                                assert forall|j: int|
                                    0 <= j < i && below_threshold(
                                        #[trigger] s[j],
                                        tn,
                                        td,
                                    ) implies !score_ge(s[j], iv) by {
                                    lemma_score_chain(iv, bv, s[j]);
                                }
                            }
                            best = Some(i);
                        }
                    },
                }
            }
            i = i + 1;
        }
        match best {
            Some(b) => {
                let v = available[b].clone();
                proof {
                    assert(is_first_best_candidate(s, tn, td, b as int));
                }
                Ok(v)
            },
            None => {
                // no solver below the threshold: fall back to least load
                let mut least: usize = 0;
                let mut k: usize = 1;
                while k < available.len()
                    invariant
                        1 <= k <= available@.len(),
                        0 <= least < k,
                        s == views_of(available@),
                        s.len() == available@.len(),
                        forall|j: int| 0 <= j < k ==> ratio_le(s[least as int], #[trigger] s[j]),
                        forall|j: int| 0 <= j < least ==> !ratio_le(#[trigger] s[j], s[least as int]),
                    decreases available.len() - k,
                {
                    proof {
                        assert(available@[k as int]@ == s[k as int]);
                    }
                    if !ratio_le_exec(&available[least], &available[k]) {
                        proof {
                            let ghost lv = s[least as int];
                            let ghost kv = s[k as int];
                            assert forall|j: int| 0 <= j < k + 1 implies ratio_le(
                                kv,
                                #[trigger] s[j],
                            ) by {
                                if j < k {
                                    lemma_ratio_chain(kv, lv, s[j]);
                                } else {
                                    lemma_ratio_chain(kv, lv, lv);
                                }
                            }
                            assert forall|j: int| 0 <= j < k implies !ratio_le(
                                #[trigger] s[j],
                                kv,
                            ) by {
                                lemma_ratio_chain(kv, lv, s[j]);
                            }
                        }
                        least = k;
                    }
                    k = k + 1;
                }
                let v = available[least].clone();
                proof {
                    assert(is_first_least_loaded(s, least as int));
                }
                Ok(v)
            },
        }
    }

    /// Strategy name for logs.
    pub fn name(&self) -> &'static str {
        "LoadBalanced"
    }
}

impl Default for LoadBalancedStrategy {
    /// The default strategy, with the nine-tenths threshold.
    fn default() -> (r: Self)
        ensures
            r.spec_threshold_num() == 9,
            r.spec_threshold_den() == 10,
    {
        Self::new()
    }
}

} // verus!
