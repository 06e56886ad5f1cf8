//! The escape-time evaluator: iterates `z <- z^2 + c` from `z0` in fixed point
//! and reports the first step whose result leaves the disc of radius 2.
use vstd::prelude::*;
use crate::fixed::{floor_div_one, ONE};

verus! {

/// Inputs of the evaluator stay within this distance of 0 on each axis: 1024.
pub const COORD_LIMIT: i64 = 4398046511104;

/// The square of the escape radius 2, in the scale of a product of two
/// fixed-point numbers.
pub const ESCAPE_RADIUS_SQ: i128 = 73786976294838206464;

/// A complex number with fixed-point parts.
#[derive(Clone, Copy, Debug, PartialEq, Eq, Structural)]
pub struct Complex {
    pub re: i64,
    pub im: i64,
}

impl Complex {
    pub open spec fn pair(self) -> (int, int) {
        (self.re as int, self.im as int)
    }

    /// Both parts lie within `COORD_LIMIT`.
    pub open spec fn in_range(self) -> bool {
        &&& -COORD_LIMIT <= self.re <= COORD_LIMIT
        &&& -COORD_LIMIT <= self.im <= COORD_LIMIT
    }
}

/// What the evaluator reports: the step at which the orbit escaped, or that it
/// stayed bounded for all steps allowed.
#[derive(Clone, Copy, Debug, PartialEq, Eq, Structural)]
pub enum EscapeResult {
    Escaped(u32),
    Bounded,
}

/// One step of the recurrence, `z^2 + c`, with each product rounded down.
pub open spec fn square_add(z: (int, int), c: (int, int)) -> (int, int) {
    ((z.0 * z.0 - z.1 * z.1) / (ONE as int) + c.0, (2 * (z.0 * z.1)) / (ONE as int) + c.1)
}

/// `z_k`: the orbit of `z0` under `z <- z^2 + c` after `k` steps.
pub open spec fn orbit(c: (int, int), z0: (int, int), k: nat) -> (int, int)
    decreases k,
{
    if k == 0 {
        z0
    } else {
        square_add(orbit(c, z0, (k - 1) as nat), c)
    }
}

/// `|z| > 2`.
pub open spec fn outside(z: (int, int)) -> bool {
    z.0 * z.0 + z.1 * z.1 > ESCAPE_RADIUS_SQ
}

/// Step `k` (counting from 0) takes the orbit outside the disc: `|z_{k+1}| > 2`.
pub open spec fn escapes_at(c: (int, int), z0: (int, int), k: nat) -> bool {
    outside(orbit(c, z0, k + 1))
}

/// The first step `k` with `from <= k < max_iter` that escapes, else `Bounded`.
pub open spec fn escape_from(c: (int, int), z0: (int, int), from: nat, max_iter: nat) -> EscapeResult
    decreases max_iter - from,
{
    if from >= max_iter {
        EscapeResult::Bounded
    } else if escapes_at(c, z0, from) {
        EscapeResult::Escaped(from as u32)
    } else {
        escape_from(c, z0, from + 1, max_iter)
    }
}

/// The escape time of `z0` under `c` within `max_iter` steps.
pub open spec fn escape_time(c: (int, int), z0: (int, int), max_iter: nat) -> EscapeResult {
    escape_from(c, z0, 0, max_iter)
}

/// A point inside the disc of radius 2 has both parts within 2.
proof fn lemma_inside_bounded(x: int, y: int)
    requires
        !outside((x, y)),
    ensures
        -2 * ONE <= x <= 2 * ONE,
        -2 * ONE <= y <= 2 * ONE,
{
    assert(x * x <= ESCAPE_RADIUS_SQ && y * y <= ESCAPE_RADIUS_SQ) by (nonlinear_arith)
        requires
            x * x + y * y <= ESCAPE_RADIUS_SQ,
    {}
    assert(-2 * ONE <= x <= 2 * ONE) by (nonlinear_arith)
        requires
            x * x <= 73786976294838206464,
    {}
    assert(-2 * ONE <= y <= 2 * ONE) by (nonlinear_arith)
        requires
            y * y <= 73786976294838206464,
    {}
}

/// Iterates `z <- z^2 + c` from `z0` for at most `max_iter` steps and returns
/// `Escaped(k)` for the first step `k` whose result has `|z| > 2`, or
/// `Bounded` when no step does (in particular when `max_iter` is 0).
pub fn escape(c: Complex, z0: Complex, max_iter: u32) -> (r: EscapeResult)
    requires
        c.in_range(),
        z0.in_range(),
    ensures
        r == escape_time(c.pair(), z0.pair(), max_iter as nat),
{
    let ghost cp = c.pair();
    let ghost zp = z0.pair();
    let mut re: i64 = z0.re;
    let mut im: i64 = z0.im;
    let mut i: u32 = 0;
    while i < max_iter
        invariant
            i <= max_iter,
            (re as int, im as int) == orbit(cp, zp, i as nat),
            -COORD_LIMIT <= re <= COORD_LIMIT,
            -COORD_LIMIT <= im <= COORD_LIMIT,
            c.in_range(),
            cp == c.pair(),
            zp == z0.pair(),
            escape_from(cp, zp, i as nat, max_iter as nat) == escape_time(cp, zp, max_iter as nat),
        decreases max_iter - i,
    {
        let re_w: i128 = re as i128;
        let im_w: i128 = im as i128;
        proof {
            assert(re_w * re_w <= 0x1000000000000000000000 && im_w * im_w <= 0x1000000000000000000000
                && -0x1000000000000000000000 <= re_w * im_w <= 0x1000000000000000000000)
                by (nonlinear_arith)
                requires
                    -COORD_LIMIT <= re_w <= COORD_LIMIT,
                    -COORD_LIMIT <= im_w <= COORD_LIMIT,
            {}
            assert(re_w * re_w >= 0 && im_w * im_w >= 0) by (nonlinear_arith);
        }
        let next_re: i64 = floor_div_one(re_w * re_w - im_w * im_w) + c.re;
        let next_im: i64 = floor_div_one(2 * (re_w * im_w)) + c.im;
        let nr: i128 = next_re as i128;
        let ni: i128 = next_im as i128;
        proof {
            assert(nr * nr + ni * ni <= 0x100000000000000000000000000000) by (nonlinear_arith)
                requires
                    -0x200000000000000 <= nr <= 0x200000000000000,
                    -0x200000000000000 <= ni <= 0x200000000000000,
            {}
            assert(nr * nr >= 0 && ni * ni >= 0) by (nonlinear_arith);
            assert((next_re as int, next_im as int) == orbit(cp, zp, (i + 1) as nat));
        }
        if nr * nr + ni * ni > ESCAPE_RADIUS_SQ {
            proof {
                assert(escapes_at(cp, zp, i as nat));
                assert(escape_from(cp, zp, i as nat, max_iter as nat) == EscapeResult::Escaped(i));
            }
            return EscapeResult::Escaped(i);
        }
        proof {
            lemma_inside_bounded(next_re as int, next_im as int);
            assert(!escapes_at(cp, zp, i as nat));
        }
        re = next_re;
        im = next_im;
        i = i + 1;
    }
    EscapeResult::Bounded
}

/// Once no step from `from` on escapes before `max_iter`, the search from
/// `from` reports `Bounded`.
proof fn lemma_bounded_from(c: (int, int), z0: (int, int), from: nat, max_iter: nat)
    requires
        forall|k: nat| from <= k < max_iter ==> !#[trigger] escapes_at(c, z0, k),
    ensures
        escape_from(c, z0, from, max_iter) == EscapeResult::Bounded,
    decreases max_iter - from,
{
    if from < max_iter {
        lemma_bounded_from(c, z0, from + 1, max_iter);
    }
}

/// The orbit of 0 under `c = 0` stays at 0.
proof fn lemma_orbit_origin(k: nat)
    ensures
        orbit((0, 0), (0, 0), k) == (0int, 0int),
    decreases k,
{
    if k > 0 {
        lemma_orbit_origin((k - 1) as nat);
    }
}

/// The orbit of 0 under `c = -1` alternates between 0 and -1.
proof fn lemma_orbit_minus_one(k: nat)
    ensures
        orbit((-ONE as int, 0), (0, 0), k) == (if k % 2 == 0 { (0int, 0int) } else { (-ONE as int, 0int) }),
    decreases k,
{
    if k > 0 {
        lemma_orbit_minus_one((k - 1) as nat);
        let z = orbit((-ONE as int, 0), (0, 0), (k - 1) as nat);
        assert(((-ONE as int) * (-ONE as int)) / (ONE as int) == ONE);
        assert(square_add(z, (-ONE as int, 0)) == (if k % 2 == 0 { (0int, 0int) } else { (-ONE as int, 0int) }));
    }
}

/// In the Mandelbrot family `c = 0` never escapes, whatever the bound.
pub proof fn lemma_origin_bounded(max_iter: nat)
    ensures
        escape_time((0, 0), (0, 0), max_iter) == EscapeResult::Bounded,
{
    assert forall|k: nat| 0 <= k < max_iter implies !#[trigger] escapes_at((0, 0), (0, 0), k) by {
        lemma_orbit_origin(k + 1);
    }
    lemma_bounded_from((0, 0), (0, 0), 0, max_iter);
}

/// In the Mandelbrot family `c = -1` never escapes, whatever the bound: its
/// orbit is the cycle 0, -1.
pub proof fn lemma_minus_one_bounded(max_iter: nat)
    ensures
        escape_time((-ONE as int, 0), (0, 0), max_iter) == EscapeResult::Bounded,
{
    assert forall|k: nat| 0 <= k < max_iter implies !#[trigger] escapes_at((-ONE as int, 0), (0, 0), k) by {
        lemma_orbit_minus_one(k + 1);
    }
    lemma_bounded_from((-ONE as int, 0), (0, 0), 0, max_iter);
}

/// In the Mandelbrot family `c = 2` reaches `|z| = 2` after step 0 without
/// leaving the disc, and leaves it after step 1 (`|z| = 6`).
pub proof fn lemma_two_escapes_at_one(max_iter: nat)
    requires
        max_iter >= 2,
    ensures
        escape_time((2 * ONE as int, 0), (0, 0), max_iter) == EscapeResult::Escaped(1),
{
    let c = (2 * ONE as int, 0int);
    assert(c == (8589934592int, 0int));
    assert(orbit(c, (0, 0), 0) == (0int, 0int));
    assert(ONE as int == 4294967296int);
    assert(0int / 4294967296int == 0int);
    assert(square_add((0, 0), c) == (8589934592int, 0int));
    assert(orbit(c, (0, 0), 1) == (8589934592int, 0int));
    assert(8589934592int * 8589934592int == 73786976294838206464int);
    assert(73786976294838206464int / 4294967296int == 17179869184int);
    let z1 = (8589934592int, 0int);
    assert(z1.0 * z1.0 - z1.1 * z1.1 == 73786976294838206464int);
    assert((z1.0 * z1.0 - z1.1 * z1.1) / (ONE as int) == 17179869184int);
    assert(2 * (z1.0 * z1.1) == 0);
    assert(square_add(z1, c) == (25769803776int, 0int));
    assert(orbit(c, (0, 0), 2) == (25769803776int, 0int));
    assert(!escapes_at(c, (0, 0), 0));
    assert(escapes_at(c, (0, 0), 1));
    assert(escape_from(c, (0, 0), 1, max_iter) == EscapeResult::Escaped(1));
}

/// With no step allowed nothing escapes: the result is `Bounded`.
pub proof fn lemma_no_steps_bounded(c: (int, int), z0: (int, int))
    ensures
        escape_time(c, z0, 0) == EscapeResult::Bounded,
{
}

} // verus!
