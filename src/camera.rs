//! The camera: where the view is centred on the complex plane and how far it
//! is magnified, and the inverse-view transform derived from it.
//!
//! All quantities are fixed-point numbers (see `fixed`). The zoom is held in
//! `[MIN_ZOOM, MAX_ZOOM]` and the centre within `POS_LIMIT` of the origin: a
//! step that would leave those ranges stops at their edge. This keeps every
//! step representable and the zoom strictly positive.
use vstd::prelude::*;
use crate::fixed::{ONE, ONE_SQ};
use crate::input::{command_for_key, key_command, Command, Key};
use vstd::arithmetic::div_mod::{lemma_div_is_ordered_by_denominator, lemma_div_non_zero};
use vstd::arithmetic::power::{lemma_pow_positive, pow};

verus! {

/// The smallest zoom, 1/64.
pub const MIN_ZOOM: i64 = 67108864;

/// The largest zoom, 2^24.
pub const MAX_ZOOM: i64 = 72057594037927936;

/// The largest distance of either coordinate of the centre from 0, namely 64.
pub const POS_LIMIT: i64 = 274877906944;

/// One zoom step multiplies the zoom by `ZOOM_NUM / ZOOM_DEN` = 1.02.
pub const ZOOM_NUM: i64 = 51;

pub const ZOOM_DEN: i64 = 50;

/// A direction in which the camera pans.
#[derive(Clone, Copy, Debug, PartialEq, Eq, Structural)]
pub enum Direction {
    Up,
    Down,
    Left,
    Right,
}

/// Centre of the view (`pos_x`, `pos_y`) and magnification (`zoom`), all in
/// fixed point.
#[derive(Clone, Copy, Debug, PartialEq, Eq, Structural)]
pub struct Camera {
    pub pos_x: i64,
    pub pos_y: i64,
    pub zoom: i64,
}

/// `v` held within `[lo, hi]`.
pub open spec fn clamp(v: int, lo: int, hi: int) -> int {
    if v < lo {
        lo
    } else if v > hi {
        hi
    } else {
        v
    }
}

/// `1 / zoom` in fixed point, rounded down.
pub open spec fn recip(zoom: int) -> int {
    (ONE_SQ as int) / zoom
}

/// The pan step `0.1 / zoom` in fixed point, rounded down.
pub open spec fn pan_step(zoom: int) -> int {
    (ONE_SQ as int) / (10 * zoom)
}

/// For a zoom in range, `1 / zoom` is positive and the pan step is at most
/// `1 / zoom`, and both lie within `POS_LIMIT`.
pub proof fn lemma_recip_bounds(zoom: int)
    requires
        MIN_ZOOM <= zoom <= MAX_ZOOM,
    ensures
        0 < recip(zoom) <= POS_LIMIT,
        0 <= pan_step(zoom) <= recip(zoom),
{
    lemma_div_non_zero(ONE_SQ as int, zoom);
    lemma_div_is_ordered_by_denominator(ONE_SQ as int, MIN_ZOOM as int, zoom);
    lemma_div_is_ordered_by_denominator(ONE_SQ as int, zoom, 10 * zoom);
    assert((ONE_SQ as int) / (MIN_ZOOM as int) == POS_LIMIT);
}

/// The unit vector of a direction: `(dx, dy)`.
pub open spec fn unit(d: Direction) -> (int, int) {
    match d {
        Direction::Up => (0, 1),
        Direction::Down => (0, -1),
        Direction::Left => (-1, 0),
        Direction::Right => (1, 0),
    }
}

/// The zoom after one zoom-in step from `z`: `z * 1.02`, rounded down.
pub open spec fn zoom_in_value(z: int) -> int {
    clamp((z * ZOOM_NUM) / (ZOOM_DEN as int), MIN_ZOOM as int, MAX_ZOOM as int)
}

/// The zoom after one zoom-out step from `z`: `z / 1.02`, rounded down.
pub open spec fn zoom_out_value(z: int) -> int {
    clamp((z * ZOOM_DEN) / (ZOOM_NUM as int), MIN_ZOOM as int, MAX_ZOOM as int)
}

/// `m` is the inverse-view matrix of `c`.
pub open spec fn is_inverse_view(m: [[i64; 3]; 3], c: Camera) -> bool {
    &&& m@[0]@ == seq![recip(c.zoom as int) as i64, 0i64, 0i64]
    &&& m@[1]@ == seq![0i64, recip(c.zoom as int) as i64, 0i64]
    &&& m@[2]@ == seq![c.pos_x, c.pos_y, ONE]
}

impl Camera {
    /// The zoom is positive and in range, and the centre is in range.
    pub open spec fn wf(self) -> bool {
        &&& MIN_ZOOM <= self.zoom <= MAX_ZOOM
        &&& -POS_LIMIT <= self.pos_x <= POS_LIMIT
        &&& -POS_LIMIT <= self.pos_y <= POS_LIMIT
    }

    /// The camera after one pan in direction `d`.
    pub open spec fn panned(self, d: Direction) -> Camera {
        let step = pan_step(self.zoom as int);
        Camera {
            pos_x: clamp(self.pos_x + unit(d).0 * step, -POS_LIMIT as int, POS_LIMIT as int) as i64,
            pos_y: clamp(self.pos_y + unit(d).1 * step, -POS_LIMIT as int, POS_LIMIT as int) as i64,
            zoom: self.zoom,
        }
    }

    /// The camera after one zoom-in step.
    pub open spec fn zoomed_in(self) -> Camera {
        Camera { zoom: zoom_in_value(self.zoom as int) as i64, ..self }
    }

    /// The camera after one zoom-out step.
    pub open spec fn zoomed_out(self) -> Camera {
        Camera { zoom: zoom_out_value(self.zoom as int) as i64, ..self }
    }

    /// The camera after a key press: zoom keys zoom, arrow keys pan, and every
    /// other key leaves it as it is.
    pub open spec fn after_key(self, k: Key) -> Camera {
        match key_command(k) {
            Command::Pan(d) => self.panned(d),
            Command::ZoomIn => self.zoomed_in(),
            Command::ZoomOut => self.zoomed_out(),
            _ => self,
        }
    }

    /// The camera a run starts with: centre (-0.5, 0), zoom 1.
    pub fn new() -> (r: Camera)
        ensures
            r.wf(),
            r.pos_x == -ONE / 2,
            r.pos_y == 0,
            r.zoom == ONE,
    {
        Camera { pos_x: -ONE / 2, pos_y: 0, zoom: ONE }
    }
    /// The inverse-view matrix, row-major and applied as `p' = p * M`:
    /// `[[1/zoom, 0, 0], [0, 1/zoom, 0], [pos_x, pos_y, 1]]`.
    pub fn inv_view(&self) -> (r: [[i64; 3]; 3])
        requires
            self.wf(),
        ensures
            is_inverse_view(r, *self),
    {
        proof {
            lemma_recip_bounds(self.zoom as int);
        }
        let d: i64 = (ONE_SQ / (self.zoom as u128)) as i64;
        let r = [[d, 0, 0], [0, d, 0], [self.pos_x, self.pos_y, ONE]];
        assert(r[0]@ =~= seq![d, 0i64, 0i64]);
        assert(r[1]@ =~= seq![0i64, d, 0i64]);
        assert(r[2]@ =~= seq![self.pos_x, self.pos_y, ONE]);
        r
    }

    /// Moves the centre by `0.1 / zoom` in direction `d`.
    pub fn pan(&mut self, d: Direction)
        requires
            old(self).wf(),
        ensures
            final(self).wf(),
            *final(self) == old(self).panned(d),
    {
        proof {
            lemma_recip_bounds(self.zoom as int);
        }
        let step: i64 = (ONE_SQ / (10 * (self.zoom as u128))) as i64;
        let (dx, dy): (i64, i64) = match d {
            Direction::Up => (0, 1),
            Direction::Down => (0, -1),
            Direction::Left => (-1, 0),
            Direction::Right => (1, 0),
        };
        self.pos_x = clamp_i64(self.pos_x + dx * step, -POS_LIMIT, POS_LIMIT);
        self.pos_y = clamp_i64(self.pos_y + dy * step, -POS_LIMIT, POS_LIMIT);
    }

    /// Multiplies the zoom by 1.02.
    pub fn zoom_in(&mut self)
        requires
            old(self).wf(),
        ensures
            final(self).wf(),
            *final(self) == old(self).zoomed_in(),
    {
        self.zoom = clamp_i64(self.zoom * ZOOM_NUM / ZOOM_DEN, MIN_ZOOM, MAX_ZOOM);
    }

    /// Divides the zoom by 1.02.
    pub fn zoom_out(&mut self)
        requires
            old(self).wf(),
        ensures
            final(self).wf(),
            *final(self) == old(self).zoomed_out(),
    {
        self.zoom = clamp_i64(self.zoom * ZOOM_DEN / ZOOM_NUM, MIN_ZOOM, MAX_ZOOM);
    }

    /// Moves the camera as the pressed key `k` asks.
    pub fn track(&mut self, k: Key)
        requires
            old(self).wf(),
        ensures
            final(self).wf(),
            *final(self) == old(self).after_key(k),
    {
        match command_for_key(k) {
            Command::Pan(d) => self.pan(d),
            Command::ZoomIn => self.zoom_in(),
            Command::ZoomOut => self.zoom_out(),
            _ => {},
        }
    }
}

/// `v` held within `[lo, hi]`.
fn clamp_i64(v: i64, lo: i64, hi: i64) -> (r: i64)
    requires
        lo <= hi,
    ensures
        r == clamp(v as int, lo as int, hi as int),
{
    if v < lo {
        lo
    } else if v > hi {
        hi
    } else {
        v
    }
}

/// One pan moves the centre by exactly the pan step `0.1 / zoom` along the
/// direction's axis, and opposite directions move it by exact negations,
/// as long as the centre stays in range.
pub proof fn lemma_pan_exact(c: Camera)
    requires
        c.wf(),
        -POS_LIMIT <= c.pos_x - pan_step(c.zoom as int),
        c.pos_x + pan_step(c.zoom as int) <= POS_LIMIT,
        -POS_LIMIT <= c.pos_y - pan_step(c.zoom as int),
        c.pos_y + pan_step(c.zoom as int) <= POS_LIMIT,
    ensures
        c.panned(Direction::Right).pos_x == c.pos_x + pan_step(c.zoom as int),
        c.panned(Direction::Up).pos_y == c.pos_y + pan_step(c.zoom as int),
        c.panned(Direction::Left).pos_x - c.pos_x == -(c.panned(Direction::Right).pos_x - c.pos_x),
        c.panned(Direction::Down).pos_y - c.pos_y == -(c.panned(Direction::Up).pos_y - c.pos_y),
        c.panned(Direction::Right).pos_y == c.pos_y,
        c.panned(Direction::Up).pos_x == c.pos_x,
{
}

/// A pan left followed by a pan right returns the centre to where it was,
/// as long as the pan left stays in range.
pub proof fn lemma_pan_left_right(c: Camera)
    requires
        c.wf(),
        -POS_LIMIT <= c.pos_x - pan_step(c.zoom as int),
    ensures
        c.panned(Direction::Left).panned(Direction::Right) == c,
{
    lemma_recip_bounds(c.zoom as int);
}

/// A pan down followed by a pan up returns the centre to where it was, as
/// long as the pan down stays in range.
pub proof fn lemma_pan_down_up(c: Camera)
    requires
        c.wf(),
        -POS_LIMIT <= c.pos_y - pan_step(c.zoom as int),
    ensures
        c.panned(Direction::Down).panned(Direction::Up) == c,
{
    lemma_recip_bounds(c.zoom as int);
}

/// A zoom-in step followed by a zoom-out step restores the zoom up to one
/// unit in the last place, as long as the zoom-in stays below `MAX_ZOOM`.
pub proof fn lemma_zoom_in_out(c: Camera)
    requires
        c.wf(),
        c.zoom * ZOOM_NUM / (ZOOM_DEN as int) <= MAX_ZOOM,
    ensures
        c.zoom - 1 <= c.zoomed_in().zoomed_out().zoom <= c.zoom,
        c.zoomed_in().zoomed_out().pos_x == c.pos_x,
        c.zoomed_in().zoomed_out().pos_y == c.pos_y,
{
    let z = c.zoom as int;
    let q = z * 51 / 50;
    assert(z <= q) by (nonlinear_arith)
        requires
            q == z * 51 / 50,
            z > 0,
    {}
    assert(z - 1 <= q * 50 / 51 <= z) by (nonlinear_arith)
        requires
            q == z * 51 / 50,
            z > 0,
    {}
}

/// A zoom-out step followed by a zoom-in step restores the zoom up to one
/// unit in the last place, as long as the zoom-out stays above `MIN_ZOOM`.
pub proof fn lemma_zoom_out_in(c: Camera)
    requires
        c.wf(),
        c.zoom * ZOOM_DEN / (ZOOM_NUM as int) >= MIN_ZOOM,
    ensures
        c.zoom - 1 <= c.zoomed_out().zoomed_in().zoom <= c.zoom,
        c.zoomed_out().zoomed_in().pos_x == c.pos_x,
        c.zoomed_out().zoomed_in().pos_y == c.pos_y,
{
    let z = c.zoom as int;
    let q = z * 50 / 51;
    assert(q <= z) by (nonlinear_arith)
        requires
            q == z * 50 / 51,
            z > 0,
    {}
    assert(z - 1 <= q * 51 / 50 <= z) by (nonlinear_arith)
        requires
            q == z * 50 / 51,
            z > 0,
    {}
}

/// The camera after `n` zoom-in steps.
pub open spec fn zoom_in_times(c: Camera, n: nat) -> Camera
    decreases n,
{
    if n == 0 {
        c
    } else {
        zoom_in_times(c, (n - 1) as nat).zoomed_in()
    }
}

/// The camera after `n` zoom-out steps.
pub open spec fn zoom_out_times(c: Camera, n: nat) -> Camera
    decreases n,
{
    if n == 0 {
        c
    } else {
        zoom_out_times(c, (n - 1) as nat).zoomed_out()
    }
}

/// `n` zoom-in steps compound geometrically: the zoom ends at `zoom0 * 1.02^n`
/// rounded down, with at most `50 * (1.02^n - 1)` units in the last place lost
/// to rounding, as long as no step reaches `MAX_ZOOM`. Only the zoom changes.
pub proof fn lemma_zoom_in_compounds(c: Camera, n: nat)
    requires
        c.wf(),
        forall|k: nat| k < n ==> #[trigger] zoom_in_times(c, k).zoom * ZOOM_NUM / (ZOOM_DEN as int) <= MAX_ZOOM,
    ensures
        zoom_in_times(c, n).wf(),
        pow(50, n) * zoom_in_times(c, n).zoom <= pow(51, n) * c.zoom,
        pow(50, n) * zoom_in_times(c, n).zoom >= pow(51, n) * c.zoom - 50 * (pow(51, n) - pow(50, n)),
        zoom_in_times(c, n).pos_x == c.pos_x,
        zoom_in_times(c, n).pos_y == c.pos_y,
    decreases n,
{
    reveal(pow);
    if n > 0 {
        let m = (n - 1) as nat;
        lemma_zoom_in_compounds(c, m);
        assert(zoom_in_times(c, m).zoom * ZOOM_NUM / (ZOOM_DEN as int) <= MAX_ZOOM);
        let a = zoom_in_times(c, m).zoom as int;
        let b = a * 51 / 50;
        assert(a <= b && 50 * b <= 51 * a && 50 * b >= 51 * a - 49) by (nonlinear_arith)
            requires
                b == a * 51 / 50,
                a > 0,
        {}
        assert(zoom_in_times(c, n).zoom == b);
        lemma_pow_positive(50, m);
        lemma_pow_positive(51, m);
        lemma_compound_step_in(pow(50, m), pow(51, m), a, b, c.zoom as int);
    }
}

/// One step of the zoom-in bound: from `a` to `b = a * 51 / 50`.
proof fn lemma_compound_step_in(p: int, q: int, a: int, b: int, z: int)
    requires
        p > 0,
        q > 0,
        p * a <= q * z,
        p * a >= q * z - 50 * (q - p),
        50 * b <= 51 * a,
        50 * b >= 51 * a - 49,
    ensures
        (50 * p) * b <= (51 * q) * z,
        (50 * p) * b >= (51 * q) * z - 50 * (51 * q - 50 * p),
{
    assert((50 * p) * b == p * (50 * b)) by (nonlinear_arith);
    assert(p * (50 * b) <= p * (51 * a)) by (nonlinear_arith)
        requires
            p > 0,
            50 * b <= 51 * a,
    {}
    assert(p * (50 * b) >= p * (51 * a - 49)) by (nonlinear_arith)
        requires
            p > 0,
            50 * b >= 51 * a - 49,
    {}
    assert(p * (51 * a) == 51 * (p * a)) by (nonlinear_arith);
    assert(p * (51 * a - 49) == 51 * (p * a) - 49 * p) by (nonlinear_arith);
    assert((51 * q) * z == 51 * (q * z)) by (nonlinear_arith);
}

/// `n` zoom-out steps compound geometrically: the zoom ends at
/// `zoom0 / 1.02^n` rounded down, with at most `51 * (1.02^n - 1) / 1.02^n`
/// units in the last place lost to rounding, as long as no step reaches
/// `MIN_ZOOM`. Only the zoom changes.
pub proof fn lemma_zoom_out_compounds(c: Camera, n: nat)
    requires
        c.wf(),
        forall|k: nat| k < n ==> #[trigger] zoom_out_times(c, k).zoom * ZOOM_DEN / (ZOOM_NUM as int) >= MIN_ZOOM,
    ensures
        zoom_out_times(c, n).wf(),
        pow(51, n) * zoom_out_times(c, n).zoom <= pow(50, n) * c.zoom,
        pow(51, n) * zoom_out_times(c, n).zoom >= pow(50, n) * c.zoom - 51 * (pow(51, n) - pow(50, n)),
        zoom_out_times(c, n).pos_x == c.pos_x,
        zoom_out_times(c, n).pos_y == c.pos_y,
    decreases n,
{
    reveal(pow);
    if n > 0 {
        let m = (n - 1) as nat;
        lemma_zoom_out_compounds(c, m);
        assert(zoom_out_times(c, m).zoom * ZOOM_DEN / (ZOOM_NUM as int) >= MIN_ZOOM);
        let a = zoom_out_times(c, m).zoom as int;
        let b = a * 50 / 51;
        assert(b <= a && 51 * b <= 50 * a && 51 * b >= 50 * a - 50) by (nonlinear_arith)
            requires
                b == a * 50 / 51,
                a > 0,
        {}
        assert(zoom_out_times(c, n).zoom == b);
        lemma_pow_positive(50, m);
        lemma_pow_positive(51, m);
        lemma_compound_step_out(pow(50, m), pow(51, m), a, b, c.zoom as int);
    }
}

/// One step of the zoom-out bound: from `a` to `b = a * 50 / 51`.
proof fn lemma_compound_step_out(p: int, q: int, a: int, b: int, z: int)
    requires
        p > 0,
        q > 0,
        q * a <= p * z,
        q * a >= p * z - 51 * (q - p),
        51 * b <= 50 * a,
        51 * b >= 50 * a - 50,
    ensures
        (51 * q) * b <= (50 * p) * z,
        (51 * q) * b >= (50 * p) * z - 51 * (51 * q - 50 * p),
{
    assert((51 * q) * b == q * (51 * b)) by (nonlinear_arith);
    assert(q * (51 * b) <= q * (50 * a)) by (nonlinear_arith)
        requires
            q > 0,
            51 * b <= 50 * a,
    {}
    assert(q * (51 * b) >= q * (50 * a - 50)) by (nonlinear_arith)
        requires
            q > 0,
            51 * b >= 50 * a - 50,
    {}
    assert(q * (50 * a) == 50 * (q * a)) by (nonlinear_arith);
    assert(q * (50 * a - 50) == 50 * (q * a) - 50 * q) by (nonlinear_arith);
    assert((50 * p) * z == 50 * (p * z)) by (nonlinear_arith);
}

} // verus!
