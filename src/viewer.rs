//! The viewer's state machine: the camera, the iteration bound and the
//! fractal family, the commands that change them, and the per-frame values
//! derived from them.
use vstd::prelude::*;
use crate::camera::{is_inverse_view, lemma_recip_bounds, recip, Camera, POS_LIMIT};
use crate::escape::{escape, escape_time, Complex, EscapeResult};
use crate::fixed::{fx_mul, fx_product, ONE};
use crate::input::{event_command, command_for_event, Command, Event};

verus! {

/// The iteration bound a run starts with.
pub const INITIAL_ITERATIONS: u32 = 256;

/// Doubling never takes the iteration bound above this.
pub const MAX_ITERATIONS: u32 = 1048576;

/// The real part of the Julia constant, -0.8.
pub const JULIA_RE: i64 = -3435973837;

/// The imaginary part of the Julia constant, 0.156.
pub const JULIA_IM: i64 = 670014898;

/// The fractal family on screen.
#[derive(Clone, Copy, Debug, PartialEq, Eq, Structural)]
pub enum Family {
    Mandelbrot,
    Julia,
}

/// What the event loop does after a command: stop, draw a frame, or wait for
/// the next event.
#[derive(Clone, Copy, Debug, PartialEq, Eq, Structural)]
pub enum Outcome {
    Close,
    Redraw,
    Idle,
}

/// The values one frame is drawn with.
#[derive(Clone, Copy, Debug, PartialEq, Eq)]
pub struct Uniforms {
    pub iterations: u32,
    pub inv_view: [[i64; 3]; 3],
    pub family: Family,
}

/// Everything the viewer's commands change.
#[derive(Clone, Copy, Debug, PartialEq, Eq, Structural)]
pub struct Viewer {
    pub camera: Camera,
    pub iterations: u32,
    pub family: Family,
}

/// The iteration bound after doubling `n`, held at `MAX_ITERATIONS`.
pub open spec fn doubled(n: int) -> int {
    if 2 * n > MAX_ITERATIONS {
        MAX_ITERATIONS as int
    } else {
        2 * n
    }
}

/// The outcome of a command: `Close` ends the loop, `Ignore` does nothing, and
/// every other command is followed by a redraw.
pub open spec fn outcome_of(cmd: Command) -> Outcome {
    match cmd {
        Command::Close => Outcome::Close,
        Command::Ignore => Outcome::Idle,
        _ => Outcome::Redraw,
    }
}

/// The point of the plane that the inverse view `m` maps the screen point
/// `(x, y)` to: the row vector `(x, y, 1)` times `m`.
pub open spec fn transform(m: [[i64; 3]; 3], x: int, y: int) -> (int, int) {
    (
        fx_mul(x, m@[0]@[0] as int) + fx_mul(y, m@[1]@[0] as int) + fx_mul(ONE as int, m@[2]@[0] as int),
        fx_mul(x, m@[0]@[1] as int) + fx_mul(y, m@[1]@[1] as int) + fx_mul(ONE as int, m@[2]@[1] as int),
    )
}

/// The point of the plane that camera `c` shows at screen point `(x, y)`.
pub open spec fn view_point(c: Camera, x: int, y: int) -> (int, int) {
    (fx_mul(x, recip(c.zoom as int)) + c.pos_x, fx_mul(y, recip(c.zoom as int)) + c.pos_y)
}

/// `(c, z0)` of the recurrence for plane point `p`: the Mandelbrot family
/// iterates from 0 with `c = p`, the Julia family from `p` with the Julia
/// constant.
pub open spec fn seed_of(f: Family, p: (int, int)) -> ((int, int), (int, int)) {
    match f {
        Family::Mandelbrot => (p, (0, 0)),
        Family::Julia => ((JULIA_RE as int, JULIA_IM as int), p),
    }
}

/// A factor of at most 1 times a factor within `POS_LIMIT` stays within
/// `POS_LIMIT`.
proof fn lemma_scaled_bound(a: int, b: int)
    requires
        -ONE <= a <= ONE,
        -POS_LIMIT <= b <= POS_LIMIT,
    ensures
        -0x400000000000000000 <= a * b <= 0x400000000000000000,
        -POS_LIMIT <= fx_mul(a, b) <= POS_LIMIT,
{
    assert(-0x400000000000000000 <= a * b <= 0x400000000000000000) by (nonlinear_arith)
        requires
            -4294967296 <= a <= 4294967296,
            -274877906944 <= b <= 274877906944,
    {}
    let p = a * b;
    assert(-274877906944 <= p / 4294967296 <= 274877906944) by (nonlinear_arith)
        requires
            -0x400000000000000000 <= p <= 0x400000000000000000,
    {}
}

/// Maps the screen point `(x, y)`, each in `[-1, 1]`, through the inverse view
/// `m` to the plane.
pub fn map_point(m: &[[i64; 3]; 3], x: i64, y: i64) -> (r: Complex)
    requires
        -ONE <= x <= ONE,
        -ONE <= y <= ONE,
        forall|i: int, j: int|
            0 <= i < 3 && 0 <= j < 2 ==> -POS_LIMIT <= #[trigger] m@[i]@[j] <= POS_LIMIT,
    ensures
        r.pair() == transform(*m, x as int, y as int),
        r.in_range(),
{
    proof {
        lemma_scaled_bound(x as int, m@[0]@[0] as int);
        lemma_scaled_bound(y as int, m@[1]@[0] as int);
        lemma_scaled_bound(ONE as int, m@[2]@[0] as int);
        lemma_scaled_bound(x as int, m@[0]@[1] as int);
        lemma_scaled_bound(y as int, m@[1]@[1] as int);
        lemma_scaled_bound(ONE as int, m@[2]@[1] as int);
    }
    let re = fx_product(x, m[0][0]) + fx_product(y, m[1][0]) + fx_product(ONE, m[2][0]);
    let im = fx_product(x, m[0][1]) + fx_product(y, m[1][1]) + fx_product(ONE, m[2][1]);
    Complex { re, im }
}

/// `(c, z0)` of the recurrence for plane point `p` in family `f`.
pub fn seed(f: Family, p: Complex) -> (r: (Complex, Complex))
    ensures
        (r.0.pair(), r.1.pair()) == seed_of(f, p.pair()),
{
    match f {
        Family::Mandelbrot => (p, Complex { re: 0, im: 0 }),
        Family::Julia => (Complex { re: JULIA_RE, im: JULIA_IM }, p),
    }
}

impl Viewer {
    /// The camera is well formed and the iteration bound within its limit.
    pub open spec fn wf(self) -> bool {
        &&& self.camera.wf()
        &&& self.iterations <= MAX_ITERATIONS
    }

    /// The state after applying `cmd`. Halving truncates, so a bound of 1
    /// becomes 0 and 0 stays 0; with a bound of 0 every point is `Bounded`.
    pub open spec fn after(self, cmd: Command) -> Viewer {
        match cmd {
            Command::DoubleIterations => Viewer { iterations: doubled(self.iterations as int) as u32, ..self },
            Command::HalveIterations => Viewer { iterations: self.iterations / 2, ..self },
            Command::SelectMandelbrot => Viewer { family: Family::Mandelbrot, ..self },
            Command::SelectJulia => Viewer { family: Family::Julia, ..self },
            Command::Pan(d) => Viewer { camera: self.camera.panned(d), ..self },
            Command::ZoomIn => Viewer { camera: self.camera.zoomed_in(), ..self },
            Command::ZoomOut => Viewer { camera: self.camera.zoomed_out(), ..self },
            Command::Close | Command::RedrawRequest | Command::Ignore => self,
        }
    }

    /// The state a run starts with: the initial camera, 256 iterations, the
    /// Mandelbrot family.
    pub fn new() -> (r: Viewer)
        ensures
            r.wf(),
            r.camera.pos_x == -ONE / 2,
            r.camera.pos_y == 0,
            r.camera.zoom == ONE,
            r.iterations == INITIAL_ITERATIONS,
            r.family == Family::Mandelbrot,
    {
        Viewer { camera: Camera::new(), iterations: INITIAL_ITERATIONS, family: Family::Mandelbrot }
    }

    /// Applies one command and says whether to stop, redraw or wait.
    pub fn apply(&mut self, cmd: Command) -> (r: Outcome)
        requires
            old(self).wf(),
        ensures
            final(self).wf(),
            *final(self) == old(self).after(cmd),
            r == outcome_of(cmd),
    {
        match cmd {
            Command::Close => Outcome::Close,
            Command::RedrawRequest => Outcome::Redraw,
            Command::DoubleIterations => {
                if self.iterations > MAX_ITERATIONS / 2 {
                    self.iterations = MAX_ITERATIONS;
                } else {
                    self.iterations = 2 * self.iterations;
                }
                Outcome::Redraw
            },
            Command::HalveIterations => {
                self.iterations = self.iterations / 2;
                Outcome::Redraw
            },
            Command::SelectMandelbrot => {
                self.family = Family::Mandelbrot;
                Outcome::Redraw
            },
            Command::SelectJulia => {
                self.family = Family::Julia;
                Outcome::Redraw
            },
            Command::Pan(d) => {
                self.camera.pan(d);
                Outcome::Redraw
            },
            Command::ZoomIn => {
                self.camera.zoom_in();
                Outcome::Redraw
            },
            Command::ZoomOut => {
                self.camera.zoom_out();
                Outcome::Redraw
            },
            Command::Ignore => Outcome::Idle,
        }
    }

    /// Maps an event to its command and applies the command it stands for.
    pub fn handle(&mut self, e: Event) -> (r: Outcome)
        requires
            old(self).wf(),
        ensures
            final(self).wf(),
            *final(self) == old(self).after(event_command(e)),
            r == outcome_of(event_command(e)),
    {
        let cmd = command_for_event(e);
        self.apply(cmd)
    }

    /// The values the next frame is drawn with.
    pub fn uniforms(&self) -> (r: Uniforms)
        requires
            self.wf(),
        ensures
            r.iterations == self.iterations,
            is_inverse_view(r.inv_view, self.camera),
            r.family == self.family,
    {
        Uniforms { iterations: self.iterations, inv_view: self.camera.inv_view(), family: self.family }
    }

    /// The escape result at screen point `(x, y)`, each in `[-1, 1]`, for the
    /// current camera, family and iteration bound.
    pub fn evaluate(&self, x: i64, y: i64) -> (r: EscapeResult)
        requires
            self.wf(),
            -ONE <= x <= ONE,
            -ONE <= y <= ONE,
        ensures
            r == escape_time(
                seed_of(self.family, view_point(self.camera, x as int, y as int)).0,
                seed_of(self.family, view_point(self.camera, x as int, y as int)).1,
                self.iterations as nat,
            ),
    {
        let m = self.camera.inv_view();
        proof {
            lemma_recip_bounds(self.camera.zoom as int);
            assert(fx_mul(y as int, 0) == 0);
            assert(fx_mul(x as int, 0) == 0);
            assert(fx_mul(ONE as int, self.camera.pos_x as int) == self.camera.pos_x) by (nonlinear_arith);
            assert(fx_mul(ONE as int, self.camera.pos_y as int) == self.camera.pos_y) by (nonlinear_arith);
        }
        let p = map_point(&m, x, y);
        let (c, z0) = seed(self.family, p);
        escape(c, z0, self.iterations)
    }
}

/// Selecting a family twice is the same as selecting it once, and a selection
/// leaves that family, and only it, active.
pub proof fn lemma_select_idempotent(v: Viewer)
    ensures
        v.after(Command::SelectMandelbrot).after(Command::SelectMandelbrot) == v.after(Command::SelectMandelbrot),
        v.after(Command::SelectJulia).after(Command::SelectJulia) == v.after(Command::SelectJulia),
        v.after(Command::SelectMandelbrot).family == Family::Mandelbrot,
        v.after(Command::SelectMandelbrot).family != Family::Julia,
        v.after(Command::SelectJulia).family == Family::Julia,
        v.after(Command::SelectJulia).family != Family::Mandelbrot,
{
}

/// Every command keeps the state well formed, and only `Close` ends the loop.
pub proof fn lemma_after_wf(v: Viewer, cmd: Command)
    requires
        v.wf(),
    ensures
        v.after(cmd).wf(),
        outcome_of(cmd) == Outcome::Close <==> cmd == Command::Close,
{
    lemma_recip_bounds(v.camera.zoom as int);
}

} // verus!
