//! The wave-field simulator: a square lattice of fixed-point height and
//! velocity samples, advanced in discrete time steps by an explicit
//! second-order integrator, with a pinned zero-height boundary ring and
//! nearest-neighbour sampling in continuous coordinates.

use vstd::prelude::*;

verus! {

/// Fixed-point scale: an `i64` value `v` stands for the real number
/// `v / SCALE`.
pub const SCALE: i64 = 1_000_000;

/// Largest accepted lattice granularity: the dense field of
/// `(2n + 1) * (2n + 1)` cells must stay addressable as a `usize` on every
/// platform, and `n` must stay below `SCALE / 2` so that a lattice
/// coordinate `x/n`, held in fixed point, rounds back to its own lattice
/// cell and sampling at a lattice point is exact.
pub const MAX_GRANULARITY: i32 = 32_000;

/// The `i64` range, as a clamp on a mathematical integer.  Arithmetic of the
/// integrator saturates at this range instead of wrapping.
pub open spec fn clip(x: int) -> int {
    if x > i64::MAX as int {
        i64::MAX as int
    } else if x < i64::MIN as int {
        i64::MIN as int
    } else {
        x
    }
}

/// Division by a positive divisor, truncated toward zero (the rounding of
/// machine division, unlike the Euclidean `/` of specifications).
pub open spec fn div_trunc(a: int, b: int) -> int {
    if a >= 0 {
        a / b
    } else {
        -((-a) / b)
    }
}

/// Saturating fixed-point product: `a * b`, scaled back down and clamped to
/// the `i64` range.
pub open spec fn fx_mul(a: int, b: int) -> int {
    clip(div_trunc(a * b, SCALE as int))
}

/// Number of lattice points per axis for granularity `n`.
pub open spec fn side_len(n: int) -> int {
    2 * n + 1
}

/// Row-major position of lattice coordinate `(x, y)`, `x, y in [-n, n]`,
/// in a dense array of `side_len(n) * side_len(n)` cells.
pub open spec fn cell_index(n: int, x: int, y: int) -> int {
    (x + n) * side_len(n) + (y + n)
}

/// Whether `(x, y)` is a point of the lattice of granularity `n`.
pub open spec fn in_lattice(n: int, x: int, y: int) -> bool {
    -n <= x <= n && -n <= y <= n
}

/// Whether `(x, y)` lies on or outside the outer ring of the lattice.
pub open spec fn on_boundary(n: int, x: int, y: int) -> bool {
    x <= -n || x >= n || y <= -n || y >= n
}

/// The continuous (fixed-point) coordinate of lattice index `x` on a grid of
/// granularity `n`: the value `x / n`, truncated toward zero.
pub open spec fn lattice_coord(x: int, n: int) -> int {
    div_trunc(x * SCALE as int, n)
}

/// Nearest integer to `a / b` for positive `b`, halves rounding away from
/// zero.
pub open spec fn round_div(a: int, b: int) -> int {
    if a >= 0 {
        (a + b / 2) / b
    } else {
        -((-a + b / 2) / b)
    }
}

proof fn lemma_cell_index_bounds(n: int, x: int, y: int)
    by (nonlinear_arith)
    requires
        1 <= n,
        in_lattice(n, x, y),
    ensures
        0 <= cell_index(n, x, y) < side_len(n) * side_len(n),
{
}

proof fn lemma_cell_index_injective(n: int, x1: int, y1: int, x2: int, y2: int)
    by (nonlinear_arith)
    requires
        1 <= n,
        in_lattice(n, x1, y1),
        in_lattice(n, x2, y2),
        cell_index(n, x1, y1) == cell_index(n, x2, y2),
    ensures
        x1 == x2,
        y1 == y2,
{
}

proof fn lemma_mul_i64_range(a: int, b: int)
    by (nonlinear_arith)
    requires
        -0x8000000000000000 <= a <= 0x7fffffffffffffff,
        -0x8000000000000000 <= b <= 0x7fffffffffffffff,
    ensures
        -0x40000000000000000000000000000000 <= a * b
            <= 0x40000000000000000000000000000000,
{
}

/// Clamp an `i128` into the `i64` range.
fn clip_i128(a: i128) -> (r: i64)
    ensures
        r as int == clip(a as int),
{
    if a > i64::MAX as i128 {
        i64::MAX
    } else if a < i64::MIN as i128 {
        i64::MIN
    } else {
        a as i64
    }
}

/// Divide by `SCALE`, truncating toward zero.
fn div_trunc_by_scale(a: i128) -> (r: i128)
    requires
        -0x40000000000000000000000000000000 <= a as int
            <= 0x40000000000000000000000000000000,
    ensures
        r as int == div_trunc(a as int, SCALE as int),
        -0x40000000000000000000000000000000 <= r as int
            <= 0x40000000000000000000000000000000,
{
    if a >= 0 {
        let q: u128 = (a as u128) / (SCALE as u128);
        q as i128
    } else {
        let q: u128 = ((-a) as u128) / (SCALE as u128);
        -(q as i128)
    }
}

/// The saturating fixed-point product, executably.
fn fx_mul_exec(a: i64, b: i64) -> (r: i64)
    ensures
        r as int == fx_mul(a as int, b as int),
{
    proof {
        lemma_mul_i64_range(a as int, b as int);
    }
    let p: i128 = (a as i128) * (b as i128);
    let q: i128 = div_trunc_by_scale(p);
    clip_i128(q)
}

fn cell_index_exec(n: i32, x: i32, y: i32) -> (r: usize)
    requires
        1 <= n <= MAX_GRANULARITY,
        in_lattice(n as int, x as int, y as int),
    ensures
        r as int == cell_index(n as int, x as int, y as int),
{
    let nl = n as i64;
    let row = (x as i64) + nl;
    let col = (y as i64) + nl;
    let side = 2 * nl + 1;
    proof {
        lemma_mul_le(row as int, 64_000, side as int, 64_001);
    }
    (row * side + col) as usize
}

proof fn lemma_mul_le(a: int, amax: int, b: int, bmax: int)
    by (nonlinear_arith)
    requires
        0 <= a <= amax,
        0 <= b <= bmax,
    ensures
        0 <= a * b <= amax * bmax,
{
}

/// The continuous coordinate of lattice index `x`, executably.
fn lattice_coord_exec(x: i32, n: i32) -> (r: i64)
    requires
        1 <= n <= MAX_GRANULARITY,
        -n <= x <= n,
    ensures
        r as int == lattice_coord(x as int, n as int),
{
    let num: i64 = (x as i64) * SCALE;
    if num >= 0 {
        ((num as u64) / (n as u64)) as i64
    } else {
        -(((-num) as u64 / (n as u64)) as i64)
    }
}

/// An initial-height function: a pure map from a pair of fixed-point
/// coordinates in `[-1, 1]` to a fixed-point height.
pub trait HeightFn {
    /// The value the function stands for, as a mathematical map.
    spec fn height_at(&self, x: int, y: int) -> int;

    /// Evaluate the function.
    fn at(&self, x: i64, y: i64) -> (r: i64)
        ensures
            r as int == self.height_at(x as int, y as int),
    ;
}

/// The identically-zero initial height.
pub struct ZeroHeight {}

impl HeightFn for ZeroHeight {
    open spec fn height_at(&self, x: int, y: int) -> int {
        0
    }

    fn at(&self, x: i64, y: i64) -> (r: i64) {
        0
    }
}

/// A single raised sample: `value` at the exact centre of the grid, zero
/// everywhere else.
pub struct CenterPulse {
    pub value: i64,
}

impl HeightFn for CenterPulse {
    open spec fn height_at(&self, x: int, y: int) -> int {
        if x == 0 && y == 0 {
            self.value as int
        } else {
            0
        }
    }

    fn at(&self, x: i64, y: i64) -> (r: i64) {
        if x == 0 && y == 0 {
            self.value
        } else {
            0
        }
    }
}

/// The height a cell of the freshly built lattice holds: zero on the
/// boundary ring, the initial-height function at its continuous coordinates
/// everywhere else.
pub open spec fn init_val<F: HeightFn>(f: F, n: int, x: int, y: int) -> int {
    if on_boundary(n, x, y) {
        0
    } else {
        f.height_at(lattice_coord(x, n), lattice_coord(y, n))
    }
}

/// The wave-field simulator.  It owns one square lattice of fixed-point
/// height samples (`vals`) and one of velocity samples (`speeds`), both of
/// `side_len(n) * side_len(n)` cells, and advances them in place.
pub struct WaveEstimator {
    granularity: i32,
    alpha: i64,
    vals: Vec<i64>,
    speeds: Vec<i64>,
}

impl WaveEstimator {
    /// The lattice granularity: lattice coordinates run over `[-n, n]`.
    pub closed spec fn n(self) -> int {
        self.granularity as int
    }

    /// The stiffness coefficient, in fixed point.
    pub closed spec fn stiffness(self) -> int {
        self.alpha as int
    }

    /// The height sample at lattice coordinate `(x, y)`.
    pub closed spec fn h(self, x: int, y: int) -> int {
        self.vals@[cell_index(self.n(), x, y)] as int
    }

    /// The velocity sample at lattice coordinate `(x, y)`.
    pub closed spec fn v(self, x: int, y: int) -> int {
        self.speeds@[cell_index(self.n(), x, y)] as int
    }

    /// Well-formedness: a lawful granularity, one sample of each field per
    /// lattice point, and the boundary ring pinned at zero height with zero
    /// velocity.
    pub closed spec fn wf(self) -> bool {
        &&& 1 <= self.granularity <= MAX_GRANULARITY
        &&& self.vals@.len() == side_len(self.n()) * side_len(self.n())
        &&& self.speeds@.len() == self.vals@.len()
        &&& forall|x: int, y: int|
            in_lattice(self.n(), x, y) && on_boundary(self.n(), x, y)
                ==> #[trigger] self.h(x, y) == 0
        &&& forall|x: int, y: int|
            in_lattice(self.n(), x, y) && on_boundary(self.n(), x, y)
                ==> #[trigger] self.v(x, y) == 0
    }

    /// The discrete Laplacian of the height field at interior point
    /// `(x, y)`: the three-point central second difference along each axis,
    /// each division by the grid spacing `1/n` carried out as a
    /// multiplication by `n`.
    pub open spec fn laplacian(self, x: int, y: int) -> int {
        let n = self.n();
        (self.h(x + 1, y) - 2 * self.h(x, y) + self.h(x - 1, y)) * n * n
            + (self.h(x, y + 1) - 2 * self.h(x, y) + self.h(x, y - 1)) * n * n
    }

    /// The velocity a cell holds after one step of size `dt`: unchanged on
    /// the boundary ring; everywhere else increased by the acceleration
    /// `stiffness * laplacian` times `dt`, each product saturating at the
    /// `i64` range.
    pub open spec fn next_speed(self, dt: int, x: int, y: int) -> int {
        if on_boundary(self.n(), x, y) {
            self.v(x, y)
        } else {
            clip(
                self.v(x, y) + fx_mul(
                    fx_mul(self.stiffness(), clip(self.laplacian(x, y))),
                    dt,
                ),
            )
        }
    }

    /// The height a cell holds after one step of size `dt`: zero on the
    /// boundary ring; everywhere else the pre-step height plus the
    /// just-updated velocity times `dt`.
    pub open spec fn next_val(self, dt: int, x: int, y: int) -> int {
        if on_boundary(self.n(), x, y) {
            0
        } else {
            clip(self.h(x, y) + fx_mul(self.next_speed(dt, x, y), dt))
        }
    }

    /// The sample the simulator hands out for the continuous (fixed-point)
    /// coordinates `(x, y)`: the height of the nearest lattice point, zero
    /// whenever that point falls on or outside the boundary ring.
    pub open spec fn sample_at(self, x: int, y: int) -> int {
        let n = self.n();
        let xr = round_div(x * n, SCALE as int);
        let yr = round_div(y * n, SCALE as int);
        if xr <= -n || xr >= n || yr <= -n || yr >= n {
            0
        } else {
            self.h(xr, yr)
        }
    }

    /// Build a simulator of the given granularity and stiffness.  Every
    /// interior lattice point takes `start_func` at its continuous
    /// coordinates; the boundary ring is pinned at zero height; every
    /// velocity starts at zero.
    pub fn new<F: HeightFn>(granularity: i32, alpha: i64, start_func: F) -> (r: WaveEstimator)
        requires
            1 <= granularity <= MAX_GRANULARITY,
        ensures
            r.wf(),
            r.n() == granularity as int,
            r.stiffness() == alpha as int,
            forall|x: int, y: int|
                in_lattice(granularity as int, x, y)
                    ==> #[trigger] r.h(x, y) == init_val(
                    start_func,
                    granularity as int,
                    x,
                    y,
                ),
            forall|x: int, y: int|
                in_lattice(granularity as int, x, y) ==> #[trigger] r.v(x, y) == 0,
    {
        let n = granularity;
        let ghost ni = n as int;
        let mut vals: Vec<i64> = Vec::new();
        let mut speeds: Vec<i64> = Vec::new();

        proof {
            vstd::arithmetic::mul::lemma_mul_basics(side_len(ni));
        }
        let mut x: i32 = -n;
        while x <= n
            invariant
                1 <= n <= MAX_GRANULARITY,
                ni == n as int,
                -n <= x <= n + 1,
                vals@.len() == (x + n) * side_len(ni),
                speeds@.len() == vals@.len(),
                forall|x2: int, y2: int|
                    in_lattice(ni, x2, y2) && cell_index(ni, x2, y2) < vals@.len()
                        ==> #[trigger] vals@[cell_index(ni, x2, y2)] as int == init_val(
                        start_func,
                        ni,
                        x2,
                        y2,
                    ),
                forall|k: int| 0 <= k < speeds@.len() ==> #[trigger] speeds@[k] == 0i64,
            decreases n + 1 - x,
        {
            let mut y: i32 = -n;
            while y <= n
                invariant
                    1 <= n <= MAX_GRANULARITY,
                    ni == n as int,
                    -n <= x <= n,
                    -n <= y <= n + 1,
                    vals@.len() == (x + n) * side_len(ni) + (y + n),
                    speeds@.len() == vals@.len(),
                    forall|x2: int, y2: int|
                        in_lattice(ni, x2, y2) && cell_index(ni, x2, y2) < vals@.len()
                            ==> #[trigger] vals@[cell_index(ni, x2, y2)] as int == init_val(
                            start_func,
                            ni,
                            x2,
                            y2,
                        ),
                    forall|k: int| 0 <= k < speeds@.len() ==> #[trigger] speeds@[k] == 0i64,
                decreases n + 1 - y,
            {
                let val: i64;
                if x <= -n || x >= n || y <= -n || y >= n {
                    val = 0;
                } else {
                    let xc = lattice_coord_exec(x, n);
                    let yc = lattice_coord_exec(y, n);
                    val = start_func.at(xc, yc);
                }
                vals.push(val);
                speeds.push(0);
                proof {
                    assert forall|x2: int, y2: int|
                        in_lattice(ni, x2, y2) && cell_index(ni, x2, y2) < vals@.len()
                            implies #[trigger] vals@[cell_index(ni, x2, y2)] as int == init_val(
                        start_func,
                        ni,
                        x2,
                        y2,
                    ) by {
                        lemma_cell_index_bounds(ni, x2, y2);
                        if cell_index(ni, x2, y2) == vals@.len() - 1 {
                            lemma_cell_index_injective(ni, x2, y2, x as int, y as int);
                        }
                    }
                }
                y = y + 1;
            }
            proof {
                lemma_mul_succ((x + n) as int, side_len(ni));
            }
            x = x + 1;
        }
        let r = WaveEstimator { granularity: n, alpha, vals, speeds };
        proof {
            assert((x + n) as int == side_len(ni));
            assert(vals@.len() == side_len(ni) * side_len(ni));
            assert forall|x2: int, y2: int| in_lattice(ni, x2, y2) implies #[trigger] r.h(
                x2,
                y2,
            ) == init_val(start_func, ni, x2, y2) by {
                lemma_cell_index_bounds(ni, x2, y2);
            }
            assert forall|x2: int, y2: int| in_lattice(ni, x2, y2) implies #[trigger] r.v(
                x2,
                y2,
            ) == 0 by {
                lemma_cell_index_bounds(ni, x2, y2);
            }
        }
        r
    }

    /// The clamped discrete Laplacian at interior point `(x, y)`,
    /// executably.
    fn laplacian_exec(&self, x: i32, y: i32) -> (r: i64)
        requires
            1 <= self.granularity <= MAX_GRANULARITY,
            self.vals@.len() == side_len(self.n()) * side_len(self.n()),
            in_lattice(self.n(), x as int, y as int),
            !on_boundary(self.n(), x as int, y as int),
        ensures
            r as int == clip(self.laplacian(x as int, y as int)),
    {
        let n = self.granularity;
        let ghost ni = self.n();
        proof {
            lemma_cell_index_bounds(ni, x as int, y as int);
            lemma_cell_index_bounds(ni, x as int + 1, y as int);
            lemma_cell_index_bounds(ni, x as int - 1, y as int);
            lemma_cell_index_bounds(ni, x as int, y as int + 1);
            lemma_cell_index_bounds(ni, x as int, y as int - 1);
        }
        let c = self.vals[cell_index_exec(n, x, y)] as i128;
        let xr = self.vals[cell_index_exec(n, x + 1, y)] as i128;
        let xl = self.vals[cell_index_exec(n, x - 1, y)] as i128;
        let yu = self.vals[cell_index_exec(n, x, y + 1)] as i128;
        let yd = self.vals[cell_index_exec(n, x, y - 1)] as i128;

        let nl = n as i128;
        proof {
            lemma_mul_le(nl as int, 32_000, nl as int, 32_000);
        }
        let nsq = nl * nl;
        let dx = xr - 2 * c + xl;
        let dy = yu - 2 * c + yd;
        proof {
            lemma_abs_mul_le(dx as int, 0x80000000000000000, nsq as int, 0x40000000);
            lemma_abs_mul_le(dy as int, 0x80000000000000000, nsq as int, 0x40000000);
            lemma_mul_reassoc(dx as int, ni);
            lemma_mul_reassoc(dy as int, ni);
        }
        let lx = dx * nsq;
        let ly = dy * nsq;
        clip_i128(lx + ly)
    }

    /// Advance the simulation by one step of size `dt`.  Every interior
    /// cell's velocity and height take `next_speed` and `next_val` of the
    /// pre-step state; the boundary ring keeps zero height, and its velocity
    /// is left untouched.  New heights are staged into a fresh field and
    /// swapped in wholesale, so every stencil read within the step observes
    /// pre-step heights only, and the step is a pure function of the prior
    /// state and `dt`.
    ///
    /// The step never fails, but the explicit scheme is numerically stable
    /// only while `stiffness * dt * dt * n * n` stays below roughly one (in
    /// real units, `alpha * dt^2 / h^2` with grid spacing `h = 1/n`).  A
    /// caller who violates that sees the field grow until it saturates at
    /// the `i64` range; choosing stable parameters is the caller's modeling
    /// obligation, not a checked error.
    pub fn update(&mut self, dt: i64)
        requires
            old(self).wf(),
        ensures
            final(self).wf(),
            final(self).n() == old(self).n(),
            final(self).stiffness() == old(self).stiffness(),
            forall|x: int, y: int|
                in_lattice(old(self).n(), x, y) ==> #[trigger] final(self).h(x, y) == old(
                    self,
                ).next_val(dt as int, x, y),
            forall|x: int, y: int|
                in_lattice(old(self).n(), x, y) ==> #[trigger] final(self).v(x, y) == old(
                    self,
                ).next_speed(dt as int, x, y),
    {
        let ghost pre: WaveEstimator = *self;
        let n = self.granularity;
        let ghost ni = pre.n();
        let mut new_vals: Vec<i64> = Vec::new();
        proof {
            vstd::arithmetic::mul::lemma_mul_basics(side_len(ni));
        }
        let mut x: i32 = -n;
        while x <= n
            invariant
                pre.wf(),
                ni == pre.n(),
                n == pre.granularity,
                self.granularity == pre.granularity,
                self.alpha == pre.alpha,
                self.vals@ == pre.vals@,
                self.speeds@.len() == pre.speeds@.len(),
                -n <= x <= n + 1,
                new_vals@.len() == (x + n) * side_len(ni),
                forall|x2: int, y2: int|
                    in_lattice(ni, x2, y2) && cell_index(ni, x2, y2) < new_vals@.len()
                        ==> #[trigger] new_vals@[cell_index(ni, x2, y2)] as int == pre.next_val(
                        dt as int,
                        x2,
                        y2,
                    ),
                forall|x2: int, y2: int|
                    in_lattice(ni, x2, y2) && cell_index(ni, x2, y2) < new_vals@.len()
                        ==> #[trigger] self.speeds@[cell_index(ni, x2, y2)] as int
                        == pre.next_speed(dt as int, x2, y2),
                forall|k: int|
                    new_vals@.len() <= k < self.speeds@.len() ==> #[trigger] self.speeds@[k]
                        == pre.speeds@[k],
            decreases n + 1 - x,
        {
            let mut y: i32 = -n;
            while y <= n
                invariant
                    pre.wf(),
                    ni == pre.n(),
                    n == pre.granularity,
                    self.granularity == pre.granularity,
                    self.alpha == pre.alpha,
                    self.vals@ == pre.vals@,
                    self.speeds@.len() == pre.speeds@.len(),
                    -n <= x <= n,
                    -n <= y <= n + 1,
                    new_vals@.len() == (x + n) * side_len(ni) + (y + n),
                    forall|x2: int, y2: int|
                        in_lattice(ni, x2, y2) && cell_index(ni, x2, y2) < new_vals@.len()
                            ==> #[trigger] new_vals@[cell_index(ni, x2, y2)] as int
                            == pre.next_val(dt as int, x2, y2),
                    forall|x2: int, y2: int|
                        in_lattice(ni, x2, y2) && cell_index(ni, x2, y2) < new_vals@.len()
                            ==> #[trigger] self.speeds@[cell_index(ni, x2, y2)] as int
                            == pre.next_speed(dt as int, x2, y2),
                    forall|k: int|
                        new_vals@.len() <= k < self.speeds@.len() ==> #[trigger] self.speeds@[k]
                            == pre.speeds@[k],
                decreases n + 1 - y,
            {
                proof {
                    lemma_cell_index_bounds(ni, x as int, y as int);
                }
                if x <= -n || x >= n || y <= -n || y >= n {
                    new_vals.push(0);
                } else {
                    let lap = self.laplacian_exec(x, y);
                    proof {
                        assert(self.laplacian(x as int, y as int) == pre.laplacian(
                            x as int,
                            y as int,
                        ));
                    }
                    let accel = fx_mul_exec(self.alpha, lap);
                    let dv = fx_mul_exec(accel, dt);
                    let k = cell_index_exec(n, x, y);
                    let v_new = clip_i128(self.speeds[k] as i128 + dv as i128);
                    self.speeds.set(k, v_new);
                    let dh = fx_mul_exec(v_new, dt);
                    let h_new = clip_i128(self.vals[k] as i128 + dh as i128);
                    new_vals.push(h_new);
                }
                proof {
                    assert forall|x2: int, y2: int|
                        in_lattice(ni, x2, y2) && cell_index(ni, x2, y2) < new_vals@.len()
                            implies #[trigger] new_vals@[cell_index(ni, x2, y2)] as int
                        == pre.next_val(dt as int, x2, y2) by {
                        lemma_cell_index_bounds(ni, x2, y2);
                        if cell_index(ni, x2, y2) == new_vals@.len() - 1 {
                            lemma_cell_index_injective(ni, x2, y2, x as int, y as int);
                        }
                    }
                    assert forall|x2: int, y2: int|
                        in_lattice(ni, x2, y2) && cell_index(ni, x2, y2) < new_vals@.len()
                            implies #[trigger] self.speeds@[cell_index(ni, x2, y2)] as int
                        == pre.next_speed(dt as int, x2, y2) by {
                        lemma_cell_index_bounds(ni, x2, y2);
                        if cell_index(ni, x2, y2) == new_vals@.len() - 1 {
                            lemma_cell_index_injective(ni, x2, y2, x as int, y as int);
                        }
                    }
                }
                y = y + 1;
            }
            proof {
                lemma_mul_succ((x + n) as int, side_len(ni));
            }
            x = x + 1;
        }
        self.vals = new_vals;
        proof {
            assert(self.vals@.len() == side_len(ni) * side_len(ni));
            assert forall|x2: int, y2: int| in_lattice(ni, x2, y2) implies #[trigger] self.h(
                x2,
                y2,
            ) == pre.next_val(dt as int, x2, y2) by {
                lemma_cell_index_bounds(ni, x2, y2);
            }
            assert forall|x2: int, y2: int| in_lattice(ni, x2, y2) implies #[trigger] self.v(
                x2,
                y2,
            ) == pre.next_speed(dt as int, x2, y2) by {
                lemma_cell_index_bounds(ni, x2, y2);
            }
        }
    }

    /// The height at the lattice point nearest to the continuous
    /// (fixed-point) coordinates `(x, y)`, zero on or outside the boundary
    /// ring.  Total: out-of-range coordinates round onto or past the ring
    /// and take the boundary answer.
    pub fn get_val(&self, x: i64, y: i64) -> (r: i64)
        requires
            self.wf(),
        ensures
            r as int == self.sample_at(x as int, y as int),
    {
        let n = self.granularity;
        let ghost ni = self.n();
        let xr = round_coord(x, n);
        let yr = round_coord(y, n);

        let nl = n as i64;
        if xr <= -nl || xr >= nl || yr <= -nl || yr >= nl {
            return 0;
        }
        proof {
            lemma_cell_index_bounds(ni, xr as int, yr as int);
        }
        self.vals[cell_index_exec(n, xr as i32, yr as i32)]
    }
}

/// Round a continuous (fixed-point) coordinate onto the lattice of
/// granularity `n`: the nearest integer to `x * n / SCALE`, halves away
/// from zero.
fn round_coord(x: i64, n: i32) -> (r: i64)
    requires
        1 <= n <= MAX_GRANULARITY,
    ensures
        r as int == round_div(x as int * n as int, SCALE as int),
{
    proof {
        lemma_abs_mul_le(x as int, 0x8000000000000000, n as int, 32_000);
    }
    let prod: i128 = (x as i128) * (n as i128);
    let half: u128 = (SCALE as u128) / 2;
    if prod >= 0 {
        (((prod as u128 + half) / (SCALE as u128)) as i128) as i64
    } else {
        -((((-prod) as u128 + half) / (SCALE as u128)) as i128) as i64
    }
}

proof fn lemma_round_recovers_nonneg(x: int, n: int)
    requires
        1 <= n <= MAX_GRANULARITY,
        0 <= x <= n,
    ensures
        round_div(((x * SCALE as int) / n) * n, SCALE as int) == x,
{
    let s = SCALE as int;
    let q = (x * s) / n;
    let r = (x * s) % n;
    vstd::arithmetic::mul::lemma_mul_nonnegative(x, s);
    vstd::arithmetic::div_mod::lemma_fundamental_div_mod(x * s, n);
    vstd::arithmetic::div_mod::lemma_mod_division_less_than_divisor(x * s, n);
    vstd::arithmetic::div_mod::lemma_div_pos_is_pos(x * s, n);
    vstd::arithmetic::mul::lemma_mul_nonnegative(q, n);
    let d = s / 2 - r;
    vstd::arithmetic::div_mod::lemma_fundamental_div_mod_converse_div(q * n + s / 2, s, x, d);
}

/// A lattice coordinate, held in fixed point, rounds back onto its own
/// lattice point: the nearest lattice index to `lattice_coord(x, n)` is `x`
/// itself.
pub proof fn lemma_round_coord_exact(x: int, n: int)
    requires
        1 <= n <= MAX_GRANULARITY,
        -n <= x <= n,
    ensures
        round_div(lattice_coord(x, n) * n, SCALE as int) == x,
{
    let s = SCALE as int;
    if x >= 0 {
        vstd::arithmetic::mul::lemma_mul_nonnegative(x, s);
        lemma_round_recovers_nonneg(x, n);
    } else {
        let xp = -x;
        lemma_round_recovers_nonneg(xp, n);
        let qp = (xp * s) / n;
        vstd::arithmetic::mul::lemma_mul_unary_negation(x, s);
        vstd::arithmetic::mul::lemma_mul_nonnegative(xp, s);
        vstd::arithmetic::div_mod::lemma_div_pos_is_pos(xp * s, n);
        vstd::arithmetic::mul::lemma_mul_nonnegative(qp, n);
        if qp * n == 0 {
            vstd::arithmetic::div_mod::lemma_basic_div(s / 2, s);
            assert(false);
        }
        vstd::arithmetic::mul::lemma_mul_unary_negation(qp, n);
    }
}

/// Sampling agreement: asked at the continuous coordinates of one of its
/// own lattice points, the simulator hands back exactly the height sample
/// it holds there, and zero whenever the point lies on the boundary ring.
pub proof fn lemma_sample_agrees_on_lattice(s: WaveEstimator, x: int, y: int)
    requires
        s.wf(),
        in_lattice(s.n(), x, y),
    ensures
        !on_boundary(s.n(), x, y) ==> s.sample_at(
            lattice_coord(x, s.n()),
            lattice_coord(y, s.n()),
        ) == s.h(x, y),
        on_boundary(s.n(), x, y) ==> s.sample_at(
            lattice_coord(x, s.n()),
            lattice_coord(y, s.n()),
        ) == 0,
{
    lemma_round_coord_exact(x, s.n());
    lemma_round_coord_exact(y, s.n());
}

/// Zero-input stability: a state at rest — every height and every velocity
/// exactly zero — steps to itself for any step size; the integrator injects
/// no spurious energy.
pub proof fn lemma_rest_state_stays_at_rest(s: WaveEstimator, dt: int)
    requires
        s.wf(),
        forall|x: int, y: int| in_lattice(s.n(), x, y) ==> #[trigger] s.h(x, y) == 0,
        forall|x: int, y: int| in_lattice(s.n(), x, y) ==> #[trigger] s.v(x, y) == 0,
    ensures
        forall|x: int, y: int|
            in_lattice(s.n(), x, y) ==> #[trigger] s.next_val(dt, x, y) == 0,
        forall|x: int, y: int|
            in_lattice(s.n(), x, y) ==> #[trigger] s.next_speed(dt, x, y) == 0,
{
    vstd::arithmetic::mul::lemma_mul_basics(s.n());
    assert forall|x: int, y: int| in_lattice(s.n(), x, y) implies #[trigger] s.next_speed(
        dt,
        x,
        y,
    ) == 0 && s.next_val(dt, x, y) == 0 by {
        if !on_boundary(s.n(), x, y) {
            assert(s.h(x, y) == 0 && s.h(x + 1, y) == 0 && s.h(x - 1, y) == 0 && s.h(x, y + 1)
                == 0 && s.h(x, y - 1) == 0);
            assert(s.laplacian(x, y) == 0);
            assert(fx_mul(s.stiffness(), clip(s.laplacian(x, y))) == 0);
            assert(fx_mul(0, dt) == 0);
        }
    }
    assert forall|x: int, y: int| in_lattice(s.n(), x, y) implies #[trigger] s.next_val(
        dt,
        x,
        y,
    ) == 0 by {
        assert(s.next_speed(dt, x, y) == 0);
    }
}

/// Determinism: two simulators that agree in granularity, stiffness and in
/// every height and velocity sample step to identical next states for one
/// and the same step size — the step is a pure function of the prior state
/// and `dt`.
pub proof fn lemma_step_deterministic(a: WaveEstimator, b: WaveEstimator, dt: int)
    requires
        a.wf(),
        b.wf(),
        a.n() == b.n(),
        a.stiffness() == b.stiffness(),
        forall|x: int, y: int|
            in_lattice(a.n(), x, y) ==> #[trigger] a.h(x, y) == b.h(x, y),
        forall|x: int, y: int|
            in_lattice(a.n(), x, y) ==> #[trigger] a.v(x, y) == b.v(x, y),
    ensures
        forall|x: int, y: int|
            in_lattice(a.n(), x, y) ==> #[trigger] a.next_val(dt, x, y) == b.next_val(dt, x, y),
        forall|x: int, y: int|
            in_lattice(a.n(), x, y) ==> #[trigger] a.next_speed(dt, x, y) == b.next_speed(
                dt,
                x,
                y,
            ),
{
    assert forall|x: int, y: int| in_lattice(a.n(), x, y) implies #[trigger] a.next_speed(
        dt,
        x,
        y,
    ) == b.next_speed(dt, x, y) by {
        if !on_boundary(a.n(), x, y) {
            assert(a.h(x + 1, y) == b.h(x + 1, y) && a.h(x - 1, y) == b.h(x - 1, y) && a.h(
                x,
                y + 1,
            ) == b.h(x, y + 1) && a.h(x, y - 1) == b.h(x, y - 1) && a.h(x, y) == b.h(x, y));
            assert(a.laplacian(x, y) == b.laplacian(x, y));
        }
    }
    assert forall|x: int, y: int| in_lattice(a.n(), x, y) implies #[trigger] a.next_val(
        dt,
        x,
        y,
    ) == b.next_val(dt, x, y) by {
        assert(a.next_speed(dt, x, y) == b.next_speed(dt, x, y));
    }
}

proof fn lemma_mul_succ(a: int, s: int)
    by (nonlinear_arith)
    ensures
        (a + 1) * s == a * s + s,
{
}

proof fn lemma_abs_mul_le(a: int, ab: int, b: int, bb: int)
    by (nonlinear_arith)
    requires
        -ab <= a <= ab,
        0 <= b <= bb,
    ensures
        -(ab * bb) <= a * b <= ab * bb,
{
}

proof fn lemma_mul_reassoc(d: int, n: int)
    by (nonlinear_arith)
    ensures
        d * n * n == d * (n * n),
{
}

/// Boundary invariant: in every well-formed state — so immediately after
/// construction and after every step — the height on the boundary ring is
/// exactly zero, and so is its velocity.
pub proof fn lemma_boundary_pinned(s: WaveEstimator, x: int, y: int)
    requires
        s.wf(),
        in_lattice(s.n(), x, y),
        on_boundary(s.n(), x, y),
    ensures
        s.h(x, y) == 0,
        s.v(x, y) == 0,
{
}

} // verus!
