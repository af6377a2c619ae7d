//! The document model: rasterized glyphs, lines of glyph instances with
//! their relaxation algorithm, and the page that owns them.

use vstd::prelude::*;

use crate::fixed::{fx_add, fx_mul, fx_mul_v, fx_neg, fx_sub, lemma_fx_mul_zero, sat64, FX_ONE};
use crate::text::{i64_text, spec_i64_text, spec_u64_text, usize_text};
use crate::utils::IntPoint;
use crate::utils::Point;
use vstd::string::StringExecFns;

verus! {

/// Ceiling of `a / b` for non-negative `a` and positive `b`.
pub open spec fn spec_ceil_div(a: int, b: int) -> int
    recommends
        a >= 0,
        b > 0,
{
    (a + b - 1) / b
}

/// The number of grid cells a circle glyph spans along an axis with `n`
/// page cells: `ceil(2 * radius * n)` with `radius` in fixed-point units.
pub open spec fn spec_circle_dim(radius: int, n: int) -> int {
    spec_ceil_div(2 * radius * n, FX_ONE as int)
}

/// Whether cell `(i, j)` of a `gx` by `gy` circle glyph raster is filled:
/// the squared distance from the cell's center to the grid's center,
/// normalized by the page resolution `(nx, ny)`, is strictly less than the
/// squared radius.  The center of cell `i` sits `(2i - (gx-1)) / 2` cells
/// from the grid's center, so the offsets are kept doubled and the radius
/// side gains a factor of 4; all denominators are cleared.  Centering on
/// the grid's center (not on cell `gx/2`) makes the raster symmetric under
/// a half turn.
pub open spec fn spec_cell_filled(
    radius: int,
    nx: int,
    ny: int,
    gx: int,
    gy: int,
    i: int,
    j: int,
) -> bool {
    let di = 2 * i - (gx - 1);
    let dj = 2 * j - (gy - 1);
    let s = FX_ONE as int;
    s * s * (di * di * ny * ny + dj * dj * nx * nx) < 4 * radius * radius * nx * nx * ny * ny
}

/// An immutable occupancy mask for a rasterized shape.
pub struct Glyph {
    pub grid: Vec<Vec<bool>>,
}

impl Glyph {
    /// A well-formed glyph has a non-empty rectangular grid.
    pub open spec fn wf(&self) -> bool {
        &&& self.grid@.len() >= 1
        &&& self.grid@[0]@.len() >= 1
        &&& forall|r: int|
            0 <= r < self.grid@.len() ==> (#[trigger] self.grid@[r])@.len() == self.grid@[0]@.len()
    }

    /// Number of cells along the x axis.
    pub open spec fn spec_gx(&self) -> int {
        self.grid@.len() as int
    }

    /// Number of cells along the y axis.
    pub open spec fn spec_gy(&self) -> int {
        self.grid@[0]@.len() as int
    }

    /// Number of cells along the x axis.
    pub fn gx(&self) -> (r: usize)
        ensures
            r == self.spec_gx(),
    {
        self.grid.len()
    }

    /// Number of cells along the y axis.
    pub fn gy(&self) -> (r: usize)
        requires
            self.grid@.len() >= 1,
        ensures
            r == self.spec_gy(),
    {
        self.grid[0].len()
    }

    /// Whether cell `(i, j)` is occupied.
    pub fn filled(&self, i: usize, j: usize) -> (r: bool)
        requires
            i < self.grid@.len(),
            j < self.grid@[i as int]@.len(),
        ensures
            r == self.grid@[i as int]@[j as int],
    {
        let row: &Vec<bool> = &self.grid[i];
        row[j]
    }

    /// Rasterizes a filled circle of the given fixed-point radius (a
    /// fraction of the page size, strictly between 0 and 1) on a page of
    /// `page_nx` by `page_ny` cells.
    pub fn circle(radius: i64, page_nx: i32, page_ny: i32) -> (g: Glyph)
        requires
            0 < radius < FX_ONE,
            0 < page_nx <= 3000,
            0 < page_ny <= 3000,
        ensures
            g.wf(),
            g.spec_gx() == spec_circle_dim(radius as int, page_nx as int),
            g.spec_gy() == spec_circle_dim(radius as int, page_ny as int),
            forall|i: int, j: int|
                0 <= i < g.spec_gx() && 0 <= j < g.spec_gy() ==> (#[trigger] g.grid@[i]@[j])
                    == spec_cell_filled(
                    radius as int,
                    page_nx as int,
                    page_ny as int,
                    g.spec_gx(),
                    g.spec_gy(),
                    i,
                    j,
                ),
    {
        let gx = circle_dim(radius, page_nx);
        let gy = circle_dim(radius, page_ny);
        let mut grid: Vec<Vec<bool>> = Vec::new();
        let mut cell_i: usize = 0;
        while cell_i < gx
            invariant
                0 < radius < FX_ONE,
                0 < page_nx <= 3000,
                0 < page_ny <= 3000,
                1 <= gx <= 2 * page_nx,
                1 <= gy <= 2 * page_ny,
                gx == spec_circle_dim(radius as int, page_nx as int),
                gy == spec_circle_dim(radius as int, page_ny as int),
                cell_i <= gx,
                grid@.len() == cell_i,
                forall|r: int| 0 <= r < cell_i ==> (#[trigger] grid@[r])@.len() == gy,
                forall|i: int, j: int|
                    0 <= i < cell_i && 0 <= j < gy ==> (#[trigger] grid@[i]@[j])
                        == spec_cell_filled(
                        radius as int,
                        page_nx as int,
                        page_ny as int,
                        gx as int,
                        gy as int,
                        i,
                        j,
                    ),
            decreases gx - cell_i,
        {
            let mut row: Vec<bool> = Vec::new();
            let mut cell_j: usize = 0;
            while cell_j < gy
                invariant
                    0 < radius < FX_ONE,
                    0 < page_nx <= 3000,
                    0 < page_ny <= 3000,
                    1 <= gx <= 2 * page_nx,
                    1 <= gy <= 2 * page_ny,
                    cell_i < gx,
                    cell_j <= gy,
                    row@.len() == cell_j,
                    forall|j: int|
                        0 <= j < cell_j ==> (#[trigger] row@[j]) == spec_cell_filled(
                            radius as int,
                            page_nx as int,
                            page_ny as int,
                            gx as int,
                            gy as int,
                            cell_i as int,
                            j,
                        ),
                decreases gy - cell_j,
            {
                let c = cell_filled(radius, page_nx, page_ny, gx, gy, cell_i, cell_j);
                row.push(c);
                cell_j += 1;
            }
            grid.push(row);
            cell_i += 1;
        }
        Glyph { grid }
    }
}

/// One axis of the raster dimensions: `ceil(2 * radius * n / FX_ONE)`.
fn circle_dim(radius: i64, n: i32) -> (r: usize)
    requires
        0 < radius < FX_ONE,
        0 < n <= 3000,
    ensures
        r == spec_circle_dim(radius as int, n as int),
        1 <= r <= 2 * n,
{
    proof {
        assert(2 * (radius as int) * (n as int) <= 2 * 999999999999 * 3000 && 2 * (radius as int)
            * (n as int) >= 2) by (nonlinear_arith)
            requires
                0 < radius as int <= 999999999999,
                0 < n as int <= 3000,
        ;
    }
    let t: u64 = 2 * (radius as u64) * (n as u64);
    let d: u64 = (t + 999999999999) / 1000000000000;
    proof {
        let ti = t as int;
        assert(d as int == (ti + 999999999999) / 1000000000000);
        assert(spec_ceil_div(ti, FX_ONE as int) == (ti + 999999999999) / 1000000000000);
        vstd::arithmetic::div_mod::lemma_div_is_ordered(1000000000001int, ti + 999999999999,
            1000000000000int);
        assert((1000000000001int) / 1000000000000int == 1);
        assert(2 * (radius as int) * (n as int) <= 2 * 999999999999 * (n as int))
            by (nonlinear_arith)
            requires
                0 < radius as int <= 999999999999,
                n as int > 0,
        ;
        vstd::arithmetic::div_mod::lemma_div_is_ordered(ti + 999999999999, 2 * 999999999999 * (
        n as int) + 999999999999, 1000000000000int);
        assert((2 * 999999999999 * (n as int) + 999999999999) / 1000000000000 <= 2 * (n as int))
            by (nonlinear_arith)
            requires
                n as int >= 1,
        ;
    }
    d as usize
}

/// `a <= (b - 1) / d` says exactly that `a * d < b`, for a non-negative
/// `a`, a positive `b` and a positive divisor `d`: the form in which the
/// raster's cleared-denominator comparison is computed without overflowing.
proof fn lemma_le_div_iff(a: int, b: int, d: int)
    requires
        a >= 0,
        b >= 1,
        d >= 1,
    ensures
        (a <= (b - 1) / d) <==> (a * d < b),
{
    vstd::arithmetic::div_mod::lemma_fundamental_div_mod(b - 1, d);
    let q = (b - 1) / d;
    let rem = (b - 1) % d;
    assert(b - 1 == d * q + rem);
    vstd::arithmetic::div_mod::lemma_div_is_ordered(0, b - 1, d);
    assert(q >= 0);
    if a <= q {
        assert(a * d <= q * d) by (nonlinear_arith)
            requires
                a <= q,
                d >= 1,
        ;
        assert(q * d == d * q) by (nonlinear_arith);
        assert(a * d <= b - 1);
    } else {
        assert(a * d >= (q + 1) * d) by (nonlinear_arith)
            requires
                a >= q + 1,
                d >= 1,
        ;
        assert((q + 1) * d == d * q + d) by (nonlinear_arith);
        assert(a * d > b - 1);
    }
}

/// Whether one raster cell lies strictly inside the circle.
fn cell_filled(radius: i64, nx: i32, ny: i32, gx: usize, gy: usize, i: usize, j: usize) -> (r:
    bool)
    requires
        0 < radius < FX_ONE,
        0 < nx <= 3000,
        0 < ny <= 3000,
        1 <= gx <= 2 * nx,
        1 <= gy <= 2 * ny,
        i < gx,
        j < gy,
    ensures
        r == spec_cell_filled(radius as int, nx as int, ny as int, gx as int, gy as int, i as int,
            j as int),
{
    let di_abs: u64 = if 2 * i >= gx - 1 {
        (2 * i - (gx - 1)) as u64
    } else {
        ((gx - 1) - 2 * i) as u64
    };
    let dj_abs: u64 = if 2 * j >= gy - 1 {
        (2 * j - (gy - 1)) as u64
    } else {
        ((gy - 1) - 2 * j) as u64
    };
    proof {
        assert(di_abs <= 5999 && dj_abs <= 5999);
        assert((di_abs as int) * (ny as int) <= 5999 * 3000 && (dj_abs as int) * (nx as int)
            <= 5999 * 3000) by (nonlinear_arith)
            requires
                0 <= di_abs as int <= 5999,
                0 <= dj_abs as int <= 5999,
                0 < nx as int <= 3000,
                0 < ny as int <= 3000,
        ;
    }
    let a: u128 = (di_abs as u128) * (ny as u128);
    let b: u128 = (dj_abs as u128) * (nx as u128);
    proof {
        assert((a as int) * (a as int) <= 17997000 * 17997000 && (b as int) * (b as int)
            <= 17997000 * 17997000) by (nonlinear_arith)
            requires
                0 <= a as int <= 17997000,
                0 <= b as int <= 17997000,
        ;
    }
    let sum: u128 = a * a + b * b;
    proof {
        assert(0 < 2 * (radius as int) * (nx as int) <= 5999999999994000int)
            by (nonlinear_arith)
            requires
                0 < radius as int <= 999999999999,
                0 < nx as int <= 3000,
        ;
        assert(0 < 2 * (radius as int) * (nx as int) * (ny as int) <= 17999999999982000000int)
            by (nonlinear_arith)
            requires
                0 < 2 * (radius as int) * (nx as int) <= 5999999999994000int,
                0 < ny as int <= 3000,
        ;
    }
    let m: u128 = 2 * (radius as u128) * (nx as u128) * (ny as u128);
    proof {
        assert(0 < (m as int) * (m as int)
            <= 323999999999352000000000324000000000000int) by (nonlinear_arith)
            requires
                0 < m as int <= 17999999999982000000int,
        ;
    }
    let big: u128 = m * m;
    let q: u128 = (big - 1) / 1000000000000000000000000u128;
    let r = sum <= q;
    proof {
        let dii = 2 * (i as int) - ((gx as int) - 1);
        let djj = 2 * (j as int) - ((gy as int) - 1);
        assert(di_abs as int == if dii >= 0 {
            dii
        } else {
            -dii
        });
        assert(dj_abs as int == if djj >= 0 {
            djj
        } else {
            -djj
        });
        assert((sum as int) == dii * dii * (ny as int) * (ny as int) + djj * djj * (nx as int) * (
        nx as int)) by (nonlinear_arith)
            requires
                sum as int == (a as int) * (a as int) + (b as int) * (b as int),
                a as int == (di_abs as int) * (ny as int),
                b as int == (dj_abs as int) * (nx as int),
                di_abs as int == if dii >= 0 {
                    dii
                } else {
                    -dii
                },
                dj_abs as int == if djj >= 0 {
                    djj
                } else {
                    -djj
                },
        ;
        assert((big as int) == 4 * (radius as int) * (radius as int) * (nx as int) * (nx as int)
            * (ny as int) * (ny as int)) by (nonlinear_arith)
            requires
                big as int == (m as int) * (m as int),
                m as int == 2 * (radius as int) * (nx as int) * (ny as int),
        ;
        assert((FX_ONE as int) * (FX_ONE as int) == 1000000000000000000000000int);
        lemma_le_div_iff(sum as int, big as int, 1000000000000000000000000int);
    }
    r
}

/// One glyph instance: a reference by name into the page's glyph registry
/// plus a mutable origin in normalized page coordinates.
pub struct CBox {
    pub glyph_name: String,
    pub origin: Point,
}

/// An ordered run of glyph instances coupled by nearest-neighbour
/// horizontal springs and a shared vertical baseline spring.  The instance
/// order is append-only; index `i` is adjacent to `i - 1` and `i + 1`.
pub struct HBox {
    pub c_boxes: Vec<CBox>,
    pub base_line: i64,
    pub base_line_k: i64,
    pub c_box_sep: i64,
    pub c_box_k: i64,
}

/// The linear spring law `-k * r` in fixed-point arithmetic.
pub open spec fn spec_spring(r: int, k: int) -> int {
    sat64(-fx_mul_v(k, r))
}

/// The pairwise coupling force instance `o2` exerts on instance `o1`:
/// a horizontal spring toward the target separation when `o2` is the
/// successor or predecessor of `o1`, and exactly zero for every other
/// pair.  The vertical component is always zero.
pub open spec fn spec_force_between(h: HBox, o1: int, o2: int) -> (int, int) {
    if o1 == o2 {
        (0, 0)
    } else if o2 == o1 + 1 {
        (
            spec_spring(
                sat64(
                    h.c_boxes@[o1].origin.x - sat64(h.c_boxes@[o2].origin.x + h.c_box_sep),
                ),
                h.c_box_k as int,
            ),
            0,
        )
    } else if o2 == o1 - 1 {
        (
            spec_spring(
                sat64(
                    h.c_boxes@[o1].origin.x - sat64(h.c_boxes@[o2].origin.x - h.c_box_sep),
                ),
                h.c_box_k as int,
            ),
            0,
        )
    } else {
        (0, 0)
    }
}

/// The baseline force on instance `o1`: a vertical spring toward the
/// line's baseline.  The horizontal component is always zero.
pub open spec fn spec_force_line(h: HBox, o1: int) -> (int, int) {
    (0, spec_spring(sat64(h.c_boxes@[o1].origin.y - h.base_line), h.base_line_k as int))
}

/// Componentwise saturating accumulation of two force vectors.
pub open spec fn spec_acc(f: (int, int), g: (int, int)) -> (int, int) {
    (sat64(f.0 + g.0), sat64(f.1 + g.1))
}

/// The pairwise forces on `o1` from instances `0 .. k`, accumulated in
/// index order.
pub open spec fn spec_force_sum(h: HBox, o1: int, k: int) -> (int, int)
    decreases k,
{
    if k <= 0 {
        (0, 0)
    } else {
        spec_acc(spec_force_sum(h, o1, k - 1), spec_force_between(h, o1, k - 1))
    }
}

/// The net force on instance `o1`: every pairwise contribution, then the
/// baseline force.
pub open spec fn spec_net_force(h: HBox, o1: int) -> (int, int) {
    spec_acc(spec_force_sum(h, o1, h.c_boxes@.len() as int), spec_force_line(h, o1))
}

/// One explicit-Euler update of the origin of instance `o1`: the pre-step
/// net force scaled by `dt`, added onto the pre-step origin.
pub open spec fn spec_step_origin(h: HBox, dt: int, o1: int) -> (int, int) {
    let net = spec_net_force(h, o1);
    (
        sat64(h.c_boxes@[o1].origin.x + fx_mul_v(net.0, dt)),
        sat64(h.c_boxes@[o1].origin.y + fx_mul_v(net.1, dt)),
    )
}

/// `h1` is `h0` after one relaxation step with time step `dt`: the
/// parameters and every glyph reference are unchanged, and every origin is
/// the explicit-Euler update computed from the pre-step snapshot `h0`.
pub open spec fn spec_stepped(h0: HBox, h1: HBox, dt: int) -> bool {
    &&& h1.c_boxes@.len() == h0.c_boxes@.len()
    &&& h1.base_line == h0.base_line
    &&& h1.base_line_k == h0.base_line_k
    &&& h1.c_box_sep == h0.c_box_sep
    &&& h1.c_box_k == h0.c_box_k
    &&& forall|o1: int|
        0 <= o1 < h0.c_boxes@.len() ==> {
            let st = spec_step_origin(h0, dt, o1);
            &&& (#[trigger] h1.c_boxes@[o1]).glyph_name == h0.c_boxes@[o1].glyph_name
            &&& h1.c_boxes@[o1].origin.x as int == st.0
            &&& h1.c_boxes@[o1].origin.y as int == st.1
        }
}

/// The spring force magnitude `-k * r` in fixed-point arithmetic.
fn get_spring_force_mag(r: i64, k: i64) -> (f: i64)
    ensures
        f as int == spec_spring(r as int, k as int),
{
    fx_neg(fx_mul(k, r))
}

impl HBox {
    /// Appends a glyph instance at the given initial position.  Whether the
    /// name resolves in a page's registry is the page's concern (see
    /// [`Page::add_c_box`]).
    pub fn add_c_box(&mut self, glyph_name: String, x: i64, y: i64)
        ensures
            final(self).c_boxes@ == old(self).c_boxes@.push(
                CBox { glyph_name, origin: Point { x, y } },
            ),
            final(self).base_line == old(self).base_line,
            final(self).base_line_k == old(self).base_line_k,
            final(self).c_box_sep == old(self).c_box_sep,
            final(self).c_box_k == old(self).c_box_k,
    {
        let origin = Point { x, y };
        self.c_boxes.push(CBox { glyph_name, origin });
    }

    /// The pairwise coupling force of instance `o2` on instance `o1`.
    fn force_between(&self, o1: usize, o2: usize) -> (r: Point)
        requires
            o1 < self.c_boxes@.len(),
            o2 < self.c_boxes@.len(),
        ensures
            (r.x as int, r.y as int) == spec_force_between(*self, o1 as int, o2 as int),
    {
        if o1 == o2 {
            Point::new(0, 0)
        } else if o1 < o2 && o2 - o1 == 1 {
            let x1 = self.c_boxes[o1].origin.x;
            let x2 = self.c_boxes[o2].origin.x;
            Point::new(
                get_spring_force_mag(fx_sub(x1, fx_add(x2, self.c_box_sep)), self.c_box_k),
                0,
            )
        } else if o2 < o1 && o1 - o2 == 1 {
            let x1 = self.c_boxes[o1].origin.x;
            let x2 = self.c_boxes[o2].origin.x;
            Point::new(
                get_spring_force_mag(fx_sub(x1, fx_sub(x2, self.c_box_sep)), self.c_box_k),
                0,
            )
        } else {
            Point::new(0, 0)
        }
    }

    /// The baseline force on instance `o1`.
    fn force_line(&self, o1: usize) -> (r: Point)
        requires
            o1 < self.c_boxes@.len(),
        ensures
            (r.x as int, r.y as int) == spec_force_line(*self, o1 as int),
    {
        Point::new(
            0,
            get_spring_force_mag(fx_sub(self.c_boxes[o1].origin.y, self.base_line), self.base_line_k),
        )
    }

    /// One relaxation step: computes every net force from the pre-step
    /// snapshot of all origins, then applies the explicit-Euler update
    /// `origin += dt * force` to every instance.
    pub fn iterate(&mut self, dt: i64)
        ensures
            spec_stepped(*old(self), *final(self), dt as int),
    {
        let ghost h0 = *self;
        let n = self.c_boxes.len();
        let mut forces: Vec<Point> = Vec::new();
        let mut o1: usize = 0;
        while o1 < n
            invariant
                *self == h0,
                n == h0.c_boxes@.len(),
                o1 <= n,
                forces@.len() == o1,
                forall|k: int|
                    0 <= k < o1 ==> ((#[trigger] forces@[k]).x as int, forces@[k].y as int)
                        == spec_net_force(h0, k),
            decreases n - o1,
        {
            let mut f1 = Point::new(0, 0);
            let mut o2: usize = 0;
            while o2 < n
                invariant
                    *self == h0,
                    n == h0.c_boxes@.len(),
                    o1 < n,
                    o2 <= n,
                    (f1.x as int, f1.y as int) == spec_force_sum(h0, o1 as int, o2 as int),
                decreases n - o2,
            {
                let fb = self.force_between(o1, o2);
                f1.add_inplace(&fb);
                o2 += 1;
            }
            let fl = self.force_line(o1);
            f1.add_inplace(&fl);
            forces.push(f1);
            o1 += 1;
        }
        let mut k: usize = 0;
        while k < n
            invariant
                n == h0.c_boxes@.len(),
                k <= n,
                forces@.len() == n,
                forall|m: int|
                    0 <= m < n ==> ((#[trigger] forces@[m]).x as int, forces@[m].y as int)
                        == spec_net_force(h0, m),
                self.c_boxes@.len() == n,
                self.base_line == h0.base_line,
                self.base_line_k == h0.base_line_k,
                self.c_box_sep == h0.c_box_sep,
                self.c_box_k == h0.c_box_k,
                forall|m: int|
                    0 <= m < k ==> {
                        let st = spec_step_origin(h0, dt as int, m);
                        &&& (#[trigger] self.c_boxes@[m]).glyph_name
                            == h0.c_boxes@[m].glyph_name
                        &&& self.c_boxes@[m].origin.x as int == st.0
                        &&& self.c_boxes@[m].origin.y as int == st.1
                    },
                forall|m: int| k <= m < n ==> #[trigger] self.c_boxes@[m] == h0.c_boxes@[m],
            decreases n - k,
        {
            let f = forces[k];
            let sc = f.scale(dt);
            let cb = &mut self.c_boxes[k];
            cb.origin.add_inplace(&sc);
            k += 1;
        }
    }
}

/// Only the two nearest neighbours of an instance exert a pairwise force:
/// for every pair at distance other than one, the contribution is exactly
/// zero by construction.
pub proof fn lemma_force_nonadjacent(h: HBox, o1: int, o2: int)
    requires
        o2 != o1 + 1,
        o2 != o1 - 1,
    ensures
        spec_force_between(h, o1, o2) == (0int, 0int),
{
}

/// With `dt == 0`, the explicit-Euler update leaves every origin exactly
/// unchanged: the scaled force vanishes and the saturating addition of
/// zero is the identity.
pub proof fn lemma_zero_dt_step(h: HBox, o1: int)
    requires
        0 <= o1 < h.c_boxes@.len(),
    ensures
        spec_step_origin(h, 0, o1) == (
            h.c_boxes@[o1].origin.x as int,
            h.c_boxes@[o1].origin.y as int,
        ),
{
    let net = spec_net_force(h, o1);
    lemma_fx_mul_zero(net.0);
    lemma_fx_mul_zero(net.1);
}

/// A line with exactly one instance has zero pairwise force: its net force
/// is the baseline spring alone, so one step leaves `x` unchanged and
/// moves `y` by `dt * (-k_line * (y - baseline))` in the library's
/// fixed-point arithmetic.
pub proof fn lemma_single_instance_step(h: HBox, dt: int)
    requires
        h.c_boxes@.len() == 1,
    ensures
        spec_net_force(h, 0) == (
            0int,
            spec_spring(sat64(h.c_boxes@[0].origin.y - h.base_line), h.base_line_k as int),
        ),
        spec_step_origin(h, dt, 0).0 == h.c_boxes@[0].origin.x as int,
        spec_step_origin(h, dt, 0).1 == sat64(
            h.c_boxes@[0].origin.y + fx_mul_v(
                spec_spring(sat64(h.c_boxes@[0].origin.y - h.base_line), h.base_line_k as int),
                dt,
            ),
        ),
{
    assert(spec_force_sum(h, 0, 0) == (0int, 0int));
    assert(spec_force_between(h, 0, 0) == (0int, 0int));
    assert(spec_force_sum(h, 0, 1) == (0int, 0int));
    lemma_fx_mul_zero(dt);
}

/// Rotating the raster half a turn about the grid's center maps filled
/// cells to filled cells: cell `(i, j)` and cell `(gx-1-i, gy-1-j)` have
/// opposite center offsets, and the fill test depends only on their
/// squares.
pub proof fn lemma_circle_rotation(
    radius: int,
    nx: int,
    ny: int,
    gx: int,
    gy: int,
    i: int,
    j: int,
)
    requires
        0 <= i < gx,
        0 <= j < gy,
    ensures
        spec_cell_filled(radius, nx, ny, gx, gy, i, j) == spec_cell_filled(
            radius,
            nx,
            ny,
            gx,
            gy,
            gx - 1 - i,
            gy - 1 - j,
        ),
{
    let di = 2 * i - (gx - 1);
    let dj = 2 * j - (gy - 1);
    let ri = 2 * (gx - 1 - i) - (gx - 1);
    let rj = 2 * (gy - 1 - j) - (gy - 1);
    assert(ri == -di && rj == -dj);
    assert(ri * ri == di * di && rj * rj == dj * dj) by (nonlinear_arith)
        requires
            ri == -di,
            rj == -dj,
    ;
    assert(ri * ri * ny * ny == di * di * ny * ny && rj * rj * nx * nx == dj * dj * nx * nx)
        by (nonlinear_arith)
        requires
            ri * ri == di * di,
            rj * rj == dj * dj,
    ;
}

/// The index of the first registry entry named `name`, or `-1` when no
/// entry has that name.
pub open spec fn spec_find_glyph(s: Seq<(String, Glyph)>, name: Seq<char>) -> int
    decreases s.len(),
{
    if s.len() == 0 {
        -1
    } else if s[0].0@ == name {
        0
    } else {
        let r = spec_find_glyph(s.drop_first(), name);
        if r == -1 {
            -1
        } else {
            r + 1
        }
    }
}

/// `spec_find_glyph` returns the first matching index, and `-1` exactly
/// when no entry matches.
pub proof fn lemma_find_glyph(s: Seq<(String, Glyph)>, name: Seq<char>)
    ensures
        ({
            let f = spec_find_glyph(s, name);
            &&& -1 <= f < s.len()
            &&& f >= 0 ==> s[f].0@ == name && (forall|m: int|
                0 <= m < f ==> (#[trigger] s[m]).0@ != name)
            &&& f == -1 ==> forall|m: int| 0 <= m < s.len() ==> (#[trigger] s[m]).0@ != name
        }),
    decreases s.len(),
{
    if s.len() == 0 {
    } else if s[0].0@ == name {
    } else {
        lemma_find_glyph(s.drop_first(), name);
        assert(forall|m: int|
            1 <= m < s.len() ==> (#[trigger] s[m]) == s.drop_first()[m - 1]);
    }
}

/// The page: grid resolution, a name-keyed glyph registry, and the ordered
/// collection of lines.
pub struct Page {
    pub shape: IntPoint,
    pub h_boxes: Vec<HBox>,
    pub glyphs: Vec<(String, Glyph)>,
}

impl Page {
    /// A well-formed page has a positive grid resolution, distinct glyph
    /// names, and well-formed glyph rasters.
    pub open spec fn wf(&self) -> bool {
        &&& self.shape.i > 0
        &&& self.shape.j > 0
        &&& forall|a: int, b: int|
            0 <= a < b < self.glyphs@.len() ==> (#[trigger] self.glyphs@[a]).0@ != (
            #[trigger] self.glyphs@[b]).0@
        &&& forall|k: int| 0 <= k < self.glyphs@.len() ==> (#[trigger] self.glyphs@[k]).1.wf()
    }

    /// Whether some registry entry is named `name`.
    pub open spec fn spec_has_glyph(&self, name: Seq<char>) -> bool {
        spec_find_glyph(self.glyphs@, name) >= 0
    }

    /// An empty page with the given grid resolution.
    pub fn new(nx: i32, ny: i32) -> (r: Page)
        requires
            nx > 0,
            ny > 0,
        ensures
            r.wf(),
            r.shape.i == nx,
            r.shape.j == ny,
            r.h_boxes@.len() == 0,
            r.glyphs@.len() == 0,
    {
        Page { shape: IntPoint { i: nx, j: ny }, h_boxes: Vec::new(), glyphs: Vec::new() }
    }

    /// The index of the first registry entry named `name`.
    fn find_glyph_index(&self, name: &String) -> (r: Option<usize>)
        ensures
            match r {
                Some(f) => f as int == spec_find_glyph(self.glyphs@, name@),
                None => spec_find_glyph(self.glyphs@, name@) == -1,
            },
    {
        let n = self.glyphs.len();
        let mut k: usize = 0;
        while k < n
            invariant
                n == self.glyphs@.len(),
                k <= n,
                forall|m: int| 0 <= m < k ==> (#[trigger] self.glyphs@[m]).0@ != name@,
            decreases n - k,
        {
            if self.glyphs[k].0 == *name {
                proof {
                    lemma_find_glyph(self.glyphs@, name@);
                    let f = spec_find_glyph(self.glyphs@, name@);
                    if f == -1 {
                        assert(self.glyphs@[k as int].0@ != name@);
                    } else if f < k as int {
                        assert(self.glyphs@[f].0@ == name@);
                        assert(self.glyphs@[f].0@ != name@);
                    } else if f > k as int {
                        assert(self.glyphs@[k as int].0@ != name@);
                    }
                }
                return Some(k);
            }
            k += 1;
        }
        proof {
            lemma_find_glyph(self.glyphs@, name@);
        }
        None
    }

    /// Whether a glyph of the given name is registered.
    pub fn has_glyph(&self, name: &String) -> (r: bool)
        ensures
            r == self.spec_has_glyph(name@),
    {
        match self.find_glyph_index(name) {
            Some(_) => true,
            None => false,
        }
    }

    /// The number of registered glyphs.
    pub fn glyph_count(&self) -> (r: usize)
        ensures
            r == self.glyphs@.len(),
    {
        self.glyphs.len()
    }

    /// Registers `glyph` under `name`: replaces the entry of that name, or
    /// appends a new entry, so names stay unique.
    pub fn add_glyph(&mut self, name: String, glyph: Glyph)
        ensures
            final(self).shape == old(self).shape,
            final(self).h_boxes == old(self).h_boxes,
            spec_find_glyph(old(self).glyphs@, name@) == -1 ==> final(self).glyphs@ == old(self).glyphs@.push((name, glyph)),
            spec_find_glyph(old(self).glyphs@, name@) >= 0 ==> final(self).glyphs@ == old(self).glyphs@.update(spec_find_glyph(old(self).glyphs@, name@), (name, glyph)),
            old(self).wf() && glyph.wf() ==> final(self).wf(),
    {
        proof {
            lemma_find_glyph(self.glyphs@, name@);
        }
        let idx = self.find_glyph_index(&name);
        match idx {
            None => {
                self.glyphs.push((name, glyph));
            },
            Some(f) => {
                let e = &mut self.glyphs[f];
                *e = (name, glyph);
            },
        }
    }

    /// Appends a glyph instance to line `line`.  The glyph name must be
    /// registered: referencing an unknown name is an invariant violation,
    /// so the caller checks with [`Page::has_glyph`] first.
    pub fn add_c_box(&mut self, line: usize, glyph_name: String, x: i64, y: i64)
        requires
            line < old(self).h_boxes@.len(),
            old(self).spec_has_glyph(glyph_name@),
        ensures
            final(self).shape == old(self).shape,
            final(self).glyphs == old(self).glyphs,
            final(self).h_boxes@.len() == old(self).h_boxes@.len(),
            forall|m: int|
                0 <= m < old(self).h_boxes@.len() && m != line ==> (#[trigger] final(self).h_boxes@[m]) == old(self).h_boxes@[m],
            ({
                let h0 = old(self).h_boxes@[line as int];
                let h1 = final(self).h_boxes@[line as int];
                &&& h1.c_boxes@ == h0.c_boxes@.push(
                    CBox { glyph_name, origin: Point { x, y } },
                )
                &&& h1.base_line == h0.base_line
                &&& h1.base_line_k == h0.base_line_k
                &&& h1.c_box_sep == h0.c_box_sep
                &&& h1.c_box_k == h0.c_box_k
            }),
    {
        let hb = &mut self.h_boxes[line];
        hb.add_c_box(glyph_name, x, y);
    }

    /// One relaxation step for every line, in order; lines do not interact.
    pub fn iterate(&mut self, dt: i64)
        ensures
            final(self).shape == old(self).shape,
            final(self).glyphs == old(self).glyphs,
            final(self).h_boxes@.len() == old(self).h_boxes@.len(),
            forall|m: int|
                0 <= m < old(self).h_boxes@.len() ==> spec_stepped(
                    old(self).h_boxes@[m],
                    #[trigger] final(self).h_boxes@[m],
                    dt as int,
                ),
    {
        let ghost p0 = *self;
        let n = self.h_boxes.len();
        let mut i: usize = 0;
        while i < n
            invariant
                n == p0.h_boxes@.len(),
                i <= n,
                self.shape == p0.shape,
                self.glyphs == p0.glyphs,
                self.h_boxes@.len() == n,
                forall|m: int|
                    0 <= m < i ==> spec_stepped(
                        p0.h_boxes@[m],
                        #[trigger] self.h_boxes@[m],
                        dt as int,
                    ),
                forall|m: int| i <= m < n ==> (#[trigger] self.h_boxes@[m]) == p0.h_boxes@[m],
            decreases n - i,
        {
            let hb = &mut self.h_boxes[i];
            hb.iterate(dt);
            i += 1;
        }
    }
}

/// The marker for one occupancy cell: `"1"` for filled, `"0"` for empty.
pub open spec fn spec_bit(b: bool) -> Seq<char> {
    if b {
        "1"@
    } else {
        "0"@
    }
}

/// One raster row as `0`/`1` markers joined by commas.
pub open spec fn spec_row_text(row: Seq<bool>) -> Seq<char>
    decreases row.len(),
{
    if row.len() == 0 {
        Seq::empty()
    } else if row.len() == 1 {
        spec_bit(row[0])
    } else {
        spec_row_text(row.drop_last()) + ","@ + spec_bit(row.last())
    }
}

/// A whole occupancy grid: each row's markers followed by a newline.
pub open spec fn spec_grid_text(rows: Seq<Vec<bool>>) -> Seq<char>
    decreases rows.len(),
{
    if rows.len() == 0 {
        Seq::empty()
    } else {
        spec_grid_text(rows.drop_last()) + spec_row_text(rows.last()@) + "\n"@
    }
}

/// One glyph catalog entry: name, grid dimensions and the rendered grid.
pub open spec fn spec_glyph_entry_text(name: Seq<char>, g: Glyph) -> Seq<char> {
    "glyph_name:\n"@ + name + "\n"@ + "glyph_dimens:\ngx,gy\n"@ + spec_u64_text(g.grid@.len())
        + ","@ + spec_u64_text(g.grid@[0]@.len()) + "\n"@ + "glyph_shape:\n"@ + spec_grid_text(
        g.grid@,
    )
}

/// The glyph catalog: every registry entry in registration order.
pub open spec fn spec_catalog_text(s: Seq<(String, Glyph)>) -> Seq<char>
    decreases s.len(),
{
    if s.len() == 0 {
        Seq::empty()
    } else {
        spec_catalog_text(s.drop_last()) + spec_glyph_entry_text(s.last().0@, s.last().1)
    }
}

/// One instance line of the line-state block: glyph name and position.
pub open spec fn spec_cbox_text(c: CBox) -> Seq<char> {
    c.glyph_name@ + ","@ + spec_i64_text(c.origin.x as int) + ","@ + spec_i64_text(
        c.origin.y as int,
    ) + "\n"@
}

/// The instance lines for a whole line, in order.
pub open spec fn spec_cboxes_text(s: Seq<CBox>) -> Seq<char>
    decreases s.len(),
{
    if s.len() == 0 {
        Seq::empty()
    } else {
        spec_cboxes_text(s.drop_last()) + spec_cbox_text(s.last())
    }
}

/// The line-state block: the instance count, then one line per instance.
pub open spec fn spec_hbox_text(h: HBox) -> Seq<char> {
    "\nnr_c_boxes:\n"@ + spec_u64_text(h.c_boxes@.len()) + "\n\nglyph_name,x,y\n"@
        + spec_cboxes_text(h.c_boxes@)
}

/// The whole snapshot: grid dimensions, glyph count, the glyph catalog,
/// and the state of the first line.
pub open spec fn spec_page_text(p: Page) -> Seq<char> {
    "grid_dimens:\nnx,ny\n"@ + spec_i64_text(p.shape.i as int) + ","@ + spec_i64_text(
        p.shape.j as int,
    ) + "\n"@ + "\nnr_glyphs:\n"@ + spec_u64_text(p.glyphs@.len()) + "\n\n"@ + spec_catalog_text(
        p.glyphs@,
    ) + spec_hbox_text(p.h_boxes@[0])
}

/// The marker string for one occupancy cell.
fn bit_str(b: bool) -> (r: &'static str)
    ensures
        r@ == spec_bit(b),
{
    if b {
        "1"
    } else {
        "0"
    }
}

/// Renders one raster row as comma-joined `0`/`1` markers.
fn row_text(row: &Vec<bool>) -> (r: String)
    ensures
        r@ == spec_row_text(row@),
{
    let mut s = String::new();
    let n = row.len();
    let mut k: usize = 0;
    while k < n
        invariant
            n == row@.len(),
            k <= n,
            s@ == spec_row_text(row@.take(k as int)),
        decreases n - k,
    {
        if k > 0 {
            s.append(",");
        }
        s.append(bit_str(row[k]));
        proof {
            let t = row@.take(k + 1);
            assert(t.drop_last() =~= row@.take(k as int));
            assert(t.last() == row@[k as int]);
            assert(s@ =~= spec_row_text(t));
        }
        k += 1;
    }
    proof {
        assert(row@.take(n as int) =~= row@);
    }
    s
}

/// Renders a whole occupancy grid, one row per line.
fn grid_text(grid: &Vec<Vec<bool>>) -> (r: String)
    ensures
        r@ == spec_grid_text(grid@),
{
    let mut s = String::new();
    let n = grid.len();
    let mut k: usize = 0;
    while k < n
        invariant
            n == grid@.len(),
            k <= n,
            s@ == spec_grid_text(grid@.take(k as int)),
        decreases n - k,
    {
        let rt = row_text(&grid[k]);
        s.append(rt.as_str());
        s.append("\n");
        proof {
            let t = grid@.take(k + 1);
            assert(t.drop_last() =~= grid@.take(k as int));
            assert(t.last() == grid@[k as int]);
            assert(s@ =~= spec_grid_text(t));
        }
        k += 1;
    }
    proof {
        assert(grid@.take(n as int) =~= grid@);
    }
    s
}

/// Renders one glyph catalog entry.
fn glyph_entry_text(name: &String, g: &Glyph) -> (r: String)
    requires
        g.wf(),
    ensures
        r@ == spec_glyph_entry_text(name@, *g),
{
    let mut s = String::new();
    s.append("glyph_name:\n");
    s.append(name.as_str());
    s.append("\n");
    s.append("glyph_dimens:\ngx,gy\n");
    let gxt = usize_text(g.gx());
    s.append(gxt.as_str());
    s.append(",");
    let gyt = usize_text(g.gy());
    s.append(gyt.as_str());
    s.append("\n");
    s.append("glyph_shape:\n");
    let gt = grid_text(&g.grid);
    s.append(gt.as_str());
    proof {
        assert(s@ =~= spec_glyph_entry_text(name@, *g));
    }
    s
}

impl HBox {
    /// Renders the line state: the instance count, then for each instance
    /// its glyph name and current position.
    #[verifier::rlimit(50)]
    pub fn to_string(&self) -> (r: String)
        ensures
            r@ == spec_hbox_text(*self),
    {
        let mut s = String::new();
        s.append("\nnr_c_boxes:\n");
        let cnt = usize_text(self.c_boxes.len());
        s.append(cnt.as_str());
        s.append("\n\nglyph_name,x,y\n");
        let ghost pre = s@;
        proof {
            assert(pre =~= "\nnr_c_boxes:\n"@ + spec_u64_text(self.c_boxes@.len())
                + "\n\nglyph_name,x,y\n"@);
        }
        let n = self.c_boxes.len();
        let mut k: usize = 0;
        while k < n
            invariant
                n == self.c_boxes@.len(),
                k <= n,
                pre == "\nnr_c_boxes:\n"@ + spec_u64_text(self.c_boxes@.len())
                    + "\n\nglyph_name,x,y\n"@,
                s@ == pre + spec_cboxes_text(self.c_boxes@.take(k as int)),
            decreases n - k,
        {
            let cb: &CBox = &self.c_boxes[k];
            s.append(cb.glyph_name.as_str());
            s.append(",");
            let xt = i64_text(cb.origin.x);
            s.append(xt.as_str());
            s.append(",");
            let yt = i64_text(cb.origin.y);
            s.append(yt.as_str());
            s.append("\n");
            proof {
                let t = self.c_boxes@.take(k + 1);
                assert(t.drop_last() =~= self.c_boxes@.take(k as int));
                assert(t.last() == self.c_boxes@[k as int]);
                assert(s@ =~= pre + spec_cboxes_text(t));
            }
            k += 1;
        }
        proof {
            assert(self.c_boxes@.take(n as int) =~= self.c_boxes@);
        }
        s
    }
}

impl Page {
    /// Renders the snapshot: a header with the grid dimensions, the glyph
    /// catalog, then the state of the first line.  Serializing further
    /// lines is not supported: that limitation of the canonical format is
    /// preserved deliberately, so the page must hold at least one line.
    ///
    /// Referencing a glyph name that is not in the registry is a fatal
    /// invariant violation, so every instance of the serialized line must
    /// name a registered glyph; the caller checks with [`Page::has_glyph`]
    /// and fails before calling.  Dimensions and positions are rendered as
    /// raw fixed-point integers (see [`crate::fixed::FX_ONE`]).
    #[verifier::rlimit(50)]
    pub fn to_string(&self) -> (r: String)
        requires
            self.wf(),
            self.h_boxes@.len() >= 1,
            forall|o: int|
                0 <= o < self.h_boxes@[0].c_boxes@.len() ==> self.spec_has_glyph(
                    (#[trigger] self.h_boxes@[0].c_boxes@[o]).glyph_name@,
                ),
        ensures
            r@ == spec_page_text(*self),
    {
        let mut s = String::new();
        s.append("grid_dimens:\nnx,ny\n");
        let nxt = i64_text(self.shape.i as i64);
        s.append(nxt.as_str());
        s.append(",");
        let nyt = i64_text(self.shape.j as i64);
        s.append(nyt.as_str());
        s.append("\n");
        s.append("\nnr_glyphs:\n");
        let cnt = usize_text(self.glyphs.len());
        s.append(cnt.as_str());
        s.append("\n\n");
        let ghost pre = s@;
        proof {
            assert(pre =~= "grid_dimens:\nnx,ny\n"@ + spec_i64_text(self.shape.i as int) + ","@
                + spec_i64_text(self.shape.j as int) + "\n"@ + "\nnr_glyphs:\n"@ + spec_u64_text(
                self.glyphs@.len(),
            ) + "\n\n"@);
        }
        let n = self.glyphs.len();
        let mut k: usize = 0;
        while k < n
            invariant
                n == self.glyphs@.len(),
                k <= n,
                self.wf(),
                pre == "grid_dimens:\nnx,ny\n"@ + spec_i64_text(self.shape.i as int) + ","@
                    + spec_i64_text(self.shape.j as int) + "\n"@ + "\nnr_glyphs:\n"@
                    + spec_u64_text(self.glyphs@.len()) + "\n\n"@,
                s@ == pre + spec_catalog_text(self.glyphs@.take(k as int)),
            decreases n - k,
        {
            let entry: &(String, Glyph) = &self.glyphs[k];
            let et = glyph_entry_text(&entry.0, &entry.1);
            s.append(et.as_str());
            proof {
                let t = self.glyphs@.take(k + 1);
                assert(t.drop_last() =~= self.glyphs@.take(k as int));
                assert(t.last() == self.glyphs@[k as int]);
                assert(s@ =~= pre + spec_catalog_text(t));
            }
            k += 1;
        }
        proof {
            assert(self.glyphs@.take(n as int) =~= self.glyphs@);
        }
        let ht = self.h_boxes[0].to_string();
        s.append(ht.as_str());
        proof {
            assert(s@ =~= spec_page_text(*self));
        }
        s
    }
}

/// The registered glyph names, in registration order.
pub open spec fn spec_glyph_names(p: Page) -> Seq<Seq<char>> {
    p.glyphs@.map_values(|e: (String, Glyph)| e.0@)
}

/// The snapshot's glyph catalog holds exactly one entry per distinct
/// registered glyph name: on a well-formed page the names are pairwise
/// distinct, so the glyph count the snapshot reports equals the number of
/// distinct registered names.
pub proof fn lemma_snapshot_catalog(p: Page)
    requires
        p.wf(),
    ensures
        spec_glyph_names(p).no_duplicates(),
        spec_glyph_names(p).to_set().len() == p.glyphs@.len(),
{
    let names = spec_glyph_names(p);
    assert forall|a: int, b: int|
        0 <= a < names.len() && 0 <= b < names.len() && a != b implies names[a] != names[
        b] by {
        if a < b {
            assert(p.glyphs@[a].0@ != p.glyphs@[b].0@);
        } else {
            assert(p.glyphs@[b].0@ != p.glyphs@[a].0@);
        }
    }
    names.unique_seq_to_set();
}

/// The snapshot's line-state block is built from the first line alone:
/// two pages with the same shape, the same registry and the same first
/// line render the same snapshot, whatever their further lines hold.
pub proof fn lemma_snapshot_first_line_only(p: Page, q: Page)
    requires
        q.shape == p.shape,
        q.glyphs == p.glyphs,
        p.h_boxes@.len() >= 1,
        q.h_boxes@.len() >= 1,
        q.h_boxes@[0] == p.h_boxes@[0],
    ensures
        spec_page_text(q) == spec_page_text(p),
{
}

} // verus!
