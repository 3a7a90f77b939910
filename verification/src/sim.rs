//! The simulation: the five fields and the operations that advance them.

use crate::flow::{axis_cell, axis_next, demo_center, in_bands, sample, Cell, Flow};
use crate::grid::{in_disc, lemma_cell_index, lemma_same, Array2D};
use crate::params::{
    cell_size, cell_size_spec, density, gravity, gravity_spec, half, half_cell, half_spec,
    overrelaxation, quarter, timestep, windspeed, windspeed_spec, BAND_WIDTH, DRAW_OBSTACLE,
    NUM_BANDS, NUM_PROJ_ITERATIONS, WITH_GRAVITY,
};
use crate::scalar::{clamp, is_zero, one, one_spec, zero, zero_spec, Scalar};
use vstd::prelude::*;

verus! {

/// A flow in a box of `width` by `height` cells.
pub struct Simulation<T: Scalar> {
    width: usize,
    height: usize,
    u: Array2D<T>,
    v: Array2D<T>,
    s: Array2D<Cell>,
    p: Array2D<T>,
    smoke: Array2D<T>,
}

impl<T: Scalar> View for Simulation<T> {
    type V = Flow<T>;

    closed spec fn view(&self) -> Flow<T> {
        Flow {
            width: self.width as nat,
            height: self.height as nat,
            u: self.u@,
            v: self.v@,
            s: self.s@,
            p: self.p@,
            smoke: self.smoke@,
        }
    }
}

/// What there is to know of one cell.
#[derive(Clone, Copy, Debug)]
pub struct CellInfo<T> {
    /// The velocity along x at the cell's centre.
    pub u_flow: T,
    /// The velocity along y at the cell's centre.
    pub v_flow: T,
    /// What the cell is made of.
    pub s: Cell,
    /// The pressure in the cell.
    pub p: T,
    /// The tracer in the cell.
    pub smoke: T,
}

/// A cell index as a signed coordinate, cut at the largest one.
fn signed_index(n: usize) -> (r: i32)
    ensures
        r == demo_center(n as nat),
{
    if n > i32::MAX as usize {
        i32::MAX
    } else {
        n as i32
    }
}

/// The sizes of the five fields fit the machine where the largest does.
proof fn lemma_sizes_fit(width: nat, height: nat)
    requires
        (width + 1) * (height + 1) <= usize::MAX,
    ensures
        (width + 1) * height <= usize::MAX,
        width * (height + 1) <= usize::MAX,
        width * height <= usize::MAX,
        width + height + 1 <= usize::MAX,
{
    assert((width + 1) * (height + 1) == width * height + width + height + 1)
        by (nonlinear_arith);
    assert((width + 1) * height == width * height + height) by (nonlinear_arith);
    assert(width * (height + 1) == width * height + width) by (nonlinear_arith);
    assert(0 <= width * height) by (nonlinear_arith);
}

/// The index of the stored sample at or below the coordinate `c`, on an axis
/// of `n` cells whose samples are shifted by `off`.
fn sample_index<T: Scalar>(c: T, off: T, n: usize) -> (r: usize)
    requires
        0 < n,
    ensures
        r == axis_cell(c, off, n as nat),
        r < n,
{
    let i = c.minus(&off).over(&cell_size::<T>()).floor_index();
    if i < n - 1 {
        i
    } else {
        n - 1
    }
}

/// The index of the stored sample after `i0`, held inside the axis.
fn next_index(i0: usize, n: usize) -> (r: usize)
    requires
        i0 < n,
    ensures
        r == axis_next(i0 as int, n as nat),
        r < n,
{
    if i0 + 1 < n - 1 {
        i0 + 1
    } else {
        n - 1
    }
}

/// The value of `field` at the position `(x_in, y_in)` by bilinear
/// interpolation, in a domain of `width` by `height` cells, where the
/// field's samples are shifted by `(dx, dy)` from the grid lines. A position
/// outside the sampled part of the domain is moved to its edge first.
pub fn sample_field<T: Scalar>(
    field: &Array2D<T>,
    width: usize,
    height: usize,
    dx: T,
    dy: T,
    x_in: T,
    y_in: T,
) -> (r: T)
    requires
        field.wf(),
        0 < width <= field@.width,
        0 < height <= field@.height,
    ensures
        r == sample(field@, width as nat, height as nat, dx, dy, x_in, y_in),
{
    let h = cell_size::<T>();
    let x = clamp(x_in, h, T::index(width).times(&h));
    let y = clamp(y_in, h, T::index(height).times(&h));

    let x0 = sample_index(x, dx, width);
    let tx = x.minus(&dx).minus(&T::index(x0).times(&h)).over(&h);
    let x1 = next_index(x0, width);

    let y0 = sample_index(y, dy, height);
    let ty = y.minus(&dy).minus(&T::index(y0).times(&h)).over(&h);
    let y1 = next_index(y0, height);

    let sx = one::<T>().minus(&tx);
    let sy = one::<T>().minus(&ty);

    sx.times(&sy).times(&field.get(x0, y0)).plus(&tx.times(&sy).times(&field.get(x1, y0))).plus(
        &tx.times(&ty).times(&field.get(x1, y1)),
    ).plus(&sx.times(&ty).times(&field.get(x0, y1)))
}

impl<T: Scalar> Simulation<T> {
    /// The fields have their shapes.
    pub open spec fn wf(&self) -> bool {
        self@.wf()
    }

    /// A fresh simulation: still fluid between a pinned inflow on the left
    /// and a pinned outflow on the right, with tracer bands at the left
    /// edge.
    pub fn new(width: usize, height: usize) -> (r: Self)
        requires
            0 < width,
            0 < height,
            (width + 1) * (height + 1) <= usize::MAX,
        ensures
            r.wf(),
            r@ == Flow::<T>::fresh(width as nat, height as nat),
    {
        proof {
            lemma_sizes_fit(width as nat, height as nat);
        }
        let wind = windspeed::<T>();
        let mut u = Array2D::<T>::new(width + 1, height);
        let mut y: usize = 0;
        while y < height
            invariant
                u.wf(),
                u@.width == width + 1,
                u@.height == height,
                y <= height,
                wind == windspeed_spec::<T>(),
                forall|x2: int, y2: int|
                    u@.has(x2, y2) ==> #[trigger] u@.at(x2, y2) == (if y2 < y && (x2 == 0 || x2
                        == width) {
                        wind
                    } else {
                        zero_spec::<T>()
                    }),
            decreases height - y,
        {
            u.set(0, y, wind);
            u.set(width, y, wind);
            y += 1;
        }
        proof {
            let target = Flow::<T>::fresh_u(width as nat, height as nat);
            assert forall|x: int, y: int| u@.has(x, y) implies u@.at(x, y) == target.at(x, y) by {
                lemma_cell_index(u@.width, u@.height, x, y);
            }
            lemma_same(u@, target);
        }

        let mut s = Array2D::fill(Cell::Fluid, width, height);
        if DRAW_OBSTACLE {
            let radius = T::index(width).over(&T::ratio(7, 1));
            s.fill_circle(signed_index(width / 3), signed_index(height / 2), radius, Cell::Solid);
        }

        let lit = one::<T>();
        let mut smoke = Array2D::<T>::new(width, height);
        let spacing: usize = height / NUM_BANDS;
        let mut band: usize = 0;
        while band < NUM_BANDS
            invariant
                smoke.wf(),
                smoke@.width == width,
                smoke@.height == height,
                0 < width,
                width + height + 1 <= usize::MAX,
                band <= NUM_BANDS,
                spacing == height / NUM_BANDS,
                lit == one_spec::<T>(),
                forall|x2: int, y2: int|
                    smoke@.has(x2, y2) ==> #[trigger] smoke@.at(x2, y2) == (if x2 == 0
                        && in_bands(height as nat, y2, band as nat) {
                        lit
                    } else {
                        zero_spec::<T>()
                    }),
            decreases NUM_BANDS - band,
        {
            proof {
                assert(spacing * band + spacing / 2 <= height) by (nonlinear_arith)
                    requires
                        spacing == height / 9,
                        band < 9,
                ;
                assert(0 <= spacing * band) by (nonlinear_arith);
            }
            let center: usize = spacing * band + spacing / 2;
            let mut i: usize = 0;
            while i < BAND_WIDTH
                invariant
                    smoke.wf(),
                    smoke@.width == width,
                    smoke@.height == height,
                    0 < width,
                    width + height + 1 <= usize::MAX,
                    band < NUM_BANDS,
                    center <= height,
                    center == spacing * band + spacing / 2,
                    i <= BAND_WIDTH,
                    lit == one_spec::<T>(),
                    forall|x2: int, y2: int|
                        smoke@.has(x2, y2) ==> #[trigger] smoke@.at(x2, y2) == (if x2 == 0 && (
                        in_bands(height as nat, y2, band as nat) || center - i < y2 < center
                            + i) {
                            lit
                        } else {
                            zero_spec::<T>()
                        }),
                decreases BAND_WIDTH - i,
            {
                if i < height && center < height - i {
                    smoke.set(0, center + i, lit);
                }
                if center >= i && center - i < height {
                    smoke.set(0, center - i, lit);
                }
                i += 1;
            }
            band += 1;
        }
        proof {
            let target = Flow::<T>::fresh_smoke(width as nat, height as nat);
            assert forall|x: int, y: int| smoke@.has(x, y) implies smoke@.at(x, y) == target.at(
                x,
                y,
            ) by {
                lemma_cell_index(smoke@.width, smoke@.height, x, y);
            }
            lemma_same(smoke@, target);
        }
        Simulation {
            width,
            height,
            u,
            v: Array2D::new(width, height + 1),
            s,
            p: Array2D::new(width, height),
            smoke,
        }
    }

    /// The number of cells along x.
    pub fn width(&self) -> (r: usize)
        ensures
            r == self@.width,
    {
        self.width
    }

    /// The number of cells along y.
    pub fn height(&self) -> (r: usize)
        ensures
            r == self@.height,
    {
        self.height
    }

    /// What the cell `(x, y)` is made of, for coordinates at most one step
    /// outside the domain: everything outside is solid.
    pub fn classify(&self, x: i32, y: i32) -> (r: Cell)
        requires
            self.wf(),
            -1 <= x <= self@.width,
            -1 <= y <= self@.height,
        ensures
            r == self@.classify(x as int, y as int),
    {
        if x >= 0 && y >= 0 {
            self.kind_at(x as usize, y as usize)
        } else {
            Cell::Solid
        }
    }

    /// What the cell `(x, y)` is made of; solid where there is no such cell.
    fn kind_at(&self, x: usize, y: usize) -> (r: Cell)
        requires
            self.wf(),
        ensures
            r == self@.classify(x as int, y as int),
    {
        if x < self.width && y < self.height {
            self.s.get(x, y)
        } else {
            Cell::Solid
        }
    }

    /// What the left neighbour of the cell `(x, y)` is made of.
    fn kind_left(&self, x: usize, y: usize) -> (r: Cell)
        requires
            self.wf(),
        ensures
            r == self@.classify(x - 1, y as int),
    {
        if x > 0 {
            self.kind_at(x - 1, y)
        } else {
            Cell::Solid
        }
    }

    /// What the lower neighbour of the cell `(x, y)` is made of.
    fn kind_below(&self, x: usize, y: usize) -> (r: Cell)
        requires
            self.wf(),
        ensures
            r == self@.classify(x as int, y - 1),
    {
        if y > 0 {
            self.kind_at(x, y - 1)
        } else {
            Cell::Solid
        }
    }

    /// Whether the `u` face `(x, y)` has fluid on both sides.
    pub fn open_u(&self, x: usize, y: usize) -> (r: bool)
        requires
            self.wf(),
            x <= self@.width,
            y <= self@.height,
        ensures
            r == self@.open_u(x as int, y as int),
    {
        self.kind_at(x, y) == Cell::Fluid && self.kind_left(x, y) == Cell::Fluid
    }

    /// Whether the `v` face `(x, y)` has fluid on both sides.
    pub fn open_v(&self, x: usize, y: usize) -> (r: bool)
        requires
            self.wf(),
            x <= self@.width,
            y <= self@.height,
        ensures
            r == self@.open_v(x as int, y as int),
    {
        self.kind_at(x, y) == Cell::Fluid && self.kind_below(x, y) == Cell::Fluid
    }

    /// One Gauss-Seidel update of the cell `(x, y)`.
    pub fn relax(&mut self, x: usize, y: usize, dt: T)
        requires
            old(self).wf(),
            x < old(self)@.width,
            y < old(self)@.height,
        ensures
            final(self).wf(),
            final(self)@ == old(self)@.relax(x as int, y as int, dt),
            final(self)@.width == old(self)@.width,
            final(self)@.height == old(self)@.height,
            final(self)@.s == old(self)@.s,
            final(self)@.smoke == old(self)@.smoke,
    {
        proof {
            lemma_sizes_fit(self@.width, self@.height);
        }
        let u0 = self.u.get(x, y);
        let u1 = self.u.get(x + 1, y);
        let v0 = self.v.get(x, y);
        let v1 = self.v.get(x, y + 1);
        let d = overrelaxation::<T>().times(&u1.minus(&u0).plus(&v1).minus(&v0));
        let s1: T = self.kind_left(x, y).weight();
        let s2: T = self.kind_at(x + 1, y).weight();
        let s3: T = self.kind_below(x, y).weight();
        let s4: T = self.kind_at(x, y + 1).weight();
        let s = s1.plus(&s2).plus(&s3).plus(&s4);
        if self.s.get(x, y) != Cell::Fluid || is_zero(s) {
            return ;
        }
        self.u.set(x, y, u0.plus(&d.times(&s1).over(&s)));
        self.u.set(x + 1, y, u1.minus(&d.times(&s2).over(&s)));
        self.v.set(x, y, v0.plus(&d.times(&s3).over(&s)));
        self.v.set(x, y + 1, v1.minus(&d.times(&s4).over(&s)));
        let p0 = self.p.get(x, y);
        self.p.set(
            x,
            y,
            p0.minus(&d.over(&s).times(&density::<T>()).times(&cell_size::<T>()).over(&dt)),
        );
    }

    /// Pressure projection: removes, sweep by sweep, the net outflow of
    /// every fluid cell, and leaves in `p` the pressure that did so.
    pub fn projection(&mut self, dt: T)
        requires
            old(self).wf(),
        ensures
            final(self).wf(),
            final(self)@ == old(self)@.projected(dt),
            final(self)@.width == old(self)@.width,
            final(self)@.height == old(self)@.height,
            final(self)@.s == old(self)@.s,
            final(self)@.smoke == old(self)@.smoke,
    {
        self.p.zero();
        let ghost start = self@;
        let mut round: u32 = 0;
        while round < NUM_PROJ_ITERATIONS
            invariant
                self.wf(),
                start.wf(),
                round <= NUM_PROJ_ITERATIONS,
                self@ == start.sweeps(round as nat, dt),
                self@.width == start.width,
                self@.height == start.height,
                self@.s == start.s,
                self@.smoke == start.smoke,
            decreases NUM_PROJ_ITERATIONS - round,
        {
            let ghost before = self@;
            let mut y: usize = 0;
            while y < self.height
                invariant
                    self.wf(),
                    y <= self.height,
                    self@.width == before.width,
                    self@.height == before.height,
                    self@.s == before.s,
                    self@.smoke == before.smoke,
                    self@ == before.sweep((y * before.width) as nat, dt),
                decreases self.height - y,
            {
                let mut x: usize = 0;
                while x < self.width
                    invariant
                        self.wf(),
                        y < self.height,
                        x <= self.width,
                        self@.width == before.width,
                        self@.height == before.height,
                        self@.s == before.s,
                        self@.smoke == before.smoke,
                        self@ == before.sweep((y * before.width + x) as nat, dt),
                    decreases self.width - x,
                {
                    proof {
                        lemma_cell_index(before.width, before.height, x as int, y as int);
                    }
                    self.relax(x, y, dt);
                    x += 1;
                }
                proof {
                    assert(y * before.width + before.width == (y + 1) * before.width)
                        by (nonlinear_arith);
                }
                y += 1;
            }
            proof {
                assert(before.height * before.width == before.width * before.height)
                    by (nonlinear_arith);
            }
            round += 1;
        }
    }

    /// The mean of the four `u` faces around the `v` face `(x, y)`.
    pub fn avg_u(&self, x: usize, y: usize) -> (r: T)
        requires
            self.wf(),
            x < self@.width,
            1 <= y < self@.height,
        ensures
            r == self@.avg_u(x as int, y as int),
    {
        self.u.get(x, y - 1).plus(&self.u.get(x, y)).plus(&self.u.get(x + 1, y - 1)).plus(
            &self.u.get(x + 1, y),
        ).times(&quarter::<T>())
    }

    /// The mean of the four `v` faces around the `u` face `(x, y)`.
    pub fn avg_v(&self, x: usize, y: usize) -> (r: T)
        requires
            self.wf(),
            1 <= x < self@.width,
            y < self@.height,
        ensures
            r == self@.avg_v(x as int, y as int),
    {
        self.v.get(x - 1, y).plus(&self.v.get(x, y)).plus(&self.v.get(x - 1, y + 1)).plus(
            &self.v.get(x, y + 1),
        ).times(&quarter::<T>())
    }

    /// The x-velocity at the position `(x, y)`.
    pub fn sample_u(&self, x: T, y: T) -> (r: T)
        requires
            self.wf(),
        ensures
            r == self@.sample_u(x, y),
    {
        sample_field(&self.u, self.width, self.height, zero::<T>(), half_cell::<T>(), x, y)
    }

    /// The y-velocity at the position `(x, y)`.
    pub fn sample_v(&self, x: T, y: T) -> (r: T)
        requires
            self.wf(),
        ensures
            r == self@.sample_v(x, y),
    {
        sample_field(&self.v, self.width, self.height, half_cell::<T>(), zero::<T>(), x, y)
    }

    /// The tracer at the position `(x, y)`.
    pub fn sample_smoke(&self, x: T, y: T) -> (r: T)
        requires
            self.wf(),
        ensures
            r == self@.sample_smoke(x, y),
    {
        sample_field(
            &self.smoke,
            self.width,
            self.height,
            half_cell::<T>(),
            half_cell::<T>(),
            x,
            y,
        )
    }

    /// Lets gravity act for `dt` on every `v` face with fluid on both sides.
    pub fn gravitation(&mut self, dt: T)
        requires
            old(self).wf(),
        ensures
            final(self).wf(),
            final(self)@ == old(self)@.with_gravity(dt),
            final(self)@ == (Flow { v: final(self)@.v, ..old(self)@ }),
    {
        let ghost before = self@;
        let pull = gravity::<T>().times(&dt);
        let mut y: usize = 0;
        while y < self.height
            invariant
                self.wf(),
                before.wf(),
                pull == gravity_spec::<T>().times_spec(dt),
                y <= self.height,
                self@ == (Flow { v: self@.v, ..before }),
                forall|x2: int, y2: int|
                    before.v.has(x2, y2) ==> #[trigger] self@.v.at(x2, y2) == (if y2 < y {
                        before.with_gravity(dt).v.at(x2, y2)
                    } else {
                        before.v.at(x2, y2)
                    }),
            decreases self.height - y,
        {
            let mut x: usize = 0;
            while x < self.width
                invariant
                    self.wf(),
                    before.wf(),
                    pull == gravity_spec::<T>().times_spec(dt),
                    y < self.height,
                    x <= self.width,
                    self@ == (Flow { v: self@.v, ..before }),
                    forall|x2: int, y2: int|
                        before.v.has(x2, y2) ==> #[trigger] self@.v.at(x2, y2) == (if y2 < y || (y2
                            == y && x2 < x) {
                            before.with_gravity(dt).v.at(x2, y2)
                        } else {
                            before.v.at(x2, y2)
                        }),
                decreases self.width - x,
            {
                proof {
                    before.lemma_with_gravity(dt);
                }
                if self.open_v(x, y) {
                    let faster = self.v.get(x, y).plus(&pull);
                    self.v.set(x, y, faster);
                }
                x += 1;
            }
            y += 1;
        }
        proof {
            before.lemma_with_gravity(dt);
            lemma_same(self@.v, before.with_gravity(dt).v);
        }
    }

    /// Carries the velocity along itself for `dt`. Every face is computed
    /// from the velocity before the call; pinned faces and faces that touch
    /// a solid cell keep their value.
    pub fn advection(&mut self, dt: T)
        requires
            old(self).wf(),
        ensures
            final(self).wf(),
            final(self)@ == old(self)@.advected(dt),
            final(self)@ == (Flow { u: final(self)@.u, v: final(self)@.v, ..old(self)@ }),
    {
        proof {
            lemma_sizes_fit(self@.width, self@.height);
        }
        let h = cell_size::<T>();
        let half_h = half::<T>().times(&h);
        let mut new_u = self.u.clone();
        let mut new_v = self.v.clone();
        let mut j: usize = 0;
        while j <= self.height
            invariant
                self.wf(),
                self@ == old(self)@,
                j <= self.height + 1,
                self.height < usize::MAX,
                self.width < usize::MAX,
                h == cell_size_spec::<T>(),
                half_h == half_spec::<T>().times_spec(h),
                new_u.wf(),
                new_u@.width == self@.u.width,
                new_u@.height == self@.u.height,
                new_v.wf(),
                new_v@.width == self@.v.width,
                new_v@.height == self@.v.height,
                forall|i2: int, j2: int|
                    self@.u.has(i2, j2) ==> #[trigger] new_u@.at(i2, j2) == (if j2 < j {
                        self@.advected_u_at(i2, j2, dt)
                    } else {
                        self@.u.at(i2, j2)
                    }),
                forall|i2: int, j2: int|
                    self@.v.has(i2, j2) ==> #[trigger] new_v@.at(i2, j2) == (if j2 < j {
                        self@.advected_v_at(i2, j2, dt)
                    } else {
                        self@.v.at(i2, j2)
                    }),
            decreases self.height + 1 - j,
        {
            let mut i: usize = 0;
            while i <= self.width
                invariant
                    self.wf(),
                    self@ == old(self)@,
                    j <= self.height,
                    i <= self.width + 1,
                    self.height < usize::MAX,
                    self.width < usize::MAX,
                    h == cell_size_spec::<T>(),
                    half_h == half_spec::<T>().times_spec(h),
                    new_u.wf(),
                    new_u@.width == self@.u.width,
                    new_u@.height == self@.u.height,
                    new_v.wf(),
                    new_v@.width == self@.v.width,
                    new_v@.height == self@.v.height,
                    forall|i2: int, j2: int|
                        self@.u.has(i2, j2) ==> #[trigger] new_u@.at(i2, j2) == (if j2 < j || (j2
                            == j && i2 < i) {
                            self@.advected_u_at(i2, j2, dt)
                        } else {
                            self@.u.at(i2, j2)
                        }),
                    forall|i2: int, j2: int|
                        self@.v.has(i2, j2) ==> #[trigger] new_v@.at(i2, j2) == (if j2 < j || (j2
                            == j && i2 < i) {
                            self@.advected_v_at(i2, j2, dt)
                        } else {
                            self@.v.at(i2, j2)
                        }),
                decreases self.width + 1 - i,
            {
                if 1 <= i && i < self.width && self.open_u(i, j) {
                    let x = T::index(i).times(&h);
                    let y = T::index(j).times(&h).plus(&half_h);
                    let u = self.u.get(i, j);
                    let v = self.avg_v(i, j);
                    let carried = self.sample_u(x.minus(&dt.times(&u)), y.minus(&dt.times(&v)));
                    new_u.set(i, j, carried);
                }
                if 1 <= j && j < self.height && self.open_v(i, j) {
                    let x = T::index(i).times(&h).plus(&half_h);
                    let y = T::index(j).times(&h);
                    let v = self.v.get(i, j);
                    let u = self.avg_u(i, j);
                    let carried = self.sample_v(x.minus(&dt.times(&u)), y.minus(&dt.times(&v)));
                    new_v.set(i, j, carried);
                }
                i += 1;
            }
            j += 1;
        }
        proof {
            self@.lemma_advected(dt);
            lemma_same(new_u@, self@.advected(dt).u);
            lemma_same(new_v@, self@.advected(dt).v);
        }
        self.u = new_u;
        self.v = new_v;
    }

    /// Carries the tracer along the velocity for `dt`. Every cell is
    /// computed from the tracer before the call; solid cells and the
    /// outermost ring of cells keep their value.
    pub fn smoke_advection(&mut self, dt: T)
        requires
            old(self).wf(),
        ensures
            final(self).wf(),
            final(self)@ == old(self)@.smoke_advected(dt),
            final(self)@ == (Flow { smoke: final(self)@.smoke, ..old(self)@ }),
    {
        proof {
            lemma_sizes_fit(self@.width, self@.height);
        }
        let h = cell_size::<T>();
        let half_h = half::<T>().times(&h);
        let mut new_smoke = self.smoke.clone();
        let mut j: usize = 1;
        while j + 1 < self.height
            invariant
                self.wf(),
                self@ == old(self)@,
                1 <= j <= self.height,
                self.height < usize::MAX,
                self.width < usize::MAX,
                h == cell_size_spec::<T>(),
                half_h == half_spec::<T>().times_spec(h),
                new_smoke.wf(),
                new_smoke@.width == self@.smoke.width,
                new_smoke@.height == self@.smoke.height,
                forall|i2: int, j2: int|
                    self@.smoke.has(i2, j2) ==> #[trigger] new_smoke@.at(i2, j2) == (if j2 < j {
                        self@.advected_smoke_at(i2, j2, dt)
                    } else {
                        self@.smoke.at(i2, j2)
                    }),
            decreases self.height - j,
        {
            let mut i: usize = 1;
            while i + 1 < self.width
                invariant
                    self.wf(),
                    self@ == old(self)@,
                    1 <= j,
                    j + 1 < self.height,
                    1 <= i <= self.width,
                    self.height < usize::MAX,
                    self.width < usize::MAX,
                    h == cell_size_spec::<T>(),
                    half_h == half_spec::<T>().times_spec(h),
                    new_smoke.wf(),
                    new_smoke@.width == self@.smoke.width,
                    new_smoke@.height == self@.smoke.height,
                    forall|i2: int, j2: int|
                        self@.smoke.has(i2, j2) ==> #[trigger] new_smoke@.at(i2, j2) == (if j2 < j
                            || (j2 == j && i2 < i) {
                            self@.advected_smoke_at(i2, j2, dt)
                        } else {
                            self@.smoke.at(i2, j2)
                        }),
                decreases self.width - i,
            {
                if self.s.get(i, j) == Cell::Fluid {
                    let u = half::<T>().times(&self.u.get(i, j).plus(&self.u.get(i + 1, j)));
                    let v = half::<T>().times(&self.v.get(i, j).plus(&self.v.get(i, j + 1)));
                    let x = T::index(i).times(&h).plus(&half_h).minus(&dt.times(&u));
                    let y = T::index(j).times(&h).plus(&half_h).minus(&dt.times(&v));
                    let carried = self.sample_smoke(x, y);
                    new_smoke.set(i, j, carried);
                }
                i += 1;
            }
            j += 1;
        }
        proof {
            self@.lemma_smoke_advected(dt);
            lemma_same(new_smoke@, self@.smoke_advected(dt).smoke);
        }
        self.smoke = new_smoke;
    }

    /// Advances the flow by one step in time: gravity where it is switched
    /// on, then projection, advection of the velocity, advection of the
    /// tracer.
    pub fn step(&mut self)
        requires
            old(self).wf(),
        ensures
            final(self).wf(),
            final(self)@ == old(self)@.stepped(),
            final(self)@.width == old(self)@.width,
            final(self)@.height == old(self)@.height,
            final(self)@.s == old(self)@.s,
    {
        let dt = timestep::<T>();
        if WITH_GRAVITY {
            self.gravitation(dt);
        }
        self.projection(dt);
        self.advection(dt);
        self.smoke_advection(dt);
    }

    /// The velocities at the centre of the cell `(x, y)`, and what the cell
    /// holds.
    pub fn cell_info(&self, x: usize, y: usize) -> (r: CellInfo<T>)
        requires
            self.wf(),
            x < self@.width,
            y < self@.height,
        ensures
            r.u_flow == self@.center_u(x as int, y as int),
            r.v_flow == self@.center_v(x as int, y as int),
            r.s == self@.s.at(x as int, y as int),
            r.p == self@.p.at(x as int, y as int),
            r.smoke == self@.smoke.at(x as int, y as int),
    {
        proof {
            lemma_sizes_fit(self@.width, self@.height);
        }
        CellInfo {
            u_flow: half::<T>().times(&self.u.get(x, y).plus(&self.u.get(x + 1, y))),
            v_flow: half::<T>().times(&self.v.get(x, y).plus(&self.v.get(x, y + 1))),
            s: self.s.get(x, y),
            p: self.p.get(x, y),
            smoke: self.smoke.get(x, y),
        }
    }

    /// The speed at every cell centre, computed anew, row after row.
    pub fn get_speed(&self) -> (r: Vec<T>)
        requires
            self.wf(),
        ensures
            r@ == self@.speed().cells,
            r@.len() == self@.width * self@.height,
    {
        proof {
            lemma_sizes_fit(self@.width, self@.height);
        }
        let mut speed: Vec<T> = Vec::new();
        let mut j: usize = 0;
        while j < self.height
            invariant
                self.wf(),
                j <= self.height,
                speed@.len() == j * self.width,
                forall|k: int|
                    0 <= k < speed@.len() ==> #[trigger] speed@[k] == self@.speed_at(
                        k % (self.width as int),
                        k / (self.width as int),
                    ),
            decreases self.height - j,
        {
            let mut i: usize = 0;
            while i < self.width
                invariant
                    self.wf(),
                    j < self.height,
                    i <= self.width,
                    speed@.len() == j * self.width + i,
                    forall|k: int|
                        0 <= k < speed@.len() ==> #[trigger] speed@[k] == self@.speed_at(
                            k % (self.width as int),
                            k / (self.width as int),
                        ),
                decreases self.width - i,
            {
                let u = half::<T>().times(&self.u.get(i, j).plus(&self.u.get(i + 1, j)));
                let v = half::<T>().times(&self.v.get(i, j).plus(&self.v.get(i, j + 1)));
                proof {
                    lemma_cell_index(self@.width, self@.height, i as int, j as int);
                }
                speed.push(u.times(&u).plus(&v.times(&v)).sqrt());
                i += 1;
            }
            proof {
                assert(j * self.width + self.width == (j + 1) * self.width) by (nonlinear_arith);
            }
            j += 1;
        }
        proof {
            assert(self.height * self.width == self@.width * self@.height) by (nonlinear_arith);
            assert(speed@ =~= self@.speed().cells);
        }
        speed
    }

    /// The x-velocity on every vertical face, row after row; a row holds
    /// one face more than there are cells.
    pub fn get_u(&self) -> (r: &[T])
        requires
            self.wf(),
        ensures
            r@ == self@.u.cells,
            r@.len() == (self@.width + 1) * self@.height,
    {
        self.u.data()
    }

    /// The y-velocity on every horizontal face, row after row; there is one
    /// row more than there are rows of cells.
    pub fn get_v(&self) -> (r: &[T])
        requires
            self.wf(),
        ensures
            r@ == self@.v.cells,
            r@.len() == self@.width * (self@.height + 1),
    {
        self.v.data()
    }

    /// The tracer in every cell, row after row.
    pub fn get_smoke(&self) -> (r: &[T])
        requires
            self.wf(),
        ensures
            r@ == self@.smoke.cells,
            r@.len() == self@.width * self@.height,
    {
        self.smoke.data()
    }

    /// The pressure in every cell, row after row.
    pub fn get_pressure(&self) -> (r: &[T])
        requires
            self.wf(),
        ensures
            r@ == self@.p.cells,
            r@.len() == self@.width * self@.height,
    {
        self.p.data()
    }

    /// What every cell is made of, row after row.
    pub fn get_s(&self) -> (r: &[Cell])
        requires
            self.wf(),
        ensures
            r@ == self@.s.cells,
            r@.len() == self@.width * self@.height,
    {
        self.s.data()
    }

    /// Draws a solid disc of `radius` around the cell `(center_x, center_y)`:
    /// its cells become solid and lose pressure and tracer, and the faces
    /// within `radius` plus one come to rest. What lies outside keeps its
    /// value; nothing solid ever becomes fluid.
    pub fn draw_obstacle(&mut self, center_x: i32, center_y: i32, radius: T)
        requires
            old(self).wf(),
        ensures
            final(self).wf(),
            final(self)@ == old(self)@.stamped(center_x, center_y, radius),
            forall|x: int, y: int|
                old(self)@.s.has(x, y) ==> #[trigger] final(self)@.s.at(x, y) == (if in_disc(
                    x as usize,
                    y as usize,
                    center_x,
                    center_y,
                    radius,
                ) {
                    Cell::Solid
                } else {
                    old(self)@.s.at(x, y)
                }),
            forall|x: int, y: int|
                old(self)@.s.has(x, y) && old(self)@.s.at(x, y) == Cell::Solid
                    ==> #[trigger] final(self)@.s.at(x, y) == Cell::Solid,
            forall|x: int, y: int|
                old(self)@.p.has(x, y) ==> #[trigger] final(self)@.p.at(x, y) == (if in_disc(
                    x as usize,
                    y as usize,
                    center_x,
                    center_y,
                    radius,
                ) {
                    zero_spec::<T>()
                } else {
                    old(self)@.p.at(x, y)
                }),
            forall|x: int, y: int|
                old(self)@.smoke.has(x, y) ==> #[trigger] final(self)@.smoke.at(x, y)
                    == (if in_disc(x as usize, y as usize, center_x, center_y, radius) {
                    zero_spec::<T>()
                } else {
                    old(self)@.smoke.at(x, y)
                }),
            forall|x: int, y: int|
                old(self)@.u.has(x, y) ==> #[trigger] final(self)@.u.at(x, y) == (if in_disc(
                    x as usize,
                    y as usize,
                    center_x,
                    center_y,
                    radius.plus_spec(one_spec::<T>()),
                ) {
                    zero_spec::<T>()
                } else {
                    old(self)@.u.at(x, y)
                }),
            forall|x: int, y: int|
                old(self)@.v.has(x, y) ==> #[trigger] final(self)@.v.at(x, y) == (if in_disc(
                    x as usize,
                    y as usize,
                    center_x,
                    center_y,
                    radius.plus_spec(one_spec::<T>()),
                ) {
                    zero_spec::<T>()
                } else {
                    old(self)@.v.at(x, y)
                }),
    {
        let still = zero::<T>();
        let wider = radius.plus(&one::<T>());
        self.s.fill_circle(center_x, center_y, radius, Cell::Solid);
        self.p.fill_circle(center_x, center_y, radius, still);
        self.smoke.fill_circle(center_x, center_y, radius, still);
        self.u.fill_circle(center_x, center_y, wider, still);
        self.v.fill_circle(center_x, center_y, wider, still);
    }

    /// Brings velocity, pressure and tracer back to those of a fresh
    /// simulation, and keeps every cell's kind.
    pub fn reset_except_walls(&mut self)
        requires
            old(self).wf(),
        ensures
            final(self).wf(),
            final(self)@ == (Flow {
                s: old(self)@.s,
                ..Flow::<T>::fresh(old(self)@.width, old(self)@.height)
            }),
    {
        let old_s = self.s.clone();
        self.reset();
        self.s = old_s;
    }

    /// Brings the simulation back to the fresh one of its size; obstacles
    /// drawn since are gone.
    pub fn reset(&mut self)
        requires
            old(self).wf(),
        ensures
            final(self).wf(),
            final(self)@ == Flow::<T>::fresh(old(self)@.width, old(self)@.height),
    {
        *self = Self::new(self.width, self.height);
    }
}

} // verus!
