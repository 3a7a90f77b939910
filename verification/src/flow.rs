//! The mathematical state of a simulation, and the maps that the solver
//! applies to it.
//!
//! Velocities live on a staggered grid: `u` on the vertical faces of the
//! cells, `v` on the horizontal faces, everything else at cell centres.

use crate::grid::{lemma_cell_coords, lemma_cell_index, lemma_put, lemma_stamped, Field};
use crate::params::{
    cell_size_spec, density_spec, gravity_spec, half_cell_spec, half_spec, overrelaxation_spec,
    quarter_spec, timestep_spec, windspeed_spec, BAND_WIDTH, DRAW_OBSTACLE, NUM_BANDS,
    NUM_PROJ_ITERATIONS, WITH_GRAVITY,
};
use crate::scalar::{clamp_spec, is_zero_spec, one_spec, zero_spec, Scalar};
use vstd::prelude::*;

verus! {

/// What a cell is made of.
#[derive(Clone, Copy, Debug, PartialEq, Eq, Structural)]
pub enum Cell {
    Fluid,
    Solid,
}

impl Cell {
    /// The weight with which a neighbour of this kind enters the projection:
    /// one for fluid, and for solid not zero but minus a hundred-billionth.
    pub open spec fn weight_spec<T: Scalar>(self) -> T {
        match self {
            Cell::Fluid => T::ratio_spec(1, 1),
            Cell::Solid => T::ratio_spec(-1i64, 100_000_000_000),
        }
    }

    /// The weight with which a neighbour of this kind enters the projection.
    pub fn weight<T: Scalar>(self) -> (r: T)
        ensures
            r == self.weight_spec::<T>(),
    {
        match self {
            Cell::Fluid => T::ratio(1, 1),
            Cell::Solid => T::ratio(-1, 100_000_000_000),
        }
    }
}

/// The whole number `i` as a scalar.
pub open spec fn coord<T: Scalar>(i: int) -> T {
    T::index_spec(i as usize)
}

/// A coordinate held inside the sampled part of an axis of `n` cells: at
/// least one cell size, at most `n` cell sizes.
pub open spec fn axis_clamp<T: Scalar>(c: T, n: nat) -> T {
    clamp_spec(c, cell_size_spec::<T>(), coord::<T>(n as int).times_spec(cell_size_spec::<T>()))
}

/// The index of the stored sample at or below the coordinate `c` on an axis
/// of `n` cells whose samples are shifted by `off`.
pub open spec fn axis_cell<T: Scalar>(c: T, off: T, n: nat) -> int {
    let i = c.minus_spec(off).over_spec(cell_size_spec::<T>()).floor_index_spec() as int;
    if i < n - 1 {
        i
    } else {
        n - 1
    }
}

/// The index of the next stored sample after `i0`, held inside the axis.
pub open spec fn axis_next(i0: int, n: nat) -> int {
    if i0 + 1 < n - 1 {
        i0 + 1
    } else {
        n - 1
    }
}

/// How far, in cell sizes, the coordinate `c` lies beyond the sample `i0`.
pub open spec fn axis_frac<T: Scalar>(c: T, off: T, i0: int) -> T {
    c.minus_spec(off).minus_spec(coord::<T>(i0).times_spec(cell_size_spec::<T>())).over_spec(
        cell_size_spec::<T>(),
    )
}

/// The bilinear blend of four samples, with weights `tx` along x and `ty`
/// along y: `f00` is the sample at the lower index on both axes, `f10` the
/// next along x, `f11` the next along both, `f01` the next along y.
pub open spec fn blend<T: Scalar>(f00: T, f10: T, f11: T, f01: T, tx: T, ty: T) -> T {
    let sx = one_spec::<T>().minus_spec(tx);
    let sy = one_spec::<T>().minus_spec(ty);
    sx.times_spec(sy).times_spec(f00).plus_spec(tx.times_spec(sy).times_spec(f10)).plus_spec(
        tx.times_spec(ty).times_spec(f11),
    ).plus_spec(sx.times_spec(ty).times_spec(f01))
}

/// The value of `field` at the position `(x_in, y_in)`, in a domain of
/// `width` by `height` cells, where the field's samples are shifted by
/// `(dx, dy)` from the grid lines.
pub open spec fn sample<T: Scalar>(
    field: Field<T>,
    width: nat,
    height: nat,
    dx: T,
    dy: T,
    x_in: T,
    y_in: T,
) -> T {
    let x = axis_clamp(x_in, width);
    let y = axis_clamp(y_in, height);
    let x0 = axis_cell(x, dx, width);
    let x1 = axis_next(x0, width);
    let y0 = axis_cell(y, dy, height);
    let y1 = axis_next(y0, height);
    blend(
        field.at(x0, y0),
        field.at(x1, y0),
        field.at(x1, y1),
        field.at(x0, y1),
        axis_frac(x, dx, x0),
        axis_frac(y, dy, y0),
    )
}

/// The row on which the tracer band number `band` is centred.
pub open spec fn band_center(height: nat, band: int) -> int {
    (height / NUM_BANDS as nat) * band + (height / NUM_BANDS as nat) / 2
}

/// Whether `row` lies in one of the first `bands` tracer bands.
pub open spec fn in_bands(height: nat, row: int, bands: nat) -> bool
    decreases bands,
{
    if bands == 0 {
        false
    } else {
        in_bands(height, row, (bands - 1) as nat) || {
            let c = band_center(height, bands - 1);
            c - BAND_WIDTH < row < c + BAND_WIDTH
        }
    }
}

/// The state of a simulation: a domain of `width` by `height` cells with
/// its five fields.
pub struct Flow<T> {
    pub width: nat,
    pub height: nat,
    /// Velocity along x, on the vertical faces: `width + 1` by `height`.
    pub u: Field<T>,
    /// Velocity along y, on the horizontal faces: `width` by `height + 1`.
    pub v: Field<T>,
    /// What each cell is made of.
    pub s: Field<Cell>,
    /// Pressure.
    pub p: Field<T>,
    /// The tracer.
    pub smoke: Field<T>,
}

impl<T: Scalar> Flow<T> {
    /// The domain is not empty, every field has its staggered shape, and
    /// every index fits the machine.
    pub open spec fn wf(self) -> bool {
        &&& self.width > 0
        &&& self.height > 0
        &&& (self.width + 1) * (self.height + 1) <= usize::MAX
        &&& self.u.wf() && self.u.width == self.width + 1 && self.u.height == self.height
        &&& self.v.wf() && self.v.width == self.width && self.v.height == self.height + 1
        &&& self.s.wf() && self.s.width == self.width && self.s.height == self.height
        &&& self.p.wf() && self.p.width == self.width && self.p.height == self.height
        &&& self.smoke.wf() && self.smoke.width == self.width && self.smoke.height
            == self.height
    }

    /// What the cell `(x, y)` is made of. Everything outside the domain is
    /// solid.
    pub open spec fn classify(self, x: int, y: int) -> Cell {
        if 0 <= x < self.width && 0 <= y < self.height {
            self.s.at(x, y)
        } else {
            Cell::Solid
        }
    }

    /// Whether the face between the cell `(x, y)` and its left neighbour has
    /// fluid on both sides.
    pub open spec fn open_u(self, x: int, y: int) -> bool {
        self.classify(x, y) == Cell::Fluid && self.classify(x - 1, y) == Cell::Fluid
    }

    /// Whether the face between the cell `(x, y)` and its lower neighbour
    /// has fluid on both sides.
    pub open spec fn open_v(self, x: int, y: int) -> bool {
        self.classify(x, y) == Cell::Fluid && self.classify(x, y - 1) == Cell::Fluid
    }

    /// The mean of the four `u` faces around the `v` face `(x, y)`.
    pub open spec fn avg_u(self, x: int, y: int) -> T {
        self.u.at(x, y - 1).plus_spec(self.u.at(x, y)).plus_spec(self.u.at(x + 1, y - 1)).plus_spec(
            self.u.at(x + 1, y),
        ).times_spec(quarter_spec::<T>())
    }

    /// The mean of the four `v` faces around the `u` face `(x, y)`.
    pub open spec fn avg_v(self, x: int, y: int) -> T {
        self.v.at(x - 1, y).plus_spec(self.v.at(x, y)).plus_spec(self.v.at(x - 1, y + 1)).plus_spec(
            self.v.at(x, y + 1),
        ).times_spec(quarter_spec::<T>())
    }

    /// The x-velocity at a position.
    pub open spec fn sample_u(self, x: T, y: T) -> T {
        sample(self.u, self.width, self.height, zero_spec::<T>(), half_cell_spec::<T>(), x, y)
    }

    /// The y-velocity at a position.
    pub open spec fn sample_v(self, x: T, y: T) -> T {
        sample(self.v, self.width, self.height, half_cell_spec::<T>(), zero_spec::<T>(), x, y)
    }

    /// The tracer at a position.
    pub open spec fn sample_smoke(self, x: T, y: T) -> T {
        sample(
            self.smoke,
            self.width,
            self.height,
            half_cell_spec::<T>(),
            half_cell_spec::<T>(),
            x,
            y,
        )
    }

    /// The over-relaxed net outflow of the cell `(x, y)`.
    pub open spec fn divergence(self, x: int, y: int) -> T {
        overrelaxation_spec::<T>().times_spec(
            self.u.at(x + 1, y).minus_spec(self.u.at(x, y)).plus_spec(
                self.v.at(x, y + 1),
            ).minus_spec(self.v.at(x, y)),
        )
    }

    /// The sum of the weights of the four neighbours of the cell `(x, y)`:
    /// left, right, below, above, added in that order.
    pub open spec fn neighbour_weight(self, x: int, y: int) -> T {
        self.classify(x - 1, y).weight_spec::<T>().plus_spec(
            self.classify(x + 1, y).weight_spec::<T>(),
        ).plus_spec(self.classify(x, y - 1).weight_spec::<T>()).plus_spec(
            self.classify(x, y + 1).weight_spec::<T>(),
        )
    }

    /// One Gauss-Seidel update: the outflow of the fluid cell `(x, y)` is
    /// handed to its four faces in proportion to the neighbours' weights, and
    /// the pressure that does so is added to the cell. A solid cell, and one
    /// whose neighbours' weights sum to zero, is left alone.
    pub open spec fn relax(self, x: int, y: int, dt: T) -> Self {
        let d = self.divergence(x, y);
        let s = self.neighbour_weight(x, y);
        if self.s.at(x, y) != Cell::Fluid || is_zero_spec(s) {
            self
        } else {
            let s1 = self.classify(x - 1, y).weight_spec::<T>();
            let s2 = self.classify(x + 1, y).weight_spec::<T>();
            let s3 = self.classify(x, y - 1).weight_spec::<T>();
            let s4 = self.classify(x, y + 1).weight_spec::<T>();
            Flow {
                u: self.u.put(
                    x,
                    y,
                    self.u.at(x, y).plus_spec(d.times_spec(s1).over_spec(s)),
                ).put(x + 1, y, self.u.at(x + 1, y).minus_spec(d.times_spec(s2).over_spec(s))),
                v: self.v.put(
                    x,
                    y,
                    self.v.at(x, y).plus_spec(d.times_spec(s3).over_spec(s)),
                ).put(x, y + 1, self.v.at(x, y + 1).minus_spec(d.times_spec(s4).over_spec(s))),
                p: self.p.put(
                    x,
                    y,
                    self.p.at(x, y).minus_spec(
                        d.over_spec(s).times_spec(density_spec::<T>()).times_spec(
                            cell_size_spec::<T>(),
                        ).over_spec(dt),
                    ),
                ),
                ..self
            }
        }
    }

    /// A Gauss-Seidel update keeps the shape of the flow, the cells and the
    /// tracer.
    pub proof fn lemma_relax(self, x: int, y: int, dt: T)
        requires
            self.wf(),
            self.s.has(x, y),
        ensures
            self.relax(x, y, dt).wf(),
            self.relax(x, y, dt).width == self.width,
            self.relax(x, y, dt).height == self.height,
            self.relax(x, y, dt).s == self.s,
            self.relax(x, y, dt).smoke == self.smoke,
    {
        let d = self.divergence(x, y);
        let s = self.neighbour_weight(x, y);
        let s1 = self.classify(x - 1, y).weight_spec::<T>();
        let s2 = self.classify(x + 1, y).weight_spec::<T>();
        let s3 = self.classify(x, y - 1).weight_spec::<T>();
        let s4 = self.classify(x, y + 1).weight_spec::<T>();
        let u0 = self.u.at(x, y).plus_spec(d.times_spec(s1).over_spec(s));
        let u1 = self.u.at(x + 1, y).minus_spec(d.times_spec(s2).over_spec(s));
        let v0 = self.v.at(x, y).plus_spec(d.times_spec(s3).over_spec(s));
        let v1 = self.v.at(x, y + 1).minus_spec(d.times_spec(s4).over_spec(s));
        let p0 = self.p.at(x, y).minus_spec(
            d.over_spec(s).times_spec(density_spec::<T>()).times_spec(
                cell_size_spec::<T>(),
            ).over_spec(dt),
        );
        lemma_put(self.u, x, y, u0);
        lemma_put(self.u.put(x, y, u0), x + 1, y, u1);
        lemma_put(self.v, x, y, v0);
        lemma_put(self.v.put(x, y, v0), x, y + 1, v1);
        lemma_put(self.p, x, y, p0);
    }

    /// A sweep, whole or in part, keeps the shape of the flow, the cells and
    /// the tracer.
    pub proof fn lemma_sweep(self, cells: nat, dt: T)
        requires
            self.wf(),
            cells <= self.width * self.height,
        ensures
            self.sweep(cells, dt).wf(),
            self.sweep(cells, dt).width == self.width,
            self.sweep(cells, dt).height == self.height,
            self.sweep(cells, dt).s == self.s,
            self.sweep(cells, dt).smoke == self.smoke,
        decreases cells,
    {
        if cells > 0 {
            let k = cells - 1;
            self.lemma_sweep(k as nat, dt);
            lemma_cell_coords(self.width, self.height, k);
            self.sweep(k as nat, dt).lemma_relax(
                k % (self.width as int),
                k / (self.width as int),
                dt,
            );
        }
    }

    /// Any number of sweeps keeps the shape of the flow, the cells and the
    /// tracer.
    pub proof fn lemma_sweeps(self, count: nat, dt: T)
        requires
            self.wf(),
        ensures
            self.sweeps(count, dt).wf(),
            self.sweeps(count, dt).width == self.width,
            self.sweeps(count, dt).height == self.height,
            self.sweeps(count, dt).s == self.s,
            self.sweeps(count, dt).smoke == self.smoke,
        decreases count,
    {
        if count > 0 {
            self.lemma_sweeps((count - 1) as nat, dt);
            self.sweeps((count - 1) as nat, dt).lemma_sweep(self.width * self.height, dt);
        }
    }

    /// Projection keeps the shape of the flow, the cells and the tracer.
    pub proof fn lemma_projected(self, dt: T)
        requires
            self.wf(),
        ensures
            self.projected(dt).wf(),
            self.projected(dt).width == self.width,
            self.projected(dt).height == self.height,
            self.projected(dt).s == self.s,
            self.projected(dt).smoke == self.smoke,
    {
        let start = Flow { p: Field::constant(self.width, self.height, zero_spec::<T>()), ..self };
        start.lemma_sweeps(NUM_PROJ_ITERATIONS as nat, dt);
    }

    /// The state after the first `cells` cells, row after row, were relaxed
    /// in turn, each seeing what the ones before it left.
    pub open spec fn sweep(self, cells: nat, dt: T) -> Self
        decreases cells,
    {
        if cells == 0 {
            self
        } else {
            let k = cells - 1;
            self.sweep(k as nat, dt).relax(k % (self.width as int), k / (self.width as int), dt)
        }
    }

    /// The state after `count` full sweeps.
    pub open spec fn sweeps(self, count: nat, dt: T) -> Self
        decreases count,
    {
        if count == 0 {
            self
        } else {
            self.sweeps((count - 1) as nat, dt).sweep(self.width * self.height, dt)
        }
    }

    /// The state after pressure projection: pressure starts from zero, then
    /// the fixed number of sweeps runs.
    pub open spec fn projected(self, dt: T) -> Self {
        Flow { p: Field::constant(self.width, self.height, zero_spec::<T>()), ..self }.sweeps(
            NUM_PROJ_ITERATIONS as nat,
            dt,
        )
    }

    /// The state after gravity acted for `dt` on every open `v` face.
    pub open spec fn with_gravity(self, dt: T) -> Self {
        Flow {
            v: Field::tabulate(
                self.width,
                self.height + 1,
                |x: int, y: int|
                    if y < self.height && self.open_v(x, y) {
                        self.v.at(x, y).plus_spec(gravity_spec::<T>().times_spec(dt))
                    } else {
                        self.v.at(x, y)
                    },
            ),
            ..self
        }
    }

    /// Gravity keeps the shape of the flow, and changes the open `v` faces
    /// below the top row alone.
    pub proof fn lemma_with_gravity(self, dt: T)
        requires
            self.wf(),
        ensures
            self.with_gravity(dt).wf(),
            forall|x: int, y: int|
                self.v.has(x, y) ==> #[trigger] self.with_gravity(dt).v.at(x, y) == (if y
                    < self.height && self.open_v(x, y) {
                    self.v.at(x, y).plus_spec(gravity_spec::<T>().times_spec(dt))
                } else {
                    self.v.at(x, y)
                }),
    {
        assert forall|x: int, y: int| self.v.has(x, y) implies #[trigger] self.with_gravity(
            dt,
        ).v.at(x, y) == (if y < self.height && self.open_v(x, y) {
            self.v.at(x, y).plus_spec(gravity_spec::<T>().times_spec(dt))
        } else {
            self.v.at(x, y)
        }) by {
            lemma_cell_index(self.v.width, self.v.height, x, y);
        }
    }

    /// The x-velocity that advection leaves on the face `(i, j)`: on an open
    /// face off the pinned columns, the old x-velocity at the place from
    /// which the flow reaches the face within `dt`; elsewhere the old value.
    pub open spec fn advected_u_at(self, i: int, j: int, dt: T) -> T {
        if 1 <= i < self.width && self.open_u(i, j) {
            let x = coord::<T>(i).times_spec(cell_size_spec::<T>());
            let y = coord::<T>(j).times_spec(cell_size_spec::<T>()).plus_spec(
                half_spec::<T>().times_spec(cell_size_spec::<T>()),
            );
            self.sample_u(
                x.minus_spec(dt.times_spec(self.u.at(i, j))),
                y.minus_spec(dt.times_spec(self.avg_v(i, j))),
            )
        } else {
            self.u.at(i, j)
        }
    }

    /// The y-velocity that advection leaves on the face `(i, j)`.
    pub open spec fn advected_v_at(self, i: int, j: int, dt: T) -> T {
        if 1 <= j < self.height && self.open_v(i, j) {
            let x = coord::<T>(i).times_spec(cell_size_spec::<T>()).plus_spec(
                half_spec::<T>().times_spec(cell_size_spec::<T>()),
            );
            let y = coord::<T>(j).times_spec(cell_size_spec::<T>());
            self.sample_v(
                x.minus_spec(dt.times_spec(self.avg_u(i, j))),
                y.minus_spec(dt.times_spec(self.v.at(i, j))),
            )
        } else {
            self.v.at(i, j)
        }
    }

    /// The state after the velocity was carried along itself for `dt`. Every
    /// face is computed from the old state alone.
    pub open spec fn advected(self, dt: T) -> Self {
        Flow {
            u: Field::tabulate(
                self.width + 1,
                self.height,
                |i: int, j: int| self.advected_u_at(i, j, dt),
            ),
            v: Field::tabulate(
                self.width,
                self.height + 1,
                |i: int, j: int| self.advected_v_at(i, j, dt),
            ),
            ..self
        }
    }

    /// Advection keeps the shape of the flow, and leaves on every face what
    /// `advected_u_at` and `advected_v_at` say.
    pub proof fn lemma_advected(self, dt: T)
        requires
            self.wf(),
        ensures
            self.advected(dt).wf(),
            forall|i: int, j: int|
                self.u.has(i, j) ==> #[trigger] self.advected(dt).u.at(i, j)
                    == self.advected_u_at(i, j, dt),
            forall|i: int, j: int|
                self.v.has(i, j) ==> #[trigger] self.advected(dt).v.at(i, j)
                    == self.advected_v_at(i, j, dt),
    {
        assert forall|i: int, j: int| self.u.has(i, j) implies #[trigger] self.advected(dt).u.at(
            i,
            j,
        ) == self.advected_u_at(i, j, dt) by {
            lemma_cell_index(self.u.width, self.u.height, i, j);
        }
        assert forall|i: int, j: int| self.v.has(i, j) implies #[trigger] self.advected(dt).v.at(
            i,
            j,
        ) == self.advected_v_at(i, j, dt) by {
            lemma_cell_index(self.v.width, self.v.height, i, j);
        }
    }

    /// The velocity along x at the centre of the cell `(i, j)`.
    pub open spec fn center_u(self, i: int, j: int) -> T {
        half_spec::<T>().times_spec(self.u.at(i, j).plus_spec(self.u.at(i + 1, j)))
    }

    /// The velocity along y at the centre of the cell `(i, j)`.
    pub open spec fn center_v(self, i: int, j: int) -> T {
        half_spec::<T>().times_spec(self.v.at(i, j).plus_spec(self.v.at(i, j + 1)))
    }

    /// Whether the cell `(i, j)` lies off the outermost ring of cells.
    pub open spec fn interior(self, i: int, j: int) -> bool {
        1 <= i < self.width - 1 && 1 <= j < self.height - 1
    }

    /// The tracer that advection leaves in the cell `(i, j)`: in a fluid
    /// cell off the outermost ring, the old tracer at the place from which
    /// the flow reaches the cell's centre within `dt`; elsewhere the old
    /// value.
    pub open spec fn advected_smoke_at(self, i: int, j: int, dt: T) -> T {
        if self.interior(i, j) && self.s.at(i, j) == Cell::Fluid {
            let x = coord::<T>(i).times_spec(cell_size_spec::<T>()).plus_spec(
                half_spec::<T>().times_spec(cell_size_spec::<T>()),
            ).minus_spec(dt.times_spec(self.center_u(i, j)));
            let y = coord::<T>(j).times_spec(cell_size_spec::<T>()).plus_spec(
                half_spec::<T>().times_spec(cell_size_spec::<T>()),
            ).minus_spec(dt.times_spec(self.center_v(i, j)));
            self.sample_smoke(x, y)
        } else {
            self.smoke.at(i, j)
        }
    }

    /// The state after the tracer was carried along the velocity for `dt`.
    pub open spec fn smoke_advected(self, dt: T) -> Self {
        Flow {
            smoke: Field::tabulate(
                self.width,
                self.height,
                |i: int, j: int| self.advected_smoke_at(i, j, dt),
            ),
            ..self
        }
    }

    /// Advection of the tracer keeps the shape of the flow, and leaves in
    /// every cell what `advected_smoke_at` says.
    pub proof fn lemma_smoke_advected(self, dt: T)
        requires
            self.wf(),
        ensures
            self.smoke_advected(dt).wf(),
            forall|i: int, j: int|
                self.smoke.has(i, j) ==> #[trigger] self.smoke_advected(dt).smoke.at(i, j)
                    == self.advected_smoke_at(i, j, dt),
    {
        assert forall|i: int, j: int| self.smoke.has(i, j) implies #[trigger] self.smoke_advected(
            dt,
        ).smoke.at(i, j) == self.advected_smoke_at(i, j, dt) by {
            lemma_cell_index(self.smoke.width, self.smoke.height, i, j);
        }
    }

    /// The state one step later, but for the tracer, which is still the
    /// old one: gravity where it is switched on, then projection, then
    /// advection of the velocity.
    pub open spec fn velocity_stepped(self) -> Self {
        let dt = timestep_spec::<T>();
        let pulled = if WITH_GRAVITY {
            self.with_gravity(dt)
        } else {
            self
        };
        pulled.projected(dt).advected(dt)
    }

    /// The state one step later.
    pub open spec fn stepped(self) -> Self {
        self.velocity_stepped().smoke_advected(timestep_spec::<T>())
    }

    /// The velocity's part of a step keeps the shape of the flow, the cells
    /// and the tracer.
    pub proof fn lemma_velocity_stepped(self)
        requires
            self.wf(),
        ensures
            self.velocity_stepped().wf(),
            self.velocity_stepped().width == self.width,
            self.velocity_stepped().height == self.height,
            self.velocity_stepped().s == self.s,
            self.velocity_stepped().smoke == self.smoke,
    {
        let dt = timestep_spec::<T>();
        let pulled = if WITH_GRAVITY {
            self.with_gravity(dt)
        } else {
            self
        };
        if WITH_GRAVITY {
            self.lemma_with_gravity(dt);
        }
        pulled.lemma_projected(dt);
        pulled.projected(dt).lemma_advected(dt);
    }

    /// A step keeps the shape of the flow and the cells.
    pub proof fn lemma_stepped(self)
        requires
            self.wf(),
        ensures
            self.stepped().wf(),
            self.stepped().width == self.width,
            self.stepped().height == self.height,
            self.stepped().s == self.s,
    {
        self.lemma_velocity_stepped();
        self.velocity_stepped().lemma_smoke_advected(timestep_spec::<T>());
    }

    /// The speed at the centre of the cell `(i, j)`.
    pub open spec fn speed_at(self, i: int, j: int) -> T {
        let u = self.center_u(i, j);
        let v = self.center_v(i, j);
        u.times_spec(u).plus_spec(v.times_spec(v)).sqrt_spec()
    }

    /// The speed at every cell centre.
    pub open spec fn speed(self) -> Field<T> {
        Field::tabulate(self.width, self.height, |i: int, j: int| self.speed_at(i, j))
    }

    /// The state after a solid disc of `radius` around `(cx, cy)` was drawn:
    /// cells in the disc are solid, without pressure and tracer; faces within
    /// `radius` plus one are still.
    pub open spec fn stamped(self, cx: i32, cy: i32, radius: T) -> Self {
        let wider = radius.plus_spec(one_spec::<T>());
        Flow {
            width: self.width,
            height: self.height,
            u: self.u.stamped(cx, cy, wider, zero_spec::<T>()),
            v: self.v.stamped(cx, cy, wider, zero_spec::<T>()),
            s: self.s.stamped(cx, cy, radius, Cell::Solid),
            p: self.p.stamped(cx, cy, radius, zero_spec::<T>()),
            smoke: self.smoke.stamped(cx, cy, radius, zero_spec::<T>()),
        }
    }

    /// Drawing an obstacle keeps the shape of the flow.
    pub proof fn lemma_stamped_wf(self, cx: i32, cy: i32, radius: T)
        requires
            self.wf(),
        ensures
            self.stamped(cx, cy, radius).wf(),
    {
        let wider = radius.plus_spec(one_spec::<T>());
        lemma_stamped(self.u, cx, cy, wider, zero_spec::<T>());
        lemma_stamped(self.v, cx, cy, wider, zero_spec::<T>());
        lemma_stamped(self.s, cx, cy, radius, Cell::Solid);
        lemma_stamped(self.p, cx, cy, radius, zero_spec::<T>());
        lemma_stamped(self.smoke, cx, cy, radius, zero_spec::<T>());
    }

    /// The x-velocity of a fresh simulation: the wind speed on the leftmost
    /// and the rightmost faces, zero between them.
    pub open spec fn fresh_u(width: nat, height: nat) -> Field<T> {
        Field::tabulate(
            width + 1,
            height,
            |x: int, y: int|
                if x == 0 || x == width {
                    windspeed_spec::<T>()
                } else {
                    zero_spec::<T>()
                },
        )
    }

    /// The tracer of a fresh simulation: one in the bands of the first
    /// column, zero elsewhere.
    pub open spec fn fresh_smoke(width: nat, height: nat) -> Field<T> {
        Field::tabulate(
            width,
            height,
            |x: int, y: int|
                if x == 0 && in_bands(height, y, NUM_BANDS as nat) {
                    one_spec::<T>()
                } else {
                    zero_spec::<T>()
                },
        )
    }

    /// The cells of a fresh simulation: all fluid, but for the demonstration
    /// obstacle where that is switched on.
    pub open spec fn fresh_s(width: nat, height: nat) -> Field<Cell> {
        let open = Field::constant(width, height, Cell::Fluid);
        if DRAW_OBSTACLE {
            open.stamped(
                demo_center(width / 3),
                demo_center(height / 2),
                coord::<T>(width as int).over_spec(T::ratio_spec(7, 1)),
                Cell::Solid,
            )
        } else {
            open
        }
    }

    /// The state of a fresh simulation of `width` by `height` cells.
    pub open spec fn fresh(width: nat, height: nat) -> Self {
        Flow {
            width,
            height,
            u: Self::fresh_u(width, height),
            v: Field::constant(width, height + 1, zero_spec::<T>()),
            s: Self::fresh_s(width, height),
            p: Field::constant(width, height, zero_spec::<T>()),
            smoke: Self::fresh_smoke(width, height),
        }
    }
}

/// A cell index as a signed coordinate, cut at the largest one.
pub open spec fn demo_center(n: nat) -> i32 {
    if n > i32::MAX {
        i32::MAX
    } else {
        n as i32
    }
}

} // verus!
