//! What holds of sampling and of transport, whatever the field.
//!
//! The first law holds of every scalar. The others need arithmetic that can
//! be reasoned about, and are proved of the fixed-point scalar, as long as
//! the domain is small enough for every coordinate in it to be represented.

use crate::fixed::{Fixed, SCALE};
use crate::flow::{axis_cell, axis_clamp, axis_frac, axis_next, blend, coord, sample, Cell, Flow};
use crate::grid::{lemma_same, lemma_stamped, Field};
use crate::params::{cell_size_spec, half_cell_spec, timestep_spec};
use crate::scalar::{lemma_clamp_idempotent, one_spec, zero_spec, Scalar};
use vstd::arithmetic::div_mod::{lemma_fundamental_div_mod, lemma_mod_pos_bound};
use vstd::prelude::*;

verus! {

/// Sampling at a position, however far outside the domain, gives what
/// sampling gives at that position moved to the nearest one inside the
/// sampled part of the domain.
pub proof fn lemma_sample_clamped<T: Scalar>(
    field: Field<T>,
    width: nat,
    height: nat,
    dx: T,
    dy: T,
    x: T,
    y: T,
)
    ensures
        sample(field, width, height, dx, dy, x, y) == sample(
            field,
            width,
            height,
            dx,
            dy,
            axis_clamp(x, width),
            axis_clamp(y, height),
        ),
{
    let h = cell_size_spec::<T>();
    lemma_clamp_idempotent(x, h, coord::<T>(width as int).times_spec(h));
    lemma_clamp_idempotent(y, h, coord::<T>(height as int).times_spec(h));
}

/// The position of the stored sample `i` on an axis whose samples are
/// shifted by `off`.
pub open spec fn stored_coord(i: int, off: Fixed) -> Fixed {
    coord::<Fixed>(i).times_spec(cell_size_spec::<Fixed>()).plus_spec(off)
}

/// On one axis: at the position of the stored sample `i` the lower sample
/// is `i` itself, and the weight of the next one is zero.
pub proof fn lemma_axis_round_trip(n: nat, off: Fixed, i: int)
    requires
        n * SCALE <= i64::MAX,
        0 <= off.raw <= cell_size_spec::<Fixed>().raw,
        1 <= i < n,
    ensures
        axis_clamp(stored_coord(i, off), n) == stored_coord(i, off),
        axis_cell(stored_coord(i, off), off, n) == i,
        axis_frac(stored_coord(i, off), off, i) == (Fixed { raw: 0 }),
{
    let h = cell_size_spec::<Fixed>();
    assert(h.raw == 400_000_000_000);
    let c = stored_coord(i, off);
    assert(coord::<Fixed>(i).raw == i * SCALE);
    assert(coord::<Fixed>(i).times_spec(h).raw == i * 400_000_000_000);
    assert(c.raw == i * 400_000_000_000 + off.raw);
    assert(coord::<Fixed>(n as int).times_spec(h).raw == n * 400_000_000_000);
    assert(c.minus_spec(off).raw == i * 400_000_000_000);
    assert(c.minus_spec(off).over_spec(h).raw == i * SCALE) by {
        assert((i * 400_000_000_000 * 1_000_000_000_000) / 400_000_000_000 == i
            * 1_000_000_000_000);
    }
    assert(c.minus_spec(off).minus_spec(coord::<Fixed>(i).times_spec(h)).raw == 0);
}

/// Sampling a field at the position of one of its stored samples gives that
/// sample: the weights of the three others are zero. This holds of every
/// sample off the first row and column, the positions of which lie before
/// the sampled part of the domain.
pub proof fn lemma_sample_round_trip(
    field: Field<Fixed>,
    width: nat,
    height: nat,
    dx: Fixed,
    dy: Fixed,
    i: int,
    j: int,
)
    requires
        width * SCALE <= i64::MAX,
        height * SCALE <= i64::MAX,
        0 <= dx.raw <= cell_size_spec::<Fixed>().raw,
        0 <= dy.raw <= cell_size_spec::<Fixed>().raw,
        1 <= i < width,
        1 <= j < height,
    ensures
        sample(field, width, height, dx, dy, stored_coord(i, dx), stored_coord(j, dy))
            == field.at(i, j),
{
    lemma_axis_round_trip(width, dx, i);
    lemma_axis_round_trip(height, dy, j);
    let f00 = field.at(i, j);
    let f10 = field.at(axis_next(i, width), j);
    let f11 = field.at(axis_next(i, width), axis_next(j, height));
    let f01 = field.at(i, axis_next(j, height));
    let zero = Fixed { raw: 0 };
    assert(one_spec::<Fixed>().raw == SCALE);
    assert(one_spec::<Fixed>().minus_spec(zero).raw == SCALE);
    let one = one_spec::<Fixed>();
    assert(one.times_spec(one) == one);
    assert(one.times_spec(f00) == f00) by {
        assert((1_000_000_000_000 * f00.raw) / 1_000_000_000_000 == f00.raw);
    }
    assert(zero.times_spec(one) == zero);
    assert(zero.times_spec(zero) == zero);
    assert(one.times_spec(zero) == zero);
    assert(zero.times_spec(f10) == zero);
    assert(zero.times_spec(f11) == zero);
    assert(zero.times_spec(f01) == zero);
    assert(blend(f00, f10, f11, f01, zero, zero) == f00);
}

/// In a flow, sampling a field at the position of one of its stored samples
/// gives that sample, for every sample off the first row and column.
pub proof fn lemma_flow_round_trip(flow: Flow<Fixed>, i: int, j: int)
    requires
        flow.width * SCALE <= i64::MAX,
        flow.height * SCALE <= i64::MAX,
        1 <= i < flow.width,
        1 <= j < flow.height,
    ensures
        flow.sample_u(
            stored_coord(i, zero_spec::<Fixed>()),
            stored_coord(j, half_cell_spec::<Fixed>()),
        ) == flow.u.at(i, j),
        flow.sample_v(
            stored_coord(i, half_cell_spec::<Fixed>()),
            stored_coord(j, zero_spec::<Fixed>()),
        ) == flow.v.at(i, j),
        flow.sample_smoke(
            stored_coord(i, half_cell_spec::<Fixed>()),
            stored_coord(j, half_cell_spec::<Fixed>()),
        ) == flow.smoke.at(i, j),
{
    let zero = zero_spec::<Fixed>();
    let half = half_cell_spec::<Fixed>();
    lemma_offsets();
    lemma_sample_round_trip(flow.u, flow.width, flow.height, zero, half, i, j);
    lemma_sample_round_trip(flow.v, flow.width, flow.height, half, zero, i, j);
    lemma_sample_round_trip(flow.smoke, flow.width, flow.height, half, half, i, j);
}

/// The shifts of the three fields, in raw units.
proof fn lemma_offsets()
    ensures
        zero_spec::<Fixed>().raw == 0,
        cell_size_spec::<Fixed>().raw == 400_000_000_000,
        half_cell_spec::<Fixed>().raw == 200_000_000_000,
{
    assert(cell_size_spec::<Fixed>().raw == 400_000_000_000);
    assert(Fixed::ratio_spec(2, 1).raw == 2_000_000_000_000);
    assert((400_000_000_000 * 1_000_000_000_000) / 2_000_000_000_000 == 200_000_000_000int);
}

/// The product of two numbers that are not negative, in raw units: it is
/// not negative, and rounding took nothing but a fraction of a unit away.
proof fn lemma_product(a: Fixed, b: Fixed)
    requires
        0 <= a.raw <= SCALE,
        0 <= b.raw,
    ensures
        0 <= a.times_spec(b).raw <= b.raw,
        a.times_spec(b).raw == (a.raw * b.raw) / (SCALE as int),
        SCALE * a.times_spec(b).raw <= a.raw * b.raw,
{
    let x = a.raw * b.raw;
    let s = SCALE as int;
    assert(0 <= x <= s * b.raw) by (nonlinear_arith)
        requires
            x == a.raw * b.raw,
            0 <= a.raw <= s,
            0 <= b.raw,
    ;
    lemma_fundamental_div_mod(x, s);
    lemma_mod_pos_bound(x, s);
}

/// A bilinear blend with weights between zero and one, of samples between
/// zero and `bound`, lies between zero and `bound`.
pub proof fn lemma_blend_bounded(
    f00: Fixed,
    f10: Fixed,
    f11: Fixed,
    f01: Fixed,
    tx: Fixed,
    ty: Fixed,
    bound: Fixed,
)
    requires
        0 <= tx.raw <= SCALE,
        0 <= ty.raw <= SCALE,
        0 <= f00.raw <= bound.raw,
        0 <= f10.raw <= bound.raw,
        0 <= f11.raw <= bound.raw,
        0 <= f01.raw <= bound.raw,
    ensures
        0 <= blend(f00, f10, f11, f01, tx, ty).raw <= bound.raw,
{
    let s = SCALE as int;
    let m = bound.raw as int;
    let sx = one_spec::<Fixed>().minus_spec(tx);
    let sy = one_spec::<Fixed>().minus_spec(ty);
    assert(sx.raw == s - tx.raw);
    assert(sy.raw == s - ty.raw);
    let w00 = sx.times_spec(sy);
    let w10 = tx.times_spec(sy);
    let w11 = tx.times_spec(ty);
    let w01 = sx.times_spec(ty);
    lemma_product(sx, sy);
    lemma_product(tx, sy);
    lemma_product(tx, ty);
    lemma_product(sx, ty);
    assert(sx.raw * sy.raw + tx.raw * sy.raw + tx.raw * ty.raw + sx.raw * ty.raw == s * s)
        by (nonlinear_arith)
        requires
            sx.raw == s - tx.raw,
            sy.raw == s - ty.raw,
    ;
    let total = w00.raw + w10.raw + w11.raw + w01.raw;
    assert(total <= s);
    let t00 = w00.times_spec(f00);
    let t10 = w10.times_spec(f10);
    let t11 = w11.times_spec(f11);
    let t01 = w01.times_spec(f01);
    lemma_product(w00, f00);
    lemma_product(w10, f10);
    lemma_product(w11, f11);
    lemma_product(w01, f01);
    assert(w00.raw * f00.raw <= w00.raw * m) by (nonlinear_arith)
        requires
            0 <= w00.raw,
            f00.raw <= m,
    ;
    assert(w10.raw * f10.raw <= w10.raw * m) by (nonlinear_arith)
        requires
            0 <= w10.raw,
            f10.raw <= m,
    ;
    assert(w11.raw * f11.raw <= w11.raw * m) by (nonlinear_arith)
        requires
            0 <= w11.raw,
            f11.raw <= m,
    ;
    assert(w01.raw * f01.raw <= w01.raw * m) by (nonlinear_arith)
        requires
            0 <= w01.raw,
            f01.raw <= m,
    ;
    assert(w00.raw * m + w10.raw * m + w11.raw * m + w01.raw * m == total * m)
        by (nonlinear_arith)
        requires
            total == w00.raw + w10.raw + w11.raw + w01.raw,
    ;
    assert(total * m <= s * m) by (nonlinear_arith)
        requires
            total <= s,
            0 <= m,
    ;
    let sum = t00.raw + t10.raw + t11.raw + t01.raw;
    assert(s * sum <= s * m);
    assert(sum <= m);
    assert(t00.plus_spec(t10).raw == t00.raw + t10.raw);
    assert(t00.plus_spec(t10).plus_spec(t11).raw == t00.raw + t10.raw + t11.raw);
}

/// On one axis of a domain small enough, whatever the coordinate: the two
/// samples that interpolation reads exist, and the weight of the second
/// lies between zero and one.
pub proof fn lemma_axis_weights(c_in: Fixed, off: Fixed, n: nat)
    requires
        1 <= n,
        n * SCALE <= i64::MAX,
        0 <= off.raw <= cell_size_spec::<Fixed>().raw,
    ensures
        0 <= axis_cell(axis_clamp(c_in, n), off, n) < n,
        0 <= axis_next(axis_cell(axis_clamp(c_in, n), off, n), n) < n,
        0 <= axis_frac(
            axis_clamp(c_in, n),
            off,
            axis_cell(axis_clamp(c_in, n), off, n),
        ).raw <= SCALE,
{
    let h = cell_size_spec::<Fixed>();
    assert(h.raw == 400_000_000_000);
    let hi = coord::<Fixed>(n as int).times_spec(h);
    assert(coord::<Fixed>(n as int).raw == n * SCALE);
    assert(hi.raw == n * 400_000_000_000);
    let c = axis_clamp(c_in, n);
    assert(h.raw <= c.raw <= hi.raw);
    let a = c.minus_spec(off);
    assert(a.raw == c.raw - off.raw);
    assert(0 <= a.raw <= n * 400_000_000_000);
    let q = a.over_spec(h);
    let exact = (a.raw * 1_000_000_000_000) / 400_000_000_000;
    assert(0 <= exact <= n * 1_000_000_000_000);
    assert(q.raw == exact);
    let first = q.floor_index_spec() as int;
    assert(first == exact / 1_000_000_000_000);
    assert(0 <= first <= n);
    let i0 = axis_cell(c, off, n);
    assert(i0 == if first < n - 1 {
        first
    } else {
        n - 1
    });
    assert(coord::<Fixed>(i0).raw == i0 * SCALE);
    let base = coord::<Fixed>(i0).times_spec(h);
    assert(base.raw == i0 * 400_000_000_000);
    assert(i0 * 400_000_000_000 <= a.raw);
    assert(a.raw - i0 * 400_000_000_000 <= 400_000_000_000);
    let rest = a.minus_spec(base);
    assert(rest.raw == a.raw - i0 * 400_000_000_000);
    let frac = rest.over_spec(h);
    assert(frac.raw == (rest.raw * 1_000_000_000_000) / 400_000_000_000);
}

/// Interpolation in a field whose samples lie between zero and `bound`
/// gives a value between zero and `bound`, wherever the field is sampled.
pub proof fn lemma_sample_bounded(
    field: Field<Fixed>,
    width: nat,
    height: nat,
    dx: Fixed,
    dy: Fixed,
    x: Fixed,
    y: Fixed,
    bound: Fixed,
)
    requires
        field.wf(),
        1 <= width <= field.width,
        1 <= height <= field.height,
        width * SCALE <= i64::MAX,
        height * SCALE <= i64::MAX,
        0 <= dx.raw <= cell_size_spec::<Fixed>().raw,
        0 <= dy.raw <= cell_size_spec::<Fixed>().raw,
        forall|i: int, j: int| field.has(i, j) ==> 0 <= (#[trigger] field.at(i, j)).raw <= bound.raw,
    ensures
        0 <= sample(field, width, height, dx, dy, x, y).raw <= bound.raw,
{
    lemma_axis_weights(x, dx, width);
    lemma_axis_weights(y, dy, height);
    let cx = axis_clamp(x, width);
    let cy = axis_clamp(y, height);
    let x0 = axis_cell(cx, dx, width);
    let x1 = axis_next(x0, width);
    let y0 = axis_cell(cy, dy, height);
    let y1 = axis_next(y0, height);
    assert(field.has(x0, y0) && field.has(x1, y0) && field.has(x1, y1) && field.has(x0, y1));
    lemma_blend_bounded(
        field.at(x0, y0),
        field.at(x1, y0),
        field.at(x1, y1),
        field.at(x0, y1),
        axis_frac(cx, dx, x0),
        axis_frac(cy, dy, y0),
        bound,
    );
}

/// Transport makes no tracer: where the tracer lies between zero and
/// `bound` in every cell, it does so after advection, whatever the velocity
/// and the length of the step.
pub proof fn lemma_tracer_bounded(flow: Flow<Fixed>, dt: Fixed, bound: Fixed)
    requires
        flow.wf(),
        flow.width * SCALE <= i64::MAX,
        flow.height * SCALE <= i64::MAX,
        forall|i: int, j: int|
            flow.smoke.has(i, j) ==> 0 <= (#[trigger] flow.smoke.at(i, j)).raw <= bound.raw,
    ensures
        flow.smoke_advected(dt).wf(),
        forall|i: int, j: int|
            flow.smoke.has(i, j) ==> 0 <= (#[trigger] flow.smoke_advected(dt).smoke.at(
                i,
                j,
            )).raw <= bound.raw,
{
    flow.lemma_smoke_advected(dt);
    lemma_offsets();
    let half = half_cell_spec::<Fixed>();
    assert forall|i: int, j: int| flow.smoke.has(i, j) implies 0 <= (
    #[trigger] flow.smoke_advected(dt).smoke.at(i, j)).raw <= bound.raw by {
        if flow.interior(i, j) && flow.s.at(i, j) == Cell::Fluid {
            let h = cell_size_spec::<Fixed>();
            let hh = crate::params::half_spec::<Fixed>().times_spec(h);
            let x = coord::<Fixed>(i).times_spec(h).plus_spec(hh).minus_spec(
                dt.times_spec(flow.center_u(i, j)),
            );
            let y = coord::<Fixed>(j).times_spec(h).plus_spec(hh).minus_spec(
                dt.times_spec(flow.center_v(i, j)),
            );
            lemma_sample_bounded(flow.smoke, flow.width, flow.height, half, half, x, y, bound);
        }
    }
}

/// A step makes no tracer: where the tracer lies between zero and `bound`
/// in every cell, it does so one step later.
pub proof fn lemma_step_tracer_bounded(flow: Flow<Fixed>, bound: Fixed)
    requires
        flow.wf(),
        flow.width * SCALE <= i64::MAX,
        flow.height * SCALE <= i64::MAX,
        forall|i: int, j: int|
            flow.smoke.has(i, j) ==> 0 <= (#[trigger] flow.smoke.at(i, j)).raw <= bound.raw,
    ensures
        flow.stepped().wf(),
        forall|i: int, j: int|
            flow.smoke.has(i, j) ==> 0 <= (#[trigger] flow.stepped().smoke.at(i, j)).raw
                <= bound.raw,
{
    flow.lemma_velocity_stepped();
    lemma_tracer_bounded(flow.velocity_stepped(), timestep_spec::<Fixed>(), bound);
}

/// Advection of the velocity leaves the pinned faces alone: the leftmost
/// and rightmost columns of `u`, the lowest and highest rows of `v`, and
/// every face that touches a solid cell.
pub proof fn lemma_advection_keeps_pinned_faces<T: Scalar>(flow: Flow<T>, dt: T)
    requires
        flow.wf(),
    ensures
        forall|i: int, j: int|
            flow.u.has(i, j) && (i == 0 || i == flow.width || !flow.open_u(i, j))
                ==> #[trigger] flow.advected(dt).u.at(i, j) == flow.u.at(i, j),
        forall|i: int, j: int|
            flow.v.has(i, j) && (j == 0 || j == flow.height || !flow.open_v(i, j))
                ==> #[trigger] flow.advected(dt).v.at(i, j) == flow.v.at(i, j),
{
    flow.lemma_advected(dt);
}

/// Stamping a disc into a field twice is stamping it once.
pub proof fn lemma_stamp_twice<T, R: Scalar>(
    field: Field<T>,
    cx: i32,
    cy: i32,
    radius: R,
    value: T,
)
    requires
        field.wf(),
    ensures
        field.stamped(cx, cy, radius, value).stamped(cx, cy, radius, value) == field.stamped(
            cx,
            cy,
            radius,
            value,
        ),
{
    let once = field.stamped(cx, cy, radius, value);
    lemma_stamped(field, cx, cy, radius, value);
    lemma_stamped(once, cx, cy, radius, value);
    lemma_same(once.stamped(cx, cy, radius, value), once);
}

/// Drawing the same obstacle again changes nothing.
pub proof fn lemma_obstacle_twice<T: Scalar>(flow: Flow<T>, cx: i32, cy: i32, radius: T)
    requires
        flow.wf(),
    ensures
        flow.stamped(cx, cy, radius).stamped(cx, cy, radius) == flow.stamped(cx, cy, radius),
{
    let wider = radius.plus_spec(one_spec::<T>());
    lemma_stamp_twice(flow.u, cx, cy, wider, zero_spec::<T>());
    lemma_stamp_twice(flow.v, cx, cy, wider, zero_spec::<T>());
    lemma_stamp_twice(flow.s, cx, cy, radius, Cell::Solid);
    lemma_stamp_twice(flow.p, cx, cy, radius, zero_spec::<T>());
    lemma_stamp_twice(flow.smoke, cx, cy, radius, zero_spec::<T>());
}

/// Projection carries no pressure over: what the pressure was before does
/// not enter the result.
pub proof fn lemma_projection_forgets_pressure<T: Scalar>(flow: Flow<T>, pressure: Field<T>, dt: T)
    ensures
        (Flow { p: pressure, ..flow }).projected(dt) == flow.projected(dt),
{
}

} // verus!
