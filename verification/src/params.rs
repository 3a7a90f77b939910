//! The solver's fixed parameters.

use crate::scalar::Scalar;
use vstd::prelude::*;

verus! {

/// Whether a fresh simulation holds a demonstration obstacle.
pub const DRAW_OBSTACLE: bool = false;

/// Whether a step begins by applying gravity.
pub const WITH_GRAVITY: bool = false;

/// Gauss-Seidel sweeps per pressure projection.
pub const NUM_PROJ_ITERATIONS: u32 = 100;

/// Half-width, in rows, of a tracer band.
pub const BAND_WIDTH: usize = 5;

/// Number of tracer bands seeded at the left edge.
pub const NUM_BANDS: usize = 9;

/// The over-relaxation factor of the projection, 1.94.
pub open spec fn overrelaxation_spec<T: Scalar>() -> T {
    T::ratio_spec(194, 100)
}

/// The downward acceleration, 7.2.
pub open spec fn gravity_spec<T: Scalar>() -> T {
    T::ratio_spec(72, 10)
}

/// The fluid's density, 10.
pub open spec fn density_spec<T: Scalar>() -> T {
    T::ratio_spec(10, 1)
}

/// The speed pinned on the leftmost and rightmost faces, 10.
pub open spec fn windspeed_spec<T: Scalar>() -> T {
    T::ratio_spec(10, 1)
}

/// The length of one step in time, 0.22.
pub open spec fn timestep_spec<T: Scalar>() -> T {
    T::ratio_spec(22, 100)
}

/// The side of a cell, 0.4.
pub open spec fn cell_size_spec<T: Scalar>() -> T {
    T::ratio_spec(4, 10)
}

/// Half the side of a cell.
pub open spec fn half_cell_spec<T: Scalar>() -> T {
    cell_size_spec::<T>().over_spec(T::ratio_spec(2, 1))
}

/// One half.
pub open spec fn half_spec<T: Scalar>() -> T {
    T::ratio_spec(5, 10)
}

/// One quarter.
pub open spec fn quarter_spec<T: Scalar>() -> T {
    T::ratio_spec(25, 100)
}

pub fn overrelaxation<T: Scalar>() -> (r: T)
    ensures
        r == overrelaxation_spec::<T>(),
{
    T::ratio(194, 100)
}

pub fn gravity<T: Scalar>() -> (r: T)
    ensures
        r == gravity_spec::<T>(),
{
    T::ratio(72, 10)
}

pub fn density<T: Scalar>() -> (r: T)
    ensures
        r == density_spec::<T>(),
{
    T::ratio(10, 1)
}

pub fn windspeed<T: Scalar>() -> (r: T)
    ensures
        r == windspeed_spec::<T>(),
{
    T::ratio(10, 1)
}

pub fn timestep<T: Scalar>() -> (r: T)
    ensures
        r == timestep_spec::<T>(),
{
    T::ratio(22, 100)
}

pub fn cell_size<T: Scalar>() -> (r: T)
    ensures
        r == cell_size_spec::<T>(),
{
    T::ratio(4, 10)
}

pub fn half_cell<T: Scalar>() -> (r: T)
    ensures
        r == half_cell_spec::<T>(),
{
    cell_size::<T>().over(&T::ratio(2, 1))
}

pub fn half<T: Scalar>() -> (r: T)
    ensures
        r == half_spec::<T>(),
{
    T::ratio(5, 10)
}

pub fn quarter<T: Scalar>() -> (r: T)
    ensures
        r == quarter_spec::<T>(),
{
    T::ratio(25, 100)
}

} // verus!
