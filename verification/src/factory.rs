//! The entity factory: fresh meteors with random shape, random direction,
//! and a random position reduced into the playfield.
use vstd::prelude::*;
use crate::Bounds;
use crate::meteor::{Meteor, Path, Shape};

verus! {

/// Relies on rand::random::<i32>: any `i32` may come back, and nothing
/// more is promised of it.
#[verifier::external_body]
fn random_i32() -> i32 {
    rand::random()
}

/// Relies on rand::random_range: a value drawn from the given range, here
/// `0..n`, which is never empty because `n` is positive.
#[verifier::external_body]
fn random_below(n: i32) -> (r: i32)
    requires
        0 < n,
    ensures
        0 <= r < n,
{
    rand::random_range(0..n)
}

/// Floor modulo: the remainder of `a` by `m` shifted into `[0, m)`, also
/// for negative `a`.
pub fn floor_mod(a: i32, m: i32) -> (r: i32)
    requires
        0 < m,
    ensures
        r == a as int % m as int,
{
    a.checked_rem_euclid(m).unwrap()
}

/// The shape a drawn index stands for: indices beyond the named ones fall
/// to the last variant.
pub open spec fn shape_of_index(i: int) -> Shape {
    if i == 0 {
        Shape::Dot
    } else if i == 1 {
        Shape::Cross
    } else {
        Shape::X
    }
}

/// The direction a drawn index stands for.
pub open spec fn path_of_index(i: int) -> Path {
    if i == 0 {
        Path::Up
    } else if i == 1 {
        Path::Down
    } else if i == 2 {
        Path::Left
    } else if i == 3 {
        Path::Right
    } else if i == 4 {
        Path::UpLeft
    } else if i == 5 {
        Path::UpRight
    } else if i == 6 {
        Path::DownLeft
    } else {
        Path::DownRight
    }
}

/// Map a uniformly drawn index to a shape.
pub fn shape_from_index(i: i32) -> (s: Shape)
    ensures
        s == shape_of_index(i as int),
{
    if i == 0 {
        Shape::Dot
    } else if i == 1 {
        Shape::Cross
    } else {
        Shape::X
    }
}

/// Map a uniformly drawn index to a direction.
pub fn path_from_index(i: i32) -> (p: Path)
    ensures
        p == path_of_index(i as int),
{
    if i == 0 {
        Path::Up
    } else if i == 1 {
        Path::Down
    } else if i == 2 {
        Path::Left
    } else if i == 3 {
        Path::Right
    } else if i == 4 {
        Path::UpLeft
    } else if i == 5 {
        Path::UpRight
    } else if i == 6 {
        Path::DownLeft
    } else {
        Path::DownRight
    }
}

/// Create a fresh entity: shape drawn from the three variants, direction
/// from the eight, and a random position reduced by floor modulo so that
/// it lands strictly inside the playfield.
pub fn create(bounds: Bounds) -> (m: Meteor)
    requires
        bounds.wf(),
    ensures
        m.in_bounds(bounds),
{
    let y = floor_mod(random_i32(), bounds.height);
    let x = floor_mod(random_i32(), bounds.width);
    let shape = shape_from_index(random_below(3));
    let path = path_from_index(random_below(8));
    Meteor { y, x, shape, path }
}

} // verus!
