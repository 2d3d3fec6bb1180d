//! The projectile step: the one piece of simulation logic, a pure
//! function from the current position and velocity to the next.  The
//! surrounding loop — frame pacing, event polling, drawing — lives
//! outside the library and calls `tick` once per frame.

use vstd::prelude::*;

verus! {

use vstd::math::abs;
use crate::tuple::Tuple;
use crate::tuple::TupleModel;
use crate::tuple::add_model;
use crate::tuple::vector_model;

/// The height, in raw units, below which a falling projectile has left
/// the visible field and its vertical velocity is flipped upward.
pub const FLOOR_Y: i64 = -600_000_000;

/// A moving body: where it is and where it is headed.
pub struct Projectile {
    pub position: Tuple,
    pub velocity: Tuple,
}

/// The constant influences a projectile moves under.
pub struct Environment {
    pub gravity: Tuple,
    pub wind: Tuple,
}

/// The velocity a step works with: flipped upward, with the sideways
/// speed kept and the w cleared, once the position has fallen past the
/// floor; unchanged otherwise.
pub open spec fn bounce_model(p: TupleModel, v: TupleModel) -> TupleModel {
    if p.y < FLOOR_Y as int {
        vector_model(v.x, -v.y, 0)
    } else {
        v
    }
}

/// One simulation step: bounce if fallen past the floor, then advance
/// the position by the velocity, then bend the velocity by gravity
/// and wind.
pub fn tick(env: &Environment, projectile: &mut Projectile)
    requires
        abs(old(projectile).position@.x) + abs(old(projectile).velocity@.x) <= i64::MAX,
        abs(old(projectile).position@.y) + abs(old(projectile).velocity@.y) <= i64::MAX,
        abs(old(projectile).position@.z) + abs(old(projectile).velocity@.z) <= i64::MAX,
        abs(old(projectile).position@.w) + abs(old(projectile).velocity@.w) <= i64::MAX,
        abs(old(projectile).velocity@.x) + abs(env.gravity@.x) + abs(env.wind@.x) <= i64::MAX,
        abs(old(projectile).velocity@.y) + abs(env.gravity@.y) + abs(env.wind@.y) <= i64::MAX,
        abs(old(projectile).velocity@.z) + abs(env.gravity@.z) + abs(env.wind@.z) <= i64::MAX,
        abs(old(projectile).velocity@.w) + abs(env.gravity@.w) + abs(env.wind@.w) <= i64::MAX,
    ensures
        final(projectile).position@ == add_model(
            old(projectile).position@,
            bounce_model(old(projectile).position@, old(projectile).velocity@),
        ),
        final(projectile).velocity@ == add_model(
            add_model(
                bounce_model(old(projectile).position@, old(projectile).velocity@),
                env.gravity@,
            ),
            env.wind@,
        ),
{
    if projectile.position.y < FLOOR_Y {
        projectile.velocity = Tuple::new_vector(projectile.velocity.x, -projectile.velocity.y, 0);
    }
    projectile.position = projectile.position.add(&projectile.velocity);
    projectile.velocity = projectile.velocity.add(&env.gravity).add(&env.wind);
}

} // verus!
