//! A particle: a position and a velocity advanced once per tick, with the
//! speed held between a lower and an upper bound and the position wrapped
//! toroidally into the simulation box.

use vstd::prelude::*;

verus! {

use crate::fixed::{BOUND_LIMIT, EPSILON_MAG, FORCE_COMP_LIMIT, ONE};
use crate::real_vector::{RealVector, V2, spec_add, spec_bring_to_box, spec_limit};

/// A moving particle with its personal speed band.
#[derive(Clone, Copy, Debug, PartialEq, Eq, Structural)]
pub struct Particle {
    pub position: RealVector,
    pub velocity: RealVector,
    pub min_speed: i64,
    pub max_speed: i64,
}

/// The mathematical value of a particle.
pub struct ParticleV {
    pub position: V2,
    pub velocity: V2,
    pub min_speed: int,
    pub max_speed: int,
}

impl View for Particle {
    type V = ParticleV;

    open spec fn view(&self) -> ParticleV {
        ParticleV {
            position: self.position@,
            velocity: self.velocity@,
            min_speed: self.min_speed as int,
            max_speed: self.max_speed as int,
        }
    }
}

impl ParticleV {
    /// The largest magnitude a velocity component can carry: the speed
    /// ceiling, or the degenerate threshold when the ceiling sits below it.
    pub open spec fn speed_comp_bound(self) -> int {
        if self.max_speed >= EPSILON_MAG {
            self.max_speed
        } else {
            EPSILON_MAG as int
        }
    }

    /// The particle's invariant: an ordered speed band within the library's
    /// working range, a velocity inside the band's component bound, and a
    /// position inside the working range.
    pub open spec fn wf(self) -> bool {
        &&& 0 <= self.min_speed <= self.max_speed <= BOUND_LIMIT
        &&& self.velocity.within(self.speed_comp_bound())
        &&& self.position.in_range()
    }
}

/// A velocity after a force lands on it: the sum, re-clamped into the
/// particle's speed band.
pub open spec fn spec_apply_force(p: ParticleV, force: V2) -> ParticleV {
    ParticleV {
        velocity: spec_limit(spec_add(p.velocity, force), p.min_speed, p.max_speed),
        ..p
    }
}

/// A position after one step: the velocity added, the result wrapped into
/// the `width` by `height` box.
pub open spec fn spec_update(p: ParticleV, width: int, height: int) -> ParticleV {
    ParticleV {
        position: spec_bring_to_box(spec_add(p.position, p.velocity), width, height),
        ..p
    }
}

impl Particle {
    /// A particle from its parts.
    pub fn new(position: RealVector, velocity: RealVector, min_speed: i64, max_speed: i64) -> (p:
        Particle)
        requires
            0 <= min_speed <= max_speed <= BOUND_LIMIT,
            position@.in_range(),
            velocity@.within(
                if max_speed >= EPSILON_MAG {
                    max_speed as int
                } else {
                    EPSILON_MAG as int
                },
            ),
        ensures
            p@ == (ParticleV {
                position: position@,
                velocity: velocity@,
                min_speed: min_speed as int,
                max_speed: max_speed as int,
            }),
            p@.wf(),
    {
        Particle { position, velocity, min_speed, max_speed }
    }

    /// Adds a force to the velocity and clamps the sum back into the speed
    /// band; the position is untouched.
    pub fn apply_force(&mut self, force: &RealVector)
        requires
            old(self)@.wf(),
            force@.within(FORCE_COMP_LIMIT as int),
        ensures
            final(self)@ == spec_apply_force(old(self)@, force@),
            final(self)@.wf(),
    {
        self.velocity = self.velocity.add(force).limit(self.min_speed, self.max_speed);
    }

    /// Advances the position by the velocity and wraps it into the
    /// `width` by `height` box; the velocity is untouched.
    pub fn update(&mut self, width: i64, height: i64)
        requires
            old(self)@.wf(),
            0 < width <= 1_500,
            0 < height <= 1_500,
        ensures
            final(self)@ == spec_update(old(self)@, width as int, height as int),
            final(self)@.wf(),
            0 <= final(self).position.x < width * ONE,
            0 <= final(self).position.y < height * ONE,
    {
        self.position = self.position.add(&self.velocity).bring_to_box(width, height);
    }
}

} // verus!
