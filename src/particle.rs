//! A point mass advanced by semi-implicit Euler steps under accumulated force.
use crate::fixed::{fdiv, fits, fpow, real_div, real_pow, Real, ONE};
use crate::vector::{add_scaled, add_scaled_fits, scaled, scaled_fits, sum, sum_fits, Vector3};
use vstd::prelude::*;

verus! {

/// What a particle holds, as the contracts speak of it.
pub struct ParticleModel {
    pub position: Vector3,
    pub velocity: Vector3,
    pub acceleration: Vector3,
    pub force: Vector3,
    pub damping: Real,
    pub inverse_mass: Real,
}

/// The zero vector.
pub open spec fn zero() -> Vector3 {
    Vector3 { x: 0, y: 0, z: 0 }
}

/// The mass that `get_mass` reports for an immovable particle.
pub const INFINITE_MASS: i64 = 0x7fff_ffff_ffff_ffff;

/// The reported mass of a particle with the given inverse mass.
pub open spec fn mass_of(inverse_mass: int) -> int {
    if inverse_mass == 0 {
        INFINITE_MASS as int
    } else {
        fdiv(ONE as int, inverse_mass)
    }
}

/// The acceleration after the accumulated force is added onto it.
pub open spec fn next_acceleration(m: ParticleModel) -> Vector3 {
    add_scaled(m.acceleration, m.force, m.inverse_mass as int)
}

/// The velocity after one step of `d` seconds, before damping.
pub open spec fn undamped_velocity(m: ParticleModel, d: int) -> Vector3 {
    add_scaled(m.velocity, next_acceleration(m), d)
}

/// Every step of integrating `m` over `d` seconds fits in a `Real`.
pub open spec fn integrate_fits(m: ParticleModel, d: int) -> bool {
    &&& add_scaled_fits(m.position, m.velocity, d)
    &&& add_scaled_fits(m.acceleration, m.force, m.inverse_mass as int)
    &&& add_scaled_fits(m.velocity, next_acceleration(m), d)
    &&& scaled_fits(undamped_velocity(m, d), fpow(m.damping as int, d))
}

/// The state after integrating `m` over `d` seconds. An immovable particle
/// (inverse mass at most zero) and a step of no positive length change nothing.
/// Otherwise the position moves by the old velocity, the accumulated force is
/// added onto the stored acceleration, the velocity takes that acceleration and
/// is damped by `damping ^ d`, and the accumulator is cleared.
pub open spec fn integrated(m: ParticleModel, d: int) -> ParticleModel {
    if m.inverse_mass <= 0 || d <= 0 {
        m
    } else {
        ParticleModel {
            position: add_scaled(m.position, m.velocity, d),
            velocity: scaled(undamped_velocity(m, d), fpow(m.damping as int, d)),
            acceleration: next_acceleration(m),
            force: zero(),
            damping: m.damping,
            inverse_mass: m.inverse_mass,
        }
    }
}

/// Why a mass cannot be set.
#[derive(Debug, Clone, Copy, PartialEq, Eq, Structural)]
pub enum MassError {
    /// A mass of zero has no inverse.
    Zero,
}

/// A point mass.
pub struct Particle {
    position: Vector3,
    velocity: Vector3,
    acceleration: Vector3,
    force_accumulated: Vector3,
    damping: Real,
    inverse_mass: Real,
}

impl View for Particle {
    type V = ParticleModel;

    closed spec fn view(&self) -> ParticleModel {
        ParticleModel {
            position: self.position,
            velocity: self.velocity,
            acceleration: self.acceleration,
            force: self.force_accumulated,
            damping: self.damping,
            inverse_mass: self.inverse_mass,
        }
    }
}

impl Particle {
    /// A particle at rest at `(x, y, z)`, with unit mass and no damping.
    pub fn new(x: Real, y: Real, z: Real) -> (r: Particle)
        ensures
            r@ == (ParticleModel {
                position: Vector3 { x, y, z },
                velocity: zero(),
                acceleration: zero(),
                force: zero(),
                damping: ONE,
                inverse_mass: ONE,
            }),
    {
        Particle {
            position: Vector3::new(x, y, z),
            velocity: Vector3::origin(),
            acceleration: Vector3::origin(),
            force_accumulated: Vector3::origin(),
            damping: ONE,
            inverse_mass: ONE,
        }
    }

    /// Sets the mass, stored as its inverse. A mass of zero is refused and
    /// changes nothing.
    pub fn set_mass(&mut self, mass: Real) -> (r: Result<(), MassError>)
        ensures
            mass == 0 <==> r is Err,
            mass == 0 ==> r == Err::<(), MassError>(MassError::Zero) && final(self)@ == old(self)@,
            mass != 0 ==> final(self)@ == (ParticleModel {
                inverse_mass: fdiv(ONE as int, mass as int) as i64,
                ..old(self)@
            }),
    {
        if mass == 0 {
            return Err(MassError::Zero);
        }
        proof {
            lemma_reciprocal_fits(mass as int);
        }
        self.inverse_mass = real_div(ONE, mass);
        Ok(())
    }

    /// Sets the inverse mass directly; zero makes the particle immovable.
    pub fn set_inverse_mass(&mut self, inverse_mass: Real)
        ensures
            final(self)@ == (ParticleModel { inverse_mass, ..old(self)@ }),
    {
        self.inverse_mass = inverse_mass;
    }

    /// Sets the velocity.
    pub fn set_velocity(&mut self, x: Real, y: Real, z: Real)
        ensures
            final(self)@ == (ParticleModel { velocity: Vector3 { x, y, z }, ..old(self)@ }),
    {
        self.velocity.x = x;
        self.velocity.y = y;
        self.velocity.z = z;
    }

    /// Sets the stored acceleration.
    pub fn set_acceleration(&mut self, x: Real, y: Real, z: Real)
        ensures
            final(self)@ == (ParticleModel { acceleration: Vector3 { x, y, z }, ..old(self)@ }),
    {
        self.acceleration.x = x;
        self.acceleration.y = y;
        self.acceleration.z = z;
    }

    /// The mass, or `INFINITE_MASS` where the inverse mass is zero.
    pub fn get_mass(&self) -> (r: Real)
        ensures
            r == mass_of(self@.inverse_mass as int),
    {
        if self.inverse_mass == 0 {
            INFINITE_MASS
        } else {
            proof {
                lemma_reciprocal_fits(self.inverse_mass as int);
            }
            real_div(ONE, self.inverse_mass)
        }
    }

    /// Sets the damping: the share of the velocity kept per second, meant to
    /// lie in `[0, 1]`. Any value is stored; `integrate` asks for that range.
    pub fn set_damping(&mut self, d: Real)
        ensures
            final(self)@ == (ParticleModel { damping: d, ..old(self)@ }),
    {
        self.damping = d;
    }

    /// Whether the inverse mass is non-negative. A zero inverse mass (an
    /// immovable particle) counts as finite here too.
    pub fn has_finite_mass(&self) -> (r: bool)
        ensures
            r == (self@.inverse_mass >= 0),
    {
        self.inverse_mass >= 0
    }

    /// Adds `f` to the force accumulated for the next step.
    pub fn add_force(&mut self, f: &Vector3)
        requires
            sum_fits(old(self)@.force, *f),
        ensures
            final(self)@ == (ParticleModel { force: sum(old(self)@.force, *f), ..old(self)@ }),
    {
        self.force_accumulated.add_assign(f);
    }

    /// Sets the accumulated force to zero.
    pub fn clear_accumulator(&mut self)
        ensures
            final(self)@ == (ParticleModel { force: zero(), ..old(self)@ }),
    {
        self.force_accumulated.clear();
    }

    /// Advances the particle by `duration` seconds (see `integrated`).
    pub fn integrate(&mut self, duration: Real)
        requires
            old(self)@.inverse_mass > 0 && duration > 0 ==> 0 <= old(self)@.damping <= ONE
                && integrate_fits(old(self)@, duration as int),
        ensures
            final(self)@ == integrated(old(self)@, duration as int),
    {
        if self.inverse_mass <= 0 {
            return;
        }
        if duration > 0 {
            self.position.add_scaled_vector(&self.velocity, duration);
            self.acceleration.add_scaled_vector(&self.force_accumulated, self.inverse_mass);
            self.velocity.add_scaled_vector(&self.acceleration, duration);
            let factor = real_pow(self.damping, duration);
            self.velocity.mul_assign(factor);
            self.clear_accumulator();
        }
    }

    /// Advances the particle by `duration` seconds where the damping lies in
    /// `[0, 1]` and every step fits in a `Real`, and reports whether it did;
    /// otherwise nothing changes.
    pub fn try_integrate(&mut self, duration: Real) -> (ok: bool)
        ensures
            ok == (old(self)@.inverse_mass <= 0 || duration <= 0 || (0 <= old(self)@.damping <= ONE
                && integrate_fits(old(self)@, duration as int))),
            ok ==> final(self)@ == integrated(old(self)@, duration as int),
            !ok ==> final(self)@ == old(self)@,
    {
        if self.inverse_mass <= 0 || duration <= 0 {
            self.integrate(duration);
            return true;
        }
        if self.damping < 0 || self.damping > ONE {
            return false;
        }
        let acc = match self.acceleration.checked_add_scaled(&self.force_accumulated, self.inverse_mass) {
            Some(a) => a,
            None => return false,
        };
        if self.position.checked_add_scaled(&self.velocity, duration).is_none() {
            return false;
        }
        let vel = match self.velocity.checked_add_scaled(&acc, duration) {
            Some(v) => v,
            None => return false,
        };
        let factor = real_pow(self.damping, duration);
        if vel.checked_mul(factor).is_none() {
            return false;
        }
        self.integrate(duration);
        true
    }

    /// The position.
    pub fn get_position(&self) -> (r: &Vector3)
        ensures
            *r == self@.position,
    {
        &self.position
    }

    /// The velocity.
    pub fn get_velocity(&self) -> (r: &Vector3)
        ensures
            *r == self@.velocity,
    {
        &self.velocity
    }

    /// The stored acceleration.
    pub fn get_acceleration(&self) -> (r: &Vector3)
        ensures
            *r == self@.acceleration,
    {
        &self.acceleration
    }

    /// The force accumulated since the last step.
    pub fn get_accumulator(&self) -> (r: &Vector3)
        ensures
            *r == self@.force,
    {
        &self.force_accumulated
    }
}

/// The reciprocal of a non-zero fixed-point value fits in a `Real`.
proof fn lemma_reciprocal_fits(m: int)
    requires
        m != 0,
        fits(m),
    ensures
        fits(fdiv(ONE as int, m)),
{
    let n = 1048576int * 1048576int;
    let num = if m > 0 { n } else { -n };
    let k = if m > 0 { m } else { -m };
    assert(fdiv(ONE as int, m) == num / k);
    vstd::arithmetic::div_mod::lemma_fundamental_div_mod(num, k);
    vstd::arithmetic::div_mod::lemma_mod_bound(num, k);
    let q = num / k;
    let r = num % k;
    assert(-n <= q <= n) by (nonlinear_arith)
        requires
            num == k * q + r,
            0 <= r < k,
            k >= 1,
            -n <= num <= n,
            n > 0,
    ;
}

/// An immovable particle (inverse mass zero) keeps its position and velocity,
/// and indeed its whole state, over a step of any length.
pub proof fn lemma_immovable_unchanged(m: ParticleModel, d: int)
    requires
        m.inverse_mass == 0,
    ensures
        integrated(m, d).position == m.position,
        integrated(m, d).velocity == m.velocity,
        integrated(m, d) == m,
{
}

/// A step of zero or negative length changes nothing.
pub proof fn lemma_nonpositive_step_unchanged(m: ParticleModel, d: int)
    requires
        d <= 0,
    ensures
        integrated(m, d) == m,
{
}

/// After a step that moves a particle the force accumulator is zero.
pub proof fn lemma_step_clears_accumulator(m: ParticleModel, d: int)
    requires
        m.inverse_mass > 0,
        d > 0,
    ensures
        integrated(m, d).force == zero(),
{
}

} // verus!
