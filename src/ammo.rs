//! The kinds of projectile that a ballistics scene can fire.
use crate::fixed::{fdiv, from_int, from_ratio, of_int, Real, ONE};
use crate::particle::{zero, Particle, ParticleModel};
use crate::vector::Vector3;
use vstd::prelude::*;

verus! {

/// A kind of projectile.
#[derive(Debug, Clone, Copy, PartialEq, Eq, Structural)]
pub enum AmmoType {
    Pistol,
    Artillery,
    Fireball,
    Laser,
}

/// The height, in fixed point, from which every projectile is fired.
pub open spec fn muzzle_height() -> int {
    fdiv(15, 10)
}

/// A freshly fired projectile: at the muzzle, with the given mass, velocity
/// and acceleration, undamped and with no force accumulated.
pub open spec fn fired(mass: int, velocity: Vector3, acceleration: Vector3) -> ParticleModel {
    ParticleModel {
        position: Vector3 { x: 0, y: muzzle_height() as i64, z: 0 },
        velocity,
        acceleration,
        force: zero(),
        damping: ONE,
        inverse_mass: fdiv(ONE as int, mass) as i64,
    }
}

/// The vector `(x, y, z)` of whole numbers, in fixed point.
pub open spec fn whole(x: int, y: int, z: int) -> Vector3 {
    Vector3 { x: of_int(x) as i64, y: of_int(y) as i64, z: of_int(z) as i64 }
}

/// The projectile that each kind of ammunition fires.
pub open spec fn ammo_model(t: AmmoType) -> ParticleModel {
    match t {
        AmmoType::Pistol => fired(of_int(2), whole(0, 0, 35), whole(0, 0, 0)),
        AmmoType::Artillery => fired(of_int(200), whole(0, 30, 20), whole(0, -20, 0)),
        AmmoType::Fireball => fired(of_int(1), whole(0, 0, 10), whole(0, 2, 0)),
        AmmoType::Laser => fired(fdiv(1, 10), whole(0, 0, 150), whole(0, 0, 0)),
    }
}

/// A projectile at the muzzle with the given mass, velocity and acceleration,
/// all in whole units but for the mass.
fn launch(mass: Real, vx: i64, vy: i64, vz: i64, ay: i64) -> (r: Particle)
    requires
        mass > 0,
        -1000 <= vx <= 1000 && -1000 <= vy <= 1000 && -1000 <= vz <= 1000,
        -1000 <= ay <= 1000,
    ensures
        r@ == fired(mass as int, whole(vx as int, vy as int, vz as int), whole(0, ay as int, 0)),
{
    let mut p = Particle::new(0, from_ratio(15, 10), 0);
    let _ = p.set_mass(mass);
    p.set_velocity(from_int(vx), from_int(vy), from_int(vz));
    p.set_acceleration(0, from_int(ay), 0);
    p
}

impl AmmoType {
    /// A new projectile of this kind.
    pub fn make_particle(&self) -> (r: Particle)
        ensures
                r@ == ammo_model(*self),
    {
        match self {
            AmmoType::Pistol => launch(from_int(2), 0, 0, 35, 0),
            AmmoType::Artillery => launch(from_int(200), 0, 30, 20, -20),
            AmmoType::Fireball => launch(from_int(1), 0, 0, 10, 2),
            AmmoType::Laser => launch(from_ratio(1, 10), 0, 0, 150, 0),
        }
    }
}

} // verus!
