use cyclone::ammo::AmmoType;
use cyclone::fixed::{from_int, from_ratio, real_div, real_mul, real_pow, real_sqrt, ONE};
use cyclone::particle::{MassError, Particle, INFINITE_MASS};
use cyclone::vector::Vector3;

fn v(x: i64, y: i64, z: i64) -> Vector3 {
    Vector3::new(from_int(x), from_int(y), from_int(z))
}

fn moving() -> Particle {
    let mut p = Particle::new(from_int(1), from_int(2), from_int(3));
    p.set_velocity(from_int(4), from_int(-5), from_int(6));
    p.set_acceleration(from_int(0), from_int(-10), from_int(0));
    p.add_force(&v(1, 1, 1));
    p
}

#[test]
fn new_particle_is_at_rest_with_unit_mass() {
    let p = Particle::new(from_int(1), from_int(2), from_int(3));
    assert_eq!(*p.get_position(), v(1, 2, 3));
    assert_eq!(*p.get_velocity(), Vector3::origin());
    assert_eq!(*p.get_acceleration(), Vector3::origin());
    assert_eq!(*p.get_accumulator(), Vector3::origin());
    assert_eq!(p.get_mass(), ONE);
    assert!(p.has_finite_mass());
}

#[test]
fn immovable_particle_does_not_move() {
    let mut p = moving();
    p.set_inverse_mass(0);
    for d in [1, ONE / 60, ONE, from_int(1000)] {
        p.integrate(d);
        assert_eq!(*p.get_position(), v(1, 2, 3));
        assert_eq!(*p.get_velocity(), v(4, -5, 6));
        assert_eq!(*p.get_acceleration(), v(0, -10, 0));
    }
}

#[test]
fn a_huge_mass_rounds_to_an_immovable_particle() {
    let mut p = moving();
    assert_eq!(p.set_mass(INFINITE_MASS), Ok(()));
    assert_eq!(p.get_mass(), INFINITE_MASS);
    p.integrate(ONE);
    assert_eq!(*p.get_position(), v(1, 2, 3));
    assert_eq!(*p.get_velocity(), v(4, -5, 6));
}

#[test]
fn steps_of_no_length_change_nothing() {
    let mut p = moving();
    p.integrate(0);
    p.integrate(-ONE);
    p.integrate(i64::MIN);
    assert_eq!(*p.get_position(), v(1, 2, 3));
    assert_eq!(*p.get_velocity(), v(4, -5, 6));
    assert_eq!(*p.get_acceleration(), v(0, -10, 0));
    assert_eq!(*p.get_accumulator(), v(1, 1, 1));
}

#[test]
fn a_step_clears_the_accumulator() {
    let mut p = moving();
    p.integrate(ONE / 60);
    assert_eq!(*p.get_accumulator(), Vector3::origin());
    p.add_force(&v(0, 3, 0));
    p.integrate(ONE);
    assert_eq!(*p.get_accumulator(), Vector3::origin());
}

#[test]
fn zero_mass_is_refused() {
    let mut p = moving();
    assert_eq!(p.set_mass(0), Err(MassError::Zero));
    assert_eq!(p.get_mass(), ONE);
    let mut q = Particle::new(0, 0, 0);
    assert_eq!(q.set_mass(0), Err(MassError::Zero));
}

#[test]
fn mass_is_stored_as_its_inverse() {
    let mut p = Particle::new(0, 0, 0);
    assert_eq!(p.set_mass(from_int(2)), Ok(()));
    assert_eq!(p.get_mass(), from_int(2));
    assert_eq!(p.set_mass(from_int(4)), Ok(()));
    p.add_force(&v(8, 0, 0));
    p.integrate(ONE);
    assert_eq!(*p.get_acceleration(), v(2, 0, 0));
}

#[test]
fn finite_mass_counts_zero_inverse_mass_as_finite() {
    let mut p = Particle::new(0, 0, 0);
    p.set_inverse_mass(0);
    assert!(p.has_finite_mass());
    assert_eq!(p.set_mass(from_int(-2)), Ok(()));
    assert!(!p.has_finite_mass());
    assert_eq!(p.get_mass(), from_int(-2));
}

#[test]
fn falling_ball_with_compounding_acceleration() {
    let g = from_ratio(-98, 10);
    assert_eq!(g, -10276045);
    let mut p = Particle::new(0, 0, 0);
    assert_eq!(p.set_mass(ONE), Ok(()));
    p.set_velocity(0, 0, from_int(10));
    p.set_acceleration(0, g, 0);
    p.set_damping(ONE);

    p.integrate(ONE);
    assert_eq!(*p.get_position(), Vector3::new(0, 0, from_int(10)));
    assert_eq!(*p.get_velocity(), Vector3::new(0, g, from_int(10)));
    assert_eq!(*p.get_acceleration(), Vector3::new(0, g, 0));

    p.add_force(&Vector3::new(0, g, 0));
    p.integrate(ONE);
    assert_eq!(*p.get_position(), Vector3::new(0, g, from_int(20)));
    assert_eq!(*p.get_acceleration(), Vector3::new(0, 2 * g, 0));
    assert_eq!(*p.get_velocity(), Vector3::new(0, 3 * g, from_int(10)));
    assert_eq!(*p.get_accumulator(), Vector3::origin());

    // The stored acceleration keeps the force of the second step.
    p.integrate(ONE);
    assert_eq!(*p.get_position(), Vector3::new(0, 4 * g, from_int(30)));
    assert_eq!(*p.get_velocity(), Vector3::new(0, 5 * g, from_int(10)));
}

#[test]
fn damping_is_raised_to_the_duration() {
    let mut p = Particle::new(0, 0, 0);
    p.set_velocity(0, 0, from_int(8));
    p.set_damping(ONE / 2);
    p.integrate(ONE);
    assert_eq!(*p.get_velocity(), v(0, 0, 4));
    p.set_damping(ONE / 4);
    p.integrate(ONE / 2);
    assert_eq!(*p.get_velocity(), v(0, 0, 2));
    p.set_damping(0);
    p.integrate(ONE / 8);
    assert_eq!(*p.get_velocity(), Vector3::origin());
}

#[test]
fn fixed_point_arithmetic() {
    assert_eq!(from_int(3), 3 * ONE);
    assert_eq!(from_ratio(1, 2), ONE / 2);
    assert_eq!(from_ratio(-1, 3), -349526);
    assert_eq!(real_mul(from_int(3), from_ratio(1, 2)), 3 * ONE / 2);
    assert_eq!(real_mul(-1, 1), -1);
    assert_eq!(real_div(from_int(1), from_int(4)), ONE / 4);
    assert_eq!(real_div(from_int(1), from_int(-4)), -ONE / 4);
    assert_eq!(real_sqrt(from_int(9)), from_int(3));
    assert_eq!(real_sqrt(from_int(2)), 1482910);
    assert_eq!(real_pow(ONE / 2, from_int(3)), ONE / 8);
    assert_eq!(real_pow(ONE / 4, ONE / 2), ONE / 2);
    assert_eq!(real_pow(ONE / 16, ONE / 4), ONE / 2);
    assert_eq!(real_pow(ONE, from_ratio(7, 3)), ONE);
    assert_eq!(real_pow(ONE / 2, 0), ONE);
}

#[test]
fn ammunition_kinds() {
    let pistol = AmmoType::Pistol.make_particle();
    assert_eq!(*pistol.get_position(), Vector3::new(0, from_ratio(15, 10), 0));
    assert_eq!(*pistol.get_velocity(), v(0, 0, 35));
    assert_eq!(pistol.get_mass(), from_int(2));
    let artillery = AmmoType::Artillery.make_particle();
    assert_eq!(*artillery.get_velocity(), v(0, 30, 20));
    assert_eq!(*artillery.get_acceleration(), v(0, -20, 0));
    let fireball = AmmoType::Fireball.make_particle();
    assert_eq!(*fireball.get_acceleration(), v(0, 2, 0));
    assert_eq!(fireball.get_mass(), ONE);
    let laser = AmmoType::Laser.make_particle();
    assert_eq!(*laser.get_velocity(), v(0, 0, 150));
    assert_eq!(laser.get_mass(), real_div(ONE, real_div(ONE, from_ratio(1, 10))));
}

#[test]
fn checked_integration_refuses_an_overflowing_step() {
    let mut p = Particle::new(i64::MAX - ONE, 0, 0);
    p.set_velocity(from_int(2), 0, 0);
    assert!(!p.try_integrate(ONE));
    assert_eq!(*p.get_position(), Vector3::new(i64::MAX - ONE, 0, 0));
    assert_eq!(*p.get_velocity(), v(2, 0, 0));

    let mut q = moving();
    let mut r = moving();
    assert!(q.try_integrate(ONE / 2));
    r.integrate(ONE / 2);
    assert_eq!(*q.get_position(), *r.get_position());
    assert_eq!(*q.get_velocity(), *r.get_velocity());
    assert_eq!(*q.get_acceleration(), *r.get_acceleration());
    assert_eq!(*q.get_position(), Vector3::new(from_int(3), from_ratio(-1, 2), from_int(6)));
}

#[test]
fn checked_vector_steps() {
    let a = v(1, 2, 3);
    assert_eq!(a.checked_add_scaled(&v(2, 2, 2), ONE / 2), Some(v(2, 3, 4)));
    assert_eq!(a.checked_add_scaled(&Vector3::new(i64::MAX, 0, 0), from_int(2)), None);
    assert_eq!(a.checked_mul(from_int(2)), Some(v(2, 4, 6)));
    assert_eq!(Vector3::new(i64::MAX, 0, 0).checked_mul(from_int(2)), None);
}

#[test]
fn damping_outside_the_unit_range_is_stored_but_not_integrated() {
    let mut p = moving();
    p.set_damping(from_int(2));
    assert!(!p.try_integrate(ONE));
    assert_eq!(*p.get_position(), v(1, 2, 3));
    p.set_damping(-1);
    assert!(!p.try_integrate(ONE));
    assert!(p.try_integrate(0));
    p.set_damping(ONE);
    assert!(p.try_integrate(ONE));
    assert_eq!(*p.get_position(), v(5, -3, 9));
}
