//! Point-mass physics core: fixed-point vector algebra, a semi-implicit Euler
//! particle integrator and a frame clock.
pub mod fixed;
pub mod vector;
pub mod particle;
pub mod timing;
pub mod ammo;
