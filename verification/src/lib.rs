//! A recursive ray tracer over verified fixed-point arithmetic.
//!
//! Scene geometry (spheres gathered in a list), material scattering
//! (diffuse, metallic, refractive) and the recursive color integrator are
//! all implemented on a saturating binary fixed-point scalar, so that every
//! step of the light-transport computation carries a machine-checked
//! contract.

//! Real numbers are represented by the saturating fixed-point scalar of
//! [`fx`]; every operation is specified exactly, truncation and saturation
//! included, so geometric and radiometric claims are proved about the
//! computation as it actually runs.  Randomness is drawn from an explicit
//! seeded stream ([`rng`]); each scattering model has a deterministic core
//! with an exact contract, fed by that stream.

pub mod color;
pub mod fx;
pub mod hittable;
pub mod list;
pub mod material;
pub mod p3;
pub mod ppm;
pub mod ray;
pub mod rng;
pub mod sampling;
pub mod sphere;
pub mod tracer;
pub mod v3;
