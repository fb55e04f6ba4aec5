//! The randomness primitives: a uniform raw scalar in `[0, 1)` and a
//! near-uniform direction on the unit sphere.

use vstd::prelude::*;

use crate::fixed::SCALE;
use crate::vec3::{bounded, svnorm2, Vec3};

verus! {

/// Relies on `rand::random_range` over `0..65536`: a draw from the
/// thread-local generator, uniform over the non-empty range and within it.
/// Nothing more is assumed of a random value.
#[verifier::external_body]
pub fn random_real() -> (r: i64)
    ensures
        0 <= r < SCALE,
{
    rand::random_range(0..65536)
}

/// A random direction: a point of the unit sphere, found by rejection
/// sampling from the cube and normalizing.  Whatever the draws, the result
/// is a unit direction: its squared length lies in the unit band.
pub fn random_vec() -> (r: Vec3)
    ensures
        crate::vec3::unit_dir(r@),
{
    let mut tries: usize = 0;
    while tries < 32
        invariant
            tries <= 32,
        decreases 32 - tries,
    {
        let x = 2 * random_real() - SCALE;
        let y = 2 * random_real() - SCALE;
        let z = 2 * random_real() - SCALE;
        let v = Vec3 { x, y, z };
        let n2 = v.norm2();
        if 0x40000000 <= n2 && n2 <= 0x100000000 {
            let nd = v.normalized();
            let m2 = nd.norm2();
            if crate::vec3::UNIT_NORM2_MIN as i128 <= m2 && m2 <= crate::vec3::UNIT_NORM2_MAX as i128 {
                return nd;
            }
        }
        tries += 1;
    }
    let fallback = Vec3 { x: 0, y: 0, z: SCALE };
    proof {
        assert(svnorm2(fallback@) == 65536int * 65536);
    }
    fallback
}

} // verus!
