//! The search for the nearest intersection along a ray.
//!
//! A distance along a ray is handed over as a signed integer that keeps the
//! order of the real distance it stands for: a smaller integer is a nearer
//! point. Any strictly increasing encoding serves, a fixed-point value as
//! well as the bit pattern of an IEEE number rearranged to sort as the number
//! does. The search compares distances and never does arithmetic on them.
//!
//! For a caller whose distances are 32-bit IEEE numbers this module also holds
//! that rearrangement, on the bit pattern alone, with the proof that it keeps
//! the order.

use vstd::prelude::*;

verus! {

/// The distance of a ray that never meets a sphere. No window reaches it: a
/// window is half-open, so even one that ends here leaves it out.
pub const FAR: i64 = 0x7fff_ffff_ffff_ffff;

/// The two distances at which a ray meets one sphere, in no particular order.
/// A ray that misses the sphere has both at `FAR`.
#[derive(Debug, Clone, Copy, PartialEq, Eq, Structural)]
pub struct Roots {
    pub t1: i64,
    pub t2: i64,
}

/// The nearest intersection found: which sphere, by its place in the list,
/// and at what distance.
#[derive(Debug, Clone, Copy, PartialEq, Eq, Structural)]
pub struct Hit {
    pub sphere: usize,
    pub t: i64,
}

/// Whether sphere `i` is met at distance `t`, and `t` lies in the half-open
/// window from `t_min` up to, not including, `t_max`.
pub open spec fn is_candidate(roots: Seq<Roots>, t_min: i64, t_max: i64, i: int, t: i64) -> bool {
    &&& 0 <= i < roots.len()
    &&& roots[i].t1 == t || roots[i].t2 == t
    &&& t_min <= t < t_max
}

/// Whether `(i, t)` is the hit that the search reports: a candidate that no
/// other candidate undercuts, and among the spheres met at that same distance
/// the one that comes first in the list.
pub open spec fn is_closest(roots: Seq<Roots>, t_min: i64, t_max: i64, i: int, t: i64) -> bool {
    &&& is_candidate(roots, t_min, t_max, i, t)
    &&& forall|j: int, u: i64| #[trigger]
        is_candidate(roots, t_min, t_max, j, u) ==> t < u || (t == u && i <= j)
}

/// Whether no sphere is met inside the window.
pub open spec fn no_candidate(roots: Seq<Roots>, t_min: i64, t_max: i64) -> bool {
    forall|j: int, u: i64| !#[trigger] is_candidate(roots, t_min, t_max, j, u)
}

/// Finds the nearest intersection inside the window `t_min <= t < t_max`.
///
/// Every sphere contributes both of its distances. The result is the smallest
/// distance inside the window together with the first sphere in list order
/// that is met there; it is `None` exactly when no distance of any sphere
/// falls inside the window.
pub fn closest_hit(roots: &Vec<Roots>, t_min: i64, t_max: i64) -> (hit: Option<Hit>)
    ensures
        match hit {
            Some(h) => is_closest(roots@, t_min, t_max, h.sphere as int, h.t),
            None => no_candidate(roots@, t_min, t_max),
        },
        hit is None <==> no_candidate(roots@, t_min, t_max),
{
    let mut closest_t: i64 = t_max;
    let mut closest_sphere: Option<usize> = None;
    let mut i: usize = 0;
    while i < roots.len()
        invariant
            i <= roots.len(),
            closest_t <= t_max,
            match closest_sphere {
                Some(k) => {
                    &&& k < i
                    &&& is_candidate(roots@, t_min, t_max, k as int, closest_t)
                    &&& forall|j: int, u: i64| #[trigger]
                        is_candidate(roots@, t_min, t_max, j, u) && j < i ==> closest_t < u || (
                        closest_t == u && k <= j)
                },
                None => {
                    &&& closest_t == t_max
                    &&& forall|j: int, u: i64| #[trigger]
                        is_candidate(roots@, t_min, t_max, j, u) ==> j >= i
                },
            },
        decreases roots.len() - i,
    {
        let r: Roots = roots[i];
        if t_min <= r.t1 && r.t1 < closest_t {
            closest_t = r.t1;
            closest_sphere = Some(i);
        }
        if t_min <= r.t2 && r.t2 < closest_t {
            closest_t = r.t2;
            closest_sphere = Some(i);
        }
        i += 1;
    }
    match closest_sphere {
        Some(k) => Some(Hit { sphere: k, t: closest_t }),
        None => None,
    }
}

/// The bit pattern of positive infinity in the 32-bit IEEE format.
pub const INFINITY_BITS: u32 = 0x7f80_0000;

/// The sign bit of the 32-bit IEEE format. Alone it is the negative zero.
pub const SIGN_BIT: u32 = 0x8000_0000;

/// The lower 31 bits of a pattern: exponent and fraction, which grow with the
/// size of the number.
pub open spec fn magnitude(bits: u32) -> int {
    if bits < SIGN_BIT {
        bits as int
    } else {
        bits - SIGN_BIT
    }
}

/// A pattern read as sign and magnitude. Two patterns that stand for numbers
/// compare as the numbers do; the two zeros both read as `0`.
pub open spec fn signed_magnitude(bits: u32) -> int {
    if bits < SIGN_BIT {
        magnitude(bits)
    } else {
        -magnitude(bits)
    }
}

/// Whether a pattern stands for a number: finite, or an infinity.
pub open spec fn is_number(bits: u32) -> bool {
    magnitude(bits) <= INFINITY_BITS
}

/// The key of a pattern: its magnitude where the sign bit is clear, and
/// `-1 - magnitude` where it is set.
pub open spec fn spec_key_of_bits(bits: u32) -> i64 {
    if bits < SIGN_BIT {
        bits as i64
    } else {
        (-1 - magnitude(bits)) as i64
    }
}

/// The distance key of a pattern. Positive infinity, which marks a miss, and
/// what is not a number become `FAR`; the negative zero shares the key of the
/// positive one; every other pattern has the key of its bits.
pub open spec fn spec_distance_key(bits: u32) -> i64 {
    if !is_number(bits) || bits == INFINITY_BITS {
        FAR
    } else if bits == SIGN_BIT {
        0
    } else {
        spec_key_of_bits(bits)
    }
}

/// Rearranges a bit pattern into an integer that sorts as sign and magnitude
/// do. Every pattern has a key of its own.
pub fn key_of_bits(bits: u32) -> (key: i64)
    ensures
        key == spec_key_of_bits(bits),
        -0x8000_0000 <= key <= 0x7fff_ffff,
{
    if bits < SIGN_BIT {
        bits as i64
    } else {
        -1 - ((bits - SIGN_BIT) as i64)
    }
}

/// The bit pattern that has the given key, or `None` where no pattern has it.
pub fn bits_of_key(key: i64) -> (found: Option<u32>)
    ensures
        match found {
            Some(bits) => spec_key_of_bits(bits) == key,
            None => key < -0x8000_0000 || 0x7fff_ffff < key,
        },
{
    if 0 <= key && key <= 0x7fff_ffff {
        Some(key as u32)
    } else if -0x8000_0000 <= key && key < 0 {
        Some(((-1 - key) as u32) + SIGN_BIT)
    } else {
        None
    }
}

/// Encodes the bit pattern of a distance for the search. See
/// `spec_distance_key`.
pub fn distance_key(bits: u32) -> (key: i64)
    ensures
        key == spec_distance_key(bits),
{
    let lower: u32 = if bits < SIGN_BIT {
        bits
    } else {
        bits - SIGN_BIT
    };
    if lower > INFINITY_BITS || bits == INFINITY_BITS {
        FAR
    } else if bits == SIGN_BIT {
        0
    } else {
        key_of_bits(bits)
    }
}

/// The keys of bit patterns are in the order of sign and magnitude. Different
/// patterns have different keys, so the two zeros, which read the same, are
/// the one pair whose keys differ while their readings do not.
pub proof fn lemma_key_keeps_order(a: u32, b: u32)
    ensures
        signed_magnitude(a) < signed_magnitude(b) ==> spec_key_of_bits(a) < spec_key_of_bits(b),
        spec_key_of_bits(a) < spec_key_of_bits(b) ==> signed_magnitude(a) <= signed_magnitude(b),
        spec_key_of_bits(a) == spec_key_of_bits(b) <==> a == b,
        signed_magnitude(a) == signed_magnitude(b) && a != b ==> magnitude(a) == 0 && magnitude(b)
            == 0,
{
}

/// Among patterns that stand for numbers, distance keys compare exactly as
/// sign and magnitude do: a smaller number has a smaller key, and equal
/// numbers, the two zeros among them, have equal keys.
pub proof fn lemma_distance_key_keeps_order(a: u32, b: u32)
    requires
        is_number(a),
        is_number(b),
    ensures
        signed_magnitude(a) < signed_magnitude(b) <==> spec_distance_key(a) < spec_distance_key(b),
        signed_magnitude(a) == signed_magnitude(b) <==> spec_distance_key(a) == spec_distance_key(
            b,
        ),
{
}

/// A distance key that is not `FAR` leads back to a pattern that has it.
pub proof fn lemma_distance_key_leads_back(bits: u32)
    requires
        spec_distance_key(bits) != FAR,
    ensures
        -0x8000_0000 <= spec_distance_key(bits) <= 0x7fff_ffff,
        bits != SIGN_BIT ==> spec_key_of_bits(bits) == spec_distance_key(bits),
        bits == SIGN_BIT ==> spec_key_of_bits(0) == spec_distance_key(bits),
{
}

/// The search has one answer: two hits that both qualify as the closest are
/// the same sphere at the same distance.
pub proof fn lemma_closest_is_unique(
    roots: Seq<Roots>,
    t_min: i64,
    t_max: i64,
    i: int,
    t: i64,
    j: int,
    u: i64,
)
    requires
        is_closest(roots, t_min, t_max, i, t),
        is_closest(roots, t_min, t_max, j, u),
    ensures
        i == j,
        t == u,
{
}

/// Where two spheres are met at the same, smallest distance, the hit is the
/// one that comes first in the list.
pub proof fn lemma_tie_goes_to_first(
    roots: Seq<Roots>,
    t_min: i64,
    t_max: i64,
    i: int,
    j: int,
    t: i64,
)
    requires
        is_closest(roots, t_min, t_max, i, t),
        0 <= j < roots.len(),
        roots[j].t1 == t || roots[j].t2 == t,
    ensures
        i <= j,
{
    assert(is_candidate(roots, t_min, t_max, j, t));
}

/// A ray that misses every sphere hits nothing, whatever the window.
pub proof fn lemma_missed_spheres_give_no_hit(roots: Seq<Roots>, t_min: i64, t_max: i64)
    requires
        forall|i: int| 0 <= i < roots.len() ==> (#[trigger] roots[i]).t1 == FAR && roots[i].t2 == FAR,
    ensures
        no_candidate(roots, t_min, t_max),
{
}

/// Without spheres there is nothing to hit, whatever the window.
pub proof fn lemma_no_spheres_give_no_hit(roots: Seq<Roots>, t_min: i64, t_max: i64)
    requires
        roots.len() == 0,
    ensures
        no_candidate(roots, t_min, t_max),
{
}

} // verus!
