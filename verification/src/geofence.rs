//! Fixed-point geofence: decides whether a claimer stands close enough to a drop.
//!
//! Coordinates are degrees scaled by 10,000,000 and held in signed 64-bit
//! integers. Distances are measured on a plane, which is accurate only at the
//! scale of a few hundred metres and away from the poles.

use vstd::prelude::*;

verus! {

/// Radius of the geofence in fixed-point units, about 167 m of latitude.
pub const MAX_RADIUS_UNITS: u64 = 15_000;

/// Numerator of the factor by which a degree of longitude is taken to be
/// shorter than a degree of latitude.
pub const LNG_SCALE_NUM: u64 = 16;

/// Denominator of that factor.
pub const LNG_SCALE_DEN: u64 = 10;

/// Distance between two coordinates on one axis.
pub open spec fn spec_abs_diff(a: int, b: int) -> int {
    if a >= b {
        a - b
    } else {
        b - a
    }
}

/// Largest accepted longitude difference.
pub open spec fn spec_lng_limit() -> int {
    (MAX_RADIUS_UNITS * LNG_SCALE_NUM) / (LNG_SCALE_DEN as int)
}

/// Square of the radius.
pub open spec fn spec_max_sq() -> int {
    MAX_RADIUS_UNITS * MAX_RADIUS_UNITS
}

/// The cheap test: both differences lie inside the box around the drop.
pub open spec fn spec_in_bounding_box(dlat: int, dlng: int) -> bool {
    dlat <= MAX_RADIUS_UNITS && dlng <= spec_lng_limit()
}

/// A longitude difference brought to the scale of latitude differences.
pub open spec fn spec_normalize_lng(dlng: int) -> int {
    (dlng * LNG_SCALE_DEN) / (LNG_SCALE_NUM as int)
}

/// Squared planar distance, before any clamping.
pub open spec fn spec_exact_dist_sq(dlat: int, dlng: int) -> int {
    dlat * dlat + spec_normalize_lng(dlng) * spec_normalize_lng(dlng)
}

/// Squared planar distance, clamped to the largest 64-bit value.
pub open spec fn spec_dist_sq(dlat: int, dlng: int) -> int {
    let exact = spec_exact_dist_sq(dlat, dlng);
    if exact > u64::MAX {
        u64::MAX as int
    } else {
        exact
    }
}

/// Whether the claimer's coordinates lie inside the geofence of the drop.
pub open spec fn spec_inside(
    claimer_lat: int,
    claimer_lng: int,
    drop_lat: int,
    drop_lng: int,
) -> bool {
    let dlat = spec_abs_diff(claimer_lat, drop_lat);
    let dlng = spec_abs_diff(claimer_lng, drop_lng);
    spec_in_bounding_box(dlat, dlng) && spec_dist_sq(dlat, dlng) <= spec_max_sq()
}

/// Clamping never changes the decision: a claimer is inside exactly when the
/// differences lie in the bounding box and the unclamped squared distance is
/// at most the squared radius.
pub proof fn lemma_clamping_keeps_decision(
    claimer_lat: int,
    claimer_lng: int,
    drop_lat: int,
    drop_lng: int,
)
    ensures
        ({
            let dlat = spec_abs_diff(claimer_lat, drop_lat);
            let dlng = spec_abs_diff(claimer_lng, drop_lng);
            spec_inside(claimer_lat, claimer_lng, drop_lat, drop_lng) <==> spec_in_bounding_box(
                dlat,
                dlng,
            ) && spec_exact_dist_sq(dlat, dlng) <= spec_max_sq()
        }),
{
}

/// The edge of the geofence belongs to it: inside the bounding box, a squared
/// distance equal to the squared radius is accepted, and one greater by a
/// single unit is refused wherever the claimer stands.
pub proof fn lemma_boundary_inclusive(
    claimer_lat: int,
    claimer_lng: int,
    drop_lat: int,
    drop_lng: int,
)
    ensures
        ({
            let dlat = spec_abs_diff(claimer_lat, drop_lat);
            let dlng = spec_abs_diff(claimer_lng, drop_lng);
            let accepted = spec_inside(claimer_lat, claimer_lng, drop_lat, drop_lng);
            &&& spec_in_bounding_box(dlat, dlng) && spec_dist_sq(dlat, dlng) == spec_max_sq()
                ==> accepted
            &&& spec_dist_sq(dlat, dlng) == spec_max_sq() + 1 ==> !accepted
        }),
{
}

/// Distance between two coordinates on one axis; it always fits in 64 bits.
pub fn abs_diff(a: i64, b: i64) -> (d: u64)
    ensures
        d == spec_abs_diff(a as int, b as int),
{
    if a >= b {
        (a as i128 - b as i128) as u64
    } else {
        (b as i128 - a as i128) as u64
    }
}

/// Product of two values, clamped to the largest 64-bit value.
fn saturating_mul(a: u64, b: u64) -> (p: u64)
    ensures
        p == if a * b > u64::MAX { u64::MAX as int } else { a * b },
{
    match a.checked_mul(b) {
        Some(p) => p,
        None => u64::MAX,
    }
}

/// Squared planar distance for the given differences, clamped on overflow.
pub fn dist_sq(dlat: u64, dlng: u64) -> (d: u64)
    ensures
        d == spec_dist_sq(dlat as int, dlng as int),
{
    let dlng_norm: u64 = (dlng as u128 * LNG_SCALE_DEN as u128 / LNG_SCALE_NUM as u128) as u64;
    let lat_sq: u64 = saturating_mul(dlat, dlat);
    let lng_sq: u64 = saturating_mul(dlng_norm, dlng_norm);
    lat_sq.saturating_add(lng_sq)
}

/// Decides whether the claimer's coordinates lie inside the geofence of the drop.
///
/// Defined for every pair of 64-bit coordinates: nothing in it can overflow.
pub fn inside(claimer_lat: i64, claimer_lng: i64, drop_lat: i64, drop_lng: i64) -> (ok: bool)
    ensures
        ok == spec_inside(
            claimer_lat as int,
            claimer_lng as int,
            drop_lat as int,
            drop_lng as int,
        ),
{
    let dlat: u64 = abs_diff(claimer_lat, drop_lat);
    let dlng: u64 = abs_diff(claimer_lng, drop_lng);
    let lng_limit: u64 = MAX_RADIUS_UNITS * LNG_SCALE_NUM / LNG_SCALE_DEN;
    if dlat > MAX_RADIUS_UNITS || dlng > lng_limit {
        return false;
    }
    let max_sq: u64 = MAX_RADIUS_UNITS * MAX_RADIUS_UNITS;
    dist_sq(dlat, dlng) <= max_sq
}

} // verus!
