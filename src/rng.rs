use vstd::prelude::*;

verus! {

#[verifier::external_type_specification]
#[verifier::external_body]
pub struct ExRandomNumberGenerator(rltk::RandomNumberGenerator);

/// Relies on rltk's `RandomNumberGenerator::new`: a generator seeded from the
/// operating system's entropy source (or the clock when that fails).
#[verifier::external_body]
pub(crate) fn new_rng() -> (r: rltk::RandomNumberGenerator) {
    rltk::RandomNumberGenerator::new()
}

/// Relies on rltk's `RandomNumberGenerator::range`: a value drawn from the
/// half-open range `min..max`, which must not be empty.
#[verifier::external_body]
pub(crate) fn range(rng: &mut rltk::RandomNumberGenerator, min: i32, max: i32) -> (r: i32)
    requires
        min < max,
    ensures
        min <= r < max,
{
    rng.range(min, max)
}

/// Relies on rltk's `RandomNumberGenerator::roll_dice`: with one die of
/// `die_type` faces, a value from `1` to `die_type`.
#[verifier::external_body]
pub(crate) fn roll_dice(rng: &mut rltk::RandomNumberGenerator, n: i32, die_type: i32) -> (r: i32)
    requires
        n == 1,
        1 <= die_type < i32::MAX,
    ensures
        1 <= r <= die_type,
{
    rng.roll_dice(n, die_type)
}

} // verus!
