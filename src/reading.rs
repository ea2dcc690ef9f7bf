//! Randomized readings that a simulated device reports.
use vstd::prelude::*;
use rand::{Rng, SeedableRng};

verus! {

#[verifier::external_type_specification]
#[verifier::external_body]
pub struct ExStdRng(rand::rngs::StdRng);

/// Relies on `rand::SeedableRng::seed_from_u64` for `rand::rngs::StdRng`: a generator
/// seeded by `seed`.
#[verifier::external_body]
fn seeded_rng(seed: u64) -> (r: rand::rngs::StdRng) {
    rand::rngs::StdRng::seed_from_u64(seed)
}

/// Relies on `rand::Rng::gen_range` over the inclusive range `min..=max`: a value in that
/// range, which is not empty, so the call does not panic.
#[verifier::external_body]
fn gen_in_range(rng: &mut rand::rngs::StdRng, min: u64, max: u64) -> (r: u64)
    requires
        min <= max,
    ensures
        min <= r <= max,
{
    rng.gen_range(min..=max)
}

/// A value in `min..=max` drawn from a generator seeded by `seed`.
fn draw_in_range(seed: u64, min: u64, max: u64) -> (r: u64)
    requires
        min <= max,
    ensures
        min <= r <= max,
{
    let mut rng = seeded_rng(seed);
    gen_in_range(&mut rng, min, max)
}

/// A temperature in degrees Celsius, between 50 and 110, drawn from a generator seeded by `seed`.
pub fn temperature_reading(seed: u64) -> (r: u8)
    ensures
        50 <= r <= 110,
{
    draw_in_range(seed, 50, 110) as u8
}

/// A heartbeat: CPU usage in percent (0 to 100) and memory usage in kilobytes (1 to 10000),
/// each drawn from a generator seeded by its own seed.
pub fn heartbeat_reading(cpu_seed: u64, mem_seed: u64) -> (r: (u8, u64))
    ensures
        r.0 <= 100,
        1 <= r.1 <= 10000,
{
    let cpu = draw_in_range(cpu_seed, 0, 100) as u8;
    let mem = draw_in_range(mem_seed, 1, 10000);
    (cpu, mem)
}

} // verus!
