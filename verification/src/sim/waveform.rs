//! Read-time value generators of the simulation server.
//!
//! Each time-driven waveform is an integer step of `t = elapsed + index`
//! (wrapping); the step is what the simulator publishes, scaled as
//! [`wave_scale`] says.

use vstd::prelude::*;

verus! {

/// How a simulated tag produces its value.
#[derive(Clone, Copy, Debug, PartialEq, Eq, Structural)]
pub enum TagKind {
    Random,
    Square,
    Sawtooth,
    Triangle,
    AltBool,
    SysTime,
    Counter,
    Register,
}

/// Multiplier of the Knuth hash that mixes the phase of `Random`.
pub const RANDOM_MIX: u64 = 2_654_435_761;

/// The phase `t`: elapsed seconds plus the tag instance index, wrapping.
pub open spec fn wave_phase(index: u64, elapsed_secs: u64) -> u64 {
    ((index + elapsed_secs) % 0x1_0000_0000_0000_0000) as u64
}

/// Integer step of a waveform at phase `t`.
///
/// - `Random`: Knuth-mixed phase modulo 101 (0..=100);
/// - `Square`: 100 on even phases, 0 on odd ones;
/// - `Sawtooth`: `t % 10` (0..=9, scaled by 10 into 0..=90);
/// - `Triangle`: rises 0..=5 then falls (scaled by 20 into 0..=100);
/// - `AltBool`: 1 on even phases, 0 on odd ones;
/// - `SysTime`, `Counter`, `Register`: 0 (they are not time functions).
pub open spec fn wave_step_of(kind: TagKind, t: u64) -> u64 {
    match kind {
        TagKind::Random => (((t as int) * (RANDOM_MIX as int)) % 0x1_0000_0000_0000_0000) as u64 % 101,
        TagKind::Square => if t % 2 == 0 { 100 } else { 0 },
        TagKind::Sawtooth => t % 10,
        TagKind::Triangle => if t % 10 < 5 { t % 10 } else { (10 - t % 10) as u64 },
        TagKind::AltBool => if t % 2 == 0 { 1 } else { 0 },
        _ => 0,
    }
}

/// Factor by which the step of `kind` is scaled into the published value
/// (`value = step / denominator * numerator` in floating point), as
/// `(numerator, denominator)`.
pub open spec fn wave_scale(kind: TagKind) -> (u64, u64) {
    match kind {
        TagKind::Sawtooth => (100, 10),
        TagKind::Triangle => (100, 5),
        _ => (1, 1),
    }
}

/// Integer step of the waveform of `kind` for tag instance `index` at
/// `elapsed_secs` seconds after start.
pub fn wave_step(kind: TagKind, index: u64, elapsed_secs: u64) -> (r: u64)
    ensures
        r == wave_step_of(kind, wave_phase(index, elapsed_secs)),
        r <= 100,
{
    let t = elapsed_secs.wrapping_add(index);
    assert(t == wave_phase(index, elapsed_secs));
    match kind {
        TagKind::Random => t.wrapping_mul(RANDOM_MIX) % 101,
        TagKind::Square => if t % 2 == 0 { 100 } else { 0 },
        TagKind::Sawtooth => t % 10,
        TagKind::Triangle => {
            let p = t % 10;
            if p < 5 { p } else { 10 - p }
        },
        TagKind::AltBool => if t % 2 == 0 { 1 } else { 0 },
        _ => 0,
    }
}

/// The scale factor of `kind`, as [`wave_scale`] gives it.
pub fn wave_scale_of(kind: TagKind) -> (r: (u64, u64))
    ensures
        r == wave_scale(kind),
{
    match kind {
        TagKind::Sawtooth => (100, 10),
        TagKind::Triangle => (100, 5),
        _ => (1, 1),
    }
}

} // verus!
