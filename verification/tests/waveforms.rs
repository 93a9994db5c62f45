use opc_da::sim::waveform::{wave_scale_of, wave_step, TagKind};

/// The published float of a waveform, as the COM layer computes it.
fn value(kind: TagKind, index: u64, elapsed_secs: u64) -> f64 {
    let (num, den) = wave_scale_of(kind);
    wave_step(kind, index, elapsed_secs) as f64 / den as f64 * num as f64
}

#[test]
fn random_in_range_and_deterministic() {
    let a = value(TagKind::Random, 3, 100);
    let b = value(TagKind::Random, 3, 100);
    assert_eq!(a, b, "same seed, same value");
    assert!(value(TagKind::Random, 0, 0) < 100.0);
    assert!(value(TagKind::Random, 0, 0) >= 0.0);
}

#[test]
fn square_is_0_or_100() {
    assert_eq!(value(TagKind::Square, 0, 0), 100.0);
    assert_eq!(value(TagKind::Square, 1, 0), 0.0);
    assert_eq!(value(TagKind::Square, 0, 1), 0.0);
}

#[test]
fn sawtooth_in_range() {
    for s in 0..20 {
        let v = value(TagKind::Sawtooth, 0, s);
        assert!((0.0..100.0).contains(&v), "sawtooth {v} out of range (s={s})");
    }
}

#[test]
fn triangle_in_range_and_peaks() {
    assert_eq!(value(TagKind::Triangle, 0, 0), 0.0);
    let mid = value(TagKind::Triangle, 0, 5);
    assert!((mid - 100.0).abs() < 1e-9, "triangle peak should be 100, got {mid}");
}

#[test]
fn alt_bool_toggles() {
    assert_eq!(value(TagKind::AltBool, 0, 0), 1.0);
    assert_eq!(value(TagKind::AltBool, 0, 1), 0.0);
}

#[test]
fn index_shifts_phase() {
    let differ = (0..10).any(|i| value(TagKind::Sawtooth, i, 7) != value(TagKind::Sawtooth, 0, 7));
    assert!(differ, "the index shifts the phase");
}

#[test]
fn waveform_steps_exact() {
    assert_eq!(wave_step(TagKind::Random, 0, 1), 2_654_435_761 % 101);
    assert_eq!(wave_step(TagKind::Sawtooth, 3, 4), 7);
    assert_eq!(wave_step(TagKind::Triangle, 0, 7), 3);
    assert_eq!(wave_step(TagKind::Random, u64::MAX, 1), 0, "the phase wraps to 0");
    assert_eq!(wave_step(TagKind::Counter, 0, 5), 0);
}
