use waves::{generate_sine_wave, generate_square_wave, generate_triangle_wave, sin_val};

/// One unit in Q32.32.
const UNIT: f64 = 4294967296.0;

/// A real number as a Q32.32 raw value.
fn raw(x: f64) -> i64 {
    (x * UNIT).round() as i64
}

/// A Q32.32 raw value as a real number.
fn to_float(r: i64) -> f64 {
    (r as f64) / UNIT
}

fn sine_buffer(n: usize, f: f64, s: f64, a: f64) -> Vec<i64> {
    let mut buf: Vec<i64> = vec![0; n];
    generate_sine_wave(&mut buf[..], raw(f), raw(s), raw(a));
    buf
}

#[test]
fn s1_sine_one_full_period() {
    let buf = sine_buffer(8, 1.0, 8.0, 1.0);
    let expected = [
        0.0, 0.7071068, 1.0, 0.7071068, 0.0, -0.7071068, -1.0, -0.7071068,
    ];
    for i in 0..8 {
        let got = to_float(buf[i]);
        // The series truncated at the x^13 term is about pi^15 / 15!, or
        // 2.2e-5, away from zero at the half-period angle pi, so the sample
        // next to the sign change cannot come closer to zero than that.
        let tol = if i == 4 { 3.0e-5 } else { 1.0e-6 };
        assert!(
            (got - expected[i]).abs() <= tol,
            "sample {}: got {}, expected {}",
            i,
            got,
            expected[i]
        );
    }
}

#[test]
fn s2_sine_dc_is_all_zero() {
    let buf = sine_buffer(5, 0.0, 44100.0, 2.5);
    assert_eq!(buf, vec![0, 0, 0, 0, 0]);
}

#[test]
fn s3_square_wave() {
    let mut buf: Vec<i64> = vec![0; 6];
    generate_square_wave(&mut buf[..], raw(0.5));
    let expected = [0.5, -0.5, 0.5, -0.5, 0.5, -0.5];
    for i in 0..6 {
        assert_eq!(to_float(buf[i]), expected[i], "sample {}", i);
    }
}

#[test]
fn s4_triangle_wave_same_as_square() {
    let mut tri: Vec<i64> = vec![0; 4];
    generate_triangle_wave(&mut tri[..], raw(1.0));
    let expected = [1.0, -1.0, 1.0, -1.0];
    for i in 0..4 {
        assert_eq!(to_float(tri[i]), expected[i], "sample {}", i);
    }
    let mut sq: Vec<i64> = vec![0; 4];
    generate_square_wave(&mut sq[..], raw(1.0));
    assert_eq!(tri, sq);
}

#[test]
fn s5_empty_buffers_stay_empty() {
    let mut buf: Vec<i64> = Vec::new();
    generate_sine_wave(&mut buf[..], raw(1.0), raw(1.0), raw(1.0));
    assert!(buf.is_empty());
    generate_square_wave(&mut buf[..], raw(1.0));
    assert!(buf.is_empty());
    generate_triangle_wave(&mut buf[..], raw(1.0));
    assert!(buf.is_empty());
}

#[test]
fn zero_frequency_is_silent_for_any_rate_and_amplitude() {
    for &(s, a) in &[(44100.0, 2.5), (-8.0, 1.0), (0.25, -3.0), (1.0, 0.0)] {
        let buf = sine_buffer(16, 0.0, s, a);
        assert!(buf.iter().all(|&v| v == 0), "rate {}, amplitude {}", s, a);
    }
}

#[test]
fn sine_is_deterministic_bit_for_bit() {
    let b1 = sine_buffer(64, 440.0, 44100.0, 0.8);
    let b2 = sine_buffer(64, 440.0, 44100.0, 0.8);
    assert_eq!(b1, b2);
}

#[test]
fn parity_waves_are_deterministic_bit_for_bit() {
    let mut b1: Vec<i64> = vec![0; 33];
    let mut b2: Vec<i64> = vec![7; 33];
    generate_square_wave(&mut b1[..], raw(0.3));
    generate_square_wave(&mut b2[..], raw(0.3));
    assert_eq!(b1, b2);
}

#[test]
fn square_and_triangle_adjacent_samples_cancel() {
    let mut sq: Vec<i64> = vec![0; 9];
    generate_square_wave(&mut sq[..], raw(0.7));
    for i in 0..8 {
        assert_eq!(sq[i] + sq[i + 1], 0, "square index {}", i);
    }
    let mut tri: Vec<i64> = vec![0; 9];
    generate_triangle_wave(&mut tri[..], raw(-2.5));
    for i in 0..8 {
        assert_eq!(tri[i] + tri[i + 1], 0, "triangle index {}", i);
    }
}

#[test]
fn square_samples_equal_plus_or_minus_amplitude_exactly() {
    let a = raw(0.5);
    let mut buf: Vec<i64> = vec![0; 10];
    generate_square_wave(&mut buf[..], a);
    for (i, &v) in buf.iter().enumerate() {
        if i % 2 == 0 {
            assert_eq!(v, a);
        } else {
            assert_eq!(v, -a);
        }
    }
}

#[test]
fn negative_amplitude_square_flips_the_wave() {
    let a = raw(-0.5);
    let mut buf: Vec<i64> = vec![0; 4];
    generate_square_wave(&mut buf[..], a);
    assert_eq!(to_float(buf[0]), -0.5);
    assert_eq!(to_float(buf[1]), 0.5);
    assert_eq!(to_float(buf[2]), -0.5);
    assert_eq!(to_float(buf[3]), 0.5);
}

#[test]
fn sine_stays_within_amplitude_bound() {
    for &(f, s, a) in &[
        (1.0, 8.0, 1.0),
        (440.0, 44100.0, 2.5),
        (-3.5, 11.0, -0.25),
        (997.0, 8000.0, 1.0e6),
        (0.1, -7.3, 123.456),
    ] {
        let buf = sine_buffer(256, f, s, a);
        let cap = a.abs() * (1.0 + 1.0e-6);
        for (i, &v) in buf.iter().enumerate() {
            assert!(
                to_float(v).abs() <= cap,
                "f {}, s {}, a {}, sample {}: {}",
                f,
                s,
                a,
                i,
                to_float(v)
            );
        }
    }
}

#[test]
fn generators_keep_length_and_overwrite_every_sample() {
    // The sentinel is far above any sample the parameters can produce, so a
    // surviving sentinel would betray a position that was never written.
    let sentinel = i64::MAX;
    let mut buf: Vec<i64> = vec![sentinel; 37];
    generate_sine_wave(&mut buf[..], raw(440.0), raw(44100.0), raw(0.8));
    assert_eq!(buf.len(), 37);
    assert!(buf.iter().all(|&v| v != sentinel));
    let mut buf: Vec<i64> = vec![sentinel; 12];
    generate_square_wave(&mut buf[..], raw(1.5));
    assert_eq!(buf.len(), 12);
    assert!(buf.iter().all(|&v| v != sentinel));
    let mut buf: Vec<i64> = vec![sentinel; 12];
    generate_triangle_wave(&mut buf[..], raw(-1.5));
    assert_eq!(buf.len(), 12);
    assert!(buf.iter().all(|&v| v != sentinel));
}

#[test]
fn sine_repeats_after_a_whole_period() {
    // One cycle spans 8 samples, so samples 8 apart share a phase up to the
    // fixed-point reduction.
    let buf = sine_buffer(24, 1.0, 8.0, 1.0);
    for i in 0..16 {
        let d = (to_float(buf[i]) - to_float(buf[i + 8])).abs();
        assert!(d <= 1.0e-6, "index {}: difference {}", i, d);
    }
}

#[test]
fn sin_val_matches_the_filled_buffer() {
    let f = raw(440.0);
    let s = raw(44100.0);
    let a = raw(0.8);
    let mut buf: Vec<i64> = vec![0; 20];
    generate_sine_wave(&mut buf[..], f, s, a);
    for i in 0..20 {
        assert_eq!(buf[i], sin_val(f, i, s, a), "index {}", i);
    }
}

#[test]
fn sine_is_odd_in_the_frequency() {
    let s = raw(44100.0);
    let a = raw(1.0);
    for i in 0..32 {
        assert_eq!(
            sin_val(raw(440.0), i, s, a),
            -sin_val(raw(-440.0), i, s, a),
            "index {}",
            i
        );
    }
}

#[test]
fn sine_quarter_period_peaks_at_amplitude() {
    // f = 1, s = 4: indices 0..4 hit phases 0, pi/2, pi, 3pi/2.
    let buf = sine_buffer(4, 1.0, 4.0, 2.0);
    assert_eq!(to_float(buf[0]), 0.0);
    assert!((to_float(buf[1]) - 2.0).abs() <= 2.0e-6);
    assert!(to_float(buf[2]).abs() <= 6.0e-5);
    assert!((to_float(buf[3]) + 2.0).abs() <= 2.0e-6);
}

#[test]
fn sine_repeats_exactly_when_the_phase_step_divides_a_turn() {
    // With s = 2 f, two samples advance the phase by exactly one turn even
    // in the fixed-point representation, so the buffer repeats bit for bit.
    let buf = sine_buffer(10, 1.0, 2.0, 1.0);
    for i in 0..8 {
        assert_eq!(buf[i], buf[i + 2], "index {}", i);
    }
}
