use chord_string::sound::{Op, Sinusoid, Synth, SynthDecoder, CHANNELS, SAMPLE_RATE};
use std::f32::consts::PI;

fn arithmetic(op: Op<f32>) -> f32 {
    match op {
        Op::Step { frequency, sample_rate } => 2.0 * PI * frequency / sample_rate as f32,
        Op::Silence => 0.,
        Op::Partial { partial, phase } => {
            partial.amplitude * f32::cos(partial.frequency_multiple * phase - partial.phase)
        }
        Op::Mix { sum, term } => sum + term,
        Op::Advance { phase, step } => (phase + step).rem_euclid(2.0 * PI),
    }
}

/// Answers with a number that shows which question was put and with what.
fn telling(op: Op<i64>) -> i64 {
    match op {
        Op::Step { frequency, sample_rate } => frequency * 100_000 + sample_rate as i64,
        Op::Silence => 5,
        Op::Partial { partial, phase } => {
            partial.amplitude * 100 + partial.frequency_multiple * 10 + partial.phase + phase
        }
        Op::Mix { sum, term } => sum * 1000 + term,
        Op::Advance { phase, step } => phase + step,
    }
}

fn sine_spectrum() -> Vec<Sinusoid<f32>> {
    vec![
        Sinusoid { amplitude: 0.25, phase: 0., frequency_multiple: 1.0 },
        Sinusoid { amplitude: 0.23, phase: 0., frequency_multiple: 1.03 },
        Sinusoid { amplitude: 0.21, phase: 0., frequency_multiple: 1.05 },
    ]
}

fn finite(x: f32) -> bool {
    x.is_finite()
}

fn any(_: i64) -> bool {
    true
}

fn tone(frequency: f32) -> SynthDecoder<f32> {
    Synth::new(frequency, sine_spectrum(), &finite).decoder(0., &arithmetic)
}

#[test]
fn a_tone_keeps_its_frequency_and_spectrum() {
    let synth =
        Synth::new(3i64, vec![Sinusoid { amplitude: 1, phase: 2, frequency_multiple: 3 }], &any);
    assert_eq!(synth.frequency(), 3);
    assert_eq!(synth.spectrum().len(), 1);
    assert_eq!(synth.spectrum()[0].amplitude, 1);
    assert_eq!(synth.spectrum()[0].phase, 2);
    assert_eq!(synth.spectrum()[0].frequency_multiple, 3);
}

#[test]
fn a_stream_starts_at_phase_zero_with_the_step_of_its_frequency() {
    let one = Sinusoid { amplitude: 1, phase: 0, frequency_multiple: 1 };
    let d = Synth::new(3i64, vec![one], &any).decoder(0, &telling);
    assert_eq!(d.phase(), 0);
    assert_eq!(d.step(), 344_100);
    let d = tone(110.);
    assert_eq!(d.phase(), 0.);
    assert_eq!(d.step(), 2.0 * PI * 110. / 44_100.);
}

#[test]
fn the_stream_is_mono_at_the_fixed_rate_and_never_ends() {
    let d = tone(440.);
    assert_eq!(d.channels(), 1);
    assert_eq!(d.channels(), CHANNELS);
    assert_eq!(d.sample_rate(), 44_100);
    assert_eq!(d.sample_rate(), SAMPLE_RATE);
    assert_eq!(d.current_frame_len(), None);
    assert_eq!(d.total_duration(), None);
}

#[test]
fn a_sample_mixes_the_partials_in_order_and_then_the_phase_moves() {
    let spectrum = vec![
        Sinusoid { amplitude: 1, phase: 2, frequency_multiple: 3 },
        Sinusoid { amplitude: 4, phase: 5, frequency_multiple: 6 },
    ];
    let mut d = Synth::new(0i64, spectrum, &any).decoder(0, &telling);
    assert_eq!(d.step(), 44_100);
    // From silence, 5: first partial 132, mixed 5132; second 465, mixed 5132465.
    assert_eq!(d.next(&telling), Some(5_132_465));
    assert_eq!(d.phase(), 44_100);
    assert_eq!(d.step(), 44_100);
    // The same partials, now seen at the phase reached.
    assert_eq!(d.next(&telling), Some((5 * 1000 + 132 + 44_100) * 1000 + 465 + 44_100));
    assert_eq!(d.phase(), 88_200);
}

#[test]
fn a_tone_needs_a_partial_and_finite_numbers() {
    let good = Sinusoid { amplitude: 0.5f32, phase: 0., frequency_multiple: 1. };
    assert!(Synth::checked(110., Vec::new(), &finite).is_none());
    assert!(Synth::checked(f32::NAN, vec![good], &finite).is_none());
    assert!(Synth::checked(f32::INFINITY, vec![good], &finite).is_none());
    let loud = Sinusoid { amplitude: f32::INFINITY, phase: 0., frequency_multiple: 1. };
    assert!(Synth::checked(110., vec![good, loud], &finite).is_none());
    let none = Sinusoid { amplitude: f32::NAN, phase: 0., frequency_multiple: 1. };
    assert!(Synth::checked(110., vec![none, good], &finite).is_none());
    let synth = Synth::checked(110., vec![good, good], &finite).unwrap();
    assert_eq!(synth.frequency(), 110.);
    assert_eq!(synth.spectrum().len(), 2);
    assert_eq!(synth.spectrum()[1].amplitude, 0.5);
    assert!(Synth::checked(-110., vec![good], &finite).is_some());
}

#[test]
fn the_phase_stays_within_one_period_when_the_tone_runs_backwards() {
    let mut d = tone(-110.);
    for _ in 0..50_000 {
        assert!(d.next(&arithmetic).unwrap().is_finite());
        assert!(d.phase() >= 0.);
        assert!(d.phase() <= 2.0 * PI);
    }
}

#[test]
fn a_sample_is_the_weighted_sum_of_the_cosines() {
    let spectrum = vec![
        Sinusoid { amplitude: 0.5, phase: 0.3, frequency_multiple: 1.0 },
        Sinusoid { amplitude: 0.25, phase: PI, frequency_multiple: 2.0 },
        Sinusoid { amplitude: 0.125, phase: -1.0, frequency_multiple: 3.5 },
    ];
    let mut d = Synth::new(1000., spectrum.clone(), &finite).decoder(0., &arithmetic);
    for _ in 0..200 {
        let phase = d.phase();
        let mut expected = 0.0f32;
        for s in &spectrum {
            expected += s.amplitude * f32::cos(s.frequency_multiple * phase - s.phase);
        }
        assert_eq!(d.next(&arithmetic), Some(expected));
    }
    // At phase 0 the first sample is the sum of amplitude * cos(-offset).
    let mut d = Synth::new(1000., spectrum, &finite).decoder(0., &arithmetic);
    let first = d.next(&arithmetic).unwrap();
    let by_hand = 0.5 * f32::cos(0.3) + 0.25 * f32::cos(PI) + 0.125 * f32::cos(1.0);
    assert!((first - by_hand).abs() < 1e-6);
}

#[test]
fn the_phase_stays_within_one_period() {
    for frequency in [27.5f32, 110., 440., 441., 1234.5, 8000., 20000.] {
        let mut d = tone(frequency);
        for _ in 0..50_000 {
            assert!(d.next(&arithmetic).unwrap().is_finite());
            assert!(d.phase() >= 0.);
            assert!(d.phase() < 2.0 * PI);
        }
    }
}

#[test]
fn the_samples_repeat_with_the_period_of_the_tone() {
    // 441 Hz at 44 100 samples a second: one period every 100 samples.
    let mut d = tone(441.);
    let samples: Vec<f32> = (0..2000).map(|_| d.next(&arithmetic).unwrap()).collect();
    for i in 0..1900 {
        assert!((samples[i] - samples[i + 100]).abs() < 2e-3);
    }
    assert!((samples[0] - 0.69).abs() < 1e-6);
    assert!((samples[0] - samples[50]).abs() > 0.5);
}

#[test]
fn a_low_la_repeats_every_four_hundred_and_one_samples() {
    let mut d = tone(110.);
    let samples: Vec<f32> = (0..8000).map(|_| d.next(&arithmetic).unwrap()).collect();
    let autocorrelation = |lag: usize| -> f64 {
        (0..4000).map(|i| samples[i] as f64 * samples[i + lag] as f64).sum()
    };
    let mut best = 200;
    for lag in 200..700 {
        if autocorrelation(lag) > autocorrelation(best) {
            best = lag;
        }
    }
    assert!(best >= 400 && best <= 402);
    assert!(autocorrelation(401) > autocorrelation(380));
    assert!(autocorrelation(401) > autocorrelation(420));
}
