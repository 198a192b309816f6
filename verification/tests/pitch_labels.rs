use pitch_core::pitch::{decimal_string, pitch_label};

/// Map a frequency to its pitch label: the (floating point) chromatic
/// position is computed here, the label itself by the library.
fn hz_to_pitch(hz: f64) -> String {
    let midi_number = 69.0 + 12.0 * (hz / 440.0).log2();
    let rounded_pitch = midi_number.round() as i64;
    let centi_pitch = (midi_number * 100.0).round() as i64;
    pitch_label(rounded_pitch, centi_pitch)
}

#[test]
fn a4_is_correct() {
    assert_eq!(hz_to_pitch(440.0), "A4 +0");
}

#[test]
fn a2_is_correct() {
    assert_eq!(hz_to_pitch(110.0), "A2 +0");
}

#[test]
fn c4_is_correct() {
    assert_eq!(hz_to_pitch(261.63), "C4 +0");
}

#[test]
fn f5_is_correct() {
    assert_eq!(hz_to_pitch(698.46), "F5 +0");
}

#[test]
fn semitone_steps_cycle_the_names() {
    let names = ["C", "C#", "D", "Eb", "E", "F", "F#", "G", "G#", "A", "Bb", "B"];
    let semitone = 2.0_f64.powf(1.0 / 12.0);
    let mut hz = 440.0_f64;
    for k in 0i64..25 {
        let midi_number = 69.0 + 12.0 * (hz / 440.0).log2();
        let rounded_pitch = midi_number.round() as i64;
        assert_eq!(rounded_pitch, 69 + k, "one semitone must advance the pitch by one");
        let expected_name = names[(rounded_pitch % 12) as usize];
        let label = hz_to_pitch(hz);
        let name_part: String =
            label.chars().take_while(|c| !c.is_ascii_digit()).collect();
        assert_eq!(name_part, expected_name, "label={}", label);
        hz *= semitone;
    }
}

#[test]
fn sharp_pitches_report_negative_cents() {
    // 55 cents above A4: nearest pitch is Bb4, 45 cents flat
    assert_eq!(pitch_label(70, 6955), "Bb4 -45");
}

#[test]
fn flat_pitches_report_positive_cents() {
    assert_eq!(pitch_label(69, 6902), "A4 +2");
}

#[test]
fn pitches_below_octave_zero_use_the_sentinel() {
    assert_eq!(pitch_label(11, 1100), "< C1");
    assert_eq!(pitch_label(0, 0), "< C1");
    assert_eq!(pitch_label(-30, -3010), "< C1");
}

#[test]
fn octave_boundaries() {
    assert_eq!(pitch_label(12, 1200), "C0 +0");
    assert_eq!(pitch_label(23, 2300), "B0 +0");
    assert_eq!(pitch_label(24, 2400), "C1 +0");
    assert_eq!(pitch_label(127, 12700), "G9 +0");
}

#[test]
fn decimal_rendering_is_exact() {
    assert_eq!(decimal_string(0), "0");
    assert_eq!(decimal_string(7), "7");
    assert_eq!(decimal_string(10), "10");
    assert_eq!(decimal_string(1234), "1234");
    assert_eq!(decimal_string(u64::MAX), "18446744073709551615");
}
