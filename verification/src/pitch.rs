//! Rendering a pitch as a label: chromatic name, octave, and signed
//! cents deviation, in twelve-tone equal temperament.
//!
//! A frequency's position on the chromatic scale is a real number of
//! semitones (a MIDI number, 69 at concert A). This module takes that
//! position in integer form — the nearest semitone `rounded_pitch` and
//! the nearest hundredth of a semitone `centi_pitch` — and builds the
//! label; mapping hertz to the two integers is the caller's (floating
//! point) concern.
use vstd::prelude::*;
use vstd::string::StringExecFns;

verus! {

/// The twelve chromatic pitch-class names, anchored to C (pitch class
/// 0 is C, so MIDI 0 is the C of octave -1).
pub open spec fn spec_pitch_name(pc: int) -> Seq<char> {
    if pc == 0 {
        seq!['C']
    } else if pc == 1 {
        seq!['C', '#']
    } else if pc == 2 {
        seq!['D']
    } else if pc == 3 {
        seq!['E', 'b']
    } else if pc == 4 {
        seq!['E']
    } else if pc == 5 {
        seq!['F']
    } else if pc == 6 {
        seq!['F', '#']
    } else if pc == 7 {
        seq!['G']
    } else if pc == 8 {
        seq!['G', '#']
    } else if pc == 9 {
        seq!['A']
    } else if pc == 10 {
        seq!['B', 'b']
    } else {
        seq!['B']
    }
}

pub open spec fn spec_digit(d: int) -> char {
    if d == 0 {
        '0'
    } else if d == 1 {
        '1'
    } else if d == 2 {
        '2'
    } else if d == 3 {
        '3'
    } else if d == 4 {
        '4'
    } else if d == 5 {
        '5'
    } else if d == 6 {
        '6'
    } else if d == 7 {
        '7'
    } else if d == 8 {
        '8'
    } else {
        '9'
    }
}

/// The decimal digits of a non-negative integer, most significant
/// first.
pub open spec fn spec_decimal(n: int) -> Seq<char>
    recommends
        n >= 0,
    decreases n,
{
    if n < 10 {
        seq![spec_digit(n)]
    } else {
        spec_decimal(n / 10).push(spec_digit(n % 10))
    }
}

/// A signed cents deviation as text: an explicit sign, then the
/// magnitude in decimal.
pub open spec fn spec_cents(c: int) -> Seq<char> {
    if c >= 0 {
        seq!['+'] + spec_decimal(c)
    } else {
        seq!['-'] + spec_decimal(-c)
    }
}

/// The label for the pitch nearest `rounded_pitch` semitones (with
/// `centi_pitch` the same position in hundredths of a semitone): the
/// chromatic name of its pitch class, the octave (truncating division,
/// octave 0 starting at MIDI 12), and the cents deviation recentered
/// into `[-50, 50)`. Below octave 0 the label is the sentinel `"< C1"`.
pub open spec fn spec_pitch_label(rounded_pitch: int, centi_pitch: int) -> Seq<char> {
    if rounded_pitch < 12 {
        seq!['<', ' ', 'C', '1']
    } else {
        let rem = centi_pitch % 100;
        let cents = if rem >= 50 {
            rem - 100
        } else {
            rem
        };
        spec_pitch_name(rounded_pitch % 12) + spec_decimal(rounded_pitch / 12 - 1) + seq![' ']
            + spec_cents(cents)
    }
}

fn digit_str(d: u64) -> (r: &'static str)
    requires
        d < 10,
    ensures
        r@ == seq![spec_digit(d as int)],
{
    let r: &'static str = if d == 0 {
        "0"
    } else if d == 1 {
        "1"
    } else if d == 2 {
        "2"
    } else if d == 3 {
        "3"
    } else if d == 4 {
        "4"
    } else if d == 5 {
        "5"
    } else if d == 6 {
        "6"
    } else if d == 7 {
        "7"
    } else if d == 8 {
        "8"
    } else {
        "9"
    };
    proof {
        reveal_strlit("0");
        reveal_strlit("1");
        reveal_strlit("2");
        reveal_strlit("3");
        reveal_strlit("4");
        reveal_strlit("5");
        reveal_strlit("6");
        reveal_strlit("7");
        reveal_strlit("8");
        reveal_strlit("9");
        assert(r@ =~= seq![spec_digit(d as int)]);
    }
    r
}

/// A non-negative integer in decimal, most significant digit first.
pub fn decimal_string(n: u64) -> (r: String)
    ensures
        r@ == spec_decimal(n as int),
    decreases n,
{
    if n < 10 {
        let r = String::from_str(digit_str(n));
        proof {
            assert(r@ =~= spec_decimal(n as int));
        }
        r
    } else {
        let mut r = decimal_string(n / 10);
        r.append(digit_str(n % 10));
        proof {
            assert(r@ =~= spec_decimal(n as int));
        }
        r
    }
}

fn pitch_name_str(pc: u64) -> (r: &'static str)
    requires
        pc < 12,
    ensures
        r@ == spec_pitch_name(pc as int),
{
    let r: &'static str = if pc == 0 {
        "C"
    } else if pc == 1 {
        "C#"
    } else if pc == 2 {
        "D"
    } else if pc == 3 {
        "Eb"
    } else if pc == 4 {
        "E"
    } else if pc == 5 {
        "F"
    } else if pc == 6 {
        "F#"
    } else if pc == 7 {
        "G"
    } else if pc == 8 {
        "G#"
    } else if pc == 9 {
        "A"
    } else if pc == 10 {
        "Bb"
    } else {
        "B"
    };
    proof {
        reveal_strlit("C");
        reveal_strlit("C#");
        reveal_strlit("D");
        reveal_strlit("Eb");
        reveal_strlit("E");
        reveal_strlit("F");
        reveal_strlit("F#");
        reveal_strlit("G");
        reveal_strlit("G#");
        reveal_strlit("A");
        reveal_strlit("Bb");
        reveal_strlit("B");
        assert(r@ =~= spec_pitch_name(pc as int));
    }
    r
}

/// Render a pitch position as a label such as `"A4 +0"`, or `"< C1"`
/// below octave 0.
///
/// `rounded_pitch` is the nearest whole semitone and `centi_pitch` the
/// nearest hundredth of a semitone of the same real pitch position, so
/// the two agree to within half a semitone.
pub fn pitch_label(rounded_pitch: i64, centi_pitch: i64) -> (r: String)
    requires
        100 * rounded_pitch - 50 <= centi_pitch <= 100 * rounded_pitch + 50,
    ensures
        r@ == spec_pitch_label(rounded_pitch as int, centi_pitch as int),
{
    if rounded_pitch < 12 {
        let r = String::from_str("< C1");
        proof {
            reveal_strlit("< C1");
            assert(r@ =~= spec_pitch_label(rounded_pitch as int, centi_pitch as int));
        }
        return r;
    }
    let rp = rounded_pitch as u64;
    let pc = rp % 12;
    let octave = rp / 12 - 1;
    let cp = centi_pitch as u64;
    let rem = cp % 100;
    let mut r = String::from_str(pitch_name_str(pc));
    let octave_digits = decimal_string(octave);
    r.append(octave_digits.as_str());
    r.append(" ");
    if rem >= 50 {
        r.append("-");
        let cents_digits = decimal_string(100 - rem);
        r.append(cents_digits.as_str());
    } else {
        r.append("+");
        let cents_digits = decimal_string(rem);
        r.append(cents_digits.as_str());
    }
    proof {
        reveal_strlit(" ");
        reveal_strlit("+");
        reveal_strlit("-");
        assert(r@ =~= spec_pitch_label(rounded_pitch as int, centi_pitch as int));
    }
    r
}

/// Raising the rounded pitch by one semitone advances the pitch class
/// by one step, cycling through the twelve-name table; raising it by
/// an octave keeps the pitch class and advances the octave by one.
pub proof fn lemma_semitone_cycles_names(rounded_pitch: int)
    requires
        rounded_pitch >= 0,
    ensures
        (rounded_pitch + 1) % 12 == if rounded_pitch % 12 == 11 {
            0int
        } else {
            rounded_pitch % 12 + 1
        },
        (rounded_pitch + 12) % 12 == rounded_pitch % 12,
        (rounded_pitch + 12) / 12 == rounded_pitch / 12 + 1,
{
    vstd::arithmetic::div_mod::lemma_add_mod_noop(rounded_pitch, 1, 12);
    vstd::arithmetic::div_mod::lemma_mod_add_multiples_vanish(rounded_pitch, 12);
    vstd::arithmetic::div_mod::lemma_div_plus_one(rounded_pitch, 12);
}

} // verus!
