use vstd::prelude::*;

pub mod beat_range;
pub mod beat_span;
pub mod beat_time;
pub mod fixed_point;
pub mod offset_beat_range;
pub mod offset_beat_span;
pub mod seconds_time;

verus! {

/// `a / d` rounded up.
pub open spec fn div_ceil_spec(a: nat, d: nat) -> nat {
    if a % d == 0 {
        a / d
    } else {
        a / d + 1
    }
}

/// Seconds (in ticks) to beats (in ticks) at `bpm` beats per minute, rounded down.
pub open spec fn seconds_to_beats(bits: nat, bpm: nat) -> nat {
    bits * bpm / 60
}

/// Beats (in ticks) to seconds (in ticks) at `bpm` beats per minute, rounded up.
pub open spec fn beats_to_seconds(bits: nat, bpm: nat) -> nat {
    div_ceil_spec(bits * 60, bpm)
}

/// Frames at `sample_rate` frames per second to seconds (in ticks), rounded down.
pub open spec fn frames_to_seconds(frames: nat, sample_rate: nat) -> nat {
    frames * (fixed_point::FACTOR as nat) / sample_rate
}

/// Seconds (in ticks) to frames at `sample_rate` frames per second, rounded down.
pub open spec fn seconds_to_frames(bits: nat, sample_rate: nat) -> nat {
    bits * sample_rate / (fixed_point::FACTOR as nat)
}

/// Turning beats into seconds and back never loses time: the seconds are rounded up, so the
/// beats come back at least as large.
pub proof fn lemma_beats_seconds_beats(bits: nat, bpm: nat)
    requires
        bpm > 0,
    ensures
        seconds_to_beats(beats_to_seconds(bits, bpm), bpm) >= bits,
{
    let a = bits * 60;
    let s = beats_to_seconds(bits, bpm);
    assert(s * bpm >= a) by (nonlinear_arith)
        requires
            bpm > 0,
            s == (if a % bpm == 0 { a / bpm } else { a / bpm + 1 }),
    ;
    assert(s * bpm / 60 >= bits) by (nonlinear_arith)
        requires s * bpm >= bits * 60;
}

/// Turning seconds into beats and back never adds time: the beats are rounded down, and the
/// seconds come back no larger.
pub proof fn lemma_seconds_beats_seconds(bits: nat, bpm: nat)
    requires
        bpm > 0,
    ensures
        beats_to_seconds(seconds_to_beats(bits, bpm), bpm) <= bits,
{
    let b = bits * bpm / 60;
    assert(b * 60 <= bits * bpm) by (nonlinear_arith)
        requires b == bits * bpm / 60;
    let a = b * 60;
    assert(a / bpm <= bits) by (nonlinear_arith)
        requires a <= bits * bpm, bpm > 0;
    if a % bpm != 0 {
        assert(a / bpm < bits) by (nonlinear_arith)
            requires a <= bits * bpm, bpm > 0, a % bpm != 0;
    }
}

/// Where the sample rate divides the number of ticks in a second (as 44100, 48000, 88200,
/// 96000 and 192000 do), a frame number turned into seconds and back is the same frame.
pub proof fn lemma_frames_roundtrip(frames: nat, sample_rate: nat)
    requires
        sample_rate > 0,
        (fixed_point::FACTOR as nat) % sample_rate == 0,
    ensures
        seconds_to_frames(frames_to_seconds(frames, sample_rate), sample_rate) == frames,
{
    let f = fixed_point::FACTOR as nat;
    let k = f / sample_rate;
    assert(f == k * sample_rate) by (nonlinear_arith)
        requires sample_rate > 0, f % sample_rate == 0, k == f / sample_rate;
    assert(frames * f / sample_rate == frames * k) by (nonlinear_arith)
        requires sample_rate > 0, f == k * sample_rate;
    assert(frames * k * sample_rate / f == frames) by (nonlinear_arith)
        requires f == k * sample_rate, f > 0;
}

/// Later frames are no earlier in seconds, and later times fall in no earlier frames.
pub proof fn lemma_conversions_monotone(a: nat, b: nat, rate: nat)
    requires
        a <= b,
        rate > 0,
    ensures
        frames_to_seconds(a, rate) <= frames_to_seconds(b, rate),
        seconds_to_frames(a, rate) <= seconds_to_frames(b, rate),
        seconds_to_beats(a, rate) <= seconds_to_beats(b, rate),
        beats_to_seconds(a, rate) <= beats_to_seconds(b, rate),
{
    let f = fixed_point::FACTOR as nat;
    assert(a * f / rate <= b * f / rate) by (nonlinear_arith)
        requires a <= b, rate > 0;
    assert(a * rate / f <= b * rate / f) by (nonlinear_arith)
        requires a <= b, f > 0;
    assert(a * rate / 60 <= b * rate / 60) by (nonlinear_arith)
        requires a <= b;
    let x = a * 60;
    let y = b * 60;
    assert(x <= y) by (nonlinear_arith)
        requires a <= b, x == a * 60, y == b * 60;
    assert(div_ceil_spec(x, rate) <= div_ceil_spec(y, rate)) by (nonlinear_arith)
        requires x <= y, rate > 0;
}

} // verus!
