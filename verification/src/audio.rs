//! PCM audio. The codec's bus carries 16-bit stereo frames; everything else works in
//! 16-bit mono, copied to both channels on the way out and taken from the left one
//! on the way in. Samples are little-endian.

use vstd::prelude::*;

use crate::config::AUDIO_CHUNK_BYTES;
use crate::config::SAMPLE_RATE;

verus! {

/// The stereo form of a full mono chunk.
pub const STEREO_BYTES: usize = AUDIO_CHUNK_BYTES * 2;

/// Amplitude of a beep.
pub const BEEP_AMPLITUDE: i16 = 7000;

// ---------------------------------------------------------------------------
// Samples
// ---------------------------------------------------------------------------
/// The sample that two bytes hold.
pub open spec fn sample_value(low: u8, high: u8) -> int {
    let u = low as int + 256 * high as int;
    if u < 0x8000 {
        u
    } else {
        u - 0x1_0000
    }
}

/// The samples that mono PCM holds; an odd last byte belongs to none.
pub open spec fn samples_in(mono: Seq<u8>) -> Seq<int> {
    Seq::new((mono.len() / 2) as nat, |i: int| sample_value(mono[2 * i], mono[2 * i + 1]))
}

/// PCM that is read in parts holds the samples of the parts, one after the other, as
/// long as no part ends in the middle of a sample.
pub proof fn law_samples_in_parts(a: Seq<u8>, b: Seq<u8>)
    requires
        a.len() % 2 == 0,
    ensures
        samples_in(a + b) == samples_in(a) + samples_in(b),
{
    let whole = samples_in(a + b);
    let parts = samples_in(a) + samples_in(b);
    assert(whole.len() == parts.len());
    assert forall|i: int| 0 <= i < whole.len() implies whole[i] == parts[i] by {
        let n = a.len() / 2;
        if i >= n {
            assert((a + b)[2 * i] == b[2 * (i - n)]);
            assert((a + b)[2 * i + 1] == b[2 * (i - n) + 1]);
        }
    }
    assert(whole == parts);
}

/// A sample is the 16-bit number, in two's complement, whose low byte comes first.
pub proof fn law_sample_value(low: u8, high: u8)
    ensures
        -0x8000 <= sample_value(low, high) <= 0x7fff,
        (sample_value(low, high) - low) % 0x100 == 0,
        (sample_value(low, high) - low - 0x100 * high) % 0x1_0000 == 0,
        sample_value(low, high) < 0 <==> high >= 0x80,
{
}

/// Mono PCM holds a sample for each two bytes, one behind the other.
pub proof fn law_samples_in(mono: Seq<u8>, i: int)
    ensures
        2 * samples_in(mono).len() <= mono.len() <= 2 * samples_in(mono).len() + 1,
        0 <= i < samples_in(mono).len() ==> samples_in(mono)[i] == sample_value(
            mono[2 * i],
            mono[2 * i + 1],
        ),
{
}

/// The distance of a number from zero.
pub open spec fn distance(x: int) -> int {
    if x < 0 {
        -x
    } else {
        x
    }
}

/// The greatest distance from zero among the samples (zero where there is none).
pub open spec fn peak_in(samples: Seq<int>) -> int
    decreases samples.len(),
{
    if samples.len() == 0 {
        0
    } else {
        let rest = peak_in(samples.drop_last());
        let last = distance(samples.last());
        if last > rest {
            last
        } else {
            rest
        }
    }
}

/// The peak is a bound on all samples, and one of them reaches it.
pub proof fn law_peak(samples: Seq<int>)
    ensures
        peak_in(samples) >= 0,
        forall|i: int| 0 <= i < samples.len() ==> distance(#[trigger] samples[i]) <= peak_in(samples),
        samples.len() > 0 ==> exists|i: int|
            0 <= i < samples.len() && distance(#[trigger] samples[i]) == peak_in(samples),
    decreases samples.len(),
{
    if samples.len() > 0 {
        let rest = samples.drop_last();
        law_peak(rest);
        assert forall|i: int| 0 <= i < samples.len() implies distance(#[trigger] samples[i])
            <= peak_in(samples) by {
            if i < rest.len() {
                assert(rest[i] == samples[i]);
            }
        }
        if distance(samples.last()) > peak_in(rest) || rest.len() == 0 {
            assert(distance(samples[samples.len() - 1]) == peak_in(samples));
        } else {
            let k = choose|i: int| 0 <= i < rest.len() && distance(#[trigger] rest[i]) == peak_in(rest);
            assert(distance(samples[k]) == peak_in(samples));
        }
    }
}

/// The sample that two bytes hold.
pub fn sample_of(low: u8, high: u8) -> (r: i16)
    ensures
        r == sample_value(low, high),
{
    let u: i32 = low as i32 + 256 * (high as i32);
    if u < 0x8000 {
        u as i16
    } else {
        (u - 0x1_0000) as i16
    }
}

/// The two bytes of a sample.
pub fn bytes_of(sample: i16) -> (r: (u8, u8))
    ensures
        sample_value(r.0, r.1) == sample,
{
    let u: i32 = if sample < 0 {
        sample as i32 + 0x1_0000
    } else {
        sample as i32
    };
    ((u % 256) as u8, (u / 256) as u8)
}

/// The two bytes of a sample are the only ones that hold it.
pub proof fn law_sample_bytes_unique(a: (u8, u8), b: (u8, u8))
    requires
        sample_value(a.0, a.1) == sample_value(b.0, b.1),
    ensures
        a == b,
{
}

/// The distance of a sample from zero.
fn distance_of(sample: i16) -> (r: i32)
    ensures
        r == distance(sample as int),
{
    let v: i32 = sample as i32;
    if v < 0 {
        -v
    } else {
        v
    }
}

/// The peak of mono PCM.
pub fn frame_peak(mono: &[u8]) -> (r: i32)
    ensures
        r == peak_in(samples_in(mono@)),
        0 <= r <= 0x8000,
{
    let ghost all = samples_in(mono@);
    let mut peak: i32 = 0;
    let mut k: usize = 0;
    let len: usize = mono.len();
    let n: usize = len / 2;
    assert(all.take(0) == Seq::<int>::empty());
    while k < n
        invariant
            len == mono@.len(),
            n == len / 2,
            all == samples_in(mono@),
            k <= n,
            peak == peak_in(all.take(k as int)),
            0 <= peak <= 0x8000,
        decreases n - k,
    {
        let v: i32 = distance_of(sample_of(mono[2 * k], mono[2 * k + 1]));
        proof {
            let t = all.take(k + 1);
            assert(t.drop_last() == all.take(k as int));
            assert(t.last() == all[k as int]);
        }
        if v > peak {
            peak = v;
        }
        k += 1;
    }
    assert(all.take(n as int) == all);
    peak
}

// ---------------------------------------------------------------------------
// Mono and stereo
// ---------------------------------------------------------------------------
/// Mono PCM as stereo frames: each sample on both channels.
pub open spec fn duplicated(mono: Seq<u8>) -> Seq<u8> {
    Seq::new((4 * (mono.len() / 2)) as nat, |i: int| mono[(i / 4) * 2 + i % 2])
}

/// The left channel of stereo frames as mono PCM; an incomplete last frame is left
/// out.
pub open spec fn left_of(stereo: Seq<u8>) -> Seq<u8> {
    Seq::new((2 * (stereo.len() / 4)) as nat, |i: int| stereo[(i / 2) * 4 + i % 2])
}

/// What is played is heard back unchanged on the left channel, up to an odd last
/// byte.
pub proof fn law_left_of_duplicated(mono: Seq<u8>)
    ensures
        left_of(duplicated(mono)) == mono.take(2 * (mono.len() as int / 2)),
{
    let st = duplicated(mono);
    let n = 2 * (mono.len() as int / 2);
    assert(st.len() == 2 * n);
    assert(left_of(st).len() == n);
    assert forall|i: int| 0 <= i < n implies (#[trigger] left_of(st)[i]) == mono[i] by {
        let k = (i / 2) * 4 + i % 2;
        assert(0 <= k < st.len());
        assert(k / 4 == i / 2 && k % 2 == i % 2);
    }
    assert(left_of(st) == mono.take(n));
}

/// What is heard is the left channel: the first two bytes of every whole frame, and
/// nothing of an incomplete one.
pub proof fn law_left_of(stereo: Seq<u8>, f: int)
    ensures
        2 * left_of(stereo).len() <= stereo.len() < 2 * left_of(stereo).len() + 4,
        left_of(stereo).len() % 2 == 0,
        0 <= 2 * f < left_of(stereo).len() ==> left_of(stereo)[2 * f] == stereo[4 * f]
            && left_of(stereo)[2 * f + 1] == stereo[4 * f + 1],
{
    if 0 <= 2 * f < left_of(stereo).len() {
        assert((2 * f) / 2 == f && (2 * f) % 2 == 0);
        assert((2 * f + 1) / 2 == f && (2 * f + 1) % 2 == 1);
    }
}

/// Stereo frames hold four bytes for each sample of the mono PCM.
pub proof fn law_duplicated_len(mono: Seq<u8>)
    ensures
        duplicated(mono).len() == 4 * samples_in(mono).len(),
{
}

/// Both channels carry the same samples.
pub proof fn law_channels_agree(mono: Seq<u8>, f: int, b: int)
    requires
        0 <= f < mono.len() / 2,
        0 <= b < 2,
    ensures
        duplicated(mono)[4 * f + b] == duplicated(mono)[4 * f + 2 + b],
        duplicated(mono)[4 * f + b] == mono[2 * f + b],
{
    let k = 4 * f + b;
    assert(k / 4 == f && k % 2 == b);
    let l = 4 * f + 2 + b;
    assert(l / 4 == f && l % 2 == b);
}

/// PCM that is played in parts is played as a whole, as long as no part ends in the
/// middle of a sample.
pub proof fn law_duplicated_parts(a: Seq<u8>, b: Seq<u8>)
    requires
        a.len() % 2 == 0,
    ensures
        duplicated(a + b) == duplicated(a) + duplicated(b),
{
    let whole = duplicated(a + b);
    let parts = duplicated(a) + duplicated(b);
    let n = a.len() as int / 2;
    assert(whole.len() == parts.len());
    assert forall|i: int| 0 <= i < whole.len() implies whole[i] == parts[i] by {
        let k = mono_place(i);
        assert(whole[i] == (a + b)[k]);
        if i < 4 * n {
            lemma_place(i, 0);
            assert(parts[i] == a[k]);
        } else {
            lemma_place(i, n);
            assert(parts[i] == b[mono_place(i - 4 * n)]);
        }
    }
    assert(whole == parts);
}

/// The place in mono PCM of what stands in a place of its stereo frames.
spec fn mono_place(i: int) -> int {
    (i / 4) * 2 + i % 2
}

/// Each frame of four bytes comes from the two bytes of one sample.
proof fn lemma_place(i: int, n: int)
    requires
        0 <= 4 * n <= i,
    ensures
        2 * (i / 4) <= mono_place(i) < 2 * (i / 4) + 2,
        2 * n <= mono_place(i),
        mono_place(i) == 2 * n + mono_place(i - 4 * n),
{
    assert((i - 4 * n) / 4 == i / 4 - n);
    assert((i - 4 * n) % 2 == i % 2);
}

/// The `k`-th chunk of mono PCM.
pub open spec fn mono_chunk(mono: Seq<u8>, k: int) -> Seq<u8> {
    let from = k * AUDIO_CHUNK_BYTES;
    let to = (k + 1) * AUDIO_CHUNK_BYTES;
    mono.subrange(
        from,
        if to <= mono.len() {
            to
        } else {
            mono.len() as int
        },
    )
}

/// How many chunks mono PCM has.
pub open spec fn chunk_count(mono: Seq<u8>) -> int {
    (mono.len() + AUDIO_CHUNK_BYTES - 1) / (AUDIO_CHUNK_BYTES as int)
}

/// Mono PCM as stereo frames.
pub fn to_stereo(mono: &[u8], from: usize, to: usize) -> (r: Vec<u8>)
    requires
        from <= to <= mono@.len(),
    ensures
        r@ == duplicated(mono@.subrange(from as int, to as int)),
{
    let ghost part = mono@.subrange(from as int, to as int);
    let mut out: Vec<u8> = Vec::new();
    let n: usize = (to - from) / 2;
    let mut k: usize = 0;
    while k < n
        invariant
            from <= to <= mono@.len(),
            part == mono@.subrange(from as int, to as int),
            n == (to - from) / 2,
            k <= n,
            out@ == duplicated(part).take(4 * k),
        decreases n - k,
    {
        let low: u8 = mono[from + 2 * k];
        let high: u8 = mono[from + 2 * k + 1];
        proof {
            law_channels_agree(part, k as int, 0);
            law_channels_agree(part, k as int, 1);
            assert(part[2 * k] == low && part[2 * k + 1] == high);
        }
        out.push(low);
        out.push(high);
        out.push(low);
        out.push(high);
        k += 1;
        assert(out@ == duplicated(part).take(4 * k));
    }
    assert(duplicated(part).take(4 * n) == duplicated(part));
    out
}

/// The stereo frames of the `k`-th chunk of mono PCM, or nothing behind the last.
pub fn stereo_chunk(mono: &[u8], k: usize) -> (r: Option<Vec<u8>>)
    ensures
        r is Some <==> k < chunk_count(mono@),
        r is Some ==> r->0@ == duplicated(mono_chunk(mono@, k as int)),
{
    let full: usize = mono.len() / AUDIO_CHUNK_BYTES;
    if k > full {
        return None;
    }
    let from: usize = k * AUDIO_CHUNK_BYTES;
    if from >= mono.len() {
        return None;
    }
    let to: usize = if mono.len() - from >= AUDIO_CHUNK_BYTES {
        from + AUDIO_CHUNK_BYTES
    } else {
        mono.len()
    };
    Some(to_stereo(mono, from, to))
}

/// The stereo frames of the chunks below `n`, one chunk after the other.
pub open spec fn chunks_played(mono: Seq<u8>, n: nat) -> Seq<u8>
    decreases n,
{
    if n == 0 {
        Seq::<u8>::empty()
    } else {
        chunks_played(mono, (n - 1) as nat) + duplicated(mono_chunk(mono, n - 1))
    }
}

/// Every chunk has 1024 bytes but the last, which has what is left and is not empty.
pub proof fn law_chunk_sizes(mono: Seq<u8>, k: int)
    requires
        0 <= k < chunk_count(mono),
    ensures
        mono_chunk(mono, k).len() == (if k < chunk_count(mono) - 1 {
            1024
        } else {
            mono.len() - 1024 * k
        }),
        0 < mono_chunk(mono, k).len() <= 1024,
        forall|i: int|
            0 <= i < mono_chunk(mono, k).len() ==> #[trigger] mono_chunk(mono, k)[i] == mono[1024 * k
                + i],
{
}

/// Playing chunk by chunk plays the whole: nothing is lost or repeated at the seams.
pub proof fn law_chunks_play_whole(mono: Seq<u8>)
    ensures
        chunks_played(mono, chunk_count(mono) as nat) == duplicated(mono),
{
    let n = chunk_count(mono);
    lemma_chunks_played(mono, n as nat);
    assert(n * AUDIO_CHUNK_BYTES >= mono.len());
    assert(mono.take(mono.len() as int) == mono);
}

proof fn lemma_chunks_played(mono: Seq<u8>, n: nat)
    requires
        n <= chunk_count(mono),
    ensures
        chunks_played(mono, n) == duplicated(
            mono.take(
                if n * AUDIO_CHUNK_BYTES <= mono.len() {
                    n * AUDIO_CHUNK_BYTES
                } else {
                    mono.len() as int
                },
            ),
        ),
    decreases n,
{
    if n > 0 {
        lemma_chunks_played(mono, (n - 1) as nat);
        let from = (n - 1) * AUDIO_CHUNK_BYTES;
        let to = if n * AUDIO_CHUNK_BYTES <= mono.len() {
            n * AUDIO_CHUNK_BYTES
        } else {
            mono.len() as int
        };
        let a = mono.take(from);
        let c = mono_chunk(mono, n - 1);
        assert(from < mono.len());
        assert(a + c == mono.take(to));
        law_duplicated_parts(a, c);
    }
}

/// A stereo chunk of silence, which settles the output after playback.
pub fn silence() -> (r: Vec<u8>)
    ensures
        r@ == Seq::new(STEREO_BYTES as nat, |i: int| 0u8),
{
    let mut out: Vec<u8> = Vec::new();
    while out.len() < STEREO_BYTES
        invariant
            out@ == Seq::new(out@.len(), |i: int| 0u8),
            out@.len() <= STEREO_BYTES,
        decreases STEREO_BYTES - out@.len(),
    {
        out.push(0);
        assert(out@ == Seq::new(out@.len(), |i: int| 0u8));
    }
    out
}

// ---------------------------------------------------------------------------
// Capture
// ---------------------------------------------------------------------------
/// How many bytes of stereo frames to read for `room` bytes of mono PCM.
pub fn stereo_wanted(room: usize) -> (r: usize)
    ensures
        r == (if 2 * room < STEREO_BYTES {
            2 * room
        } else {
            STEREO_BYTES as int
        }),
{
    if room < AUDIO_CHUNK_BYTES {
        2 * room
    } else {
        STEREO_BYTES
    }
}

/// Writes the left channel of stereo frames to the start of `out`; gives the number
/// of bytes written.
pub fn fill_mono(stereo: &[u8], out: &mut [u8]) -> (r: usize)
    requires
        left_of(stereo@).len() <= old(out)@.len(),
    ensures
        r == left_of(stereo@).len(),
        final(out)@ == left_of(stereo@) + old(out)@.skip(r as int),
{
    let ghost left = left_of(stereo@);
    let ghost before = out@;
    let len: usize = stereo.len();
    let n: usize = len / 4;
    let mut k: usize = 0;
    assert(out@ == left.take(0) + before.skip(0));
    while k < n
        invariant
            len == stereo@.len(),
            n == len / 4,
            left == left_of(stereo@),
            left.len() == 2 * n,
            left.len() <= before.len(),
            k <= n,
            out@.len() == before.len(),
            out@ == left.take(2 * k) + before.skip(2 * k),
        decreases n - k,
    {
        let low: u8 = stereo[4 * k];
        let high: u8 = stereo[4 * k + 1];
        assert(left[2 * k] == low) by {
            assert((2 * k) / 2 == k && (2 * k) % 2 == 0);
        }
        assert(left[2 * k + 1] == high) by {
            assert((2 * k + 1) / 2 == k && (2 * k + 1) % 2 == 1);
        }
        out[2 * k] = low;
        out[2 * k + 1] = high;
        k += 1;
        assert(out@ == left.take(2 * k) + before.skip(2 * k));
    }
    assert(left.take(2 * n) == left);
    2 * n
}

/// Writes the samples of mono PCM into `out` from place `done` on, as many as fit;
/// gives the place behind the last one written.
pub fn fill_samples(mono: &[u8], out: &mut [i16], done: usize) -> (r: usize)
    requires
        done <= old(out)@.len(),
    ensures
        r - done == (if mono@.len() / 2 < old(out)@.len() - done {
            (mono@.len() / 2) as int
        } else {
            old(out)@.len() - done
        }),
        final(out)@.len() == old(out)@.len(),
        forall|i: int|
            0 <= i < old(out)@.len() ==> (#[trigger] final(out)@[i]) == (if done <= i < r {
                samples_in(mono@)[i - done]
            } else {
                old(out)@[i] as int
            }),
{
    let len: usize = mono.len();
    let size: usize = out.len();
    let room: usize = size - done;
    let n: usize = if len / 2 < room {
        len / 2
    } else {
        room
    };
    let ghost before = out@;
    let mut k: usize = 0;
    while k < n
        invariant
            len == mono@.len(),
            size == before.len(),
            done + room == size,
            n <= len / 2,
            n <= room,
            k <= n,
            out@.len() == before.len(),
            forall|i: int|
                0 <= i < before.len() ==> (#[trigger] out@[i]) == (if done <= i < done + k {
                    samples_in(mono@)[i - done]
                } else {
                    before[i] as int
                }),
        decreases n - k,
    {
        out[done + k] = sample_of(mono[2 * k], mono[2 * k + 1]);
        k += 1;
    }
    done + n
}

/// The greater of a peak and the peak of the left channel of stereo frames.
pub fn peak_with(peak: i32, stereo: &[u8]) -> (r: i32)
    ensures
        r == (if peak_in(samples_in(left_of(stereo@))) > peak {
            peak_in(samples_in(left_of(stereo@)))
        } else {
            peak as int
        }),
{
    let ghost all = samples_in(left_of(stereo@));
    let len: usize = stereo.len();
    let n: usize = len / 4;
    let mut top: i32 = 0;
    let mut k: usize = 0;
    assert(all.take(0) == Seq::<int>::empty());
    while k < n
        invariant
            len == stereo@.len(),
            n == len / 4,
            all == samples_in(left_of(stereo@)),
            all.len() == n,
            k <= n,
            top == peak_in(all.take(k as int)),
        decreases n - k,
    {
        let v: i32 = distance_of(sample_of(stereo[4 * k], stereo[4 * k + 1]));
        proof {
            assert((2 * k) / 2 == k && (2 * k) % 2 == 0);
            assert((2 * k + 1) / 2 == k && (2 * k + 1) % 2 == 1);
            assert(left_of(stereo@)[2 * k] == stereo@[4 * k]);
            assert(left_of(stereo@)[2 * k + 1] == stereo@[4 * k + 1]);
            let t = all.take(k + 1);
            assert(t.drop_last() == all.take(k as int));
            assert(t.last() == all[k as int]);
        }
        if v > top {
            top = v;
        }
        k += 1;
    }
    assert(all.take(n as int) == all);
    if top > peak {
        top
    } else {
        peak
    }
}

// ---------------------------------------------------------------------------
// Beeps
// ---------------------------------------------------------------------------
/// How many samples a beep of `ms` milliseconds has.
pub open spec fn beep_samples(ms: u32) -> usize {
    ((SAMPLE_RATE as int * ms as int / 1000) as u64) as usize
}

/// How many samples of a beep of `freq_hz` lie between two changes of sign.
pub open spec fn beep_half_period(freq_hz: u32) -> int {
    let f = if freq_hz < 1 {
        1
    } else {
        freq_hz as int
    };
    let h = SAMPLE_RATE as int / f / 2;
    if h < 1 {
        1
    } else {
        h
    }
}

/// The `k`-th sample of a square wave.
pub open spec fn square_wave(half_period: int, k: int) -> int {
    if (k / half_period) % 2 == 0 {
        BEEP_AMPLITUDE as int
    } else {
        -(BEEP_AMPLITUDE as int)
    }
}

/// Stereo frames carry the samples `from..from + n` of a square wave.
pub open spec fn carries_wave(frames: Seq<u8>, half_period: int, from: int, n: int) -> bool {
    &&& frames.len() == 4 * n
    &&& forall|k: int|
        0 <= k < n ==> sample_value(#[trigger] frames[4 * k], frames[4 * k + 1]) == square_wave(
            half_period,
            from + k,
        ) && frames[4 * k + 2] == frames[4 * k] && frames[4 * k + 3] == frames[4 * k + 1]
}

/// The wave changes its sign after half a period and comes back after a whole one.
pub proof fn law_square_wave(half_period: int, k: int)
    requires
        half_period >= 1,
        k >= 0,
    ensures
        square_wave(half_period, k + half_period) == -square_wave(half_period, k),
        square_wave(half_period, k + 2 * half_period) == square_wave(half_period, k),
{
    vstd::arithmetic::div_mod::lemma_div_plus_one(k, half_period);
    vstd::arithmetic::div_mod::lemma_div_plus_one(k + half_period, half_period);
}

/// A beep starts with the upper half of its wave, at 7000, and is never anything but 7000
/// or -7000.
pub proof fn law_square_wave_levels(half_period: int, k: int)
    requires
        half_period >= 1,
        k >= 0,
    ensures
        k < half_period ==> square_wave(half_period, k) == 7000,
        square_wave(half_period, k) == 7000 || square_wave(half_period, k) == -7000,
{
    if k < half_period {
        vstd::arithmetic::div_mod::lemma_basic_div(k, half_period);
    }
}

/// Half a period is as many samples as fit: two of them are no longer than a period of
/// the frequency, and one sample more in each would be. Where less than one fits it is
/// one, and a frequency of zero counts as one hertz.
pub proof fn law_half_period(freq_hz: u32)
    ensures
        freq_hz == 0 ==> beep_half_period(freq_hz) == 8000,
        1 <= freq_hz <= 8000 ==> {
            let h = beep_half_period(freq_hz);
            h >= 1 && 2 * h * freq_hz <= 16000 && 16000 < 2 * (h + 1) * freq_hz
        },
        freq_hz > 8000 ==> beep_half_period(freq_hz) == 1,
{
    if 1 <= freq_hz <= 8000 {
        let f = freq_hz as int;
        let q = 16000int / f;
        vstd::arithmetic::div_mod::lemma_fundamental_div_mod(16000, f);
        let h = q / 2;
        assert(f * q <= 16000 < f * (q + 1)) by (nonlinear_arith)
            requires
                16000 == f * q + 16000int % f,
                0 <= 16000int % f < f,
        ;
        assert(q >= 2) by (nonlinear_arith)
            requires
                16000 < f * (q + 1),
                1 <= f <= 8000,
        ;
        assert(2 * h * f <= 16000) by (nonlinear_arith)
            requires
                2 * h <= q,
                f * q <= 16000,
                f >= 1,
        ;
        assert(16000 < 2 * (h + 1) * f) by (nonlinear_arith)
            requires
                q + 1 <= 2 * (h + 1),
                16000 < f * (q + 1),
                f >= 1,
        ;
    } else if freq_hz > 8000 {
        let f = freq_hz as int;
        let q = 16000int / f;
        vstd::arithmetic::div_mod::lemma_fundamental_div_mod(16000, f);
        assert(q < 2) by (nonlinear_arith)
            requires
                16000 == f * q + 16000int % f,
                0 <= 16000int % f < f,
                f > 8000,
        ;
        assert(q >= 0) by (nonlinear_arith)
            requires
                16000 == f * q + 16000int % f,
                0 <= 16000int % f < f,
                f > 8000,
        ;
    }
}

/// Frames that carry a wave hold, in every frame, its sample on the left and on the right.
pub proof fn law_wave_on_both_channels(frames: Seq<u8>, half_period: int, from: int, n: int, k: int)
    requires
        carries_wave(frames, half_period, from, n),
        0 <= k < n,
    ensures
        frames.len() == 4 * n,
        sample_value(frames[4 * k], frames[4 * k + 1]) == square_wave(half_period, from + k),
        sample_value(frames[4 * k + 2], frames[4 * k + 3]) == square_wave(half_period, from + k),
{
    let low = frames[4 * k];
}

/// A beep has sixteen samples for each millisecond, for every length whose samples
/// can be counted in 32 bits.
pub proof fn law_beep_samples(ms: u32)
    requires
        ms <= 0x0fff_ffff,
    ensures
        beep_samples(ms) == 16 * ms,
{
    assert(SAMPLE_RATE as int * ms as int / 1000 == 16 * ms);
}

/// A square-wave beep that is being played.
pub struct Beep {
    pub total: usize,
    pub half_period: usize,
    pub produced: usize,
}

impl Beep {
    /// What holds of every beep.
    pub open spec fn valid(self) -> bool {
        self.half_period >= 1 && self.produced <= self.total
    }

    /// A beep of `freq_hz` for `ms` milliseconds.
    pub fn new(freq_hz: u32, ms: u32) -> (r: Beep)
        ensures
            r.valid(),
            r.total == beep_samples(ms),
            r.half_period == beep_half_period(freq_hz),
            r.produced == 0,
    {
        assert(SAMPLE_RATE as u64 * ms as u64 <= 16_000 * 0xffff_ffff) by (nonlinear_arith)
            requires
                SAMPLE_RATE == 16_000,
                ms <= 0xffff_ffff,
        ;
        let total: usize = (SAMPLE_RATE as u64 * ms as u64 / 1000) as usize;
        let f: u32 = if freq_hz < 1 {
            1
        } else {
            freq_hz
        };
        let h: u32 = SAMPLE_RATE / f / 2;
        let half_period: usize = if h < 1 {
            1
        } else {
            h as usize
        };
        Beep { total, half_period, produced: 0 }
    }

    /// The next chunk of stereo frames, or nothing once the beep is over.
    pub fn next_chunk(&mut self) -> (r: Option<Vec<u8>>)
        requires
            old(self).valid(),
        ensures
            final(self).valid(),
            final(self).total == old(self).total,
            final(self).half_period == old(self).half_period,
            r is None <==> old(self).produced == old(self).total,
            r is None ==> final(self).produced == old(self).produced,
            r matches Some(frames) ==> {
                &&& final(self).produced - old(self).produced == (if old(self).total - old(
                    self,
                ).produced < STEREO_BYTES / 4 {
                    old(self).total - old(self).produced
                } else {
                    (STEREO_BYTES / 4) as int
                })
                &&& carries_wave(
                    frames@,
                    old(self).half_period as int,
                    old(self).produced as int,
                    final(self).produced - old(self).produced,
                )
            },
    {
        if self.produced == self.total {
            return None;
        }
        let from: usize = self.produced;
        let half_period: usize = self.half_period;
        let left: usize = self.total - from;
        let n: usize = if left < STEREO_BYTES / 4 {
            left
        } else {
            STEREO_BYTES / 4
        };
        let mut out: Vec<u8> = Vec::new();
        let mut k: usize = 0;
        while k < n
            invariant
                half_period >= 1,
                from + n <= usize::MAX,
                k <= n,
                carries_wave(out@, half_period as int, from as int, k as int),
            decreases n - k,
        {
            let s: i16 = if ((from + k) / half_period) % 2 == 0 {
                BEEP_AMPLITUDE
            } else {
                -BEEP_AMPLITUDE
            };
            let le = bytes_of(s);
            let ghost prev = out@;
            out.push(le.0);
            out.push(le.1);
            out.push(le.0);
            out.push(le.1);
            proof {
                assert forall|j: int| 0 <= j < k + 1 implies sample_value(
                    #[trigger] out@[4 * j],
                    out@[4 * j + 1],
                ) == square_wave(half_period as int, from + j) && out@[4 * j + 2] == out@[4 * j]
                    && out@[4 * j + 3] == out@[4 * j + 1] by {
                    if j < k {
                        assert(out@[4 * j] == prev[4 * j]);
                    }
                }
            }
            k += 1;
        }
        self.produced = from + n;
        Some(out)
    }
}

} // verus!
