//! Where a spoken command starts and ends, told by the energy of the microphone.

use vstd::prelude::*;

use crate::audio::distance;
use crate::audio::frame_peak;
use crate::audio::law_peak;
use crate::audio::peak_in;
use crate::audio::samples_in;

verus! {

/// Milliseconds of audio in a full microphone frame.
pub const FRAME_MS: usize = 32;

/// A recording has no more frames than this (about 30 s).
pub const MAX_FRAMES: usize = 30000 / FRAME_MS;

/// A recording without speech ends at this many frames (about 4 s).
pub const START_TIMEOUT: usize = 4000 / FRAME_MS;

/// This many quiet frames behind speech end a recording (about 1.5 s).
pub const SILENCE_END: usize = 1500 / FRAME_MS;

/// No more frames than this are dropped for the echo of the chirp (about 0.6 s).
pub const CHIRP_ECHO_FRAMES: usize = 600 / FRAME_MS;

/// No more frames than this are dropped for the echo of a prompt (about 0.4 s).
pub const PROMPT_ECHO_FRAMES: usize = 400 / FRAME_MS;

/// A frame that is louder than this is speech, one that is quieter holds no echo.
pub const SPEECH_PEAK: i32 = 350;

/// The loudness of a frame.
pub open spec fn loudness(frame: Seq<u8>) -> int {
    peak_in(samples_in(frame))
}

/// The frame is speech.
pub open spec fn loud(frame: Seq<u8>) -> bool {
    loudness(frame) > SPEECH_PEAK
}

/// Some frame is speech.
pub open spec fn speech_in(heard: Seq<Seq<u8>>) -> bool {
    exists|i: int| 0 <= i < heard.len() && loud(#[trigger] heard[i])
}

/// How many frames in a row, up to the last, are no speech.
pub open spec fn quiet_tail(heard: Seq<Seq<u8>>) -> nat
    decreases heard.len(),
{
    if heard.len() == 0 || loud(heard.last()) {
        0
    } else {
        1 + quiet_tail(heard.drop_last())
    }
}

/// The recording is over: there was speech and then enough silence, there was no
/// speech for long enough, or it is as long as a recording gets.
pub open spec fn utterance_over(heard: Seq<Seq<u8>>) -> bool {
    ||| speech_in(heard) && quiet_tail(heard) >= SILENCE_END
    ||| !speech_in(heard) && heard.len() >= START_TIMEOUT
    ||| heard.len() >= MAX_FRAMES
}

/// The recording was over at no earlier frame.
pub open spec fn going_on_before(heard: Seq<Seq<u8>>) -> bool {
    forall|k: int| 0 <= k < heard.len() ==> !utterance_over(#[trigger] heard.take(k))
}

/// A frame is speech where, and only where, some sample in it is further than 350 from
/// zero, without an upper limit.
pub proof fn law_speech_is_a_loud_sample(frame: Seq<u8>)
    ensures
        loud(frame) <==> exists|i: int|
            0 <= i < samples_in(frame).len() && !(-350 <= #[trigger] samples_in(frame)[i] <= 350),
{
    let samples = samples_in(frame);
    law_peak(samples);
    if loud(frame) {
        let i = choose|i: int|
            0 <= i < samples.len() && distance(#[trigger] samples[i]) == peak_in(samples);
        assert(!(-350 <= samples[i] <= 350));
    }
    if exists|i: int| 0 <= i < samples.len() && !(-350 <= #[trigger] samples[i] <= 350) {
        let i = choose|i: int| 0 <= i < samples.len() && !(-350 <= #[trigger] samples[i] <= 350);
        assert(distance(samples[i]) <= peak_in(samples));
    }
}

/// What is at least as loud as speech is speech, and a frame in which every sample of a
/// speech frame is found is speech too.
pub proof fn law_louder_is_speech(a: Seq<u8>, b: Seq<u8>)
    ensures
        loud(a) && loudness(a) <= loudness(b) ==> loud(b),
        loud(a) && (forall|i: int|
            0 <= i < samples_in(a).len() ==> samples_in(b).contains(#[trigger] samples_in(a)[i]))
            ==> loud(b),
{
    law_speech_is_a_loud_sample(a);
    law_speech_is_a_loud_sample(b);
    if loud(a) && (forall|i: int|
        0 <= i < samples_in(a).len() ==> samples_in(b).contains(#[trigger] samples_in(a)[i])) {
        let i = choose|i: int|
            0 <= i < samples_in(a).len() && !(-350 <= #[trigger] samples_in(a)[i] <= 350);
        assert(samples_in(b).contains(samples_in(a)[i]));
        let k = samples_in(b).index_of(samples_in(a)[i]);
        assert(!(-350 <= samples_in(b)[k] <= 350));
    }
}

/// The echo is gone from a frame where, and only where, every sample in it is nearer to
/// zero than 350.
pub proof fn law_echo_is_gone(frame: Seq<u8>)
    ensures
        loudness(frame) < SPEECH_PEAK <==> forall|i: int|
            0 <= i < samples_in(frame).len() ==> -350 < #[trigger] samples_in(frame)[i] < 350,
{
    let samples = samples_in(frame);
    law_peak(samples);
    if loudness(frame) >= SPEECH_PEAK {
        let i = choose|i: int|
            0 <= i < samples.len() && distance(#[trigger] samples[i]) == peak_in(samples);
        assert(!(-350 < samples[i] < 350));
    } else {
        assert forall|i: int| 0 <= i < samples.len() implies -350 < #[trigger] samples[i]
            < 350 by {
            assert(distance(samples[i]) <= peak_in(samples));
        }
    }
}

/// How many quiet frames a recording ends with, told frame by frame.
pub proof fn law_quiet_tail(heard: Seq<Seq<u8>>, n: int)
    requires
        n >= 0,
    ensures
        quiet_tail(heard) >= n <==> n <= heard.len() && forall|i: int|
            heard.len() - n <= i < heard.len() ==> !loud(#[trigger] heard[i]),
    decreases heard.len(),
{
    if heard.len() > 0 {
        let rest = heard.drop_last();
        if n > 0 {
            law_quiet_tail(rest, n - 1);
            if loud(heard.last()) {
                assert(loud(heard[heard.len() - 1]));
            } else if quiet_tail(rest) >= n - 1 {
                assert forall|i: int| heard.len() - n <= i < heard.len() implies !loud(
                    #[trigger] heard[i],
                ) by {
                    if i < rest.len() {
                        assert(rest[i] == heard[i]);
                    }
                }
            } else if n <= heard.len() {
                let i = choose|i: int| rest.len() - (n - 1) <= i < rest.len() && loud(
                    #[trigger] rest[i],
                );
                assert(loud(heard[i]));
            }
        }
    }
}

/// A recording is over where, and only where, it has 937 frames, has 125 without any
/// speech among them, or has speech and its last 46 frames are no speech.
pub proof fn law_recording_over(heard: Seq<Seq<u8>>)
    ensures
        utterance_over(heard) <==> {
            ||| heard.len() >= 937
            ||| heard.len() >= 125 && forall|i: int|
                0 <= i < heard.len() ==> !loud(#[trigger] heard[i])
            ||| heard.len() >= 46 && (exists|i: int|
                0 <= i < heard.len() && loud(#[trigger] heard[i])) && forall|i: int|
                heard.len() - 46 <= i < heard.len() ==> !loud(#[trigger] heard[i])
        },
{
    law_quiet_tail(heard, 46);
}

/// Speech is not cut off: as long as one of the last 46 frames is speech, a recording
/// goes on up to its longest.
pub proof fn law_speech_goes_on(heard: Seq<Seq<u8>>, i: int)
    requires
        heard.len() < 937,
        0 <= i < heard.len(),
        heard.len() - 46 <= i,
        loud(heard[i]),
    ensures
        !utterance_over(heard),
{
    law_recording_over(heard);
}

/// Speech goes on being speech, and silence adds up.
proof fn lemma_heard(heard: Seq<Seq<u8>>, frame: Seq<u8>)
    ensures
        speech_in(heard.push(frame)) == (speech_in(heard) || loud(frame)),
        quiet_tail(heard.push(frame)) == (if loud(frame) {
            0
        } else {
            quiet_tail(heard) + 1
        }),
{
    let all = heard.push(frame);
    assert(all.drop_last() == heard);
    if speech_in(heard) {
        let i = choose|i: int| 0 <= i < heard.len() && loud(#[trigger] heard[i]);
        assert(all[i] == heard[i]);
    }
    if loud(frame) {
        assert(all[heard.len() as int] == frame);
    }
    if speech_in(all) && !loud(frame) {
        let i = choose|i: int| 0 <= i < all.len() && loud(#[trigger] all[i]);
        assert(heard[i] == all[i]);
    }
}

/// A recording in the making.
pub struct Recorder {
    pub spoke: bool,
    pub silence: usize,
    pub frames: usize,
    /// The frames heard so far.
    pub heard: Ghost<Seq<Seq<u8>>>,
}

impl View for Recorder {
    type V = Seq<Seq<u8>>;

    open spec fn view(&self) -> Seq<Seq<u8>> {
        self.heard@
    }
}

impl Recorder {
    /// The counters are those of the frames heard.
    pub open spec fn valid(self) -> bool {
        &&& self.spoke == speech_in(self@)
        &&& self.silence == (if self.spoke {
            quiet_tail(self@)
        } else {
            0
        })
        &&& self.frames == self@.len()
        &&& self.frames <= MAX_FRAMES
        &&& self.silence <= self.frames
    }

    /// A recording in which nothing was heard yet.
    pub fn new() -> (r: Recorder)
        ensures
            r.valid(),
            r@ == Seq::<Seq<u8>>::empty(),
    {
        Recorder { spoke: false, silence: 0, frames: 0, heard: Ghost(Seq::empty()) }
    }

    /// Takes one more frame; tells whether the recording is over with it.
    pub fn hear(&mut self, frame: &[u8]) -> (over: bool)
        requires
            old(self).valid(),
            old(self)@.len() < MAX_FRAMES,
        ensures
            final(self).valid(),
            final(self)@ == old(self)@.push(frame@),
            over == utterance_over(final(self)@),
    {
        let peak: i32 = frame_peak(frame);
        proof {
            lemma_heard(self@, frame@);
        }
        self.frames += 1;
        if peak > SPEECH_PEAK {
            self.spoke = true;
            self.silence = 0;
        } else if self.spoke {
            self.silence += 1;
        }
        self.heard = Ghost(self.heard@.push(frame@));
        (self.spoke && self.silence >= SILENCE_END) || (!self.spoke && self.frames >= START_TIMEOUT)
            || self.frames >= MAX_FRAMES
    }

    /// Whether the recording is over.
    pub fn over(&self) -> (r: bool)
        requires
            self.valid(),
        ensures
            r == utterance_over(self@),
    {
        (self.spoke && self.silence >= SILENCE_END) || (!self.spoke && self.frames >= START_TIMEOUT)
            || self.frames >= MAX_FRAMES
    }
}

/// A frame in which the echo is gone.
pub fn echo_gone(frame: &[u8]) -> (r: bool)
    ensures
        r == (loudness(frame@) < SPEECH_PEAK),
{
    frame_peak(frame) < SPEECH_PEAK
}

/// A recording that ends when it is first over is never longer than the longest one;
/// without speech it ends at the start timeout, and behind the last speech there are
/// never more quiet frames than end it.
pub proof fn law_recording_length(heard: Seq<Seq<u8>>)
    requires
        going_on_before(heard),
        utterance_over(heard),
    ensures
        heard.len() <= MAX_FRAMES,
        !speech_in(heard) ==> heard.len() == START_TIMEOUT,
        speech_in(heard) ==> quiet_tail(heard) <= SILENCE_END,
        speech_in(heard) ==> quiet_tail(heard) == SILENCE_END || heard.len() == MAX_FRAMES,
{
    if heard.len() > 0 {
        let prev = heard.take(heard.len() - 1);
        assert(!utterance_over(prev));
        assert(prev.push(heard.last()) == heard);
        lemma_heard(prev, heard.last());
        if speech_in(heard) && !loud(heard.last()) {
            assert(speech_in(prev));
        }
    }
}

} // verus!
