//! The connections of a turn, as machines. A machine names the action that it waits
//! for; the action is performed, and what came of it is handed back as an event. An
//! event that the awaited action cannot have counts as its failure; a button that is
//! not reported pressed counts as not pressed.

use vstd::prelude::*;

use crate::audio::samples_in;
use crate::net::control_in;
use crate::net::control_of;
use crate::net::exit_header;
use crate::net::stream_header;
use crate::net::stream_header_of;
use crate::net::Reply;
use crate::net::TRANSCRIBE_EXIT;
use crate::recorder::echo_gone;
use crate::recorder::going_on_before;
use crate::recorder::law_echo_is_gone;
use crate::recorder::loudness;
use crate::recorder::utterance_over;
use crate::recorder::Recorder;
use crate::recorder::CHIRP_ECHO_FRAMES;
use crate::recorder::MAX_FRAMES;
use crate::recorder::PROMPT_ECHO_FRAMES;
use crate::recorder::SPEECH_PEAK;

verus! {

/// What came of an action.
#[derive(Clone, Copy, Debug)]
pub enum Event<'a> {
    /// It was done.
    Done,
    /// It gave these bytes.
    Bytes(&'a [u8]),
    /// It gave the reply byte of the server.
    Control(u8),
    /// The button is pressed, or not.
    Pressed(bool),
    /// Nothing came within the time set.
    TimedOut,
    /// It failed.
    Failed,
}

/// What a machine waits for.
#[derive(Clone, Copy, Debug, PartialEq, Eq, Structural)]
pub enum Action {
    /// Open the connection.
    Connect,
    /// Give up reading after this many milliseconds.
    SetReadTimeout(u64),
    /// Send one byte.
    SendByte(u8),
    /// Read a frame from the microphone.
    ReadMic,
    /// Send the frame that was read last.
    SendFrame,
    /// Send what is still held back, and close the connection for sending.
    CloseWrite,
    /// Read the reply byte.
    ReadControl,
    /// Set the volume of the speaker.
    SetVolume(u8),
    /// Keep the volume over a reboot.
    KeepVolume(u8),
    /// Read audio from the connection.
    ReadAudio,
    /// Play the audio that was read last.
    PlayAudio,
    /// Play a chunk of silence.
    Silence,
    /// Tell whether the button is pressed.
    PollButton,
    /// Wait until the button is released.
    WaitRelease,
    /// Close the connection both ways.
    CloseBoth,
    /// Drop the connection.
    HangUp,
    /// Beep.
    Beep { freq_hz: u32, ms: u32 },
}

/// Where a machine stands.
#[derive(Clone, Copy, Debug, PartialEq, Eq)]
pub enum Step<T> {
    /// It waits for an action.
    Do(Action),
    /// It is over, with its result, or without one where an action failed.
    End(Option<T>),
}

// ---------------------------------------------------------------------------
// A spoken command
// ---------------------------------------------------------------------------
/// The phase of a command.
#[derive(Clone, Copy, Debug, PartialEq, Eq, Structural)]
pub enum CommandPhase {
    Connecting,
    Greeting,
    /// The echo of the chirp dies away; so many frames may still be dropped for it.
    Draining { left: usize },
    Listening,
    Sending,
    Closing,
    Awaiting,
    Adjusting { volume: u8 },
    Keeping { volume: u8 },
    Fetching,
    Playing,
    Settling,
    Over { reply: Option<Reply> },
}

/// A spoken command: the persona is sent, the utterance is recorded and sent frame by
/// frame, then the server's reply byte and audio are taken.
pub struct CommandTurn {
    pub persona: u8,
    pub phase: CommandPhase,
    /// The reply byte, once it was read.
    pub control: Option<u8>,
    pub recorder: Recorder,
}

/// The state of a command.
#[verifier::ext_equal]
pub struct CommandView {
    pub persona: u8,
    pub phase: CommandPhase,
    /// The reply byte, once it was read.
    pub control: Option<u8>,
    /// The frames recorded so far.
    pub heard: Seq<Seq<u8>>,
}

/// What a command waits for.
pub open spec fn command_awaits(c: CommandView) -> Step<Reply> {
    match c.phase {
        CommandPhase::Connecting => Step::Do(Action::Connect),
        CommandPhase::Greeting => Step::Do(Action::SendByte(c.persona)),
        CommandPhase::Draining { left } => Step::Do(Action::ReadMic),
        CommandPhase::Listening => Step::Do(Action::ReadMic),
        CommandPhase::Sending => Step::Do(Action::SendFrame),
        CommandPhase::Closing => Step::Do(Action::CloseWrite),
        CommandPhase::Awaiting => Step::Do(Action::ReadControl),
        CommandPhase::Adjusting { volume } => Step::Do(Action::SetVolume(volume)),
        CommandPhase::Keeping { volume } => Step::Do(Action::KeepVolume(volume)),
        CommandPhase::Fetching => Step::Do(Action::ReadAudio),
        CommandPhase::Playing => Step::Do(Action::PlayAudio),
        CommandPhase::Settling => Step::Do(Action::Silence),
        CommandPhase::Over { reply } => Step::End(reply),
    }
}

/// What a reply byte asks the device to do; a server that sends none asks for nothing.
pub open spec fn reply_to(control: Option<u8>) -> Reply {
    match control {
        Some(byte) => control_in(byte).reply,
        None => Reply::Done,
    }
}

/// The phase that follows on an event.
pub open spec fn command_phase_after(c: CommandView, ev: Event) -> CommandPhase {
    match (c.phase, ev) {
        (CommandPhase::Connecting, Event::Done) => CommandPhase::Greeting,
        (CommandPhase::Greeting, Event::Done) => CommandPhase::Draining { left: CHIRP_ECHO_FRAMES },
        // The echo is gone, or as many frames were dropped as may be.
        (CommandPhase::Draining { left }, Event::Bytes(b)) => if loudness(b@) < SPEECH_PEAK || left
            <= 1 {
            CommandPhase::Listening
        } else {
            CommandPhase::Draining { left: (left - 1) as usize }
        },
        (CommandPhase::Listening, Event::Bytes(b)) => if b@.len() == 0 {
            CommandPhase::Listening
        } else {
            CommandPhase::Sending
        },
        (CommandPhase::Sending, Event::Done) => if utterance_over(c.heard) {
            CommandPhase::Closing
        } else {
            CommandPhase::Listening
        },
        (CommandPhase::Closing, Event::Done) => CommandPhase::Awaiting,
        (CommandPhase::Awaiting, Event::Control(byte)) => match control_in(byte).volume {
            Some(volume) => CommandPhase::Adjusting { volume },
            None => CommandPhase::Fetching,
        },
        // A server that does not reply ends the turn in good order.
        (CommandPhase::Awaiting, _) => CommandPhase::Over { reply: Some(reply_to(None)) },
        // Whether the volume could be set, or kept, makes no difference.
        (CommandPhase::Adjusting { volume }, _) => CommandPhase::Keeping { volume },
        (CommandPhase::Keeping { volume }, _) => CommandPhase::Fetching,
        (CommandPhase::Fetching, Event::Bytes(b)) => if b@.len() == 0 {
            CommandPhase::Settling
        } else {
            CommandPhase::Playing
        },
        (CommandPhase::Playing, Event::Done) => CommandPhase::Fetching,
        // Nor does it whether the silence could be played.
        (CommandPhase::Settling, _) => CommandPhase::Over { reply: Some(reply_to(c.control)) },
        (CommandPhase::Over { reply }, _) => CommandPhase::Over { reply },
        (_, _) => CommandPhase::Over { reply: None },
    }
}

/// What a command is after an event.
pub open spec fn command_after(c: CommandView, ev: Event) -> CommandView {
    CommandView {
        persona: c.persona,
        phase: command_phase_after(c, ev),
        control: match (c.phase, ev) {
            (CommandPhase::Awaiting, Event::Control(byte)) => Some(byte),
            (_, _) => c.control,
        },
        heard: match (c.phase, ev) {
            (CommandPhase::Listening, Event::Bytes(b)) => if b@.len() == 0 {
                c.heard
            } else {
                c.heard.push(b@)
            },
            (_, _) => c.heard,
        },
    }
}

/// How far a command has come agrees with what it has recorded.
pub open spec fn command_in_order(c: CommandView) -> bool {
    &&& going_on_before(c.heard)
    &&& forall|i: int| 0 <= i < c.heard.len() ==> (#[trigger] c.heard[i]).len() > 0
    &&& match c.phase {
        CommandPhase::Connecting => c.heard.len() == 0 && c.control is None,
        CommandPhase::Greeting => c.heard.len() == 0 && c.control is None,
        CommandPhase::Draining { left } => c.heard.len() == 0 && c.control is None && 1 <= left
            <= CHIRP_ECHO_FRAMES,
        CommandPhase::Listening => !utterance_over(c.heard) && c.control is None,
        CommandPhase::Sending => c.heard.len() > 0 && c.control is None,
        CommandPhase::Closing => utterance_over(c.heard) && c.control is None,
        CommandPhase::Awaiting => utterance_over(c.heard) && c.control is None,
        CommandPhase::Adjusting { volume } => utterance_over(c.heard) && c.control is Some
            && control_in(c.control->0).volume == Some(volume),
        CommandPhase::Keeping { volume } => utterance_over(c.heard) && c.control is Some
            && control_in(c.control->0).volume == Some(volume),
        CommandPhase::Fetching => utterance_over(c.heard) && c.control is Some,
        CommandPhase::Playing => utterance_over(c.heard) && c.control is Some,
        CommandPhase::Settling => utterance_over(c.heard) && c.control is Some,
        CommandPhase::Over { reply: Some(reply) } => utterance_over(c.heard) && reply == reply_to(
            c.control,
        ),
        CommandPhase::Over { reply: None } => true,
    }
}

/// What a command that has not failed has sent: first the persona, then the frames
/// recorded, the last of them once its sending is done.
pub open spec fn command_sent(c: CommandView) -> Seq<u8> {
    match c.phase {
        CommandPhase::Connecting => Seq::<u8>::empty(),
        CommandPhase::Greeting => Seq::<u8>::empty(),
        CommandPhase::Sending => seq![c.persona] + c.heard.drop_last().flatten(),
        _ => seq![c.persona] + c.heard.flatten(),
    }
}

impl View for CommandTurn {
    type V = CommandView;

    open spec fn view(&self) -> CommandView {
        CommandView {
            persona: self.persona,
            phase: self.phase,
            control: self.control,
            heard: self.recorder@,
        }
    }
}

impl CommandTurn {
    /// What holds of every command.
    pub open spec fn valid(self) -> bool {
        self.recorder.valid() && command_in_order(self@)
    }

    /// A command to the given persona.
    pub fn new(persona: u8) -> (r: CommandTurn)
        ensures
            r.valid(),
            r@ == (CommandView {
                persona,
                phase: CommandPhase::Connecting,
                control: None,
                heard: Seq::empty(),
            }),
    {
        CommandTurn {
            persona,
            phase: CommandPhase::Connecting,
            control: None,
            recorder: Recorder::new(),
        }
    }

    /// What the command waits for.
    pub fn awaits(&self) -> (r: Step<Reply>)
        ensures
            r == command_awaits(self@),
    {
        match self.phase {
            CommandPhase::Connecting => Step::Do(Action::Connect),
            CommandPhase::Greeting => Step::Do(Action::SendByte(self.persona)),
            CommandPhase::Draining { left } => Step::Do(Action::ReadMic),
            CommandPhase::Listening => Step::Do(Action::ReadMic),
            CommandPhase::Sending => Step::Do(Action::SendFrame),
            CommandPhase::Closing => Step::Do(Action::CloseWrite),
            CommandPhase::Awaiting => Step::Do(Action::ReadControl),
            CommandPhase::Adjusting { volume } => Step::Do(Action::SetVolume(volume)),
            CommandPhase::Keeping { volume } => Step::Do(Action::KeepVolume(volume)),
            CommandPhase::Fetching => Step::Do(Action::ReadAudio),
            CommandPhase::Playing => Step::Do(Action::PlayAudio),
            CommandPhase::Settling => Step::Do(Action::Silence),
            CommandPhase::Over { reply } => Step::End(reply),
        }
    }

    /// Goes on with what came of the awaited action.
    pub fn resume(&mut self, ev: Event)
        requires
            old(self).valid(),
        ensures
            final(self).valid(),
            final(self)@ == command_after(old(self)@, ev),
    {
        proof {
            law_command_in_order(self@, ev);
        }
        let next = match (self.phase, ev) {
            (CommandPhase::Connecting, Event::Done) => CommandPhase::Greeting,
            (CommandPhase::Greeting, Event::Done) => CommandPhase::Draining {
                left: CHIRP_ECHO_FRAMES,
            },
            (CommandPhase::Draining { left }, Event::Bytes(b)) => if echo_gone(b) || left <= 1 {
                CommandPhase::Listening
            } else {
                CommandPhase::Draining { left: left - 1 }
            },
            (CommandPhase::Listening, Event::Bytes(b)) => if b.len() == 0 {
                CommandPhase::Listening
            } else {
                let _ = self.recorder.hear(b);
                CommandPhase::Sending
            },
            (CommandPhase::Sending, Event::Done) => if self.recorder.over() {
                CommandPhase::Closing
            } else {
                CommandPhase::Listening
            },
            (CommandPhase::Closing, Event::Done) => CommandPhase::Awaiting,
            (CommandPhase::Awaiting, Event::Control(byte)) => {
                self.control = Some(byte);
                match control_of(byte).volume {
                    Some(volume) => CommandPhase::Adjusting { volume },
                    None => CommandPhase::Fetching,
                }
            },
            (CommandPhase::Awaiting, _) => CommandPhase::Over { reply: Some(Reply::Done) },
            (CommandPhase::Adjusting { volume }, _) => CommandPhase::Keeping { volume },
            (CommandPhase::Keeping { volume }, _) => CommandPhase::Fetching,
            (CommandPhase::Fetching, Event::Bytes(b)) => if b.len() == 0 {
                CommandPhase::Settling
            } else {
                CommandPhase::Playing
            },
            (CommandPhase::Playing, Event::Done) => CommandPhase::Fetching,
            (CommandPhase::Settling, _) => match self.control {
                Some(byte) => CommandPhase::Over { reply: Some(control_of(byte).reply) },
                None => CommandPhase::Over { reply: Some(Reply::Done) },
            },
            (CommandPhase::Over { reply }, _) => CommandPhase::Over { reply },
            (_, _) => CommandPhase::Over { reply: None },
        };
        self.phase = next;
    }
}

/// Whatever happens, a command stays in order: it records until the utterance is
/// over and no longer, and what comes behind the recording comes only then.
pub proof fn law_command_in_order(c: CommandView, ev: Event)
    requires
        command_in_order(c),
    ensures
        command_in_order(command_after(c, ev)),
        c.phase == CommandPhase::Listening ==> c.heard.len() < MAX_FRAMES,
{
    match (c.phase, ev) {
        (CommandPhase::Listening, Event::Bytes(b)) => {
            let all = c.heard.push(b@);
            assert forall|k: int| 0 <= k < all.len() implies !utterance_over(
                #[trigger] all.take(k),
            ) by {
                if k < c.heard.len() {
                    assert(all.take(k) == c.heard.take(k));
                } else {
                    assert(all.take(k) == c.heard);
                }
            }
        },
        (CommandPhase::Draining { left }, Event::Bytes(b)) => {
            assert(c.heard == Seq::<Seq<u8>>::empty());
            assert(!crate::recorder::speech_in(c.heard));
        },
        _ => {},
    }
}

/// A volume that the reply byte names is set and then kept, whether or not it could be
/// set, before any audio is fetched; without such a byte no volume is touched.
pub proof fn law_command_volume(c: CommandView, ev: Event)
    requires
        command_in_order(c),
    ensures
        command_awaits(c) matches Step::Do(Action::SetVolume(v)) ==> c.control is Some
            && control_in(c.control->0).volume == Some(v),
        command_awaits(c) matches Step::Do(Action::KeepVolume(v)) ==> c.control is Some
            && control_in(c.control->0).volume == Some(v),
        command_awaits(command_after(c, ev)) matches Step::Do(Action::SetVolume(v)) ==> c.phase
            == CommandPhase::Awaiting && ev is Control,
        command_awaits(command_after(c, ev)) matches Step::Do(Action::KeepVolume(v))
            ==> command_awaits(c) == Step::<Reply>::Do(Action::SetVolume(v)),
        command_awaits(c) matches Step::Do(Action::SetVolume(v)) ==> command_awaits(
            command_after(c, ev),
        ) == Step::<Reply>::Do(Action::KeepVolume(v)),
        c.phase == CommandPhase::Awaiting && ev is Control ==> command_awaits(command_after(c, ev))
            == (match control_in(ev->Control_0).volume {
            Some(v) => Step::<Reply>::Do(Action::SetVolume(v)),
            None => Step::<Reply>::Do(Action::ReadAudio),
        }),
{
}

/// The audio of a reply is played chunk by chunk as it comes, and its end ends the turn
/// with the reply that the reply byte names, whatever comes of the silence behind it.
pub proof fn law_command_plays_reply(c: CommandView, chunk: &[u8], ev: Event)
    requires
        command_in_order(c),
        c.phase == CommandPhase::Fetching,
    ensures
        ({
            let got = command_after(c, Event::Bytes(chunk));
            &&& chunk@.len() > 0 ==> command_awaits(got) == Step::<Reply>::Do(Action::PlayAudio)
                && command_after(got, Event::Done) == c
            &&& chunk@.len() == 0 ==> command_awaits(got) == Step::<Reply>::Do(Action::Silence)
                && command_awaits(command_after(got, ev)) == Step::<Reply>::End(
                Some(control_in(c.control->0).reply),
            )
        }),
{
}

/// A command sends what it was told to send and nothing else: the persona when it
/// greets, the frame read last when it sends a frame. The frames that are dropped
/// for the echo are not sent.
pub proof fn law_command_sent(c: CommandView, ev: Event)
    requires
        command_in_order(c),
        command_phase_after(c, ev) != (CommandPhase::Over { reply: None }),
    ensures
        command_sent(command_after(c, ev)) == command_sent(c) + (match (command_awaits(c), ev) {
            (Step::Do(Action::SendByte(b)), Event::Done) => seq![b],
            (Step::Do(Action::SendFrame), Event::Done) => c.heard.last(),
            (_, _) => Seq::<u8>::empty(),
        }),
{
    let d = command_after(c, ev);
    match (c.phase, ev) {
        (CommandPhase::Sending, Event::Done) => {
            let init = c.heard.drop_last();
            assert(init.push(c.heard.last()) == c.heard);
            init.lemma_flatten_push(c.heard.last());
            assert(seq![c.persona] + init.flatten() + c.heard.last() == seq![c.persona]
                + c.heard.flatten());
        },
        (CommandPhase::Listening, Event::Bytes(b)) => {
            if b@.len() > 0 {
                assert(d.heard.drop_last() == c.heard);
            }
            assert(command_sent(d) == command_sent(c) + Seq::<u8>::empty());
        },
        (CommandPhase::Greeting, Event::Done) => {
            assert(d.heard.flatten() == Seq::<u8>::empty());
            assert(command_sent(d) == Seq::<u8>::empty() + seq![c.persona]);
        },
        _ => {
            assert(command_sent(d) == command_sent(c) + Seq::<u8>::empty());
        },
    }
}

/// A command that ends with a reply has sent the persona and the whole recording,
/// which was over at its last frame and at none before; the reply is the one that the
/// reply byte names.
pub proof fn law_command_complete(c: CommandView, reply: Reply)
    requires
        command_in_order(c),
        command_awaits(c) == Step::<Reply>::End(Some(reply)),
    ensures
        command_sent(c) == seq![c.persona] + c.heard.flatten(),
        utterance_over(c.heard),
        going_on_before(c.heard),
        reply == reply_to(c.control),
{
}

/// A command opens by connecting and sending its persona, and only where both are done
/// goes to the microphone.
pub proof fn law_command_opens(persona: u8, a: Event, b: Event)
    ensures
        ({
            let c = CommandView {
                persona,
                phase: CommandPhase::Connecting,
                control: None,
                heard: Seq::empty(),
            };
            let connected = command_after(c, a);
            let greeted = command_after(connected, b);
            &&& command_awaits(c) == Step::<Reply>::Do(Action::Connect)
            &&& a == Event::Done ==> command_awaits(connected) == Step::<Reply>::Do(
                Action::SendByte(persona),
            )
            &&& a == Event::Done && b == Event::Done ==> command_awaits(greeted)
                == Step::<Reply>::Do(Action::ReadMic) && greeted.phase == (CommandPhase::Draining {
                left: 18,
            })
            &&& a != Event::Done ==> command_awaits(connected) == Step::<Reply>::End(None)
            &&& b != Event::Done ==> command_awaits(greeted) == Step::<Reply>::End(None)
        }),
{
}

/// Whatever happens, a command keeps its persona, forgets no frame that it heard and hears
/// one more only where it reads one that is not empty.
pub proof fn law_command_keeps(c: CommandView, ev: Event)
    ensures
        command_after(c, ev).persona == c.persona,
        c.heard.is_prefix_of(command_after(c, ev).heard),
        command_after(c, ev).heard.len() <= c.heard.len() + 1,
        command_after(c, ev).heard != c.heard ==> c.phase == CommandPhase::Listening && (
        ev matches Event::Bytes(b) && b@.len() > 0),
        c.control is Some && c.phase != CommandPhase::Awaiting ==> command_after(c, ev).control
            == c.control,
{
    if command_after(c, ev).heard.len() == c.heard.len() {
        assert(command_after(c, ev).heard == c.heard);
    }
}

/// While it listens, a command sends every frame that is not empty before it reads the
/// next, passes over an empty one, and stops reading with the frame that ends the
/// utterance.
pub proof fn law_command_listens(c: CommandView, frame: &[u8])
    requires
        c.phase == CommandPhase::Listening,
    ensures
        ({
            let read = command_after(c, Event::Bytes(frame));
            let sent = command_after(read, Event::Done);
            &&& frame@.len() == 0 ==> read == c
            &&& frame@.len() > 0 ==> {
                &&& command_awaits(read) == Step::<Reply>::Do(Action::SendFrame)
                &&& read.heard == c.heard.push(frame@)
                &&& sent.heard == read.heard
                &&& utterance_over(read.heard) ==> command_awaits(sent) == Step::<Reply>::Do(
                    Action::CloseWrite,
                )
                &&& !utterance_over(read.heard) ==> sent.phase == CommandPhase::Listening
                    && command_awaits(sent) == Step::<Reply>::Do(Action::ReadMic)
            }
        }),
{
}

/// Once the recording is sent, the server's reply byte is read; a server that sends none
/// ends the command in good order and asks for nothing.
pub proof fn law_command_awaits_reply(c: CommandView, ev: Event)
    requires
        c.phase == CommandPhase::Closing,
    ensures
        ({
            let closed = command_after(c, Event::Done);
            &&& command_awaits(closed) == Step::<Reply>::Do(Action::ReadControl)
            &&& !(ev is Control) ==> command_awaits(command_after(closed, ev))
                == Step::<Reply>::End(Some(Reply::Done))
        }),
{
}

/// The reply byte decides how the command ends: with the volume set and kept where it
/// names one, and then, at the end of the reply's audio, with what it asks for, whatever
/// came of the volume and of the silence.
pub proof fn law_command_obeys_reply_byte(
    c: CommandView,
    byte: u8,
    set: Event,
    keep: Event,
    end: &[u8],
    silence: Event,
)
    requires
        c.phase == CommandPhase::Awaiting,
        end@.len() == 0,
    ensures
        ({
            let told = command_after(c, Event::Control(byte));
            let ready = match control_in(byte).volume {
                Some(v) => command_after(command_after(told, set), keep),
                None => told,
            };
            let ended = command_after(ready, Event::Bytes(end));
            &&& command_awaits(ready) == Step::<Reply>::Do(Action::ReadAudio)
            &&& command_awaits(ended) == Step::<Reply>::Do(Action::Silence)
            &&& command_awaits(command_after(ended, silence)) == Step::<Reply>::End(
                Some(control_in(byte).reply),
            )
        }),
{
}

/// Where connecting, sending, recording, closing, fetching or playing fails, the command
/// is over without a reply; and one that is over stays over.
pub proof fn law_command_failures(c: CommandView, ev: Event)
    ensures
        (c.phase == CommandPhase::Connecting || c.phase == CommandPhase::Greeting || c.phase
            == CommandPhase::Sending || c.phase == CommandPhase::Closing || c.phase
            == CommandPhase::Playing) && ev != Event::Done ==> command_awaits(command_after(c, ev))
            == Step::<Reply>::End(None),
        (c.phase is Draining || c.phase == CommandPhase::Listening || c.phase
            == CommandPhase::Fetching) && !(ev is Bytes) ==> command_awaits(command_after(c, ev))
            == Step::<Reply>::End(None),
        command_awaits(c) is End ==> command_after(c, ev) == c,
{
}

/// What a command is once each of these frames was read.
pub open spec fn command_reading(c: CommandView, frames: Seq<&[u8]>) -> CommandView
    decreases frames.len(),
{
    if frames.len() == 0 {
        c
    } else {
        command_after(command_reading(c, frames.drop_last()), Event::Bytes(frames.last()))
    }
}

/// The frames that still hold the echo of the chirp are dropped, up to as many as may
/// be, and with the first frame behind the echo the recording can start; nothing of
/// them is kept.
pub proof fn law_command_drops_echo(c: CommandView, frames: Seq<&[u8]>, last: &[u8])
    requires
        c.phase == (CommandPhase::Draining { left: CHIRP_ECHO_FRAMES }),
        frames.len() < CHIRP_ECHO_FRAMES,
        forall|i: int| 0 <= i < frames.len() ==> loudness((#[trigger] frames[i])@) >= SPEECH_PEAK,
    ensures
        ({
            let dropped = command_reading(c, frames);
            let next = command_after(dropped, Event::Bytes(last));
            &&& dropped.phase == (CommandPhase::Draining {
                left: (CHIRP_ECHO_FRAMES - frames.len()) as usize,
            })
            &&& dropped.heard == c.heard
            &&& next.heard == c.heard
            &&& next.phase == CommandPhase::Listening <==> loudness(last@) < SPEECH_PEAK
                || frames.len() + 1 == CHIRP_ECHO_FRAMES
        }),
    decreases frames.len(),
{
    if frames.len() > 0 {
        let init = frames.drop_last();
        assert forall|i: int| 0 <= i < init.len() implies loudness((#[trigger] init[i])@)
            >= SPEECH_PEAK by {
            assert(init[i] == frames[i]);
        }
        law_command_drops_echo(c, init, last);
        assert(loudness(frames[frames.len() - 1]@) >= SPEECH_PEAK);
    }
}

/// The contents of microphone frames.
pub open spec fn frames_view(frames: Seq<&[u8]>) -> Seq<Seq<u8>> {
    Seq::new(frames.len(), |i: int| frames[i]@)
}

/// What a command is once each of these frames was read and sent.
pub open spec fn command_recording(c: CommandView, frames: Seq<&[u8]>) -> CommandView
    decreases frames.len(),
{
    if frames.len() == 0 {
        c
    } else {
        let read = command_after(
            command_recording(c, frames.drop_last()),
            Event::Bytes(frames.last()),
        );
        command_after(read, Event::Done)
    }
}

/// An utterance is recorded to its end: as long as it goes on, frames are read, and with
/// its last frame the connection is closed for sending, the whole of it sent behind the
/// persona.
pub proof fn law_command_records_utterance(c: CommandView, frames: Seq<&[u8]>)
    requires
        c.phase == CommandPhase::Listening,
        c.heard.len() == 0,
        going_on_before(frames_view(frames)),
        forall|i: int| 0 <= i < frames.len() ==> (#[trigger] frames[i])@.len() > 0,
    ensures
        command_recording(c, frames).persona == c.persona,
        command_recording(c, frames).heard == frames_view(frames),
        command_awaits(command_recording(c, frames)) == Step::<Reply>::Do(
            if utterance_over(frames_view(frames)) {
                Action::CloseWrite
            } else {
                Action::ReadMic
            },
        ),
        command_sent(command_recording(c, frames)) == seq![c.persona] + frames_view(
            frames,
        ).flatten(),
    decreases frames.len(),
{
    let heard = frames_view(frames);
    if frames.len() == 0 {
        assert(heard == c.heard);
        assert(!crate::recorder::speech_in(heard));
    } else {
        let init = frames.drop_last();
        let before = frames_view(init);
        assert(before == heard.take(heard.len() - 1));
        assert(!utterance_over(heard.take(heard.len() - 1)));
        assert forall|k: int| 0 <= k < before.len() implies !utterance_over(
            #[trigger] before.take(k),
        ) by {
            assert(before.take(k) == heard.take(k));
        }
        assert forall|i: int| 0 <= i < init.len() implies (#[trigger] init[i])@.len() > 0 by {
            assert(init[i] == frames[i]);
        }
        law_command_records_utterance(c, init);
        assert(frames[frames.len() - 1]@.len() > 0);
        assert(before.push(frames.last()@) == heard);
        let d = command_recording(c, init);
        assert(d.phase == CommandPhase::Listening);
        assert(command_recording(c, frames).persona == c.persona);
    }
}

/// As long as the microphone gives whole samples, the samples behind the persona byte
/// stay aligned.
pub proof fn law_command_aligned(c: CommandView)
    requires
        command_in_order(c),
        command_sent(c).len() > 0,
        forall|i: int| 0 <= i < c.heard.len() ==> (#[trigger] c.heard[i]).len() % 2 == 0,
    ensures
        command_sent(c)[0] == c.persona,
        (command_sent(c).len() - 1) % 2 == 0,
{
    let frames = if c.phase == CommandPhase::Sending {
        c.heard.drop_last()
    } else {
        c.heard
    };
    assert forall|i: int| 0 <= i < frames.len() implies (#[trigger] frames[i]).len() % 2 == 0 by {
        assert(frames[i] == c.heard[i]);
    }
    lemma_flatten_even(frames);
}

proof fn lemma_flatten_even(frames: Seq<Seq<u8>>)
    requires
        forall|i: int| 0 <= i < frames.len() ==> (#[trigger] frames[i]).len() % 2 == 0,
    ensures
        frames.flatten().len() % 2 == 0,
    decreases frames.len(),
{
    if frames.len() > 0 {
        let rest = frames.drop_first();
        assert forall|i: int| 0 <= i < rest.len() implies (#[trigger] rest[i]).len() % 2 == 0 by {
            assert(rest[i] == frames[i + 1]);
        }
        lemma_flatten_even(rest);
        assert(frames[0].len() % 2 == 0);
    }
}

// ---------------------------------------------------------------------------
// Leaving transcribe mode
// ---------------------------------------------------------------------------
/// The phase of an exit notice.
#[derive(Clone, Copy, Debug, PartialEq, Eq, Structural)]
pub enum ExitPhase {
    Connecting,
    Greeting,
    Closing,
    Awaiting,
    Fetching,
    Playing,
    Settling,
    Over { ok: bool },
}

/// The notice to the server that the button ended transcribe mode: one byte without
/// audio; the server's confirmation is played.
pub struct ExitNotice {
    pub persona: u8,
    pub phase: ExitPhase,
}

/// What an exit notice waits for.
pub open spec fn exit_awaits(x: ExitNotice) -> Step<()> {
    match x.phase {
        ExitPhase::Connecting => Step::Do(Action::Connect),
        ExitPhase::Greeting => Step::Do(Action::SendByte(x.persona | TRANSCRIBE_EXIT)),
        ExitPhase::Closing => Step::Do(Action::CloseWrite),
        ExitPhase::Awaiting => Step::Do(Action::ReadControl),
        ExitPhase::Fetching => Step::Do(Action::ReadAudio),
        ExitPhase::Playing => Step::Do(Action::PlayAudio),
        ExitPhase::Settling => Step::Do(Action::Silence),
        ExitPhase::Over { ok } => Step::End(
            if ok {
                Some(())
            } else {
                None
            },
        ),
    }
}

/// The phase of an exit notice that follows on an event.
pub open spec fn exit_phase_after(phase: ExitPhase, ev: Event) -> ExitPhase {
    match (phase, ev) {
        (ExitPhase::Connecting, Event::Done) => ExitPhase::Greeting,
        (ExitPhase::Greeting, Event::Done) => ExitPhase::Closing,
        (ExitPhase::Closing, Event::Done) => ExitPhase::Awaiting,
        (ExitPhase::Awaiting, Event::Control(byte)) => ExitPhase::Fetching,
        // A confirmation is welcome, not needed.
        (ExitPhase::Awaiting, _) => ExitPhase::Over { ok: true },
        (ExitPhase::Fetching, Event::Bytes(b)) => if b@.len() == 0 {
            ExitPhase::Settling
        } else {
            ExitPhase::Playing
        },
        (ExitPhase::Playing, Event::Done) => ExitPhase::Fetching,
        (ExitPhase::Settling, _) => ExitPhase::Over { ok: true },
        (ExitPhase::Over { ok }, _) => ExitPhase::Over { ok },
        (_, _) => ExitPhase::Over { ok: false },
    }
}

impl ExitNotice {
    /// A notice for a conversation with the given persona.
    pub fn new(persona: u8) -> (r: ExitNotice)
        ensures
            r == (ExitNotice { persona, phase: ExitPhase::Connecting }),
    {
        ExitNotice { persona, phase: ExitPhase::Connecting }
    }

    /// What the notice waits for.
    pub fn awaits(&self) -> (r: Step<()>)
        ensures
            r == exit_awaits(*self),
    {
        match self.phase {
            ExitPhase::Connecting => Step::Do(Action::Connect),
            ExitPhase::Greeting => Step::Do(Action::SendByte(exit_header(self.persona))),
            ExitPhase::Closing => Step::Do(Action::CloseWrite),
            ExitPhase::Awaiting => Step::Do(Action::ReadControl),
            ExitPhase::Fetching => Step::Do(Action::ReadAudio),
            ExitPhase::Playing => Step::Do(Action::PlayAudio),
            ExitPhase::Settling => Step::Do(Action::Silence),
            ExitPhase::Over { ok } => if ok {
                Step::End(Some(()))
            } else {
                Step::End(None)
            },
        }
    }

    /// Goes on with what came of the awaited action.
    pub fn resume(&mut self, ev: Event)
        ensures
            *final(self) == exit_after(*old(self), ev),
    {
        let next = match (self.phase, ev) {
            (ExitPhase::Connecting, Event::Done) => ExitPhase::Greeting,
            (ExitPhase::Greeting, Event::Done) => ExitPhase::Closing,
            (ExitPhase::Closing, Event::Done) => ExitPhase::Awaiting,
            (ExitPhase::Awaiting, Event::Control(byte)) => ExitPhase::Fetching,
            (ExitPhase::Awaiting, _) => ExitPhase::Over { ok: true },
            (ExitPhase::Fetching, Event::Bytes(b)) => if b.len() == 0 {
                ExitPhase::Settling
            } else {
                ExitPhase::Playing
            },
            (ExitPhase::Playing, Event::Done) => ExitPhase::Fetching,
            (ExitPhase::Settling, _) => ExitPhase::Over { ok: true },
            (ExitPhase::Over { ok }, _) => ExitPhase::Over { ok },
            (_, _) => ExitPhase::Over { ok: false },
        };
        self.phase = next;
    }
}

/// An exit notice sends its header and never any audio, changes no volume, and leaves
/// the button alone.
pub proof fn law_exit_sends_header_only(x: ExitNotice)
    ensures
        exit_awaits(x) != Step::<()>::Do(Action::SendFrame),
        exit_awaits(x) != Step::<()>::Do(Action::ReadMic),
        exit_awaits(x) matches Step::Do(Action::SendByte(b)) ==> b == x.persona | TRANSCRIBE_EXIT,
        !(exit_awaits(x) matches Step::Do(Action::SetVolume(v))),
        !(exit_awaits(x) matches Step::Do(Action::KeepVolume(v))),
        exit_awaits(x) != Step::<()>::Do(Action::PollButton),
{
}

/// What an exit notice is after an event.
pub open spec fn exit_after(x: ExitNotice, ev: Event) -> ExitNotice {
    ExitNotice { persona: x.persona, phase: exit_phase_after(x.phase, ev) }
}

/// An exit notice connects, sends the persona with the high bit set, closes the connection
/// for sending and reads the reply byte, in this order; without a reply byte it is over in
/// good order, with one the confirmation is fetched.
pub proof fn law_exit_in_order(persona: u8, byte: u8, ev: Event)
    ensures
        ({
            let x = ExitNotice { persona, phase: ExitPhase::Connecting };
            let connected = exit_after(x, Event::Done);
            let greeted = exit_after(connected, Event::Done);
            let closed = exit_after(greeted, Event::Done);
            &&& exit_awaits(x) == Step::<()>::Do(Action::Connect)
            &&& exit_awaits(connected) == Step::<()>::Do(Action::SendByte(persona | 0x80))
            &&& exit_awaits(greeted) == Step::<()>::Do(Action::CloseWrite)
            &&& exit_awaits(closed) == Step::<()>::Do(Action::ReadControl)
            &&& exit_awaits(exit_after(closed, Event::Control(byte))) == Step::<()>::Do(
                Action::ReadAudio,
            )
            &&& !(ev is Control) ==> exit_awaits(exit_after(closed, ev)) == Step::<()>::End(
                Some(()),
            )
        }),
{
}

/// Where connecting, sending, closing, fetching or playing fails, the notice fails; and
/// one that is over stays over.
pub proof fn law_exit_failures(x: ExitNotice, ev: Event)
    ensures
        (x.phase == ExitPhase::Connecting || x.phase == ExitPhase::Greeting || x.phase
            == ExitPhase::Closing || x.phase == ExitPhase::Playing) && ev != Event::Done
            ==> exit_awaits(exit_after(x, ev)) == Step::<()>::End(None),
        x.phase == ExitPhase::Fetching && !(ev is Bytes) ==> exit_awaits(exit_after(x, ev))
            == Step::<()>::End(None),
        exit_awaits(x) is End ==> exit_after(x, ev) == x,
{
}

/// The server's confirmation is played chunk by chunk as it comes, and its end ends the
/// notice in good order, whatever comes of the silence behind it.
pub proof fn law_exit_plays_confirmation(x: ExitNotice, chunk: &[u8], ev: Event)
    requires
        x.phase == ExitPhase::Fetching,
    ensures
        ({
            let got = exit_after(x, Event::Bytes(chunk));
            &&& chunk@.len() > 0 ==> exit_awaits(got) == Step::<()>::Do(Action::PlayAudio)
                && exit_after(got, Event::Done) == x
            &&& chunk@.len() == 0 ==> exit_awaits(got) == Step::<()>::Do(Action::Silence)
                && exit_awaits(exit_after(got, ev)) == Step::<()>::End(Some(()))
        }),
{
}

// ---------------------------------------------------------------------------
// Streaming transcription
// ---------------------------------------------------------------------------
/// The phase of a stream.
#[derive(Clone, Copy, Debug, PartialEq, Eq, Structural)]
pub enum StreamPhase {
    Connecting,
    Greeting,
    /// The echo of the prompt dies away; so many frames may still be dropped for it.
    Draining { left: usize },
    Polling,
    Releasing,
    Reading,
    Sending,
    Closing,
    Cueing,
    Over { ok: bool },
}

/// A streaming transcribe session: the microphone is sent on one connection until the
/// button is pressed or the server closes it.
pub struct StreamSession {
    pub persona: u8,
    pub external: bool,
    pub phase: StreamPhase,
    /// The frame that was read last.
    pub frame: Ghost<Seq<u8>>,
    /// The frames sent so far.
    pub sent: Ghost<Seq<Seq<u8>>>,
}

/// What a stream waits for.
pub open spec fn stream_awaits(s: StreamSession) -> Step<()> {
    match s.phase {
        StreamPhase::Connecting => Step::Do(Action::Connect),
        StreamPhase::Greeting => Step::Do(
            Action::SendByte(stream_header_of(s.persona, s.external)),
        ),
        StreamPhase::Draining { left } => Step::Do(Action::ReadMic),
        StreamPhase::Polling => Step::Do(Action::PollButton),
        StreamPhase::Releasing => Step::Do(Action::WaitRelease),
        StreamPhase::Reading => Step::Do(Action::ReadMic),
        StreamPhase::Sending => Step::Do(Action::SendFrame),
        StreamPhase::Closing => Step::Do(Action::CloseBoth),
        StreamPhase::Cueing => Step::Do(Action::Beep { freq_hz: 700, ms: 90 }),
        StreamPhase::Over { ok } => Step::End(
            if ok {
                Some(())
            } else {
                None
            },
        ),
    }
}

/// The phase of a stream that follows on an event.
pub open spec fn stream_phase_after(phase: StreamPhase, ev: Event) -> StreamPhase {
    match (phase, ev) {
        (StreamPhase::Connecting, Event::Done) => StreamPhase::Greeting,
        (StreamPhase::Greeting, Event::Done) => StreamPhase::Draining { left: PROMPT_ECHO_FRAMES },
        (StreamPhase::Draining { left }, Event::Bytes(b)) => if loudness(b@) < SPEECH_PEAK || left
            <= 1 {
            StreamPhase::Polling
        } else {
            StreamPhase::Draining { left: (left - 1) as usize }
        },
        (StreamPhase::Polling, Event::Pressed(true)) => StreamPhase::Releasing,
        (StreamPhase::Polling, _) => StreamPhase::Reading,
        (StreamPhase::Releasing, _) => StreamPhase::Closing,
        (StreamPhase::Reading, Event::Bytes(b)) => if b@.len() == 0 {
            StreamPhase::Polling
        } else {
            StreamPhase::Sending
        },
        (StreamPhase::Sending, Event::Done) => StreamPhase::Polling,
        // The server has closed the connection.
        (StreamPhase::Sending, _) => StreamPhase::Closing,
        (StreamPhase::Closing, _) => StreamPhase::Cueing,
        (StreamPhase::Cueing, Event::Done) => StreamPhase::Over { ok: true },
        (StreamPhase::Over { ok }, _) => StreamPhase::Over { ok },
        (_, _) => StreamPhase::Over { ok: false },
    }
}

/// What a stream is after an event.
pub open spec fn stream_after(s: StreamSession, ev: Event) -> StreamSession {
    StreamSession {
        persona: s.persona,
        external: s.external,
        phase: stream_phase_after(s.phase, ev),
        frame: match (s.phase, ev) {
            (StreamPhase::Reading, Event::Bytes(b)) => Ghost(b@),
            (_, _) => s.frame,
        },
        sent: match (s.phase, ev) {
            (StreamPhase::Sending, Event::Done) => Ghost(s.sent@.push(s.frame@)),
            (_, _) => s.sent,
        },
    }
}

impl StreamSession {
    /// A stream to the given persona, transcribed elsewhere or on the PC.
    pub fn new(persona: u8, external: bool) -> (r: StreamSession)
        ensures
            r.persona == persona,
            r.external == external,
            r.phase == StreamPhase::Connecting,
            r.sent@ == Seq::<Seq<u8>>::empty(),
    {
        StreamSession {
            persona,
            external,
            phase: StreamPhase::Connecting,
            frame: Ghost(Seq::empty()),
            sent: Ghost(Seq::empty()),
        }
    }

    /// What the stream waits for.
    pub fn awaits(&self) -> (r: Step<()>)
        ensures
            r == stream_awaits(*self),
    {
        match self.phase {
            StreamPhase::Connecting => Step::Do(Action::Connect),
            StreamPhase::Greeting => Step::Do(
                Action::SendByte(stream_header(self.persona, self.external)),
            ),
            StreamPhase::Draining { left } => Step::Do(Action::ReadMic),
            StreamPhase::Polling => Step::Do(Action::PollButton),
            StreamPhase::Releasing => Step::Do(Action::WaitRelease),
            StreamPhase::Reading => Step::Do(Action::ReadMic),
            StreamPhase::Sending => Step::Do(Action::SendFrame),
            StreamPhase::Closing => Step::Do(Action::CloseBoth),
            StreamPhase::Cueing => Step::Do(Action::Beep { freq_hz: 700, ms: 90 }),
            StreamPhase::Over { ok } => if ok {
                Step::End(Some(()))
            } else {
                Step::End(None)
            },
        }
    }

    /// Goes on with what came of the awaited action.
    pub fn resume(&mut self, ev: Event)
        ensures
            *final(self) == stream_after(*old(self), ev),
    {
        let next = match (self.phase, ev) {
            (StreamPhase::Connecting, Event::Done) => StreamPhase::Greeting,
            (StreamPhase::Greeting, Event::Done) => StreamPhase::Draining {
                left: PROMPT_ECHO_FRAMES,
            },
            (StreamPhase::Draining { left }, Event::Bytes(b)) => if echo_gone(b) || left <= 1 {
                StreamPhase::Polling
            } else {
                StreamPhase::Draining { left: left - 1 }
            },
            (StreamPhase::Polling, Event::Pressed(true)) => StreamPhase::Releasing,
            (StreamPhase::Polling, _) => StreamPhase::Reading,
            (StreamPhase::Releasing, _) => StreamPhase::Closing,
            (StreamPhase::Reading, Event::Bytes(b)) => {
                self.frame = Ghost(b@);
                if b.len() == 0 {
                    StreamPhase::Polling
                } else {
                    StreamPhase::Sending
                }
            },
            (StreamPhase::Sending, Event::Done) => {
                self.sent = Ghost(self.sent@.push(self.frame@));
                StreamPhase::Polling
            },
            (StreamPhase::Sending, _) => StreamPhase::Closing,
            (StreamPhase::Closing, _) => StreamPhase::Cueing,
            (StreamPhase::Cueing, Event::Done) => StreamPhase::Over { ok: true },
            (StreamPhase::Over { ok }, _) => StreamPhase::Over { ok },
            (_, _) => StreamPhase::Over { ok: false },
        };
        self.phase = next;
    }
}

/// Nothing that is read behind the echo is lost: a frame is sent before anything else
/// is done, as it was read, and behind all that was sent before.
pub proof fn law_stream_loses_nothing(s: StreamSession, frame: &[u8])
    requires
        s.phase == StreamPhase::Reading,
        frame@.len() > 0,
    ensures
        ({
            let read = stream_after(s, Event::Bytes(frame));
            let sent = stream_after(read, Event::Done);
            &&& stream_awaits(read) == Step::<()>::Do(Action::SendFrame)
            &&& read.frame@ == frame@
            &&& sent.sent@ == s.sent@.push(frame@)
            &&& sent.sent@.flatten() == s.sent@.flatten() + frame@
        }),
{
    s.sent@.lemma_flatten_push(frame@);
}

/// A stream opens by connecting and sending the persona, with the high bit set where it is
/// transcribed elsewhere; only where both are done the echo of the prompt is drained.
pub proof fn law_stream_opens(s: StreamSession, ev: Event)
    requires
        s.phase == StreamPhase::Connecting,
    ensures
        ({
            let connected = stream_after(s, Event::Done);
            let greeted = stream_after(connected, Event::Done);
            &&& stream_awaits(s) == Step::<()>::Do(Action::Connect)
            &&& stream_awaits(connected) == Step::<()>::Do(
                Action::SendByte(
                    if s.external {
                        s.persona | 0x80
                    } else {
                        s.persona
                    },
                ),
            )
            &&& stream_awaits(greeted) == Step::<()>::Do(Action::ReadMic)
            &&& greeted.phase == (StreamPhase::Draining { left: 12 })
            &&& ev != Event::Done ==> stream_awaits(stream_after(s, ev)) == Step::<()>::End(None)
            &&& ev != Event::Done ==> stream_awaits(stream_after(connected, ev))
                == Step::<()>::End(None)
        }),
{
}

/// Draining the echo always leads into the loop: a frame in which the echo is gone, or
/// the last that may be dropped, is followed by a look at the button, any other by one
/// more frame. No frame ends the stream, and none that is drained is sent.
pub proof fn law_stream_drains_into_loop(s: StreamSession, left: usize, frame: &[u8])
    requires
        s.phase == (StreamPhase::Draining { left }),
        left >= 1,
    ensures
        ({
            let next = stream_after(s, Event::Bytes(frame));
            let gone = forall|i: int|
                0 <= i < samples_in(frame@).len() ==> -350 < #[trigger] samples_in(frame@)[i] < 350;
            &&& gone || left == 1 ==> next.phase == StreamPhase::Polling && stream_awaits(next)
                == Step::<()>::Do(Action::PollButton)
            &&& !gone && left > 1 ==> next.phase == (StreamPhase::Draining {
                left: (left - 1) as usize,
            }) && stream_awaits(next) == Step::<()>::Do(Action::ReadMic)
            &&& next.sent == s.sent
        }),
{
    law_echo_is_gone(frame@);
}

/// In its loop a stream looks at the button, reads a frame where it is not pressed, sends
/// the frame where it is not empty, and looks at the button again.
pub proof fn law_stream_loops(s: StreamSession, ev: Event, frame: &[u8])
    requires
        s.phase == StreamPhase::Polling,
        ev != Event::Pressed(true),
    ensures
        ({
            let reading = stream_after(s, ev);
            let read = stream_after(reading, Event::Bytes(frame));
            &&& stream_awaits(s) == Step::<()>::Do(Action::PollButton)
            &&& stream_awaits(reading) == Step::<()>::Do(Action::ReadMic)
            &&& frame@.len() == 0 ==> read.phase == StreamPhase::Polling && read.sent == s.sent
            &&& frame@.len() > 0 ==> stream_awaits(read) == Step::<()>::Do(Action::SendFrame)
                && stream_after(read, Event::Done).phase == StreamPhase::Polling && stream_after(
                read,
                Event::Done,
            ).sent@ == s.sent@.push(frame@)
        }),
{
}

/// Both ends of a stream lead to its close and then to a beep of 700 Hz for 90 ms: the
/// button, once it is released, and a server that no longer takes what is sent. Whatever
/// comes of the close, the stream ends in good order where the beep can be played.
pub proof fn law_stream_ends(s: StreamSession, a: Event, b: Event, cue: Event)
    ensures
        s.phase == StreamPhase::Polling ==> {
            let seen = stream_after(s, Event::Pressed(true));
            &&& stream_awaits(seen) == Step::<()>::Do(Action::WaitRelease)
            &&& stream_after(seen, a).phase == StreamPhase::Closing
        },
        s.phase == StreamPhase::Sending && a != Event::Done ==> stream_after(s, a).phase
            == StreamPhase::Closing,
        s.phase == StreamPhase::Closing ==> {
            let closed = stream_after(s, b);
            &&& stream_awaits(s) == Step::<()>::Do(Action::CloseBoth)
            &&& stream_awaits(closed) == Step::<()>::Do(Action::Beep { freq_hz: 700, ms: 90 })
            &&& stream_awaits(stream_after(closed, cue)) == Step::<()>::End(
                if cue == Event::Done {
                    Some(())
                } else {
                    None
                },
            )
        },
{
}

/// Where the microphone fails, a stream fails; one that is over stays over; and whatever
/// happens it keeps its persona, where it is transcribed, and what it has sent.
pub proof fn law_stream_keeps(s: StreamSession, ev: Event)
    ensures
        (s.phase is Draining || s.phase == StreamPhase::Reading) && !(ev is Bytes)
            ==> stream_awaits(stream_after(s, ev)) == Step::<()>::End(None),
        stream_awaits(s) is End ==> stream_after(s, ev) == s,
        stream_after(s, ev).persona == s.persona,
        stream_after(s, ev).external == s.external,
        s.sent@.is_prefix_of(stream_after(s, ev).sent@),
        stream_after(s, ev).sent != s.sent ==> stream_awaits(s) == Step::<()>::Do(
            Action::SendFrame,
        ) && ev == Event::Done,
{
}

/// A stream goes on until the button is pressed, the server closes the connection or
/// an action fails: nothing else leads out of its loop.
pub proof fn law_stream_goes_on(s: StreamSession, ev: Event)
    requires
        s.phase == StreamPhase::Polling || s.phase == StreamPhase::Reading || s.phase
            == StreamPhase::Sending,
    ensures
        ({
            let t = stream_after(s, ev);
            ||| t.phase == StreamPhase::Polling
            ||| t.phase == StreamPhase::Reading
            ||| t.phase == StreamPhase::Sending
            ||| s.phase == StreamPhase::Polling && ev == Event::Pressed(true) && t.phase
                == StreamPhase::Releasing
            ||| s.phase == StreamPhase::Sending && ev != Event::Done && t.phase
                == StreamPhase::Closing
            ||| s.phase == StreamPhase::Reading && !(ev is Bytes) && t.phase == (
            StreamPhase::Over { ok: false })
        }),
{
}

// ---------------------------------------------------------------------------
// Speaker mode
// ---------------------------------------------------------------------------
/// How long speaker mode waits for audio before it looks at the button again.
pub const SPEAKER_READ_TIMEOUT_MS: u64 = 100;

/// The phase of speaker mode.
#[derive(Clone, Copy, Debug, PartialEq, Eq, Structural)]
pub enum SpeakerPhase {
    Connecting,
    Arming,
    Polling,
    Reading,
    Playing,
    HangingUp { by_button: bool },
    Settling { by_button: bool },
    Releasing,
    Over { exit: Option<bool> },
}

/// Speaker mode: the PC's audio is played until the button is pressed or the stream
/// ends. Its result tells whether the button ended it.
pub struct SpeakerSession {
    pub phase: SpeakerPhase,
}

/// What speaker mode waits for.
pub open spec fn speaker_awaits(phase: SpeakerPhase) -> Step<bool> {
    match phase {
        SpeakerPhase::Connecting => Step::Do(Action::Connect),
        SpeakerPhase::Arming => Step::Do(Action::SetReadTimeout(SPEAKER_READ_TIMEOUT_MS)),
        SpeakerPhase::Polling => Step::Do(Action::PollButton),
        SpeakerPhase::Reading => Step::Do(Action::ReadAudio),
        SpeakerPhase::Playing => Step::Do(Action::PlayAudio),
        SpeakerPhase::HangingUp { by_button } => Step::Do(Action::HangUp),
        SpeakerPhase::Settling { by_button } => Step::Do(Action::Silence),
        SpeakerPhase::Releasing => Step::Do(Action::WaitRelease),
        SpeakerPhase::Over { exit } => Step::End(exit),
    }
}

/// The phase of speaker mode that follows on an event.
pub open spec fn speaker_after(phase: SpeakerPhase, ev: Event) -> SpeakerPhase {
    match (phase, ev) {
        (SpeakerPhase::Connecting, Event::Done) => SpeakerPhase::Arming,
        (SpeakerPhase::Arming, Event::Done) => SpeakerPhase::Polling,
        (SpeakerPhase::Polling, Event::Pressed(true)) => SpeakerPhase::HangingUp {
            by_button: true,
        },
        (SpeakerPhase::Polling, _) => SpeakerPhase::Reading,
        (SpeakerPhase::Reading, Event::Bytes(b)) => if b@.len() == 0 {
            SpeakerPhase::HangingUp { by_button: false }
        } else {
            SpeakerPhase::Playing
        },
        (SpeakerPhase::Reading, Event::TimedOut) => SpeakerPhase::Polling,
        (SpeakerPhase::Playing, Event::Done) => SpeakerPhase::Polling,
        (SpeakerPhase::HangingUp { by_button }, _) => SpeakerPhase::Settling { by_button },
        (SpeakerPhase::Settling { by_button }, _) => if by_button {
            SpeakerPhase::Releasing
        } else {
            SpeakerPhase::Over { exit: Some(false) }
        },
        (SpeakerPhase::Releasing, _) => SpeakerPhase::Over { exit: Some(true) },
        (SpeakerPhase::Over { exit }, _) => SpeakerPhase::Over { exit },
        (_, _) => SpeakerPhase::Over { exit: None },
    }
}

impl SpeakerSession {
    /// Speaker mode at its start.
    pub fn new() -> (r: SpeakerSession)
        ensures
            r.phase == SpeakerPhase::Connecting,
    {
        SpeakerSession { phase: SpeakerPhase::Connecting }
    }

    /// What speaker mode waits for.
    pub fn awaits(&self) -> (r: Step<bool>)
        ensures
            r == speaker_awaits(self.phase),
    {
        match self.phase {
            SpeakerPhase::Connecting => Step::Do(Action::Connect),
            SpeakerPhase::Arming => Step::Do(Action::SetReadTimeout(SPEAKER_READ_TIMEOUT_MS)),
            SpeakerPhase::Polling => Step::Do(Action::PollButton),
            SpeakerPhase::Reading => Step::Do(Action::ReadAudio),
            SpeakerPhase::Playing => Step::Do(Action::PlayAudio),
            SpeakerPhase::HangingUp { by_button } => Step::Do(Action::HangUp),
            SpeakerPhase::Settling { by_button } => Step::Do(Action::Silence),
            SpeakerPhase::Releasing => Step::Do(Action::WaitRelease),
            SpeakerPhase::Over { exit } => Step::End(exit),
        }
    }

    /// Goes on with what came of the awaited action.
    pub fn resume(&mut self, ev: Event)
        ensures
            final(self).phase == speaker_after(old(self).phase, ev),
    {
        let next = match (self.phase, ev) {
            (SpeakerPhase::Connecting, Event::Done) => SpeakerPhase::Arming,
            (SpeakerPhase::Arming, Event::Done) => SpeakerPhase::Polling,
            (SpeakerPhase::Polling, Event::Pressed(true)) => SpeakerPhase::HangingUp {
                by_button: true,
            },
            (SpeakerPhase::Polling, _) => SpeakerPhase::Reading,
            (SpeakerPhase::Reading, Event::Bytes(b)) => if b.len() == 0 {
                SpeakerPhase::HangingUp { by_button: false }
            } else {
                SpeakerPhase::Playing
            },
            (SpeakerPhase::Reading, Event::TimedOut) => SpeakerPhase::Polling,
            (SpeakerPhase::Playing, Event::Done) => SpeakerPhase::Polling,
            (SpeakerPhase::HangingUp { by_button }, _) => SpeakerPhase::Settling { by_button },
            (SpeakerPhase::Settling { by_button }, _) => if by_button {
                SpeakerPhase::Releasing
            } else {
                SpeakerPhase::Over { exit: Some(false) }
            },
            (SpeakerPhase::Releasing, _) => SpeakerPhase::Over { exit: Some(true) },
            (SpeakerPhase::Over { exit }, _) => SpeakerPhase::Over { exit },
            (_, _) => SpeakerPhase::Over { exit: None },
        };
        self.phase = next;
    }
}

/// Speaker mode goes on until the button is pressed, the stream ends or an action fails:
/// nothing else leads out of its loop.
pub proof fn law_speaker_goes_on(phase: SpeakerPhase, ev: Event)
    requires
        phase == SpeakerPhase::Polling || phase == SpeakerPhase::Reading || phase
            == SpeakerPhase::Playing,
    ensures
        ({
            let next = speaker_after(phase, ev);
            ||| next == SpeakerPhase::Polling
            ||| next == SpeakerPhase::Reading
            ||| next == SpeakerPhase::Playing
            ||| phase == SpeakerPhase::Polling && ev == Event::Pressed(true) && next == (
            SpeakerPhase::HangingUp { by_button: true })
            ||| phase == SpeakerPhase::Reading && (ev matches Event::Bytes(b) && b@.len() == 0)
                && next == (SpeakerPhase::HangingUp { by_button: false })
            ||| phase == SpeakerPhase::Reading && !(ev is Bytes) && ev != Event::TimedOut && next
                == (SpeakerPhase::Over { exit: None })
            ||| phase == SpeakerPhase::Playing && ev != Event::Done && next == (
            SpeakerPhase::Over { exit: None })
        }),
{
}

/// The PC's audio is played chunk by chunk as it comes: a chunk is played before anything
/// else is done, and then the button is looked at; where nothing came in time, it is
/// looked at as well, and without a press more is read.
pub proof fn law_speaker_plays_stream(chunk: &[u8], ev: Event)
    ensures
        ({
            let got = speaker_after(SpeakerPhase::Reading, Event::Bytes(chunk));
            &&& chunk@.len() > 0 ==> speaker_awaits(got) == Step::<bool>::Do(Action::PlayAudio)
                && speaker_awaits(speaker_after(got, Event::Done)) == Step::<bool>::Do(
                Action::PollButton,
            )
            &&& chunk@.len() == 0 ==> speaker_awaits(got) == Step::<bool>::Do(Action::HangUp)
        }),
        speaker_awaits(speaker_after(SpeakerPhase::Reading, Event::TimedOut)) == Step::<bool>::Do(
            Action::PollButton,
        ),
        ev != Event::Pressed(true) ==> speaker_awaits(speaker_after(SpeakerPhase::Polling, ev))
            == Step::<bool>::Do(Action::ReadAudio),
{
}

/// Speaker mode connects and sets its timeout of 100 ms, and only where both are done
/// looks at the button and plays; one that is over stays over.
pub proof fn law_speaker_opens(ev: Event, exit: Option<bool>)
    ensures
        ({
            let start = SpeakerPhase::Connecting;
            let connected = speaker_after(start, Event::Done);
            &&& speaker_awaits(start) == Step::<bool>::Do(Action::Connect)
            &&& speaker_awaits(connected) == Step::<bool>::Do(Action::SetReadTimeout(100))
            &&& speaker_awaits(speaker_after(connected, Event::Done)) == Step::<bool>::Do(
                Action::PollButton,
            )
            &&& ev != Event::Done ==> speaker_awaits(speaker_after(start, ev))
                == Step::<bool>::End(None)
            &&& ev != Event::Done ==> speaker_awaits(speaker_after(connected, ev))
                == Step::<bool>::End(None)
            &&& speaker_awaits(speaker_after(SpeakerPhase::Over { exit }, ev))
                == Step::<bool>::End(exit)
        }),
{
}

/// Where the stream cannot be read, or what was read cannot be played, speaker mode
/// fails; a read that only took too long is no failure.
pub proof fn law_speaker_failures(ev: Event)
    ensures
        !(ev is Bytes) && ev != Event::TimedOut ==> speaker_awaits(
            speaker_after(SpeakerPhase::Reading, ev),
        ) == Step::<bool>::End(None),
        ev != Event::Done ==> speaker_awaits(speaker_after(SpeakerPhase::Playing, ev))
            == Step::<bool>::End(None),
{
}

/// Once the button is seen pressed, speaker mode hangs up, plays silence, waits for
/// the release, and reports the button, whatever comes of that; once the stream has
/// ended it does the same without the wait and reports that. Neither can fail any
/// more.
pub proof fn law_speaker_ends(a: Event, b: Event, c: Event)
    ensures
        ({
            let p1 = speaker_after(SpeakerPhase::Polling, Event::Pressed(true));
            let p2 = speaker_after(p1, a);
            let p3 = speaker_after(p2, b);
            let p4 = speaker_after(p3, c);
            &&& speaker_awaits(p1) == Step::<bool>::Do(Action::HangUp)
            &&& speaker_awaits(p2) == Step::<bool>::Do(Action::Silence)
            &&& speaker_awaits(p3) == Step::<bool>::Do(Action::WaitRelease)
            &&& speaker_awaits(p4) == Step::<bool>::End(Some(true))
        }),
        ({
            let q1 = SpeakerPhase::HangingUp { by_button: false };
            let q2 = speaker_after(q1, a);
            let q3 = speaker_after(q2, b);
            &&& speaker_awaits(q1) == Step::<bool>::Do(Action::HangUp)
            &&& speaker_awaits(q2) == Step::<bool>::Do(Action::Silence)
            &&& speaker_awaits(q3) == Step::<bool>::End(Some(false))
        }),
{
}

} // verus!
