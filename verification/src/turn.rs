//! The assistant: idle until a wake word or the button, then one turn.

use vstd::prelude::*;

use crate::net::Reply;
use crate::wakeword::PERSONA_SOPHIA;

verus! {

// ---------------------------------------------------------------------------
// A turn
// ---------------------------------------------------------------------------
/// What a turn waits for.
#[derive(Clone, Copy, Debug, PartialEq, Eq, Structural)]
pub enum TurnAction {
    /// Play the chirp that says "speak now".
    Chirp { freq_hz: u32, ms: u32 },
    /// Take a spoken command.
    RunCommand,
    /// Tell whether the button is pressed.
    PollButton,
    /// Wait until the button is released.
    WaitRelease,
    /// Tell the server that transcribe mode was left.
    NotifyExit,
    /// Play the PC's audio.
    RunSpeaker,
    /// Stream the microphone (true: transcribed elsewhere).
    RunStream(bool),
}

/// What came of it.
#[derive(Clone, Copy, Debug, PartialEq, Eq, Structural)]
pub enum TurnEvent {
    /// It was done.
    Done,
    /// It failed.
    Failed,
    /// The button is pressed, or not.
    Pressed(bool),
    /// The command was replied to.
    Replied(Reply),
    /// Speaker mode was left, by the button or not.
    SpeakerLeft(bool),
}

/// The phase of a turn.
#[derive(Clone, Copy, Debug, PartialEq, Eq, Structural)]
pub enum TurnPhase {
    Chirping,
    Commanding,
    Polling,
    Releasing,
    Notifying,
    Speaking,
    Streaming { external: bool },
    Over { ok: bool },
}

/// Where a turn stands.
#[derive(Clone, Copy, Debug, PartialEq, Eq, Structural)]
pub enum TurnStep {
    /// It waits for an action.
    Do(TurnAction),
    /// It is over, in good order or not.
    End { ok: bool },
}

/// A turn: one command, and what the server asks for behind it.
#[derive(Clone, Copy, Debug, PartialEq, Eq, Structural)]
pub struct Turn {
    /// Utterances are recorded one after the other, without a wake word.
    pub transcribing: bool,
    pub phase: TurnPhase,
}

/// What a turn waits for.
pub open spec fn turn_awaits(t: Turn) -> TurnStep {
    match t.phase {
        TurnPhase::Chirping => TurnStep::Do(TurnAction::Chirp { freq_hz: 1200, ms: 60 }),
        TurnPhase::Commanding => TurnStep::Do(TurnAction::RunCommand),
        TurnPhase::Polling => TurnStep::Do(TurnAction::PollButton),
        TurnPhase::Releasing => TurnStep::Do(TurnAction::WaitRelease),
        TurnPhase::Notifying => TurnStep::Do(TurnAction::NotifyExit),
        TurnPhase::Speaking => TurnStep::Do(TurnAction::RunSpeaker),
        TurnPhase::Streaming { external } => TurnStep::Do(TurnAction::RunStream(external)),
        TurnPhase::Over { ok } => TurnStep::End { ok },
    }
}

/// What a turn is after an event.
pub open spec fn turn_after(t: Turn, ev: TurnEvent) -> Turn {
    match (t.phase, ev) {
        (TurnPhase::Chirping, TurnEvent::Done) => Turn { phase: TurnPhase::Commanding, ..t },
        (TurnPhase::Chirping, _) => Turn { phase: TurnPhase::Over { ok: false }, ..t },
        (TurnPhase::Commanding, TurnEvent::Replied(Reply::Transcribe)) => Turn {
            transcribing: true,
            phase: TurnPhase::Polling,
        },
        (TurnPhase::Commanding, TurnEvent::Replied(Reply::Speaker)) => Turn {
            transcribing: false,
            phase: TurnPhase::Speaking,
        },
        (TurnPhase::Commanding, TurnEvent::Replied(Reply::Stream(external))) => Turn {
            phase: TurnPhase::Streaming { external },
            ..t
        },
        // A plain reply ends the turn, and so does a command that failed.
        (TurnPhase::Commanding, _) => Turn { phase: TurnPhase::Over { ok: true }, ..t },
        (TurnPhase::Polling, TurnEvent::Pressed(true)) => Turn { phase: TurnPhase::Releasing, ..t },
        (TurnPhase::Polling, _) => Turn { phase: TurnPhase::Commanding, ..t },
        (TurnPhase::Releasing, _) => Turn { phase: TurnPhase::Notifying, ..t },
        (TurnPhase::Notifying, _) => Turn { phase: TurnPhase::Over { ok: true }, ..t },
        // The button leaves speaker mode and starts the next command.
        (TurnPhase::Speaking, TurnEvent::SpeakerLeft(true)) => Turn {
            phase: TurnPhase::Chirping,
            ..t
        },
        (TurnPhase::Speaking, _) => Turn { phase: TurnPhase::Over { ok: true }, ..t },
        (TurnPhase::Streaming { external }, _) => Turn { phase: TurnPhase::Over { ok: true }, ..t },
        (TurnPhase::Over { ok }, _) => t,
    }
}

impl Turn {
    /// What holds of every turn: a chirp belongs to a command outside transcribe mode,
    /// the button is looked at in transcribe mode only.
    pub open spec fn valid(self) -> bool {
        match self.phase {
            TurnPhase::Chirping => !self.transcribing,
            TurnPhase::Speaking => !self.transcribing,
            TurnPhase::Polling => self.transcribing,
            TurnPhase::Releasing => self.transcribing,
            TurnPhase::Notifying => self.transcribing,
            _ => true,
        }
    }

    /// A turn at its start.
    pub fn new() -> (r: Turn)
        ensures
            r.valid(),
            r == (Turn { transcribing: false, phase: TurnPhase::Chirping }),
    {
        Turn { transcribing: false, phase: TurnPhase::Chirping }
    }

    /// What the turn waits for.
    pub fn awaits(&self) -> (r: TurnStep)
        ensures
            r == turn_awaits(*self),
    {
        match self.phase {
            TurnPhase::Chirping => TurnStep::Do(TurnAction::Chirp { freq_hz: 1200, ms: 60 }),
            TurnPhase::Commanding => TurnStep::Do(TurnAction::RunCommand),
            TurnPhase::Polling => TurnStep::Do(TurnAction::PollButton),
            TurnPhase::Releasing => TurnStep::Do(TurnAction::WaitRelease),
            TurnPhase::Notifying => TurnStep::Do(TurnAction::NotifyExit),
            TurnPhase::Speaking => TurnStep::Do(TurnAction::RunSpeaker),
            TurnPhase::Streaming { external } => TurnStep::Do(TurnAction::RunStream(external)),
            TurnPhase::Over { ok } => TurnStep::End { ok },
        }
    }

    /// Goes on with what came of the awaited action.
    pub fn resume(&mut self, ev: TurnEvent)
        requires
            old(self).valid(),
        ensures
            final(self).valid(),
            *final(self) == turn_after(*old(self), ev),
    {
        match (self.phase, ev) {
            (TurnPhase::Chirping, TurnEvent::Done) => {
                self.phase = TurnPhase::Commanding;
            },
            (TurnPhase::Chirping, _) => {
                self.phase = TurnPhase::Over { ok: false };
            },
            (TurnPhase::Commanding, TurnEvent::Replied(reply)) => {
                match reply {
                    Reply::Transcribe => {
                        self.transcribing = true;
                        self.phase = TurnPhase::Polling;
                    },
                    Reply::Speaker => {
                        self.transcribing = false;
                        self.phase = TurnPhase::Speaking;
                    },
                    Reply::Stream(external) => {
                        self.phase = TurnPhase::Streaming { external };
                    },
                    Reply::Done => {
                        self.phase = TurnPhase::Over { ok: true };
                    },
                }
            },
            (TurnPhase::Polling, TurnEvent::Pressed(true)) => {
                self.phase = TurnPhase::Releasing;
            },
            (TurnPhase::Polling, _) => {
                self.phase = TurnPhase::Commanding;
            },
            (TurnPhase::Releasing, _) => {
                self.phase = TurnPhase::Notifying;
            },
            (TurnPhase::Speaking, TurnEvent::SpeakerLeft(true)) => {
                self.phase = TurnPhase::Chirping;
            },
            (TurnPhase::Over { ok }, _) => {},
            (_, _) => {
                self.phase = TurnPhase::Over { ok: true };
            },
        }
    }
}

/// In transcribe mode nothing beeps: a chirp is played outside it only, and the
/// command that follows an utterance is taken without one.
pub proof fn law_no_chirp_while_transcribing(t: Turn, ev: TurnEvent)
    requires
        t.valid(),
    ensures
        turn_awaits(t) matches TurnStep::Do(TurnAction::Chirp { freq_hz, ms }) ==> !t.transcribing,
        t.phase == TurnPhase::Polling && ev != TurnEvent::Pressed(true) ==> turn_awaits(
            turn_after(t, ev),
        ) == TurnStep::Do(TurnAction::RunCommand),
{
}

/// Outside transcribe mode every command is announced by a chirp.
pub proof fn law_commands_are_announced(t: Turn, ev: TurnEvent)
    requires
        t.valid(),
        t.phase != TurnPhase::Commanding,
        turn_awaits(turn_after(t, ev)) == TurnStep::Do(TurnAction::RunCommand),
    ensures
        t.phase == TurnPhase::Chirping && ev == TurnEvent::Done || t.phase == TurnPhase::Polling
            && t.transcribing,
{
}

/// What the server asks for is what the turn does next: nothing more, the PC's audio, a
/// stream, or, in transcribe mode, the next utterance unless the button is pressed.
pub proof fn law_turn_follows_reply(t: Turn, reply: Reply)
    requires
        t.phase == TurnPhase::Commanding,
    ensures
        ({
            let next = turn_after(t, TurnEvent::Replied(reply));
            &&& turn_awaits(next) == (match reply {
                Reply::Done => TurnStep::End { ok: true },
                Reply::Speaker => TurnStep::Do(TurnAction::RunSpeaker),
                Reply::Transcribe => TurnStep::Do(TurnAction::PollButton),
                Reply::Stream(external) => TurnStep::Do(TurnAction::RunStream(external)),
            })
            &&& reply == Reply::Transcribe ==> next.transcribing
            &&& reply == Reply::Speaker ==> !next.transcribing
        }),
{
}

/// The button leaves speaker mode and starts the next command, with its chirp; a stream
/// that ended, or could not be played, ends the turn.
pub proof fn law_turn_after_speaker_mode(t: Turn, ev: TurnEvent)
    requires
        t.phase == TurnPhase::Speaking,
    ensures
        ({
            let next = turn_after(t, TurnEvent::SpeakerLeft(true));
            &&& turn_awaits(next) matches TurnStep::Do(TurnAction::Chirp { freq_hz, ms })
            &&& turn_awaits(turn_after(next, TurnEvent::Done)) == TurnStep::Do(
                TurnAction::RunCommand,
            )
        }),
        ev != TurnEvent::SpeakerLeft(true) ==> turn_awaits(turn_after(t, ev)) == (TurnStep::End {
            ok: true,
        }),
{
}

/// The server hears of an end of transcribe mode when, and only when, the button was
/// pressed in it, once it is released; behind the notice the turn is over, whatever came
/// of it.
pub proof fn law_exit_by_button(t: Turn, ev: TurnEvent)
    requires
        t.valid(),
    ensures
        turn_awaits(turn_after(t, ev)) == TurnStep::Do(TurnAction::NotifyExit) ==> t.phase
            == TurnPhase::Releasing && t.transcribing,
        turn_after(t, ev).phase == TurnPhase::Releasing ==> t.phase == TurnPhase::Polling && ev
            == TurnEvent::Pressed(true),
        t.phase == TurnPhase::Polling ==> turn_awaits(turn_after(t, TurnEvent::Pressed(true)))
            == TurnStep::Do(TurnAction::WaitRelease),
        t.phase == TurnPhase::Releasing ==> turn_awaits(turn_after(t, ev)) == TurnStep::Do(
            TurnAction::NotifyExit,
        ),
        t.phase == TurnPhase::Notifying ==> turn_awaits(turn_after(t, ev)) == (TurnStep::End {
            ok: true,
        }),
{
}

/// A streaming session ends the turn in good order, whatever came of it: the device goes
/// back to listening for its wake words.
pub proof fn law_turn_after_stream(t: Turn, ev: TurnEvent)
    requires
        t.phase matches TurnPhase::Streaming { external },
    ensures
        turn_awaits(turn_after(t, ev)) == (TurnStep::End { ok: true }),
{
}

/// A turn starts with a chirp of 1200 Hz for 60 ms; once it was played the command is
/// taken, and where it could not be played the turn goes wrong.
pub proof fn law_turn_starts_with_chirp(t: Turn, ev: TurnEvent)
    requires
        turn_awaits(t) matches TurnStep::Do(TurnAction::Chirp { freq_hz, ms }),
    ensures
        turn_awaits(t) == TurnStep::Do(TurnAction::Chirp { freq_hz: 1200, ms: 60 }),
        turn_awaits(turn_after(t, ev)) == (if ev == TurnEvent::Done {
            TurnStep::Do(TurnAction::RunCommand)
        } else {
            TurnStep::End { ok: false }
        }),
        turn_after(t, ev).transcribing == t.transcribing,
{
}

/// A command that was not replied to ends the turn in good order, in transcribe mode and
/// outside it.
pub proof fn law_turn_without_reply(t: Turn, ev: TurnEvent)
    requires
        turn_awaits(t) == TurnStep::Do(TurnAction::RunCommand),
        !(ev is Replied),
    ensures
        turn_awaits(turn_after(t, ev)) == (TurnStep::End { ok: true }),
{
}

/// Transcribe mode goes on utterance after utterance: as long as the server asks for it
/// and the button is not pressed, a command is taken and the button looked at in turn,
/// and nothing else is done.
pub proof fn law_transcribing_goes_on(t: Turn, ev: TurnEvent)
    requires
        turn_awaits(t) == TurnStep::Do(TurnAction::RunCommand),
        ev != TurnEvent::Pressed(true),
    ensures
        ({
            let replied = turn_after(t, TurnEvent::Replied(Reply::Transcribe));
            let polled = turn_after(replied, ev);
            &&& turn_awaits(replied) == TurnStep::Do(TurnAction::PollButton)
            &&& replied.transcribing
            &&& turn_awaits(polled) == TurnStep::Do(TurnAction::RunCommand)
            &&& polled.transcribing
        }),
{
}

/// The button ends transcribe mode: it is waited for, the server is told, and the turn is
/// over in good order, whatever comes of that.
pub proof fn law_button_ends_transcribing(t: Turn, a: TurnEvent, b: TurnEvent)
    requires
        turn_awaits(t) == TurnStep::Do(TurnAction::PollButton),
    ensures
        ({
            let seen = turn_after(t, TurnEvent::Pressed(true));
            let released = turn_after(seen, a);
            let told = turn_after(released, b);
            &&& turn_awaits(seen) == TurnStep::Do(TurnAction::WaitRelease)
            &&& turn_awaits(released) == TurnStep::Do(TurnAction::NotifyExit)
            &&& turn_awaits(told) == (TurnStep::End { ok: true })
        }),
{
}

/// A turn that is over stays over, as it is.
pub proof fn law_turn_stays_over(t: Turn, ev: TurnEvent)
    requires
        turn_awaits(t) is End,
    ensures
        turn_after(t, ev) == t,
{
}

/// A turn goes wrong only where its chirp cannot be played.
pub proof fn law_turn_ends_in_order(t: Turn, ev: TurnEvent)
    requires
        t.phase != (TurnPhase::Over { ok: false }),
        turn_after(t, ev).phase == (TurnPhase::Over { ok: false }),
    ensures
        t.phase == TurnPhase::Chirping,
        ev != TurnEvent::Done,
{
}

// ---------------------------------------------------------------------------
// The loop around the turns
// ---------------------------------------------------------------------------
/// What the assistant waits for.
#[derive(Clone, Copy, Debug, PartialEq, Eq, Structural)]
pub enum VoiceAction {
    /// Tell whether the button is pressed.
    PollButton,
    /// Wait until the button is released.
    WaitRelease,
    /// Read a frame for the wake words.
    ReadFrame,
    /// Look for a wake word in the frame that was read last.
    Detect,
    /// Run a turn with this persona.
    RunTurn(u8),
}

/// What came of it.
#[derive(Clone, Copy, Debug, PartialEq, Eq, Structural)]
pub enum VoiceEvent {
    /// It was done.
    Done,
    /// It failed.
    Failed,
    /// The button is pressed, or not.
    Pressed(bool),
    /// A wake word named this persona.
    Woken(u8),
}

/// The phase of the assistant.
#[derive(Clone, Copy, Debug, PartialEq, Eq, Structural)]
pub enum VoicePhase {
    Polling,
    Releasing,
    Reading,
    Detecting,
    Turning { persona: u8 },
    Failed,
}

/// The assistant.
#[derive(Clone, Copy, Debug, PartialEq, Eq, Structural)]
pub struct Voice {
    pub phase: VoicePhase,
}

/// What the assistant waits for; nothing once an action has failed.
pub open spec fn voice_awaits(phase: VoicePhase) -> Option<VoiceAction> {
    match phase {
        VoicePhase::Polling => Some(VoiceAction::PollButton),
        VoicePhase::Releasing => Some(VoiceAction::WaitRelease),
        VoicePhase::Reading => Some(VoiceAction::ReadFrame),
        VoicePhase::Detecting => Some(VoiceAction::Detect),
        VoicePhase::Turning { persona } => Some(VoiceAction::RunTurn(persona)),
        VoicePhase::Failed => None,
    }
}

/// The phase of the assistant that follows on an event.
pub open spec fn voice_after(phase: VoicePhase, ev: VoiceEvent) -> VoicePhase {
    match (phase, ev) {
        (VoicePhase::Polling, VoiceEvent::Pressed(true)) => VoicePhase::Releasing,
        (VoicePhase::Polling, _) => VoicePhase::Reading,
        // The button stands for the default persona.
        (VoicePhase::Releasing, _) => VoicePhase::Turning { persona: PERSONA_SOPHIA },
        (VoicePhase::Reading, VoiceEvent::Done) => VoicePhase::Detecting,
        (VoicePhase::Detecting, VoiceEvent::Woken(persona)) => VoicePhase::Turning { persona },
        (VoicePhase::Detecting, _) => VoicePhase::Polling,
        (VoicePhase::Turning { persona }, VoiceEvent::Done) => VoicePhase::Polling,
        (_, _) => VoicePhase::Failed,
    }
}

impl Voice {
    /// The assistant, idle.
    pub fn new() -> (r: Voice)
        ensures
            r.phase == VoicePhase::Polling,
    {
        Voice { phase: VoicePhase::Polling }
    }

    /// What the assistant waits for.
    pub fn awaits(&self) -> (r: Option<VoiceAction>)
        ensures
            r == voice_awaits(self.phase),
    {
        match self.phase {
            VoicePhase::Polling => Some(VoiceAction::PollButton),
            VoicePhase::Releasing => Some(VoiceAction::WaitRelease),
            VoicePhase::Reading => Some(VoiceAction::ReadFrame),
            VoicePhase::Detecting => Some(VoiceAction::Detect),
            VoicePhase::Turning { persona } => Some(VoiceAction::RunTurn(persona)),
            VoicePhase::Failed => None,
        }
    }

    /// Goes on with what came of the awaited action.
    pub fn resume(&mut self, ev: VoiceEvent)
        ensures
            final(self).phase == voice_after(old(self).phase, ev),
    {
        let next = match (self.phase, ev) {
            (VoicePhase::Polling, VoiceEvent::Pressed(true)) => VoicePhase::Releasing,
            (VoicePhase::Polling, _) => VoicePhase::Reading,
            (VoicePhase::Releasing, _) => VoicePhase::Turning { persona: PERSONA_SOPHIA },
            (VoicePhase::Reading, VoiceEvent::Done) => VoicePhase::Detecting,
            (VoicePhase::Detecting, VoiceEvent::Woken(persona)) => VoicePhase::Turning { persona },
            (VoicePhase::Detecting, _) => VoicePhase::Polling,
            (VoicePhase::Turning { persona }, VoiceEvent::Done) => VoicePhase::Polling,
            (_, _) => VoicePhase::Failed,
        };
        self.phase = next;
    }
}

/// The assistant stops only where a frame cannot be read or a turn goes wrong.
pub proof fn law_voice_goes_on(phase: VoicePhase, ev: VoiceEvent)
    requires
        voice_awaits(phase) is Some,
        voice_awaits(voice_after(phase, ev)) is None,
    ensures
        phase == VoicePhase::Reading || phase is Turning,
        ev != VoiceEvent::Done,
{
}

/// A turn is started by the button, for the default persona, or by a wake word, for
/// the persona that it names, and by nothing else.
pub proof fn law_turns_are_triggered(phase: VoicePhase, ev: VoiceEvent, persona: u8)
    requires
        voice_awaits(voice_after(phase, ev)) == Some(VoiceAction::RunTurn(persona)),
    ensures
        phase == VoicePhase::Releasing && persona == PERSONA_SOPHIA || phase
            == VoicePhase::Detecting && ev == VoiceEvent::Woken(persona),
{
}

/// Every wake word starts a turn with the persona that it names; a frame without one
/// leads back to the button.
pub proof fn law_wake_word_starts_turn(phase: VoicePhase, ev: VoiceEvent, persona: u8)
    requires
        voice_awaits(phase) == Some(VoiceAction::Detect),
    ensures
        voice_awaits(voice_after(phase, VoiceEvent::Woken(persona))) == Some(
            VoiceAction::RunTurn(persona),
        ),
        !(ev is Woken) ==> voice_awaits(voice_after(phase, ev)) == Some(VoiceAction::PollButton),
{
}

/// The button starts a turn with Sophia, once it is released.
pub proof fn law_button_starts_turn(phase: VoicePhase, ev: VoiceEvent)
    requires
        voice_awaits(phase) == Some(VoiceAction::PollButton),
    ensures
        ({
            let seen = voice_after(phase, VoiceEvent::Pressed(true));
            &&& voice_awaits(seen) == Some(VoiceAction::WaitRelease)
            &&& voice_awaits(voice_after(seen, ev)) == Some(VoiceAction::RunTurn(0))
        }),
{
}

/// Where the button is not pressed, a frame is read and looked at for a wake word; where
/// none can be read, the assistant stops.
pub proof fn law_voice_listens(phase: VoicePhase, ev: VoiceEvent, read: VoiceEvent)
    requires
        voice_awaits(phase) == Some(VoiceAction::PollButton),
        ev != VoiceEvent::Pressed(true),
    ensures
        ({
            let idle = voice_after(phase, ev);
            &&& voice_awaits(idle) == Some(VoiceAction::ReadFrame)
            &&& voice_awaits(voice_after(idle, read)) == (if read == VoiceEvent::Done {
                Some(VoiceAction::Detect)
            } else {
                None
            })
        }),
{
}

/// Behind a turn in good order, with whatever persona, the assistant is idle again; one
/// that went wrong stops it for good.
pub proof fn law_voice_after_turn(phase: VoicePhase, persona: u8, ev: VoiceEvent, later: VoiceEvent)
    requires
        voice_awaits(phase) == Some(VoiceAction::RunTurn(persona)),
    ensures
        voice_awaits(voice_after(phase, VoiceEvent::Done)) == Some(VoiceAction::PollButton),
        ev != VoiceEvent::Done ==> voice_awaits(voice_after(phase, ev)) is None && voice_awaits(
            voice_after(voice_after(phase, ev), later),
        ) is None,
{
}

} // verus!
