use voices3r::net::Reply;
use voices3r::turn::{Turn, TurnAction, TurnEvent, TurnStep, Voice, VoiceAction, VoiceEvent};
use voices3r::wakeword::{
    error_message, Report, WakeAction, WakeAnswer, WakeError, WakePhase, WakeSetup, WakeWord, PERSONA_JARVIS,
    PERSONA_SOPHIA,
};

const CHIRP: TurnStep = TurnStep::Do(TurnAction::Chirp { freq_hz: 1200, ms: 60 });

fn to_command() -> Turn {
    let mut t = Turn::new();
    assert_eq!(t.awaits(), CHIRP);
    t.resume(TurnEvent::Done);
    assert_eq!(t.awaits(), TurnStep::Do(TurnAction::RunCommand));
    t
}

#[test]
fn a_plain_turn() {
    let mut t = to_command();
    t.resume(TurnEvent::Replied(Reply::Done));
    assert_eq!(t.awaits(), TurnStep::End { ok: true });
}

#[test]
fn a_failed_command_ends_the_turn() {
    let mut t = to_command();
    t.resume(TurnEvent::Failed);
    assert_eq!(t.awaits(), TurnStep::End { ok: true });
}

#[test]
fn a_turn_without_a_chirp_goes_wrong() {
    let mut t = Turn::new();
    t.resume(TurnEvent::Failed);
    assert_eq!(t.awaits(), TurnStep::End { ok: false });
}

#[test]
fn transcribing_goes_on_without_chirps() {
    let mut t = to_command();
    for _ in 0..3 {
        t.resume(TurnEvent::Replied(Reply::Transcribe));
        assert!(t.transcribing);
        assert_eq!(t.awaits(), TurnStep::Do(TurnAction::PollButton));
        t.resume(TurnEvent::Pressed(false));
        assert_eq!(t.awaits(), TurnStep::Do(TurnAction::RunCommand));
    }
    t.resume(TurnEvent::Replied(Reply::Transcribe));
    t.resume(TurnEvent::Pressed(true));
    assert_eq!(t.awaits(), TurnStep::Do(TurnAction::WaitRelease));
    t.resume(TurnEvent::Done);
    assert_eq!(t.awaits(), TurnStep::Do(TurnAction::NotifyExit));
    t.resume(TurnEvent::Failed);
    assert_eq!(t.awaits(), TurnStep::End { ok: true });
}

#[test]
fn the_server_can_leave_transcribe_mode() {
    let mut t = to_command();
    t.resume(TurnEvent::Replied(Reply::Transcribe));
    t.resume(TurnEvent::Pressed(false));
    t.resume(TurnEvent::Replied(Reply::Done));
    assert_eq!(t.awaits(), TurnStep::End { ok: true });
}

#[test]
fn speaker_mode_and_the_next_command() {
    let mut t = to_command();
    t.resume(TurnEvent::Replied(Reply::Transcribe));
    t.resume(TurnEvent::Pressed(false));
    t.resume(TurnEvent::Replied(Reply::Speaker));
    assert_eq!(t.awaits(), TurnStep::Do(TurnAction::RunSpeaker));
    t.resume(TurnEvent::SpeakerLeft(true));
    assert!(!t.transcribing);
    assert_eq!(t.awaits(), CHIRP);
    t.resume(TurnEvent::Done);
    t.resume(TurnEvent::Replied(Reply::Speaker));
    t.resume(TurnEvent::SpeakerLeft(false));
    assert_eq!(t.awaits(), TurnStep::End { ok: true });
    let mut t = to_command();
    t.resume(TurnEvent::Replied(Reply::Speaker));
    t.resume(TurnEvent::Failed);
    assert_eq!(t.awaits(), TurnStep::End { ok: true });
}

#[test]
fn a_stream_ends_the_turn() {
    for external in [true, false] {
        let mut t = to_command();
        t.resume(TurnEvent::Replied(Reply::Stream(external)));
        assert_eq!(t.awaits(), TurnStep::Do(TurnAction::RunStream(external)));
        t.resume(TurnEvent::Failed);
        assert_eq!(t.awaits(), TurnStep::End { ok: true });
    }
}

#[test]
fn the_assistant_waits_for_a_trigger() {
    let mut v = Voice::new();
    assert_eq!(v.awaits(), Some(VoiceAction::PollButton));
    v.resume(VoiceEvent::Pressed(false));
    assert_eq!(v.awaits(), Some(VoiceAction::ReadFrame));
    v.resume(VoiceEvent::Done);
    assert_eq!(v.awaits(), Some(VoiceAction::Detect));
    v.resume(VoiceEvent::Done);
    assert_eq!(v.awaits(), Some(VoiceAction::PollButton));
    v.resume(VoiceEvent::Pressed(true));
    assert_eq!(v.awaits(), Some(VoiceAction::WaitRelease));
    v.resume(VoiceEvent::Done);
    assert_eq!(v.awaits(), Some(VoiceAction::RunTurn(PERSONA_SOPHIA)));
    v.resume(VoiceEvent::Done);
    v.resume(VoiceEvent::Pressed(false));
    v.resume(VoiceEvent::Done);
    v.resume(VoiceEvent::Woken(PERSONA_JARVIS));
    assert_eq!(v.awaits(), Some(VoiceAction::RunTurn(PERSONA_JARVIS)));
    v.resume(VoiceEvent::Done);
    assert_eq!(v.awaits(), Some(VoiceAction::PollButton));
}

#[test]
fn the_assistant_stops_on_failures() {
    let mut v = Voice::new();
    v.resume(VoiceEvent::Pressed(false));
    v.resume(VoiceEvent::Failed);
    assert_eq!(v.awaits(), None);
    let mut v = Voice::new();
    v.resume(VoiceEvent::Pressed(true));
    v.resume(VoiceEvent::Done);
    v.resume(VoiceEvent::Failed);
    assert_eq!(v.awaits(), None);
}

#[test]
fn whom_a_wake_word_names() {
    let w = WakeWord { feed_chunk: 512, channels: 1, jarvis_index: 2 };
    assert_eq!(w.frame_len(), 512);
    assert_eq!(w.process(Report::Nothing), None);
    assert_eq!(w.process(Report::Quiet), None);
    assert_eq!(w.process(Report::Detected(1)), Some(PERSONA_SOPHIA));
    assert_eq!(w.process(Report::Detected(2)), Some(PERSONA_JARVIS));
    assert_eq!(w.process(Report::Detected(3)), Some(PERSONA_SOPHIA));
}

fn asking(s: &WakeSetup, a: WakeAction) {
    assert_eq!(s.phase, WakePhase::Asking(a));
}

#[test]
fn both_wake_words_come_up() {
    let mut s = WakeSetup::new();
    asking(&s, WakeAction::OpenModels);
    s.resume(WakeAnswer::Count(3));
    asking(&s, WakeAction::FindSophia);
    s.resume(WakeAnswer::Found);
    asking(&s, WakeAction::FindJarvis);
    s.resume(WakeAnswer::Found);
    asking(&s, WakeAction::MakeConfig);
    s.resume(WakeAnswer::Found);
    asking(&s, WakeAction::GetHandle);
    s.resume(WakeAnswer::Found);
    asking(&s, WakeAction::GetCreate);
    s.resume(WakeAnswer::Found);
    asking(&s, WakeAction::Create);
    s.resume(WakeAnswer::Found);
    asking(&s, WakeAction::LoadJarvis);
    s.resume(WakeAnswer::Count(2));
    asking(&s, WakeAction::AskChunkSize);
    assert_eq!(s.wake_word(), None);
    s.resume(WakeAnswer::Size(480));
    asking(&s, WakeAction::AskChannels);
    s.resume(WakeAnswer::Size(1));
    assert_eq!(s.phase, WakePhase::Ready);
    assert_eq!(s.wake_word(), Some(WakeWord { feed_chunk: 480, channels: 1, jarvis_index: 2 }));
}

#[test]
fn sophia_alone_comes_up() {
    for (jarvis, load) in [
        (WakeAnswer::Missing, None),
        (WakeAnswer::Found, Some(WakeAnswer::Count(0))),
        (WakeAnswer::Found, Some(WakeAnswer::Count(-3))),
        (WakeAnswer::Found, Some(WakeAnswer::Missing)),
    ] {
        let mut s = WakeSetup::new();
        s.resume(WakeAnswer::Count(1));
        s.resume(WakeAnswer::Found);
        s.resume(jarvis);
        for _ in 0..4 {
            s.resume(WakeAnswer::Found);
        }
        if let Some(a) = load {
            asking(&s, WakeAction::LoadJarvis);
            s.resume(a);
        }
        s.resume(WakeAnswer::Size(512));
        s.resume(WakeAnswer::Size(2));
        let w = s.wake_word().unwrap();
        assert_eq!(w.jarvis_index, -1);
        assert_eq!(w.process(Report::Detected(1)), Some(PERSONA_SOPHIA));
        assert_eq!(w.process(Report::Detected(2)), Some(PERSONA_SOPHIA));
    }
}

#[test]
fn sophia_is_needed() {
    for jarvis in [WakeAnswer::Found, WakeAnswer::Missing] {
        let mut s = WakeSetup::new();
        s.resume(WakeAnswer::Count(1));
        asking(&s, WakeAction::FindSophia);
        s.resume(WakeAnswer::Missing);
        asking(&s, WakeAction::FindJarvis);
        s.resume(jarvis);
        assert_eq!(s.phase, WakePhase::Failed(WakeError::NoSophia));
        assert_eq!(s.wake_word(), None);
    }
}

#[test]
fn what_can_be_missing_from_the_recogniser() {
    let found = WakeAnswer::Found;
    let path = [WakeAnswer::Count(2), found, WakeAnswer::Missing, found, found, found, found];
    let fail = |n: usize, last: WakeAnswer| {
        let mut s = WakeSetup::new();
        for a in &path[..n] {
            s.resume(*a);
        }
        s.resume(last);
        s.phase
    };
    assert_eq!(fail(0, WakeAnswer::Missing), WakePhase::Failed(WakeError::NoModels));
    assert_eq!(fail(0, WakeAnswer::Count(0)), WakePhase::Failed(WakeError::NoModels));
    assert_eq!(fail(1, WakeAnswer::Missing), WakePhase::Asking(WakeAction::FindJarvis));
    assert_eq!(fail(3, WakeAnswer::Missing), WakePhase::Failed(WakeError::NoConfig));
    assert_eq!(fail(4, WakeAnswer::Missing), WakePhase::Failed(WakeError::NoHandle));
    assert_eq!(fail(5, WakeAnswer::Missing), WakePhase::Failed(WakeError::NoCreate));
    assert_eq!(fail(6, WakeAnswer::Missing), WakePhase::Failed(WakeError::NoData));
    assert_eq!(fail(7, WakeAnswer::Missing), WakePhase::Failed(WakeError::NoChunkSize));
    let mut s = WakeSetup::new();
    for a in path {
        s.resume(a);
    }
    s.resume(WakeAnswer::Size(512));
    s.resume(WakeAnswer::Missing);
    assert_eq!(s.phase, WakePhase::Failed(WakeError::NoChannels));
    assert_eq!(s.wake_word(), None);
}

#[test]
fn messages_of_the_bring_up() {
    for (e, text) in [
        (
            WakeError::NoModels,
            "esp_srmodel_init(\"model\") found no models (partition not flashed?)",
        ),
        (WakeError::NoSophia, "Sophia WakeNet model (wn9_sophia_tts) not in partition"),
        (WakeError::NoConfig, "afe_config_init returned null"),
        (WakeError::NoHandle, "esp_afe_handle_from_config returned null"),
        (WakeError::NoCreate, "afe.create_from_config is null"),
        (WakeError::NoData, "afe create_from_config returned null"),
        (WakeError::NoChunkSize, "afe.get_feed_chunksize is null"),
        (WakeError::NoChannels, "afe.get_feed_channel_num is null"),
    ] {
        assert_eq!(error_message(e), text);
    }
}
