use voices3r::net::Reply;
use voices3r::recorder::{echo_gone, Recorder};
use voices3r::sessions::{
    Action, CommandTurn, Event, ExitNotice, SpeakerSession, Step, StreamSession,
};

fn frame(sample: i16) -> Vec<u8> {
    let mut v = Vec::new();
    for _ in 0..4 {
        v.extend(sample.to_le_bytes());
    }
    v
}

#[test]
fn the_echo_threshold() {
    assert!(echo_gone(&frame(349)));
    assert!(!echo_gone(&frame(350)));
    assert!(!echo_gone(&frame(-350)));
    assert!(echo_gone(&[]));
}

#[test]
fn a_silent_recording_ends_after_four_seconds() {
    let mut r = Recorder::new();
    for _ in 0..124 {
        assert!(!r.hear(&frame(350)));
    }
    assert!(!r.over());
    assert!(r.hear(&frame(0)));
    assert!(r.over());
    assert_eq!(r.frames, 125);
}

#[test]
fn silence_behind_speech_ends_a_recording() {
    let mut r = Recorder::new();
    for _ in 0..100 {
        assert!(!r.hear(&frame(0)));
    }
    assert!(!r.hear(&frame(351)));
    for _ in 0..45 {
        assert!(!r.hear(&frame(350)));
    }
    assert!(!r.hear(&frame(-2000)));
    for _ in 0..45 {
        assert!(!r.hear(&frame(10)));
    }
    assert!(r.hear(&frame(10)));
}

#[test]
fn a_recording_is_capped() {
    let mut r = Recorder::new();
    for _ in 0..936 {
        assert!(!r.hear(&frame(1000)));
    }
    assert!(r.hear(&frame(1000)));
    assert_eq!(r.frames, 937);
}

fn command_to_control(persona: u8) -> CommandTurn {
    let mut c = CommandTurn::new(persona);
    assert_eq!(c.awaits(), Step::Do(Action::Connect));
    c.resume(Event::Done);
    assert_eq!(c.awaits(), Step::Do(Action::SendByte(persona)));
    c.resume(Event::Done);
    assert_eq!(c.awaits(), Step::Do(Action::ReadMic));
    c.resume(Event::Bytes(&frame(3000)));
    assert_eq!(c.awaits(), Step::Do(Action::ReadMic));
    c.resume(Event::Bytes(&frame(10)));
    // The echo is gone; from here on frames are sent.
    c.resume(Event::Bytes(&[]));
    assert_eq!(c.awaits(), Step::Do(Action::ReadMic));
    c.resume(Event::Bytes(&frame(900)));
    assert_eq!(c.awaits(), Step::Do(Action::SendFrame));
    c.resume(Event::Done);
    for _ in 0..46 {
        assert_eq!(c.awaits(), Step::Do(Action::ReadMic));
        c.resume(Event::Bytes(&frame(0)));
        assert_eq!(c.awaits(), Step::Do(Action::SendFrame));
        c.resume(Event::Done);
    }
    assert_eq!(c.awaits(), Step::Do(Action::CloseWrite));
    c.resume(Event::Done);
    assert_eq!(c.awaits(), Step::Do(Action::ReadControl));
    c
}

#[test]
fn a_command_with_a_volume() {
    let mut c = command_to_control(1);
    c.resume(Event::Control(30));
    assert_eq!(c.awaits(), Step::Do(Action::SetVolume(30)));
    c.resume(Event::Failed);
    assert_eq!(c.awaits(), Step::Do(Action::KeepVolume(30)));
    c.resume(Event::Failed);
    assert_eq!(c.awaits(), Step::Do(Action::ReadAudio));
    c.resume(Event::Bytes(&[1, 2]));
    assert_eq!(c.awaits(), Step::Do(Action::PlayAudio));
    c.resume(Event::Done);
    assert_eq!(c.awaits(), Step::Do(Action::ReadAudio));
    c.resume(Event::Bytes(&[]));
    assert_eq!(c.awaits(), Step::Do(Action::Silence));
    c.resume(Event::Failed);
    assert_eq!(c.awaits(), Step::End(Some(Reply::Done)));
    c.resume(Event::Done);
    assert_eq!(c.awaits(), Step::End(Some(Reply::Done)));
}

#[test]
fn a_command_that_asks_for_a_mode() {
    for (byte, reply) in [
        (0xFE, Reply::Speaker),
        (0xFD, Reply::Transcribe),
        (0xFC, Reply::Stream(false)),
        (0xFB, Reply::Stream(true)),
        (0xFF, Reply::Done),
    ] {
        let mut c = command_to_control(0);
        c.resume(Event::Control(byte));
        assert_eq!(c.awaits(), Step::Do(Action::ReadAudio));
        c.resume(Event::Bytes(&[]));
        c.resume(Event::Done);
        assert_eq!(c.awaits(), Step::End(Some(reply)));
    }
}

#[test]
fn a_command_with_a_volume_and_speaker_mode() {
    let mut c = command_to_control(0);
    c.resume(Event::Control(128 + 55));
    assert_eq!(c.awaits(), Step::Do(Action::SetVolume(55)));
    c.resume(Event::Done);
    assert_eq!(c.awaits(), Step::Do(Action::KeepVolume(55)));
    c.resume(Event::Done);
    c.resume(Event::Bytes(&[]));
    c.resume(Event::Done);
    assert_eq!(c.awaits(), Step::End(Some(Reply::Speaker)));
}

#[test]
fn a_server_that_does_not_reply() {
    let mut c = command_to_control(0);
    c.resume(Event::Failed);
    assert_eq!(c.awaits(), Step::End(Some(Reply::Done)));
}

#[test]
fn a_command_that_fails() {
    let mut c = CommandTurn::new(0);
    c.resume(Event::Failed);
    assert_eq!(c.awaits(), Step::End(None));
    let mut c = command_to_control(0);
    c.resume(Event::Control(0xFE));
    c.resume(Event::Failed);
    assert_eq!(c.awaits(), Step::End(None));
}

#[test]
fn an_endless_echo_is_given_up() {
    let mut c = CommandTurn::new(0);
    c.resume(Event::Done);
    c.resume(Event::Done);
    for _ in 0..18 {
        assert_eq!(c.awaits(), Step::Do(Action::ReadMic));
        c.resume(Event::Bytes(&frame(3000)));
    }
    assert_eq!(c.awaits(), Step::Do(Action::ReadMic));
    c.resume(Event::Bytes(&frame(3000)));
    assert_eq!(c.awaits(), Step::Do(Action::SendFrame));
}

#[test]
fn leaving_transcribe_mode() {
    let mut x = ExitNotice::new(1);
    assert_eq!(x.awaits(), Step::Do(Action::Connect));
    x.resume(Event::Done);
    assert_eq!(x.awaits(), Step::Do(Action::SendByte(0x81)));
    x.resume(Event::Done);
    assert_eq!(x.awaits(), Step::Do(Action::CloseWrite));
    x.resume(Event::Done);
    assert_eq!(x.awaits(), Step::Do(Action::ReadControl));
    x.resume(Event::Control(0xFF));
    assert_eq!(x.awaits(), Step::Do(Action::ReadAudio));
    x.resume(Event::Bytes(&[1]));
    assert_eq!(x.awaits(), Step::Do(Action::PlayAudio));
    x.resume(Event::Done);
    x.resume(Event::Bytes(&[]));
    assert_eq!(x.awaits(), Step::Do(Action::Silence));
    x.resume(Event::Done);
    assert_eq!(x.awaits(), Step::End(Some(())));
}

#[test]
fn an_exit_notice_without_confirmation() {
    let mut x = ExitNotice::new(0);
    x.resume(Event::Done);
    x.resume(Event::Done);
    x.resume(Event::Done);
    x.resume(Event::Failed);
    assert_eq!(x.awaits(), Step::End(Some(())));
    let mut x = ExitNotice::new(0);
    x.resume(Event::Done);
    x.resume(Event::Failed);
    assert_eq!(x.awaits(), Step::End(None));
}

fn stream_to_loop() -> StreamSession {
    let mut s = StreamSession::new(1, true);
    assert_eq!(s.awaits(), Step::Do(Action::Connect));
    s.resume(Event::Done);
    assert_eq!(s.awaits(), Step::Do(Action::SendByte(0x81)));
    s.resume(Event::Done);
    for _ in 0..12 {
        assert_eq!(s.awaits(), Step::Do(Action::ReadMic));
        s.resume(Event::Bytes(&frame(2000)));
    }
    assert_eq!(s.awaits(), Step::Do(Action::PollButton));
    s
}

#[test]
fn a_stream_ended_by_the_button() {
    let mut s = stream_to_loop();
    s.resume(Event::Pressed(false));
    assert_eq!(s.awaits(), Step::Do(Action::ReadMic));
    s.resume(Event::Bytes(&[]));
    assert_eq!(s.awaits(), Step::Do(Action::PollButton));
    s.resume(Event::Pressed(false));
    s.resume(Event::Bytes(&frame(1)));
    assert_eq!(s.awaits(), Step::Do(Action::SendFrame));
    s.resume(Event::Done);
    assert_eq!(s.awaits(), Step::Do(Action::PollButton));
    s.resume(Event::Pressed(true));
    assert_eq!(s.awaits(), Step::Do(Action::WaitRelease));
    s.resume(Event::Done);
    assert_eq!(s.awaits(), Step::Do(Action::CloseBoth));
    s.resume(Event::Failed);
    assert_eq!(s.awaits(), Step::Do(Action::Beep { freq_hz: 700, ms: 90 }));
    s.resume(Event::Done);
    assert_eq!(s.awaits(), Step::End(Some(())));
}

#[test]
fn a_stream_closed_by_the_server() {
    let mut s = stream_to_loop();
    s.resume(Event::Pressed(false));
    s.resume(Event::Bytes(&frame(1)));
    s.resume(Event::Failed);
    assert_eq!(s.awaits(), Step::Do(Action::CloseBoth));
    s.resume(Event::Done);
    s.resume(Event::Failed);
    assert_eq!(s.awaits(), Step::End(None));
}

#[test]
fn a_stream_whose_microphone_fails() {
    let mut s = stream_to_loop();
    s.resume(Event::Pressed(false));
    s.resume(Event::Failed);
    assert_eq!(s.awaits(), Step::End(None));
}

fn speaker_to_loop() -> SpeakerSession {
    let mut s = SpeakerSession::new();
    assert_eq!(s.awaits(), Step::Do(Action::Connect));
    s.resume(Event::Done);
    assert_eq!(s.awaits(), Step::Do(Action::SetReadTimeout(100)));
    s.resume(Event::Done);
    assert_eq!(s.awaits(), Step::Do(Action::PollButton));
    s
}

#[test]
fn speaker_mode_left_by_the_button() {
    let mut s = speaker_to_loop();
    s.resume(Event::Pressed(false));
    assert_eq!(s.awaits(), Step::Do(Action::ReadAudio));
    s.resume(Event::TimedOut);
    assert_eq!(s.awaits(), Step::Do(Action::PollButton));
    s.resume(Event::Pressed(false));
    s.resume(Event::Bytes(&[1, 2]));
    assert_eq!(s.awaits(), Step::Do(Action::PlayAudio));
    s.resume(Event::Done);
    s.resume(Event::Pressed(true));
    assert_eq!(s.awaits(), Step::Do(Action::HangUp));
    s.resume(Event::Done);
    assert_eq!(s.awaits(), Step::Do(Action::Silence));
    s.resume(Event::Failed);
    assert_eq!(s.awaits(), Step::Do(Action::WaitRelease));
    s.resume(Event::Done);
    assert_eq!(s.awaits(), Step::End(Some(true)));
}

#[test]
fn speaker_mode_plays_what_comes() {
    let mut s = speaker_to_loop();
    for _ in 0..3 {
        s.resume(Event::Pressed(false));
        assert_eq!(s.awaits(), Step::Do(Action::ReadAudio));
        s.resume(Event::Bytes(&[1, 2, 3, 4]));
        assert_eq!(s.awaits(), Step::Do(Action::PlayAudio));
        s.resume(Event::Done);
        assert_eq!(s.awaits(), Step::Do(Action::PollButton));
    }
}

#[test]
fn speaker_mode_left_by_the_stream() {
    let mut s = speaker_to_loop();
    s.resume(Event::Pressed(false));
    s.resume(Event::Bytes(&[]));
    assert_eq!(s.awaits(), Step::Do(Action::HangUp));
    s.resume(Event::Done);
    s.resume(Event::Done);
    assert_eq!(s.awaits(), Step::End(Some(false)));
}

#[test]
fn speaker_mode_that_fails() {
    let mut s = SpeakerSession::new();
    s.resume(Event::Failed);
    assert_eq!(s.awaits(), Step::End(None));
    let mut s = speaker_to_loop();
    s.resume(Event::Pressed(false));
    s.resume(Event::Failed);
    assert_eq!(s.awaits(), Step::End(None));
}
