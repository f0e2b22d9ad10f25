use voices3r::net::{
    control_of, exit_header, host_of, speaker_addr, stream_header, transcribe_addr, Control, Reply,
};

#[test]
fn reply_bytes() {
    for v in 0..=100u8 {
        assert_eq!(control_of(v), Control { volume: Some(v), reply: Reply::Done });
        assert_eq!(control_of(128 + v), Control { volume: Some(v), reply: Reply::Speaker });
    }
    assert_eq!(control_of(101), Control { volume: Some(100), reply: Reply::Done });
    assert_eq!(control_of(127), Control { volume: Some(100), reply: Reply::Done });
    assert_eq!(control_of(229), Control { volume: Some(100), reply: Reply::Speaker });
    assert_eq!(control_of(250), Control { volume: Some(100), reply: Reply::Speaker });
    assert_eq!(control_of(0xFB), Control { volume: None, reply: Reply::Stream(true) });
    assert_eq!(control_of(0xFC), Control { volume: None, reply: Reply::Stream(false) });
    assert_eq!(control_of(0xFD), Control { volume: None, reply: Reply::Transcribe });
    assert_eq!(control_of(0xFE), Control { volume: None, reply: Reply::Speaker });
    assert_eq!(control_of(0xFF), Control { volume: None, reply: Reply::Done });
}

#[test]
fn headers() {
    assert_eq!(exit_header(0), 0x80);
    assert_eq!(exit_header(1), 0x81);
    assert_eq!(stream_header(1, false), 1);
    assert_eq!(stream_header(1, true), 0x81);
}

#[test]
fn addresses_on_the_same_host() {
    assert_eq!(host_of("192.168.8.100:9000"), "192.168.8.100");
    assert_eq!(host_of("pc"), "pc");
    assert_eq!(host_of(""), "");
    assert_eq!(speaker_addr("192.168.8.100:9000"), "192.168.8.100:9001");
    assert_eq!(transcribe_addr("192.168.8.100:9000"), "192.168.8.100:9002");
    assert_eq!(speaker_addr("pc"), "pc:9001");
    assert_eq!(speaker_addr("a:b:c"), "a:9001");
}
