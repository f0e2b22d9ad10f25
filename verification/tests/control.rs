use voices3r::control::{
    answer, info, parse_u8, plan, qparam, Outcome, PanelAction, Plan, Route,
};

fn action(p: Plan) -> Option<PanelAction> {
    match p {
        Plan::Do(a) => Some(a),
        Plan::Answer(_) => None,
    }
}

fn text(p: Plan) -> Option<String> {
    match p {
        Plan::Answer(t) => Some(t),
        Plan::Do(_) => None,
    }
}

#[test]
fn query_parameters() {
    assert_eq!(qparam("/beep?freq=440&ms=100", "freq"), Some("440".to_string()));
    assert_eq!(qparam("/beep?freq=440&ms=100", "ms"), Some("100".to_string()));
    assert_eq!(qparam("/beep?freq=440", "ms"), None);
    assert_eq!(qparam("/beep", "freq"), None);
    assert_eq!(qparam("/x?a=b=c", "a"), Some("b=c".to_string()));
    assert_eq!(qparam("/x?a=", "a"), Some("".to_string()));
    assert_eq!(qparam("/x?a=1?b=2", "a"), Some("1".to_string()));
    assert_eq!(qparam("/x?a=1?b=2", "b"), None);
    assert_eq!(qparam("/x?a%3D=1", "a="), None);
}

#[test]
fn a_key_without_a_value_hides_a_later_one() {
    assert_eq!(qparam("/x?a&a=1", "a"), None);
    assert_eq!(qparam("/x?a=1&a=2", "a"), Some("1".to_string()));
    assert_eq!(qparam("/x?", ""), None);
}

#[test]
fn bytes_in_decimal_and_hexadecimal() {
    assert_eq!(parse_u8("18"), Some(18));
    assert_eq!(parse_u8("0x18"), Some(0x18));
    assert_eq!(parse_u8("0XfF"), Some(255));
    assert_eq!(parse_u8("  7\t"), Some(7));
    assert_eq!(parse_u8("255"), Some(255));
    assert_eq!(parse_u8("+9"), Some(9));
    assert_eq!(parse_u8("0x+9"), Some(9));
}

#[test]
fn what_is_no_byte() {
    for s in ["", "256", "0x100", "0x", "-1", "x10", "1 2", "0x 1", "ff"] {
        assert_eq!(parse_u8(s), None, "{}", s);
    }
}

#[test]
fn every_byte_in_both_notations() {
    for b in 0..=255u8 {
        assert_eq!(parse_u8(&format!("{}", b)), Some(b));
        assert_eq!(parse_u8(&format!("0x{:02X}", b)), Some(b));
        assert_eq!(parse_u8(&format!(" 0X{:x} ", b)), Some(b));
    }
}

#[test]
fn beeps_have_defaults() {
    assert_eq!(
        action(plan(Route::Beep, "/beep", true, false)),
        Some(PanelAction::Beep { freq_hz: 880, ms: 200 })
    );
    assert_eq!(
        action(plan(Route::Beep, "/beep?ms=5&freq=4294967295", true, true)),
        Some(PanelAction::Beep { freq_hz: 4294967295, ms: 5 })
    );
    assert_eq!(
        action(plan(Route::Beep, "/beep?freq=4294967296&ms= 5", true, true)),
        Some(PanelAction::Beep { freq_hz: 880, ms: 200 })
    );
}

#[test]
fn requests_to_the_codec() {
    assert_eq!(action(plan(Route::Pa, "/pa", false, true)), Some(PanelAction::Amplifier(true)));
    assert_eq!(action(plan(Route::Pa, "/pa?on=1", false, true)), Some(PanelAction::Amplifier(true)));
    assert_eq!(action(plan(Route::Pa, "/pa?on=0", false, true)), Some(PanelAction::Amplifier(false)));
    assert_eq!(
        action(plan(Route::Pa, "/pa?on=true", false, true)),
        Some(PanelAction::Amplifier(false))
    );
    assert_eq!(action(plan(Route::Vol, "/vol", false, true)), Some(PanelAction::Volume(75)));
    assert_eq!(action(plan(Route::Vol, "/vol?v=40", false, true)), Some(PanelAction::Volume(40)));
    assert_eq!(action(plan(Route::Vol, "/vol?v=200", false, true)), Some(PanelAction::Volume(100)));
    assert_eq!(action(plan(Route::Vol, "/vol?v=300", false, true)), Some(PanelAction::Volume(75)));
    assert_eq!(
        action(plan(Route::Reg, "/reg?addr=0x14", false, true)),
        Some(PanelAction::ReadRegister(0x14))
    );
    assert_eq!(
        action(plan(Route::Reg, "/reg?addr=20&val=0x1a", false, true)),
        Some(PanelAction::WriteRegister(20, 0x1a))
    );
    assert_eq!(text(plan(Route::Reg, "/reg?val=1", false, true)), Some("missing addr".to_string()));
}

#[test]
fn requests_to_pins() {
    assert_eq!(
        action(plan(Route::Gpio, "/gpio?pin=48", false, false)),
        Some(PanelAction::Pin { pin: 48, level: 1 })
    );
    assert_eq!(
        action(plan(Route::Gpio, "/gpio?pin=-1&level=0", false, false)),
        Some(PanelAction::Pin { pin: -1, level: 0 })
    );
    assert_eq!(text(plan(Route::Gpio, "/gpio", true, true)), Some("missing pin".to_string()));
}

#[test]
fn hardware_that_is_not_up() {
    for r in [Route::Beep, Route::Play, Route::Mic] {
        assert_eq!(text(plan(r, "/x", false, true)), Some("audio not initialized".to_string()));
    }
    for r in [Route::Pa, Route::Vol, Route::Reg] {
        assert_eq!(text(plan(r, "/x", true, false)), Some("codec not initialized".to_string()));
    }
    assert_eq!(action(plan(Route::Play, "/play", true, false)), Some(PanelAction::PlayPrompt));
    assert_eq!(action(plan(Route::Mic, "/mic", true, false)), Some(PanelAction::MicPeak { frames: 16 }));
}

#[test]
fn answers_of_the_panel() {
    let beep = PanelAction::Beep { freq_hz: 440, ms: 100 };
    assert_eq!(answer(beep, Outcome::Done), "beep 440Hz 100ms OK");
    assert_eq!(answer(beep, Outcome::Failed("X".to_string())), "beep error: X");
    assert_eq!(answer(PanelAction::PlayPrompt, Outcome::Done), "played ready prompt");
    assert_eq!(answer(PanelAction::PlayPrompt, Outcome::Failed("X".to_string())), "play error: X");
    let mic = PanelAction::MicPeak { frames: 16 };
    assert_eq!(answer(mic, Outcome::Peak(1234)), "mic peak = 1234 / 32767");
    assert_eq!(answer(mic, Outcome::Failed("X".to_string())), "mic error: X");
    assert_eq!(answer(PanelAction::Amplifier(true), Outcome::Done), "PA (G18) = ON");
    assert_eq!(answer(PanelAction::Amplifier(false), Outcome::Done), "PA (G18) = OFF");
    assert_eq!(
        answer(PanelAction::Amplifier(true), Outcome::Failed("X".to_string())),
        "pa error: X"
    );
    assert_eq!(answer(PanelAction::Volume(60), Outcome::Done), "volume = 60");
    assert_eq!(answer(PanelAction::Volume(60), Outcome::Failed("X".to_string())), "vol error: X");
    assert_eq!(
        answer(PanelAction::WriteRegister(0x14, 0x1a), Outcome::Done),
        "wrote reg 0x14 = 0x1A"
    );
    assert_eq!(
        answer(PanelAction::WriteRegister(1, 2), Outcome::Failed("X".to_string())),
        "regw error: X"
    );
    assert_eq!(
        answer(PanelAction::ReadRegister(0x0a), Outcome::Value(200)),
        "reg 0x0A = 0xC8 (200)"
    );
    assert_eq!(
        answer(PanelAction::ReadRegister(1), Outcome::Failed("X".to_string())),
        "regr error: X"
    );
    assert_eq!(
        answer(PanelAction::Pin { pin: 47, level: 1 }, Outcome::Done),
        "GPIO47 set to 1"
    );
}

#[test]
fn status_of_the_device() {
    assert_eq!(
        info(&[192, 168, 71, 1], true, false, 123456),
        "chip=ESP32-S3-PICO  ip=192.168.71.1\naudio_init=true  codec_init=false\nfree_heap=123456 bytes\nAP SSID=VoiceS3R pass=21212122"
    );
}
