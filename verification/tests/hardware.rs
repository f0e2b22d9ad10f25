use voices3r::codec::{bring_up, register_write, ClockSettings, CodecStep};
use voices3r::config;
use voices3r::i2cscan::Scan;
use voices3r::wifi::{
    access_point_message, access_point_settings, station_message, station_settings, AuthMethod,
    WifiError,
};

#[test]
fn station_settings_follow_the_password() {
    let s = station_settings("home", "secret").unwrap();
    assert_eq!(s.ssid, "home");
    assert_eq!(s.password, "secret");
    assert_eq!(s.auth_method, AuthMethod::Wpa2Personal);
    assert_eq!(station_settings("home", "").unwrap().auth_method, AuthMethod::Open);
}

#[test]
fn names_and_passwords_are_limited_in_bytes() {
    assert!(station_settings(&"x".repeat(32), &"y".repeat(64)).is_ok());
    assert_eq!(station_settings(&"x".repeat(33), "").unwrap_err(), WifiError::SsidTooLong);
    assert_eq!(station_settings(&"ä".repeat(17), "").unwrap_err(), WifiError::SsidTooLong);
    assert_eq!(station_settings("x", &"y".repeat(65)).unwrap_err(), WifiError::PasswordTooLong);
    assert_eq!(
        station_settings(&"x".repeat(33), &"y".repeat(65)).unwrap_err(),
        WifiError::SsidTooLong
    );
    assert_eq!(
        access_point_settings(&"x".repeat(33), "").unwrap_err(),
        WifiError::SsidTooLong
    );
    assert_eq!(
        access_point_settings("x", &"y".repeat(65)).unwrap_err(),
        WifiError::PasswordTooLong
    );
}

#[test]
fn the_own_access_point() {
    let s = access_point_settings(config::AP_SSID, config::AP_PASS).unwrap();
    assert_eq!(s.ssid, "VoiceS3R");
    assert_eq!(s.password, "21212122");
    assert_eq!(s.auth_method, AuthMethod::Wpa2Personal);
    assert_eq!(s.channel, 1);
    assert_eq!(s.max_connections, 4);
    assert_eq!(access_point_settings("x", "").unwrap().auth_method, AuthMethod::Open);
}

#[test]
fn messages_of_wifi_errors() {
    assert_eq!(station_message(WifiError::SsidTooLong), "SSID too long");
    assert_eq!(station_message(WifiError::PasswordTooLong), "password too long");
    assert_eq!(access_point_message(WifiError::SsidTooLong), "AP SSID too long");
    assert_eq!(access_point_message(WifiError::PasswordTooLong), "AP password too long");
}

#[test]
fn the_codec_comes_up_in_order() {
    let clocks = ClockSettings {
        mclk_inverted: false,
        sclk_inverted: false,
        mclk_from_mclk_pin: true,
        mclk_frequency: 4_096_000,
        sample_frequency: 16_000,
    };
    assert_eq!(
        bring_up(),
        vec![
            CodecStep::Init { clocks, bits_in: 16, bits_out: 16 },
            CodecStep::Volume(75),
            CodecStep::Amplifier(true),
            CodecStep::Register(0x14, 0x1A),
            CodecStep::Register(0x17, 0xFF),
        ]
    );
    assert_eq!(register_write(0x17, 0xFF), [0x17, 0xFF]);
}

#[test]
fn a_scan_of_the_bus() {
    let mut s = Scan::new();
    let mut asked = Vec::new();
    let mut lines = Vec::new();
    while let Some(a) = s.address() {
        asked.push(a);
        if let Some(l) = s.resume("B 38/39", a == 0x18 || a == 0x77) {
            lines.push(l);
        }
    }
    assert_eq!(asked, (0x08..=0x77u8).collect::<Vec<u8>>());
    assert_eq!(lines, vec!["[B 38/39] ACK at 0x18", "[B 38/39] ACK at 0x77"]);
    assert_eq!(s.summary("B 38/39"), "[B 38/39] done, 2 device(s)");
}
