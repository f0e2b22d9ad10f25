//! Settings of the WiFi interface, as a station and as an access point.

use vstd::prelude::*;
use vstd::utf8::*;

verus! {

/// The longest SSID, in bytes.
pub const MAX_SSID_BYTES: usize = 32;

/// The longest password, in bytes.
pub const MAX_PASS_BYTES: usize = 64;

/// The channel of the access point.
pub const AP_CHANNEL: u8 = 1;

/// How many stations the access point takes.
pub const AP_STATIONS: u16 = 4;

/// How a network is secured.
#[derive(Clone, Copy, Debug, PartialEq, Eq, Structural)]
pub enum AuthMethod {
    Open,
    Wpa2Personal,
}

/// Why a network cannot be set up.
#[derive(Clone, Copy, Debug, PartialEq, Eq, Structural)]
pub enum WifiError {
    SsidTooLong,
    PasswordTooLong,
}

/// The settings of a station.
#[derive(Debug)]
pub struct StationSettings {
    pub ssid: String,
    pub password: String,
    pub auth_method: AuthMethod,
}

/// The settings of an access point.
#[derive(Debug)]
pub struct AccessPointSettings {
    pub ssid: String,
    pub password: String,
    pub auth_method: AuthMethod,
    pub channel: u8,
    pub max_connections: u16,
}

/// A network without a password is open, any other is secured.
pub open spec fn auth_for(pass: Seq<char>) -> AuthMethod {
    if pass.len() == 0 {
        AuthMethod::Open
    } else {
        AuthMethod::Wpa2Personal
    }
}

/// What is wrong with a name and a password, the name first.
pub open spec fn wifi_error(ssid: Seq<char>, pass: Seq<char>) -> Option<WifiError> {
    if encode_utf8(ssid).len() > MAX_SSID_BYTES {
        Some(WifiError::SsidTooLong)
    } else if encode_utf8(pass).len() > MAX_PASS_BYTES {
        Some(WifiError::PasswordTooLong)
    } else {
        None
    }
}

/// How a network with the given password is secured.
fn auth_of(pass: &str) -> (r: AuthMethod)
    ensures
        r == auth_for(pass@),
{
    if pass.is_empty() {
        AuthMethod::Open
    } else {
        AuthMethod::Wpa2Personal
    }
}

/// Whether a name and a password can be set.
fn check(ssid: &str, pass: &str) -> (r: Result<(), WifiError>)
    ensures
        r is Ok <==> wifi_error(ssid@, pass@) is None,
        r matches Err(e) ==> wifi_error(ssid@, pass@) == Some(e),
{
    if ssid.as_bytes().len() > MAX_SSID_BYTES {
        Err(WifiError::SsidTooLong)
    } else if pass.as_bytes().len() > MAX_PASS_BYTES {
        Err(WifiError::PasswordTooLong)
    } else {
        Ok(())
    }
}

/// The settings to join a network with.
pub fn station_settings(ssid: &str, pass: &str) -> (r: Result<StationSettings, WifiError>)
    ensures
        r is Ok <==> wifi_error(ssid@, pass@) is None,
        r matches Err(e) ==> wifi_error(ssid@, pass@) == Some(e),
        r matches Ok(s) ==> s.ssid@ == ssid@ && s.password@ == pass@ && s.auth_method == auth_for(
            pass@,
        ),
{
    match check(ssid, pass) {
        Ok(()) => Ok(
            StationSettings {
                ssid: ssid.to_string(),
                password: pass.to_string(),
                auth_method: auth_of(pass),
            },
        ),
        Err(e) => Err(e),
    }
}

/// The settings to raise an access point with.
pub fn access_point_settings(ssid: &str, pass: &str) -> (r: Result<AccessPointSettings, WifiError>)
    ensures
        r is Ok <==> wifi_error(ssid@, pass@) is None,
        r matches Err(e) ==> wifi_error(ssid@, pass@) == Some(e),
        r matches Ok(s) ==> s.ssid@ == ssid@ && s.password@ == pass@ && s.auth_method == auth_for(
            pass@,
        ) && s.channel == AP_CHANNEL && s.max_connections == AP_STATIONS,
{
    match check(ssid, pass) {
        Ok(()) => Ok(
            AccessPointSettings {
                ssid: ssid.to_string(),
                password: pass.to_string(),
                auth_method: auth_of(pass),
                channel: AP_CHANNEL,
                max_connections: AP_STATIONS,
            },
        ),
        Err(e) => Err(e),
    }
}

/// What an error says of a station's settings.
pub fn station_message(e: WifiError) -> (r: String)
    ensures
        r@ == (match e {
            WifiError::SsidTooLong => "SSID too long"@,
            WifiError::PasswordTooLong => "password too long"@,
        }),
{
    match e {
        WifiError::SsidTooLong => "SSID too long".to_string(),
        WifiError::PasswordTooLong => "password too long".to_string(),
    }
}

/// What an error says of an access point's settings.
pub fn access_point_message(e: WifiError) -> (r: String)
    ensures
        r@ == (match e {
            WifiError::SsidTooLong => "AP SSID too long"@,
            WifiError::PasswordTooLong => "AP password too long"@,
        }),
{
    match e {
        WifiError::SsidTooLong => "AP SSID too long".to_string(),
        WifiError::PasswordTooLong => "AP password too long".to_string(),
    }
}

/// The device can always raise its own access point, and it is secured.
pub proof fn law_own_access_point()
    ensures
        wifi_error(crate::config::AP_SSID@, crate::config::AP_PASS@) is None,
        auth_for(crate::config::AP_PASS@) == AuthMethod::Wpa2Personal,
        crate::config::AP_PASS@.len() >= 8,
{
    reveal_strlit("VoiceS3R");
    reveal_strlit("21212122");
    is_ascii_chars_encode_utf8("VoiceS3R"@);
    is_ascii_chars_encode_utf8("21212122"@);
}

/// A network is open where, and only where, its password is empty; any other password, of
/// whatever length, makes it a secured one.
pub proof fn law_auth_follows_password(pass: Seq<char>)
    ensures
        auth_for(pass) == AuthMethod::Open <==> pass == Seq::<char>::empty(),
        auth_for(pass) == AuthMethod::Wpa2Personal <==> pass.len() >= 1,
{
    if pass.len() == 0 {
        assert(pass == Seq::<char>::empty());
    }
}

/// A name of up to 32 bytes with a password of up to 64 bytes can be set; a longer name is
/// reported whatever the password is, a longer password where the name can be set.
pub proof fn law_wifi_limits(ssid: Seq<char>, pass: Seq<char>)
    ensures
        wifi_error(ssid, pass) is None <==> encode_utf8(ssid).len() < 33 && encode_utf8(pass).len()
            < 65,
        wifi_error(ssid, pass) == Some(WifiError::SsidTooLong) <==> encode_utf8(ssid).len() >= 33,
        wifi_error(ssid, pass) == Some(WifiError::PasswordTooLong) <==> encode_utf8(ssid).len() < 33
            && encode_utf8(pass).len() >= 65,
{
}

} // verus!
