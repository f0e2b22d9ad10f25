//! Compile-time settings of the device.

use vstd::prelude::*;

verus! {

/// SoftAP SSID raised when the device has no working WiFi settings.
pub const AP_SSID: &'static str = "VoiceS3R";

/// SoftAP password (WPA2, at least 8 characters).
pub const AP_PASS: &'static str = "21212122";

/// SSID that the setup form shows in its first WiFi block.
pub const DEFAULT_SSID: &'static str = "home";

/// PC server `host:port` that the setup form shows, and that a network without a
/// server address of its own gets.
pub const DEFAULT_SERVER: &'static str = "192.168.8.100:9000";

/// Speaker volume of a fresh configuration (0..=100).
pub const DEFAULT_VOLUME: u8 = 75;

/// Audio sample rate in hertz (mono, 16-bit PCM).
pub const SAMPLE_RATE: u32 = 16_000;

/// Master clock fed to the codec: 256 times the sample rate.
pub const MCLK_FREQ: u32 = SAMPLE_RATE * 256;

/// Playback and record chunk in bytes of mono PCM: 512 samples, 32 ms.
pub const AUDIO_CHUNK_BYTES: usize = 1024;

} // verus!
