//! The audio codec: how it is brought up, and what its registers are sent.

use vstd::prelude::*;

use crate::config::MCLK_FREQ;
use crate::config::SAMPLE_RATE;

verus! {

/// The codec's address on the I2C bus.
pub const ES8311_ADDR: u8 = 0x18;

/// Speed of the I2C bus in kilohertz.
pub const I2C_KHZ: u32 = 400;

/// How long the I2C bus is waited for, in ticks.
pub const I2C_TIMEOUT: u32 = 1000;

/// Volume of the codec when it is up.
pub const START_VOLUME: u8 = 75;

/// Bits of a sample, towards the codec and from it.
pub const SAMPLE_BITS: u8 = 16;

/// The clocks of the codec.
#[derive(Clone, Copy, Debug, PartialEq, Eq, Structural)]
pub struct ClockSettings {
    pub mclk_inverted: bool,
    pub sclk_inverted: bool,
    pub mclk_from_mclk_pin: bool,
    pub mclk_frequency: u32,
    pub sample_frequency: u32,
}

/// A step of the bring-up.
#[derive(Clone, Copy, Debug, PartialEq, Eq, Structural)]
pub enum CodecStep {
    /// Start the driver with these clocks and so many bits to a sample, in and out.
    Init { clocks: ClockSettings, bits_in: u8, bits_out: u8 },
    /// Set the output volume.
    Volume(u8),
    /// Switch the power amplifier.
    Amplifier(bool),
    /// Write a register.
    Register(u8, u8),
}

/// The clocks: 256 master clocks to a sample, on the codec's own clock pin.
pub open spec fn codec_clocks() -> ClockSettings {
    ClockSettings {
        mclk_inverted: false,
        sclk_inverted: false,
        mclk_from_mclk_pin: true,
        mclk_frequency: MCLK_FREQ,
        sample_frequency: SAMPLE_RATE,
    }
}

/// The bring-up: the driver, with 16 bits in both directions, the volume, the amplifier, and last the microphone, its
/// amplifier (register 0x14) and its gain (register 0x17).
pub open spec fn bring_up_steps() -> Seq<CodecStep> {
    seq![
        CodecStep::Init {
            clocks: codec_clocks(),
            bits_in: SAMPLE_BITS,
            bits_out: SAMPLE_BITS,
        },
        CodecStep::Volume(START_VOLUME),
        CodecStep::Amplifier(true),
        CodecStep::Register(0x14, 0x1A),
        CodecStep::Register(0x17, 0xFF),
    ]
}

/// The steps of the bring-up, in order.
pub fn bring_up() -> (r: Vec<CodecStep>)
    ensures
        r@ == bring_up_steps(),
{
    let mut out: Vec<CodecStep> = Vec::new();
    out.push(
        CodecStep::Init {
            clocks: ClockSettings {
                mclk_inverted: false,
                sclk_inverted: false,
                mclk_from_mclk_pin: true,
                mclk_frequency: MCLK_FREQ,
                sample_frequency: SAMPLE_RATE,
            },
            bits_in: SAMPLE_BITS,
            bits_out: SAMPLE_BITS,
        },
    );
    out.push(CodecStep::Volume(START_VOLUME));
    out.push(CodecStep::Amplifier(true));
    out.push(CodecStep::Register(0x14, 0x1A));
    out.push(CodecStep::Register(0x17, 0xFF));
    assert(out@ == bring_up_steps());
    out
}

/// The bytes that write a register.
pub fn register_write(reg: u8, val: u8) -> (r: [u8; 2])
    ensures
        r@ == seq![reg, val],
{
    [reg, val]
}

/// The bring-up, step by step: 16 bits both ways at 16 kHz with 256 master clocks to a
/// sample on the codec's own pin, volume 75, the amplifier on, and the two microphone
/// registers; nothing else. The codec is at address 0x18 of a bus of 400 kHz.
pub proof fn law_bring_up()
    ensures
        bring_up_steps().len() == 5,
        bring_up_steps()[0] matches CodecStep::Init { clocks, bits_in, bits_out } && bits_in == 16
            && bits_out == 16 && clocks.sample_frequency == 16_000 && clocks.mclk_frequency == 256
            * clocks.sample_frequency && clocks.mclk_from_mclk_pin && !clocks.mclk_inverted
            && !clocks.sclk_inverted,
        bring_up_steps()[1] == CodecStep::Volume(75),
        bring_up_steps()[2] == CodecStep::Amplifier(true),
        bring_up_steps()[3] == CodecStep::Register(0x14, 0x1A),
        bring_up_steps()[4] == CodecStep::Register(0x17, 0xFF),
        ES8311_ADDR == 0x18,
        I2C_KHZ == 400,
        I2C_TIMEOUT == 1000,
{
}

} // verus!
