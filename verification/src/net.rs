//! The protocol between the device and the PC server: the bytes that open a
//! connection, the byte that comes before a reply, and the addresses.

use vstd::prelude::*;

use crate::numbers::decimal;
use crate::numbers::push_decimal;
use crate::text::before;
use crate::text::chars_of;
use crate::text::find;
use crate::text::piece;
use crate::text::string_of;

verus! {

/// Reply byte: leave the volume as it is.
pub const VOL_NO_CHANGE: u8 = 0xFF;

/// Reply byte: enter speaker mode.
pub const ENTER_SPEAKER: u8 = 0xFE;

/// Reply byte: record the next utterance at once, without a wake word.
pub const TRANSCRIBE: u8 = 0xFD;

/// Header bit: the button was pressed, leave transcribe mode.
pub const TRANSCRIBE_EXIT: u8 = 0x80;

/// Reply byte: open a streaming transcribe session that the PC transcribes itself.
pub const STREAM_LOCAL: u8 = 0xFC;

/// Reply byte: open a streaming transcribe session that is transcribed elsewhere.
pub const STREAM_EXTERNAL: u8 = 0xFB;

/// Reply bytes from here to 228: set the volume to the byte less this, and enter
/// speaker mode.
pub const SPEAKER_VOL_BASE: u8 = 128;

/// The loudest volume.
pub const MAX_VOLUME: u8 = 100;

/// TCP port of the PC audio stream.
pub const SPEAKER_PORT: u16 = 9001;

/// TCP port that takes the microphone for streaming transcription.
pub const TRANSCRIBE_STREAM_PORT: u16 = 9002;

/// Stream header bit: the stream is transcribed elsewhere than on the PC.
pub const STREAM_BACKEND_EXTERNAL: u8 = 0x80;

/// What the server asks the device to do after a turn.
#[derive(Clone, Copy, Debug, PartialEq, Eq, Structural)]
pub enum Reply {
    /// Go back to listening for the wake word.
    Done,
    /// Enter speaker mode.
    Speaker,
    /// Record the next utterance without a wake word.
    Transcribe,
    /// Open a streaming transcribe session (true: transcribed elsewhere).
    Stream(bool),
}

/// What a reply byte says.
#[derive(Clone, Copy, Debug, PartialEq, Eq, Structural)]
pub struct Control {
    /// The volume to set, if any.
    pub volume: Option<u8>,
    /// What to do after the turn.
    pub reply: Reply,
}

/// The volume that a number asks for.
pub open spec fn capped(v: int) -> u8 {
    if v > MAX_VOLUME {
        MAX_VOLUME
    } else {
        v as u8
    }
}

/// What a reply byte says.
pub open spec fn control_in(byte: u8) -> Control {
    if byte == VOL_NO_CHANGE {
        Control { volume: None, reply: Reply::Done }
    } else if byte == ENTER_SPEAKER {
        Control { volume: None, reply: Reply::Speaker }
    } else if byte == TRANSCRIBE {
        Control { volume: None, reply: Reply::Transcribe }
    } else if byte == STREAM_LOCAL {
        Control { volume: None, reply: Reply::Stream(false) }
    } else if byte == STREAM_EXTERNAL {
        Control { volume: None, reply: Reply::Stream(true) }
    } else if byte >= SPEAKER_VOL_BASE {
        Control { volume: Some(capped(byte - SPEAKER_VOL_BASE)), reply: Reply::Speaker }
    } else {
        Control { volume: Some(capped(byte as int)), reply: Reply::Done }
    }
}

/// Reads a reply byte.
pub fn control_of(byte: u8) -> (r: Control)
    ensures
        r == control_in(byte),
{
    match byte {
        VOL_NO_CHANGE => Control { volume: None, reply: Reply::Done },
        ENTER_SPEAKER => Control { volume: None, reply: Reply::Speaker },
        TRANSCRIBE => Control { volume: None, reply: Reply::Transcribe },
        STREAM_LOCAL => Control { volume: None, reply: Reply::Stream(false) },
        STREAM_EXTERNAL => Control { volume: None, reply: Reply::Stream(true) },
        v => {
            if v >= SPEAKER_VOL_BASE {
                Control { volume: Some(cap(v - SPEAKER_VOL_BASE)), reply: Reply::Speaker }
            } else {
                Control { volume: Some(cap(v)), reply: Reply::Done }
            }
        },
    }
}

/// The volume that a number asks for.
pub fn cap(v: u8) -> (r: u8)
    ensures
        r == capped(v as int),
{
    if v > MAX_VOLUME {
        MAX_VOLUME
    } else {
        v
    }
}

/// Every volume can be set, alone and together with speaker mode, and no byte sets a
/// volume above the loudest.
pub proof fn law_volume_bytes(v: u8)
    ensures
        v <= MAX_VOLUME ==> control_in(v) == (Control { volume: Some(v), reply: Reply::Done }),
        v <= MAX_VOLUME ==> control_in((SPEAKER_VOL_BASE + v) as u8) == (Control {
            volume: Some(v),
            reply: Reply::Speaker,
        }),
        control_in(v).volume matches Some(x) ==> x <= MAX_VOLUME,
{
}

/// A mode other than speaker mode is asked for by one byte only, which leaves the
/// volume alone.
pub proof fn law_mode_bytes(byte: u8)
    ensures
        control_in(byte).reply == Reply::Transcribe <==> byte == TRANSCRIBE,
        control_in(byte).reply == Reply::Stream(false) <==> byte == STREAM_LOCAL,
        control_in(byte).reply == Reply::Stream(true) <==> byte == STREAM_EXTERNAL,
        control_in(byte).reply == Reply::Speaker <==> SPEAKER_VOL_BASE <= byte <= 250 || byte
            == ENTER_SPEAKER,
        control_in(byte).volume is None <==> byte >= STREAM_EXTERNAL,
{
}

/// What every reply byte says: up to 127 it is a volume, from 128 to 250 a volume and
/// speaker mode, a volume above 100 counting as 100, and the last five each say one
/// thing.
pub proof fn law_reply_bytes(byte: u8)
    ensures
        byte <= 100 ==> control_in(byte).volume == Some(byte),
        100 < byte < 128 ==> control_in(byte).volume == Some(100u8),
        byte < 128 || byte == 255 ==> control_in(byte).reply == Reply::Done,
        128 <= byte <= 228 ==> control_in(byte).volume == Some((byte - 128) as u8),
        228 < byte < 251 ==> control_in(byte).volume == Some(100u8),
        128 <= byte < 251 || byte == 254 ==> control_in(byte).reply == Reply::Speaker,
        byte == 251 ==> control_in(byte).reply == Reply::Stream(true),
        byte == 252 ==> control_in(byte).reply == Reply::Stream(false),
        byte == 253 ==> control_in(byte).reply == Reply::Transcribe,
        byte >= 251 ==> control_in(byte).volume is None,
{
}

/// A number asks for itself as the volume, or for 100 where it is greater.
pub proof fn law_capped(v: int)
    requires
        v >= 0,
    ensures
        v <= 100 ==> capped(v) == v,
        v >= 100 ==> capped(v) == 100,
{
}

/// The byte that tells the server to leave transcribe mode.
pub fn exit_header(persona: u8) -> (r: u8)
    ensures
        r == persona | TRANSCRIBE_EXIT,
{
    persona | TRANSCRIBE_EXIT
}

/// The first byte of a stream: who is spoken to, and where it is transcribed.
pub open spec fn stream_header_of(persona: u8, external: bool) -> u8 {
    if external {
        persona | STREAM_BACKEND_EXTERNAL
    } else {
        persona
    }
}

/// The first byte of a stream.
pub fn stream_header(persona: u8, external: bool) -> (r: u8)
    ensures
        r == stream_header_of(persona, external),
{
    if external {
        persona | STREAM_BACKEND_EXTERNAL
    } else {
        persona
    }
}

/// The low bits of a header give the persona back, its high bit the mark.
pub proof fn law_headers(persona: u8, external: bool)
    requires
        persona < 0x80,
    ensures
        stream_header_of(persona, external) & 0x7f == persona,
        (stream_header_of(persona, external) & 0x80 != 0) == external,
        (persona | TRANSCRIBE_EXIT) & 0x7f == persona,
        (persona | TRANSCRIBE_EXIT) & 0x80 != 0,
        stream_header_of(persona, external) == persona + (if external {
            128int
        } else {
            0int
        }),
        (persona | TRANSCRIBE_EXIT) == persona + 128,
{
    assert(persona < 0x80 ==> (persona | 0x80) == persona + 128) by (bit_vector);
    assert(persona < 0x80 ==> (persona | 0x80) & 0x7f == persona && (persona | 0x80) & 0x80 != 0
        && persona & 0x7f == persona && persona & 0x80 == 0) by (bit_vector);
}

/// The address of another port on the server's host.
pub open spec fn sibling_addr(server: Seq<char>, port: u16) -> Seq<char> {
    before(server, ':').push(':') + decimal(port as nat)
}

/// The host of a `host:port` address.
pub fn host_of(server: &str) -> (r: String)
    ensures
        r@ == before(server@, ':'),
{
    let chars = chars_of(server);
    let at: usize = find(&chars, ':');
    let host = piece(&chars, 0, at);
    assert(host@ == before(server@, ':'));
    string_of(&host)
}

/// The address of another port on the server's host.
fn addr_with_port(server: &str, port: u16) -> (r: String)
    ensures
        r@ == sibling_addr(server@, port),
{
    let mut out = host_of(server);
    out.push(':');
    push_decimal(&mut out, port as u64);
    out
}

/// The address of the PC audio stream.
pub fn speaker_addr(server: &str) -> (r: String)
    ensures
        r@ == sibling_addr(server@, SPEAKER_PORT),
{
    addr_with_port(server, SPEAKER_PORT)
}

/// The address that takes the microphone for streaming transcription.
pub fn transcribe_addr(server: &str) -> (r: String)
    ensures
        r@ == sibling_addr(server@, TRANSCRIBE_STREAM_PORT),
{
    addr_with_port(server, TRANSCRIBE_STREAM_PORT)
}

/// The other ports are on the same host, whatever port the address itself names.
pub proof fn law_sibling_addr(host: Seq<char>, port: Seq<char>, other: u16)
    requires
        !host.contains(':'),
    ensures
        sibling_addr(host.push(':') + port, other) == host.push(':') + decimal(other as nat),
        sibling_addr(host, other) == host.push(':') + decimal(other as nat),
{
    let s = host.push(':') + port;
    assert forall|j: int| 0 <= j < host.len() implies host[j] != ':' by {
        assert(host.contains(host[j]));
    }
    crate::text::lemma_first_at_is(s, ':', host.len() as int);
    crate::text::lemma_first_at_is(host, ':', host.len() as int);
    assert(s.take(host.len() as int) == host);
    assert(host.take(host.len() as int) == host);
}

/// The PC audio stream is on port 9001 of the server's host, streaming transcription on
/// port 9002.
pub proof fn law_ports(server: Seq<char>)
    ensures
        sibling_addr(server, SPEAKER_PORT) == before(server, ':') + seq![':', '9', '0', '0', '1'],
        sibling_addr(server, TRANSCRIBE_STREAM_PORT) == before(server, ':') + seq![
            ':',
            '9',
            '0',
            '0',
            '2',
        ],
{
    reveal_with_fuel(decimal, 5);
    assert(decimal(9001) == seq!['9', '0', '0', '1']);
    assert(decimal(9002) == seq!['9', '0', '0', '2']);
    assert(sibling_addr(server, SPEAKER_PORT) == before(server, ':') + seq![':', '9', '0', '0', '1']);
    assert(sibling_addr(server, TRANSCRIBE_STREAM_PORT) == before(server, ':') + seq![
        ':',
        '9',
        '0',
        '0',
        '2',
    ]);
}

} // verus!
