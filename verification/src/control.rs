//! The diagnostic control panel: what a request asks for, and what it is answered.

use vstd::prelude::*;

use crate::config;
use crate::net::cap;
use crate::net::capped;
use crate::net::MAX_VOLUME;
use crate::numbers::decimal;
use crate::numbers::digit_value;
use crate::numbers::law_decimal_reads_back;
use crate::numbers::law_hex_byte_reads_back;
use crate::numbers::law_unsigned_in_range;
use crate::numbers::hex_byte;
use crate::numbers::push_decimal;
use crate::numbers::push_hex;
use crate::numbers::push_signed;
use crate::numbers::read_signed;
use crate::numbers::read_unsigned;
use crate::numbers::signed;
use crate::numbers::signed_decimal;
use crate::numbers::unsigned;
use crate::text::before;
use crate::text::behind;
use crate::text::chars_of;
use crate::text::find;
use crate::text::joined;
use crate::text::law_split_joined;
use crate::text::law_trimmed;
use crate::text::lemma_first_at;
use crate::text::lemma_first_at_is;
use crate::text::lemma_split_last;
use crate::text::lemma_split_whole;
use crate::text::piece;
use crate::text::runs;
use crate::text::same;
use crate::text::split;
use crate::text::split_at_each;
use crate::text::string_of;
use crate::text::trim;
use crate::text::trimmed;
use crate::text::white;

verus! {

// ---------------------------------------------------------------------------
// Parameters of a request
// ---------------------------------------------------------------------------
/// The value of the first parameter with the given key: what stands in it behind
/// its first equals sign. A first one without an equals sign has none.
pub open spec fn parameter(params: Seq<Seq<char>>, key: Seq<char>) -> Option<Seq<char>>
    decreases params.len(),
{
    if params.len() == 0 {
        None
    } else if before(params[0], '=') == key {
        behind(params[0], '=')
    } else {
        parameter(params.skip(1), key)
    }
}

/// The query of a request: what stands between its first question mark and the
/// next, or the end.
pub open spec fn query_of(uri: Seq<char>) -> Option<Seq<char>> {
    let pieces = split(uri, '?');
    if pieces.len() > 1 {
        Some(pieces[1])
    } else {
        None
    }
}

/// The value that the query of a request gives to a key.
pub open spec fn query_value(uri: Seq<char>, key: Seq<char>) -> Option<Seq<char>> {
    match query_of(uri) {
        Some(q) => parameter(split(q, '&'), key),
        None => None,
    }
}

/// The value that the query of `uri` gives to `key`.
pub fn qparam(uri: &str, key: &str) -> (r: Option<String>)
    ensures
        query_value(uri@, key@) == (match r {
            Some(v) => Some(v@),
            None => None,
        }),
{
    let wanted = chars_of(key);
    let pieces = split_at_each(&chars_of(uri), '?');
    assert(runs(pieces@).len() == pieces@.len());
    if pieces.len() < 2 {
        return None;
    }
    assert(runs(pieces@)[1] == pieces@[1]@);
    let params = split_at_each(&pieces[1], '&');
    let ghost all = runs(params@);
    assert(all.skip(0) == all);
    let mut i: usize = 0;
    while i < params.len()
        invariant
            wanted@ == key@,
            all == runs(params@),
            i <= params@.len(),
            parameter(all.skip(i as int), key@) == query_value(uri@, key@),
        decreases params@.len() - i,
    {
        let ghost rest = all.skip(i as int);
        let p: &Vec<char> = &params[i];
        assert(rest[0] == p@);
        let at: usize = find(p, '=');
        proof {
            lemma_first_at(p@, '=');
        }
        let name = piece(p, 0, at);
        assert(name@ == before(p@, '='));
        if same(&name, &wanted) {
            if at < p.len() {
                let value = piece(p, at + 1, p.len());
                assert(Some(value@) == behind(p@, '='));
                return Some(string_of(&value));
            }
            return None;
        }
        i += 1;
        assert(all.skip(i as int) == rest.skip(1));
    }
    assert(all.skip(i as int).len() == 0);
    None
}

/// A key has the value of the first parameter that gives it one, whatever else the value
/// holds; a first parameter that is the bare key hides any later one; and a key that no
/// parameter has gives none.
pub proof fn law_parameter(params: Seq<Seq<char>>, key: Seq<char>, value: Seq<char>, j: int)
    requires
        !key.contains('='),
        0 <= j <= params.len(),
        forall|i: int| 0 <= i < j ==> before(#[trigger] params[i], '=') != key,
    ensures
        j < params.len() && params[j] == key.push('=') + value ==> parameter(params, key) == Some(
            value,
        ),
        j < params.len() && params[j] == key ==> parameter(params, key) is None,
        j == params.len() ==> parameter(params, key) is None,
    decreases j,
{
    if j > 0 {
        assert(before(params[0], '=') != key);
        let rest = params.skip(1);
        assert forall|i: int| 0 <= i < j - 1 implies before(#[trigger] rest[i], '=') != key by {
            assert(rest[i] == params[i + 1]);
        }
        law_parameter(rest, key, value, j - 1);
    } else if params.len() > 0 {
        assert forall|i: int| 0 <= i < key.len() implies key[i] != '=' by {
            assert(key.contains(key[i]));
        }
        let s = key.push('=') + value;
        assert(s[key.len() as int] == '=');
        lemma_first_at_is(s, '=', key.len() as int);
        lemma_first_at_is(key, '=', key.len() as int);
        assert(s.take(key.len() as int) == key);
        assert(s.skip(key.len() as int + 1) == value);
        assert(key.take(key.len() as int) == key);
        assert(s.contains('='));
    }
}

/// The query stands between the first question mark and the next: what follows that is
/// not looked at.
pub proof fn law_query_ends(path: Seq<char>, query: Seq<char>, rest: Seq<char>)
    requires
        !path.contains('?'),
        !query.contains('?'),
    ensures
        query_of(path.push('?') + query) == Some(query),
        query_of(path.push('?') + query + seq!['?'] + rest) == Some(query),
        forall|key: Seq<char>|
            query_value(path.push('?') + query + seq!['?'] + rest, key) == #[trigger] query_value(
                path.push('?') + query,
                key,
            ),
{
    lemma_split_whole(path, '?');
    lemma_split_last(path, '?', query);
    let s = path.push('?') + query;
    lemma_split_grows(s, '?', rest);
}

/// What is written behind a separator leaves the pieces before it as they are.
proof fn lemma_split_grows(s: Seq<char>, sep: char, rest: Seq<char>)
    ensures
        split(s + seq![sep] + rest, sep).len() > split(s, sep).len(),
        forall|i: int|
            0 <= i < split(s, sep).len() ==> #[trigger] split(s + seq![sep] + rest, sep)[i] == split(
                s,
                sep,
            )[i],
    decreases rest.len(),
{
    let whole = s + seq![sep] + rest;
    if rest.len() == 0 {
        assert(whole.drop_last() == s);
    } else {
        lemma_split_grows(s, sep, rest.drop_last());
        assert(whole.drop_last() == s + seq![sep] + rest.drop_last());
    }
}

/// The byte that a text denotes: hexadecimal behind `0x` or `0X`, else decimal,
/// with white space around it.
pub open spec fn byte_in(s: Seq<char>) -> Option<int> {
    let t = trimmed(s);
    if t.len() >= 2 && t[0] == '0' && (t[1] == 'x' || t[1] == 'X') {
        unsigned(t.skip(2), 16, 255)
    } else {
        unsigned(t, 10, 255)
    }
}

/// Reads a byte in decimal or `0x` hexadecimal.
pub fn parse_u8(s: &str) -> (r: Option<u8>)
    ensures
        byte_in(s@) == (match r {
            Some(v) => Some(v as int),
            None => None,
        }),
{
    let t = trim(&chars_of(s));
    let v = if t.len() >= 2 && t[0] == '0' && (t[1] == 'x' || t[1] == 'X') {
        let rest = piece(&t, 2, t.len());
        assert(rest@ == t@.skip(2));
        read_unsigned(&rest, 16, 255)
    } else {
        read_unsigned(&t, 10, 255)
    };
    match v {
        Some(n) => Some(n as u8),
        None => None,
    }
}

/// A byte is read from its decimal notation, and from its hexadecimal notation behind
/// `0x` or `0X`.
pub proof fn law_byte_notations(b: u8)
    ensures
        byte_in(decimal(b as nat)) == Some(b as int),
        byte_in(seq!['0', 'x'] + hex_byte(b)) == Some(b as int),
        byte_in(seq!['0', 'X'] + hex_byte(b)) == Some(b as int),
{
    let d = decimal(b as nat);
    law_decimal_reads_back(b as nat);
    assert(digit_value(d[0], 10) is Some && digit_value(d[d.len() - 1], 10) is Some);
    lemma_trimmed_same(d);
    if d.len() >= 2 {
        assert(digit_value(d[1], 10) is Some);
    }
    law_hex_byte_reads_back(b);
    let x = seq!['0', 'x'] + hex_byte(b);
    let y = seq!['0', 'X'] + hex_byte(b);
    assert(x.skip(2) == hex_byte(b));
    assert(y.skip(2) == hex_byte(b));
    lemma_trimmed_same(x);
    lemma_trimmed_same(y);
}

/// A byte behind `0x` or `0X` is read as hexadecimal, any other text as decimal, up to
/// 255, and white space around it makes no difference.
pub proof fn law_byte_in(t: Seq<char>, s: Seq<char>, a: int, b: int)
    requires
        t.len() > 0 ==> !white(t[0]) && !white(t.last()),
        0 <= a <= b <= s.len(),
        s.subrange(a, b) == t,
        forall|j: int| 0 <= j < a || b <= j < s.len() ==> white(#[trigger] s[j]),
    ensures
        t.len() >= 2 && t[0] == '0' && (t[1] == 'x' || t[1] == 'X') ==> byte_in(s) == unsigned(
            t.skip(2),
            16,
            255,
        ),
        !(t.len() >= 2 && t[0] == '0' && (t[1] == 'x' || t[1] == 'X')) ==> byte_in(s) == unsigned(
            t,
            10,
            255,
        ),
{
    law_trimmed(s);
    let (c, d) = choose|c: int, d: int|
        0 <= c <= d <= s.len() && #[trigger] s.subrange(c, d) == trimmed(s) && (forall|j: int|
            0 <= j < c || d <= j < s.len() ==> white(#[trigger] s[j]));
    let u = trimmed(s);
    if t.len() == 0 {
        if u.len() > 0 {
            assert(white(s[c]));
            assert(u[0] == s[c]);
        }
        assert(u == t);
    } else {
        assert(t[0] == s[a] && t.last() == s[b - 1]);
        assert(u.len() > 0) by {
            if u.len() == 0 {
                assert(white(s[a]));
            }
        }
        assert(u[0] == s[c] && u.last() == s[d - 1]);
        assert(a == c) by {
            if a < c {
                assert(white(s[a]));
            } else if c < a {
                assert(white(s[c]));
            }
        }
        assert(b == d) by {
            if b < d {
                assert(white(s[d - 1]));
            } else if d < b {
                assert(white(s[b - 1]));
            }
        }
    }
}

/// A text without white space at its ends is trimmed already.
proof fn lemma_trimmed_same(s: Seq<char>)
    requires
        s.len() > 0,
        !white(s[0]),
        !white(s.last()),
    ensures
        trimmed(s) == s,
{
    assert(s.skip(0) == s);
    assert(s.take(s.len() as int) == s);
}

/// The parameters behind a question mark are the ones between ampersands, as long as
/// none of them holds a sign of its own.
pub proof fn law_query_of_parameters(path: Seq<char>, params: Seq<Seq<char>>, key: Seq<char>)
    requires
        params.len() >= 1,
        !path.contains('?'),
        forall|i: int|
            0 <= i < params.len() ==> !(#[trigger] params[i]).contains('&') && !params[i].contains(
                '?',
            ),
    ensures
        query_value(path.push('?') + joined(params, '&'), key) == parameter(params, key),
{
    lemma_joined_without(params, '&', '?');
    lemma_split_whole(path, '?');
    lemma_split_last(path, '?', joined(params, '&'));
    law_split_joined(params, '&');
}

proof fn lemma_joined_without(pieces: Seq<Seq<char>>, sep: char, c: char)
    requires
        sep != c,
        forall|i: int| 0 <= i < pieces.len() ==> !(#[trigger] pieces[i]).contains(c),
    ensures
        !joined(pieces, sep).contains(c),
    decreases pieces.len(),
{
    if pieces.len() == 1 {
        assert(!pieces[0].contains(c));
    } else if pieces.len() > 1 {
        let init = pieces.drop_last();
        assert forall|i: int| 0 <= i < init.len() implies !(#[trigger] init[i]).contains(c) by {
            assert(init[i] == pieces[i]);
        }
        lemma_joined_without(init, sep, c);
        let a = joined(init, sep);
        let b = pieces.last();
        assert(!pieces[pieces.len() - 1].contains(c));
        let s = a.push(sep) + b;
        assert forall|i: int| 0 <= i < s.len() implies s[i] != c by {
            if i < a.len() {
                assert(a.contains(a[i]));
            } else if i > a.len() {
                assert(b.contains(b[i - a.len() - 1]));
            }
        }
    }
}

/// A request without a question mark has no parameters.
pub proof fn law_no_query(uri: Seq<char>, key: Seq<char>)
    requires
        !uri.contains('?'),
    ensures
        query_value(uri, key) is None,
{
    lemma_split_whole(uri, '?');
}

// ---------------------------------------------------------------------------
// What a request asks for
// ---------------------------------------------------------------------------
/// The routes of the panel that do something.
#[derive(Clone, Copy, Debug, PartialEq, Eq, Structural)]
pub enum Route {
    Beep,
    Play,
    Mic,
    Pa,
    Vol,
    Reg,
    Gpio,
}

/// What a request has done.
#[derive(Clone, Copy, Debug, PartialEq, Eq, Structural)]
pub enum PanelAction {
    /// Beep.
    Beep { freq_hz: u32, ms: u32 },
    /// Play the prompt that announces the assistant.
    PlayPrompt,
    /// Measure the peak of so many microphone frames.
    MicPeak { frames: usize },
    /// Switch the power amplifier.
    Amplifier(bool),
    /// Set the volume.
    Volume(u8),
    /// Read a register of the codec.
    ReadRegister(u8),
    /// Write a register of the codec.
    WriteRegister(u8, u8),
    /// Drive a pin.
    Pin { pin: i32, level: u32 },
}

/// What becomes of a request.
#[derive(Debug)]
pub enum Plan {
    /// It is answered at once.
    Answer(String),
    /// Something is done first.
    Do(PanelAction),
}

/// The contents of a plan.
pub enum PlanView {
    Answer(Seq<char>),
    Do(PanelAction),
}

impl View for Plan {
    type V = PlanView;

    open spec fn view(&self) -> PlanView {
        match self {
            Plan::Answer(t) => PlanView::Answer(t@),
            Plan::Do(a) => PlanView::Do(*a),
        }
    }
}

/// The number that the query gives to a key, or another where it gives none.
pub open spec fn query_number(uri: Seq<char>, key: Seq<char>, max: int, other: int) -> int {
    match query_value(uri, key) {
        Some(v) => match unsigned(v, 10, max) {
            Some(n) => n,
            None => other,
        },
        None => other,
    }
}

/// The byte that the query gives to a key.
pub open spec fn query_byte(uri: Seq<char>, key: Seq<char>) -> Option<int> {
    match query_value(uri, key) {
        Some(v) => byte_in(v),
        None => None,
    }
}

/// The pin that the query names.
pub open spec fn query_pin(uri: Seq<char>) -> Option<int> {
    match query_value(uri, "pin"@) {
        Some(v) => signed(v),
        None => None,
    }
}

/// What becomes of a request, given whether the audio and the codec are up.
pub open spec fn plan_for(route: Route, uri: Seq<char>, audio: bool, codec: bool) -> PlanView {
    match route {
        Route::Beep => if audio {
            PlanView::Do(
                PanelAction::Beep {
                    freq_hz: query_number(uri, "freq"@, u32::MAX as int, 880) as u32,
                    ms: query_number(uri, "ms"@, u32::MAX as int, 200) as u32,
                },
            )
        } else {
            PlanView::Answer("audio not initialized"@)
        },
        Route::Play => if audio {
            PlanView::Do(PanelAction::PlayPrompt)
        } else {
            PlanView::Answer("audio not initialized"@)
        },
        Route::Mic => if audio {
            PlanView::Do(PanelAction::MicPeak { frames: 16 })
        } else {
            PlanView::Answer("audio not initialized"@)
        },
        // The amplifier is switched on unless the query says something other than 1.
        Route::Pa => if codec {
            PlanView::Do(
                PanelAction::Amplifier(
                    match query_value(uri, "on"@) {
                        Some(v) => v == "1"@,
                        None => true,
                    },
                ),
            )
        } else {
            PlanView::Answer("codec not initialized"@)
        },
        Route::Vol => if codec {
            PlanView::Do(PanelAction::Volume(capped(query_number(uri, "v"@, u8::MAX as int, 75))))
        } else {
            PlanView::Answer("codec not initialized"@)
        },
        Route::Reg => if !codec {
            PlanView::Answer("codec not initialized"@)
        } else {
            match (query_byte(uri, "addr"@), query_byte(uri, "val"@)) {
                (Some(a), Some(v)) => PlanView::Do(PanelAction::WriteRegister(a as u8, v as u8)),
                (Some(a), None) => PlanView::Do(PanelAction::ReadRegister(a as u8)),
                (None, _) => PlanView::Answer("missing addr"@),
            }
        },
        Route::Gpio => match query_pin(uri) {
            Some(p) => PlanView::Do(
                PanelAction::Pin {
                    pin: p as i32,
                    level: query_number(uri, "level"@, u32::MAX as int, 1) as u32,
                },
            ),
            None => PlanView::Answer("missing pin"@),
        },
    }
}

/// The number that the query gives to a key.
fn number_param(uri: &str, key: &str, max: u64, other: u64) -> (r: u64)
    requires
        max <= 0x1_0000_0000,
        other <= max,
    ensures
        r == query_number(uri@, key@, max as int, other as int),
        r <= max,
{
    match qparam(uri, key) {
        Some(v) => match read_unsigned(&chars_of(v.as_str()), 10, max) {
            Some(n) => n,
            None => other,
        },
        None => other,
    }
}

/// The byte that the query gives to a key.
fn byte_param(uri: &str, key: &str) -> (r: Option<u8>)
    ensures
        query_byte(uri@, key@) == (match r {
            Some(b) => Some(b as int),
            None => None,
        }),
{
    match qparam(uri, key) {
        Some(v) => parse_u8(v.as_str()),
        None => None,
    }
}

/// What becomes of a request.
pub fn plan(route: Route, uri: &str, audio: bool, codec: bool) -> (r: Plan)
    ensures
        r@ == plan_for(route, uri@, audio, codec),
{
    match route {
        Route::Beep => if audio {
            Plan::Do(
                PanelAction::Beep {
                    freq_hz: number_param(uri, "freq", 0xffff_ffff, 880) as u32,
                    ms: number_param(uri, "ms", 0xffff_ffff, 200) as u32,
                },
            )
        } else {
            Plan::Answer("audio not initialized".to_string())
        },
        Route::Play => if audio {
            Plan::Do(PanelAction::PlayPrompt)
        } else {
            Plan::Answer("audio not initialized".to_string())
        },
        Route::Mic => if audio {
            Plan::Do(PanelAction::MicPeak { frames: 16 })
        } else {
            Plan::Answer("audio not initialized".to_string())
        },
        Route::Pa => if codec {
            let on = match qparam(uri, "on") {
                Some(v) => same(&chars_of(v.as_str()), &chars_of("1")),
                None => true,
            };
            Plan::Do(PanelAction::Amplifier(on))
        } else {
            Plan::Answer("codec not initialized".to_string())
        },
        Route::Vol => if codec {
            Plan::Do(PanelAction::Volume(cap(number_param(uri, "v", 255, 75) as u8)))
        } else {
            Plan::Answer("codec not initialized".to_string())
        },
        Route::Reg => if !codec {
            Plan::Answer("codec not initialized".to_string())
        } else {
            match (byte_param(uri, "addr"), byte_param(uri, "val")) {
                (Some(a), Some(v)) => Plan::Do(PanelAction::WriteRegister(a, v)),
                (Some(a), None) => Plan::Do(PanelAction::ReadRegister(a)),
                (None, _) => Plan::Answer("missing addr".to_string()),
            }
        },
        Route::Gpio => {
            let pin = match qparam(uri, "pin") {
                Some(v) => read_signed(&chars_of(v.as_str())),
                None => None,
            };
            match pin {
                Some(pin) => Plan::Do(
                    PanelAction::Pin {
                        pin,
                        level: number_param(uri, "level", 0xffff_ffff, 1) as u32,
                    },
                ),
                None => Plan::Answer("missing pin".to_string()),
            }
        },
    }
}

/// The number that a request gives, where it gives one that can be read, and else the
/// other one.
pub proof fn law_query_number(uri: Seq<char>, key: Seq<char>, max: int, other: int, n: int)
    ensures
        query_value(uri, key) matches Some(v) && unsigned(v, 10, max) == Some(n) ==> query_number(
            uri,
            key,
            max,
            other,
        ) == n,
        query_value(uri, key) is None || unsigned(query_value(uri, key)->0, 10, max) is None
            ==> query_number(uri, key, max, other) == other,
{
}

/// With its hardware up, a request has done what it asks for: a beep at 880 Hz for 200 ms
/// unless it says otherwise, the prompt, the peak of 16 frames, or a volume, which is 75
/// unless it says otherwise and 100 at most.
pub proof fn law_panel_sound(uri: Seq<char>, other: bool)
    ensures
        plan_for(Route::Beep, uri, true, other) matches PlanView::Do(
            PanelAction::Beep { freq_hz, ms },
        ) && freq_hz == query_number(uri, "freq"@, 0xffff_ffff, 880) && ms == query_number(
            uri,
            "ms"@,
            0xffff_ffff,
            200,
        ),
        plan_for(Route::Play, uri, true, other) == PlanView::Do(PanelAction::PlayPrompt),
        plan_for(Route::Mic, uri, true, other) == PlanView::Do(PanelAction::MicPeak { frames: 16 }),
        plan_for(Route::Vol, uri, other, true) matches PlanView::Do(PanelAction::Volume(v)) && v == (
        if query_number(uri, "v"@, 255, 75) > 100 {
            100
        } else {
            query_number(uri, "v"@, 255, 75)
        }),
{
    lemma_query_number(uri, "freq"@, 0xffff_ffff, 880);
    lemma_query_number(uri, "ms"@, 0xffff_ffff, 200);
    lemma_query_number(uri, "v"@, 255, 75);
}

proof fn lemma_query_number(uri: Seq<char>, key: Seq<char>, max: int, other: int)
    requires
        0 <= other <= max,
    ensures
        0 <= query_number(uri, key, max, other) <= max,
{
    match query_value(uri, key) {
        Some(v) => {
            law_unsigned_in_range(v, 10, max);
        },
        None => {},
    }
}

/// The amplifier is switched on where the request says nothing, or says 1, and off where
/// it says anything else.
pub proof fn law_panel_amplifier(uri: Seq<char>, audio: bool)
    ensures
        plan_for(Route::Pa, uri, audio, true) == PlanView::Do(PanelAction::Amplifier(true)) <==> (
        query_value(uri, "on"@) is None || query_value(uri, "on"@) == Some(seq!['1'])),
        plan_for(Route::Pa, uri, audio, true) == PlanView::Do(PanelAction::Amplifier(false)) <==> (
        query_value(uri, "on"@) is Some && query_value(uri, "on"@) != Some(seq!['1'])),
{
    reveal_strlit("1");
    assert("1"@ == seq!['1']);
}

/// A register is written where the request names it and a value, read where it names it
/// alone, and asked for where it names none. A pin is driven to the level given, to 1
/// where none is given, and asked for where none is named.
pub proof fn law_panel_registers_and_pins(uri: Seq<char>, a: bool, b: bool, reg: u8, val: u8, pin: i32)
    ensures
        query_byte(uri, "addr"@) == Some(reg as int) && query_byte(uri, "val"@) == Some(val as int)
            ==> plan_for(Route::Reg, uri, a, true) == PlanView::Do(
            PanelAction::WriteRegister(reg, val),
        ),
        query_byte(uri, "addr"@) == Some(reg as int) && query_byte(uri, "val"@) is None ==> plan_for(
            Route::Reg,
            uri,
            a,
            true,
        ) == PlanView::Do(PanelAction::ReadRegister(reg)),
        query_byte(uri, "addr"@) is None ==> plan_for(Route::Reg, uri, a, true) == PlanView::Answer(
            "missing addr"@,
        ),
        query_value(uri, "pin"@) matches Some(v) && signed(v) == Some(pin as int) ==> (plan_for(
            Route::Gpio,
            uri,
            a,
            b,
        ) matches PlanView::Do(PanelAction::Pin { pin: p, level }) && p == pin && level
            == query_number(uri, "level"@, 0xffff_ffff, 1)),
        query_value(uri, "pin"@) is None || signed(query_value(uri, "pin"@)->0) is None ==> plan_for(
            Route::Gpio,
            uri,
            a,
            b,
        ) == PlanView::Answer("missing pin"@),
{
    lemma_query_number(uri, "level"@, 0xffff_ffff, 1);
}

/// The byte that a request gives to a key is the one that its value denotes.
pub proof fn law_query_byte(uri: Seq<char>, key: Seq<char>)
    ensures
        query_value(uri, key) matches Some(v) ==> query_byte(uri, key) == byte_in(v),
        query_value(uri, key) is None ==> query_byte(uri, key) is None,
{
}

/// No request sets a volume above the loudest.
pub proof fn law_panel_volume(uri: Seq<char>, audio: bool)
    ensures
        plan_for(Route::Vol, uri, audio, true) matches PlanView::Do(PanelAction::Volume(v)) && v
            <= MAX_VOLUME,
{
    match query_value(uri, "v"@) {
        Some(v) => {
            law_unsigned_in_range(v, 10, u8::MAX as int);
        },
        None => {},
    }
}

/// Without audio nothing is played or measured, and without a codec none of its
/// registers is touched: such requests are answered with what is missing.
pub proof fn law_panel_needs_hardware(route: Route, uri: Seq<char>, other: bool)
    ensures
        route == Route::Beep || route == Route::Play || route == Route::Mic ==> plan_for(
            route,
            uri,
            false,
            other,
        ) == PlanView::Answer("audio not initialized"@),
        route == Route::Pa || route == Route::Vol || route == Route::Reg ==> plan_for(
            route,
            uri,
            other,
            false,
        ) == PlanView::Answer("codec not initialized"@),
{
}

// ---------------------------------------------------------------------------
// What a request is answered
// ---------------------------------------------------------------------------
/// What an action of the panel gave.
#[derive(Debug)]
pub enum Outcome {
    /// It was done.
    Done,
    /// It measured this peak.
    Peak(i32),
    /// It read this value.
    Value(u8),
    /// It failed, for this reason.
    Failed(String),
}

/// The contents of an outcome.
pub enum OutcomeView {
    Done,
    Peak(i32),
    Value(u8),
    Failed(Seq<char>),
}

impl View for Outcome {
    type V = OutcomeView;

    open spec fn view(&self) -> OutcomeView {
        match self {
            Outcome::Done => OutcomeView::Done,
            Outcome::Peak(p) => OutcomeView::Peak(*p),
            Outcome::Value(v) => OutcomeView::Value(*v),
            Outcome::Failed(e) => OutcomeView::Failed(e@),
        }
    }
}

/// The outcome is one that the action can have.
pub open spec fn outcome_fits(action: PanelAction, outcome: OutcomeView) -> bool {
    match (action, outcome) {
        (PanelAction::MicPeak { frames }, OutcomeView::Peak(p)) => true,
        (PanelAction::MicPeak { frames }, OutcomeView::Failed(e)) => true,
        (PanelAction::MicPeak { frames }, _) => false,
        (PanelAction::ReadRegister(a), OutcomeView::Value(v)) => true,
        (PanelAction::ReadRegister(a), OutcomeView::Failed(e)) => true,
        (PanelAction::ReadRegister(a), _) => false,
        // Driving a pin does not fail.
        (PanelAction::Pin { pin, level }, OutcomeView::Done) => true,
        (PanelAction::Pin { pin, level }, _) => false,
        (_, OutcomeView::Done) => true,
        (_, OutcomeView::Failed(e)) => true,
        (_, _) => false,
    }
}

/// What a failed action is called in the answer.
pub open spec fn error_name(action: PanelAction) -> Seq<char> {
    match action {
        PanelAction::Beep { freq_hz, ms } => "beep"@,
        PanelAction::PlayPrompt => "play"@,
        PanelAction::MicPeak { frames } => "mic"@,
        PanelAction::Amplifier(on) => "pa"@,
        PanelAction::Volume(v) => "vol"@,
        PanelAction::ReadRegister(a) => "regr"@,
        PanelAction::WriteRegister(a, v) => "regw"@,
        PanelAction::Pin { pin, level } => "gpio"@,
    }
}

/// What a request is answered once its action was performed.
pub open spec fn answer_for(action: PanelAction, outcome: OutcomeView) -> Seq<char> {
    match (action, outcome) {
        (_, OutcomeView::Failed(e)) => error_name(action) + " error: "@ + e,
        (PanelAction::Beep { freq_hz, ms }, _) => "beep "@ + decimal(freq_hz as nat) + "Hz "@
            + decimal(ms as nat) + "ms OK"@,
        (PanelAction::PlayPrompt, _) => "played ready prompt"@,
        (PanelAction::MicPeak { frames }, OutcomeView::Peak(p)) => "mic peak = "@ + signed_decimal(
            p as int,
        ) + " / 32767"@,
        (PanelAction::Amplifier(on), _) => "PA (G18) = "@ + if on {
            "ON"@
        } else {
            "OFF"@
        },
        (PanelAction::Volume(v), _) => "volume = "@ + decimal(v as nat),
        (PanelAction::WriteRegister(a, v), _) => "wrote reg 0x"@ + hex_byte(a) + " = 0x"@
            + hex_byte(v),
        (PanelAction::ReadRegister(a), OutcomeView::Value(v)) => "reg 0x"@ + hex_byte(a)
            + " = 0x"@ + hex_byte(v) + " ("@ + decimal(v as nat) + ")"@,
        (PanelAction::Pin { pin, level }, _) => "GPIO"@ + signed_decimal(pin as int) + " set to "@
            + decimal(level as nat),
        (_, _) => Seq::<char>::empty(),
    }
}

/// What was done is reported with the numbers that it was done with.
pub proof fn law_panel_reports(freq_hz: u32, ms: u32, p: i32, v: u8, reg: u8, pin: i32, level: u32)
    ensures
        answer_for(PanelAction::Beep { freq_hz, ms }, OutcomeView::Done) == "beep "@ + decimal(
            freq_hz as nat,
        ) + "Hz "@ + decimal(ms as nat) + "ms OK"@,
        answer_for(PanelAction::PlayPrompt, OutcomeView::Done) == "played ready prompt"@,
        forall|frames: usize|
            #[trigger] answer_for(PanelAction::MicPeak { frames }, OutcomeView::Peak(p))
                == "mic peak = "@ + signed_decimal(p as int) + " / 32767"@,
        answer_for(PanelAction::Amplifier(true), OutcomeView::Done) == "PA (G18) = "@ + "ON"@,
        answer_for(PanelAction::Amplifier(false), OutcomeView::Done) == "PA (G18) = "@ + "OFF"@,
        answer_for(PanelAction::Volume(v), OutcomeView::Done) == "volume = "@ + decimal(v as nat),
        answer_for(PanelAction::WriteRegister(reg, v), OutcomeView::Done) == "wrote reg 0x"@
            + hex_byte(reg) + " = 0x"@ + hex_byte(v),
        answer_for(PanelAction::ReadRegister(reg), OutcomeView::Value(v)) == "reg 0x"@ + hex_byte(
            reg,
        ) + " = 0x"@ + hex_byte(v) + " ("@ + decimal(v as nat) + ")"@,
        answer_for(PanelAction::Pin { pin, level }, OutcomeView::Done) == "GPIO"@ + signed_decimal(
            pin as int,
        ) + " set to "@ + decimal(level as nat),
{
}

/// A failure is reported as one, with the reason behind it, whatever the action was.
pub proof fn law_panel_failures(action: PanelAction, reason: Seq<char>)
    ensures
        ({
            let text = answer_for(action, OutcomeView::Failed(reason));
            let head = error_name(action) + " error: "@;
            &&& head.is_prefix_of(text)
            &&& text.skip(head.len() as int) == reason
        }),
        error_name(action) == (match action {
            PanelAction::Beep { freq_hz, ms } => "beep"@,
            PanelAction::PlayPrompt => "play"@,
            PanelAction::MicPeak { frames } => "mic"@,
            PanelAction::Amplifier(on) => "pa"@,
            PanelAction::Volume(v) => "vol"@,
            PanelAction::ReadRegister(reg) => "regr"@,
            PanelAction::WriteRegister(reg, v) => "regw"@,
            PanelAction::Pin { pin, level } => "gpio"@,
        }),
{
    let head = error_name(action) + " error: "@;
    assert((head + reason).skip(head.len() as int) == reason);
}

/// What a failed action is called in the answer.
fn error_text(action: PanelAction) -> (r: String)
    ensures
        r@ == error_name(action),
{
    match action {
        PanelAction::Beep { freq_hz, ms } => "beep".to_string(),
        PanelAction::PlayPrompt => "play".to_string(),
        PanelAction::MicPeak { frames } => "mic".to_string(),
        PanelAction::Amplifier(on) => "pa".to_string(),
        PanelAction::Volume(v) => "vol".to_string(),
        PanelAction::ReadRegister(a) => "regr".to_string(),
        PanelAction::WriteRegister(a, v) => "regw".to_string(),
        PanelAction::Pin { pin, level } => "gpio".to_string(),
    }
}

/// Words the answer to a request once its action was performed.
pub fn answer(action: PanelAction, outcome: Outcome) -> (r: String)
    requires
        outcome_fits(action, outcome@),
    ensures
        r@ == answer_for(action, outcome@),
{
    match (action, outcome) {
        (_, Outcome::Failed(e)) => {
            let mut out = error_text(action);
            out.append(" error: ");
            out.append(e.as_str());
            out
        },
        (PanelAction::Beep { freq_hz, ms }, _) => {
            let mut out = "beep ".to_string();
            push_decimal(&mut out, freq_hz as u64);
            out.append("Hz ");
            push_decimal(&mut out, ms as u64);
            out.append("ms OK");
            out
        },
        (PanelAction::PlayPrompt, _) => "played ready prompt".to_string(),
        (PanelAction::MicPeak { frames }, Outcome::Peak(p)) => {
            let mut out = "mic peak = ".to_string();
            push_signed(&mut out, p);
            out.append(" / 32767");
            out
        },
        (PanelAction::Amplifier(on), _) => {
            let mut out = "PA (G18) = ".to_string();
            if on {
                out.append("ON");
            } else {
                out.append("OFF");
            }
            out
        },
        (PanelAction::Volume(v), _) => {
            let mut out = "volume = ".to_string();
            push_decimal(&mut out, v as u64);
            out
        },
        (PanelAction::WriteRegister(a, v), _) => {
            let mut out = "wrote reg 0x".to_string();
            push_hex(&mut out, a);
            out.append(" = 0x");
            push_hex(&mut out, v);
            out
        },
        (PanelAction::ReadRegister(a), Outcome::Value(v)) => {
            let mut out = "reg 0x".to_string();
            push_hex(&mut out, a);
            out.append(" = 0x");
            push_hex(&mut out, v);
            out.append(" (");
            push_decimal(&mut out, v as u64);
            out.append(")");
            out
        },
        (PanelAction::Pin { pin, level }, _) => {
            let mut out = "GPIO".to_string();
            push_signed(&mut out, pin);
            out.append(" set to ");
            push_decimal(&mut out, level as u64);
            out
        },
        (_, _) => String::new(),
    }
}

/// The word for a truth value.
pub open spec fn truth(b: bool) -> Seq<char> {
    if b {
        "true"@
    } else {
        "false"@
    }
}

/// The dotted notation of an address.
pub open spec fn dotted(ip: Seq<u8>) -> Seq<char> {
    decimal(ip[0] as nat) + "."@ + decimal(ip[1] as nat) + "."@ + decimal(ip[2] as nat) + "."@
        + decimal(ip[3] as nat)
}

/// Appends the word for a truth value.
fn push_truth(out: &mut String, b: bool)
    ensures
        final(out)@ == old(out)@ + truth(b),
{
    if b {
        out.append("true");
    } else {
        out.append("false");
    }
}

/// The dotted notation of an address.
fn dotted_text(ip: &[u8; 4]) -> (r: String)
    ensures
        r@ == dotted(ip@),
{
    let mut out = String::new();
    push_decimal(&mut out, ip[0] as u64);
    assert(out@ == decimal(ip@[0] as nat));
    out.append(".");
    push_decimal(&mut out, ip[1] as u64);
    out.append(".");
    push_decimal(&mut out, ip[2] as u64);
    out.append(".");
    push_decimal(&mut out, ip[3] as u64);
    out
}

/// The status of the device.
pub fn info(ip: &[u8; 4], audio: bool, codec: bool, free_heap: u32) -> (r: String)
    ensures
        r@ == "chip=ESP32-S3-PICO  ip="@ + dotted(ip@) + "\naudio_init="@ + truth(audio)
            + "  codec_init="@ + truth(codec) + "\nfree_heap="@ + decimal(free_heap as nat)
            + " bytes\nAP SSID="@ + config::AP_SSID@ + " pass="@ + config::AP_PASS@,
{
    let mut out = "chip=ESP32-S3-PICO  ip=".to_string();
    out.append(dotted_text(ip).as_str());
    out.append("\naudio_init=");
    push_truth(&mut out, audio);
    out.append("  codec_init=");
    push_truth(&mut out, codec);
    out.append("\nfree_heap=");
    push_decimal(&mut out, free_heap as u64);
    out.append(" bytes\nAP SSID=");
    out.append(config::AP_SSID);
    out.append(" pass=");
    out.append(config::AP_PASS);
    out
}

/// An address is written as its four numbers with dots between them, a truth value as its
/// word.
pub proof fn law_status_words(ip: Seq<u8>)
    requires
        ip.len() == 4,
    ensures
        dotted(ip) == joined(ip.map_values(|b: u8| decimal(b as nat)), '.'),
        truth(true) == "true"@,
        truth(false) == "false"@,
{
    reveal_strlit(".");
    let numbers = ip.map_values(|b: u8| decimal(b as nat));
    let n1 = numbers.drop_last();
    let n2 = n1.drop_last();
    let n3 = n2.drop_last();
    reveal_with_fuel(joined, 4);
    assert(n3[0] == decimal(ip[0] as nat));
    assert(n2.last() == decimal(ip[1] as nat));
    assert(n1.last() == decimal(ip[2] as nat));
    assert(numbers.last() == decimal(ip[3] as nat));
    assert(joined(n2, '.') == n3[0].push('.') + n2.last());
    assert("."@ == seq!['.']);
    assert(dotted(ip) == joined(numbers, '.'));
}

/// A plan holds the answer or the action that it was made with, an outcome what the action
/// gave.
pub proof fn law_panel_contents(text: String, action: PanelAction, p: i32, v: u8)
    ensures
        Plan::Answer(text)@ == PlanView::Answer(text@),
        Plan::Do(action)@ == PlanView::Do(action),
        Outcome::Done@ == OutcomeView::Done,
        Outcome::Peak(p)@ == OutcomeView::Peak(p),
        Outcome::Value(v)@ == OutcomeView::Value(v),
        Outcome::Failed(text)@ == OutcomeView::Failed(text@),
{
}

} // verus!
