//! What a browser sends for the setup form, and the proof that the device reads it
//! back.

use vstd::prelude::*;
use vstd::utf8::*;

use crate::config;
use crate::numbers::hex_byte;
use crate::provision::body_after;
use crate::provision::config_in;
use crate::provision::decoded;
use crate::provision::field_in;
use crate::provision::fields_in;
use crate::provision::hex_digit;
use crate::provision::law_body_whole;
use crate::provision::network_in;
use crate::provision::networks_in;
use crate::provision::percent_decoded;
use crate::provision::text_in;
use crate::provision::value_of;
use crate::provision::FieldView;
use crate::provision::BODY_LIMIT;
use crate::storage::field_name;
use crate::storage::field_text;
use crate::storage::lemma_keys;
use crate::storage::loaded_config;
use crate::storage::loader_start;
use crate::storage::saved_writes;
use crate::storage::slot_key;
use crate::storage::written;
use crate::storage::ConfigView;
use crate::storage::CredView;
use crate::storage::Stored;
use crate::storage::MAX_WIFI;
use crate::storage_laws::cred_fits;
use crate::storage_laws::law_config_survives;
use crate::storage_laws::load_run;
use crate::text::before;
use crate::text::joined;
use crate::text::law_split_joined;
use crate::text::lemma_first_at;
use crate::text::lemma_first_at_is;

verus! {

// ---------------------------------------------------------------------------
// Encoding
// ---------------------------------------------------------------------------
/// The bytes that a form value carries unchanged.
pub open spec fn plain(b: u8) -> bool {
    ||| '0' as u8 <= b <= '9' as u8
    ||| 'A' as u8 <= b <= 'Z' as u8
    ||| 'a' as u8 <= b <= 'z' as u8
    ||| b == '*' as u8
    ||| b == '-' as u8
    ||| b == '.' as u8
    ||| b == '_' as u8
}

/// How a form value carries a byte.
pub open spec fn encoded_byte(b: u8) -> Seq<char> {
    if plain(b) {
        seq![b as char]
    } else if b == ' ' as u8 {
        seq!['+']
    } else {
        seq!['%'] + hex_byte(b)
    }
}

/// How a form value carries a run of bytes.
pub open spec fn encoded_bytes(b: Seq<u8>) -> Seq<char>
    decreases b.len(),
{
    if b.len() == 0 {
        Seq::<char>::empty()
    } else {
        encoded_byte(b[0]) + encoded_bytes(b.skip(1))
    }
}

/// How a form value carries a text.
pub open spec fn form_encoded(t: Seq<char>) -> Seq<char> {
    encoded_bytes(encode_utf8(t))
}

/// An encoded value is ASCII and holds none of the form's own signs.
proof fn lemma_encoded_clean(b: Seq<u8>)
    ensures
        is_ascii_chars(encoded_bytes(b)),
        !encoded_bytes(b).contains('&'),
        !encoded_bytes(b).contains('='),
    decreases b.len(),
{
    if b.len() > 0 {
        let head = encoded_byte(b[0]);
        let tail = encoded_bytes(b.skip(1));
        lemma_encoded_clean(b.skip(1));
        assert forall|i: int| 0 <= i < head.len() implies (#[trigger] head[i]) as u32 <= 127
            && head[i] != '&' && head[i] != '=' by {}
        let all = head + tail;
        assert forall|i: int| 0 <= i < all.len() implies 0 <= (#[trigger] all[i]) as nat && (all[i] as nat)
            < 128 && all[i] != '&' && all[i] != '=' by {
            if i < head.len() {
                assert(all[i] == head[i]);
            } else {
                assert(all[i] == tail[i - head.len()]);
                assert(tail.contains(tail[i - head.len()]));
            }
        }
    }
}

/// Decoding undoes encoding, byte for byte.
proof fn lemma_decode_encoded(b: Seq<u8>)
    ensures
        percent_decoded(encode_utf8(encoded_bytes(b))) == b,
    decreases b.len(),
{
    let chars = encoded_bytes(b);
    lemma_encoded_clean(b);
    is_ascii_chars_encode_utf8(chars);
    let bytes = encode_utf8(chars);
    if b.len() > 0 {
        let head = encoded_byte(b[0]);
        let tail = encoded_bytes(b.skip(1));
        lemma_encoded_clean(b.skip(1));
        lemma_decode_encoded(b.skip(1));
        is_ascii_chars_encode_utf8(tail);
        let n = head.len() as int;
        assert(bytes.skip(n) == encode_utf8(tail));
        assert(chars[0] == head[0]);
        assert(bytes[0] == head[0] as u8);
        if plain(b[0]) {
        } else if b[0] == ' ' as u8 {
        } else {
            assert(chars[1] == head[1] && chars[2] == head[2]);
            assert(hex_digit(bytes[1]) == Some((b[0] / 16) as u8));
            assert(hex_digit(bytes[2]) == Some((b[0] % 16) as u8));
        }
        assert(percent_decoded(bytes) == seq![b[0]] + percent_decoded(bytes.skip(n)));
        assert(seq![b[0]] + b.skip(1) == b);
    }
}

/// Whatever text a form value carries, decoding it gives that text.
pub proof fn law_decoded_encoded(t: Seq<char>)
    ensures
        decoded(form_encoded(t)) == t,
{
    lemma_decode_encoded(encode_utf8(t));
    encode_utf8_valid_utf8(t);
    encode_utf8_decode_utf8(t);
}

// ---------------------------------------------------------------------------
// The form as a whole
// ---------------------------------------------------------------------------
/// A field of a form as it is sent.
pub open spec fn sent_field(key: Seq<char>, text: Seq<char>) -> Seq<char> {
    key.push('=') + form_encoded(text)
}

/// The fields that the setup page sends for a list of networks, three for each.
pub open spec fn sent_fields(nets: Seq<CredView>) -> Seq<Seq<char>> {
    Seq::new(
        3 * nets.len(),
        |j: int|
            sent_field(
                slot_key(field_name(j % 3), (j / 3) as nat),
                field_text(nets[j / 3], j % 3),
            ),
    )
}

/// The form that the setup page sends for a list of networks.
pub open spec fn sent_form(nets: Seq<CredView>) -> Seq<char> {
    joined(sent_fields(nets), '&')
}

/// A network with the default server address where it has none of its own.
pub open spec fn with_server(w: CredView) -> CredView {
    if w.server.len() > 0 {
        w
    } else {
        CredView { server: config::DEFAULT_SERVER@, ..w }
    }
}

/// A sent field reads back as its key and its text.
proof fn lemma_field_reads_back(key: Seq<char>, text: Seq<char>)
    requires
        !key.contains('='),
        !key.contains('&'),
    ensures
        field_in(sent_field(key, text)) == (FieldView { key, value: text }),
        !sent_field(key, text).contains('&'),
{
    let s = sent_field(key, text);
    let v = form_encoded(text);
    lemma_encoded_clean(encode_utf8(text));
    assert forall|j: int| 0 <= j < key.len() implies s[j] != '=' && s[j] != '&' by {
        assert(key.contains(key[j]));
    }
    assert(s[key.len() as int] == '=');
    lemma_first_at_is(s, '=', key.len() as int);
    lemma_first_at(s, '=');
    assert(before(s, '=') == key);
    assert(s.skip(key.len() as int + 1) == v);
    law_decoded_encoded(text);
    assert forall|j: int| 0 <= j < s.len() implies s[j] != '&' by {
        if j > key.len() {
            assert(s[j] == v[j - key.len() - 1]);
            assert(v.contains(v[j - key.len() - 1]));
        }
    }
}

/// The first field with a key gives its value.
proof fn lemma_value_at(fields: Seq<FieldView>, key: Seq<char>, j: int)
    requires
        0 <= j < fields.len(),
        fields[j].key == key,
        forall|i: int| 0 <= i < j ==> (#[trigger] fields[i]).key != key,
    ensures
        value_of(fields, key) == Some(fields[j].value),
    decreases j,
{
    if j > 0 {
        assert(fields[0].key != key);
        let rest = fields.skip(1);
        assert forall|i: int| 0 <= i < j - 1 implies (#[trigger] rest[i]).key != key by {
            assert(rest[i] == fields[i + 1]);
        }
        lemma_value_at(rest, key, j - 1);
    }
}

/// A key that no field has gives no value.
proof fn lemma_value_missing(fields: Seq<FieldView>, key: Seq<char>)
    requires
        forall|i: int| 0 <= i < fields.len() ==> (#[trigger] fields[i]).key != key,
    ensures
        value_of(fields, key) is None,
    decreases fields.len(),
{
    if fields.len() > 0 {
        assert(fields[0].key != key);
        let rest = fields.skip(1);
        assert forall|i: int| 0 <= i < rest.len() implies (#[trigger] rest[i]).key != key by {
            assert(rest[i] == fields[i + 1]);
        }
        lemma_value_missing(rest, key);
    }
}

/// The fields of the sent form are the fields that were written.
proof fn lemma_sent_fields_read_back(nets: Seq<CredView>)
    requires
        1 <= nets.len() <= MAX_WIFI,
    ensures
        fields_in(sent_form(nets)).len() == 3 * nets.len(),
        forall|j: int|
            0 <= j < 3 * nets.len() ==> (#[trigger] fields_in(sent_form(nets))[j]) == (FieldView {
                key: slot_key(field_name(j % 3), (j / 3) as nat),
                value: field_text(nets[j / 3], j % 3),
            }),
{
    let pieces = sent_fields(nets);
    assert forall|j: int| 0 <= j < pieces.len() implies !(#[trigger] pieces[j]).contains('&')
        && field_in(pieces[j]) == (FieldView {
        key: slot_key(field_name(j % 3), (j / 3) as nat),
        value: field_text(nets[j / 3], j % 3),
    }) by {
        lemma_keys((j / 3) as nat, j % 3, 0, 0);
        lemma_field_reads_back(
            slot_key(field_name(j % 3), (j / 3) as nat),
            field_text(nets[j / 3], j % 3),
        );
    }
    law_split_joined(pieces, '&');
}

/// What the read form says of one slot.
proof fn lemma_slot_reads_back(nets: Seq<CredView>, i: int)
    requires
        1 <= nets.len() <= MAX_WIFI,
        0 <= i < MAX_WIFI,
        forall|k: int| 0 <= k < nets.len() ==> (#[trigger] nets[k]).ssid.len() > 0,
    ensures
        network_in(fields_in(sent_form(nets)), i as nat) == (if i < nets.len() {
            Some(with_server(nets[i]))
        } else {
            None
        }),
{
    let fields = fields_in(sent_form(nets));
    lemma_sent_fields_read_back(nets);
    assert forall|a: int, j: int|
        0 <= a < 3 && 0 <= j < fields.len() && j != 3 * i + a implies (#[trigger] fields[j]).key
        != #[trigger] slot_key(field_name(a), i as nat) by {
        lemma_keys((j / 3) as nat, j % 3, i as nat, a);
    }
    if i < nets.len() {
        assert forall|a: int| 0 <= a < 3 implies value_of(
            fields,
            #[trigger] slot_key(field_name(a), i as nat),
        ) == Some(field_text(nets[i], a)) by {
            assert(fields[3 * i + a].key == slot_key(field_name(a), i as nat));
            lemma_value_at(fields, slot_key(field_name(a), i as nat), 3 * i + a);
        }
        assert(value_of(fields, slot_key(field_name(0), i as nat)) == Some(nets[i].ssid));
        assert(value_of(fields, slot_key(field_name(1), i as nat)) == Some(nets[i].pass));
        assert(value_of(fields, slot_key(field_name(2), i as nat)) == Some(nets[i].server));
    } else {
        assert(field_name(0) == "ssid"@);
        lemma_value_missing(fields, slot_key(field_name(0), i as nat));
    }
}

/// What the setup page sends for one to five networks with a name each, the device
/// reads back as those networks, in order, with the default server address where
/// none was given.
pub proof fn law_sent_form_reads_back(nets: Seq<CredView>)
    requires
        1 <= nets.len() <= MAX_WIFI,
        forall|k: int| 0 <= k < nets.len() ==> (#[trigger] nets[k]).ssid.len() > 0,
    ensures
        config_in(fields_in(text_in(encode_utf8(sent_form(nets))))) == Some(
            ConfigView {
                wifis: nets.map_values(|w: CredView| with_server(w)),
                volume: config::DEFAULT_VOLUME,
            },
        ),
{
    let form = sent_form(nets);
    encode_utf8_valid_utf8(form);
    encode_utf8_decode_utf8(form);
    let fields = fields_in(form);
    let want = nets.map_values(|w: CredView| with_server(w));
    lemma_slot_reads_back(nets, 0);
    lemma_slot_reads_back(nets, 1);
    lemma_slot_reads_back(nets, 2);
    lemma_slot_reads_back(nets, 3);
    lemma_slot_reads_back(nets, 4);
    reveal_with_fuel(networks_in, 6);
    assert(networks_in(fields, 5) == want);
}

/// What the setup page sends for one to five networks with a name each is read from the
/// request in parts, saved and, at the next boot, loaded again: the device then has those
/// networks, in order, whatever its store held before. All that is asked is that the
/// texts fit and that the body is not past its limit before its last part.
pub proof fn law_setup_survives_reboot(st: Stored, nets: Seq<CredView>, reads: Seq<Seq<u8>>)
    requires
        1 <= nets.len() <= MAX_WIFI,
        forall|k: int|
            0 <= k < nets.len() ==> (#[trigger] nets[k]).ssid.len() > 0 && cred_fits(
                with_server(nets[k]),
            ),
        forall|i: int| 0 <= i < reads.len() ==> (#[trigger] reads[i]).len() > 0,
        reads.len() > 0 ==> reads.drop_last().flatten().len() <= BODY_LIMIT,
        reads.flatten() == encode_utf8(sent_form(nets)),
    ensures
        ({
            let submitted = config_in(
                fields_in(text_in(body_after(Seq::<u8>::empty(), reads))),
            );
            &&& submitted is Some
            &&& submitted->0.wifis == nets.map_values(|w: CredView| with_server(w))
            &&& loaded_config(load_run(written(st, saved_writes(submitted->0)), loader_start()))
                == submitted
        }),
{
    law_body_whole(Seq::<u8>::empty(), reads);
    assert(Seq::<u8>::empty() + reads.flatten() == reads.flatten());
    law_sent_form_reads_back(nets);
    let c = ConfigView {
        wifis: nets.map_values(|w: CredView| with_server(w)),
        volume: config::DEFAULT_VOLUME,
    };
    assert forall|i: int| 0 <= i < c.wifis.len() implies (#[trigger] c.wifis[i]).ssid.len() > 0
        && cred_fits(c.wifis[i]) by {
        assert(c.wifis[i] == with_server(nets[i]));
    }
    law_config_survives(st, c);
}

} // verus!
