//! The setup portal: what its form submits, and what configuration comes of it.

use vstd::prelude::*;
use vstd::utf8::*;

use crate::config;
use crate::numbers::decimal;
use crate::numbers::push_decimal;
use crate::storage::config_view;
use crate::storage::creds;
use crate::storage::key_for;
use crate::storage::slot_key;
use crate::storage::ConfigView;
use crate::storage::CredView;
use crate::storage::StoredConfig;
use crate::storage::WifiCred;
use crate::storage::MAX_WIFI;
use crate::text::before;
use crate::text::behind;
use crate::text::chars_of;
use crate::text::find;
use crate::text::joined;
use crate::text::law_split_joined;
use crate::text::lemma_first_at;
use crate::text::lemma_first_at_is;
use crate::text::piece;
use crate::text::replace;
use crate::text::replaced;
use crate::text::runs;
use crate::text::same;
use crate::text::split;
use crate::text::split_at_each;
use crate::text::string_of;

verus! {

/// The setup page, with marks for the default server address, the default SSID and
/// the number of networks.
pub const PAGE: &'static str = r#"<!DOCTYPE html><html><head><meta charset=utf-8>
<meta name=viewport content="width=device-width,initial-scale=1">
<title>ATOM VoiceS3R setup</title>
<style>
body{font-family:system-ui,sans-serif;max-width:440px;margin:16px auto;padding:0 16px;color:#222}
h2{color:#0a7}
label{display:block;margin:10px 0 3px;font-weight:600;font-size:14px}
input{width:100%;padding:9px;box-sizing:border-box;font-size:16px;border:1px solid #bbb;border-radius:5px}
.wblock{border:1px solid #ddd;border-radius:8px;padding:10px 12px;margin:12px 0;background:#fafafa}
.del{margin-top:8px;background:#c0392b;color:#fff;border:0;border-radius:5px;padding:7px 12px;font-size:14px}
#addbtn{background:#2a6;color:#fff;border:0;border-radius:6px;padding:9px 14px;font-size:15px;margin:4px 0 16px}
.connect{width:100%;padding:15px;font-size:18px;font-weight:700;background:#0a7;color:#fff;border:0;border-radius:8px;margin-top:18px}
#msg{margin-top:14px;font-size:15px;color:#0a7;min-height:20px}
</style></head><body>
<h2>ATOM VoiceS3R setup</h2>
<div id=wifis></div>
<button type=button id=addbtn onclick="addWifi()">+ Add WiFi</button>
<button type=button class=connect onclick="save()">CONNECT</button>
<p id=msg></p>
<script>
var MAX=__MAX__;
var DEF_SRV='__SERVER__';
var DEF_SSID='__SSID__';
var nets=[{ssid:DEF_SSID,pass:'',server:DEF_SRV}];
function esc(s){return (s||'').replace(/"/g,'&quot;');}
function render(){
  var c=document.getElementById('wifis');c.innerHTML='';
  nets.forEach(function(n,i){
    var d=document.createElement('div');d.className='wblock';
    d.innerHTML='<label>WiFi '+(i+1)+' (SSID)</label>'+
      '<input data-i="'+i+'" data-k="ssid" placeholder="network name" value="'+esc(n.ssid)+'">'+
      '<label>Password</label>'+
      '<input data-i="'+i+'" data-k="pass" type=password placeholder="leave empty if open" value="'+esc(n.pass)+'">'+
      '<label>PC server (host:port)</label>'+
      '<input data-i="'+i+'" data-k="server" placeholder="192.168.x.x:9000" value="'+esc(n.server)+'">'+
      (i>0?'<button type=button class=del onclick="delWifi('+i+')">delete</button>':'');
    c.appendChild(d);
  });
  c.querySelectorAll('input').forEach(function(inp){
    inp.oninput=function(){nets[inp.dataset.i][inp.dataset.k]=inp.value;};
  });
  document.getElementById('addbtn').style.display=(nets.length>=MAX)?'none':'';
}
function addWifi(){if(nets.length<MAX){nets.push({ssid:'',pass:'',server:DEF_SRV});render();}}
function delWifi(i){if(i>0){nets.splice(i,1);render();}}
function save(){
  var body=new URLSearchParams();var count=0;
  nets.forEach(function(n){
    if((n.ssid||'').trim()!==''){
      body.append('ssid'+count,n.ssid);
      body.append('pass'+count,n.pass);
      body.append('srv'+count,n.server||DEF_SRV);
      count++;
    }
  });
  if(count===0){document.getElementById('msg').textContent='Add at least one WiFi network.';return;}
  document.getElementById('msg').textContent='S3R is turning off this setup network and will try to connect to your WiFi list...';
  fetch('/connect',{method:'POST',headers:{'Content-Type':'application/x-www-form-urlencoded'},body:body.toString()})
    .then(function(r){return r.text();})
    .then(function(t){document.getElementById('msg').textContent=t;})
    .catch(function(){document.getElementById('msg').textContent='Saved. S3R is turning off the setup network and trying your WiFi list.';});
}
render();
</script></body></html>"#;

/// What a submitted form is answered.
pub const DONE: &'static str =
    "Saved. S3R is turning off the setup network and connecting to your WiFi list. You can close this page.";

// ---------------------------------------------------------------------------
// Text in bytes
// ---------------------------------------------------------------------------
/// What `String::from_utf8_lossy` makes of bytes that are no UTF-8.
pub uninterp spec fn repaired_text(bytes: Seq<u8>) -> Seq<char>;

/// The text that bytes hold: what they encode, or, where they are no UTF-8, what
/// is left of it once the broken sequences are replaced.
pub open spec fn text_in(bytes: Seq<u8>) -> Seq<char> {
    if valid_utf8(bytes) {
        decode_utf8(bytes)
    } else {
        repaired_text(bytes)
    }
}

/// `String::from_utf8_lossy` decodes UTF-8. In bytes that are no UTF-8 it replaces
/// the sequences that are broken by U+FFFD, so that there is at least one of these;
/// how it cuts them is not stated beyond that the outcome depends on the bytes alone.
#[verifier::external_body]
fn lossy(bytes: &[u8]) -> (r: String)
    ensures
        valid_utf8(bytes@) ==> r@ == decode_utf8(bytes@),
        !valid_utf8(bytes@) ==> r@ == repaired_text(bytes@),
        !valid_utf8(bytes@) ==> r@.contains('\u{FFFD}'),
{
    String::from_utf8_lossy(bytes).into_owned()
}

/// The text that the body of a request holds. Only where there are no bytes is it
/// empty.
pub fn text_of(bytes: &[u8]) -> (r: String)
    ensures
        r@ == text_in(bytes@),
        !valid_utf8(bytes@) ==> r@.contains('\u{FFFD}'),
        r@.len() == 0 <==> bytes@.len() == 0,
{
    lossy(bytes)
}

// ---------------------------------------------------------------------------
// Percent-decoding
// ---------------------------------------------------------------------------
/// The value of a hexadecimal digit, if the byte is one.
pub open spec fn hex_digit(b: u8) -> Option<u8> {
    if '0' as u8 <= b <= '9' as u8 {
        Some((b - '0' as u8) as u8)
    } else if 'a' as u8 <= b <= 'f' as u8 {
        Some((b - 'a' as u8 + 10) as u8)
    } else if 'A' as u8 <= b <= 'F' as u8 {
        Some((b - 'A' as u8 + 10) as u8)
    } else {
        None
    }
}

/// The value of a hexadecimal digit.
pub fn hex_val(b: u8) -> (r: Option<u8>)
    ensures
        r == hex_digit(b),
        r is Some ==> r->0 < 16,
{
    if 48 <= b && b <= 57 {
        Some(b - 48)
    } else if 97 <= b && b <= 102 {
        Some(b - 97 + 10)
    } else if 65 <= b && b <= 70 {
        Some(b - 65 + 10)
    } else {
        None
    }
}

/// Whether `b` starts with a percent sign and two hexadecimal digits.
pub open spec fn escaped(b: Seq<u8>) -> bool {
    b.len() >= 3 && b[0] == '%' as u8 && hex_digit(b[1]) is Some && hex_digit(b[2]) is Some
}

/// The bytes of a form value: a plus sign stands for a space, a percent sign with
/// two hexadecimal digits for the byte that they name, every other byte for itself.
pub open spec fn percent_decoded(b: Seq<u8>) -> Seq<u8>
    decreases b.len(),
{
    if b.len() == 0 {
        Seq::<u8>::empty()
    } else if b[0] == '+' as u8 {
        seq![' ' as u8] + percent_decoded(b.skip(1))
    } else if escaped(b) {
        seq![(hex_digit(b[1])->0 * 16 + hex_digit(b[2])->0) as u8] + percent_decoded(b.skip(3))
    } else {
        seq![b[0]] + percent_decoded(b.skip(1))
    }
}

/// Decodes the bytes of a form value.
pub fn percent_decode(bytes: &[u8]) -> (r: Vec<u8>)
    ensures
        r@ == percent_decoded(bytes@),
{
    let mut out: Vec<u8> = Vec::new();
    let mut i: usize = 0;
    assert(bytes@.skip(0) == bytes@);
    while i < bytes.len()
        invariant
            i <= bytes@.len(),
            out@ + percent_decoded(bytes@.skip(i as int)) == percent_decoded(bytes@),
        decreases bytes@.len() - i,
    {
        let ghost rest = bytes@.skip(i as int);
        let ghost done = out@;
        let b: u8 = bytes[i];
        let mut taken: usize = 1;
        if b == 43 {
            out.push(32);
        } else if b == 37 && bytes.len() - i > 2 {
            match (hex_val(bytes[i + 1]), hex_val(bytes[i + 2])) {
                (Some(h), Some(l)) => {
                    assert(h << 4 | l == h * 16 + l) by (bit_vector)
                        requires
                            h < 16,
                            l < 16,
                    ;
                    out.push(h << 4 | l);
                    taken = 3;
                },
                _ => {
                    out.push(37);
                },
            }
        } else {
            out.push(b);
        }
        assert(rest.skip(taken as int) == bytes@.skip(i + taken));
        assert(out@ + percent_decoded(rest.skip(taken as int)) == done + percent_decoded(rest));
        i += taken;
    }
    assert(bytes@.skip(i as int) == Seq::<u8>::empty());
    out
}

/// The text of a form value.
pub open spec fn decoded(value: Seq<char>) -> Seq<char> {
    text_in(percent_decoded(encode_utf8(value)))
}

/// Decodes a form value (`+` stands for a space, `%XX` for a byte). Only the empty value
/// gives the empty text.
pub fn url_decode(input: &str) -> (r: String)
    ensures
        r@ == decoded(input@),
        !valid_utf8(percent_decoded(encode_utf8(input@))) ==> r@.contains('\u{FFFD}'),
        r@.len() == 0 <==> input@.len() == 0,
{
    proof {
        encode_utf8_decode_utf8(input@);
    }
    let bytes = percent_decode(input.as_bytes());
    text_of(&bytes)
}

/// A text that is encoded as UTF-8 is read back as it was.
pub proof fn law_text_reads_back(t: Seq<char>)
    ensures
        text_in(encode_utf8(t)) == t,
{
    encode_utf8_valid_utf8(t);
    encode_utf8_decode_utf8(t);
}

/// The hexadecimal digits, in either case, and their values; no other byte is one.
pub proof fn law_hex_digit(b: u8, d: u8)
    ensures
        hex_digit(b) == Some(d) <==> d < 16 && (if d < 10 {
            b == 0x30 + d
        } else {
            b == 0x41 + (d - 10) || b == 0x61 + (d - 10)
        }),
{
}

/// Decoding takes a value from the left: a byte that is neither a plus nor a percent sign
/// stands for itself, a percent sign with two hexadecimal digits, in either case, for
/// sixteen times the first and the second, and a percent sign without them for itself,
/// with what follows it decoded as it stands.
pub proof fn law_percent_decoded(b: u8, rest: Seq<u8>)
    ensures
        percent_decoded(Seq::<u8>::empty()).len() == 0,
        b != 0x25 && b != 0x2b ==> percent_decoded(seq![b] + rest) == seq![b] + percent_decoded(rest),
        percent_decoded(seq![0x2bu8] + rest) == seq![0x20u8] + percent_decoded(rest),
        rest.len() >= 2 && hex_digit(rest[0]) is Some && hex_digit(rest[1]) is Some
            ==> percent_decoded(seq![0x25u8] + rest).len() > 0 && percent_decoded(
            seq![0x25u8] + rest,
        )[0] == 16 * hex_digit(rest[0])->0 + hex_digit(rest[1])->0 && percent_decoded(
            seq![0x25u8] + rest,
        ).skip(1) == percent_decoded(rest.skip(2)),
        rest.len() < 2 || hex_digit(rest[0]) is None || hex_digit(rest[1]) is None
            ==> percent_decoded(seq![0x25u8] + rest) == seq![0x25u8] + percent_decoded(rest),
{
    assert((seq![b] + rest).skip(1) == rest);
    assert((seq![0x2bu8] + rest).skip(1) == rest);
    let e = seq![0x25u8] + rest;
    assert(e.skip(1) == rest);
    if rest.len() >= 2 {
        assert(e[1] == rest[0] && e[2] == rest[1]);
        assert(e.skip(3) == rest.skip(2));
        if escaped(e) {
            let tail = percent_decoded(rest.skip(2));
            assert((seq![(hex_digit(e[1])->0 * 16 + hex_digit(e[2])->0) as u8] + tail).skip(1)
                == tail);
        }
    }
}

/// Bytes on the two sides of a plus sign are decoded apart, with a space between them,
/// also where the left side ends in an unfinished escape.
pub proof fn law_percent_decoded_plus(a: Seq<u8>, b: Seq<u8>)
    ensures
        percent_decoded(a.push('+' as u8) + b) == percent_decoded(a).push(' ' as u8)
            + percent_decoded(b),
    decreases a.len(),
{
    let whole = a.push('+' as u8) + b;
    if a.len() == 0 {
        assert(whole.skip(1) == b);
    } else {
        let n: int = if a[0] != '+' as u8 && escaped(a) {
            3
        } else {
            1
        };
        let rest = a.skip(n);
        law_percent_decoded_plus(rest, b);
        assert(whole.skip(n) == rest.push('+' as u8) + b);
        assert(whole[0] == a[0]);
        assert(escaped(whole) == escaped(a)) by {
            if whole.len() >= 3 {
                if a.len() == 1 {
                    assert(whole[1] == '+' as u8);
                } else if a.len() == 2 {
                    assert(whole[2] == '+' as u8);
                } else {
                    assert(whole[1] == a[1] && whole[2] == a[2]);
                }
            }
        }
    }
}

/// A form value with a plus sign decodes to the text of the bytes that its two sides
/// decode to, with a space between them. Where both are UTF-8, that is the text of the
/// one side, a space and the text of the other.
pub proof fn law_decoded_plus(a: Seq<char>, b: Seq<char>)
    ensures
        decoded(a.push('+') + b) == text_in(
            percent_decoded(encode_utf8(a)).push(' ' as u8) + percent_decoded(encode_utf8(b)),
        ),
        valid_utf8(percent_decoded(encode_utf8(a))) && valid_utf8(percent_decoded(encode_utf8(b)))
            ==> decoded(a.push('+') + b) == decoded(a).push(' ') + decoded(b),
{
    lemma_encode_around(a, '+', b);
    law_percent_decoded_plus(encode_utf8(a), encode_utf8(b));
    let x = percent_decoded(encode_utf8(a));
    let y = percent_decoded(encode_utf8(b));
    if valid_utf8(x) && valid_utf8(y) {
        let s = decode_utf8(x);
        let t = decode_utf8(y);
        decode_utf8_encode_utf8(x);
        decode_utf8_encode_utf8(y);
        lemma_encode_around(s, ' ', t);
        encode_utf8_valid_utf8(s.push(' ') + t);
        encode_utf8_decode_utf8(s.push(' ') + t);
    }
}

/// Text around an ASCII character is encoded around its byte.
proof fn lemma_encode_around(a: Seq<char>, c: char, b: Seq<char>)
    requires
        c as u32 <= 0x7f,
    ensures
        encode_utf8(a.push(c) + b) == encode_utf8(a).push(c as u8) + encode_utf8(b),
    decreases a.len(),
{
    let whole = a.push(c) + b;
    if a.len() == 0 {
        assert(whole.drop_first() == b);
        is_ascii_chars_encode_utf8(seq![c]);
        assert(seq![c].drop_first() == Seq::<char>::empty());
        assert(encode_utf8(seq![c]) == encode_scalar(c as u32) + encode_utf8(Seq::<char>::empty()));
        assert(encode_scalar(c as u32) == seq![c as u8]);
    } else {
        lemma_encode_around(a.drop_first(), c, b);
        assert(whole.drop_first() == a.drop_first().push(c) + b);
    }
}

// ---------------------------------------------------------------------------
// The submitted form
// ---------------------------------------------------------------------------
/// A field of a submitted form.
pub struct Field {
    pub key: String,
    pub value: String,
}

/// The texts of a field.
#[verifier::ext_equal]
pub struct FieldView {
    pub key: Seq<char>,
    pub value: Seq<char>,
}

impl View for Field {
    type V = FieldView;

    open spec fn view(&self) -> FieldView {
        FieldView { key: self.key@, value: self.value@ }
    }
}

/// The texts of a list of fields.
pub open spec fn fields_view(v: Seq<Field>) -> Seq<FieldView> {
    Seq::new(v.len(), |i: int| v[i]@)
}

/// The texts of a list of fields are the key and the value of each, in order.
pub proof fn law_fields_contents(v: Seq<Field>, i: int)
    ensures
        fields_view(v).len() == v.len(),
        0 <= i < v.len() ==> fields_view(v)[i].key == v[i].key@ && fields_view(v)[i].value
            == v[i].value@,
{
}

/// What stands behind the first equals sign of a piece of the form (nothing where
/// there is none).
pub open spec fn raw_value(piece: Seq<char>) -> Seq<char> {
    match behind(piece, '=') {
        Some(v) => v,
        None => Seq::<char>::empty(),
    }
}

/// The field that a piece of the form holds: its key stands before the first
/// equals sign, its value, decoded, behind it (empty where there is none).
pub open spec fn field_in(piece: Seq<char>) -> FieldView {
    FieldView {
        key: before(piece, '='),
        value: decoded(raw_value(piece)),
    }
}

/// The fields of a form: one for each piece between ampersands.
pub open spec fn fields_in(form: Seq<char>) -> Seq<FieldView> {
    let pieces = split(form, '&');
    Seq::new(pieces.len(), |i: int| field_in(pieces[i]))
}

/// No value in the form is lost in decoding: only one that is written empty reads
/// empty.
pub open spec fn values_kept(pieces: Seq<Seq<char>>) -> bool {
    forall|j: int|
        0 <= j < pieces.len() ==> (field_in(#[trigger] pieces[j]).value.len() == 0 <==> raw_value(
            pieces[j],
        ).len() == 0)
}

/// A piece `key=value` is the field with that key and the decoded value, whatever else the
/// value holds; a piece without an equals sign is a key with an empty value.
pub proof fn law_field_in(key: Seq<char>, value: Seq<char>)
    requires
        !key.contains('='),
    ensures
        field_in(key.push('=') + value) == (FieldView { key, value: decoded(value) }),
        field_in(key).key == key,
        field_in(key).value.len() == 0,
{
    let s = key.push('=') + value;
    assert forall|j: int| 0 <= j < key.len() implies key[j] != '=' by {
        assert(key.contains(key[j]));
    }
    assert(s[key.len() as int] == '=');
    lemma_first_at_is(s, '=', key.len() as int);
    lemma_first_at(s, '=');
    lemma_first_at_is(key, '=', key.len() as int);
    assert(s.take(key.len() as int) == key);
    assert(s.skip(key.len() as int + 1) == value);
    assert(key.take(key.len() as int) == key);
}

/// The fields of a form are those of the pieces that ampersands join, in order.
pub proof fn law_fields_in(pieces: Seq<Seq<char>>, i: int)
    requires
        pieces.len() >= 1,
        forall|j: int| 0 <= j < pieces.len() ==> !(#[trigger] pieces[j]).contains('&'),
    ensures
        fields_in(joined(pieces, '&')).len() == pieces.len(),
        0 <= i < pieces.len() ==> fields_in(joined(pieces, '&'))[i] == field_in(pieces[i]),
{
    law_split_joined(pieces, '&');
}

/// Reads the fields of a form.
pub fn form_fields(form: &str) -> (r: Vec<Field>)
    ensures
        fields_view(r@) == fields_in(form@),
        forall|j: int|
            0 <= j < r@.len() ==> ((#[trigger] r@[j])@.value.len() == 0 <==> raw_value(
                split(form@, '&')[j],
            ).len() == 0),
{
    let chars = chars_of(form);
    let pieces = split_at_each(&chars, '&');
    let mut out: Vec<Field> = Vec::new();
    let mut i: usize = 0;
    while i < pieces.len()
        invariant
            i <= pieces@.len(),
            runs(pieces@) == split(form@, '&'),
            out@.len() == i,
            forall|j: int| 0 <= j < i ==> (#[trigger] out@[j])@ == field_in(pieces@[j]@),
            forall|j: int|
                0 <= j < i ==> ((#[trigger] out@[j])@.value.len() == 0 <==> raw_value(
                    pieces@[j]@,
                ).len() == 0),
        decreases pieces@.len() - i,
    {
        let p: &Vec<char> = &pieces[i];
        let at: usize = find(p, '=');
        proof {
            lemma_first_at(p@, '=');
        }
        let key = string_of(&piece(p, 0, at));
        let raw = if at < p.len() {
            piece(p, at + 1, p.len())
        } else {
            Vec::new()
        };
        assert(key@ == before(p@, '='));
        assert(raw@ == raw_value(p@));
        let value = url_decode(string_of(&raw).as_str());
        out.push(Field { key, value });
        i += 1;
    }
    assert forall|j: int| 0 <= j < out@.len() implies (#[trigger] fields_view(out@)[j])
        == fields_in(form@)[j] by {
        assert(runs(pieces@)[j] == pieces@[j]@);
        assert(out@[j]@ == field_in(pieces@[j]@));
    }
    assert(runs(pieces@).len() == pieces@.len());
    assert(fields_view(out@) == fields_in(form@));
    assert forall|j: int| 0 <= j < out@.len() implies ((#[trigger] out@[j])@.value.len() == 0
        <==> raw_value(split(form@, '&')[j]).len() == 0) by {
        assert(runs(pieces@)[j] == pieces@[j]@);
    }
    out
}

/// The value of the first field with the given key.
pub open spec fn value_of(fields: Seq<FieldView>, key: Seq<char>) -> Option<Seq<char>>
    decreases fields.len(),
{
    if fields.len() == 0 {
        None
    } else if fields[0].key == key {
        Some(fields[0].value)
    } else {
        value_of(fields.skip(1), key)
    }
}

/// The value of a key is that of the first field that has it, and there is none where no
/// field has it.
pub proof fn law_value_of(fields: Seq<FieldView>, key: Seq<char>, j: int)
    requires
        0 <= j <= fields.len(),
        forall|i: int| 0 <= i < j ==> (#[trigger] fields[i]).key != key,
    ensures
        j < fields.len() && fields[j].key == key ==> value_of(fields, key) == Some(fields[j].value),
        j == fields.len() ==> value_of(fields, key) is None,
    decreases j,
{
    if j > 0 {
        assert(fields[0].key != key);
        let rest = fields.skip(1);
        assert forall|i: int| 0 <= i < j - 1 implies (#[trigger] rest[i]).key != key by {
            assert(rest[i] == fields[i + 1]);
        }
        law_value_of(rest, key, j - 1);
    }
}

/// Finds the value of the first field with the given key.
pub fn field_value(fields: &[Field], key: &str) -> (r: Option<String>)
    ensures
        value_of(fields_view(fields@), key@) == (match r {
            Some(v) => Some(v@),
            None => None,
        }),
{
    let wanted = chars_of(key);
    let ghost all = fields_view(fields@);
    let mut i: usize = 0;
    assert(all.skip(0) == all);
    while i < fields.len()
        invariant
            wanted@ == key@,
            all == fields_view(fields@),
            i <= fields@.len(),
            value_of(all.skip(i as int), key@) == value_of(all, key@),
        decreases fields@.len() - i,
    {
        let ghost rest = all.skip(i as int);
        let here = chars_of(fields[i].key.as_str());
        assert(rest[0] == fields@[i as int]@);
        if same(&here, &wanted) {
            return Some(fields[i].value.clone());
        }
        i += 1;
        assert(all.skip(i as int) == rest.skip(1));
    }
    assert(all.skip(i as int).len() == 0);
    None
}

/// The network that the fields describe in slot `i`: there is one where its SSID is
/// not empty. A missing password is empty; a missing or empty server address is the
/// default one.
pub open spec fn network_in(fields: Seq<FieldView>, i: nat) -> Option<CredView> {
    match value_of(fields, slot_key("ssid"@, i)) {
        Some(ssid) => if ssid.len() > 0 {
            Some(
                CredView {
                    ssid,
                    pass: match value_of(fields, slot_key("pass"@, i)) {
                        Some(p) => p,
                        None => Seq::<char>::empty(),
                    },
                    server: match value_of(fields, slot_key("srv"@, i)) {
                        Some(s) => if s.len() > 0 {
                            s
                        } else {
                            config::DEFAULT_SERVER@
                        },
                        None => config::DEFAULT_SERVER@,
                    },
                },
            )
        } else {
            None
        },
        None => None,
    }
}

/// The networks that the fields describe in the slots below `n`, in order.
pub open spec fn networks_in(fields: Seq<FieldView>, n: nat) -> Seq<CredView>
    decreases n,
{
    if n == 0 {
        Seq::<CredView>::empty()
    } else {
        let rest = networks_in(fields, (n - 1) as nat);
        match network_in(fields, (n - 1) as nat) {
            Some(w) => rest.push(w),
            None => rest,
        }
    }
}

/// The configuration that the fields describe, if they name a network at all.
pub open spec fn config_in(fields: Seq<FieldView>) -> Option<ConfigView> {
    let wifis = networks_in(fields, MAX_WIFI as nat);
    if wifis.len() > 0 {
        Some(ConfigView { wifis, volume: config::DEFAULT_VOLUME })
    } else {
        None
    }
}

/// The network that the fields describe in slot `i`.
fn form_network(fields: &[Field], i: usize) -> (r: Option<WifiCred>)
    ensures
        network_in(fields_view(fields@), i as nat) == (match r {
            Some(w) => Some(w@),
            None => None,
        }),
{
    match field_value(fields, key_for("ssid", i).as_str()) {
        Some(ssid) => {
            if ssid.as_str().is_empty() {
                return None;
            }
            let pass = match field_value(fields, key_for("pass", i).as_str()) {
                Some(p) => p,
                None => String::new(),
            };
            let server = match field_value(fields, key_for("srv", i).as_str()) {
                Some(s) => if s.as_str().is_empty() {
                    config::DEFAULT_SERVER.to_string()
                } else {
                    s
                },
                None => config::DEFAULT_SERVER.to_string(),
            };
            Some(WifiCred { ssid, pass, server })
        },
        None => None,
    }
}

/// Makes a configuration of the fields of a form.
pub fn config_from_fields(fields: &[Field]) -> (r: Option<StoredConfig>)
    ensures
        config_view(r) == config_in(fields_view(fields@)),
{
    let mut wifis: Vec<WifiCred> = Vec::new();
    let mut i: usize = 0;
    assert(creds(wifis@) == networks_in(fields_view(fields@), 0));
    while i < MAX_WIFI
        invariant
            i <= MAX_WIFI,
            creds(wifis@) == networks_in(fields_view(fields@), i as nat),
        decreases MAX_WIFI - i,
    {
        let ghost prev = wifis@;
        match form_network(fields, i) {
            Some(w) => {
                wifis.push(w);
                assert(creds(wifis@) == creds(prev).push(w@));
            },
            None => {},
        }
        i += 1;
    }
    assert(creds(wifis@).len() == wifis@.len());
    if wifis.len() == 0 {
        return None;
    }
    Some(StoredConfig { wifis, volume: config::DEFAULT_VOLUME })
}

/// Slot by slot: a slot without an SSID, or with an empty one, adds no network; any other
/// adds one behind the others, with its SSID, its password or an empty one, and its server
/// address, or the default one where it has none or an empty one.
pub proof fn law_form_slot(fields: Seq<FieldView>, n: nat)
    ensures
        ({
            let ssid = value_of(fields, slot_key("ssid"@, n));
            let pass = value_of(fields, slot_key("pass"@, n));
            let server = value_of(fields, slot_key("srv"@, n));
            let so_far = networks_in(fields, n);
            let more = networks_in(fields, n + 1);
            &&& networks_in(fields, 0).len() == 0
            &&& ssid is None || ssid->0.len() == 0 ==> more == so_far
            &&& ssid is Some && ssid->0.len() > 0 ==> {
                &&& more.len() == so_far.len() + 1
                &&& more.drop_last() == so_far
                &&& more.last().ssid == ssid->0
                &&& pass is Some ==> more.last().pass == pass->0
                &&& pass is None ==> more.last().pass.len() == 0
                &&& server is Some && server->0.len() > 0 ==> more.last().server == server->0
                &&& server is None || server->0.len() == 0 ==> more.last().server
                    == "192.168.8.100:9000"@
            }
        }),
{
    let so_far = networks_in(fields, n);
    assert(networks_in(fields, (n + 1 - 1) as nat) == so_far);
    if network_in(fields, n) is Some {
        assert(so_far.push(network_in(fields, n)->0).drop_last() == so_far);
    }
}

/// The configuration that a form describes has the networks of its first five slots and
/// the volume 75; there is none where these slots name no network.
pub proof fn law_form_config(fields: Seq<FieldView>)
    ensures
        config_in(fields) is None <==> networks_in(fields, 5).len() == 0,
        config_in(fields) matches Some(c) ==> c.wifis == networks_in(fields, 5) && c.volume == 75,
{
}

/// What the first piece with the given key has as its value, as it is written.
pub open spec fn written_value(pieces: Seq<Seq<char>>, key: Seq<char>) -> Option<Seq<char>>
    decreases pieces.len(),
{
    if pieces.len() == 0 {
        None
    } else if before(pieces[0], '=') == key {
        Some(raw_value(pieces[0]))
    } else {
        written_value(pieces.skip(1), key)
    }
}

/// The form gives slot `i` an SSID: its value is not written empty.
pub open spec fn slot_named(pieces: Seq<Seq<char>>, i: int) -> bool {
    written_value(pieces, slot_key("ssid"@, i as nat)) matches Some(v) && v.len() > 0
}

/// The form names a network: it gives an SSID to one of the slots.
pub open spec fn names_network(pieces: Seq<Seq<char>>) -> bool {
    exists|i: int| 0 <= i < MAX_WIFI && #[trigger] slot_named(pieces, i)
}

/// A key reads as empty, or as missing, where it is written so.
proof fn lemma_value_kept(pieces: Seq<Seq<char>>, fields: Seq<FieldView>, key: Seq<char>)
    requires
        fields.len() == pieces.len(),
        forall|j: int| 0 <= j < pieces.len() ==> (#[trigger] fields[j]) == field_in(pieces[j]),
        values_kept(pieces),
    ensures
        value_of(fields, key) is Some <==> written_value(pieces, key) is Some,
        value_of(fields, key) is Some ==> (value_of(fields, key)->0.len() == 0 <==> written_value(
            pieces,
            key,
        )->0.len() == 0),
    decreases pieces.len(),
{
    if pieces.len() > 0 {
        assert(fields[0] == field_in(pieces[0]));
        let rest = pieces.skip(1);
        let others = fields.skip(1);
        assert forall|j: int| 0 <= j < rest.len() implies (#[trigger] others[j]) == field_in(
            rest[j],
        ) by {
            assert(fields[j + 1] == field_in(pieces[j + 1]));
        }
        assert forall|j: int| 0 <= j < rest.len() implies (field_in(
            #[trigger] rest[j],
        ).value.len() == 0 <==> raw_value(rest[j]).len() == 0) by {
            assert(rest[j] == pieces[j + 1]);
        }
        lemma_value_kept(rest, others, key);
    }
}

/// The slots that get an SSID are the ones that give networks.
proof fn lemma_named_slots(pieces: Seq<Seq<char>>, fields: Seq<FieldView>, n: nat)
    requires
        fields.len() == pieces.len(),
        forall|j: int| 0 <= j < pieces.len() ==> (#[trigger] fields[j]) == field_in(pieces[j]),
        values_kept(pieces),
    ensures
        networks_in(fields, n).len() > 0 <==> exists|i: int|
            0 <= i < n && #[trigger] slot_named(pieces, i),
    decreases n,
{
    if n > 0 {
        let last = (n - 1) as nat;
        lemma_named_slots(pieces, fields, last);
        lemma_value_kept(pieces, fields, slot_key("ssid"@, last));
        assert(network_in(fields, last) is Some <==> slot_named(pieces, last as int));
        if networks_in(fields, last).len() > 0 {
            let i = choose|i: int| 0 <= i < last && #[trigger] slot_named(pieces, i);
            assert(0 <= i < n && slot_named(pieces, i));
        }
    }
}

/// Reads the body of a submitted form (`application/x-www-form-urlencoded`). There is a
/// configuration where, and only where, the form names a network.
pub fn parse_form(body: &[u8]) -> (r: Option<StoredConfig>)
    ensures
        config_view(r) == config_in(fields_in(text_in(body@))),
        r is Some <==> names_network(split(text_in(body@), '&')),
{
    let form = text_of(body);
    let fields = form_fields(form.as_str());
    proof {
        let pieces = split(form@, '&');
        let all = fields_in(form@);
        assert(all == fields_view(fields@));
        assert forall|j: int| 0 <= j < pieces.len() implies (field_in(
            #[trigger] pieces[j],
        ).value.len() == 0 <==> raw_value(pieces[j]).len() == 0) by {
            assert(all[j] == fields@[j]@);
        }
        lemma_named_slots(pieces, all, MAX_WIFI as nat);
    }
    config_from_fields(&fields)
}

/// A form is read into one to five networks, each with a name and a server address,
/// at the default volume.
pub proof fn law_config_in(fields: Seq<FieldView>)
    ensures
        config_in(fields) matches Some(c) ==> {
            &&& 1 <= c.wifis.len() <= MAX_WIFI
            &&& forall|i: int|
                0 <= i < c.wifis.len() ==> (#[trigger] c.wifis[i]).ssid.len() > 0
                    && c.wifis[i].server.len() > 0
            &&& c.volume == config::DEFAULT_VOLUME
        },
{
    lemma_networks_in(fields, MAX_WIFI as nat);
}

proof fn lemma_networks_in(fields: Seq<FieldView>, n: nat)
    ensures
        networks_in(fields, n).len() <= n,
        forall|i: int|
            0 <= i < networks_in(fields, n).len() ==> (#[trigger] networks_in(
                fields,
                n,
            )[i]).ssid.len() > 0 && networks_in(fields, n)[i].server.len() > 0,
    decreases n,
{
    reveal_strlit("192.168.8.100:9000");
    if n > 0 {
        lemma_networks_in(fields, (n - 1) as nat);
    }
}

// ---------------------------------------------------------------------------
// The portal
// ---------------------------------------------------------------------------
/// A body that has grown past this many bytes takes no more.
pub const BODY_LIMIT: usize = 4096;

/// How many bytes of a body are read at a time.
pub const READ_BYTES: usize = 256;

/// The body that a run of reads gives, on top of what was got before: reading stops
/// at an empty read, and at the first read for which the body is past the limit.
pub open spec fn body_after(got: Seq<u8>, reads: Seq<Seq<u8>>) -> Seq<u8>
    decreases reads.len(),
{
    if reads.len() == 0 || reads[0].len() == 0 || got.len() > BODY_LIMIT {
        got
    } else {
        body_after(got + reads[0], reads.skip(1))
    }
}

/// Takes what one read of a body gave; tells whether there is more to read.
pub fn take_read(body: &mut Vec<u8>, read: &[u8]) -> (more: bool)
    ensures
        more == (read@.len() > 0 && old(body)@.len() <= BODY_LIMIT),
        final(body)@ == body_after(old(body)@, seq![read@]),
{
    if read.len() == 0 || body.len() > BODY_LIMIT {
        return false;
    }
    let ghost before = body@;
    let mut i: usize = 0;
    while i < read.len()
        invariant
            i <= read@.len(),
            body@ == before + read@.take(i as int),
        decreases read@.len() - i,
    {
        body.push(read[i]);
        i += 1;
        assert(read@.take(i as int) == read@.take(i - 1).push(read@[i - 1]));
    }
    assert(read@.take(i as int) == read@);
    assert(body_after(before + read@, seq![read@].skip(1)) == before + read@);
    true
}

/// Reading a body, read by read: an empty read ends it, so does a body that is past 4096
/// bytes, and any other read, of 256 bytes at most, is added to it as a whole.
pub proof fn law_body_after(got: Seq<u8>, read: Seq<u8>, reads: Seq<Seq<u8>>)
    ensures
        body_after(got, Seq::<Seq<u8>>::empty()) == got,
        read.len() == 0 ==> body_after(got, seq![read] + reads) == got,
        got.len() >= 4097 ==> body_after(got, seq![read] + reads) == got,
        read.len() > 0 && got.len() <= 4096 ==> body_after(got, seq![read] + reads) == body_after(
            got + read,
            reads,
        ),
        READ_BYTES == 256,
{
    assert((seq![read] + reads).skip(1) == reads);
}

/// Reads of at most `READ_BYTES` bytes never make a body longer than the limit by
/// more than one read.
pub proof fn law_body_bounded(got: Seq<u8>, reads: Seq<Seq<u8>>)
    requires
        got.len() <= BODY_LIMIT + READ_BYTES,
        forall|i: int| 0 <= i < reads.len() ==> (#[trigger] reads[i]).len() <= READ_BYTES,
    ensures
        body_after(got, reads).len() <= BODY_LIMIT + READ_BYTES,
    decreases reads.len(),
{
    if reads.len() == 0 || reads[0].len() == 0 || got.len() > BODY_LIMIT {
    } else {
        let rest = reads.skip(1);
        assert forall|i: int| 0 <= i < rest.len() implies (#[trigger] rest[i]).len()
            <= READ_BYTES by {
            assert(rest[i] == reads[i + 1]);
        }
        law_body_bounded(got + reads[0], rest);
    }
}

/// A body that is not past the limit before its last read is read whole.
pub proof fn law_body_whole(got: Seq<u8>, reads: Seq<Seq<u8>>)
    requires
        reads.len() > 0 ==> got.len() + reads.drop_last().flatten().len() <= BODY_LIMIT,
        forall|i: int| 0 <= i < reads.len() ==> (#[trigger] reads[i]).len() > 0,
    ensures
        body_after(got, reads) == got + reads.flatten(),
    decreases reads.len(),
{
    if reads.len() > 0 {
        let rest = reads.skip(1);
        assert(reads.drop_first() == rest);
        assert forall|i: int| 0 <= i < rest.len() implies (#[trigger] rest[i]).len() > 0 by {
            assert(rest[i] == reads[i + 1]);
        }
        assert(reads[0].len() > 0);
        if rest.len() > 0 {
            let init = reads.drop_last();
            assert(init.drop_first() == rest.drop_last());
            assert(init.flatten() == reads[0] + rest.drop_last().flatten());
        }
        law_body_whole(got + reads[0], rest);
        assert(got + reads[0] + rest.flatten() == got + reads.flatten());
    } else {
        assert(got + reads.flatten() == got);
    }
}

/// The page that the portal serves.
pub open spec fn page_text(server: Seq<char>, ssid: Seq<char>, networks: nat) -> Seq<char> {
    replaced(
        replaced(replaced(PAGE@, "__SERVER__"@, server), "__SSID__"@, ssid),
        "__MAX__"@,
        decimal(networks),
    )
}

/// Fills the defaults into the setup page.
pub fn setup_page() -> (r: String)
    ensures
        r@ == page_text(config::DEFAULT_SERVER@, config::DEFAULT_SSID@, MAX_WIFI as nat),
{
    proof {
        reveal_strlit("__SERVER__");
        reveal_strlit("__SSID__");
        reveal_strlit("__MAX__");
    }
    let mut max = String::new();
    push_decimal(&mut max, MAX_WIFI as u64);
    assert(max@ == decimal(MAX_WIFI as nat));
    let page = replace(
        &chars_of(PAGE),
        &chars_of("__SERVER__"),
        &chars_of(config::DEFAULT_SERVER),
    );
    let page = replace(&page, &chars_of("__SSID__"), &chars_of(config::DEFAULT_SSID));
    let page = replace(&page, &chars_of("__MAX__"), &chars_of(max.as_str()));
    string_of(&page)
}

/// The setup portal: it holds the configuration that was submitted until it is
/// picked up.
pub struct Portal {
    pub submitted: Option<StoredConfig>,
}

impl Portal {
    /// A portal to which nothing was submitted.
    pub fn new() -> (r: Portal)
        ensures
            r.submitted is None,
    {
        Portal { submitted: None }
    }

    /// Takes a submitted form, which is answered by `DONE`. Once its sender was
    /// answered, a form that names a network takes the place of what was submitted
    /// before; any other form changes nothing.
    pub fn submit(&mut self, body: &[u8], answered: bool)
        ensures
            answered && config_in(fields_in(text_in(body@))) is Some ==> config_view(
                final(self).submitted,
            ) == config_in(fields_in(text_in(body@))),
            !answered || config_in(fields_in(text_in(body@))) is None ==> final(self).submitted
                == old(self).submitted,
            answered && names_network(split(text_in(body@), '&')) ==> final(self).submitted is Some,
            !names_network(split(text_in(body@), '&')) ==> final(self).submitted == old(
                self,
            ).submitted,
    {
        if answered {
            match parse_form(body) {
                Some(c) => {
                    self.submitted = Some(c);
                },
                None => {},
            }
        }
    }

    /// Picks the submitted configuration up, if there is one.
    pub fn pick_up(&mut self) -> (r: Option<StoredConfig>)
        ensures
            r == old(self).submitted,
            final(self).submitted is None,
    {
        self.submitted.take()
    }
}

} // verus!
