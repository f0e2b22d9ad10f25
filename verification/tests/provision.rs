use voices3r::config;
use voices3r::provision::{
    config_from_fields, field_value, form_fields, hex_val, parse_form, percent_decode, setup_page,
    take_read, text_of, url_decode, Portal, DONE, PAGE,
};

#[test]
fn hexadecimal_digits() {
    for b in 0..=255u8 {
        let want = (b as char).to_digit(16).map(|d| d as u8);
        assert_eq!(hex_val(b), want);
    }
}

#[test]
fn form_values_are_decoded() {
    assert_eq!(url_decode(""), "");
    assert_eq!(url_decode("a+b"), "a b");
    assert_eq!(url_decode("%41%62%2b"), "Ab+");
    assert_eq!(url_decode("caf%C3%A9"), "café");
    assert_eq!(url_decode("é"), "é");
}

#[test]
fn broken_escapes_stand_for_themselves() {
    assert_eq!(url_decode("%"), "%");
    assert_eq!(url_decode("%4"), "%4");
    assert_eq!(url_decode("100%"), "100%");
    assert_eq!(url_decode("%zz"), "%zz");
    assert_eq!(url_decode("%4g1"), "%4g1");
    assert_eq!(url_decode("%%41"), "%A");
    assert_eq!(percent_decode(b"%2541"), b"%41".to_vec());
}

#[test]
fn the_sides_of_a_plus_sign_are_decoded_apart() {
    for a in ["", "x", "100%", "%4", "%C3%A9", "a+b", "%FF", "ok%E2%82"] {
        for b in ["", "1", "41", "%41", "+", "%82", "%"] {
            let whole = url_decode(&format!("{a}+{b}"));
            assert_eq!(whole, format!("{} {}", url_decode(a), url_decode(b)), "{a} {b}");
        }
    }
    assert_eq!(percent_decode(b"%4+1"), b"%4 1".to_vec());
}

#[test]
fn bytes_that_are_no_utf8_are_repaired() {
    assert_eq!(url_decode("a%FFb"), "a\u{fffd}b");
    assert_eq!(text_of(b"ok\xe2\x82"), "ok\u{fffd}");
    assert_eq!(text_of("häuser".as_bytes()), "häuser");
}

#[test]
fn decoding_undoes_encoding() {
    let text = "Ünïcode & sons = 100% + tax/*-._~";
    let mut enc = String::new();
    for b in text.as_bytes() {
        let c = *b as char;
        if c.is_ascii_alphanumeric() || "*-._".contains(c) {
            enc.push(c);
        } else if c == ' ' {
            enc.push('+');
        } else {
            enc.push_str(&format!("%{:02X}", b));
        }
    }
    assert_eq!(url_decode(&enc), text);
}

#[test]
fn fields_of_a_form() {
    let f = form_fields("a=1&b&c=x=y&=z&&a=2");
    let got: Vec<(&str, &str)> = f.iter().map(|f| (f.key.as_str(), f.value.as_str())).collect();
    assert_eq!(
        got,
        vec![("a", "1"), ("b", ""), ("c", "x=y"), ("", "z"), ("", ""), ("a", "2")]
    );
    assert_eq!(field_value(&f, "a"), Some("1".to_string()));
    assert_eq!(field_value(&f, "b"), Some("".to_string()));
    assert_eq!(field_value(&f, "d"), None);
}

#[test]
fn keys_are_not_decoded() {
    assert!(parse_form(b"ssid%30=home").is_none());
}

#[test]
fn submitted_networks_are_read_in_order() {
    let c = parse_form(
        b"ssid0=home+net&pass0=s%26cret&srv0=10.0.0.1%3A9000&ssid1=work&pass1=&srv1=pc:1",
    )
    .unwrap();
    assert_eq!(c.wifis.len(), 2);
    assert_eq!(c.wifis[0].ssid, "home net");
    assert_eq!(c.wifis[0].pass, "s&cret");
    assert_eq!(c.wifis[0].server, "10.0.0.1:9000");
    assert_eq!(c.wifis[1].ssid, "work");
    assert_eq!(c.wifis[1].pass, "");
    assert_eq!(c.wifis[1].server, "pc:1");
    assert_eq!(c.volume, config::DEFAULT_VOLUME);
    assert_eq!(c.volume, 75);
}

#[test]
fn missing_fields_get_defaults() {
    let c = parse_form(b"ssid0=x&srv0=").unwrap();
    assert_eq!(c.wifis[0].pass, "");
    assert_eq!(c.wifis[0].server, "192.168.8.100:9000");
    let c = parse_form(b"ssid3=y").unwrap();
    assert_eq!(c.wifis.len(), 1);
    assert_eq!(c.wifis[0].server, config::DEFAULT_SERVER);
}

#[test]
fn a_form_without_a_network_is_refused() {
    assert!(parse_form(b"").is_none());
    assert!(parse_form(b"ssid0=&pass0=x").is_none());
    assert!(parse_form(b"pass0=x&srv0=y").is_none());
    assert!(parse_form(b"ssid5=toolate").is_none());
    assert!(config_from_fields(&[]).is_none());
}

#[test]
fn a_name_of_broken_bytes_names_a_network() {
    for form in [&b"ssid0=%FF"[..], &b"ssid0=\xff"[..]] {
        let c = parse_form(form).unwrap();
        assert_eq!(c.wifis.len(), 1);
        assert_eq!(c.wifis[0].ssid, "\u{fffd}");
    }
    let mut p = Portal::new();
    p.submit(b"ssid3=%C3", true);
    assert_eq!(p.pick_up().unwrap().wifis[0].ssid, "\u{fffd}");
}

#[test]
fn no_more_than_five_networks() {
    let c = parse_form(b"ssid0=a&ssid1=b&ssid2=c&ssid3=d&ssid4=e&ssid5=f&ssid6=g").unwrap();
    let names: Vec<&str> = c.wifis.iter().map(|w| w.ssid.as_str()).collect();
    assert_eq!(names, vec!["a", "b", "c", "d", "e"]);
}

#[test]
fn the_first_of_two_equal_keys_counts() {
    let c = parse_form(b"ssid0=first&ssid0=second").unwrap();
    assert_eq!(c.wifis[0].ssid, "first");
}

#[test]
fn the_page_is_filled_in() {
    let page = setup_page();
    let want = PAGE
        .replace("__SERVER__", config::DEFAULT_SERVER)
        .replace("__SSID__", config::DEFAULT_SSID)
        .replace("__MAX__", "5");
    assert_eq!(page, want);
    assert!(page.contains("var MAX=5;"));
    assert!(page.contains("var DEF_SRV='192.168.8.100:9000';"));
    assert!(page.contains("var DEF_SSID='home';"));
    assert!(!page.contains("__"));
}

#[test]
fn a_body_is_read_up_to_its_limit() {
    let mut body = Vec::new();
    assert!(take_read(&mut body, b"ab"));
    assert!(take_read(&mut body, b"c"));
    assert!(!take_read(&mut body, b""));
    assert_eq!(body, b"abc".to_vec());

    let mut body = vec![0u8; 4096];
    assert!(take_read(&mut body, &[1; 256]));
    assert_eq!(body.len(), 4352);
    assert!(!take_read(&mut body, &[2; 256]));
    assert_eq!(body.len(), 4352);
}

#[test]
fn the_portal_keeps_the_last_good_form() {
    let mut p = Portal::new();
    assert!(p.pick_up().is_none());
    p.submit(b"nothing", true);
    assert!(p.submitted.is_none());
    p.submit(b"ssid0=a", true);
    p.submit(b"ssid0=b", true);
    p.submit(b"ssid0=", true);
    p.submit(b"ssid0=c", false);
    assert_eq!(p.pick_up().unwrap().wifis[0].ssid, "b");
    assert!(p.pick_up().is_none());
    assert!(DONE.starts_with("Saved."));
}

#[test]
fn a_long_form_is_read_whole() {
    let mut form = String::new();
    for i in 0..5 {
        form.push_str(&format!("ssid{i}={}&pass{i}={}&", "%C3%A4".repeat(16), "x".repeat(64)));
    }
    form.push_str("srv4=last:1");
    let mut body = Vec::new();
    for part in form.as_bytes().chunks(256) {
        assert!(take_read(&mut body, part));
    }
    assert!(!take_read(&mut body, &[]));
    let c = parse_form(&body).unwrap();
    assert_eq!(c.wifis.len(), 5);
    assert_eq!(c.wifis[2].ssid, "ä".repeat(16));
    assert_eq!(c.wifis[4].server, "last:1");
}
