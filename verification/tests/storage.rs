use std::collections::HashMap;

use voices3r::boot::{Boot, BootAction, BootEvent, BootPhase, ConnectList};
use voices3r::provision::parse_form;
use voices3r::storage::{
    ask_key, ask_room, save_writes, volume_write, LoadAnswer, LoadPhase, Loader, StoredConfig,
    WifiCred, Write,
};

#[derive(Default)]
struct Memory {
    nums: HashMap<String, u8>,
    texts: HashMap<String, String>,
}

impl Memory {
    fn write(&mut self, w: Write) {
        match w {
            Write::Num { key, number } => {
                self.nums.insert(key, number);
            }
            Write::Text { key, text } => {
                self.texts.insert(key, text);
            }
        }
    }

    fn save(&mut self, c: &StoredConfig) {
        for w in save_writes(c) {
            self.write(w);
        }
    }

    fn load(&self) -> Result<Option<StoredConfig>, ()> {
        let mut l = Loader::new();
        while let LoadPhase::Asking(ask) = l.phase {
            let key = ask_key(ask);
            let answer = match ask_room(ask) {
                None => LoadAnswer::Num(self.nums.get(&key).copied()),
                Some(room) => match self.texts.get(&key) {
                    Some(t) if t.len() + 1 > room => LoadAnswer::Failed,
                    t => LoadAnswer::Text(t.cloned()),
                },
            };
            l.resume(answer);
        }
        if l.phase == LoadPhase::Failed {
            return Err(());
        }
        Ok(l.into_config())
    }
}

fn cred(ssid: &str, pass: &str, server: &str) -> WifiCred {
    WifiCred { ssid: ssid.to_string(), pass: pass.to_string(), server: server.to_string() }
}

fn names(c: &StoredConfig) -> Vec<String> {
    c.wifis.iter().map(|w| format!("{}/{}/{}", w.ssid, w.pass, w.server)).collect()
}

#[test]
fn an_empty_store_holds_no_config() {
    assert!(Memory::default().load().unwrap().is_none());
    let mut m = Memory::default();
    m.nums.insert("n".to_string(), 0);
    m.nums.insert("volume".to_string(), 10);
    assert!(m.load().unwrap().is_none());
}

#[test]
fn what_is_saved_is_loaded() {
    let c = StoredConfig {
        wifis: vec![cred("a", "x", "s:1"), cred("b", "", ""), cred("ü", "y", "s:2")],
        volume: 33,
    };
    let mut m = Memory::default();
    m.save(&c);
    let d = m.load().unwrap().unwrap();
    assert_eq!(names(&d), names(&c));
    assert_eq!(d.volume, 33);
}

#[test]
fn a_shorter_list_replaces_a_longer_one() {
    let mut m = Memory::default();
    m.save(&StoredConfig { wifis: vec![cred("a", "", "s"), cred("b", "", "s")], volume: 1 });
    m.save(&StoredConfig { wifis: vec![cred("c", "", "s")], volume: 2 });
    let d = m.load().unwrap().unwrap();
    assert_eq!(names(&d), vec!["c//s"]);
    assert_eq!(d.volume, 2);
}

#[test]
fn no_more_than_five_networks_are_kept() {
    let wifis = (0..7).map(|i| cred(&format!("n{}", i), "", "s")).collect();
    let mut m = Memory::default();
    m.save(&StoredConfig { wifis, volume: 75 });
    assert_eq!(m.nums["n"], 5);
    assert_eq!(m.load().unwrap().unwrap().wifis.len(), 5);
    m.nums.insert("n".to_string(), 200);
    assert_eq!(m.load().unwrap().unwrap().wifis.len(), 5);
}

#[test]
fn nameless_networks_are_passed_over() {
    let mut m = Memory::default();
    m.save(&StoredConfig { wifis: vec![cred("", "p", "s"), cred("b", "", "s")], volume: 75 });
    assert_eq!(names(&m.load().unwrap().unwrap()), vec!["b//s"]);
    m.save(&StoredConfig { wifis: vec![cred("", "p", "s")], volume: 75 });
    assert!(m.load().unwrap().is_none());
}

#[test]
fn missing_texts_and_volume_get_defaults() {
    let mut m = Memory::default();
    m.nums.insert("n".to_string(), 1);
    m.texts.insert("ssid0".to_string(), "a".to_string());
    let d = m.load().unwrap().unwrap();
    assert_eq!(names(&d), vec!["a//192.168.8.100:9000"]);
    assert_eq!(d.volume, 75);
}

#[test]
fn texts_that_do_not_fit_fail() {
    for (s, p, v, ok) in [
        (63, 95, 95, true),
        (64, 1, 1, false),
        (1, 96, 1, false),
        (1, 1, 96, false),
    ] {
        let mut m = Memory::default();
        let w = cred(&"s".repeat(s), &"p".repeat(p), &"v".repeat(v));
        m.save(&StoredConfig { wifis: vec![w], volume: 75 });
        assert_eq!(m.load().is_ok(), ok);
    }
}

#[test]
fn the_volume_is_kept_alone() {
    let mut m = Memory::default();
    m.save(&StoredConfig { wifis: vec![cred("a", "", "s")], volume: 75 });
    m.write(volume_write(42));
    let d = m.load().unwrap().unwrap();
    assert_eq!(d.volume, 42);
    assert_eq!(names(&d), vec!["a//s"]);
}

#[test]
fn what_is_submitted_survives_a_reboot() {
    let mut m = Memory::default();
    m.save(&StoredConfig { wifis: vec![cred("old", "", "s"), cred("older", "", "s")], volume: 9 });
    let form = b"ssid0=caf%C3%A9+net&pass0=a%26b%3Dc&srv0=&ssid1=two&pass1=&srv1=h%3A1";
    m.save(&parse_form(form).unwrap());
    let d = m.load().unwrap().unwrap();
    assert_eq!(names(&d), vec!["café net/a&b=c/192.168.8.100:9000", "two//h:1"]);
    assert_eq!(d.volume, 75);
}

#[test]
fn a_wrong_answer_fails_loading() {
    let mut l = Loader::new();
    l.resume(LoadAnswer::Text(None));
    assert_eq!(l.phase, LoadPhase::Failed);
    assert!(l.into_config().is_none());
}

fn connect(c: &StoredConfig, up: &[&str]) -> (Vec<String>, Option<String>) {
    let mut list = ConnectList::new(c);
    let mut tried = Vec::new();
    while let Some(w) = list.attempt(c) {
        tried.push(w.ssid.clone());
        list.resume(c, up.contains(&w.ssid.as_str()));
    }
    (tried, list.server(c))
}

#[test]
fn networks_are_tried_in_order() {
    let c = StoredConfig {
        wifis: vec![cred("a", "", "sa"), cred("b", "", "sb"), cred("c", "", "sc")],
        volume: 75,
    };
    assert_eq!(connect(&c, &["c", "b"]), (vec!["a".to_string(), "b".to_string()], Some("sb".to_string())));
    assert_eq!(connect(&c, &[]).1, None);
    assert_eq!(connect(&c, &[]).0.len(), 3);
    assert_eq!(connect(&c, &["a"]), (vec!["a".to_string()], Some("sa".to_string())));
    let none = StoredConfig { wifis: vec![], volume: 75 };
    assert_eq!(connect(&none, &["a"]), (vec![], None));
}

fn booted(volume: u8) -> Boot {
    let mut b = Boot::new();
    assert_eq!(b.awaits(), Some(BootAction::SetVolume(85)));
    b.resume(BootEvent::Done);
    assert_eq!(b.awaits(), Some(BootAction::Beep { freq_hz: 1000, ms: 250 }));
    b.resume(BootEvent::Done);
    assert_eq!(b.awaits(), Some(BootAction::Load));
    b.resume(BootEvent::Loaded(Some(StoredConfig { wifis: vec![cred("a", "", "s")], volume })));
    assert_eq!(b.awaits(), Some(BootAction::Connect));
    b
}

#[test]
fn booting_with_a_stored_network() {
    for (kept, want) in [(10, 70), (70, 70), (71, 71), (255, 255)] {
        let mut b = booted(kept);
        b.resume(BootEvent::Connected(Some("s".to_string())));
        assert_eq!(b.awaits(), Some(BootAction::SetVolume(want)));
        b.resume(BootEvent::Done);
        assert_eq!(b.awaits(), Some(BootAction::PromptReady));
        b.resume(BootEvent::Done);
        assert_eq!(b.awaits(), Some(BootAction::StartWakeWords));
        b.resume(BootEvent::Done);
        assert_eq!(b.awaits(), Some(BootAction::RunVoice));
        assert_eq!(b.server, Some("s".to_string()));
        b.resume(BootEvent::Done);
        assert_eq!(b.awaits(), None);
        assert_eq!(b.phase, BootPhase::Over { ok: true });
    }
}

#[test]
fn booting_through_the_portal() {
    let mut b = booted(75);
    b.resume(BootEvent::Connected(None));
    for up in [false, true] {
        assert_eq!(b.awaits(), Some(BootAction::PromptPortal));
        b.resume(BootEvent::Done);
        assert_eq!(b.awaits(), Some(BootAction::RunPortal));
        b.resume(BootEvent::Submitted(StoredConfig { wifis: vec![cred("z", "", "t")], volume: 90 }));
        assert_eq!(b.awaits(), Some(BootAction::Save));
        b.resume(BootEvent::Done);
        assert_eq!(b.awaits(), Some(BootAction::Connect));
        b.resume(BootEvent::Connected(if up { Some("t".to_string()) } else { None }));
    }
    assert_eq!(b.awaits(), Some(BootAction::SetVolume(90)));
    assert_eq!(b.cfg.as_ref().unwrap().wifis[0].ssid, "z");
}

#[test]
fn booting_without_a_stored_network() {
    let mut b = Boot::new();
    b.resume(BootEvent::Done);
    b.resume(BootEvent::Done);
    b.resume(BootEvent::Loaded(None));
    assert_eq!(b.awaits(), Some(BootAction::PromptPortal));
}

#[test]
fn booting_that_fails() {
    let mut b = Boot::new();
    b.resume(BootEvent::Failed);
    assert_eq!(b.phase, BootPhase::Over { ok: false });
    assert_eq!(b.awaits(), None);
    let mut b = booted(75);
    b.resume(BootEvent::Connected(Some("s".to_string())));
    b.resume(BootEvent::Failed);
    assert_eq!(b.phase, BootPhase::Over { ok: false });
}
