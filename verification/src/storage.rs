//! The persistent configuration: up to [`MAX_WIFI`] WiFi networks, tried in order,
//! and the speaker volume.

use vstd::prelude::*;
use vstd::utf8::*;

use crate::config;
use crate::numbers::decimal;
use crate::numbers::digit_char;
use crate::numbers::push_decimal;

verus! {

/// How many WiFi networks a configuration holds at most.
pub const MAX_WIFI: usize = 5;

/// One WiFi network.
#[derive(Clone, Debug)]
pub struct WifiCred {
    pub ssid: String,
    pub pass: String,
    /// PC server `host:port` to use when connected to this network.
    pub server: String,
}

/// What is kept over a reboot.
#[derive(Clone, Debug)]
pub struct StoredConfig {
    pub wifis: Vec<WifiCred>,
    pub volume: u8,
}

/// The texts of a network.
#[verifier::ext_equal]
pub struct CredView {
    pub ssid: Seq<char>,
    pub pass: Seq<char>,
    pub server: Seq<char>,
}

/// The contents of a configuration.
#[verifier::ext_equal]
pub struct ConfigView {
    pub wifis: Seq<CredView>,
    pub volume: u8,
}

impl View for WifiCred {
    type V = CredView;

    open spec fn view(&self) -> CredView {
        CredView { ssid: self.ssid@, pass: self.pass@, server: self.server@ }
    }
}

/// The texts of a list of networks.
pub open spec fn creds(v: Seq<WifiCred>) -> Seq<CredView> {
    Seq::new(v.len(), |i: int| v[i]@)
}

impl View for StoredConfig {
    type V = ConfigView;

    open spec fn view(&self) -> ConfigView {
        ConfigView { wifis: creds(self.wifis@), volume: self.volume }
    }
}

/// The contents of a configuration that may be missing.
pub open spec fn config_view(c: Option<StoredConfig>) -> Option<ConfigView> {
    match c {
        Some(c) => Some(c@),
        None => None,
    }
}

/// The name of a setting of the network in slot `i`.
pub open spec fn slot_key(name: Seq<char>, i: nat) -> Seq<char> {
    name + decimal(i)
}

/// Builds the name of a setting of the network in slot `i`.
pub fn key_for(name: &str, i: usize) -> (r: String)
    ensures
        r@ == slot_key(name@, i as nat),
{
    let mut out = name.to_string();
    push_decimal(&mut out, i as u64);
    out
}

/// The name of the `k`-th of the three fields of a network.
pub open spec fn field_name(k: int) -> Seq<char> {
    if k == 0 {
        "ssid"@
    } else if k == 1 {
        "pass"@
    } else {
        "srv"@
    }
}

/// The text of the `k`-th of the three fields of a network.
pub open spec fn field_text(w: CredView, k: int) -> Seq<char> {
    if k == 0 {
        w.ssid
    } else if k == 1 {
        w.pass
    } else {
        w.server
    }
}

/// The key of a slot below ten is its name and one digit.
proof fn lemma_slot_key(name: Seq<char>, i: nat)
    requires
        i < 10,
    ensures
        slot_key(name, i) == name.push(digit_char(i as int)),
{
    assert(name + decimal(i) == name.push(digit_char(i as int)));
}

/// Different fields of the slots below ten have different keys, and no key holds a
/// sign of the form.
pub proof fn lemma_keys(i: nat, a: int, j: nat, b: int)
    requires
        i < 10,
        j < 10,
        0 <= a < 3,
        0 <= b < 3,
    ensures
        !slot_key(field_name(a), i).contains('='),
        !slot_key(field_name(a), i).contains('&'),
        (i != j || a != b) ==> slot_key(field_name(a), i) != slot_key(field_name(b), j),
{
    lemma_slot_key(field_name(a), i);
    lemma_slot_key(field_name(b), j);
    reveal_strlit("ssid");
    reveal_strlit("pass");
    reveal_strlit("srv");
    let x = slot_key(field_name(a), i);
    let y = slot_key(field_name(b), j);
    assert(x.last() == digit_char(i as int));
    assert(y.last() == digit_char(j as int));
    if i != j {
        assert(x.last() != y.last());
    } else if a != b {
        if x.len() == y.len() {
            assert(x[0] != y[0] || x[1] != y[1]);
        }
    }
}

// ---------------------------------------------------------------------------
// The store
// ---------------------------------------------------------------------------
/// The namespace of the settings.
pub const NAMESPACE: &'static str = "voicecfg";

/// Room for a stored SSID, with its end mark.
pub const SSID_ROOM: usize = 64;

/// Room for a stored password, with its end mark.
pub const PASS_ROOM: usize = 96;

/// Room for a stored server address, with its end mark.
pub const SERVER_ROOM: usize = 96;

/// What a store holds: numbers and texts, by their keys.
pub struct Stored {
    pub nums: Map<Seq<char>, u8>,
    pub texts: Map<Seq<char>, Seq<char>>,
}

impl Stored {
    /// The number under a key.
    pub open spec fn num(self, key: Seq<char>) -> Option<u8> {
        if self.nums.contains_key(key) {
            Some(self.nums[key])
        } else {
            None
        }
    }

    /// The text under a key.
    pub open spec fn text(self, key: Seq<char>) -> Option<Seq<char>> {
        if self.texts.contains_key(key) {
            Some(self.texts[key])
        } else {
            None
        }
    }

    /// The text of a field of a slot.
    pub open spec fn field(self, slot: int, k: int) -> Option<Seq<char>> {
        self.text(slot_key(field_name(k), slot as nat))
    }

    /// How many slots are in use.
    pub open spec fn slots(self) -> int {
        match self.num("n"@) {
            Some(n) => if n > MAX_WIFI {
                MAX_WIFI as int
            } else {
                n as int
            },
            None => 0,
        }
    }
}

/// A text with its end mark fits into `room` bytes.
pub open spec fn fits(text: Option<Seq<char>>, room: int) -> bool {
    text matches Some(t) ==> encode_utf8(t).len() + 1 <= room
}

/// The room for a field of a slot.
pub open spec fn field_room(k: int) -> int {
    if k == 0 {
        SSID_ROOM as int
    } else if k == 1 {
        PASS_ROOM as int
    } else {
        SERVER_ROOM as int
    }
}

/// The text, or the other one where there is none.
pub open spec fn or_else(text: Option<Seq<char>>, other: Seq<char>) -> Seq<char> {
    match text {
        Some(t) => t,
        None => other,
    }
}

/// The slot names a network.
pub open spec fn slot_used(st: Stored, slot: int) -> bool {
    or_else(st.field(slot, 0), Seq::empty()).len() > 0
}

/// The network in a slot that names one: a missing password is empty, a missing server
/// address is the default one.
pub open spec fn slot_network(st: Stored, slot: int) -> CredView {
    CredView {
        ssid: or_else(st.field(slot, 0), Seq::empty()),
        pass: or_else(st.field(slot, 1), Seq::empty()),
        server: or_else(st.field(slot, 2), config::DEFAULT_SERVER@),
    }
}

/// The networks in the slots below `n`, in order.
pub open spec fn stored_networks(st: Stored, n: int) -> Seq<CredView>
    decreases n,
{
    if n <= 0 {
        Seq::<CredView>::empty()
    } else if slot_used(st, n - 1) {
        stored_networks(st, n - 1).push(slot_network(st, n - 1))
    } else {
        stored_networks(st, n - 1)
    }
}

/// The configuration that a store holds; there is none without a network.
pub open spec fn stored_config(st: Stored) -> Option<ConfigView> {
    let wifis = stored_networks(st, st.slots());
    if wifis.len() == 0 {
        None
    } else {
        Some(
            ConfigView {
                wifis,
                volume: match st.num("volume"@) {
                    Some(v) => v,
                    None => config::DEFAULT_VOLUME,
                },
            },
        )
    }
}

/// The texts of a slot can be read: its SSID fits, and, where it names a network, so
/// do the others.
pub open spec fn slot_readable(st: Stored, slot: int) -> bool {
    &&& fits(st.field(slot, 0), field_room(0))
    &&& slot_used(st, slot) ==> fits(st.field(slot, 1), field_room(1)) && fits(
        st.field(slot, 2),
        field_room(2),
    )
}

/// All texts that the configuration needs can be read.
pub open spec fn readable(st: Stored) -> bool {
    forall|slot: int| 0 <= slot < st.slots() ==> #[trigger] slot_readable(st, slot)
}

// ---------------------------------------------------------------------------
// Loading
// ---------------------------------------------------------------------------
/// What loading asks the store for.
#[derive(Clone, Copy, Debug, PartialEq, Eq, Structural)]
pub enum LoadAsk {
    /// The number of slots in use.
    Count,
    /// The SSID in a slot.
    Ssid(usize),
    /// The password in a slot.
    Pass(usize),
    /// The server address in a slot.
    Server(usize),
    /// The volume.
    Volume,
}

/// What the store answers.
#[derive(Debug)]
pub enum LoadAnswer {
    /// A number, or that there is none.
    Num(Option<u8>),
    /// A text, or that there is none.
    Text(Option<String>),
    /// It could not be read.
    Failed,
}

/// The contents of an answer.
pub enum AnswerView {
    Num(Option<u8>),
    Text(Option<Seq<char>>),
    Failed,
}

impl View for LoadAnswer {
    type V = AnswerView;

    open spec fn view(&self) -> AnswerView {
        match self {
            LoadAnswer::Num(n) => AnswerView::Num(*n),
            LoadAnswer::Text(Some(t)) => AnswerView::Text(Some(t@)),
            LoadAnswer::Text(None) => AnswerView::Text(None),
            LoadAnswer::Failed => AnswerView::Failed,
        }
    }
}

/// Where loading stands.
#[derive(Clone, Copy, Debug, PartialEq, Eq, Structural)]
pub enum LoadPhase {
    Asking(LoadAsk),
    /// There is no network.
    Empty,
    Loaded { volume: u8 },
    Failed,
}

/// A configuration that is being loaded.
pub struct Loader {
    pub phase: LoadPhase,
    pub count: usize,
    pub wifis: Vec<WifiCred>,
    pub ssid: String,
    pub pass: String,
}

/// The state of loading.
#[verifier::ext_equal]
pub struct LoaderView {
    pub phase: LoadPhase,
    pub count: usize,
    pub wifis: Seq<CredView>,
    pub ssid: Seq<char>,
    pub pass: Seq<char>,
}

impl View for Loader {
    type V = LoaderView;

    open spec fn view(&self) -> LoaderView {
        LoaderView {
            phase: self.phase,
            count: self.count,
            wifis: creds(self.wifis@),
            ssid: self.ssid@,
            pass: self.pass@,
        }
    }
}

/// What is asked for next, before slot `i`, with these networks found.
pub open spec fn ask_slot(i: int, count: usize, found: nat) -> LoadPhase {
    if i < count {
        LoadPhase::Asking(LoadAsk::Ssid(i as usize))
    } else if found == 0 {
        LoadPhase::Empty
    } else {
        LoadPhase::Asking(LoadAsk::Volume)
    }
}

/// What loading is after an answer.
pub open spec fn load_after(l: LoaderView, a: AnswerView) -> LoaderView {
    match (l.phase, a) {
        (LoadPhase::Asking(LoadAsk::Count), AnswerView::Num(n)) => {
            let count = match n {
                Some(n) => if n > MAX_WIFI {
                    MAX_WIFI
                } else {
                    n as usize
                },
                None => 0usize,
            };
            LoaderView { phase: ask_slot(0, count, l.wifis.len()), count, ..l }
        },
        // A slot without an SSID is passed over.
        (LoadPhase::Asking(LoadAsk::Ssid(i)), AnswerView::Text(t)) => if or_else(
            t,
            Seq::empty(),
        ).len() == 0 {
            LoaderView { phase: ask_slot(i + 1, l.count, l.wifis.len()), ..l }
        } else {
            LoaderView {
                phase: LoadPhase::Asking(LoadAsk::Pass(i)),
                ssid: or_else(t, Seq::empty()),
                ..l
            }
        },
        (LoadPhase::Asking(LoadAsk::Pass(i)), AnswerView::Text(t)) => LoaderView {
            phase: LoadPhase::Asking(LoadAsk::Server(i)),
            pass: or_else(t, Seq::empty()),
            ..l
        },
        (LoadPhase::Asking(LoadAsk::Server(i)), AnswerView::Text(t)) => LoaderView {
            phase: ask_slot(i + 1, l.count, l.wifis.len() + 1),
            wifis: l.wifis.push(
                CredView {
                    ssid: l.ssid,
                    pass: l.pass,
                    server: or_else(t, config::DEFAULT_SERVER@),
                },
            ),
            ..l
        },
        (LoadPhase::Asking(LoadAsk::Volume), AnswerView::Num(n)) => LoaderView {
            phase: LoadPhase::Loaded {
                volume: match n {
                    Some(v) => v,
                    None => config::DEFAULT_VOLUME,
                },
            },
            ..l
        },
        (LoadPhase::Asking(_), _) => LoaderView { phase: LoadPhase::Failed, ..l },
        (_, _) => l,
    }
}

/// The key under which the store keeps what is asked for.
pub open spec fn asked_key(ask: LoadAsk) -> Seq<char> {
    match ask {
        LoadAsk::Count => "n"@,
        LoadAsk::Ssid(i) => slot_key("ssid"@, i as nat),
        LoadAsk::Pass(i) => slot_key("pass"@, i as nat),
        LoadAsk::Server(i) => slot_key("srv"@, i as nat),
        LoadAsk::Volume => "volume"@,
    }
}

/// The key under which the store keeps what is asked for.
pub fn ask_key(ask: LoadAsk) -> (r: String)
    ensures
        r@ == asked_key(ask),
{
    match ask {
        LoadAsk::Count => "n".to_string(),
        LoadAsk::Ssid(i) => key_for("ssid", i),
        LoadAsk::Pass(i) => key_for("pass", i),
        LoadAsk::Server(i) => key_for("srv", i),
        LoadAsk::Volume => "volume".to_string(),
    }
}

/// The room for the text that is asked for; none for a number.
pub fn ask_room(ask: LoadAsk) -> (r: Option<usize>)
    ensures
        r == (match ask {
            LoadAsk::Ssid(i) => Some(SSID_ROOM),
            LoadAsk::Pass(i) => Some(PASS_ROOM),
            LoadAsk::Server(i) => Some(SERVER_ROOM),
            _ => None,
        }),
{
    match ask {
        LoadAsk::Ssid(i) => Some(SSID_ROOM),
        LoadAsk::Pass(i) => Some(PASS_ROOM),
        LoadAsk::Server(i) => Some(SERVER_ROOM),
        _ => None,
    }
}

impl Loader {
    /// What holds of every loading: the slot that is asked about is in use, and there
    /// is a network once the volume is asked for.
    pub open spec fn valid(self) -> bool {
        loader_in_order(self@)
    }

    /// Loading at its start.
    pub fn new() -> (r: Loader)
        ensures
            r.valid(),
            r@ == loader_start(),
    {
        let r = Loader {
            phase: LoadPhase::Asking(LoadAsk::Count),
            count: 0,
            wifis: Vec::new(),
            ssid: String::new(),
            pass: String::new(),
        };
        assert(creds(r.wifis@) == Seq::<CredView>::empty());
        r
    }

    /// What is asked for before slot `i`.
    fn before_slot(&self, i: usize) -> (r: LoadPhase)
        ensures
            r == ask_slot(i as int, self.count, creds(self.wifis@).len()),
    {
        if i < self.count {
            LoadPhase::Asking(LoadAsk::Ssid(i))
        } else if self.wifis.len() == 0 {
            LoadPhase::Empty
        } else {
            LoadPhase::Asking(LoadAsk::Volume)
        }
    }

    /// Goes on with an answer to what was asked.
    pub fn resume(&mut self, answer: LoadAnswer)
        requires
            old(self).valid(),
        ensures
            final(self).valid(),
            final(self)@ == load_after(old(self)@, answer@),
    {
        match (self.phase, answer) {
            (LoadPhase::Asking(LoadAsk::Count), LoadAnswer::Num(n)) => {
                self.count = match n {
                    Some(n) => if n as usize > MAX_WIFI {
                        MAX_WIFI
                    } else {
                        n as usize
                    },
                    None => 0,
                };
                self.phase = self.before_slot(0);
            },
            (LoadPhase::Asking(LoadAsk::Ssid(i)), LoadAnswer::Text(t)) => {
                let ssid = match t {
                    Some(t) => t,
                    None => String::new(),
                };
                if ssid.as_str().is_empty() {
                    self.phase = self.before_slot(i + 1);
                } else {
                    self.ssid = ssid;
                    self.phase = LoadPhase::Asking(LoadAsk::Pass(i));
                }
            },
            (LoadPhase::Asking(LoadAsk::Pass(i)), LoadAnswer::Text(t)) => {
                self.pass = match t {
                    Some(t) => t,
                    None => String::new(),
                };
                self.phase = LoadPhase::Asking(LoadAsk::Server(i));
            },
            (LoadPhase::Asking(LoadAsk::Server(i)), LoadAnswer::Text(t)) => {
                let server = match t {
                    Some(t) => t,
                    None => config::DEFAULT_SERVER.to_string(),
                };
                let ghost before = self.wifis@;
                let w = WifiCred { ssid: self.ssid.clone(), pass: self.pass.clone(), server };
                self.wifis.push(w);
                assert(creds(self.wifis@) == creds(before).push(w@));
                self.phase = self.before_slot(i + 1);
            },
            (LoadPhase::Asking(LoadAsk::Volume), LoadAnswer::Num(n)) => {
                self.phase = LoadPhase::Loaded {
                    volume: match n {
                        Some(v) => v,
                        None => config::DEFAULT_VOLUME,
                    },
                };
            },
            (LoadPhase::Asking(_), _) => {
                self.phase = LoadPhase::Failed;
            },
            (_, _) => {},
        }
    }

    /// The configuration, once it is loaded.
    pub fn into_config(self) -> (r: Option<StoredConfig>)
        ensures
            config_view(r) == loaded_config(self@),
    {
        match self.phase {
            LoadPhase::Loaded { volume } => Some(StoredConfig { wifis: self.wifis, volume }),
            _ => None,
        }
    }
}

/// Loading at its start.
pub open spec fn loader_start() -> LoaderView {
    LoaderView {
        phase: LoadPhase::Asking(LoadAsk::Count),
        count: 0,
        wifis: Seq::empty(),
        ssid: Seq::empty(),
        pass: Seq::empty(),
    }
}

/// The configuration that was loaded.
pub open spec fn loaded_config(l: LoaderView) -> Option<ConfigView> {
    match l.phase {
        LoadPhase::Loaded { volume } => Some(ConfigView { wifis: l.wifis, volume }),
        _ => None,
    }
}

/// The slot that is asked about is in use, and there is a network once the volume is
/// asked for.
pub open spec fn loader_in_order(l: LoaderView) -> bool {
    &&& l.count <= MAX_WIFI
    &&& match l.phase {
        LoadPhase::Asking(LoadAsk::Count) => l.wifis.len() == 0,
        LoadPhase::Asking(LoadAsk::Ssid(i)) => i < l.count,
        LoadPhase::Asking(LoadAsk::Pass(i)) => i < l.count,
        LoadPhase::Asking(LoadAsk::Server(i)) => i < l.count,
        LoadPhase::Asking(LoadAsk::Volume) => l.wifis.len() > 0,
        LoadPhase::Loaded { volume } => l.wifis.len() > 0,
        _ => true,
    }
}

/// How a store answers.
pub open spec fn answer_in(st: Stored, ask: LoadAsk) -> AnswerView {
    match ask {
        LoadAsk::Count => AnswerView::Num(st.num(asked_key(ask))),
        LoadAsk::Volume => AnswerView::Num(st.num(asked_key(ask))),
        LoadAsk::Ssid(i) => text_answer(st.text(asked_key(ask)), SSID_ROOM as int),
        LoadAsk::Pass(i) => text_answer(st.text(asked_key(ask)), PASS_ROOM as int),
        LoadAsk::Server(i) => text_answer(st.text(asked_key(ask)), SERVER_ROOM as int),
    }
}

/// How a store answers with a text: one that does not fit cannot be read.
pub open spec fn text_answer(text: Option<Seq<char>>, room: int) -> AnswerView {
    if fits(text, room) {
        AnswerView::Text(text)
    } else {
        AnswerView::Failed
    }
}

// ---------------------------------------------------------------------------
// Saving
// ---------------------------------------------------------------------------
/// One write to the store.
#[derive(Debug)]
pub enum Write {
    Num { key: String, number: u8 },
    Text { key: String, text: String },
}

/// The contents of a write.
pub enum WriteView {
    Num(Seq<char>, u8),
    Text(Seq<char>, Seq<char>),
}

impl View for Write {
    type V = WriteView;

    open spec fn view(&self) -> WriteView {
        match self {
            Write::Num { key, number } => WriteView::Num(key@, *number),
            Write::Text { key, text } => WriteView::Text(key@, text@),
        }
    }
}

/// The contents of a list of writes.
pub open spec fn writes_view(v: Seq<Write>) -> Seq<WriteView> {
    Seq::new(v.len(), |i: int| v[i]@)
}

/// What a store holds after a list of writes.
pub open spec fn written(st: Stored, writes: Seq<WriteView>) -> Stored
    decreases writes.len(),
{
    if writes.len() == 0 {
        st
    } else {
        let prev = written(st, writes.drop_last());
        match writes.last() {
            WriteView::Num(key, value) => Stored {
                nums: prev.nums.insert(key, value),
                texts: prev.texts,
            },
            WriteView::Text(key, value) => Stored {
                nums: prev.nums,
                texts: prev.texts.insert(key, value),
            },
        }
    }
}

/// The writes of the networks below `n`, three for each.
pub open spec fn slot_writes(wifis: Seq<CredView>, n: nat) -> Seq<WriteView>
    decreases n,
{
    if n == 0 {
        Seq::<WriteView>::empty()
    } else {
        let i = (n - 1) as nat;
        slot_writes(wifis, i) + seq![
            WriteView::Text(slot_key("ssid"@, i), wifis[i as int].ssid),
            WriteView::Text(slot_key("pass"@, i), wifis[i as int].pass),
            WriteView::Text(slot_key("srv"@, i), wifis[i as int].server),
        ]
    }
}

/// The writes that save a configuration: the number of networks, of which no more are
/// kept than there are slots, the networks, and the volume.
pub open spec fn saved_writes(c: ConfigView) -> Seq<WriteView> {
    let n = if c.wifis.len() < MAX_WIFI {
        c.wifis.len()
    } else {
        MAX_WIFI as nat
    };
    seq![WriteView::Num("n"@, n as u8)] + slot_writes(c.wifis, n) + seq![
        WriteView::Num("volume"@, c.volume),
    ]
}

/// The writes that save a configuration, in order.
pub fn save_writes(c: &StoredConfig) -> (r: Vec<Write>)
    ensures
        writes_view(r@) == saved_writes(c@),
{
    let n: usize = if c.wifis.len() < MAX_WIFI {
        c.wifis.len()
    } else {
        MAX_WIFI
    };
    let mut out: Vec<Write> = Vec::new();
    out.push(Write::Num { key: "n".to_string(), number: n as u8 });
    let ghost head = seq![WriteView::Num("n"@, n as u8)];
    assert(writes_view(out@) == head + slot_writes(c@.wifis, 0));
    let mut i: usize = 0;
    while i < n
        invariant
            i <= n <= c.wifis@.len(),
            n <= MAX_WIFI,
            writes_view(out@) == head + slot_writes(c@.wifis, i as nat),
        decreases n - i,
    {
        let w: &WifiCred = &c.wifis[i];
        let ghost before = out@;
        out.push(Write::Text { key: key_for("ssid", i), text: w.ssid.clone() });
        out.push(Write::Text { key: key_for("pass", i), text: w.pass.clone() });
        out.push(Write::Text { key: key_for("srv", i), text: w.server.clone() });
        assert(c@.wifis[i as int] == w@);
        assert(writes_view(out@) == writes_view(before) + seq![
            WriteView::Text(slot_key("ssid"@, i as nat), w@.ssid),
            WriteView::Text(slot_key("pass"@, i as nat), w@.pass),
            WriteView::Text(slot_key("srv"@, i as nat), w@.server),
        ]);
        i += 1;
        assert(writes_view(out@) == head + slot_writes(c@.wifis, i as nat));
    }
    let ghost before = out@;
    out.push(Write::Num { key: "volume".to_string(), number: c.volume });
    assert(writes_view(out@) == writes_view(before) + seq![WriteView::Num("volume"@, c.volume)]);
    out
}

/// The write that keeps the speaker volume.
pub fn volume_write(volume: u8) -> (r: Write)
    ensures
        r@ == WriteView::Num("volume"@, volume),
{
    Write::Num { key: "volume".to_string(), number: volume }
}

/// The contents of a configuration are its volume and, in order, the three texts of each of
/// its networks.
pub proof fn law_config_contents(c: StoredConfig, i: int)
    ensures
        c@.volume == c.volume,
        c@.wifis.len() == c.wifis@.len(),
        0 <= i < c.wifis@.len() ==> {
            &&& c@.wifis[i].ssid == c.wifis@[i].ssid@
            &&& c@.wifis[i].pass == c.wifis@[i].pass@
            &&& c@.wifis[i].server == c.wifis@[i].server@
        },
        config_view(Some(c)) == Some(c@),
        config_view(None) is None,
{
}

/// The contents of a write are its key and what is written; those of an answer are the
/// number or the text that it gives.
pub proof fn law_store_contents(key: String, number: u8, text: String, n: Option<u8>)
    ensures
        (Write::Num { key, number })@ == WriteView::Num(key@, number),
        (Write::Text { key, text })@ == WriteView::Text(key@, text@),
        LoadAnswer::Num(n)@ == AnswerView::Num(n),
        LoadAnswer::Text(Some(text))@ == AnswerView::Text(Some(text@)),
        LoadAnswer::Text(None)@ == AnswerView::Text(None),
        LoadAnswer::Failed@ == AnswerView::Failed,
{
}

/// A list of writes has the contents of its writes, in order.
pub proof fn law_writes_contents(v: Seq<Write>, i: int)
    ensures
        writes_view(v).len() == v.len(),
        0 <= i < v.len() ==> writes_view(v)[i] == v[i]@,
{
}

} // verus!
