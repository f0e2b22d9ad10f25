//! From power-on to the assistant: stored networks first, then the setup portal until
//! one of its networks connects.

use vstd::prelude::*;

use crate::storage::ConfigView;
use crate::storage::StoredConfig;
use crate::storage::WifiCred;

verus! {

/// Volume of the speaker test at power-on.
pub const TEST_VOLUME: u8 = 85;

/// Tone of the speaker test, in hertz.
pub const TEST_TONE_HZ: u32 = 1000;

/// Length of the speaker test, in milliseconds.
pub const TEST_TONE_MS: u32 = 250;

/// The device starts no quieter than this, whatever volume was kept.
pub const VOLUME_FLOOR: u8 = 70;

// ---------------------------------------------------------------------------
// Trying networks
// ---------------------------------------------------------------------------
/// Where trying a list of networks stands.
#[derive(Clone, Copy, Debug, PartialEq, Eq, Structural)]
pub enum ConnectPhase {
    /// The network in this place is tried.
    Trying(usize),
    /// The network in this place was joined.
    Joined(usize),
    /// None was.
    Exhausted,
}

/// A list of networks that is tried in order until one is joined.
pub struct ConnectList {
    pub phase: ConnectPhase,
    /// Whether the networks tried so far were joined.
    pub answers: Ghost<Seq<bool>>,
}

/// The first of the answers that is yes.
pub open spec fn first_yes(answers: Seq<bool>) -> Option<int>
    decreases answers.len(),
{
    if answers.len() == 0 {
        None
    } else {
        match first_yes(answers.drop_last()) {
            Some(i) => Some(i),
            None => if answers.last() {
                Some(answers.len() - 1)
            } else {
                None
            },
        }
    }
}

impl ConnectList {
    /// Each network was tried once, in order, up to the first that was joined.
    pub open spec fn valid(self, networks: nat) -> bool {
        match self.phase {
            ConnectPhase::Trying(i) => {
                &&& i < networks
                &&& self.answers@.len() == i
                &&& first_yes(self.answers@) is None
            },
            ConnectPhase::Joined(i) => {
                &&& i < networks
                &&& self.answers@.len() == i + 1
                &&& first_yes(self.answers@) == Some(i as int)
            },
            ConnectPhase::Exhausted => {
                &&& self.answers@.len() == networks
                &&& first_yes(self.answers@) is None
            },
        }
    }

    /// The networks of a configuration, none of them tried yet.
    pub fn new(cfg: &StoredConfig) -> (r: ConnectList)
        ensures
            r.valid(cfg@.wifis.len()),
            r.answers@ == Seq::<bool>::empty(),
            cfg@.wifis.len() > 0 ==> r.phase == ConnectPhase::Trying(0),
            cfg@.wifis.len() == 0 ==> r.phase == ConnectPhase::Exhausted,
    {
        if cfg.wifis.len() == 0 {
            ConnectList { phase: ConnectPhase::Exhausted, answers: Ghost(Seq::empty()) }
        } else {
            ConnectList { phase: ConnectPhase::Trying(0), answers: Ghost(Seq::empty()) }
        }
    }

    /// The network to try, until one was joined or all were tried.
    pub fn attempt<'a>(&self, cfg: &'a StoredConfig) -> (r: Option<&'a WifiCred>)
        requires
            self.valid(cfg@.wifis.len()),
        ensures
            r is Some <==> self.phase is Trying,
            r matches Some(w) ==> *w == cfg.wifis@[self.answers@.len() as int],
    {
        match self.phase {
            ConnectPhase::Trying(i) => Some(&cfg.wifis[i]),
            _ => None,
        }
    }

    /// Goes on with whether the network was joined.
    pub fn resume(&mut self, cfg: &StoredConfig, joined: bool)
        requires
            old(self).valid(cfg@.wifis.len()),
        ensures
            final(self).valid(cfg@.wifis.len()),
            old(self).phase is Trying ==> final(self).answers@ == old(self).answers@.push(joined),
            old(self).phase is Trying && joined ==> final(self).phase is Joined,
            old(self).phase is Trying && !joined ==> !(final(self).phase is Joined),
            old(self).phase is Trying && !joined ==> (final(self).phase is Trying <==> old(
                self,
            ).answers@.len() + 1 < cfg@.wifis.len()),
            !(old(self).phase is Trying) ==> *final(self) == *old(self),
    {
        let networks: usize = cfg.wifis.len();
        match self.phase {
            ConnectPhase::Trying(i) => {
                let ghost so_far = self.answers@;
                assert(so_far.push(joined).drop_last() =~= so_far);
                self.answers = Ghost(so_far.push(joined));
                if joined {
                    self.phase = ConnectPhase::Joined(i);
                } else if i + 1 < networks {
                    self.phase = ConnectPhase::Trying(i + 1);
                } else {
                    self.phase = ConnectPhase::Exhausted;
                }
            },
            _ => {},
        }
    }

    /// The server address of the network that was joined.
    pub fn server(&self, cfg: &StoredConfig) -> (r: Option<String>)
        requires
            self.valid(cfg@.wifis.len()),
        ensures
            r is Some <==> first_yes(self.answers@) is Some,
            r matches Some(s) ==> s@ == cfg@.wifis[first_yes(self.answers@)->0].server,
    {
        match self.phase {
            ConnectPhase::Joined(i) => Some(cfg.wifis[i].server.clone()),
            _ => None,
        }
    }
}

/// A list is given up only once every network was tried, none of them joined; one is
/// joined only once every network before it was tried in vain; and the network that is
/// tried is the one behind those that were.
pub proof fn law_connect_list(list: ConnectList, networks: nat)
    requires
        list.valid(networks),
    ensures
        list.phase == ConnectPhase::Exhausted ==> list.answers@.len() == networks && forall|j: int|
            0 <= j < networks ==> !(#[trigger] list.answers@[j]),
        list.phase matches ConnectPhase::Joined(i) ==> i < networks && list.answers@.len() == i + 1
            && list.answers@[i as int] && forall|j: int|
            0 <= j < i ==> !(#[trigger] list.answers@[j]),
        list.phase matches ConnectPhase::Trying(i) ==> i < networks && list.answers@.len() == i
            && forall|j: int| 0 <= j < i ==> !(#[trigger] list.answers@[j]),
{
    law_first_yes(list.answers@);
}

/// The first yes is a yes with nothing but no before it, and there is none only where
/// every answer is no.
pub proof fn law_first_yes(answers: Seq<bool>)
    ensures
        first_yes(answers) matches Some(i) ==> 0 <= i < answers.len() && answers[i] && forall|j: int|
            0 <= j < i ==> !(#[trigger] answers[j]),
        first_yes(answers) is None <==> forall|j: int| 0 <= j < answers.len() ==> !(#[trigger] answers[j]),
    decreases answers.len(),
{
    if answers.len() > 0 {
        let rest = answers.drop_last();
        law_first_yes(rest);
        match first_yes(rest) {
            Some(i) => {
                assert(answers[i] == rest[i]);
                assert forall|j: int| 0 <= j < i implies !(#[trigger] answers[j]) by {
                    assert(rest[j] == answers[j]);
                }
            },
            None => {
                assert forall|j: int| 0 <= j < rest.len() implies !(#[trigger] answers[j]) by {
                    assert(rest[j] == answers[j]);
                }
                if answers.last() {
                    assert(answers[answers.len() - 1]);
                }
            },
        }
    }
}

// ---------------------------------------------------------------------------
// Booting
// ---------------------------------------------------------------------------
/// What booting waits for.
#[derive(Clone, Copy, Debug, PartialEq, Eq, Structural)]
pub enum BootAction {
    /// Set the volume.
    SetVolume(u8),
    /// Beep.
    Beep { freq_hz: u32, ms: u32 },
    /// Load the stored configuration.
    Load,
    /// Try the networks of the configuration at hand.
    Connect,
    /// Play the prompt that announces the setup portal.
    PromptPortal,
    /// Run the setup portal.
    RunPortal,
    /// Save the configuration at hand.
    Save,
    /// Play the prompt that announces the assistant.
    PromptReady,
    /// Bring up the wake words.
    StartWakeWords,
    /// Run the assistant with the server at hand.
    RunVoice,
}

/// What came of it.
#[derive(Debug)]
pub enum BootEvent {
    /// It was done.
    Done,
    /// It failed.
    Failed,
    /// This configuration was stored, or none.
    Loaded(Option<StoredConfig>),
    /// This configuration was submitted.
    Submitted(StoredConfig),
    /// A network was joined, with this server address, or none was.
    Connected(Option<String>),
}

/// The phase of booting.
#[derive(Clone, Copy, Debug, PartialEq, Eq, Structural)]
pub enum BootPhase {
    TestVolume,
    TestTone,
    Loading,
    Connecting,
    Prompting,
    Provisioning,
    Saving,
    SettingVolume { volume: u8 },
    Announcing,
    StartingWakeWords,
    Running,
    Over { ok: bool },
}

/// The device on its way from power-on to the assistant.
pub struct Boot {
    pub phase: BootPhase,
    /// The configuration at hand.
    pub cfg: Option<StoredConfig>,
    /// The server address at hand.
    pub server: Option<String>,
}

/// The state of booting.
#[verifier::ext_equal]
pub struct BootView {
    pub phase: BootPhase,
    pub cfg: Option<ConfigView>,
    pub server: Option<Seq<char>>,
}

/// The contents of an event.
pub enum BootEventView {
    Done,
    Failed,
    Loaded(Option<ConfigView>),
    Submitted(ConfigView),
    Connected(Option<Seq<char>>),
}

impl View for Boot {
    type V = BootView;

    open spec fn view(&self) -> BootView {
        BootView {
            phase: self.phase,
            cfg: crate::storage::config_view(self.cfg),
            server: match self.server {
                Some(s) => Some(s@),
                None => None,
            },
        }
    }
}

impl View for BootEvent {
    type V = BootEventView;

    open spec fn view(&self) -> BootEventView {
        match self {
            BootEvent::Done => BootEventView::Done,
            BootEvent::Failed => BootEventView::Failed,
            BootEvent::Loaded(c) => BootEventView::Loaded(crate::storage::config_view(*c)),
            BootEvent::Submitted(c) => BootEventView::Submitted(c@),
            BootEvent::Connected(s) => BootEventView::Connected(
                match s {
                    Some(s) => Some(s@),
                    None => None,
                },
            ),
        }
    }
}

/// The volume to start with.
pub open spec fn start_volume_for(kept: u8) -> u8 {
    if kept > VOLUME_FLOOR {
        kept
    } else {
        VOLUME_FLOOR
    }
}

/// The volume to start with.
pub fn start_volume(kept: u8) -> (r: u8)
    ensures
        r == start_volume_for(kept),
{
    if kept > VOLUME_FLOOR {
        kept
    } else {
        VOLUME_FLOOR
    }
}

/// What booting waits for; nothing once it is over.
pub open spec fn boot_awaits(phase: BootPhase) -> Option<BootAction> {
    match phase {
        BootPhase::TestVolume => Some(BootAction::SetVolume(TEST_VOLUME)),
        BootPhase::TestTone => Some(BootAction::Beep { freq_hz: TEST_TONE_HZ, ms: TEST_TONE_MS }),
        BootPhase::Loading => Some(BootAction::Load),
        BootPhase::Connecting => Some(BootAction::Connect),
        BootPhase::Prompting => Some(BootAction::PromptPortal),
        BootPhase::Provisioning => Some(BootAction::RunPortal),
        BootPhase::Saving => Some(BootAction::Save),
        BootPhase::SettingVolume { volume } => Some(BootAction::SetVolume(volume)),
        BootPhase::Announcing => Some(BootAction::PromptReady),
        BootPhase::StartingWakeWords => Some(BootAction::StartWakeWords),
        BootPhase::Running => Some(BootAction::RunVoice),
        BootPhase::Over { ok } => None,
    }
}

/// What booting is after an event.
pub open spec fn boot_after(b: BootView, ev: BootEventView) -> BootView {
    match (b.phase, ev) {
        (BootPhase::TestVolume, BootEventView::Done) => BootView {
            phase: BootPhase::TestTone,
            ..b
        },
        (BootPhase::TestTone, BootEventView::Done) => BootView { phase: BootPhase::Loading, ..b },
        (BootPhase::Loading, BootEventView::Loaded(Some(c))) => BootView {
            phase: BootPhase::Connecting,
            cfg: Some(c),
            ..b
        },
        (BootPhase::Loading, BootEventView::Loaded(None)) => BootView {
            phase: BootPhase::Prompting,
            ..b
        },
        (BootPhase::Connecting, BootEventView::Connected(Some(server))) => match b.cfg {
            Some(c) => BootView {
                phase: BootPhase::SettingVolume { volume: start_volume_for(c.volume) },
                server: Some(server),
                ..b
            },
            None => BootView { phase: BootPhase::Over { ok: false }, ..b },
        },
        // No network could be joined: the portal is raised, again if need be.
        (BootPhase::Connecting, BootEventView::Connected(None)) => BootView {
            phase: BootPhase::Prompting,
            ..b
        },
        (BootPhase::Prompting, BootEventView::Done) => BootView {
            phase: BootPhase::Provisioning,
            ..b
        },
        (BootPhase::Provisioning, BootEventView::Submitted(c)) => BootView {
            phase: BootPhase::Saving,
            cfg: Some(c),
            ..b
        },
        (BootPhase::Saving, BootEventView::Done) => BootView { phase: BootPhase::Connecting, ..b },
        (BootPhase::SettingVolume { volume }, BootEventView::Done) => BootView {
            phase: BootPhase::Announcing,
            ..b
        },
        (BootPhase::Announcing, BootEventView::Done) => BootView {
            phase: BootPhase::StartingWakeWords,
            ..b
        },
        (BootPhase::StartingWakeWords, BootEventView::Done) => BootView {
            phase: BootPhase::Running,
            ..b
        },
        (BootPhase::Running, BootEventView::Done) => BootView {
            phase: BootPhase::Over { ok: true },
            ..b
        },
        (BootPhase::Over { ok }, _) => b,
        (_, _) => BootView { phase: BootPhase::Over { ok: false }, ..b },
    }
}

/// There is a configuration when one is saved or its networks are tried, and a server
/// once one of them was joined.
pub open spec fn boot_in_order(b: BootView) -> bool {
    match b.phase {
        BootPhase::Connecting => b.cfg is Some && b.server is None,
        BootPhase::Saving => b.cfg is Some && b.server is None,
        BootPhase::SettingVolume { volume } => b.cfg is Some && b.server is Some && volume
            == start_volume_for(b.cfg->0.volume),
        BootPhase::Announcing => b.cfg is Some && b.server is Some,
        BootPhase::StartingWakeWords => b.cfg is Some && b.server is Some,
        BootPhase::Running => b.cfg is Some && b.server is Some,
        BootPhase::Over { ok } => true,
        _ => b.server is None,
    }
}

impl Boot {
    /// What holds of every boot.
    pub open spec fn valid(self) -> bool {
        boot_in_order(self@)
    }

    /// The device at power-on.
    pub fn new() -> (r: Boot)
        ensures
            r.valid(),
            r@ == (BootView { phase: BootPhase::TestVolume, cfg: None, server: None }),
    {
        Boot { phase: BootPhase::TestVolume, cfg: None, server: None }
    }

    /// What booting waits for.
    pub fn awaits(&self) -> (r: Option<BootAction>)
        ensures
            r == boot_awaits(self@.phase),
    {
        match self.phase {
            BootPhase::TestVolume => Some(BootAction::SetVolume(TEST_VOLUME)),
            BootPhase::TestTone => Some(
                BootAction::Beep { freq_hz: TEST_TONE_HZ, ms: TEST_TONE_MS },
            ),
            BootPhase::Loading => Some(BootAction::Load),
            BootPhase::Connecting => Some(BootAction::Connect),
            BootPhase::Prompting => Some(BootAction::PromptPortal),
            BootPhase::Provisioning => Some(BootAction::RunPortal),
            BootPhase::Saving => Some(BootAction::Save),
            BootPhase::SettingVolume { volume } => Some(BootAction::SetVolume(volume)),
            BootPhase::Announcing => Some(BootAction::PromptReady),
            BootPhase::StartingWakeWords => Some(BootAction::StartWakeWords),
            BootPhase::Running => Some(BootAction::RunVoice),
            BootPhase::Over { ok } => None,
        }
    }

    /// Goes on with what came of the awaited action.
    pub fn resume(&mut self, ev: BootEvent)
        requires
            old(self).valid(),
        ensures
            final(self).valid(),
            final(self)@ == boot_after(old(self)@, ev@),
    {
        match (self.phase, ev) {
            (BootPhase::TestVolume, BootEvent::Done) => {
                self.phase = BootPhase::TestTone;
            },
            (BootPhase::TestTone, BootEvent::Done) => {
                self.phase = BootPhase::Loading;
            },
            (BootPhase::Loading, BootEvent::Loaded(c)) => {
                match c {
                    Some(c) => {
                        self.cfg = Some(c);
                        self.phase = BootPhase::Connecting;
                    },
                    None => {
                        self.phase = BootPhase::Prompting;
                    },
                }
            },
            (BootPhase::Connecting, BootEvent::Connected(s)) => {
                match s {
                    Some(s) => match &self.cfg {
                        Some(c) => {
                            self.phase =
                            BootPhase::SettingVolume { volume: start_volume(c.volume) };
                            self.server = Some(s);
                        },
                        None => {
                            self.phase = BootPhase::Over { ok: false };
                        },
                    },
                    None => {
                        self.phase = BootPhase::Prompting;
                    },
                }
            },
            (BootPhase::Prompting, BootEvent::Done) => {
                self.phase = BootPhase::Provisioning;
            },
            (BootPhase::Provisioning, BootEvent::Submitted(c)) => {
                self.cfg = Some(c);
                self.phase = BootPhase::Saving;
            },
            (BootPhase::Saving, BootEvent::Done) => {
                self.phase = BootPhase::Connecting;
            },
            (BootPhase::SettingVolume { volume }, BootEvent::Done) => {
                self.phase = BootPhase::Announcing;
            },
            (BootPhase::Announcing, BootEvent::Done) => {
                self.phase = BootPhase::StartingWakeWords;
            },
            (BootPhase::StartingWakeWords, BootEvent::Done) => {
                self.phase = BootPhase::Running;
            },
            (BootPhase::Running, BootEvent::Done) => {
                self.phase = BootPhase::Over { ok: true };
            },
            (BootPhase::Over { ok }, _) => {},
            (_, _) => {
                self.phase = BootPhase::Over { ok: false };
            },
        }
    }
}

/// The assistant is run only once a network was joined, and the volume that the device
/// starts with is never below the floor.
pub proof fn law_voice_needs_network(b: BootView)
    requires
        boot_in_order(b),
    ensures
        boot_awaits(b.phase) == Some(BootAction::RunVoice) ==> b.server is Some && b.cfg is Some,
        b.phase matches BootPhase::SettingVolume { volume } ==> volume >= VOLUME_FLOOR && volume
            >= b.cfg->0.volume,
{
}

/// A configuration that is submitted is saved before its networks are tried.
pub proof fn law_submitted_is_saved(b: BootView, c: ConfigView)
    requires
        b.phase == BootPhase::Provisioning,
    ensures
        ({
            let after = boot_after(b, BootEventView::Submitted(c));
            &&& boot_awaits(after.phase) == Some(BootAction::Save)
            &&& after.cfg == Some(c)
            &&& boot_awaits(boot_after(after, BootEventView::Done).phase) == Some(
                BootAction::Connect,
            )
        }),
{
}

/// Where no network is stored, or none can be joined, the device goes to the setup
/// portal, never to the assistant; it does not give up.
pub proof fn law_no_network_raises_portal(b: BootView)
    ensures
        b.phase == BootPhase::Loading ==> boot_awaits(
            boot_after(b, BootEventView::Loaded(None)).phase,
        ) == Some(BootAction::PromptPortal),
        b.phase == BootPhase::Connecting ==> boot_awaits(
            boot_after(b, BootEventView::Connected(None)).phase,
        ) == Some(BootAction::PromptPortal),
        b.phase == BootPhase::Prompting ==> boot_awaits(boot_after(b, BootEventView::Done).phase)
            == Some(BootAction::RunPortal),
{
}

/// Networks that are stored are tried before the portal is raised, and once one was
/// joined its server address is the one that the assistant runs with.
pub proof fn law_stored_networks_first(b: BootView, c: ConfigView, server: Seq<char>)
    requires
        b.phase == BootPhase::Loading,
    ensures
        ({
            let loaded = boot_after(b, BootEventView::Loaded(Some(c)));
            let joined = boot_after(loaded, BootEventView::Connected(Some(server)));
            let ready = boot_after(joined, BootEventView::Done);
            let awake = boot_after(ready, BootEventView::Done);
            let running = boot_after(awake, BootEventView::Done);
            &&& boot_awaits(loaded.phase) == Some(BootAction::Connect)
            &&& loaded.cfg == Some(c)
            &&& boot_awaits(joined.phase) == Some(
                BootAction::SetVolume(start_volume_for(c.volume)),
            )
            &&& boot_awaits(ready.phase) == Some(BootAction::PromptReady)
            &&& boot_awaits(awake.phase) == Some(BootAction::StartWakeWords)
            &&& boot_awaits(running.phase) == Some(BootAction::RunVoice)
            &&& running.server == Some(server)
        }),
{
}

/// The device starts with a test of its speaker: the volume at 85 and a tone of 1000 Hz
/// for 250 ms; then the stored configuration is loaded.
pub proof fn law_boot_starts(b: BootView)
    requires
        b.phase == BootPhase::TestVolume,
    ensures
        ({
            let set = boot_after(b, BootEventView::Done);
            let beeped = boot_after(set, BootEventView::Done);
            &&& boot_awaits(b.phase) == Some(BootAction::SetVolume(85))
            &&& boot_awaits(set.phase) == Some(BootAction::Beep { freq_hz: 1000, ms: 250 })
            &&& boot_awaits(beeped.phase) == Some(BootAction::Load)
            &&& beeped.cfg == b.cfg
            &&& beeped.server == b.server
        }),
{
}

/// The volume to start with is the one that was kept, or 70 where that is greater.
pub proof fn law_start_volume(kept: u8)
    ensures
        start_volume_for(kept) >= 70,
        start_volume_for(kept) >= kept,
        start_volume_for(kept) == 70 || start_volume_for(kept) == kept,
{
}

/// However the device came by its networks, once one of them was joined it sets the
/// volume, plays its prompt, brings up the wake words and runs the assistant with the
/// server address of that network, in this order.
pub proof fn law_joined_leads_to_voice(b: BootView, server: Seq<char>)
    requires
        b.phase == BootPhase::Connecting,
        b.cfg is Some,
    ensures
        ({
            let joined = boot_after(b, BootEventView::Connected(Some(server)));
            let ready = boot_after(joined, BootEventView::Done);
            let awake = boot_after(ready, BootEventView::Done);
            let running = boot_after(awake, BootEventView::Done);
            let ended = boot_after(running, BootEventView::Done);
            &&& boot_awaits(joined.phase) == Some(
                BootAction::SetVolume(start_volume_for(b.cfg->0.volume)),
            )
            &&& boot_awaits(ready.phase) == Some(BootAction::PromptReady)
            &&& boot_awaits(awake.phase) == Some(BootAction::StartWakeWords)
            &&& boot_awaits(running.phase) == Some(BootAction::RunVoice)
            &&& running.server == Some(server)
            &&& running.cfg == b.cfg
            &&& ended.phase == (BootPhase::Over { ok: true })
        }),
{
}

/// An action that fails ends the boot: nothing more is waited for, and it was not in good
/// order. A boot that is over stays as it is.
pub proof fn law_boot_failures(b: BootView, ev: BootEventView)
    ensures
        boot_awaits(b.phase) is Some ==> boot_after(b, BootEventView::Failed).phase == (
        BootPhase::Over { ok: false }),
        ev != BootEventView::Done && (match boot_awaits(b.phase) {
            Some(BootAction::Load) => false,
            Some(BootAction::Connect) => false,
            Some(BootAction::RunPortal) => false,
            Some(_) => true,
            None => false,
        }) ==> boot_after(b, ev).phase == (BootPhase::Over { ok: false }),
        boot_awaits(b.phase) is None ==> boot_after(b, ev) == b,
        boot_awaits(b.phase) is None <==> b.phase is Over,
{
}

/// The configuration at hand changes only where one is loaded or submitted, the server
/// address only where a network is joined.
pub proof fn law_boot_keeps(b: BootView, ev: BootEventView)
    ensures
        boot_after(b, ev).cfg != b.cfg ==> (boot_awaits(b.phase) == Some(BootAction::Load) && (
        ev matches BootEventView::Loaded(Some(c)) && boot_after(b, ev).cfg == Some(c)))
            || (boot_awaits(b.phase) == Some(BootAction::RunPortal) && (
        ev matches BootEventView::Submitted(c) && boot_after(b, ev).cfg == Some(c))),
        boot_after(b, ev).server != b.server ==> boot_awaits(b.phase) == Some(BootAction::Connect)
            && (ev matches BootEventView::Connected(Some(s)) && boot_after(b, ev).server == Some(s)),
{
}

/// The state of a boot is its phase, the contents of its configuration and its server
/// address; an event holds what came of the action.
pub proof fn law_boot_contents(b: Boot, c: StoredConfig, s: String)
    ensures
        b@.phase == b.phase,
        b.cfg == Some(c) ==> b@.cfg == Some(c@),
        b.cfg is None ==> b@.cfg is None,
        b.server == Some(s) ==> b@.server == Some(s@),
        b.server is None ==> b@.server is None,
        BootEvent::Done@ == BootEventView::Done,
        BootEvent::Failed@ == BootEventView::Failed,
        BootEvent::Loaded(Some(c))@ == BootEventView::Loaded(Some(c@)),
        BootEvent::Loaded(None)@ == BootEventView::Loaded(None),
        BootEvent::Submitted(c)@ == BootEventView::Submitted(c@),
        BootEvent::Connected(Some(s))@ == BootEventView::Connected(Some(s@)),
        BootEvent::Connected(None)@ == BootEventView::Connected(None),
{
}

} // verus!
