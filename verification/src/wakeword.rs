//! The two wake words. The recogniser itself is foreign code; here stands in which
//! order it is brought up, what is made of its answers, and whom a detection names.

use vstd::prelude::*;

verus! {

/// The persona that answers to "Sophia".
pub const PERSONA_SOPHIA: u8 = 0;

/// The persona that answers to "Jarvis".
pub const PERSONA_JARVIS: u8 = 1;

/// The index of a wake word that is not loaded.
pub const NO_INDEX: i32 = -1;

// ---------------------------------------------------------------------------
// Detection
// ---------------------------------------------------------------------------
/// The loaded recogniser, as far as its answers depend on it.
#[derive(Clone, Copy, Debug, PartialEq, Eq)]
pub struct WakeWord {
    /// Samples per channel that it takes at a time.
    pub feed_chunk: usize,
    /// Channels that it takes.
    pub channels: usize,
    /// The index, counted from one, under which it reports "Jarvis".
    pub jarvis_index: i32,
}

/// What the recogniser reported on a frame.
#[derive(Clone, Copy, Debug, PartialEq, Eq)]
pub enum Report {
    /// Nothing at all.
    Nothing,
    /// No wake word.
    Quiet,
    /// The wake word with this index.
    Detected(i32),
}

/// Whom the wake word with the given index names: Jarvis under the index of "Jarvis",
/// Sophia under every other.
pub open spec fn persona_for(jarvis_index: i32, index: i32) -> u8 {
    if index == jarvis_index {
        PERSONA_JARVIS
    } else {
        PERSONA_SOPHIA
    }
}

impl WakeWord {
    /// Samples that a frame has.
    pub fn frame_len(&self) -> (r: usize)
        requires
            self.feed_chunk * self.channels <= usize::MAX,
        ensures
            r == self.feed_chunk * self.channels,
    {
        self.feed_chunk * self.channels
    }

    /// The persona that a report on a frame wakes, if any.
    pub fn process(&self, report: Report) -> (r: Option<u8>)
        ensures
            r == (match report {
                Report::Detected(index) => Some(persona_for(self.jarvis_index, index)),
                _ => None,
            }),
    {
        match report {
            Report::Detected(index) => if index == self.jarvis_index {
                Some(PERSONA_JARVIS)
            } else {
                Some(PERSONA_SOPHIA)
            },
            _ => None,
        }
    }
}

// ---------------------------------------------------------------------------
// Bringing the recogniser up
// ---------------------------------------------------------------------------
/// Why the recogniser could not be brought up.
#[derive(Clone, Copy, Debug, PartialEq, Eq, Structural)]
pub enum WakeError {
    /// The model partition holds no model.
    NoModels,
    /// The model of "Sophia" is not among them.
    NoSophia,
    /// There is no configuration.
    NoConfig,
    /// There is no recogniser for the configuration.
    NoHandle,
    /// The recogniser cannot be created.
    NoCreate,
    /// It was not created.
    NoData,
    /// It does not tell how many samples it takes.
    NoChunkSize,
    /// It does not tell how many channels it takes.
    NoChannels,
}

/// What an error says.
pub open spec fn error_text(e: WakeError) -> Seq<char> {
    match e {
        WakeError::NoModels =>
            "esp_srmodel_init(\"model\") found no models (partition not flashed?)"@,
        WakeError::NoSophia => "Sophia WakeNet model (wn9_sophia_tts) not in partition"@,
        WakeError::NoConfig => "afe_config_init returned null"@,
        WakeError::NoHandle => "esp_afe_handle_from_config returned null"@,
        WakeError::NoCreate => "afe.create_from_config is null"@,
        WakeError::NoData => "afe create_from_config returned null"@,
        WakeError::NoChunkSize => "afe.get_feed_chunksize is null"@,
        WakeError::NoChannels => "afe.get_feed_channel_num is null"@,
    }
}

/// What an error says.
pub fn error_message(e: WakeError) -> (r: String)
    ensures
        r@ == error_text(e),
{
    match e {
        WakeError::NoModels =>
            "esp_srmodel_init(\"model\") found no models (partition not flashed?)".to_string(),
        WakeError::NoSophia => "Sophia WakeNet model (wn9_sophia_tts) not in partition".to_string(),
        WakeError::NoConfig => "afe_config_init returned null".to_string(),
        WakeError::NoHandle => "esp_afe_handle_from_config returned null".to_string(),
        WakeError::NoCreate => "afe.create_from_config is null".to_string(),
        WakeError::NoData => "afe create_from_config returned null".to_string(),
        WakeError::NoChunkSize => "afe.get_feed_chunksize is null".to_string(),
        WakeError::NoChannels => "afe.get_feed_channel_num is null".to_string(),
    }
}

/// What the bring-up asks of the recogniser.
#[derive(Clone, Copy, Debug, PartialEq, Eq, Structural)]
pub enum WakeAction {
    /// Open the models; answered by their number.
    OpenModels,
    /// Look for the model of "Sophia".
    FindSophia,
    /// Look for the model of "Jarvis".
    FindJarvis,
    /// Make a configuration with "Sophia" as its one wake word.
    MakeConfig,
    /// Get the recogniser for the configuration.
    GetHandle,
    /// Get its way of being created.
    GetCreate,
    /// Create it, and free the configuration.
    Create,
    /// Load "Jarvis" as a second wake word; answered by the number of wake words.
    LoadJarvis,
    /// Ask how many samples it takes.
    AskChunkSize,
    /// Ask how many channels it takes.
    AskChannels,
}

/// An answer of the recogniser.
#[derive(Clone, Copy, Debug, PartialEq, Eq, Structural)]
pub enum WakeAnswer {
    /// It is there.
    Found,
    /// It is not there.
    Missing,
    /// A count, or an index.
    Count(i32),
    /// A size.
    Size(usize),
}

/// Where the bring-up stands.
#[derive(Clone, Copy, Debug, PartialEq, Eq, Structural)]
pub enum WakePhase {
    Asking(WakeAction),
    Ready,
    Failed(WakeError),
}

/// The bring-up of the recogniser.
#[derive(Clone, Copy, Debug, PartialEq, Eq, Structural)]
pub struct WakeSetup {
    pub phase: WakePhase,
    /// The model of "Sophia" was found.
    pub has_sophia: bool,
    /// The model of "Jarvis" was found.
    pub has_jarvis: bool,
    pub jarvis_index: i32,
    pub feed_chunk: usize,
    pub channels: usize,
}

/// The phase that follows on an answer.
pub open spec fn wake_phase_after(s: WakeSetup, answer: WakeAnswer) -> WakePhase {
    match (s.phase, answer) {
        (WakePhase::Asking(WakeAction::OpenModels), WakeAnswer::Count(n)) => if n > 0 {
            WakePhase::Asking(WakeAction::FindSophia)
        } else {
            WakePhase::Failed(WakeError::NoModels)
        },
        (WakePhase::Asking(WakeAction::OpenModels), _) => WakePhase::Failed(WakeError::NoModels),
        // Both models are looked for before anything is made of it.
        (WakePhase::Asking(WakeAction::FindSophia), _) => WakePhase::Asking(WakeAction::FindJarvis),
        // Without "Jarvis" the device runs with "Sophia" alone.
        (WakePhase::Asking(WakeAction::FindJarvis), _) => if s.has_sophia {
            WakePhase::Asking(WakeAction::MakeConfig)
        } else {
            WakePhase::Failed(WakeError::NoSophia)
        },
        (WakePhase::Asking(WakeAction::MakeConfig), WakeAnswer::Found) => WakePhase::Asking(
            WakeAction::GetHandle,
        ),
        (WakePhase::Asking(WakeAction::MakeConfig), _) => WakePhase::Failed(WakeError::NoConfig),
        (WakePhase::Asking(WakeAction::GetHandle), WakeAnswer::Found) => WakePhase::Asking(
            WakeAction::GetCreate,
        ),
        (WakePhase::Asking(WakeAction::GetHandle), _) => WakePhase::Failed(WakeError::NoHandle),
        (WakePhase::Asking(WakeAction::GetCreate), WakeAnswer::Found) => WakePhase::Asking(
            WakeAction::Create,
        ),
        (WakePhase::Asking(WakeAction::GetCreate), _) => WakePhase::Failed(WakeError::NoCreate),
        (WakePhase::Asking(WakeAction::Create), WakeAnswer::Found) => WakePhase::Asking(
            if s.has_jarvis {
                WakeAction::LoadJarvis
            } else {
                WakeAction::AskChunkSize
            },
        ),
        (WakePhase::Asking(WakeAction::Create), _) => WakePhase::Failed(WakeError::NoData),
        (WakePhase::Asking(WakeAction::LoadJarvis), _) => WakePhase::Asking(
            WakeAction::AskChunkSize,
        ),
        (WakePhase::Asking(WakeAction::AskChunkSize), WakeAnswer::Size(n)) => WakePhase::Asking(
            WakeAction::AskChannels,
        ),
        (WakePhase::Asking(WakeAction::AskChunkSize), _) => WakePhase::Failed(
            WakeError::NoChunkSize,
        ),
        (WakePhase::Asking(WakeAction::AskChannels), WakeAnswer::Size(n)) => WakePhase::Ready,
        (WakePhase::Asking(WakeAction::AskChannels), _) => WakePhase::Failed(WakeError::NoChannels),
        (WakePhase::Ready, _) => WakePhase::Ready,
        (WakePhase::Failed(e), _) => WakePhase::Failed(e),
    }
}

/// What the bring-up is after an answer.
pub open spec fn wake_after(s: WakeSetup, answer: WakeAnswer) -> WakeSetup {
    WakeSetup {
        phase: wake_phase_after(s, answer),
        has_sophia: if s.phase == WakePhase::Asking(WakeAction::FindSophia) {
            answer == WakeAnswer::Found
        } else {
            s.has_sophia
        },
        has_jarvis: if s.phase == WakePhase::Asking(WakeAction::FindJarvis) {
            answer == WakeAnswer::Found
        } else {
            s.has_jarvis
        },
        jarvis_index: match (s.phase, answer) {
            (WakePhase::Asking(WakeAction::LoadJarvis), WakeAnswer::Count(n)) => if n > 0 {
                n
            } else {
                s.jarvis_index
            },
            (_, _) => s.jarvis_index,
        },
        feed_chunk: match (s.phase, answer) {
            (WakePhase::Asking(WakeAction::AskChunkSize), WakeAnswer::Size(n)) => n,
            (_, _) => s.feed_chunk,
        },
        channels: match (s.phase, answer) {
            (WakePhase::Asking(WakeAction::AskChannels), WakeAnswer::Size(n)) => n,
            (_, _) => s.channels,
        },
    }
}

/// The phases that a bring-up without the model of "Sophia" can be in.
pub open spec fn without_sophia(phase: WakePhase) -> bool {
    match phase {
        WakePhase::Asking(WakeAction::OpenModels) => true,
        WakePhase::Asking(WakeAction::FindSophia) => true,
        WakePhase::Asking(WakeAction::FindJarvis) => true,
        WakePhase::Failed(_) => true,
        _ => false,
    }
}

/// The phases before "Jarvis" is loaded.
pub open spec fn before_loading(phase: WakePhase) -> bool {
    match phase {
        WakePhase::Asking(WakeAction::AskChunkSize) => false,
        WakePhase::Asking(WakeAction::AskChannels) => false,
        WakePhase::Asking(_) => true,
        WakePhase::Ready => false,
        WakePhase::Failed(_) => false,
    }
}

impl WakeSetup {
    /// What holds of every bring-up: the index of "Jarvis" is none, or one that the
    /// recogniser gave for a model that was found, and without the model of "Sophia"
    /// nothing is configured.
    pub open spec fn valid(self) -> bool {
        &&& self.jarvis_index == NO_INDEX || self.jarvis_index > 0 && self.has_jarvis
        &&& before_loading(self.phase) ==> self.jarvis_index == NO_INDEX
        &&& self.phase == WakePhase::Asking(WakeAction::LoadJarvis) ==> self.has_jarvis
        &&& !without_sophia(self.phase) ==> self.has_sophia
    }

    /// A bring-up at its start.
    pub fn new() -> (r: WakeSetup)
        ensures
            r.valid(),
            r == (WakeSetup {
                phase: WakePhase::Asking(WakeAction::OpenModels),
                has_sophia: false,
                has_jarvis: false,
                jarvis_index: NO_INDEX,
                feed_chunk: 0,
                channels: 0,
            }),
    {
        WakeSetup {
            phase: WakePhase::Asking(WakeAction::OpenModels),
            has_sophia: false,
            has_jarvis: false,
            jarvis_index: NO_INDEX,
            feed_chunk: 0,
            channels: 0,
        }
    }

    /// Goes on with an answer to what was asked.
    pub fn resume(&mut self, answer: WakeAnswer)
        requires
            old(self).valid(),
        ensures
            final(self).valid(),
            *final(self) == wake_after(*old(self), answer),
    {
        match self.phase {
            WakePhase::Asking(action) => {
                self.phase = match action {
                    WakeAction::OpenModels => match answer {
                        WakeAnswer::Count(n) => if n > 0 {
                            WakePhase::Asking(WakeAction::FindSophia)
                        } else {
                            WakePhase::Failed(WakeError::NoModels)
                        },
                        _ => WakePhase::Failed(WakeError::NoModels),
                    },
                    WakeAction::FindSophia => {
                        self.has_sophia = match answer {
                            WakeAnswer::Found => true,
                            _ => false,
                        };
                        WakePhase::Asking(WakeAction::FindJarvis)
                    },
                    WakeAction::FindJarvis => {
                        self.has_jarvis = match answer {
                            WakeAnswer::Found => true,
                            _ => false,
                        };
                        if self.has_sophia {
                            WakePhase::Asking(WakeAction::MakeConfig)
                        } else {
                            WakePhase::Failed(WakeError::NoSophia)
                        }
                    },
                    WakeAction::MakeConfig => asked(
                        answer,
                        WakeAction::GetHandle,
                        WakeError::NoConfig,
                    ),
                    WakeAction::GetHandle => asked(
                        answer,
                        WakeAction::GetCreate,
                        WakeError::NoHandle,
                    ),
                    WakeAction::GetCreate => asked(answer, WakeAction::Create, WakeError::NoCreate),
                    WakeAction::Create => asked(
                        answer,
                        if self.has_jarvis {
                            WakeAction::LoadJarvis
                        } else {
                            WakeAction::AskChunkSize
                        },
                        WakeError::NoData,
                    ),
                    WakeAction::LoadJarvis => {
                        match answer {
                            WakeAnswer::Count(n) => if n > 0 {
                                self.jarvis_index = n;
                            },
                            _ => {},
                        }
                        WakePhase::Asking(WakeAction::AskChunkSize)
                    },
                    WakeAction::AskChunkSize => match answer {
                        WakeAnswer::Size(n) => {
                            self.feed_chunk = n;
                            WakePhase::Asking(WakeAction::AskChannels)
                        },
                        _ => WakePhase::Failed(WakeError::NoChunkSize),
                    },
                    WakeAction::AskChannels => match answer {
                        WakeAnswer::Size(n) => {
                            self.channels = n;
                            WakePhase::Ready
                        },
                        _ => WakePhase::Failed(WakeError::NoChannels),
                    },
                };
            },
            _ => {},
        }
    }

    /// The recogniser, once it is up.
    pub fn wake_word(&self) -> (r: Option<WakeWord>)
        ensures
            r == (if self.phase == WakePhase::Ready {
                Some(
                    WakeWord {
                        feed_chunk: self.feed_chunk,
                        channels: self.channels,
                        jarvis_index: self.jarvis_index,
                    },
                )
            } else {
                None
            }),
    {
        match self.phase {
            WakePhase::Ready => Some(
                WakeWord {
                    feed_chunk: self.feed_chunk,
                    channels: self.channels,
                    jarvis_index: self.jarvis_index,
                },
            ),
            _ => None,
        }
    }
}

/// What follows where something must be there.
fn asked(answer: WakeAnswer, next: WakeAction, error: WakeError) -> (r: WakePhase)
    ensures
        r == (if answer == WakeAnswer::Found {
            WakePhase::Asking(next)
        } else {
            WakePhase::Failed(error)
        }),
{
    match answer {
        WakeAnswer::Found => WakePhase::Asking(next),
        _ => WakePhase::Failed(error),
    }
}

/// Where "Jarvis" was loaded, the index that the recogniser gave for it names Jarvis,
/// and no other index does. Where it was not found, or not loaded, the device is
/// brought up all the same and every index, counted from one, names Sophia.
pub proof fn law_persona_follows_index(s: WakeSetup, answer: WakeAnswer, index: i32)
    requires
        s.valid(),
        index >= 1,
    ensures
        s.phase == WakePhase::Asking(WakeAction::LoadJarvis) ==> {
            let t = wake_after(s, answer);
            &&& t.phase == WakePhase::Asking(WakeAction::AskChunkSize)
            &&& persona_for(t.jarvis_index, index) == (if answer == WakeAnswer::Count(index) {
                PERSONA_JARVIS
            } else {
                PERSONA_SOPHIA
            })
        },
        s.phase == WakePhase::Asking(WakeAction::Create) && !s.has_jarvis ==> wake_phase_after(
            s,
            WakeAnswer::Found,
        ) == WakePhase::Asking(WakeAction::AskChunkSize),
        !s.has_jarvis ==> persona_for(s.jarvis_index, index) == PERSONA_SOPHIA,
{
}

/// Both models are looked for, whatever comes of the first; without "Sophia" the
/// bring-up then fails, with or without "Jarvis", and with it goes on.
pub proof fn law_sophia_is_needed(s: WakeSetup, sophia: WakeAnswer, jarvis: WakeAnswer)
    requires
        s.phase == WakePhase::Asking(WakeAction::FindSophia),
    ensures
        ({
            let looked = wake_after(s, sophia);
            &&& looked.phase == WakePhase::Asking(WakeAction::FindJarvis)
            &&& wake_phase_after(looked, jarvis) == (if sophia == WakeAnswer::Found {
                WakePhase::Asking(WakeAction::MakeConfig)
            } else {
                WakePhase::Failed(WakeError::NoSophia)
            })
        }),
{
}

/// How far the bring-up still has to go.
pub open spec fn wake_rank(phase: WakePhase) -> int {
    match phase {
        WakePhase::Asking(WakeAction::OpenModels) => 10,
        WakePhase::Asking(WakeAction::FindSophia) => 9,
        WakePhase::Asking(WakeAction::FindJarvis) => 8,
        WakePhase::Asking(WakeAction::MakeConfig) => 7,
        WakePhase::Asking(WakeAction::GetHandle) => 6,
        WakePhase::Asking(WakeAction::GetCreate) => 5,
        WakePhase::Asking(WakeAction::Create) => 4,
        WakePhase::Asking(WakeAction::LoadJarvis) => 3,
        WakePhase::Asking(WakeAction::AskChunkSize) => 2,
        WakePhase::Asking(WakeAction::AskChannels) => 1,
        _ => 0,
    }
}

/// Every answer brings the bring-up closer to its end.
pub proof fn law_wake_setup_ends(s: WakeSetup, answer: WakeAnswer)
    ensures
        wake_rank(s.phase) > 0 ==> wake_rank(wake_phase_after(s, answer)) < wake_rank(s.phase),
        wake_rank(s.phase) == 0 ==> s.phase == WakePhase::Ready || s.phase is Failed,
{
}

/// Jarvis (persona 1) answers to the index of "Jarvis" and to no other; Sophia (persona 0)
/// answers to every other.
pub proof fn law_persona(jarvis_index: i32, index: i32)
    ensures
        persona_for(jarvis_index, index) == 1 <==> index == jarvis_index,
        persona_for(jarvis_index, index) == 0 <==> index != jarvis_index,
{
}

/// With models in the partition, "Sophia" among them, and nothing missing, the bring-up
/// asks for one thing after the other, in this order, and ends with the sizes that the
/// recogniser told. "Jarvis" is loaded where its model was found, and only there; the index
/// that the recogniser then gives is the index of "Jarvis", and any other answer leaves it
/// without one.
pub proof fn law_bring_up_succeeds(
    s: WakeSetup,
    models: i32,
    jarvis: WakeAnswer,
    loaded: WakeAnswer,
    chunk: usize,
    channels: usize,
)
    requires
        s.phase == WakePhase::Asking(WakeAction::OpenModels),
        s.jarvis_index == NO_INDEX,
        models > 0,
    ensures
        ({
            let opened = wake_after(s, WakeAnswer::Count(models));
            let sophia = wake_after(opened, WakeAnswer::Found);
            let both = wake_after(sophia, jarvis);
            let configured = wake_after(both, WakeAnswer::Found);
            let handled = wake_after(configured, WakeAnswer::Found);
            let creatable = wake_after(handled, WakeAnswer::Found);
            let created = wake_after(creatable, WakeAnswer::Found);
            let up = if jarvis == WakeAnswer::Found {
                wake_after(created, loaded)
            } else {
                created
            };
            let sized = wake_after(up, WakeAnswer::Size(chunk));
            let ready = wake_after(sized, WakeAnswer::Size(channels));
            &&& opened.phase == WakePhase::Asking(WakeAction::FindSophia)
            &&& sophia.phase == WakePhase::Asking(WakeAction::FindJarvis)
            &&& both.phase == WakePhase::Asking(WakeAction::MakeConfig)
            &&& configured.phase == WakePhase::Asking(WakeAction::GetHandle)
            &&& handled.phase == WakePhase::Asking(WakeAction::GetCreate)
            &&& creatable.phase == WakePhase::Asking(WakeAction::Create)
            &&& created.phase == (if jarvis == WakeAnswer::Found {
                WakePhase::Asking(WakeAction::LoadJarvis)
            } else {
                WakePhase::Asking(WakeAction::AskChunkSize)
            })
            &&& up.phase == WakePhase::Asking(WakeAction::AskChunkSize)
            &&& sized.phase == WakePhase::Asking(WakeAction::AskChannels)
            &&& ready.phase == WakePhase::Ready
            &&& ready.feed_chunk == chunk
            &&& ready.channels == channels
            &&& jarvis == WakeAnswer::Found && (loaded matches WakeAnswer::Count(n) && n > 0)
                ==> ready.jarvis_index == loaded->Count_0
            &&& !(jarvis == WakeAnswer::Found && (loaded matches WakeAnswer::Count(n) && n > 0))
                ==> ready.jarvis_index == -1
        }),
{
}

/// Whatever else is missing fails the bring-up with the error that names it, and an end,
/// good or bad, is final.
pub proof fn law_bring_up_fails(s: WakeSetup, answer: WakeAnswer)
    ensures
        s.phase == WakePhase::Asking(WakeAction::OpenModels) && !(answer matches WakeAnswer::Count(n)
            && n > 0) ==> wake_phase_after(s, answer) == WakePhase::Failed(WakeError::NoModels),
        s.phase == WakePhase::Asking(WakeAction::MakeConfig) && answer != WakeAnswer::Found
            ==> wake_phase_after(s, answer) == WakePhase::Failed(WakeError::NoConfig),
        s.phase == WakePhase::Asking(WakeAction::GetHandle) && answer != WakeAnswer::Found
            ==> wake_phase_after(s, answer) == WakePhase::Failed(WakeError::NoHandle),
        s.phase == WakePhase::Asking(WakeAction::GetCreate) && answer != WakeAnswer::Found
            ==> wake_phase_after(s, answer) == WakePhase::Failed(WakeError::NoCreate),
        s.phase == WakePhase::Asking(WakeAction::Create) && answer != WakeAnswer::Found
            ==> wake_phase_after(s, answer) == WakePhase::Failed(WakeError::NoData),
        s.phase == WakePhase::Asking(WakeAction::AskChunkSize) && !(answer is Size)
            ==> wake_phase_after(s, answer) == WakePhase::Failed(WakeError::NoChunkSize),
        s.phase == WakePhase::Asking(WakeAction::AskChannels) && !(answer is Size)
            ==> wake_phase_after(s, answer) == WakePhase::Failed(WakeError::NoChannels),
        !(s.phase is Asking) ==> wake_after(s, answer) == s,
{
}

} // verus!
