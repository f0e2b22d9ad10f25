//! What is saved is loaded back.

use vstd::prelude::*;
use vstd::utf8::*;

use crate::numbers::decimal;
use crate::numbers::law_decimal;
use crate::storage::answer_in;
use crate::storage::field_name;
use crate::storage::field_room;
use crate::storage::field_text;
use crate::storage::fits;
use crate::storage::lemma_keys;
use crate::storage::load_after;
use crate::storage::loaded_config;
use crate::storage::loader_in_order;
use crate::storage::loader_start;
use crate::storage::readable;
use crate::storage::saved_writes;
use crate::storage::slot_key;
use crate::storage::slot_network;
use crate::storage::slot_readable;
use crate::storage::slot_used;
use crate::storage::slot_writes;
use crate::storage::stored_config;
use crate::storage::stored_networks;
use crate::storage::written;
use crate::storage::AnswerView;
use crate::storage::ConfigView;
use crate::storage::CredView;
use crate::storage::LoadAsk;
use crate::storage::LoadPhase;
use crate::storage::LoaderView;
use crate::storage::Stored;
use crate::storage::WriteView;
use crate::storage::MAX_WIFI;
use crate::storage::NAMESPACE;

verus! {

// ---------------------------------------------------------------------------
// Loading
// ---------------------------------------------------------------------------
/// How far loading still has to go.
pub open spec fn load_rank(l: LoaderView) -> nat {
    match l.phase {
        LoadPhase::Asking(LoadAsk::Count) => 100,
        LoadPhase::Asking(LoadAsk::Ssid(i)) => (3 * (l.count - i) + 2) as nat,
        LoadPhase::Asking(LoadAsk::Pass(i)) => (3 * (l.count - i) + 1) as nat,
        LoadPhase::Asking(LoadAsk::Server(i)) => (3 * (l.count - i)) as nat,
        LoadPhase::Asking(LoadAsk::Volume) => 1,
        _ => 0,
    }
}

/// Where loading ends that is answered from the given store.
pub open spec fn load_run(st: Stored, l: LoaderView) -> LoaderView
    decreases load_rank(l),
{
    match l.phase {
        LoadPhase::Asking(ask) => if loader_in_order(l) {
            load_run(st, load_after(l, answer_in(st, ask)))
        } else {
            l
        },
        _ => l,
    }
}

/// The slots below `n` can be read.
spec fn readable_below(st: Stored, n: int) -> bool {
    forall|slot: int| 0 <= slot < n ==> #[trigger] slot_readable(st, slot)
}

/// What was found so far is what the store holds so far.
spec fn agrees(st: Stored, l: LoaderView) -> bool {
    match l.phase {
        LoadPhase::Asking(LoadAsk::Count) => l.wifis.len() == 0,
        LoadPhase::Asking(LoadAsk::Ssid(i)) => {
            &&& l.count == st.slots()
            &&& l.wifis == stored_networks(st, i as int)
            &&& readable_below(st, i as int)
        },
        LoadPhase::Asking(LoadAsk::Pass(i)) => {
            &&& l.count == st.slots()
            &&& l.wifis == stored_networks(st, i as int)
            &&& readable_below(st, i as int)
            &&& fits(st.field(i as int, 0), field_room(0))
            &&& slot_used(st, i as int)
            &&& l.ssid == slot_network(st, i as int).ssid
        },
        LoadPhase::Asking(LoadAsk::Server(i)) => {
            &&& l.count == st.slots()
            &&& l.wifis == stored_networks(st, i as int)
            &&& readable_below(st, i as int)
            &&& fits(st.field(i as int, 0), field_room(0))
            &&& fits(st.field(i as int, 1), field_room(1))
            &&& slot_used(st, i as int)
            &&& l.ssid == slot_network(st, i as int).ssid
            &&& l.pass == slot_network(st, i as int).pass
        },
        LoadPhase::Asking(LoadAsk::Volume) => {
            &&& l.wifis == stored_networks(st, st.slots())
            &&& readable(st)
        },
        LoadPhase::Empty => stored_config(st) is None && readable(st),
        LoadPhase::Loaded { volume } => loaded_config(l) == stored_config(st) && readable(st),
        LoadPhase::Failed => !readable(st),
    }
}

/// Loading keeps agreeing with the store that answers it.
proof fn lemma_load_step(st: Stored, l: LoaderView)
    requires
        loader_in_order(l),
        agrees(st, l),
        l.phase is Asking,
    ensures
        loader_in_order(load_after(l, answer_in(st, l.phase->Asking_0))),
        agrees(st, load_after(l, answer_in(st, l.phase->Asking_0))),
        load_rank(load_after(l, answer_in(st, l.phase->Asking_0))) < load_rank(l),
{
    let ask = l.phase->Asking_0;
    let m = load_after(l, answer_in(st, ask));
    match ask {
        LoadAsk::Count => {
            assert(l.wifis == Seq::<CredView>::empty());
            assert(stored_networks(st, 0) == Seq::<CredView>::empty());
        },
        LoadAsk::Ssid(i) => {
            assert(field_name(0) == "ssid"@);
            if m.phase == LoadPhase::Failed {
                assert(!slot_readable(st, i as int));
            } else if !slot_used(st, i as int) {
                assert(slot_readable(st, i as int));
                assert(stored_networks(st, i + 1) == stored_networks(st, i as int));
            }
        },
        LoadAsk::Pass(i) => {
            assert(field_name(1) == "pass"@);
            if m.phase == LoadPhase::Failed {
                assert(!slot_readable(st, i as int));
            }
        },
        LoadAsk::Server(i) => {
            assert(field_name(2) == "srv"@);
            if m.phase == LoadPhase::Failed {
                assert(!slot_readable(st, i as int));
            } else {
                assert(slot_readable(st, i as int));
                assert(stored_networks(st, i + 1) == m.wifis);
            }
        },
        LoadAsk::Volume => {},
    }
}

proof fn lemma_load_run(st: Stored, l: LoaderView)
    requires
        loader_in_order(l),
        agrees(st, l),
    ensures
        agrees(st, load_run(st, l)),
        !(load_run(st, l).phase is Asking),
    decreases load_rank(l),
{
    match l.phase {
        LoadPhase::Asking(ask) => {
            lemma_load_step(st, l);
            lemma_load_run(st, load_after(l, answer_in(st, ask)));
        },
        _ => {},
    }
}

/// Loading from a store ends, and gives the configuration that the store holds; it
/// fails where, and only where, a text that the configuration needs does not fit.
pub proof fn law_load(st: Stored)
    ensures
        readable(st) ==> loaded_config(load_run(st, loader_start())) == stored_config(st),
        readable(st) ==> (load_run(st, loader_start()).phase == LoadPhase::Empty <==> stored_config(
            st,
        ) is None),
        load_run(st, loader_start()).phase == LoadPhase::Failed <==> !readable(st),
        !(load_run(st, loader_start()).phase is Asking),
{
    lemma_load_run(st, loader_start());
}

/// What cannot be read fails loading, whatever was asked for; an end is final, and only a
/// good one gives a configuration.
pub proof fn law_load_failures(l: LoaderView, a: AnswerView)
    ensures
        l.phase is Asking ==> load_after(l, AnswerView::Failed).phase == LoadPhase::Failed,
        !(l.phase is Asking) ==> load_after(l, a) == l,
        loaded_config(l) is Some <==> l.phase is Loaded,
        loaded_config(l) matches Some(c) ==> c.wifis == l.wifis && l.phase == (LoadPhase::Loaded {
            volume: c.volume,
        }),
{
}

// ---------------------------------------------------------------------------
// Saving
// ---------------------------------------------------------------------------
/// A network that can be loaded back: its texts fit.
pub open spec fn cred_fits(w: CredView) -> bool {
    &&& fits(Some(w.ssid), field_room(0))
    &&& fits(Some(w.pass), field_room(1))
    &&& fits(Some(w.server), field_room(2))
}

/// Writing one list behind another is writing both.
proof fn lemma_written_concat(st: Stored, a: Seq<WriteView>, b: Seq<WriteView>)
    ensures
        written(st, a + b) == written(written(st, a), b),
    decreases b.len(),
{
    if b.len() == 0 {
        assert(a + b == a);
    } else {
        assert((a + b).drop_last() == a + b.drop_last());
        lemma_written_concat(st, a, b.drop_last());
    }
}

/// What the store holds once the slots below `n` are written.
proof fn lemma_slots_written(st: Stored, wifis: Seq<CredView>, n: nat)
    requires
        n <= wifis.len(),
        n <= MAX_WIFI,
    ensures
        written(st, slot_writes(wifis, n)).nums == st.nums,
        forall|i: int, k: int|
            0 <= i < n && 0 <= k < 3 ==> (#[trigger] written(st, slot_writes(wifis, n)).field(i, k))
                == Some(field_text(wifis[i], k)),
    decreases n,
{
    if n > 0 {
        let m = (n - 1) as nat;
        lemma_slots_written(st, wifis, m);
        let prev = written(st, slot_writes(wifis, m));
        let w = wifis[m as int];
        let k0 = slot_key("ssid"@, m);
        let k1 = slot_key("pass"@, m);
        let k2 = slot_key("srv"@, m);
        let last = seq![
            WriteView::Text(k0, w.ssid),
            WriteView::Text(k1, w.pass),
            WriteView::Text(k2, w.server),
        ];
        lemma_written_concat(st, slot_writes(wifis, m), last);
        assert(last.drop_last().drop_last().drop_last() == Seq::<WriteView>::empty());
        reveal_with_fuel(written, 4);
        let now = written(st, slot_writes(wifis, n));
        assert(now.texts == prev.texts.insert(k0, w.ssid).insert(k1, w.pass).insert(k2, w.server));
        assert forall|i: int, k: int| 0 <= i < n && 0 <= k < 3 implies (#[trigger] now.field(i, k))
            == Some(field_text(wifis[i], k)) by {
            lemma_keys(i as nat, k, m, 0);
            lemma_keys(i as nat, k, m, 1);
            lemma_keys(i as nat, k, m, 2);
            assert(field_name(0) == "ssid"@ && field_name(1) == "pass"@ && field_name(2)
                == "srv"@);
            if i < m {
                assert(prev.field(i, k) == Some(field_text(wifis[i], k)));
            }
        }
    }
}

/// What the store holds once a configuration is saved.
proof fn lemma_saved(st: Stored, c: ConfigView)
    ensures
        ({
            let n = if c.wifis.len() < MAX_WIFI {
                c.wifis.len()
            } else {
                MAX_WIFI as nat
            };
            let now = written(st, saved_writes(c));
            &&& now.num("n"@) == Some(n as u8)
            &&& now.num("volume"@) == Some(c.volume)
            &&& forall|i: int, k: int|
                0 <= i < n && 0 <= k < 3 ==> (#[trigger] now.field(i, k)) == Some(
                    field_text(c.wifis[i], k),
                )
        }),
{
    let n = if c.wifis.len() < MAX_WIFI {
        c.wifis.len()
    } else {
        MAX_WIFI as nat
    };
    let head = seq![WriteView::Num("n"@, n as u8)];
    let tail = seq![WriteView::Num("volume"@, c.volume)];
    let slots = slot_writes(c.wifis, n);
    reveal_strlit("n");
    reveal_strlit("volume");
    assert("n"@ != "volume"@) by {
        assert("n"@.len() == 1 && "volume"@.len() == 6);
    }
    lemma_written_concat(st, head + slots, tail);
    lemma_written_concat(st, head, slots);
    assert(head.drop_last() == Seq::<WriteView>::empty());
    assert(tail.drop_last() == Seq::<WriteView>::empty());
    reveal_with_fuel(written, 2);
    let first = written(st, head);
    lemma_slots_written(first, c.wifis, n);
    let second = written(first, slots);
    let now = written(st, saved_writes(c));
    assert(now.texts == second.texts);
    assert(now.nums == second.nums.insert("volume"@, c.volume));
    assert forall|i: int, k: int| 0 <= i < n && 0 <= k < 3 implies (#[trigger] now.field(i, k))
        == Some(field_text(c.wifis[i], k)) by {
        assert(second.field(i, k) == Some(field_text(c.wifis[i], k)));
    }
}

/// The first networks of a configuration that have a name, at most as many as are
/// kept.
pub open spec fn kept_networks(wifis: Seq<CredView>, n: int) -> Seq<CredView>
    decreases n,
{
    if n <= 0 {
        Seq::<CredView>::empty()
    } else if wifis[n - 1].ssid.len() > 0 {
        kept_networks(wifis, n - 1).push(wifis[n - 1])
    } else {
        kept_networks(wifis, n - 1)
    }
}

proof fn lemma_networks_kept(st: Stored, wifis: Seq<CredView>, n: int)
    requires
        0 <= n <= wifis.len(),
        forall|i: int, k: int|
            0 <= i < n && 0 <= k < 3 ==> (#[trigger] st.field(i, k)) == Some(
                field_text(wifis[i], k),
            ),
    ensures
        stored_networks(st, n) == kept_networks(wifis, n),
    decreases n,
{
    if n > 0 {
        lemma_networks_kept(st, wifis, n - 1);
        let i = n - 1;
        assert(st.field(i, 0) == Some(wifis[i].ssid));
        assert(st.field(i, 1) == Some(wifis[i].pass));
        assert(st.field(i, 2) == Some(wifis[i].server));
        assert(slot_network(st, i) == wifis[i]);
    }
}

/// What is saved is loaded back, whatever the store held before: the volume, and of
/// the networks the first ones that are kept, in order, without those that have no
/// name. Where none is kept, the store counts as empty; loading does not fail. All that
/// is asked is that the texts fit.
pub proof fn law_load_after_save(st: Stored, c: ConfigView)
    requires
        forall|i: int|
            0 <= i < c.wifis.len() && i < MAX_WIFI ==> cred_fits(#[trigger] c.wifis[i]),
    ensures
        ({
            let n = if c.wifis.len() < MAX_WIFI {
                c.wifis.len() as int
            } else {
                MAX_WIFI as int
            };
            let kept = kept_networks(c.wifis, n);
            let end = load_run(written(st, saved_writes(c)), loader_start());
            &&& end.phase != LoadPhase::Failed
            &&& end.phase == LoadPhase::Empty <==> kept.len() == 0
            &&& loaded_config(end) == (if kept.len() == 0 {
                None
            } else {
                Some(ConfigView { wifis: kept, volume: c.volume })
            })
        }),
{
    let n = if c.wifis.len() < MAX_WIFI {
        c.wifis.len() as int
    } else {
        MAX_WIFI as int
    };
    let now = written(st, saved_writes(c));
    lemma_saved(st, c);
    lemma_networks_kept(now, c.wifis, n);
    assert forall|slot: int| 0 <= slot < now.slots() implies #[trigger] slot_readable(
        now,
        slot,
    ) by {
        assert(cred_fits(c.wifis[slot]));
        assert(now.field(slot, 0) == Some(c.wifis[slot].ssid));
        assert(now.field(slot, 1) == Some(c.wifis[slot].pass));
        assert(now.field(slot, 2) == Some(c.wifis[slot].server));
    }
    law_load(now);
}

proof fn lemma_all_kept(wifis: Seq<CredView>, n: int)
    requires
        0 <= n <= wifis.len(),
        forall|i: int| 0 <= i < n ==> (#[trigger] wifis[i]).ssid.len() > 0,
    ensures
        kept_networks(wifis, n) == wifis.take(n),
    decreases n,
{
    if n > 0 {
        lemma_all_kept(wifis, n - 1);
        assert(wifis[n - 1].ssid.len() > 0);
        assert(wifis.take(n - 1).push(wifis[n - 1]) == wifis.take(n));
    } else {
        assert(wifis.take(0) == Seq::<CredView>::empty());
    }
}

/// A configuration of one to five named networks is loaded back as it was saved.
pub proof fn law_config_survives(st: Stored, c: ConfigView)
    requires
        1 <= c.wifis.len() <= MAX_WIFI,
        forall|i: int|
            0 <= i < c.wifis.len() ==> (#[trigger] c.wifis[i]).ssid.len() > 0 && cred_fits(
                c.wifis[i],
            ),
    ensures
        loaded_config(load_run(written(st, saved_writes(c)), loader_start())) == Some(c),
{
    law_load_after_save(st, c);
    lemma_all_kept(c.wifis, c.wifis.len() as int);
    assert(c.wifis.take(c.wifis.len() as int) == c.wifis);
}

/// Keeping the volume changes the stored volume and nothing else, and the next boot
/// loads it.
pub proof fn law_set_volume(st: Stored, volume: u8)
    ensures
        ({
            let now = written(st, seq![WriteView::Num("volume"@, volume)]);
            &&& readable(now) == readable(st)
            &&& stored_config(now) == (match stored_config(st) {
                Some(c) => Some(ConfigView { wifis: c.wifis, volume }),
                None => None,
            })
            &&& readable(st) ==> loaded_config(load_run(now, loader_start())) == stored_config(now)
        }),
{
    let one = seq![WriteView::Num("volume"@, volume)];
    assert(one.drop_last() == Seq::<WriteView>::empty());
    reveal_with_fuel(written, 2);
    let now = written(st, one);
    reveal_strlit("n");
    reveal_strlit("volume");
    assert("n"@ != "volume"@) by {
        assert("n"@.len() == 1 && "volume"@.len() == 6);
    }
    assert(now.texts == st.texts);
    assert(now.slots() == st.slots());
    lemma_same_texts(now, st, st.slots());
    if readable(st) {
        assert forall|slot: int| 0 <= slot < now.slots() implies #[trigger] slot_readable(
            now,
            slot,
        ) by {
            assert(slot_readable(st, slot));
        }
    }
    if readable(now) {
        assert forall|slot: int| 0 <= slot < st.slots() implies #[trigger] slot_readable(
            st,
            slot,
        ) by {
            assert(slot_readable(now, slot));
        }
    }
    law_load(now);
}

proof fn lemma_same_texts(a: Stored, b: Stored, n: int)
    requires
        a.texts == b.texts,
    ensures
        stored_networks(a, n) == stored_networks(b, n),
    decreases n,
{
    if n > 0 {
        lemma_same_texts(a, b, n - 1);
        assert(a.field(n - 1, 0) == b.field(n - 1, 0));
    }
}

// ---------------------------------------------------------------------------
// What a store holds
// ---------------------------------------------------------------------------
/// A store without a count has no slot in use, and a count above five stands for five.
pub proof fn law_slots(st: Stored)
    ensures
        st.num("n"@) is None ==> st.slots() == 0,
        st.num("n"@) matches Some(n) ==> st.slots() == (if n >= 5 {
            5int
        } else {
            n as int
        }),
{
}

/// The networks of a store, slot by slot: a slot without an SSID, or with an empty one,
/// gives none; any other gives its SSID, its password or an empty one, and its server
/// address, also an empty one, or, where it has none, the default address.
pub proof fn law_stored_slot(st: Stored, n: int)
    requires
        n >= 0,
    ensures
        stored_networks(st, 0).len() == 0,
        st.field(n, 0) is None || st.field(n, 0)->0.len() == 0 ==> stored_networks(st, n + 1)
            == stored_networks(st, n),
        st.field(n, 0) matches Some(ssid) && ssid.len() > 0 ==> {
            let more = stored_networks(st, n + 1);
            &&& more.len() == stored_networks(st, n).len() + 1
            &&& more.drop_last() == stored_networks(st, n)
            &&& more.last().ssid == st.field(n, 0)->0
            &&& st.field(n, 1) matches Some(p) ==> more.last().pass == p
            &&& st.field(n, 1) is None ==> more.last().pass.len() == 0
            &&& st.field(n, 2) matches Some(v) ==> more.last().server == v
            &&& st.field(n, 2) is None ==> more.last().server == "192.168.8.100:9000"@
        },
{
    let before = stored_networks(st, n);
    assert(stored_networks(st, n + 1 - 1) == before);
    if slot_used(st, n) {
        assert(before.push(slot_network(st, n)).drop_last() == before);
    }
}

/// A store holds a configuration where, and only where, one of its slots in use names a
/// network; its volume is the stored one, or 75 where none is stored.
pub proof fn law_stored_config(st: Stored)
    ensures
        stored_config(st) is Some <==> exists|i: int|
            0 <= i < st.slots() && (#[trigger] st.field(i, 0) matches Some(ssid) && ssid.len() > 0),
        stored_config(st) matches Some(c) ==> {
            &&& c.wifis == stored_networks(st, st.slots())
            &&& st.num("volume"@) matches Some(v) ==> c.volume == v
            &&& st.num("volume"@) is None ==> c.volume == 75
        },
{
    lemma_some_network(st, st.slots());
}

proof fn lemma_some_network(st: Stored, n: int)
    ensures
        stored_networks(st, n).len() > 0 <==> exists|i: int|
            0 <= i < n && (#[trigger] st.field(i, 0) matches Some(ssid) && ssid.len() > 0),
    decreases n,
{
    if n > 0 {
        lemma_some_network(st, n - 1);
        if slot_used(st, n - 1) {
            assert(st.field(n - 1, 0) matches Some(ssid) && ssid.len() > 0);
        } else if stored_networks(st, n - 1).len() > 0 {
            let i = choose|i: int|
                0 <= i < n - 1 && (#[trigger] st.field(i, 0) matches Some(ssid) && ssid.len() > 0);
            assert(st.field(i, 0) matches Some(ssid) && ssid.len() > 0);
        }
    }
}

/// A store can be read where, and only where, no SSID of a slot in use is longer than 63
/// bytes, and no password or server address of a slot that names a network is longer than
/// 95.
pub proof fn law_readable(st: Stored)
    ensures
        readable(st) <==> forall|i: int|
            0 <= i < st.slots() ==> {
                &&& (#[trigger] st.field(i, 0) matches Some(t) ==> encode_utf8(t).len() < 64)
                &&& (st.field(i, 0) matches Some(t) && t.len() > 0) ==> {
                    &&& (st.field(i, 1) matches Some(p) ==> encode_utf8(p).len() < 96)
                    &&& (st.field(i, 2) matches Some(v) ==> encode_utf8(v).len() < 96)
                }
            },
{
    if readable(st) {
        assert forall|i: int| 0 <= i < st.slots() implies {
            &&& (#[trigger] st.field(i, 0) matches Some(t) ==> encode_utf8(t).len() < 64)
            &&& (st.field(i, 0) matches Some(t) && t.len() > 0) ==> {
                &&& (st.field(i, 1) matches Some(p) ==> encode_utf8(p).len() < 96)
                &&& (st.field(i, 2) matches Some(v) ==> encode_utf8(v).len() < 96)
            }
        } by {
            assert(slot_readable(st, i));
        }
    } else {
        let i = choose|i: int| 0 <= i < st.slots() && !(#[trigger] slot_readable(st, i));
        let t = st.field(i, 0);
        assert(!slot_readable(st, i));
    }
}

/// The keys of a slot, in the namespace of the settings: the name of the field and the
/// number of the slot.
pub proof fn law_slot_keys(st: Stored, i: int)
    requires
        0 <= i < 10,
    ensures
        st.field(i, 0) == st.text("ssid"@.push((0x30 + i) as char)),
        st.field(i, 1) == st.text("pass"@.push((0x30 + i) as char)),
        st.field(i, 2) == st.text("srv"@.push((0x30 + i) as char)),
        NAMESPACE@ == "voicecfg"@,
{
    law_decimal(0, i as nat);
    let c = (0x30 + i) as char;
    assert("ssid"@ + decimal(i as nat) == "ssid"@.push(c));
    assert("pass"@ + decimal(i as nat) == "pass"@.push(c));
    assert("srv"@ + decimal(i as nat) == "srv"@.push(c));
}

/// Of the networks of a configuration those with a name are kept, in order, each as it is.
pub proof fn law_kept_networks(wifis: Seq<CredView>, n: int)
    requires
        0 <= n < wifis.len(),
    ensures
        kept_networks(wifis, 0).len() == 0,
        kept_networks(wifis, n + 1) == kept_networks(wifis, n) + (if wifis[n].ssid.len() == 0 {
            Seq::<CredView>::empty()
        } else {
            seq![wifis[n]]
        }),
{
    assert(kept_networks(wifis, n + 1 - 1) == kept_networks(wifis, n));
    assert(kept_networks(wifis, n) + Seq::<CredView>::empty() == kept_networks(wifis, n));
    assert(kept_networks(wifis, n) + seq![wifis[n]] == kept_networks(wifis, n).push(wifis[n]));
}

/// Saving writes the number of networks, at most five, first, then the name, the password
/// and the server address of each, and the volume last; nothing else.
pub proof fn law_saved_writes(c: ConfigView, i: int)
    ensures
        ({
            let n = if c.wifis.len() < 5 {
                c.wifis.len() as int
            } else {
                5
            };
            let w = saved_writes(c);
            &&& w.len() == 3 * n + 2
            &&& w[0] == WriteView::Num("n"@, n as u8)
            &&& w[3 * n + 1] == WriteView::Num("volume"@, c.volume)
            &&& 0 <= i < n ==> {
                let d = (0x30 + i) as char;
                &&& w[3 * i + 1] == WriteView::Text("ssid"@.push(d), c.wifis[i].ssid)
                &&& w[3 * i + 2] == WriteView::Text("pass"@.push(d), c.wifis[i].pass)
                &&& w[3 * i + 3] == WriteView::Text("srv"@.push(d), c.wifis[i].server)
            }
        }),
{
    let n = if c.wifis.len() < 5 {
        c.wifis.len()
    } else {
        5
    };
    lemma_slot_writes(c.wifis, n, i);
    if 0 <= i < n {
        law_decimal(0, i as nat);
        let d = (0x30 + i) as char;
        assert("ssid"@ + decimal(i as nat) == "ssid"@.push(d));
        assert("pass"@ + decimal(i as nat) == "pass"@.push(d));
        assert("srv"@ + decimal(i as nat) == "srv"@.push(d));
    }
}

proof fn lemma_slot_writes(wifis: Seq<CredView>, n: nat, i: int)
    ensures
        slot_writes(wifis, n).len() == 3 * n,
        0 <= i < n ==> {
            &&& slot_writes(wifis, n)[3 * i] == WriteView::Text(
                slot_key("ssid"@, i as nat),
                wifis[i].ssid,
            )
            &&& slot_writes(wifis, n)[3 * i + 1] == WriteView::Text(
                slot_key("pass"@, i as nat),
                wifis[i].pass,
            )
            &&& slot_writes(wifis, n)[3 * i + 2] == WriteView::Text(
                slot_key("srv"@, i as nat),
                wifis[i].server,
            )
        },
    decreases n,
{
    if n > 0 {
        lemma_slot_writes(wifis, (n - 1) as nat, i);
    }
}

} // verus!
