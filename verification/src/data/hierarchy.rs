pub mod messages;
pub mod subscriptions;

use vstd::prelude::*;

use crate::data::common::{
    db_record_of, Broker, Msg, PayloadError, PublicMsg, PublicStatus, SubscribeHis, SubscribeStatus, SubscribeTopic, TabStatus,
    UnsubcribeTracing,
};
use crate::data::db::BrokerDB;
use crate::data::{AString, AppEvent, Effect, EventUnSubscribe};
use crate::util::db::{is_default_broker, ArcDb, DbWrite};
use crate::ForError;

verus! {

/// The most messages a broker keeps; older ones are dropped.
pub const MAX_MSGS: usize = 50;

/// Why a change of the application state was refused.
#[derive(Debug, Clone, Copy, PartialEq, Eq, Structural)]
pub enum AppError {
    /// No broker has this id.
    BrokerNotFound(usize),
    /// No broker is selected.
    NoSelectedBroker,
    /// No broker has this position.
    BrokerIndexNotFound(usize),
    /// No history entry of the selected broker is selected.
    NoSelectedSubscribeHis,
    /// No unsubscribe request is in flight under this packet id.
    UnsubscribeTracingNotFound(u32),
    /// No subscription has this packet id.
    SubscribeNotFound(u32),
    /// No publish has this packet id.
    PublishNotFound(u32),
    /// The publish form holds a payload that cannot be encoded.
    Payload(PayloadError),
    /// The broker's settings cannot be used to connect.
    Input(ForError),
}

/// The state of the application: the brokers, the open broker tabs and what the window shows.
#[derive(Debug)]
pub struct AppData {
    pub brokers: Vec<Broker>,
    /// Ids of the brokers whose tabs are open, the most recently opened first.
    pub broker_tabs: Vec<usize>,
    pub db: ArcDb,
    pub hint: AString,
    /// The position of the broker whose certificate file is being chosen.
    pub self_signed_file: Option<usize>,
    pub display_history: bool,
    pub display_broker_info: bool,
}

/// Position `k` is the first in `s` that satisfies `p`.
pub open spec fn is_first<T>(s: Seq<T>, p: spec_fn(T) -> bool, k: int) -> bool {
    &&& 0 <= k < s.len()
    &&& p(s[k])
    &&& forall|j: int| 0 <= j < k ==> !p(#[trigger] s[j])
}

/// The first position in `s` that satisfies `p`, if any.
pub open spec fn first_index<T>(s: Seq<T>, p: spec_fn(T) -> bool) -> Option<int> {
    if exists|k: int| is_first(s, p, k) {
        Some(choose|k: int| is_first(s, p, k))
    } else {
        None
    }
}

/// A first position is unique, and where it exists the search gives it.
pub proof fn lemma_first_index<T>(s: Seq<T>, p: spec_fn(T) -> bool, k: int)
    requires
        is_first(s, p, k),
    ensures
        first_index(s, p) == Some(k),
{
    let c = choose|c: int| is_first(s, p, c);
    assert(is_first(s, p, c));
    if c < k {
        assert(!p(s[c]));
    } else if k < c {
        assert(!p(s[k]));
    }
}

/// Where something satisfies `p`, a first position exists.
pub proof fn lemma_exists_first<T>(s: Seq<T>, p: spec_fn(T) -> bool, j: int)
    requires
        0 <= j < s.len(),
        p(s[j]),
    ensures
        exists|c: int| is_first(s, p, c),
    decreases j,
{
    if forall|i: int| 0 <= i < j ==> !p(#[trigger] s[i]) {
        assert(is_first(s, p, j));
    } else {
        let i = choose|i: int| 0 <= i < j && p(#[trigger] s[i]);
        lemma_exists_first(s, p, i);
    }
}

/// Where nothing satisfies `p`, the search finds nothing.
pub proof fn lemma_first_index_none<T>(s: Seq<T>, p: spec_fn(T) -> bool)
    requires
        forall|j: int| 0 <= j < s.len() ==> !p(#[trigger] s[j]),
    ensures
        first_index(s, p) is None,
{
}

/// The broker has this id.
pub open spec fn has_id(id: usize) -> spec_fn(Broker) -> bool {
    |b: Broker| b.id == id
}

/// The tab is the one of this broker.
pub open spec fn is_tab(id: usize) -> spec_fn(usize) -> bool {
    |t: usize| t == id
}

/// The broker has never been saved.
pub open spec fn is_unstored() -> spec_fn(Broker) -> bool {
    |b: Broker| !b.stored
}

/// The broker is selected.
pub open spec fn is_selected() -> spec_fn(Broker) -> bool {
    |b: Broker| b.selected
}


/// The positions in `s` that hold `x`, in order.
pub open spec fn positions_of(s: Seq<usize>, x: usize) -> Seq<usize>
    decreases s.len(),
{
    if s.len() == 0 {
        seq![]
    } else if s.last() == x {
        positions_of(s.drop_last(), x).push((s.len() - 1) as usize)
    } else {
        positions_of(s.drop_last(), x)
    }
}

/// The events that bring the tabs at these positions to the front.
pub open spec fn select_tab_effects(positions: Seq<usize>) -> Seq<Effect> {
    positions.map_values(|p: usize| Effect::Send(AppEvent::UpdateToSelectTabs(p)))
}

/// The effects that perform these store writes, in order.
pub open spec fn store_effects(w: Seq<DbWrite>) -> Seq<Effect> {
    w.map_values(|x: DbWrite| Effect::Store(x))
}

/// A message with a publish acknowledged: a published message traced by `trace_id`
/// becomes successful; any other message stays as it is.
pub open spec fn acked(m: Msg, trace_id: u32) -> Msg {
    match m {
        Msg::Public(p) => if p.trace_id == trace_id {
            Msg::Public(PublicMsg { status: PublicStatus::Success, ..p })
        } else {
            m
        },
        Msg::Subscribe(_) => m,
    }
}

/// The message is a publish traced by `trace_id`.
pub open spec fn is_publish_of(m: Msg, trace_id: u32) -> bool {
    m matches Msg::Public(p) && p.trace_id == trace_id
}

/// Appends the effects that perform these store writes.
pub(crate) fn push_store_effects(effects: &mut Vec<Effect>, writes: Vec<DbWrite>)
    ensures
        final(effects)@ == old(effects)@ + store_effects(writes@),
{
    let ghost orig = writes@;
    let mut writes = writes;
    let ghost mut n: int = 0;
    while writes.len() > 0
        invariant
            0 <= n <= orig.len(),
            writes@ == orig.skip(n),
            effects@ == old(effects)@ + store_effects(orig.take(n)),
        decreases writes@.len(),
    {
        let w = writes.remove(0);
        effects.push(Effect::Store(w));
        proof {
            assert(orig.take(n + 1) =~= orig.take(n).push(w));
            assert(store_effects(orig.take(n + 1)) =~= store_effects(orig.take(n)).push(Effect::Store(w)));
            n = n + 1;
            assert(writes@ =~= orig.skip(n));
        }
    }
    proof {
        assert(orig.take(n) =~= orig);
    }
}


/// The broker store after saving a broker with this id: a new id joins the list.
pub open spec fn saved_to(old_db: ArcDb, new_db: ArcDb, id: usize) -> bool {
    &&& new_db.index == old_db.index
    &&& if old_db.ids@.contains(id) {
        new_db.ids == old_db.ids
    } else {
        new_db.ids@ == old_db.ids@.push(id)
    }
}

/// The effects that save a broker: the list of ids where it is new, then its record.
pub open spec fn save_effects(effects: Seq<Effect>, old_db: ArcDb, new_db: ArcDb, b: Broker) -> bool {
    if old_db.ids@.contains(b.id) {
        &&& effects.len() == 1
        &&& effects[0] matches Effect::Store(DbWrite::Broker(rec)) && db_record_of(rec, b)
    } else {
        &&& effects.len() == 2
        &&& effects[0] matches Effect::Store(DbWrite::Ids(ids)) && ids@ == new_db.ids@
        &&& effects[1] matches Effect::Store(DbWrite::Broker(rec)) && db_record_of(rec, b)
    }
}

/// The effects that connect a broker: it is saved, then the worker is asked to connect.
pub open spec fn connect_effects(effects: Seq<Effect>, old_db: ArcDb, new_db: ArcDb, b: Broker) -> bool {
    &&& effects.len() >= 1
    &&& save_effects(effects.drop_last(), old_db, new_db, b)
    &&& effects.last() matches Effect::Send(AppEvent::ToConnect(rec)) && db_record_of(rec, b)
}

/// The subscription is traced by this packet id.
pub open spec fn has_trace(trace_id: u32) -> spec_fn(SubscribeTopic) -> bool {
    |t: SubscribeTopic| t.trace_id == trace_id
}

/// The unsubscribe request went out under this packet id.
pub open spec fn has_unsubscribe_id(pk_id: u32) -> spec_fn(UnsubcribeTracing) -> bool {
    |t: UnsubcribeTracing| t.unsubscribe_pk_id == pk_id
}

/// A broker with its selection flag set as given.
pub open spec fn with_selected(b: Broker, selected: bool) -> Broker {
    Broker { selected, ..b }
}

/// Selecting a broker by its id makes it the selected broker: after the selection flags are
/// set to "has this id", the first selected broker is the first broker with the id.
pub proof fn lemma_selected_is_chosen(old: AppData, new: AppData, id: usize)
    requires
        new.only_selection_changed(old),
        forall|j: int| 0 <= j < new.brokers@.len() ==> (#[trigger] new.brokers@[j]).selected == (old.brokers@[j].id == id),
    ensures
        new.index_of_selected() == new.index_of_id(id),
{
    assert forall|j: int| 0 <= j < new.brokers@.len() implies #[trigger] is_selected()(new.brokers@[j])
        == has_id(id)(new.brokers@[j]) by {
        assert(new.brokers@[j] == with_selected(old.brokers@[j], new.brokers@[j].selected));
    }
    if exists|k: int| is_first(new.brokers@, has_id(id), k) {
        let k = choose|k: int| is_first(new.brokers@, has_id(id), k);
        assert(is_first(new.brokers@, is_selected(), k));
        lemma_first_index(new.brokers@, has_id(id), k);
        lemma_first_index(new.brokers@, is_selected(), k);
    } else {
        if exists|k: int| is_first(new.brokers@, is_selected(), k) {
            let k = choose|k: int| is_first(new.brokers@, is_selected(), k);
            assert(is_first(new.brokers@, has_id(id), k));
        }
    }
}

/// An unsubscribe request recorded under a packet id that no other pending request uses is
/// the one its acknowledgement finds, and it names the subscription it was sent for.
pub proof fn lemma_unsubscribe_tracked(pending: Seq<UnsubcribeTracing>, subscribe_pk_id: u32, unsubscribe_pk_id: u32)
    requires
        forall|j: int| 0 <= j < pending.len() ==> (#[trigger] pending[j]).unsubscribe_pk_id != unsubscribe_pk_id,
    ensures
        ({
            let t = UnsubcribeTracing { subscribe_pk_id, unsubscribe_pk_id };
            &&& first_index(pending.push(t), has_unsubscribe_id(unsubscribe_pk_id)) == Some(pending.len() as int)
            &&& pending.push(t)[pending.len() as int].subscribe_pk_id == subscribe_pk_id
        }),
{
    let t = UnsubcribeTracing { subscribe_pk_id, unsubscribe_pk_id };
    let l = pending.push(t);
    assert forall|j: int| 0 <= j < pending.len() implies !has_unsubscribe_id(unsubscribe_pk_id)(#[trigger] l[j]) by {
        assert(l[j] == pending[j]);
    }
    assert(is_first(l, has_unsubscribe_id(unsubscribe_pk_id), pending.len() as int));
    lemma_first_index(l, has_unsubscribe_id(unsubscribe_pk_id), pending.len() as int);
}

/// What reconnecting the broker at position `i` does: it is disconnected; where its address
/// or port is missing that is all, and the input error says which; otherwise it is saved, its
/// tab opened, and the worker asked to close and open its connection again.
pub open spec fn reconnect_result(old: AppData, new: AppData, i: int, r: Result<Vec<Effect>, AppError>) -> bool {
    let b = old.brokers@[i];
    let down = Broker { tab_status: TabStatus { try_connect: false, connected: false, ..b.tab_status }, ..b };
    let up = Broker { tab_status: TabStatus { try_connect: true, connected: false, ..b.tab_status }, ..b };
    &&& new.display_history == old.display_history
    &&& new.hint == old.hint
    &&& new.self_signed_file == old.self_signed_file
    &&& if b.addr@.len() == 0 || b.port is None {
        &&& r == Err::<Vec<Effect>, AppError>(AppError::Input(
            if b.addr@.len() == 0 { ForError::NotEmpty } else { ForError::InvalidPort },
        ))
        &&& new.brokers@ == old.brokers@.update(i, down)
        &&& new.db == old.db
        &&& new.broker_tabs == old.broker_tabs
        &&& new.display_broker_info == old.display_broker_info
    } else {
        &&& r matches Ok(effects) && effects@.len() >= 1 && effects@[0] == Effect::Send(
            AppEvent::ToDisconnect(b.id),
        ) && connect_effects(effects@.skip(1), old.db, new.db, up)
        &&& saved_to(old.db, new.db, b.id)
        &&& new.brokers@ == old.brokers@.update(i, up)
        &&& new.broker_tabs@ == if old.broker_tabs@.contains(b.id) {
            old.broker_tabs@
        } else {
            seq![b.id] + old.broker_tabs@
        }
        &&& !new.display_broker_info
    }
}

/// In a well-formed state every open tab's broker can be found by its id, so the views
/// that pick a broker by id can be used on every tab.
pub proof fn lemma_tab_broker_found(data: AppData, t: int)
    requires
        data.wf(),
        0 <= t < data.broker_tabs@.len(),
    ensures
        data.index_of_id(data.broker_tabs@[t]) is Some,
{
    let x = data.broker_tabs@[t];
    assert(data.has_broker(x));
    let j = choose|j: int| 0 <= j < data.brokers@.len() && (#[trigger] data.brokers@[j]).id == x;
    lemma_exists_first(data.brokers@, has_id(x), j);
}

/// Brokers with the same ids, position by position, keep every open tab's broker known.
proof fn lemma_tabs_known_same_ids(new: AppData, old: AppData)
    requires
        new.brokers@.len() == old.brokers@.len(),
        forall|j: int| 0 <= j < new.brokers@.len() ==> #[trigger] new.brokers@[j].id == old.brokers@[j].id,
        new.broker_tabs@ == old.broker_tabs@,
        forall|t: int| 0 <= t < old.broker_tabs@.len() ==> old.has_broker(#[trigger] old.broker_tabs@[t]),
    ensures
        forall|t: int| 0 <= t < new.broker_tabs@.len() ==> new.has_broker(#[trigger] new.broker_tabs@[t]),
{
    assert forall|t: int| 0 <= t < new.broker_tabs@.len() implies new.has_broker(#[trigger] new.broker_tabs@[t]) by {
        let x = old.broker_tabs@[t];
        assert(old.has_broker(x));
        let j = choose|j: int| 0 <= j < old.brokers@.len() && (#[trigger] old.brokers@[j]).id == x;
        assert(new.brokers@[j].id == x);
    }
}

/// How `AppData::touch_add_broker` changes the state (`old` to `new`) and what it answers.
///
/// Adds a broker: the first broker never saved is selected again if there is one;
/// otherwise a broker with the default settings is put first, under a fresh id, and
/// selected. Every other broker is unselected, and the broker settings are shown.
pub open spec fn touch_add_broker_result(old: AppData, new: AppData) -> bool {
    &&& (match first_index(old.brokers@, is_unstored()) {
        Some(k) => {
            &&& new.brokers@.len() == old.brokers@.len()
            &&& forall|j: int|
                0 <= j < new.brokers@.len() ==> #[trigger] new.brokers@[j]
                    == with_selected(old.brokers@[j], j == k)
            &&& new.db == old.db
        },
        None => {
            &&& new.brokers@.len() == old.brokers@.len() + 1
            &&& is_default_broker(new.brokers@[0], old.db.index)
            &&& new.brokers@[0].selected
            &&& forall|j: int|
                0 <= j < old.brokers@.len() ==> #[trigger] new.brokers@[j + 1]
                    == with_selected(old.brokers@[j], false)
            &&& new.db.index == old.db.index + 1
            &&& new.db.ids == old.db.ids
        },
    })
    &&& (new.display_broker_info)
    &&& (new.display_history == old.display_history)
    &&& (new.broker_tabs == old.broker_tabs)
    &&& (new.hint == old.hint)
    &&& (new.self_signed_file == old.self_signed_file)
}

/// At most one broker has never been saved.
pub open spec fn at_most_one_unstored(brokers: Seq<Broker>) -> bool {
    forall|i: int, j: int|
        0 <= i < j < brokers.len() ==> #[trigger] brokers[i].stored || #[trigger] brokers[j].stored
}

/// The broker at `k` is selected, and no other.
pub open spec fn only_selected(brokers: Seq<Broker>, k: int) -> bool {
    &&& 0 <= k < brokers.len()
    &&& forall|j: int| 0 <= j < brokers.len() ==> (#[trigger] brokers[j]).selected == (j == k)
}

/// Adding a broker keeps at most one broker unsaved, and leaves exactly one broker selected:
/// the unsaved broker there was, with no broker added, or else a new unsaved broker put
/// first. The broker settings are shown either way.
pub proof fn lemma_add_broker_keeps_one_unstored(old: AppData, new: AppData)
    requires
        at_most_one_unstored(old.brokers@),
        touch_add_broker_result(old, new),
    ensures
        at_most_one_unstored(new.brokers@),
        match first_index(old.brokers@, is_unstored()) {
            Some(k) => {
                &&& new.brokers@.len() == old.brokers@.len()
                &&& only_selected(new.brokers@, k)
                &&& !new.brokers@[k].stored
            },
            None => {
                &&& new.brokers@.len() == old.brokers@.len() + 1
                &&& only_selected(new.brokers@, 0)
                &&& !new.brokers@[0].stored
            },
        },
        new.display_broker_info,
{
    let o = old.brokers@;
    let n = new.brokers@;
    match first_index(o, is_unstored()) {
        Some(k) => {
            assert(is_first(o, is_unstored(), k));
            assert forall|j: int| 0 <= j < n.len() implies (#[trigger] n[j]).stored == o[j].stored && n[j].selected
                == (j == k) by {
                assert(n[j] == with_selected(o[j], j == k));
            }
        },
        None => {
            assert forall|j: int| 0 <= j < o.len() implies (#[trigger] o[j]).stored by {
                if !o[j].stored {
                    lemma_exists_first(o, is_unstored(), j);
                }
            }
            assert forall|j: int| 1 <= j < n.len() implies (#[trigger] n[j]).stored && !n[j].selected by {
                assert(n[(j - 1) + 1] == with_selected(o[j - 1], false));
            }
        },
    }
}

/// How `AppData::edit_broker` changes the state (`old` to `new`) and what it answers.
///
/// Opens the tab of the selected broker, if one is selected.
pub open spec fn edit_broker_result(old: AppData, new: AppData) -> bool {
    &&& (match old.index_of_selected() {
        Some(i) => new.broker_tabs@ == if old.broker_tabs@.contains(
            old.brokers@[i].id,
        ) {
            old.broker_tabs@
        } else {
            seq![old.brokers@[i].id] + old.broker_tabs@
        },
        None => new.broker_tabs == old.broker_tabs,
    })
    &&& (new.brokers == old.brokers)
    &&& (new.db == old.db)
    &&& (new.display_broker_info == old.display_broker_info)
    &&& (new.display_history == old.display_history)
}

/// How `AppData::touch_connect_broker_selected` changes the state (`old` to `new`) and what it answers.
///
/// The connect button of the selected broker.
pub open spec fn touch_connect_broker_selected_result(old: AppData, new: AppData, r: Result<Vec<Effect>, AppError>) -> bool {
    &&& (match old.index_of_selected() {
        Some(i) => {
            let b = old.brokers@[i];
            if b.addr@.len() == 0 {
                r == Err::<Vec<Effect>, AppError>(AppError::Input(ForError::NotEmpty)) && new.unchanged(old)
            } else if b.port is None {
                r == Err::<Vec<Effect>, AppError>(AppError::Input(ForError::InvalidPort)) && new.unchanged(old)
            } else {
                let nb = Broker {
                    tab_status: TabStatus { try_connect: true, connected: false, ..b.tab_status },
                    ..b
                };
                &&& r matches Ok(effects) && connect_effects(effects@, old.db, new.db, nb)
                &&& saved_to(old.db, new.db, b.id)
                &&& new.brokers@ == old.brokers@.update(i, nb)
                &&& new.broker_tabs@ == if old.broker_tabs@.contains(b.id) {
                    old.broker_tabs@
                } else {
                    seq![b.id] + old.broker_tabs@
                }
                &&& !new.display_broker_info
                &&& new.display_history == old.display_history
                &&& new.hint == old.hint
                &&& new.self_signed_file == old.self_signed_file
            }
        },
        None => r == Err::<Vec<Effect>, AppError>(AppError::NoSelectedBroker) && new.unchanged(old),
    })
}

/// How `AppData::touch_delete_broker_selected` changes the state (`old` to `new`) and what it answers.
///
/// Deletes the selected broker: its tab and connection close and it leaves the store.
/// Where no broker is left, a new one is added.
pub open spec fn touch_delete_broker_selected_result(old: AppData, new: AppData, r: Result<Vec<Effect>, AppError>) -> bool {
    &&& (match old.index_of_selected() {
        Some(i) => {
            let id = old.brokers@[i].id;
            &&& r matches Ok(effects) && effects@.len() >= 1 && effects@[0] == Effect::Send(
                AppEvent::ToDisconnect(id),
            )
            &&& old.db.ids@.contains(id) ==> (r matches Ok(effects) && effects@.len() == 3
                && (effects@[1] matches Effect::Store(DbWrite::Ids(ids)) && ids@ == new.db.ids@)
                && effects@[2] == Effect::Store(DbWrite::RemoveBroker(id)))
            &&& !old.db.ids@.contains(id) ==> (r matches Ok(effects) && effects@.len() == 1)
            &&& old.db.ids@.contains(id) ==> exists|k: int|
                0 <= k < old.db.ids@.len() && old.db.ids@[k] == id
                    && new.db.ids@ == old.db.ids@.remove(k)
            &&& !old.db.ids@.contains(id) ==> new.db.ids@ == old.db.ids@
            &&& match first_index(old.broker_tabs@, is_tab(id)) {
                Some(k) => new.broker_tabs@ == old.broker_tabs@.remove(k),
                None => new.broker_tabs@ == old.broker_tabs@,
            }
            &&& old.brokers@.len() > 1 ==> new.brokers@ == old.brokers@.remove(i)
                && new.db.index == old.db.index
            &&& old.brokers@.len() == 1 ==> new.brokers@.len() == 1
                && is_default_broker(new.brokers@[0], old.db.index)
                && new.brokers@[0].selected && new.display_broker_info
                && new.db.index == old.db.index + 1
            &&& new.hint == old.hint
            &&& new.self_signed_file == old.self_signed_file
        },
        None => r == Err::<Vec<Effect>, AppError>(AppError::NoSelectedBroker) && new.unchanged(old),
    })
}

/// How `AppData::touch_save_broker` changes the state (`old` to `new`) and what it answers.
///
/// Saves the selected broker.
pub open spec fn touch_save_broker_result(old: AppData, new: AppData, r: Result<Vec<Effect>, AppError>) -> bool {
    &&& (match old.index_of_selected() {
        Some(i) => {
            &&& r matches Ok(effects) && save_effects(
                effects@,
                old.db,
                new.db,
                old.brokers@[i],
            )
            &&& saved_to(old.db, new.db, old.brokers@[i].id)
            &&& new.brokers@ == old.brokers@.update(
                i,
                Broker { stored: true, ..old.brokers@[i] },
            )
            &&& new.broker_tabs == old.broker_tabs
            &&& new.display_broker_info == old.display_broker_info
            &&& new.display_history == old.display_history
            &&& new.hint == old.hint
            &&& new.self_signed_file == old.self_signed_file
        },
        None => r == Err::<Vec<Effect>, AppError>(AppError::NoSelectedBroker) && new.unchanged(old),
    })
}

/// How `AppData::touch_disconnect` changes the state (`old` to `new`) and what it answers.
///
/// Disconnects the selected broker and asks the worker to close its connection.
pub open spec fn touch_disconnect_result(old: AppData, new: AppData, r: Result<Vec<Effect>, AppError>) -> bool {
    &&& (match old.index_of_selected() {
        Some(i) => {
            &&& r matches Ok(effects) && effects@ == seq![
                Effect::Send(AppEvent::ToDisconnect(old.brokers@[i].id)),
            ]
            &&& new.only_broker_changed(old, i)
            &&& new.brokers@[i] == (Broker {
                tab_status: TabStatus {
                    try_connect: false,
                    connected: false,
                    ..old.brokers@[i].tab_status
                },
                ..old.brokers@[i]
            })
        },
        None => r == Err::<Vec<Effect>, AppError>(AppError::NoSelectedBroker) && new.unchanged(old),
    })
}

/// How `AppData::click_broker` changes the state (`old` to `new`) and what it answers.
///
/// A click on a broker selects exactly the brokers with its id, shows its settings, and
/// brings its tab to the front where it is open.
pub open spec fn click_broker_result(old: AppData, new: AppData, id: usize, r: Result<Vec<Effect>, AppError>) -> bool {
    &&& (r matches Ok(effects) && effects@ == select_tab_effects(
        positions_of(old.broker_tabs@, id),
    )
    )
    &&& (new.only_selection_changed(old))
    &&& (forall|j: int|
        0 <= j < new.brokers@.len() ==> (#[trigger] new.brokers@[j]).selected
            == (old.brokers@[j].id == id)
    )
    &&& (new.display_broker_info)
    &&& (new.display_history == old.display_history)
}

/// How `AppData::touch_click_tab` changes the state (`old` to `new`) and what it answers.
///
/// A click on a tab selects its broker.
pub open spec fn touch_click_tab_result(old: AppData, new: AppData, broker_id: usize, r: Result<(), AppError>) -> bool {
    &&& (r is Ok)
    &&& (new.only_selection_changed(old))
    &&& (forall|j: int|
        0 <= j < new.brokers@.len() ==> (#[trigger] new.brokers@[j]).selected
            == (old.brokers@[j].id == broker_id)
    )
    &&& (new.display_history == old.display_history)
    &&& (new.display_broker_info == old.display_broker_info)
}

/// How `AppData::touch_close_broker_tab` changes the state (`old` to `new`) and what it answers.
///
/// Closes the tab of a broker and its connection.
pub open spec fn touch_close_broker_tab_result(old: AppData, new: AppData, id: usize, r: Result<Vec<Effect>, AppError>) -> bool {
    &&& (match first_index(old.broker_tabs@, is_tab(id)) {
        Some(k) => new.broker_tabs@ == old.broker_tabs@.remove(k),
        None => new.broker_tabs@ == old.broker_tabs@,
    })
    &&& (new.db == old.db)
    &&& (match old.index_of_id(id) {
        Some(i) => {
            let b = old.brokers@[i];
            &&& r matches Ok(effects) && effects@ == seq![Effect::Send(AppEvent::ToDisconnect(id))]
            &&& new.brokers@ == old.brokers@.update(i, new.brokers@[i])
            &&& new.brokers@[i] == (Broker {
                tab_status: TabStatus { try_connect: false, connected: false, ..b.tab_status },
                subscribe_topics: new.brokers@[i].subscribe_topics,
                ..b
            })
            &&& new.brokers@[i].subscribe_topics@.len() == 0
        },
        None => r == Err::<Vec<Effect>, AppError>(AppError::BrokerNotFound(id))
            && new.brokers@ == old.brokers@,
    })
    &&& (new.hint == old.hint)
    &&& (new.self_signed_file == old.self_signed_file)
    &&& (new.display_broker_info == old.display_broker_info)
    &&& (new.display_history == old.display_history)
}

/// How `AppData::touch_unsubscribe` changes the state (`old` to `new`) and what it answers.
///
/// Marks the first subscription of the broker traced by `trace_id` as being
/// unsubscribed and asks the worker to send the request; nothing happens where there
/// is no such subscription.
pub open spec fn touch_unsubscribe_result(old: AppData, new: AppData, broker_id: usize, trace_id: u32, r: Result<Vec<Effect>, AppError>) -> bool {
    &&& (match old.index_of_id(broker_id) {
        Some(i) => {
            let topics = old.brokers@[i].subscribe_topics@;
            match first_index(topics, has_trace(trace_id)) {
                Some(k) => {
                    &&& new.only_broker_changed(old, i)
                    &&& new.brokers@[i] == (Broker {
                        subscribe_topics: new.brokers@[i].subscribe_topics,
                        ..old.brokers@[i]
                    })
                    &&& new.brokers@[i].subscribe_topics@ == topics.update(
                        k,
                        SubscribeTopic { status: SubscribeStatus::UnSubscribeIng, ..topics[k] },
                    )
                    &&& r matches Ok(effects) && effects@.len() == 1 && (effects@[0] matches Effect::Send(
                        AppEvent::ToUnsubscribeIng(e),
                    ) && e.broke_id == broker_id && e.subscribe_pk_id == trace_id && e.topic@
                        == topics[k].topic@)
                },
                None => (r matches Ok(effects) && effects@.len() == 0) && new.unchanged(old),
            }
        },
        None => r == Err::<Vec<Effect>, AppError>(AppError::BrokerNotFound(broker_id)) && new.unchanged(old),
    })
}

/// How `AppData::clear_msg` changes the state (`old` to `new`) and what it answers.
///
/// Drops every message of the broker and asks the window to scroll its message list.
pub open spec fn clear_msg_result(old: AppData, new: AppData, id: usize, r: Result<Vec<Effect>, AppError>) -> bool {
    &&& (match old.index_of_id(id) {
        Some(i) => {
            &&& r matches Ok(effects) && effects@ == seq![Effect::Send(AppEvent::UpdateScrollMsgWin)]
            &&& new.only_broker_changed(old, i)
            &&& new.brokers@[i] == (Broker {
                msgs: new.brokers@[i].msgs,
                ..old.brokers@[i]
            })
            &&& new.brokers@[i].msgs@.len() == 0
        },
        None => r == Err::<Vec<Effect>, AppError>(AppError::BrokerNotFound(id)) && new.unchanged(old),
    })
}

/// How `AppData::to_unsubscribe` changes the state (`old` to `new`) and what it answers.
///
/// Records an unsubscribe request in flight for a subscription of the broker.
pub open spec fn to_unsubscribe_result(old: AppData, new: AppData, broker_id: usize, subscribe_pkid: u32, unsubscribe_pkid: u32, r: Result<(), AppError>) -> bool {
    &&& (match old.index_of_id(broker_id) {
        Some(i) => {
            &&& r is Ok
            &&& new.only_broker_changed(old, i)
            &&& new.brokers@[i] == (Broker {
                unsubscribe_ing: new.brokers@[i].unsubscribe_ing,
                ..old.brokers@[i]
            })
            &&& new.brokers@[i].unsubscribe_ing@ == old.brokers@[i].unsubscribe_ing@.push(
                UnsubcribeTracing {
                    subscribe_pk_id: subscribe_pkid,
                    unsubscribe_pk_id: unsubscribe_pkid,
                },
            )
        },
        None => r == Err::<(), AppError>(AppError::BrokerNotFound(broker_id)) && new.unchanged(old),
    })
}

/// How `AppData::update_to_connected` changes the state (`old` to `new`) and what it answers.
///
/// The broker with this id is connected; without `retain` its subscriptions start
/// afresh.
pub open spec fn update_to_connected_result(old: AppData, new: AppData, id: usize, retain: bool, r: Result<(), AppError>) -> bool {
    &&& (match old.index_of_id(id) {
        Some(i) => {
            &&& r is Ok
            &&& new.only_broker_changed(old, i)
            &&& new.brokers@[i] == (Broker {
                tab_status: TabStatus {
                    try_connect: false,
                    connected: true,
                    ..old.brokers@[i].tab_status
                },
                subscribe_topics: new.brokers@[i].subscribe_topics,
                ..old.brokers@[i]
            })
            &&& new.brokers@[i].subscribe_topics@ == if retain {
                old.brokers@[i].subscribe_topics@
            } else {
                Seq::<SubscribeTopic>::empty()
            }
        },
        None => r == Err::<(), AppError>(AppError::BrokerNotFound(id)) && new.unchanged(old),
    })
}

/// How `AppData::pub_ack` changes the state (`old` to `new`) and what it answers.
///
/// A broker acknowledged a publish: every published message of the broker traced by
/// `trace_id` becomes successful. Refused where the broker has no such message.
pub open spec fn pub_ack_result(old: AppData, new: AppData, id: usize, trace_id: u32, r: Result<(), AppError>) -> bool {
    &&& (match old.index_of_id(id) {
        Some(i) => {
            let msgs = old.brokers@[i].msgs@;
            &&& new.only_broker_changed(old, i)
            &&& new.brokers@[i] == (Broker {
                msgs: new.brokers@[i].msgs,
                ..old.brokers@[i]
            })
            &&& new.brokers@[i].msgs@ == msgs.map_values(|m: Msg| acked(m, trace_id))
            &&& (r is Ok <==> exists|k: int| 0 <= k < msgs.len() && is_publish_of(#[trigger] msgs[k], trace_id))
            &&& (r is Err ==> r == Err::<(), AppError>(AppError::PublishNotFound(trace_id)))
        },
        None => r == Err::<(), AppError>(AppError::BrokerNotFound(id)) && new.unchanged(old),
    })
}

/// How `AppData::unsubscribe_ack` changes the state (`old` to `new`) and what it answers.
///
/// A broker acknowledged an unsubscribe request: the request and the subscription it
/// ends are both dropped. Refused where no request went out under this packet id, or
/// where its subscription is gone; in the second case the request is dropped still.
pub open spec fn unsubscribe_ack_result(old: AppData, new: AppData, broker_id: usize, unsubscribe_trace_id: u32, r: Result<Vec<Effect>, AppError>) -> bool {
    &&& (match old.index_of_id(broker_id) {
        Some(i) => {
            let b = old.brokers@[i];
            match first_index(b.unsubscribe_ing@, has_unsubscribe_id(unsubscribe_trace_id)) {
                Some(u) => {
                    let sub_id = b.unsubscribe_ing@[u].subscribe_pk_id;
                    &&& new.only_broker_changed(old, i)
                    &&& new.brokers@[i] == (Broker {
                        subscribe_topics: new.brokers@[i].subscribe_topics,
                        unsubscribe_ing: new.brokers@[i].unsubscribe_ing,
                        ..b
                    })
                    &&& new.brokers@[i].unsubscribe_ing@ == b.unsubscribe_ing@.remove(u)
                    &&& match first_index(b.subscribe_topics@, has_trace(sub_id)) {
                        Some(k) => {
                            &&& new.brokers@[i].subscribe_topics@ == b.subscribe_topics@.remove(k)
                            &&& r matches Ok(effects) && effects@ == seq![Effect::Send(AppEvent::UpdateScrollSubscribeWin)]
                        },
                        None => {
                            &&& new.brokers@[i].subscribe_topics@ == b.subscribe_topics@
                            &&& r == Err::<Vec<Effect>, AppError>(AppError::SubscribeNotFound(sub_id))
                        },
                    }
                },
                None => r == Err::<Vec<Effect>, AppError>(AppError::UnsubscribeTracingNotFound(unsubscribe_trace_id))
                    && new.unchanged(old),
            }
        },
        None => r == Err::<Vec<Effect>, AppError>(AppError::BrokerNotFound(broker_id)) && new.unchanged(old),
    })
}

/// How `AppData::client_disconnect` changes the state (`old` to `new`) and what it answers.
///
/// The client of the broker with this id lost its connection.
pub open spec fn client_disconnect_result(old: AppData, new: AppData, id: usize, r: Result<(), AppError>) -> bool {
    &&& (match old.index_of_id(id) {
        Some(i) => {
            &&& r is Ok
            &&& new.only_broker_changed(old, i)
            &&& new.brokers@[i] == (Broker {
                tab_status: TabStatus {
                    try_connect: false,
                    connected: false,
                    ..old.brokers@[i].tab_status
                },
                ..old.brokers@[i]
            })
        },
        None => r == Err::<(), AppError>(AppError::BrokerNotFound(id)) && new.unchanged(old),
    })
}

/// What `touch_reconnect` does: the selected broker is reconnected.
pub open spec fn touch_reconnect_result(old: AppData, new: AppData, r: Result<Vec<Effect>, AppError>) -> bool {
    match old.index_of_selected() {
        Some(i) => reconnect_result(old, new, i, r),
        None => r == Err::<Vec<Effect>, AppError>(AppError::NoSelectedBroker) && new.unchanged(old),
    }
}

/// What `db_click_broker` does: the broker with this id is reconnected.
pub open spec fn db_click_broker_result(old: AppData, new: AppData, id: usize, r: Result<Vec<Effect>, AppError>) -> bool {
    match old.index_of_id(id) {
        Some(i) => reconnect_result(old, new, i, r),
        None => r == Err::<Vec<Effect>, AppError>(AppError::BrokerNotFound(id)) && new.unchanged(old),
    }
}

/// Connecting the selected broker shows its connection: after a successful connect the
/// broker's tab is open and the worker is asked to connect that broker. A tab that was
/// already open stays where it was and no tab moves; a tab that was not open comes first, in
/// front of the others, which keep their order. No open tab closes.
pub proof fn lemma_connect_opens_tab(old: AppData, new: AppData, r: Result<Vec<Effect>, AppError>)
    requires
        touch_connect_broker_selected_result(old, new, r),
        r is Ok,
    ensures
        old.index_of_selected() is Some,
        ({
            let id = old.brokers@[old.index_of_selected().unwrap()].id;
            &&& new.broker_tabs@.contains(id)
            &&& forall|t: usize| old.broker_tabs@.contains(t) ==> new.broker_tabs@.contains(t)
            &&& old.broker_tabs@.contains(id) ==> new.broker_tabs@ == old.broker_tabs@
            &&& !old.broker_tabs@.contains(id) ==> new.broker_tabs@.len() == old.broker_tabs@.len() + 1
                && new.broker_tabs@[0] == id
                && forall|j: int| 0 <= j < old.broker_tabs@.len() ==> #[trigger] new.broker_tabs@[j + 1] == old.broker_tabs@[j]
            &&& r matches Ok(effects) && effects@.len() > 0 && (effects@.last() matches Effect::Send(
                AppEvent::ToConnect(rec),
            ) && rec.id == id)
        }),
{
    let i = old.index_of_selected().unwrap();
    let id = old.brokers@[i].id;
    let o = old.broker_tabs@;
    let n = new.broker_tabs@;
    if !o.contains(id) {
        assert(n[0] == id);
        assert forall|t: usize| o.contains(t) implies n.contains(t) by {
            let j = choose|j: int| 0 <= j < o.len() && o[j] == t;
            assert(n[j + 1] == o[j]);
        }
        assert forall|j: int| 0 <= j < o.len() implies #[trigger] n[j + 1] == o[j] by {
            assert(n[j + 1] == (seq![id] + o)[j + 1]);
        }
    }
}

/// Deleting the selected broker closes its connection: the worker is asked to disconnect
/// exactly that broker.
pub proof fn lemma_delete_closes_connection(old: AppData, new: AppData, r: Result<Vec<Effect>, AppError>)
    requires
        touch_delete_broker_selected_result(old, new, r),
        old.index_of_selected() is Some,
    ensures
        r matches Ok(effects) && effects@.contains(
            Effect::Send(AppEvent::ToDisconnect(old.brokers@[old.index_of_selected().unwrap()].id)),
        ),
{
    let id = old.brokers@[old.index_of_selected().unwrap()].id;
    let effects = r->Ok_0;
    assert(effects@[0] == Effect::Send(AppEvent::ToDisconnect(id)));
}

/// An unsubscribe acknowledgement drops exactly the subscription it answers for: the first
/// one traced by the subscribe packet id that the acknowledged request recorded. Every other
/// subscription stays, in its order.
pub proof fn lemma_unsubscribe_ack_drops_that_subscription(
    old: AppData,
    new: AppData,
    broker_id: usize,
    pk: u32,
    r: Result<Vec<Effect>, AppError>,
)
    requires
        unsubscribe_ack_result(old, new, broker_id, pk, r),
        r is Ok,
    ensures
        old.index_of_id(broker_id) is Some,
        first_index(old.brokers@[old.index_of_id(broker_id).unwrap()].unsubscribe_ing@, has_unsubscribe_id(pk)) is Some,
        ({
            let i = old.index_of_id(broker_id).unwrap();
            let b = old.brokers@[i];
            let u = first_index(b.unsubscribe_ing@, has_unsubscribe_id(pk)).unwrap();
            let sub_pk = b.unsubscribe_ing@[u].subscribe_pk_id;
            let before = b.subscribe_topics@;
            let after = new.brokers@[i].subscribe_topics@;
            exists|k: int|
                #![trigger before[k]]
                0 <= k < before.len() && before[k].trace_id == sub_pk && (forall|j: int|
                    0 <= j < k ==> (#[trigger] before[j]).trace_id != sub_pk) && after.len() + 1 == before.len()
                    && (forall|j: int| 0 <= j < k ==> #[trigger] after[j] == before[j]) && (forall|j: int|
                    k <= j < after.len() ==> #[trigger] after[j] == before[j + 1])
        }),
{
    let i = old.index_of_id(broker_id).unwrap();
    let b = old.brokers@[i];
    let u = first_index(b.unsubscribe_ing@, has_unsubscribe_id(pk)).unwrap();
    let sub_pk = b.unsubscribe_ing@[u].subscribe_pk_id;
    let before = b.subscribe_topics@;
    let after = new.brokers@[i].subscribe_topics@;
    let k = first_index(before, has_trace(sub_pk)).unwrap();
    assert(is_first(before, has_trace(sub_pk), k));
    assert(after == before.remove(k));
    assert forall|j: int| 0 <= j < k implies (#[trigger] before[j]).trace_id != sub_pk by {
        assert(!has_trace(sub_pk)(before[j]));
    }
    assert(before[k].trace_id == sub_pk);
}

/// A broker that accepts the connection shows as connected and no longer connecting; no
/// other broker, no tab and nothing in the store changes.
pub proof fn lemma_connect_ack_connects(old: AppData, new: AppData, id: usize, retain: bool, r: Result<(), AppError>)
    requires
        update_to_connected_result(old, new, id, retain, r),
        old.index_of_id(id) is Some,
    ensures
        r is Ok,
        ({
            let i = old.index_of_id(id).unwrap();
            &&& new.brokers@[i].id == id
            &&& new.brokers@[i].tab_status.connected
            &&& !new.brokers@[i].tab_status.try_connect
            &&& new.brokers@.len() == old.brokers@.len()
            &&& forall|j: int| 0 <= j < old.brokers@.len() && j != i ==> #[trigger] new.brokers@[j] == old.brokers@[j]
            &&& new.broker_tabs == old.broker_tabs
            &&& new.db == old.db
        }),
{
    let i = old.index_of_id(id).unwrap();
    assert(is_first(old.brokers@, has_id(id), i));
}

/// A broker whose connection ends shows as neither connected nor connecting; everything
/// else stays, its tab included.
pub proof fn lemma_connection_end_disconnects(old: AppData, new: AppData, id: usize, r: Result<(), AppError>)
    requires
        client_disconnect_result(old, new, id, r),
        old.index_of_id(id) is Some,
    ensures
        r is Ok,
        ({
            let i = old.index_of_id(id).unwrap();
            &&& new.brokers@[i].id == id
            &&& !new.brokers@[i].tab_status.connected
            &&& !new.brokers@[i].tab_status.try_connect
            &&& new.brokers@[i].subscribe_topics == old.brokers@[i].subscribe_topics
            &&& new.brokers@[i].msgs == old.brokers@[i].msgs
            &&& forall|j: int| 0 <= j < old.brokers@.len() && j != i ==> #[trigger] new.brokers@[j] == old.brokers@[j]
            &&& new.broker_tabs == old.broker_tabs
        }),
{
    let i = old.index_of_id(id).unwrap();
    assert(is_first(old.brokers@, has_id(id), i));
}

/// Disconnecting the selected broker asks the worker to close exactly its connection and
/// nothing else; the broker shows as disconnected and its tab stays open.
pub proof fn lemma_disconnect_closes_connection(old: AppData, new: AppData, r: Result<Vec<Effect>, AppError>)
    requires
        touch_disconnect_result(old, new, r),
        old.index_of_selected() is Some,
    ensures
        ({
            let i = old.index_of_selected().unwrap();
            &&& r matches Ok(effects) && effects@.len() == 1 && effects@[0] == Effect::Send(
                AppEvent::ToDisconnect(old.brokers@[i].id),
            )
            &&& !new.brokers@[i].tab_status.connected
            &&& new.broker_tabs == old.broker_tabs
            &&& new.db == old.db
        }),
{
}

/// A publish acknowledgement marks exactly the publishes traced by its id successful: each
/// such message keeps all but its status, every other message stays, and the answer is an
/// error exactly when there is no such publish.
pub proof fn lemma_pub_ack_marks_success(old: AppData, new: AppData, id: usize, trace_id: u32, r: Result<(), AppError>)
    requires
        pub_ack_result(old, new, id, trace_id, r),
        old.index_of_id(id) is Some,
    ensures
        ({
            let i = old.index_of_id(id).unwrap();
            let before = old.brokers@[i].msgs@;
            let after = new.brokers@[i].msgs@;
            &&& after.len() == before.len()
            &&& forall|k: int| 0 <= k < before.len() ==> match #[trigger] before[k] {
                Msg::Public(p) => if p.trace_id == trace_id {
                    after[k] == Msg::Public(PublicMsg { status: PublicStatus::Success, ..p })
                } else {
                    after[k] == before[k]
                },
                Msg::Subscribe(_) => after[k] == before[k],
            }
            &&& (r is Ok) == exists|k: int| 0 <= k < before.len() && (#[trigger] before[k] matches Msg::Public(p)
                && p.trace_id == trace_id)
        }),
{
    let i = old.index_of_id(id).unwrap();
    let before = old.brokers@[i].msgs@;
    let after = new.brokers@[i].msgs@;
    assert forall|k: int| 0 <= k < before.len() implies after[k] == acked(#[trigger] before[k], trace_id) by {}
    assert((exists|k: int| 0 <= k < before.len() && is_publish_of(#[trigger] before[k], trace_id)) == (exists|k: int|
        0 <= k < before.len() && (#[trigger] before[k] matches Msg::Public(p) && p.trace_id == trace_id)));
}

/// Saving the selected broker marks it saved and writes its record to the store; its id is
/// among the saved ids afterwards, and no tab changes.
pub proof fn lemma_save_stores_the_broker(old: AppData, new: AppData, r: Result<Vec<Effect>, AppError>)
    requires
        touch_save_broker_result(old, new, r),
        old.index_of_selected() is Some,
    ensures
        ({
            let i = old.index_of_selected().unwrap();
            let b = old.brokers@[i];
            &&& new.brokers@[i].stored
            &&& new.brokers@[i].id == b.id
            &&& new.db.ids@.contains(b.id)
            &&& r matches Ok(effects) && exists|e: int|
                0 <= e < effects@.len() && (#[trigger] effects@[e] matches Effect::Store(DbWrite::Broker(rec))
                    && rec.id == b.id && rec.addr@ == b.addr@ && rec.port == b.port)
            &&& new.broker_tabs == old.broker_tabs
        }),
{
    let i = old.index_of_selected().unwrap();
    let b = old.brokers@[i];
    let effects = r->Ok_0;
    if old.db.ids@.contains(b.id) {
        assert(effects@[0] == effects@[0]);
    } else {
        assert(new.db.ids@[new.db.ids@.len() - 1] == b.id);
        assert(effects@[1] == effects@[1]);
    }
}

/// Closing a broker's tab closes it for good and closes the broker's connection: in a
/// well-formed state the tab is no longer open afterwards, every other tab stays open, and
/// the worker is asked to disconnect exactly that broker, which shows as disconnected.
pub proof fn lemma_close_tab_disconnects(old: AppData, new: AppData, id: usize, r: Result<Vec<Effect>, AppError>)
    requires
        touch_close_broker_tab_result(old, new, id, r),
        old.wf(),
    ensures
        !new.broker_tabs@.contains(id),
        forall|t: usize| t != id && old.broker_tabs@.contains(t) ==> new.broker_tabs@.contains(t),
        old.index_of_id(id) is Some ==> (r matches Ok(effects) && effects@ == seq![
            Effect::Send(AppEvent::ToDisconnect(id)),
        ]) && !new.brokers@[old.index_of_id(id).unwrap()].tab_status.connected,
{
    let o = old.broker_tabs@;
    let n = new.broker_tabs@;
    match first_index(o, is_tab(id)) {
        Some(k) => {
            assert(is_first(o, is_tab(id), k));
            assert(n == o.remove(k));
            if n.contains(id) {
                let j = choose|j: int| 0 <= j < n.len() && n[j] == id;
                if j < k {
                    assert(n[j] == o[j]);
                } else {
                    assert(n[j] == o[j + 1]);
                    assert(o[k] != o[j + 1]);
                }
            }
            assert forall|t: usize| t != id && o.contains(t) implies n.contains(t) by {
                let j = choose|j: int| 0 <= j < o.len() && o[j] == t;
                if j < k {
                    assert(n[j] == o[j]);
                } else {
                    assert(j != k);
                    assert(n[j - 1] == o[j]);
                }
            }
        },
        None => {
            if o.contains(id) {
                let j = choose|j: int| 0 <= j < o.len() && o[j] == id;
                lemma_exists_first(o, is_tab(id), j);
            }
        },
    }
}

impl AppData {
    /// The position of the first broker with this id.
    pub open spec fn index_of_id(self, id: usize) -> Option<int> {
        first_index(self.brokers@, has_id(id))
    }

    /// The position of the first selected broker.
    pub open spec fn index_of_selected(self) -> Option<int> {
        first_index(self.brokers@, is_selected())
    }

    /// The same state as `old`, vector by vector.
    pub open spec fn unchanged(self, old: AppData) -> bool {
        &&& self.brokers@ == old.brokers@
        &&& self.broker_tabs@ == old.broker_tabs@
        &&& self.db.index == old.db.index
        &&& self.db.ids@ == old.db.ids@
        &&& self.hint == old.hint
        &&& self.self_signed_file == old.self_signed_file
        &&& self.display_history == old.display_history
        &&& self.display_broker_info == old.display_broker_info
    }

    /// Only the broker at position `i` may differ; everything else is as in `old`.
    pub open spec fn only_broker_changed(self, old: AppData, i: int) -> bool {
        &&& self.brokers@.len() == old.brokers@.len()
        &&& forall|j: int|
            0 <= j < self.brokers@.len() && j != i ==> #[trigger] self.brokers@[j] == old.brokers@[j]
        &&& self.broker_tabs == old.broker_tabs
        &&& self.db == old.db
        &&& self.hint == old.hint
        &&& self.self_signed_file == old.self_signed_file
        &&& self.display_history == old.display_history
        &&& self.display_broker_info == old.display_broker_info
    }


    /// Some broker has this id.
    pub open spec fn has_broker(self, id: usize) -> bool {
        exists|j: int| 0 <= j < self.brokers@.len() && (#[trigger] self.brokers@[j]).id == id
    }

    /// Well-formed: broker ids are distinct and below the next id to hand out, a broker tab
    /// is open at most once and only for a broker that exists, and no broker keeps more than
    /// `MAX_MSGS` messages.
    pub open spec fn wf(self) -> bool {
        &&& forall|i: int| 0 <= i < self.brokers@.len() ==> #[trigger] self.brokers@[i].id < self.db.index
        &&& forall|i: int, j: int|
            0 <= i < j < self.brokers@.len() ==> #[trigger] self.brokers@[i].id != #[trigger] self.brokers@[j].id
        &&& forall|i: int, j: int|
            0 <= i < j < self.broker_tabs@.len() ==> #[trigger] self.broker_tabs@[i] != #[trigger] self.broker_tabs@[j]
        &&& forall|t: int| 0 <= t < self.broker_tabs@.len() ==> self.has_broker(#[trigger] self.broker_tabs@[t])
        &&& forall|i: int| 0 <= i < self.brokers@.len() ==> #[trigger] self.brokers@[i].msgs@.len() <= MAX_MSGS
    }

    /// Only the selection flags of the brokers may differ from `old`.
    pub open spec fn only_selection_changed(self, old: AppData) -> bool {
        &&& self.brokers@.len() == old.brokers@.len()
        &&& forall|j: int|
            0 <= j < self.brokers@.len() ==> #[trigger] self.brokers@[j] == with_selected(
                old.brokers@[j],
                self.brokers@[j].selected,
            )
        &&& self.broker_tabs == old.broker_tabs
        &&& self.db == old.db
        &&& self.hint == old.hint
        &&& self.self_signed_file == old.self_signed_file
    }

    /// Clears every selection.
    pub fn unselect_broker(&mut self)
        ensures
            final(self).only_selection_changed(*old(self)),
            forall|j: int| 0 <= j < final(self).brokers@.len() ==> !(#[trigger] final(self).brokers@[j]).selected,
            final(self).display_history == old(self).display_history,
            final(self).display_broker_info == old(self).display_broker_info,
            old(self).wf() ==> final(self).wf(),
    {
        let len = self.brokers.len();
        for i in 0..len
            invariant
                len == self.brokers@.len(),
                self.only_selection_changed(*old(self)),
                self.display_history == old(self).display_history,
                self.display_broker_info == old(self).display_broker_info,
                forall|j: int| 0 <= j < i ==> !(#[trigger] self.brokers@[j]).selected,
                forall|j: int| i <= j < len ==> #[trigger] self.brokers@[j] == old(self).brokers@[j],
        {
            self.brokers[i].selected = false;
        }
        proof {
            if old(self).wf() {
                assert forall|j: int| 0 <= j < self.brokers@.len() implies #[trigger] self.brokers@[j].id
                    == old(self).brokers@[j].id by {
                    assert(self.brokers@[j] == with_selected(old(self).brokers@[j], self.brokers@[j].selected));
                }
                lemma_tabs_known_same_ids(*self, *old(self));
            }
        }
    }

    /// Selects exactly the brokers with this id.
    fn select_broker(&mut self, id: usize)
        ensures
            final(self).only_selection_changed(*old(self)),
            forall|j: int|
                0 <= j < final(self).brokers@.len() ==> (#[trigger] final(self).brokers@[j]).selected
                    == (old(self).brokers@[j].id == id),
            final(self).display_history == old(self).display_history,
            final(self).display_broker_info == old(self).display_broker_info,
            old(self).wf() ==> final(self).wf(),
    {
        let len = self.brokers.len();
        for i in 0..len
            invariant
                len == self.brokers@.len(),
                self.only_selection_changed(*old(self)),
                self.display_history == old(self).display_history,
                self.display_broker_info == old(self).display_broker_info,
                forall|j: int| 0 <= j < i ==> (#[trigger] self.brokers@[j]).selected == (old(self).brokers@[j].id == id),
                forall|j: int| i <= j < len ==> #[trigger] self.brokers@[j] == old(self).brokers@[j],
        {
            if self.brokers[i].id == id {
                self.brokers[i].selected = true;
            } else {
                self.brokers[i].selected = false;
            }
        }
        proof {
            if old(self).wf() {
                assert forall|j: int| 0 <= j < self.brokers@.len() implies #[trigger] self.brokers@[j].id
                    == old(self).brokers@[j].id by {
                    assert(self.brokers@[j] == with_selected(old(self).brokers@[j], self.brokers@[j].selected));
                }
                lemma_tabs_known_same_ids(*self, *old(self));
            }
        }
    }

    /// Selects exactly the brokers with this id and shows the broker settings.
    fn select_broker_and_display(&mut self, id: usize)
        ensures
            final(self).only_selection_changed(*old(self)),
            forall|j: int|
                0 <= j < final(self).brokers@.len() ==> (#[trigger] final(self).brokers@[j]).selected
                    == (old(self).brokers@[j].id == id),
            final(self).display_history == old(self).display_history,
            final(self).display_broker_info,
            old(self).wf() ==> final(self).wf(),
    {
        self.select_broker(id);
        self.display_broker_info = true;
    }

    /// A click on a tab selects its broker.
    pub fn touch_click_tab(&mut self, broker_id: usize) -> (r: Result<(), AppError>)
        ensures
            touch_click_tab_result(*old(self), *final(self), broker_id, r),
            old(self).wf() ==> final(self).wf(),
    {
        self.select_broker(broker_id);
        Ok(())
    }

    /// Opens the tab of a broker unless it is open; tells whether it was open already.
    pub(crate) fn init_broker_tab(&mut self, id: usize) -> (is_exist: bool)
        ensures
            is_exist == old(self).broker_tabs@.contains(id),
            final(self).broker_tabs@ == if is_exist {
                old(self).broker_tabs@
            } else {
                seq![id] + old(self).broker_tabs@
            },
            final(self).brokers == old(self).brokers,
            final(self).db == old(self).db,
            final(self).hint == old(self).hint,
            final(self).self_signed_file == old(self).self_signed_file,
            final(self).display_history == old(self).display_history,
            final(self).display_broker_info == old(self).display_broker_info,
            old(self).wf() && old(self).has_broker(id) ==> final(self).wf(),
    {
        let len = self.broker_tabs.len();
        for i in 0..len
            invariant
                len == self.broker_tabs@.len(),
                self.broker_tabs == old(self).broker_tabs,
                forall|j: int| 0 <= j < i ==> self.broker_tabs@[j] != id,
        {
            if self.broker_tabs[i] == id {
                return true;
            }
        }
        self.broker_tabs.insert(0, id);
        proof {
            assert(self.broker_tabs@ =~= seq![id] + old(self).broker_tabs@);
            if old(self).wf() && old(self).has_broker(id) {
                assert forall|t: int| 0 <= t < self.broker_tabs@.len() implies self.has_broker(
                    #[trigger] self.broker_tabs@[t],
                ) by {
                    if t > 0 {
                        assert(self.broker_tabs@[t] == old(self).broker_tabs@[t - 1]);
                    }
                }
                assert forall|i: int, j: int|
                    0 <= i < j < self.broker_tabs@.len() implies #[trigger] self.broker_tabs@[i]
                    != #[trigger] self.broker_tabs@[j] by {
                    if i > 0 {
                        assert(self.broker_tabs@[i] == old(self).broker_tabs@[i - 1]);
                        assert(self.broker_tabs@[j] == old(self).broker_tabs@[j - 1]);
                    } else {
                        assert(self.broker_tabs@[j] == old(self).broker_tabs@[j - 1]);
                    }
                }
            }
        }
        false
    }

    fn find_tab(&self, id: usize) -> (r: Option<usize>)
        ensures
            match r {
                Some(k) => first_index(self.broker_tabs@, is_tab(id)) == Some(k as int),
                None => first_index(self.broker_tabs@, is_tab(id)) is None,
            },
    {
        let len = self.broker_tabs.len();
        for i in 0..len
            invariant
                len == self.broker_tabs@.len(),
                forall|j: int| 0 <= j < i ==> !is_tab(id)(#[trigger] self.broker_tabs@[j]),
        {
            if self.broker_tabs[i] == id {
                proof {
                    lemma_first_index(self.broker_tabs@, is_tab(id), i as int);
                }
                return Some(i);
            }
        }
        proof {
            lemma_first_index_none(self.broker_tabs@, is_tab(id));
        }
        None
    }

    /// Closes the first tab of this broker, if one is open.
    fn close_broker_tab(&mut self, id: usize) -> (r: Result<(), AppError>)
        ensures
            r is Ok,
            match first_index(old(self).broker_tabs@, is_tab(id)) {
                Some(k) => final(self).broker_tabs@ == old(self).broker_tabs@.remove(k),
                None => final(self).broker_tabs@ == old(self).broker_tabs@,
            },
            final(self).brokers == old(self).brokers,
            final(self).db == old(self).db,
            final(self).hint == old(self).hint,
            final(self).self_signed_file == old(self).self_signed_file,
            final(self).display_history == old(self).display_history,
            final(self).display_broker_info == old(self).display_broker_info,
            old(self).wf() ==> final(self).wf(),
    {
        if let Some(i) = self.find_tab(id) {
            self.broker_tabs.remove(i);
            proof {
                if old(self).wf() {
                    assert forall|a: int, b: int|
                        0 <= a < b < self.broker_tabs@.len() implies #[trigger] self.broker_tabs@[a]
                        != #[trigger] self.broker_tabs@[b] by {
                        let a0 = if a < i { a } else { a + 1 };
                        let b0 = if b < i { b } else { b + 1 };
                        assert(self.broker_tabs@[a] == old(self).broker_tabs@[a0]);
                        assert(self.broker_tabs@[b] == old(self).broker_tabs@[b0]);
                    }
                }
            }
        }
        Ok(())
    }


    /// Changing one broker, keeping its id and its bound on messages, keeps the state
    /// well-formed.
    pub(crate) proof fn lemma_wf_one_broker(self, old: AppData, i: int)
        requires
            old.wf(),
            self.brokers@.len() == old.brokers@.len(),
            forall|j: int|
                0 <= j < self.brokers@.len() && j != i ==> #[trigger] self.brokers@[j] == old.brokers@[j],
            self.broker_tabs@ == old.broker_tabs@,
            self.db.index == old.db.index,
            0 <= i < self.brokers@.len(),
            self.brokers@[i].id == old.brokers@[i].id,
            self.brokers@[i].msgs@.len() <= MAX_MSGS,
        ensures
            self.wf(),
    {
        assert forall|a: int| 0 <= a < self.brokers@.len() implies #[trigger] self.brokers@[a].id
            == old.brokers@[a].id by {
            if a != i {
                assert(self.brokers@[a] == old.brokers@[a]);
            }
        }
        assert forall|a: int| 0 <= a < self.brokers@.len() implies #[trigger] self.brokers@[a].msgs@.len()
            <= MAX_MSGS by {
            if a != i {
                assert(self.brokers@[a] == old.brokers@[a]);
            }
        }
        assert forall|a: int, b: int|
            0 <= a < b < self.brokers@.len() implies #[trigger] self.brokers@[a].id
            != #[trigger] self.brokers@[b].id by {
            assert(self.brokers@[a].id == old.brokers@[a].id);
            assert(self.brokers@[b].id == old.brokers@[b].id);
        }
        lemma_tabs_known_same_ids(self, old);
    }

    /// The store's list of ids does not bear on well-formedness.
    pub(crate) proof fn lemma_wf_same_brokers(self, old: AppData)
        requires
            old.wf(),
            self.brokers@ == old.brokers@,
            self.broker_tabs@ == old.broker_tabs@,
            self.db.index == old.db.index,
        ensures
            self.wf(),
    {
        assert forall|a: int| 0 <= a < self.brokers@.len() implies #[trigger] self.brokers@[a].id
            < self.db.index by {
            assert(self.brokers@[a] == old.brokers@[a]);
        }
    }

    fn find_unstored(&self) -> (r: Option<usize>)
        ensures
            match r {
                Some(k) => first_index(self.brokers@, is_unstored()) == Some(k as int),
                None => first_index(self.brokers@, is_unstored()) is None,
            },
    {
        let len = self.brokers.len();
        for i in 0..len
            invariant
                len == self.brokers@.len(),
                forall|j: int| 0 <= j < i ==> !is_unstored()(#[trigger] self.brokers@[j]),
        {
            if !self.brokers[i].stored {
                proof {
                    lemma_first_index(self.brokers@, is_unstored(), i as int);
                }
                return Some(i);
            }
        }
        proof {
            lemma_first_index_none(self.brokers@, is_unstored());
        }
        None
    }

    /// Adds a broker: the first broker never saved is selected again if there is one;
    /// otherwise a broker with the default settings is put first, under a fresh id, and
    /// selected. Every other broker is unselected, and the broker settings are shown.
    pub fn touch_add_broker(&mut self)
        requires
            first_index(old(self).brokers@, is_unstored()) is None ==> old(self).db.index < usize::MAX,
        ensures
            touch_add_broker_result(*old(self), *final(self)),
            old(self).wf() ==> final(self).wf(),
            at_most_one_unstored(old(self).brokers@) ==> at_most_one_unstored(final(self).brokers@),
    {
        self.unselect_broker();
        let ghost mid = *self;
        if let Some(k) = self.find_unstored() {
            self.brokers[k].selected = true;
            self.display_broker_info = true;
            proof {
                assert(first_index(mid.brokers@, is_unstored()) == first_index(
                    old(self).brokers@,
                    is_unstored(),
                )) by {
                    assert(is_first(old(self).brokers@, is_unstored(), k as int)) by {
                        assert(is_first(mid.brokers@, is_unstored(), k as int));
                        assert forall|j: int| 0 <= j < k implies !is_unstored()(
                            #[trigger] old(self).brokers@[j],
                        ) by {
                            assert(mid.brokers@[j] == with_selected(old(self).brokers@[j], false));
                        }
                        assert(mid.brokers@[k as int] == with_selected(old(self).brokers@[k as int], false));
                    }
                    lemma_first_index(old(self).brokers@, is_unstored(), k as int);
                }
                assert forall|j: int| 0 <= j < self.brokers@.len() implies #[trigger] self.brokers@[j]
                    == with_selected(old(self).brokers@[j], j == k) by {
                    assert(mid.brokers@[j] == with_selected(old(self).brokers@[j], false));
                    if j != k {
                        assert(self.brokers@[j] == mid.brokers@[j]);
                    }
                }
                if old(self).wf() {
                    self.lemma_wf_one_broker(mid, k as int);
                }
            }
        } else {
            proof {
                assert forall|j: int| 0 <= j < old(self).brokers@.len() implies !is_unstored()(
                    #[trigger] old(self).brokers@[j],
                ) by {
                    assert(mid.brokers@[j] == with_selected(old(self).brokers@[j], false));
                    if is_unstored()(old(self).brokers@[j]) {
                        assert(is_unstored()(mid.brokers@[j]));
                        assert(exists|c: int| is_first(mid.brokers@, is_unstored(), c)) by {
                            lemma_exists_first(mid.brokers@, is_unstored(), j);
                        }
                    }
                }
                lemma_first_index_none(old(self).brokers@, is_unstored());
            }
            let mut broker = self.db.new_broker();
            broker.selected = true;
            self.brokers.insert(0, broker);
            self.display_broker_info = true;
            proof {
                assert forall|j: int| 0 <= j < old(self).brokers@.len() implies #[trigger] self.brokers@[j
                    + 1] == with_selected(old(self).brokers@[j], false) by {
                    assert(self.brokers@[j + 1] == mid.brokers@[j]);
                }
                if old(self).wf() {
                    assert forall|a: int| 0 <= a < self.brokers@.len() implies #[trigger] self.brokers@[a].id
                        < self.db.index by {
                        if a > 0 {
                            assert(self.brokers@[a] == mid.brokers@[a - 1]);
                        }
                    }
                    assert forall|a: int| 0 <= a < self.brokers@.len() implies #[trigger] self.brokers@[a].msgs@.len()
                        <= MAX_MSGS by {
                        if a > 0 {
                            assert(self.brokers@[a] == mid.brokers@[a - 1]);
                        }
                    }
                    assert forall|a: int, b: int|
                        0 <= a < b < self.brokers@.len() implies #[trigger] self.brokers@[a].id
                        != #[trigger] self.brokers@[b].id by {
                        assert(self.brokers@[b] == mid.brokers@[b - 1]);
                        if a > 0 {
                            assert(self.brokers@[a] == mid.brokers@[a - 1]);
                        }
                    }
                    assert forall|t: int| 0 <= t < self.broker_tabs@.len() implies self.has_broker(
                        #[trigger] self.broker_tabs@[t],
                    ) by {
                        let x = mid.broker_tabs@[t];
                        assert(mid.has_broker(x));
                        let j = choose|j: int| 0 <= j < mid.brokers@.len() && (#[trigger] mid.brokers@[j]).id == x;
                        assert(self.brokers@[j + 1] == mid.brokers@[j]);
                    }
                }
            }
        }
        proof {
            if at_most_one_unstored(old(self).brokers@) {
                lemma_add_broker_keeps_one_unstored(*old(self), *self);
            }
        }
    }


    /// Shows the broker settings and hides the history when there is no broker yet, after
    /// adding one; shows the history otherwise.
    pub fn init_broker(&mut self)
        requires
            old(self).brokers@.len() == 0 ==> old(self).db.index < usize::MAX,
        ensures
            old(self).brokers@.len() == 0 ==> final(self).brokers@.len() == 1 && is_default_broker(
                final(self).brokers@[0],
                old(self).db.index,
            ) && final(self).brokers@[0].selected && final(self).display_broker_info
                && !final(self).display_history,
            old(self).brokers@.len() > 0 ==> final(self).brokers == old(self).brokers
                && !final(self).display_broker_info && final(self).display_history,
            final(self).broker_tabs == old(self).broker_tabs,
            old(self).wf() ==> final(self).wf(),
    {
        if self.brokers.len() == 0 {
            self.touch_add_broker();
            self.display_broker_info = true;
            self.display_history = false;
        } else {
            self.display_broker_info = false;
            self.display_history = true;
        }
    }

    /// Opens the tab of the selected broker, if one is selected.
    pub fn edit_broker(&mut self)
        ensures
            edit_broker_result(*old(self), *final(self)),
            old(self).wf() ==> final(self).wf(),
    {
        if let Some(id) = self.get_selected_broker_id() {
            self.init_broker_tab(id);
        }
    }

    fn tab_positions(&self, id: usize) -> (positions: Vec<usize>)
        ensures
            positions@ == positions_of(self.broker_tabs@, id),
    {
        let mut positions: Vec<usize> = Vec::new();
        let len = self.broker_tabs.len();
        for index in 0..len
            invariant
                len == self.broker_tabs@.len(),
                positions@ == positions_of(self.broker_tabs@.take(index as int), id),
        {
            proof {
                assert(self.broker_tabs@.take(index + 1).drop_last() =~= self.broker_tabs@.take(
                    index as int,
                ));
            }
            if self.broker_tabs[index] == id {
                positions.push(index);
            }
        }
        proof {
            assert(self.broker_tabs@.take(len as int) =~= self.broker_tabs@);
        }
        positions
    }

    /// A click on a broker selects exactly the brokers with its id, shows its settings, and
    /// brings its tab to the front where it is open.
    pub fn click_broker(&mut self, id: usize) -> (r: Result<Vec<Effect>, AppError>)
        ensures
            click_broker_result(*old(self), *final(self), id, r),
            old(self).wf() ==> final(self).wf(),
    {
        self.select_broker_and_display(id);
        let positions = self.tab_positions(id);
        let mut effects: Vec<Effect> = Vec::new();
        for k in 0..positions.len()
            invariant
                effects@ == select_tab_effects(positions@.take(k as int)),
        {
            effects.push(Effect::Send(AppEvent::UpdateToSelectTabs(positions[k])));
            proof {
                assert(positions@.take(k + 1) =~= positions@.take(k as int).push(positions@[k as int]));
                assert(select_tab_effects(positions@.take(k + 1)) =~= select_tab_effects(
                    positions@.take(k as int),
                ).push(Effect::Send(AppEvent::UpdateToSelectTabs(positions@[k as int]))));
            }
        }
        proof {
            assert(positions@.take(positions@.len() as int) =~= positions@);
        }
        Ok(effects)
    }

    /// The broker with this id is connected; without `retain` its subscriptions start
    /// afresh.
    pub fn update_to_connected(&mut self, id: usize, retain: bool) -> (r: Result<(), AppError>)
        ensures
            update_to_connected_result(*old(self), *final(self), id, retain, r),
            old(self).wf() ==> final(self).wf(),
    {
        let i = match self.find_index_by_id(id) {
            Some(i) => i,
            None => return Err(AppError::BrokerNotFound(id)),
        };
        self.brokers[i].tab_status.try_connect = false;
        self.brokers[i].tab_status.connected = true;
        if !retain {
            self.brokers[i].subscribe_topics.clear();
        }
        proof {
            if old(self).wf() {
                self.lemma_wf_one_broker(*old(self), i as int);
            }
        }
        Ok(())
    }

    /// The connection of the broker with this id is closed.
    pub fn close_connection(&mut self, id: usize) -> (r: Result<(), AppError>)
        ensures
            match old(self).index_of_id(id) {
                Some(i) => {
                    &&& r is Ok
                    &&& final(self).only_broker_changed(*old(self), i)
                    &&& final(self).brokers@[i] == (Broker {
                        tab_status: TabStatus {
                            try_connect: false,
                            connected: false,
                            ..old(self).brokers@[i].tab_status
                        },
                        ..old(self).brokers@[i]
                    })
                },
                None => r == Err::<(), AppError>(AppError::BrokerNotFound(id)) && final(self).unchanged(*old(self)),
            },
            old(self).wf() ==> final(self).wf(),
    {
        let i = match self.find_index_by_id(id) {
            Some(i) => i,
            None => return Err(AppError::BrokerNotFound(id)),
        };
        self.brokers[i].tab_status.try_connect = false;
        self.brokers[i].tab_status.connected = false;
        proof {
            if old(self).wf() {
                self.lemma_wf_one_broker(*old(self), i as int);
            }
        }
        Ok(())
    }

    /// The client of the broker with this id lost its connection.
    pub fn client_disconnect(&mut self, id: usize) -> (r: Result<(), AppError>)
        ensures
            client_disconnect_result(*old(self), *final(self), id, r),
            old(self).wf() ==> final(self).wf(),
    {
        let i = match self.find_index_by_id(id) {
            Some(i) => i,
            None => return Err(AppError::BrokerNotFound(id)),
        };
        self.brokers[i].disconnect(false);
        proof {
            if old(self).wf() {
                self.lemma_wf_one_broker(*old(self), i as int);
            }
        }
        Ok(())
    }

    /// Disconnects the selected broker and asks the worker to close its connection.
    pub fn touch_disconnect(&mut self) -> (r: Result<Vec<Effect>, AppError>)
        ensures
            touch_disconnect_result(*old(self), *final(self), r),
            old(self).wf() ==> final(self).wf(),
    {
        let i = match self.get_selected_broker_index() {
            Some(i) => i,
            None => return Err(AppError::NoSelectedBroker),
        };
        self.brokers[i].disconnect(false);
        let id = self.brokers[i].id;
        proof {
            if old(self).wf() {
                self.lemma_wf_one_broker(*old(self), i as int);
            }
        }
        let mut effects: Vec<Effect> = Vec::new();
        effects.push(Effect::Send(AppEvent::ToDisconnect(id)));
        Ok(effects)
    }

    /// Records an unsubscribe request in flight for a subscription of the broker.
    pub fn to_unsubscribe(&mut self, broker_id: usize, subscribe_pkid: u32, unsubscribe_pkid: u32) -> (r:
        Result<(), AppError>)
        ensures
            to_unsubscribe_result(*old(self), *final(self), broker_id, subscribe_pkid, unsubscribe_pkid, r),
            old(self).wf() ==> final(self).wf(),
    {
        let i = match self.find_index_by_id(broker_id) {
            Some(i) => i,
            None => return Err(AppError::BrokerNotFound(broker_id)),
        };
        self.brokers[i].unsubscribe_ing.push(
            UnsubcribeTracing { subscribe_pk_id: subscribe_pkid, unsubscribe_pk_id: unsubscribe_pkid },
        );
        proof {
            if old(self).wf() {
                self.lemma_wf_one_broker(*old(self), i as int);
            }
        }
        Ok(())
    }

    /// Drops every message of the broker and asks the window to scroll its message list.
    pub fn clear_msg(&mut self, id: usize) -> (r: Result<Vec<Effect>, AppError>)
        ensures
            clear_msg_result(*old(self), *final(self), id, r),
            old(self).wf() ==> final(self).wf(),
    {
        let i = match self.find_index_by_id(id) {
            Some(i) => i,
            None => return Err(AppError::BrokerNotFound(id)),
        };
        self.brokers[i].msgs.clear();
        proof {
            if old(self).wf() {
                self.lemma_wf_one_broker(*old(self), i as int);
            }
        }
        let mut effects: Vec<Effect> = Vec::new();
        effects.push(Effect::Send(AppEvent::UpdateScrollMsgWin));
        Ok(effects)
    }


    /// Saves the broker at position `i` and asks the worker to connect it; its tab opens
    /// and the settings are hidden.
    fn init_connection_by_index(&mut self, i: usize) -> (effects: Vec<Effect>)
        requires
            i < old(self).brokers@.len(),
        ensures
            connect_effects(effects@, old(self).db, final(self).db, old(self).brokers@[i as int]),
            saved_to(old(self).db, final(self).db, old(self).brokers@[i as int].id),
            final(self).brokers == old(self).brokers,
            final(self).broker_tabs@ == if old(self).broker_tabs@.contains(old(self).brokers@[i as int].id) {
                old(self).broker_tabs@
            } else {
                seq![old(self).brokers@[i as int].id] + old(self).broker_tabs@
            },
            !final(self).display_broker_info,
            final(self).display_history == old(self).display_history,
            final(self).hint == old(self).hint,
            final(self).self_signed_file == old(self).self_signed_file,
            old(self).wf() ==> final(self).wf(),
    {
        let record = self.brokers[i].clone_to_db();
        let connect = self.brokers[i].clone_to_db();
        let id = self.brokers[i].id;
        self.init_broker_tab(id);
        let writes = self.db.save_broker(record);
        self.display_broker_info = false;
        let mut effects: Vec<Effect> = Vec::new();
        push_store_effects(&mut effects, writes);
        let ghost saved = effects@;
        effects.push(Effect::Send(AppEvent::ToConnect(connect)));
        proof {
            assert(effects@.drop_last() =~= saved);
        }
        effects
    }

    /// Saves the selected broker.
    pub fn touch_save_broker(&mut self) -> (r: Result<Vec<Effect>, AppError>)
        ensures
            touch_save_broker_result(*old(self), *final(self), r),
            old(self).wf() ==> final(self).wf(),
    {
        let i = match self.get_selected_broker_index() {
            Some(i) => i,
            None => return Err(AppError::NoSelectedBroker),
        };
        self.brokers[i].stored = true;
        let record = self.brokers[i].clone_to_db();
        let writes = self.db.save_broker(record);
        let mut effects: Vec<Effect> = Vec::new();
        push_store_effects(&mut effects, writes);
        proof {
            assert(self.brokers@ =~= old(self).brokers@.update(
                i as int,
                Broker { stored: true, ..old(self).brokers@[i as int] },
            ));
            if old(self).wf() {
                self.lemma_wf_one_broker(*old(self), i as int);
            }
        }
        Ok(effects)
    }

    /// Connects the selected broker: refused while its address or port is missing.
    pub fn init_connection_for_selected(&mut self) -> (r: Result<Vec<Effect>, AppError>)
        ensures
            match old(self).index_of_selected() {
                Some(i) => {
                    let b = old(self).brokers@[i];
                    if b.addr@.len() == 0 {
                        r == Err::<Vec<Effect>, AppError>(AppError::Input(ForError::NotEmpty)) && final(self).unchanged(*old(self))
                    } else if b.port is None {
                        r == Err::<Vec<Effect>, AppError>(AppError::Input(ForError::InvalidPort)) && final(self).unchanged(*old(self))
                    } else {
                        let nb = Broker {
                            tab_status: TabStatus { try_connect: true, connected: false, ..b.tab_status },
                            ..b
                        };
                        &&& r matches Ok(effects) && connect_effects(effects@, old(self).db, final(self).db, nb)
                        &&& saved_to(old(self).db, final(self).db, b.id)
                        &&& final(self).brokers@ == old(self).brokers@.update(i, nb)
                        &&& final(self).broker_tabs@ == if old(self).broker_tabs@.contains(b.id) {
                            old(self).broker_tabs@
                        } else {
                            seq![b.id] + old(self).broker_tabs@
                        }
                        &&& !final(self).display_broker_info
                        &&& final(self).display_history == old(self).display_history
                        &&& final(self).hint == old(self).hint
                        &&& final(self).self_signed_file == old(self).self_signed_file
                    }
                },
                None => r == Err::<Vec<Effect>, AppError>(AppError::NoSelectedBroker) && final(self).unchanged(*old(self)),
            },
            old(self).wf() ==> final(self).wf(),
    {
        let i = match self.get_selected_broker_index() {
            Some(i) => i,
            None => return Err(AppError::NoSelectedBroker),
        };
        match self.brokers[i].init_connection() {
            Ok(()) => {},
            Err(e) => {
                proof {
                    assert(self.brokers@ =~= old(self).brokers@);
                }
                return Err(AppError::Input(e));
            },
        }
        proof {
            assert(self.brokers@ =~= old(self).brokers@.update(i as int, self.brokers@[i as int]));
            if old(self).wf() {
                self.lemma_wf_one_broker(*old(self), i as int);
            }
        }
        let effects = self.init_connection_by_index(i);
        self.display_broker_info = false;
        Ok(effects)
    }

    /// The connect button of the selected broker.
    pub fn touch_connect_broker_selected(&mut self) -> (r: Result<Vec<Effect>, AppError>)
        ensures
            touch_connect_broker_selected_result(*old(self), *final(self), r),
            old(self).wf() ==> final(self).wf(),
    {
        self.init_connection_for_selected()
    }

    /// Reconnects the broker at position `i`: its connection is closed and opened again.
    fn reconnect_index(&mut self, i: usize) -> (r: Result<Vec<Effect>, AppError>)
        requires
            i < old(self).brokers@.len(),
        ensures
            reconnect_result(*old(self), *final(self), i as int, r),
            old(self).wf() ==> final(self).wf(),
    {
        self.brokers[i].disconnect(false);
        proof {
            if old(self).wf() {
                self.lemma_wf_one_broker(*old(self), i as int);
            }
        }
        let ghost mid = *self;
        match self.brokers[i].init_connection() {
            Ok(()) => {},
            Err(e) => {
                proof {
                    assert(self.brokers@ =~= old(self).brokers@.update(i as int, self.brokers@[i as int]));
                }
                return Err(AppError::Input(e));
            },
        }
        proof {
            if old(self).wf() {
                self.lemma_wf_one_broker(mid, i as int);
            }
        }
        let id = self.brokers[i].id;
        let mut effects: Vec<Effect> = Vec::new();
        effects.push(Effect::Send(AppEvent::ToDisconnect(id)));
        let ghost connecting = *self;
        let mut connect = self.init_connection_by_index(i);
        proof {
            assert(self.brokers@ =~= old(self).brokers@.update(i as int, connecting.brokers@[i as int]));
        }
        let ghost ce = connect@;
        effects.append(&mut connect);
        proof {
            assert(effects@.skip(1) =~= ce);
        }
        Ok(effects)
    }

    /// Reconnects the selected broker.
    pub fn touch_reconnect(&mut self) -> (r: Result<Vec<Effect>, AppError>)
        ensures
            touch_reconnect_result(*old(self), *final(self), r),
            old(self).wf() ==> final(self).wf(),
    {
        let i = match self.get_selected_broker_index() {
            Some(i) => i,
            None => return Err(AppError::NoSelectedBroker),
        };
        self.reconnect_index(i)
    }

    /// A double click on a broker reconnects it.
    pub fn db_click_broker(&mut self, id: usize) -> (r: Result<Vec<Effect>, AppError>)
        ensures
            db_click_broker_result(*old(self), *final(self), id, r),
            old(self).wf() ==> final(self).wf(),
    {
        let i = match self.find_index_by_id(id) {
            Some(i) => i,
            None => return Err(AppError::BrokerNotFound(id)),
        };
        self.reconnect_index(i)
    }


    /// A broker acknowledged a publish: every published message of the broker traced by
    /// `trace_id` becomes successful. Refused where the broker has no such message.
    pub fn pub_ack(&mut self, id: usize, trace_id: u32) -> (r: Result<(), AppError>)
        ensures
            pub_ack_result(*old(self), *final(self), id, trace_id, r),
            old(self).wf() ==> final(self).wf(),
    {
        let i = match self.find_index_by_id(id) {
            Some(i) => i,
            None => return Err(AppError::BrokerNotFound(id)),
        };
        let ghost msgs = self.brokers@[i as int].msgs@;
        let mut is_ack = false;
        let len = self.brokers[i].msgs.len();
        for k in 0..len
            invariant
                i < self.brokers@.len(),
                self.only_broker_changed(*old(self), i as int),
                self.brokers@[i as int] == (Broker {
                    msgs: self.brokers@[i as int].msgs,
                    ..old(self).brokers@[i as int]
                }),
                msgs == old(self).brokers@[i as int].msgs@,
                len == msgs.len(),
                self.brokers@[i as int].msgs@.len() == len,
                forall|j: int| 0 <= j < k ==> #[trigger] self.brokers@[i as int].msgs@[j] == acked(msgs[j], trace_id),
                forall|j: int| k <= j < len ==> #[trigger] self.brokers@[i as int].msgs@[j] == msgs[j],
                is_ack <==> exists|j: int| 0 <= j < k && is_publish_of(#[trigger] msgs[j], trace_id),
        {
            let ghost before = self.brokers@[i as int].msgs@;
            match &mut self.brokers[i].msgs[k] {
                Msg::Public(msg) => {
                    if msg.trace_id == trace_id {
                        is_ack = true;
                        msg.status = PublicStatus::Success;
                    }
                },
                Msg::Subscribe(_) => {},
            }
            proof {
                assert(self.brokers@[i as int].msgs@ =~= before.update(k as int, acked(msgs[k as int], trace_id)));
                if is_publish_of(msgs[k as int], trace_id) {
                    assert(is_ack);
                }
            }
        }
        proof {
            assert(self.brokers@[i as int].msgs@ =~= msgs.map_values(|m: Msg| acked(m, trace_id)));
            if old(self).wf() {
                self.lemma_wf_one_broker(*old(self), i as int);
            }
        }
        if !is_ack {
            return Err(AppError::PublishNotFound(trace_id));
        }
        Ok(())
    }


    /// Closes the tab of a broker and its connection.
    pub fn touch_close_broker_tab(&mut self, id: usize) -> (r: Result<Vec<Effect>, AppError>)
        ensures
            touch_close_broker_tab_result(*old(self), *final(self), id, r),
            old(self).wf() ==> final(self).wf(),
    {
        self.close_broker_tab(id)?;
        let ghost mid = *self;
        let i = match self.find_index_by_id(id) {
            Some(i) => i,
            None => return Err(AppError::BrokerNotFound(id)),
        };
        self.brokers[i].disconnect(true);
        proof {
            if old(self).wf() {
                self.lemma_wf_one_broker(mid, i as int);
            }
        }
        let mut effects: Vec<Effect> = Vec::new();
        effects.push(Effect::Send(AppEvent::ToDisconnect(id)));
        Ok(effects)
    }

    /// Deletes the selected broker: its tab and connection close and it leaves the store.
    /// Where no broker is left, a new one is added.
    pub fn touch_delete_broker_selected(&mut self) -> (r: Result<Vec<Effect>, AppError>)
        requires
            old(self).brokers@.len() <= 1 ==> old(self).db.index < usize::MAX,
        ensures
            touch_delete_broker_selected_result(*old(self), *final(self), r),
            old(self).wf() ==> final(self).wf(),
    {
        let index = match self.get_selected_broker_index() {
            Some(index) => index,
            None => return Err(AppError::NoSelectedBroker),
        };
        let mut broker = self.brokers.remove(index);
        broker.disconnect(true);
        let id = broker.id;
        proof {
            if old(self).wf() {
                assert forall|a: int| 0 <= a < self.brokers@.len() implies #[trigger] self.brokers@[a].id
                    < self.db.index && self.brokers@[a].msgs@.len() <= MAX_MSGS by {
                    let a0 = if a < index { a } else { a + 1 };
                    assert(self.brokers@[a] == old(self).brokers@[a0]);
                }
                assert forall|a: int, b: int|
                    0 <= a < b < self.brokers@.len() implies #[trigger] self.brokers@[a].id
                    != #[trigger] self.brokers@[b].id by {
                    let a0 = if a < index { a } else { a + 1 };
                    let b0 = if b < index { b } else { b + 1 };
                    assert(self.brokers@[a] == old(self).brokers@[a0]);
                    assert(self.brokers@[b] == old(self).brokers@[b0]);
                }
                assert forall|a: int| 0 <= a < self.brokers@.len() implies #[trigger] self.brokers@[a].msgs@.len()
                    <= MAX_MSGS by {
                    let a0 = if a < index { a } else { a + 1 };
                    assert(self.brokers@[a] == old(self).brokers@[a0]);
                }
                assert(self.broker_tabs@ == old(self).broker_tabs@);
                assert(self.db.index == old(self).db.index);
                assert forall|t: int| 0 <= t < self.broker_tabs@.len() && self.broker_tabs@[t] != id implies self.has_broker(
                    #[trigger] self.broker_tabs@[t],
                ) by {
                    let x = old(self).broker_tabs@[t];
                    assert(old(self).has_broker(x));
                    let j = choose|j: int| 0 <= j < old(self).brokers@.len() && (#[trigger] old(self).brokers@[j]).id == x;
                    assert(j != index);
                    if j < index {
                        assert(self.brokers@[j] == old(self).brokers@[j]);
                    } else {
                        assert(self.brokers@[j - 1] == old(self).brokers@[j]);
                    }
                }
            }
        }
        let ghost removed = *self;
        self.close_broker_tab(id)?;
        proof {
            if old(self).wf() {
                let tabs = removed.broker_tabs@;
                match first_index(tabs, is_tab(id)) {
                    Some(k) => {
                        assert(is_first(tabs, is_tab(id), k)) by {
                            let c = choose|c: int| is_first(tabs, is_tab(id), c);
                            assert(is_first(tabs, is_tab(id), c));
                        }
                        assert forall|t: int| 0 <= t < self.broker_tabs@.len() implies self.has_broker(
                            #[trigger] self.broker_tabs@[t],
                        ) by {
                            let t0 = if t < k { t } else { t + 1 };
                            assert(self.broker_tabs@[t] == tabs[t0]);
                            assert(tabs[k] == id);
                            if t0 < k {
                                assert(tabs[t0] != tabs[k]);
                            } else {
                                assert(tabs[k] != tabs[t0]);
                            }
                        }
                    },
                    None => {
                        assert forall|t: int| 0 <= t < tabs.len() implies tabs[t] != id by {
                            if tabs[t] == id {
                                lemma_exists_first(tabs, is_tab(id), t);
                            }
                        }
                    },
                }
                assert(self.wf());
            }
        }
        let mut effects: Vec<Effect> = Vec::new();
        effects.push(Effect::Send(AppEvent::ToDisconnect(id)));
        let ghost before_delete = *self;
        let writes = self.db.delete_broker(id);
        proof {
            if old(self).wf() {
                self.lemma_wf_same_brokers(before_delete);
            }
        }
        let ghost w = writes@;
        push_store_effects(&mut effects, writes);
        proof {
            assert(effects@.skip(1) =~= store_effects(w));
            if old(self).db.ids@.contains(id) {
                assert(effects@[1] == Effect::Store(w[0]));
                assert(effects@[2] == Effect::Store(w[1]));
            }
        }
        if self.brokers.len() == 0 {
            self.touch_add_broker();
        }
        Ok(effects)
    }


    pub(crate) fn find_topic(&self, i: usize, trace_id: u32) -> (r: Option<usize>)
        requires
            i < self.brokers@.len(),
        ensures
            match r {
                Some(k) => first_index(self.brokers@[i as int].subscribe_topics@, has_trace(trace_id)) == Some(k as int),
                None => first_index(self.brokers@[i as int].subscribe_topics@, has_trace(trace_id)) is None,
            },
    {
        let len = self.brokers[i].subscribe_topics.len();
        for k in 0..len
            invariant
                i < self.brokers@.len(),
                len == self.brokers@[i as int].subscribe_topics@.len(),
                forall|j: int| 0 <= j < k ==> !has_trace(trace_id)(#[trigger] self.brokers@[i as int].subscribe_topics@[j]),
        {
            if self.brokers[i].subscribe_topics[k].trace_id == trace_id {
                proof {
                    lemma_first_index(self.brokers@[i as int].subscribe_topics@, has_trace(trace_id), k as int);
                }
                return Some(k);
            }
        }
        proof {
            lemma_first_index_none(self.brokers@[i as int].subscribe_topics@, has_trace(trace_id));
        }
        None
    }

    /// Marks the first subscription of the broker traced by `trace_id` as being
    /// unsubscribed and asks the worker to send the request; nothing happens where there
    /// is no such subscription.
    pub fn touch_unsubscribe(&mut self, broker_id: usize, trace_id: u32) -> (r: Result<Vec<Effect>, AppError>)
        ensures
            touch_unsubscribe_result(*old(self), *final(self), broker_id, trace_id, r),
            old(self).wf() ==> final(self).wf(),
    {
        let i = match self.find_index_by_id(broker_id) {
            Some(i) => i,
            None => return Err(AppError::BrokerNotFound(broker_id)),
        };
        let mut effects: Vec<Effect> = Vec::new();
        if let Some(k) = self.find_topic(i, trace_id) {
            self.brokers[i].subscribe_topics[k].status = SubscribeStatus::UnSubscribeIng;
            let event = EventUnSubscribe {
                broke_id: broker_id,
                subscribe_pk_id: self.brokers[i].subscribe_topics[k].trace_id,
                topic: self.brokers[i].subscribe_topics[k].topic.clone(),
            };
            effects.push(Effect::Send(AppEvent::ToUnsubscribeIng(event)));
            proof {
                assert(self.brokers@[i as int].subscribe_topics@ =~= old(self).brokers@[i as int].subscribe_topics@.update(
                    k as int,
                    SubscribeTopic {
                        status: SubscribeStatus::UnSubscribeIng,
                        ..old(self).brokers@[i as int].subscribe_topics@[k as int]
                    },
                ));
                if old(self).wf() {
                    self.lemma_wf_one_broker(*old(self), i as int);
                }
            }
        }
        Ok(effects)
    }

    /// A broker acknowledged an unsubscribe request: the request and the subscription it
    /// ends are both dropped. Refused where no request went out under this packet id, or
    /// where its subscription is gone; in the second case the request is dropped still.
    pub fn unsubscribe_ack(&mut self, broker_id: usize, unsubscribe_trace_id: u32) -> (r: Result<Vec<Effect>, AppError>)
        ensures
            unsubscribe_ack_result(*old(self), *final(self), broker_id, unsubscribe_trace_id, r),
            old(self).wf() ==> final(self).wf(),
    {
        let i = match self.find_index_by_id(broker_id) {
            Some(i) => i,
            None => return Err(AppError::BrokerNotFound(broker_id)),
        };
        let ghost b = self.brokers@[i as int];
        let mut found: Option<usize> = None;
        let len = self.brokers[i].unsubscribe_ing.len();
        for u in 0..len
            invariant
                i < self.brokers@.len(),
                b == self.brokers@[i as int],
                len == b.unsubscribe_ing@.len(),
                found is None ==> forall|j: int| 0 <= j < u ==> !has_unsubscribe_id(unsubscribe_trace_id)(#[trigger] b.unsubscribe_ing@[j]),
                found matches Some(x) ==> is_first(b.unsubscribe_ing@, has_unsubscribe_id(unsubscribe_trace_id), x as int),
        {
            if found.is_none() && self.brokers[i].unsubscribe_ing[u].unsubscribe_pk_id == unsubscribe_trace_id {
                found = Some(u);
            }
        }
        let u = match found {
            Some(u) => {
                proof {
                    lemma_first_index(b.unsubscribe_ing@, has_unsubscribe_id(unsubscribe_trace_id), u as int);
                }
                u
            },
            None => {
                proof {
                    lemma_first_index_none(b.unsubscribe_ing@, has_unsubscribe_id(unsubscribe_trace_id));
                }
                return Err(AppError::UnsubscribeTracingNotFound(unsubscribe_trace_id));
            },
        };
        let tracing = self.brokers[i].unsubscribe_ing.remove(u);
        proof {
            if old(self).wf() {
                self.lemma_wf_one_broker(*old(self), i as int);
            }
        }
        let ghost mid = *self;
        match self.find_topic(i, tracing.subscribe_pk_id) {
            Some(k) => {
                self.brokers[i].subscribe_topics.remove(k);
                proof {
                    if old(self).wf() {
                        self.lemma_wf_one_broker(mid, i as int);
                    }
                }
                let mut effects: Vec<Effect> = Vec::new();
                effects.push(Effect::Send(AppEvent::UpdateScrollSubscribeWin));
                Ok(effects)
            },
            None => Err(AppError::SubscribeNotFound(tracing.subscribe_pk_id)),
        }
    }

    pub(crate) fn find_index_by_id(&self, id: usize) -> (r: Option<usize>)
        ensures
            match r {
                Some(i) => self.index_of_id(id) == Some(i as int),
                None => self.index_of_id(id) is None,
            },
    {
        let len = self.brokers.len();
        for i in 0..len
            invariant
                len == self.brokers@.len(),
                forall|j: int| 0 <= j < i ==> !has_id(id)(#[trigger] self.brokers@[j]),
        {
            if self.brokers[i].id == id {
                proof {
                    lemma_first_index(self.brokers@, has_id(id), i as int);
                }
                return Some(i);
            }
        }
        proof {
            lemma_first_index_none(self.brokers@, has_id(id));
        }
        None
    }

    pub fn get_selected_broker_index(&self) -> (r: Option<usize>)
        ensures
            match r {
                Some(i) => self.index_of_selected() == Some(i as int),
                None => self.index_of_selected() is None,
            },
    {
        let len = self.brokers.len();
        for i in 0..len
            invariant
                len == self.brokers@.len(),
                forall|j: int| 0 <= j < i ==> !is_selected()(#[trigger] self.brokers@[j]),
        {
            if self.brokers[i].selected {
                proof {
                    lemma_first_index(self.brokers@, is_selected(), i as int);
                }
                return Some(i);
            }
        }
        proof {
            lemma_first_index_none(self.brokers@, is_selected());
        }
        None
    }

    pub fn get_selected_broker_id(&self) -> (r: Option<usize>)
        ensures
            match self.index_of_selected() {
                Some(i) => r == Some(self.brokers@[i].id),
                None => r is None,
            },
    {
        match self.get_selected_broker_index() {
            Some(i) => Some(self.brokers[i].id),
            None => None,
        }
    }

    pub fn get_selected_broker(&self) -> (r: Result<&Broker, AppError>)
        ensures
            match self.index_of_selected() {
                Some(i) => r == Ok::<&Broker, AppError>(&self.brokers@[i]),
                None => r == Err::<&Broker, AppError>(AppError::NoSelectedBroker),
            },
    {
        match self.get_selected_broker_index() {
            Some(i) => Ok(&self.brokers[i]),
            None => Err(AppError::NoSelectedBroker),
        }
    }

    pub fn get_selected_broker_or_zero(&self) -> (r: &Broker)
        requires
            self.brokers@.len() > 0,
        ensures
            match self.index_of_selected() {
                Some(i) => *r == self.brokers@[i],
                None => *r == self.brokers@[0],
            },
    {
        match self.get_selected_broker_index() {
            Some(i) => &self.brokers[i],
            None => &self.brokers[0],
        }
    }

    pub fn get_mut_selected_broker_or_zero(&mut self) -> (r: &mut Broker)
        requires
            old(self).brokers@.len() > 0,
        ensures
            ({
                let i = match old(self).index_of_selected() {
                    Some(i) => i,
                    None => 0,
                };
                &&& *r == old(self).brokers@[i]
                &&& final(self).brokers@ == old(self).brokers@.update(i, *final(r))
                &&& final(self).broker_tabs == old(self).broker_tabs
                &&& final(self).db == old(self).db
                &&& final(self).hint == old(self).hint
                &&& final(self).self_signed_file == old(self).self_signed_file
                &&& final(self).display_history == old(self).display_history
                &&& final(self).display_broker_info == old(self).display_broker_info
            }),
    {
        let index = match self.get_selected_broker_index() {
            None => 0,
            Some(index) => index,
        };
        &mut self.brokers[index]
    }

    pub fn find_broker_by_id(&self, id: usize) -> (r: Result<&Broker, AppError>)
        ensures
            match self.index_of_id(id) {
                Some(i) => r == Ok::<&Broker, AppError>(&self.brokers@[i]),
                None => r == Err::<&Broker, AppError>(AppError::BrokerNotFound(id)),
            },
    {
        match self.find_index_by_id(id) {
            Some(i) => Ok(&self.brokers[i]),
            None => Err(AppError::BrokerNotFound(id)),
        }
    }


    pub fn find_mut_broker_by_id(&mut self, id: usize) -> (r: Result<&mut Broker, AppError>)
        ensures
            match old(self).index_of_id(id) {
                Some(i) => r matches Ok(b) && *b == old(self).brokers@[i] && final(self).brokers@
                    == old(self).brokers@.update(i, *final(b)),
                None => r matches Err(e) && e == AppError::BrokerNotFound(id) && final(self).brokers@
                    == old(self).brokers@,
            },
            final(self).broker_tabs == old(self).broker_tabs,
            final(self).db == old(self).db,
            final(self).hint == old(self).hint,
            final(self).self_signed_file == old(self).self_signed_file,
            final(self).display_history == old(self).display_history,
            final(self).display_broker_info == old(self).display_broker_info,
    {
        match self.find_index_by_id(id) {
            Some(i) => Ok(&mut self.brokers[i]),
            None => Err(AppError::BrokerNotFound(id)),
        }
    }


    pub fn find_mut_broker_by_index(&mut self, index: usize) -> (r: Result<&mut Broker, AppError>)
        ensures
            if index < old(self).brokers@.len() {
                r matches Ok(b) && *b == old(self).brokers@[index as int] && final(self).brokers@
                    == old(self).brokers@.update(index as int, *final(b))
            } else {
                r matches Err(e) && e == AppError::BrokerIndexNotFound(index)
                    && final(self).brokers@ == old(self).brokers@
            },
            final(self).broker_tabs == old(self).broker_tabs,
            final(self).db == old(self).db,
            final(self).hint == old(self).hint,
            final(self).self_signed_file == old(self).self_signed_file,
            final(self).display_history == old(self).display_history,
            final(self).display_broker_info == old(self).display_broker_info,
    {
        if index < self.brokers.len() {
            Ok(&mut self.brokers[index])
        } else {
            Err(AppError::BrokerIndexNotFound(index))
        }
    }

    pub fn get_selected_mut_broker(&mut self) -> (r: Result<&mut Broker, AppError>)
        ensures
            match old(self).index_of_selected() {
                Some(i) => r matches Ok(b) && *b == old(self).brokers@[i] && final(self).brokers@
                    == old(self).brokers@.update(i, *final(b)),
                None => r matches Err(e) && e == AppError::NoSelectedBroker && final(self).brokers@
                    == old(self).brokers@,
            },
            final(self).broker_tabs == old(self).broker_tabs,
            final(self).db == old(self).db,
            final(self).hint == old(self).hint,
            final(self).self_signed_file == old(self).self_signed_file,
            final(self).display_history == old(self).display_history,
            final(self).display_broker_info == old(self).display_broker_info,
    {
        match self.get_selected_broker_index() {
            Some(i) => Ok(&mut self.brokers[i]),
            None => Err(AppError::NoSelectedBroker),
        }
    }

    pub fn find_broker_by_index(&self, index: usize) -> (r: Result<&Broker, AppError>)
        ensures
            if index < self.brokers@.len() {
                r == Ok::<&Broker, AppError>(&self.brokers@[index as int])
            } else {
                r == Err::<&Broker, AppError>(AppError::BrokerIndexNotFound(index))
            },
    {
        if index < self.brokers.len() {
            Ok(&self.brokers[index])
        } else {
            Err(AppError::BrokerIndexNotFound(index))
        }
    }

    pub fn set_self_signed_file(&mut self, index: usize)
        ensures
            final(self).self_signed_file == Some(index),
            final(self).brokers == old(self).brokers,
            final(self).broker_tabs == old(self).broker_tabs,
            final(self).db == old(self).db,
            final(self).display_history == old(self).display_history,
            final(self).display_broker_info == old(self).display_broker_info,
    {
        self.self_signed_file = Some(index);
    }

    pub fn get_self_signed_file(&self) -> (r: Option<usize>)
        ensures
            r == self.self_signed_file,
    {
        self.self_signed_file
    }

    /// A certificate file was chosen: it becomes the authority file of the broker whose
    /// file is being chosen. Returns whether there was such a broker.
    pub fn open_self_signed_file(&mut self, path: AString) -> (handled: bool)
        ensures
            match old(self).self_signed_file {
                Some(i) if i < old(self).brokers@.len() => {
                    &&& handled
                    &&& final(self).only_broker_changed(*old(self), i as int)
                    &&& final(self).brokers@[i as int] == (Broker {
                        self_signed_ca: path,
                        ..old(self).brokers@[i as int]
                    })
                },
                _ => !handled && final(self).unchanged(*old(self)),
            },
            old(self).wf() ==> final(self).wf(),
    {
        if let Some(index) = self.self_signed_file {
            if index < self.brokers.len() {
                let ghost before = *self;
                self.brokers[index].self_signed_ca = path;
                proof {
                    if before.wf() {
                        self.lemma_wf_one_broker(before, index as int);
                    }
                }
                return true;
            }
        }
        false
    }
}

} // verus!
