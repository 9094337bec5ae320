//! Telling single clicks from double clicks: a click that comes while an earlier click on the
//! same thing is still pending is a double click. The event loop clears a pending click when
//! the double-click time has passed.
use vstd::prelude::*;

use crate::data::common::{his_same, same_his, Id, SubscribeHis};
use crate::data::hierarchy::messages::{publish_result, receive_msg_result};
use crate::data::hierarchy::subscriptions::{
    click_subscribe_his_result, sub_ack_result, touch_remove_subscribe_his_result,
    touch_subscribe_by_input_result, touch_subscribe_from_his_result,
};
use crate::data::hierarchy::{
    clear_msg_result, click_broker_result, first_index, is_unstored, client_disconnect_result, db_click_broker_result,
    edit_broker_result, pub_ack_result, to_unsubscribe_result, touch_add_broker_result,
    touch_click_tab_result, touch_close_broker_tab_result, touch_connect_broker_selected_result,
    touch_delete_broker_selected_result, touch_disconnect_result, touch_reconnect_result,
    touch_save_broker_result, touch_unsubscribe_result, unsubscribe_ack_result, update_to_connected_result,
    AppData, AppError,
};
use crate::data::{AString, AppEvent, Effect};

verus! {

/// The clicks that are still pending.
pub struct ClickTracker {
    /// Ids of the brokers clicked once within the double-click time.
    pub clicks: Vec<usize>,
    /// The history entry clicked once within the double-click time.
    pub click_his: Option<SubscribeHis>,
}

/// What a click on a broker turned out to be.
#[derive(Debug, Clone, Copy, PartialEq, Eq, Structural)]
pub enum ClickKind {
    /// The first click: the broker is clicked, and a check is due after the double-click time.
    Single,
    /// The second click: the broker is double-clicked.
    Double,
}

/// What a click on a history entry turned out to be.
#[derive(Debug)]
pub enum HisClick {
    /// The first click: the entry is clicked, and a check is due after the double-click time.
    Single,
    /// The second click on the same subscription: subscribe again to the entry clicked first.
    Double(SubscribeHis),
}

impl ClickTracker {
    /// The ids of the brokers with a pending click.
    pub open spec fn pending(self) -> Set<usize> {
        self.clicks@.to_set()
    }

    /// Well-formed: a broker is pending at most once.
    pub open spec fn wf(self) -> bool {
        self.clicks@.no_duplicates()
    }

    pub fn new() -> (t: Self)
        ensures
            t.wf(),
            t.pending() == Set::<usize>::empty(),
            t.click_his is None,
    {
        let t = ClickTracker { clicks: Vec::new(), click_his: None };
        assert(t.pending() =~= Set::<usize>::empty());
        t
    }

    fn position(&self, id: usize) -> (r: Option<usize>)
        ensures
            match r {
                Some(k) => k < self.clicks@.len() && self.clicks@[k as int] == id,
                None => !self.clicks@.contains(id),
            },
    {
        let mut k: usize = 0;
        while k < self.clicks.len()
            invariant
                k <= self.clicks@.len(),
                forall|j: int| 0 <= j < k ==> self.clicks@[j] != id,
            decreases self.clicks@.len() - k,
        {
            if self.clicks[k] == id {
                return Some(k);
            }
            k = k + 1;
        }
        None
    }

    /// A click on the broker `id`: a double click where a click on it is pending, which then
    /// is no longer pending; else a single click, which becomes pending.
    pub fn click_broker(&mut self, id: usize) -> (k: ClickKind)
        requires
            old(self).wf(),
        ensures
            final(self).wf(),
            final(self).click_his == old(self).click_his,
            old(self).pending().contains(id) ==> k == ClickKind::Double && final(self).pending()
                == old(self).pending().remove(id),
            !old(self).pending().contains(id) ==> k == ClickKind::Single && final(self).pending()
                == old(self).pending().insert(id),
    {
        match self.position(id) {
            Some(k) => {
                let ghost before = self.clicks@;
                self.clicks.remove(k);
                proof {
                    lemma_remove_pending(before, k as int);
                }
                ClickKind::Double
            },
            None => {
                let ghost before = self.clicks@;
                self.clicks.push(id);
                proof {
                    lemma_push_pending(before, id);
                }
                ClickKind::Single
            },
        }
    }

    /// The double-click time of a click on the broker `id` has passed: it is no longer pending.
    pub fn db_click_check(&mut self, id: usize)
        requires
            old(self).wf(),
        ensures
            final(self).wf(),
            final(self).click_his == old(self).click_his,
            final(self).pending() == old(self).pending().remove(id),
    {
        match self.position(id) {
            Some(k) => {
                let ghost before = self.clicks@;
                self.clicks.remove(k);
                proof {
                    lemma_remove_pending(before, k as int);
                }
            },
            None => {
                assert(self.pending() =~= self.pending().remove(id));
            },
        }
    }

    /// A click on a history entry: a double click where the entry clicked before is the same
    /// subscription, which is then no longer pending; else a single click, and `his` becomes
    /// the pending entry in place of any other.
    pub fn click_subscribe_his(&mut self, his: SubscribeHis) -> (k: HisClick)
        ensures
            final(self).clicks@ == old(self).clicks@,
            match old(self).click_his {
                Some(p) => if same_his(his)(p) {
                    k matches HisClick::Double(q) && q == p && final(self).click_his is None
                } else {
                    k matches HisClick::Single && final(self).click_his == Some(his)
                },
                None => k matches HisClick::Single && final(self).click_his == Some(his),
            },
    {
        match self.click_his.take() {
            Some(previous) => {
                if previous == his {
                    HisClick::Double(previous)
                } else {
                    self.click_his = Some(his);
                    HisClick::Single
                }
            },
            None => {
                self.click_his = Some(his);
                HisClick::Single
            },
        }
    }

    /// The double-click time of a click on `his` has passed: if it is still the pending
    /// entry, it no longer is.
    pub fn db_click_check_subscribe_his(&mut self, his: &SubscribeHis)
        ensures
            final(self).clicks@ == old(self).clicks@,
            match old(self).click_his {
                Some(p) => if same_his(p)(*his) {
                    final(self).click_his is None
                } else {
                    final(self).click_his == old(self).click_his
                },
                None => final(self).click_his is None,
            },
    {
        let matches_pending = match &self.click_his {
            Some(p) => *p == *his,
            None => false,
        };
        if matches_pending {
            self.click_his = None;
        }
    }
}

/// Values an event may need from outside: a trace id for a request to a broker, an id for a
/// new history entry, and the current time.
pub struct Fresh {
    pub trace_id: u32,
    pub his_id: Id,
    pub time: AString,
}

/// A state function that gives no effects, by its answer: success gives no effects, an
/// error stays the same error.
pub open spec fn without_effects(r0: Result<(), AppError>, r: Result<Vec<Effect>, AppError>) -> bool {
    match r0 {
        Ok(_) => r matches Ok(e) && e@.len() == 0,
        Err(x) => r == Err::<Vec<Effect>, AppError>(x),
    }
}

/// What handling `event` does to the state and the pending clicks, and which effects it asks for.
pub open spec fn event_result(
    od: AppData,
    nd: AppData,
    oc: ClickTracker,
    nc: ClickTracker,
    event: AppEvent,
    fresh: Fresh,
    r: Result<Vec<Effect>, AppError>,
) -> bool {
    let clicks_kept = nc.clicks@ == oc.clicks@ && nc.click_his == oc.click_his;
    match event {
        AppEvent::TouchAddBroker => clicks_kept && touch_add_broker_result(od, nd) && (r matches Ok(e) && e@.len() == 0),
        AppEvent::TouchEditBrokerSelected => clicks_kept && edit_broker_result(od, nd) && (r matches Ok(e) && e@.len() == 0),
        AppEvent::TouchConnectBrokerSelected => clicks_kept && touch_connect_broker_selected_result(od, nd, r),
        AppEvent::TouchDeleteBrokerSelected => clicks_kept && touch_delete_broker_selected_result(od, nd, r),
        AppEvent::TouchSaveBroker => clicks_kept && touch_save_broker_result(od, nd, r),
        AppEvent::TouchReConnect => clicks_kept && touch_reconnect_result(od, nd, r),
        AppEvent::TouchDisconnect => clicks_kept && touch_disconnect_result(od, nd, r),
        AppEvent::TouchClickBroker(id) => {
            &&& nc.click_his == oc.click_his
            &&& if oc.pending().contains(id) {
                nc.pending() == oc.pending().remove(id) && db_click_broker_result(od, nd, id, r)
            } else {
                &&& nc.pending() == oc.pending().insert(id)
                &&& exists|r0: Result<Vec<Effect>, AppError>| #[trigger] click_broker_result(od, nd, id, r0)
                    && (r0 matches Ok(e0) && r matches Ok(e) && e@ == e0@.push(Effect::Later(AppEvent::DbClickCheck(id))))
            }
        },
        AppEvent::TouchDbClickBroker(id) => clicks_kept && db_click_broker_result(od, nd, id, r),
        AppEvent::DbClickCheck(id) => {
            &&& nd == od
            &&& nc.pending() == oc.pending().remove(id)
            &&& nc.click_his == oc.click_his
            &&& r matches Ok(e) && e@.len() == 0
        },
        AppEvent::TouchClickTab(id) => clicks_kept && exists|r0: Result<(), AppError>|
            #[trigger] touch_click_tab_result(od, nd, id, r0) && without_effects(r0, r),
        AppEvent::TouchCloseBrokerTab(id) => clicks_kept && touch_close_broker_tab_result(od, nd, id, r),
        AppEvent::TouchSubscribeByInput(id) => clicks_kept && touch_subscribe_by_input_result(
            od,
            nd,
            id,
            fresh.trace_id,
            fresh.his_id,
            r,
        ),
        AppEvent::TouchSubscribeFromHis(his) => clicks_kept && touch_subscribe_from_his_result(od, nd, his, fresh.trace_id, r),
        AppEvent::TouchClickSubscribeHis(his) => {
            &&& nc.clicks@ == oc.clicks@
            &&& match oc.click_his {
                Some(p) if same_his(his)(p) => nc.click_his is None && touch_subscribe_from_his_result(
                    od,
                    nd,
                    p,
                    fresh.trace_id,
                    r,
                ),
                _ => {
                    &&& nc.click_his matches Some(h) && his_same(h, his)
                    &&& exists|h: SubscribeHis, r0: Result<(), AppError>|
                        his_same(h, his) && #[trigger] click_subscribe_his_result(od, nd, h, r0) && (match r0 {
                            Ok(_) => r matches Ok(e) && e@ == seq![Effect::Later(AppEvent::DbClickCheckSubscribeHis(his))],
                            Err(x) => r == Err::<Vec<Effect>, AppError>(x),
                        })
                },
            }
        },
        AppEvent::DbClickCheckSubscribeHis(his) => {
            &&& nd == od
            &&& nc.clicks@ == oc.clicks@
            &&& match oc.click_his {
                Some(p) => if same_his(p)(his) {
                    nc.click_his is None
                } else {
                    nc.click_his == oc.click_his
                },
                None => nc.click_his is None,
            }
            &&& r matches Ok(e) && e@.len() == 0
        },
        AppEvent::TouchRemoveSubscribeHis(id) => clicks_kept && touch_remove_subscribe_his_result(od, nd, id, r),
        AppEvent::TouchUnSubscribe { broker_id, trace_id } => clicks_kept && touch_unsubscribe_result(
            od,
            nd,
            broker_id,
            trace_id,
            r,
        ),
        AppEvent::TouchPublic(id) => clicks_kept && publish_result(od, nd, id, fresh.trace_id, fresh.time, r),
        AppEvent::TouchClearMsg(id) => clicks_kept && clear_msg_result(od, nd, id, r),
        AppEvent::UnSubscribeIng { broker_id, subscribe_pk_id, unsubscribe_pk_id } => clicks_kept && exists|
            r0: Result<(), AppError>,
        |
            #[trigger] to_unsubscribe_result(od, nd, broker_id, subscribe_pk_id, unsubscribe_pk_id, r0)
                && without_effects(r0, r),
        AppEvent::ConnectAckSuccess(id) => clicks_kept && exists|r0: Result<(), AppError>|
            #[trigger] update_to_connected_result(od, nd, id, false, r0) && without_effects(r0, r),
        // A refused connection is only reported; the state stays as it was.
        AppEvent::ConnectAckFail(_, _) => clicks_kept && nd == od && (r matches Ok(e) && e@.len() == 0),
        AppEvent::PubAck(id, trace_id) => clicks_kept && exists|r0: Result<(), AppError>|
            #[trigger] pub_ack_result(od, nd, id, trace_id, r0) && without_effects(r0, r),
        AppEvent::SubAck(id, ack) => clicks_kept && exists|r0: Result<(), AppError>|
            #[trigger] sub_ack_result(od, nd, id, ack, r0) && without_effects(r0, r),
        AppEvent::UnSubAck(id, pk) => clicks_kept && unsubscribe_ack_result(od, nd, id, pk, r),
        AppEvent::ReceivePublic(id, topic, payload, qos) => clicks_kept && receive_msg_result(
            od,
            nd,
            id,
            topic,
            payload,
            qos,
            fresh.time,
            r,
        ),
        AppEvent::ClientDisconnect(id) => clicks_kept && exists|r0: Result<(), AppError>|
            #[trigger] client_disconnect_result(od, nd, id, r0) && without_effects(r0, r),
        AppEvent::UpdateStatusBar(msg) => clicks_kept && nd == (AppData { hint: msg, ..od }) && (r matches Ok(e)
            && e@.len() == 0),
        // Requests to brokers and to the window: the worker carries them out.
        _ => clicks_kept && nd == od && (r matches Ok(e) && e@ == seq![Effect::Perform(event)]),
    }
}

/// Maps the answer of a state function that gives no effects.
fn no_effects(r: Result<(), AppError>) -> (out: Result<Vec<Effect>, AppError>)
    ensures
        without_effects(r, out),
{
    match r {
        Ok(()) => Ok(Vec::new()),
        Err(e) => Err(e),
    }
}

/// Handles one event: touches of the window and answers of brokers change the state and the
/// pending clicks; requests to brokers and to the window come back as `Perform` effects for
/// the worker to carry out; a first click on a broker or a history entry asks for a check
/// after the double-click time.
pub fn deal_event(data: &mut AppData, clicks: &mut ClickTracker, event: AppEvent, fresh: Fresh) -> (r: Result<
    Vec<Effect>,
    AppError,
>)
    requires
        old(clicks).wf(),
        event is TouchAddBroker && first_index(old(data).brokers@, is_unstored()) is None ==> old(data).db.index
            < usize::MAX,
        event is TouchDeleteBrokerSelected && old(data).brokers@.len() <= 1 ==> old(data).db.index < usize::MAX,
    ensures
        final(clicks).wf(),
        old(data).wf() ==> final(data).wf(),
        event_result(*old(data), *final(data), *old(clicks), *final(clicks), event, fresh, r),
{
    match event {
        AppEvent::TouchAddBroker => {
            data.touch_add_broker();
            Ok(Vec::new())
        },
        AppEvent::TouchEditBrokerSelected => {
            data.edit_broker();
            Ok(Vec::new())
        },
        AppEvent::TouchConnectBrokerSelected => data.touch_connect_broker_selected(),
        AppEvent::TouchDeleteBrokerSelected => data.touch_delete_broker_selected(),
        AppEvent::TouchSaveBroker => data.touch_save_broker(),
        AppEvent::TouchReConnect => data.touch_reconnect(),
        AppEvent::TouchDisconnect => data.touch_disconnect(),
        AppEvent::TouchClickBroker(id) => match clicks.click_broker(id) {
            ClickKind::Single => {
                let r0 = data.click_broker(id);
                match r0 {
                    Ok(effects) => {
                        let mut effects = effects;
                        effects.push(Effect::Later(AppEvent::DbClickCheck(id)));
                        Ok(effects)
                    },
                    Err(e) => Err(e),
                }
            },
            ClickKind::Double => data.db_click_broker(id),
        },
        AppEvent::TouchDbClickBroker(id) => data.db_click_broker(id),
        AppEvent::DbClickCheck(id) => {
            clicks.db_click_check(id);
            Ok(Vec::new())
        },
        AppEvent::TouchClickTab(id) => no_effects(data.touch_click_tab(id)),
        AppEvent::TouchCloseBrokerTab(id) => data.touch_close_broker_tab(id),
        AppEvent::TouchSubscribeByInput(id) => data.touch_subscribe_by_input(id, fresh.trace_id, fresh.his_id),
        AppEvent::TouchSubscribeFromHis(his) => data.touch_subscribe_from_his(his, fresh.trace_id),
        AppEvent::TouchClickSubscribeHis(his) => {
            let first = his.duplicate();
            match clicks.click_subscribe_his(first) {
                HisClick::Single => {
                    let again = his.duplicate();
                    let ghost h = again;
                    let ghost before = *data;
                    let r0 = data.click_subscribe_his(again);
                    let ghost answer = r0;
                    let ghost hv = his;
                    let out = match r0 {
                        Ok(()) => {
                            let v = vec![Effect::Later(AppEvent::DbClickCheckSubscribeHis(his))];
                            proof {
                                assert(v@ =~= seq![Effect::Later(AppEvent::DbClickCheckSubscribeHis(hv))]);
                            }
                            Ok(v)
                        },
                        Err(e) => Err(e),
                    };
                    proof {
                        assert(before == *old(data));
                        assert(his_same(h, hv) && click_subscribe_his_result(before, *data, h, answer));
                    }
                    out
                },
                HisClick::Double(previous) => data.touch_subscribe_from_his(previous, fresh.trace_id),
            }
        },
        AppEvent::DbClickCheckSubscribeHis(his) => {
            clicks.db_click_check_subscribe_his(&his);
            Ok(Vec::new())
        },
        AppEvent::TouchRemoveSubscribeHis(id) => data.touch_remove_subscribe_his(id),
        AppEvent::TouchUnSubscribe { broker_id, trace_id } => data.touch_unsubscribe(broker_id, trace_id),
        AppEvent::TouchPublic(id) => data.publish(id, fresh.trace_id, fresh.time),
        AppEvent::TouchClearMsg(id) => data.clear_msg(id),
        AppEvent::UnSubscribeIng { broker_id, subscribe_pk_id, unsubscribe_pk_id } => no_effects(
            data.to_unsubscribe(broker_id, subscribe_pk_id, unsubscribe_pk_id),
        ),
        AppEvent::ConnectAckSuccess(id) => no_effects(data.update_to_connected(id, false)),
        AppEvent::ConnectAckFail(_, _) => Ok(Vec::new()),
        AppEvent::PubAck(id, trace_id) => no_effects(data.pub_ack(id, trace_id)),
        AppEvent::SubAck(id, ack) => no_effects(data.sub_ack(id, ack)),
        AppEvent::UnSubAck(id, pk) => data.unsubscribe_ack(id, pk),
        AppEvent::ReceivePublic(id, topic, payload, qos) => data.receive_msg(id, topic, payload, qos, fresh.time),
        AppEvent::ClientDisconnect(id) => no_effects(data.client_disconnect(id)),
        AppEvent::UpdateStatusBar(msg) => {
            data.hint = msg;
            Ok(Vec::new())
        },
        _ => {
            let ghost ev = event;
            let v = vec![Effect::Perform(event)];
            proof {
                assert(v@ =~= seq![Effect::Perform(ev)]);
            }
            Ok(v)
        },
    }
}

/// Two clicks on a broker that has no pending click: the first is a single click that makes
/// it pending, the second a double click that leaves the pending clicks as they were.
pub proof fn lemma_click_twice(pending: Set<usize>, id: usize)
    requires
        !pending.contains(id),
    ensures
        pending.insert(id).contains(id),
        pending.insert(id).remove(id) == pending,
{
    assert(pending.insert(id).remove(id) =~= pending);
}

/// Removing the entry at `k` of a sequence without duplicates removes its value from the set.
proof fn lemma_remove_pending(s: Seq<usize>, k: int)
    requires
        s.no_duplicates(),
        0 <= k < s.len(),
    ensures
        s.remove(k).no_duplicates(),
        s.remove(k).to_set() == s.to_set().remove(s[k]),
{
    let r = s.remove(k);
    assert forall|i: int, j: int| 0 <= i < r.len() && 0 <= j < r.len() && i != j implies r[i] != r[j] by {
        let oi = if i < k { i } else { i + 1 };
        let oj = if j < k { j } else { j + 1 };
        assert(r[i] == s[oi] && r[j] == s[oj]);
    }
    assert forall|x: usize| r.to_set().contains(x) <==> s.to_set().remove(s[k]).contains(x) by {
        if r.contains(x) {
            let i = choose|i: int| 0 <= i < r.len() && r[i] == x;
            let oi = if i < k { i } else { i + 1 };
            assert(s[oi] == x);
            assert(oi != k);
        }
        if s.contains(x) && x != s[k] {
            let j = choose|j: int| 0 <= j < s.len() && s[j] == x;
            assert(j != k);
            let rj = if j < k { j } else { j - 1 };
            assert(r[rj] == x);
        }
    }
    assert(r.to_set() =~= s.to_set().remove(s[k]));
}

/// Pushing a value that a sequence without duplicates lacks adds it to the set.
proof fn lemma_push_pending(s: Seq<usize>, id: usize)
    requires
        s.no_duplicates(),
        !s.contains(id),
    ensures
        s.push(id).no_duplicates(),
        s.push(id).to_set() == s.to_set().insert(id),
{
    let p = s.push(id);
    assert forall|i: int, j: int| 0 <= i < p.len() && 0 <= j < p.len() && i != j implies p[i] != p[j] by {
        if i < s.len() && j < s.len() {
            assert(p[i] == s[i] && p[j] == s[j]);
        } else if i < s.len() {
            assert(p[i] == s[i]);
        } else if j < s.len() {
            assert(p[j] == s[j]);
        }
    }
    assert forall|x: usize| p.to_set().contains(x) <==> s.to_set().insert(id).contains(x) by {
        if p.contains(x) {
            let i = choose|i: int| 0 <= i < p.len() && p[i] == x;
            if i < s.len() {
                assert(s[i] == x);
            }
        }
        if s.contains(x) {
            let j = choose|j: int| 0 <= j < s.len() && s[j] == x;
            assert(p[j] == x);
        }
        if x == id {
            assert(p[s.len() as int] == x);
        }
    }
    assert(p.to_set() =~= s.to_set().insert(id));
}

} // verus!
