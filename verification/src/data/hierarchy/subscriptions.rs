use vstd::prelude::*;

use crate::data::common::{
    his_same, qos_text, same_his, topic_same, Broker, Id, PayloadTy, QoS, SubscribeHis, SubscribeStatus,
    SubscribeTopic,
};
use crate::mqtt::data::{SubscribeAck, SubscribeReasonCode};
use crate::util::consts::QosToString;
use crate::data::hierarchy::{
    first_index, has_id, has_trace, is_first, lemma_exists_first, lemma_first_index, lemma_first_index_none,
    push_store_effects,
    save_effects, saved_to, AppData, AppError,
};
use crate::data::{AppEvent, Effect};

verus! {

/// The subscription asks for the same as `wanted`: same topic filter and same QoS.
pub open spec fn asks_same(wanted: SubscribeTopic) -> spec_fn(SubscribeTopic) -> bool {
    |t: SubscribeTopic| t.topic@ == wanted.topic@ && t.qos@ == wanted.qos@
}

/// The subscription has the same topic filter as `wanted`.
pub open spec fn same_filter(wanted: SubscribeTopic) -> spec_fn(SubscribeTopic) -> bool {
    |t: SubscribeTopic| t.topic@ == wanted.topic@
}

/// The subscriptions that stay when `wanted` is subscribed: where the same subscription is
/// listed already, the first one with its topic filter leaves.
pub open spec fn topics_kept(topics: Seq<SubscribeTopic>, wanted: SubscribeTopic) -> Seq<SubscribeTopic> {
    if exists|j: int| 0 <= j < topics.len() && #[trigger] asks_same(wanted)(topics[j]) {
        match first_index(topics, same_filter(wanted)) {
            Some(k) => topics.remove(k),
            None => topics,
        }
    } else {
        topics
    }
}

/// The history entry is selected.
pub open spec fn his_selected() -> spec_fn(SubscribeHis) -> bool {
    |h: SubscribeHis| h.selected
}


/// A subscription being sent, traced by `trace_id`, for this topic filter, QoS and payload type.
pub open spec fn is_wanted(t: SubscribeTopic, trace_id: u32, topic: Seq<char>, qos: QoS, payload_ty: PayloadTy) -> bool {
    &&& t.trace_id == trace_id
    &&& t.topic@ == topic
    &&& t.qos@ == qos_text(qos)
    &&& t.status == SubscribeStatus::SubscribeIng
    &&& t.payload_ty == payload_ty
}

/// What subscribing the broker at position `i` (with id `broker_id`) to `wanted` does,
/// remembering `his` in its history.
///
/// Where the broker lists the same subscription already, the first subscription with the
/// same topic filter leaves the list; `wanted` joins it last. Where the history holds no
/// entry for the same subscription, `his` joins it and the broker is saved. The worker is
/// asked to send the subscription and the window to scroll.
pub open spec fn subscribe_result(
    old: AppData,
    new: AppData,
    broker_id: usize,
    i: int,
    wanted: SubscribeTopic,
    his: SubscribeHis,
    r: Result<Vec<Effect>, AppError>,
) -> bool {
    let b = old.brokers@[i];
    let kept = topics_kept(b.subscribe_topics@, wanted);
    let his_new = !exists|j: int| 0 <= j < b.subscribe_hises@.len() && #[trigger] same_his(his)(b.subscribe_hises@[j]);
    let nb = new.brokers@[i];
    &&& new.brokers@.len() == old.brokers@.len()
    &&& forall|j: int| 0 <= j < new.brokers@.len() && j != i ==> #[trigger] new.brokers@[j] == old.brokers@[j]
    &&& new.broker_tabs == old.broker_tabs
    &&& new.display_broker_info == old.display_broker_info
    &&& new.display_history == old.display_history
    &&& nb == (Broker { subscribe_topics: nb.subscribe_topics, subscribe_hises: nb.subscribe_hises, ..b })
    &&& nb.subscribe_topics@.len() == kept.len() + 1
    &&& nb.subscribe_topics@.drop_last() == kept
    &&& topic_same(nb.subscribe_topics@.last(), wanted)
    &&& nb.subscribe_hises@ == if his_new {
        b.subscribe_hises@.push(his)
    } else {
        b.subscribe_hises@
    }
    &&& r matches Ok(effects) && effects@.len() >= 2
    &&& r matches Ok(effects) && (effects@[effects@.len() - 2] matches Effect::Send(AppEvent::ToSubscribe(id, t))
        && id == broker_id && topic_same(t, wanted))
    &&& r matches Ok(effects) && effects@.last() == Effect::Send(AppEvent::UpdateScrollSubscribeWin)
    &&& his_new ==> (r matches Ok(effects) && save_effects(effects@.take(effects@.len() - 2), old.db, new.db, b))
        && saved_to(old.db, new.db, b.id)
    &&& !his_new ==> (r matches Ok(effects) && effects@.len() == 2) && new.db == old.db
}

/// What `touch_subscribe_from_his` does: the broker of the history entry is subscribed again
/// to it, traced by `trace_id`.
pub open spec fn touch_subscribe_from_his_result(
    old: AppData,
    new: AppData,
    input: SubscribeHis,
    trace_id: u32,
    r: Result<Vec<Effect>, AppError>,
) -> bool {
    match old.index_of_id(input.broker_id) {
        Some(i) => {
            let w = new.brokers@[i].subscribe_topics@.last();
            &&& is_wanted(w, trace_id, input.topic@, input.qos, input.payload_ty)
            &&& subscribe_result(old, new, input.broker_id, i, w, input, r)
        },
        None => r == Err::<Vec<Effect>, AppError>(AppError::BrokerNotFound(input.broker_id)) && new.unchanged(old),
    }
}

/// What `touch_subscribe_by_input` does: the broker is subscribed to what its subscribe form
/// holds, traced by `trace_id`, remembering a history entry with the id `his_id`.
pub open spec fn touch_subscribe_by_input_result(
    old: AppData,
    new: AppData,
    id: usize,
    trace_id: u32,
    his_id: Id,
    r: Result<Vec<Effect>, AppError>,
) -> bool {
    match old.index_of_id(id) {
        Some(i) => {
            let input = old.brokers@[i].subscribe_input;
            let w = new.brokers@[i].subscribe_topics@.last();
            &&& is_wanted(w, trace_id, input.topic@, input.qos, input.payload_ty)
            &&& exists|h: SubscribeHis| {
                &&& h.id == his_id
                &&& h.broker_id == input.broker_id
                &&& !h.selected
                &&& h.topic@ == input.topic@
                &&& h.qos == input.qos
                &&& h.payload_ty == input.payload_ty
                &&& #[trigger] subscribe_result(old, new, id, i, w, h, r)
            }
        },
        None => r == Err::<Vec<Effect>, AppError>(AppError::BrokerNotFound(id)) && new.unchanged(old),
    }
}

/// Subscribing from the subscribe form asks the worker to subscribe that broker to the form's
/// topic filter at the form's QoS, under the given trace id; the subscription is listed last,
/// as being subscribed; the history keeps every entry it had and afterwards holds one for
/// this filter and QoS.
pub proof fn lemma_subscribe_by_input_sends_the_form(
    old: AppData,
    new: AppData,
    id: usize,
    trace_id: u32,
    his_id: Id,
    r: Result<Vec<Effect>, AppError>,
)
    requires
        touch_subscribe_by_input_result(old, new, id, trace_id, his_id, r),
        old.index_of_id(id) is Some,
    ensures
        ({
            let i = old.index_of_id(id).unwrap();
            let input = old.brokers@[i].subscribe_input;
            let topics = new.brokers@[i].subscribe_topics@;
            let before = old.brokers@[i].subscribe_hises@;
            let after = new.brokers@[i].subscribe_hises@;
            &&& r matches Ok(effects) && exists|e: int|
                0 <= e < effects@.len() && (#[trigger] effects@[e] matches Effect::Send(AppEvent::ToSubscribe(bid, t))
                    && bid == id && t.trace_id == trace_id && t.topic@ == input.topic@ && t.qos@ == qos_text(input.qos))
            &&& topics.len() > 0
            &&& topics.last().trace_id == trace_id
            &&& topics.last().topic@ == input.topic@
            &&& topics.last().qos@ == qos_text(input.qos)
            &&& topics.last().status == SubscribeStatus::SubscribeIng
            &&& after.len() >= before.len()
            &&& forall|j: int| 0 <= j < before.len() ==> #[trigger] after[j] == before[j]
            &&& exists|j: int|
                0 <= j < after.len() && (#[trigger] after[j]).topic@ == input.topic@ && after[j].qos == input.qos
        }),
{
    let i = old.index_of_id(id).unwrap();
    let input = old.brokers@[i].subscribe_input;
    let w = new.brokers@[i].subscribe_topics@.last();
    let h = choose|h: SubscribeHis| {
        &&& h.id == his_id
        &&& h.broker_id == input.broker_id
        &&& !h.selected
        &&& h.topic@ == input.topic@
        &&& h.qos == input.qos
        &&& h.payload_ty == input.payload_ty
        &&& #[trigger] subscribe_result(old, new, id, i, w, h, r)
    };
    let effects = r->Ok_0;
    let e = effects@.len() - 2;
    assert(effects@[e] == effects@[e]);
    let before = old.brokers@[i].subscribe_hises@;
    let after = new.brokers@[i].subscribe_hises@;
    if exists|j: int| 0 <= j < before.len() && #[trigger] same_his(h)(before[j]) {
        let j = choose|j: int| 0 <= j < before.len() && #[trigger] same_his(h)(before[j]);
        assert(after[j] == before[j]);
    } else {
        assert(after[before.len() as int] == h);
    }
}

/// The subscription result depends on `wanted` only through its fields' values.
proof fn lemma_subscribe_result_same(
    old: AppData,
    new: AppData,
    broker_id: usize,
    i: int,
    w1: SubscribeTopic,
    w2: SubscribeTopic,
    his: SubscribeHis,
    r: Result<Vec<Effect>, AppError>,
)
    requires
        topic_same(w1, w2),
        subscribe_result(old, new, broker_id, i, w1, his, r),
    ensures
        subscribe_result(old, new, broker_id, i, w2, his, r),
{
    assert(same_filter(w1) =~= same_filter(w2));
    assert(asks_same(w1) =~= asks_same(w2));
}

/// A subscription after its broker answered with `code`: a granted QoS is taken over and
/// the subscription succeeds; any other answer makes it fail.
pub open spec fn answered(new: SubscribeTopic, old: SubscribeTopic, code: SubscribeReasonCode) -> bool {
    match code {
        SubscribeReasonCode::QoS0 => new == (SubscribeTopic {
            qos: new.qos,
            status: SubscribeStatus::SubscribeSuccess,
            ..old
        }) && new.qos@ == qos_text(QoS::AtMostOnce),
        SubscribeReasonCode::QoS1 => new == (SubscribeTopic {
            qos: new.qos,
            status: SubscribeStatus::SubscribeSuccess,
            ..old
        }) && new.qos@ == qos_text(QoS::AtLeastOnce),
        SubscribeReasonCode::QoS2 => new == (SubscribeTopic {
            qos: new.qos,
            status: SubscribeStatus::SubscribeSuccess,
            ..old
        }) && new.qos@ == qos_text(QoS::ExactlyOnce),
        _ => new == (SubscribeTopic { status: SubscribeStatus::SubscribeFail, ..old }),
    }
}

/// The QoS that a subscribe answer code grants; the other codes grant none.
pub open spec fn granted_qos(code: SubscribeReasonCode) -> Option<QoS> {
    match code {
        SubscribeReasonCode::QoS0 => Some(QoS::AtMostOnce),
        SubscribeReasonCode::QoS1 => Some(QoS::AtLeastOnce),
        SubscribeReasonCode::QoS2 => Some(QoS::ExactlyOnce),
        _ => None,
    }
}

/// A broker's subscribe answer decides the subscription it answers, the first one traced by
/// its packet id: a last code that grants a QoS makes it succeed with that QoS, any other
/// code makes it fail. Its topic filter and packet id stay, and no other subscription
/// changes.
pub proof fn lemma_sub_ack_applies_the_code(
    old: AppData,
    new: AppData,
    id: usize,
    ack: SubscribeAck,
    r: Result<(), AppError>,
)
    requires
        sub_ack_result(old, new, id, ack, r),
        old.index_of_id(id) is Some,
        ack.acks@.len() > 0,
        first_index(old.brokers@[old.index_of_id(id).unwrap()].subscribe_topics@, has_trace(ack.id)) is Some,
    ensures
        ({
            let i = old.index_of_id(id).unwrap();
            let before = old.brokers@[i].subscribe_topics@;
            let after = new.brokers@[i].subscribe_topics@;
            let k = first_index(before, has_trace(ack.id)).unwrap();
            &&& r is Ok
            &&& 0 <= k < before.len()
            &&& before[k].trace_id == ack.id
            &&& after.len() == before.len()
            &&& after[k].trace_id == ack.id
            &&& after[k].topic@ == before[k].topic@
            &&& match granted_qos(ack.acks@.last()) {
                Some(q) => after[k].status == SubscribeStatus::SubscribeSuccess && after[k].qos@ == qos_text(q),
                None => after[k].status == SubscribeStatus::SubscribeFail,
            }
            &&& forall|j: int| 0 <= j < before.len() && j != k ==> #[trigger] after[j] == before[j]
        }),
{
    let i = old.index_of_id(id).unwrap();
    let before = old.brokers@[i].subscribe_topics@;
    let k = first_index(before, has_trace(ack.id)).unwrap();
    assert(is_first(before, has_trace(ack.id), k));
}

/// How `AppData::click_subscribe_his` changes the state (`old` to `new`) and what it answers.
///
/// A click on a history entry: in the selected broker's history, exactly the entries
/// that are the same subscription as `his` become selected. Nothing happens where no
/// broker is selected.
pub open spec fn click_subscribe_his_result(old: AppData, new: AppData, his: SubscribeHis, r: Result<(), AppError>) -> bool {
    &&& (r is Ok)
    &&& (match old.index_of_selected() {
        Some(s) => {
            let b = old.brokers@[s];
            let i = old.index_of_id(b.id).unwrap();
            let hb = old.brokers@[i];
            &&& new.only_broker_changed(old, i)
            &&& new.brokers@[i] == (crate::data::common::Broker {
                subscribe_hises: new.brokers@[i].subscribe_hises,
                ..hb
            })
            &&& new.brokers@[i].subscribe_hises@.len() == hb.subscribe_hises@.len()
            &&& forall|j: int|
                0 <= j < hb.subscribe_hises@.len() ==> #[trigger] new.brokers@[i].subscribe_hises@[j]
                    == (SubscribeHis { selected: same_his(his)(hb.subscribe_hises@[j]), ..hb.subscribe_hises@[j] })
        },
        None => new.unchanged(old),
    })
}

/// How `AppData::touch_remove_subscribe_his` changes the state (`old` to `new`) and what it answers.
///
/// Removes the first selected history entry of a broker and saves the broker; nothing
/// happens where no entry is selected.
pub open spec fn touch_remove_subscribe_his_result(old: AppData, new: AppData, id: usize, r: Result<Vec<Effect>, AppError>) -> bool {
    &&& (match old.index_of_id(id) {
        Some(i) => {
            let b = old.brokers@[i];
            match first_index(b.subscribe_hises@, his_selected()) {
                Some(k) => {
                    &&& new.brokers@.len() == old.brokers@.len()
                    &&& forall|j: int|
                        0 <= j < new.brokers@.len() && j != i ==> #[trigger] new.brokers@[j]
                            == old.brokers@[j]
                    &&& new.brokers@[i] == (crate::data::common::Broker {
                        subscribe_hises: new.brokers@[i].subscribe_hises,
                        ..b
                    })
                    &&& new.brokers@[i].subscribe_hises@ == b.subscribe_hises@.remove(k)
                    &&& r matches Ok(effects) && save_effects(effects@, old.db, new.db, b)
                    &&& saved_to(old.db, new.db, b.id)
                    &&& new.broker_tabs == old.broker_tabs
                },
                None => (r matches Ok(effects) && effects@.len() == 0) && new.unchanged(old),
            }
        },
        None => r == Err::<Vec<Effect>, AppError>(AppError::BrokerNotFound(id)) && new.unchanged(
            old,
        ),
    })
}

/// How `AppData::sub_ack` changes the state (`old` to `new`) and what it answers.
///
/// A broker answered a subscription: the last answer code applies to the first
/// subscription traced by the answer's packet id. Nothing happens where the answer
/// holds no code or no subscription has that packet id.
pub open spec fn sub_ack_result(old: AppData, new: AppData, id: usize, input: SubscribeAck, r: Result<(), AppError>) -> bool {
    &&& (match old.index_of_id(id) {
        Some(i) => {
            let topics = old.brokers@[i].subscribe_topics@;
            &&& r is Ok
            &&& if input.acks@.len() > 0 && first_index(topics, has_trace(input.id)) is Some {
                let k = first_index(topics, has_trace(input.id)).unwrap();
                &&& new.only_broker_changed(old, i)
                &&& new.brokers@[i] == (crate::data::common::Broker {
                    subscribe_topics: new.brokers@[i].subscribe_topics,
                    ..old.brokers@[i]
                })
                &&& new.brokers@[i].subscribe_topics@.len() == topics.len()
                &&& forall|j: int|
                    0 <= j < topics.len() && j != k ==> #[trigger] new.brokers@[i].subscribe_topics@[j]
                        == topics[j]
                &&& answered(new.brokers@[i].subscribe_topics@[k], topics[k], input.acks@.last())
            } else {
                new.unchanged(old)
            }
        },
        None => r == Err::<(), AppError>(AppError::BrokerNotFound(id)) && new.unchanged(old),
    })
}

impl AppData {
    fn find_same_his(&self, i: usize, his: &SubscribeHis) -> (r: bool)
        requires
            i < self.brokers@.len(),
        ensures
            r == exists|j: int|
                0 <= j < self.brokers@[i as int].subscribe_hises@.len() && #[trigger] same_his(*his)(
                    self.brokers@[i as int].subscribe_hises@[j],
                ),
    {
        let len = self.brokers[i].subscribe_hises.len();
        for k in 0..len
            invariant
                i < self.brokers@.len(),
                len == self.brokers@[i as int].subscribe_hises@.len(),
                forall|j: int|
                    0 <= j < k ==> !same_his(*his)(#[trigger] self.brokers@[i as int].subscribe_hises@[j]),
        {
            if self.brokers[i].subscribe_hises[k] == *his {
                proof {
                    assert(same_his(*his)(self.brokers@[i as int].subscribe_hises@[k as int]));
                }
                return true;
            }
        }
        false
    }

    fn find_asking_same(&self, i: usize, wanted: &SubscribeTopic) -> (r: bool)
        requires
            i < self.brokers@.len(),
        ensures
            r == exists|j: int|
                0 <= j < self.brokers@[i as int].subscribe_topics@.len() && #[trigger] asks_same(*wanted)(
                    self.brokers@[i as int].subscribe_topics@[j],
                ),
    {
        let len = self.brokers[i].subscribe_topics.len();
        for k in 0..len
            invariant
                i < self.brokers@.len(),
                len == self.brokers@[i as int].subscribe_topics@.len(),
                forall|j: int|
                    0 <= j < k ==> !asks_same(*wanted)(#[trigger] self.brokers@[i as int].subscribe_topics@[j]),
        {
            if self.brokers[i].subscribe_topics[k].is_equal(wanted) {
                proof {
                    assert(asks_same(*wanted)(self.brokers@[i as int].subscribe_topics@[k as int]));
                }
                return true;
            }
        }
        false
    }

    fn find_same_filter(&self, i: usize, wanted: &SubscribeTopic) -> (r: Option<usize>)
        requires
            i < self.brokers@.len(),
        ensures
            match r {
                Some(k) => first_index(self.brokers@[i as int].subscribe_topics@, same_filter(*wanted)) == Some(
                    k as int,
                ),
                None => first_index(self.brokers@[i as int].subscribe_topics@, same_filter(*wanted)) is None,
            },
    {
        let len = self.brokers[i].subscribe_topics.len();
        for k in 0..len
            invariant
                i < self.brokers@.len(),
                len == self.brokers@[i as int].subscribe_topics@.len(),
                forall|j: int|
                    0 <= j < k ==> !same_filter(*wanted)(#[trigger] self.brokers@[i as int].subscribe_topics@[j]),
        {
            if self.brokers[i].subscribe_topics[k].topic == wanted.topic {
                proof {
                    lemma_first_index(self.brokers@[i as int].subscribe_topics@, same_filter(*wanted), k as int);
                }
                return Some(k);
            }
        }
        proof {
            lemma_first_index_none(self.brokers@[i as int].subscribe_topics@, same_filter(*wanted));
        }
        None
    }

    /// Subscribes a broker to `wanted`, remembering `his` in its history.
    ///
    /// Where the broker lists the same subscription already, the first subscription with
    /// the same topic filter leaves the list; `wanted` joins it last. Where the history holds
    /// no entry for the same subscription, `his` joins it and the broker is saved. The
    /// worker is asked to send the subscription and the window to scroll.
    fn subscribe(&mut self, broker_id: usize, wanted: SubscribeTopic, his: SubscribeHis) -> (r: Result<
        Vec<Effect>,
        AppError,
    >)
        ensures
            match old(self).index_of_id(broker_id) {
                Some(i) => subscribe_result(*old(self), *final(self), broker_id, i, wanted, his, r),
                None => r == Err::<Vec<Effect>, AppError>(AppError::BrokerNotFound(broker_id)) && final(self).unchanged(*old(self)),
            },
            old(self).wf() ==> final(self).wf(),
    {
        let i = match self.find_index_by_id(broker_id) {
            Some(i) => i,
            None => return Err(AppError::BrokerNotFound(broker_id)),
        };
        let ghost b = self.brokers@[i as int];
        if self.find_asking_same(i, &wanted) {
            if let Some(k) = self.find_same_filter(i, &wanted) {
                self.brokers[i].subscribe_topics.remove(k);
            }
        }
        let copy = wanted.duplicate();
        self.brokers[i].subscribe_topics.push(copy);
        proof {
            let nt = self.brokers@[i as int].subscribe_topics@;
            assert(nt.drop_last() =~= topics_kept(b.subscribe_topics@, wanted));
        }
        let mut effects: Vec<Effect> = Vec::new();
        let his_new = !self.find_same_his(i, &his);
        if his_new {
            self.brokers[i].subscribe_hises.push(his);
            let record = self.brokers[i].clone_to_db();
            let writes = self.db.save_broker(record);
            push_store_effects(&mut effects, writes);
        }
        let ghost saved = effects@;
        effects.push(Effect::Send(AppEvent::ToSubscribe(broker_id, wanted)));
        effects.push(Effect::Send(AppEvent::UpdateScrollSubscribeWin));
        proof {
            assert(effects@.take(effects@.len() - 2) =~= saved);
            if old(self).wf() {
                self.lemma_wf_one_broker(*old(self), i as int);
            }
        }
        Ok(effects)
    }


    fn find_selected_his(&self, i: usize) -> (r: Option<usize>)
        requires
            i < self.brokers@.len(),
        ensures
            match r {
                Some(k) => first_index(self.brokers@[i as int].subscribe_hises@, his_selected()) == Some(k as int),
                None => first_index(self.brokers@[i as int].subscribe_hises@, his_selected()) is None,
            },
    {
        let len = self.brokers[i].subscribe_hises.len();
        for k in 0..len
            invariant
                i < self.brokers@.len(),
                len == self.brokers@[i as int].subscribe_hises@.len(),
                forall|j: int|
                    0 <= j < k ==> !his_selected()(#[trigger] self.brokers@[i as int].subscribe_hises@[j]),
        {
            if self.brokers[i].subscribe_hises[k].selected {
                proof {
                    lemma_first_index(self.brokers@[i as int].subscribe_hises@, his_selected(), k as int);
                }
                return Some(k);
            }
        }
        proof {
            lemma_first_index_none(self.brokers@[i as int].subscribe_hises@, his_selected());
        }
        None
    }

    /// Removes the first selected history entry of a broker and saves the broker; nothing
    /// happens where no entry is selected.
    pub fn touch_remove_subscribe_his(&mut self, id: usize) -> (r: Result<Vec<Effect>, AppError>)
        ensures
            touch_remove_subscribe_his_result(*old(self), *final(self), id, r),
            old(self).wf() ==> final(self).wf(),
    {
        let i = match self.find_index_by_id(id) {
            Some(i) => i,
            None => return Err(AppError::BrokerNotFound(id)),
        };
        let mut effects: Vec<Effect> = Vec::new();
        if let Some(k) = self.find_selected_his(i) {
            self.brokers[i].subscribe_hises.remove(k);
            let record = self.brokers[i].clone_to_db();
            let writes = self.db.save_broker(record);
            push_store_effects(&mut effects, writes);
            proof {
                if old(self).wf() {
                    self.lemma_wf_one_broker(*old(self), i as int);
                }
            }
        }
        Ok(effects)
    }

    /// A click on a history entry: in the selected broker's history, exactly the entries
    /// that are the same subscription as `his` become selected. Nothing happens where no
    /// broker is selected.
    pub fn click_subscribe_his(&mut self, his: SubscribeHis) -> (r: Result<(), AppError>)
        ensures
            click_subscribe_his_result(*old(self), *final(self), his, r),
            old(self).wf() ==> final(self).wf(),
    {
        let id = match self.get_selected_broker_id() {
            Some(id) => id,
            None => return Ok(()),
        };
        let i = match self.find_index_by_id(id) {
            Some(i) => i,
            None => {
                proof {
                    let s = self.index_of_selected().unwrap();
                    lemma_exists_first(self.brokers@, has_id(id), s);
                }
                return Ok(());
            },
        };
        let len = self.brokers[i].subscribe_hises.len();
        let ghost hb = self.brokers@[i as int];
        for k in 0..len
            invariant
                i < self.brokers@.len(),
                self.only_broker_changed(*old(self), i as int),
                hb == old(self).brokers@[i as int],
                self.brokers@[i as int] == (crate::data::common::Broker {
                    subscribe_hises: self.brokers@[i as int].subscribe_hises,
                    ..hb
                }),
                len == hb.subscribe_hises@.len(),
                self.brokers@[i as int].subscribe_hises@.len() == len,
                forall|j: int|
                    0 <= j < k ==> #[trigger] self.brokers@[i as int].subscribe_hises@[j] == (SubscribeHis {
                        selected: same_his(his)(hb.subscribe_hises@[j]),
                        ..hb.subscribe_hises@[j]
                    }),
                forall|j: int| k <= j < len ==> #[trigger] self.brokers@[i as int].subscribe_hises@[j] == hb.subscribe_hises@[j],
        {
            let same = self.brokers[i].subscribe_hises[k] == his;
            self.brokers[i].subscribe_hises[k].selected = same;
        }
        proof {
            if old(self).wf() {
                self.lemma_wf_one_broker(*old(self), i as int);
            }
        }
        Ok(())
    }

    /// A copy of the first selected history entry of the selected broker.
    pub fn get_selected_subscribe_his(&self) -> (r: Result<SubscribeHis, AppError>)
        ensures
            match self.index_of_selected() {
                Some(i) => match first_index(self.brokers@[i].subscribe_hises@, his_selected()) {
                    Some(k) => r matches Ok(h) && his_same(h, self.brokers@[i].subscribe_hises@[k]),
                    None => r == Err::<SubscribeHis, AppError>(AppError::NoSelectedSubscribeHis),
                },
                None => r == Err::<SubscribeHis, AppError>(AppError::NoSelectedBroker),
            },
    {
        let i = match self.get_selected_broker_index() {
            Some(i) => i,
            None => return Err(AppError::NoSelectedBroker),
        };
        match self.find_selected_his(i) {
            Some(k) => Ok(self.brokers[i].subscribe_hises[k].duplicate()),
            None => Err(AppError::NoSelectedSubscribeHis),
        }
    }


    /// A broker answered a subscription: the last answer code applies to the first
    /// subscription traced by the answer's packet id. Nothing happens where the answer
    /// holds no code or no subscription has that packet id.
    pub fn sub_ack(&mut self, id: usize, input: SubscribeAck) -> (r: Result<(), AppError>)
        ensures
            sub_ack_result(*old(self), *final(self), id, input, r),
            old(self).wf() ==> final(self).wf(),
    {
        let i = match self.find_index_by_id(id) {
            Some(i) => i,
            None => return Err(AppError::BrokerNotFound(id)),
        };
        let SubscribeAck { id: trace_id, mut acks } = input;
        if let Some(ack) = acks.pop() {
            if let Some(k) = self.find_topic(i, trace_id) {
                let ghost before = self.brokers@[i as int].subscribe_topics@;
                match ack {
                    SubscribeReasonCode::QoS0 => {
                        self.brokers[i].subscribe_topics[k].qos = QoS::AtMostOnce.qos_to_string();
                        self.brokers[i].subscribe_topics[k].status = SubscribeStatus::SubscribeSuccess;
                    },
                    SubscribeReasonCode::QoS1 => {
                        self.brokers[i].subscribe_topics[k].qos = QoS::AtLeastOnce.qos_to_string();
                        self.brokers[i].subscribe_topics[k].status = SubscribeStatus::SubscribeSuccess;
                    },
                    SubscribeReasonCode::QoS2 => {
                        self.brokers[i].subscribe_topics[k].qos = QoS::ExactlyOnce.qos_to_string();
                        self.brokers[i].subscribe_topics[k].status = SubscribeStatus::SubscribeSuccess;
                    },
                    _ => {
                        self.brokers[i].subscribe_topics[k].status = SubscribeStatus::SubscribeFail;
                    },
                }
                proof {
                    if old(self).wf() {
                        self.lemma_wf_one_broker(*old(self), i as int);
                    }
                }
            }
        }
        Ok(())
    }

    /// Subscribes again to a history entry, traced by `trace_id`.
    pub fn touch_subscribe_from_his(&mut self, input: SubscribeHis, trace_id: u32) -> (r: Result<
        Vec<Effect>,
        AppError,
    >)
        ensures
            touch_subscribe_from_his_result(*old(self), *final(self), input, trace_id, r),
            old(self).wf() ==> final(self).wf(),
    {
        let broker_id = input.broker_id;
        let copy = input.duplicate();
        let wanted = SubscribeTopic::from_his(copy, trace_id);
        let ghost w1 = wanted;
        let ghost his = input;
        let r = self.subscribe(broker_id, wanted, input);
        proof {
            if let Some(i) = old(self).index_of_id(broker_id) {
                let w = self.brokers@[i].subscribe_topics@.last();
                lemma_subscribe_result_same(*old(self), *self, broker_id, i, w1, w, his, r);
            }
        }
        r
    }

    /// Subscribes a broker to what its subscribe form holds, traced by `trace_id`; a new
    /// history entry gets the identifier `his_id`.
    pub fn touch_subscribe_by_input(&mut self, id: usize, trace_id: u32, his_id: Id) -> (r: Result<
        Vec<Effect>,
        AppError,
    >)
        ensures
            touch_subscribe_by_input_result(*old(self), *final(self), id, trace_id, his_id, r),
            old(self).wf() ==> final(self).wf(),
    {
        let i = match self.find_index_by_id(id) {
            Some(i) => i,
            None => return Err(AppError::BrokerNotFound(id)),
        };
        let input = crate::data::common::SubscribeInput {
            broker_id: self.brokers[i].subscribe_input.broker_id,
            topic: self.brokers[i].subscribe_input.topic.clone(),
            qos: self.brokers[i].subscribe_input.qos,
            payload_ty: self.brokers[i].subscribe_input.payload_ty,
        };
        let input2 = crate::data::common::SubscribeInput {
            broker_id: self.brokers[i].subscribe_input.broker_id,
            topic: self.brokers[i].subscribe_input.topic.clone(),
            qos: self.brokers[i].subscribe_input.qos,
            payload_ty: self.brokers[i].subscribe_input.payload_ty,
        };
        let wanted = SubscribeTopic::from(input, trace_id);
        let his = SubscribeHis::from_input(input2, his_id);
        let ghost w1 = wanted;
        let ghost h = his;
        let r = self.subscribe(id, wanted, his);
        proof {
            let w = self.brokers@[i as int].subscribe_topics@.last();
            lemma_subscribe_result_same(*old(self), *self, id, i as int, w1, w, h, r);
        }
        r
    }
}

} // verus!
