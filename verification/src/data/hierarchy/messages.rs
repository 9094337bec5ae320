use vstd::prelude::*;

use crate::data::common::{
    encode_payload, format_payload, payload_ty_text, qos_text, Broker, Msg, PayloadTy, PublicMsg,
    PublicStatus, QoS, SubscribeMsg, SubscribeTopic,
};
use crate::data::hierarchy::{
    first_index, lemma_first_index, lemma_first_index_none, AppData, AppError, MAX_MSGS,
};
use crate::data::{AString, AppEvent, Effect};
use crate::mqtt::data::MqttPublicInput;
use crate::util::consts::QosToString;
use crate::util::topic::topic_matches;

verus! {

/// The messages kept after one more arrives: the oldest leaves once there are more than
/// `MAX_MSGS`.
pub open spec fn capped(msgs: Seq<Msg>) -> Seq<Msg> {
    if msgs.len() > MAX_MSGS {
        msgs.skip(1)
    } else {
        msgs
    }
}

/// The subscription's topic filter matches the topic.
pub open spec fn filter_matches(topic: Seq<char>) -> spec_fn(SubscribeTopic) -> bool {
    |t: SubscribeTopic| topic_matches(t.topic@, topic)
}

/// The format a message received on a topic is shown in: that of the first subscription
/// whose filter matches the topic, plain text where none matches.
pub open spec fn payload_ty_for(topics: Seq<SubscribeTopic>, topic: Seq<char>) -> PayloadTy {
    match first_index(topics, filter_matches(topic)) {
        Some(k) => topics[k].payload_ty,
        None => PayloadTy::Text,
    }
}

/// A message records a publish of the broker's publish form, traced by `trace_id`, sent at
/// `time`, showing the text the payload was encoded to.
pub open spec fn is_published_msg(m: Msg, b: Broker, trace_id: u32, time: Seq<char>) -> bool {
    let input = b.public_input;
    match encode_payload(input.payload_ty, input.msg@) {
        Some((_, text)) => m matches Msg::Public(p) && p.trace_id == trace_id && p.topic@ == input.topic@
            && p.msg@ == text && p.qos@ == qos_text(input.qos) && p.status == PublicStatus::Ing
            && p.payload_ty@ == payload_ty_text(input.payload_ty) && p.time@ == time,
        None => false,
    }
}

/// A message records a message received on `topic`.
pub open spec fn is_received_msg(
    m: Msg,
    b: Broker,
    topic: Seq<char>,
    payload: Seq<u8>,
    qos: QoS,
    time: Seq<char>,
) -> bool {
    let ty = payload_ty_for(b.subscribe_topics@, topic);
    m matches Msg::Subscribe(s) && s.topic@ == topic && s.msg@ == format_payload(ty, payload)
        && s.qos@ == qos_text(qos) && s.payload_ty@ == payload_ty_text(ty) && s.time@ == time
}

/// How `AppData::publish` changes the state (`old` to `new`) and what it answers.
///
/// Publishes what the broker's publish form holds, traced by `trace_id` and sent at
/// `time`: the payload is encoded in the form's format, a message records the publish
/// (the oldest message leaving beyond `MAX_MSGS`), and the worker is asked to send it.
/// Refused where the payload cannot be encoded.
pub open spec fn publish_result(old: AppData, new: AppData, id: usize, trace_id: u32, time: AString, r: Result<Vec<Effect>, AppError>) -> bool {
    &&& (match old.index_of_id(id) {
        Some(i) => {
            let b = old.brokers@[i];
            let input = b.public_input;
            match encode_payload(input.payload_ty, input.msg@) {
                Some((bytes, _)) => {
                    let m = new.brokers@[i].msgs@.last();
                    &&& new.only_broker_changed(old, i)
                    &&& new.brokers@[i] == (Broker {
                        msgs: new.brokers@[i].msgs,
                        ..b
                    })
                    &&& new.brokers@[i].msgs@ == capped(b.msgs@.push(m))
                    &&& is_published_msg(m, b, trace_id, time@)
                    &&& r matches Ok(effects) && effects@.len() == 2 && (effects@[0] matches Effect::Send(
                        AppEvent::ToPublish(p),
                    ) && p.broker_id == id && p.trace_id == trace_id && p.topic@ == input.topic@
                        && p.msg@ == bytes && p.qos == input.qos && p.retain == input.retain)
                        && effects@[1] == Effect::Send(AppEvent::UpdateScrollMsgWin)
                },
                None => r == Err::<Vec<Effect>, AppError>(
                    AppError::Payload(crate::data::common::PayloadError::OddHexDigits),
                ) && new.unchanged(old),
            }
        },
        None => r == Err::<Vec<Effect>, AppError>(AppError::BrokerNotFound(id)) && new.unchanged(
            old,
        ),
    })
}

/// A publish asks the worker to send exactly what the broker's publish form holds: to that
/// broker, under the publish's trace id, the form's topic, its message encoded in the
/// form's format, its QoS and its retain flag.
pub proof fn lemma_publish_sends_the_form(
    old: AppData,
    new: AppData,
    id: usize,
    trace_id: u32,
    time: AString,
    r: Result<Vec<Effect>, AppError>,
)
    requires
        publish_result(old, new, id, trace_id, time, r),
        r is Ok,
    ensures
        old.index_of_id(id) is Some,
        ({
            let input = old.brokers@[old.index_of_id(id).unwrap()].public_input;
            encode_payload(input.payload_ty, input.msg@) matches Some((bytes, _)) && r matches Ok(effects)
                && exists|e: int|
                0 <= e < effects@.len() && (#[trigger] effects@[e] matches Effect::Send(AppEvent::ToPublish(p))
                    && p.broker_id == id && p.trace_id == trace_id && p.topic@ == input.topic@ && p.msg@
                    == bytes && p.qos == input.qos && p.retain == input.retain)
        }),
        ({
            let i = old.index_of_id(id).unwrap();
            let input = old.brokers@[i].public_input;
            let after = new.brokers@[i].msgs@;
            &&& after.len() > 0
            &&& after.last() matches Msg::Public(m) && m.trace_id == trace_id && m.topic@ == input.topic@
                && m.qos@ == qos_text(input.qos) && m.status == PublicStatus::Ing
        }),
{
    let effects = r->Ok_0;
    assert(effects@[0] == effects@[0]);
    let i = old.index_of_id(id).unwrap();
    let b = old.brokers@[i];
    let m = new.brokers@[i].msgs@.last();
    let pushed = b.msgs@.push(m);
    if pushed.len() > MAX_MSGS {
        assert(pushed.skip(1).last() == m);
    }
}

/// A message that arrives is recorded last in the broker's message list, with its topic,
/// its QoS and the time it came; the messages before stay, in order, but for the oldest,
/// which leaves once the list is full.
pub proof fn lemma_receive_records_message(
    old: AppData,
    new: AppData,
    id: usize,
    topic: AString,
    payload: Vec<u8>,
    qos: QoS,
    time: AString,
    r: Result<Vec<Effect>, AppError>,
)
    requires
        receive_msg_result(old, new, id, topic, payload, qos, time, r),
        old.index_of_id(id) is Some,
    ensures
        ({
            let i = old.index_of_id(id).unwrap();
            let before = old.brokers@[i].msgs@;
            let after = new.brokers@[i].msgs@;
            &&& after.len() > 0
            &&& after.last() matches Msg::Subscribe(m) && m.topic@ == topic@ && m.qos@ == qos_text(qos)
                && m.time@ == time@
            &&& before.len() < MAX_MSGS ==> after.len() == before.len() + 1 && forall|j: int|
                0 <= j < before.len() ==> #[trigger] after[j] == before[j]
            &&& before.len() == MAX_MSGS ==> after.len() == MAX_MSGS && forall|j: int|
                0 <= j < before.len() - 1 ==> #[trigger] after[j] == before[j + 1]
        }),
{
    let i = old.index_of_id(id).unwrap();
    let b = old.brokers@[i];
    let m = new.brokers@[i].msgs@.last();
    let pushed = b.msgs@.push(m);
    if pushed.len() > MAX_MSGS {
        assert(pushed.skip(1).last() == m);
        assert forall|j: int| 0 <= j < b.msgs@.len() - 1 implies #[trigger] pushed.skip(1)[j] == b.msgs@[j + 1] by {}
    } else {
        assert forall|j: int| 0 <= j < b.msgs@.len() implies #[trigger] pushed[j] == b.msgs@[j] by {}
    }
}

/// How `AppData::receive_msg` changes the state (`old` to `new`) and what it answers.
///
/// A message arrived from a broker: it is shown in the format of the first
/// subscription whose filter matches its topic (plain text where none does) and
/// recorded, the oldest message leaving beyond `MAX_MSGS`.
pub open spec fn receive_msg_result(old: AppData, new: AppData, id: usize, topic: AString, payload: Vec<u8>, qos: QoS, time: AString, r: Result<Vec<Effect>, AppError>) -> bool {
    &&& (match old.index_of_id(id) {
        Some(i) => {
            let b = old.brokers@[i];
            let m = new.brokers@[i].msgs@.last();
            &&& new.only_broker_changed(old, i)
            &&& new.brokers@[i] == (Broker { msgs: new.brokers@[i].msgs, ..b })
            &&& new.brokers@[i].msgs@ == capped(b.msgs@.push(m))
            &&& is_received_msg(m, b, topic@, payload@, qos, time@)
            &&& r matches Ok(effects) && effects@ == seq![Effect::Send(AppEvent::UpdateScrollMsgWin)]
        },
        None => r == Err::<Vec<Effect>, AppError>(AppError::BrokerNotFound(id)) && new.unchanged(
            old,
        ),
    })
}

impl AppData {
    pub(crate) fn push_msg(&mut self, i: usize, m: Msg)
        requires
            i < old(self).brokers@.len(),
        ensures
            final(self).only_broker_changed(*old(self), i as int),
            final(self).brokers@[i as int] == (Broker {
                msgs: final(self).brokers@[i as int].msgs,
                ..old(self).brokers@[i as int]
            }),
            final(self).brokers@[i as int].msgs@ == capped(old(self).brokers@[i as int].msgs@.push(m)),
            old(self).brokers@[i as int].msgs@.len() <= MAX_MSGS ==> final(self).brokers@[i as int].msgs@.len()
                <= MAX_MSGS,
            old(self).wf() ==> final(self).wf(),
    {
        self.brokers[i].msgs.push(m);
        if self.brokers[i].msgs.len() > MAX_MSGS {
            self.brokers[i].msgs.remove(0);
            proof {
                assert(self.brokers@[i as int].msgs@ =~= old(self).brokers@[i as int].msgs@.push(m).skip(1));
            }
        }
        proof {
            if old(self).wf() {
                assert(old(self).brokers@[i as int].msgs@.len() <= MAX_MSGS);
                self.lemma_wf_one_broker(*old(self), i as int);
            }
        }
    }

    /// Publishes what the broker's publish form holds, traced by `trace_id` and sent at
    /// `time`: the payload is encoded in the form's format, a message records the publish
    /// (the oldest message leaving beyond `MAX_MSGS`), and the worker is asked to send it.
    /// Refused where the payload cannot be encoded.
    pub fn publish(&mut self, id: usize, trace_id: u32, time: AString) -> (r: Result<Vec<Effect>, AppError>)
        ensures
            publish_result(*old(self), *final(self), id, trace_id, time, r),
            old(self).wf() ==> final(self).wf(),
    {
        let i = match self.find_index_by_id(id) {
            Some(i) => i,
            None => return Err(AppError::BrokerNotFound(id)),
        };
        let (payload, payload_str) = match self.brokers[i].public_input.payload_ty.to_bytes(
            &self.brokers[i].public_input.msg,
        ) {
            Ok(encoded) => encoded,
            Err(e) => return Err(AppError::Payload(e)),
        };
        let msg = PublicMsg {
            trace_id,
            topic: self.brokers[i].public_input.topic.clone(),
            msg: payload_str,
            qos: self.brokers[i].public_input.qos.qos_to_string(),
            status: PublicStatus::Ing,
            payload_ty: self.brokers[i].public_input.payload_ty.to_arc_string(),
            time,
        };
        let ghost m = Msg::Public(msg);
        self.push_msg(i, Msg::Public(msg));
        proof {
            let s = old(self).brokers@[i as int].msgs@.push(m);
            if s.len() > MAX_MSGS {
                assert(s.skip(1).last() == m);
            }
        }
        let publish = MqttPublicInput {
            broker_id: self.brokers[i].id,
            trace_id,
            topic: self.brokers[i].public_input.topic.clone(),
            msg: payload,
            qos: self.brokers[i].public_input.qos,
            retain: self.brokers[i].public_input.retain,
        };
        let mut effects: Vec<Effect> = Vec::new();
        effects.push(Effect::Send(AppEvent::ToPublish(publish)));
        effects.push(Effect::Send(AppEvent::UpdateScrollMsgWin));
        Ok(effects)
    }

    fn payload_ty_of(&self, i: usize, topic: &str) -> (ty: PayloadTy)
        requires
            i < self.brokers@.len(),
        ensures
            ty == payload_ty_for(self.brokers@[i as int].subscribe_topics@, topic@),
    {
        let len = self.brokers[i].subscribe_topics.len();
        for k in 0..len
            invariant
                i < self.brokers@.len(),
                len == self.brokers@[i as int].subscribe_topics@.len(),
                forall|j: int|
                    0 <= j < k ==> !filter_matches(topic@)(#[trigger] self.brokers@[i as int].subscribe_topics@[j]),
        {
            if self.brokers[i].subscribe_topics[k].match_topic(topic) {
                proof {
                    lemma_first_index(self.brokers@[i as int].subscribe_topics@, filter_matches(topic@), k as int);
                }
                return self.brokers[i].subscribe_topics[k].payload_ty;
            }
        }
        proof {
            lemma_first_index_none(self.brokers@[i as int].subscribe_topics@, filter_matches(topic@));
        }
        PayloadTy::default()
    }

    /// A message arrived from a broker: it is shown in the format of the first
    /// subscription whose filter matches its topic (plain text where none does) and
    /// recorded, the oldest message leaving beyond `MAX_MSGS`.
    pub fn receive_msg(&mut self, id: usize, topic: AString, payload: Vec<u8>, qos: QoS, time: AString) -> (r:
        Result<Vec<Effect>, AppError>)
        ensures
            receive_msg_result(*old(self), *final(self), id, topic, payload, qos, time, r),
            old(self).wf() ==> final(self).wf(),
    {
        let i = match self.find_index_by_id(id) {
            Some(i) => i,
            None => return Err(AppError::BrokerNotFound(id)),
        };
        let payload_ty = self.payload_ty_of(i, topic.as_str());
        let text = payload_ty.format(payload.as_slice());
        let msg = SubscribeMsg {
            topic,
            msg: text,
            qos: qos.qos_to_string(),
            payload_ty: payload_ty.to_arc_string(),
            time,
        };
        let ghost m = Msg::Subscribe(msg);
        self.push_msg(i, Msg::Subscribe(msg));
        proof {
            let s = old(self).brokers@[i as int].msgs@.push(m);
            if s.len() > MAX_MSGS {
                assert(s.skip(1).last() == m);
            }
        }
        let mut effects: Vec<Effect> = Vec::new();
        effects.push(Effect::Send(AppEvent::UpdateScrollMsgWin));
        Ok(effects)
    }
}

} // verus!
