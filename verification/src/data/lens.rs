//! Views into the application state that the window binds its widgets to: each one picks a
//! part of a larger value, for reading and, where the part lives in the value, for editing.
use vstd::prelude::*;

use crate::data::common::{
    payload_ty_text, qos_text, Broker, Msg, PublicInput, PublicMsg, QoS, SubscribeHis, SubscribeInput,
    SubscribeMsg, SubscribeTopic,
};
use crate::data::hierarchy::AppData;
use crate::data::AString;
use crate::util::consts::QosToString;

verus! {

/// The selected broker, or the first one where none is selected.
pub struct BrokerSelectedOrZero;

/// The broker with this id.
pub struct BrokerId(pub usize);

/// The subscriptions of the broker with this id.
pub struct BrokerIndexLensVecSubscribeTopic(pub usize);

/// The messages of the broker with this id.
pub struct BrokerIndexLensVecMsg(pub usize);

/// The subscribe form of the broker with this id.
pub struct BrokerIndexLensSubscribeInput(pub usize);

/// The publish form of the broker with this id.
pub struct BrokerIndexLensPublicInput(pub usize);

/// A position, carried by widgets that show one broker of the list.
pub struct Index(pub usize);

/// The brokers that are stored, in their order.
pub struct BrokerStoredList;

/// The text of a message.
pub struct MsgMsgLens;

/// The topic of a message.
pub struct MsgTopicLens;

/// The quality of service of a message, as text.
pub struct MsgQosLens;

/// The payload type of a message, as text.
pub struct MsgPayloadTyLens;

/// The time of a message.
pub struct MsgTimeLens;

/// The port of a broker.
pub struct PortLens;

/// The quality of service of a history entry, as text.
pub struct LensSubscribeHisQoS;

/// The payload type of a subscription, as text.
pub struct SubscribeTopicPayloadLens;

/// The payload type of a history entry, as text.
pub struct SubscribeHisPayloadLens;

/// A quality of service, as text.
pub struct LensQoSAString;

/// The position that `BrokerSelectedOrZero` picks.
pub open spec fn selected_or_zero(data: AppData) -> int {
    match data.index_of_selected() {
        Some(i) => i,
        None => 0,
    }
}

/// `new` differs from `old` at most in the broker at position `i`, which is `b`.
pub open spec fn broker_replaced(new: AppData, old: AppData, i: int, b: Broker) -> bool {
    &&& new.brokers@ == old.brokers@.update(i, b)
    &&& new.broker_tabs == old.broker_tabs
    &&& new.db == old.db
    &&& new.hint == old.hint
    &&& new.self_signed_file == old.self_signed_file
    &&& new.display_history == old.display_history
    &&& new.display_broker_info == old.display_broker_info
}

/// The brokers of `s` that are stored, in their order.
pub open spec fn stored_brokers(s: Seq<Broker>) -> Seq<Broker> {
    s.filter(is_stored())
}

/// The broker is stored.
pub open spec fn is_stored() -> spec_fn(Broker) -> bool {
    |b: Broker| b.stored
}

/// The text of a message.
pub open spec fn msg_text(m: Msg) -> AString {
    match m {
        Msg::Public(p) => p.msg,
        Msg::Subscribe(s) => s.msg,
    }
}

/// The message with its text replaced.
pub open spec fn with_msg_text(m: Msg, v: AString) -> Msg {
    match m {
        Msg::Public(p) => Msg::Public(PublicMsg { msg: v, ..p }),
        Msg::Subscribe(s) => Msg::Subscribe(SubscribeMsg { msg: v, ..s }),
    }
}

/// The topic of a message.
pub open spec fn msg_topic(m: Msg) -> AString {
    match m {
        Msg::Public(p) => p.topic,
        Msg::Subscribe(s) => s.topic,
    }
}

/// The message with its topic replaced.
pub open spec fn with_msg_topic(m: Msg, v: AString) -> Msg {
    match m {
        Msg::Public(p) => Msg::Public(PublicMsg { topic: v, ..p }),
        Msg::Subscribe(s) => Msg::Subscribe(SubscribeMsg { topic: v, ..s }),
    }
}

/// The quality of service of a message, as text.
pub open spec fn msg_qos(m: Msg) -> AString {
    match m {
        Msg::Public(p) => p.qos,
        Msg::Subscribe(s) => s.qos,
    }
}

/// The message with its quality of service replaced.
pub open spec fn with_msg_qos(m: Msg, v: AString) -> Msg {
    match m {
        Msg::Public(p) => Msg::Public(PublicMsg { qos: v, ..p }),
        Msg::Subscribe(s) => Msg::Subscribe(SubscribeMsg { qos: v, ..s }),
    }
}

/// The payload type of a message, as text.
pub open spec fn msg_payload_ty(m: Msg) -> AString {
    match m {
        Msg::Public(p) => p.payload_ty,
        Msg::Subscribe(s) => s.payload_ty,
    }
}

/// The message with its payload type replaced.
pub open spec fn with_msg_payload_ty(m: Msg, v: AString) -> Msg {
    match m {
        Msg::Public(p) => Msg::Public(PublicMsg { payload_ty: v, ..p }),
        Msg::Subscribe(s) => Msg::Subscribe(SubscribeMsg { payload_ty: v, ..s }),
    }
}

/// The time of a message.
pub open spec fn msg_time(m: Msg) -> AString {
    match m {
        Msg::Public(p) => p.time,
        Msg::Subscribe(s) => s.time,
    }
}

/// The message with its time replaced.
pub open spec fn with_msg_time(m: Msg, v: AString) -> Msg {
    match m {
        Msg::Public(p) => Msg::Public(PublicMsg { time: v, ..p }),
        Msg::Subscribe(s) => Msg::Subscribe(SubscribeMsg { time: v, ..s }),
    }
}

/// What is written through a message lens is what reading through it gives back, and the
/// other parts of the message stay as they were.
pub proof fn lemma_msg_lens_put_get(m: Msg, v: AString)
    ensures
        msg_text(with_msg_text(m, v)) == v,
        msg_topic(with_msg_text(m, v)) == msg_topic(m),
        msg_topic(with_msg_topic(m, v)) == v,
        msg_text(with_msg_topic(m, v)) == msg_text(m),
        msg_qos(with_msg_qos(m, v)) == v,
        msg_text(with_msg_qos(m, v)) == msg_text(m),
        msg_payload_ty(with_msg_payload_ty(m, v)) == v,
        msg_text(with_msg_payload_ty(m, v)) == msg_text(m),
        msg_time(with_msg_time(m, v)) == v,
        msg_text(with_msg_time(m, v)) == msg_text(m),
        with_msg_text(m, msg_text(m)) == m,
{
}

impl BrokerSelectedOrZero {
    pub fn get<'a>(&self, data: &'a AppData) -> (r: &'a Broker)
        requires
            data.brokers@.len() > 0,
        ensures
            *r == data.brokers@[selected_or_zero(*data)],
    {
        data.get_selected_broker_or_zero()
    }

    pub fn get_mut<'a>(&self, data: &'a mut AppData) -> (r: &'a mut Broker)
        requires
            old(data).brokers@.len() > 0,
        ensures
            *r == old(data).brokers@[selected_or_zero(*old(data))],
            broker_replaced(*final(data), *old(data), selected_or_zero(*old(data)), *final(r)),
    {
        data.get_mut_selected_broker_or_zero()
    }
}

impl BrokerId {
    pub fn get<'a>(&self, data: &'a AppData) -> (r: &'a Broker)
        requires
            data.index_of_id(self.0) is Some,
        ensures
            *r == data.brokers@[data.index_of_id(self.0)->0],
    {
        data.find_broker_by_id(self.0).unwrap()
    }

    pub fn get_mut<'a>(&self, data: &'a mut AppData) -> (r: &'a mut Broker)
        requires
            old(data).index_of_id(self.0) is Some,
        ensures
            *r == old(data).brokers@[old(data).index_of_id(self.0)->0],
            broker_replaced(*final(data), *old(data), old(data).index_of_id(self.0)->0, *final(r)),
    {
        data.find_mut_broker_by_id(self.0).unwrap()
    }
}

/// The broker of `data` with this id; the lenses by id are only used on brokers that exist.
pub open spec fn broker_of(data: AppData, id: usize) -> Broker {
    data.brokers@[data.index_of_id(id)->0]
}

impl BrokerIndexLensVecSubscribeTopic {
    pub fn get<'a>(&self, data: &'a AppData) -> (r: &'a Vec<SubscribeTopic>)
        requires
            data.index_of_id(self.0) is Some,
        ensures
            *r == broker_of(*data, self.0).subscribe_topics,
    {
        &data.find_broker_by_id(self.0).unwrap().subscribe_topics
    }

    pub fn get_mut<'a>(&self, data: &'a mut AppData) -> (r: &'a mut Vec<SubscribeTopic>)
        requires
            old(data).index_of_id(self.0) is Some,
        ensures
            *r == broker_of(*old(data), self.0).subscribe_topics,
            broker_replaced(
                *final(data),
                *old(data),
                old(data).index_of_id(self.0)->0,
                (Broker { subscribe_topics: *final(r), ..broker_of(*old(data), self.0) }),
            ),
    {
        &mut data.find_mut_broker_by_id(self.0).unwrap().subscribe_topics
    }
}

impl BrokerIndexLensVecMsg {
    pub fn get<'a>(&self, data: &'a AppData) -> (r: &'a Vec<Msg>)
        requires
            data.index_of_id(self.0) is Some,
        ensures
            *r == broker_of(*data, self.0).msgs,
    {
        &data.find_broker_by_id(self.0).unwrap().msgs
    }

    pub fn get_mut<'a>(&self, data: &'a mut AppData) -> (r: &'a mut Vec<Msg>)
        requires
            old(data).index_of_id(self.0) is Some,
        ensures
            *r == broker_of(*old(data), self.0).msgs,
            broker_replaced(
                *final(data),
                *old(data),
                old(data).index_of_id(self.0)->0,
                (Broker { msgs: *final(r), ..broker_of(*old(data), self.0) }),
            ),
    {
        &mut data.find_mut_broker_by_id(self.0).unwrap().msgs
    }
}

impl BrokerIndexLensSubscribeInput {
    pub fn get<'a>(&self, data: &'a AppData) -> (r: &'a SubscribeInput)
        requires
            data.index_of_id(self.0) is Some,
        ensures
            *r == broker_of(*data, self.0).subscribe_input,
    {
        &data.find_broker_by_id(self.0).unwrap().subscribe_input
    }

    pub fn get_mut<'a>(&self, data: &'a mut AppData) -> (r: &'a mut SubscribeInput)
        requires
            old(data).index_of_id(self.0) is Some,
        ensures
            *r == broker_of(*old(data), self.0).subscribe_input,
            broker_replaced(
                *final(data),
                *old(data),
                old(data).index_of_id(self.0)->0,
                (Broker { subscribe_input: *final(r), ..broker_of(*old(data), self.0) }),
            ),
    {
        &mut data.find_mut_broker_by_id(self.0).unwrap().subscribe_input
    }
}

impl BrokerIndexLensPublicInput {
    pub fn get<'a>(&self, data: &'a AppData) -> (r: &'a PublicInput)
        requires
            data.index_of_id(self.0) is Some,
        ensures
            *r == broker_of(*data, self.0).public_input,
    {
        &data.find_broker_by_id(self.0).unwrap().public_input
    }

    pub fn get_mut<'a>(&self, data: &'a mut AppData) -> (r: &'a mut PublicInput)
        requires
            old(data).index_of_id(self.0) is Some,
        ensures
            *r == broker_of(*old(data), self.0).public_input,
            broker_replaced(
                *final(data),
                *old(data),
                old(data).index_of_id(self.0)->0,
                (Broker { public_input: *final(r), ..broker_of(*old(data), self.0) }),
            ),
    {
        &mut data.find_mut_broker_by_id(self.0).unwrap().public_input
    }
}

impl BrokerStoredList {
    /// The stored brokers, in the order of the list.
    pub fn get<'a>(&self, data: &'a AppData) -> (r: Vec<&'a Broker>)
        ensures
            r@.len() == stored_brokers(data.brokers@).len(),
            forall|k: int| 0 <= k < r@.len() ==> *(#[trigger] r@[k]) == stored_brokers(data.brokers@)[k],
    {
        broadcast use Seq::lemma_filter_push;

        let mut out: Vec<&'a Broker> = Vec::new();
        let mut i: usize = 0;
        while i < data.brokers.len()
            invariant
                i <= data.brokers@.len(),
                out@.len() == stored_brokers(data.brokers@.take(i as int)).len(),
                forall|k: int|
                    0 <= k < out@.len() ==> *(#[trigger] out@[k]) == stored_brokers(
                        data.brokers@.take(i as int),
                    )[k],
            decreases data.brokers@.len() - i,
        {
            assert(data.brokers@.take(i as int + 1) == data.brokers@.take(i as int).push(
                data.brokers@[i as int],
            ));
            proof {
                data.brokers@.take(i as int).lemma_filter_push(data.brokers@[i as int], is_stored());
            }
            if data.brokers[i].stored {
                out.push(&data.brokers[i]);
            }
            i = i + 1;
        }
        assert(data.brokers@.take(i as int) == data.brokers@);
        out
    }
}

impl MsgMsgLens {
    pub fn get<'a>(&self, data: &'a Msg) -> (r: &'a AString)
        ensures
            *r == msg_text(*data),
    {
        match data {
            Msg::Public(msg) => &msg.msg,
            Msg::Subscribe(msg) => &msg.msg,
        }
    }

    pub fn get_mut<'a>(&self, data: &'a mut Msg) -> (r: &'a mut AString)
        ensures
            *r == msg_text(*old(data)),
            *final(data) == with_msg_text(*old(data), *final(r)),
    {
        match data {
            Msg::Public(msg) => &mut msg.msg,
            Msg::Subscribe(msg) => &mut msg.msg,
        }
    }
}

impl MsgTopicLens {
    pub fn get<'a>(&self, data: &'a Msg) -> (r: &'a AString)
        ensures
            *r == msg_topic(*data),
    {
        match data {
            Msg::Public(msg) => &msg.topic,
            Msg::Subscribe(msg) => &msg.topic,
        }
    }

    pub fn get_mut<'a>(&self, data: &'a mut Msg) -> (r: &'a mut AString)
        ensures
            *r == msg_topic(*old(data)),
            *final(data) == with_msg_topic(*old(data), *final(r)),
    {
        match data {
            Msg::Public(msg) => &mut msg.topic,
            Msg::Subscribe(msg) => &mut msg.topic,
        }
    }
}

impl MsgQosLens {
    pub fn get<'a>(&self, data: &'a Msg) -> (r: &'a AString)
        ensures
            *r == msg_qos(*data),
    {
        match data {
            Msg::Public(msg) => &msg.qos,
            Msg::Subscribe(msg) => &msg.qos,
        }
    }

    pub fn get_mut<'a>(&self, data: &'a mut Msg) -> (r: &'a mut AString)
        ensures
            *r == msg_qos(*old(data)),
            *final(data) == with_msg_qos(*old(data), *final(r)),
    {
        match data {
            Msg::Public(msg) => &mut msg.qos,
            Msg::Subscribe(msg) => &mut msg.qos,
        }
    }
}

impl MsgPayloadTyLens {
    pub fn get<'a>(&self, data: &'a Msg) -> (r: &'a AString)
        ensures
            *r == msg_payload_ty(*data),
    {
        match data {
            Msg::Public(msg) => &msg.payload_ty,
            Msg::Subscribe(msg) => &msg.payload_ty,
        }
    }

    pub fn get_mut<'a>(&self, data: &'a mut Msg) -> (r: &'a mut AString)
        ensures
            *r == msg_payload_ty(*old(data)),
            *final(data) == with_msg_payload_ty(*old(data), *final(r)),
    {
        match data {
            Msg::Public(msg) => &mut msg.payload_ty,
            Msg::Subscribe(msg) => &mut msg.payload_ty,
        }
    }
}

impl MsgTimeLens {
    pub fn get<'a>(&self, data: &'a Msg) -> (r: &'a AString)
        ensures
            *r == msg_time(*data),
    {
        match data {
            Msg::Public(msg) => &msg.time,
            Msg::Subscribe(msg) => &msg.time,
        }
    }

    pub fn get_mut<'a>(&self, data: &'a mut Msg) -> (r: &'a mut AString)
        ensures
            *r == msg_time(*old(data)),
            *final(data) == with_msg_time(*old(data), *final(r)),
    {
        match data {
            Msg::Public(msg) => &mut msg.time,
            Msg::Subscribe(msg) => &mut msg.time,
        }
    }
}

impl PortLens {
    pub fn get<'a>(&self, data: &'a Broker) -> (r: &'a Option<u16>)
        ensures
            *r == data.port,
    {
        &data.port
    }

    pub fn get_mut<'a>(&self, data: &'a mut Broker) -> (r: &'a mut Option<u16>)
        ensures
            *r == old(data).port,
            *final(data) == (Broker { port: *final(r), ..*old(data) }),
    {
        &mut data.port
    }
}

impl LensSubscribeHisQoS {
    /// The text is made afresh: what a widget writes to it does not reach the entry.
    pub fn get(&self, data: &SubscribeHis) -> (r: AString)
        ensures
            r@ == qos_text(data.qos),
    {
        data.qos.qos_to_string()
    }
}

impl SubscribeTopicPayloadLens {
    /// The text is made afresh: what a widget writes to it does not reach the subscription.
    pub fn get(&self, data: &SubscribeTopic) -> (r: AString)
        ensures
            r@ == payload_ty_text(data.payload_ty),
    {
        data.payload_ty.to_arc_string()
    }
}

impl SubscribeHisPayloadLens {
    /// The text is made afresh: what a widget writes to it does not reach the entry.
    pub fn get(&self, data: &SubscribeHis) -> (r: AString)
        ensures
            r@ == payload_ty_text(data.payload_ty),
    {
        data.payload_ty.to_arc_string()
    }
}

impl LensQoSAString {
    /// The text is made afresh: what a widget writes to it does not reach the value.
    pub fn get(&self, data: &QoS) -> (r: AString)
        ensures
            r@ == qos_text(*data),
    {
        data.qos_to_string()
    }
}

} // verus!
