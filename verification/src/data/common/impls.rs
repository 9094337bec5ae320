use vstd::prelude::*;

use crate::data::common::{
    qos_text, Id, PayloadTy, PublicInput, PublicMsg, PublicStatus, QoS, SubscribeHis,
    SubscribeInput, SubscribeStatus, SubscribeTopic, payload_ty_text, same_subscription, topic_same,
    his_same,
};
use crate::data::AString;
use crate::util::consts::QosToString;
use crate::util::strings::from_lit;
use crate::util::topic::{match_topic, topic_matches};

verus! {

impl SubscribeTopic {
    /// A subscription being sent for what the user typed, traced by `packet_id`.
    pub fn from(val: SubscribeInput, packet_id: u32) -> (t: Self)
        ensures
            t.trace_id == packet_id,
            t.topic@ == val.topic@,
            t.qos@ == qos_text(val.qos),
            t.status == SubscribeStatus::SubscribeIng,
            t.payload_ty == val.payload_ty,
    {
        Self {
            trace_id: packet_id,
            topic: val.topic.clone(),
            qos: val.qos.qos_to_string(),
            status: SubscribeStatus::SubscribeIng,
            payload_ty: val.payload_ty,
        }
    }

    /// A subscription being sent again from the history, traced by `trace_id`.
    pub fn from_his(val: SubscribeHis, trace_id: u32) -> (t: Self)
        ensures
            t.trace_id == trace_id,
            t.topic@ == val.topic@,
            t.qos@ == qos_text(val.qos),
            t.status == SubscribeStatus::SubscribeIng,
            t.payload_ty == val.payload_ty,
    {
        Self {
            trace_id,
            topic: val.topic.clone(),
            qos: val.qos.qos_to_string(),
            status: SubscribeStatus::SubscribeIng,
            payload_ty: val.payload_ty,
        }
    }

    /// The same subscription: same topic filter and same QoS.
    pub fn is_equal(&self, other: &SubscribeTopic) -> (b: bool)
        ensures
            b == same_subscription(*self, *other),
    {
        self.topic == other.topic && self.qos == other.qos
    }

    /// The subscription's topic filter matches a topic.
    pub fn match_topic(&self, topic: &str) -> (b: bool)
        ensures
            b == topic_matches(self.topic@, topic@),
    {
        match_topic(self.topic.as_str(), topic)
    }

    /// A copy of the subscription.
    pub fn duplicate(&self) -> (t: SubscribeTopic)
        ensures
            topic_same(t, *self),
    {
        SubscribeTopic {
            trace_id: self.trace_id,
            topic: self.topic.clone(),
            qos: self.qos.clone(),
            status: self.status,
            payload_ty: self.payload_ty,
        }
    }

    pub fn is_sucess(&self) -> (b: bool)
        ensures
            b == (self.status == SubscribeStatus::SubscribeSuccess),
    {
        if self.status == SubscribeStatus::SubscribeSuccess {
            true
        } else {
            false
        }
    }
}

impl PublicMsg {
    /// A publish in progress of what the user typed, traced by `trace_id`, sent at `time`.
    pub fn from(val: PublicInput, trace_id: u32, time: AString) -> (m: Self)
        ensures
            m.trace_id == trace_id,
            m.topic@ == val.topic@,
            m.msg@ == val.msg@,
            m.qos@ == qos_text(val.qos),
            m.status == PublicStatus::Ing,
            m.payload_ty@ == payload_ty_text(val.payload_ty),
            m.time@ == time@,
    {
        Self {
            trace_id,
            topic: val.topic.clone(),
            msg: val.msg.clone(),
            qos: val.qos.qos_to_string(),
            status: PublicStatus::Ing,
            payload_ty: val.payload_ty.to_arc_string(),
            time,
        }
    }
}

impl SubscribeHis {
    /// A copy of the history entry.
    pub fn duplicate(&self) -> (h: SubscribeHis)
        ensures
            his_same(h, *self),
    {
        SubscribeHis {
            id: self.id,
            broker_id: self.broker_id,
            selected: self.selected,
            topic: self.topic.clone(),
            qos: self.qos,
            payload_ty: self.payload_ty,
        }
    }

    /// The history entry that a subscription typed by the user leaves, under identifier `id`.
    pub fn from_input(val: SubscribeInput, id: Id) -> (h: Self)
        ensures
            h.id == id,
            h.broker_id == val.broker_id,
            !h.selected,
            h.topic@ == val.topic@,
            h.qos == val.qos,
            h.payload_ty == val.payload_ty,
    {
        Self {
            id,
            broker_id: val.broker_id,
            selected: false,
            topic: val.topic.clone(),
            qos: val.qos,
            payload_ty: val.payload_ty,
        }
    }
}

impl SubscribeInput {
    /// The empty subscribe form of a broker.
    pub fn init(broker_id: usize) -> (i: Self)
        ensures
            i.broker_id == broker_id,
            i.topic@ == Seq::<char>::empty(),
            i.qos == QoS::AtMostOnce,
            i.payload_ty == PayloadTy::Text,
    {
        proof {
            reveal_strlit("");
        }
        Self {
            broker_id,
            topic: from_lit(""),
            qos: QoS::AtMostOnce,
            payload_ty: PayloadTy::default(),
        }
    }
}

} // verus!
