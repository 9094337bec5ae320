use vstd::prelude::*;

use crate::data::common::{QoS, SubscribeHis, SubscribeInput};
use crate::data::AString;

verus! {

/// A publish to send.
#[derive(Debug)]
pub struct MqttPublicInput {
    pub broker_id: usize,
    pub trace_id: u32,
    pub topic: AString,
    pub msg: Vec<u8>,
    pub qos: QoS,
    pub retain: bool,
}

/// A subscription to send.
#[derive(Debug)]
pub struct MqttSubscribeInput {
    pub topic: String,
    pub qos: QoS,
}

impl MqttSubscribeInput {
    /// What the subscribe form asks for; it is always sent with QoS 1.
    pub fn from_input(val: SubscribeInput) -> (m: Self)
        ensures
            m.topic@ == val.topic@,
            m.qos == QoS::AtLeastOnce,
    {
        Self { topic: val.topic.clone(), qos: QoS::AtLeastOnce }
    }

    /// What a history entry asks for.
    pub fn from_his(val: SubscribeHis) -> (m: Self)
        ensures
            m.topic@ == val.topic@,
            m.qos == val.qos,
    {
        Self { topic: val.topic.clone(), qos: val.qos }
    }
}

/// How a broker answered one topic of a subscription.
#[derive(Debug, Clone, Copy, PartialEq, Eq, Structural)]
pub enum SubscribeReasonCode {
    QoS0,
    QoS1,
    QoS2,
    Failure,
    Unspecified,
    ImplementationSpecific,
    NotAuthorized,
    TopicFilterInvalid,
    PkidInUse,
    QuotaExceeded,
    SharedSubscriptionsNotSupported,
    SubscriptionIdNotSupported,
    WildcardSubscriptionsNotSupported,
}

/// A broker's answer to a subscription: its packet id and one code per topic.
#[derive(Debug, Clone)]
pub struct SubscribeAck {
    pub id: u32,
    pub acks: Vec<SubscribeReasonCode>,
}

/// The connection options of a broker, as its settings write them.
#[derive(Debug, Clone, Copy, PartialEq, Eq, Structural)]
pub struct SomeMqttOption {
    /// seconds
    pub keep_alive: u16,
    pub clean_session: bool,
    pub max_incoming_packet_size: usize,
    pub max_outgoing_packet_size: usize,
    pub inflight: u16,
    /// seconds
    pub conn_timeout: u64,
}

impl Default for SomeMqttOption {
    fn default() -> (o: Self)
        ensures
            o == (SomeMqttOption {
                keep_alive: 60,
                clean_session: true,
                max_incoming_packet_size: 10240,
                max_outgoing_packet_size: 10240,
                inflight: 100,
                conn_timeout: 5,
            }),
    {
        Self {
            keep_alive: 60,
            clean_session: true,
            max_incoming_packet_size: 10 * 1024,
            max_outgoing_packet_size: 10 * 1024,
            inflight: 100,
            conn_timeout: 5,
        }
    }
}

} // verus!
