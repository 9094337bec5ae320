//! The options a connection to a broker is made with, and what the connection reports back.
use vstd::prelude::*;

use for_mqtt_client::protocol::MqttOptions;

use crate::data::common::{Protocol, QoS, SignedTy};
use crate::data::db::BrokerDB;
use crate::data::{AString, AppEvent};
use crate::mqtt::data::{SomeMqttOption, SubscribeAck};

verus! {

/// How the connection is secured.
#[derive(Debug)]
pub enum TlsChoice {
    /// TLS, the broker's certificate checked against the system's authorities.
    Ca,
    /// TLS, the broker's certificate checked against the authority in this file.
    SelfSigned(AString),
}

/// Everything a connection to a broker is opened with.
#[derive(Debug)]
pub struct ConnectOptions {
    pub client_id: AString,
    pub addr: AString,
    pub port: u16,
    /// User name and password, where the broker uses credentials.
    pub credentials: Option<(AString, AString)>,
    /// seconds
    pub keep_alive: u16,
    pub clean_session: bool,
    pub max_incoming_packet_size: usize,
    pub max_outgoing_packet_size: usize,
    /// `None` for a plain connection.
    pub tls: Option<TlsChoice>,
    pub protocol: Protocol,
}

/// Why no connection options could be made.
#[derive(Debug, Clone, Copy, PartialEq, Eq, Structural)]
pub enum ConnectError {
    /// The client id is empty or starts with a space.
    InvalidClientId,
    /// The broker has no port.
    MissingPort,
}

/// A client id that the connection options accept: not empty, and not starting with a space.
pub open spec fn client_id_accepted(id: Seq<char>) -> bool {
    !(id.len() == 0 || id[0] == ' ')
}

/// Whether `MqttOptions::new` of for_mqtt_client accepts the client id. Its source refuses
/// an id that is empty or starts with a space, and nothing else; host and port are not checked.
#[verifier::external_body]
fn options_accept(client_id: &str, addr: &str, port: u16) -> (ok: bool)
    ensures
        ok == client_id_accepted(client_id@),
{
    MqttOptions::new(client_id.to_string(), addr.to_string(), port).is_ok()
}

/// The TLS settings of the broker's record.
pub open spec fn tls_of(broker: BrokerDB) -> Option<TlsChoice> {
    if broker.tls {
        match broker.signed_ty {
            SignedTy::Ca => Some(TlsChoice::Ca),
            SignedTy::SelfSigned => Some(TlsChoice::SelfSigned(broker.self_signed_ca)),
        }
    } else {
        None
    }
}

/// `o` is what a connection to `broker` with the options `some` is opened with.
pub open spec fn options_of(o: ConnectOptions, broker: BrokerDB, some: SomeMqttOption) -> bool {
    &&& o.client_id@ == broker.client_id@
    &&& o.addr@ == broker.addr@
    &&& broker.port == Some(o.port)
    &&& (if broker.use_credentials {
        o.credentials matches Some((u, p)) && u@ == broker.user_name@ && p@ == broker.password@
    } else {
        o.credentials is None
    })
    &&& o.keep_alive == some.keep_alive
    &&& o.clean_session == some.clean_session
    &&& o.max_incoming_packet_size == some.max_incoming_packet_size
    &&& o.max_outgoing_packet_size == some.max_outgoing_packet_size
    &&& match (o.tls, tls_of(broker)) {
        (None, None) => true,
        (Some(TlsChoice::Ca), Some(TlsChoice::Ca)) => true,
        (Some(TlsChoice::SelfSigned(f)), Some(TlsChoice::SelfSigned(g))) => f@ == g@,
        _ => false,
    }
    &&& o.protocol == broker.protocol
}

/// Takes over the options written in the broker's settings.
fn update_option(option: &mut ConnectOptions, some: SomeMqttOption)
    ensures
        final(option).clean_session == some.clean_session,
        final(option).max_incoming_packet_size == some.max_incoming_packet_size,
        final(option).max_outgoing_packet_size == some.max_outgoing_packet_size,
        final(option).keep_alive == some.keep_alive,
        final(option).client_id == old(option).client_id,
        final(option).addr == old(option).addr,
        final(option).port == old(option).port,
        final(option).credentials == old(option).credentials,
        final(option).tls == old(option).tls,
        final(option).protocol == old(option).protocol,
{
    option.clean_session = some.clean_session;
    option.max_incoming_packet_size = some.max_incoming_packet_size;
    option.max_outgoing_packet_size = some.max_outgoing_packet_size;
    option.keep_alive = some.keep_alive;
}

/// Secures the connection where the broker uses TLS.
fn update_tls_option(option: &mut ConnectOptions, broker: &BrokerDB)
    ensures
        match (final(option).tls, tls_of(*broker)) {
            (None, None) => true,
            (Some(TlsChoice::Ca), Some(TlsChoice::Ca)) => true,
            (Some(TlsChoice::SelfSigned(f)), Some(TlsChoice::SelfSigned(g))) => f@ == g@,
            _ => false,
        },
        final(option).client_id == old(option).client_id,
        final(option).addr == old(option).addr,
        final(option).port == old(option).port,
        final(option).credentials == old(option).credentials,
        final(option).keep_alive == old(option).keep_alive,
        final(option).clean_session == old(option).clean_session,
        final(option).max_incoming_packet_size == old(option).max_incoming_packet_size,
        final(option).max_outgoing_packet_size == old(option).max_outgoing_packet_size,
        final(option).protocol == old(option).protocol,
{
    if broker.tls {
        option.tls = match broker.signed_ty {
            SignedTy::Ca => Some(TlsChoice::Ca),
            SignedTy::SelfSigned => Some(TlsChoice::SelfSigned(broker.self_signed_ca.clone())),
        };
    } else {
        option.tls = None;
    }
}

/// The options a connection to `broker` is opened with, given the options written in its
/// settings. A keep-alive under five seconds is refused by the connection options, which
/// stop the program on it; callers check it first.
pub fn connect_options(broker: &BrokerDB, some: SomeMqttOption) -> (r: Result<ConnectOptions, ConnectError>)
    requires
        some.keep_alive >= 5,
    ensures
        match r {
            Ok(o) => broker.port is Some && client_id_accepted(broker.client_id@) && options_of(o, *broker, some),
            Err(e) => {
                &&& broker.port is None ==> e == ConnectError::MissingPort
                &&& broker.port is Some ==> e == ConnectError::InvalidClientId
                    && !client_id_accepted(broker.client_id@)
            },
        },
{
    let port = match broker.port {
        Some(p) => p,
        None => return Err(ConnectError::MissingPort),
    };
    if !options_accept(broker.client_id.as_str(), broker.addr.as_str(), port) {
        return Err(ConnectError::InvalidClientId);
    }
    let credentials = if broker.use_credentials {
        Some((broker.user_name.clone(), broker.password.clone()))
    } else {
        None
    };
    let mut option = ConnectOptions {
        client_id: broker.client_id.clone(),
        addr: broker.addr.clone(),
        port,
        credentials,
        keep_alive: 60,
        clean_session: true,
        max_incoming_packet_size: 10 * 1024,
        max_outgoing_packet_size: 10 * 1024,
        tls: None,
        protocol: broker.protocol,
    };
    update_option(&mut option, some);
    update_tls_option(&mut option, broker);
    Ok(option)
}

/// What a connection to a broker reports.
#[derive(Debug)]
pub enum MqttNotice {
    /// The broker accepted the connection; whether it kept a session.
    ConnectSuccess(bool),
    /// The broker refused the connection, for this reason.
    ConnectFail(String),
    /// A message arrived: topic, payload and QoS.
    Publish(AString, Vec<u8>, QoS),
    /// A publish was acknowledged under this packet id.
    PublishSuccess(u32),
    PublishFail(String),
    /// A subscription was answered.
    SubscribeAck(SubscribeAck),
    SubscribeFail(String),
    /// An unsubscribe request was acknowledged under this packet id.
    UnsubscribeAck(u32),
    UnsubscribeFail(String),
    ConnectedErr(String),
    /// The connection ended.
    Disconnected,
}

/// The event a report of the connection of broker `id` becomes; failures of single
/// requests and the end of the connection become none, they are only logged.
pub fn notice_to_event(id: usize, notice: MqttNotice) -> (e: Option<AppEvent>)
    ensures
        match notice {
            MqttNotice::ConnectSuccess(_) => e == Some(AppEvent::ConnectAckSuccess(id)),
            MqttNotice::ConnectFail(reason) => e matches Some(AppEvent::ConnectAckFail(i, r))
                && i == id && r@ == reason@,
            MqttNotice::Publish(topic, payload, qos) => e matches Some(AppEvent::ReceivePublic(i, t, p, q))
                && i == id && t@ == topic@ && p@ == payload@ && q == qos,
            MqttNotice::PublishSuccess(pk) => e == Some(AppEvent::PubAck(id, pk)),
            MqttNotice::SubscribeAck(ack) => e matches Some(AppEvent::SubAck(i, a)) && i == id
                && a.id == ack.id && a.acks@ == ack.acks@,
            MqttNotice::UnsubscribeAck(pk) => e == Some(AppEvent::UnSubAck(id, pk)),
            _ => e is None,
        },
{
    match notice {
        MqttNotice::ConnectSuccess(_) => Some(AppEvent::ConnectAckSuccess(id)),
        MqttNotice::ConnectFail(reason) => Some(AppEvent::ConnectAckFail(id, reason)),
        MqttNotice::Publish(topic, payload, qos) => Some(AppEvent::ReceivePublic(id, topic, payload, qos)),
        MqttNotice::PublishSuccess(pk) => Some(AppEvent::PubAck(id, pk)),
        MqttNotice::SubscribeAck(ack) => Some(AppEvent::SubAck(id, ack)),
        MqttNotice::UnsubscribeAck(pk) => Some(AppEvent::UnSubAck(id, pk)),
        _ => None,
    }
}

} // verus!
