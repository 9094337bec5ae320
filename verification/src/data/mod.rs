use vstd::prelude::*;

pub mod common;
pub mod db;
pub mod hierarchy;
pub mod lens;

use crate::data::common::{QoS, SubscribeHis, SubscribeTopic};
use crate::data::db::BrokerDB;
use crate::mqtt::data::{MqttPublicInput, SubscribeAck};
use crate::util::db::DbWrite;

verus! {

/// A shared text value of the application state.
pub type AString = String;

/// What happens in the application: touches in the user interface, replies of the brokers,
/// and requests to the connection worker and the window.
#[derive(Debug)]
pub enum AppEvent {
    /// Add a broker.
    TouchAddBroker,
    /// Edit the selected broker.
    TouchEditBrokerSelected,
    /// Connect the selected broker.
    TouchConnectBrokerSelected,
    /// Delete the selected broker.
    TouchDeleteBrokerSelected,
    /// Save the selected broker.
    TouchSaveBroker,
    /// Reconnect the selected broker.
    TouchReConnect,
    /// Disconnect the selected broker.
    TouchDisconnect,
    /// A click on a broker of the list.
    TouchClickBroker(usize),
    /// A double click on a broker of the list.
    TouchDbClickBroker(usize),
    /// A click on a broker tab.
    TouchClickTab(usize),
    /// Close a broker tab.
    TouchCloseBrokerTab(usize),
    /// Subscribe to what the subscribe form of a broker holds.
    TouchSubscribeByInput(usize),
    /// Subscribe again to a history entry.
    TouchSubscribeFromHis(SubscribeHis),
    /// A click on a history entry.
    TouchClickSubscribeHis(SubscribeHis),
    /// The double-click time of a click on a broker has passed.
    DbClickCheck(usize),
    /// The double-click time of a click on a history entry has passed.
    DbClickCheckSubscribeHis(SubscribeHis),
    /// Remove the selected history entry of a broker.
    TouchRemoveSubscribeHis(usize),
    /// Unsubscribe a subscription of a broker.
    TouchUnSubscribe { broker_id: usize, trace_id: u32 },
    /// Publish what the publish form of a broker holds.
    TouchPublic(usize),
    /// Clear the messages of a broker.
    TouchClearMsg(usize),
    /// Connect to a broker with these settings.
    ToConnect(BrokerDB),
    /// Close the connection of a broker.
    ToDisconnect(usize),
    /// Send a subscription to a broker.
    ToSubscribe(usize, SubscribeTopic),
    /// Send an unsubscribe request to a broker.
    ToUnsubscribeIng(EventUnSubscribe),
    /// Send a publish to a broker.
    ToPublish(MqttPublicInput),
    /// The unsubscribe request for a subscription went out under a packet id.
    UnSubscribeIng { broker_id: usize, subscribe_pk_id: u32, unsubscribe_pk_id: u32 },
    /// A broker accepted the connection.
    ConnectAckSuccess(usize),
    /// A broker refused the connection.
    ConnectAckFail(usize, AString),
    /// A broker acknowledged a publish.
    PubAck(usize, u32),
    /// A broker answered a subscription.
    SubAck(usize, SubscribeAck),
    /// A broker acknowledged an unsubscribe request.
    UnSubAck(usize, u32),
    /// A message arrived from a broker: topic, payload and QoS.
    ReceivePublic(usize, AString, Vec<u8>, QoS),
    /// The connection of a broker ended.
    ClientDisconnect(usize),
    /// Scroll the subscription list to its end.
    UpdateScrollSubscribeWin,
    /// Scroll the message list to its end.
    UpdateScrollMsgWin,
    /// Bring the broker tab at this position to the front.
    UpdateToSelectTabs(usize),
    /// Show a text in the status bar.
    UpdateStatusBar(String),
}

/// An unsubscribe request to send.
#[derive(Debug, Clone)]
pub struct EventUnSubscribe {
    pub broke_id: usize,
    pub subscribe_pk_id: u32,
    pub topic: String,
}

/// Something that a change of the application state asks the outside world to do.
#[derive(Debug)]
pub enum Effect {
    /// Hand an event to the worker that talks to the brokers and the window.
    Send(AppEvent),
    /// Write to the broker store.
    Store(DbWrite),
    /// Hand this event to the worker once the double-click time has passed.
    Later(AppEvent),
    /// Carry out this request to a broker or to the window.
    Perform(AppEvent),
}

} // verus!
