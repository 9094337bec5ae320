//! The broker list and the subscription history beside it: the labels of a broker row and
//! what a click on a row or on an icon of the history sends.
use vstd::prelude::*;

use crate::data::common::{his_same, Broker, Protocol};
use crate::data::hierarchy::subscriptions::his_selected;
use crate::data::hierarchy::{first_index, lemma_first_index, lemma_first_index_none};
use crate::data::AppEvent;
use crate::ui::formatter::{decimal_text, push_decimal};
use crate::util::strings::{from_lit, push_char};

verus! {

/// The protocol label of a broker row: MQTT 3.1.1 shows as "v3", MQTT 5 as "v5".
pub open spec fn version_text(protocol: Protocol) -> Seq<char> {
    match protocol {
        Protocol::V4 => seq!['v', '3'],
        Protocol::V5 => seq!['v', '5'],
    }
}

/// The address label of a broker row: the address alone without a port, else the address,
/// a colon and the port in decimal.
pub open spec fn addr_text(addr: Seq<char>, port: Option<u16>) -> Seq<char> {
    match port {
        None => addr,
        Some(p) => addr.push(':') + decimal_text(p as nat),
    }
}

/// The protocol label of the row of `broker`.
pub fn version_label(broker: &Broker) -> (label: String)
    ensures
        label@ == version_text(broker.protocol),
{
    let label = match broker.protocol {
        Protocol::V4 => from_lit("v3"),
        Protocol::V5 => from_lit("v5"),
    };
    proof {
        reveal_strlit("v3");
        reveal_strlit("v5");
    }
    label
}

/// The address label of the row of `broker`.
pub fn addr_label(broker: &Broker) -> (label: String)
    ensures
        label@ == addr_text(broker.addr@, broker.port),
{
    let mut label = broker.addr.clone();
    match broker.port {
        None => {},
        Some(port) => {
            push_char(&mut label, ':');
            push_decimal(&mut label, port);
        },
    }
    label
}

/// A click on the row of `broker` in the broker list: the click is reported, and the event
/// handling tells a single click from a double click.
pub fn broker_row_click(broker: &Broker) -> (e: AppEvent)
    ensures
        e == AppEvent::TouchClickBroker(broker.id),
{
    AppEvent::TouchClickBroker(broker.id)
}

/// The subscribe icon of the history of `broker`: subscribes again to the first selected
/// history entry; with no entry selected nothing is sent.
pub fn his_subscribe_icon_click(broker: &Broker) -> (e: Option<AppEvent>)
    ensures
        match first_index(broker.subscribe_hises@, his_selected()) {
            Some(k) => e matches Some(AppEvent::TouchSubscribeFromHis(h)) && his_same(h, broker.subscribe_hises@[k]),
            None => e is None,
        },
{
    let len = broker.subscribe_hises.len();
    for i in 0..len
        invariant
            len == broker.subscribe_hises@.len(),
            forall|j: int| 0 <= j < i ==> !his_selected()(#[trigger] broker.subscribe_hises@[j]),
    {
        if broker.subscribe_hises[i].selected {
            proof {
                lemma_first_index(broker.subscribe_hises@, his_selected(), i as int);
            }
            return Some(AppEvent::TouchSubscribeFromHis(broker.subscribe_hises[i].duplicate()));
        }
    }
    proof {
        lemma_first_index_none(broker.subscribe_hises@, his_selected());
    }
    None
}

/// The remove icon of the history of `broker`: removes the broker's selected history entry.
pub fn his_remove_icon_click(broker: &Broker) -> (e: AppEvent)
    ensures
        e == AppEvent::TouchRemoveSubscribeHis(broker.id),
{
    AppEvent::TouchRemoveSubscribeHis(broker.id)
}

} // verus!
