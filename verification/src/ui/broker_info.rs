//! The buttons under the settings of the selected broker.
use vstd::prelude::*;

use crate::data::common::Broker;
use crate::data::AppEvent;

verus! {

/// A button under the broker settings.
#[derive(Debug, Clone, Copy, PartialEq, Eq, Structural)]
pub enum SettingsButton {
    Save,
    Reconnect,
    Disconnect,
    Connect,
}

/// The buttons shown, in order: while the broker is connected, save, reconnect and
/// disconnect; otherwise save and connect.
pub open spec fn settings_buttons_of(connected: bool) -> Seq<SettingsButton> {
    if connected {
        seq![SettingsButton::Save, SettingsButton::Reconnect, SettingsButton::Disconnect]
    } else {
        seq![SettingsButton::Save, SettingsButton::Connect]
    }
}

/// The buttons shown under the settings of `broker`.
pub fn settings_buttons(broker: &Broker) -> (b: Vec<SettingsButton>)
    ensures
        b@ == settings_buttons_of(broker.tab_status.connected),
{
    if broker.tab_status.connected {
        vec![SettingsButton::Save, SettingsButton::Reconnect, SettingsButton::Disconnect]
    } else {
        vec![SettingsButton::Save, SettingsButton::Connect]
    }
}

/// What a click on a settings button sends; every button acts on the selected broker.
pub fn settings_button_event(button: SettingsButton) -> (e: AppEvent)
    ensures
        e == match button {
            SettingsButton::Save => AppEvent::TouchSaveBroker,
            SettingsButton::Reconnect => AppEvent::TouchReConnect,
            SettingsButton::Disconnect => AppEvent::TouchDisconnect,
            SettingsButton::Connect => AppEvent::TouchConnectBrokerSelected,
        },
{
    match button {
        SettingsButton::Save => AppEvent::TouchSaveBroker,
        SettingsButton::Reconnect => AppEvent::TouchReConnect,
        SettingsButton::Disconnect => AppEvent::TouchDisconnect,
        SettingsButton::Connect => AppEvent::TouchConnectBrokerSelected,
    }
}

} // verus!
