//! What the subscribe and publish buttons of a connection tab decide on a click.
use vstd::prelude::*;

use crate::data::common::Broker;
use crate::data::AppEvent;
use crate::ForError;

verus! {

/// A text field of a connection tab that can show an error.
#[derive(Debug, Clone, Copy, PartialEq, Eq, Structural)]
pub enum InputField {
    /// The topic to subscribe to.
    SubscribeTopic,
    /// The topic to publish on.
    PublishTopic,
    /// The message to publish.
    PublishMsg,
}

/// What a text field is told.
#[derive(Debug, Clone, Copy, PartialEq, Eq, Structural)]
pub enum FieldCommand {
    /// Show this error on the field.
    ShowError(InputField, ForError),
    /// Clear the error the field shows.
    ClearError(InputField),
}

/// What a click on a button does: the commands to the fields, in order, and the event to
/// send, if any.
#[derive(Debug)]
pub struct ButtonClick {
    pub commands: Vec<FieldCommand>,
    pub event: Option<AppEvent>,
}

/// An empty field is told that it must be filled in; any other field has its error cleared.
pub open spec fn field_check(field: InputField, text: Seq<char>) -> FieldCommand {
    if text.len() == 0 {
        FieldCommand::ShowError(field, ForError::NotEmpty)
    } else {
        FieldCommand::ClearError(field)
    }
}

fn check_field(field: InputField, text: &str) -> (c: FieldCommand)
    ensures
        c == field_check(field, text@),
{
    if text.is_empty() {
        FieldCommand::ShowError(field, ForError::NotEmpty)
    } else {
        FieldCommand::ClearError(field)
    }
}

/// The subscribe button of the tab of `broker`: with an empty topic the topic field shows
/// that it must be filled in and nothing is sent; otherwise the field's error is cleared and
/// the subscription to the topic typed in is asked for.
pub fn subscribe_click(broker: &Broker) -> (c: ButtonClick)
    ensures
        c.commands@ == seq![field_check(InputField::SubscribeTopic, broker.subscribe_input.topic@)],
        c.event == (if broker.subscribe_input.topic@.len() == 0 {
            None
        } else {
            Some(AppEvent::TouchSubscribeByInput(broker.id))
        }),
{
    let topic = check_field(InputField::SubscribeTopic, broker.subscribe_input.topic.as_str());
    let event = if broker.subscribe_input.topic.as_str().is_empty() {
        None
    } else {
        Some(AppEvent::TouchSubscribeByInput(broker.id))
    };
    ButtonClick { commands: vec![topic], event }
}

/// The publish button of the tab of `broker`: the topic field and the message field each
/// show that they must be filled in where empty and have their error cleared otherwise; the
/// message is published only when neither is empty.
pub fn publish_click(broker: &Broker) -> (c: ButtonClick)
    ensures
        c.commands@ == seq![
            field_check(InputField::PublishTopic, broker.public_input.topic@),
            field_check(InputField::PublishMsg, broker.public_input.msg@),
        ],
        c.event == (if broker.public_input.topic@.len() == 0 || broker.public_input.msg@.len() == 0 {
            None
        } else {
            Some(AppEvent::TouchPublic(broker.id))
        }),
{
    let topic = check_field(InputField::PublishTopic, broker.public_input.topic.as_str());
    let msg = check_field(InputField::PublishMsg, broker.public_input.msg.as_str());
    let event = if broker.public_input.topic.as_str().is_empty() || broker.public_input.msg.as_str().is_empty() {
        None
    } else {
        Some(AppEvent::TouchPublic(broker.id))
    };
    ButtonClick { commands: vec![topic, msg], event }
}

/// The subscribe button of the tab of `broker` can be clicked only while the broker is
/// connected.
pub fn subscribe_enabled(broker: &Broker) -> (r: bool)
    ensures
        r == broker.tab_status.connected,
{
    broker.tab_status.connected
}

/// The publish button of the tab of `broker` can be clicked only while the broker is
/// connected.
pub fn publish_enabled(broker: &Broker) -> (r: bool)
    ensures
        r == broker.tab_status.connected,
{
    broker.tab_status.connected
}

} // verus!
