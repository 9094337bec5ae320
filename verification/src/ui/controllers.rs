//! What the window's controllers decide on an event; the window carries the decision out.
use vstd::prelude::*;

use crate::ui::formatter::{check_addr, check_no_empty, check_port, check_qos, port_of, qos_of};

verus! {

/// Keeps a message list scrolled to its end when asked to.
pub struct AutoScrollController;

/// Copies the text of a label or text box to the clipboard on a right double click.
pub struct RightClickToCopy;

/// What a controller does with an event.
#[derive(Debug, PartialEq, Eq)]
pub enum ControlAction {
    /// Hand the event on to the wrapped widget.
    Forward,
    /// Scroll the wrapped list to its last line; the event stops here.
    ScrollToEnd,
    /// Put this text on the clipboard; the event stops here.
    Copy(String),
    /// Nothing is done, and the event stops here.
    Drop,
}

/// What a list that scrolls itself is told.
#[derive(Debug, Clone, Copy, PartialEq, Eq, Structural)]
pub enum ScrollEvent {
    /// The command that asks the list to scroll to its end.
    AutoScroll,
    /// Any other command.
    OtherCommand,
    /// Anything that is not a command.
    Other,
}

impl AutoScrollController {
    /// The scroll command scrolls to the end; other commands are not handed on; anything
    /// else goes to the list.
    pub fn event(&self, event: ScrollEvent) -> (a: ControlAction)
        ensures
            a == match event {
                ScrollEvent::AutoScroll => ControlAction::ScrollToEnd,
                ScrollEvent::OtherCommand => ControlAction::Drop,
                ScrollEvent::Other => ControlAction::Forward,
            },
    {
        match event {
            ScrollEvent::AutoScroll => ControlAction::ScrollToEnd,
            ScrollEvent::OtherCommand => ControlAction::Drop,
            ScrollEvent::Other => ControlAction::Forward,
        }
    }
}

impl RightClickToCopy {
    /// `right_button_up` tells whether the event is the release of the right mouse button,
    /// `click_count` how many clicks in a row it ends (two for a double click), and `text` is
    /// what the wrapped widget shows. The second release of a right double click copies the
    /// text, unless it is empty; everything else goes on to the widget.
    pub fn event(&self, right_button_up: bool, click_count: u8, text: &str) -> (a: ControlAction)
        ensures
            right_button_up && click_count == 2 && text@.len() > 0 ==> (a matches ControlAction::Copy(t)
                && t@ == text@),
            !(right_button_up && click_count == 2 && text@.len() > 0) ==> a == ControlAction::Forward,
    {
        if right_button_up && click_count == 2 && !text.is_empty() {
            ControlAction::Copy(text.to_owned())
        } else {
            ControlAction::Forward
        }
    }
}

/// The check a text box's content must pass.
#[derive(Debug, Clone, Copy, PartialEq, Eq, Structural)]
pub enum FieldCheck {
    NoEmpty,
    Qos,
    Addr,
    Port,
}

/// Whether `text` passes the check.
pub open spec fn passes(check: FieldCheck, text: Seq<char>) -> bool {
    match check {
        FieldCheck::NoEmpty => text.len() > 0,
        FieldCheck::Qos => qos_of(text) is Ok,
        FieldCheck::Addr => text.len() > 0,
        FieldCheck::Port => port_of(text) is Ok,
    }
}

impl FieldCheck {
    pub fn check(&self, text: &str) -> (b: bool)
        ensures
            b == passes(*self, text@),
    {
        match self {
            FieldCheck::NoEmpty => check_no_empty(text),
            FieldCheck::Qos => check_qos(text),
            FieldCheck::Addr => check_addr(text),
            FieldCheck::Port => check_port(text),
        }
    }
}

/// What a text box reports while it is edited.
#[derive(Debug)]
pub enum TextBoxNotice {
    /// Editing began.
    Began,
    /// The text changed.
    Changed,
    /// The text is not valid yet; the message says why.
    PartiallyInvalid(String),
    /// The text is not valid; the message says why.
    Invalid(String),
    /// Editing was cancelled.
    Cancel,
    /// Editing finished.
    Complete,
    /// Anything else.
    Other,
}

/// What a text box's error display is told.
#[derive(Debug, PartialEq, Eq)]
pub enum ErrorCommand {
    /// Show this error.
    ShowError(String),
    /// Clear the error shown.
    ClearError,
    /// Editing of the text box began.
    EditBegan,
}

/// Turns what a text box reports into what its error display is told.
pub struct TextBoxErrorDelegate {
    /// The check the content must pass for an error to clear when editing ends.
    pub check: FieldCheck,
    /// Whether errors are also shown and cleared while the text is edited.
    pub sends_partial_errors: bool,
}

impl TextBoxErrorDelegate {
    pub fn new(check: FieldCheck) -> (d: Self)
        ensures
            d.check == check,
            !d.sends_partial_errors,
    {
        TextBoxErrorDelegate { check, sends_partial_errors: false }
    }

    pub fn sends_partial_errors(self, flag: bool) -> (d: Self)
        ensures
            d.check == self.check,
            d.sends_partial_errors == flag,
    {
        TextBoxErrorDelegate { check: self.check, sends_partial_errors: flag }
    }

    /// When editing begins the error clears; an invalid text shows its error, and a partly
    /// invalid one too where partial errors are sent, where a change then clears it; when
    /// editing ends the error clears if the text passes the check.
    pub fn event(&self, event: TextBoxNotice, current_text: &str) -> (c: Vec<ErrorCommand>)
        ensures
            match event {
                TextBoxNotice::Began => c@ == seq![ErrorCommand::ClearError, ErrorCommand::EditBegan],
                TextBoxNotice::Changed => c@ == if self.sends_partial_errors {
                    seq![ErrorCommand::ClearError]
                } else {
                    Seq::<ErrorCommand>::empty()
                },
                TextBoxNotice::PartiallyInvalid(err) => if self.sends_partial_errors {
                    c@.len() == 1 && (c@[0] matches ErrorCommand::ShowError(e) && e@ == err@)
                } else {
                    c@.len() == 0
                },
                TextBoxNotice::Invalid(err) => c@.len() == 1 && (c@[0] matches ErrorCommand::ShowError(e)
                    && e@ == err@),
                TextBoxNotice::Cancel | TextBoxNotice::Complete => c@ == if passes(self.check, current_text@) {
                    seq![ErrorCommand::ClearError]
                } else {
                    Seq::<ErrorCommand>::empty()
                },
                TextBoxNotice::Other => c@.len() == 0,
            },
    {
        let mut c: Vec<ErrorCommand> = Vec::new();
        match event {
            TextBoxNotice::Began => {
                c.push(ErrorCommand::ClearError);
                c.push(ErrorCommand::EditBegan);
            },
            TextBoxNotice::Changed => {
                if self.sends_partial_errors {
                    c.push(ErrorCommand::ClearError);
                }
            },
            TextBoxNotice::PartiallyInvalid(err) => {
                if self.sends_partial_errors {
                    c.push(ErrorCommand::ShowError(err));
                }
            },
            TextBoxNotice::Invalid(err) => {
                c.push(ErrorCommand::ShowError(err));
            },
            TextBoxNotice::Cancel | TextBoxNotice::Complete => {
                if self.check.check(current_text) {
                    c.push(ErrorCommand::ClearError);
                }
            },
            TextBoxNotice::Other => {},
        }
        c
    }
}

/// The error a text box's error display shows.
pub struct ErrorController {
    pub error: Option<String>,
}

impl ErrorController {
    pub fn new() -> (c: Self)
        ensures
            c.error is None,
    {
        ErrorController { error: None }
    }

    /// Shows or clears the error as told; `EditBegan` is not meant for it and changes nothing.
    pub fn event(&mut self, command: ErrorCommand)
        ensures
            match command {
                ErrorCommand::ShowError(e) => final(self).error == Some(e),
                ErrorCommand::ClearError => final(self).error is None,
                ErrorCommand::EditBegan => final(self).error == old(self).error,
            },
    {
        match command {
            ErrorCommand::ShowError(e) => {
                self.error = Some(e);
            },
            ErrorCommand::ClearError => {
                self.error = None;
            },
            ErrorCommand::EditBegan => {},
        }
    }
}

} // verus!
