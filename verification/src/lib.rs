use vstd::prelude::*;

pub mod config;
pub mod data;
pub mod logic;
pub mod mqtt;
pub mod ui;
pub mod util;

verus! {

/// Why an input field was refused.
#[derive(Debug, Clone, Copy, PartialEq, Eq, Structural)]
pub enum ForError {
    /// A port is a number in 0..=65535.
    InvalidPort,
    /// A QoS is one of 0, 1, 2.
    InvalidQos,
    /// The field must not be empty.
    NotEmpty,
}

} // verus!
