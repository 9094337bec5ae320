use vstd::prelude::*;

use crate::data::common::{qos_text, QoS};
use crate::data::AString;

verus! {

/// The text a QoS level is shown as.
pub trait QosToString {
    fn qos_to_string(&self) -> AString;
}

impl QosToString for QoS {
    fn qos_to_string(&self) -> (s: AString)
        ensures
            s@ == qos_text(*self),
    {
        self.to_string()
    }
}

} // verus!
