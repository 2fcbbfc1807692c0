//! How reads of an attribute are answered.

use vstd::prelude::*;

verus! {

/// Control byte: the host stack answers reads itself, from the value it holds.
pub const AUTO_RESPONSE: u8 = 1;

/// Control byte: the application answers reads.
pub const RESPONSE_BY_APP: u8 = 0;

/// The handler that the host of the library runs for a read or a write.
///
/// The library decides when a handler runs and with which arguments; the
/// handlers themselves live with the library's host, which finds them by
/// this value.
#[derive(Debug, Clone, Copy, PartialEq, Eq, Structural)]
pub enum Callback {
    /// A function of the application, under the number it was declared with.
    Application(u32),
    /// The durable record of what a peer has subscribed to.
    Subscription,
}

/// The way reads of an attribute are answered.
#[derive(Debug)]
pub enum AttributeControl {
    /// The application computes every answer.
    ResponseByApp(Callback),
    /// The host stack answers with the value it was given.
    AutomaticResponse(Vec<u8>),
}

/// `AttributeControl` with its value as a sequence.
pub enum ControlModel {
    ResponseByApp(Callback),
    AutomaticResponse(Seq<u8>),
}

impl View for AttributeControl {
    type V = ControlModel;

    open spec fn view(&self) -> ControlModel {
        match self {
            AttributeControl::ResponseByApp(callback) => ControlModel::ResponseByApp(*callback),
            AttributeControl::AutomaticResponse(value) => ControlModel::AutomaticResponse(value@),
        }
    }
}

impl ControlModel {
    /// The control byte that the host stack takes.
    pub open spec fn byte(self) -> u8 {
        match self {
            ControlModel::AutomaticResponse(_) => AUTO_RESPONSE,
            ControlModel::ResponseByApp(_) => RESPONSE_BY_APP,
        }
    }
}

impl AttributeControl {
    /// The control byte that the host stack takes.
    pub fn byte(&self) -> (r: u8)
        ensures
            r == self@.byte(),
    {
        match self {
            AttributeControl::AutomaticResponse(_) => AUTO_RESPONSE,
            AttributeControl::ResponseByApp(_) => RESPONSE_BY_APP,
        }
    }

    /// Whether the host stack answers reads by itself.
    pub fn is_automatic(&self) -> (r: bool)
        ensures
            r == (self@ is AutomaticResponse),
    {
        match self {
            AttributeControl::AutomaticResponse(_) => true,
            AttributeControl::ResponseByApp(_) => false,
        }
    }
}

impl Clone for AttributeControl {
    fn clone(&self) -> (r: Self)
        ensures
            r@ == self@,
    {
        match self {
            AttributeControl::ResponseByApp(callback) => AttributeControl::ResponseByApp(*callback),
            AttributeControl::AutomaticResponse(value) => AttributeControl::AutomaticResponse(
                value.clone(),
            ),
        }
    }
}

} // verus!
