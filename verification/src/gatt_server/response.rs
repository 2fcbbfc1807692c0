//! The answer to a read that the application has computed.

use crate::gatt_server::characteristic::CharacteristicModel;
use crate::gatt_server::driver::{DriverCall, DriverCallModel, ReadRequest, RESPONSE_FRAME};
use vstd::prelude::*;

verus! {

/// The frame that carries `value`: the value first, then zeroes up to the
/// size of a frame.
pub open spec fn frame_of(value: Seq<u8>) -> Seq<u8> {
    value + Seq::new((RESPONSE_FRAME - value.len()) as nat, |i: int| 0u8)
}

/// The call that answers `request` with `value`.
pub open spec fn response_to(request: ReadRequest, interface: u8, value: Seq<u8>) -> DriverCallModel {
    DriverCallModel::SendResponse {
        interface,
        conn_id: request.conn_id,
        trans_id: request.trans_id,
        handle: request.handle,
        length: value.len() as u16,
        frame: frame_of(value),
    }
}

/// Builds the call that answers `request` with the value that the read
/// handler has returned. A value must fit the frame.
pub fn read_response(request: &ReadRequest, interface: u8, value: &Vec<u8>) -> (call: DriverCall)
    requires
        value@.len() <= RESPONSE_FRAME,
    ensures
        call@ == response_to(*request, interface, value@),
{
    let mut frame: Vec<u8> = Vec::new();
    let mut i: usize = 0;
    while i < RESPONSE_FRAME
        invariant
            i <= RESPONSE_FRAME,
            value@.len() <= RESPONSE_FRAME,
            frame@.len() == i,
            forall|k: int| 0 <= k < i && k < value@.len() ==> frame@[k] == value@[k],
            forall|k: int| 0 <= k < i && k >= value@.len() ==> frame@[k] == 0u8,
        decreases RESPONSE_FRAME - i,
    {
        if i < value.len() {
            frame.push(value[i]);
        } else {
            frame.push(0u8);
        }
        i += 1;
    }
    assert(frame@ =~= frame_of(value@));
    DriverCall::SendResponse {
        interface,
        conn_id: request.conn_id,
        trans_id: request.trans_id,
        handle: request.handle,
        length: value.len() as u16,
        frame,
    }
}

/// Whether `value` fits a response frame.
pub fn fits_frame(value: &Vec<u8>) -> (r: bool)
    ensures
        r == (value@.len() <= RESPONSE_FRAME),
{
    value.len() <= RESPONSE_FRAME
}

/// The frame holds the value it was built from, and its length says how
/// much of the frame that is.
pub proof fn lemma_frame_holds_value(value: Seq<u8>)
    requires
        value.len() <= RESPONSE_FRAME,
    ensures
        frame_of(value).len() == RESPONSE_FRAME,
        frame_of(value).subrange(0, value.len() as int) == value,
        forall|i: int| value.len() <= i < RESPONSE_FRAME ==> frame_of(value)[i] == 0u8,
{
    assert(frame_of(value).subrange(0, value.len() as int) =~= value);
}

/// A value that a characteristic has taken comes back whole from the
/// next read: a read handler that returns the characteristic's value
/// leads to a response whose first `length` bytes are the bytes that were
/// set.
pub proof fn lemma_set_then_read(
    c: CharacteristicModel,
    value: Seq<u8>,
    request: ReadRequest,
    interface: u8,
)
    requires
        c.rejection(value) is None,
        value.len() <= RESPONSE_FRAME,
    ensures
        c.with_value(value).value == value,
        response_to(request, interface, c.with_value(value).value)
            matches DriverCallModel::SendResponse { length, frame, handle, .. } && length
            == value.len() && frame.subrange(0, length as int) == value && handle
            == request.handle,
{
    lemma_frame_holds_value(value);
}

} // verus!
