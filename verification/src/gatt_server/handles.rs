//! Attributes with handles of their own.
//!
//! A request names its attribute by the handle, and the tree is searched
//! depth first for the first attribute that answers to it. The host stack
//! gives every attribute a handle of its own; where it has done so, the
//! first attribute under a handle is the only one, and the lemmas below
//! say what a read or a write of any attribute leads to.

use crate::gatt_server::characteristic::{answer_steps, deliver_steps, descriptor_at};
use crate::gatt_server::driver::{GattsEvent, ReactionModel, ReadRequest, StepModel, WriteRequest};
use crate::gatt_server::profile::{service_holding, ProfileModel};
use crate::gatt_server::service::characteristic_holding;
use crate::utilities::search::lemma_first_index_sound;
use crate::utilities::ControlModel;
use vstd::prelude::*;

verus! {

impl ProfileModel {
    /// The handle of the attribute at a place of the tree: of the
    /// characteristic `c` of the service `s` or, with `d`, of that
    /// characteristic's descriptor `d`. Where there is no such attribute,
    /// or it has no handle, there is none.
    pub open spec fn handle_at(self, s: int, c: int, d: Option<int>) -> Option<u16> {
        if 0 <= s < self.services.len() && 0 <= c < self.services[s].characteristics.len() {
            let characteristic = self.services[s].characteristics[c];
            match d {
                None => characteristic.registration.handle(),
                Some(d) => if 0 <= d < characteristic.descriptors.len() {
                    characteristic.descriptors[d].registration.handle()
                } else {
                    None
                },
            }
        } else {
            None
        }
    }

    /// No two attributes of the profile answer to one handle.
    pub open spec fn distinct_handles(self) -> bool {
        forall|s1: int, c1: int, d1: Option<int>, s2: int, c2: int, d2: Option<int>|
            (#[trigger] self.handle_at(s1, c1, d1)) is Some && self.handle_at(s1, c1, d1) == (
            #[trigger] self.handle_at(s2, c2, d2)) ==> s1 == s2 && c1 == c2 && d1 == d2
    }

    /// The way the attribute at a place is read.
    pub open spec fn control_at(self, s: int, c: int, d: Option<int>) -> ControlModel {
        match d {
            None => self.services[s].characteristics[c].control,
            Some(d) => self.services[s].characteristics[c].descriptors[d].control,
        }
    }

    /// The handler of writes of the attribute at a place, if it has one.
    pub open spec fn write_callback_at(self, s: int, c: int, d: Option<int>) -> Option<
        crate::utilities::Callback,
    > {
        match d {
            None => self.services[s].characteristics[c].write_callback,
            Some(d) => self.services[s].characteristics[c].descriptors[d].write_callback,
        }
    }
}

/// In a profile whose attributes have handles of their own, the search
/// for a handle finds the attribute that has it, wherever in the tree it
/// stands.
pub proof fn lemma_handle_finds_its_attribute(
    p: ProfileModel,
    s: int,
    c: int,
    d: Option<int>,
    handle: u16,
)
    requires
        p.distinct_handles(),
        p.handle_at(s, c, d) == Some(handle),
    ensures
        p.locate(handle) == Some(s),
        p.services[s].locate(handle) == Some(c),
        d is None ==> p.services[s].characteristics[c].has_handle(handle),
        d matches Some(j) ==> !p.services[s].characteristics[c].has_handle(handle)
            && p.services[s].characteristics[c].descriptor_by_handle(handle) == Some(j),
{
    let service = p.services[s];
    let characteristic = service.characteristics[c];
    // The characteristic: the handle is its own or that of the descriptor.
    lemma_first_index_sound(characteristic.descriptors, descriptor_at(handle));
    match d {
        None => {},
        Some(j) => {
            assert(descriptor_at(handle)(characteristic.descriptors[j]));
            if characteristic.has_handle(handle) {
                assert(p.handle_at(s, c, None) == Some(handle));
            }
            let found = characteristic.descriptor_by_handle(handle);
            assert(found is Some);
            assert(descriptor_at(handle)(characteristic.descriptors[found->0]));
            assert(p.handle_at(s, c, Some(found->0)) == Some(handle));
        },
    }
    assert(characteristic.holds(handle));
    // The service: the first characteristic that holds the handle.
    lemma_first_index_sound(service.characteristics, characteristic_holding(handle));
    assert(characteristic_holding(handle)(service.characteristics[c]));
    let at = service.locate(handle);
    assert(at is Some);
    lemma_holder_has_the_handle(p, s, at->0, handle);
    assert(at == Some(c));
    // The profile: the first service that holds the handle.
    lemma_first_index_sound(p.services, service_holding(handle));
    assert(service_holding(handle)(p.services[s]));
    let within = p.locate(handle);
    assert(within is Some);
    let other = p.services[within->0];
    assert(service_holding(handle)(other));
    lemma_first_index_sound(other.characteristics, characteristic_holding(handle));
    lemma_holder_has_the_handle(p, within->0, other.locate(handle)->0, handle);
}

/// A characteristic that holds a handle has an attribute with it.
proof fn lemma_holder_has_the_handle(p: ProfileModel, s: int, c: int, handle: u16)
    requires
        0 <= s < p.services.len(),
        0 <= c < p.services[s].characteristics.len(),
        p.services[s].characteristics[c].holds(handle),
    ensures
        exists|d: Option<int>| #[trigger] p.handle_at(s, c, d) == Some(handle),
{
    let characteristic = p.services[s].characteristics[c];
    if characteristic.has_handle(handle) {
        assert(p.handle_at(s, c, None) == Some(handle));
    } else {
        lemma_first_index_sound(characteristic.descriptors, descriptor_at(handle));
        let j = characteristic.descriptor_by_handle(handle)->0;
        assert(descriptor_at(handle)(characteristic.descriptors[j]));
        assert(p.handle_at(s, c, Some(j)) == Some(handle));
    }
}

/// In a profile whose attributes have handles of their own, a read of any
/// attribute leaves the profile as it is and asks for what the way the
/// attribute is read says: nothing where the host stack answers, so that
/// no handler runs and no response is sent, and exactly one run of the
/// application's handler, on this request, where the application answers.
pub proof fn lemma_read_reaches_its_attribute(
    p: ProfileModel,
    s: int,
    c: int,
    d: Option<int>,
    request: ReadRequest,
    interface: u8,
)
    requires
        p.distinct_handles(),
        p.handle_at(s, c, d) == Some(request.handle),
    ensures
        ({
            let subject = p.services[s].characteristics[c].registration.handle();
            let (after, reaction) = p.react(interface, GattsEvent::Read(request));
            &&& after == p
            &&& reaction == ReactionModel::plan(
                true,
                answer_steps(p.control_at(s, c, d), request, subject, interface),
            )
            &&& p.control_at(s, c, d) is AutomaticResponse ==> reaction.steps == Seq::<
                StepModel,
            >::empty()
            &&& p.control_at(s, c, d) matches ControlModel::ResponseByApp(callback)
                ==> reaction.steps == seq![
                StepModel::Read { callback, request, subject, interface },
            ]
            &&& d is None ==> subject == Some(request.handle)
        }),
{
    lemma_handle_finds_its_attribute(p, s, c, d, request.handle);
}

/// In a profile whose attributes have handles of their own, a write to
/// any attribute leaves the profile as it is and asks for the attribute's
/// write handler, if it has one, and then, where the peer wants a response
/// and the application answers reads of the attribute, for its read
/// handler.
pub proof fn lemma_write_reaches_its_attribute(
    p: ProfileModel,
    s: int,
    c: int,
    d: Option<int>,
    write: WriteRequest,
    interface: u8,
)
    requires
        p.distinct_handles(),
        p.handle_at(s, c, d) == Some(write.handle),
    ensures
        ({
            let subject = p.services[s].characteristics[c].registration.handle();
            let (after, reaction) = p.react(interface, GattsEvent::Write(write));
            &&& after == p
            &&& reaction == ReactionModel::plan(
                true,
                deliver_steps(
                    p.write_callback_at(s, c, d),
                    p.control_at(s, c, d),
                    write@,
                    subject,
                    interface,
                ),
            )
        }),
{
    lemma_handle_finds_its_attribute(p, s, c, d, write.handle);
}

/// In a profile whose attributes have handles of their own, a read of a
/// characteristic that the application answers for runs the read handler
/// once, and where the handler returns the characteristic's value, the
/// one response that is built from it carries that value whole: to the
/// peer and the transaction of the request, under the handle that was
/// read, with the length of the value and the value in its first bytes.
pub proof fn lemma_read_round_trip(
    p: ProfileModel,
    s: int,
    c: int,
    callback: crate::utilities::Callback,
    request: ReadRequest,
    interface: u8,
)
    requires
        p.distinct_handles(),
        p.handle_at(s, c, None) == Some(request.handle),
        p.services[s].characteristics[c].control == ControlModel::ResponseByApp(callback),
        p.services[s].characteristics[c].value.len() <= crate::gatt_server::driver::RESPONSE_FRAME,
    ensures
        ({
            let value = p.services[s].characteristics[c].value;
            let (after, reaction) = p.react(interface, GattsEvent::Read(request));
            &&& after == p
            &&& reaction.steps == seq![
                StepModel::Read { callback, request, subject: Some(request.handle), interface },
            ]
            &&& crate::gatt_server::response::response_to(request, interface, value)
                matches crate::gatt_server::driver::DriverCallModel::SendResponse {
                interface: through,
                conn_id,
                trans_id,
                handle,
                length,
                frame,
            } && through == interface && conn_id == request.conn_id && trans_id
                == request.trans_id && handle == request.handle && length == value.len()
                && frame.subrange(0, length as int) == value
        }),
{
    lemma_read_reaches_its_attribute(p, s, c, None, request, interface);
    crate::gatt_server::response::lemma_frame_holds_value(p.services[s].characteristics[c].value);
}

/// A read or a write changes nothing, whatever becomes of the handlers
/// that it asks for: the read that comes after it is answered as if the
/// one before had never been.
pub proof fn lemma_requests_leave_no_trace(
    p: ProfileModel,
    interface: u8,
    earlier: GattsEvent,
    later: GattsEvent,
)
    requires
        earlier is Read || earlier is Write,
    ensures
        p.react(interface, earlier).0 == p,
        p.react(interface, earlier).0.react(interface, later) == p.react(interface, later),
{
}

} // verus!
