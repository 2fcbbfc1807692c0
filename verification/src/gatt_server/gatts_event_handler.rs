//! The events of the host stack that concern one profile.

use crate::gatt_server::driver::{
    creatable_steps, GattsEvent, Outcome, Reaction, ReactionModel,
};
use crate::gatt_server::profile::{Profile, ProfileModel};
use crate::gatt_server::registration::GATT_OK;
use vstd::prelude::*;

verus! {

impl ProfileModel {
    /// The profile after an event that came in on its interface, and the
    /// reaction to the event.
    ///
    /// A completion moves the registration on by one call. A read or a
    /// write changes nothing in the tree: it asks for the handlers of the
    /// attribute that it names. An acknowledgement of an indication is
    /// taken in and asks for nothing. Events of the connections and of
    /// the server as a whole are not for a profile.
    pub open spec fn react(self, interface: u8, event: GattsEvent) -> (ProfileModel, ReactionModel) {
        match event {
            GattsEvent::Register { status, app_id } => {
                if self.awaits(app_id) {
                    let (profile, call) = self.on_registered(status == GATT_OK, interface);
                    (profile, ReactionModel::progress(true, call))
                } else {
                    (self, ReactionModel::silent(Outcome::Unresolved))
                }
            },
            GattsEvent::Create { status, service_handle, service_uuid } => {
                let (profile, resolved, call) = self.on_service_created(
                    service_uuid,
                    status == GATT_OK,
                    service_handle,
                );
                (profile, ReactionModel::progress(resolved, call))
            },
            GattsEvent::Start { status, service_handle } => {
                let (profile, resolved, call) = self.on_service_started(
                    service_handle,
                    status == GATT_OK,
                );
                (profile, ReactionModel::progress(resolved, call))
            },
            GattsEvent::AddCharacteristic { status, attr_handle, service_handle, char_uuid } => {
                let (profile, resolved, call) = self.on_characteristic_added(
                    service_handle,
                    char_uuid,
                    status == GATT_OK,
                    attr_handle,
                );
                (profile, ReactionModel::progress(resolved, call))
            },
            GattsEvent::AddDescriptor { status, attr_handle, service_handle, descr_uuid } => {
                let (profile, resolved, call) = self.on_descriptor_added(
                    service_handle,
                    descr_uuid,
                    status == GATT_OK,
                    attr_handle,
                );
                (profile, ReactionModel::progress(resolved, call))
            },
            GattsEvent::Read(request) => {
                let (resolved, steps) = self.read_steps(request, interface);
                (self, ReactionModel::plan(resolved, steps))
            },
            GattsEvent::Write(write) => {
                let (resolved, steps) = self.write_steps(write@, interface);
                (self, ReactionModel::plan(resolved, steps))
            },
            GattsEvent::Confirm { .. } => (self, ReactionModel::silent(Outcome::Handled)),
            _ => (self, ReactionModel::silent(Outcome::Unhandled)),
        }
    }
}

impl Profile {
    /// Takes in an event that came in on the profile's interface, and
    /// returns the reaction to it.
    pub fn gatts_event_handler(&mut self, interface: u8, event: GattsEvent) -> (reaction: Reaction)
        ensures
            (final(self)@, reaction@) == old(self)@.react(interface, event),
            old(self)@.orderly() ==> final(self)@.orderly(),
            old(self)@.coherent() ==> final(self)@.coherent() && creatable_steps(reaction@.steps),
    {
        proof {
            if old(self)@.orderly() {
                crate::gatt_server::order::lemma_react_profile(old(self)@, interface, event);
            }
            if old(self)@.coherent() {
                crate::gatt_server::declaration::lemma_profile_coherent_kept(
                    old(self)@,
                    interface,
                    event,
                );
            }
        }
        match event {
            GattsEvent::Register { status, app_id } => {
                if self.awaits(app_id) {
                    let call = self.on_registered(status == GATT_OK, interface);
                    Reaction::progress(true, call)
                } else {
                    Reaction::silent(Outcome::Unresolved)
                }
            },
            GattsEvent::Create { status, service_handle, service_uuid } => {
                let (resolved, call) = self.on_service_created(
                    &service_uuid,
                    status == GATT_OK,
                    service_handle,
                );
                Reaction::progress(resolved, call)
            },
            GattsEvent::Start { status, service_handle } => {
                let (resolved, call) = self.on_start(service_handle, status == GATT_OK);
                Reaction::progress(resolved, call)
            },
            GattsEvent::AddCharacteristic { status, attr_handle, service_handle, char_uuid } => {
                let (resolved, call) = self.on_char_add(
                    service_handle,
                    &char_uuid,
                    status == GATT_OK,
                    attr_handle,
                );
                Reaction::progress(resolved, call)
            },
            GattsEvent::AddDescriptor { status, attr_handle, service_handle, descr_uuid } => {
                let (resolved, call) = self.on_char_add_descr(
                    service_handle,
                    &descr_uuid,
                    status == GATT_OK,
                    attr_handle,
                );
                Reaction::progress(resolved, call)
            },
            GattsEvent::Read(request) => {
                let (resolved, steps) = self.plan_read(request, interface);
                Reaction::plan(resolved, steps)
            },
            GattsEvent::Write(write) => {
                let (resolved, steps) = self.plan_write(write, interface);
                Reaction::plan(resolved, steps)
            },
            GattsEvent::Confirm { .. } => Reaction::silent(Outcome::Handled),
            _ => Reaction::silent(Outcome::Unhandled),
        }
    }
}

} // verus!
