//! Descriptors: the leaves of the attribute tree.

use crate::gatt_server::driver::{DriverCall, DriverCallModel};
use crate::gatt_server::registration::Registration;
use crate::utilities::{AttributeControl, AttributePermissions, BleUuid, Callback, ControlModel};
use vstd::prelude::*;

verus! {

/// A descriptor of a characteristic.
#[derive(Debug)]
pub struct Descriptor {
    name: Option<String>,
    uuid: BleUuid,
    value: Vec<u8>,
    registration: Registration,
    permissions: AttributePermissions,
    control: AttributeControl,
    write_callback: Option<Callback>,
}

/// What a descriptor holds.
pub struct DescriptorModel {
    pub name: Option<Seq<char>>,
    pub uuid: BleUuid,
    pub value: Seq<u8>,
    pub registration: Registration,
    pub permissions: AttributePermissions,
    pub control: ControlModel,
    pub write_callback: Option<Callback>,
}

impl View for Descriptor {
    type V = DescriptorModel;

    closed spec fn view(&self) -> DescriptorModel {
        DescriptorModel {
            name: match self.name {
                Some(name) => Some(name@),
                None => None,
            },
            uuid: self.uuid,
            value: self.value@,
            registration: self.registration,
            permissions: self.permissions,
            control: self.control@,
            write_callback: self.write_callback,
        }
    }
}

impl DescriptorModel {
    /// A descriptor as it is declared: without a value, answered by the
    /// host stack, without a write handler, not registered.
    pub open spec fn declared(
        name: Seq<char>,
        uuid: BleUuid,
        permissions: AttributePermissions,
    ) -> DescriptorModel {
        DescriptorModel {
            name: Some(name),
            uuid,
            value: Seq::empty(),
            registration: Registration::Unregistered,
            permissions,
            control: ControlModel::AutomaticResponse(seq![0u8]),
            write_callback: None,
        }
    }

    /// Reads are handed to `callback`, provided that peers may read the
    /// descriptor at all. Where they may not, nothing changes.
    pub open spec fn with_read_callback(self, callback: Callback) -> DescriptorModel {
        if self.permissions.read_access {
            DescriptorModel { control: ControlModel::ResponseByApp(callback), ..self }
        } else {
            self
        }
    }

    /// Writes are handed to `callback`, provided that peers may write the
    /// descriptor at all. Where they may not, nothing changes.
    pub open spec fn with_write_callback(self, callback: Callback) -> DescriptorModel {
        if self.permissions.write_access {
            DescriptorModel { write_callback: Some(callback), ..self }
        } else {
            self
        }
    }

    pub open spec fn with_value(self, value: Seq<u8>) -> DescriptorModel {
        DescriptorModel { value, ..self }
    }

    /// The call that pushes the value to the host stack: owed once the
    /// descriptor has its handle, and not before.
    pub open spec fn value_update(self) -> Option<DriverCallModel> {
        match self.registration {
            Registration::Registered(handle) => Some(
                DriverCallModel::SetAttributeValue { handle, value: self.value },
            ),
            _ => None,
        }
    }

    /// The call that registers the descriptor with a service.
    pub open spec fn request(self, service_handle: u16) -> DriverCallModel {
        DriverCallModel::AddDescriptor {
            service_handle,
            uuid: self.uuid,
            permissions: self.permissions,
            value: self.value,
        }
    }

    /// The descriptor once its registration was asked for.
    pub open spec fn requested(self) -> DescriptorModel {
        DescriptorModel { registration: Registration::Requested, ..self }
    }

    /// The descriptor waits for a completion that names `uuid`.
    pub open spec fn awaits(self, uuid: BleUuid) -> bool {
        self.registration is Requested && self.uuid == uuid
    }

    /// The descriptor after the completion of its registration.
    pub open spec fn completed(self, ok: bool, handle: u16) -> DescriptorModel {
        DescriptorModel { registration: Registration::completed(ok, handle), ..self }
    }

    /// The descriptor answers to `handle`.
    pub open spec fn has_handle(self, handle: u16) -> bool {
        self.registration == Registration::Registered(handle)
    }
}

impl Descriptor {
    pub fn new(name: &str, uuid: BleUuid, permissions: AttributePermissions) -> (r: Self)
        ensures
            r@ == DescriptorModel::declared(name@, uuid, permissions),
    {
        let mut initial: Vec<u8> = Vec::new();
        initial.push(0u8);
        assert(initial@ =~= seq![0u8]);
        Self {
            name: Some(name.to_owned()),
            uuid,
            value: Vec::new(),
            registration: Registration::Unregistered,
            permissions,
            control: AttributeControl::AutomaticResponse(initial),
            write_callback: None,
        }
    }

    /// Hands reads to `callback`. A descriptor that peers may not read
    /// stays as it is.
    pub fn on_read(&mut self, callback: Callback) -> (r: &mut Self)
        ensures
            r@ == old(self)@.with_read_callback(callback),
            *final(self) == *final(r),
    {
        if self.permissions.read_access {
            self.control = AttributeControl::ResponseByApp(callback);
        }
        self
    }

    /// Hands writes to `callback`. A descriptor that peers may not write
    /// stays as it is.
    pub fn on_write(&mut self, callback: Callback) -> (r: &mut Self)
        ensures
            r@ == old(self)@.with_write_callback(callback),
            *final(self) == *final(r),
    {
        if self.permissions.write_access {
            self.write_callback = Some(callback);
        }
        self
    }

    /// Replaces the value. The result is the call that tells the host stack
    /// of it, owed where the descriptor is registered.
    pub fn set_value(&mut self, value: Vec<u8>) -> (call: Option<DriverCall>)
        ensures
            final(self)@ == old(self)@.with_value(value@),
            crate::gatt_server::driver::call_model(call) == final(self)@.value_update(),
    {
        self.value = value;
        match self.registration {
            Registration::Registered(handle) => Some(
                DriverCall::SetAttributeValue { handle, value: self.value.clone() },
            ),
            _ => None,
        }
    }

    /// Marks the descriptor as asked for and returns the call that
    /// registers it with the service `service_handle`.
    pub fn register_self(&mut self, service_handle: u16) -> (call: DriverCall)
        ensures
            final(self)@ == old(self)@.requested(),
            call@ == old(self)@.request(service_handle),
    {
        self.registration = Registration::Requested;
        DriverCall::AddDescriptor {
            service_handle,
            uuid: self.uuid,
            permissions: self.permissions,
            value: self.value.clone(),
        }
    }

    /// Records the completion of the registration: the handle where the
    /// host stack reports success, the failure where it does not.
    pub fn complete(&mut self, ok: bool, handle: u16)
        ensures
            final(self)@ == old(self)@.completed(ok, handle),
    {
        self.registration = if ok {
            Registration::Registered(handle)
        } else {
            Registration::Failed
        };
    }

    /// Whether the descriptor waits for a completion that names `uuid`.
    pub fn awaits(&self, uuid: &BleUuid) -> (r: bool)
        ensures
            r == self@.awaits(*uuid),
    {
        self.registration.is_requested() && self.uuid == *uuid
    }

    pub fn uuid(&self) -> (r: BleUuid)
        ensures
            r == self@.uuid,
    {
        self.uuid
    }

    pub fn registration(&self) -> (r: Registration)
        ensures
            r == self@.registration,
    {
        self.registration
    }

    /// The handle that the host stack has assigned, if it has.
    pub fn attribute_handle(&self) -> (r: Option<u16>)
        ensures
            r == self@.registration.handle(),
    {
        self.registration.assigned()
    }

    pub fn permissions(&self) -> (r: AttributePermissions)
        ensures
            r == self@.permissions,
    {
        self.permissions
    }

    pub fn value(&self) -> (r: &Vec<u8>)
        ensures
            r@ == self@.value,
    {
        &self.value
    }

    pub fn control(&self) -> (r: &AttributeControl)
        ensures
            r@ == self@.control,
    {
        &self.control
    }

    pub fn write_callback(&self) -> (r: Option<Callback>)
        ensures
            r == self@.write_callback,
    {
        self.write_callback
    }

    pub fn name(&self) -> (r: &Option<String>)
        ensures
            r matches Some(s) ==> self@.name == Some(s@),
            r is None ==> self@.name is None,
    {
        &self.name
    }
}

impl Clone for Descriptor {
    fn clone(&self) -> (r: Self)
        ensures
            r@ == self@,
    {
        Self {
            name: match &self.name {
                Some(name) => Some(name.clone()),
                None => None,
            },
            uuid: self.uuid,
            value: self.value.clone(),
            registration: self.registration,
            permissions: self.permissions,
            control: self.control.clone(),
            write_callback: self.write_callback,
        }
    }
}

} // verus!
