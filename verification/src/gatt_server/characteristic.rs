//! Characteristics: a value, the way it is read and written, and the
//! descriptors that belong to it.

use crate::gatt_server::descriptor::{Descriptor, DescriptorModel};
use crate::gatt_server::driver::{
    call_model, step_models, DriverCall, DriverCallModel, ReadRequest, Step, StepModel,
    WriteRequest, WriteRequestModel,
};
use crate::gatt_server::error::ConfigurationError;
use crate::gatt_server::registration::Registration;
use crate::utilities::search::{first_index, lemma_first_index_absent, lemma_first_index_found};
use crate::utilities::{
    AttributeControl, AttributePermissions, BleUuid, Callback, CharacteristicProperties,
    Connection, ControlModel,
};
use vstd::prelude::*;

verus! {

/// The longest value that any attribute can hold.
pub const MAX_ATTRIBUTE_LENGTH: usize = 0xFFFF;

/// A characteristic of a service.
#[derive(Debug)]
pub struct Characteristic {
    /// A name for the characteristic, for its user description.
    name: Option<String>,
    uuid: BleUuid,
    /// The handler of writes, if there is one.
    write_callback: Option<Callback>,
    descriptors: Vec<Descriptor>,
    permissions: AttributePermissions,
    properties: CharacteristicProperties,
    /// The value, the way it is read and how far the registration has
    /// come: the three that have to fit together.
    held: Holding,
    /// The longest value that the characteristic can take once it is
    /// registered.
    max_value_length: u16,
}

/// The value of a characteristic with the way it is read and the state of
/// the registration. Every `Holding` is coherent: the type sees to it.
#[derive(Debug)]
struct Holding {
    registration: Registration,
    /// The way the characteristic is read.
    control: AttributeControl,
    /// The value of the characteristic as the library last saw it.
    value: Vec<u8>,
}

impl Holding {
    #[verifier::type_invariant]
    spec fn well_formed(self) -> bool {
        coherent_parts(self.registration, self.control@, self.value@)
    }
}

/// What holds of the value of every characteristic: it fits an attribute,
/// and where the host stack answers reads by itself, it answers with this
/// value. Until the registration is asked for such a value is not empty:
/// the stack cannot create an attribute that it answers for without a
/// value to answer with.
pub open spec fn coherent_parts(
    registration: Registration,
    control: ControlModel,
    value: Seq<u8>,
) -> bool {
    &&& value.len() <= MAX_ATTRIBUTE_LENGTH
    &&& control matches ControlModel::AutomaticResponse(served) ==> served == value && (
    registration is Unregistered ==> value.len() > 0)
}

/// What a characteristic holds.
pub struct CharacteristicModel {
    pub name: Option<Seq<char>>,
    pub uuid: BleUuid,
    pub write_callback: Option<Callback>,
    pub descriptors: Seq<DescriptorModel>,
    pub registration: Registration,
    pub permissions: AttributePermissions,
    pub properties: CharacteristicProperties,
    pub control: ControlModel,
    pub value: Seq<u8>,
    pub max_value_length: u16,
}

impl View for Characteristic {
    type V = CharacteristicModel;

    closed spec fn view(&self) -> CharacteristicModel {
        CharacteristicModel {
            name: match self.name {
                Some(name) => Some(name@),
                None => None,
            },
            uuid: self.uuid,
            write_callback: self.write_callback,
            descriptors: self.descriptors@.map_values(|d: Descriptor| d@),
            registration: self.held.registration,
            permissions: self.permissions,
            properties: self.properties,
            control: self.held.control@,
            value: self.held.value@,
            max_value_length: self.max_value_length,
        }
    }
}

/// The descriptors that were not asked for yet.
pub open spec fn unregistered_descriptor() -> spec_fn(DescriptorModel) -> bool {
    |d: DescriptorModel| d.registration is Unregistered
}

/// The descriptors that wait for a completion that names `uuid`.
pub open spec fn awaiting_descriptor(uuid: BleUuid) -> spec_fn(DescriptorModel) -> bool {
    |d: DescriptorModel| d.awaits(uuid)
}

/// The descriptors that answer to `handle`.
pub open spec fn descriptor_at(handle: u16) -> spec_fn(DescriptorModel) -> bool {
    |d: DescriptorModel| d.has_handle(handle)
}

/// The descriptors with this identifier.
pub open spec fn descriptor_named(uuid: BleUuid) -> spec_fn(DescriptorModel) -> bool {
    |d: DescriptorModel| d.uuid == uuid
}

impl CharacteristicModel {
    /// A characteristic as it is declared: one zero byte for a value,
    /// answered by the host stack, at most eight bytes long, without
    /// descriptors or a write handler, not registered.
    pub open spec fn declared(
        name: Seq<char>,
        uuid: BleUuid,
        permissions: AttributePermissions,
        properties: CharacteristicProperties,
    ) -> CharacteristicModel {
        CharacteristicModel {
            name: Some(name),
            uuid,
            write_callback: None,
            descriptors: Seq::empty(),
            registration: Registration::Unregistered,
            permissions,
            properties,
            control: ControlModel::AutomaticResponse(seq![0u8]),
            value: seq![0u8],
            max_value_length: 8,
        }
    }

    /// What holds of every characteristic: the value fits an attribute,
    /// and where the host stack answers reads by itself, it answers with
    /// the characteristic's value, which is not empty as long as the
    /// registration was not asked for.
    pub open spec fn coherent(self) -> bool {
        coherent_parts(self.registration, self.control, self.value)
    }

    /// The host stack can create the characteristic: it is not asked to
    /// answer reads by itself without a value to answer with.
    pub open spec fn registrable(self) -> bool {
        self.control is AutomaticResponse ==> self.value.len() > 0
    }

    pub open spec fn with_descriptor(self, descriptor: DescriptorModel) -> CharacteristicModel {
        CharacteristicModel { descriptors: self.descriptors.push(descriptor), ..self }
    }

    /// The characteristic with one more descriptor, which holds its name.
    pub open spec fn with_name_shown(self) -> CharacteristicModel {
        match self.name {
            Some(name) => self.with_descriptor(DescriptorModel::user_description(name)),
            None => self,
        }
    }

    pub open spec fn with_value_length(self, length: u16) -> CharacteristicModel {
        CharacteristicModel { max_value_length: length, ..self }
    }

    /// Peers may read the characteristic: it announces so and permits it.
    pub open spec fn readable(self) -> bool {
        self.properties.read && self.permissions.read_access
    }

    /// Peers may write the characteristic: it announces so, with or
    /// without a response, and permits it.
    pub open spec fn writable(self) -> bool {
        (self.properties.write || self.properties.write_without_response)
            && self.permissions.write_access
    }

    /// Reads are handed to `callback`, provided that peers may read the
    /// characteristic at all. Where they may not, nothing changes.
    pub open spec fn with_read_callback(self, callback: Callback) -> CharacteristicModel {
        if self.readable() {
            CharacteristicModel { control: ControlModel::ResponseByApp(callback), ..self }
        } else {
            self
        }
    }

    /// Writes are handed to `callback`, provided that peers may write the
    /// characteristic at all. Where they may not, nothing changes.
    pub open spec fn with_write_callback(self, callback: Callback) -> CharacteristicModel {
        if self.writable() {
            CharacteristicModel { write_callback: Some(callback), ..self }
        } else {
            self
        }
    }

    /// Why the characteristic cannot take `value`, if it cannot. Before
    /// the registration is asked for, an empty value is refused, and so is
    /// one that fits no attribute. From then on the value must fit the
    /// length that was registered, and may be empty.
    pub open spec fn rejection(self, value: Seq<u8>) -> Option<ConfigurationError> {
        if self.registration is Unregistered {
            if value.len() == 0 {
                Some(ConfigurationError::MissingValue)
            } else if value.len() > MAX_ATTRIBUTE_LENGTH {
                Some(ConfigurationError::ValueTooLong)
            } else {
                None
            }
        } else if value.len() > self.max_value_length {
            Some(ConfigurationError::ValueTooLong)
        } else {
            None
        }
    }

    /// The characteristic with `value` for its value, answered by the host
    /// stack. Before registration the value also sets the longest length.
    pub open spec fn with_value(self, value: Seq<u8>) -> CharacteristicModel {
        CharacteristicModel {
            value,
            control: ControlModel::AutomaticResponse(value),
            max_value_length: if self.registration is Unregistered {
                value.len() as u16
            } else {
                self.max_value_length
            },
            ..self
        }
    }

    /// The call that pushes the value to the host stack: owed once the
    /// characteristic has its handle, and not before.
    pub open spec fn value_update(self) -> Option<DriverCallModel> {
        match self.registration {
            Registration::Registered(handle) => Some(
                DriverCallModel::SetAttributeValue { handle, value: self.value },
            ),
            _ => None,
        }
    }

    /// The call that registers the characteristic with a service.
    pub open spec fn request(self, service_handle: u16) -> DriverCallModel {
        DriverCallModel::AddCharacteristic {
            service_handle,
            uuid: self.uuid,
            permissions: self.permissions,
            properties: self.properties,
            max_length: self.max_value_length,
            value: self.value,
            control: self.control.byte(),
        }
    }

    /// The characteristic once its registration was asked for.
    pub open spec fn requested(self) -> CharacteristicModel {
        CharacteristicModel { registration: Registration::Requested, ..self }
    }

    /// The characteristic waits for a completion that names `uuid`.
    pub open spec fn awaits(self, uuid: BleUuid) -> bool {
        self.registration is Requested && self.uuid == uuid
    }

    /// The characteristic answers to `handle`.
    pub open spec fn has_handle(self, handle: u16) -> bool {
        self.registration == Registration::Registered(handle)
    }

    /// The first descriptor that was not asked for yet.
    pub open spec fn next_descriptor(self) -> Option<int> {
        first_index(self.descriptors, unregistered_descriptor())
    }

    /// Asks for the first descriptor that was not asked for yet: it is
    /// marked, and the call that registers it is returned. Where every
    /// descriptor was asked for, nothing changes and nothing is returned.
    pub open spec fn advance(self, service_handle: u16) -> (
        CharacteristicModel,
        Option<DriverCallModel>,
    ) {
        match self.next_descriptor() {
            Some(j) => (
                CharacteristicModel {
                    descriptors: self.descriptors.update(j, self.descriptors[j].requested()),
                    ..self
                },
                Some(self.descriptors[j].request(service_handle)),
            ),
            None => (self, None),
        }
    }

    /// The completion of the characteristic's own registration. On success
    /// it takes the handle and its first descriptor is asked for; on
    /// failure it is marked and its descriptors are left alone.
    pub open spec fn on_added(self, ok: bool, handle: u16, service_handle: u16) -> (
        CharacteristicModel,
        Option<DriverCallModel>,
    ) {
        if ok {
            CharacteristicModel {
                registration: Registration::Registered(handle),
                ..self
            }.advance(service_handle)
        } else {
            (CharacteristicModel { registration: Registration::Failed, ..self }, None)
        }
    }

    /// The first descriptor that waits for a completion that names `uuid`.
    pub open spec fn awaiting(self, uuid: BleUuid) -> Option<int> {
        first_index(self.descriptors, awaiting_descriptor(uuid))
    }

    /// The completion of a descriptor's registration. It goes to the first
    /// descriptor of this characteristic that waits for one under `uuid`,
    /// and the next descriptor is asked for. Where no descriptor waits,
    /// nothing changes.
    pub open spec fn on_descriptor_added(
        self,
        uuid: BleUuid,
        ok: bool,
        handle: u16,
        service_handle: u16,
    ) -> (CharacteristicModel, Option<DriverCallModel>) {
        match self.awaiting(uuid) {
            Some(j) => CharacteristicModel {
                descriptors: self.descriptors.update(j, self.descriptors[j].completed(ok, handle)),
                ..self
            }.advance(service_handle),
            None => (self, None),
        }
    }

    /// The first descriptor that answers to `handle`.
    pub open spec fn descriptor_by_handle(self, handle: u16) -> Option<int> {
        first_index(self.descriptors, descriptor_at(handle))
    }

    /// The first descriptor with the identifier `uuid`.
    pub open spec fn descriptor_by_id(self, uuid: BleUuid) -> Option<int> {
        first_index(self.descriptors, descriptor_named(uuid))
    }

    /// `handle` names the characteristic or one of its descriptors.
    pub open spec fn holds(self, handle: u16) -> bool {
        self.has_handle(handle) || self.descriptor_by_handle(handle) is Some
    }

    /// What a read of `request.handle` asks of the host. The handle names
    /// the characteristic itself or, failing that, the first descriptor
    /// that answers to it. Where the application answers reads of that
    /// attribute, its handler is run; where the host stack does, or where
    /// nothing answers to the handle, there is nothing to do.
    pub open spec fn read_steps(self, request: ReadRequest, interface: u8) -> Seq<StepModel> {
        if self.has_handle(request.handle) {
            answer_steps(self.control, request, self.registration.handle(), interface)
        } else {
            match self.descriptor_by_handle(request.handle) {
                Some(j) => answer_steps(
                    self.descriptors[j].control,
                    request,
                    self.registration.handle(),
                    interface,
                ),
                None => Seq::empty(),
            }
        }
    }

    /// What a write to `write.handle` asks of the host. The write handler
    /// of the attribute is run, if it has one. Then, where the peer wants
    /// a response and the application answers reads of the attribute, the
    /// read handler is run on the read that stands in for the
    /// acknowledgement.
    pub open spec fn write_steps(self, write: WriteRequestModel, interface: u8) -> Seq<StepModel> {
        if self.has_handle(write.handle) {
            deliver_steps(self.write_callback, self.control, write, self.registration.handle(), interface)
        } else {
            match self.descriptor_by_handle(write.handle) {
                Some(j) => deliver_steps(
                    self.descriptors[j].write_callback,
                    self.descriptors[j].control,
                    write,
                    self.registration.handle(),
                    interface,
                ),
                None => Seq::empty(),
            }
        }
    }

    /// The way the characteristic pushes its value: `Some(true)` by
    /// indication, `Some(false)` by notification, `None` not at all. A
    /// characteristic that announces both indicates.
    pub open spec fn push_mode(self) -> Option<bool> {
        if self.properties.indicate {
            Some(true)
        } else if self.properties.notify {
            Some(false)
        } else {
            None
        }
    }

    /// What a change of the value under `handle` asks of the host: one
    /// conditional push for every connection, in the order of the
    /// connections, or nothing where the characteristic does not push.
    pub open spec fn publish_steps(
        self,
        interface: u8,
        handle: u16,
        connections: Seq<Connection>,
    ) -> Seq<StepModel> {
        match self.push_mode() {
            Some(indicate) => Seq::new(
                connections.len(),
                |i: int|
                    StepModel::Publish {
                        interface,
                        connection: connections[i],
                        handle,
                        value: self.value,
                        indicate,
                    },
            ),
            None => Seq::empty(),
        }
    }
}

/// While the host stack answers the reads of a characteristic, a read
/// yields the value that the characteristic was declared or last set
/// with: that value is what the stack is given when the characteristic
/// is registered, and no handler stands between the stack and the peer.
/// Until the registration is asked for the value is not empty, so the
/// stack can always create the characteristic.
pub proof fn lemma_automatic_read(
    c: CharacteristicModel,
    value: Seq<u8>,
    service_handle: u16,
    request: ReadRequest,
    interface: u8,
)
    requires
        c.coherent(),
        c.control == ControlModel::AutomaticResponse(value),
    ensures
        c.value == value,
        c.registration is Unregistered ==> value.len() > 0 && c.registrable(),
        c.request(service_handle) == (DriverCallModel::AddCharacteristic {
            service_handle,
            uuid: c.uuid,
            permissions: c.permissions,
            properties: c.properties,
            max_length: c.max_value_length,
            value,
            control: crate::utilities::AUTO_RESPONSE,
        }),
        c.has_handle(request.handle) ==> c.read_steps(request, interface) == Seq::<
            StepModel,
        >::empty(),
{
}

/// A characteristic as it is declared answers reads with one zero byte.
pub proof fn lemma_declared_coherent(
    name: Seq<char>,
    uuid: BleUuid,
    permissions: AttributePermissions,
    properties: CharacteristicProperties,
)
    ensures
        CharacteristicModel::declared(name, uuid, permissions, properties).coherent(),
        CharacteristicModel::declared(name, uuid, permissions, properties).control
            == ControlModel::AutomaticResponse(seq![0u8]),
{
}

/// Nothing that can be done to a characteristic makes it incoherent: a
/// value that is taken becomes the value that reads are answered with,
/// and everything else leaves the value alone.
pub proof fn lemma_coherent_kept(
    c: CharacteristicModel,
    value: Seq<u8>,
    callback: Callback,
    descriptor: DescriptorModel,
    length: u16,
    uuid: BleUuid,
    ok: bool,
    handle: u16,
    service_handle: u16,
)
    requires
        c.coherent(),
    ensures
        c.rejection(value) is None ==> c.with_value(value).coherent() && c.with_value(
            value,
        ).control == ControlModel::AutomaticResponse(value),
        c.with_read_callback(callback).coherent(),
        c.with_write_callback(callback).coherent(),
        c.with_descriptor(descriptor).coherent(),
        c.with_name_shown().coherent(),
        c.with_value_length(length).coherent(),
        c.requested().coherent(),
        c.advance(service_handle).0.coherent(),
        c.on_added(ok, handle, service_handle).0.coherent(),
        c.on_descriptor_added(uuid, ok, handle, service_handle).0.coherent(),
{
}

/// The step that answers a read of an attribute under `control`.
pub open spec fn answer_steps(
    control: ControlModel,
    request: ReadRequest,
    subject: Option<u16>,
    interface: u8,
) -> Seq<StepModel> {
    match control {
        ControlModel::ResponseByApp(callback) => seq![
            StepModel::Read { callback, request, subject, interface },
        ],
        ControlModel::AutomaticResponse(_) => Seq::empty(),
    }
}

/// The steps that deliver a write to an attribute with this write handler
/// and this control.
pub open spec fn deliver_steps(
    write_callback: Option<Callback>,
    control: ControlModel,
    write: WriteRequestModel,
    subject: Option<u16>,
    interface: u8,
) -> Seq<StepModel> {
    (match write_callback {
        Some(callback) => seq![StepModel::Write { callback, write, subject }],
        None => Seq::empty(),
    }) + (if write.need_rsp {
        answer_steps(control, write.as_read(), subject, interface)
    } else {
        Seq::empty()
    })
}

fn answer(
    control: &AttributeControl,
    request: ReadRequest,
    subject: Option<u16>,
    interface: u8,
    steps: &mut Vec<Step>,
)
    ensures
        step_models(final(steps)@) == step_models(old(steps)@) + answer_steps(
            control@,
            request,
            subject,
            interface,
        ),
{
    match control {
        AttributeControl::ResponseByApp(callback) => {
            let step = Step::Read { callback: *callback, request, subject, interface };
            steps.push(step);
            assert(step_models(steps@) =~= step_models(old(steps)@) + seq![step@]);
        },
        AttributeControl::AutomaticResponse(_) => {
            assert(step_models(steps@) =~= step_models(old(steps)@) + Seq::empty());
        },
    }
}

fn deliver(
    write_callback: Option<Callback>,
    control: &AttributeControl,
    write: WriteRequest,
    subject: Option<u16>,
    interface: u8,
) -> (steps: Vec<Step>)
    ensures
        step_models(steps@) == deliver_steps(write_callback, control@, write@, subject, interface),
{
    let mut steps: Vec<Step> = Vec::new();
    let need_rsp = write.need_rsp;
    let read = write.to_read();
    match write_callback {
        Some(callback) => {
            let step = Step::Write { callback, write, subject };
            steps.push(step);
            assert(step_models(steps@) =~= seq![step@]);
        },
        None => {
            assert(step_models(steps@) =~= Seq::empty());
        },
    }
    if need_rsp {
        answer(control, read, subject, interface, &mut steps);
    } else {
        assert(step_models(steps@) =~= step_models(steps@) + Seq::empty());
    }
    steps
}

impl Characteristic {
    pub fn new(
        name: &str,
        uuid: BleUuid,
        permissions: AttributePermissions,
        properties: CharacteristicProperties,
    ) -> (r: Self)
        ensures
            r@ == CharacteristicModel::declared(name@, uuid, permissions, properties),
            r@.coherent(),
    {
        let mut value: Vec<u8> = Vec::new();
        value.push(0u8);
        let mut served: Vec<u8> = Vec::new();
        served.push(0u8);
        assert(value@ =~= seq![0u8]);
        assert(served@ =~= seq![0u8]);
        let r = Self {
            name: Some(name.to_owned()),
            uuid,
            write_callback: None,
            descriptors: Vec::new(),
            permissions,
            properties,
            held: Holding {
                registration: Registration::Unregistered,
                control: AttributeControl::AutomaticResponse(served),
                value,
            },
            max_value_length: 8,
        };
        assert(r@.descriptors =~= Seq::empty());
        r
    }

    /// Adds a descriptor after those that the characteristic has.
    pub fn add_descriptor(&mut self, descriptor: Descriptor) -> (r: &mut Self)
        ensures
            r@ == old(self)@.with_descriptor(descriptor@),
            *final(self) == *final(r),
            r@.coherent(),
    {
        proof {
            use_type_invariant(&self.held);
        }
        self.descriptors.push(descriptor);
        assert(self@.descriptors =~= old(self)@.descriptors.push(descriptor@));
        self
    }

    /// Sets the longest value that the characteristic can take once it is
    /// registered. It is eight bytes unless this or `set_value` says
    /// otherwise.
    pub fn value_length(&mut self, length: u16) -> (r: &mut Self)
        ensures
            r@ == old(self)@.with_value_length(length),
            *final(self) == *final(r),
            r@.coherent(),
    {
        proof {
            use_type_invariant(&self.held);
        }
        self.max_value_length = length;
        self
    }

    /// Adds a "Characteristic User Description" descriptor that holds the
    /// name of the characteristic. A characteristic without a name stays
    /// as it is.
    pub fn show_name_as_descriptor(&mut self) -> (r: &mut Self)
        ensures
            r@ == old(self)@.with_name_shown(),
            *final(self) == *final(r),
            r@.coherent(),
    {
        proof {
            use_type_invariant(&self.held);
        }
        let described = match &self.name {
            Some(name) => Some(Descriptor::user_description(name.as_str())),
            None => None,
        };
        match described {
            Some(descriptor) => {
                self.descriptors.push(descriptor);
                assert(self@.descriptors =~= old(self)@.descriptors.push(descriptor@));
            },
            None => {},
        }
        self
    }

    /// Hands reads to `callback`. A characteristic that peers may not read
    /// stays as it is.
    pub fn on_read(&mut self, callback: Callback) -> (r: &mut Self)
        ensures
            r@ == old(self)@.with_read_callback(callback),
            *final(self) == *final(r),
            r@.coherent(),
    {
        proof {
            use_type_invariant(&self.held);
        }
        if self.properties.read && self.permissions.read_access {
            self.held.control = AttributeControl::ResponseByApp(callback);
        }
        self
    }

    /// Hands writes to `callback`. A characteristic that peers may not
    /// write stays as it is.
    pub fn on_write(&mut self, callback: Callback) -> (r: &mut Self)
        ensures
            r@ == old(self)@.with_write_callback(callback),
            *final(self) == *final(r),
            r@.coherent(),
    {
        proof {
            use_type_invariant(&self.held);
        }
        if (self.properties.write || self.properties.write_without_response)
            && self.permissions.write_access {
            self.write_callback = Some(callback);
        }
        self
    }

    /// Replaces the value, and has the host stack answer reads with it.
    ///
    /// A value that the characteristic cannot take is refused and nothing
    /// changes: an empty value before the registration is asked for, a
    /// value that is too long at any time. Otherwise the value is stored as
    /// it is given, and the result is the call that tells the host stack of
    /// it, owed where the characteristic has its handle.
    pub fn set_value(&mut self, value: Vec<u8>) -> (r: Result<Option<DriverCall>, ConfigurationError>)
        ensures
            final(self)@.coherent(),
            r is Err <==> old(self)@.rejection(value@) is Some,
            r matches Err(error) ==> old(self)@.rejection(value@) == Some(error) && final(self)@
                == old(self)@,
            r matches Ok(call) ==> final(self)@ == old(self)@.with_value(value@) && call_model(call)
                == final(self)@.value_update(),
    {
        proof {
            use_type_invariant(&self.held);
        }
        let length = value.len();
        let registration = self.held.registration;
        if registration.is_unregistered() {
            if length == 0 {
                return Err(ConfigurationError::MissingValue);
            }
            if length > MAX_ATTRIBUTE_LENGTH {
                return Err(ConfigurationError::ValueTooLong);
            }
            self.max_value_length = length as u16;
        } else if length > self.max_value_length as usize {
            return Err(ConfigurationError::ValueTooLong);
        }
        let served = value.clone();
        assert(served@ == value@);
        let pushed = match registration {
            Registration::Registered(handle) => {
                let pushed = value.clone();
                assert(pushed@ == value@);
                Some(DriverCall::SetAttributeValue { handle, value: pushed })
            },
            _ => None,
        };
        self.held = Holding {
            registration,
            control: AttributeControl::AutomaticResponse(served),
            value,
        };
        assert(self@ == old(self)@.with_value(value@));
        Ok(pushed)
    }

    /// Marks the characteristic as asked for and returns the call that
    /// registers it with the service `service_handle`.
    ///
    /// The host stack cannot create a characteristic that it is to answer
    /// for without a value to answer with: such a characteristic must not
    /// be registered. None that was not asked for yet is of that kind.
    pub fn register_self(&mut self, service_handle: u16) -> (call: DriverCall)
        requires
            old(self)@.registrable(),
        ensures
            final(self)@ == old(self)@.requested(),
            call@ == old(self)@.request(service_handle),
            call@ matches DriverCallModel::AddCharacteristic { value, control, .. } && (control
                == crate::utilities::AUTO_RESPONSE ==> value.len() > 0),
    {
        proof {
            use_type_invariant(&self.held);
        }
        self.held.registration = Registration::Requested;
        DriverCall::AddCharacteristic {
            service_handle,
            uuid: self.uuid,
            permissions: self.permissions,
            properties: self.properties,
            max_length: self.max_value_length,
            value: self.held.value.clone(),
            control: self.held.control.byte(),
        }
    }

    fn first_unregistered_descriptor(&self) -> (r: Option<usize>)
        ensures
            match r {
                Some(j) => self@.next_descriptor() == Some(j as int) && j < self@.descriptors.len(),
                None => self@.next_descriptor() is None,
            },
    {
        let mut j: usize = 0;
        while j < self.descriptors.len()
            invariant
                j <= self.descriptors.len(),
                forall|k: int| 0 <= k < j ==> !unregistered_descriptor()(#[trigger] self@.descriptors[k]),
            decreases self.descriptors.len() - j,
        {
            if self.descriptors[j].registration().is_unregistered() {
                proof {
                    lemma_first_index_found(self@.descriptors, unregistered_descriptor(), j as int);
                }
                return Some(j);
            }
            j += 1;
        }
        proof {
            lemma_first_index_absent(self@.descriptors, unregistered_descriptor());
        }
        None
    }

    fn first_awaiting_descriptor(&self, uuid: &BleUuid) -> (r: Option<usize>)
        ensures
            match r {
                Some(j) => self@.awaiting(*uuid) == Some(j as int) && j < self@.descriptors.len(),
                None => self@.awaiting(*uuid) is None,
            },
    {
        let mut j: usize = 0;
        while j < self.descriptors.len()
            invariant
                j <= self.descriptors.len(),
                forall|k: int| 0 <= k < j ==> !awaiting_descriptor(*uuid)(#[trigger] self@.descriptors[k]),
            decreases self.descriptors.len() - j,
        {
            if self.descriptors[j].awaits(uuid) {
                proof {
                    lemma_first_index_found(self@.descriptors, awaiting_descriptor(*uuid), j as int);
                }
                return Some(j);
            }
            j += 1;
        }
        proof {
            lemma_first_index_absent(self@.descriptors, awaiting_descriptor(*uuid));
        }
        None
    }

    /// The position of the first descriptor that answers to `handle`.
    pub fn get_descriptor_by_handle(&self, handle: u16) -> (r: Option<usize>)
        ensures
            match r {
                Some(j) => self@.descriptor_by_handle(handle) == Some(j as int)
                    && j < self@.descriptors.len(),
                None => self@.descriptor_by_handle(handle) is None,
            },
    {
        let mut j: usize = 0;
        while j < self.descriptors.len()
            invariant
                j <= self.descriptors.len(),
                forall|k: int| 0 <= k < j ==> !descriptor_at(handle)(#[trigger] self@.descriptors[k]),
            decreases self.descriptors.len() - j,
        {
            if self.descriptors[j].attribute_handle() == Some(handle) {
                proof {
                    lemma_first_index_found(self@.descriptors, descriptor_at(handle), j as int);
                }
                return Some(j);
            }
            j += 1;
        }
        proof {
            lemma_first_index_absent(self@.descriptors, descriptor_at(handle));
        }
        None
    }

    /// The position of the first descriptor with the identifier `uuid`.
    pub fn get_descriptor_by_id(&self, uuid: &BleUuid) -> (r: Option<usize>)
        ensures
            match r {
                Some(j) => self@.descriptor_by_id(*uuid) == Some(j as int)
                    && j < self@.descriptors.len(),
                None => self@.descriptor_by_id(*uuid) is None,
            },
    {
        let mut j: usize = 0;
        while j < self.descriptors.len()
            invariant
                j <= self.descriptors.len(),
                forall|k: int| 0 <= k < j ==> !descriptor_named(*uuid)(#[trigger] self@.descriptors[k]),
            decreases self.descriptors.len() - j,
        {
            if self.descriptors[j].uuid() == *uuid {
                proof {
                    lemma_first_index_found(self@.descriptors, descriptor_named(*uuid), j as int);
                }
                return Some(j);
            }
            j += 1;
        }
        proof {
            lemma_first_index_absent(self@.descriptors, descriptor_named(*uuid));
        }
        None
    }

    /// Asks for the first descriptor that was not asked for yet.
    pub fn register_descriptors(&mut self, service_handle: u16) -> (call: Option<DriverCall>)
        ensures
            (final(self)@, call_model(call)) == old(self)@.advance(service_handle),
    {
        match self.first_unregistered_descriptor() {
            Some(j) => {
                let call = self.descriptors[j].register_self(service_handle);
                assert(self@.descriptors =~= old(self)@.descriptors.update(
                    j as int,
                    old(self)@.descriptors[j as int].requested(),
                ));
                Some(call)
            },
            None => None,
        }
    }

    /// Records the completion of the characteristic's own registration and
    /// asks for its first descriptor.
    pub fn on_added(&mut self, ok: bool, handle: u16, service_handle: u16) -> (call: Option<
        DriverCall,
    >)
        ensures
            (final(self)@, call_model(call)) == old(self)@.on_added(ok, handle, service_handle),
    {
        proof {
            use_type_invariant(&self.held);
        }
        if ok {
            self.held.registration = Registration::Registered(handle);
            self.register_descriptors(service_handle)
        } else {
            self.held.registration = Registration::Failed;
            None
        }
    }

    /// Records the completion of a descriptor's registration and asks for
    /// the next descriptor.
    pub fn on_descriptor_added(
        &mut self,
        uuid: &BleUuid,
        ok: bool,
        handle: u16,
        service_handle: u16,
    ) -> (call: Option<DriverCall>)
        ensures
            (final(self)@, call_model(call)) == old(self)@.on_descriptor_added(
                *uuid,
                ok,
                handle,
                service_handle,
            ),
    {
        match self.first_awaiting_descriptor(uuid) {
            Some(j) => {
                self.descriptors[j].complete(ok, handle);
                assert(self@.descriptors =~= old(self)@.descriptors.update(
                    j as int,
                    old(self)@.descriptors[j as int].completed(ok, handle),
                ));
                self.register_descriptors(service_handle)
            },
            None => None,
        }
    }

    /// Whether `handle` names the characteristic or one of its descriptors.
    pub fn holds(&self, handle: u16) -> (r: bool)
        ensures
            r == self@.holds(handle),
    {
        self.held.registration.assigned() == Some(handle) || self.get_descriptor_by_handle(
            handle,
        ).is_some()
    }

    /// What a read of `request.handle` asks of the host.
    pub fn plan_read(&self, request: ReadRequest, interface: u8) -> (steps: Vec<Step>)
        ensures
            step_models(steps@) == self@.read_steps(request, interface),
    {
        let mut steps: Vec<Step> = Vec::new();
        assert(step_models(steps@) =~= Seq::empty());
        let subject = self.held.registration.assigned();
        if subject == Some(request.handle) {
            answer(&self.held.control, request, subject, interface, &mut steps);
            assert(step_models(steps@) =~= self@.read_steps(request, interface));
        } else {
            match self.get_descriptor_by_handle(request.handle) {
                Some(j) => {
                    answer(self.descriptors[j].control(), request, subject, interface, &mut steps);
                    assert(step_models(steps@) =~= self@.read_steps(request, interface));
                },
                None => {},
            }
        }
        steps
    }

    /// What a write to `write.handle` asks of the host.
    pub fn plan_write(&self, write: WriteRequest, interface: u8) -> (steps: Vec<Step>)
        ensures
            step_models(steps@) == self@.write_steps(write@, interface),
    {
        let subject = self.held.registration.assigned();
        if subject == Some(write.handle) {
            deliver(self.write_callback, &self.held.control, write, subject, interface)
        } else {
            match self.get_descriptor_by_handle(write.handle) {
                Some(j) => deliver(
                    self.descriptors[j].write_callback(),
                    self.descriptors[j].control(),
                    write,
                    subject,
                    interface,
                ),
                None => {
                    let steps: Vec<Step> = Vec::new();
                    assert(step_models(steps@) =~= Seq::empty());
                    steps
                },
            }
        }
    }

    /// What a change of the value under `handle` asks of the host.
    pub fn plan_publish(&self, interface: u8, handle: u16, connections: &Vec<Connection>) -> (steps:
        Vec<Step>)
        ensures
            step_models(steps@) == self@.publish_steps(interface, handle, connections@),
    {
        let mut steps: Vec<Step> = Vec::new();
        let indicate = if self.properties.indicate {
            true
        } else if self.properties.notify {
            false
        } else {
            assert(step_models(steps@) =~= Seq::empty());
            return steps;
        };
        let mut i: usize = 0;
        while i < connections.len()
            invariant
                i <= connections.len(),
                steps@.len() == i,
                self@.push_mode() == Some(indicate),
                forall|k: int|
                    0 <= k < i ==> (#[trigger] steps@[k])@ == (StepModel::Publish {
                        interface,
                        connection: connections@[k],
                        handle,
                        value: self@.value,
                        indicate,
                    }),
            decreases connections.len() - i,
        {
            let value = self.held.value.clone();
            steps.push(
                Step::Publish { interface, connection: connections[i], handle, value, indicate },
            );
            i += 1;
        }
        assert(step_models(steps@) =~= self@.publish_steps(interface, handle, connections@));
        steps
    }

    /// Whether the characteristic waits for a completion that names `uuid`.
    pub fn awaits(&self, uuid: &BleUuid) -> (r: bool)
        ensures
            r == self@.awaits(*uuid),
    {
        self.held.registration.is_requested() && self.uuid == *uuid
    }

    /// Whether a descriptor of the characteristic waits for a completion
    /// that names `uuid`.
    pub fn awaits_descriptor(&self, uuid: &BleUuid) -> (r: bool)
        ensures
            r == (self@.awaiting(*uuid) is Some),
    {
        self.first_awaiting_descriptor(uuid).is_some()
    }

    pub fn uuid(&self) -> (r: BleUuid)
        ensures
            r == self@.uuid,
    {
        self.uuid
    }

    /// How far the registration has come. Whatever the answer, the
    /// characteristic is coherent.
    pub fn registration(&self) -> (r: Registration)
        ensures
            r == self@.registration,
            self@.coherent(),
    {
        proof {
            use_type_invariant(&self.held);
        }
        self.held.registration
    }

    /// The handle that the host stack has assigned, if it has.
    pub fn attribute_handle(&self) -> (r: Option<u16>)
        ensures
            r == self@.registration.handle(),
    {
        self.held.registration.assigned()
    }

    pub fn permissions(&self) -> (r: AttributePermissions)
        ensures
            r == self@.permissions,
    {
        self.permissions
    }

    pub fn properties(&self) -> (r: CharacteristicProperties)
        ensures
            r == self@.properties,
    {
        self.properties
    }

    /// The value as the library last saw it.
    pub fn value(&self) -> (r: &Vec<u8>)
        ensures
            r@ == self@.value,
    {
        &self.held.value
    }

    pub fn max_value_length(&self) -> (r: u16)
        ensures
            r == self@.max_value_length,
    {
        self.max_value_length
    }

    pub fn control(&self) -> (r: &AttributeControl)
        ensures
            r@ == self@.control,
    {
        &self.held.control
    }

    pub fn write_callback(&self) -> (r: Option<Callback>)
        ensures
            r == self@.write_callback,
    {
        self.write_callback
    }

    pub fn descriptor_count(&self) -> (r: usize)
        ensures
            r == self@.descriptors.len(),
    {
        self.descriptors.len()
    }

    /// The descriptor at `index`.
    pub fn descriptor(&self, index: usize) -> (r: Option<&Descriptor>)
        ensures
            index < self@.descriptors.len() ==> (r matches Some(d) && d@
                == self@.descriptors[index as int]),
            index >= self@.descriptors.len() ==> r is None,
    {
        if index < self.descriptors.len() {
            Some(&self.descriptors[index])
        } else {
            None
        }
    }

    pub fn name(&self) -> (r: &Option<String>)
        ensures
            r matches Some(s) ==> self@.name == Some(s@),
            r is None ==> self@.name is None,
    {
        &self.name
    }
}

impl Clone for Characteristic {
    fn clone(&self) -> (r: Self)
        ensures
            r@ == self@,
            r@.coherent(),
    {
        proof {
            use_type_invariant(&self.held);
        }
        let mut descriptors: Vec<Descriptor> = Vec::new();
        let mut j: usize = 0;
        while j < self.descriptors.len()
            invariant
                j <= self.descriptors.len(),
                descriptors@.len() == j,
                forall|k: int| 0 <= k < j ==> descriptors@[k]@ == self.descriptors@[k]@,
            decreases self.descriptors.len() - j,
        {
            descriptors.push(self.descriptors[j].clone());
            j += 1;
        }
        let r = Self {
            name: match &self.name {
                Some(name) => Some(name.clone()),
                None => None,
            },
            uuid: self.uuid,
            write_callback: self.write_callback,
            descriptors,
            permissions: self.permissions,
            properties: self.properties,
            held: Holding {
                registration: self.held.registration,
                control: self.held.control.clone(),
                value: self.held.value.clone(),
            },
            max_value_length: self.max_value_length,
        };
        assert(r@.descriptors =~= self@.descriptors);
        r
    }
}

} // verus!
