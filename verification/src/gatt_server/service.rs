//! Services: an identifier and the characteristics under it.

use crate::gatt_server::characteristic::{Characteristic, CharacteristicModel};
use crate::gatt_server::driver::{
    call_model, step_models, DriverCall, DriverCallModel, ReadRequest, Step, StepModel,
    WriteRequest, WriteRequestModel, SERVICE_HANDLES,
};
use crate::gatt_server::error::ConfigurationError;
use crate::gatt_server::registration::ServiceState;
use crate::utilities::search::{first_index, lemma_first_index_absent, lemma_first_index_found};
use crate::utilities::{BleUuid, Connection};
use vstd::prelude::*;

verus! {

/// A GATT service.
#[derive(Debug)]
pub struct Service {
    name: Option<String>,
    uuid: BleUuid,
    characteristics: Vec<Characteristic>,
    primary: bool,
    state: ServiceState,
}

/// What a service holds.
pub struct ServiceModel {
    pub name: Option<Seq<char>>,
    pub uuid: BleUuid,
    pub characteristics: Seq<CharacteristicModel>,
    pub primary: bool,
    pub state: ServiceState,
}

impl View for Service {
    type V = ServiceModel;

    closed spec fn view(&self) -> ServiceModel {
        ServiceModel {
            name: match self.name {
                Some(name) => Some(name@),
                None => None,
            },
            uuid: self.uuid,
            characteristics: self.characteristics@.map_values(|c: Characteristic| c@),
            primary: self.primary,
            state: self.state,
        }
    }
}

/// The characteristics that were not asked for yet.
pub open spec fn unregistered_characteristic() -> spec_fn(CharacteristicModel) -> bool {
    |c: CharacteristicModel| c.registration is Unregistered
}

/// The characteristics that wait for a completion that names `uuid`.
pub open spec fn awaiting_characteristic(uuid: BleUuid) -> spec_fn(CharacteristicModel) -> bool {
    |c: CharacteristicModel| c.awaits(uuid)
}

/// The characteristics with a descriptor that waits for a completion that
/// names `uuid`.
pub open spec fn awaiting_owner(uuid: BleUuid) -> spec_fn(CharacteristicModel) -> bool {
    |c: CharacteristicModel| c.awaiting(uuid) is Some
}

/// The characteristics that answer to `handle`.
pub open spec fn characteristic_at(handle: u16) -> spec_fn(CharacteristicModel) -> bool {
    |c: CharacteristicModel| c.has_handle(handle)
}

/// The characteristics with this identifier.
pub open spec fn characteristic_named(uuid: BleUuid) -> spec_fn(CharacteristicModel) -> bool {
    |c: CharacteristicModel| c.uuid == uuid
}

/// The characteristics with a descriptor of this identifier.
pub open spec fn characteristic_describing(uuid: BleUuid) -> spec_fn(CharacteristicModel) -> bool {
    |c: CharacteristicModel| c.descriptor_by_id(uuid) is Some
}

/// The characteristics that `handle` names, by itself or by a descriptor.
pub open spec fn characteristic_holding(handle: u16) -> spec_fn(CharacteristicModel) -> bool {
    |c: CharacteristicModel| c.holds(handle)
}

impl ServiceModel {
    /// A service as it is declared: secondary, without a name or
    /// characteristics, not registered.
    pub open spec fn declared(uuid: BleUuid) -> ServiceModel {
        ServiceModel {
            name: None,
            uuid,
            characteristics: Seq::empty(),
            primary: false,
            state: ServiceState::Unregistered,
        }
    }

    pub open spec fn named(self, name: Seq<char>) -> ServiceModel {
        ServiceModel { name: Some(name), ..self }
    }

    pub open spec fn as_primary(self) -> ServiceModel {
        ServiceModel { primary: true, ..self }
    }

    pub open spec fn with_characteristic(self, characteristic: CharacteristicModel) -> ServiceModel {
        ServiceModel { characteristics: self.characteristics.push(characteristic), ..self }
    }

    /// The service with the characteristic at `index` replaced.
    pub open spec fn with_characteristic_at(
        self,
        index: int,
        characteristic: CharacteristicModel,
    ) -> ServiceModel {
        ServiceModel { characteristics: self.characteristics.update(index, characteristic), ..self }
    }

    /// The call that creates the service on a profile's interface.
    pub open spec fn request(self, interface: u8) -> DriverCallModel {
        DriverCallModel::CreateService {
            interface,
            uuid: self.uuid,
            primary: self.primary,
            handles: SERVICE_HANDLES,
        }
    }

    /// The service once its creation was asked for.
    pub open spec fn requested(self) -> ServiceModel {
        ServiceModel { state: ServiceState::Requested, ..self }
    }

    /// The service waits for a completion of its creation that names `uuid`.
    pub open spec fn awaits(self, uuid: BleUuid) -> bool {
        self.state is Requested && self.uuid == uuid
    }

    /// The first characteristic that was not asked for yet.
    pub open spec fn next_characteristic(self) -> Option<int> {
        first_index(self.characteristics, unregistered_characteristic())
    }

    /// Asks for the first characteristic that was not asked for yet: it is
    /// marked, and the call that registers it is returned. Where the
    /// service does not run, or every characteristic was asked for,
    /// nothing changes and nothing is returned.
    pub open spec fn advance(self) -> (ServiceModel, Option<DriverCallModel>) {
        match (self.state, self.next_characteristic()) {
            (ServiceState::Started(handle), Some(i)) => (
                self.with_characteristic_at(i, self.characteristics[i].requested()),
                Some(self.characteristics[i].request(handle)),
            ),
            _ => (self, None),
        }
    }

    /// The completion of the service's creation. On success the service
    /// takes the handle and its start is asked for; on failure it is
    /// marked.
    pub open spec fn on_created(self, ok: bool, handle: u16) -> (
        ServiceModel,
        Option<DriverCallModel>,
    ) {
        if ok {
            (
                ServiceModel { state: ServiceState::Created(handle), ..self },
                Some(DriverCallModel::StartService { service_handle: handle }),
            )
        } else {
            (ServiceModel { state: ServiceState::Failed, ..self }, None)
        }
    }

    /// The completion of the service's start. It counts only while the
    /// start is awaited. On success the service runs and its first
    /// characteristic is asked for; on failure the service is marked and
    /// its characteristics are left alone.
    pub open spec fn on_started(self, ok: bool) -> (ServiceModel, Option<DriverCallModel>) {
        match self.state {
            ServiceState::Created(handle) => if ok {
                ServiceModel { state: ServiceState::Started(handle), ..self }.advance()
            } else {
                (ServiceModel { state: ServiceState::Failed, ..self }, None)
            },
            _ => (self, None),
        }
    }

    /// The first characteristic that waits for a completion that names `uuid`.
    pub open spec fn awaiting(self, uuid: BleUuid) -> Option<int> {
        first_index(self.characteristics, awaiting_characteristic(uuid))
    }

    /// The first characteristic with a descriptor that waits for a
    /// completion that names `uuid`.
    pub open spec fn awaiting_descriptor(self, uuid: BleUuid) -> Option<int> {
        first_index(self.characteristics, awaiting_owner(uuid))
    }

    /// The service after one of its characteristics has changed to
    /// `characteristic`, with `call` the next call for that
    /// characteristic's own subtree. While there is such a call, it is the
    /// next one. Once there is none, the next characteristic is asked for.
    pub open spec fn proceed(
        self,
        index: int,
        characteristic: CharacteristicModel,
        call: Option<DriverCallModel>,
    ) -> (ServiceModel, Option<DriverCallModel>) {
        let changed = self.with_characteristic_at(index, characteristic);
        if call is Some {
            (changed, call)
        } else {
            changed.advance()
        }
    }

    /// The completion of a characteristic's registration: the new service,
    /// whether the completion found its characteristic, and the next call.
    ///
    /// The completion goes to the first characteristic, in the order of
    /// declaration, that waits for one under `uuid`. That characteristic's
    /// first descriptor is asked for next or, where it has none or was
    /// refused, the next characteristic. A completion that no
    /// characteristic waits for, or that reaches a service that does not
    /// run, changes nothing.
    pub open spec fn on_characteristic_added(self, uuid: BleUuid, ok: bool, handle: u16) -> (
        ServiceModel,
        bool,
        Option<DriverCallModel>,
    ) {
        match (self.state, self.awaiting(uuid)) {
            (ServiceState::Started(service_handle), Some(i)) => {
                let (characteristic, call) = self.characteristics[i].on_added(
                    ok,
                    handle,
                    service_handle,
                );
                let (service, next) = self.proceed(i, characteristic, call);
                (service, true, next)
            },
            _ => (self, false, None),
        }
    }

    /// The completion of a descriptor's registration: the new service,
    /// whether the completion found its descriptor, and the next call.
    ///
    /// The completion goes to the first characteristic that has a
    /// descriptor waiting for one under `uuid`, and there to the first
    /// such descriptor. That characteristic's next descriptor is asked for
    /// or, where it has no more, the next characteristic.
    pub open spec fn on_descriptor_added(self, uuid: BleUuid, ok: bool, handle: u16) -> (
        ServiceModel,
        bool,
        Option<DriverCallModel>,
    ) {
        match (self.state, self.awaiting_descriptor(uuid)) {
            (ServiceState::Started(service_handle), Some(i)) => {
                let (characteristic, call) = self.characteristics[i].on_descriptor_added(
                    uuid,
                    ok,
                    handle,
                    service_handle,
                );
                let (service, next) = self.proceed(i, characteristic, call);
                (service, true, next)
            },
            _ => (self, false, None),
        }
    }

    /// The first characteristic that answers to `handle`.
    pub open spec fn characteristic_by_handle(self, handle: u16) -> Option<int> {
        first_index(self.characteristics, characteristic_at(handle))
    }

    /// The first characteristic with the identifier `uuid`.
    pub open spec fn characteristic_by_id(self, uuid: BleUuid) -> Option<int> {
        first_index(self.characteristics, characteristic_named(uuid))
    }

    /// The first descriptor with the identifier `uuid`, by the position of
    /// its characteristic and its own: the characteristics are searched in
    /// order, and in each its descriptors in order.
    pub open spec fn descriptor_by_id(self, uuid: BleUuid) -> Option<(int, int)> {
        match first_index(self.characteristics, characteristic_describing(uuid)) {
            Some(i) => Some((i, self.characteristics[i].descriptor_by_id(uuid)->0)),
            None => None,
        }
    }

    /// The first characteristic that `handle` names, by itself or by one
    /// of its descriptors.
    pub open spec fn locate(self, handle: u16) -> Option<int> {
        first_index(self.characteristics, characteristic_holding(handle))
    }

    /// What a read of `request.handle` asks of the host: what it asks of
    /// the first characteristic that the handle names.
    pub open spec fn read_steps(self, request: ReadRequest, interface: u8) -> Seq<StepModel> {
        match self.locate(request.handle) {
            Some(i) => self.characteristics[i].read_steps(request, interface),
            None => Seq::empty(),
        }
    }

    /// What a write to `write.handle` asks of the host: what it asks of
    /// the first characteristic that the handle names.
    pub open spec fn write_steps(self, write: WriteRequestModel, interface: u8) -> Seq<StepModel> {
        match self.locate(write.handle) {
            Some(i) => self.characteristics[i].write_steps(write, interface),
            None => Seq::empty(),
        }
    }

    /// What a change of the value under `handle` asks of the host: the
    /// pushes of the first characteristic that answers to the handle.
    pub open spec fn publish_steps(
        self,
        interface: u8,
        handle: u16,
        connections: Seq<Connection>,
    ) -> Seq<StepModel> {
        match self.characteristic_by_handle(handle) {
            Some(i) => self.characteristics[i].publish_steps(interface, handle, connections),
            None => Seq::empty(),
        }
    }

    /// The service answers to `handle`.
    pub open spec fn has_handle(self, handle: u16) -> bool {
        self.state.handle() == Some(handle)
    }

    /// The outcome of giving the characteristic at `index` a new value.
    pub open spec fn set_value(self, index: int, value: Seq<u8>) -> Result<
        (ServiceModel, Option<DriverCallModel>),
        ConfigurationError,
    > {
        if 0 <= index < self.characteristics.len() {
            match self.characteristics[index].rejection(value) {
                Some(error) => Err(error),
                None => {
                    let changed = self.characteristics[index].with_value(value);
                    Ok((self.with_characteristic_at(index, changed), changed.value_update()))
                },
            }
        } else {
            Err(ConfigurationError::UnknownAttribute)
        }
    }
}

impl Service {
    /// Creates a new [`Service`].
    #[must_use]
    pub fn new(uuid: BleUuid) -> (r: Self)
        ensures
            r@ == ServiceModel::declared(uuid),
    {
        let r = Self {
            name: None,
            uuid,
            characteristics: Vec::new(),
            primary: false,
            state: ServiceState::Unregistered,
        };
        assert(r@.characteristics =~= Seq::empty());
        r
    }

    /// Sets the name of the [`Service`].
    pub fn name(&mut self, name: &str) -> (r: &mut Self)
        ensures
            r@ == old(self)@.named(name@),
            *final(self) == *final(r),
    {
        self.name = Some(name.to_owned());
        self
    }

    /// Sets the [`Service`] as primary: a peer that looks for services
    /// finds the primary ones.
    pub fn primary(&mut self) -> (r: &mut Self)
        ensures
            r@ == old(self)@.as_primary(),
            *final(self) == *final(r),
    {
        self.primary = true;
        self
    }

    /// Adds a [`Characteristic`] after those that the [`Service`] has.
    pub fn characteristic(&mut self, characteristic: Characteristic) -> (r: &mut Self)
        ensures
            r@ == old(self)@.with_characteristic(characteristic@),
            *final(self) == *final(r),
    {
        self.characteristics.push(characteristic);
        assert(self@.characteristics =~= old(self)@.characteristics.push(characteristic@));
        self
    }

    /// A copy of the [`Service`] as it stands, to hand to a profile.
    #[must_use]
    pub fn build(&self) -> (r: Self)
        ensures
            r@ == self@,
    {
        self.clone()
    }

    /// The position of the first characteristic that answers to `handle`.
    pub fn get_characteristic_by_handle(&self, handle: u16) -> (r: Option<usize>)
        ensures
            match r {
                Some(i) => self@.characteristic_by_handle(handle) == Some(i as int)
                    && i < self@.characteristics.len(),
                None => self@.characteristic_by_handle(handle) is None,
            },
    {
        let mut i: usize = 0;
        while i < self.characteristics.len()
            invariant
                i <= self.characteristics.len(),
                forall|k: int|
                    0 <= k < i ==> !characteristic_at(handle)(#[trigger] self@.characteristics[k]),
            decreases self.characteristics.len() - i,
        {
            if self.characteristics[i].attribute_handle() == Some(handle) {
                proof {
                    lemma_first_index_found(self@.characteristics, characteristic_at(handle), i as int);
                }
                return Some(i);
            }
            i += 1;
        }
        proof {
            lemma_first_index_absent(self@.characteristics, characteristic_at(handle));
        }
        None
    }

    /// The position of the first characteristic with the identifier `uuid`.
    pub fn get_characteristic_by_id(&self, uuid: &BleUuid) -> (r: Option<usize>)
        ensures
            match r {
                Some(i) => self@.characteristic_by_id(*uuid) == Some(i as int)
                    && i < self@.characteristics.len(),
                None => self@.characteristic_by_id(*uuid) is None,
            },
    {
        let mut i: usize = 0;
        while i < self.characteristics.len()
            invariant
                i <= self.characteristics.len(),
                forall|k: int|
                    0 <= k < i ==> !characteristic_named(*uuid)(#[trigger] self@.characteristics[k]),
            decreases self.characteristics.len() - i,
        {
            if self.characteristics[i].uuid() == *uuid {
                proof {
                    lemma_first_index_found(self@.characteristics, characteristic_named(*uuid), i as int);
                }
                return Some(i);
            }
            i += 1;
        }
        proof {
            lemma_first_index_absent(self@.characteristics, characteristic_named(*uuid));
        }
        None
    }

    /// The first descriptor with the identifier `uuid`, by the position of
    /// its characteristic and its own.
    pub fn get_descriptor_by_id(&self, uuid: &BleUuid) -> (r: Option<(usize, usize)>)
        ensures
            match r {
                Some((i, j)) => self@.descriptor_by_id(*uuid) == Some((i as int, j as int))
                    && i < self@.characteristics.len() && j
                    < self@.characteristics[i as int].descriptors.len(),
                None => self@.descriptor_by_id(*uuid) is None,
            },
    {
        let mut i: usize = 0;
        while i < self.characteristics.len()
            invariant
                i <= self.characteristics.len(),
                forall|k: int|
                    0 <= k < i ==> !characteristic_describing(*uuid)(
                        #[trigger] self@.characteristics[k],
                    ),
            decreases self.characteristics.len() - i,
        {
            match self.characteristics[i].get_descriptor_by_id(uuid) {
                Some(j) => {
                    proof {
                        lemma_first_index_found(
                            self@.characteristics,
                            characteristic_describing(*uuid),
                            i as int,
                        );
                    }
                    return Some((i, j));
                },
                None => {},
            }
            i += 1;
        }
        proof {
            lemma_first_index_absent(self@.characteristics, characteristic_describing(*uuid));
        }
        None
    }

    /// The position of the first characteristic that `handle` names, by
    /// itself or by one of its descriptors.
    pub fn locate(&self, handle: u16) -> (r: Option<usize>)
        ensures
            match r {
                Some(i) => self@.locate(handle) == Some(i as int) && i < self@.characteristics.len(),
                None => self@.locate(handle) is None,
            },
    {
        let mut i: usize = 0;
        while i < self.characteristics.len()
            invariant
                i <= self.characteristics.len(),
                forall|k: int|
                    0 <= k < i ==> !characteristic_holding(handle)(
                        #[trigger] self@.characteristics[k],
                    ),
            decreases self.characteristics.len() - i,
        {
            if self.characteristics[i].holds(handle) {
                proof {
                    lemma_first_index_found(
                        self@.characteristics,
                        characteristic_holding(handle),
                        i as int,
                    );
                }
                return Some(i);
            }
            i += 1;
        }
        proof {
            lemma_first_index_absent(self@.characteristics, characteristic_holding(handle));
        }
        None
    }

    fn first_unregistered(&self) -> (r: Option<usize>)
        ensures
            match r {
                Some(i) => self@.next_characteristic() == Some(i as int)
                    && i < self@.characteristics.len()
                    && self@.characteristics[i as int].registration is Unregistered
                    && self@.characteristics[i as int].coherent(),
                None => self@.next_characteristic() is None,
            },
    {
        let mut i: usize = 0;
        while i < self.characteristics.len()
            invariant
                i <= self.characteristics.len(),
                forall|k: int|
                    0 <= k < i ==> !unregistered_characteristic()(
                        #[trigger] self@.characteristics[k],
                    ),
            decreases self.characteristics.len() - i,
        {
            if self.characteristics[i].registration().is_unregistered() {
                proof {
                    lemma_first_index_found(
                        self@.characteristics,
                        unregistered_characteristic(),
                        i as int,
                    );
                }
                return Some(i);
            }
            i += 1;
        }
        proof {
            lemma_first_index_absent(self@.characteristics, unregistered_characteristic());
        }
        None
    }

    fn first_awaiting(&self, uuid: &BleUuid) -> (r: Option<usize>)
        ensures
            match r {
                Some(i) => self@.awaiting(*uuid) == Some(i as int) && i < self@.characteristics.len(),
                None => self@.awaiting(*uuid) is None,
            },
    {
        let mut i: usize = 0;
        while i < self.characteristics.len()
            invariant
                i <= self.characteristics.len(),
                forall|k: int|
                    0 <= k < i ==> !awaiting_characteristic(*uuid)(
                        #[trigger] self@.characteristics[k],
                    ),
            decreases self.characteristics.len() - i,
        {
            if self.characteristics[i].awaits(uuid) {
                proof {
                    lemma_first_index_found(
                        self@.characteristics,
                        awaiting_characteristic(*uuid),
                        i as int,
                    );
                }
                return Some(i);
            }
            i += 1;
        }
        proof {
            lemma_first_index_absent(self@.characteristics, awaiting_characteristic(*uuid));
        }
        None
    }

    fn first_awaiting_descriptor(&self, uuid: &BleUuid) -> (r: Option<usize>)
        ensures
            match r {
                Some(i) => self@.awaiting_descriptor(*uuid) == Some(i as int)
                    && i < self@.characteristics.len(),
                None => self@.awaiting_descriptor(*uuid) is None,
            },
    {
        let mut i: usize = 0;
        while i < self.characteristics.len()
            invariant
                i <= self.characteristics.len(),
                forall|k: int|
                    0 <= k < i ==> !awaiting_owner(*uuid)(#[trigger] self@.characteristics[k]),
            decreases self.characteristics.len() - i,
        {
            if self.characteristics[i].awaits_descriptor(uuid) {
                proof {
                    lemma_first_index_found(self@.characteristics, awaiting_owner(*uuid), i as int);
                }
                return Some(i);
            }
            i += 1;
        }
        proof {
            lemma_first_index_absent(self@.characteristics, awaiting_owner(*uuid));
        }
        None
    }

    /// Marks the service as asked for and returns the call that creates it
    /// on the interface of its profile.
    pub fn register_self(&mut self, interface: u8) -> (call: DriverCall)
        ensures
            final(self)@ == old(self)@.requested(),
            call@ == old(self)@.request(interface),
    {
        self.state = ServiceState::Requested;
        DriverCall::CreateService {
            interface,
            uuid: self.uuid,
            primary: self.primary,
            handles: SERVICE_HANDLES,
        }
    }

    /// Asks for the first characteristic that was not asked for yet. The
    /// characteristics are registered one after the other: the next one
    /// is asked for when the one before it, with its descriptors, is done.
    pub fn register_characteristics(&mut self) -> (call: Option<DriverCall>)
        ensures
            (final(self)@, call_model(call)) == old(self)@.advance(),
    {
        let handle = match self.state {
            ServiceState::Started(handle) => handle,
            _ => {
                return None;
            },
        };
        match self.first_unregistered() {
            Some(i) => {
                let call = self.characteristics[i].register_self(handle);
                assert(self@.characteristics =~= old(self)@.characteristics.update(
                    i as int,
                    old(self)@.characteristics[i as int].requested(),
                ));
                Some(call)
            },
            None => None,
        }
    }

    /// Records the completion of the service's creation and asks for its
    /// start.
    pub fn on_created(&mut self, ok: bool, handle: u16) -> (call: Option<DriverCall>)
        ensures
            (final(self)@, call_model(call)) == old(self)@.on_created(ok, handle),
    {
        if ok {
            self.state = ServiceState::Created(handle);
            Some(DriverCall::StartService { service_handle: handle })
        } else {
            self.state = ServiceState::Failed;
            None
        }
    }

    /// Records the completion of the service's start and asks for its
    /// first characteristic.
    pub fn on_started(&mut self, ok: bool) -> (call: Option<DriverCall>)
        ensures
            (final(self)@, call_model(call)) == old(self)@.on_started(ok),
    {
        match self.state {
            ServiceState::Created(handle) => {
                if ok {
                    self.state = ServiceState::Started(handle);
                    self.register_characteristics()
                } else {
                    self.state = ServiceState::Failed;
                    None
                }
            },
            _ => None,
        }
    }

    /// Records the completion of a characteristic's registration and
    /// returns whether it found its characteristic, and the next call.
    pub fn on_characteristic_added(&mut self, uuid: &BleUuid, ok: bool, handle: u16) -> (r: (
        bool,
        Option<DriverCall>,
    ))
        ensures
            (final(self)@, r.0, call_model(r.1)) == old(self)@.on_characteristic_added(
                *uuid,
                ok,
                handle,
            ),
    {
        let service_handle = match self.state {
            ServiceState::Started(service_handle) => service_handle,
            _ => {
                return (false, None);
            },
        };
        match self.first_awaiting(uuid) {
            Some(i) => {
                let call = self.characteristics[i].on_added(ok, handle, service_handle);
                assert(self@.characteristics =~= old(self)@.characteristics.update(
                    i as int,
                    old(self)@.characteristics[i as int].on_added(ok, handle, service_handle).0,
                ));
                if call.is_some() {
                    (true, call)
                } else {
                    (true, self.register_characteristics())
                }
            },
            None => (false, None),
        }
    }

    /// Records the completion of a descriptor's registration and returns
    /// whether it found its descriptor, and the next call.
    pub fn on_descriptor_added(&mut self, uuid: &BleUuid, ok: bool, handle: u16) -> (r: (
        bool,
        Option<DriverCall>,
    ))
        ensures
            (final(self)@, r.0, call_model(r.1)) == old(self)@.on_descriptor_added(*uuid, ok, handle),
    {
        let service_handle = match self.state {
            ServiceState::Started(service_handle) => service_handle,
            _ => {
                return (false, None);
            },
        };
        match self.first_awaiting_descriptor(uuid) {
            Some(i) => {
                let call = self.characteristics[i].on_descriptor_added(
                    uuid,
                    ok,
                    handle,
                    service_handle,
                );
                assert(self@.characteristics =~= old(self)@.characteristics.update(
                    i as int,
                    old(self)@.characteristics[i as int].on_descriptor_added(
                        *uuid,
                        ok,
                        handle,
                        service_handle,
                    ).0,
                ));
                if call.is_some() {
                    (true, call)
                } else {
                    (true, self.register_characteristics())
                }
            },
            None => (false, None),
        }
    }

    /// What a read of `request.handle` asks of the host.
    pub fn plan_read(&self, request: ReadRequest, interface: u8) -> (steps: Vec<Step>)
        ensures
            step_models(steps@) == self@.read_steps(request, interface),
    {
        match self.locate(request.handle) {
            Some(i) => self.characteristics[i].plan_read(request, interface),
            None => {
                let steps: Vec<Step> = Vec::new();
                assert(step_models(steps@) =~= Seq::empty());
                steps
            },
        }
    }

    /// What a write to `write.handle` asks of the host.
    pub fn plan_write(&self, write: WriteRequest, interface: u8) -> (steps: Vec<Step>)
        ensures
            step_models(steps@) == self@.write_steps(write@, interface),
    {
        match self.locate(write.handle) {
            Some(i) => self.characteristics[i].plan_write(write, interface),
            None => {
                let steps: Vec<Step> = Vec::new();
                assert(step_models(steps@) =~= Seq::empty());
                steps
            },
        }
    }

    /// What a change of the value under `handle` asks of the host.
    pub fn plan_publish(&self, interface: u8, handle: u16, connections: &Vec<Connection>) -> (steps:
        Vec<Step>)
        ensures
            step_models(steps@) == self@.publish_steps(interface, handle, connections@),
    {
        match self.get_characteristic_by_handle(handle) {
            Some(i) => self.characteristics[i].plan_publish(interface, handle, connections),
            None => {
                let steps: Vec<Step> = Vec::new();
                assert(step_models(steps@) =~= Seq::empty());
                steps
            },
        }
    }

    /// Gives the characteristic at `index` a new value. The result is the
    /// call that tells the host stack of it, where one is owed. Where
    /// there is no such characteristic, or it cannot take the value,
    /// nothing changes.
    pub fn set_characteristic_value(&mut self, index: usize, value: Vec<u8>) -> (r: Result<
        Option<DriverCall>,
        ConfigurationError,
    >)
        ensures
            match old(self)@.set_value(index as int, value@) {
                Ok((service, call)) => r matches Ok(made) && call_model(made) == call
                    && final(self)@ == service,
                Err(error) => r == Err::<Option<DriverCall>, ConfigurationError>(error)
                    && final(self)@ == old(self)@,
            },
    {
        if index >= self.characteristics.len() {
            return Err(ConfigurationError::UnknownAttribute);
        }
        let r = self.characteristics[index].set_value(value);
        proof {
            if r is Ok {
                assert(self@.characteristics =~= old(self)@.characteristics.update(
                    index as int,
                    old(self)@.characteristics[index as int].with_value(value@),
                ));
            } else {
                assert(self@.characteristics =~= old(self)@.characteristics);
            }
        }
        r
    }

    pub fn uuid(&self) -> (r: BleUuid)
        ensures
            r == self@.uuid,
    {
        self.uuid
    }

    /// The name that the service was given, if it was given one.
    pub fn label(&self) -> (r: &Option<String>)
        ensures
            r matches Some(s) ==> self@.name == Some(s@),
            r is None ==> self@.name is None,
    {
        &self.name
    }

    pub fn is_primary(&self) -> (r: bool)
        ensures
            r == self@.primary,
    {
        self.primary
    }

    pub fn state(&self) -> (r: ServiceState)
        ensures
            r == self@.state,
    {
        self.state
    }

    /// The handle that the host stack has assigned, if it has.
    pub fn handle(&self) -> (r: Option<u16>)
        ensures
            r == self@.state.handle(),
    {
        self.state.assigned()
    }

    pub fn characteristic_count(&self) -> (r: usize)
        ensures
            r == self@.characteristics.len(),
    {
        self.characteristics.len()
    }

    /// The characteristic at `index`.
    pub fn characteristic_at(&self, index: usize) -> (r: Option<&Characteristic>)
        ensures
            index < self@.characteristics.len() ==> (r matches Some(c) && c@
                == self@.characteristics[index as int]),
            index >= self@.characteristics.len() ==> r is None,
    {
        if index < self.characteristics.len() {
            Some(&self.characteristics[index])
        } else {
            None
        }
    }
}

impl Clone for Service {
    fn clone(&self) -> (r: Self)
        ensures
            r@ == self@,
    {
        let mut characteristics: Vec<Characteristic> = Vec::new();
        let mut i: usize = 0;
        while i < self.characteristics.len()
            invariant
                i <= self.characteristics.len(),
                characteristics@.len() == i,
                forall|k: int| 0 <= k < i ==> characteristics@[k]@ == self.characteristics@[k]@,
            decreases self.characteristics.len() - i,
        {
            characteristics.push(self.characteristics[i].clone());
            i += 1;
        }
        let r = Self {
            name: match &self.name {
                Some(name) => Some(name.clone()),
                None => None,
            },
            uuid: self.uuid,
            characteristics,
            primary: self.primary,
            state: self.state,
        };
        assert(r@.characteristics =~= self@.characteristics);
        r
    }
}

} // verus!
