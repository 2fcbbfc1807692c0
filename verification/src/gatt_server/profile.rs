//! Profiles: the applications that the server registers with the host
//! stack, each with its services.

use crate::gatt_server::driver::{
    call_model, step_models, DriverCall, DriverCallModel, ReadRequest, Step, StepModel,
    WriteRequest, WriteRequestModel,
};
use crate::gatt_server::error::ConfigurationError;
use crate::gatt_server::registration::{ProfileState, ServiceState};
use crate::gatt_server::service::{Service, ServiceModel};
use crate::utilities::search::{first_index, lemma_first_index_absent, lemma_first_index_found};
use crate::utilities::{BleUuid, Connection};
use vstd::prelude::*;

verus! {

/// A profile: one application of the host stack.
#[derive(Debug)]
pub struct Profile {
    name: Option<String>,
    services: Vec<Service>,
    /// The number under which the profile registers. The host stack names
    /// it when it reports the registration, and nothing else.
    identifier: u16,
    state: ProfileState,
}

/// What a profile holds.
pub struct ProfileModel {
    pub name: Option<Seq<char>>,
    pub services: Seq<ServiceModel>,
    pub identifier: u16,
    pub state: ProfileState,
}

impl View for Profile {
    type V = ProfileModel;

    closed spec fn view(&self) -> ProfileModel {
        ProfileModel {
            name: match self.name {
                Some(name) => Some(name@),
                None => None,
            },
            services: self.services@.map_values(|s: Service| s@),
            identifier: self.identifier,
            state: self.state,
        }
    }
}

/// The services that were not asked for yet.
pub open spec fn unregistered_service() -> spec_fn(ServiceModel) -> bool {
    |s: ServiceModel| s.state is Unregistered
}

/// The services that wait for a completion of their creation that names `uuid`.
pub open spec fn awaiting_service(uuid: BleUuid) -> spec_fn(ServiceModel) -> bool {
    |s: ServiceModel| s.awaits(uuid)
}

/// The services that were created under `handle` and wait for their start.
pub open spec fn starting_service(handle: u16) -> spec_fn(ServiceModel) -> bool {
    |s: ServiceModel| s.state == ServiceState::Created(handle)
}

/// The services that run under `handle`.
pub open spec fn running_service(handle: u16) -> spec_fn(ServiceModel) -> bool {
    |s: ServiceModel| s.state == ServiceState::Started(handle)
}

/// The services that answer to `handle`.
pub open spec fn service_at(handle: u16) -> spec_fn(ServiceModel) -> bool {
    |s: ServiceModel| s.has_handle(handle)
}

/// The services with this identifier.
pub open spec fn service_named(uuid: BleUuid) -> spec_fn(ServiceModel) -> bool {
    |s: ServiceModel| s.uuid == uuid
}

/// The services with an attribute that answers to `handle`.
pub open spec fn service_holding(handle: u16) -> spec_fn(ServiceModel) -> bool {
    |s: ServiceModel| s.locate(handle) is Some
}

impl ProfileModel {
    /// A profile as it is declared: without services, not registered.
    pub open spec fn declared(name: Seq<char>, identifier: u16) -> ProfileModel {
        ProfileModel {
            name: Some(name),
            services: Seq::empty(),
            identifier,
            state: ProfileState::Unregistered,
        }
    }

    pub open spec fn with_service(self, service: ServiceModel) -> ProfileModel {
        ProfileModel { services: self.services.push(service), ..self }
    }

    /// The profile with the service at `index` replaced.
    pub open spec fn with_service_at(self, index: int, service: ServiceModel) -> ProfileModel {
        ProfileModel { services: self.services.update(index, service), ..self }
    }

    /// The call that registers the profile.
    pub open spec fn request(self) -> DriverCallModel {
        DriverCallModel::RegisterApplication { app_id: self.identifier }
    }

    /// The profile once its registration was asked for.
    pub open spec fn requested(self) -> ProfileModel {
        ProfileModel { state: ProfileState::Requested, ..self }
    }

    /// The profile waits for a completion that names `app_id`.
    pub open spec fn awaits(self, app_id: u16) -> bool {
        self.state is Requested && self.identifier == app_id
    }

    /// The host stack talks to the profile through `interface`.
    pub open spec fn listens_on(self, interface: u8) -> bool {
        self.state == ProfileState::Registered(interface)
    }

    /// The first service that was not asked for yet.
    pub open spec fn next_service(self) -> Option<int> {
        first_index(self.services, unregistered_service())
    }

    /// Asks for the first service that was not asked for yet: it is marked,
    /// and the call that creates it is returned. Where the profile is not
    /// registered, or every service was asked for, nothing changes and
    /// nothing is returned.
    pub open spec fn advance(self) -> (ProfileModel, Option<DriverCallModel>) {
        match (self.state, self.next_service()) {
            (ProfileState::Registered(interface), Some(i)) => (
                self.with_service_at(i, self.services[i].requested()),
                Some(self.services[i].request(interface)),
            ),
            _ => (self, None),
        }
    }

    /// The completion of the profile's registration. It counts only while
    /// it is awaited. On success the profile takes the interface and its
    /// first service is asked for; on failure the profile is marked and
    /// its services are left alone.
    pub open spec fn on_registered(self, ok: bool, interface: u8) -> (
        ProfileModel,
        Option<DriverCallModel>,
    ) {
        if self.state is Requested {
            if ok {
                ProfileModel { state: ProfileState::Registered(interface), ..self }.advance()
            } else {
                (ProfileModel { state: ProfileState::Failed, ..self }, None)
            }
        } else {
            (self, None)
        }
    }

    /// The profile after one of its services has changed to `service`,
    /// with `call` the next call for that service's own subtree. While
    /// there is such a call, it is the next one. Once there is none, the
    /// next service is asked for.
    pub open spec fn proceed(self, index: int, service: ServiceModel, call: Option<DriverCallModel>) -> (
        ProfileModel,
        Option<DriverCallModel>,
    ) {
        let changed = self.with_service_at(index, service);
        if call is Some {
            (changed, call)
        } else {
            changed.advance()
        }
    }

    /// The completion of a service's creation: the new profile, whether
    /// the completion found its service, and the next call. It goes to the
    /// first service, in the order of declaration, that waits for one
    /// under `uuid`.
    pub open spec fn on_service_created(self, uuid: BleUuid, ok: bool, handle: u16) -> (
        ProfileModel,
        bool,
        Option<DriverCallModel>,
    ) {
        match first_index(self.services, awaiting_service(uuid)) {
            Some(i) => {
                let (service, call) = self.services[i].on_created(ok, handle);
                let (profile, next) = self.proceed(i, service, call);
                (profile, true, next)
            },
            None => (self, false, None),
        }
    }

    /// The completion of a service's start. It goes to the first service
    /// that was created under `handle` and waits for its start.
    pub open spec fn on_service_started(self, handle: u16, ok: bool) -> (
        ProfileModel,
        bool,
        Option<DriverCallModel>,
    ) {
        match first_index(self.services, starting_service(handle)) {
            Some(i) => {
                let (service, call) = self.services[i].on_started(ok);
                let (profile, next) = self.proceed(i, service, call);
                (profile, true, next)
            },
            None => (self, false, None),
        }
    }

    /// The completion of a characteristic's registration. It goes to the
    /// first service that runs under `service_handle`, and there to the
    /// first characteristic that waits for one under `uuid`.
    pub open spec fn on_characteristic_added(
        self,
        service_handle: u16,
        uuid: BleUuid,
        ok: bool,
        handle: u16,
    ) -> (ProfileModel, bool, Option<DriverCallModel>) {
        match first_index(self.services, running_service(service_handle)) {
            Some(i) => {
                let (service, resolved, call) = self.services[i].on_characteristic_added(
                    uuid,
                    ok,
                    handle,
                );
                if resolved {
                    let (profile, next) = self.proceed(i, service, call);
                    (profile, true, next)
                } else {
                    (self, false, None)
                }
            },
            None => (self, false, None),
        }
    }

    /// The completion of a descriptor's registration. It goes to the first
    /// service that runs under `service_handle`, and there to the first
    /// descriptor that waits for one under `uuid`.
    pub open spec fn on_descriptor_added(
        self,
        service_handle: u16,
        uuid: BleUuid,
        ok: bool,
        handle: u16,
    ) -> (ProfileModel, bool, Option<DriverCallModel>) {
        match first_index(self.services, running_service(service_handle)) {
            Some(i) => {
                let (service, resolved, call) = self.services[i].on_descriptor_added(
                    uuid,
                    ok,
                    handle,
                );
                if resolved {
                    let (profile, next) = self.proceed(i, service, call);
                    (profile, true, next)
                } else {
                    (self, false, None)
                }
            },
            None => (self, false, None),
        }
    }

    /// The first service that answers to `handle`.
    pub open spec fn service_by_handle(self, handle: u16) -> Option<int> {
        first_index(self.services, service_at(handle))
    }

    /// The first service with the identifier `uuid`.
    pub open spec fn service_by_id(self, uuid: BleUuid) -> Option<int> {
        first_index(self.services, service_named(uuid))
    }

    /// The first service with an attribute that answers to `handle`.
    pub open spec fn locate(self, handle: u16) -> Option<int> {
        first_index(self.services, service_holding(handle))
    }

    /// What a read of `request.handle` asks of the host, and whether the
    /// handle names an attribute of the profile. The attribute is the
    /// first one that answers to the handle when the tree is walked depth
    /// first: services in order, in each its characteristics in order,
    /// each characteristic before its descriptors.
    pub open spec fn read_steps(self, request: ReadRequest, interface: u8) -> (bool, Seq<StepModel>) {
        match self.locate(request.handle) {
            Some(i) => (true, self.services[i].read_steps(request, interface)),
            None => (false, Seq::empty()),
        }
    }

    /// What a write to `write.handle` asks of the host, and whether the
    /// handle names an attribute of the profile.
    pub open spec fn write_steps(self, write: WriteRequestModel, interface: u8) -> (
        bool,
        Seq<StepModel>,
    ) {
        match self.locate(write.handle) {
            Some(i) => (true, self.services[i].write_steps(write, interface)),
            None => (false, Seq::empty()),
        }
    }

    /// What a change of the value of the characteristic `handle` of the
    /// service `service_handle` asks of the host, and whether the two
    /// handles name a characteristic of the profile.
    pub open spec fn publish_steps(
        self,
        interface: u8,
        service_handle: u16,
        handle: u16,
        connections: Seq<Connection>,
    ) -> (bool, Seq<StepModel>) {
        match self.service_by_handle(service_handle) {
            Some(i) => (
                self.services[i].characteristic_by_handle(handle) is Some,
                self.services[i].publish_steps(interface, handle, connections),
            ),
            None => (false, Seq::empty()),
        }
    }

    /// The outcome of giving the characteristic at `characteristic` of the
    /// service at `service` a new value.
    pub open spec fn set_value(self, service: int, characteristic: int, value: Seq<u8>) -> Result<
        (ProfileModel, Option<DriverCallModel>),
        ConfigurationError,
    > {
        if 0 <= service < self.services.len() {
            match self.services[service].set_value(characteristic, value) {
                Ok((changed, call)) => Ok((self.with_service_at(service, changed), call)),
                Err(error) => Err(error),
            }
        } else {
            Err(ConfigurationError::UnknownAttribute)
        }
    }
}

impl Profile {
    #[must_use]
    pub fn new(name: &str, identifier: u16) -> (r: Self)
        ensures
            r@ == ProfileModel::declared(name@, identifier),
    {
        let r = Self {
            name: Some(name.to_owned()),
            services: Vec::new(),
            identifier,
            state: ProfileState::Unregistered,
        };
        assert(r@.services =~= Seq::empty());
        r
    }

    /// Adds a service after those that the profile has.
    #[must_use]
    pub fn add_service(self, service: Service) -> (r: Self)
        ensures
            r@ == self@.with_service(service@),
    {
        let mut r = self;
        r.services.push(service);
        assert(r@.services =~= self@.services.push(service@));
        r
    }

    /// The position of the first service that answers to `handle`.
    pub fn get_service(&self, handle: u16) -> (r: Option<usize>)
        ensures
            match r {
                Some(i) => self@.service_by_handle(handle) == Some(i as int) && i
                    < self@.services.len(),
                None => self@.service_by_handle(handle) is None,
            },
    {
        let mut i: usize = 0;
        while i < self.services.len()
            invariant
                i <= self.services.len(),
                forall|k: int| 0 <= k < i ==> !service_at(handle)(#[trigger] self@.services[k]),
            decreases self.services.len() - i,
        {
            if self.services[i].handle() == Some(handle) {
                proof {
                    lemma_first_index_found(self@.services, service_at(handle), i as int);
                }
                return Some(i);
            }
            i += 1;
        }
        proof {
            lemma_first_index_absent(self@.services, service_at(handle));
        }
        None
    }

    /// The position of the first service with the identifier `uuid`.
    pub fn get_service_by_id(&self, uuid: &BleUuid) -> (r: Option<usize>)
        ensures
            match r {
                Some(i) => self@.service_by_id(*uuid) == Some(i as int) && i < self@.services.len(),
                None => self@.service_by_id(*uuid) is None,
            },
    {
        let mut i: usize = 0;
        while i < self.services.len()
            invariant
                i <= self.services.len(),
                forall|k: int| 0 <= k < i ==> !service_named(*uuid)(#[trigger] self@.services[k]),
            decreases self.services.len() - i,
        {
            if self.services[i].uuid() == *uuid {
                proof {
                    lemma_first_index_found(self@.services, service_named(*uuid), i as int);
                }
                return Some(i);
            }
            i += 1;
        }
        proof {
            lemma_first_index_absent(self@.services, service_named(*uuid));
        }
        None
    }

    /// The position of the first service with an attribute that answers
    /// to `handle`.
    pub fn locate(&self, handle: u16) -> (r: Option<usize>)
        ensures
            match r {
                Some(i) => self@.locate(handle) == Some(i as int) && i < self@.services.len(),
                None => self@.locate(handle) is None,
            },
    {
        let mut i: usize = 0;
        while i < self.services.len()
            invariant
                i <= self.services.len(),
                forall|k: int| 0 <= k < i ==> !service_holding(handle)(#[trigger] self@.services[k]),
            decreases self.services.len() - i,
        {
            if self.services[i].locate(handle).is_some() {
                proof {
                    lemma_first_index_found(self@.services, service_holding(handle), i as int);
                }
                return Some(i);
            }
            i += 1;
        }
        proof {
            lemma_first_index_absent(self@.services, service_holding(handle));
        }
        None
    }

    fn first_unregistered(&self) -> (r: Option<usize>)
        ensures
            match r {
                Some(i) => self@.next_service() == Some(i as int) && i < self@.services.len(),
                None => self@.next_service() is None,
            },
    {
        let mut i: usize = 0;
        while i < self.services.len()
            invariant
                i <= self.services.len(),
                forall|k: int| 0 <= k < i ==> !unregistered_service()(#[trigger] self@.services[k]),
            decreases self.services.len() - i,
        {
            if matches!(self.services[i].state(), ServiceState::Unregistered) {
                proof {
                    lemma_first_index_found(self@.services, unregistered_service(), i as int);
                }
                return Some(i);
            }
            i += 1;
        }
        proof {
            lemma_first_index_absent(self@.services, unregistered_service());
        }
        None
    }

    fn first_awaiting(&self, uuid: &BleUuid) -> (r: Option<usize>)
        ensures
            match r {
                Some(i) => first_index(self@.services, awaiting_service(*uuid)) == Some(i as int)
                    && i < self@.services.len(),
                None => first_index(self@.services, awaiting_service(*uuid)) is None,
            },
    {
        let mut i: usize = 0;
        while i < self.services.len()
            invariant
                i <= self.services.len(),
                forall|k: int|
                    0 <= k < i ==> !awaiting_service(*uuid)(#[trigger] self@.services[k]),
            decreases self.services.len() - i,
        {
            if matches!(self.services[i].state(), ServiceState::Requested)
                && self.services[i].uuid() == *uuid {
                proof {
                    lemma_first_index_found(self@.services, awaiting_service(*uuid), i as int);
                }
                return Some(i);
            }
            i += 1;
        }
        proof {
            lemma_first_index_absent(self@.services, awaiting_service(*uuid));
        }
        None
    }

    fn first_starting(&self, handle: u16) -> (r: Option<usize>)
        ensures
            match r {
                Some(i) => first_index(self@.services, starting_service(handle)) == Some(i as int)
                    && i < self@.services.len(),
                None => first_index(self@.services, starting_service(handle)) is None,
            },
    {
        let mut i: usize = 0;
        while i < self.services.len()
            invariant
                i <= self.services.len(),
                forall|k: int|
                    0 <= k < i ==> !starting_service(handle)(#[trigger] self@.services[k]),
            decreases self.services.len() - i,
        {
            let found = match self.services[i].state() {
                ServiceState::Created(created) => created == handle,
                _ => false,
            };
            if found {
                proof {
                    lemma_first_index_found(self@.services, starting_service(handle), i as int);
                }
                return Some(i);
            }
            i += 1;
        }
        proof {
            lemma_first_index_absent(self@.services, starting_service(handle));
        }
        None
    }

    fn first_running(&self, handle: u16) -> (r: Option<usize>)
        ensures
            match r {
                Some(i) => first_index(self@.services, running_service(handle)) == Some(i as int)
                    && i < self@.services.len(),
                None => first_index(self@.services, running_service(handle)) is None,
            },
    {
        let mut i: usize = 0;
        while i < self.services.len()
            invariant
                i <= self.services.len(),
                forall|k: int|
                    0 <= k < i ==> !running_service(handle)(#[trigger] self@.services[k]),
            decreases self.services.len() - i,
        {
            let found = match self.services[i].state() {
                ServiceState::Started(started) => started == handle,
                _ => false,
            };
            if found {
                proof {
                    lemma_first_index_found(self@.services, running_service(handle), i as int);
                }
                return Some(i);
            }
            i += 1;
        }
        proof {
            lemma_first_index_absent(self@.services, running_service(handle));
        }
        None
    }

    /// Marks the profile as asked for and returns the call that registers
    /// it.
    pub fn register_self(&mut self) -> (call: DriverCall)
        ensures
            final(self)@ == old(self)@.requested(),
            call@ == old(self)@.request(),
    {
        self.state = ProfileState::Requested;
        DriverCall::RegisterApplication { app_id: self.identifier }
    }

    /// Asks for the first service that was not asked for yet. The services
    /// are registered one after the other: the next one is asked for when
    /// the one before it, with all that is under it, is done.
    pub fn register_services(&mut self) -> (call: Option<DriverCall>)
        ensures
            (final(self)@, call_model(call)) == old(self)@.advance(),
    {
        let interface = match self.state {
            ProfileState::Registered(interface) => interface,
            _ => {
                return None;
            },
        };
        match self.first_unregistered() {
            Some(i) => {
                let call = self.services[i].register_self(interface);
                assert(self@.services =~= old(self)@.services.update(
                    i as int,
                    old(self)@.services[i as int].requested(),
                ));
                Some(call)
            },
            None => None,
        }
    }

    /// Records the completion of the profile's registration and asks for
    /// its first service.
    pub fn on_registered(&mut self, ok: bool, interface: u8) -> (call: Option<DriverCall>)
        ensures
            (final(self)@, call_model(call)) == old(self)@.on_registered(ok, interface),
    {
        if !matches!(self.state, ProfileState::Requested) {
            return None;
        }
        if ok {
            self.state = ProfileState::Registered(interface);
            self.register_services()
        } else {
            self.state = ProfileState::Failed;
            None
        }
    }

    /// Records the completion of a service's creation and returns whether
    /// it found its service, and the next call.
    pub fn on_service_created(&mut self, uuid: &BleUuid, ok: bool, handle: u16) -> (r: (
        bool,
        Option<DriverCall>,
    ))
        ensures
            (final(self)@, r.0, call_model(r.1)) == old(self)@.on_service_created(*uuid, ok, handle),
    {
        match self.first_awaiting(uuid) {
            Some(i) => {
                let call = self.services[i].on_created(ok, handle);
                assert(self@.services =~= old(self)@.services.update(
                    i as int,
                    old(self)@.services[i as int].on_created(ok, handle).0,
                ));
                if call.is_some() {
                    (true, call)
                } else {
                    (true, self.register_services())
                }
            },
            None => (false, None),
        }
    }

    /// Records the completion of a service's start and returns whether it
    /// found its service, and the next call.
    pub fn on_start(&mut self, handle: u16, ok: bool) -> (r: (bool, Option<DriverCall>))
        ensures
            (final(self)@, r.0, call_model(r.1)) == old(self)@.on_service_started(handle, ok),
    {
        match self.first_starting(handle) {
            Some(i) => {
                let call = self.services[i].on_started(ok);
                assert(self@.services =~= old(self)@.services.update(
                    i as int,
                    old(self)@.services[i as int].on_started(ok).0,
                ));
                if call.is_some() {
                    (true, call)
                } else {
                    (true, self.register_services())
                }
            },
            None => (false, None),
        }
    }

    /// Records the completion of a characteristic's registration and
    /// returns whether it found its characteristic, and the next call.
    pub fn on_char_add(&mut self, service_handle: u16, uuid: &BleUuid, ok: bool, handle: u16) -> (r:
        (bool, Option<DriverCall>))
        ensures
            (final(self)@, r.0, call_model(r.1)) == old(self)@.on_characteristic_added(
                service_handle,
                *uuid,
                ok,
                handle,
            ),
    {
        match self.first_running(service_handle) {
            Some(i) => {
                let (resolved, call) = self.services[i].on_characteristic_added(uuid, ok, handle);
                assert(self@.services =~= old(self)@.services.update(
                    i as int,
                    old(self)@.services[i as int].on_characteristic_added(*uuid, ok, handle).0,
                ));
                if !resolved {
                    assert(self@.services =~= old(self)@.services);
                    (false, None)
                } else if call.is_some() {
                    (true, call)
                } else {
                    (true, self.register_services())
                }
            },
            None => (false, None),
        }
    }

    /// Records the completion of a descriptor's registration and returns
    /// whether it found its descriptor, and the next call.
    pub fn on_char_add_descr(
        &mut self,
        service_handle: u16,
        uuid: &BleUuid,
        ok: bool,
        handle: u16,
    ) -> (r: (bool, Option<DriverCall>))
        ensures
            (final(self)@, r.0, call_model(r.1)) == old(self)@.on_descriptor_added(
                service_handle,
                *uuid,
                ok,
                handle,
            ),
    {
        match self.first_running(service_handle) {
            Some(i) => {
                let (resolved, call) = self.services[i].on_descriptor_added(uuid, ok, handle);
                assert(self@.services =~= old(self)@.services.update(
                    i as int,
                    old(self)@.services[i as int].on_descriptor_added(*uuid, ok, handle).0,
                ));
                if !resolved {
                    assert(self@.services =~= old(self)@.services);
                    (false, None)
                } else if call.is_some() {
                    (true, call)
                } else {
                    (true, self.register_services())
                }
            },
            None => (false, None),
        }
    }

    /// What a read of `request.handle` asks of the host, and whether the
    /// handle names an attribute of the profile.
    pub fn plan_read(&self, request: ReadRequest, interface: u8) -> (r: (bool, Vec<Step>))
        ensures
            (r.0, step_models(r.1@)) == self@.read_steps(request, interface),
    {
        match self.locate(request.handle) {
            Some(i) => (true, self.services[i].plan_read(request, interface)),
            None => {
                let steps: Vec<Step> = Vec::new();
                assert(step_models(steps@) =~= Seq::empty());
                (false, steps)
            },
        }
    }

    /// What a write to `write.handle` asks of the host, and whether the
    /// handle names an attribute of the profile.
    pub fn plan_write(&self, write: WriteRequest, interface: u8) -> (r: (bool, Vec<Step>))
        ensures
            (r.0, step_models(r.1@)) == self@.write_steps(write@, interface),
    {
        match self.locate(write.handle) {
            Some(i) => (true, self.services[i].plan_write(write, interface)),
            None => {
                let steps: Vec<Step> = Vec::new();
                assert(step_models(steps@) =~= Seq::empty());
                (false, steps)
            },
        }
    }

    /// What a change of the value of the characteristic `handle` of the
    /// service `service_handle` asks of the host, and whether the two
    /// handles name a characteristic of the profile.
    pub fn plan_publish(
        &self,
        interface: u8,
        service_handle: u16,
        handle: u16,
        connections: &Vec<Connection>,
    ) -> (r: (bool, Vec<Step>))
        ensures
            (r.0, step_models(r.1@)) == self@.publish_steps(
                interface,
                service_handle,
                handle,
                connections@,
            ),
    {
        match self.get_service(service_handle) {
            Some(i) => (
                self.services[i].get_characteristic_by_handle(handle).is_some(),
                self.services[i].plan_publish(interface, handle, connections),
            ),
            None => {
                let steps: Vec<Step> = Vec::new();
                assert(step_models(steps@) =~= Seq::empty());
                (false, steps)
            },
        }
    }

    /// Gives the characteristic at `characteristic` of the service at
    /// `service` a new value. The result is the call that tells the host
    /// stack of it, where one is owed. Where there is no such
    /// characteristic, or it cannot take the value, nothing changes.
    pub fn set_characteristic_value(
        &mut self,
        service: usize,
        characteristic: usize,
        value: Vec<u8>,
    ) -> (r: Result<Option<DriverCall>, ConfigurationError>)
        ensures
            match old(self)@.set_value(service as int, characteristic as int, value@) {
                Ok((profile, call)) => r matches Ok(made) && call_model(made) == call
                    && final(self)@ == profile,
                Err(error) => r == Err::<Option<DriverCall>, ConfigurationError>(error)
                    && final(self)@ == old(self)@,
            },
    {
        if service >= self.services.len() {
            return Err(ConfigurationError::UnknownAttribute);
        }
        let r = self.services[service].set_characteristic_value(characteristic, value);
        proof {
            if r is Ok {
                assert(self@.services =~= old(self)@.services.update(
                    service as int,
                    old(self)@.services[service as int].set_value(
                        characteristic as int,
                        value@,
                    )->Ok_0.0,
                ));
            } else {
                assert(self@.services =~= old(self)@.services);
            }
        }
        r
    }

    /// The name of the profile.
    pub fn label(&self) -> (r: &Option<String>)
        ensures
            r matches Some(s) ==> self@.name == Some(s@),
            r is None ==> self@.name is None,
    {
        &self.name
    }

    pub fn identifier(&self) -> (r: u16)
        ensures
            r == self@.identifier,
    {
        self.identifier
    }

    pub fn state(&self) -> (r: ProfileState)
        ensures
            r == self@.state,
    {
        self.state
    }

    /// The interface that the host stack has assigned, if it has.
    pub fn interface(&self) -> (r: Option<u8>)
        ensures
            r == self@.state.interface(),
    {
        self.state.assigned()
    }

    /// Whether the profile waits for a completion that names `app_id`.
    pub fn awaits(&self, app_id: u16) -> (r: bool)
        ensures
            r == self@.awaits(app_id),
    {
        matches!(self.state, ProfileState::Requested) && self.identifier == app_id
    }

    pub fn service_count(&self) -> (r: usize)
        ensures
            r == self@.services.len(),
    {
        self.services.len()
    }

    /// The service at `index`.
    pub fn service_at(&self, index: usize) -> (r: Option<&Service>)
        ensures
            index < self@.services.len() ==> (r matches Some(s) && s@
                == self@.services[index as int]),
            index >= self@.services.len() ==> r is None,
    {
        if index < self.services.len() {
            Some(&self.services[index])
        } else {
            None
        }
    }
}

impl Clone for Profile {
    fn clone(&self) -> (r: Self)
        ensures
            r@ == self@,
    {
        let mut services: Vec<Service> = Vec::new();
        let mut i: usize = 0;
        while i < self.services.len()
            invariant
                i <= self.services.len(),
                services@.len() == i,
                forall|k: int| 0 <= k < i ==> services@[k]@ == self.services@[k]@,
            decreases self.services.len() - i,
        {
            services.push(self.services[i].clone());
            i += 1;
        }
        let r = Self {
            name: match &self.name {
                Some(name) => Some(name.clone()),
                None => None,
            },
            services,
            identifier: self.identifier,
            state: self.state,
        };
        assert(r@.services =~= self@.services);
        r
    }
}

} // verus!
