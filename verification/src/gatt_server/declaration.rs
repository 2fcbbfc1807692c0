//! What was declared stays what it is.
//!
//! The events of the host stack move the registration of the tree and
//! nothing else: no event changes a value, a handler, a permission or
//! the shape of the tree. `declaration` is a node without its
//! registration; the lemmas below show that every event leaves it alone.

use crate::gatt_server::characteristic::CharacteristicModel;
use crate::gatt_server::descriptor::DescriptorModel;
use crate::gatt_server::driver::{creatable_call, creatable_steps, DriverCallModel, GattsEvent};
use crate::gatt_server::profile::ProfileModel;
use crate::gatt_server::registration::{ProfileState, Registration, ServiceState, GATT_OK};
use crate::gatt_server::server::GattServerModel;
use crate::gatt_server::service::ServiceModel;
use crate::utilities::BleUuid;
use vstd::prelude::*;

verus! {

impl DescriptorModel {
    /// The descriptor as it was declared: without its registration.
    pub open spec fn declaration(self) -> DescriptorModel {
        DescriptorModel { registration: Registration::Unregistered, ..self }
    }
}

impl CharacteristicModel {
    /// The characteristic as it was declared: without its registration
    /// and that of its descriptors.
    pub open spec fn declaration(self) -> CharacteristicModel {
        CharacteristicModel {
            registration: Registration::Unregistered,
            descriptors: self.descriptors.map_values(|d: DescriptorModel| d.declaration()),
            ..self
        }
    }
}

impl ServiceModel {
    /// The service as it was declared.
    pub open spec fn declaration(self) -> ServiceModel {
        ServiceModel {
            state: ServiceState::Unregistered,
            characteristics: self.characteristics.map_values(
                |c: CharacteristicModel| c.declaration(),
            ),
            ..self
        }
    }

    /// Every characteristic of the service is coherent.
    pub open spec fn coherent(self) -> bool {
        forall|i: int|
            0 <= i < self.characteristics.len() ==> (#[trigger] self.characteristics[i]).coherent()
    }
}

impl ProfileModel {
    /// The profile as it was declared.
    pub open spec fn declaration(self) -> ProfileModel {
        ProfileModel {
            state: ProfileState::Unregistered,
            services: self.services.map_values(|s: ServiceModel| s.declaration()),
            ..self
        }
    }

    /// Every characteristic of the profile is coherent.
    pub open spec fn coherent(self) -> bool {
        forall|i: int| 0 <= i < self.services.len() ==> (#[trigger] self.services[i]).coherent()
    }
}

impl GattServerModel {
    /// The profiles of the server as they were declared.
    pub open spec fn declaration(self) -> Seq<ProfileModel> {
        self.profiles.map_values(|p: ProfileModel| p.declaration())
    }

    /// Every characteristic of the server is coherent.
    pub open spec fn coherent(self) -> bool {
        forall|i: int| 0 <= i < self.profiles.len() ==> (#[trigger] self.profiles[i]).coherent()
    }
}

/// The steps of a characteristic's registration leave its declaration
/// alone.
pub proof fn lemma_characteristic_declaration_kept(
    c: CharacteristicModel,
    uuid: BleUuid,
    ok: bool,
    handle: u16,
    service_handle: u16,
)
    ensures
        c.requested().declaration() == c.declaration(),
        c.advance(service_handle).0.declaration() == c.declaration(),
        c.on_added(ok, handle, service_handle).0.declaration() == c.declaration(),
        c.on_descriptor_added(uuid, ok, handle, service_handle).0.declaration() == c.declaration(),
{
    lemma_advance_declaration(c, service_handle);
    if ok {
        let registered = CharacteristicModel {
            registration: Registration::Registered(handle),
            ..c
        };
        lemma_advance_declaration(registered, service_handle);
    }
    match c.awaiting(uuid) {
        Some(j) => {
            crate::utilities::search::lemma_first_index_sound(
                c.descriptors,
                crate::gatt_server::characteristic::awaiting_descriptor(uuid),
            );
            let completed = CharacteristicModel {
                descriptors: c.descriptors.update(j, c.descriptors[j].completed(ok, handle)),
                ..c
            };
            assert(completed.declaration().descriptors =~= c.declaration().descriptors);
            lemma_advance_declaration(completed, service_handle);
        },
        None => {},
    }
}

proof fn lemma_advance_declaration(c: CharacteristicModel, service_handle: u16)
    ensures
        c.advance(service_handle).0.declaration() == c.declaration(),
{
    crate::utilities::search::lemma_first_index_sound(
        c.descriptors,
        crate::gatt_server::characteristic::unregistered_descriptor(),
    );
    assert(c.advance(service_handle).0.declaration().descriptors =~= c.declaration().descriptors);
}

/// A service whose characteristic at `index` is replaced by one of the
/// same declaration has the declaration it had.
proof fn lemma_replaced_characteristic(s: ServiceModel, index: int, c: CharacteristicModel)
    requires
        0 <= index < s.characteristics.len(),
        c.declaration() == s.characteristics[index].declaration(),
    ensures
        s.with_characteristic_at(index, c).declaration() == s.declaration(),
{
    assert(s.with_characteristic_at(index, c).declaration().characteristics
        =~= s.declaration().characteristics);
}

proof fn lemma_advance_service_declaration(s: ServiceModel)
    ensures
        s.advance().0.declaration() == s.declaration(),
{
    crate::utilities::search::lemma_first_index_sound(
        s.characteristics,
        crate::gatt_server::service::unregistered_characteristic(),
    );
    match (s.state, s.next_characteristic()) {
        (ServiceState::Started(handle), Some(i)) => {
            lemma_replaced_characteristic(s, i, s.characteristics[i].requested());
        },
        _ => {},
    }
}

proof fn lemma_proceed_service_declaration(
    s: ServiceModel,
    index: int,
    c: CharacteristicModel,
    call: Option<DriverCallModel>,
)
    requires
        0 <= index < s.characteristics.len(),
        c.declaration() == s.characteristics[index].declaration(),
    ensures
        s.proceed(index, c, call).0.declaration() == s.declaration(),
{
    lemma_replaced_characteristic(s, index, c);
    lemma_advance_service_declaration(s.with_characteristic_at(index, c));
}

/// The steps of a service's registration leave its declaration alone.
pub proof fn lemma_service_declaration_kept(s: ServiceModel, uuid: BleUuid, ok: bool, handle: u16)
    ensures
        s.requested().declaration() == s.declaration(),
        s.advance().0.declaration() == s.declaration(),
        s.on_created(ok, handle).0.declaration() == s.declaration(),
        s.on_started(ok).0.declaration() == s.declaration(),
        s.on_characteristic_added(uuid, ok, handle).0.declaration() == s.declaration(),
        s.on_descriptor_added(uuid, ok, handle).0.declaration() == s.declaration(),
{
    lemma_advance_service_declaration(s);
    match s.state {
        ServiceState::Created(created) => {
            lemma_advance_service_declaration(
                ServiceModel { state: ServiceState::Started(created), ..s },
            );
        },
        _ => {},
    }
    match (s.state, s.awaiting(uuid)) {
        (ServiceState::Started(service_handle), Some(i)) => {
            crate::utilities::search::lemma_first_index_sound(
                s.characteristics,
                crate::gatt_server::service::awaiting_characteristic(uuid),
            );
            lemma_characteristic_declaration_kept(
                s.characteristics[i],
                uuid,
                ok,
                handle,
                service_handle,
            );
            let (c, call) = s.characteristics[i].on_added(ok, handle, service_handle);
            lemma_proceed_service_declaration(s, i, c, call);
        },
        _ => {},
    }
    match (s.state, s.awaiting_descriptor(uuid)) {
        (ServiceState::Started(service_handle), Some(i)) => {
            crate::utilities::search::lemma_first_index_sound(
                s.characteristics,
                crate::gatt_server::service::awaiting_owner(uuid),
            );
            lemma_characteristic_declaration_kept(
                s.characteristics[i],
                uuid,
                ok,
                handle,
                service_handle,
            );
            let (c, call) = s.characteristics[i].on_descriptor_added(
                uuid,
                ok,
                handle,
                service_handle,
            );
            lemma_proceed_service_declaration(s, i, c, call);
        },
        _ => {},
    }
}

proof fn lemma_replaced_service(p: ProfileModel, index: int, s: ServiceModel)
    requires
        0 <= index < p.services.len(),
        s.declaration() == p.services[index].declaration(),
    ensures
        p.with_service_at(index, s).declaration() == p.declaration(),
{
    assert(p.with_service_at(index, s).declaration().services =~= p.declaration().services);
}

proof fn lemma_advance_profile_declaration(p: ProfileModel)
    ensures
        p.advance().0.declaration() == p.declaration(),
{
    crate::utilities::search::lemma_first_index_sound(
        p.services,
        crate::gatt_server::profile::unregistered_service(),
    );
    match (p.state, p.next_service()) {
        (ProfileState::Registered(interface), Some(i)) => {
            lemma_replaced_service(p, i, p.services[i].requested());
        },
        _ => {},
    }
}

proof fn lemma_proceed_profile_declaration(
    p: ProfileModel,
    index: int,
    s: ServiceModel,
    call: Option<DriverCallModel>,
)
    requires
        0 <= index < p.services.len(),
        s.declaration() == p.services[index].declaration(),
    ensures
        p.proceed(index, s, call).0.declaration() == p.declaration(),
{
    lemma_replaced_service(p, index, s);
    lemma_advance_profile_declaration(p.with_service_at(index, s));
}

/// No event changes the declaration of a profile.
pub proof fn lemma_profile_declaration_kept(p: ProfileModel, interface: u8, event: GattsEvent)
    ensures
        p.requested().declaration() == p.declaration(),
        p.react(interface, event).0.declaration() == p.declaration(),
{
    match event {
        GattsEvent::Register { status, app_id } => {
            if p.state is Requested && status == GATT_OK {
                lemma_advance_profile_declaration(
                    ProfileModel { state: ProfileState::Registered(interface), ..p },
                );
            }
        },
        GattsEvent::Create { status, service_handle, service_uuid } => {
            let waiting = crate::gatt_server::profile::awaiting_service(service_uuid);
            crate::utilities::search::lemma_first_index_sound(p.services, waiting);
            match crate::utilities::search::first_index(p.services, waiting) {
                Some(i) => {
                    lemma_service_declaration_kept(
                        p.services[i],
                        service_uuid,
                        status == GATT_OK,
                        service_handle,
                    );
                    let (s, call) = p.services[i].on_created(status == GATT_OK, service_handle);
                    lemma_proceed_profile_declaration(p, i, s, call);
                },
                None => {},
            }
        },
        GattsEvent::Start { status, service_handle } => {
            let starting = crate::gatt_server::profile::starting_service(service_handle);
            crate::utilities::search::lemma_first_index_sound(p.services, starting);
            match crate::utilities::search::first_index(p.services, starting) {
                Some(i) => {
                    lemma_service_declaration_kept(
                        p.services[i],
                        p.services[i].uuid,
                        status == GATT_OK,
                        service_handle,
                    );
                    let (s, call) = p.services[i].on_started(status == GATT_OK);
                    lemma_proceed_profile_declaration(p, i, s, call);
                },
                None => {},
            }
        },
        GattsEvent::AddCharacteristic { status, attr_handle, service_handle, char_uuid } => {
            let running = crate::gatt_server::profile::running_service(service_handle);
            crate::utilities::search::lemma_first_index_sound(p.services, running);
            match crate::utilities::search::first_index(p.services, running) {
                Some(i) => {
                    lemma_service_declaration_kept(
                        p.services[i],
                        char_uuid,
                        status == GATT_OK,
                        attr_handle,
                    );
                    let (s, resolved, call) = p.services[i].on_characteristic_added(
                        char_uuid,
                        status == GATT_OK,
                        attr_handle,
                    );
                    if resolved {
                        lemma_proceed_profile_declaration(p, i, s, call);
                    }
                },
                None => {},
            }
        },
        GattsEvent::AddDescriptor { status, attr_handle, service_handle, descr_uuid } => {
            let running = crate::gatt_server::profile::running_service(service_handle);
            crate::utilities::search::lemma_first_index_sound(p.services, running);
            match crate::utilities::search::first_index(p.services, running) {
                Some(i) => {
                    lemma_service_declaration_kept(
                        p.services[i],
                        descr_uuid,
                        status == GATT_OK,
                        attr_handle,
                    );
                    let (s, resolved, call) = p.services[i].on_descriptor_added(
                        descr_uuid,
                        status == GATT_OK,
                        attr_handle,
                    );
                    if resolved {
                        lemma_proceed_profile_declaration(p, i, s, call);
                    }
                },
                None => {},
            }
        },
        _ => {},
    }
}

/// No event, and no start, changes what was declared: the values, the
/// handlers, the permissions and the shape of the tree are what the
/// application has made them, and so are the name and the appearance of
/// the device.
pub proof fn lemma_declaration_kept(server: GattServerModel, interface: u8, event: GattsEvent)
    ensures
        server.react(interface, event).0.declaration() == server.declaration(),
        server.react(interface, event).0.device_name == server.device_name,
        server.react(interface, event).0.appearance == server.appearance,
        server.react(interface, event).0.advertised_service == server.advertised_service,
        server.react(interface, event).0.started == server.started,
        server.start().0.declaration() == server.declaration(),
{
    let after = server.react(interface, event).0;
    match event {
        GattsEvent::Register { status, app_id } => {
            let waiting = crate::gatt_server::server::awaiting_profile(app_id);
            crate::utilities::search::lemma_first_index_sound(server.profiles, waiting);
            match crate::utilities::search::first_index(server.profiles, waiting) {
                Some(i) => {
                    lemma_profile_declaration_kept(server.profiles[i], interface, event);
                    assert(after.declaration() =~= server.declaration());
                },
                None => {},
            }
        },
        GattsEvent::Connect { .. } => {},
        GattsEvent::Disconnect { .. } => {},
        GattsEvent::Mtu { .. } => {},
        GattsEvent::Response { .. } => {},
        GattsEvent::SetAttributeValue { .. } => {},
        _ => {
            crate::utilities::search::lemma_first_index_sound(
                server.profiles,
                crate::gatt_server::server::profile_on(interface),
            );
            match server.profile_by_interface(interface) {
                Some(i) => {
                    lemma_profile_declaration_kept(server.profiles[i], interface, event);
                    assert(after.declaration() =~= server.declaration());
                },
                None => {},
            }
        },
    }
    assert(server.start().0.declaration() =~= server.declaration()) by {
        if !server.started {
            assert forall|i: int| 0 <= i < server.profiles.len() implies (
            #[trigger] server.start().0.profiles[i]).declaration()
                == server.profiles[i].declaration() by {
                lemma_profile_declaration_kept(server.profiles[i], interface, event);
            }
        }
    }
}

/// The steps of a characteristic's registration leave it coherent.
proof fn lemma_characteristic_steps_coherent(
    c: CharacteristicModel,
    uuid: BleUuid,
    ok: bool,
    handle: u16,
    service_handle: u16,
)
    requires
        c.coherent(),
    ensures
        c.requested().coherent(),
        c.on_added(ok, handle, service_handle).0.coherent(),
        c.on_descriptor_added(uuid, ok, handle, service_handle).0.coherent(),
        creatable_call(c.on_added(ok, handle, service_handle).1),
        creatable_call(c.on_descriptor_added(uuid, ok, handle, service_handle).1),
        c.registration is Unregistered ==> c.request(service_handle).creatable(),
{
    crate::gatt_server::characteristic::lemma_coherent_kept(
        c,
        c.value,
        crate::utilities::Callback::Subscription,
        DescriptorModel::cccd(),
        0,
        uuid,
        ok,
        handle,
        service_handle,
    );
}

proof fn lemma_replaced_characteristic_coherent(s: ServiceModel, index: int, c: CharacteristicModel)
    requires
        s.coherent(),
        0 <= index < s.characteristics.len(),
        c.coherent(),
    ensures
        s.with_characteristic_at(index, c).coherent(),
{
    let after = s.with_characteristic_at(index, c);
    assert forall|k: int| 0 <= k < after.characteristics.len() implies (
    #[trigger] after.characteristics[k]).coherent() by {
        if k != index {
            assert(after.characteristics[k] == s.characteristics[k]);
        }
    }
}

proof fn lemma_advance_service_coherent(s: ServiceModel)
    requires
        s.coherent(),
    ensures
        s.advance().0.coherent(),
        creatable_call(s.advance().1),
{
    crate::utilities::search::lemma_first_index_sound(
        s.characteristics,
        crate::gatt_server::service::unregistered_characteristic(),
    );
    match (s.state, s.next_characteristic()) {
        (ServiceState::Started(handle), Some(i)) => {
            assert(s.characteristics[i].coherent());
            assert(crate::gatt_server::service::unregistered_characteristic()(
                s.characteristics[i],
            ));
            lemma_replaced_characteristic_coherent(s, i, s.characteristics[i].requested());
        },
        _ => {},
    }
}

proof fn lemma_proceed_service_coherent(
    s: ServiceModel,
    index: int,
    c: CharacteristicModel,
    call: Option<DriverCallModel>,
)
    requires
        s.coherent(),
        0 <= index < s.characteristics.len(),
        c.coherent(),
        creatable_call(call),
    ensures
        s.proceed(index, c, call).0.coherent(),
        creatable_call(s.proceed(index, c, call).1),
{
    lemma_replaced_characteristic_coherent(s, index, c);
    lemma_advance_service_coherent(s.with_characteristic_at(index, c));
}

/// The steps of a service's registration leave its characteristics
/// coherent.
pub proof fn lemma_service_coherent_kept(s: ServiceModel, uuid: BleUuid, ok: bool, handle: u16)
    requires
        s.coherent(),
    ensures
        s.requested().coherent(),
        s.advance().0.coherent(),
        s.on_created(ok, handle).0.coherent(),
        s.on_started(ok).0.coherent(),
        s.on_characteristic_added(uuid, ok, handle).0.coherent(),
        s.on_descriptor_added(uuid, ok, handle).0.coherent(),
        creatable_call(s.advance().1),
        creatable_call(s.on_created(ok, handle).1),
        creatable_call(s.on_started(ok).1),
        creatable_call(s.on_characteristic_added(uuid, ok, handle).2),
        creatable_call(s.on_descriptor_added(uuid, ok, handle).2),
{
    lemma_advance_service_coherent(s);
    assert(s.requested().characteristics == s.characteristics);
    assert(s.on_created(ok, handle).0.characteristics == s.characteristics);
    match s.state {
        ServiceState::Created(created) => {
            let started = ServiceModel { state: ServiceState::Started(created), ..s };
            assert(started.characteristics == s.characteristics);
            lemma_advance_service_coherent(started);
            assert(s.on_started(false).0.characteristics == s.characteristics);
        },
        _ => {},
    }
    match (s.state, s.awaiting(uuid)) {
        (ServiceState::Started(service_handle), Some(i)) => {
            crate::utilities::search::lemma_first_index_sound(
                s.characteristics,
                crate::gatt_server::service::awaiting_characteristic(uuid),
            );
            assert(s.characteristics[i].coherent());
            lemma_characteristic_steps_coherent(
                s.characteristics[i],
                uuid,
                ok,
                handle,
                service_handle,
            );
            let (c, call) = s.characteristics[i].on_added(ok, handle, service_handle);
            lemma_proceed_service_coherent(s, i, c, call);
        },
        _ => {},
    }
    match (s.state, s.awaiting_descriptor(uuid)) {
        (ServiceState::Started(service_handle), Some(i)) => {
            crate::utilities::search::lemma_first_index_sound(
                s.characteristics,
                crate::gatt_server::service::awaiting_owner(uuid),
            );
            assert(s.characteristics[i].coherent());
            lemma_characteristic_steps_coherent(
                s.characteristics[i],
                uuid,
                ok,
                handle,
                service_handle,
            );
            let (c, call) = s.characteristics[i].on_descriptor_added(
                uuid,
                ok,
                handle,
                service_handle,
            );
            lemma_proceed_service_coherent(s, i, c, call);
        },
        _ => {},
    }
}

proof fn lemma_replaced_service_coherent(p: ProfileModel, index: int, s: ServiceModel)
    requires
        p.coherent(),
        0 <= index < p.services.len(),
        s.coherent(),
    ensures
        p.with_service_at(index, s).coherent(),
{
    let after = p.with_service_at(index, s);
    assert forall|k: int| 0 <= k < after.services.len() implies (
    #[trigger] after.services[k]).coherent() by {
        if k != index {
            assert(after.services[k] == p.services[k]);
        }
    }
}

proof fn lemma_advance_profile_coherent(p: ProfileModel)
    requires
        p.coherent(),
    ensures
        p.advance().0.coherent(),
        creatable_call(p.advance().1),
{
    crate::utilities::search::lemma_first_index_sound(
        p.services,
        crate::gatt_server::profile::unregistered_service(),
    );
    match (p.state, p.next_service()) {
        (ProfileState::Registered(interface), Some(i)) => {
            assert(p.services[i].coherent());
            lemma_service_coherent_kept(p.services[i], p.services[i].uuid, true, 0);
            lemma_replaced_service_coherent(p, i, p.services[i].requested());
        },
        _ => {},
    }
}

proof fn lemma_proceed_profile_coherent(
    p: ProfileModel,
    index: int,
    s: ServiceModel,
    call: Option<DriverCallModel>,
)
    requires
        p.coherent(),
        0 <= index < p.services.len(),
        s.coherent(),
        creatable_call(call),
    ensures
        p.proceed(index, s, call).0.coherent(),
        creatable_call(p.proceed(index, s, call).1),
{
    lemma_replaced_service_coherent(p, index, s);
    lemma_advance_profile_coherent(p.with_service_at(index, s));
}

/// No event makes a characteristic of a profile incoherent, and no
/// reaction asks the host stack to create a characteristic that it is to
/// answer for without a value to answer with.
pub proof fn lemma_profile_coherent_kept(p: ProfileModel, interface: u8, event: GattsEvent)
    requires
        p.coherent(),
    ensures
        p.requested().coherent(),
        p.react(interface, event).0.coherent(),
        creatable_steps(p.react(interface, event).1.steps),
{
    assert(p.requested().services == p.services);
    match event {
        GattsEvent::Register { status, app_id } => {
            if p.state is Requested {
                let registered = ProfileModel { state: ProfileState::Registered(interface), ..p };
                let failed = ProfileModel { state: ProfileState::Failed, ..p };
                assert(registered.services == p.services);
                assert(failed.services == p.services);
                lemma_advance_profile_coherent(registered);
            }
        },
        GattsEvent::Create { status, service_handle, service_uuid } => {
            let waiting = crate::gatt_server::profile::awaiting_service(service_uuid);
            crate::utilities::search::lemma_first_index_sound(p.services, waiting);
            match crate::utilities::search::first_index(p.services, waiting) {
                Some(i) => {
                    assert(p.services[i].coherent());
                    lemma_service_coherent_kept(
                        p.services[i],
                        service_uuid,
                        status == GATT_OK,
                        service_handle,
                    );
                    let (s, call) = p.services[i].on_created(status == GATT_OK, service_handle);
                    lemma_proceed_profile_coherent(p, i, s, call);
                },
                None => {},
            }
        },
        GattsEvent::Start { status, service_handle } => {
            let starting = crate::gatt_server::profile::starting_service(service_handle);
            crate::utilities::search::lemma_first_index_sound(p.services, starting);
            match crate::utilities::search::first_index(p.services, starting) {
                Some(i) => {
                    assert(p.services[i].coherent());
                    lemma_service_coherent_kept(
                        p.services[i],
                        p.services[i].uuid,
                        status == GATT_OK,
                        service_handle,
                    );
                    let (s, call) = p.services[i].on_started(status == GATT_OK);
                    lemma_proceed_profile_coherent(p, i, s, call);
                },
                None => {},
            }
        },
        GattsEvent::AddCharacteristic { status, attr_handle, service_handle, char_uuid } => {
            let running = crate::gatt_server::profile::running_service(service_handle);
            crate::utilities::search::lemma_first_index_sound(p.services, running);
            match crate::utilities::search::first_index(p.services, running) {
                Some(i) => {
                    assert(p.services[i].coherent());
                    lemma_service_coherent_kept(
                        p.services[i],
                        char_uuid,
                        status == GATT_OK,
                        attr_handle,
                    );
                    let (s, resolved, call) = p.services[i].on_characteristic_added(
                        char_uuid,
                        status == GATT_OK,
                        attr_handle,
                    );
                    if resolved {
                        lemma_proceed_profile_coherent(p, i, s, call);
                    }
                },
                None => {},
            }
        },
        GattsEvent::AddDescriptor { status, attr_handle, service_handle, descr_uuid } => {
            let running = crate::gatt_server::profile::running_service(service_handle);
            crate::utilities::search::lemma_first_index_sound(p.services, running);
            match crate::utilities::search::first_index(p.services, running) {
                Some(i) => {
                    assert(p.services[i].coherent());
                    lemma_service_coherent_kept(
                        p.services[i],
                        descr_uuid,
                        status == GATT_OK,
                        attr_handle,
                    );
                    let (s, resolved, call) = p.services[i].on_descriptor_added(
                        descr_uuid,
                        status == GATT_OK,
                        attr_handle,
                    );
                    if resolved {
                        lemma_proceed_profile_coherent(p, i, s, call);
                    }
                },
                None => {},
            }
        },
        _ => {},
    }
}

/// Whatever the host stack sends, every characteristic of the server
/// stays coherent: what the stack answers reads with is the value that
/// the application has set, and a characteristic that is still to be
/// registered has a value for the stack to answer with. So no reaction
/// asks the stack to create a characteristic that it is to answer for
/// without a value.
pub proof fn lemma_coherence_kept(server: GattServerModel, interface: u8, event: GattsEvent)
    requires
        server.coherent(),
    ensures
        server.react(interface, event).0.coherent(),
        server.start().0.coherent(),
        creatable_steps(server.react(interface, event).1.steps),
{
    let after = server.react(interface, event).0;
    match event {
        GattsEvent::Register { status, app_id } => {
            let waiting = crate::gatt_server::server::awaiting_profile(app_id);
            crate::utilities::search::lemma_first_index_sound(server.profiles, waiting);
            match crate::utilities::search::first_index(server.profiles, waiting) {
                Some(i) => {
                    assert(server.profiles[i].coherent());
                    lemma_profile_coherent_kept(server.profiles[i], interface, event);
                    assert forall|k: int| 0 <= k < after.profiles.len() implies (
                    #[trigger] after.profiles[k]).coherent() by {
                        if k != i {
                            assert(after.profiles[k] == server.profiles[k]);
                        }
                    }
                },
                None => {},
            }
        },
        GattsEvent::Connect { .. } => {},
        GattsEvent::Disconnect { .. } => {},
        GattsEvent::Mtu { .. } => {},
        GattsEvent::Response { .. } => {},
        GattsEvent::SetAttributeValue { .. } => {},
        _ => {
            crate::utilities::search::lemma_first_index_sound(
                server.profiles,
                crate::gatt_server::server::profile_on(interface),
            );
            match server.profile_by_interface(interface) {
                Some(i) => {
                    assert(server.profiles[i].coherent());
                    lemma_profile_coherent_kept(server.profiles[i], interface, event);
                    assert forall|k: int| 0 <= k < after.profiles.len() implies (
                    #[trigger] after.profiles[k]).coherent() by {
                        if k != i {
                            assert(after.profiles[k] == server.profiles[k]);
                        }
                    }
                },
                None => {},
            }
        },
    }
    let started = server.start().0;
    assert forall|k: int| 0 <= k < started.profiles.len() implies (
    #[trigger] started.profiles[k]).coherent() by {
        assert(server.profiles[k].coherent());
        lemma_profile_coherent_kept(server.profiles[k], interface, event);
    }
}

/// What is built from coherent parts is coherent: a service or a profile
/// stays coherent when a coherent part is added to it, and is so before
/// anything is added.
pub proof fn lemma_built_coherent(p: ProfileModel, s: ServiceModel, c: CharacteristicModel)
    ensures
        ServiceModel::declared(s.uuid).coherent(),
        ProfileModel::declared(Seq::empty(), p.identifier).coherent(),
        GattServerModel::initial().coherent(),
        s.coherent() && c.coherent() ==> s.with_characteristic(c).coherent(),
        p.coherent() && s.coherent() ==> p.with_service(s).coherent(),
{
    if s.coherent() && c.coherent() {
        let after = s.with_characteristic(c);
        assert forall|k: int| 0 <= k < after.characteristics.len() implies (
        #[trigger] after.characteristics[k]).coherent() by {
            if k < s.characteristics.len() {
                assert(after.characteristics[k] == s.characteristics[k]);
            }
        }
    }
    if p.coherent() && s.coherent() {
        let after = p.with_service(s);
        assert forall|k: int| 0 <= k < after.services.len() implies (
        #[trigger] after.services[k]).coherent() by {
            if k < p.services.len() {
                assert(after.services[k] == p.services[k]);
            }
        }
    }
}

/// A server stays coherent when coherent profiles are added to it.
pub proof fn lemma_with_profiles_coherent(server: GattServerModel, profiles: Seq<ProfileModel>)
    requires
        server.coherent(),
        forall|i: int| 0 <= i < profiles.len() ==> (#[trigger] profiles[i]).coherent(),
    ensures
        server.with_profiles(profiles).coherent(),
{
    let after = server.with_profiles(profiles);
    assert forall|k: int| 0 <= k < after.profiles.len() implies (
    #[trigger] after.profiles[k]).coherent() by {
        if k < server.profiles.len() {
            assert(after.profiles[k] == server.profiles[k]);
        } else {
            assert(after.profiles[k] == profiles[k - server.profiles.len()]);
        }
    }
}

/// A value that is taken leaves the server coherent, and a value that is
/// refused leaves it as it is.
pub proof fn lemma_set_value_coherent(
    server: GattServerModel,
    profile: int,
    service: int,
    characteristic: int,
    value: Seq<u8>,
)
    requires
        server.coherent(),
    ensures
        server.set_value(profile, service, characteristic, value) matches Ok((after, call))
            ==> after.coherent() && after.profiles[profile].services[service].characteristics[characteristic].control
            == crate::utilities::ControlModel::AutomaticResponse(value),
{
    match server.set_value(profile, service, characteristic, value) {
        Ok((after, call)) => {
            let p = server.profiles[profile];
            let s = p.services[service];
            let c = s.characteristics[characteristic];
            assert(p.coherent());
            assert(s.coherent());
            assert(c.coherent());
            assert forall|i: int| 0 <= i < after.profiles.len() implies (
            #[trigger] after.profiles[i]).coherent() by {
                if i != profile {
                    assert(after.profiles[i] == server.profiles[i]);
                } else {
                    let q = after.profiles[i];
                    assert forall|j: int| 0 <= j < q.services.len() implies (
                    #[trigger] q.services[j]).coherent() by {
                        if j != service {
                            assert(q.services[j] == p.services[j]);
                        } else {
                            let t = q.services[j];
                            assert forall|k: int| 0 <= k < t.characteristics.len() implies (
                            #[trigger] t.characteristics[k]).coherent() by {
                                if k != characteristic {
                                    assert(t.characteristics[k] == s.characteristics[k]);
                                }
                            }
                        }
                    }
                }
            }
        },
        Err(_) => {},
    }
}

} // verus!
