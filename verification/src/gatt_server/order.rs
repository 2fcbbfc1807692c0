//! The order of registration.
//!
//! The host stack completes one registration at a time and names the node
//! by its identifier only. The tree is therefore registered depth first,
//! one call at a time: a node is asked for when all that stands before it
//! has been answered. The predicates `orderly` say what that means for
//! a tree, and the lemmas below show that no event can lead out of it.

use crate::gatt_server::characteristic::{
    awaiting_descriptor, unregistered_descriptor, CharacteristicModel,
};
use crate::gatt_server::descriptor::DescriptorModel;
use crate::gatt_server::driver::{DriverCallModel, GattsEvent};
use crate::gatt_server::profile::{
    awaiting_service, running_service, starting_service, unregistered_service, ProfileModel,
};
use crate::gatt_server::registration::{ProfileState, Registration, ServiceState, GATT_OK};
use crate::gatt_server::server::{awaiting_profile, GattServerModel};
use crate::gatt_server::service::{
    awaiting_characteristic, awaiting_owner, unregistered_characteristic, ServiceModel,
};
use crate::utilities::search::{first_index, lemma_first_index_sound};
use crate::utilities::BleUuid;
use vstd::prelude::*;

verus! {

impl CharacteristicModel {
    /// Nothing was asked of the host stack for the characteristic or any
    /// of its descriptors.
    pub open spec fn untouched(self) -> bool {
        &&& self.registration is Unregistered
        &&& forall|j: int|
            0 <= j < self.descriptors.len() ==> (
            #[trigger] self.descriptors[j]).registration is Unregistered
    }

    /// Neither the characteristic nor any of its descriptors waits for a
    /// completion.
    pub open spec fn idle(self) -> bool {
        &&& !(self.registration is Requested)
        &&& forall|j: int|
            0 <= j < self.descriptors.len() ==> !((
            #[trigger] self.descriptors[j]).registration is Requested)
    }

    /// The characteristic was registered in order: no descriptor was asked
    /// for before the characteristic had its handle, and none before every
    /// descriptor declared before it was answered.
    pub open spec fn orderly(self) -> bool {
        &&& !(self.registration is Registered) ==> forall|j: int|
            0 <= j < self.descriptors.len() ==> (
            #[trigger] self.descriptors[j]).registration is Unregistered
        &&& forall|i: int, j: int|
            0 <= i < j < self.descriptors.len() && !((
            #[trigger] self.descriptors[j]).registration is Unregistered) ==> (
            #[trigger] self.descriptors[i]).registration.settled()
    }
}

/// Whatever is newly declared is a tree that nothing was asked for.
pub proof fn lemma_declared_untouched(
    name: Seq<char>,
    uuid: BleUuid,
    permissions: crate::utilities::AttributePermissions,
    properties: crate::utilities::CharacteristicProperties,
    identifier: u16,
)
    ensures
        DescriptorModel::declared(name, uuid, permissions).registration is Unregistered,
        DescriptorModel::user_description(name).registration is Unregistered,
        DescriptorModel::cccd().registration is Unregistered,
        CharacteristicModel::declared(name, uuid, permissions, properties).untouched(),
        ServiceModel::declared(uuid).untouched(),
        ProfileModel::declared(name, identifier).untouched(),
{
}

/// What an application does to a characteristic after it has declared it
/// does not touch the registration: the characteristic stays in order, and
/// a characteristic that nothing was asked for stays so.
pub proof fn lemma_characteristic_changes_keep_order(
    c: CharacteristicModel,
    value: Seq<u8>,
    callback: crate::utilities::Callback,
    length: u16,
)
    requires
        c.orderly(),
    ensures
        c.with_value(value).orderly() && (c.untouched() ==> c.with_value(value).untouched()),
        c.with_value(value).idle() == c.idle(),
        c.with_value(value).registration == c.registration,
        c.with_read_callback(callback).orderly() && (c.untouched() ==> c.with_read_callback(
            callback,
        ).untouched()),
        c.with_write_callback(callback).orderly() && (c.untouched() ==> c.with_write_callback(
            callback,
        ).untouched()),
        c.with_value_length(length).orderly() && (c.untouched() ==> c.with_value_length(
            length,
        ).untouched()),
        c.with_name_shown().orderly() && (c.untouched() ==> c.with_name_shown().untouched()),
{
    match c.name {
        Some(name) => {
            lemma_with_descriptor_orderly(c, DescriptorModel::user_description(name));
        },
        None => {},
    }
}

/// A characteristic that nothing was asked for is in order, and nothing
/// of it waits.
pub proof fn lemma_untouched_characteristic(c: CharacteristicModel)
    requires
        c.untouched(),
    ensures
        c.orderly(),
        c.idle(),
{
}

/// Declaring another descriptor, itself not asked for, keeps a
/// characteristic in order.
pub proof fn lemma_with_descriptor_orderly(c: CharacteristicModel, d: DescriptorModel)
    requires
        c.orderly(),
        d.registration is Unregistered,
    ensures
        c.with_descriptor(d).orderly(),
        c.untouched() ==> c.with_descriptor(d).untouched(),
        c.idle() ==> c.with_descriptor(d).idle(),
{
}

/// Asking for a characteristic that nothing was asked for keeps it in
/// order.
pub proof fn lemma_requested_characteristic(c: CharacteristicModel)
    requires
        c.untouched(),
    ensures
        c.requested().orderly(),
        !c.requested().untouched(),
{
}

/// Asking for the next descriptor of a registered characteristic of which
/// nothing waits keeps it in order. Where no call results, nothing waits
/// afterwards either, and no descriptor is left to ask for.
pub proof fn lemma_advance_characteristic(c: CharacteristicModel, service_handle: u16)
    requires
        c.orderly(),
        c.idle(),
        c.registration is Registered,
    ensures
        c.advance(service_handle).0.orderly(),
        c.advance(service_handle).0.registration == c.registration,
        c.advance(service_handle).1 is None ==> c.advance(service_handle).0 == c,
        c.advance(service_handle).1 is Some ==> !c.advance(service_handle).0.idle(),
{
    lemma_first_index_sound(c.descriptors, unregistered_descriptor());
    match c.next_descriptor() {
        Some(j) => {
            let after = c.advance(service_handle).0;
            assert(after.descriptors[j].registration is Requested);
            assert forall|a: int, b: int|
                0 <= a < b < after.descriptors.len() && !((
                #[trigger] after.descriptors[b]).registration is Unregistered) implies (
            #[trigger] after.descriptors[a]).registration.settled() by {
                if b == j {
                    assert(!unregistered_descriptor()(c.descriptors[a]));
                    assert(!(c.descriptors[a].registration is Requested));
                } else {
                    assert(!(c.descriptors[b].registration is Unregistered));
                    assert(c.descriptors[a].registration.settled());
                    assert(a != j);
                }
            }
        },
        None => {},
    }
}

/// The completion of a characteristic's own registration keeps it in
/// order. Where no call results, nothing of it waits afterwards.
pub proof fn lemma_on_added_characteristic(
    c: CharacteristicModel,
    ok: bool,
    handle: u16,
    service_handle: u16,
)
    requires
        c.orderly(),
        c.registration is Requested,
    ensures
        c.on_added(ok, handle, service_handle).0.orderly(),
        c.on_added(ok, handle, service_handle).0.registration == Registration::completed(
            ok,
            handle,
        ),
        c.on_added(ok, handle, service_handle).1 is None ==> c.on_added(
            ok,
            handle,
            service_handle,
        ).0.idle(),
{
    if ok {
        let registered = CharacteristicModel {
            registration: Registration::Registered(handle),
            ..c
        };
        assert(registered.orderly());
        assert(registered.idle());
        lemma_advance_characteristic(registered, service_handle);
    }
}

/// While a descriptor of a characteristic in order waits, the
/// characteristic has its handle, every descriptor before the waiting one
/// was answered and none after it was asked for: it is the only one that
/// waits.
pub proof fn lemma_one_descriptor_waits(c: CharacteristicModel, j: int)
    requires
        c.orderly(),
        0 <= j < c.descriptors.len(),
        c.descriptors[j].registration is Requested,
    ensures
        c.registration is Registered,
        forall|i: int| 0 <= i < j ==> (#[trigger] c.descriptors[i]).registration.settled(),
        forall|k: int|
            j < k < c.descriptors.len() ==> (#[trigger] c.descriptors[k]).registration is Unregistered,
{
    assert forall|k: int| j < k < c.descriptors.len() implies (
    #[trigger] c.descriptors[k]).registration is Unregistered by {
        if !(c.descriptors[k].registration is Unregistered) {
            assert(c.descriptors[j].registration.settled());
        }
    }
}

/// The completion of a descriptor's registration keeps the characteristic
/// in order. It goes to the one descriptor that waits, and where no call
/// results, nothing of the characteristic waits afterwards.
pub proof fn lemma_on_descriptor_added_characteristic(
    c: CharacteristicModel,
    uuid: BleUuid,
    ok: bool,
    handle: u16,
    service_handle: u16,
)
    requires
        c.orderly(),
    ensures
        c.on_descriptor_added(uuid, ok, handle, service_handle).0.orderly(),
        c.on_descriptor_added(uuid, ok, handle, service_handle).0.registration == c.registration,
        c.awaiting(uuid) is Some && c.on_descriptor_added(uuid, ok, handle, service_handle).1
            is None ==> c.on_descriptor_added(uuid, ok, handle, service_handle).0.idle(),
        c.awaiting(uuid) is Some ==> !c.untouched() && !c.idle() && c.registration is Registered,
{
    lemma_first_index_sound(c.descriptors, awaiting_descriptor(uuid));
    match c.awaiting(uuid) {
        Some(j) => {
            assert(awaiting_descriptor(uuid)(c.descriptors[j]));
            lemma_one_descriptor_waits(c, j);
            let completed = CharacteristicModel {
                descriptors: c.descriptors.update(j, c.descriptors[j].completed(ok, handle)),
                ..c
            };
            assert(completed.descriptors[j].registration.settled());
            assert forall|a: int, b: int|
                0 <= a < b < completed.descriptors.len() && !((
                #[trigger] completed.descriptors[b]).registration is Unregistered) implies (
            #[trigger] completed.descriptors[a]).registration.settled() by {
                if b != j {
                    assert(!(c.descriptors[b].registration is Unregistered));
                    assert(b < j);
                }
            }
            assert(completed.orderly());
            assert forall|k: int| 0 <= k < completed.descriptors.len() implies !((
            #[trigger] completed.descriptors[k]).registration is Requested) by {
                if k < j {
                    assert(c.descriptors[k].registration.settled());
                } else if k > j {
                    assert(c.descriptors[k].registration is Unregistered);
                }
            }
            assert(completed.idle());
            lemma_advance_characteristic(completed, service_handle);
        },
        None => {},
    }
}

impl ServiceModel {
    /// Nothing was asked of the host stack for the service or anything
    /// under it.
    pub open spec fn untouched(self) -> bool {
        &&& self.state is Unregistered
        &&& forall|i: int|
            0 <= i < self.characteristics.len() ==> (#[trigger] self.characteristics[i]).untouched()
    }

    /// Neither the service nor anything under it waits for a completion.
    pub open spec fn idle(self) -> bool {
        &&& !(self.state is Requested)
        &&& !(self.state is Created)
        &&& forall|i: int|
            0 <= i < self.characteristics.len() ==> (#[trigger] self.characteristics[i]).idle()
    }

    /// The host stack has answered for the service, and nothing under it
    /// waits.
    pub open spec fn done(self) -> bool {
        (self.state is Started || self.state is Failed) && self.idle()
    }

    /// The service was registered in order: no characteristic was asked
    /// for before the service ran, and none before every characteristic
    /// declared before it was answered, with all its descriptors.
    pub open spec fn orderly(self) -> bool {
        &&& !(self.state is Started) ==> forall|i: int|
            0 <= i < self.characteristics.len() ==> (#[trigger] self.characteristics[i]).untouched()
        &&& forall|i: int, k: int|
            0 <= i < k < self.characteristics.len() && !(
            #[trigger] self.characteristics[k]).untouched() ==> (
            #[trigger] self.characteristics[i]).registration.settled()
                && self.characteristics[i].idle()
        &&& forall|i: int|
            0 <= i < self.characteristics.len() ==> (#[trigger] self.characteristics[i]).orderly()
    }
}

/// A service that nothing was asked for is in order, and nothing of it
/// waits.
pub proof fn lemma_untouched_service(s: ServiceModel)
    requires
        s.untouched(),
    ensures
        s.orderly(),
        s.idle(),
{
    assert forall|i: int| 0 <= i < s.characteristics.len() implies (
    #[trigger] s.characteristics[i]).orderly() && s.characteristics[i].idle() by {
        lemma_untouched_characteristic(s.characteristics[i]);
    }
}

/// Declaring another characteristic, of which nothing was asked for,
/// keeps a service in order.
pub proof fn lemma_with_characteristic_orderly(s: ServiceModel, c: CharacteristicModel)
    requires
        s.orderly(),
        c.untouched(),
    ensures
        s.with_characteristic(c).orderly(),
        s.untouched() ==> s.with_characteristic(c).untouched(),
        s.idle() ==> s.with_characteristic(c).idle(),
{
    lemma_untouched_characteristic(c);
    let after = s.with_characteristic(c);
    assert forall|i: int| 0 <= i < after.characteristics.len() implies (
    #[trigger] after.characteristics[i]).orderly() by {
        if i < s.characteristics.len() {
            assert(after.characteristics[i] == s.characteristics[i]);
        }
    }
    assert forall|i: int, k: int|
        0 <= i < k < after.characteristics.len() && !(
        #[trigger] after.characteristics[k]).untouched() implies (
    #[trigger] after.characteristics[i]).registration.settled()
        && after.characteristics[i].idle() by {
        assert(after.characteristics[k] == s.characteristics[k]);
        assert(after.characteristics[i] == s.characteristics[i]);
    }
    if !(s.state is Started) {
        assert forall|i: int| 0 <= i < after.characteristics.len() implies (
        #[trigger] after.characteristics[i]).untouched() by {
            if i < s.characteristics.len() {
                assert(after.characteristics[i] == s.characteristics[i]);
            }
        }
    }
    if s.idle() {
        assert forall|i: int| 0 <= i < after.characteristics.len() implies (
        #[trigger] after.characteristics[i]).idle() by {
            if i < s.characteristics.len() {
                assert(after.characteristics[i] == s.characteristics[i]);
            }
        }
    }
    if s.untouched() {
        assert forall|i: int| 0 <= i < after.characteristics.len() implies (
        #[trigger] after.characteristics[i]).untouched() by {
            if i < s.characteristics.len() {
                assert(after.characteristics[i] == s.characteristics[i]);
            }
        }
    }
}

/// Asking for a service that nothing was asked for keeps it in order.
pub proof fn lemma_requested_service(s: ServiceModel)
    requires
        s.untouched(),
    ensures
        s.requested().orderly(),
        !s.requested().untouched(),
{
    lemma_untouched_service(s);
}

/// The completion of a service's creation keeps it in order. Where no
/// call results, the service is done.
pub proof fn lemma_on_created_service(s: ServiceModel, ok: bool, handle: u16)
    requires
        s.orderly(),
        s.state is Requested,
    ensures
        s.on_created(ok, handle).0.orderly(),
        !s.on_created(ok, handle).0.untouched(),
        s.on_created(ok, handle).1 is None ==> s.on_created(ok, handle).0.done(),
{
    assert forall|i: int| 0 <= i < s.characteristics.len() implies (
    #[trigger] s.characteristics[i]).idle() by {
        lemma_untouched_characteristic(s.characteristics[i]);
    }
}

/// While a characteristic of a service in order is not done, none after
/// it was asked for.
pub proof fn lemma_one_characteristic_waits(s: ServiceModel, i: int)
    requires
        s.orderly(),
        0 <= i < s.characteristics.len(),
        !s.characteristics[i].registration.settled() || !s.characteristics[i].idle(),
    ensures
        forall|k: int|
            i < k < s.characteristics.len() ==> (#[trigger] s.characteristics[k]).untouched(),
{
    assert forall|k: int| i < k < s.characteristics.len() implies (
    #[trigger] s.characteristics[k]).untouched() by {
        if !s.characteristics[k].untouched() {
            assert(s.characteristics[i].registration.settled());
        }
    }
}

/// Asking for the next characteristic of a running service of which
/// nothing waits keeps it in order. Where no call results, nothing has
/// changed.
pub proof fn lemma_advance_service(s: ServiceModel)
    requires
        s.orderly(),
        s.idle(),
    ensures
        s.advance().0.orderly(),
        s.advance().0.state == s.state,
        s.advance().1 is None ==> s.advance().0 == s,
        s.advance().1 is Some ==> !s.advance().0.idle() && !s.advance().0.untouched(),
{
    lemma_first_index_sound(s.characteristics, unregistered_characteristic());
    match (s.state, s.next_characteristic()) {
        (ServiceState::Started(handle), Some(i)) => {
            let after = s.advance().0;
            let chosen = s.characteristics[i];
            assert(unregistered_characteristic()(chosen));
            assert(chosen.orderly());
            assert(chosen.untouched());
            lemma_requested_characteristic(chosen);
            lemma_one_characteristic_waits(s, i);
            assert(after.characteristics[i] == chosen.requested());
            assert(!after.characteristics[i].idle());
            assert forall|k: int| 0 <= k < after.characteristics.len() implies (
            #[trigger] after.characteristics[k]).orderly() by {
                if k != i {
                    assert(after.characteristics[k] == s.characteristics[k]);
                }
            }
            assert forall|a: int, b: int|
                0 <= a < b < after.characteristics.len() && !(
                #[trigger] after.characteristics[b]).untouched() implies (
            #[trigger] after.characteristics[a]).registration.settled()
                && after.characteristics[a].idle() by {
                if b == i {
                    assert(after.characteristics[a] == s.characteristics[a]);
                    assert(!unregistered_characteristic()(s.characteristics[a]));
                    assert(s.characteristics[a].idle());
                } else {
                    assert(after.characteristics[b] == s.characteristics[b]);
                    assert(b < i);
                    assert(after.characteristics[a] == s.characteristics[a]);
                }
            }
        },
        _ => {},
    }
}

/// The completion of a service's start keeps it in order. Where no call
/// results, the service is done or was not waiting for its start.
pub proof fn lemma_on_started_service(s: ServiceModel, ok: bool)
    requires
        s.orderly(),
    ensures
        s.on_started(ok).0.orderly(),
        s.state is Created ==> !s.on_started(ok).0.untouched(),
        s.state is Created && s.on_started(ok).1 is None ==> s.on_started(ok).0.done(),
{
    match s.state {
        ServiceState::Created(handle) => {
            assert forall|i: int| 0 <= i < s.characteristics.len() implies (
            #[trigger] s.characteristics[i]).idle() by {
                lemma_untouched_characteristic(s.characteristics[i]);
            }
            if ok {
                let started = ServiceModel { state: ServiceState::Started(handle), ..s };
                assert(started.orderly());
                assert(started.idle());
                lemma_advance_service(started);
            }
        },
        _ => {},
    }
}

/// A running service in order stays in order when the characteristic at
/// `i`, the one that is not done, is replaced by what a completion has
/// made of it, and the next characteristic is asked for once that one is
/// done.
proof fn lemma_proceed_service(
    s: ServiceModel,
    i: int,
    c: CharacteristicModel,
    call: Option<DriverCallModel>,
)
    requires
        s.orderly(),
        s.state is Started,
        0 <= i < s.characteristics.len(),
        !s.characteristics[i].registration.settled() || !s.characteristics[i].idle(),
        !s.characteristics[i].untouched(),
        c.orderly(),
        c.registration.settled(),
        call is None ==> c.idle(),
    ensures
        s.proceed(i, c, call).0.orderly(),
        s.proceed(i, c, call).0.state == s.state,
        s.proceed(i, c, call).1 is None ==> s.proceed(i, c, call).0.idle(),
{
    lemma_one_characteristic_waits(s, i);
    let changed = s.with_characteristic_at(i, c);
    assert forall|k: int| 0 <= k < changed.characteristics.len() implies (
    #[trigger] changed.characteristics[k]).orderly() by {
        if k != i {
            assert(changed.characteristics[k] == s.characteristics[k]);
        }
    }
    assert forall|a: int, b: int|
        0 <= a < b < changed.characteristics.len() && !(
        #[trigger] changed.characteristics[b]).untouched() implies (
    #[trigger] changed.characteristics[a]).registration.settled()
        && changed.characteristics[a].idle() by {
        if b == i {
            assert(changed.characteristics[a] == s.characteristics[a]);
            assert(!s.characteristics[i].untouched());
        } else {
            assert(changed.characteristics[b] == s.characteristics[b]);
            assert(b < i);
            assert(changed.characteristics[a] == s.characteristics[a]);
        }
    }
    assert(changed.orderly());
    if call is None {
        assert forall|k: int| 0 <= k < changed.characteristics.len() implies (
        #[trigger] changed.characteristics[k]).idle() by {
            if k < i {
                assert(changed.characteristics[k] == s.characteristics[k]);
                assert(!s.characteristics[i].untouched());
            } else if k > i {
                assert(changed.characteristics[k] == s.characteristics[k]);
                lemma_untouched_characteristic(s.characteristics[k]);
            }
        }
        assert(changed.idle());
        lemma_advance_service(changed);
    }
}

/// The completion of a characteristic's registration keeps the service in
/// order. A completion that is resolved finds the service at work, and
/// where no call results from it, nothing of the service waits afterwards.
pub proof fn lemma_on_characteristic_added_service(
    s: ServiceModel,
    uuid: BleUuid,
    ok: bool,
    handle: u16,
)
    requires
        s.orderly(),
    ensures
        s.on_characteristic_added(uuid, ok, handle).0.orderly(),
        s.on_characteristic_added(uuid, ok, handle).0.state == s.state,
        s.on_characteristic_added(uuid, ok, handle).1 ==> !s.idle() && !s.untouched(),
        s.on_characteristic_added(uuid, ok, handle).1 && s.on_characteristic_added(
            uuid,
            ok,
            handle,
        ).2 is None ==> s.on_characteristic_added(uuid, ok, handle).0.idle(),
        !s.on_characteristic_added(uuid, ok, handle).1 ==> s.on_characteristic_added(
            uuid,
            ok,
            handle,
        ).0 == s,
{
    lemma_first_index_sound(s.characteristics, awaiting_characteristic(uuid));
    match (s.state, s.awaiting(uuid)) {
        (ServiceState::Started(service_handle), Some(i)) => {
            let waiting = s.characteristics[i];
            assert(awaiting_characteristic(uuid)(waiting));
            assert(waiting.orderly());
            lemma_on_added_characteristic(waiting, ok, handle, service_handle);
            let (c, call) = waiting.on_added(ok, handle, service_handle);
            lemma_proceed_service(s, i, c, call);
        },
        _ => {},
    }
}

/// The completion of a descriptor's registration keeps the service in
/// order. A completion that is resolved finds the service at work, and
/// where no call results from it, nothing of the service waits afterwards.
pub proof fn lemma_on_descriptor_added_service(
    s: ServiceModel,
    uuid: BleUuid,
    ok: bool,
    handle: u16,
)
    requires
        s.orderly(),
    ensures
        s.on_descriptor_added(uuid, ok, handle).0.orderly(),
        s.on_descriptor_added(uuid, ok, handle).0.state == s.state,
        s.on_descriptor_added(uuid, ok, handle).1 ==> !s.idle() && !s.untouched(),
        s.on_descriptor_added(uuid, ok, handle).1 && s.on_descriptor_added(uuid, ok, handle).2
            is None ==> s.on_descriptor_added(uuid, ok, handle).0.idle(),
        !s.on_descriptor_added(uuid, ok, handle).1 ==> s.on_descriptor_added(uuid, ok, handle).0
            == s,
{
    lemma_first_index_sound(s.characteristics, awaiting_owner(uuid));
    match (s.state, s.awaiting_descriptor(uuid)) {
        (ServiceState::Started(service_handle), Some(i)) => {
            let owner = s.characteristics[i];
            assert(awaiting_owner(uuid)(owner));
            assert(owner.orderly());
            lemma_on_descriptor_added_characteristic(owner, uuid, ok, handle, service_handle);
            let (c, call) = owner.on_descriptor_added(uuid, ok, handle, service_handle);
            lemma_proceed_service(s, i, c, call);
        },
        _ => {},
    }
}

impl ProfileModel {
    /// Nothing was asked of the host stack for the profile or anything
    /// under it.
    pub open spec fn untouched(self) -> bool {
        &&& self.state is Unregistered
        &&& forall|i: int| 0 <= i < self.services.len() ==> (#[trigger] self.services[i]).untouched()
    }

    /// Neither the profile nor anything under it waits for a completion.
    pub open spec fn idle(self) -> bool {
        &&& !(self.state is Requested)
        &&& forall|i: int| 0 <= i < self.services.len() ==> (#[trigger] self.services[i]).idle()
    }

    /// The profile was registered in order: no service was asked for
    /// before the profile had its interface, and none before every service
    /// declared before it was done, with all that is under it.
    pub open spec fn orderly(self) -> bool {
        &&& !(self.state is Registered) ==> forall|i: int|
            0 <= i < self.services.len() ==> (#[trigger] self.services[i]).untouched()
        &&& forall|i: int, k: int|
            0 <= i < k < self.services.len() && !(#[trigger] self.services[k]).untouched() ==> (
            #[trigger] self.services[i]).done()
        &&& forall|i: int| 0 <= i < self.services.len() ==> (#[trigger] self.services[i]).orderly()
    }
}

/// A profile that nothing was asked for is in order, and nothing of it
/// waits.
pub proof fn lemma_untouched_profile(p: ProfileModel)
    requires
        p.untouched(),
    ensures
        p.orderly(),
        p.idle(),
{
    assert forall|i: int| 0 <= i < p.services.len() implies (#[trigger] p.services[i]).orderly()
        && p.services[i].idle() by {
        lemma_untouched_service(p.services[i]);
    }
}

/// A profile as it is declared is in order, and stays so while services
/// are declared of which nothing was asked for.
pub proof fn lemma_with_service_orderly(p: ProfileModel, s: ServiceModel)
    requires
        p.orderly(),
        s.untouched(),
    ensures
        p.with_service(s).orderly(),
        p.untouched() ==> p.with_service(s).untouched(),
{
    lemma_untouched_service(s);
    let after = p.with_service(s);
    assert forall|i: int| 0 <= i < after.services.len() implies (
    #[trigger] after.services[i]).orderly() by {
        if i < p.services.len() {
            assert(after.services[i] == p.services[i]);
        }
    }
    assert forall|i: int, k: int|
        0 <= i < k < after.services.len() && !(
        #[trigger] after.services[k]).untouched() implies (#[trigger] after.services[i]).done() by {
        assert(after.services[k] == p.services[k]);
        assert(after.services[i] == p.services[i]);
    }
    if !(p.state is Registered) {
        assert forall|i: int| 0 <= i < after.services.len() implies (
        #[trigger] after.services[i]).untouched() by {
            if i < p.services.len() {
                assert(after.services[i] == p.services[i]);
            }
        }
    }
}

/// Asking for the registration of a profile that has no interface keeps
/// it in order.
pub proof fn lemma_requested_profile(p: ProfileModel)
    requires
        p.orderly(),
        !(p.state is Registered),
    ensures
        p.requested().orderly(),
{
}

/// While a service of a profile in order is not done, none after it
/// was asked for.
pub proof fn lemma_one_service_waits(p: ProfileModel, i: int)
    requires
        p.orderly(),
        0 <= i < p.services.len(),
        !p.services[i].done(),
    ensures
        forall|k: int| i < k < p.services.len() ==> (#[trigger] p.services[k]).untouched(),
{
    assert forall|k: int| i < k < p.services.len() implies (
    #[trigger] p.services[k]).untouched() by {
        if !p.services[k].untouched() {
            assert(p.services[i].done());
        }
    }
}

/// Asking for the next service of a profile of which nothing waits keeps
/// it in order.
pub proof fn lemma_advance_profile(p: ProfileModel)
    requires
        p.orderly(),
        p.idle(),
    ensures
        p.advance().0.orderly(),
        p.advance().0.state == p.state,
{
    lemma_first_index_sound(p.services, unregistered_service());
    match (p.state, p.next_service()) {
        (ProfileState::Registered(interface), Some(i)) => {
            let after = p.advance().0;
            let chosen = p.services[i];
            assert(unregistered_service()(chosen));
            assert(chosen.orderly());
            assert(chosen.untouched());
            lemma_requested_service(chosen);
            lemma_one_service_waits(p, i);
            assert(after.services[i] == chosen.requested());
            assert forall|k: int| 0 <= k < after.services.len() implies (
            #[trigger] after.services[k]).orderly() by {
                if k != i {
                    assert(after.services[k] == p.services[k]);
                }
            }
            assert forall|a: int, b: int|
                0 <= a < b < after.services.len() && !(
                #[trigger] after.services[b]).untouched() implies (
            #[trigger] after.services[a]).done() by {
                if b == i {
                    assert(after.services[a] == p.services[a]);
                    assert(!unregistered_service()(p.services[a]));
                    assert(p.services[a].idle());
                } else {
                    assert(after.services[b] == p.services[b]);
                    assert(b < i);
                    assert(after.services[a] == p.services[a]);
                }
            }
        },
        _ => {},
    }
}

/// The completion of a profile's registration keeps it in order.
pub proof fn lemma_on_registered_profile(p: ProfileModel, ok: bool, interface: u8)
    requires
        p.orderly(),
    ensures
        p.on_registered(ok, interface).0.orderly(),
{
    if p.state is Requested {
        assert forall|i: int| 0 <= i < p.services.len() implies (#[trigger] p.services[i]).idle() by {
            lemma_untouched_service(p.services[i]);
        }
        if ok {
            let registered = ProfileModel { state: ProfileState::Registered(interface), ..p };
            assert(registered.orderly());
            assert(registered.idle());
            lemma_advance_profile(registered);
        }
    }
}

/// A registered profile in order stays in order when the service at `i`,
/// the one that is not done, is replaced by what a completion has made of
/// it, and the next service is asked for once that one is done.
proof fn lemma_proceed_profile(p: ProfileModel, i: int, s: ServiceModel, call: Option<DriverCallModel>)
    requires
        p.orderly(),
        p.state is Registered,
        0 <= i < p.services.len(),
        !p.services[i].done(),
        !p.services[i].untouched(),
        s.orderly(),
        !s.untouched(),
        call is None ==> s.done(),
    ensures
        p.proceed(i, s, call).0.orderly(),
{
    lemma_one_service_waits(p, i);
    let changed = p.with_service_at(i, s);
    assert forall|k: int| 0 <= k < changed.services.len() implies (
    #[trigger] changed.services[k]).orderly() by {
        if k != i {
            assert(changed.services[k] == p.services[k]);
        }
    }
    assert forall|a: int, b: int|
        0 <= a < b < changed.services.len() && !(
        #[trigger] changed.services[b]).untouched() implies (
    #[trigger] changed.services[a]).done() by {
        if b == i {
            assert(changed.services[a] == p.services[a]);
            assert(!p.services[i].untouched());
        } else {
            assert(changed.services[b] == p.services[b]);
            assert(b < i);
            assert(changed.services[a] == p.services[a]);
        }
    }
    assert(changed.orderly());
    if call is None {
        assert forall|k: int| 0 <= k < changed.services.len() implies (
        #[trigger] changed.services[k]).idle() by {
            if k < i {
                assert(changed.services[k] == p.services[k]);
                assert(!p.services[i].untouched());
                assert(p.services[k].done());
            } else if k > i {
                assert(changed.services[k] == p.services[k]);
                lemma_untouched_service(p.services[k]);
            }
        }
        assert(changed.idle());
        lemma_advance_profile(changed);
    }
}

/// The completion of a service's creation keeps the profile in order.
pub proof fn lemma_on_service_created_profile(p: ProfileModel, uuid: BleUuid, ok: bool, handle: u16)
    requires
        p.orderly(),
    ensures
        p.on_service_created(uuid, ok, handle).0.orderly(),
{
    lemma_first_index_sound(p.services, awaiting_service(uuid));
    match first_index(p.services, awaiting_service(uuid)) {
        Some(i) => {
            let waiting = p.services[i];
            assert(awaiting_service(uuid)(waiting));
            assert(waiting.orderly());
            assert(!waiting.untouched());
            lemma_on_created_service(waiting, ok, handle);
            let (s, call) = waiting.on_created(ok, handle);
            lemma_proceed_profile(p, i, s, call);
        },
        None => {},
    }
}

/// The completion of a service's start keeps the profile in order.
pub proof fn lemma_on_service_started_profile(p: ProfileModel, handle: u16, ok: bool)
    requires
        p.orderly(),
    ensures
        p.on_service_started(handle, ok).0.orderly(),
{
    lemma_first_index_sound(p.services, starting_service(handle));
    match first_index(p.services, starting_service(handle)) {
        Some(i) => {
            let waiting = p.services[i];
            assert(starting_service(handle)(waiting));
            assert(waiting.orderly());
            assert(!waiting.untouched());
            lemma_on_started_service(waiting, ok);
            let (s, call) = waiting.on_started(ok);
            lemma_proceed_profile(p, i, s, call);
        },
        None => {},
    }
}

/// The completion of a characteristic's registration keeps the profile in
/// order.
pub proof fn lemma_on_characteristic_added_profile(
    p: ProfileModel,
    service_handle: u16,
    uuid: BleUuid,
    ok: bool,
    handle: u16,
)
    requires
        p.orderly(),
    ensures
        p.on_characteristic_added(service_handle, uuid, ok, handle).0.orderly(),
{
    lemma_first_index_sound(p.services, running_service(service_handle));
    match first_index(p.services, running_service(service_handle)) {
        Some(i) => {
            let running = p.services[i];
            assert(running_service(service_handle)(running));
            assert(running.orderly());
            lemma_on_characteristic_added_service(running, uuid, ok, handle);
            let (s, resolved, call) = running.on_characteristic_added(uuid, ok, handle);
            if resolved {
                lemma_proceed_profile(p, i, s, call);
            }
        },
        None => {},
    }
}

/// The completion of a descriptor's registration keeps the profile in
/// order.
pub proof fn lemma_on_descriptor_added_profile(
    p: ProfileModel,
    service_handle: u16,
    uuid: BleUuid,
    ok: bool,
    handle: u16,
)
    requires
        p.orderly(),
    ensures
        p.on_descriptor_added(service_handle, uuid, ok, handle).0.orderly(),
{
    lemma_first_index_sound(p.services, running_service(service_handle));
    match first_index(p.services, running_service(service_handle)) {
        Some(i) => {
            let running = p.services[i];
            assert(running_service(service_handle)(running));
            assert(running.orderly());
            lemma_on_descriptor_added_service(running, uuid, ok, handle);
            let (s, resolved, call) = running.on_descriptor_added(uuid, ok, handle);
            if resolved {
                lemma_proceed_profile(p, i, s, call);
            }
        },
        None => {},
    }
}

/// No event leads a profile out of order.
pub proof fn lemma_react_profile(p: ProfileModel, interface: u8, event: GattsEvent)
    requires
        p.orderly(),
    ensures
        p.react(interface, event).0.orderly(),
{
    match event {
        GattsEvent::Register { status, app_id } => {
            lemma_on_registered_profile(p, status == GATT_OK, interface);
        },
        GattsEvent::Create { status, service_handle, service_uuid } => {
            lemma_on_service_created_profile(p, service_uuid, status == GATT_OK, service_handle);
        },
        GattsEvent::Start { status, service_handle } => {
            lemma_on_service_started_profile(p, service_handle, status == GATT_OK);
        },
        GattsEvent::AddCharacteristic { status, attr_handle, service_handle, char_uuid } => {
            lemma_on_characteristic_added_profile(
                p,
                service_handle,
                char_uuid,
                status == GATT_OK,
                attr_handle,
            );
        },
        GattsEvent::AddDescriptor { status, attr_handle, service_handle, descr_uuid } => {
            lemma_on_descriptor_added_profile(
                p,
                service_handle,
                descr_uuid,
                status == GATT_OK,
                attr_handle,
            );
        },
        _ => {},
    }
}

impl GattServerModel {
    /// Every profile of the server was registered in order.
    pub open spec fn orderly(self) -> bool {
        forall|i: int| 0 <= i < self.profiles.len() ==> (#[trigger] self.profiles[i]).orderly()
    }

    /// Nothing was asked of the host stack for any profile of the server.
    pub open spec fn untouched(self) -> bool {
        forall|i: int| 0 <= i < self.profiles.len() ==> (#[trigger] self.profiles[i]).untouched()
    }
}

/// A server as it is first made is in order.
pub proof fn lemma_initial_server_orderly()
    ensures
        GattServerModel::initial().orderly(),
        GattServerModel::initial().untouched(),
{
}

/// Adding profiles of which nothing was asked for keeps a server in
/// order.
pub proof fn lemma_with_profiles_orderly(server: GattServerModel, profiles: Seq<ProfileModel>)
    requires
        server.orderly(),
        forall|i: int| 0 <= i < profiles.len() ==> (#[trigger] profiles[i]).untouched(),
    ensures
        server.with_profiles(profiles).orderly(),
        server.untouched() ==> server.with_profiles(profiles).untouched(),
{
    let after = server.with_profiles(profiles);
    assert forall|i: int| 0 <= i < after.profiles.len() implies (
    #[trigger] after.profiles[i]).orderly() by {
        if i < server.profiles.len() {
            assert(after.profiles[i] == server.profiles[i]);
        } else {
            assert(after.profiles[i] == profiles[i - server.profiles.len()]);
            lemma_untouched_profile(profiles[i - server.profiles.len()]);
        }
    }
    if server.untouched() {
        assert forall|i: int| 0 <= i < after.profiles.len() implies (
        #[trigger] after.profiles[i]).untouched() by {
            if i < server.profiles.len() {
                assert(after.profiles[i] == server.profiles[i]);
            } else {
                assert(after.profiles[i] == profiles[i - server.profiles.len()]);
            }
        }
    }
}

/// Starting a server of which nothing was asked for leaves it in order.
pub proof fn lemma_start_orderly(server: GattServerModel)
    requires
        server.untouched(),
    ensures
        server.start().0.orderly(),
{
    let after = server.start().0;
    assert forall|i: int| 0 <= i < after.profiles.len() implies (
    #[trigger] after.profiles[i]).orderly() by {
        lemma_untouched_profile(server.profiles[i]);
        if !server.started {
            lemma_requested_profile(server.profiles[i]);
        }
    }
}

/// No event leads a server out of order: whatever the host stack sends,
/// and in whatever sequence, every profile stays registered in order.
pub proof fn lemma_react_orderly(server: GattServerModel, interface: u8, event: GattsEvent)
    requires
        server.orderly(),
    ensures
        server.react(interface, event).0.orderly(),
{
    let after = server.react(interface, event).0;
    match event {
        GattsEvent::Register { status, app_id } => {
            lemma_first_index_sound(server.profiles, awaiting_profile(app_id));
            match first_index(server.profiles, awaiting_profile(app_id)) {
                Some(i) => {
                    lemma_on_registered_profile(server.profiles[i], status == GATT_OK, interface);
                    assert forall|k: int| 0 <= k < after.profiles.len() implies (
                    #[trigger] after.profiles[k]).orderly() by {
                        if k != i {
                            assert(after.profiles[k] == server.profiles[k]);
                        }
                    }
                },
                None => {},
            }
        },
        GattsEvent::Connect { .. } => {},
        GattsEvent::Disconnect { .. } => {},
        GattsEvent::Mtu { .. } => {},
        GattsEvent::Response { .. } => {},
        GattsEvent::SetAttributeValue { .. } => {},
        _ => {
            lemma_first_index_sound(
                server.profiles,
                crate::gatt_server::server::profile_on(interface),
            );
            match server.profile_by_interface(interface) {
                Some(i) => {
                    lemma_react_profile(server.profiles[i], interface, event);
                    assert forall|k: int| 0 <= k < after.profiles.len() implies (
                    #[trigger] after.profiles[k]).orderly() by {
                        if k != i {
                            assert(after.profiles[k] == server.profiles[k]);
                        }
                    }
                },
                None => {},
            }
        },
    }
}

/// A new value for a characteristic leaves a server in order.
pub proof fn lemma_set_value_orderly(
    server: GattServerModel,
    profile: int,
    service: int,
    characteristic: int,
    value: Seq<u8>,
)
    requires
        server.orderly(),
    ensures
        server.set_value(profile, service, characteristic, value) matches Ok((after, call))
            ==> after.orderly(),
{
    match server.set_value(profile, service, characteristic, value) {
        Ok((after, call)) => {
            let p = server.profiles[profile];
            let s = p.services[service];
            let c = s.characteristics[characteristic];
            assert(p.orderly());
            assert(s.orderly());
            assert(c.orderly());
            lemma_characteristic_changes_keep_order(c, value, crate::utilities::Callback::Subscription, 0);
            let t = s.with_characteristic_at(characteristic, c.with_value(value));
            assert forall|k: int| 0 <= k < t.characteristics.len() implies (
            #[trigger] t.characteristics[k]).orderly() && t.characteristics[k].untouched()
                == s.characteristics[k].untouched() && t.characteristics[k].idle()
                == s.characteristics[k].idle() && t.characteristics[k].registration
                == s.characteristics[k].registration by {
                if k != characteristic {
                    assert(t.characteristics[k] == s.characteristics[k]);
                }
            }
            assert(t.orderly()) by {
                assert forall|a: int, b: int|
                    0 <= a < b < t.characteristics.len() && !(
                    #[trigger] t.characteristics[b]).untouched() implies (
                #[trigger] t.characteristics[a]).registration.settled()
                    && t.characteristics[a].idle() by {
                    assert(!s.characteristics[b].untouched());
                    assert(s.characteristics[a].registration.settled());
                }
            }
            assert(t.untouched() == s.untouched() && t.idle() == s.idle()) by {
                assert forall|k: int| 0 <= k < s.characteristics.len() implies (
                #[trigger] s.characteristics[k]).untouched() == t.characteristics[k].untouched()
                    && s.characteristics[k].idle() == t.characteristics[k].idle() by {
                    assert(t.characteristics[k].orderly());
                }
            }
            assert(t.done() == s.done());
            let q = p.with_service_at(service, t);
            assert forall|j: int| 0 <= j < q.services.len() implies (#[trigger] q.services[j]).orderly()
                && q.services[j].untouched() == p.services[j].untouched() && q.services[j].done()
                == p.services[j].done() by {
                if j != service {
                    assert(q.services[j] == p.services[j]);
                }
            }
            assert(q.orderly()) by {
                assert forall|a: int, b: int|
                    0 <= a < b < q.services.len() && !(
                    #[trigger] q.services[b]).untouched() implies (#[trigger] q.services[a]).done() by {
                    assert(!p.services[b].untouched());
                    assert(p.services[a].done());
                }
            }
            assert forall|i: int| 0 <= i < after.profiles.len() implies (
            #[trigger] after.profiles[i]).orderly() by {
                if i != profile {
                    assert(after.profiles[i] == server.profiles[i]);
                }
            }
        },
        Err(_) => {},
    }
}

/// In a profile in order no child is ahead of its parent: a service was
/// asked for only once the profile had its interface, a characteristic
/// only once its service ran, a descriptor only once its characteristic
/// had its handle. So no completion can reach a child before its parent's
/// own completion has.
pub proof fn lemma_parent_first(p: ProfileModel, s: int, c: int, d: int)
    requires
        p.orderly(),
        0 <= s < p.services.len(),
    ensures
        !(p.services[s].state is Unregistered) ==> p.state is Registered,
        0 <= c < p.services[s].characteristics.len() && !(
        p.services[s].characteristics[c].registration is Unregistered)
            ==> p.services[s].state is Started && p.state is Registered,
        0 <= c < p.services[s].characteristics.len() && 0 <= d
            < p.services[s].characteristics[c].descriptors.len() && !(
        p.services[s].characteristics[c].descriptors[d].registration is Unregistered)
            ==> p.services[s].characteristics[c].registration is Registered
            && p.services[s].state is Started && p.state is Registered,
{
    let service = p.services[s];
    assert(service.orderly());
    if !(p.state is Registered) {
        assert(service.untouched());
    }
    if 0 <= c < service.characteristics.len() {
        let characteristic = service.characteristics[c];
        assert(characteristic.orderly());
        if !(service.state is Started) {
            assert(characteristic.untouched());
        }
        if 0 <= d < characteristic.descriptors.len() {
            if !(characteristic.descriptors[d].registration is Unregistered) {
                assert(characteristic.registration is Registered);
                assert(!characteristic.untouched());
            }
        }
    }
}

/// In a service in order the characteristics were answered in the order
/// of their declaration: whenever one was asked for, every one declared
/// before it, of the same identifier or another, had its answer. So
/// among siblings with one identifier the completions went to the first
/// declared first.
pub proof fn lemma_declaration_order(s: ServiceModel, i: int, k: int)
    requires
        s.orderly(),
        0 <= i < k < s.characteristics.len(),
        !(s.characteristics[k].registration is Unregistered),
    ensures
        s.characteristics[i].registration.settled(),
{
    assert(!s.characteristics[k].untouched());
}

/// In a characteristic in order the descriptors were answered in the
/// order of their declaration.
pub proof fn lemma_descriptor_declaration_order(c: CharacteristicModel, a: int, b: int)
    requires
        c.orderly(),
        0 <= a < b < c.descriptors.len(),
        !(c.descriptors[b].registration is Unregistered),
    ensures
        c.descriptors[a].registration.settled(),
{
}

/// In a profile in order the services were done in the order of their
/// declaration.
pub proof fn lemma_service_declaration_order(p: ProfileModel, i: int, k: int)
    requires
        p.orderly(),
        0 <= i < k < p.services.len(),
        !(p.services[k].state is Unregistered),
    ensures
        p.services[i].done(),
{
    assert(!p.services[k].untouched());
}

/// In a profile in order one call is in flight at a time: of two services
/// at most one has anything that waits for a completion.
pub proof fn lemma_one_service_at_work(p: ProfileModel, i: int, k: int)
    requires
        p.orderly(),
        0 <= i < p.services.len(),
        0 <= k < p.services.len(),
        !p.services[i].idle(),
        !p.services[k].idle(),
    ensures
        i == k,
{
    lemma_idle_when_untouched(p.services[i]);
    lemma_idle_when_untouched(p.services[k]);
    if i < k {
        assert(p.services[i].done());
    } else if k < i {
        assert(p.services[k].done());
    }
}

/// In a service in order at most one characteristic has anything that
/// waits for a completion, and none has while the service waits for its
/// own.
pub proof fn lemma_one_characteristic_at_work(s: ServiceModel, a: int, b: int)
    requires
        s.orderly(),
        0 <= a < s.characteristics.len(),
        0 <= b < s.characteristics.len(),
    ensures
        !s.characteristics[a].idle() && !s.characteristics[b].idle() ==> a == b,
        s.state is Requested || s.state is Created ==> s.characteristics[a].idle(),
{
    assert(s.characteristics[a].orderly());
    assert(s.characteristics[b].orderly());
    if !s.characteristics[a].idle() && !s.characteristics[b].idle() {
        if a < b {
            assert(!s.characteristics[b].untouched());
        } else if b < a {
            assert(!s.characteristics[a].untouched());
        }
    }
    if s.state is Requested || s.state is Created {
        lemma_untouched_characteristic(s.characteristics[a]);
    }
}

/// A service that nothing was asked for has nothing that waits.
proof fn lemma_idle_when_untouched(s: ServiceModel)
    ensures
        s.untouched() ==> s.idle(),
{
    if s.untouched() {
        lemma_untouched_service(s);
    }
}

/// In a profile in order the completion of a creation that names an
/// identifier goes to the first service with that identifier that has no
/// answer yet: every service declared before it is done, and none
/// declared after it was asked for. On success the service takes the
/// handle and the one call that follows starts it. None of its
/// characteristics is asked for before the start is answered.
pub proof fn lemma_creation_in_declaration_order(
    p: ProfileModel,
    uuid: BleUuid,
    ok: bool,
    handle: u16,
    i: int,
)
    requires
        p.orderly(),
        first_index(p.services, awaiting_service(uuid)) == Some(i),
    ensures
        0 <= i < p.services.len(),
        p.services[i].uuid == uuid,
        p.on_service_created(uuid, ok, handle).1,
        p.on_service_created(uuid, ok, handle).0.services.len() == p.services.len(),
        ok ==> p.on_service_created(uuid, ok, handle).0.services[i].state == ServiceState::Created(
            handle,
        ) && p.on_service_created(uuid, ok, handle).2 == Some(
            DriverCallModel::StartService { service_handle: handle },
        ),
        !ok ==> p.on_service_created(uuid, ok, handle).0.services[i].state is Failed,
        forall|c: int|
            0 <= c < p.services[i].characteristics.len() ==> (#[trigger] p.on_service_created(
                uuid,
                ok,
                handle,
            ).0.services[i].characteristics[c]).untouched(),
        forall|k: int| 0 <= k < i ==> (#[trigger] p.services[k]).done(),
        forall|k: int| i < k < p.services.len() ==> (#[trigger] p.services[k]).untouched(),
{
    lemma_first_index_sound(p.services, awaiting_service(uuid));
    let waiting = p.services[i];
    assert(awaiting_service(uuid)(waiting));
    assert(waiting.orderly());
    assert(!waiting.untouched());
    assert forall|c: int| 0 <= c < waiting.characteristics.len() implies (
    #[trigger] waiting.characteristics[c]).untouched() by {}
    assert(!waiting.done());
    lemma_one_service_waits(p, i);
    let (s, call) = waiting.on_created(ok, handle);
    let changed = p.with_service_at(i, s);
    lemma_first_index_sound(changed.services, unregistered_service());
    let after = p.on_service_created(uuid, ok, handle).0;
    assert(after.services[i].characteristics == waiting.characteristics) by {
        if call is None {
            assert(changed.advance().0.services[i] == changed.services[i] || changed.advance().0
                == changed);
        }
    }
}

/// In a service in order a completion that names an identifier goes to
/// the first characteristic with that identifier that has no answer yet:
/// every sibling with the identifier that was declared before it has its
/// answer already, and no sibling that was declared after it gets one
/// from this completion. Every other characteristic keeps the handle it
/// has, or has none as before.
pub proof fn lemma_completion_in_declaration_order(
    s: ServiceModel,
    uuid: BleUuid,
    ok: bool,
    handle: u16,
    i: int,
)
    requires
        s.orderly(),
        s.state is Started,
        s.awaiting(uuid) == Some(i),
    ensures
        0 <= i < s.characteristics.len(),
        s.characteristics[i].uuid == uuid,
        s.on_characteristic_added(uuid, ok, handle).1,
        s.on_characteristic_added(uuid, ok, handle).0.characteristics.len()
            == s.characteristics.len(),
        s.on_characteristic_added(uuid, ok, handle).0.characteristics[i].registration
            == Registration::completed(ok, handle),
        forall|k: int| 0 <= k < i ==> (#[trigger] s.characteristics[k]).registration.settled(),
        forall|k: int|
            i < k < s.characteristics.len() ==> !(#[trigger] s.on_characteristic_added(
                uuid,
                ok,
                handle,
            ).0.characteristics[k]).registration.settled(),
        forall|k: int|
            0 <= k < s.characteristics.len() && k != i ==> (#[trigger] s.on_characteristic_added(
                uuid,
                ok,
                handle,
            ).0.characteristics[k]).registration.handle()
                == s.characteristics[k].registration.handle(),
{
    lemma_first_index_sound(s.characteristics, awaiting_characteristic(uuid));
    let waiting = s.characteristics[i];
    assert(awaiting_characteristic(uuid)(waiting));
    assert(!waiting.untouched());
    lemma_one_characteristic_waits(s, i);
    let service_handle = s.state->Started_0;
    lemma_on_added_characteristic(waiting, ok, handle, service_handle);
    let (c, call) = waiting.on_added(ok, handle, service_handle);
    let changed = s.with_characteristic_at(i, c);
    lemma_first_index_sound(changed.characteristics, unregistered_characteristic());
    let after = s.on_characteristic_added(uuid, ok, handle).0;
    assert forall|k: int| i < k < s.characteristics.len() implies !(
    #[trigger] after.characteristics[k]).registration.settled() by {
        assert(s.characteristics[k].untouched());
        assert(changed.characteristics[k] == s.characteristics[k]);
    }
    assert forall|k: int| 0 <= k < s.characteristics.len() && k != i implies (
    #[trigger] after.characteristics[k]).registration.handle()
        == s.characteristics[k].registration.handle() by {
        assert(changed.characteristics[k] == s.characteristics[k]);
    }
}

/// In a service in order at most one characteristic waits for its
/// completion, so a completion that names an identifier cannot be taken
/// for that of a sibling with the same identifier.
pub proof fn lemma_one_completion_awaited(s: ServiceModel, i: int, k: int)
    requires
        s.orderly(),
        0 <= i < s.characteristics.len(),
        0 <= k < s.characteristics.len(),
        s.characteristics[i].registration is Requested,
        s.characteristics[k].registration is Requested,
    ensures
        i == k,
{
    if i < k {
        assert(!s.characteristics[k].untouched());
        assert(s.characteristics[i].registration.settled());
    } else if k < i {
        assert(!s.characteristics[i].untouched());
        assert(s.characteristics[k].registration.settled());
    }
}

/// In a service in order the descriptors that wait for a completion all
/// belong to one characteristic, and there it is one descriptor: a
/// completion cannot be taken for that of a descriptor of another
/// characteristic.
pub proof fn lemma_one_descriptor_awaited(s: ServiceModel, i: int, a: int, k: int, b: int)
    requires
        s.orderly(),
        0 <= i < s.characteristics.len(),
        0 <= k < s.characteristics.len(),
        0 <= a < s.characteristics[i].descriptors.len(),
        0 <= b < s.characteristics[k].descriptors.len(),
        s.characteristics[i].descriptors[a].registration is Requested,
        s.characteristics[k].descriptors[b].registration is Requested,
    ensures
        i == k,
        a == b,
{
    assert(!s.characteristics[i].untouched());
    assert(!s.characteristics[k].untouched());
    assert(!s.characteristics[i].idle());
    assert(!s.characteristics[k].idle());
    if i < k {
        assert(s.characteristics[i].idle());
    } else if k < i {
        assert(s.characteristics[k].idle());
    } else {
        assert(s.characteristics[i].orderly());
        if a < b {
            assert(s.characteristics[i].descriptors[a].registration.settled());
        } else if b < a {
            assert(s.characteristics[i].descriptors[b].registration.settled());
        }
    }
}

} // verus!
