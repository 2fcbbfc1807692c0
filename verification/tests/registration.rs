use bluedroid::gatt_server::{
    Characteristic, Descriptor, DriverCall, GattServer, GattsEvent, Outcome, Profile,
    ProfileState, Reaction, Registration, Service, ServiceState, Step,
};
use bluedroid::utilities::{AttributePermissions, BleUuid, CharacteristicProperties};

const OK: u32 = 0;
const ERROR: u32 = 0x85;

fn characteristic(uuid: u16) -> Characteristic {
    Characteristic::new(
        "c",
        BleUuid::from_uuid16(uuid),
        AttributePermissions::read(),
        CharacteristicProperties::new().read(),
    )
}

fn descriptor(uuid: u16) -> Descriptor {
    Descriptor::new("d", BleUuid::from_uuid16(uuid), AttributePermissions::read())
}

fn service(uuid: u16, characteristics: Vec<Characteristic>) -> Service {
    let mut service = Service::new(BleUuid::from_uuid16(uuid));
    service.primary();
    for c in characteristics {
        service.characteristic(c);
    }
    service
}

fn calls(reaction: &Reaction) -> Vec<DriverCall> {
    reaction
        .steps
        .iter()
        .map(|step| match step {
            Step::Call(call) => call.clone(),
            other => panic!("unexpected step {:?}", other),
        })
        .collect()
}

fn one_call(reaction: &Reaction) -> DriverCall {
    assert_eq!(reaction.outcome, Outcome::Handled);
    let calls = calls(reaction);
    assert_eq!(calls.len(), 1, "{:?}", calls);
    calls[0].clone()
}

fn no_call(reaction: &Reaction) {
    assert_eq!(reaction.outcome, Outcome::Handled);
    assert!(reaction.steps.is_empty(), "{:?}", reaction.steps);
}

fn unresolved(reaction: &Reaction) {
    assert_eq!(reaction.outcome, Outcome::Unresolved);
    assert!(reaction.steps.is_empty());
}

fn create(uuid: u16, handle: u16) -> GattsEvent {
    GattsEvent::Create { status: OK, service_handle: handle, service_uuid: BleUuid::from_uuid16(uuid) }
}

fn start(handle: u16) -> GattsEvent {
    GattsEvent::Start { status: OK, service_handle: handle }
}

fn add_char(service: u16, uuid: u16, handle: u16) -> GattsEvent {
    GattsEvent::AddCharacteristic {
        status: OK,
        attr_handle: handle,
        service_handle: service,
        char_uuid: BleUuid::from_uuid16(uuid),
    }
}

fn add_descr(service: u16, uuid: u16, handle: u16) -> GattsEvent {
    GattsEvent::AddDescriptor {
        status: OK,
        attr_handle: handle,
        service_handle: service,
        descr_uuid: BleUuid::from_uuid16(uuid),
    }
}

fn char_call(service_handle: u16, uuid: u16) -> DriverCall {
    DriverCall::AddCharacteristic {
        service_handle,
        uuid: BleUuid::from_uuid16(uuid),
        permissions: AttributePermissions::read(),
        properties: CharacteristicProperties::new().read(),
        max_length: 8,
        value: vec![0],
        control: 1,
    }
}

fn descr_call(service_handle: u16, uuid: u16) -> DriverCall {
    DriverCall::AddDescriptor {
        service_handle,
        uuid: BleUuid::from_uuid16(uuid),
        permissions: AttributePermissions::read(),
        value: vec![],
    }
}

fn service_call(interface: u8, uuid: u16) -> DriverCall {
    DriverCall::CreateService {
        interface,
        uuid: BleUuid::from_uuid16(uuid),
        primary: true,
        handles: 64,
    }
}

/// Two services; the first has a characteristic with two descriptors and
/// a characteristic without any, the second has one characteristic.
fn sample_server() -> GattServer {
    let mut first = characteristic(0x2A00);
    first.add_descriptor(descriptor(0x2901)).add_descriptor(descriptor(0x2902));
    let profile = Profile::new("p", 0x0055)
        .add_service(service(0x1800, vec![first, characteristic(0x2A01)]))
        .add_service(service(0x1801, vec![characteristic(0x2A05)]));
    let mut server = GattServer::new();
    server.add_profiles(&[profile]);
    server
}

fn state_of(server: &GattServer, s: usize) -> ServiceState {
    server.profile_at(0).unwrap().service_at(s).unwrap().state()
}

fn char_state(server: &GattServer, s: usize, c: usize) -> Registration {
    server.profile_at(0).unwrap().service_at(s).unwrap().characteristic_at(c).unwrap().registration()
}

fn descr_state(server: &GattServer, s: usize, c: usize, d: usize) -> Registration {
    server
        .profile_at(0)
        .unwrap()
        .service_at(s)
        .unwrap()
        .characteristic_at(c)
        .unwrap()
        .descriptor(d)
        .unwrap()
        .registration()
}

#[test]
fn the_tree_is_registered_depth_first_one_call_at_a_time() {
    let mut server = sample_server();
    assert_eq!(
        server.start(),
        vec![DriverCall::InitialiseStack, DriverCall::RegisterApplication { app_id: 0x0055 }]
    );
    assert_eq!(server.profile_at(0).unwrap().state(), ProfileState::Requested);

    let reaction = server.gatts_event_handler(3, GattsEvent::Register { status: OK, app_id: 0x0055 });
    assert_eq!(
        calls(&reaction),
        vec![
            DriverCall::ConfigureAdvertising {
                device_name: String::from("ESP32"),
                appearance: 0,
                service_uuid: None,
            },
            service_call(3, 0x1800),
        ]
    );
    assert_eq!(server.profile_at(0).unwrap().interface(), Some(3));
    assert_eq!(state_of(&server, 0), ServiceState::Requested);
    assert_eq!(state_of(&server, 1), ServiceState::Unregistered);

    let reaction = server.gatts_event_handler(3, create(0x1800, 40));
    assert_eq!(one_call(&reaction), DriverCall::StartService { service_handle: 40 });
    assert_eq!(state_of(&server, 0), ServiceState::Created(40));
    assert_eq!(char_state(&server, 0, 0), Registration::Unregistered);

    let reaction = server.gatts_event_handler(3, start(40));
    assert_eq!(one_call(&reaction), char_call(40, 0x2A00));
    assert_eq!(state_of(&server, 0), ServiceState::Started(40));
    assert_eq!(char_state(&server, 0, 0), Registration::Requested);
    assert_eq!(char_state(&server, 0, 1), Registration::Unregistered);

    let reaction = server.gatts_event_handler(3, add_char(40, 0x2A00, 42));
    assert_eq!(one_call(&reaction), descr_call(40, 0x2901));
    assert_eq!(char_state(&server, 0, 0), Registration::Registered(42));
    assert_eq!(descr_state(&server, 0, 0, 0), Registration::Requested);
    assert_eq!(descr_state(&server, 0, 0, 1), Registration::Unregistered);

    let reaction = server.gatts_event_handler(3, add_descr(40, 0x2901, 43));
    assert_eq!(one_call(&reaction), descr_call(40, 0x2902));
    assert_eq!(descr_state(&server, 0, 0, 0), Registration::Registered(43));

    let reaction = server.gatts_event_handler(3, add_descr(40, 0x2902, 44));
    assert_eq!(one_call(&reaction), char_call(40, 0x2A01));
    assert_eq!(descr_state(&server, 0, 0, 1), Registration::Registered(44));
    assert_eq!(char_state(&server, 0, 1), Registration::Requested);

    let reaction = server.gatts_event_handler(3, add_char(40, 0x2A01, 46));
    assert_eq!(one_call(&reaction), service_call(3, 0x1801));
    assert_eq!(state_of(&server, 1), ServiceState::Requested);

    let reaction = server.gatts_event_handler(3, create(0x1801, 60));
    assert_eq!(one_call(&reaction), DriverCall::StartService { service_handle: 60 });
    let reaction = server.gatts_event_handler(3, start(60));
    assert_eq!(one_call(&reaction), char_call(60, 0x2A05));
    let reaction = server.gatts_event_handler(3, add_char(60, 0x2A05, 62));
    no_call(&reaction);
    assert_eq!(char_state(&server, 1, 0), Registration::Registered(62));
}

#[test]
fn a_second_start_does_nothing() {
    let mut server = sample_server();
    assert_eq!(server.start().len(), 2);
    assert!(server.is_started());
    assert_eq!(server.start(), Vec::<DriverCall>::new());
    assert!(server.is_started());
    assert_eq!(server.profile_at(0).unwrap().state(), ProfileState::Requested);

    server.gatts_event_handler(3, GattsEvent::Register { status: OK, app_id: 0x0055 });
    assert_eq!(server.start(), Vec::<DriverCall>::new());
    assert_eq!(server.profile_at(0).unwrap().state(), ProfileState::Registered(3));
    assert_eq!(state_of(&server, 0), ServiceState::Requested);
}

#[test]
fn every_profile_is_registered_at_the_start() {
    let mut server = GattServer::new();
    server.add_profiles(&[Profile::new("a", 1), Profile::new("b", 2)]);
    server.add_profiles(&[Profile::new("c", 3)]);
    assert_eq!(server.profile_count(), 3);
    assert_eq!(
        server.start(),
        vec![
            DriverCall::InitialiseStack,
            DriverCall::RegisterApplication { app_id: 1 },
            DriverCall::RegisterApplication { app_id: 2 },
            DriverCall::RegisterApplication { app_id: 3 },
        ]
    );
    // The advertisement is configured by the first profile that is
    // registered, and by no other.
    let first = server.gatts_event_handler(5, GattsEvent::Register { status: OK, app_id: 2 });
    assert_eq!(calls(&first).len(), 1);
    assert!(matches!(calls(&first)[0], DriverCall::ConfigureAdvertising { .. }));
    let second = server.gatts_event_handler(6, GattsEvent::Register { status: OK, app_id: 1 });
    no_call(&second);
    assert_eq!(server.profile_at(0).unwrap().interface(), Some(6));
    assert_eq!(server.profile_at(1).unwrap().interface(), Some(5));
    assert_eq!(server.profile_at(2).unwrap().interface(), None);
    assert_eq!(server.get_profile(5), Some(1));
    assert_eq!(server.get_profile(9), None);
}

#[test]
fn profiles_added_after_the_start_are_not_registered() {
    let mut server = sample_server();
    server.start();
    server.add_profiles(&[Profile::new("late", 9)]);
    assert_eq!(server.profile_count(), 2);
    assert_eq!(server.profile_at(1).unwrap().state(), ProfileState::Unregistered);
    unresolved(&server.gatts_event_handler(4, GattsEvent::Register { status: OK, app_id: 9 }));
}

#[test]
fn siblings_with_one_identifier_are_completed_in_declaration_order() {
    let profile = Profile::new("p", 1).add_service(service(
        0x1800,
        vec![characteristic(0x2A00), characteristic(0x2A00), characteristic(0x2A00)],
    ));
    let mut server = GattServer::new();
    server.add_profiles(&[profile]);
    server.start();
    server.gatts_event_handler(1, GattsEvent::Register { status: OK, app_id: 1 });
    server.gatts_event_handler(1, create(0x1800, 10));
    server.gatts_event_handler(1, start(10));

    assert_eq!(one_call(&server.gatts_event_handler(1, add_char(10, 0x2A00, 11))), char_call(10, 0x2A00));
    assert_eq!(char_state(&server, 0, 0), Registration::Registered(11));
    assert_eq!(char_state(&server, 0, 1), Registration::Requested);
    assert_eq!(char_state(&server, 0, 2), Registration::Unregistered);

    assert_eq!(one_call(&server.gatts_event_handler(1, add_char(10, 0x2A00, 12))), char_call(10, 0x2A00));
    assert_eq!(char_state(&server, 0, 1), Registration::Registered(12));
    assert_eq!(char_state(&server, 0, 2), Registration::Requested);

    no_call(&server.gatts_event_handler(1, add_char(10, 0x2A00, 13)));
    assert_eq!(char_state(&server, 0, 0), Registration::Registered(11));
    assert_eq!(char_state(&server, 0, 1), Registration::Registered(12));
    assert_eq!(char_state(&server, 0, 2), Registration::Registered(13));

    // Nothing waits any more: one more completion finds nobody.
    unresolved(&server.gatts_event_handler(1, add_char(10, 0x2A00, 14)));
    assert_eq!(char_state(&server, 0, 2), Registration::Registered(13));
}

#[test]
fn descriptors_with_one_identifier_stay_with_their_characteristic() {
    let mut first = characteristic(0x2A00);
    first.add_descriptor(descriptor(0x2902)).add_descriptor(descriptor(0x2902));
    let mut second = characteristic(0x2A01);
    second.add_descriptor(descriptor(0x2902));
    let profile = Profile::new("p", 1).add_service(service(0x1800, vec![first, second]));
    let mut server = GattServer::new();
    server.add_profiles(&[profile]);
    server.start();
    server.gatts_event_handler(1, GattsEvent::Register { status: OK, app_id: 1 });
    server.gatts_event_handler(1, create(0x1800, 10));
    server.gatts_event_handler(1, start(10));
    server.gatts_event_handler(1, add_char(10, 0x2A00, 11));

    // Only the first descriptor of the first characteristic waits.
    assert_eq!(descr_state(&server, 0, 0, 0), Registration::Requested);
    assert_eq!(descr_state(&server, 0, 0, 1), Registration::Unregistered);
    assert_eq!(descr_state(&server, 0, 1, 0), Registration::Unregistered);

    assert_eq!(one_call(&server.gatts_event_handler(1, add_descr(10, 0x2902, 12))), descr_call(10, 0x2902));
    assert_eq!(descr_state(&server, 0, 0, 0), Registration::Registered(12));
    assert_eq!(descr_state(&server, 0, 0, 1), Registration::Requested);
    assert_eq!(descr_state(&server, 0, 1, 0), Registration::Unregistered);

    assert_eq!(one_call(&server.gatts_event_handler(1, add_descr(10, 0x2902, 13))), char_call(10, 0x2A01));
    assert_eq!(descr_state(&server, 0, 0, 1), Registration::Registered(13));
    assert_eq!(descr_state(&server, 0, 1, 0), Registration::Unregistered);

    // A completion that comes while no descriptor waits is dropped.
    unresolved(&server.gatts_event_handler(1, add_descr(10, 0x2902, 99)));
    assert_eq!(descr_state(&server, 0, 1, 0), Registration::Unregistered);

    assert_eq!(one_call(&server.gatts_event_handler(1, add_char(10, 0x2A01, 14))), descr_call(10, 0x2902));
    no_call(&server.gatts_event_handler(1, add_descr(10, 0x2902, 15)));
    assert_eq!(descr_state(&server, 0, 1, 0), Registration::Registered(15));
}

#[test]
fn a_refused_node_is_abandoned_and_the_rest_goes_on() {
    let mut server = sample_server();
    server.start();
    server.gatts_event_handler(3, GattsEvent::Register { status: OK, app_id: 0x0055 });
    server.gatts_event_handler(3, create(0x1800, 40));
    server.gatts_event_handler(3, start(40));

    // The first characteristic is refused: its descriptors are never
    // asked for, the next characteristic is.
    let refused = GattsEvent::AddCharacteristic {
        status: ERROR,
        attr_handle: 0,
        service_handle: 40,
        char_uuid: BleUuid::from_uuid16(0x2A00),
    };
    assert_eq!(one_call(&server.gatts_event_handler(3, refused)), char_call(40, 0x2A01));
    assert_eq!(char_state(&server, 0, 0), Registration::Failed);
    assert_eq!(descr_state(&server, 0, 0, 0), Registration::Unregistered);
    assert_eq!(descr_state(&server, 0, 0, 1), Registration::Unregistered);

    server.gatts_event_handler(3, add_char(40, 0x2A01, 46));

    // The second service is refused at its start: its characteristic is
    // never asked for.
    server.gatts_event_handler(3, create(0x1801, 60));
    no_call(&server.gatts_event_handler(3, GattsEvent::Start { status: ERROR, service_handle: 60 }));
    assert_eq!(state_of(&server, 1), ServiceState::Failed);
    assert_eq!(char_state(&server, 1, 0), Registration::Unregistered);
    unresolved(&server.gatts_event_handler(3, add_char(60, 0x2A05, 62)));
}

#[test]
fn a_refused_service_makes_way_for_the_next() {
    let mut server = sample_server();
    server.start();
    server.gatts_event_handler(3, GattsEvent::Register { status: OK, app_id: 0x0055 });
    let refused = GattsEvent::Create {
        status: ERROR,
        service_handle: 0,
        service_uuid: BleUuid::from_uuid16(0x1800),
    };
    assert_eq!(one_call(&server.gatts_event_handler(3, refused)), service_call(3, 0x1801));
    assert_eq!(state_of(&server, 0), ServiceState::Failed);
    assert_eq!(server.profile_at(0).unwrap().service_at(0).unwrap().handle(), None);
    assert_eq!(state_of(&server, 1), ServiceState::Requested);
}

#[test]
fn a_refused_profile_registers_nothing() {
    let mut server = sample_server();
    server.start();
    let reaction = server.gatts_event_handler(3, GattsEvent::Register { status: ERROR, app_id: 0x0055 });
    no_call(&reaction);
    assert_eq!(server.profile_at(0).unwrap().state(), ProfileState::Failed);
    assert_eq!(server.profile_at(0).unwrap().interface(), None);
    assert!(!server.is_advertisement_configured());
    assert_eq!(state_of(&server, 0), ServiceState::Unregistered);
    unresolved(&server.gatts_event_handler(3, create(0x1800, 40)));
}

#[test]
fn completions_that_nothing_waits_for_are_dropped() {
    let mut server = sample_server();
    // Before the start nothing waits at all.
    unresolved(&server.gatts_event_handler(3, GattsEvent::Register { status: OK, app_id: 0x0055 }));
    server.start();
    unresolved(&server.gatts_event_handler(3, GattsEvent::Register { status: OK, app_id: 0x0056 }));
    unresolved(&server.gatts_event_handler(3, create(0x1800, 40)));
    server.gatts_event_handler(3, GattsEvent::Register { status: OK, app_id: 0x0055 });

    // Another interface, another identifier, a child before its parent.
    unresolved(&server.gatts_event_handler(4, create(0x1800, 40)));
    unresolved(&server.gatts_event_handler(3, create(0x1801, 40)));
    unresolved(&server.gatts_event_handler(3, start(40)));
    unresolved(&server.gatts_event_handler(3, add_char(40, 0x2A00, 42)));
    assert_eq!(state_of(&server, 0), ServiceState::Requested);
    assert_eq!(state_of(&server, 1), ServiceState::Unregistered);

    server.gatts_event_handler(3, create(0x1800, 40));
    // The characteristic is not asked for before the service runs.
    unresolved(&server.gatts_event_handler(3, add_char(40, 0x2A00, 42)));
    unresolved(&server.gatts_event_handler(3, start(41)));
    server.gatts_event_handler(3, start(40));
    // A second start of the same service is not awaited.
    unresolved(&server.gatts_event_handler(3, start(40)));
    // The descriptor is not asked for before the characteristic is there.
    unresolved(&server.gatts_event_handler(3, add_descr(40, 0x2901, 43)));
    // The second characteristic is not asked for yet.
    unresolved(&server.gatts_event_handler(3, add_char(40, 0x2A01, 46)));
    unresolved(&server.gatts_event_handler(3, add_char(41, 0x2A00, 42)));
    assert_eq!(char_state(&server, 0, 0), Registration::Requested);
    assert_eq!(char_state(&server, 0, 1), Registration::Unregistered);
    // The second registration of a profile is not awaited either.
    unresolved(&server.gatts_event_handler(3, GattsEvent::Register { status: OK, app_id: 0x0055 }));
    assert_eq!(server.profile_at(0).unwrap().interface(), Some(3));
}

#[test]
fn events_without_a_use_are_told_apart_from_events_without_a_target() {
    let mut server = sample_server();
    server.start();
    server.gatts_event_handler(3, GattsEvent::Register { status: OK, app_id: 0x0055 });
    let reaction = server.gatts_event_handler(3, GattsEvent::Other(21));
    assert_eq!(reaction.outcome, Outcome::Unhandled);
    assert!(reaction.steps.is_empty());
    let reaction = server.gatts_event_handler(3, GattsEvent::Confirm { status: OK, conn_id: 1 });
    no_call(&reaction);
    unresolved(&server.gatts_event_handler(8, GattsEvent::Other(21)));
    no_call(&server.gatts_event_handler(8, GattsEvent::Mtu { conn_id: 1, mtu: 185 }));
    no_call(&server.gatts_event_handler(8, GattsEvent::Response { status: OK, handle: 4 }));
}

#[test]
fn the_name_and_the_appearance_are_fixed_once_advertised() {
    let mut server = sample_server();
    server.device_name("Thermometer").appearance(0x0300);
    server.advertise_service(Service::new(BleUuid::from_uuid16(0x1809)));
    assert_eq!(server.advertised_name(), "Thermometer");
    assert_eq!(server.advertised_appearance(), 0x0300);
    server.start();
    let reaction = server.gatts_event_handler(3, GattsEvent::Register { status: OK, app_id: 0x0055 });
    assert_eq!(
        calls(&reaction)[0],
        DriverCall::ConfigureAdvertising {
            device_name: String::from("Thermometer"),
            appearance: 0x0300,
            service_uuid: Some(BleUuid::from_uuid16(0x1809).as_uuid128_array()),
        }
    );
    assert!(server.is_advertisement_configured());
    server.device_name("Other").appearance(1);
    assert_eq!(server.advertised_name(), "Thermometer");
    assert_eq!(server.advertised_appearance(), 0x0300);
    assert_eq!(
        server.advertised_service(),
        Some(BleUuid::from_uuid16(0x1809).as_uuid128_array())
    );
}

#[test]
fn a_new_server_is_empty() {
    let server = GattServer::default();
    assert!(!server.is_started());
    assert!(!server.is_advertisement_configured());
    assert_eq!(server.profile_count(), 0);
    assert!(server.connections().is_empty());
    assert_eq!(server.advertised_name(), "ESP32");
    assert_eq!(server.advertised_appearance(), 0);
    assert_eq!(server.advertised_service(), None);
    assert!(server.profile_at(0).is_none());
}

#[test]
fn services_and_profiles_are_built_in_order() {
    let mut s = Service::new(BleUuid::from_uuid16(0x180D));
    assert!(!s.is_primary());
    assert_eq!(s.state(), ServiceState::Unregistered);
    s.name("Heart Rate").primary().characteristic(characteristic(1)).characteristic(characteristic(2));
    assert!(s.is_primary());
    assert_eq!(s.characteristic_count(), 2);
    assert_eq!(s.characteristic_at(1).unwrap().uuid(), BleUuid::from_uuid16(2));
    assert!(s.characteristic_at(2).is_none());
    assert_eq!(s.get_characteristic_by_id(&BleUuid::from_uuid16(2)), Some(1));
    assert_eq!(s.get_characteristic_by_id(&BleUuid::from_uuid16(3)), None);
    assert_eq!(s.get_characteristic_by_handle(2), None);

    let built = s.build();
    assert_eq!(built.uuid(), BleUuid::from_uuid16(0x180D));
    assert_eq!(built.characteristic_count(), 2);
    assert!(built.is_primary());

    let p = Profile::new("p", 7).add_service(built).add_service(Service::new(BleUuid::from_uuid16(9)));
    assert_eq!(p.identifier(), 7);
    assert_eq!(p.service_count(), 2);
    assert_eq!(p.service_at(1).unwrap().uuid(), BleUuid::from_uuid16(9));
    assert!(p.service_at(2).is_none());
    assert_eq!(p.get_service_by_id(&BleUuid::from_uuid16(9)), Some(1));
    assert_eq!(p.get_service_by_id(&BleUuid::from_uuid16(10)), None);
    assert_eq!(p.get_service(1), None);
    assert_eq!(p.state(), ProfileState::Unregistered);
}

#[test]
fn descriptors_are_found_by_identifier() {
    let mut first = characteristic(1);
    first.add_descriptor(descriptor(0x2901));
    let mut second = characteristic(2);
    second.add_descriptor(descriptor(0x2902)).add_descriptor(descriptor(0x2901)).add_descriptor(descriptor(0x2902));
    assert_eq!(second.get_descriptor_by_id(&BleUuid::from_uuid16(0x2902)), Some(0));
    assert_eq!(second.get_descriptor_by_id(&BleUuid::from_uuid16(0x2901)), Some(1));
    assert_eq!(second.get_descriptor_by_id(&BleUuid::from_uuid16(0x2903)), None);
    assert_eq!(second.get_descriptor_by_handle(1), None);
    let s = service(0x1800, vec![characteristic(0), first, second]);
    assert_eq!(s.get_descriptor_by_id(&BleUuid::from_uuid16(0x2901)), Some((1, 0)));
    assert_eq!(s.get_descriptor_by_id(&BleUuid::from_uuid16(0x2902)), Some((2, 0)));
    assert_eq!(s.get_descriptor_by_id(&BleUuid::from_uuid16(0x2903)), None);
    assert_eq!(s.label(), &None);
    let mut named = Service::new(BleUuid::from_uuid16(1));
    named.name("Battery");
    assert_eq!(named.label(), &Some(String::from("Battery")));
    assert_eq!(Profile::new("Main", 1).label(), &Some(String::from("Main")));
}

#[test]
fn the_first_call_of_a_service_and_of_a_profile() {
    let mut s = service(0x1800, vec![]);
    assert_eq!(s.register_self(4), service_call(4, 0x1800));
    assert_eq!(s.state(), ServiceState::Requested);
    // A service without characteristics is done once it runs.
    assert_eq!(s.on_created(true, 9), Some(DriverCall::StartService { service_handle: 9 }));
    assert_eq!(s.handle(), Some(9));
    assert_eq!(s.on_started(true), None);
    assert_eq!(s.state(), ServiceState::Started(9));
    assert_eq!(s.register_characteristics(), None);

    let mut secondary = Service::new(BleUuid::from_uuid32(0xAABBCCDD));
    assert_eq!(
        secondary.register_self(1),
        DriverCall::CreateService {
            interface: 1,
            uuid: BleUuid::from_uuid32(0xAABBCCDD),
            primary: false,
            handles: 64,
        }
    );

    let mut p = Profile::new("p", 0x1234);
    assert_eq!(p.register_self(), DriverCall::RegisterApplication { app_id: 0x1234 });
    assert!(p.awaits(0x1234));
    assert!(!p.awaits(0x1235));
    assert_eq!(p.register_services(), None);
}
