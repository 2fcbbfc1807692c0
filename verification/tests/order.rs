use bluedroid::gatt_server::{
    Characteristic, Descriptor, DriverCall, GattServer, GattsEvent, Profile, ProfileState,
    Registration, Service, ServiceState, Step,
};
use bluedroid::utilities::{AttributePermissions, BleUuid, CharacteristicProperties};

/// A small generator of numbers, the same on every run.
struct Numbers(u64);

impl Numbers {
    fn next(&mut self, below: u64) -> u64 {
        self.0 = self.0.wrapping_mul(6364136223846793005).wrapping_add(1442695040888963407);
        (self.0 >> 33) % below
    }
}

fn tree(numbers: &mut Numbers) -> GattServer {
    let mut server = GattServer::new();
    let mut profiles = Vec::new();
    for p in 0..1 + numbers.next(2) {
        let mut profile = Profile::new("p", p as u16);
        for _ in 0..numbers.next(3) {
            let mut service = Service::new(BleUuid::from_uuid16(0x1800 + numbers.next(2) as u16));
            for _ in 0..numbers.next(4) {
                let mut characteristic = Characteristic::new(
                    "c",
                    BleUuid::from_uuid16(0x2A00 + numbers.next(2) as u16),
                    AttributePermissions::read(),
                    CharacteristicProperties::new().read(),
                );
                for _ in 0..numbers.next(3) {
                    characteristic.add_descriptor(Descriptor::new(
                        "d",
                        BleUuid::from_uuid16(0x2900 + numbers.next(2) as u16),
                        AttributePermissions::read(),
                    ));
                }
                service.characteristic(characteristic);
            }
            profile = profile.add_service(service);
        }
        profiles.push(profile);
    }
    server.add_profiles(&profiles);
    server
}

fn event(numbers: &mut Numbers) -> (u8, GattsEvent) {
    let status = if numbers.next(5) == 0 { 1 } else { 0 };
    let interface = numbers.next(3) as u8;
    let handle = numbers.next(6) as u16;
    let service_handle = numbers.next(4) as u16;
    let event = match numbers.next(5) {
        0 => GattsEvent::Register { status, app_id: numbers.next(3) as u16 },
        1 => GattsEvent::Create {
            status,
            service_handle,
            service_uuid: BleUuid::from_uuid16(0x1800 + numbers.next(2) as u16),
        },
        2 => GattsEvent::Start { status, service_handle },
        3 => GattsEvent::AddCharacteristic {
            status,
            attr_handle: handle,
            service_handle,
            char_uuid: BleUuid::from_uuid16(0x2A00 + numbers.next(2) as u16),
        },
        _ => GattsEvent::AddDescriptor {
            status,
            attr_handle: handle,
            service_handle,
            descr_uuid: BleUuid::from_uuid16(0x2900 + numbers.next(2) as u16),
        },
    };
    (interface, event)
}

fn settled(registration: Registration) -> bool {
    matches!(registration, Registration::Registered(_) | Registration::Failed)
}

/// Checks that no child is ahead of its parent, that siblings were
/// answered in the order of their declaration, and that at most one call
/// is in flight in every profile.
fn check(server: &GattServer) {
    for p in 0..server.profile_count() {
        let profile = server.profile_at(p).unwrap();
        let mut in_flight = 0;
        if profile.state() == ProfileState::Requested {
            in_flight += 1;
        }
        let mut service_open = false;
        for s in 0..profile.service_count() {
            let service = profile.service_at(s).unwrap();
            let state = service.state();
            if state != ServiceState::Unregistered {
                assert!(matches!(profile.state(), ProfileState::Registered(_)));
                assert!(!service_open, "a service was asked for before the one before it was done");
            }
            if matches!(state, ServiceState::Requested | ServiceState::Created(_)) {
                in_flight += 1;
            }
            if !matches!(state, ServiceState::Started(_) | ServiceState::Failed) {
                service_open = true;
            }
            let mut characteristic_open = false;
            for c in 0..service.characteristic_count() {
                let characteristic = service.characteristic_at(c).unwrap();
                let registration = characteristic.registration();
                if registration != Registration::Unregistered {
                    assert!(matches!(state, ServiceState::Started(_)));
                    assert!(!characteristic_open);
                }
                if registration == Registration::Requested {
                    in_flight += 1;
                }
                if !settled(registration) {
                    characteristic_open = true;
                }
                let mut descriptor_open = false;
                for d in 0..characteristic.descriptor_count() {
                    let descriptor = characteristic.descriptor(d).unwrap().registration();
                    if descriptor != Registration::Unregistered {
                        assert!(matches!(registration, Registration::Registered(_)));
                        assert!(!descriptor_open);
                    }
                    if descriptor == Registration::Requested {
                        in_flight += 1;
                        characteristic_open = true;
                        service_open = true;
                    }
                    if !settled(descriptor) {
                        descriptor_open = true;
                    }
                }
            }
        }
        assert!(in_flight <= 1, "{} calls are in flight in profile {}", in_flight, p);
    }
}

#[test]
fn no_sequence_of_events_leads_out_of_order() {
    let mut numbers = Numbers(0x5EED);
    for _ in 0..60 {
        let mut server = tree(&mut numbers);
        check(&server);
        server.start();
        check(&server);
        for _ in 0..400 {
            let (interface, event) = event(&mut numbers);
            let reaction = server.gatts_event_handler(interface, event);
            for step in &reaction.steps {
                assert!(matches!(step, Step::Call(_)));
            }
            check(&server);
        }
    }
}

#[test]
fn a_willing_stack_registers_the_whole_tree() {
    let mut numbers = Numbers(7);
    for _ in 0..40 {
        let mut server = tree(&mut numbers);
        let mut pending: Vec<(u8, DriverCall)> = server.start().into_iter().map(|call| (0, call)).collect();
        let mut next_handle: u16 = 0;
        let mut next_interface: u8 = 0;
        let mut registrations = 0;
        while !pending.is_empty() {
            let (interface, call) = pending.remove(0);
            let answer = match call {
                DriverCall::RegisterApplication { app_id } => {
                    next_interface += 1;
                    Some((next_interface, GattsEvent::Register { status: 0, app_id }))
                }
                DriverCall::CreateService { interface, uuid, .. } => {
                    next_handle += 1;
                    let event = GattsEvent::Create { status: 0, service_handle: next_handle, service_uuid: uuid };
                    Some((interface, event))
                }
                DriverCall::StartService { service_handle } => {
                    Some((interface, GattsEvent::Start { status: 0, service_handle }))
                }
                DriverCall::AddCharacteristic { service_handle, uuid, .. } => {
                    next_handle += 1;
                    let event = GattsEvent::AddCharacteristic {
                        status: 0,
                        attr_handle: next_handle,
                        service_handle,
                        char_uuid: uuid,
                    };
                    Some((interface, event))
                }
                DriverCall::AddDescriptor { service_handle, uuid, .. } => {
                    next_handle += 1;
                    let event = GattsEvent::AddDescriptor {
                        status: 0,
                        attr_handle: next_handle,
                        service_handle,
                        descr_uuid: uuid,
                    };
                    Some((interface, event))
                }
                _ => None,
            };
            if let Some((interface, event)) = answer {
                registrations += 1;
                for step in server.gatts_event_handler(interface, event).steps {
                    match step {
                        Step::Call(call) => pending.push((interface, call)),
                        other => panic!("unexpected step {:?}", other),
                    }
                }
                check(&server);
            }
        }
        // Every node has its handle, and the handles were given out in
        // the order of a walk that goes depth first.
        let mut nodes = 0;
        for p in 0..server.profile_count() {
            let profile = server.profile_at(p).unwrap();
            assert!(matches!(profile.state(), ProfileState::Registered(_)));
            nodes += 1;
            let mut last = 0;
            for s in 0..profile.service_count() {
                let service = profile.service_at(s).unwrap();
                // A service is created and started: two answers.
                nodes += 2;
                let handle = service.handle().unwrap();
                assert!(matches!(service.state(), ServiceState::Started(_)));
                assert!(handle > last);
                last = handle;
                for c in 0..service.characteristic_count() {
                    let characteristic = service.characteristic_at(c).unwrap();
                    nodes += 1;
                    let handle = characteristic.attribute_handle().unwrap();
                    assert!(handle > last);
                    last = handle;
                    for d in 0..characteristic.descriptor_count() {
                        nodes += 1;
                        let handle = characteristic.descriptor(d).unwrap().attribute_handle().unwrap();
                        assert!(handle > last);
                        last = handle;
                    }
                }
            }
        }
        assert_eq!(registrations, nodes);
    }
}
