use bluedroid::gatt_server::{
    fits_frame, publish, read_response, store_name, subscription_key, subscription_read,
    subscription_write, Characteristic, ConfigurationError,
    Descriptor, DriverCall, GattServer, GattsEvent, Outcome, Profile, Reaction, ReadRequest,
    Service, Step, SubscriptionRecord, WriteRequest,
};
use bluedroid::utilities::{
    AttributePermissions, BleUuid, Callback, CharacteristicProperties, Connection,
};
use std::collections::HashMap;

const OK: u32 = 0;
const IF: u8 = 3;
const PEER_1: [u8; 6] = [0x10, 0x11, 0x12, 0x13, 0x14, 0x15];
const PEER_2: [u8; 6] = [0x20, 0x21, 0x22, 0x23, 0x24, 0x25];

/// What stands for the host stack in these tests: it answers every call
/// that asks for a registration with the next free handle.
fn bring_up(server: &mut GattServer) -> Vec<DriverCall> {
    let mut made = Vec::new();
    let mut pending: Vec<DriverCall> = server.start();
    let mut next_handle: u16 = 40;
    while !pending.is_empty() {
        let call = pending.remove(0);
        made.push(call.clone());
        let event = match call {
            DriverCall::RegisterApplication { app_id } => {
                Some(GattsEvent::Register { status: OK, app_id })
            }
            DriverCall::CreateService { uuid, .. } => {
                next_handle += 1;
                Some(GattsEvent::Create { status: OK, service_handle: next_handle, service_uuid: uuid })
            }
            DriverCall::StartService { service_handle } => {
                Some(GattsEvent::Start { status: OK, service_handle })
            }
            DriverCall::AddCharacteristic { service_handle, uuid, .. } => {
                next_handle += 1;
                Some(GattsEvent::AddCharacteristic {
                    status: OK,
                    attr_handle: next_handle,
                    service_handle,
                    char_uuid: uuid,
                })
            }
            DriverCall::AddDescriptor { service_handle, uuid, .. } => {
                next_handle += 1;
                Some(GattsEvent::AddDescriptor {
                    status: OK,
                    attr_handle: next_handle,
                    service_handle,
                    descr_uuid: uuid,
                })
            }
            _ => None,
        };
        if let Some(event) = event {
            let reaction = server.gatts_event_handler(IF, event);
            assert_eq!(reaction.outcome, Outcome::Handled);
            for step in reaction.steps {
                match step {
                    Step::Call(call) => pending.push(call),
                    other => panic!("unexpected step {:?}", other),
                }
            }
        }
    }
    made
}

/// One service (0x180D) with the heart rate measurement (0x2A37, read and
/// notify) and its configuration descriptor, and a second characteristic
/// whose reads and writes go to the application.
fn heart_rate_server() -> GattServer {
    let mut measurement = Characteristic::new(
        "Heart Rate Measurement",
        BleUuid::from_uuid16(0x2A37),
        AttributePermissions::read(),
        CharacteristicProperties::new().read().notify(),
    );
    measurement.add_descriptor(Descriptor::cccd());
    let mut control = Characteristic::new(
        "Control Point",
        BleUuid::from_uuid16(0x2A39),
        AttributePermissions::read_write(),
        CharacteristicProperties::new().read().write(),
    );
    control.on_read(Callback::Application(1)).on_write(Callback::Application(2));
    let mut plain = Descriptor::new("Plain", BleUuid::from_uuid16(0x2900), AttributePermissions::read());
    plain.on_read(Callback::Application(3));
    control.add_descriptor(plain);
    let mut service = Service::new(BleUuid::from_uuid16(0x180D));
    service.primary().characteristic(measurement).characteristic(control);
    let mut server = GattServer::new();
    server.add_profiles(&[Profile::new("Heart Rate", 1).add_service(service)]);
    server
}

// Handles that `bring_up` hands out for `heart_rate_server`.
const SERVICE: u16 = 41;
const MEASUREMENT: u16 = 42;
const CCCD: u16 = 43;
const CONTROL: u16 = 44;
const PLAIN: u16 = 45;

fn read(handle: u16, peer: [u8; 6], conn_id: u16) -> ReadRequest {
    ReadRequest { conn_id, trans_id: 77, peer, handle, offset: 0, is_long: false, need_rsp: true }
}

fn write(handle: u16, peer: [u8; 6], conn_id: u16, need_rsp: bool, value: Vec<u8>) -> WriteRequest {
    WriteRequest { conn_id, trans_id: 78, peer, handle, offset: 0, need_rsp, is_prep: false, value }
}

fn connect(server: &mut GattServer, conn_id: u16, peer: [u8; 6]) {
    let reaction =
        server.gatts_event_handler(IF, GattsEvent::Connect { conn_id, link_role: 1, remote_bda: peer });
    assert_eq!(reaction.outcome, Outcome::Handled);
    assert!(reaction.steps.is_empty());
}

/// Carries out the steps of a reaction as a host would, with a map for
/// the subscription store, and returns the calls that were made.
fn carry_out(reaction: Reaction, store: &mut HashMap<Vec<u8>, Vec<u8>>) -> Vec<DriverCall> {
    let mut made = Vec::new();
    for step in reaction.steps {
        match step {
            Step::Call(call) => made.push(call),
            Step::Read { callback, request, subject, interface } => {
                let value = match callback {
                    Callback::Subscription => {
                        let key = subscription_key(&request.peer, subject.unwrap());
                        SubscriptionRecord::from_store(request.peer, subject.unwrap(), &store.get(&key).cloned())
                            .to_cccd()
                    }
                    Callback::Application(1) => vec![0xC0, 0xDE],
                    // The handler of the plain descriptor is broken: it
                    // fails, and its read goes unanswered.
                    Callback::Application(3) => continue,
                    Callback::Application(other) => vec![other as u8],
                };
                assert!(fits_frame(&value));
                made.push(read_response(&request, interface, &value));
            }
            Step::Write { callback, write, subject } => match callback {
                Callback::Subscription => {
                    let record = SubscriptionRecord::from_cccd(write.peer, subject.unwrap(), &write.value);
                    store.insert(record.key(), record.to_cccd());
                }
                Callback::Application(_) => {}
            },
            Step::Publish { interface, connection, handle, value, indicate } => {
                let stored = store.get(&subscription_key(&connection.remote_bda, handle)).cloned();
                if let Some(call) = publish(interface, connection, handle, value, indicate, &stored) {
                    made.push(call);
                }
            }
        }
    }
    made
}

#[test]
fn the_sample_server_comes_up_in_order() {
    let mut server = heart_rate_server();
    let calls = bring_up(&mut server);
    assert_eq!(calls.len(), 9);
    assert_eq!(calls[0], DriverCall::InitialiseStack);
    assert_eq!(calls[1], DriverCall::RegisterApplication { app_id: 1 });
    assert!(matches!(calls[2], DriverCall::ConfigureAdvertising { .. }));
    assert!(matches!(calls[3], DriverCall::CreateService { interface: IF, primary: true, .. }));
    assert_eq!(calls[4], DriverCall::StartService { service_handle: SERVICE });
    assert!(matches!(calls[5], DriverCall::AddCharacteristic { control: 1, .. }));
    assert!(matches!(calls[6], DriverCall::AddDescriptor { .. }));
    assert!(matches!(calls[7], DriverCall::AddCharacteristic { control: 0, .. }));
    assert!(matches!(calls[8], DriverCall::AddDescriptor { .. }));
    let service = server.profile_at(0).unwrap().service_at(0).unwrap();
    assert_eq!(service.handle(), Some(SERVICE));
    assert_eq!(service.characteristic_at(0).unwrap().attribute_handle(), Some(MEASUREMENT));
    assert_eq!(service.characteristic_at(0).unwrap().descriptor(0).unwrap().attribute_handle(), Some(CCCD));
    assert_eq!(service.characteristic_at(1).unwrap().attribute_handle(), Some(CONTROL));
    assert_eq!(service.characteristic_at(1).unwrap().descriptor(0).unwrap().attribute_handle(), Some(PLAIN));
    assert_eq!(service.get_characteristic_by_handle(CONTROL), Some(1));
    assert_eq!(service.locate(PLAIN), Some(1));
    assert_eq!(service.locate(SERVICE), None);
    assert_eq!(server.profile_at(0).unwrap().get_service(SERVICE), Some(0));
    assert_eq!(server.profile_at(0).unwrap().locate(CCCD), Some(0));
}

#[test]
fn a_subscribed_peer_is_notified_once_and_an_unsubscribed_peer_never() {
    let mut server = heart_rate_server();
    bring_up(&mut server);
    let mut store = HashMap::new();
    connect(&mut server, 1, PEER_1);
    connect(&mut server, 2, PEER_2);

    // The first peer subscribes to notifications.
    let reaction =
        server.gatts_event_handler(IF, GattsEvent::Write(write(CCCD, PEER_1, 1, false, vec![1, 0])));
    assert_eq!(reaction.outcome, Outcome::Handled);
    assert!(carry_out(reaction, &mut store).is_empty());
    assert_eq!(store.len(), 1);

    // The application updates the value.
    let update = server.set_characteristic_value(0, 0, 0, vec![0x06, 0x48]);
    assert_eq!(update, Ok(Some(DriverCall::SetAttributeValue { handle: MEASUREMENT, value: vec![0x06, 0x48] })));

    // The stack reports the change.
    let reaction = server.gatts_event_handler(
        IF,
        GattsEvent::SetAttributeValue { status: OK, service_handle: SERVICE, attr_handle: MEASUREMENT },
    );
    assert_eq!(reaction.outcome, Outcome::Handled);
    assert_eq!(reaction.steps.len(), 2);
    let pushes = carry_out(reaction, &mut store);
    assert_eq!(
        pushes,
        vec![DriverCall::SendIndicate {
            interface: IF,
            conn_id: 1,
            handle: MEASUREMENT,
            value: vec![0x06, 0x48],
            need_confirm: false,
        }]
    );
}

#[test]
fn the_subscription_outlives_the_connection() {
    let mut server = heart_rate_server();
    bring_up(&mut server);
    let mut store = HashMap::new();
    connect(&mut server, 1, PEER_1);
    let reaction =
        server.gatts_event_handler(IF, GattsEvent::Write(write(CCCD, PEER_1, 1, false, vec![1, 0])));
    carry_out(reaction, &mut store);
    server.gatts_event_handler(IF, GattsEvent::Disconnect { conn_id: 1, link_role: 1, remote_bda: PEER_1 });
    connect(&mut server, 5, PEER_1);

    let reaction = server.gatts_event_handler(
        IF,
        GattsEvent::SetAttributeValue { status: OK, service_handle: SERVICE, attr_handle: MEASUREMENT },
    );
    let pushes = carry_out(reaction, &mut store);
    assert_eq!(pushes.len(), 1);
    assert!(matches!(pushes[0], DriverCall::SendIndicate { conn_id: 5, need_confirm: false, .. }));

    // The peer reads its configuration back.
    let reaction = server.gatts_event_handler(IF, GattsEvent::Read(read(CCCD, PEER_1, 5)));
    let answers = carry_out(reaction, &mut store);
    match &answers[..] {
        [DriverCall::SendResponse { length, frame, handle, conn_id, .. }] => {
            assert_eq!(*length, 2);
            assert_eq!(&frame[..2], &[1, 0]);
            assert_eq!(*handle, CCCD);
            assert_eq!(*conn_id, 5);
        }
        other => panic!("unexpected calls {:?}", other),
    }
    // A peer that has never written reads zeroes.
    let reaction = server.gatts_event_handler(IF, GattsEvent::Read(read(CCCD, PEER_2, 6)));
    match &carry_out(reaction, &mut store)[..] {
        [DriverCall::SendResponse { length, frame, .. }] => {
            assert_eq!(*length, 2);
            assert_eq!(&frame[..2], &[0, 0]);
        }
        other => panic!("unexpected calls {:?}", other),
    }
}

#[test]
fn a_characteristic_that_indicates_pushes_with_confirmation() {
    let mut indicated = Characteristic::new(
        "i",
        BleUuid::from_uuid16(0x2A05),
        AttributePermissions::read(),
        CharacteristicProperties::new().indicate(),
    );
    indicated.add_descriptor(Descriptor::cccd());
    let mut service = Service::new(BleUuid::from_uuid16(0x1801));
    service.characteristic(indicated);
    let mut server = GattServer::new();
    server.add_profiles(&[Profile::new("p", 1).add_service(service)]);
    bring_up(&mut server);
    let mut store = HashMap::new();
    connect(&mut server, 1, PEER_1);
    connect(&mut server, 2, PEER_2);
    // The first peer asks for notifications only, the second for indications.
    store.insert(subscription_key(&PEER_1, 42), vec![1, 0]);
    store.insert(subscription_key(&PEER_2, 42), vec![2, 0]);
    let reaction = server.gatts_event_handler(
        IF,
        GattsEvent::SetAttributeValue { status: OK, service_handle: 41, attr_handle: 42 },
    );
    let pushes = carry_out(reaction, &mut store);
    assert_eq!(
        pushes,
        vec![DriverCall::SendIndicate {
            interface: IF,
            conn_id: 2,
            handle: 42,
            value: vec![0],
            need_confirm: true,
        }]
    );
}

#[test]
fn a_characteristic_that_does_not_push_is_not_fanned_out() {
    let mut server = heart_rate_server();
    bring_up(&mut server);
    connect(&mut server, 1, PEER_1);
    let reaction = server.gatts_event_handler(
        IF,
        GattsEvent::SetAttributeValue { status: OK, service_handle: SERVICE, attr_handle: CONTROL },
    );
    assert_eq!(reaction.outcome, Outcome::Handled);
    assert!(reaction.steps.is_empty());
}

#[test]
fn a_changed_value_that_cannot_be_placed_is_dropped() {
    let mut server = heart_rate_server();
    bring_up(&mut server);
    connect(&mut server, 1, PEER_1);
    for (interface, service, attribute) in
        [(IF + 1, SERVICE, MEASUREMENT), (IF, SERVICE + 30, MEASUREMENT), (IF, SERVICE, CCCD)]
    {
        let reaction = server.gatts_event_handler(
            interface,
            GattsEvent::SetAttributeValue { status: OK, service_handle: service, attr_handle: attribute },
        );
        assert_eq!(reaction.outcome, Outcome::Unresolved);
        assert!(reaction.steps.is_empty());
    }
}

#[test]
fn without_connections_nothing_is_pushed() {
    let mut server = heart_rate_server();
    bring_up(&mut server);
    let reaction = server.gatts_event_handler(
        IF,
        GattsEvent::SetAttributeValue { status: OK, service_handle: SERVICE, attr_handle: MEASUREMENT },
    );
    assert_eq!(reaction.outcome, Outcome::Handled);
    assert!(reaction.steps.is_empty());
}

#[test]
fn reads_of_an_automatic_attribute_ask_for_nothing() {
    let mut server = heart_rate_server();
    bring_up(&mut server);
    let reaction = server.gatts_event_handler(IF, GattsEvent::Read(read(MEASUREMENT, PEER_1, 1)));
    assert_eq!(reaction.outcome, Outcome::Handled);
    assert!(reaction.steps.is_empty());
}

#[test]
fn reads_of_an_application_attribute_run_its_handler() {
    let mut server = heart_rate_server();
    bring_up(&mut server);
    let request = read(CONTROL, PEER_1, 1);
    let reaction = server.gatts_event_handler(IF, GattsEvent::Read(request));
    assert_eq!(
        reaction.steps,
        vec![Step::Read {
            callback: Callback::Application(1),
            request,
            subject: Some(CONTROL),
            interface: IF,
        }]
    );
    let answers = carry_out(reaction, &mut HashMap::new());
    match &answers[..] {
        [DriverCall::SendResponse { interface, conn_id, trans_id, handle, length, frame }] => {
            assert_eq!((*interface, *conn_id, *trans_id, *handle, *length), (IF, 1, 77, CONTROL, 2));
            assert_eq!(frame.len(), 600);
            assert_eq!(&frame[..2], &[0xC0, 0xDE]);
            assert!(frame[2..].iter().all(|byte| *byte == 0));
        }
        other => panic!("unexpected calls {:?}", other),
    }
}

#[test]
fn a_descriptor_is_read_with_the_handle_of_its_characteristic() {
    let mut server = heart_rate_server();
    bring_up(&mut server);
    let request = read(CCCD, PEER_1, 1);
    let reaction = server.gatts_event_handler(IF, GattsEvent::Read(request));
    assert_eq!(
        reaction.steps,
        vec![Step::Read {
            callback: Callback::Subscription,
            request,
            subject: Some(MEASUREMENT),
            interface: IF,
        }]
    );
}

#[test]
fn a_failing_handler_leaves_the_other_attributes_alone() {
    let mut server = heart_rate_server();
    bring_up(&mut server);
    let mut store = HashMap::new();

    // The handler of the plain descriptor fails: no answer goes out.
    let reaction = server.gatts_event_handler(IF, GattsEvent::Read(read(PLAIN, PEER_1, 1)));
    assert_eq!(reaction.outcome, Outcome::Handled);
    assert_eq!(reaction.steps.len(), 1);
    assert!(carry_out(reaction, &mut store).is_empty());

    // The next reads, of other attributes, are answered as ever.
    let reaction = server.gatts_event_handler(IF, GattsEvent::Read(read(CONTROL, PEER_1, 1)));
    let answers = carry_out(reaction, &mut store);
    assert!(matches!(&answers[..], [DriverCall::SendResponse { handle: CONTROL, length: 2, .. }]));
    let reaction = server.gatts_event_handler(IF, GattsEvent::Read(read(CCCD, PEER_1, 1)));
    let answers = carry_out(reaction, &mut store);
    assert!(matches!(&answers[..], [DriverCall::SendResponse { handle: CCCD, length: 2, .. }]));
    // And the failing one is asked again when it is read again.
    let reaction = server.gatts_event_handler(IF, GattsEvent::Read(read(PLAIN, PEER_1, 1)));
    assert_eq!(reaction.steps.len(), 1);
}

#[test]
fn a_write_runs_the_write_handler_and_acknowledges_through_the_read_handler() {
    let mut server = heart_rate_server();
    bring_up(&mut server);
    let request = write(CONTROL, PEER_1, 1, true, vec![9, 8, 7]);
    let reaction = server.gatts_event_handler(IF, GattsEvent::Write(request.clone()));
    assert_eq!(reaction.outcome, Outcome::Handled);
    assert_eq!(
        reaction.steps,
        vec![
            Step::Write { callback: Callback::Application(2), write: request.clone(), subject: Some(CONTROL) },
            Step::Read {
                callback: Callback::Application(1),
                request: ReadRequest {
                    conn_id: 1,
                    trans_id: 78,
                    peer: PEER_1,
                    handle: CONTROL,
                    offset: 0,
                    is_long: false,
                    need_rsp: true,
                },
                subject: Some(CONTROL),
                interface: IF,
            },
        ]
    );
    assert_eq!(request.to_read().handle, CONTROL);

    // Without the wish for a response the write handler runs alone.
    let request = write(CONTROL, PEER_1, 1, false, vec![9]);
    let reaction = server.gatts_event_handler(IF, GattsEvent::Write(request.clone()));
    assert_eq!(
        reaction.steps,
        vec![Step::Write { callback: Callback::Application(2), write: request, subject: Some(CONTROL) }]
    );
}

#[test]
fn a_write_to_an_attribute_without_handlers_asks_for_nothing() {
    let mut server = heart_rate_server();
    bring_up(&mut server);
    let reaction =
        server.gatts_event_handler(IF, GattsEvent::Write(write(MEASUREMENT, PEER_1, 1, true, vec![1])));
    assert_eq!(reaction.outcome, Outcome::Handled);
    assert!(reaction.steps.is_empty());
    // The plain descriptor has a read handler only: a write that wants a
    // response is acknowledged through it.
    let reaction =
        server.gatts_event_handler(IF, GattsEvent::Write(write(PLAIN, PEER_1, 1, true, vec![1])));
    assert_eq!(reaction.steps.len(), 1);
    assert!(matches!(reaction.steps[0], Step::Read { callback: Callback::Application(3), .. }));
}

#[test]
fn requests_for_unknown_handles_are_dropped() {
    let mut server = heart_rate_server();
    bring_up(&mut server);
    for handle in [0u16, SERVICE, 46, 0xFFFF] {
        let reaction = server.gatts_event_handler(IF, GattsEvent::Read(read(handle, PEER_1, 1)));
        assert_eq!(reaction.outcome, Outcome::Unresolved);
        assert!(reaction.steps.is_empty());
        let reaction =
            server.gatts_event_handler(IF, GattsEvent::Write(write(handle, PEER_1, 1, true, vec![1])));
        assert_eq!(reaction.outcome, Outcome::Unresolved);
        assert!(reaction.steps.is_empty());
    }
    let reaction = server.gatts_event_handler(IF + 1, GattsEvent::Read(read(CONTROL, PEER_1, 1)));
    assert_eq!(reaction.outcome, Outcome::Unresolved);
}

#[test]
fn requests_before_registration_are_dropped() {
    let mut server = heart_rate_server();
    let reaction = server.gatts_event_handler(IF, GattsEvent::Read(read(CONTROL, PEER_1, 1)));
    assert_eq!(reaction.outcome, Outcome::Unresolved);
    assert!(reaction.steps.is_empty());
}

#[test]
fn a_disconnect_removes_the_peer_and_restarts_advertising() {
    let mut server = heart_rate_server();
    bring_up(&mut server);
    connect(&mut server, 1, PEER_1);
    connect(&mut server, 2, PEER_2);
    assert_eq!(server.connections().len(), 2);

    let reaction =
        server.gatts_event_handler(IF, GattsEvent::Disconnect { conn_id: 1, link_role: 1, remote_bda: PEER_1 });
    assert_eq!(reaction.outcome, Outcome::Handled);
    assert_eq!(reaction.steps, vec![Step::Call(DriverCall::StartAdvertising)]);
    assert_eq!(server.connections().len(), 1);
    assert_eq!(server.connections()[0].remote_bda(), PEER_2);
    assert_eq!(server.connections()[0].id(), 2);

    // A peer that is not connected: nothing is removed, advertising is
    // started all the same.
    let reaction =
        server.gatts_event_handler(IF, GattsEvent::Disconnect { conn_id: 1, link_role: 1, remote_bda: PEER_1 });
    assert_eq!(reaction.steps, vec![Step::Call(DriverCall::StartAdvertising)]);
    assert_eq!(server.connections().len(), 1);
}

#[test]
fn a_peer_is_connected_once() {
    let mut server = GattServer::new();
    connect(&mut server, 1, PEER_1);
    connect(&mut server, 7, PEER_1);
    assert_eq!(server.connections().len(), 1);
    assert_eq!(server.connections()[0].id(), 1);
    assert!(server.connections()[0].is_slave());
    server.on_connect(Connection::new(3, false, PEER_2));
    assert_eq!(server.connections().len(), 2);
    assert_eq!(server.on_disconnect(&PEER_1), DriverCall::StartAdvertising);
    assert_eq!(server.connections().len(), 1);
    connect(&mut server, 7, PEER_1);
    assert_eq!(server.connections().len(), 2);
    assert_eq!(server.connections()[1].id(), 7);
}

#[test]
fn values_are_set_through_the_tree() {
    let mut server = heart_rate_server();
    assert_eq!(server.set_characteristic_value(0, 0, 0, vec![1, 2]), Ok(None));
    assert_eq!(server.set_characteristic_value(1, 0, 0, vec![1]), Err(ConfigurationError::UnknownAttribute));
    assert_eq!(server.set_characteristic_value(0, 1, 0, vec![1]), Err(ConfigurationError::UnknownAttribute));
    assert_eq!(server.set_characteristic_value(0, 0, 2, vec![1]), Err(ConfigurationError::UnknownAttribute));
    assert_eq!(server.set_characteristic_value(0, 0, 0, vec![]), Err(ConfigurationError::MissingValue));
    bring_up(&mut server);
    assert_eq!(
        server.set_characteristic_value(0, 0, 0, vec![1, 2, 3]),
        Err(ConfigurationError::ValueTooLong)
    );
    assert_eq!(
        server.set_characteristic_value(0, 0, 0, vec![7]),
        Ok(Some(DriverCall::SetAttributeValue { handle: MEASUREMENT, value: vec![7] }))
    );
    // Once registered a characteristic can be cleared.
    assert_eq!(
        server.set_characteristic_value(0, 0, 0, vec![]),
        Ok(Some(DriverCall::SetAttributeValue { handle: MEASUREMENT, value: vec![] }))
    );
    assert_eq!(
        server.set_characteristic_value(0, 0, 0, vec![7]),
        Ok(Some(DriverCall::SetAttributeValue { handle: MEASUREMENT, value: vec![7] }))
    );
    let value = server.profile_at(0).unwrap().service_at(0).unwrap().characteristic_at(0).unwrap().value();
    assert_eq!(value, &vec![7u8]);
}

#[test]
fn a_value_that_is_set_comes_back_from_a_read() {
    let mut server = heart_rate_server();
    bring_up(&mut server);
    let value = vec![0xAA, 0xBB];
    assert!(server.set_characteristic_value(0, 0, 0, value.clone()).is_ok());
    let cached = server
        .profile_at(0)
        .unwrap()
        .service_at(0)
        .unwrap()
        .characteristic_at(0)
        .unwrap()
        .value()
        .clone();
    match read_response(&read(MEASUREMENT, PEER_1, 1), IF, &cached) {
        DriverCall::SendResponse { length, frame, .. } => {
            assert_eq!(&frame[..length as usize], &value[..]);
        }
        other => panic!("unexpected call {:?}", other),
    }
}

#[test]
fn response_frames() {
    let request = read(9, PEER_1, 4);
    match read_response(&request, 2, &vec![]) {
        DriverCall::SendResponse { length, frame, .. } => {
            assert_eq!(length, 0);
            assert_eq!(frame, vec![0u8; 600]);
        }
        other => panic!("unexpected call {:?}", other),
    }
    let full: Vec<u8> = (0..600).map(|i| (i % 251) as u8 + 1).collect();
    match read_response(&request, 2, &full) {
        DriverCall::SendResponse { length, frame, interface, conn_id, trans_id, handle } => {
            assert_eq!(length, 600);
            assert_eq!(frame, full);
            assert_eq!((interface, conn_id, trans_id, handle), (2, 4, 77, 9));
        }
        other => panic!("unexpected call {:?}", other),
    }
    assert!(fits_frame(&full));
    assert!(!fits_frame(&vec![0u8; 601]));
}

#[test]
fn subscription_records() {
    let record = SubscriptionRecord::from_cccd(PEER_1, 0x0102, &vec![1, 0]);
    assert!(record.notify_enabled && !record.indicate_enabled);
    assert_eq!(record.to_cccd(), vec![1, 0]);
    assert_eq!(record.key(), vec![0x10, 0x11, 0x12, 0x13, 0x14, 0x15, 0x02, 0x01]);
    assert_eq!(subscription_key(&PEER_2, 42), vec![0x20, 0x21, 0x22, 0x23, 0x24, 0x25, 42, 0]);

    let record = SubscriptionRecord::from_cccd(PEER_1, 1, &vec![2, 0]);
    assert!(!record.notify_enabled && record.indicate_enabled);
    assert_eq!(record.to_cccd(), vec![2, 0]);
    let record = SubscriptionRecord::from_cccd(PEER_1, 1, &vec![3]);
    assert!(record.notify_enabled && record.indicate_enabled);
    assert_eq!(record.to_cccd(), vec![3, 0]);
    let record = SubscriptionRecord::from_cccd(PEER_1, 1, &vec![0xFC, 0xFF]);
    assert!(!record.notify_enabled && !record.indicate_enabled);
    assert_eq!(record.to_cccd(), vec![0, 0]);
    let record = SubscriptionRecord::from_cccd(PEER_1, 1, &vec![]);
    assert!(!record.notify_enabled && !record.indicate_enabled);
    let record = SubscriptionRecord::from_store(PEER_1, 1, &None);
    assert_eq!(
        record,
        SubscriptionRecord {
            peer_address: PEER_1,
            characteristic_handle: 1,
            notify_enabled: false,
            indicate_enabled: false,
        }
    );
    assert_eq!(
        SubscriptionRecord::from_store(PEER_1, 1, &Some(vec![3, 0])),
        SubscriptionRecord::from_cccd(PEER_1, 1, &vec![3, 0])
    );
    for bits in 0u8..4 {
        let record = SubscriptionRecord::from_cccd(PEER_2, 5, &vec![bits, 0]);
        assert_eq!(SubscriptionRecord::from_cccd(PEER_2, 5, &record.to_cccd()), record);
    }
}

#[test]
fn what_a_peer_writes_to_its_configuration_it_reads_back() {
    for written in [vec![0u8, 0], vec![1, 0], vec![2, 0], vec![3, 0]] {
        let (key, kept) = subscription_write(&PEER_1, 42, &written);
        assert_eq!(key, subscription_key(&PEER_1, 42));
        assert_eq!(kept, written);
        assert_eq!(subscription_read(&PEER_1, 42, &Some(kept)), written);
    }
    // Bits without a meaning are not kept, nor are bytes beyond the first.
    let (_, kept) = subscription_write(&PEER_1, 42, &vec![0xFD, 7, 7]);
    assert_eq!(kept, vec![1, 0]);
    assert_eq!(subscription_read(&PEER_1, 42, &Some(kept)), vec![1, 0]);
    assert_eq!(subscription_write(&PEER_1, 42, &vec![]).1, vec![0, 0]);
    assert_eq!(subscription_read(&PEER_1, 42, &None), vec![0, 0]);
}

#[test]
fn the_names_of_records_are_short_and_tell_the_records_apart() {
    assert_eq!(store_name(&vec![0; 8]), Some(b"AAAAAAAAAAAA".to_vec()));
    assert_eq!(store_name(&vec![0xFF; 8]), Some(b"__P__P__P__P".to_vec()));
    // 0x0201 = 513 = 1 + 8 * 64: "B", "I", "A"; the handle 42: "q", "A", "A".
    assert_eq!(
        store_name(&subscription_key(&[1, 2, 26, 0, 62, 0], 42)),
        Some(b"BIAaAA-AAqAA".to_vec())
    );
    assert_eq!(store_name(&vec![52, 0, 61, 0, 63, 0, 25, 0]), Some(b"0AA9AA_AAZAA".to_vec()));
    assert_eq!(store_name(&vec![0; 7]), None);
    assert_eq!(store_name(&vec![0; 9]), None);
    assert_eq!(store_name(&vec![]), None);

    // Peers that differ in the first bytes of the address only, and
    // characteristics of one peer, all have names of their own.
    let mut names = std::collections::HashSet::new();
    for first in [0u8, 1, 0x80, 0xFF] {
        for second in [0u8, 1, 0xFF] {
            for handle in [0u16, 1, 63, 64, 255, 256, 4095, 4096, 0xFFFF] {
                let peer = [first, second, 3, 4, 5, 6];
                let name = store_name(&subscription_key(&peer, handle)).unwrap();
                assert_eq!(name.len(), 12);
                assert!(name.iter().all(|c| c.is_ascii_alphanumeric() || *c == b'-' || *c == b'_'));
                assert!(names.insert(name));
            }
        }
    }
    assert_eq!(names.len(), 4 * 3 * 9);
}

#[test]
fn pushes_follow_the_record() {
    let connection = Connection::new(4, true, PEER_1);
    let push = |indicate: bool, stored: Option<Vec<u8>>| publish(2, connection, 9, vec![5], indicate, &stored);
    let sent = |need_confirm: bool| {
        Some(DriverCall::SendIndicate { interface: 2, conn_id: 4, handle: 9, value: vec![5], need_confirm })
    };
    assert_eq!(push(false, None), None);
    assert_eq!(push(true, None), None);
    assert_eq!(push(false, Some(vec![1, 0])), sent(false));
    assert_eq!(push(true, Some(vec![1, 0])), None);
    assert_eq!(push(false, Some(vec![2, 0])), None);
    assert_eq!(push(true, Some(vec![2, 0])), sent(true));
    assert_eq!(push(false, Some(vec![3, 0])), sent(false));
    assert_eq!(push(true, Some(vec![3, 0])), sent(true));
    assert_eq!(push(true, Some(vec![])), None);
}
