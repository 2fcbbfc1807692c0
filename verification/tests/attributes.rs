use bluedroid::gatt_server::{
    Characteristic, ConfigurationError, Descriptor, DriverCall, Registration,
};
use bluedroid::utilities::{
    AttributeControl, AttributePermissions, BleUuid, Callback, CharacteristicProperties,
};

fn heart_rate() -> Characteristic {
    Characteristic::new(
        "Heart Rate Measurement",
        BleUuid::from_uuid16(0x2A37),
        AttributePermissions::read_write(),
        CharacteristicProperties::new().read().write().notify(),
    )
}

fn automatic_value(characteristic: &Characteristic) -> Option<Vec<u8>> {
    match characteristic.control() {
        AttributeControl::AutomaticResponse(value) => Some(value.clone()),
        AttributeControl::ResponseByApp(_) => None,
    }
}

#[test]
fn a_new_characteristic_serves_one_zero_byte() {
    let c = heart_rate();
    assert_eq!(c.value(), &vec![0u8]);
    assert_eq!(automatic_value(&c), Some(vec![0u8]));
    assert_eq!(c.max_value_length(), 8);
    assert_eq!(c.registration(), Registration::Unregistered);
    assert_eq!(c.attribute_handle(), None);
    assert_eq!(c.descriptor_count(), 0);
    assert_eq!(c.write_callback(), None);
    assert_eq!(c.uuid(), BleUuid::from_uuid16(0x2A37));
    assert_eq!(c.name(), &Some(String::from("Heart Rate Measurement")));
}

#[test]
fn a_value_that_is_set_is_the_value_that_is_served() {
    let mut c = heart_rate();
    assert_eq!(c.set_value(vec![1, 2, 3]), Ok(None));
    assert_eq!(c.value(), &vec![1u8, 2, 3]);
    assert_eq!(automatic_value(&c), Some(vec![1u8, 2, 3]));
    assert_eq!(c.max_value_length(), 3);
}

#[test]
fn setting_a_value_takes_reads_back_from_the_application() {
    let mut c = heart_rate();
    c.on_read(Callback::Application(1));
    assert_eq!(automatic_value(&c), None);
    assert_eq!(c.set_value(vec![5]), Ok(None));
    assert_eq!(automatic_value(&c), Some(vec![5u8]));
}

#[test]
fn an_empty_value_is_refused() {
    let mut c = heart_rate();
    assert_eq!(c.set_value(vec![9, 9]), Ok(None));
    assert_eq!(c.set_value(Vec::new()), Err(ConfigurationError::MissingValue));
    assert_eq!(c.value(), &vec![9u8, 9]);
    assert_eq!(c.max_value_length(), 2);
}

#[test]
fn an_empty_value_is_taken_once_the_registration_was_asked_for() {
    let mut c = heart_rate();
    assert_eq!(c.set_value(vec![1, 2]), Ok(None));
    c.register_self(40);
    // The call is made and not yet answered: the value changes here only.
    assert_eq!(c.set_value(Vec::new()), Ok(None));
    assert_eq!(c.value(), &Vec::<u8>::new());
    assert_eq!(automatic_value(&c), Some(Vec::new()));
    assert_eq!(c.max_value_length(), 2);
    assert_eq!(c.set_value(vec![3]), Ok(None));

    assert_eq!(c.on_added(true, 42, 40), None);
    assert_eq!(
        c.set_value(Vec::new()),
        Ok(Some(DriverCall::SetAttributeValue { handle: 42, value: Vec::new() }))
    );
    assert_eq!(c.value(), &Vec::<u8>::new());
    assert_eq!(automatic_value(&c), Some(Vec::new()));
    assert_eq!(
        c.set_value(vec![4, 5]),
        Ok(Some(DriverCall::SetAttributeValue { handle: 42, value: vec![4, 5] }))
    );
}

#[test]
fn an_empty_value_is_taken_by_a_refused_characteristic() {
    let mut c = heart_rate();
    c.register_self(40);
    assert_eq!(c.on_added(false, 0, 40), None);
    assert_eq!(c.registration(), Registration::Failed);
    assert_eq!(c.set_value(Vec::new()), Ok(None));
    assert_eq!(c.value(), &Vec::<u8>::new());
}

#[test]
fn before_registration_any_length_up_to_the_limit_is_taken() {
    let mut c = heart_rate();
    assert_eq!(c.set_value(vec![7; 0xFFFF]), Ok(None));
    assert_eq!(c.max_value_length(), 0xFFFF);
    assert_eq!(c.set_value(vec![7; 0x10000]), Err(ConfigurationError::ValueTooLong));
    assert_eq!(c.value().len(), 0xFFFF);
}

#[test]
fn after_registration_the_length_is_fixed() {
    let mut c = heart_rate();
    assert_eq!(c.set_value(vec![1, 2, 3, 4]), Ok(None));
    let call = c.register_self(40);
    assert_eq!(
        call,
        DriverCall::AddCharacteristic {
            service_handle: 40,
            uuid: BleUuid::from_uuid16(0x2A37),
            permissions: AttributePermissions::read_write(),
            properties: CharacteristicProperties::new().read().write().notify(),
            max_length: 4,
            value: vec![1, 2, 3, 4],
            control: 1,
        }
    );
    assert_eq!(c.registration(), Registration::Requested);
    assert_eq!(c.set_value(vec![1, 2, 3, 4, 5]), Err(ConfigurationError::ValueTooLong));
    assert_eq!(c.value(), &vec![1u8, 2, 3, 4]);
    assert_eq!(c.set_value(vec![8, 9]), Ok(None));
    assert_eq!(c.max_value_length(), 4);

    assert_eq!(c.on_added(true, 42, 40), None);
    assert_eq!(c.attribute_handle(), Some(42));
    assert_eq!(
        c.set_value(vec![6, 6, 6]),
        Ok(Some(DriverCall::SetAttributeValue { handle: 42, value: vec![6, 6, 6] }))
    );
    assert_eq!(c.set_value(vec![0; 5]), Err(ConfigurationError::ValueTooLong));
}

#[test]
fn value_length_sets_the_registered_length() {
    let mut c = heart_rate();
    c.value_length(20);
    assert_eq!(c.max_value_length(), 20);
    match c.register_self(1) {
        DriverCall::AddCharacteristic { max_length, value, .. } => {
            assert_eq!(max_length, 20);
            assert_eq!(value, vec![0u8]);
        }
        other => panic!("unexpected call {:?}", other),
    }
    assert_eq!(c.set_value(vec![1; 20]), Ok(None));
    assert_eq!(c.set_value(vec![1; 21]), Err(ConfigurationError::ValueTooLong));
}

#[test]
fn a_read_handler_needs_the_property_and_the_permission() {
    let mut readable = heart_rate();
    readable.on_read(Callback::Application(7));
    assert_eq!(automatic_value(&readable), None);
    match readable.register_self(1) {
        DriverCall::AddCharacteristic { control, .. } => assert_eq!(control, 0),
        other => panic!("unexpected call {:?}", other),
    }

    let mut no_property = Characteristic::new(
        "c",
        BleUuid::from_uuid16(1),
        AttributePermissions::read(),
        CharacteristicProperties::new().write(),
    );
    no_property.on_read(Callback::Application(7));
    assert_eq!(automatic_value(&no_property), Some(vec![0u8]));

    let mut no_permission = Characteristic::new(
        "c",
        BleUuid::from_uuid16(1),
        AttributePermissions::write(),
        CharacteristicProperties::new().read(),
    );
    no_permission.on_read(Callback::Application(7));
    assert_eq!(automatic_value(&no_permission), Some(vec![0u8]));
}

#[test]
fn a_write_handler_needs_a_write_property_and_the_permission() {
    let mut writable = heart_rate();
    writable.on_write(Callback::Application(3));
    assert_eq!(writable.write_callback(), Some(Callback::Application(3)));

    let mut without_response = Characteristic::new(
        "c",
        BleUuid::from_uuid16(1),
        AttributePermissions::write(),
        CharacteristicProperties::new().write_without_response(),
    );
    without_response.on_write(Callback::Application(3));
    assert_eq!(without_response.write_callback(), Some(Callback::Application(3)));

    let mut read_only = Characteristic::new(
        "c",
        BleUuid::from_uuid16(1),
        AttributePermissions::read_write(),
        CharacteristicProperties::new().read(),
    );
    read_only.on_write(Callback::Application(3));
    assert_eq!(read_only.write_callback(), None);

    let mut not_permitted = Characteristic::new(
        "c",
        BleUuid::from_uuid16(1),
        AttributePermissions::read(),
        CharacteristicProperties::new().write(),
    );
    not_permitted.on_write(Callback::Application(3));
    assert_eq!(not_permitted.write_callback(), None);
}

#[test]
fn the_name_can_be_shown_as_a_descriptor() {
    let mut c = heart_rate();
    c.show_name_as_descriptor();
    assert_eq!(c.descriptor_count(), 1);
    let d = c.descriptor(0).unwrap();
    assert_eq!(d.uuid(), BleUuid::from_uuid16(0x2901));
    assert_eq!(d.value(), &b"Heart Rate Measurement".to_vec());
    assert_eq!(d.permissions(), AttributePermissions::read());
    assert!(c.descriptor(1).is_none());
}

#[test]
fn a_new_descriptor_is_empty_and_automatic() {
    let d = Descriptor::new("d", BleUuid::from_uuid16(0x2900), AttributePermissions::read_write());
    assert_eq!(d.value(), &Vec::<u8>::new());
    assert_eq!(d.registration(), Registration::Unregistered);
    assert_eq!(d.attribute_handle(), None);
    assert_eq!(d.write_callback(), None);
    assert!(d.control().is_automatic());
    assert_eq!(d.name(), &Some(String::from("d")));
}

#[test]
fn descriptor_handlers_need_the_permission() {
    let mut read_only = Descriptor::new("d", BleUuid::from_uuid16(1), AttributePermissions::read());
    read_only.on_read(Callback::Application(1)).on_write(Callback::Application(2));
    assert!(!read_only.control().is_automatic());
    assert_eq!(read_only.write_callback(), None);

    let mut write_only = Descriptor::new("d", BleUuid::from_uuid16(1), AttributePermissions::write());
    write_only.on_read(Callback::Application(1)).on_write(Callback::Application(2));
    assert!(write_only.control().is_automatic());
    assert_eq!(write_only.write_callback(), Some(Callback::Application(2)));
}

#[test]
fn a_descriptor_value_reaches_the_stack_once_registered() {
    let mut d = Descriptor::new("d", BleUuid::from_uuid16(0x2900), AttributePermissions::read());
    assert_eq!(d.set_value(vec![1, 2]), None);
    assert_eq!(
        d.register_self(12),
        DriverCall::AddDescriptor {
            service_handle: 12,
            uuid: BleUuid::from_uuid16(0x2900),
            permissions: AttributePermissions::read(),
            value: vec![1, 2],
        }
    );
    assert_eq!(d.set_value(vec![3]), None);
    d.complete(true, 77);
    assert_eq!(d.attribute_handle(), Some(77));
    assert_eq!(
        d.set_value(vec![4, 5, 6]),
        Some(DriverCall::SetAttributeValue { handle: 77, value: vec![4, 5, 6] })
    );
    assert_eq!(d.value(), &vec![4u8, 5, 6]);
}

#[test]
fn a_refused_descriptor_has_no_handle() {
    let mut d = Descriptor::new("d", BleUuid::from_uuid16(0x2900), AttributePermissions::read());
    d.register_self(12);
    d.complete(false, 77);
    assert_eq!(d.registration(), Registration::Failed);
    assert_eq!(d.attribute_handle(), None);
    assert_eq!(d.set_value(vec![1]), None);
}

#[test]
fn the_user_description_holds_the_text() {
    let d = Descriptor::user_description("Ünits");
    assert_eq!(d.uuid(), BleUuid::from_uuid16(0x2901));
    assert_eq!(d.value(), &"Ünits".as_bytes().to_vec());
    assert_eq!(d.permissions(), AttributePermissions::read());
    assert!(d.control().is_automatic());
}

#[test]
fn the_configuration_descriptor_goes_through_the_subscription_store() {
    let d = Descriptor::cccd();
    assert_eq!(d.uuid(), BleUuid::from_uuid16(0x2902));
    assert_eq!(d.permissions(), AttributePermissions::read_write());
    assert_eq!(d.write_callback(), Some(Callback::Subscription));
    match d.control() {
        AttributeControl::ResponseByApp(callback) => assert_eq!(*callback, Callback::Subscription),
        other => panic!("unexpected control {:?}", other),
    }
}

#[test]
fn a_copy_is_equal_in_every_part() {
    let mut c = heart_rate();
    c.add_descriptor(Descriptor::cccd()).show_name_as_descriptor();
    assert_eq!(c.set_value(vec![3, 4]), Ok(None));
    let copy = c.clone();
    assert_eq!(copy.value(), c.value());
    assert_eq!(copy.descriptor_count(), 2);
    assert_eq!(copy.descriptor(0).unwrap().uuid(), BleUuid::from_uuid16(0x2902));
    assert_eq!(copy.descriptor(1).unwrap().value(), c.descriptor(1).unwrap().value());
    assert_eq!(copy.max_value_length(), 2);
}
