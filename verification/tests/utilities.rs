use bluedroid::utilities::{
    AttributeControl, AttributePermissions, BleUuid, Callback, CharacteristicProperties,
    Connection,
};

#[test]
fn short_identifier_is_laid_over_the_base() {
    let expanded = BleUuid::from_uuid16(0x180D).as_uuid128_array();
    assert_eq!(
        expanded,
        [0xfb, 0x34, 0x9b, 0x5f, 0x80, 0x00, 0x00, 0x80, 0x00, 0x10, 0x00, 0x00, 0x0D, 0x18, 0x00, 0x00]
    );
}

#[test]
fn thirty_two_bit_identifier_fills_the_last_four_bytes() {
    let expanded = BleUuid::from_uuid32(0x1234_5678).as_uuid128_array();
    assert_eq!(
        expanded,
        [0xfb, 0x34, 0x9b, 0x5f, 0x80, 0x00, 0x00, 0x80, 0x00, 0x10, 0x00, 0x00, 0x78, 0x56, 0x34, 0x12]
    );
}

#[test]
fn long_identifier_is_its_own_expansion() {
    let bytes = [1u8, 2, 3, 4, 5, 6, 7, 8, 9, 10, 11, 12, 13, 14, 15, 16];
    assert_eq!(BleUuid::from_uuid128(bytes).as_uuid128_array(), bytes);
}

#[test]
fn identifiers_of_different_width_are_never_equal() {
    let short = BleUuid::from_uuid16(0x2A37);
    let long = BleUuid::from_uuid128(short.as_uuid128_array());
    let wide = BleUuid::from_uuid32(0x2A37);
    assert!(short != long);
    assert!(short != wide);
    assert!(short == BleUuid::Uuid16(0x2A37));
    assert!(long == BleUuid::Uuid128(short.as_uuid128_array()));
    assert_eq!(long.as_uuid128_array(), wide.as_uuid128_array());
    assert!(BleUuid::from_uuid16(1) != BleUuid::from_uuid16(2));
}

#[test]
fn permission_masks() {
    assert_eq!(AttributePermissions::read().bits(), 0x0001);
    assert_eq!(AttributePermissions::write().bits(), 0x0010);
    assert_eq!(AttributePermissions::read_write().bits(), 0x0011);
    assert_eq!(AttributePermissions::read_encrypted().bits(), 0x0002);
    assert_eq!(AttributePermissions::write_encrypted().bits(), 0x0020);
    assert_eq!(AttributePermissions::read_write_encrypted().bits(), 0x0022);
    assert_eq!(AttributePermissions::default().bits(), 0);
    let only_encrypted = AttributePermissions {
        read_access: false,
        write_access: false,
        encryption_required: true,
    };
    assert_eq!(only_encrypted.bits(), 0);
    assert_eq!(u16::from(AttributePermissions::read_write_encrypted()), 0x0022);
}

#[test]
fn permission_constructors_set_the_flags() {
    let p = AttributePermissions::read_write_encrypted();
    assert!(p.read_access && p.write_access && p.encryption_required);
    let p = AttributePermissions::write();
    assert!(!p.read_access && p.write_access && !p.encryption_required);
}

#[test]
fn property_bytes() {
    assert_eq!(CharacteristicProperties::new().bits(), 0);
    assert_eq!(CharacteristicProperties::new().broadcast().bits(), 0x01);
    assert_eq!(CharacteristicProperties::new().read().bits(), 0x02);
    assert_eq!(CharacteristicProperties::new().write_without_response().bits(), 0x04);
    assert_eq!(CharacteristicProperties::new().write().bits(), 0x08);
    assert_eq!(CharacteristicProperties::new().notify().bits(), 0x10);
    assert_eq!(CharacteristicProperties::new().indicate().bits(), 0x20);
    assert_eq!(CharacteristicProperties::new().authenticated_signed_writes().bits(), 0x40);
    assert_eq!(CharacteristicProperties::new().extended_properties().bits(), 0x80);
    assert_eq!(CharacteristicProperties::new().read().write().notify().bits(), 0x1A);
    assert_eq!(u8::from(CharacteristicProperties::new().read().indicate()), 0x22);
    assert_eq!(CharacteristicProperties::default(), CharacteristicProperties::new());
}

#[test]
fn notify_and_indicate_exclude_each_other() {
    let first_notify = CharacteristicProperties::new().notify().indicate();
    assert!(first_notify.notify);
    assert!(!first_notify.indicate);
    let first_indicate = CharacteristicProperties::new().indicate().notify();
    assert!(first_indicate.indicate);
    assert!(!first_indicate.notify);
    assert_eq!(first_indicate.bits(), 0x20);
}

#[test]
fn connections_are_compared_by_peer() {
    let peer = [1u8, 2, 3, 4, 5, 6];
    let first = Connection::new(1, true, peer);
    let again = Connection::new(9, false, peer);
    let other = Connection::new(1, true, [1u8, 2, 3, 4, 5, 7]);
    assert!(first == again);
    assert!(first != other);
    assert_eq!(first.id(), 1);
    assert!(first.is_slave());
    assert_eq!(first.remote_bda(), peer);
}

#[test]
fn link_role_one_is_the_slave() {
    assert!(Connection::from_link(3, 1, [0; 6]).is_slave());
    assert!(!Connection::from_link(3, 0, [0; 6]).is_slave());
    assert!(!Connection::from_link(3, 2, [0; 6]).is_slave());
    assert_eq!(Connection::from_link(3, 1, [7; 6]).id(), 3);
    assert_eq!(Connection::from_link(3, 1, [7; 6]).remote_bda(), [7; 6]);
}

#[test]
fn control_bytes() {
    assert_eq!(AttributeControl::AutomaticResponse(vec![1]).byte(), 1);
    assert_eq!(AttributeControl::ResponseByApp(Callback::Application(4)).byte(), 0);
    assert!(AttributeControl::AutomaticResponse(vec![]).is_automatic());
    assert!(!AttributeControl::ResponseByApp(Callback::Subscription).is_automatic());
}
