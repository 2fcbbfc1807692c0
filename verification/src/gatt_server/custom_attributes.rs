//! The two descriptors that the Bluetooth specification defines and that
//! almost every server needs.

use crate::gatt_server::descriptor::{Descriptor, DescriptorModel};
use crate::utilities::{AttributePermissions, BleUuid, Callback};
use vstd::prelude::*;
use vstd::slice::slice_to_vec;
use vstd::utf8::encode_utf8;

verus! {

/// The identifier of the "Characteristic User Description" descriptor.
pub const USER_DESCRIPTION_UUID: u16 = 0x2901;

/// The identifier of the "Client Characteristic Configuration" descriptor.
pub const CCCD_UUID: u16 = 0x2902;

impl DescriptorModel {
    /// The descriptor that tells peers, in words, what a characteristic
    /// is: readable, with the text's bytes for a value.
    pub open spec fn user_description(description: Seq<char>) -> DescriptorModel {
        DescriptorModel::declared(
            "User Description"@,
            BleUuid::Uuid16(USER_DESCRIPTION_UUID),
            AttributePermissions {
                read_access: true,
                write_access: false,
                encryption_required: false,
            },
        ).with_value(encode_utf8(description))
    }

    /// The descriptor through which a peer subscribes to a characteristic:
    /// readable and writable, both against the durable record of the
    /// peer's subscription.
    pub open spec fn cccd() -> DescriptorModel {
        DescriptorModel::declared(
            "Client Characteristic Configuration"@,
            BleUuid::Uuid16(CCCD_UUID),
            AttributePermissions {
                read_access: true,
                write_access: true,
                encryption_required: false,
            },
        ).with_read_callback(Callback::Subscription).with_write_callback(Callback::Subscription)
    }
}

impl Descriptor {
    /// A "Characteristic User Description" with `description` for its text.
    pub fn user_description(description: &str) -> (r: Self)
        ensures
            r@ == DescriptorModel::user_description(description@),
    {
        let mut descriptor = Descriptor::new(
            "User Description",
            BleUuid::from_uuid16(USER_DESCRIPTION_UUID),
            AttributePermissions::read(),
        );
        let _ = descriptor.set_value(slice_to_vec(description.as_bytes()));
        descriptor
    }

    /// A "Client Characteristic Configuration" descriptor.
    ///
    /// What a peer writes to it is kept in the subscription store, under
    /// the peer's address and the characteristic's handle, and is read
    /// back from there: it outlives the connection.
    #[must_use]
    pub fn cccd() -> (r: Self)
        ensures
            r@ == DescriptorModel::cccd(),
    {
        let mut descriptor = Descriptor::new(
            "Client Characteristic Configuration",
            BleUuid::from_uuid16(CCCD_UUID),
            AttributePermissions::read_write(),
        );
        descriptor.on_read(Callback::Subscription).on_write(Callback::Subscription);
        descriptor
    }
}

} // verus!
