//! Plain value types shared by the whole attribute tree.

pub mod search;

mod le_bytes_serialisable;
pub use le_bytes_serialisable::{
    le_chunk, le_concat, le_digits, le_item_size, le_number, lemma_digits_len,
    lemma_digits_of_number, lemma_item_sizes, lemma_le_round_trip, lemma_limit_grows, lemma_limits,
    lemma_number_bound, lemma_number_of_digits, lemma_signed_round_trip, limit, signed,
    twos_complement, LeBytesSerialisable,
};

mod attribute_control;
pub use attribute_control::{
    AttributeControl, Callback, ControlModel, AUTO_RESPONSE, RESPONSE_BY_APP,
};

mod connection;
pub use connection::{address_eq, Connection, LINK_ROLE_SLAVE};

mod ble_uuid;
pub use ble_uuid::{base_uuid, lemma_expansion_injective, BleUuid};

mod characteristic_properties;
pub use characteristic_properties::{
    bit, CharacteristicProperties, PROP_AUTHENTICATED_SIGNED_WRITES, PROP_BROADCAST,
    PROP_EXTENDED, PROP_INDICATE, PROP_NOTIFY, PROP_READ, PROP_WRITE,
    PROP_WRITE_WITHOUT_RESPONSE,
};

mod attribute_permissions;
pub use attribute_permissions::{
    AttributePermissions, PERM_READ, PERM_READ_ENCRYPTED, PERM_WRITE, PERM_WRITE_ENCRYPTED,
};
