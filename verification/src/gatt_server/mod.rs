//! The attribute tree, its registration and the dispatch of events.

mod registration;
pub use registration::{ProfileState, Registration, ServiceState, GATT_OK};

mod error;
pub use error::ConfigurationError;

mod driver;
pub use driver::{
    call_model, call_models, creatable_call, creatable_steps, step_models, steps_of, DriverCall,
    DriverCallModel, GattsEvent,
    Outcome, Reaction, ReactionModel, ReadRequest, Step, StepModel, WriteRequest,
    WriteRequestModel, RESPONSE_FRAME, SERVICE_HANDLES,
};

mod descriptor;
pub use descriptor::{Descriptor, DescriptorModel};

mod custom_attributes;
pub use custom_attributes::{CCCD_UUID, USER_DESCRIPTION_UUID};

mod characteristic;
pub use characteristic::{
    answer_steps, awaiting_descriptor, coherent_parts, deliver_steps, descriptor_at,
    descriptor_named,
    lemma_automatic_read, lemma_coherent_kept, lemma_declared_coherent,
    unregistered_descriptor, Characteristic, CharacteristicModel, MAX_ATTRIBUTE_LENGTH,
};

mod service;
pub use service::{
    awaiting_characteristic, awaiting_owner, characteristic_at, characteristic_describing,
    characteristic_holding, characteristic_named, unregistered_characteristic, Service,
    ServiceModel,
};

mod profile;
pub use profile::{
    awaiting_service, running_service, service_at, service_holding, service_named,
    starting_service, unregistered_service, Profile, ProfileModel,
};

mod gatts_event_handler;

mod server;
pub use server::{
    awaiting_profile, lemma_completions_ask_for_calls, lemma_connect_distinct,
    lemma_disconnect, lemma_react_distinct, lemma_requests_change_nothing, lemma_start_once,
    peer_at, profile_on, GattServer, GattServerModel, APPEARANCE_UNKNOWN,
};

mod subscription;
pub use subscription::{
    key_name, lemma_fan_out, lemma_key_name_injective, lemma_record_key_injective,
    lemma_record_round_trip, lemma_written_is_read_back, name_character, name_of_pair,
    owed_push, publish, record_key, store_name, stored_model, subscription_key,
    subscription_read, subscription_write, wants_indicate, wants_notify, SubscriptionRecord,
    CCCD_INDICATE, CCCD_NOTIFY,
};

mod response;
pub use response::{
    fits_frame, frame_of, lemma_frame_holds_value, lemma_set_then_read, read_response,
    response_to,
};

pub mod order;

pub mod handles;

pub mod declaration;
