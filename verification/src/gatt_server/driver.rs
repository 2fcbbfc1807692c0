//! The two directions of the conversation with the host stack: the calls
//! that the library asks its host to make, and the events that the host
//! hands back.

use crate::utilities::{
    AttributePermissions, BleUuid, Callback, CharacteristicProperties, Connection,
};
use vstd::prelude::*;

verus! {

/// The size of a read response: every response has this many bytes, the
/// value first and zeroes after it.
pub const RESPONSE_FRAME: usize = 600;

/// The number of handles that is set aside for every service.
pub const SERVICE_HANDLES: u16 = 64;

/// A call into the host stack.
#[derive(Debug, Clone, PartialEq, Eq)]
pub enum DriverCall {
    /// Bring up the controller and the host stack, and install the event
    /// callbacks.
    InitialiseStack,
    RegisterApplication { app_id: u16 },
    /// Set the device name and the advertisement and scan response payloads.
    ConfigureAdvertising { device_name: String, appearance: u16, service_uuid: Option<[u8; 16]> },
    CreateService { interface: u8, uuid: BleUuid, primary: bool, handles: u16 },
    StartService { service_handle: u16 },
    AddCharacteristic {
        service_handle: u16,
        uuid: BleUuid,
        permissions: AttributePermissions,
        properties: CharacteristicProperties,
        max_length: u16,
        value: Vec<u8>,
        control: u8,
    },
    AddDescriptor {
        service_handle: u16,
        uuid: BleUuid,
        permissions: AttributePermissions,
        value: Vec<u8>,
    },
    SetAttributeValue { handle: u16, value: Vec<u8> },
    /// Answer a read with status "ok". `frame` is the value followed by
    /// zeroes, `length` the number of bytes of it that are the value.
    SendResponse {
        interface: u8,
        conn_id: u16,
        trans_id: u32,
        handle: u16,
        length: u16,
        frame: Vec<u8>,
    },
    /// Push a value to a peer: an indication where `need_confirm` is set, a
    /// notification where it is not.
    SendIndicate { interface: u8, conn_id: u16, handle: u16, value: Vec<u8>, need_confirm: bool },
    StartAdvertising,
}

/// `DriverCall` with its byte strings as sequences.
pub enum DriverCallModel {
    InitialiseStack,
    RegisterApplication { app_id: u16 },
    ConfigureAdvertising {
        device_name: Seq<char>,
        appearance: u16,
        service_uuid: Option<[u8; 16]>,
    },
    CreateService { interface: u8, uuid: BleUuid, primary: bool, handles: u16 },
    StartService { service_handle: u16 },
    AddCharacteristic {
        service_handle: u16,
        uuid: BleUuid,
        permissions: AttributePermissions,
        properties: CharacteristicProperties,
        max_length: u16,
        value: Seq<u8>,
        control: u8,
    },
    AddDescriptor {
        service_handle: u16,
        uuid: BleUuid,
        permissions: AttributePermissions,
        value: Seq<u8>,
    },
    SetAttributeValue { handle: u16, value: Seq<u8> },
    SendResponse {
        interface: u8,
        conn_id: u16,
        trans_id: u32,
        handle: u16,
        length: u16,
        frame: Seq<u8>,
    },
    SendIndicate { interface: u8, conn_id: u16, handle: u16, value: Seq<u8>, need_confirm: bool },
    StartAdvertising,
}

impl View for DriverCall {
    type V = DriverCallModel;

    open spec fn view(&self) -> DriverCallModel {
        match self {
            DriverCall::InitialiseStack => DriverCallModel::InitialiseStack,
            DriverCall::RegisterApplication { app_id } => DriverCallModel::RegisterApplication {
                app_id: *app_id,
            },
            DriverCall::ConfigureAdvertising {
                device_name,
                appearance,
                service_uuid,
            } => DriverCallModel::ConfigureAdvertising {
                device_name: device_name@,
                appearance: *appearance,
                service_uuid: *service_uuid,
            },
            DriverCall::CreateService {
                interface,
                uuid,
                primary,
                handles,
            } => DriverCallModel::CreateService {
                interface: *interface,
                uuid: *uuid,
                primary: *primary,
                handles: *handles,
            },
            DriverCall::StartService { service_handle } => DriverCallModel::StartService {
                service_handle: *service_handle,
            },
            DriverCall::AddCharacteristic {
                service_handle,
                uuid,
                permissions,
                properties,
                max_length,
                value,
                control,
            } => DriverCallModel::AddCharacteristic {
                service_handle: *service_handle,
                uuid: *uuid,
                permissions: *permissions,
                properties: *properties,
                max_length: *max_length,
                value: value@,
                control: *control,
            },
            DriverCall::AddDescriptor {
                service_handle,
                uuid,
                permissions,
                value,
            } => DriverCallModel::AddDescriptor {
                service_handle: *service_handle,
                uuid: *uuid,
                permissions: *permissions,
                value: value@,
            },
            DriverCall::SetAttributeValue { handle, value } => DriverCallModel::SetAttributeValue {
                handle: *handle,
                value: value@,
            },
            DriverCall::SendResponse {
                interface,
                conn_id,
                trans_id,
                handle,
                length,
                frame,
            } => DriverCallModel::SendResponse {
                interface: *interface,
                conn_id: *conn_id,
                trans_id: *trans_id,
                handle: *handle,
                length: *length,
                frame: frame@,
            },
            DriverCall::SendIndicate {
                interface,
                conn_id,
                handle,
                value,
                need_confirm,
            } => DriverCallModel::SendIndicate {
                interface: *interface,
                conn_id: *conn_id,
                handle: *handle,
                value: value@,
                need_confirm: *need_confirm,
            },
            DriverCall::StartAdvertising => DriverCallModel::StartAdvertising,
        }
    }
}

impl DriverCallModel {
    /// The host stack can do what the call asks for: the call does not ask
    /// it to create a characteristic that it is to answer for by itself
    /// without a value to answer with.
    pub open spec fn creatable(self) -> bool {
        self matches DriverCallModel::AddCharacteristic { value, control, .. } ==> (control
            == crate::utilities::AUTO_RESPONSE ==> value.len() > 0)
    }
}

/// The call, if there is one, is one that the host stack can do.
pub open spec fn creatable_call(call: Option<DriverCallModel>) -> bool {
    call matches Some(call) ==> call.creatable()
}

/// Every call among the steps is one that the host stack can do.
pub open spec fn creatable_steps(steps: Seq<StepModel>) -> bool {
    forall|i: int|
        0 <= i < steps.len() ==> ((#[trigger] steps[i]) matches StepModel::Call(call)
            ==> call.creatable())
}

/// The models of the calls, in order.
pub open spec fn call_models(calls: Seq<DriverCall>) -> Seq<DriverCallModel> {
    calls.map_values(|call: DriverCall| call@)
}

/// The model of a call that may be absent.
pub open spec fn call_model(call: Option<DriverCall>) -> Option<DriverCallModel> {
    match call {
        Some(call) => Some(call@),
        None => None,
    }
}

/// A peer's request to read an attribute.
#[derive(Debug, Clone, Copy, PartialEq, Eq)]
pub struct ReadRequest {
    pub conn_id: u16,
    pub trans_id: u32,
    pub peer: [u8; 6],
    pub handle: u16,
    pub offset: u16,
    pub is_long: bool,
    pub need_rsp: bool,
}

/// A peer's request to write an attribute.
#[derive(Debug, Clone, PartialEq, Eq)]
pub struct WriteRequest {
    pub conn_id: u16,
    pub trans_id: u32,
    pub peer: [u8; 6],
    pub handle: u16,
    pub offset: u16,
    pub need_rsp: bool,
    pub is_prep: bool,
    pub value: Vec<u8>,
}

/// `WriteRequest` with its bytes as a sequence.
pub struct WriteRequestModel {
    pub conn_id: u16,
    pub trans_id: u32,
    pub peer: [u8; 6],
    pub handle: u16,
    pub offset: u16,
    pub need_rsp: bool,
    pub is_prep: bool,
    pub value: Seq<u8>,
}

impl View for WriteRequest {
    type V = WriteRequestModel;

    open spec fn view(&self) -> WriteRequestModel {
        WriteRequestModel {
            conn_id: self.conn_id,
            trans_id: self.trans_id,
            peer: self.peer,
            handle: self.handle,
            offset: self.offset,
            need_rsp: self.need_rsp,
            is_prep: self.is_prep,
            value: self.value@,
        }
    }
}

impl WriteRequestModel {
    /// The read that stands in for the acknowledgement of this write: the
    /// same peer, transaction and attribute.
    pub open spec fn as_read(self) -> ReadRequest {
        ReadRequest {
            conn_id: self.conn_id,
            trans_id: self.trans_id,
            peer: self.peer,
            handle: self.handle,
            offset: self.offset,
            is_long: false,
            need_rsp: self.need_rsp,
        }
    }
}

impl WriteRequest {
    /// The read that stands in for the acknowledgement of this write.
    pub fn to_read(&self) -> (r: ReadRequest)
        ensures
            r == self@.as_read(),
    {
        ReadRequest {
            conn_id: self.conn_id,
            trans_id: self.trans_id,
            peer: self.peer,
            handle: self.handle,
            offset: self.offset,
            is_long: false,
            need_rsp: self.need_rsp,
        }
    }
}

/// An event of the host stack. Each kind has its own fields and no others.
#[derive(Debug, Clone, PartialEq, Eq)]
pub enum GattsEvent {
    Connect { conn_id: u16, link_role: u8, remote_bda: [u8; 6] },
    Disconnect { conn_id: u16, link_role: u8, remote_bda: [u8; 6] },
    Mtu { conn_id: u16, mtu: u16 },
    /// A profile was registered, or refused.
    Register { status: u32, app_id: u16 },
    /// A service was created, or refused.
    Create { status: u32, service_handle: u16, service_uuid: BleUuid },
    /// A service was started, or refused.
    Start { status: u32, service_handle: u16 },
    /// A characteristic was added to a service, or refused.
    AddCharacteristic { status: u32, attr_handle: u16, service_handle: u16, char_uuid: BleUuid },
    /// A descriptor was added to a service, or refused.
    AddDescriptor { status: u32, attr_handle: u16, service_handle: u16, descr_uuid: BleUuid },
    Read(ReadRequest),
    Write(WriteRequest),
    /// The value that the host stack holds for an attribute was replaced.
    SetAttributeValue { status: u32, service_handle: u16, attr_handle: u16 },
    /// A response was sent.
    Response { status: u32, handle: u16 },
    /// A peer has acknowledged an indication.
    Confirm { status: u32, conn_id: u16 },
    /// Any other event, by its number.
    Other(u32),
}

/// One thing that the host of the library has to do in reaction to an
/// event. The steps of a reaction are carried out in order.
#[derive(Debug, Clone, PartialEq, Eq)]
pub enum Step {
    /// Make this call.
    Call(DriverCall),
    /// Run the read handler `callback` on `request`, build the response
    /// from the value it returns and send it. `subject` is the handle of
    /// the characteristic that the attribute is or belongs to.
    Read { callback: Callback, request: ReadRequest, subject: Option<u16>, interface: u8 },
    /// Run the write handler `callback` on the bytes of `write`.
    Write { callback: Callback, write: WriteRequest, subject: Option<u16> },
    /// Push `value` to `connection` if that peer's subscription record for
    /// the characteristic `handle` enables it: the indication where
    /// `indicate` is set, the notification where it is not.
    Publish { interface: u8, connection: Connection, handle: u16, value: Vec<u8>, indicate: bool },
}

/// `Step` with its byte strings as sequences.
pub enum StepModel {
    Call(DriverCallModel),
    Read { callback: Callback, request: ReadRequest, subject: Option<u16>, interface: u8 },
    Write { callback: Callback, write: WriteRequestModel, subject: Option<u16> },
    Publish { interface: u8, connection: Connection, handle: u16, value: Seq<u8>, indicate: bool },
}

impl View for Step {
    type V = StepModel;

    open spec fn view(&self) -> StepModel {
        match self {
            Step::Call(call) => StepModel::Call(call@),
            Step::Read { callback, request, subject, interface } => StepModel::Read {
                callback: *callback,
                request: *request,
                subject: *subject,
                interface: *interface,
            },
            Step::Write { callback, write, subject } => StepModel::Write {
                callback: *callback,
                write: write@,
                subject: *subject,
            },
            Step::Publish {
                interface,
                connection,
                handle,
                value,
                indicate,
            } => StepModel::Publish {
                interface: *interface,
                connection: *connection,
                handle: *handle,
                value: value@,
                indicate: *indicate,
            },
        }
    }
}

/// What became of an event.
#[derive(Debug, Clone, Copy, PartialEq, Eq, Structural)]
pub enum Outcome {
    /// The event was taken in.
    Handled,
    /// The event names a profile, a service or an attribute that the tree
    /// does not hold, or a completion that nothing waits for. It is
    /// dropped; its host may log it.
    Unresolved,
    /// The event is of a kind that the server has no use for.
    Unhandled,
}

/// The reaction to an event: what became of it, and what the host of the
/// library has to do now.
#[derive(Debug, Clone, PartialEq, Eq)]
pub struct Reaction {
    pub outcome: Outcome,
    pub steps: Vec<Step>,
}

/// `Reaction` with the models of its steps.
pub struct ReactionModel {
    pub outcome: Outcome,
    pub steps: Seq<StepModel>,
}

impl View for Reaction {
    type V = ReactionModel;

    open spec fn view(&self) -> ReactionModel {
        ReactionModel { outcome: self.outcome, steps: step_models(self.steps@) }
    }
}

impl ReactionModel {
    /// The reaction to a completion: it was resolved or not, and at most
    /// one call follows.
    pub open spec fn progress(resolved: bool, call: Option<DriverCallModel>) -> ReactionModel {
        ReactionModel {
            outcome: if resolved {
                Outcome::Handled
            } else {
                Outcome::Unresolved
            },
            steps: steps_of(call),
        }
    }

    /// The reaction to a request that was resolved or not, with the steps
    /// that it asks for.
    pub open spec fn plan(resolved: bool, steps: Seq<StepModel>) -> ReactionModel {
        ReactionModel {
            outcome: if resolved {
                Outcome::Handled
            } else {
                Outcome::Unresolved
            },
            steps,
        }
    }

    /// The reaction that asks for nothing.
    pub open spec fn silent(outcome: Outcome) -> ReactionModel {
        ReactionModel { outcome, steps: Seq::empty() }
    }
}

impl Reaction {
    /// The reaction to a completion.
    pub fn progress(resolved: bool, call: Option<DriverCall>) -> (r: Self)
        ensures
            r@ == ReactionModel::progress(resolved, call_model(call)),
    {
        let mut steps: Vec<Step> = Vec::new();
        match call {
            Some(call) => {
                steps.push(Step::Call(call));
                assert(step_models(steps@) =~= seq![StepModel::Call(call@)]);
            },
            None => {
                assert(step_models(steps@) =~= Seq::empty());
            },
        }
        Reaction {
            outcome: if resolved {
                Outcome::Handled
            } else {
                Outcome::Unresolved
            },
            steps,
        }
    }

    /// The reaction to a request, with the steps that it asks for.
    pub fn plan(resolved: bool, steps: Vec<Step>) -> (r: Self)
        ensures
            r@ == ReactionModel::plan(resolved, step_models(steps@)),
    {
        Reaction {
            outcome: if resolved {
                Outcome::Handled
            } else {
                Outcome::Unresolved
            },
            steps,
        }
    }

    /// The reaction that asks for nothing.
    pub fn silent(outcome: Outcome) -> (r: Self)
        ensures
            r@ == ReactionModel::silent(outcome),
    {
        let steps: Vec<Step> = Vec::new();
        assert(step_models(steps@) =~= Seq::empty());
        Reaction { outcome, steps }
    }
}

/// The models of the steps, in order.
pub open spec fn step_models(steps: Seq<Step>) -> Seq<StepModel> {
    steps.map_values(|step: Step| step@)
}

/// The step that makes `call`, or no step where there is no call.
pub open spec fn steps_of(call: Option<DriverCallModel>) -> Seq<StepModel> {
    match call {
        Some(call) => seq![StepModel::Call(call)],
        None => Seq::empty(),
    }
}

} // verus!
