//! The server: the root of the attribute tree and the one place where the
//! events of the host stack come in.

use crate::gatt_server::driver::{
    call_model, call_models, creatable_steps, step_models, steps_of, DriverCall, DriverCallModel,
    GattsEvent, Outcome, Reaction, ReactionModel, Step, StepModel,
};
use crate::gatt_server::error::ConfigurationError;
use crate::gatt_server::profile::{Profile, ProfileModel};
use crate::gatt_server::registration::GATT_OK;
use crate::gatt_server::service::Service;
use crate::utilities::search::{first_index, lemma_first_index_absent, lemma_first_index_found};
use crate::utilities::{address_eq, Connection};
use vstd::prelude::*;

verus! {

/// The appearance that a server advertises unless it is told otherwise:
/// "unknown".
pub const APPEARANCE_UNKNOWN: u16 = 0;

/// A GATT server.
#[derive(Debug)]
pub struct GattServer {
    profiles: Vec<Profile>,
    started: bool,
    /// The peers that are connected, no peer twice.
    active_connections: Vec<Connection>,
    device_name: String,
    appearance: u16,
    /// The service whose identifier goes into the scan response.
    advertised_service: Option<[u8; 16]>,
    advertisement_configured: bool,
}

/// What a server holds.
pub struct GattServerModel {
    pub profiles: Seq<ProfileModel>,
    pub started: bool,
    pub connections: Seq<Connection>,
    pub device_name: Seq<char>,
    pub appearance: u16,
    pub advertised_service: Option<[u8; 16]>,
    pub advertisement_configured: bool,
}

impl View for GattServer {
    type V = GattServerModel;

    closed spec fn view(&self) -> GattServerModel {
        GattServerModel {
            profiles: self.profiles@.map_values(|p: Profile| p@),
            started: self.started,
            connections: self.active_connections@,
            device_name: self.device_name@,
            appearance: self.appearance,
            advertised_service: self.advertised_service,
            advertisement_configured: self.advertisement_configured,
        }
    }
}

/// The connections to the peer at `address`.
pub open spec fn peer_at(address: [u8; 6]) -> spec_fn(Connection) -> bool {
    |c: Connection| c.remote_bda == address
}

/// The profiles that wait for a completion that names `app_id`.
pub open spec fn awaiting_profile(app_id: u16) -> spec_fn(ProfileModel) -> bool {
    |p: ProfileModel| p.awaits(app_id)
}

/// The profiles that the host stack talks to through `interface`.
pub open spec fn profile_on(interface: u8) -> spec_fn(ProfileModel) -> bool {
    |p: ProfileModel| p.listens_on(interface)
}

impl GattServerModel {
    /// A server before anything was declared: named "ESP32", of unknown
    /// appearance, not started.
    pub open spec fn initial() -> GattServerModel {
        GattServerModel {
            profiles: Seq::empty(),
            started: false,
            connections: Seq::empty(),
            device_name: "ESP32"@,
            appearance: APPEARANCE_UNKNOWN,
            advertised_service: None,
            advertisement_configured: false,
        }
    }

    /// No peer is connected twice.
    pub open spec fn distinct_peers(self) -> bool {
        forall|i: int, j: int|
            0 <= i < j < self.connections.len() ==> !(#[trigger] self.connections[i]).same_peer(
                #[trigger] self.connections[j],
            )
    }

    /// The name is taken until the advertisement is configured, and left
    /// alone from then on.
    pub open spec fn with_device_name(self, name: Seq<char>) -> GattServerModel {
        if self.advertisement_configured {
            self
        } else {
            GattServerModel { device_name: name, ..self }
        }
    }

    /// The appearance is taken until the advertisement is configured, and
    /// left alone from then on.
    pub open spec fn with_appearance(self, appearance: u16) -> GattServerModel {
        if self.advertisement_configured {
            self
        } else {
            GattServerModel { appearance, ..self }
        }
    }

    pub open spec fn with_profiles(self, profiles: Seq<ProfileModel>) -> GattServerModel {
        GattServerModel { profiles: self.profiles + profiles, ..self }
    }

    pub open spec fn with_advertised_service(self, uuid: [u8; 16]) -> GattServerModel {
        GattServerModel { advertised_service: Some(uuid), ..self }
    }

    /// The server with the profile at `index` replaced.
    pub open spec fn with_profile_at(self, index: int, profile: ProfileModel) -> GattServerModel {
        GattServerModel { profiles: self.profiles.update(index, profile), ..self }
    }

    /// Starting the server: the new server and the calls to make.
    ///
    /// The first start brings up the host stack and asks for the
    /// registration of every profile, in the order of declaration. Any
    /// later start changes nothing and asks for nothing.
    pub open spec fn start(self) -> (GattServerModel, Seq<DriverCallModel>) {
        if self.started {
            (self, Seq::empty())
        } else {
            (
                GattServerModel {
                    started: true,
                    profiles: self.profiles.map_values(|p: ProfileModel| p.requested()),
                    ..self
                },
                seq![DriverCallModel::InitialiseStack] + self.profiles.map_values(
                    |p: ProfileModel| p.request(),
                ),
            )
        }
    }

    /// A peer has connected. It joins the connections, unless a connection
    /// to the same peer is there already: then that one stays.
    pub open spec fn connect(self, connection: Connection) -> GattServerModel {
        if first_index(self.connections, peer_at(connection.remote_bda)) is Some {
            self
        } else {
            GattServerModel { connections: self.connections.push(connection), ..self }
        }
    }

    /// The peer at `address` has disconnected: the first connection to it
    /// leaves, the others stay in their order.
    pub open spec fn disconnect(self, address: [u8; 6]) -> GattServerModel {
        match first_index(self.connections, peer_at(address)) {
            Some(i) => GattServerModel { connections: self.connections.remove(i), ..self },
            None => self,
        }
    }

    /// The call that configures the advertisement.
    pub open spec fn advertisement(self) -> DriverCallModel {
        DriverCallModel::ConfigureAdvertising {
            device_name: self.device_name,
            appearance: self.appearance,
            service_uuid: self.advertised_service,
        }
    }

    /// The completion of a profile's registration, which came in on
    /// `interface`. It goes to the first profile that waits for one under
    /// `app_id`. The first profile that is registered also has the
    /// advertisement configured, before its own services are asked for.
    pub open spec fn on_register(self, interface: u8, status: u32, app_id: u16) -> (
        GattServerModel,
        ReactionModel,
    ) {
        match first_index(self.profiles, awaiting_profile(app_id)) {
            Some(i) => {
                let ok = status == GATT_OK;
                let (profile, call) = self.profiles[i].on_registered(ok, interface);
                let configure = ok && !self.advertisement_configured;
                (
                    GattServerModel {
                        profiles: self.profiles.update(i, profile),
                        advertisement_configured: self.advertisement_configured || ok,
                        ..self
                    },
                    ReactionModel {
                        outcome: Outcome::Handled,
                        steps: (if configure {
                            seq![StepModel::Call(self.advertisement())]
                        } else {
                            Seq::empty()
                        }) + steps_of(call),
                    },
                )
            },
            None => (self, ReactionModel::silent(Outcome::Unresolved)),
        }
    }

    /// The first profile that the host stack talks to through `interface`.
    pub open spec fn profile_by_interface(self, interface: u8) -> Option<int> {
        first_index(self.profiles, profile_on(interface))
    }

    /// The server after an event that came in on `interface`, and the
    /// reaction to the event.
    ///
    /// Connections are kept by the server itself: a connect adds the
    /// peer, a disconnect removes it and always has advertising started
    /// again. The completion of a profile's registration goes to the
    /// profile that waits for it. A changed value is pushed to the peers
    /// that are connected. Everything else is for the profile behind the
    /// interface; where there is none, the event is dropped.
    pub open spec fn react(self, interface: u8, event: GattsEvent) -> (GattServerModel, ReactionModel) {
        match event {
            GattsEvent::Connect { conn_id, link_role, remote_bda } => (
                self.connect(
                    Connection {
                        id: conn_id,
                        is_slave: link_role == crate::utilities::LINK_ROLE_SLAVE,
                        remote_bda,
                    },
                ),
                ReactionModel::silent(Outcome::Handled),
            ),
            GattsEvent::Disconnect { remote_bda, .. } => (
                self.disconnect(remote_bda),
                ReactionModel {
                    outcome: Outcome::Handled,
                    steps: seq![StepModel::Call(DriverCallModel::StartAdvertising)],
                },
            ),
            GattsEvent::Mtu { .. } => (self, ReactionModel::silent(Outcome::Handled)),
            GattsEvent::Response { .. } => (self, ReactionModel::silent(Outcome::Handled)),
            GattsEvent::Register { status, app_id } => self.on_register(interface, status, app_id),
            GattsEvent::SetAttributeValue { service_handle, attr_handle, .. } => {
                match self.profile_by_interface(interface) {
                    Some(i) => {
                        let (resolved, steps) = self.profiles[i].publish_steps(
                            interface,
                            service_handle,
                            attr_handle,
                            self.connections,
                        );
                        (self, ReactionModel::plan(resolved, steps))
                    },
                    None => (self, ReactionModel::silent(Outcome::Unresolved)),
                }
            },
            _ => match self.profile_by_interface(interface) {
                Some(i) => {
                    let (profile, reaction) = self.profiles[i].react(interface, event);
                    (self.with_profile_at(i, profile), reaction)
                },
                None => (self, ReactionModel::silent(Outcome::Unresolved)),
            },
        }
    }

    /// The outcome of giving a characteristic, named by the positions of
    /// its profile, its service and itself, a new value.
    pub open spec fn set_value(
        self,
        profile: int,
        service: int,
        characteristic: int,
        value: Seq<u8>,
    ) -> Result<(GattServerModel, Option<DriverCallModel>), ConfigurationError> {
        if 0 <= profile < self.profiles.len() {
            match self.profiles[profile].set_value(service, characteristic, value) {
                Ok((changed, call)) => Ok((self.with_profile_at(profile, changed), call)),
                Err(error) => Err(error),
            }
        } else {
            Err(ConfigurationError::UnknownAttribute)
        }
    }
}

impl GattServer {
    /// A server before anything was declared.
    pub fn new() -> (r: Self)
        ensures
            r@ == GattServerModel::initial(),
            r@.untouched() && r@.orderly() && r@.coherent() && r@.distinct_peers(),
    {
        let r = GattServer {
            profiles: Vec::new(),
            started: false,
            active_connections: Vec::new(),
            device_name: "ESP32".to_owned(),
            appearance: APPEARANCE_UNKNOWN,
            advertised_service: None,
            advertisement_configured: false,
        };
        assert(r@.profiles =~= Seq::empty());
        assert(r@.connections =~= Seq::empty());
        r
    }

    /// Starts the server and returns the calls to make, in order. A server
    /// that was started already stays as it is, and no call is returned.
    pub fn start(&mut self) -> (calls: Vec<DriverCall>)
        ensures
            (final(self)@, call_models(calls@)) == old(self)@.start(),
            old(self)@.untouched() ==> final(self)@.orderly(),
            old(self)@.coherent() ==> final(self)@.coherent(),
    {
        proof {
            if old(self)@.untouched() {
                crate::gatt_server::order::lemma_start_orderly(old(self)@);
            }
            if old(self)@.coherent() {
                crate::gatt_server::declaration::lemma_coherence_kept(
                    old(self)@,
                    0,
                    GattsEvent::Other(0),
                );
            }
        }
        let mut calls: Vec<DriverCall> = Vec::new();
        if self.started {
            assert(call_models(calls@) =~= Seq::empty());
            return calls;
        }
        self.started = true;
        calls.push(DriverCall::InitialiseStack);
        let mut i: usize = 0;
        while i < self.profiles.len()
            invariant
                i <= self.profiles.len(),
                self.profiles@.len() == old(self).profiles@.len(),
                self.started,
                self.active_connections == old(self).active_connections,
                self.device_name == old(self).device_name,
                self.appearance == old(self).appearance,
                self.advertised_service == old(self).advertised_service,
                self.advertisement_configured == old(self).advertisement_configured,
                calls@.len() == i + 1,
                calls@[0]@ == DriverCallModel::InitialiseStack,
                forall|k: int|
                    1 <= k <= i ==> (#[trigger] calls@[k])@ == old(self)@.profiles[k - 1].request(),
                forall|k: int|
                    0 <= k < i ==> (#[trigger] self.profiles@[k])@ == old(self)@.profiles[k].requested(),
                forall|k: int|
                    i <= k < self.profiles@.len() ==> (#[trigger] self.profiles@[k])@ == old(
                        self,
                    )@.profiles[k],
            decreases self.profiles.len() - i,
        {
            let call = self.profiles[i].register_self();
            calls.push(call);
            i += 1;
        }
        assert(self@.profiles =~= old(self)@.profiles.map_values(|p: ProfileModel| p.requested()));
        assert(call_models(calls@) =~= seq![DriverCallModel::InitialiseStack] + old(
            self,
        )@.profiles.map_values(|p: ProfileModel| p.request()));
        calls
    }

    /// Sets the name that the device advertises. Once the advertisement is
    /// configured the name is left alone.
    pub fn device_name(&mut self, name: &str) -> (r: &mut Self)
        ensures
            r@ == old(self)@.with_device_name(name@),
            *final(self) == *final(r),
    {
        if !self.advertisement_configured {
            self.device_name = name.to_owned();
        }
        self
    }

    /// Sets the appearance that the device advertises. Once the
    /// advertisement is configured the appearance is left alone.
    pub fn appearance(&mut self, appearance: u16) -> (r: &mut Self)
        ensures
            r@ == old(self)@.with_appearance(appearance),
            *final(self) == *final(r),
    {
        if !self.advertisement_configured {
            self.appearance = appearance;
        }
        self
    }

    /// Adds copies of the profiles after those that the server has.
    /// Profiles that are added to a started server are not registered.
    pub fn add_profiles(&mut self, profiles: &[Profile]) -> (r: &mut Self)
        ensures
            r@ == old(self)@.with_profiles(profiles@.map_values(|p: Profile| p@)),
            *final(self) == *final(r),
            old(self)@.orderly() && (forall|i: int|
                0 <= i < profiles@.len() ==> (#[trigger] profiles@[i])@.untouched())
                ==> r@.orderly(),
            old(self)@.untouched() && (forall|i: int|
                0 <= i < profiles@.len() ==> (#[trigger] profiles@[i])@.untouched())
                ==> r@.untouched(),
            old(self)@.coherent() && (forall|i: int|
                0 <= i < profiles@.len() ==> (#[trigger] profiles@[i])@.coherent())
                ==> r@.coherent(),
    {
        proof {
            let added = profiles@.map_values(|p: Profile| p@);
            if old(self)@.coherent() && (forall|i: int|
                0 <= i < profiles@.len() ==> (#[trigger] profiles@[i])@.coherent()) {
                assert forall|i: int| 0 <= i < added.len() implies (#[trigger] added[i]).coherent() by {
                    assert(profiles@[i]@.coherent());
                }
                crate::gatt_server::declaration::lemma_with_profiles_coherent(old(self)@, added);
            }
            if old(self)@.orderly() && (forall|i: int|
                0 <= i < profiles@.len() ==> (#[trigger] profiles@[i])@.untouched()) {
                assert forall|i: int| 0 <= i < added.len() implies (#[trigger] added[i]).untouched() by {
                    assert(profiles@[i]@.untouched());
                }
                crate::gatt_server::order::lemma_with_profiles_orderly(old(self)@, added);
            }
        }
        let mut i: usize = 0;
        while i < profiles.len()
            invariant
                i <= profiles.len(),
                self.started == old(self).started,
                self.active_connections == old(self).active_connections,
                self.device_name == old(self).device_name,
                self.appearance == old(self).appearance,
                self.advertised_service == old(self).advertised_service,
                self.advertisement_configured == old(self).advertisement_configured,
                self.profiles@.len() == old(self).profiles@.len() + i,
                forall|k: int|
                    0 <= k < old(self).profiles@.len() ==> (#[trigger] self.profiles@[k])
                        == old(self).profiles@[k],
                forall|k: int|
                    old(self).profiles@.len() <= k < old(self).profiles@.len() + i ==> (
                    #[trigger] self.profiles@[k])@ == profiles@[k - old(self).profiles@.len()]@,
            decreases profiles.len() - i,
        {
            self.profiles.push(profiles[i].clone());
            i += 1;
        }
        assert(self@.profiles =~= old(self)@.profiles + profiles@.map_values(|p: Profile| p@));
        self
    }

    /// Has the identifier of `service` advertised in the scan response.
    pub fn advertise_service(&mut self, service: Service) -> (r: &mut Self)
        ensures
            r@.advertised_service matches Some(uuid) && uuid@ == service@.uuid.expansion(),
            r@ == old(self)@.with_advertised_service(r@.advertised_service->0),
            *final(self) == *final(r),
    {
        self.advertised_service = Some(service.uuid().as_uuid128_array());
        self
    }

    fn find_connection(&self, address: &[u8; 6]) -> (r: Option<usize>)
        ensures
            match r {
                Some(i) => first_index(self@.connections, peer_at(*address)) == Some(i as int)
                    && i < self@.connections.len(),
                None => first_index(self@.connections, peer_at(*address)) is None,
            },
    {
        let mut i: usize = 0;
        while i < self.active_connections.len()
            invariant
                i <= self.active_connections.len(),
                forall|k: int| 0 <= k < i ==> !peer_at(*address)(#[trigger] self@.connections[k]),
            decreases self.active_connections.len() - i,
        {
            if address_eq(&self.active_connections[i].remote_bda, address) {
                proof {
                    lemma_first_index_found(self@.connections, peer_at(*address), i as int);
                }
                return Some(i);
            }
            i += 1;
        }
        proof {
            lemma_first_index_absent(self@.connections, peer_at(*address));
        }
        None
    }

    fn find_awaiting(&self, app_id: u16) -> (r: Option<usize>)
        ensures
            match r {
                Some(i) => first_index(self@.profiles, awaiting_profile(app_id)) == Some(i as int)
                    && i < self@.profiles.len(),
                None => first_index(self@.profiles, awaiting_profile(app_id)) is None,
            },
    {
        let mut i: usize = 0;
        while i < self.profiles.len()
            invariant
                i <= self.profiles.len(),
                forall|k: int| 0 <= k < i ==> !awaiting_profile(app_id)(#[trigger] self@.profiles[k]),
            decreases self.profiles.len() - i,
        {
            if self.profiles[i].awaits(app_id) {
                proof {
                    lemma_first_index_found(self@.profiles, awaiting_profile(app_id), i as int);
                }
                return Some(i);
            }
            i += 1;
        }
        proof {
            lemma_first_index_absent(self@.profiles, awaiting_profile(app_id));
        }
        None
    }

    /// The position of the first profile that the host stack talks to
    /// through `interface`.
    pub fn get_profile(&self, interface: u8) -> (r: Option<usize>)
        ensures
            match r {
                Some(i) => self@.profile_by_interface(interface) == Some(i as int) && i
                    < self@.profiles.len(),
                None => self@.profile_by_interface(interface) is None,
            },
    {
        let mut i: usize = 0;
        while i < self.profiles.len()
            invariant
                i <= self.profiles.len(),
                forall|k: int| 0 <= k < i ==> !profile_on(interface)(#[trigger] self@.profiles[k]),
            decreases self.profiles.len() - i,
        {
            if self.profiles[i].interface() == Some(interface) {
                proof {
                    lemma_first_index_found(self@.profiles, profile_on(interface), i as int);
                }
                return Some(i);
            }
            i += 1;
        }
        proof {
            lemma_first_index_absent(self@.profiles, profile_on(interface));
        }
        None
    }

    /// Takes in a connection, unless its peer is connected already.
    pub fn on_connect(&mut self, connection: Connection)
        ensures
            final(self)@ == old(self)@.connect(connection),
    {
        if self.find_connection(&connection.remote_bda).is_none() {
            self.active_connections.push(connection);
        }
    }

    /// Removes the connection to the peer at `address` and returns the
    /// call that starts advertising again. The call is owed whether or not
    /// the peer was connected.
    pub fn on_disconnect(&mut self, address: &[u8; 6]) -> (call: DriverCall)
        ensures
            final(self)@ == old(self)@.disconnect(*address),
            call@ == DriverCallModel::StartAdvertising,
    {
        match self.find_connection(address) {
            Some(i) => {
                self.active_connections.remove(i);
            },
            None => {},
        }
        DriverCall::StartAdvertising
    }

    fn on_register(&mut self, interface: u8, status: u32, app_id: u16) -> (reaction: Reaction)
        ensures
            (final(self)@, reaction@) == old(self)@.on_register(interface, status, app_id),
    {
        match self.find_awaiting(app_id) {
            Some(i) => {
                let ok = status == GATT_OK;
                let call = self.profiles[i].on_registered(ok, interface);
                assert(self@.profiles =~= old(self)@.profiles.update(
                    i as int,
                    old(self)@.profiles[i as int].on_registered(ok, interface).0,
                ));
                let mut steps: Vec<Step> = Vec::new();
                if ok && !self.advertisement_configured {
                    steps.push(
                        Step::Call(
                            DriverCall::ConfigureAdvertising {
                                device_name: self.device_name.clone(),
                                appearance: self.appearance,
                                service_uuid: self.advertised_service,
                            },
                        ),
                    );
                }
                if ok {
                    self.advertisement_configured = true;
                }
                match call {
                    Some(call) => {
                        steps.push(Step::Call(call));
                    },
                    None => {},
                }
                assert(step_models(steps@) =~= old(self)@.on_register(
                    interface,
                    status,
                    app_id,
                ).1.steps);
                Reaction { outcome: Outcome::Handled, steps }
            },
            None => Reaction::silent(Outcome::Unresolved),
        }
    }

    /// The one entry for the events of the host stack: takes in the event
    /// that came in on `gatts_if` and returns the reaction to it.
    pub fn gatts_event_handler(&mut self, gatts_if: u8, event: GattsEvent) -> (reaction: Reaction)
        ensures
            (final(self)@, reaction@) == old(self)@.react(gatts_if, event),
            old(self)@.orderly() ==> final(self)@.orderly(),
            old(self)@.coherent() ==> final(self)@.coherent() && creatable_steps(reaction@.steps),
            old(self)@.distinct_peers() ==> final(self)@.distinct_peers(),
    {
        proof {
            if old(self)@.orderly() {
                crate::gatt_server::order::lemma_react_orderly(old(self)@, gatts_if, event);
            }
            if old(self)@.coherent() {
                crate::gatt_server::declaration::lemma_coherence_kept(old(self)@, gatts_if, event);
            }
            if old(self)@.distinct_peers() {
                lemma_react_distinct(old(self)@, gatts_if, event);
            }
        }
        match event {
            GattsEvent::Connect { conn_id, link_role, remote_bda } => {
                self.on_connect(Connection::from_link(conn_id, link_role, remote_bda));
                Reaction::silent(Outcome::Handled)
            },
            GattsEvent::Disconnect { conn_id, link_role, remote_bda } => {
                let call = self.on_disconnect(&remote_bda);
                let mut steps: Vec<Step> = Vec::new();
                steps.push(Step::Call(call));
                assert(step_models(steps@) =~= seq![
                    StepModel::Call(DriverCallModel::StartAdvertising),
                ]);
                Reaction { outcome: Outcome::Handled, steps }
            },
            GattsEvent::Mtu { .. } => Reaction::silent(Outcome::Handled),
            GattsEvent::Response { .. } => Reaction::silent(Outcome::Handled),
            GattsEvent::Register { status, app_id } => self.on_register(gatts_if, status, app_id),
            GattsEvent::SetAttributeValue { status, service_handle, attr_handle } => {
                match self.get_profile(gatts_if) {
                    Some(i) => {
                        let (resolved, steps) = self.profiles[i].plan_publish(
                            gatts_if,
                            service_handle,
                            attr_handle,
                            &self.active_connections,
                        );
                        Reaction::plan(resolved, steps)
                    },
                    None => Reaction::silent(Outcome::Unresolved),
                }
            },
            _ => {
                match self.get_profile(gatts_if) {
                    Some(i) => {
                        let reaction = self.profiles[i].gatts_event_handler(gatts_if, event);
                        assert(self@.profiles =~= old(self)@.profiles.update(
                            i as int,
                            old(self)@.profiles[i as int].react(gatts_if, event).0,
                        ));
                        reaction
                    },
                    None => Reaction::silent(Outcome::Unresolved),
                }
            },
        }
    }

    /// Gives a characteristic, named by the positions of its profile, its
    /// service and itself, a new value. The result is the call that tells
    /// the host stack of it, where one is owed. Where there is no such
    /// characteristic, or it cannot take the value, nothing changes.
    pub fn set_characteristic_value(
        &mut self,
        profile: usize,
        service: usize,
        characteristic: usize,
        value: Vec<u8>,
    ) -> (r: Result<Option<DriverCall>, ConfigurationError>)
        ensures
            match old(self)@.set_value(
                profile as int,
                service as int,
                characteristic as int,
                value@,
            ) {
                Ok((server, call)) => r matches Ok(made) && call_model(made) == call
                    && final(self)@ == server,
                Err(error) => r == Err::<Option<DriverCall>, ConfigurationError>(error)
                    && final(self)@ == old(self)@,
            },
            old(self)@.orderly() ==> final(self)@.orderly(),
            old(self)@.coherent() ==> final(self)@.coherent(),
    {
        proof {
            if old(self)@.orderly() {
                crate::gatt_server::order::lemma_set_value_orderly(
                    old(self)@,
                    profile as int,
                    service as int,
                    characteristic as int,
                    value@,
                );
            }
            if old(self)@.coherent() {
                crate::gatt_server::declaration::lemma_set_value_coherent(
                    old(self)@,
                    profile as int,
                    service as int,
                    characteristic as int,
                    value@,
                );
            }
        }
        if profile >= self.profiles.len() {
            return Err(ConfigurationError::UnknownAttribute);
        }
        let r = self.profiles[profile].set_characteristic_value(service, characteristic, value);
        proof {
            if r is Ok {
                assert(self@.profiles =~= old(self)@.profiles.update(
                    profile as int,
                    old(self)@.profiles[profile as int].set_value(
                        service as int,
                        characteristic as int,
                        value@,
                    )->Ok_0.0,
                ));
            } else {
                assert(self@.profiles =~= old(self)@.profiles);
            }
        }
        r
    }

    pub fn is_started(&self) -> (r: bool)
        ensures
            r == self@.started,
    {
        self.started
    }

    pub fn is_advertisement_configured(&self) -> (r: bool)
        ensures
            r == self@.advertisement_configured,
    {
        self.advertisement_configured
    }

    /// The peers that are connected.
    pub fn connections(&self) -> (r: &Vec<Connection>)
        ensures
            r@ == self@.connections,
    {
        &self.active_connections
    }

    pub fn profile_count(&self) -> (r: usize)
        ensures
            r == self@.profiles.len(),
    {
        self.profiles.len()
    }

    /// The profile at `index`.
    pub fn profile_at(&self, index: usize) -> (r: Option<&Profile>)
        ensures
            index < self@.profiles.len() ==> (r matches Some(p) && p@
                == self@.profiles[index as int]),
            index >= self@.profiles.len() ==> r is None,
    {
        if index < self.profiles.len() {
            Some(&self.profiles[index])
        } else {
            None
        }
    }

    pub fn advertised_name(&self) -> (r: &String)
        ensures
            r@ == self@.device_name,
    {
        &self.device_name
    }

    pub fn advertised_appearance(&self) -> (r: u16)
        ensures
            r == self@.appearance,
    {
        self.appearance
    }

    pub fn advertised_service(&self) -> (r: Option<[u8; 16]>)
        ensures
            r == self@.advertised_service,
    {
        self.advertised_service
    }
}

/// Starting twice is starting once: the second start changes nothing and
/// asks for nothing, so the tree is registered one time only.
pub proof fn lemma_start_once(server: GattServerModel)
    ensures
        server.start().0.started,
        server.start().0.start() == (server.start().0, Seq::<DriverCallModel>::empty()),
{
}

/// A peer that connects joins the connections at most once: no peer is
/// ever connected twice.
pub proof fn lemma_connect_distinct(server: GattServerModel, connection: Connection)
    requires
        server.distinct_peers(),
    ensures
        server.connect(connection).distinct_peers(),
        exists|i: int|
            0 <= i < server.connect(connection).connections.len() && (
            #[trigger] server.connect(connection).connections[i]).same_peer(connection),
{
    let after = server.connect(connection);
    crate::utilities::search::lemma_first_index_sound(
        server.connections,
        peer_at(connection.remote_bda),
    );
    match first_index(server.connections, peer_at(connection.remote_bda)) {
        Some(i) => {
            assert(peer_at(connection.remote_bda)(server.connections[i]));
            assert(after.connections[i].same_peer(connection));
        },
        None => {
            let last = server.connections.len() as int;
            assert(after.connections[last] == connection);
            assert(after.connections[last].same_peer(connection));
            assert forall|i: int, j: int| 0 <= i < j < after.connections.len() implies !(
            #[trigger] after.connections[i]).same_peer(#[trigger] after.connections[j]) by {
                if j == last {
                    assert(!peer_at(connection.remote_bda)(server.connections[i]));
                }
            }
        },
    }
}

/// A disconnect of a peer that is connected removes exactly one
/// connection, the one to that peer: afterwards no connection to the peer
/// is left, and every other connection is still there. Whether or not
/// the peer was connected, the reaction is exactly one call, which starts
/// advertising again.
pub proof fn lemma_disconnect(
    server: GattServerModel,
    interface: u8,
    conn_id: u16,
    link_role: u8,
    remote_bda: [u8; 6],
)
    requires
        server.distinct_peers(),
    ensures
        ({
            let event = GattsEvent::Disconnect { conn_id, link_role, remote_bda };
            let (after, reaction) = server.react(interface, event);
            let connected = exists|i: int|
                0 <= i < server.connections.len() && (#[trigger] server.connections[i]).remote_bda
                    == remote_bda;
            &&& reaction.steps == seq![StepModel::Call(DriverCallModel::StartAdvertising)]
            &&& after.distinct_peers()
            &&& after.profiles == server.profiles
            &&& connected ==> after.connections.len() == server.connections.len() - 1
            &&& !connected ==> after.connections == server.connections
            &&& forall|i: int|
                0 <= i < after.connections.len() ==> (#[trigger] after.connections[i]).remote_bda
                    != remote_bda
            &&& forall|i: int|
                0 <= i < server.connections.len() && (#[trigger] server.connections[i]).remote_bda
                    != remote_bda ==> after.connections.contains(server.connections[i])
        }),
{
    let after = server.disconnect(remote_bda);
    crate::utilities::search::lemma_first_index_sound(server.connections, peer_at(remote_bda));
    match first_index(server.connections, peer_at(remote_bda)) {
        Some(at) => {
            assert(peer_at(remote_bda)(server.connections[at]));
            assert forall|i: int| 0 <= i < after.connections.len() implies (
            #[trigger] after.connections[i]).remote_bda != remote_bda by {
                if i < at {
                    assert(after.connections[i] == server.connections[i]);
                    assert(!peer_at(remote_bda)(server.connections[i]));
                } else {
                    assert(after.connections[i] == server.connections[i + 1]);
                    assert(!server.connections[at].same_peer(server.connections[i + 1]));
                }
            }
            assert forall|i: int, j: int| 0 <= i < j < after.connections.len() implies !(
            #[trigger] after.connections[i]).same_peer(#[trigger] after.connections[j]) by {
                let a = if i < at {
                    i
                } else {
                    i + 1
                };
                let b = if j < at {
                    j
                } else {
                    j + 1
                };
                assert(after.connections[i] == server.connections[a]);
                assert(after.connections[j] == server.connections[b]);
                assert(!server.connections[a].same_peer(server.connections[b]));
            }
            assert forall|i: int|
                0 <= i < server.connections.len() && (#[trigger] server.connections[i]).remote_bda
                    != remote_bda implies after.connections.contains(server.connections[i]) by {
                if i < at {
                    assert(after.connections[i] == server.connections[i]);
                } else {
                    assert(i != at);
                    assert(after.connections[i - 1] == server.connections[i]);
                }
            }
        },
        None => {
            assert forall|i: int| 0 <= i < after.connections.len() implies (
            #[trigger] after.connections[i]).remote_bda != remote_bda by {
                assert(!peer_at(remote_bda)(server.connections[i]));
            }
            if exists|i: int|
                0 <= i < server.connections.len() && (#[trigger] server.connections[i]).remote_bda
                    == remote_bda {
                let i = choose|i: int|
                    0 <= i < server.connections.len() && (
                    #[trigger] server.connections[i]).remote_bda == remote_bda;
                assert(!peer_at(remote_bda)(server.connections[i]));
            }
        },
    }
}

/// The completions of registrations never reach the application: the
/// reaction to one is made of calls into the host stack and of nothing
/// else. It is at most one call, and one more where the advertisement is
/// configured along with the registration of a profile.
pub proof fn lemma_completions_ask_for_calls(server: GattServerModel, interface: u8, event: GattsEvent)
    requires
        event is Register || event is Create || event is Start || event is AddCharacteristic
            || event is AddDescriptor,
    ensures
        forall|i: int|
            0 <= i < server.react(interface, event).1.steps.len() ==> (
            #[trigger] server.react(interface, event).1.steps[i]) is Call,
        !(event is Register) ==> server.react(interface, event).1.steps.len() <= 1,
        server.react(interface, event).1.steps.len() <= 2,
{
}

/// No event has a peer connected twice.
pub proof fn lemma_react_distinct(server: GattServerModel, interface: u8, event: GattsEvent)
    requires
        server.distinct_peers(),
    ensures
        server.react(interface, event).0.distinct_peers(),
{
    match event {
        GattsEvent::Connect { conn_id, link_role, remote_bda } => {
            lemma_connect_distinct(
                server,
                Connection {
                    id: conn_id,
                    is_slave: link_role == crate::utilities::LINK_ROLE_SLAVE,
                    remote_bda,
                },
            );
        },
        GattsEvent::Disconnect { conn_id, link_role, remote_bda } => {
            lemma_disconnect(server, interface, conn_id, link_role, remote_bda);
        },
        _ => {},
    }
}

/// A read, a write and the report of a changed value leave the server as
/// it was: they ask for handlers to be run and for calls to be made, and
/// whatever becomes of those, the tree and the connections are untouched
/// and the next event is taken in as if nothing had happened.
pub proof fn lemma_requests_change_nothing(server: GattServerModel, interface: u8, event: GattsEvent)
    requires
        event is Read || event is Write || event is SetAttributeValue,
    ensures
        server.react(interface, event).0 == server,
{
    match server.profile_by_interface(interface) {
        Some(i) => {
            crate::utilities::search::lemma_first_index_sound(
                server.profiles,
                profile_on(interface),
            );
            assert(server.profiles.update(i, server.profiles[i]) =~= server.profiles);
        },
        None => {},
    }
}

impl Default for GattServer {
    fn default() -> (r: Self)
        ensures
            r@ == GattServerModel::initial(),
    {
        GattServer::new()
    }
}

} // verus!
