//! The connection state machine: protocol phases, the login exchange with
//! its single authentication retry, compression install, and the
//! configuration phase.
//!
//! Everything here is a pure decision: what arrived and what the outside
//! calls answered come in as events, and what to send or install goes out
//! as actions. The socket, the cryptography, and the session server stay
//! outside the library.

use vstd::prelude::*;

verus! {

/// The wire protocol version this client speaks.
pub const PROTOCOL_VERSION: i32 = 762;

/// The first protocol version with a configuration phase; below it, the
/// game phase follows the login phase directly.
pub const FIRST_CONFIGURATION_PROTOCOL_VERSION: i32 = 764;

/// The sequential protocol phases of a connection.
#[derive(Debug, Clone, Copy, PartialEq, Eq, Structural)]
pub enum ConnectionPhase {
    Handshaking,
    Status,
    Login,
    Configuration,
    Game,
    Disconnected,
}

/// The order of the phases; a live connection only moves forward in it.
pub open spec fn spec_phase_index(p: ConnectionPhase) -> int {
    match p {
        ConnectionPhase::Handshaking => 0,
        ConnectionPhase::Status => 1,
        ConnectionPhase::Login => 2,
        ConnectionPhase::Configuration => 3,
        ConnectionPhase::Game => 4,
        ConnectionPhase::Disconnected => 5,
    }
}

/// What the client wants from the server in its first packet.
#[derive(Debug, Clone, Copy, PartialEq, Eq, Structural)]
pub enum ConnectionIntention {
    Status,
    Login,
    Transfer,
}

/// An account the client joins with. A missing access token means an
/// offline account; then no authentication is attempted.
#[derive(Debug, Clone, PartialEq, Eq)]
pub struct Account {
    pub username: String,
    pub uuid: Option<u128>,
    pub has_access_token: bool,
}

/// The server's encryption request: its id, RSA public key, and challenge.
#[derive(Debug, Clone, PartialEq, Eq)]
pub struct EncryptionRequestData {
    pub server_id: Vec<u8>,
    pub public_key: Vec<u8>,
    pub nonce: Vec<u8>,
}

/// A clientbound packet of the login phase.
#[derive(Debug, Clone, PartialEq, Eq)]
pub enum ClientboundLoginPacket {
    /// The encryption request.
    Hello(EncryptionRequestData),
    LoginCompression { compression_threshold: i32 },
    GameProfile { uuid: u128, name: String },
    LoginDisconnect { reason: String },
    CustomQuery { transaction_id: u32, data: Vec<u8> },
}

/// How a session-server authentication attempt ended.
#[derive(Debug, Clone, Copy, PartialEq, Eq, Structural)]
pub enum AuthOutcome {
    Succeeded,
    InvalidSession,
    ForbiddenOperation,
    Other,
}

/// What the login machine reacts to: a packet, or the answer of an
/// outside authentication attempt.
#[derive(Debug, Clone, PartialEq, Eq)]
pub enum LoginEvent {
    Packet(ClientboundLoginPacket),
    AuthFinished(AuthOutcome),
}

/// Starting a client failed before the connection was up.
#[derive(Debug, Clone, PartialEq, Eq)]
pub enum StartError {
    InvalidAddress,
    Join(DisconnectReason),
}

/// What a client surfaces to user code.
#[derive(Debug, Clone, PartialEq, Eq)]
pub enum Event {
    /// The login finished and the profile arrived.
    Init,
    /// A chat line, split into its sender and content.
    Chat { sender: Option<Vec<u8>>, content: Vec<u8> },
    /// One fixed game tick passed.
    Tick,
    /// The player died.
    Death,
    /// A raw packet payload came in.
    Packet(Vec<u8>),
    /// The connection ended.
    Disconnect { reason: Option<String> },
    AddPlayer,
    RemovePlayer,
    UpdatePlayer,
}

/// Why a connection ended during login.
#[derive(Debug, Clone, PartialEq, Eq)]
pub enum DisconnectReason {
    AuthFailed,
    ServerDisconnect { reason: String },
}

/// What the caller must do after a login step.
#[derive(Debug, Clone, PartialEq, Eq)]
pub enum LoginAction {
    /// Generate a shared secret, then authenticate with the session server
    /// against the pending encryption request; hand the outcome back as an
    /// event.
    RunAuth,
    /// Reply with the encryption response for the encryption request at
    /// hand and install the cipher pair.
    SendEncryptionResponse,
    /// Refresh the access token, then authenticate once more against the
    /// pending encryption request.
    RefreshTokenAndRetryAuth,
    /// Install the compression threshold on the stream.
    InstallCompression { threshold: i32 },
    /// Answer a custom query with an empty payload.
    SendCustomQueryResponse { transaction_id: u32 },
    /// Login finished: surface the profile to the user.
    EmitInit { uuid: u128, name: String },
    /// The connection is over.
    Disconnect(DisconnectReason),
}

/// The connection-level state the login machine drives.
#[derive(Debug, Clone, PartialEq, Eq)]
pub struct LoginState {
    pub phase: ConnectionPhase,
    /// The installed compression threshold; none while uncompressed.
    pub compression_threshold: Option<i32>,
    pub encryption_installed: bool,
    /// The encryption request being authenticated against, if any.
    pub pending_encryption: Option<EncryptionRequestData>,
    /// Authentication attempts made so far; at most two.
    pub auth_attempts: u32,
    pub has_access_token: bool,
    /// Whether the protocol has a configuration phase; when it does not,
    /// the game profile moves the connection straight to the game phase.
    pub modern: bool,
}

impl LoginState {
    /// The state of a connection that has just sent its intention and its
    /// hello, at the crate's own protocol version.
    pub fn begin(has_access_token: bool) -> (r: LoginState)
        ensures
            r == (LoginState {
                phase: ConnectionPhase::Login,
                compression_threshold: None,
                encryption_installed: false,
                pending_encryption: None,
                auth_attempts: 0,
                has_access_token,
                modern: PROTOCOL_VERSION >= FIRST_CONFIGURATION_PROTOCOL_VERSION,
            }),
    {
        LoginState {
            phase: ConnectionPhase::Login,
            compression_threshold: None,
            encryption_installed: false,
            pending_encryption: None,
            auth_attempts: 0,
            has_access_token,
            modern: PROTOCOL_VERSION >= FIRST_CONFIGURATION_PROTOCOL_VERSION,
        }
    }
}

/// The next state and the actions owed after `event` arrives in `state`.
pub open spec fn spec_login_step(state: LoginState, event: LoginEvent) -> (
    LoginState,
    Seq<LoginAction>,
) {
    match event {
        LoginEvent::Packet(packet) => match packet {
            ClientboundLoginPacket::Hello(req) => {
                if state.has_access_token {
                    (
                        LoginState {
                            pending_encryption: Some(req),
                            auth_attempts: 1,
                            ..state
                        },
                        seq![LoginAction::RunAuth],
                    )
                } else {
                    (
                        LoginState { encryption_installed: true, ..state },
                        seq![LoginAction::SendEncryptionResponse],
                    )
                }
            },
            ClientboundLoginPacket::LoginCompression { compression_threshold } => {
                (
                    LoginState {
                        compression_threshold: if compression_threshold >= 0 {
                            Some(compression_threshold)
                        } else {
                            None
                        },
                        ..state
                    },
                    seq![],
                )
            },
            ClientboundLoginPacket::GameProfile { uuid, name } => {
                (
                    LoginState {
                        phase: if state.modern {
                            ConnectionPhase::Configuration
                        } else {
                            ConnectionPhase::Game
                        },
                        ..state
                    },
                    seq![LoginAction::EmitInit { uuid, name }],
                )
            },
            ClientboundLoginPacket::LoginDisconnect { reason } => {
                (
                    LoginState { phase: ConnectionPhase::Disconnected, ..state },
                    seq![LoginAction::Disconnect(DisconnectReason::ServerDisconnect { reason })],
                )
            },
            ClientboundLoginPacket::CustomQuery { transaction_id, data } => {
                (state, seq![LoginAction::SendCustomQueryResponse { transaction_id }])
            },
        },
        LoginEvent::AuthFinished(outcome) => match state.pending_encryption {
            None => (state, seq![]),
            Some(_) => match outcome {
                AuthOutcome::Succeeded => {
                    (
                        LoginState {
                            pending_encryption: None,
                            encryption_installed: true,
                            ..state
                        },
                        seq![LoginAction::SendEncryptionResponse],
                    )
                },
                AuthOutcome::InvalidSession | AuthOutcome::ForbiddenOperation => {
                    if state.auth_attempts < 2 {
                        (
                            LoginState { auth_attempts: (state.auth_attempts + 1) as u32, ..state },
                            seq![LoginAction::RefreshTokenAndRetryAuth],
                        )
                    } else {
                        (
                            LoginState {
                                phase: ConnectionPhase::Disconnected,
                                pending_encryption: None,
                                ..state
                            },
                            seq![LoginAction::Disconnect(DisconnectReason::AuthFailed)],
                        )
                    }
                },
                AuthOutcome::Other => {
                    (
                        LoginState {
                            phase: ConnectionPhase::Disconnected,
                            pending_encryption: None,
                            ..state
                        },
                        seq![LoginAction::Disconnect(DisconnectReason::AuthFailed)],
                    )
                },
            },
        },
    }
}

/// Drive the login machine one event forward.
pub fn login_step(state: &mut LoginState, event: LoginEvent) -> (actions: Vec<LoginAction>)
    requires
        old(state).phase == ConnectionPhase::Login,
        old(state).auth_attempts <= 2,
    ensures
        (*final(state), actions@) == spec_login_step(*old(state), event),
        final(state).auth_attempts <= 2,
{
    let mut actions: Vec<LoginAction> = Vec::new();
    match event {
        LoginEvent::Packet(packet) => match packet {
            ClientboundLoginPacket::Hello(req) => {
                if state.has_access_token {
                    state.pending_encryption = Some(req);
                    state.auth_attempts = 1;
                    actions.push(LoginAction::RunAuth);
                } else {
                    state.encryption_installed = true;
                    actions.push(LoginAction::SendEncryptionResponse);
                }
            },
            ClientboundLoginPacket::LoginCompression { compression_threshold } => {
                state.compression_threshold = if compression_threshold >= 0 {
                    Some(compression_threshold)
                } else {
                    None
                };
            },
            ClientboundLoginPacket::GameProfile { uuid, name } => {
                state.phase = if state.modern {
                    ConnectionPhase::Configuration
                } else {
                    ConnectionPhase::Game
                };
                actions.push(LoginAction::EmitInit { uuid, name });
            },
            ClientboundLoginPacket::LoginDisconnect { reason } => {
                state.phase = ConnectionPhase::Disconnected;
                actions.push(LoginAction::Disconnect(DisconnectReason::ServerDisconnect {
                    reason,
                }));
            },
            ClientboundLoginPacket::CustomQuery { transaction_id, data } => {
                actions.push(LoginAction::SendCustomQueryResponse { transaction_id });
            },
        },
        LoginEvent::AuthFinished(outcome) => {
            let pending = match &state.pending_encryption {
                Some(_) => true,
                None => false,
            };
            match pending {
                false => {},
                true => match outcome {
                    AuthOutcome::Succeeded => {
                        state.pending_encryption = None;
                        state.encryption_installed = true;
                        actions.push(LoginAction::SendEncryptionResponse);
                    },
                    AuthOutcome::InvalidSession | AuthOutcome::ForbiddenOperation => {
                        if state.auth_attempts < 2 {
                            state.auth_attempts = state.auth_attempts + 1;
                            actions.push(LoginAction::RefreshTokenAndRetryAuth);
                        } else {
                            state.phase = ConnectionPhase::Disconnected;
                            state.pending_encryption = None;
                            actions.push(LoginAction::Disconnect(DisconnectReason::AuthFailed));
                        }
                    },
                    AuthOutcome::Other => {
                        state.phase = ConnectionPhase::Disconnected;
                        state.pending_encryption = None;
                        actions.push(LoginAction::Disconnect(DisconnectReason::AuthFailed));
                    },
                },
            }
        },
    }
    proof {
        assert(actions@ =~= spec_login_step(*old(state), event).1);
    }
    actions
}

/// A login step never moves the phase backwards.
pub proof fn lemma_login_phase_monotonic(state: LoginState, event: LoginEvent)
    requires
        state.phase == ConnectionPhase::Login,
    ensures
        spec_phase_index(spec_login_step(state, event).0.phase)
            >= spec_phase_index(state.phase),
{
}

/// The state after a whole recorded sequence of events, first event
/// first; the machine only runs while the connection is in the login
/// phase.
pub open spec fn spec_login_run(state: LoginState, events: Seq<LoginEvent>) -> LoginState
    decreases events.len(),
{
    if events.len() == 0 || state.phase != ConnectionPhase::Login {
        state
    } else {
        spec_login_run(spec_login_step(state, events[0]).0, events.drop_first())
    }
}

/// Over any recorded sequence of events, the phase index never decreases:
/// the connection only moves forward through the phases.
pub proof fn lemma_login_run_phase_monotonic(state: LoginState, events: Seq<LoginEvent>)
    ensures
        spec_phase_index(spec_login_run(state, events).phase) >= spec_phase_index(
            state.phase),
    decreases events.len(),
{
    if events.len() > 0 && state.phase == ConnectionPhase::Login {
        let next = spec_login_step(state, events[0]).0;
        assert(spec_phase_index(next.phase) >= spec_phase_index(state.phase));
        lemma_login_run_phase_monotonic(next, events.drop_first());
    }
}

/// One named entry of a data registry, with its raw payload.
#[derive(Debug, Clone, PartialEq, Eq)]
pub struct PackedRegistryEntry {
    pub name: String,
    pub data: Option<Vec<u8>>,
}

/// A registry-data packet of the configuration phase: one registry and its
/// entries, in order.
#[derive(Debug, Clone, PartialEq, Eq)]
pub struct ClientboundRegistryDataPacket {
    pub registry_id: String,
    pub entries: Vec<PackedRegistryEntry>,
}

/// The registries the server sent so far, each under its name.
#[derive(Debug, Clone, PartialEq, Eq)]
pub struct RegistryHolder {
    pub registries: Vec<(String, Vec<PackedRegistryEntry>)>,
}

/// The first index among the registries whose name reads `name`.
pub open spec fn spec_registry_index(
    regs: Seq<(String, Vec<PackedRegistryEntry>)>,
    name: Seq<char>,
    i: int,
) -> Option<int>
    decreases regs.len() - i,
{
    if i < 0 || i >= regs.len() {
        None
    } else if regs[i].0@ == name {
        Some(i)
    } else {
        spec_registry_index(regs, name, i + 1)
    }
}

impl RegistryHolder {
    /// No registry name occurs twice.
    pub open spec fn wf(&self) -> bool {
        forall|i: int, j: int| 0 <= i < j < self.registries.len()
            ==> self.registries[i].0@ != self.registries[j].0@
    }

    pub fn new() -> (r: RegistryHolder)
        ensures
            r.registries@.len() == 0,
            r.wf(),
    {
        RegistryHolder { registries: Vec::new() }
    }

    /// Store a registry under its name, replacing an earlier one of the
    /// same name and keeping every other registry as it was.
    pub fn insert(&mut self, name: String, entries: Vec<PackedRegistryEntry>)
        requires
            old(self).wf(),
        ensures
            final(self).wf(),
            match spec_registry_index(old(self).registries@, name@, 0) {
                Some(i) => final(self).registries@
                    == old(self).registries@.update(i, (name, entries)),
                None => final(self).registries@
                    == old(self).registries@.push((name, entries)),
            },
    {
        let mut i: usize = 0;
        while i < self.registries.len()
            invariant
                i <= self.registries.len(),
                self == old(self),
                old(self).wf(),
                forall|k: int| 0 <= k < i ==> self.registries@[k].0@ != name@,
                spec_registry_index(old(self).registries@, name@, 0)
                    == spec_registry_index(old(self).registries@, name@, i as int),
            decreases self.registries.len() - i,
        {
            let matches_name = {
                let entry = &self.registries[i];
                entry.0.eq(&name)
            };
            if matches_name {
                self.registries.set(i, (name, entries));
                return;
            }
            i = i + 1;
        }
        self.registries.push((name, entries));
        proof {
            assert forall|a: int, b: int| 0 <= a < b < self.registries.len()
                implies self.registries[a].0@ != self.registries[b].0@ by {
                if b < self.registries.len() - 1 {
                } else {
                    assert(self.registries[a].0@ != name@);
                }
            }
        }
    }
}

/// A clientbound packet of the configuration phase.
#[derive(Debug, Clone, PartialEq, Eq)]
pub enum ClientboundConfigurationPacket {
    RegistryData(ClientboundRegistryDataPacket),
    CustomPayload { identifier: String, data: Vec<u8> },
    Disconnect { reason: String },
    FinishConfiguration,
    KeepAlive { id: u64 },
    Ping { id: u32 },
    ResourcePack { url: String },
    UpdateEnabledFeatures { features: Vec<String> },
    UpdateTags,
}

/// What the caller must do after a configuration step.
#[derive(Debug, Clone, PartialEq, Eq)]
pub enum ConfigAction {
    /// Answer the server's finish packet in kind; the connection then
    /// plays the game phase.
    SendFinishConfiguration,
    /// The connection is over.
    Disconnect(DisconnectReason),
}

/// The connection state during the configuration phase.
#[derive(Debug, Clone, PartialEq, Eq)]
pub struct ConfigurationState {
    pub phase: ConnectionPhase,
    pub registries: RegistryHolder,
}

/// Handle one configuration-phase packet: registry data is stored,
/// the server's finish packet is answered and moves the connection to the
/// game phase, a disconnect ends it, and everything else is ignored.
pub fn process_configuration_packet(
    state: &mut ConfigurationState,
    packet: ClientboundConfigurationPacket,
) -> (actions: Vec<ConfigAction>)
    requires
        old(state).phase == ConnectionPhase::Configuration,
        old(state).registries.wf(),
    ensures
        final(state).registries.wf(),
        spec_phase_index(final(state).phase) >= spec_phase_index(old(state).phase),
        match packet {
            ClientboundConfigurationPacket::RegistryData(p) => {
                &&& final(state).phase == old(state).phase
                &&& actions@ == Seq::<ConfigAction>::empty()
                &&& match spec_registry_index(old(state).registries.registries@,
                    p.registry_id@, 0) {
                    Some(i) => final(state).registries.registries@
                        == old(state).registries.registries@.update(i,
                            (p.registry_id, p.entries)),
                    None => final(state).registries.registries@
                        == old(state).registries.registries@.push(
                            (p.registry_id, p.entries)),
                }
            },
            ClientboundConfigurationPacket::FinishConfiguration => {
                &&& final(state).phase == ConnectionPhase::Game
                &&& final(state).registries == old(state).registries
                &&& actions@ == seq![ConfigAction::SendFinishConfiguration]
            },
            ClientboundConfigurationPacket::Disconnect { reason } => {
                &&& final(state).phase == ConnectionPhase::Disconnected
                &&& final(state).registries == old(state).registries
                &&& actions@ == seq![ConfigAction::Disconnect(
                    DisconnectReason::ServerDisconnect { reason })]
            },
            _ => *final(state) == *old(state) && actions@ == Seq::<ConfigAction>::empty(),
        },
{
    let mut actions: Vec<ConfigAction> = Vec::new();
    match packet {
        ClientboundConfigurationPacket::RegistryData(p) => {
            state.registries.insert(p.registry_id, p.entries);
        },
        ClientboundConfigurationPacket::FinishConfiguration => {
            state.phase = ConnectionPhase::Game;
            actions.push(ConfigAction::SendFinishConfiguration);
        },
        ClientboundConfigurationPacket::Disconnect { reason } => {
            state.phase = ConnectionPhase::Disconnected;
            actions.push(ConfigAction::Disconnect(DisconnectReason::ServerDisconnect {
                reason,
            }));
        },
        _ => {},
    }
    proof {
        if actions@.len() == 0 {
            assert(actions@ =~= Seq::<ConfigAction>::empty());
        }
    }
    actions
}

/// How much of chat a client wants to see.
#[derive(Debug, Clone, Copy, PartialEq, Eq, Structural)]
pub enum ChatVisibility {
    Full,
    System,
    Hidden,
}

/// Which arm the player model leads with.
#[derive(Debug, Clone, Copy, PartialEq, Eq, Structural)]
pub enum HumanoidArm {
    Left,
    Right,
}

/// The game options a client announces to the server.
#[derive(Debug, Clone, PartialEq, Eq)]
pub struct ClientInformation {
    pub locale: String,
    /// In chunks; the server accepts one to thirty-two.
    pub view_distance: u8,
    pub chat_visibility: ChatVisibility,
    pub chat_colors: bool,
    /// The skin-layer bit set.
    pub model_customization: u8,
    pub main_hand: HumanoidArm,
    pub text_filtering_enabled: bool,
    pub allows_listing: bool,
}

/// Client information the server would reject.
#[derive(Debug, Clone, Copy, PartialEq, Eq, Structural)]
pub enum ClientInformationError {
    ViewDistanceOutOfRange,
}

/// Check client information before it is sent: the view distance must be
/// between one and thirty-two chunks.
pub fn validate_client_information(info: &ClientInformation) -> (r: Result<
    (),
    ClientInformationError,
>)
    ensures
        r is Ok <==> 1 <= info.view_distance <= 32,
        r is Err ==> r->Err_0 == ClientInformationError::ViewDistanceOutOfRange,
{
    if info.view_distance < 1 || info.view_distance > 32 {
        Err(ClientInformationError::ViewDistanceOutOfRange)
    } else {
        Ok(())
    }
}

/// What the client sends on entering the configuration phase.
#[derive(Debug, Clone, PartialEq, Eq)]
pub enum ConfigurationEntryAction {
    /// A custom payload naming the client brand, which reads `vanilla`.
    SendBrand,
    /// The current client information.
    SendClientInformation(ClientInformation),
}

/// On entering the configuration phase the client announces its brand and
/// its client information, in that order, and nothing else.
pub fn configuration_entry_actions(info: ClientInformation) -> (actions: Vec<
    ConfigurationEntryAction,
>)
    ensures
        actions@ == seq![
            ConfigurationEntryAction::SendBrand,
            ConfigurationEntryAction::SendClientInformation(info),
        ],
{
    let mut actions: Vec<ConfigurationEntryAction> = Vec::new();
    actions.push(ConfigurationEntryAction::SendBrand);
    actions.push(ConfigurationEntryAction::SendClientInformation(info));
    proof {
        assert(actions@ =~= seq![
            ConfigurationEntryAction::SendBrand,
            ConfigurationEntryAction::SendClientInformation(info),
        ]);
    }
    actions
}

} // verus!
