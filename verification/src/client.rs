//! The client's session: choosing a role and a room, following what the
//! server reports, pending engineering intents, and which panels show.
use vstd::prelude::*;
use vstd::string::*;
use vstd::utf8::encode_utf8;
use crate::crew::{CrewRole, SystemId};
use crate::policy::{ActionKind, CommandKind};
use crate::protocol::{
    check_version, CommandId, LobbyCommand, LobbySnapshot, PlayerId, ProtocolError, RoomId, SessionId, PROTOCOL_VERSION,
};
use crate::room_code::{digit, digit_char, is_room_code, valid_room_code};
use crate::alerts::AlertKind;
use crate::submarine::{AcousticLevel, BallastState, PropulsionState, PropulsionSwitch, switch_on};
use crate::text::{pop_char, push_char};

verus! {

/// What the player asked to do: open a room, or join one by its code.
#[derive(Debug, Clone, PartialEq, Eq)]
pub enum RoomRequest {
    Create,
    Join(RoomId),
}

/// The local player: chosen role, typed room code, pending request and the
/// identity the server gave.
pub struct LocalPlayer {
    pub role: Option<CrewRole>,
    pub room_code: String,
    pub request: Option<RoomRequest>,
    pub session_id: Option<SessionId>,
    pub id: Option<PlayerId>,
    pub joined: bool,
    pub connection_started: bool,
}

impl Default for LocalPlayer {
    /// Nothing chosen, nothing joined.
    fn default() -> (r: Self)
        ensures
            r.role is None,
            r.room_code@ == Seq::<char>::empty(),
            r.request is None,
            r.session_id is None,
            r.id is None,
            !r.joined,
            !r.connection_started,
    {
        LocalPlayer {
            role: None,
            room_code: String::new(),
            request: None,
            session_id: None,
            id: None,
            joined: false,
            connection_started: false,
        }
    }
}

/// What the client knows of the game, apart from measured quantities.
pub struct GameState {
    pub lobby: Option<LobbySnapshot>,
    pub submarine: Option<SubmarineView>,
    pub snapshot_id: u64,
    pub server_tick: u64,
    pub game_started: bool,
    pub last_error: Option<ProtocolError>,
}

impl Default for GameState {
    /// No lobby, no snapshot, not started, no error.
    fn default() -> (r: Self)
        ensures
            r.lobby is None,
            r.submarine is None,
            r.snapshot_id == 0,
            r.server_tick == 0,
            !r.game_started,
            r.last_error is None,
    {
        GameState { lobby: None, submarine: None, snapshot_id: 0, server_tick: 0, game_started: false, last_error: None }
    }
}

/// The engineering part of a snapshot the client receives.
#[derive(Debug, Clone, Copy, PartialEq, Eq, Structural)]
pub struct EngineeringStatus {
    pub propulsion: PropulsionState,
    pub air_intake_available: bool,
}

/// The last snapshot of the boat, without its measured quantities: how loud
/// it is, the alarms raised, whether the pilot's measurements came with it,
/// and the engineer's switchboard when it came.
#[derive(Debug, Clone, PartialEq, Eq)]
pub struct SubmarineView {
    pub acoustic_level: AcousticLevel,
    pub alerts: Vec<AlertKind>,
    pub pilot: bool,
    pub engineering: Option<EngineeringStatus>,
}

/// A server message as far as the session reads it.
pub enum ServerNotice {
    SessionJoined { session_id: SessionId, player_id: PlayerId, room_id: RoomId, role: CrewRole },
    Lobby(LobbySnapshot),
    MissionStarted,
    Snapshot { snapshot_id: u64, tick: u64, submarine: SubmarineView },
    Event { tick: u64 },
    Error { command_id: Option<CommandId>, error: ProtocolError },
}

/// Numbers the commands a client sends, holds the mission and lobby
/// commands waiting to be sent, and remembers the switchboard settings it
/// asked for until a snapshot confirms them.
pub struct CommandQueue {
    pub mission: Vec<(CommandId, ActionKind)>,
    pub lobby: Vec<LobbyCommand>,
    pub next_id: u64,
    pub diesels_intent: Option<bool>,
    pub electric_motors_intent: Option<bool>,
    pub ventilation_intent: Option<bool>,
    pub charging_intent: Option<bool>,
}

/// `intent` forgotten once the server reports the same value.
pub open spec fn cleared(intent: Option<bool>, authoritative: bool) -> Option<bool> {
    if intent == Some(authoritative) { None } else { intent }
}

/// The intent recorded for `switch`.
pub open spec fn intent_of(q: CommandQueue, switch: PropulsionSwitch) -> Option<bool> {
    match switch {
        PropulsionSwitch::Diesels => q.diesels_intent,
        PropulsionSwitch::ElectricMotors => q.electric_motors_intent,
        PropulsionSwitch::Ventilation => q.ventilation_intent,
        PropulsionSwitch::Charging => q.charging_intent,
    }
}

/// The value `switch` is expected to have: the pending intent, else `fallback`.
pub open spec fn pending(q: CommandQueue, switch: PropulsionSwitch, fallback: bool) -> bool {
    match intent_of(q, switch) {
        Some(v) => v,
        None => fallback,
    }
}

/// The intents left once a snapshot reported `status`: those it confirms are
/// forgotten, and so are the diesels and ventilation intents when no air
/// comes in.
pub open spec fn reconciled(q: CommandQueue, status: EngineeringStatus) -> CommandQueue {
    CommandQueue {
        mission: q.mission,
        lobby: q.lobby,
        next_id: q.next_id,
        diesels_intent: cleared(
            if status.air_intake_available { q.diesels_intent } else { None },
            status.propulsion.diesels_on,
        ),
        electric_motors_intent: cleared(q.electric_motors_intent, status.propulsion.electric_motors_on),
        ventilation_intent: cleared(
            if status.air_intake_available { q.ventilation_intent } else { None },
            status.propulsion.ventilation_on,
        ),
        charging_intent: cleared(q.charging_intent, status.propulsion.charging),
    }
}

/// No intent pending.
pub open spec fn no_intents(q: CommandQueue) -> bool {
    &&& q.diesels_intent is None
    &&& q.electric_motors_intent is None
    &&& q.ventilation_intent is None
    &&& q.charging_intent is None
}

impl Default for CommandQueue {
    /// No command sent yet, no intent.
    fn default() -> (r: Self)
        ensures
            r.mission@ == Seq::<(CommandId, ActionKind)>::empty(),
            r.lobby@ == Seq::<LobbyCommand>::empty(),
            r.next_id == 0,
            no_intents(r),
    {
        CommandQueue {
            mission: Vec::new(),
            lobby: Vec::new(),
            next_id: 0,
            diesels_intent: None,
            electric_motors_intent: None,
            ventilation_intent: None,
            charging_intent: None,
        }
    }
}

fn clear_matching(intent: &mut Option<bool>, authoritative: bool)
    ensures
        *final(intent) == cleared(*old(intent), authoritative),
{
    if let Some(value) = *intent {
        if value == authoritative {
            *intent = None;
        }
    }
}

impl CommandQueue {
    /// The next command id: one more than the last, wrapping around.
    pub fn next_command_id(&mut self) -> (r: CommandId)
        ensures
            final(self).next_id == (if old(self).next_id == u64::MAX { 0 } else { (old(self).next_id + 1) as u64 }),
            r == CommandId(final(self).next_id),
            final(self).mission == old(self).mission,
            final(self).lobby == old(self).lobby,
            final(self).diesels_intent == old(self).diesels_intent,
            final(self).electric_motors_intent == old(self).electric_motors_intent,
            final(self).ventilation_intent == old(self).ventilation_intent,
            final(self).charging_intent == old(self).charging_intent,
    {
        self.next_id = self.next_id.wrapping_add(1);
        CommandId(self.next_id)
    }

    /// Numbers a player command and queues it, remembering a switchboard
    /// setting it asks
    /// for.
    pub fn push(&mut self, command: &CommandKind) -> (r: CommandId)
        ensures
            final(self).next_id == (if old(self).next_id == u64::MAX { 0 } else { (old(self).next_id + 1) as u64 }),
            r == CommandId(final(self).next_id),
            final(self).mission@ == old(self).mission@.push((r, ActionKind::Player(*command))),
            final(self).lobby == old(self).lobby,
            final(self).diesels_intent == (match *command { CommandKind::SetDiesels(v) => Some(v), _ => old(self).diesels_intent }),
            final(self).electric_motors_intent == (match *command { CommandKind::SetElectricMotors(v) => Some(v), _ => old(self).electric_motors_intent }),
            final(self).ventilation_intent == (match *command { CommandKind::SetVentilation(v) => Some(v), _ => old(self).ventilation_intent }),
            final(self).charging_intent == (match *command { CommandKind::SetBatteryCharging(v) => Some(v), _ => old(self).charging_intent }),
    {
        match command {
            CommandKind::SetDiesels(v) => self.diesels_intent = Some(*v),
            CommandKind::SetElectricMotors(v) => self.electric_motors_intent = Some(*v),
            CommandKind::SetVentilation(v) => self.ventilation_intent = Some(*v),
            CommandKind::SetBatteryCharging(v) => self.charging_intent = Some(*v),
            _ => {},
        }
        let id = self.next_command_id();
        self.mission.push((id, ActionKind::Player(*command)));
        id
    }

    /// Numbers an order to the pilot bot and queues it.
    pub fn order_pilot(&mut self) -> (r: CommandId)
        ensures
            final(self).next_id == (if old(self).next_id == u64::MAX { 0 } else { (old(self).next_id + 1) as u64 }),
            r == CommandId(final(self).next_id),
            final(self).mission@ == old(self).mission@.push((r, ActionKind::OrderPilotBot)),
            final(self).lobby == old(self).lobby,
            final(self).diesels_intent == old(self).diesels_intent,
            final(self).electric_motors_intent == old(self).electric_motors_intent,
            final(self).ventilation_intent == old(self).ventilation_intent,
            final(self).charging_intent == old(self).charging_intent,
    {
        let id = self.next_command_id();
        self.mission.push((id, ActionKind::OrderPilotBot));
        id
    }

    /// Takes the queued mission commands with their ids, in the order they
    /// were queued, leaving none queued.
    pub fn take_mission(&mut self) -> (r: Vec<(CommandId, ActionKind)>)
        ensures
            r@ == old(self).mission@,
            final(self).mission@ == Seq::<(CommandId, ActionKind)>::empty(),
            *final(self) == (CommandQueue { mission: final(self).mission, ..*old(self) }),
    {
        let mut taken: Vec<(CommandId, ActionKind)> = Vec::new();
        std::mem::swap(&mut taken, &mut self.mission);
        taken
    }

    /// The value `switch` is expected to have.
    pub fn pending_switch(&self, switch: PropulsionSwitch, fallback: bool) -> (r: bool)
        ensures
            r == pending(*self, switch, fallback),
    {
        let intent = match switch {
            PropulsionSwitch::Diesels => self.diesels_intent,
            PropulsionSwitch::ElectricMotors => self.electric_motors_intent,
            PropulsionSwitch::Ventilation => self.ventilation_intent,
            PropulsionSwitch::Charging => self.charging_intent,
        };
        match intent {
            Some(v) => v,
            None => fallback,
        }
    }

    /// The diesels setting expected.
    pub fn pending_diesels(&self, fallback: bool) -> (r: bool)
        ensures
            r == pending(*self, PropulsionSwitch::Diesels, fallback),
    {
        self.pending_switch(PropulsionSwitch::Diesels, fallback)
    }

    /// The electric motors setting expected.
    pub fn pending_electric_motors(&self, fallback: bool) -> (r: bool)
        ensures
            r == pending(*self, PropulsionSwitch::ElectricMotors, fallback),
    {
        self.pending_switch(PropulsionSwitch::ElectricMotors, fallback)
    }

    /// The ventilation setting expected.
    pub fn pending_ventilation(&self, fallback: bool) -> (r: bool)
        ensures
            r == pending(*self, PropulsionSwitch::Ventilation, fallback),
    {
        self.pending_switch(PropulsionSwitch::Ventilation, fallback)
    }

    /// The charging setting expected.
    pub fn pending_charging(&self, fallback: bool) -> (r: bool)
        ensures
            r == pending(*self, PropulsionSwitch::Charging, fallback),
    {
        self.pending_switch(PropulsionSwitch::Charging, fallback)
    }

    /// Forgets the intents a snapshot settled: those it confirms, and the
    /// diesels and ventilation intents when no air comes in.
    pub fn reconcile_engineering(&mut self, status: &EngineeringStatus)
        ensures
            *final(self) == reconciled(*old(self), *status),
    {
        if !status.air_intake_available {
            self.diesels_intent = None;
            self.ventilation_intent = None;
        }
        clear_matching(&mut self.diesels_intent, status.propulsion.diesels_on);
        clear_matching(&mut self.electric_motors_intent, status.propulsion.electric_motors_on);
        clear_matching(&mut self.ventilation_intent, status.propulsion.ventilation_on);
        clear_matching(&mut self.charging_intent, status.propulsion.charging);
    }

    /// Queues a lobby command to be sent.
    pub fn lobby(&mut self, command: LobbyCommand)
        ensures
            final(self).lobby@ == old(self).lobby@.push(command),
            *final(self) == (CommandQueue { lobby: final(self).lobby, ..*old(self) }),
    {
        self.lobby.push(command);
    }

    /// Takes the queued lobby commands, in the order they were queued,
    /// leaving none queued.
    pub fn take_lobby(&mut self) -> (r: Vec<LobbyCommand>)
        ensures
            r@ == old(self).lobby@,
            final(self).lobby@ == Seq::<LobbyCommand>::empty(),
            *final(self) == (CommandQueue { lobby: final(self).lobby, ..*old(self) }),
    {
        let mut taken: Vec<LobbyCommand> = Vec::new();
        std::mem::swap(&mut taken, &mut self.lobby);
        taken
    }

    /// Forgets every intent.
    pub fn clear_intents(&mut self)
        ensures
            final(self).next_id == old(self).next_id,
            final(self).mission == old(self).mission,
            final(self).lobby == old(self).lobby,
            no_intents(*final(self)),
    {
        self.diesels_intent = None;
        self.electric_motors_intent = None;
        self.ventilation_intent = None;
        self.charging_intent = None;
    }
}

/// The command an engineer's switch button sends: the opposite of the
/// setting expected.
pub fn engineer_command(switch: PropulsionSwitch, propulsion: &PropulsionState, commands: &CommandQueue) -> (r: CommandKind)
    ensures
        r == (match switch {
            PropulsionSwitch::Diesels => CommandKind::SetDiesels(!pending(*commands, switch, propulsion.diesels_on)),
            PropulsionSwitch::ElectricMotors => CommandKind::SetElectricMotors(!pending(*commands, switch, propulsion.electric_motors_on)),
            PropulsionSwitch::Ventilation => CommandKind::SetVentilation(!pending(*commands, switch, propulsion.ventilation_on)),
            PropulsionSwitch::Charging => CommandKind::SetBatteryCharging(!pending(*commands, switch, propulsion.charging)),
        }),
{
    let current = propulsion.is_on(switch);
    let wanted = !commands.pending_switch(switch, current);
    match switch {
        PropulsionSwitch::Diesels => CommandKind::SetDiesels(wanted),
        PropulsionSwitch::ElectricMotors => CommandKind::SetElectricMotors(wanted),
        PropulsionSwitch::Ventilation => CommandKind::SetVentilation(wanted),
        PropulsionSwitch::Charging => CommandKind::SetBatteryCharging(wanted),
    }
}

/// Whether an engineer's switch button shows as on.
pub fn engineer_control_active(switch: PropulsionSwitch, propulsion: &PropulsionState, commands: &CommandQueue) -> (r: bool)
    ensures
        r == pending(*commands, switch, switch_on(*propulsion, switch)),
{
    commands.pending_switch(switch, propulsion.is_on(switch))
}

/// Errors after which the player goes back to choosing a room.
pub open spec fn resets_request(error: ProtocolError) -> bool {
    match error {
        ProtocolError::RoomNotFound | ProtocolError::RoomAlreadyStarted | ProtocolError::RoleAlreadyTaken(_) => true,
        _ => false,
    }
}

/// Updates the session for a server message; returns whether it was a
/// snapshot newer than the last one, whose measurements then replace the
/// shown ones.
pub fn handle_server_message(notice: ServerNotice, player: &mut LocalPlayer, state: &mut GameState, commands: &mut CommandQueue) -> (r: bool)
    ensures
        final(state).snapshot_id >= old(state).snapshot_id,
        match notice {
            ServerNotice::SessionJoined { session_id, player_id, room_id, role } => {
                &&& !r
                &&& final(player).session_id == Some(session_id)
                &&& final(player).id == Some(player_id)
                &&& final(player).room_code@ == room_id.0@
                &&& final(player).role == Some(role)
                &&& final(player).request == old(player).request
                &&& final(player).joined == old(player).joined
                &&& final(player).connection_started == old(player).connection_started
                &&& *final(state) == *old(state)
                &&& no_intents(*final(commands)) && final(commands).next_id == old(commands).next_id
                    && final(commands).lobby == old(commands).lobby && final(commands).mission == old(commands).mission
            },
            ServerNotice::Lobby(lobby) => {
                &&& !r
                &&& *final(player) == *old(player)
                &&& final(state).lobby == Some(lobby)
                &&& final(state).submarine == old(state).submarine
                &&& final(state).snapshot_id == old(state).snapshot_id
                &&& final(state).server_tick == old(state).server_tick
                &&& final(state).game_started == old(state).game_started
                &&& final(state).last_error == old(state).last_error
                &&& *final(commands) == *old(commands)
            },
            ServerNotice::MissionStarted => {
                &&& !r
                &&& *final(player) == *old(player)
                &&& *final(state) == (GameState { game_started: true, ..*old(state) })
                &&& no_intents(*final(commands)) && final(commands).next_id == old(commands).next_id
                    && final(commands).lobby == old(commands).lobby && final(commands).mission == old(commands).mission
            },
            ServerNotice::Snapshot { snapshot_id, tick, submarine } => {
                &&& r == (snapshot_id > old(state).snapshot_id)
                &&& *final(player) == *old(player)
                &&& r ==> *final(state) == (GameState { snapshot_id, server_tick: tick, submarine: Some(submarine), ..*old(state) })
                &&& r ==> *final(commands) == match submarine.engineering {
                    Some(status) => reconciled(*old(commands), status),
                    None => *old(commands),
                }
                &&& !r ==> *final(state) == *old(state) && *final(commands) == *old(commands)
            },
            ServerNotice::Event { tick } => {
                &&& !r
                &&& *final(player) == *old(player)
                &&& *final(state) == (GameState {
                    server_tick: if tick > old(state).server_tick { tick } else { old(state).server_tick },
                    ..*old(state)
                })
                &&& *final(commands) == *old(commands)
            },
            ServerNotice::Error { error, .. } => {
                &&& !r
                &&& final(state).last_error == Some(error)
                &&& final(state).lobby == old(state).lobby
                &&& final(state).submarine == old(state).submarine
                &&& final(state).snapshot_id == old(state).snapshot_id
                &&& final(state).server_tick == old(state).server_tick
                &&& final(state).game_started == old(state).game_started
                &&& no_intents(*final(commands)) && final(commands).next_id == old(commands).next_id
                    && final(commands).lobby == old(commands).lobby && final(commands).mission == old(commands).mission
                &&& resets_request(error) ==> final(player).request is None && final(player).id is None && final(player).session_id is None
                &&& !resets_request(error) ==> final(player).request == old(player).request && final(player).id == old(player).id
                    && final(player).session_id == old(player).session_id
                &&& final(player).role == old(player).role
                &&& final(player).room_code == old(player).room_code
                &&& final(player).joined == old(player).joined
                &&& final(player).connection_started == old(player).connection_started
            },
        },
{
    match notice {
        ServerNotice::SessionJoined { session_id, player_id, room_id, role } => {
            player.session_id = Some(session_id);
            player.id = Some(player_id);
            player.room_code = room_id.0;
            player.role = Some(role);
            commands.clear_intents();
            false
        },
        ServerNotice::Lobby(lobby) => {
            state.lobby = Some(lobby);
            false
        },
        ServerNotice::MissionStarted => {
            state.game_started = true;
            commands.clear_intents();
            false
        },
        ServerNotice::Snapshot { snapshot_id, tick, submarine } => {
            if snapshot_id > state.snapshot_id {
                if let Some(status) = &submarine.engineering {
                    commands.reconcile_engineering(status);
                }
                state.submarine = Some(submarine);
                state.snapshot_id = snapshot_id;
                state.server_tick = tick;
                true
            } else {
                false
            }
        },
        ServerNotice::Event { tick } => {
            if tick > state.server_tick {
                state.server_tick = tick;
            }
            false
        },
        ServerNotice::Error { error, .. } => {
            commands.clear_intents();
            let reset = match error {
                ProtocolError::RoomNotFound | ProtocolError::RoomAlreadyStarted | ProtocolError::RoleAlreadyTaken(_) => true,
                _ => false,
            };
            if reset {
                player.request = None;
                player.id = None;
                player.session_id = None;
            }
            state.last_error = Some(error);
            false
        },
    }
}

/// The connection closed: the session is no longer joined nor running; a
/// player the server never admitted drops the request, and is told the
/// connection failed unless another error is already shown.
pub fn handle_connection_end(player: &mut LocalPlayer, state: &mut GameState)
    ensures
        !final(player).joined,
        !final(player).connection_started,
        !final(state).game_started,
        final(player).role == old(player).role,
        final(player).room_code == old(player).room_code,
        final(player).id == old(player).id,
        final(player).session_id == old(player).session_id,
        final(player).request == (if old(player).id is None { None } else { old(player).request }),
        final(state).last_error == (if old(player).id is None && old(state).last_error is None {
            Some(ProtocolError::ConnectionFailed)
        } else {
            old(state).last_error
        }),
        final(state).lobby == old(state).lobby,
        final(state).submarine == old(state).submarine,
        final(state).snapshot_id == old(state).snapshot_id,
        final(state).server_tick == old(state).server_tick,
{
    player.joined = false;
    player.connection_started = false;
    state.game_started = false;
    if player.id.is_none() {
        player.request = None;
        if state.last_error.is_none() {
            state.last_error = Some(ProtocolError::ConnectionFailed);
        }
    }
}

/// The two setup buttons.
#[derive(Debug, Clone, Copy, PartialEq, Eq, Structural)]
pub enum SetupAction {
    Create,
    Join,
}

/// The keys of the room-code keypad.
#[derive(Debug, Clone, Copy, PartialEq, Eq, Structural)]
pub enum CodeKey {
    Digit(char),
    Delete,
}

/// Picks a role on the selector and clears the shown error.
pub fn choose_role(player: &mut LocalPlayer, state: &mut GameState, role: CrewRole)
    ensures
        *final(player) == (LocalPlayer { role: Some(role), ..*old(player) }),
        *final(state) == (GameState { last_error: None, ..*old(state) }),
{
    player.role = Some(role);
    state.last_error = None;
}

/// A setup button was pressed: without a role it is refused; `Create` asks
/// for a new room; `Join` asks to join the typed code when it is six digits
/// and otherwise reports an invalid code.
pub fn press_setup(player: &mut LocalPlayer, state: &mut GameState, action: SetupAction)
    ensures
        old(player).role is None ==> *final(player) == *old(player)
            && *final(state) == (GameState { last_error: Some(ProtocolError::CommandNotAllowedForRole), ..*old(state) }),
        old(player).role is Some ==> {
            &&& final(player).role == old(player).role
            &&& final(player).room_code == old(player).room_code
            &&& final(player).id == old(player).id
            &&& final(player).session_id == old(player).session_id
            &&& final(player).joined == old(player).joined
            &&& final(player).connection_started == old(player).connection_started
            &&& final(state).lobby == old(state).lobby
            &&& final(state).game_started == old(state).game_started
            &&& match action {
                SetupAction::Create => final(player).request == Some(RoomRequest::Create) && final(state).last_error is None,
                SetupAction::Join => if is_room_code(old(player).room_code@) {
                    &&& final(player).request matches Some(RoomRequest::Join(code)) && code.0@ == old(player).room_code@
                    &&& final(state).last_error is None
                } else {
                    final(player).request is None && final(state).last_error == Some(ProtocolError::InvalidRoomCode)
                },
            }
        },
{
    if player.role.is_none() {
        state.last_error = Some(ProtocolError::CommandNotAllowedForRole);
    } else {
        state.last_error = None;
        player.request = match action {
            SetupAction::Create => Some(RoomRequest::Create),
            SetupAction::Join => {
                if valid_room_code(player.room_code.as_str()) {
                    Some(RoomRequest::Join(RoomId(player.room_code.clone())))
                } else {
                    state.last_error = Some(ProtocolError::InvalidRoomCode);
                    None
                }
            },
        };
    }
}

/// A keypad key was pressed while no request is pending: a digit is added
/// while the code is shorter than six bytes, delete removes the last
/// character; either clears the shown error. With a request pending the key
/// is ignored.
pub fn press_code_key(player: &mut LocalPlayer, state: &mut GameState, key: CodeKey)
    ensures
        final(player).role == old(player).role,
        final(player).request == old(player).request,
        final(player).id == old(player).id,
        old(player).request is Some ==> *final(player) == *old(player) && *final(state) == *old(state),
        old(player).request is None ==> match key {
            CodeKey::Digit(d) => if (encode_utf8(old(player).room_code@).len() as usize) < 6 {
                final(player).room_code@ == old(player).room_code@.push(d) && final(state).last_error is None
            } else {
                final(player).room_code == old(player).room_code && *final(state) == *old(state)
            },
            CodeKey::Delete => final(player).room_code@ == (if old(player).room_code@.len() == 0 {
                old(player).room_code@
            } else {
                old(player).room_code@.drop_last()
            }) && final(state).last_error is None,
        },
        final(state).game_started == old(state).game_started,
{
    if player.request.is_some() {
        return;
    }
    match key {
        CodeKey::Digit(digit) => {
            if player.room_code.as_str().len() < 6 {
                push_char(&mut player.room_code, digit);
                state.last_error = None;
            }
        },
        CodeKey::Delete => {
            pop_char(&mut player.room_code);
            state.last_error = None;
        },
    }
}

/// The role selector shows until the server admitted the player.
pub fn selector_visible(player: &LocalPlayer) -> (r: bool)
    ensures
        r == player.id is None,
{
    player.id.is_none()
}

/// The lobby buttons.
#[derive(Debug, Clone, Copy, PartialEq, Eq, Structural)]
pub enum LobbyAction {
    Ready,
    Start,
    OrderPilot,
}

/// Lobby buttons show once admitted; the pilot-order button only to the
/// captain.
pub fn lobby_action_visible(player: &LocalPlayer, action: LobbyAction) -> (r: bool)
    ensures
        r == (player.id is Some && (action != LobbyAction::OrderPilot || player.role == Some(CrewRole::Captain))),
{
    let is_captain = match player.role {
        Some(CrewRole::Captain) => true,
        _ => false,
    };
    player.id.is_some() && (!matches!(action, LobbyAction::OrderPilot) || is_captain)
}

/// The pilot's panel shows to an admitted pilot while the mission runs.
pub fn pilot_panel_visible(player: &LocalPlayer, game_started: bool) -> (r: bool)
    ensures
        r == (player.role == Some(CrewRole::Pilot) && player.id is Some && game_started),
{
    let is_pilot = match player.role {
        Some(CrewRole::Pilot) => true,
        _ => false,
    };
    is_pilot && player.id.is_some() && game_started
}

/// The engineer's panel shows to an admitted engineer while the mission runs.
pub fn engineer_panel_visible(player: &LocalPlayer, game_started: bool) -> (r: bool)
    ensures
        r == (player.role == Some(CrewRole::Engineer) && player.id is Some && game_started),
{
    let is_engineer = match player.role {
        Some(CrewRole::Engineer) => true,
        _ => false,
    };
    is_engineer && player.id.is_some() && game_started
}

/// What pressing a lobby button does: the ready and start buttons queue
/// their lobby command; the pilot-order button numbers and queues an order
/// to the pilot bot, only while the mission runs, and returns its id.
pub fn press_lobby_action(action: LobbyAction, game_started: bool, commands: &mut CommandQueue) -> (r: Option<CommandId>)
    ensures
        match action {
            LobbyAction::Ready => r is None
                && *final(commands) == (CommandQueue {
                    lobby: final(commands).lobby,
                    ..*old(commands)
                })
                && final(commands).lobby@ == old(commands).lobby@.push(LobbyCommand::SetReady { ready: true }),
            LobbyAction::Start => r is None
                && *final(commands) == (CommandQueue {
                    lobby: final(commands).lobby,
                    ..*old(commands)
                })
                && final(commands).lobby@ == old(commands).lobby@.push(LobbyCommand::StartMission),
            LobbyAction::OrderPilot => if game_started {
                &&& r == Some(CommandId(final(commands).next_id))
                &&& *final(commands) == (CommandQueue {
                    next_id: if old(commands).next_id == u64::MAX { 0 } else { (old(commands).next_id + 1) as u64 },
                    mission: final(commands).mission,
                    ..*old(commands)
                })
                &&& final(commands).mission@ == old(commands).mission@.push((CommandId(final(commands).next_id), ActionKind::OrderPilotBot))
            } else {
                r is None && *final(commands) == *old(commands)
            },
        },
{
    match action {
        LobbyAction::Ready => {
            commands.lobby(LobbyCommand::SetReady { ready: true });
            None
        },
        LobbyAction::Start => {
            commands.lobby(LobbyCommand::StartMission);
            None
        },
        LobbyAction::OrderPilot => {
            if game_started {
                Some(commands.order_pilot())
            } else {
                None
            }
        },
    }
}

/// The keys pressed during one frame.
#[derive(Debug, Clone, Copy, PartialEq, Eq, Structural)]
pub struct KeysPressed {
    pub arrow_left: bool,
    pub arrow_right: bool,
    pub arrow_up: bool,
    pub arrow_down: bool,
    pub page_up: bool,
    pub page_down: bool,
    pub space: bool,
    pub digit1: bool,
    pub digit2: bool,
    pub digit3: bool,
    pub digit4: bool,
    pub digit5: bool,
}

/// A step of the pilot's keyboard controls, each moving an ordered value by
/// a fixed amount: five degrees of heading, one knot, ten metres of depth.
#[derive(Debug, Clone, Copy, PartialEq, Eq, Structural)]
pub enum PilotStep {
    TurnPort,
    TurnStarboard,
    SpeedUp,
    SlowDown,
    Deeper,
    Shallower,
}

/// What a key press asks for: a pilot step, whose value comes from the
/// ordered one, or a command.
#[derive(Debug, Clone, Copy, PartialEq, Eq, Structural)]
pub enum KeyCommand {
    Pilot(PilotStep),
    Player(CommandKind),
}

/// The keyboard controls of each station. The captain has none. The pilot,
/// once pilot measurements arrived, turns with the left and right arrows,
/// changes speed with up and down, and dives with page down and rises with
/// page up. The sonar pings with space. The engineer, once the switchboard
/// is known, toggles the diesels, the electric motors, the ventilation and
/// the charging with the digits one to four (each away from the setting
/// expected) and repairs the engine with five. The weapons officer fires
/// with space once a snapshot arrived. The first matching key in that order
/// wins.
pub open spec fn key_command(role: CrewRole, keys: KeysPressed, submarine: Option<SubmarineView>, q: CommandQueue) -> Option<KeyCommand> {
    match role {
        CrewRole::Captain => None,
        CrewRole::Pilot => match submarine {
            Some(parts) if parts.pilot => {
                if keys.arrow_left {
                    Some(KeyCommand::Pilot(PilotStep::TurnPort))
                } else if keys.arrow_right {
                    Some(KeyCommand::Pilot(PilotStep::TurnStarboard))
                } else if keys.arrow_up {
                    Some(KeyCommand::Pilot(PilotStep::SpeedUp))
                } else if keys.arrow_down {
                    Some(KeyCommand::Pilot(PilotStep::SlowDown))
                } else if keys.page_down {
                    Some(KeyCommand::Pilot(PilotStep::Deeper))
                } else if keys.page_up {
                    Some(KeyCommand::Pilot(PilotStep::Shallower))
                } else {
                    None
                }
            },
            _ => None,
        },
        CrewRole::Sonar => if keys.space { Some(KeyCommand::Player(CommandKind::SonarPing)) } else { None },
        CrewRole::Engineer => match submarine {
            Some(parts) => match parts.engineering {
                Some(status) => {
                    let p = status.propulsion;
                    if keys.digit1 {
                        Some(KeyCommand::Player(CommandKind::SetDiesels(!pending(q, PropulsionSwitch::Diesels, p.diesels_on))))
                    } else if keys.digit2 {
                        Some(KeyCommand::Player(CommandKind::SetElectricMotors(!pending(q, PropulsionSwitch::ElectricMotors, p.electric_motors_on))))
                    } else if keys.digit3 {
                        Some(KeyCommand::Player(CommandKind::SetVentilation(!pending(q, PropulsionSwitch::Ventilation, p.ventilation_on))))
                    } else if keys.digit4 {
                        Some(KeyCommand::Player(CommandKind::SetBatteryCharging(!pending(q, PropulsionSwitch::Charging, p.charging))))
                    } else if keys.digit5 {
                        Some(KeyCommand::Player(CommandKind::RepairSystem(SystemId::Engine)))
                    } else {
                        None
                    }
                },
                None => None,
            },
            None => None,
        },
        CrewRole::Weapons => if submarine is Some && keys.space {
            Some(KeyCommand::Player(CommandKind::FireTorpedo))
        } else {
            None
        },
    }
}

/// The command the keys pressed this frame give for `role`.
pub fn command_for_input(role: CrewRole, keys: &KeysPressed, submarine: Option<&SubmarineView>, commands: &CommandQueue) -> (r: Option<KeyCommand>)
    ensures
        r == key_command(role, *keys, match submarine { Some(v) => Some(*v), None => None }, *commands),
        role == CrewRole::Pilot && (submarine matches Some(v) && v.pilot) ==> {
            &&& keys.arrow_left ==> r == Some(KeyCommand::Pilot(PilotStep::TurnPort))
            &&& !keys.arrow_left && keys.arrow_right ==> r == Some(KeyCommand::Pilot(PilotStep::TurnStarboard))
            &&& !keys.arrow_left && !keys.arrow_right && keys.arrow_up ==> r == Some(KeyCommand::Pilot(PilotStep::SpeedUp))
            &&& !keys.arrow_left && !keys.arrow_right && !keys.arrow_up && keys.arrow_down
                ==> r == Some(KeyCommand::Pilot(PilotStep::SlowDown))
        },
{
    match role {
        CrewRole::Captain => None,
        CrewRole::Pilot => {
            let has_pilot = match submarine {
                Some(parts) => parts.pilot,
                None => false,
            };
            if !has_pilot {
                None
            } else if keys.arrow_left {
                Some(KeyCommand::Pilot(PilotStep::TurnPort))
            } else if keys.arrow_right {
                Some(KeyCommand::Pilot(PilotStep::TurnStarboard))
            } else if keys.arrow_up {
                Some(KeyCommand::Pilot(PilotStep::SpeedUp))
            } else if keys.arrow_down {
                Some(KeyCommand::Pilot(PilotStep::SlowDown))
            } else if keys.page_down {
                Some(KeyCommand::Pilot(PilotStep::Deeper))
            } else if keys.page_up {
                Some(KeyCommand::Pilot(PilotStep::Shallower))
            } else {
                None
            }
        },
        CrewRole::Sonar => {
            if keys.space {
                Some(KeyCommand::Player(CommandKind::SonarPing))
            } else {
                None
            }
        },
        CrewRole::Engineer => {
            let propulsion = match submarine {
                Some(parts) => match &parts.engineering {
                    Some(status) => status.propulsion,
                    None => return None,
                },
                None => return None,
            };
            if keys.digit1 {
                Some(KeyCommand::Player(engineer_command(PropulsionSwitch::Diesels, &propulsion, commands)))
            } else if keys.digit2 {
                Some(KeyCommand::Player(engineer_command(PropulsionSwitch::ElectricMotors, &propulsion, commands)))
            } else if keys.digit3 {
                Some(KeyCommand::Player(engineer_command(PropulsionSwitch::Ventilation, &propulsion, commands)))
            } else if keys.digit4 {
                Some(KeyCommand::Player(engineer_command(PropulsionSwitch::Charging, &propulsion, commands)))
            } else if keys.digit5 {
                Some(KeyCommand::Player(CommandKind::RepairSystem(SystemId::Engine)))
            } else {
                None
            }
        },
        CrewRole::Weapons => {
            if submarine.is_some() && keys.space {
                Some(KeyCommand::Player(CommandKind::FireTorpedo))
            } else {
                None
            }
        },
    }
}

/// The keyboard is read only while the mission runs and a role is chosen.
pub fn keyboard_command(player: &LocalPlayer, game_started: bool, keys: &KeysPressed, submarine: Option<&SubmarineView>, commands: &CommandQueue) -> (r: Option<KeyCommand>)
    ensures
        r == (match player.role {
            Some(role) if game_started => key_command(role, *keys, match submarine { Some(v) => Some(*v), None => None }, *commands),
            _ => None,
        }),
{
    if !game_started {
        return None;
    }
    match player.role {
        Some(role) => command_for_input(role, keys, submarine, commands),
        None => None,
    }
}

/// The panels of the client's screen.
#[derive(Debug, Clone, Copy, PartialEq, Eq, Structural)]
pub enum Panel {
    Hud,
    Selector,
    Pilot,
    Engineer,
    Lobby(LobbyAction),
}

/// Which panels show. The role selector shows until the server admitted the
/// player, everything else only after: the head-up display always, the
/// pilot's and the engineer's panels to their station while the mission
/// runs, the ready and start buttons until it runs, and the pilot-order
/// button to the captain while it runs.
pub open spec fn panel_shown(player: LocalPlayer, game_started: bool, panel: Panel) -> bool {
    match panel {
        Panel::Hud => player.id is Some,
        Panel::Selector => player.id is None,
        Panel::Pilot => player.role == Some(CrewRole::Pilot) && player.id is Some && game_started,
        Panel::Engineer => player.role == Some(CrewRole::Engineer) && player.id is Some && game_started,
        Panel::Lobby(action) => player.id is Some && match action {
            LobbyAction::Ready | LobbyAction::Start => !game_started,
            LobbyAction::OrderPilot => game_started && player.role == Some(CrewRole::Captain),
        },
    }
}

/// Whether `panel` shows.
pub fn panel_visible(player: &LocalPlayer, game_started: bool, panel: Panel) -> (r: bool)
    ensures
        r == panel_shown(*player, game_started, panel),
{
    let admitted = player.id.is_some();
    let is_captain = match player.role {
        Some(CrewRole::Captain) => true,
        _ => false,
    };
    match panel {
        Panel::Hud => admitted,
        Panel::Selector => !admitted,
        Panel::Pilot => pilot_panel_visible(player, game_started),
        Panel::Engineer => engineer_panel_visible(player, game_started),
        Panel::Lobby(action) => admitted && match action {
            LobbyAction::Ready | LobbyAction::Start => !game_started,
            LobbyAction::OrderPilot => game_started && is_captain,
        },
    }
}

/// Until the server admitted the player, the role selector is the only
/// panel showing.
pub proof fn lemma_only_selector_before_admission(player: LocalPlayer, game_started: bool, panel: Panel)
    requires
        player.id is None,
    ensures
        panel_shown(player, game_started, panel) <==> panel == Panel::Selector,
{
}

/// The first digit key pressed, in the order zero to nine, from `i` on.
pub open spec fn first_pressed(digits: Seq<bool>, i: nat) -> Option<nat>
    decreases 10 - i,
{
    if i >= 10 {
        None
    } else if digits[i as int] {
        Some(i)
    } else {
        first_pressed(digits, i + 1)
    }
}

/// The code after one frame of typing with no request pending: backspace
/// removes the last character; then, while the code is shorter than six
/// bytes, the first digit key pressed is added.
pub open spec fn typed_code(code: Seq<char>, backspace: bool, digits: Seq<bool>) -> Seq<char> {
    let kept = if backspace && code.len() > 0 { code.drop_last() } else { code };
    if (encode_utf8(kept).len() as usize) >= 6 {
        kept
    } else {
        match first_pressed(digits, 0) {
            Some(d) => kept.push(digit_char(d)),
            None => kept,
        }
    }
}

/// Whether a frame of typing touched the code (and so clears the error).
pub open spec fn typing_acts(code: Seq<char>, backspace: bool, digits: Seq<bool>) -> bool {
    let kept = if backspace && code.len() > 0 { code.drop_last() } else { code };
    backspace || ((encode_utf8(kept).len() as usize) < 6 && first_pressed(digits, 0) is Some)
}

/// Typing the room code on the keyboard; ignored while a request is pending.
pub fn type_room_code(player: &mut LocalPlayer, state: &mut GameState, backspace: bool, digits: &[bool; 10])
    ensures
        old(player).request is Some ==> *final(player) == *old(player) && *final(state) == *old(state),
        old(player).request is None ==> {
            &&& final(player).room_code@ == typed_code(old(player).room_code@, backspace, digits@)
            &&& final(state).last_error == (if typing_acts(old(player).room_code@, backspace, digits@) {
                None
            } else {
                old(state).last_error
            })
        },
        final(player).role == old(player).role,
        final(player).request == old(player).request,
        final(player).id == old(player).id,
        final(player).session_id == old(player).session_id,
        final(player).joined == old(player).joined,
        final(player).connection_started == old(player).connection_started,
        final(state).lobby == old(state).lobby,
        final(state).submarine == old(state).submarine,
        final(state).snapshot_id == old(state).snapshot_id,
        final(state).server_tick == old(state).server_tick,
        final(state).game_started == old(state).game_started,
{
    if player.request.is_some() {
        return;
    }
    if backspace {
        pop_char(&mut player.room_code);
        state.last_error = None;
    }
    if player.room_code.as_str().len() >= 6 {
        return;
    }
    if let Some(d) = first_digit(digits) {
        push_char(&mut player.room_code, digit(d as u64));
        state.last_error = None;
    }
}

/// The first digit key pressed, in the order zero to nine.
fn first_digit(digits: &[bool; 10]) -> (r: Option<usize>)
    ensures
        match r {
            Some(i) => i < 10 && first_pressed(digits@, 0) == Some(i as nat),
            None => first_pressed(digits@, 0) is None,
        },
{
    let mut i: usize = 0;
    while i < 10
        invariant
            i <= 10,
            digits@.len() == 10,
            first_pressed(digits@, 0) == first_pressed(digits@, i as nat),
        decreases 10 - i,
    {
        if digits[i] {
            return Some(i);
        }
        i += 1;
    }
    None
}

/// The player at start-up: a role given by the environment asks at once
/// for a new room.
pub fn initial_player(role: Option<CrewRole>) -> (r: LocalPlayer)
    ensures
        r.role == role,
        r.request == (if role is Some { Some(RoomRequest::Create) } else { None }),
        r.room_code@ == Seq::<char>::empty(),
        r.session_id is None,
        r.id is None,
        !r.joined,
        !r.connection_started,
{
    let mut player = LocalPlayer::default();
    player.role = role;
    if role.is_some() {
        player.request = Some(RoomRequest::Create);
    }
    player
}

/// What the connection manager does in a frame.
#[derive(Debug, Clone, Copy, PartialEq, Eq, Structural)]
pub enum ConnectionStep {
    /// Nothing to connect for: close any connection.
    Close,
    /// A connection that was not started by this session: drop it.
    Drop,
    /// The connection is open or being opened.
    Keep,
    /// Open a connection.
    Connect,
}

/// A connection is wanted once a role is chosen and a room requested.
pub open spec fn connection_step_of(player: LocalPlayer, has_connection: bool) -> ConnectionStep {
    if !(player.role is Some && player.request is Some) {
        ConnectionStep::Close
    } else if has_connection && !player.connection_started {
        ConnectionStep::Drop
    } else if has_connection || player.connection_started {
        ConnectionStep::Keep
    } else {
        ConnectionStep::Connect
    }
}

/// Decides the connection manager's step and records it: closing forgets
/// that a connection was started and joined, connecting records that one
/// is being started.
pub fn manage_connection(player: &mut LocalPlayer, has_connection: bool) -> (r: ConnectionStep)
    ensures
        r == connection_step_of(*old(player), has_connection),
        r == ConnectionStep::Close ==> *final(player) == (LocalPlayer { connection_started: false, joined: false, ..*old(player) }),
        r == ConnectionStep::Connect ==> *final(player) == (LocalPlayer { connection_started: true, ..*old(player) }),
        (r == ConnectionStep::Drop || r == ConnectionStep::Keep) ==> *final(player) == *old(player),
{
    if !(player.role.is_some() && player.request.is_some()) {
        player.connection_started = false;
        player.joined = false;
        ConnectionStep::Close
    } else if has_connection && !player.connection_started {
        ConnectionStep::Drop
    } else if has_connection || player.connection_started {
        ConnectionStep::Keep
    } else {
        player.connection_started = true;
        ConnectionStep::Connect
    }
}

/// Opening the connection failed: the request is dropped and the failure
/// shown.
pub fn connection_failed(player: &mut LocalPlayer, state: &mut GameState)
    ensures
        *final(player) == (LocalPlayer { connection_started: false, request: None, ..*old(player) }),
        final(state).last_error == Some(ProtocolError::ConnectionFailed),
        final(state).lobby == old(state).lobby,
        final(state).submarine == old(state).submarine,
        final(state).snapshot_id == old(state).snapshot_id,
        final(state).server_tick == old(state).server_tick,
        final(state).game_started == old(state).game_started,
{
    player.connection_started = false;
    player.request = None;
    state.last_error = Some(ProtocolError::ConnectionFailed);
}

/// The connection opened: unless the session already joined, the chosen
/// request is sent as the first lobby command (creating a room, or joining
/// the one requested, at the chosen role), and the session counts as joined.
pub fn socket_opened(player: &mut LocalPlayer) -> (r: Option<LobbyCommand>)
    ensures
        match (old(player).joined, old(player).role, old(player).request) {
            (false, Some(role), Some(request)) => {
                &&& r == Some(match request {
                    RoomRequest::Create => LobbyCommand::CreateRoom { role },
                    RoomRequest::Join(room_id) => LobbyCommand::JoinRoom { room_id, role },
                })
                &&& *final(player) == (LocalPlayer { joined: true, ..*old(player) })
            },
            _ => r is None && *final(player) == *old(player),
        },
{
    if player.joined {
        return None;
    }
    let role = match player.role {
        Some(role) => role,
        None => return None,
    };
    let command = match &player.request {
        Some(RoomRequest::Create) => LobbyCommand::CreateRoom { role },
        Some(RoomRequest::Join(room_id)) => LobbyCommand::JoinRoom { room_id: RoomId(room_id.0.clone()), role },
        None => return None,
    };
    player.joined = true;
    Some(command)
}

/// A server message in envelope `version` is read only when the version
/// matches; otherwise the mismatch is shown.
pub fn accept_server_version(state: &mut GameState, version: u16) -> (r: bool)
    ensures
        r == (version == PROTOCOL_VERSION),
        r ==> *final(state) == *old(state),
        !r ==> *final(state) == (GameState {
            last_error: Some(ProtocolError::IncompatibleVersion { expected: PROTOCOL_VERSION, received: version }),
            ..*old(state)
        }),
{
    match check_version(version) {
        Ok(()) => true,
        Err(e) => {
            state.last_error = Some(e);
            false
        },
    }
}

/// Where the page was loaded from, as far as the server's address is
/// derived from it: the scheme (such as `https:`), the host name and the
/// port, each when the browser gave it.
#[derive(Debug, Clone, PartialEq, Eq)]
pub struct PageLocation {
    pub protocol: Option<String>,
    pub hostname: Option<String>,
    pub port: Option<String>,
}

/// The server's WebSocket address: secure when the page is, on the page's
/// host (else the local host), on port 3000 when the page is served on the
/// development port 8080, on the page's own port otherwise; the local
/// development address without a page.
pub open spec fn websocket_url_of(location: Option<PageLocation>) -> Seq<char> {
    match location {
        None => "ws://127.0.0.1:3000/ws"@,
        Some(loc) => {
            let scheme = if loc.protocol matches Some(p) && p@ == "https:"@ { "wss"@ } else { "ws"@ };
            let host = match loc.hostname {
                Some(h) => h@,
                None => "127.0.0.1"@,
            };
            let port = match loc.port {
                Some(p) => if p@ == "8080"@ {
                    ":3000"@
                } else if p@.len() == 0 {
                    Seq::empty()
                } else {
                    ":"@ + p@
                },
                None => Seq::empty(),
            };
            scheme + "://"@ + host + port + "/ws"@
        },
    }
}

/// The server's WebSocket address for a page at `location`.
pub fn websocket_url(location: Option<&PageLocation>) -> (r: String)
    ensures
        r@ == websocket_url_of(match location { Some(l) => Some(*l), None => None }),
{
    let loc = match location {
        None => return String::from_str("ws://127.0.0.1:3000/ws"),
        Some(loc) => loc,
    };
    let secure = match &loc.protocol {
        Some(p) => *p == String::from_str("https:"),
        None => false,
    };
    let mut url = String::from_str(if secure { "wss" } else { "ws" });
    url.append("://");
    match &loc.hostname {
        Some(h) => url.append(h.as_str()),
        None => url.append("127.0.0.1"),
    }
    match &loc.port {
        Some(p) => {
            if *p == String::from_str("8080") {
                url.append(":3000");
            } else if !p.as_str().is_empty() {
                url.append(":");
                url.append(p.as_str());
            }
        },
        None => {},
    }
    url.append("/ws");
    assert(url@ =~= websocket_url_of(Some(*loc)));
    url
}

/// The pilot's ballast and emergency buttons.
#[derive(Debug, Clone, Copy, PartialEq, Eq, Structural)]
pub enum PilotAction {
    Ballast(BallastState),
    EmergencySurface,
}

/// The command a pilot's ballast or emergency button sends, only while the
/// mission runs.
pub fn pilot_action_command(action: PilotAction, game_started: bool) -> (r: Option<CommandKind>)
    ensures
        r == (if game_started {
            Some(match action {
                PilotAction::Ballast(b) => CommandKind::SetBallast(b),
                PilotAction::EmergencySurface => CommandKind::EmergencySurface,
            })
        } else {
            None
        }),
{
    if !game_started {
        return None;
    }
    Some(match action {
        PilotAction::Ballast(b) => CommandKind::SetBallast(b),
        PilotAction::EmergencySurface => CommandKind::EmergencySurface,
    })
}

/// The switchboard the last snapshot reported, if it carried one.
pub open spec fn reported_board(state: GameState) -> Option<PropulsionState> {
    match state.submarine {
        Some(view) => match view.engineering {
            Some(status) => Some(status.propulsion),
            None => None,
        },
        None => None,
    }
}

/// Whether an engineer's switch button is lit: the switchboard is known and
/// the switch is expected on.
pub fn engineer_button_lit(switch: PropulsionSwitch, state: &GameState, commands: &CommandQueue) -> (r: bool)
    ensures
        r == match reported_board(*state) {
            Some(p) => pending(*commands, switch, switch_on(p, switch)),
            None => false,
        },
{
    match &state.submarine {
        Some(view) => match &view.engineering {
            Some(status) => engineer_control_active(switch, &status.propulsion, commands),
            None => false,
        },
        None => false,
    }
}

/// Pressing an engineer's switch button while the mission runs and the
/// switchboard is known sends the opposite of the setting expected, numbered
/// and remembered as an intent; otherwise nothing is sent.
pub fn press_engineer_control(switch: PropulsionSwitch, state: &GameState, commands: &mut CommandQueue) -> (r: Option<(CommandKind, CommandId)>)
    ensures
        match reported_board(*state) {
            Some(p) if state.game_started => {
                let command = match switch {
                    PropulsionSwitch::Diesels => CommandKind::SetDiesels(!pending(*old(commands), switch, p.diesels_on)),
                    PropulsionSwitch::ElectricMotors => CommandKind::SetElectricMotors(!pending(*old(commands), switch, p.electric_motors_on)),
                    PropulsionSwitch::Ventilation => CommandKind::SetVentilation(!pending(*old(commands), switch, p.ventilation_on)),
                    PropulsionSwitch::Charging => CommandKind::SetBatteryCharging(!pending(*old(commands), switch, p.charging)),
                };
                &&& r == Some((command, CommandId(final(commands).next_id)))
                &&& final(commands).next_id == (if old(commands).next_id == u64::MAX { 0 } else { (old(commands).next_id + 1) as u64 })
                &&& final(commands).lobby == old(commands).lobby
                &&& final(commands).mission@ == old(commands).mission@.push((CommandId(final(commands).next_id), ActionKind::Player(command)))
                &&& intent_of(*final(commands), switch) == Some(!pending(*old(commands), switch, switch_on(p, switch)))
                &&& forall|other: PropulsionSwitch| other != switch ==> #[trigger] intent_of(*final(commands), other) == intent_of(*old(commands), other)
            },
            _ => r is None && *final(commands) == *old(commands),
        },
{
    if !state.game_started {
        return None;
    }
    let propulsion = match &state.submarine {
        Some(view) => match &view.engineering {
            Some(status) => status.propulsion,
            None => return None,
        },
        None => return None,
    };
    let command = engineer_command(switch, &propulsion, commands);
    let id = commands.push(&command);
    Some((command, id))
}

/// The keyboard's table, whatever else is pressed. The captain has no key.
/// A pilot with pilot measurements turns to port with the left arrow and to
/// starboard with the right one, speeds up with the up arrow and slows down
/// with the down one, dives with page down and rises with page up, earlier
/// keys in that list winning; without pilot measurements no key acts. The
/// sonar pings with space. The engineer, once the switchboard is known,
/// toggles the diesels, motors, ventilation and charging with the digits one
/// to four, each away from the setting expected (the pending intent, else the
/// reported one), and repairs the engine with five. The weapons officer fires
/// with space once a snapshot arrived.
pub proof fn lemma_keyboard_table(role: CrewRole, keys: KeysPressed, sub: Option<SubmarineView>, q: CommandQueue)
    ensures
        ({
            let r = key_command(role, keys, sub, q);
            let pilot_view = sub matches Some(v) && v.pilot;
            &&& role == CrewRole::Captain ==> r is None
            &&& role == CrewRole::Pilot && !pilot_view ==> r is None
            &&& role == CrewRole::Pilot && pilot_view ==> {
                &&& keys.arrow_left ==> r == Some(KeyCommand::Pilot(PilotStep::TurnPort))
                &&& !keys.arrow_left && keys.arrow_right ==> r == Some(KeyCommand::Pilot(PilotStep::TurnStarboard))
                &&& !keys.arrow_left && !keys.arrow_right && keys.arrow_up ==> r == Some(KeyCommand::Pilot(PilotStep::SpeedUp))
                &&& !keys.arrow_left && !keys.arrow_right && !keys.arrow_up && keys.arrow_down
                    ==> r == Some(KeyCommand::Pilot(PilotStep::SlowDown))
                &&& !keys.arrow_left && !keys.arrow_right && !keys.arrow_up && !keys.arrow_down && keys.page_down
                    ==> r == Some(KeyCommand::Pilot(PilotStep::Deeper))
                &&& !keys.arrow_left && !keys.arrow_right && !keys.arrow_up && !keys.arrow_down && !keys.page_down
                    && keys.page_up ==> r == Some(KeyCommand::Pilot(PilotStep::Shallower))
                &&& !keys.arrow_left && !keys.arrow_right && !keys.arrow_up && !keys.arrow_down && !keys.page_down
                    && !keys.page_up ==> r is None
            }
            &&& role == CrewRole::Sonar ==> r == (if keys.space { Some(KeyCommand::Player(CommandKind::SonarPing)) } else { None })
            &&& role == CrewRole::Weapons ==> r == (if sub is Some && keys.space {
                Some(KeyCommand::Player(CommandKind::FireTorpedo))
            } else {
                None
            })
            &&& role == CrewRole::Engineer ==> match sub {
                Some(v) => match v.engineering {
                    Some(status) => {
                        let b = status.propulsion;
                        &&& keys.digit1 ==> r == Some(KeyCommand::Player(CommandKind::SetDiesels(
                            !(match q.diesels_intent { Some(x) => x, None => b.diesels_on }))))
                        &&& !keys.digit1 && keys.digit2 ==> r == Some(KeyCommand::Player(CommandKind::SetElectricMotors(
                            !(match q.electric_motors_intent { Some(x) => x, None => b.electric_motors_on }))))
                        &&& !keys.digit1 && !keys.digit2 && keys.digit3 ==> r == Some(KeyCommand::Player(CommandKind::SetVentilation(
                            !(match q.ventilation_intent { Some(x) => x, None => b.ventilation_on }))))
                        &&& !keys.digit1 && !keys.digit2 && !keys.digit3 && keys.digit4 ==> r == Some(KeyCommand::Player(
                            CommandKind::SetBatteryCharging(!(match q.charging_intent { Some(x) => x, None => b.charging }))))
                        &&& !keys.digit1 && !keys.digit2 && !keys.digit3 && !keys.digit4 && keys.digit5
                            ==> r == Some(KeyCommand::Player(CommandKind::RepairSystem(SystemId::Engine)))
                        &&& !keys.digit1 && !keys.digit2 && !keys.digit3 && !keys.digit4 && !keys.digit5 ==> r is None
                    },
                    None => r is None,
                },
                None => r is None,
            }
        }),
{
}

} // verus!
