//! Identifiers, lobby commands and snapshots, and the errors of the wire
//! protocol.
use vstd::prelude::*;
use crate::crew::CrewRole;

verus! {

/// Version carried by every message envelope.
pub const PROTOCOL_VERSION: u16 = 3;

/// Six-digit room code.
#[derive(Debug, Clone, PartialEq, Eq, Hash)]
pub struct RoomId(pub String);

/// Identifies one connection to the server.
#[derive(Debug, Clone, Copy, PartialEq, Eq, Hash, Structural)]
pub struct SessionId(pub u64);

/// Identifies a player inside the server.
#[derive(Debug, Clone, Copy, PartialEq, Eq, Hash, Structural)]
pub struct PlayerId(pub u64);

/// Identifies a command sent by a client, echoed back in errors.
#[derive(Debug, Clone, Copy, PartialEq, Eq, Hash, Structural)]
pub struct CommandId(pub u64);

/// Identifies a sonar observation.
#[derive(Debug, Clone, Copy, PartialEq, Eq, Hash, Structural)]
pub struct ObservationId(pub u64);

/// Identifies a sonar track.
#[derive(Debug, Clone, Copy, PartialEq, Eq, Hash, Structural)]
pub struct TrackId(pub u64);

/// What the server answers when it refuses a request.
#[derive(Debug, Clone, PartialEq, Eq, Structural)]
pub enum ProtocolError {
    IncompatibleVersion { expected: u16, received: u16 },
    RoomNotFound,
    RoomAlreadyStarted,
    RoleAlreadyTaken(CrewRole),
    CommandNotAllowedForRole,
    GameNotStarted,
    PilotControlledByHuman,
    InvalidRoomCode,
    ConnectionFailed,
    TrackNotFound(TrackId),
    InvalidTrackMerge,
    SonarPingCoolingDown,
}

/// Commands a client sends while in the lobby.
#[derive(Debug, Clone, PartialEq, Eq)]
pub enum LobbyCommand {
    CreateRoom { role: CrewRole },
    JoinRoom { room_id: RoomId, role: CrewRole },
    SetReady { ready: bool },
    StartMission,
}

/// Whether a room still gathers its crew or runs its mission.
#[derive(Debug, Clone, Copy, PartialEq, Eq, Structural)]
pub enum LobbyPhase {
    Waiting,
    Running,
}

/// Who holds a station: a human player or a bot.
#[derive(Debug, Clone, PartialEq, Eq, Structural)]
pub enum RoleOccupant {
    Human { player_id: PlayerId, ready: bool },
    Bot,
}

/// One station of a room and its occupant.
#[derive(Debug, Clone, PartialEq, Eq, Structural)]
pub struct RoleSlot {
    pub role: CrewRole,
    pub occupant: RoleOccupant,
}

/// What every member of a room sees of the lobby.
#[derive(Debug, Clone, PartialEq, Eq)]
pub struct LobbySnapshot {
    pub room_id: RoomId,
    pub phase: LobbyPhase,
    pub slots: Vec<RoleSlot>,
}

/// Accepts an envelope version equal to `PROTOCOL_VERSION`; any other is
/// refused with both versions named.
pub fn check_version(received: u16) -> (r: Result<(), ProtocolError>)
    ensures
        received == PROTOCOL_VERSION ==> r == Ok::<(), ProtocolError>(()),
        received != PROTOCOL_VERSION ==> r == Err::<(), ProtocolError>(
            ProtocolError::IncompatibleVersion { expected: PROTOCOL_VERSION, received },
        ),
{
    if received == PROTOCOL_VERSION {
        Ok(())
    } else {
        Err(ProtocolError::IncompatibleVersion { expected: PROTOCOL_VERSION, received })
    }
}

} // verus!
