//! Which station may give which order during a mission.
use vstd::prelude::*;
use crate::crew::{role_index, CrewRole, SystemId};
use crate::protocol::{PlayerId, ProtocolError, TrackId};
use crate::submarine::BallastState;

verus! {

/// A player's command as far as the rules read it: what it orders, with
/// every argument that is not a measurement.
#[derive(Debug, Clone, Copy, PartialEq, Eq, Structural)]
pub enum CommandKind {
    SetHeading,
    SetDepth,
    SetSpeed,
    SetBallast(BallastState),
    EmergencySurface,
    SetDiesels(bool),
    SetElectricMotors(bool),
    SetVentilation(bool),
    SetBatteryCharging(bool),
    FireTorpedo,
    RepairSystem(SystemId),
    SonarPing,
    MergeTracks { primary: TrackId, secondary: TrackId },
    SetTrackShared { track_id: TrackId, shared: bool },
    DropTrack(TrackId),
}

/// What a mission command asks of the room.
#[derive(Debug, Clone, Copy, PartialEq, Eq, Structural)]
pub enum ActionKind {
    Player(CommandKind),
    OrderPilotBot,
}

/// The pilot steers (heading, depth, speed, ballast, emergency surfacing),
/// the sonar pings and merges, shares and drops its tracks, the engineer
/// repairs and works the switchboard, the weapons officer fires; nobody else
/// gives these orders.
pub open spec fn allowed(role: CrewRole, command: CommandKind) -> bool {
    match role {
        CrewRole::Pilot => match command {
            CommandKind::SetHeading | CommandKind::SetDepth | CommandKind::SetSpeed
            | CommandKind::SetBallast(_) | CommandKind::EmergencySurface => true,
            _ => false,
        },
        CrewRole::Sonar => match command {
            CommandKind::SonarPing | CommandKind::MergeTracks { .. } | CommandKind::SetTrackShared { .. }
            | CommandKind::DropTrack(_) => true,
            _ => false,
        },
        CrewRole::Engineer => match command {
            CommandKind::RepairSystem(_) | CommandKind::SetDiesels(_) | CommandKind::SetElectricMotors(_)
            | CommandKind::SetVentilation(_) | CommandKind::SetBatteryCharging(_) => true,
            _ => false,
        },
        CrewRole::Weapons => command == CommandKind::FireTorpedo,
        CrewRole::Captain => false,
    }
}

/// Whether `role` may give `command`.
pub fn command_allowed_for_role(role: CrewRole, command: &CommandKind) -> (r: bool)
    ensures
        r == allowed(role, *command),
        r == (role == station_of(*command)),
{
    match role {
        CrewRole::Pilot => match command {
            CommandKind::SetHeading | CommandKind::SetDepth | CommandKind::SetSpeed
            | CommandKind::SetBallast(_) | CommandKind::EmergencySurface => true,
            _ => false,
        },
        CrewRole::Sonar => match command {
            CommandKind::SonarPing | CommandKind::MergeTracks { .. } | CommandKind::SetTrackShared { .. }
            | CommandKind::DropTrack(_) => true,
            _ => false,
        },
        CrewRole::Engineer => match command {
            CommandKind::RepairSystem(_) | CommandKind::SetDiesels(_) | CommandKind::SetElectricMotors(_)
            | CommandKind::SetVentilation(_) | CommandKind::SetBatteryCharging(_) => true,
            _ => false,
        },
        CrewRole::Weapons => match command {
            CommandKind::FireTorpedo => true,
            _ => false,
        },
        CrewRole::Captain => false,
    }
}

/// A set of roles, such as the roles held by humans in a running mission.
pub struct CrewSet {
    held: [bool; 5],
}

impl View for CrewSet {
    type V = Set<CrewRole>;

    closed spec fn view(&self) -> Set<CrewRole> {
        Set::new(|r: CrewRole| self.held@[role_index(r)])
    }
}

impl CrewSet {
    /// The roles held by the players of `roster`.
    pub fn from_roster(roster: &Vec<(PlayerId, CrewRole)>) -> (r: CrewSet)
        ensures
            forall|role: CrewRole| r@.contains(role) <==> exists|k: int| 0 <= k < roster@.len() && (#[trigger] roster@[k]).1 == role,
    {
        let mut held = [false, false, false, false, false];
        let mut k: usize = 0;
        while k < roster.len()
            invariant
                k <= roster@.len(),
                held@.len() == 5,
                forall|role: CrewRole| held@[role_index(role)] <==> exists|x: int| 0 <= x < k && (#[trigger] roster@[x]).1 == role,
            decreases roster.len() - k,
        {
            let role = roster[k].1;
            let idx: usize = match role {
                CrewRole::Captain => 0,
                CrewRole::Pilot => 1,
                CrewRole::Sonar => 2,
                CrewRole::Engineer => 3,
                CrewRole::Weapons => 4,
            };
            held[idx] = true;
            proof {
                assert forall|r: CrewRole| held@[role_index(r)] <==> exists|x: int| 0 <= x < k + 1 && (#[trigger] roster@[x]).1 == r by {
                    if r == role {
                        assert(roster@[k as int].1 == r);
                    } else {
                        assert(role_index(r) != role_index(role));
                        if exists|x: int| 0 <= x < k + 1 && (#[trigger] roster@[x]).1 == r {
                            let x = choose|x: int| 0 <= x < k + 1 && (#[trigger] roster@[x]).1 == r;
                            assert(x != k);
                        }
                    }
                }
            }
            k = k + 1;
        }
        CrewSet { held }
    }

    /// Whether `role` is in the set.
    pub fn contains(&self, role: CrewRole) -> (r: bool)
        ensures
            r == self@.contains(role),
    {
        match role {
            CrewRole::Captain => self.held[0],
            CrewRole::Pilot => self.held[1],
            CrewRole::Sonar => self.held[2],
            CrewRole::Engineer => self.held[3],
            CrewRole::Weapons => self.held[4],
        }
    }
}

/// The answer a running mission gives to `action` from a player at `role`:
/// a player command passes when the role may give it; only the captain
/// orders the pilot bot, and only while no human pilots.
pub open spec fn authorization(role: CrewRole, action: ActionKind, humans: Set<CrewRole>) -> Result<(), ProtocolError> {
    match action {
        ActionKind::Player(command) => if allowed(role, command) {
            Ok(())
        } else {
            Err(ProtocolError::CommandNotAllowedForRole)
        },
        ActionKind::OrderPilotBot => if role != CrewRole::Captain {
            Err(ProtocolError::CommandNotAllowedForRole)
        } else if humans.contains(CrewRole::Pilot) {
            Err(ProtocolError::PilotControlledByHuman)
        } else {
            Ok(())
        },
    }
}

/// Decides whether a mission command from a player at `role` is applied.
pub fn authorize(role: CrewRole, action: &ActionKind, humans: &CrewSet) -> (r: Result<(), ProtocolError>)
    ensures
        r == authorization(role, *action, humans@),
{
    match action {
        ActionKind::Player(command) => {
            if command_allowed_for_role(role, command) {
                Ok(())
            } else {
                Err(ProtocolError::CommandNotAllowedForRole)
            }
        },
        ActionKind::OrderPilotBot => {
            if role != CrewRole::Captain {
                Err(ProtocolError::CommandNotAllowedForRole)
            } else if humans.contains(CrewRole::Pilot) {
                Err(ProtocolError::PilotControlledByHuman)
            } else {
                Ok(())
            }
        },
    }
}

/// Which station-specific measurements a station's snapshot carries, beside
/// the ones every station gets.
#[derive(Debug, Clone, Copy, PartialEq, Eq, Structural)]
pub struct Projection {
    pub pilot: bool,
    pub engineering: bool,
}

/// Only the pilot is sent the pilot's measurements, only the engineer the
/// engineer's.
pub fn projection_for(role: CrewRole) -> (r: Projection)
    ensures
        r.pilot == (role == CrewRole::Pilot),
        r.engineering == (role == CrewRole::Engineer),
{
    Projection {
        pilot: match role {
            CrewRole::Pilot => true,
            _ => false,
        },
        engineering: match role {
            CrewRole::Engineer => true,
            _ => false,
        },
    }
}

/// The engineer's station is run by a bot when no human holds it.
pub fn engineer_automated(humans: &CrewSet) -> (r: bool)
    ensures
        r == !humans@.contains(CrewRole::Engineer),
{
    !humans.contains(CrewRole::Engineer)
}

/// The station that gives each order: the pilot steers, the sonar pings
/// and manages its tracks, the engineer repairs and works the switchboard,
/// the weapons officer fires. The captain gives none of them.
pub open spec fn station_of(command: CommandKind) -> CrewRole {
    match command {
        CommandKind::SetHeading | CommandKind::SetDepth | CommandKind::SetSpeed | CommandKind::SetBallast(_)
        | CommandKind::EmergencySurface => CrewRole::Pilot,
        CommandKind::SonarPing | CommandKind::MergeTracks { .. } | CommandKind::SetTrackShared { .. }
        | CommandKind::DropTrack(_) => CrewRole::Sonar,
        CommandKind::RepairSystem(_) | CommandKind::SetDiesels(_) | CommandKind::SetElectricMotors(_)
        | CommandKind::SetVentilation(_) | CommandKind::SetBatteryCharging(_) => CrewRole::Engineer,
        CommandKind::FireTorpedo => CrewRole::Weapons,
    }
}

/// Every order is allowed to exactly one station, the one that gives it:
/// each steering order (heading, depth, speed, ballast, emergency surfacing)
/// to exactly the pilot, pinging and every track command to exactly the
/// sonar, repairs and every switch to exactly the engineer, firing to
/// exactly the weapons officer; the captain is allowed none.
pub proof fn lemma_station_orders(role: CrewRole, command: CommandKind, ballast: BallastState, system: SystemId, on: bool, a: TrackId, b: TrackId)
    ensures
        allowed(role, command) <==> role == station_of(command),
        !allowed(CrewRole::Captain, command),
        allowed(role, CommandKind::SetHeading) <==> role == CrewRole::Pilot,
        allowed(role, CommandKind::SetDepth) <==> role == CrewRole::Pilot,
        allowed(role, CommandKind::SetSpeed) <==> role == CrewRole::Pilot,
        allowed(role, CommandKind::SetBallast(ballast)) <==> role == CrewRole::Pilot,
        allowed(role, CommandKind::EmergencySurface) <==> role == CrewRole::Pilot,
        allowed(role, CommandKind::SonarPing) <==> role == CrewRole::Sonar,
        allowed(role, CommandKind::MergeTracks { primary: a, secondary: b }) <==> role == CrewRole::Sonar,
        allowed(role, CommandKind::SetTrackShared { track_id: a, shared: on }) <==> role == CrewRole::Sonar,
        allowed(role, CommandKind::DropTrack(a)) <==> role == CrewRole::Sonar,
        allowed(role, CommandKind::RepairSystem(system)) <==> role == CrewRole::Engineer,
        allowed(role, CommandKind::SetDiesels(on)) <==> role == CrewRole::Engineer,
        allowed(role, CommandKind::SetElectricMotors(on)) <==> role == CrewRole::Engineer,
        allowed(role, CommandKind::SetVentilation(on)) <==> role == CrewRole::Engineer,
        allowed(role, CommandKind::SetBatteryCharging(on)) <==> role == CrewRole::Engineer,
        allowed(role, CommandKind::FireTorpedo) <==> role == CrewRole::Weapons,
{
}

/// No two stations share an order: a command allowed to one role is refused
/// to every other.
pub proof fn lemma_orders_belong_to_one_station(a: CrewRole, b: CrewRole, command: CommandKind)
    requires
        allowed(a, command),
        allowed(b, command),
    ensures
        a == b,
{
}

/// The captain gives no player command, and a bot order is never applied
/// over a human pilot.
pub proof fn lemma_captain_and_pilot_bot(command: CommandKind, role: CrewRole, humans: Set<CrewRole>)
    ensures
        !allowed(CrewRole::Captain, command),
        humans.contains(CrewRole::Pilot) ==> authorization(role, ActionKind::OrderPilotBot, humans) is Err,
{
}

} // verus!
