use submarine::crew::{CrewRole, SystemId};
use submarine::policy::{
    authorize, command_allowed_for_role, engineer_automated, projection_for, ActionKind, CommandKind, CrewSet,
};
use submarine::protocol::{PlayerId, ProtocolError, TrackId};
use submarine::submarine::BallastState;

#[test]
fn allows_commands_for_their_assigned_roles() {
    assert!(command_allowed_for_role(
        CrewRole::Pilot,
        &CommandKind::SetHeading
    ));
    assert!(command_allowed_for_role(
        CrewRole::Sonar,
        &CommandKind::SonarPing
    ));
    assert!(!command_allowed_for_role(
        CrewRole::Captain,
        &CommandKind::SetHeading
    ));
}

#[test]
fn role_policy_covers_m2_commands() {
    assert!(command_allowed_for_role(
        CrewRole::Pilot,
        &CommandKind::SetBallast(BallastState::Flood)
    ));
    assert!(command_allowed_for_role(
        CrewRole::Pilot,
        &CommandKind::EmergencySurface
    ));
    assert!(command_allowed_for_role(
        CrewRole::Engineer,
        &CommandKind::SetDiesels(true)
    ));
    assert!(command_allowed_for_role(
        CrewRole::Engineer,
        &CommandKind::SetBatteryCharging(true)
    ));
    assert!(!command_allowed_for_role(
        CrewRole::Pilot,
        &CommandKind::SetDiesels(true)
    ));
    assert!(!command_allowed_for_role(
        CrewRole::Engineer,
        &CommandKind::SetDepth
    ));
}

#[test]
fn pilot_bot_order_is_blocked_when_pilot_is_human() {
    let humans = CrewSet::from_roster(&vec![
        (PlayerId(1), CrewRole::Captain),
        (PlayerId(2), CrewRole::Pilot),
    ]);
    assert_eq!(
        authorize(CrewRole::Captain, &ActionKind::OrderPilotBot, &humans),
        Err(ProtocolError::PilotControlledByHuman)
    );
}

#[test]
fn captain_orders_the_pilot_bot_when_no_human_pilots() {
    let humans = CrewSet::from_roster(&vec![(PlayerId(1), CrewRole::Captain)]);
    assert!(humans.contains(CrewRole::Captain));
    assert!(!humans.contains(CrewRole::Pilot));
    assert_eq!(
        authorize(CrewRole::Captain, &ActionKind::OrderPilotBot, &humans),
        Ok(())
    );
    assert_eq!(
        authorize(CrewRole::Sonar, &ActionKind::OrderPilotBot, &humans),
        Err(ProtocolError::CommandNotAllowedForRole)
    );
}

#[test]
fn each_order_belongs_to_one_station() {
    let commands = [
        CommandKind::SetHeading,
        CommandKind::SetSpeed,
        CommandKind::SetVentilation(false),
        CommandKind::SetElectricMotors(true),
        CommandKind::FireTorpedo,
        CommandKind::RepairSystem(SystemId::Life),
        CommandKind::SonarPing,
        CommandKind::MergeTracks { primary: TrackId(1), secondary: TrackId(2) },
        CommandKind::SetTrackShared { track_id: TrackId(1), shared: true },
        CommandKind::DropTrack(TrackId(3)),
    ];
    let expected = [
        Some(CrewRole::Pilot),
        Some(CrewRole::Pilot),
        Some(CrewRole::Engineer),
        Some(CrewRole::Engineer),
        Some(CrewRole::Weapons),
        Some(CrewRole::Engineer),
        Some(CrewRole::Sonar),
        Some(CrewRole::Sonar),
        Some(CrewRole::Sonar),
        Some(CrewRole::Sonar),
    ];
    for (command, owner) in commands.iter().zip(expected) {
        for role in CrewRole::all() {
            assert_eq!(
                command_allowed_for_role(role, command),
                Some(role) == owner,
                "{role:?} {command:?}"
            );
        }
    }
    let nobody = CrewSet::from_roster(&vec![]);
    assert_eq!(
        authorize(CrewRole::Weapons, &ActionKind::Player(CommandKind::FireTorpedo), &nobody),
        Ok(())
    );
    assert_eq!(
        authorize(CrewRole::Weapons, &ActionKind::Player(CommandKind::SonarPing), &nobody),
        Err(ProtocolError::CommandNotAllowedForRole)
    );
}

#[test]
fn projections_only_include_role_specific_measurements() {
    let pilot = projection_for(CrewRole::Pilot);
    let engineer = projection_for(CrewRole::Engineer);
    let sonar = projection_for(CrewRole::Sonar);
    assert!(pilot.pilot);
    assert!(!pilot.engineering);
    assert!(!engineer.pilot);
    assert!(engineer.engineering);
    assert!(!sonar.pilot);
    assert!(!sonar.engineering);
}

#[test]
fn the_engineer_bot_runs_only_without_a_human_engineer() {
    let alone = CrewSet::from_roster(&vec![(PlayerId(1), CrewRole::Captain)]);
    assert!(engineer_automated(&alone));
    let crewed = CrewSet::from_roster(&vec![(PlayerId(1), CrewRole::Captain), (PlayerId(2), CrewRole::Engineer)]);
    assert!(!engineer_automated(&crewed));
}
