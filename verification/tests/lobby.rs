use submarine::crew::CrewRole;
use submarine::lobby::{LobbyOutcome, RoomRegistry};
use submarine::protocol::{
    check_version, LobbyCommand, LobbyPhase, PlayerId, ProtocolError, RoleOccupant, RoomId,
    SessionId, PROTOCOL_VERSION,
};
use submarine::room_code::{room_code, valid_room_code};

type Registry = RoomRegistry<u32, u32>;

fn channel() -> u32 {
    0
}

#[test]
fn roles_are_unique_within_a_room() {
    let mut registry = Registry::new();
    let (room_id, _, _) = registry.create_room(CrewRole::Captain, channel());

    assert!(matches!(
        registry.join_room(&room_id, CrewRole::Captain, channel()),
        Err(ProtocolError::RoleAlreadyTaken(CrewRole::Captain))
    ));
    assert!(registry
        .join_room(&room_id, CrewRole::Pilot, channel())
        .is_ok());
}

#[test]
fn rejects_malformed_room_codes_before_lookup() {
    let mut registry = Registry::new();

    for code in ["11", "00000A", "0000001"] {
        assert_eq!(
            registry.join_room(&RoomId(code.to_owned()), CrewRole::Pilot, channel()),
            Err(ProtocolError::InvalidRoomCode)
        );
    }
}

#[test]
fn solo_start_fills_four_roles_with_bots() {
    let mut registry = Registry::new();
    let (room_id, _, _) = registry.create_room(CrewRole::Captain, channel());

    registry.start_room(&room_id, 7).unwrap();
    let snapshot = registry.snapshot(&room_id).unwrap();

    assert_eq!(snapshot.phase, LobbyPhase::Running);
    assert_eq!(
        snapshot
            .slots
            .iter()
            .filter(|slot| matches!(slot.occupant, RoleOccupant::Bot))
            .count(),
        4
    );
}

#[test]
fn rooms_keep_independent_members_and_seeds() {
    let mut registry = Registry::new();
    let (first, _, _) = registry.create_room(CrewRole::Captain, channel());
    let (second, _, _) = registry.create_room(CrewRole::Captain, channel());
    registry
        .join_room(&first, CrewRole::Pilot, channel())
        .unwrap();

    assert_eq!(registry.player_count(&first), Some(2));
    assert_eq!(registry.player_count(&second), Some(1));
    assert_ne!(registry.room_seed(&first), registry.room_seed(&second));
}

#[test]
fn session_and_player_ids_are_distinct_opaque_values() {
    let mut registry = Registry::new();
    let (room_id, first_session, first_player) =
        registry.create_room(CrewRole::Captain, channel());
    let (second_session, second_player) = registry
        .join_room(&room_id, CrewRole::Pilot, channel())
        .unwrap();

    assert_ne!(first_session, second_session);
    assert_ne!(first_player, second_player);
    assert_eq!(registry.player_count(&room_id), Some(2));
}

#[test]
fn room_codes_are_zero_padded_room_numbers() {
    assert_eq!(room_code(1).0, "000001");
    assert_eq!(room_code(0).0, "000000");
    assert_eq!(room_code(123456).0, "123456");
    assert_eq!(room_code(1234567).0, "1234567");
    assert_eq!(room_code(u64::MAX).0, "18446744073709551615");

    let mut registry = Registry::new();
    let (first, session, player) = registry.create_room(CrewRole::Sonar, channel());
    assert_eq!(first.0, "000001");
    assert_eq!(session, SessionId(1));
    assert_eq!(player, PlayerId(1));
    let (second, _, _) = registry.create_room(CrewRole::Sonar, channel());
    assert_eq!(second.0, "000002");
    assert_eq!(registry.room_seed(&first), Some(1));
    assert_eq!(registry.room_seed(&second), Some(2));
}

#[test]
fn room_code_validation_counts_digits() {
    assert!(valid_room_code("000001"));
    assert!(valid_room_code("999999"));
    assert!(!valid_room_code(""));
    assert!(!valid_room_code("12345"));
    assert!(!valid_room_code("12 456"));
    assert!(!valid_room_code("١٢٣٤٥٦"));
}

#[test]
fn unknown_room_is_not_found_and_changes_nothing() {
    let mut registry = Registry::new();
    registry.create_room(CrewRole::Captain, channel());
    assert_eq!(
        registry.join_room(&RoomId("000009".to_owned()), CrewRole::Pilot, channel()),
        Err(ProtocolError::RoomNotFound)
    );
    assert_eq!(registry.player_count(&RoomId("000001".to_owned())), Some(1));
    assert!(registry.snapshot(&RoomId("000009".to_owned())).is_none());
}

#[test]
fn a_running_room_refuses_new_players_and_a_second_start() {
    let mut registry = Registry::new();
    let (room_id, _, _) = registry.create_room(CrewRole::Captain, channel());
    assert_eq!(registry.start_room(&room_id, 1), Ok(1));
    assert_eq!(
        registry.join_room(&room_id, CrewRole::Pilot, channel()),
        Err(ProtocolError::RoomAlreadyStarted)
    );
    assert_eq!(
        registry.start_room(&room_id, 2),
        Err(ProtocolError::RoomAlreadyStarted)
    );
    assert_eq!(registry.game_channel(&room_id), Some(&1));
    assert_eq!(
        registry.start_room(&RoomId("000042".to_owned()), 3),
        Err(ProtocolError::RoomNotFound)
    );
}

#[test]
fn readiness_shows_in_the_lobby_snapshot() {
    let mut registry = Registry::new();
    let (room_id, _, captain) = registry.create_room(CrewRole::Captain, channel());
    let (_, pilot) = registry
        .join_room(&room_id, CrewRole::Pilot, channel())
        .unwrap();
    registry.set_ready(&room_id, pilot, true);

    let snapshot = registry.snapshot(&room_id).unwrap();
    assert_eq!(snapshot.room_id, room_id);
    assert_eq!(snapshot.phase, LobbyPhase::Waiting);
    let roles: Vec<CrewRole> = snapshot.slots.iter().map(|slot| slot.role).collect();
    assert_eq!(roles, CrewRole::all().to_vec());
    assert_eq!(
        snapshot.slots[0].occupant,
        RoleOccupant::Human { player_id: captain, ready: false }
    );
    assert_eq!(
        snapshot.slots[1].occupant,
        RoleOccupant::Human { player_id: pilot, ready: true }
    );
    assert_eq!(snapshot.slots[2].occupant, RoleOccupant::Bot);
}

#[test]
fn last_player_leaving_closes_a_waiting_room() {
    let mut registry = Registry::new();
    let (room_id, _, captain) = registry.create_room(CrewRole::Captain, channel());
    let (_, pilot) = registry
        .join_room(&room_id, CrewRole::Pilot, channel())
        .unwrap();
    registry.remove(&room_id, pilot);
    assert_eq!(registry.player_count(&room_id), Some(1));
    assert!(registry
        .join_room(&room_id, CrewRole::Pilot, channel())
        .is_ok());
    registry.remove(&room_id, captain);
    registry.remove(&room_id, PlayerId(3));
    assert_eq!(registry.player_count(&room_id), None);
}

#[test]
fn players_stay_in_a_running_room() {
    let mut registry = Registry::new();
    let (room_id, _, captain) = registry.create_room(CrewRole::Captain, channel());
    registry.start_room(&room_id, 5).unwrap();
    registry.remove(&room_id, captain);
    assert_eq!(registry.player_count(&room_id), Some(1));
}

#[test]
fn roster_and_outboxes_follow_the_members() {
    let mut registry = Registry::new();
    let (room_id, _, captain) = registry.create_room(CrewRole::Captain, 10);
    let (_, weapons) = registry
        .join_room(&room_id, CrewRole::Weapons, 20)
        .unwrap();
    let roster = registry.roster(&room_id);
    assert_eq!(roster.len(), 2);
    assert!(roster.contains(&(captain, CrewRole::Captain)));
    assert!(roster.contains(&(weapons, CrewRole::Weapons)));
    assert_eq!(registry.outbox(&room_id, weapons), Some(&20));
    assert_eq!(registry.outbox(&room_id, PlayerId(99)), None);
    assert!(registry.roster(&RoomId("000077".to_owned())).is_empty());
    assert_eq!(registry.game_channel(&room_id), None);
}

#[test]
fn first_message_must_create_or_join() {
    let mut registry = Registry::new();
    let created = registry
        .register(Some(&LobbyCommand::CreateRoom { role: CrewRole::Pilot }), 1)
        .unwrap();
    assert_eq!(created.0 .0, "000001");
    assert_eq!(created.3, CrewRole::Pilot);
    let joined = registry
        .register(
            Some(&LobbyCommand::JoinRoom {
                room_id: RoomId("000001".to_owned()),
                role: CrewRole::Sonar,
            }),
            2,
        )
        .unwrap();
    assert_eq!(joined.0, RoomId("000001".to_owned()));
    assert_eq!(joined.1, SessionId(2));
    assert_eq!(joined.2, PlayerId(2));
    assert_eq!(
        registry.register(Some(&LobbyCommand::StartMission), 3),
        Err(ProtocolError::RoomNotFound)
    );
    assert_eq!(registry.register(None, 4), Err(ProtocolError::RoomNotFound));
    assert_eq!(
        registry.register(
            Some(&LobbyCommand::JoinRoom {
                room_id: RoomId("000001".to_owned()),
                role: CrewRole::Pilot,
            }),
            5,
        ),
        Err(ProtocolError::RoleAlreadyTaken(CrewRole::Pilot))
    );
}

#[test]
fn envelope_versions_must_match() {
    assert_eq!(check_version(PROTOCOL_VERSION), Ok(()));
    assert_eq!(
        check_version(2),
        Err(ProtocolError::IncompatibleVersion { expected: 3, received: 2 })
    );
}

#[test]
fn member_commands_set_readiness_and_start_once() {
    let mut registry = Registry::new();
    let (room_id, _, player) = registry.create_room(CrewRole::Captain, channel());
    assert_eq!(
        registry.member_command(&room_id, player, &LobbyCommand::SetReady { ready: true }, 7),
        LobbyOutcome::Changed
    );
    let snapshot = registry.snapshot(&room_id).unwrap();
    assert_eq!(snapshot.slots[0].occupant, RoleOccupant::Human { player_id: player, ready: true });
    assert_eq!(registry.mission_target(&room_id), Err(ProtocolError::GameNotStarted));
    assert_eq!(
        registry.member_command(&room_id, player, &LobbyCommand::CreateRoom { role: CrewRole::Pilot }, 7),
        LobbyOutcome::Ignored
    );
    assert_eq!(
        registry.member_command(&room_id, player, &LobbyCommand::StartMission, 7),
        LobbyOutcome::Started(registry.room_seed(&room_id).unwrap())
    );
    assert_eq!(registry.mission_target(&room_id), Ok(&7));
    assert_eq!(
        registry.member_command(&room_id, player, &LobbyCommand::StartMission, 8),
        LobbyOutcome::Refused(ProtocolError::RoomAlreadyStarted)
    );
    assert_eq!(registry.mission_target(&room_id), Ok(&7));
    assert_eq!(
        registry.member_command(&RoomId("000099".to_owned()), player, &LobbyCommand::StartMission, 9),
        LobbyOutcome::Refused(ProtocolError::RoomNotFound)
    );
    assert_eq!(registry.mission_target(&RoomId("000099".to_owned())), Err(ProtocolError::GameNotStarted));
}

#[test]
fn five_players_hold_the_five_stations() {
    let mut registry = Registry::new();
    let (room_id, _, _) = registry.create_room(CrewRole::Sonar, channel());
    for role in [CrewRole::Captain, CrewRole::Pilot, CrewRole::Engineer, CrewRole::Weapons] {
        assert!(registry.join_room(&room_id, role, channel()).is_ok());
    }
    assert_eq!(registry.player_count(&room_id), Some(5));
    let snapshot = registry.snapshot(&room_id).unwrap();
    assert!(snapshot.slots.iter().all(|slot| !matches!(slot.occupant, RoleOccupant::Bot)));
    assert_eq!(
        registry.join_room(&room_id, CrewRole::Pilot, channel()),
        Err(ProtocolError::RoleAlreadyTaken(CrewRole::Pilot))
    );
}

#[test]
fn refusals_are_known_before_joining() {
    let mut registry = Registry::new();
    let (room_id, _, _) = registry.create_room(CrewRole::Captain, channel());
    assert_eq!(registry.join_refusal_of(&RoomId("12".to_owned()), CrewRole::Pilot), Some(ProtocolError::InvalidRoomCode));
    assert_eq!(registry.join_refusal_of(&RoomId("000042".to_owned()), CrewRole::Pilot), Some(ProtocolError::RoomNotFound));
    assert_eq!(
        registry.join_refusal_of(&room_id, CrewRole::Captain),
        Some(ProtocolError::RoleAlreadyTaken(CrewRole::Captain))
    );
    assert_eq!(registry.join_refusal_of(&room_id, CrewRole::Sonar), None);
    assert!(registry.can_open_room());
    assert!(registry.can_admit_player());
    registry.start_room(&room_id, 1).unwrap();
    assert_eq!(registry.join_refusal_of(&room_id, CrewRole::Sonar), Some(ProtocolError::RoomAlreadyStarted));
}
