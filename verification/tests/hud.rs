use submarine::alerts::AlertKind;
use submarine::client::{
    command_for_input, keyboard_command, CommandQueue, EngineeringStatus, GameState, KeyCommand, KeysPressed,
    LocalPlayer, PilotStep, SubmarineView,
};
use submarine::crew::{CrewRole, SystemId};
use submarine::hud::hud_content;
use submarine::policy::CommandKind;
use submarine::protocol::{LobbyPhase, LobbySnapshot, PlayerId, ProtocolError, RoleOccupant, RoleSlot, RoomId};
use submarine::submarine::{AcousticLevel, PropulsionState};

fn no_keys() -> KeysPressed {
    KeysPressed {
        arrow_left: false,
        arrow_right: false,
        arrow_up: false,
        arrow_down: false,
        page_up: false,
        page_down: false,
        space: false,
        digit1: false,
        digit2: false,
        digit3: false,
        digit4: false,
        digit5: false,
    }
}

fn view(pilot: bool, engineering: Option<EngineeringStatus>) -> SubmarineView {
    SubmarineView { acoustic_level: AcousticLevel::Low, alerts: vec![], pilot, engineering }
}

fn lobby(code: &str) -> LobbySnapshot {
    LobbySnapshot {
        room_id: RoomId(code.to_owned()),
        phase: LobbyPhase::Waiting,
        slots: vec![
            RoleSlot { role: CrewRole::Captain, occupant: RoleOccupant::Human { player_id: PlayerId(1), ready: true } },
            RoleSlot { role: CrewRole::Pilot, occupant: RoleOccupant::Human { player_id: PlayerId(2), ready: false } },
            RoleSlot { role: CrewRole::Sonar, occupant: RoleOccupant::Bot },
            RoleSlot { role: CrewRole::Engineer, occupant: RoleOccupant::Bot },
            RoleSlot { role: CrewRole::Weapons, occupant: RoleOccupant::Bot },
        ],
    }
}

#[test]
fn hud_asks_for_a_role_first() {
    let player = LocalPlayer::default();
    let state = GameState::default();
    assert_eq!(hud_content(&player, &state, "unused"), "SUBMARINE // SELECTION DU POSTE");
}

#[test]
fn hud_shows_dashes_before_the_first_snapshot() {
    let mut player = LocalPlayer::default();
    player.role = Some(CrewRole::Captain);
    let state = GameState::default();
    assert_eq!(
        hud_content(&player, &state, "unused"),
        "SUBMARINE // CAPITAINE\nCONNEXION AU SERVEUR\nBRUIT     ---\nALERTES   ---\n\nCAP       ---\nVITESSE   ---\nPROFONDEUR ---\n\nCOMMANDES\nordre tactile vers le bot Pilote"
    );
}

#[test]
fn hud_lists_the_crew_alarms_and_error_for_the_pilot() {
    let mut player = LocalPlayer::default();
    player.role = Some(CrewRole::Pilot);
    player.id = Some(PlayerId(2));
    let mut state = GameState::default();
    state.lobby = Some(lobby("000001"));
    state.server_tick = 42;
    state.submarine = Some(SubmarineView {
        acoustic_level: AcousticLevel::Loud,
        alerts: vec![AlertKind::BatteryLow, AlertKind::Cavitation],
        pilot: true,
        engineering: None,
    });
    state.last_error = Some(ProtocolError::RoomNotFound);
    assert_eq!(
        hud_content(&player, &state, "unused"),
        "SUBMARINE // PILOTE\nEN ATTENTE DE L'EQUIPAGE\nSALLE 000001 // TICK 42\nCAPITAINE : HUMAIN PRET\nPILOTE : HUMAIN ATTENTE\nSONAR : BOT\nINGENIEUR : BOT\nARMEMENT : BOT\nBRUIT     Loud\nALERTES   BATTERIE BASSE | CAVITATION\n\nERREUR SERVEUR\nSALLE INTROUVABLE"
    );
}

#[test]
fn hud_shows_readings_and_controls_during_the_mission() {
    let mut player = LocalPlayer::default();
    player.role = Some(CrewRole::Weapons);
    player.id = Some(PlayerId(5));
    player.joined = true;
    let mut state = GameState::default();
    state.lobby = Some(lobby("000007"));
    state.server_tick = 1234;
    state.game_started = true;
    state.submarine = Some(SubmarineView { acoustic_level: AcousticLevel::Silent, alerts: vec![], pilot: false, engineering: None });
    assert_eq!(
        hud_content(&player, &state, "READINGS"),
        "SUBMARINE // ARMEMENT\nPARTIE EN COURS\nSALLE 000007 // TICK 1234\nBRUIT     Silent\nALERTES   AUCUNE\n\nREADINGS\n\nCOMMANDES\nPistes partagees en lecture seule\nEspace : tir dans le cap actuel"
    );
}

#[test]
fn hud_reports_joining_the_lobby() {
    let mut player = LocalPlayer::default();
    player.role = Some(CrewRole::Engineer);
    player.joined = true;
    let state = GameState::default();
    assert_eq!(
        hud_content(&player, &state, "unused"),
        "SUBMARINE // INGENIEUR\nCONNEXION AU LOBBY\nBRUIT     ---\nALERTES   ---"
    );
}

#[test]
fn keys_map_to_each_station_commands() {
    let commands = CommandQueue::default();
    let mut keys = no_keys();
    keys.arrow_left = true;
    keys.arrow_right = true;
    assert_eq!(command_for_input(CrewRole::Captain, &keys, Some(&view(true, None)), &commands), None);
    assert_eq!(command_for_input(CrewRole::Pilot, &keys, None, &commands), None);
    assert_eq!(command_for_input(CrewRole::Pilot, &keys, Some(&view(false, None)), &commands), None);
    assert_eq!(
        command_for_input(CrewRole::Pilot, &keys, Some(&view(true, None)), &commands),
        Some(KeyCommand::Pilot(PilotStep::TurnPort))
    );
    let mut keys = no_keys();
    keys.page_up = true;
    assert_eq!(
        command_for_input(CrewRole::Pilot, &keys, Some(&view(true, None)), &commands),
        Some(KeyCommand::Pilot(PilotStep::Shallower))
    );
    keys.page_down = true;
    assert_eq!(
        command_for_input(CrewRole::Pilot, &keys, Some(&view(true, None)), &commands),
        Some(KeyCommand::Pilot(PilotStep::Deeper))
    );
    let mut keys = no_keys();
    keys.space = true;
    assert_eq!(command_for_input(CrewRole::Sonar, &keys, None, &commands), Some(KeyCommand::Player(CommandKind::SonarPing)));
    assert_eq!(command_for_input(CrewRole::Weapons, &keys, None, &commands), None);
    assert_eq!(
        command_for_input(CrewRole::Weapons, &keys, Some(&view(false, None)), &commands),
        Some(KeyCommand::Player(CommandKind::FireTorpedo))
    );
}

#[test]
fn engineer_keys_toggle_away_from_the_expected_setting() {
    let mut commands = CommandQueue::default();
    let status = EngineeringStatus { propulsion: PropulsionState::default(), air_intake_available: true };
    let submarine = view(false, Some(status));
    let mut keys = no_keys();
    keys.digit1 = true;
    assert_eq!(command_for_input(CrewRole::Engineer, &keys, None, &commands), None);
    assert_eq!(command_for_input(CrewRole::Engineer, &keys, Some(&view(false, None)), &commands), None);
    let first = command_for_input(CrewRole::Engineer, &keys, Some(&submarine), &commands);
    assert_eq!(first, Some(KeyCommand::Player(CommandKind::SetDiesels(!status.propulsion.diesels_on))));
    commands.push(&CommandKind::SetDiesels(!status.propulsion.diesels_on));
    assert_eq!(
        command_for_input(CrewRole::Engineer, &keys, Some(&submarine), &commands),
        Some(KeyCommand::Player(CommandKind::SetDiesels(status.propulsion.diesels_on)))
    );
    let mut keys = no_keys();
    keys.digit5 = true;
    keys.space = true;
    assert_eq!(
        command_for_input(CrewRole::Engineer, &keys, Some(&submarine), &commands),
        Some(KeyCommand::Player(CommandKind::RepairSystem(SystemId::Engine)))
    );
}

#[test]
fn the_keyboard_is_read_only_during_the_mission() {
    let commands = CommandQueue::default();
    let mut keys = no_keys();
    keys.space = true;
    let mut player = LocalPlayer::default();
    assert_eq!(keyboard_command(&player, true, &keys, None, &commands), None);
    player.role = Some(CrewRole::Sonar);
    assert_eq!(keyboard_command(&player, false, &keys, None, &commands), None);
    assert_eq!(keyboard_command(&player, true, &keys, None, &commands), Some(KeyCommand::Player(CommandKind::SonarPing)));
}

fn readings(heading: f32, speed: f32, depth: f32) -> String {
    format!("CAP       {heading:>6.1} deg\nVITESSE   {speed:>6.1} kn\nPROFONDEUR {depth:>6.1} m")
}

#[test]
fn pilot_hud_reports_status_and_leaves_telemetry_to_station() {
    let mut player = LocalPlayer::default();
    player.role = Some(CrewRole::Pilot);
    player.id = Some(PlayerId(2));
    player.joined = true;
    let mut state = GameState::default();
    state.submarine = Some(view(true, None));
    state.game_started = true;
    state.last_error = Some(ProtocolError::CommandNotAllowedForRole);

    let hud = hud_content(&player, &state, &readings(90.0, 12.0, 150.0));

    assert!(hud.contains("PILOTE"));
    assert!(hud.contains("PARTIE EN COURS"));
    assert!(hud.contains("BRUIT     Low"));
    assert!(!hud.contains("90.0 deg"));
    assert!(hud.contains("COMMANDE INTERDITE POUR CE POSTE"));
}

#[test]
fn engineer_hud_leaves_detailed_controls_to_station_panel() {
    let mut player = LocalPlayer::default();
    player.role = Some(CrewRole::Engineer);
    player.id = Some(PlayerId(3));
    player.joined = true;
    let mut state = GameState::default();
    state.submarine = Some(view(true, None));
    state.game_started = true;

    let hud = hud_content(&player, &state, &readings(0.0, 0.0, 0.0));

    assert!(hud.contains("INGENIEUR"));
    assert!(hud.contains("BRUIT"));
    assert!(!hud.contains("COMMANDES"));
}

#[test]
fn sonar_hud_shows_the_readings_it_is_given() {
    let mut player = LocalPlayer::default();
    player.role = Some(CrewRole::Sonar);
    player.id = Some(PlayerId(4));
    let mut state = GameState::default();
    state.submarine = Some(view(false, None));
    state.game_started = true;

    let hud = hud_content(&player, &state, &readings(90.0, 12.0, 150.0));

    assert!(hud.contains("CAP         90.0 deg\nVITESSE     12.0 kn\nPROFONDEUR  150.0 m"));
    assert!(hud.ends_with("COMMANDES\nEspace/PING : sonar actif\nPistes : selection, partage, fusion, abandon"));
}
