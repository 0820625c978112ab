use submarine::client::{
    choose_role, engineer_command, engineer_control_active, engineer_panel_visible,
    handle_connection_end, handle_server_message, lobby_action_visible, pilot_panel_visible,
    press_code_key, press_lobby_action, press_setup, selector_visible, CodeKey, CommandQueue,
    EngineeringStatus, GameState, LobbyAction, LocalPlayer, RoomRequest,
    ServerNotice, SetupAction, SubmarineView, Panel, panel_visible, type_room_code,
    accept_server_version, connection_failed, initial_player, manage_connection, socket_opened, ConnectionStep,
    websocket_url, PageLocation, pilot_action_command, PilotAction, engineer_button_lit, press_engineer_control,
};
use submarine::labels::{role_button_text, room_code_line, selector_error_text};
use submarine::submarine::AcousticLevel;
use submarine::crew::CrewRole;
use submarine::labels::error_label;
use submarine::policy::{ActionKind, CommandKind};
use submarine::protocol::{CommandId, LobbyCommand, PlayerId, ProtocolError, RoomId, SessionId};
use submarine::room_code::valid_room_code;
use submarine::submarine::{BallastState, PropulsionState, PropulsionSwitch};

#[test]
fn command_queue_assigns_monotonic_ids() {
    let mut queue = CommandQueue::default();
    let first = queue.push(&CommandKind::SetSpeed);
    let second = queue.order_pilot();

    assert_eq!(first, CommandId(1));
    assert_eq!(second, CommandId(2));
    assert_eq!(
        queue.mission,
        vec![(CommandId(1), ActionKind::Player(CommandKind::SetSpeed)), (CommandId(2), ActionKind::OrderPilotBot)]
    );
    assert_eq!(queue.take_mission().len(), 2);
    assert!(queue.mission.is_empty());
    assert_eq!(queue.next_id, 2);
}

#[test]
fn unavailable_air_intake_clears_impossible_engineering_intents() {
    let mut queue = CommandQueue::default();
    queue.push(&CommandKind::SetDiesels(true));
    queue.push(&CommandKind::SetVentilation(true));
    let status = EngineeringStatus {
        propulsion: PropulsionState {
            diesels_on: false,
            electric_motors_on: true,
            ventilation_on: false,
            charging: false,
        },
        air_intake_available: false,
    };

    queue.reconcile_engineering(&status);

    assert!(!queue.pending_diesels(false));
    assert!(!queue.pending_ventilation(false));
}

fn joining_pilot(code: &str) -> LocalPlayer {
    let mut player = LocalPlayer::default();
    player.role = Some(CrewRole::Pilot);
    player.request = Some(RoomRequest::Join(RoomId(code.to_owned())));
    player.joined = true;
    player.connection_started = true;
    player
}

#[test]
fn room_not_found_keeps_player_in_setup_for_retry() {
    let mut player = joining_pilot("999999");
    let mut state = GameState::default();
    let mut commands = CommandQueue::default();

    handle_server_message(
        ServerNotice::Error {
            command_id: None,
            error: ProtocolError::RoomNotFound,
        },
        &mut player,
        &mut state,
        &mut commands,
    );
    handle_connection_end(&mut player, &mut state);

    assert!(player.request.is_none());
    assert!(player.id.is_none());
    assert_eq!(state.last_error, Some(ProtocolError::RoomNotFound));
}

#[test]
fn role_taken_error_survives_the_server_closing_the_socket() {
    let mut player = joining_pilot("000004");
    let mut state = GameState::default();
    let mut commands = CommandQueue::default();

    handle_server_message(
        ServerNotice::Error {
            command_id: None,
            error: ProtocolError::RoleAlreadyTaken(CrewRole::Pilot),
        },
        &mut player,
        &mut state,
        &mut commands,
    );
    handle_connection_end(&mut player, &mut state);

    assert!(player.request.is_none());
    assert_eq!(
        state.last_error,
        Some(ProtocolError::RoleAlreadyTaken(CrewRole::Pilot))
    );
}

#[test]
fn room_code_requires_exactly_six_digits() {
    assert!(valid_room_code("000001"));
    assert!(!valid_room_code("11"));
    assert!(!valid_room_code("00000A"));
    assert!(!valid_room_code("0000001"));
}

#[test]
fn setup_errors_have_readable_labels() {
    assert_eq!(
        error_label(&ProtocolError::RoomNotFound),
        "SALLE INTROUVABLE"
    );
    assert_eq!(
        error_label(&ProtocolError::RoleAlreadyTaken(CrewRole::Pilot)),
        "POSTE DEJA PRIS : PILOTE"
    );
    assert_eq!(
        error_label(&ProtocolError::ConnectionFailed),
        "CONNEXION AU SERVEUR IMPOSSIBLE"
    );
}

#[test]
fn station_panels_stay_hidden_until_session_is_joined() {
    let mut player = LocalPlayer::default();
    player.role = Some(CrewRole::Pilot);
    player.request = Some(RoomRequest::Join(RoomId("999999".to_owned())));

    assert!(selector_visible(&player));
    assert!(!pilot_panel_visible(&player, false));

    player.id = Some(PlayerId(1));

    assert!(!selector_visible(&player));
    assert!(!pilot_panel_visible(&player, false));
    assert!(pilot_panel_visible(&player, true));
    assert!(!engineer_panel_visible(&player, true));
}

#[test]
fn only_the_captain_sees_the_pilot_order_button() {
    let mut player = LocalPlayer::default();
    player.role = Some(CrewRole::Sonar);
    assert!(!lobby_action_visible(&player, LobbyAction::Ready));
    player.id = Some(PlayerId(4));
    assert!(lobby_action_visible(&player, LobbyAction::Start));
    assert!(!lobby_action_visible(&player, LobbyAction::OrderPilot));
    player.role = Some(CrewRole::Captain);
    assert!(lobby_action_visible(&player, LobbyAction::OrderPilot));
}

#[test]
fn joining_the_session_records_the_identity() {
    let mut player = joining_pilot("000003");
    let mut state = GameState::default();
    let mut commands = CommandQueue::default();
    commands.push(&CommandKind::SetBatteryCharging(false));

    let accepted = handle_server_message(
        ServerNotice::SessionJoined {
            session_id: SessionId(8),
            player_id: PlayerId(9),
            room_id: RoomId("000003".to_owned()),
            role: CrewRole::Engineer,
        },
        &mut player,
        &mut state,
        &mut commands,
    );
    assert!(!accepted);
    assert_eq!(player.session_id, Some(SessionId(8)));
    assert_eq!(player.id, Some(PlayerId(9)));
    assert_eq!(player.room_code, "000003");
    assert_eq!(player.role, Some(CrewRole::Engineer));
    assert!(commands.pending_charging(true));

    handle_connection_end(&mut player, &mut state);
    assert!(player.request.is_some());
    assert_eq!(state.last_error, None);
}

fn view(engineering: Option<EngineeringStatus>) -> SubmarineView {
    SubmarineView { acoustic_level: AcousticLevel::Low, alerts: vec![], pilot: false, engineering }
}

#[test]
fn stale_snapshots_are_ignored() {
    let mut player = LocalPlayer::default();
    let mut state = GameState::default();
    let mut commands = CommandQueue::default();
    commands.push(&CommandKind::SetElectricMotors(false));
    let status = EngineeringStatus {
        propulsion: PropulsionState::default(),
        air_intake_available: true,
    };

    assert!(handle_server_message(
        ServerNotice::Snapshot { snapshot_id: 5, tick: 40, submarine: view(Some(status)) },
        &mut player,
        &mut state,
        &mut commands,
    ));
    assert_eq!((state.snapshot_id, state.server_tick), (5, 40));
    assert_eq!(state.submarine, Some(view(Some(status))));
    assert!(!commands.pending_electric_motors(true));
    assert!(!handle_server_message(
        ServerNotice::Snapshot { snapshot_id: 5, tick: 41, submarine: view(None) },
        &mut player,
        &mut state,
        &mut commands,
    ));
    assert!(!handle_server_message(
        ServerNotice::Snapshot { snapshot_id: 3, tick: 50, submarine: view(None) },
        &mut player,
        &mut state,
        &mut commands,
    ));
    assert_eq!((state.snapshot_id, state.server_tick), (5, 40));
    handle_server_message(ServerNotice::Event { tick: 30 }, &mut player, &mut state, &mut commands);
    assert_eq!(state.server_tick, 40);
    handle_server_message(ServerNotice::Event { tick: 44 }, &mut player, &mut state, &mut commands);
    assert_eq!(state.server_tick, 44);
    handle_server_message(ServerNotice::MissionStarted, &mut player, &mut state, &mut commands);
    assert!(state.game_started);
    assert!(commands.pending_electric_motors(true));
}

#[test]
fn confirmed_switch_intents_are_forgotten() {
    let mut commands = CommandQueue::default();
    commands.push(&CommandKind::SetDiesels(false));
    commands.push(&CommandKind::SetBatteryCharging(true));
    let board = PropulsionState {
        diesels_on: true,
        electric_motors_on: true,
        ventilation_on: true,
        charging: true,
    };
    assert!(!engineer_control_active(PropulsionSwitch::Diesels, &board, &commands));
    assert_eq!(
        engineer_command(PropulsionSwitch::Diesels, &board, &commands),
        CommandKind::SetDiesels(true)
    );
    assert_eq!(
        engineer_command(PropulsionSwitch::Ventilation, &board, &commands),
        CommandKind::SetVentilation(false)
    );
    commands.reconcile_engineering(&EngineeringStatus { propulsion: board, air_intake_available: true });
    assert_eq!(commands.diesels_intent, Some(false));
    assert_eq!(commands.charging_intent, None);
    assert!(engineer_control_active(PropulsionSwitch::Diesels, &board, &CommandQueue::default()));
}

#[test]
fn setup_buttons_validate_the_typed_code() {
    let mut player = LocalPlayer::default();
    let mut state = GameState::default();
    press_setup(&mut player, &mut state, SetupAction::Create);
    assert_eq!(state.last_error, Some(ProtocolError::CommandNotAllowedForRole));
    assert!(player.request.is_none());

    choose_role(&mut player, &mut state, CrewRole::Weapons);
    assert_eq!(state.last_error, None);
    for digit in ['0', '0', '0', '0', '1'] {
        press_code_key(&mut player, &mut state, CodeKey::Digit(digit));
    }
    press_setup(&mut player, &mut state, SetupAction::Join);
    assert_eq!(state.last_error, Some(ProtocolError::InvalidRoomCode));
    assert!(player.request.is_none());

    press_code_key(&mut player, &mut state, CodeKey::Digit('2'));
    press_code_key(&mut player, &mut state, CodeKey::Digit('7'));
    assert_eq!(player.room_code, "000012");
    press_setup(&mut player, &mut state, SetupAction::Join);
    assert_eq!(state.last_error, None);
    assert_eq!(player.request, Some(RoomRequest::Join(RoomId("000012".to_owned()))));

    press_code_key(&mut player, &mut state, CodeKey::Delete);
    assert_eq!(player.room_code, "000012");
    player.request = None;
    press_code_key(&mut player, &mut state, CodeKey::Delete);
    assert_eq!(player.room_code, "00001");
    press_setup(&mut player, &mut state, SetupAction::Create);
    assert_eq!(player.request, Some(RoomRequest::Create));
}

#[test]
fn lobby_buttons_send_lobby_commands_and_number_pilot_orders() {
    let mut commands = CommandQueue::default();
    assert_eq!(press_lobby_action(LobbyAction::Ready, false, &mut commands), None);
    assert_eq!(press_lobby_action(LobbyAction::Start, false, &mut commands), None);
    assert_eq!(commands.lobby, vec![LobbyCommand::SetReady { ready: true }, LobbyCommand::StartMission]);
    assert!(press_lobby_action(LobbyAction::OrderPilot, false, &mut commands).is_none());
    assert_eq!(press_lobby_action(LobbyAction::OrderPilot, true, &mut commands), Some(CommandId(1)));
    assert_eq!(commands.take_lobby(), vec![LobbyCommand::SetReady { ready: true }, LobbyCommand::StartMission]);
    assert!(commands.lobby.is_empty());
    assert_eq!(commands.next_id, 1);
}

#[test]
fn only_the_selector_shows_before_admission() {
    let mut player = LocalPlayer::default();
    player.role = Some(CrewRole::Captain);
    for started in [false, true] {
        assert!(panel_visible(&player, started, Panel::Selector));
        assert!(!panel_visible(&player, started, Panel::Hud));
        assert!(!panel_visible(&player, started, Panel::Lobby(LobbyAction::Ready)));
    }
    player.id = Some(PlayerId(1));
    assert!(!panel_visible(&player, false, Panel::Selector));
    assert!(panel_visible(&player, false, Panel::Hud));
    assert!(panel_visible(&player, false, Panel::Lobby(LobbyAction::Ready)));
    assert!(panel_visible(&player, false, Panel::Lobby(LobbyAction::Start)));
    assert!(!panel_visible(&player, false, Panel::Lobby(LobbyAction::OrderPilot)));
    assert!(!panel_visible(&player, true, Panel::Lobby(LobbyAction::Start)));
    assert!(panel_visible(&player, true, Panel::Lobby(LobbyAction::OrderPilot)));
    assert!(!panel_visible(&player, true, Panel::Pilot));
    player.role = Some(CrewRole::Pilot);
    assert!(panel_visible(&player, true, Panel::Pilot));
    assert!(!panel_visible(&player, true, Panel::Engineer));
    assert!(!panel_visible(&player, true, Panel::Lobby(LobbyAction::OrderPilot)));
}

#[test]
fn typing_the_room_code_on_the_keyboard() {
    let mut player = LocalPlayer::default();
    let mut state = GameState::default();
    state.last_error = Some(ProtocolError::InvalidRoomCode);
    let mut digits = [false; 10];
    type_room_code(&mut player, &mut state, false, &digits);
    assert_eq!(player.room_code, "");
    assert_eq!(state.last_error, Some(ProtocolError::InvalidRoomCode));
    digits[7] = true;
    digits[3] = true;
    type_room_code(&mut player, &mut state, false, &digits);
    assert_eq!(player.room_code, "3");
    assert_eq!(state.last_error, None);
    for _ in 0..7 {
        type_room_code(&mut player, &mut state, false, &digits);
    }
    assert_eq!(player.room_code, "333333");
    type_room_code(&mut player, &mut state, true, &digits);
    assert_eq!(player.room_code, "333333");
    player.request = Some(RoomRequest::Create);
    type_room_code(&mut player, &mut state, true, &digits);
    assert_eq!(player.room_code, "333333");
}

#[test]
fn selector_texts() {
    assert_eq!(role_button_text(CrewRole::Sonar, false), "SONAR  //  detection");
    assert_eq!(role_button_text(CrewRole::Weapons, true), "> ARMEMENT  //  torpilles");
    assert_eq!(room_code_line("12"), "CODE SALLE : 12____");
    assert_eq!(room_code_line(""), "CODE SALLE : ______");
    assert_eq!(room_code_line("123456"), "CODE SALLE : 123456");
    assert_eq!(selector_error_text(None), "");
    assert_eq!(selector_error_text(Some(&ProtocolError::GameNotStarted)), "LA PARTIE N'A PAS ENCORE DEMARRE");
}

#[test]
fn a_role_from_the_environment_asks_for_a_room_at_once() {
    let player = initial_player(Some(CrewRole::Sonar));
    assert_eq!(player.role, Some(CrewRole::Sonar));
    assert_eq!(player.request, Some(RoomRequest::Create));
    let player = initial_player(None);
    assert_eq!(player.role, None);
    assert_eq!(player.request, None);
}

#[test]
fn the_connection_follows_the_request() {
    let mut player = LocalPlayer::default();
    player.joined = true;
    assert_eq!(manage_connection(&mut player, false), ConnectionStep::Close);
    assert!(!player.joined);
    player.role = Some(CrewRole::Pilot);
    player.request = Some(RoomRequest::Create);
    assert_eq!(manage_connection(&mut player, true), ConnectionStep::Drop);
    assert_eq!(manage_connection(&mut player, false), ConnectionStep::Connect);
    assert!(player.connection_started);
    assert_eq!(manage_connection(&mut player, false), ConnectionStep::Keep);
    assert_eq!(manage_connection(&mut player, true), ConnectionStep::Keep);

    let mut state = GameState::default();
    connection_failed(&mut player, &mut state);
    assert!(!player.connection_started);
    assert_eq!(player.request, None);
    assert_eq!(state.last_error, Some(ProtocolError::ConnectionFailed));
    assert_eq!(manage_connection(&mut player, false), ConnectionStep::Close);
}

#[test]
fn the_first_message_asks_for_the_requested_room_once() {
    let mut player = LocalPlayer::default();
    assert_eq!(socket_opened(&mut player), None);
    player.role = Some(CrewRole::Weapons);
    player.request = Some(RoomRequest::Join(RoomId("000004".to_owned())));
    assert_eq!(
        socket_opened(&mut player),
        Some(LobbyCommand::JoinRoom { room_id: RoomId("000004".to_owned()), role: CrewRole::Weapons })
    );
    assert!(player.joined);
    assert_eq!(socket_opened(&mut player), None);
    let mut player = initial_player(Some(CrewRole::Captain));
    assert_eq!(socket_opened(&mut player), Some(LobbyCommand::CreateRoom { role: CrewRole::Captain }));
}

#[test]
fn server_messages_in_another_version_are_refused() {
    let mut state = GameState::default();
    assert!(accept_server_version(&mut state, 3));
    assert_eq!(state.last_error, None);
    assert!(!accept_server_version(&mut state, 2));
    assert_eq!(state.last_error, Some(ProtocolError::IncompatibleVersion { expected: 3, received: 2 }));
}

fn page(protocol: &str, hostname: &str, port: &str) -> PageLocation {
    PageLocation {
        protocol: Some(protocol.to_owned()),
        hostname: Some(hostname.to_owned()),
        port: Some(port.to_owned()),
    }
}

#[test]
fn the_server_address_follows_the_page() {
    assert_eq!(websocket_url(None), "ws://127.0.0.1:3000/ws");
    assert_eq!(websocket_url(Some(&page("http:", "localhost", "8080"))), "ws://localhost:3000/ws");
    assert_eq!(websocket_url(Some(&page("https:", "game.example", ""))), "wss://game.example/ws");
    assert_eq!(websocket_url(Some(&page("https:", "game.example", "8443"))), "wss://game.example:8443/ws");
    let unknown = PageLocation { protocol: None, hostname: None, port: None };
    assert_eq!(websocket_url(Some(&unknown)), "ws://127.0.0.1/ws");
}

#[test]
fn pilot_buttons_send_ballast_and_emergency_orders_during_the_mission() {
    assert_eq!(pilot_action_command(PilotAction::EmergencySurface, false), None);
    assert_eq!(pilot_action_command(PilotAction::EmergencySurface, true), Some(CommandKind::EmergencySurface));
    assert_eq!(
        pilot_action_command(PilotAction::Ballast(BallastState::Blow), true),
        Some(CommandKind::SetBallast(BallastState::Blow))
    );
}

#[test]
fn engineer_buttons_work_once_the_switchboard_is_known() {
    let mut commands = CommandQueue::default();
    let mut state = GameState::default();
    state.game_started = true;
    assert!(!engineer_button_lit(PropulsionSwitch::Charging, &state, &commands));
    assert_eq!(press_engineer_control(PropulsionSwitch::Charging, &state, &mut commands), None);
    let board = PropulsionState { diesels_on: false, electric_motors_on: true, ventilation_on: false, charging: true };
    state.submarine = Some(view(Some(EngineeringStatus { propulsion: board, air_intake_available: true })));
    assert!(engineer_button_lit(PropulsionSwitch::Charging, &state, &commands));
    assert_eq!(
        press_engineer_control(PropulsionSwitch::Charging, &state, &mut commands),
        Some((CommandKind::SetBatteryCharging(false), CommandId(1)))
    );
    assert!(!engineer_button_lit(PropulsionSwitch::Charging, &state, &commands));
    state.game_started = false;
    assert_eq!(press_engineer_control(PropulsionSwitch::Diesels, &state, &mut commands), None);
    assert_eq!(commands.next_id, 1);
}
