//! The text of the client's head-up display: station, connection status,
//! room and crew, noise and alarms, the boat's readings for the stations
//! without a panel of their own, their controls, and the last refusal.
use vstd::prelude::*;
use vstd::string::*;
use crate::alerts::AlertKind;
use crate::client::{GameState, LocalPlayer};
use crate::crew::CrewRole;
use crate::labels::{
    alert_label, alert_label_text, controls_for_role, controls_text, error_label, error_label_text, role_label,
    role_label_text,
};
use crate::protocol::{RoleOccupant, RoleSlot};
use crate::room_code::{decimal, push_decimal};
use crate::submarine::AcousticLevel;

verus! {

/// How a noise level is written.
pub open spec fn level_name(level: AcousticLevel) -> Seq<char> {
    match level {
        AcousticLevel::Silent => "Silent"@,
        AcousticLevel::Low => "Low"@,
        AcousticLevel::Notable => "Notable"@,
        AcousticLevel::Loud => "Loud"@,
        AcousticLevel::Critical => "Critical"@,
    }
}

/// The line of the crew list for one station.
pub open spec fn slot_line(slot: RoleSlot) -> Seq<char> {
    match slot.occupant {
        RoleOccupant::Human { ready, .. } => role_label_text(slot.role) + " : HUMAIN "@ + (if ready {
            "PRET"@
        } else {
            "ATTENTE"@
        }),
        RoleOccupant::Bot => role_label_text(slot.role) + " : BOT"@,
    }
}

/// The crew list: one line per station, separated by line breaks.
pub open spec fn slot_lines(slots: Seq<RoleSlot>) -> Seq<char>
    decreases slots.len(),
{
    if slots.len() == 0 {
        Seq::empty()
    } else if slots.len() == 1 {
        slot_line(slots[0])
    } else {
        slot_lines(slots.drop_last()) + "\n"@ + slot_line(slots.last())
    }
}

/// The alarm names separated by ` | `.
pub open spec fn alert_list(alerts: Seq<AlertKind>) -> Seq<char>
    decreases alerts.len(),
{
    if alerts.len() == 0 {
        Seq::empty()
    } else if alerts.len() == 1 {
        alert_label_text(alerts[0])
    } else {
        alert_list(alerts.drop_last()) + " | "@ + alert_label_text(alerts.last())
    }
}

/// Where the session stands: running, waiting for the crew once admitted,
/// joining the lobby once connected, else connecting.
pub open spec fn status_text(player: LocalPlayer, state: GameState) -> Seq<char> {
    if state.game_started {
        "PARTIE EN COURS"@
    } else if player.id is Some {
        "EN ATTENTE DE L'EQUIPAGE"@
    } else if player.joined {
        "CONNEXION AU LOBBY"@
    } else {
        "CONNEXION AU SERVEUR"@
    }
}

/// The room and tick once a lobby is known, with the crew list until the
/// mission starts.
pub open spec fn lobby_text(state: GameState) -> Seq<char> {
    match state.lobby {
        None => Seq::empty(),
        Some(lobby) => {
            let head = "\nSALLE "@ + lobby.room_id.0@ + " // TICK "@ + decimal(state.server_tick as nat);
            if state.game_started {
                head
            } else {
                head + "\n"@ + slot_lines(lobby.slots@)
            }
        },
    }
}

/// Noise level and alarms, or dashes before the first snapshot.
pub open spec fn alerts_text(state: GameState) -> Seq<char> {
    match state.submarine {
        None => "\nBRUIT     ---\nALERTES   ---"@,
        Some(sub) => "\nBRUIT     "@ + level_name(sub.acoustic_level) + "\nALERTES   "@ + (if sub.alerts@.len() == 0 {
            "AUCUNE"@
        } else {
            alert_list(sub.alerts@)
        }),
    }
}

/// The last refusal, if any.
pub open spec fn error_text(state: GameState) -> Seq<char> {
    match state.last_error {
        None => Seq::empty(),
        Some(e) => "\n\nERREUR SERVEUR\n"@ + error_label_text(e),
    }
}

/// The readings, or dashes before the first snapshot.
pub open spec fn telemetry_text(state: GameState, readings: Seq<char>) -> Seq<char> {
    match state.submarine {
        None => "CAP       ---\nVITESSE   ---\nPROFONDEUR ---"@,
        Some(_) => readings,
    }
}

/// The whole display. Before a role is chosen it only asks for one. The
/// pilot and the engineer, who have panels of their own, see the station,
/// status, room, noise and alarms and the last refusal; the other stations
/// also see `readings` (heading, speed and depth as the caller writes them)
/// and their controls.
pub open spec fn hud_text(player: LocalPlayer, state: GameState, readings: Seq<char>) -> Seq<char> {
    match player.role {
        None => "SUBMARINE // SELECTION DU POSTE"@,
        Some(role) => {
            let head = "SUBMARINE // "@ + role_label_text(role) + "\n"@ + status_text(player, state) + lobby_text(state)
                + alerts_text(state);
            if role == CrewRole::Pilot || role == CrewRole::Engineer {
                head + error_text(state)
            } else {
                head + "\n\n"@ + telemetry_text(state, readings) + "\n\nCOMMANDES\n"@ + controls_text(role)
                    + error_text(state)
            }
        },
    }
}

/// `part` occurs in `s` at position `at`.
pub open spec fn occurs_at(s: Seq<char>, part: Seq<char>, at: int) -> bool {
    0 <= at && at + part.len() <= s.len() && s.subrange(at, at + part.len()) == part
}

/// `b` occurs in `a + b + c` right after `a`.
proof fn lemma_middle(a: Seq<char>, b: Seq<char>, c: Seq<char>)
    ensures
        occurs_at(a + b + c, b, a.len() as int),
{
    assert((a + b + c).subrange(a.len() as int, (a.len() + b.len()) as int) =~= b);
}

/// What the display shows. Before a role is chosen it only asks for one.
/// With a role it opens with the station's name; it shows the room and tick
/// once a lobby is known, the noise level and each alarm once a snapshot
/// came, the controls for every station but the pilot and the engineer, and
/// it ends with the last refusal when there is one; the pilot's and the
/// engineer's display is the header, status, room and alarms, then the
/// refusal.
pub proof fn lemma_hud_shows(player: LocalPlayer, state: GameState, readings: Seq<char>)
    ensures
        player.role is None ==> hud_text(player, state, readings) == "SUBMARINE // SELECTION DU POSTE"@,
        player.role matches Some(r) ==> {
            let hud = hud_text(player, state, readings);
            let head = "SUBMARINE // "@ + role_label_text(r);
            &&& occurs_at(hud, head, 0)
            &&& (state.lobby matches Some(lobby) ==> exists|at: int| occurs_at(hud,
                "\nSALLE "@ + lobby.room_id.0@ + " // TICK "@ + decimal(state.server_tick as nat), at))
            &&& (state.submarine matches Some(sub) ==> exists|at: int| occurs_at(hud,
                "\nBRUIT     "@ + level_name(sub.acoustic_level) + "\nALERTES   "@, at))
            &&& (state.submarine matches Some(sub) ==> exists|at: int| occurs_at(hud, alert_list(sub.alerts@), at))
            &&& (r != CrewRole::Pilot && r != CrewRole::Engineer ==> exists|at: int| occurs_at(hud,
                "\n\nCOMMANDES\n"@ + controls_text(r), at))
            &&& (r == CrewRole::Pilot || r == CrewRole::Engineer ==> hud == head + "\n"@ + status_text(player, state)
                + lobby_text(state) + alerts_text(state) + error_text(state))
            &&& (state.last_error matches Some(e) ==> occurs_at(hud, error_label_text(e),
                hud.len() - error_label_text(e).len()))
        },
{
    if let Some(r) = player.role {
        lemma_hud_split(player, state, readings, r);
        lemma_hud_head(player, state, readings, r);
        lemma_hud_lobby(player, state, readings, r);
        lemma_hud_alerts(player, state, readings, r);
        lemma_hud_controls(player, state, readings, r);
        lemma_hud_error(player, state, readings, r);
    }
}

/// What follows the alarms: the refusal alone for the pilot and the
/// engineer, else the readings, the controls and the refusal.
spec fn hud_rest(player: LocalPlayer, state: GameState, readings: Seq<char>, r: CrewRole) -> Seq<char> {
    if r == CrewRole::Pilot || r == CrewRole::Engineer {
        error_text(state)
    } else {
        "\n\n"@ + telemetry_text(state, readings) + "\n\nCOMMANDES\n"@ + controls_text(r) + error_text(state)
    }
}

/// The display up to the room.
spec fn hud_top(player: LocalPlayer, state: GameState, r: CrewRole) -> Seq<char> {
    "SUBMARINE // "@ + role_label_text(r) + "\n"@ + status_text(player, state)
}

proof fn lemma_hud_split(player: LocalPlayer, state: GameState, readings: Seq<char>, r: CrewRole)
    requires
        player.role == Some(r),
    ensures
        hud_text(player, state, readings) == hud_top(player, state, r) + lobby_text(state) + alerts_text(state)
            + hud_rest(player, state, readings, r),
{
    if r == CrewRole::Pilot || r == CrewRole::Engineer {
    } else {
        assert(hud_text(player, state, readings) =~= hud_top(player, state, r) + lobby_text(state) + alerts_text(state)
            + hud_rest(player, state, readings, r));
    }
}

proof fn lemma_hud_head(player: LocalPlayer, state: GameState, readings: Seq<char>, r: CrewRole)
    requires
        player.role == Some(r),
        hud_text(player, state, readings) == hud_top(player, state, r) + lobby_text(state) + alerts_text(state)
            + hud_rest(player, state, readings, r),
    ensures
        occurs_at(hud_text(player, state, readings), "SUBMARINE // "@ + role_label_text(r), 0),
{
    let head = "SUBMARINE // "@ + role_label_text(r);
    let hud = hud_text(player, state, readings);
    assert(hud =~= head + ("\n"@ + status_text(player, state) + lobby_text(state) + alerts_text(state)
        + hud_rest(player, state, readings, r)));
    assert(hud.subrange(0, head.len() as int) =~= head);
}

proof fn lemma_hud_lobby(player: LocalPlayer, state: GameState, readings: Seq<char>, r: CrewRole)
    requires
        player.role == Some(r),
        hud_text(player, state, readings) == hud_top(player, state, r) + lobby_text(state) + alerts_text(state)
            + hud_rest(player, state, readings, r),
    ensures
        state.lobby matches Some(lobby) ==> exists|at: int| occurs_at(hud_text(player, state, readings),
            "\nSALLE "@ + lobby.room_id.0@ + " // TICK "@ + decimal(state.server_tick as nat), at),
{
    if let Some(lobby) = state.lobby {
        let shown = "\nSALLE "@ + lobby.room_id.0@ + " // TICK "@ + decimal(state.server_tick as nat);
        let after = if state.game_started { Seq::<char>::empty() } else { "\n"@ + slot_lines(lobby.slots@) };
        assert(lobby_text(state) =~= shown + after);
        let rest = after + alerts_text(state) + hud_rest(player, state, readings, r);
        assert(hud_text(player, state, readings) =~= hud_top(player, state, r) + shown + rest);
        lemma_middle(hud_top(player, state, r), shown, rest);
    }
}

proof fn lemma_hud_alerts(player: LocalPlayer, state: GameState, readings: Seq<char>, r: CrewRole)
    requires
        player.role == Some(r),
        hud_text(player, state, readings) == hud_top(player, state, r) + lobby_text(state) + alerts_text(state)
            + hud_rest(player, state, readings, r),
    ensures
        state.submarine matches Some(sub) ==> exists|at: int| occurs_at(hud_text(player, state, readings),
            "\nBRUIT     "@ + level_name(sub.acoustic_level) + "\nALERTES   "@, at),
        state.submarine matches Some(sub) ==> exists|at: int| occurs_at(hud_text(player, state, readings),
            alert_list(sub.alerts@), at),
{
    if let Some(sub) = state.submarine {
        let hud = hud_text(player, state, readings);
        let before = hud_top(player, state, r) + lobby_text(state);
        let shown = "\nBRUIT     "@ + level_name(sub.acoustic_level) + "\nALERTES   "@;
        let listed = if sub.alerts@.len() == 0 { "AUCUNE"@ } else { alert_list(sub.alerts@) };
        let rest = hud_rest(player, state, readings, r);
        assert(alerts_text(state) =~= shown + listed);
        assert(hud =~= before + shown + (listed + rest));
        lemma_middle(before, shown, listed + rest);
        if sub.alerts@.len() == 0 {
            assert(hud.subrange(0, 0) =~= alert_list(sub.alerts@));
            assert(occurs_at(hud, alert_list(sub.alerts@), 0));
        } else {
            assert(hud =~= (before + shown) + listed + rest);
            lemma_middle(before + shown, listed, rest);
        }
    }
}

proof fn lemma_hud_controls(player: LocalPlayer, state: GameState, readings: Seq<char>, r: CrewRole)
    requires
        player.role == Some(r),
        hud_text(player, state, readings) == hud_top(player, state, r) + lobby_text(state) + alerts_text(state)
            + hud_rest(player, state, readings, r),
    ensures
        r != CrewRole::Pilot && r != CrewRole::Engineer ==> exists|at: int| occurs_at(hud_text(player, state, readings),
            "\n\nCOMMANDES\n"@ + controls_text(r), at),
        r == CrewRole::Pilot || r == CrewRole::Engineer ==> hud_text(player, state, readings)
            == "SUBMARINE // "@ + role_label_text(r) + "\n"@ + status_text(player, state) + lobby_text(state)
            + alerts_text(state) + error_text(state),
{
    if r != CrewRole::Pilot && r != CrewRole::Engineer {
        let pre = hud_top(player, state, r) + lobby_text(state) + alerts_text(state) + "\n\n"@
            + telemetry_text(state, readings);
        let shown = "\n\nCOMMANDES\n"@ + controls_text(r);
        assert(hud_text(player, state, readings) =~= pre + shown + error_text(state));
        lemma_middle(pre, shown, error_text(state));
    }
}

proof fn lemma_hud_error(player: LocalPlayer, state: GameState, readings: Seq<char>, r: CrewRole)
    requires
        player.role == Some(r),
        hud_text(player, state, readings) == hud_top(player, state, r) + lobby_text(state) + alerts_text(state)
            + hud_rest(player, state, readings, r),
    ensures
        state.last_error matches Some(e) ==> occurs_at(hud_text(player, state, readings), error_label_text(e),
            hud_text(player, state, readings).len() - error_label_text(e).len()),
{
    if let Some(e) = state.last_error {
        let hud = hud_text(player, state, readings);
        let label = error_label_text(e);
        let pre = if r == CrewRole::Pilot || r == CrewRole::Engineer {
            hud_top(player, state, r) + lobby_text(state) + alerts_text(state) + "\n\nERREUR SERVEUR\n"@
        } else {
            hud_top(player, state, r) + lobby_text(state) + alerts_text(state) + "\n\n"@
                + telemetry_text(state, readings) + "\n\nCOMMANDES\n"@ + controls_text(r) + "\n\nERREUR SERVEUR\n"@
        };
        assert(hud =~= pre + label);
        assert(hud.subrange(hud.len() - label.len(), hud.len() as int) =~= label);
    }
}

fn level_str(level: AcousticLevel) -> (r: &'static str)
    ensures
        r@ == level_name(level),
{
    match level {
        AcousticLevel::Silent => "Silent",
        AcousticLevel::Low => "Low",
        AcousticLevel::Notable => "Notable",
        AcousticLevel::Loud => "Loud",
        AcousticLevel::Critical => "Critical",
    }
}

fn push_slot_line(s: &mut String, slot: &RoleSlot)
    ensures
        final(s)@ == old(s)@ + slot_line(*slot),
{
    s.append(role_label(slot.role));
    match slot.occupant {
        RoleOccupant::Human { ready, .. } => {
            s.append(" : HUMAIN ");
            if ready {
                s.append("PRET");
            } else {
                s.append("ATTENTE");
            }
        },
        RoleOccupant::Bot => {
            s.append(" : BOT");
        },
    }
    assert(s@ =~= old(s)@ + slot_line(*slot));
}

fn push_slot_lines(s: &mut String, slots: &Vec<RoleSlot>)
    ensures
        final(s)@ == old(s)@ + slot_lines(slots@),
{
    let ghost start = s@;
    let mut i: usize = 0;
    while i < slots.len()
        invariant
            i <= slots.len(),
            s@ == start + slot_lines(slots@.take(i as int)),
        decreases slots.len() - i,
    {
        proof {
            assert(slots@.take(i + 1).drop_last() =~= slots@.take(i as int));
            assert(slots@.take(i + 1).last() == slots@[i as int]);
        }
        if i > 0 {
            s.append("\n");
        }
        push_slot_line(s, &slots[i]);
        proof {
            if i == 0 {
                assert(slots@.take(0) =~= Seq::<RoleSlot>::empty());
                assert(s@ =~= start + slot_lines(slots@.take(1)));
            } else {
                assert(s@ =~= start + slot_lines(slots@.take(i + 1)));
            }
        }
        i += 1;
    }
    assert(slots@.take(slots.len() as int) =~= slots@);
}

fn push_alert_list(s: &mut String, alerts: &Vec<AlertKind>)
    ensures
        final(s)@ == old(s)@ + alert_list(alerts@),
{
    let ghost start = s@;
    let mut i: usize = 0;
    while i < alerts.len()
        invariant
            i <= alerts.len(),
            s@ == start + alert_list(alerts@.take(i as int)),
        decreases alerts.len() - i,
    {
        proof {
            assert(alerts@.take(i + 1).drop_last() =~= alerts@.take(i as int));
            assert(alerts@.take(i + 1).last() == alerts@[i as int]);
        }
        if i > 0 {
            s.append(" | ");
        }
        s.append(alert_label(&alerts[i]));
        proof {
            if i == 0 {
                assert(alerts@.take(0) =~= Seq::<AlertKind>::empty());
                assert(s@ =~= start + alert_list(alerts@.take(1)));
            } else {
                assert(s@ =~= start + alert_list(alerts@.take(i + 1)));
            }
        }
        i += 1;
    }
    assert(alerts@.take(alerts.len() as int) =~= alerts@);
}

fn push_lobby(s: &mut String, state: &GameState)
    ensures
        final(s)@ == old(s)@ + lobby_text(*state),
{
    match &state.lobby {
        None => {
            assert(s@ =~= old(s)@ + lobby_text(*state));
        },
        Some(lobby) => {
            s.append("\nSALLE ");
            s.append(lobby.room_id.0.as_str());
            s.append(" // TICK ");
            push_decimal(s, state.server_tick);
            if !state.game_started {
                s.append("\n");
                push_slot_lines(s, &lobby.slots);
            }
            assert(s@ =~= old(s)@ + lobby_text(*state));
        },
    }
}

fn push_alerts(s: &mut String, state: &GameState)
    ensures
        final(s)@ == old(s)@ + alerts_text(*state),
{
    match &state.submarine {
        None => {
            s.append("\nBRUIT     ---\nALERTES   ---");
        },
        Some(sub) => {
            s.append("\nBRUIT     ");
            s.append(level_str(sub.acoustic_level));
            s.append("\nALERTES   ");
            if sub.alerts.len() == 0 {
                s.append("AUCUNE");
            } else {
                push_alert_list(s, &sub.alerts);
            }
        },
    }
    assert(s@ =~= old(s)@ + alerts_text(*state));
}

fn push_error(s: &mut String, state: &GameState)
    ensures
        final(s)@ == old(s)@ + error_text(*state),
{
    match &state.last_error {
        None => {},
        Some(e) => {
            s.append("\n\nERREUR SERVEUR\n");
            let label = error_label(e);
            s.append(label.as_str());
        },
    }
    assert(s@ =~= old(s)@ + error_text(*state));
}

/// The text of the head-up display; `readings` are the heading, speed and
/// depth lines as the caller formats them from the last snapshot.
pub fn hud_content(player: &LocalPlayer, state: &GameState, readings: &str) -> (r: String)
    ensures
        r@ == hud_text(*player, *state, readings@),
{
    let role = match player.role {
        None => return String::from_str("SUBMARINE // SELECTION DU POSTE"),
        Some(role) => role,
    };
    let mut s = String::from_str("SUBMARINE // ");
    s.append(role_label(role));
    s.append("\n");
    if state.game_started {
        s.append("PARTIE EN COURS");
    } else if player.id.is_some() {
        s.append("EN ATTENTE DE L'EQUIPAGE");
    } else if player.joined {
        s.append("CONNEXION AU LOBBY");
    } else {
        s.append("CONNEXION AU SERVEUR");
    }
    push_lobby(&mut s, state);
    push_alerts(&mut s, state);
    let pilot_or_engineer = match role {
        CrewRole::Pilot | CrewRole::Engineer => true,
        _ => false,
    };
    if !pilot_or_engineer {
        s.append("\n\n");
        if state.submarine.is_some() {
            s.append(readings);
        } else {
            s.append("CAP       ---\nVITESSE   ---\nPROFONDEUR ---");
        }
        s.append("\n\nCOMMANDES\n");
        s.append(controls_for_role(role));
    }
    push_error(&mut s, state);
    assert(s@ =~= hud_text(*player, *state, readings@));
    s
}

} // verus!
