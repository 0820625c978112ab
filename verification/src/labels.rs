//! The texts the client shows for roles, alarms, errors and controls.
use vstd::prelude::*;
use vstd::string::*;
use crate::alerts::AlertKind;
use crate::crew::CrewRole;
use crate::protocol::ProtocolError;
use crate::text::push_char;

verus! {

/// The name shown for a role.
pub open spec fn role_label_text(role: CrewRole) -> Seq<char> {
    match role {
        CrewRole::Captain => "CAPITAINE"@,
        CrewRole::Pilot => "PILOTE"@,
        CrewRole::Sonar => "SONAR"@,
        CrewRole::Engineer => "INGENIEUR"@,
        CrewRole::Weapons => "ARMEMENT"@,
    }
}

/// The name shown for a role.
pub fn role_label(role: CrewRole) -> (r: &'static str)
    ensures
        r@ == role_label_text(role),
{
    match role {
        CrewRole::Captain => "CAPITAINE",
        CrewRole::Pilot => "PILOTE",
        CrewRole::Sonar => "SONAR",
        CrewRole::Engineer => "INGENIEUR",
        CrewRole::Weapons => "ARMEMENT",
    }
}

/// What a role is about, in a word.
pub fn role_summary(role: CrewRole) -> (r: &'static str)
    ensures
        r@ == role_summary_text(role),
{
    match role {
        CrewRole::Captain => "coordination",
        CrewRole::Pilot => "navigation",
        CrewRole::Sonar => "detection",
        CrewRole::Engineer => "reparations",
        CrewRole::Weapons => "torpilles",
    }
}

/// The help text listing a station's controls.
pub open spec fn controls_text(role: CrewRole) -> Seq<char> {
    match role {
        CrewRole::Captain => "ordre tactile vers le bot Pilote"@,
        CrewRole::Pilot => "Gauche/Droite : cap\nHaut/Bas : vitesse\nPgUp/PgDown : profondeur"@,
        CrewRole::Sonar => "Espace/PING : sonar actif\nPistes : selection, partage, fusion, abandon"@,
        CrewRole::Engineer => "1 diesels | 2 electrique | 3 ventilation | 4 recharge | 5 reparation"@,
        CrewRole::Weapons => "Pistes partagees en lecture seule\nEspace : tir dans le cap actuel"@,
    }
}

/// The help text listing a station's controls.
pub fn controls_for_role(role: CrewRole) -> (r: &'static str)
    ensures
        r@ == controls_text(role),
{
    match role {
        CrewRole::Captain => "ordre tactile vers le bot Pilote",
        CrewRole::Pilot => "Gauche/Droite : cap\nHaut/Bas : vitesse\nPgUp/PgDown : profondeur",
        CrewRole::Sonar => "Espace/PING : sonar actif\nPistes : selection, partage, fusion, abandon",
        CrewRole::Engineer => "1 diesels | 2 electrique | 3 ventilation | 4 recharge | 5 reparation",
        CrewRole::Weapons => "Pistes partagees en lecture seule\nEspace : tir dans le cap actuel",
    }
}

/// The name shown for an alarm.
pub open spec fn alert_label_text(alert: AlertKind) -> Seq<char> {
    match alert {
        AlertKind::BatteryLow => "BATTERIE BASSE"@,
        AlertKind::AirCritical => "AIR CRITIQUE"@,
        AlertKind::Cavitation => "CAVITATION"@,
        AlertKind::CriticalDepth => "PROFONDEUR CRITIQUE"@,
    }
}

/// The name shown for an alarm.
pub fn alert_label(alert: &AlertKind) -> (r: &'static str)
    ensures
        r@ == alert_label_text(*alert),
{
    match alert {
        AlertKind::BatteryLow => "BATTERIE BASSE",
        AlertKind::AirCritical => "AIR CRITIQUE",
        AlertKind::Cavitation => "CAVITATION",
        AlertKind::CriticalDepth => "PROFONDEUR CRITIQUE",
    }
}

/// `ON` or `OFF`.
pub fn on_off(active: bool) -> (r: &'static str)
    ensures
        r@ == if active { "ON"@ } else { "OFF"@ },
{
    if active {
        "ON"
    } else {
        "OFF"
    }
}

/// The text shown for a refusal from the server.
pub open spec fn error_label_text(error: ProtocolError) -> Seq<char> {
    match error {
        ProtocolError::RoleAlreadyTaken(role) => "POSTE DEJA PRIS : "@ + role_label_text(role),
        ProtocolError::CommandNotAllowedForRole => "COMMANDE INTERDITE POUR CE POSTE"@,
        ProtocolError::GameNotStarted => "LA PARTIE N'A PAS ENCORE DEMARRE"@,
        ProtocolError::IncompatibleVersion { .. } => "VERSION DE PROTOCOLE INCOMPATIBLE"@,
        ProtocolError::RoomNotFound => "SALLE INTROUVABLE"@,
        ProtocolError::RoomAlreadyStarted => "MISSION DEJA DEMARREE"@,
        ProtocolError::PilotControlledByHuman => "ORDRE BOT BLOQUE : LE PILOTE EST HUMAIN"@,
        ProtocolError::InvalidRoomCode => "CODE SALLE INVALIDE : 6 CHIFFRES REQUIS"@,
        ProtocolError::ConnectionFailed => "CONNEXION AU SERVEUR IMPOSSIBLE"@,
        ProtocolError::TrackNotFound(_) => "PISTE INTROUVABLE"@,
        ProtocolError::InvalidTrackMerge => "FUSION DE PISTES IMPOSSIBLE"@,
        ProtocolError::SonarPingCoolingDown => "SONAR EN RECHARGE"@,
    }
}

/// The text shown for a refusal from the server.
pub fn error_label(error: &ProtocolError) -> (r: String)
    ensures
        r@ == error_label_text(*error),
{
    match error {
        ProtocolError::RoleAlreadyTaken(role) => {
            let mut s = String::from_str("POSTE DEJA PRIS : ");
            s.append(role_label(*role));
            s
        },
        ProtocolError::CommandNotAllowedForRole => String::from_str("COMMANDE INTERDITE POUR CE POSTE"),
        ProtocolError::GameNotStarted => String::from_str("LA PARTIE N'A PAS ENCORE DEMARRE"),
        ProtocolError::IncompatibleVersion { .. } => String::from_str("VERSION DE PROTOCOLE INCOMPATIBLE"),
        ProtocolError::RoomNotFound => String::from_str("SALLE INTROUVABLE"),
        ProtocolError::RoomAlreadyStarted => String::from_str("MISSION DEJA DEMARREE"),
        ProtocolError::PilotControlledByHuman => String::from_str("ORDRE BOT BLOQUE : LE PILOTE EST HUMAIN"),
        ProtocolError::InvalidRoomCode => String::from_str("CODE SALLE INVALIDE : 6 CHIFFRES REQUIS"),
        ProtocolError::ConnectionFailed => String::from_str("CONNEXION AU SERVEUR IMPOSSIBLE"),
        ProtocolError::TrackNotFound(_) => String::from_str("PISTE INTROUVABLE"),
        ProtocolError::InvalidTrackMerge => String::from_str("FUSION DE PISTES IMPOSSIBLE"),
        ProtocolError::SonarPingCoolingDown => String::from_str("SONAR EN RECHARGE"),
    }
}

/// The text of a role's button on the selector, marked when selected.
pub open spec fn role_button_text_of(role: CrewRole, selected: bool) -> Seq<char> {
    (if selected { "> "@ } else { Seq::empty() }) + role_label_text(role) + "  //  "@ + role_summary_text(role)
}

/// What a role is about, in a word.
pub open spec fn role_summary_text(role: CrewRole) -> Seq<char> {
    match role {
        CrewRole::Captain => "coordination"@,
        CrewRole::Pilot => "navigation"@,
        CrewRole::Sonar => "detection"@,
        CrewRole::Engineer => "reparations"@,
        CrewRole::Weapons => "torpilles"@,
    }
}

/// The text of a role's button on the selector.
pub fn role_button_text(role: CrewRole, selected: bool) -> (r: String)
    ensures
        r@ == role_button_text_of(role, selected),
{
    let mut s = String::new();
    if selected {
        s.append("> ");
    }
    s.append(role_label(role));
    s.append("  //  ");
    s.append(role_summary(role));
    assert(s@ =~= role_button_text_of(role, selected));
    s
}

/// `k` underscores.
pub open spec fn underscores(k: nat) -> Seq<char> {
    Seq::new(k, |i: int| '_')
}

/// The typed room code, padded with underscores to six characters.
pub open spec fn room_code_line_of(code: Seq<char>) -> Seq<char> {
    "CODE SALLE : "@ + code + if code.len() < 6 { underscores((6 - code.len()) as nat) } else { Seq::empty() }
}

/// The line showing the typed room code.
pub fn room_code_line(code: &str) -> (r: String)
    ensures
        r@ == room_code_line_of(code@),
{
    let mut s = String::from_str("CODE SALLE : ");
    s.append(code);
    let n = code.unicode_len();
    let mut k: usize = n;
    while k < 6
        invariant
            n == code@.len(),
            n <= k <= 6 || (n > 6 && k == n),
            s@ == "CODE SALLE : "@ + code@ + underscores((k - n) as nat),
        decreases 6 - k,
    {
        push_char(&mut s, '_');
        assert(underscores((k + 1 - n) as nat) =~= underscores((k - n) as nat).push('_'));
        k += 1;
    }
    assert(s@ =~= room_code_line_of(code@));
    s
}

/// The error line of the selector: the last refusal, if any.
pub fn selector_error_text(error: Option<&ProtocolError>) -> (r: String)
    ensures
        r@ == match error {
            Some(e) => error_label_text(*e),
            None => Seq::<char>::empty(),
        },
{
    match error {
        Some(e) => error_label(e),
        None => String::new(),
    }
}

} // verus!
