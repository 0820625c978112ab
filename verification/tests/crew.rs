use submarine::crew::{current_role, current_role_from_query, parse_role, role_from_query, CrewRole};
use submarine::labels::{controls_for_role, role_label, role_summary};

#[test]
fn parses_all_roles_case_insensitively() {
    assert_eq!(parse_role("captain"), Some(CrewRole::Captain));
    assert_eq!(parse_role("PILOT"), Some(CrewRole::Pilot));
    assert_eq!(parse_role("Sonar"), Some(CrewRole::Sonar));
    assert_eq!(parse_role("engineer"), Some(CrewRole::Engineer));
    assert_eq!(parse_role("weapons"), Some(CrewRole::Weapons));
}

#[test]
fn rejects_unknown_roles() {
    assert_eq!(parse_role("navigator"), None);
    assert_eq!(parse_role(""), None);
}

#[test]
fn extracts_role_from_query_parameters() {
    assert_eq!(role_from_query("?role=pilot"), Some(CrewRole::Pilot));
    assert_eq!(
        role_from_query("?debug=true&ROLE=weapons"),
        Some(CrewRole::Weapons)
    );
    assert_eq!(role_from_query("?debug=true"), None);
}

#[test]
fn role_names_must_match_whole_words() {
    assert_eq!(parse_role("pilots"), None);
    assert_eq!(parse_role("pilo"), None);
    assert_eq!(parse_role(" pilot"), None);
    assert_eq!(parse_role("WeApOnS"), Some(CrewRole::Weapons));
}

#[test]
fn query_skips_every_leading_mark_and_stops_at_first_role_key() {
    assert_eq!(role_from_query("??role=sonar"), Some(CrewRole::Sonar));
    assert_eq!(role_from_query("role=engineer"), Some(CrewRole::Engineer));
    assert_eq!(role_from_query("?role=navigator&role=pilot"), None);
    assert_eq!(role_from_query("?flag&Role=captain"), Some(CrewRole::Captain));
    assert_eq!(role_from_query("?role"), None);
    assert_eq!(role_from_query(""), None);
    assert_eq!(role_from_query("?x=1&&role=weapons&"), Some(CrewRole::Weapons));
    assert_eq!(role_from_query("?role=pilot=2"), None);
}

#[test]
fn all_roles_come_in_station_order() {
    assert_eq!(
        CrewRole::all(),
        [
            CrewRole::Captain,
            CrewRole::Pilot,
            CrewRole::Sonar,
            CrewRole::Engineer,
            CrewRole::Weapons
        ]
    );
}

#[test]
fn role_texts_name_each_station() {
    assert_eq!(role_label(CrewRole::Engineer), "INGENIEUR");
    assert_eq!(role_summary(CrewRole::Weapons), "torpilles");
    assert_eq!(
        controls_for_role(CrewRole::Pilot),
        "Gauche/Droite : cap\nHaut/Bas : vitesse\nPgUp/PgDown : profondeur"
    );
}

#[test]
fn the_role_defaults_to_captain() {
    assert_eq!(current_role(None), CrewRole::Captain);
    assert_eq!(current_role(Some("Engineer")), CrewRole::Engineer);
    assert_eq!(current_role(Some("cook")), CrewRole::Captain);
    assert_eq!(current_role_from_query(None), CrewRole::Captain);
    assert_eq!(current_role_from_query(Some("?room=1&ROLE=weapons")), CrewRole::Weapons);
    assert_eq!(current_role_from_query(Some("?role=")), CrewRole::Captain);
}
