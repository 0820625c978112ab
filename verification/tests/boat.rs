use submarine::alerts::{AlertEvent, AlertKind, AlertMonitor};
use submarine::evidence::Evidence;
use submarine::labels::{alert_label, on_off};
use submarine::submarine::{AcousticProfile, ContactClassification, PropulsionState, PropulsionSwitch};

#[test]
fn alarm_events_fire_only_on_changes() {
    let mut monitor = AlertMonitor::new();
    assert_eq!(
        monitor.update([true, false, false, false]),
        vec![AlertEvent::Raised(AlertKind::BatteryLow)]
    );
    assert!(monitor.update([true, false, false, false]).is_empty());
    assert_eq!(monitor.active_alerts(), vec![AlertKind::BatteryLow]);
    assert_eq!(
        monitor.update([false, true, false, true]),
        vec![
            AlertEvent::Cleared(AlertKind::BatteryLow),
            AlertEvent::Raised(AlertKind::AirCritical),
            AlertEvent::Raised(AlertKind::CriticalDepth)
        ]
    );
    assert_eq!(
        monitor.active_alerts(),
        vec![AlertKind::AirCritical, AlertKind::CriticalDepth]
    );
    assert!(AlertMonitor::new().active_alerts().is_empty());
}

#[test]
fn alarm_texts() {
    assert_eq!(alert_label(&AlertKind::Cavitation), "CAVITATION");
    assert_eq!(alert_label(&AlertKind::CriticalDepth), "PROFONDEUR CRITIQUE");
    assert_eq!(on_off(true), "ON");
    assert_eq!(on_off(false), "OFF");
}

#[test]
fn diesels_and_ventilation_need_the_air_intake() {
    let mut board = PropulsionState::default();
    board.enforce_air_intake(false);
    assert!(!board.diesels_on && !board.ventilation_on);
    assert!(board.electric_motors_on && board.charging);
    board.set_switch(PropulsionSwitch::Diesels, true, false);
    assert!(!board.diesels_on);
    board.set_switch(PropulsionSwitch::Ventilation, true, true);
    assert!(board.ventilation_on);
    board.set_switch(PropulsionSwitch::Charging, false, false);
    assert!(!board.charging);
    let mut surfaced = PropulsionState::default();
    surfaced.enforce_air_intake(true);
    assert_eq!(surfaced, PropulsionState::default());
}

#[test]
fn bot_engineer_runs_what_the_intake_allows() {
    assert_eq!(
        PropulsionState::automated(false, true),
        PropulsionState {
            diesels_on: false,
            electric_motors_on: true,
            ventilation_on: false,
            charging: false
        }
    );
    assert_eq!(
        PropulsionState::automated(true, false),
        PropulsionState {
            diesels_on: true,
            electric_motors_on: true,
            ventilation_on: true,
            charging: false
        }
    );
    assert!(PropulsionState::automated(true, true).charging);
}

#[test]
fn contacts_are_classified_after_three_consistent_observations() {
    let mut evidence = Evidence::new();
    assert_eq!(evidence.add(AcousticProfile::LowFrequency), ContactClassification::Unknown);
    assert_eq!(evidence.add(AcousticProfile::LowFrequency), ContactClassification::Unknown);
    assert_eq!(evidence.add(AcousticProfile::LowFrequency), ContactClassification::Merchant);
    assert_eq!(evidence.add(AcousticProfile::Mixed), ContactClassification::Merchant);
    assert_eq!(evidence, Evidence { merchant: 4, escort: 1 });

    let mut escort = Evidence { merchant: 3, escort: 3 };
    assert_eq!(escort.classify(), ContactClassification::Unknown);
    assert_eq!(escort.add(AcousticProfile::HighFrequency), ContactClassification::Escort);

    let mut full = Evidence { merchant: 255, escort: 254 };
    full.add(AcousticProfile::Mixed);
    assert_eq!(full, Evidence { merchant: 255, escort: 255 });
    assert_eq!(full.classify(), ContactClassification::Unknown);

    let mut merged = Evidence { merchant: 1, escort: 0 };
    assert_eq!(
        merged.absorb(&Evidence { merchant: 2, escort: 1 }),
        ContactClassification::Merchant
    );
    assert_eq!(merged, Evidence { merchant: 3, escort: 1 });
}
