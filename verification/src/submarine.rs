//! The boat's discrete state: dive and ballast states, noise levels, sonar
//! modes and profiles, and the propulsion switchboard with its rules.
use vstd::prelude::*;

verus! {

/// How deep the boat rides.
#[derive(Debug, Clone, Copy, PartialEq, Eq, Hash, Structural)]
pub enum DiveState {
    Surface,
    Periscope,
    Submerged,
}

/// What the ballast tanks are doing.
#[derive(Debug, Clone, Copy, PartialEq, Eq, Hash, Structural)]
pub enum BallastState {
    Flood,
    Hold,
    Blow,
}

/// How loud the boat is.
#[derive(Debug, Clone, Copy, PartialEq, Eq, Hash, Structural)]
pub enum AcousticLevel {
    Silent,
    Low,
    Notable,
    Loud,
    Critical,
}

/// How a sonar observation was made.
#[derive(Debug, Clone, Copy, PartialEq, Eq, Hash, Structural)]
pub enum ObservationMode {
    Passive,
    Active,
}

/// The acoustic character of a contact.
#[derive(Debug, Clone, Copy, PartialEq, Eq, Hash, Structural)]
pub enum AcousticProfile {
    LowFrequency,
    HighFrequency,
    Mixed,
}

/// What a contact is believed to be.
#[derive(Debug, Clone, Copy, PartialEq, Eq, Hash, Structural)]
pub enum ContactClassification {
    Unknown,
    Merchant,
    Escort,
}

/// The propulsion switchboard.
#[derive(Debug, Clone, Copy, PartialEq, Eq, Structural)]
pub struct PropulsionState {
    pub diesels_on: bool,
    pub electric_motors_on: bool,
    pub ventilation_on: bool,
    pub charging: bool,
}

impl Default for PropulsionState {
    /// Everything switched on.
    fn default() -> (r: Self)
        ensures
            r == (PropulsionState { diesels_on: true, electric_motors_on: true, ventilation_on: true, charging: true }),
    {
        PropulsionState { diesels_on: true, electric_motors_on: true, ventilation_on: true, charging: true }
    }
}

/// The four switches an engineer can throw.
#[derive(Debug, Clone, Copy, PartialEq, Eq, Structural)]
pub enum PropulsionSwitch {
    Diesels,
    ElectricMotors,
    Ventilation,
    Charging,
}

/// Nothing that needs outside air runs while the air intake is closed.
pub open spec fn respects_intake(p: PropulsionState, intake: bool) -> bool {
    !intake ==> !p.diesels_on && !p.ventilation_on
}

/// The board after `switch` was set to `enabled`: diesels and ventilation
/// only start while the air intake is available.
pub open spec fn switched(p: PropulsionState, switch: PropulsionSwitch, enabled: bool, intake: bool) -> PropulsionState {
    match switch {
        PropulsionSwitch::Diesels => PropulsionState { diesels_on: enabled && intake, ..p },
        PropulsionSwitch::ElectricMotors => PropulsionState { electric_motors_on: enabled, ..p },
        PropulsionSwitch::Ventilation => PropulsionState { ventilation_on: enabled && intake, ..p },
        PropulsionSwitch::Charging => PropulsionState { charging: enabled, ..p },
    }
}

impl PropulsionState {
    /// Sets one switch; diesels and ventilation stay off without air intake.
    pub fn set_switch(&mut self, switch: PropulsionSwitch, enabled: bool, air_intake_available: bool)
        ensures
            *final(self) == switched(*old(self), switch, enabled, air_intake_available),
            switch_on(*final(self), switch) == (match switch {
                PropulsionSwitch::Diesels | PropulsionSwitch::Ventilation => enabled && air_intake_available,
                PropulsionSwitch::ElectricMotors | PropulsionSwitch::Charging => enabled,
            }),
            forall|other: PropulsionSwitch| other != switch ==> switch_on(*final(self), other) == switch_on(*old(self), other),
    {
        match switch {
            PropulsionSwitch::Diesels => self.diesels_on = enabled && air_intake_available,
            PropulsionSwitch::ElectricMotors => self.electric_motors_on = enabled,
            PropulsionSwitch::Ventilation => self.ventilation_on = enabled && air_intake_available,
            PropulsionSwitch::Charging => self.charging = enabled,
        }
    }

    /// Shuts diesels and ventilation down when the air intake is closed.
    pub fn enforce_air_intake(&mut self, air_intake_available: bool)
        ensures
            air_intake_available ==> *final(self) == *old(self),
            !air_intake_available ==> *final(self) == (PropulsionState { diesels_on: false, ventilation_on: false, ..*old(self) }),
    {
        if !air_intake_available {
            self.diesels_on = false;
            self.ventilation_on = false;
        }
    }

    /// The board a bot engineer keeps: motors on, diesels and ventilation
    /// exactly while air comes in, charging while air comes in and the
    /// battery is not full.
    pub fn automated(air_intake_available: bool, battery_not_full: bool) -> (r: PropulsionState)
        ensures
            r == (PropulsionState {
                diesels_on: air_intake_available,
                electric_motors_on: true,
                ventilation_on: air_intake_available,
                charging: air_intake_available && battery_not_full,
            }),
    {
        PropulsionState {
            diesels_on: air_intake_available,
            electric_motors_on: true,
            ventilation_on: air_intake_available,
            charging: air_intake_available && battery_not_full,
        }
    }

    /// Whether the switch is on.
    pub fn is_on(&self, switch: PropulsionSwitch) -> (r: bool)
        ensures
            r == switch_on(*self, switch),
    {
        match switch {
            PropulsionSwitch::Diesels => self.diesels_on,
            PropulsionSwitch::ElectricMotors => self.electric_motors_on,
            PropulsionSwitch::Ventilation => self.ventilation_on,
            PropulsionSwitch::Charging => self.charging,
        }
    }
}

/// Whether `switch` is on in `p`.
pub open spec fn switch_on(p: PropulsionState, switch: PropulsionSwitch) -> bool {
    match switch {
        PropulsionSwitch::Diesels => p.diesels_on,
        PropulsionSwitch::ElectricMotors => p.electric_motors_on,
        PropulsionSwitch::Ventilation => p.ventilation_on,
        PropulsionSwitch::Charging => p.charging,
    }
}

/// Closing the air intake always leaves a board that respects it, and every
/// switch and the engineer bot keep a board respecting the intake so.
pub proof fn lemma_air_intake_respected(p: PropulsionState, switch: PropulsionSwitch, enabled: bool, intake: bool, not_full: bool)
    ensures
        respects_intake(
            if intake { p } else { PropulsionState { diesels_on: false, ventilation_on: false, ..p } },
            intake,
        ),
        respects_intake(p, intake) ==> respects_intake(switched(p, switch, enabled, intake), intake),
        respects_intake(
            PropulsionState {
                diesels_on: intake,
                electric_motors_on: true,
                ventilation_on: intake,
                charging: intake && not_full,
            },
            intake,
        ),
{
}

/// Setting a switch sets exactly that switch: the electric motors and the
/// charging take the requested value whatever the air intake; the diesels
/// and the ventilation take it only while air comes in, and stay off
/// otherwise; every other switch keeps its setting.
pub proof fn lemma_switch_sets_one(p: PropulsionState, switch: PropulsionSwitch, other: PropulsionSwitch, enabled: bool, intake: bool)
    ensures
        switched(p, PropulsionSwitch::ElectricMotors, enabled, intake).electric_motors_on == enabled,
        switched(p, PropulsionSwitch::Charging, enabled, intake).charging == enabled,
        switched(p, PropulsionSwitch::Diesels, enabled, intake).diesels_on == (enabled && intake),
        switched(p, PropulsionSwitch::Ventilation, enabled, intake).ventilation_on == (enabled && intake),
        intake ==> switch_on(switched(p, switch, enabled, intake), switch) == enabled,
        other != switch ==> switch_on(switched(p, switch, enabled, intake), other) == switch_on(p, other),
{
}

} // verus!
