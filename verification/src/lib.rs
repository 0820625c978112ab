//! Verified core of a cooperative submarine game: crew roles, the lobby
//! registry that hands out rooms and seats, the command policy of a running
//! mission, the switchboard and alarm rules of the boat, sonar contact
//! classification and the client's session state.

pub mod text;
pub mod crew;
pub mod protocol;
pub mod room_code;
pub mod keyed;
pub mod lobby;
pub mod submarine;
pub mod policy;
pub mod alerts;
pub mod evidence;
pub mod tracks;
pub mod labels;
pub mod client;
pub mod hud;
