//! Verified core of a campus information screen: the canteen menu, the next
//! departures of a stop and the weather, turned from service replies into the
//! rows that the terminal front end draws.

pub mod mensa;
pub mod monitor;
pub mod text;
pub mod train;
pub mod weather;
