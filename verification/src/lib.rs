//! Core of an interactive dashboard for browsing remote tables: the value
//! model for remote attribute data, the table view model, the event-driven
//! application state machine, and the tick-scheduling rules of the input
//! source. Terminal handling, network fetches and rendering live outside
//! this crate; they exchange plain values with it.

pub mod numeric;
pub mod state;
pub mod table;
pub mod timing;
pub mod value;
