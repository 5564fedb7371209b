//! Control logic of a two-tube nixie people counter: button debouncing,
//! the saturating counter, the display encoder, the AT command link,
//! the connection state machine and the count reporting rules.

pub mod command;
pub mod connectivity;
pub mod counter;
pub mod nixie;
pub mod report;
pub mod toggle_switch;

pub use nixie::{NixieTube, NixieTubePair, BLANK};
