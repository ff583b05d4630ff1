//! The core of an interactive branch picker: the selection that moves through
//! a list of branch names, the reaction to each key press, and the reading of
//! what the version-control tool prints.

pub mod error;
pub mod gateway;
pub mod interaction;
pub mod selection;
pub mod text;

pub use error::PickerError;
pub use gateway::git_checkout;
pub use selection::{select_next, select_prev};
