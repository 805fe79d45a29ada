//! gitswitch: manage and switch between multiple GitHub accounts.
pub mod console;
pub mod error;
pub mod gh;
pub mod git;
pub mod model;
pub mod process;
pub mod secrets;
pub mod service;
pub mod store;
pub mod testing;
pub mod text;
pub mod tui;

pub use error::{Error, Result};
pub use model::Account;
