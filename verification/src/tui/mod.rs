//! The interactive terminal interface: its state and how keys change it.
pub mod app;
pub mod view;
