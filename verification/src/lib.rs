//! A launcher for the web service of `dsh`, as a library of decisions.
//!
//! The library does no input or output. It says what the system is to be asked and told, takes the
//! replies as plain values, and decides what follows:
//!
//! - [`config`] reads the command line and settles what a run goes by;
//! - [`entry`], [`paths`] and [`resolve`] find the entry to start;
//! - [`wait`] and [`net`] wait for the service to come up;
//! - [`browser`] and [`tray`] look after what the user sees of it;
//! - [`run`] puts these together, in the terms of [`protocol`].
//!
//! What holds of the search, of the configuration and of a run as a whole stands in
//! [`resolve_laws`], [`config_laws`] and [`run_laws`]. What each question, reply, file and text leads
//! to stands in [`search_laws`], [`wait_laws`], [`course_laws`], [`entry_laws`] and [`text_laws`].
pub mod browser;
pub mod clock;
pub mod config;
pub mod config_laws;
pub mod course_laws;
pub mod entry;
pub mod entry_laws;
pub mod net;
pub mod paths;
pub mod protocol;
pub mod resolve;
pub mod resolve_laws;
pub mod run;
pub mod run_laws;
pub mod search_laws;
pub mod text;
pub mod text_laws;
pub mod tray;
pub mod ui;
pub mod utf16;
pub mod wait;
pub mod wait_laws;
