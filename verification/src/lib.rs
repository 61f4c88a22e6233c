//! Core logic of the `tuipe` terminal typing trainer: the test options, the
//! typing session state machine, word selection, argument parsing and the
//! text that each screen shows.

pub mod text;
pub mod options;
pub mod session;
pub mod layout;
pub mod words;
pub mod flagger;
pub mod screens;
pub mod maintenance;
