//! Predictive local echo for a terminal connection.
//!
//! What is typed is shown at once as a prediction, held against what the server
//! prints, and taken back if the server prints something else.

pub mod adaptive;
pub mod alt_screen;
pub mod ansi;
pub mod cli;
pub mod clock;
pub mod command;
pub mod echo;
pub mod emulator;
pub mod input;
pub mod logging;
pub mod osc;
pub mod output;
pub mod prediction;
pub mod screen;
pub mod server_buffer;
pub mod session;
pub mod terminal;
pub mod text;
pub mod utf8;
