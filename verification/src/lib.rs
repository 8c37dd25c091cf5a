//! Verified core of micro-gui: the wire protocol, frame model, Kitty
//! graphics encoding, session bookkeeping and command-line parsing.

pub mod session;
pub mod cli;
pub mod display;
pub mod protocol;
pub mod renderer;
pub mod runtime;
pub mod terminal;
pub mod text;
