//! The machine's memory: the tape and the configuration around it.

mod configuration;
mod tape;

pub use configuration::{Configuration, ConfigurationView};
pub use tape::Tape;
