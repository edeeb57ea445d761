//! What holds of the library as a whole, and of how its functions go together.

pub mod arguments;
pub mod cmake;
pub mod commands;
pub mod composition;
pub mod environment;
pub mod flags;
pub mod installs;
pub mod paths;
pub mod releases;
pub mod runs;
pub mod sdk;
pub mod shell;
pub mod steps;
pub mod success;
pub mod target;
pub mod text;
pub mod toolchains;
