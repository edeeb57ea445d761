//! The decisions of `cargo ohos`: everything the tool computes between reading its inputs and
//! running cargo, as functions on plain values with proved contracts.
//!
//! File system access, network requests and child processes stay with the caller. Text is
//! specified over `Seq<char>`, ordered collections over `Map` and `Set`, and the flows that
//! alternate outside work with decisions are functions from what was observed so far to the next
//! action.

pub mod ambient;
pub mod args;
pub mod attestation;
pub mod build_env;
pub mod command;
pub mod digest;
pub mod download;
pub mod laws;
pub mod ordered;
pub mod path;
pub mod prebuilt;
pub mod process;
pub mod run;
pub mod runner;
pub mod rustup;
pub mod sdk;
pub mod shell;
pub mod sort;
pub mod target;
pub mod text;
pub mod toolchain;
