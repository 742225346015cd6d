//! Declaring and scanning command-line interfaces.
//!
//! A program registers options and positional arguments on a [`CLI`], hands it
//! the tokens of its invocation, and reads the captured values back by name.
//! The functions of this crate are verified against the contracts they carry;
//! the styling of the banners is left to the `coloredpp` crate, behind the
//! contracts of [`style`].

pub mod access;
pub mod cli;
pub mod laws;
pub mod manual;
pub mod model;
pub mod render;
pub mod scan;
pub mod style;
pub mod text;

pub use crate::cli::{Arg, Opt, CLI};
pub use crate::manual::ManualError;
