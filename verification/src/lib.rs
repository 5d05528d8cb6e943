//! Versions of C and C++ compilers: a comparable version value, the text
//! formats in which the common compiler families report it, and the decisions
//! of a detector that asks a compiler for its version.

pub mod decimal;
pub mod detect;
pub mod error;
pub mod order;
pub mod text;
pub mod version;

pub use crate::detect::{cc_version, conclude, detect, get_msvc_version, Family, Query, Stream};
pub use crate::error::{Component, Error, ParseFault};
pub use crate::version::Version;
