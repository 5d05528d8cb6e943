//! The ways in which finding a compiler's version can fail.

use crate::decimal::IntFault;
use vstd::prelude::*;

verus! {

/// The error of the operating system for a process that could not be started
/// or waited for. Nothing is known of what it holds.
#[verifier::external_type_specification]
#[verifier::external_body]
pub struct ExIoError(std::io::Error);

/// One of the three numbers of a version.
#[derive(Clone, Copy, Debug, PartialEq, Eq, Structural)]
pub enum Component {
    Major,
    Minor,
    Patch,
}

/// Which component of a version text could not be read, and why.
#[derive(Clone, Copy, Debug, PartialEq, Eq, Structural)]
pub struct ParseFault {
    pub component: Component,
    pub kind: IntFault,
}

/// Why no version was found.
#[derive(Debug)]
pub enum Error {
    /// The compiler could not be run.
    CommandFailed(std::io::Error),
    /// A component of the version text is no number that fits a `usize`.
    ParseFailed(ParseFault),
    /// The compiler belongs to none of the families whose way of reporting a
    /// version is known.
    UnknownCompiler,
    /// The compiler's banner does not hold a version between the words
    /// `Version ` and ` for `.
    BannerNotRecognized,
}

} // verus!
