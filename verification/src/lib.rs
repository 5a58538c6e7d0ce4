//! Verified core of an automated release workflow for projects kept in a
//! version-control repository.
//!
//! The library covers the decision logic of a release run: semantic-version
//! parsing, comparison and increments, resolution of the latest release tag
//! under an optional base constraint, pattern-based rewriting of the
//! manifest's version field, validation of command results, and the ordered
//! state machine that drives the external side-effecting steps. All external
//! commands (version control, build toolchain) and file access are performed
//! by an unverified driver that feeds their results back into the state
//! machine as plain values.

use vstd::prelude::*;

pub mod command;
pub mod constraint;
pub mod lines;
pub mod machine;
pub mod manifest;
pub mod order;
pub mod tags;
pub mod version;

verus! {

/// The error taxonomy of a release run. Every failure is fatal: the workflow
/// is a strict linear pipeline and the first error aborts all later states.
#[derive(Debug)]
pub enum ReleaseError {
    /// Malformed version or constraint text, or an illegal combination of
    /// base constraint and release policy.
    FormatError,
    /// The base constraint excludes every release tag.
    NoMatchingVersion,
    /// The manifest has no line matching the version-field pattern.
    VersionFieldNotFound,
    /// The computed target version already exists as a release tag.
    VersionAlreadyReleased,
    /// The repository status reported local changes; carries the status output.
    DirtyRepository { detail: Vec<u8> },
    /// Commits exist upstream that are not local; carries the revision list.
    BehindUpstream { detail: Vec<u8> },
    /// Switching to the requested branch or commit failed; carries the
    /// tool's diagnostic text.
    CheckoutFailed { detail: Vec<u8> },
    /// An external command exited with a non-zero status; carries its
    /// captured standard error.
    CommandFailed { detail: Vec<u8> },
    /// A command that must stay silent produced output; carries its captured
    /// standard output.
    UnexpectedOutput { detail: Vec<u8> },
}

} // verus!
