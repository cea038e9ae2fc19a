//! The error taxonomy shared by every fallible operation of the library.

use vstd::prelude::*;

verus! {

/// Why an invocation failed. Every variant is fatal to the current
/// invocation except `VaultKeyUnavailable`, which tells the caller that the
/// resolver needs the named vault object before it can finish.
#[derive(Debug, PartialEq, Eq)]
pub enum SoclessError {
    /// A lookup key was absent from a store table.
    NotFoundError { key: String, table: String },
    /// A declared reference path names a key that does not exist.
    ResolutionError { key: String, path: String },
    /// The resolver needs the content of this vault object; the caller
    /// should fetch it and retry.
    VaultKeyUnavailable { key: String },
    /// A value did not have the shape the protocol requires.
    MalformedError { message: String },
    /// The caller broke a protocol contract, e.g. completed the same human
    /// interaction twice.
    ContractViolation { message: String },
}

/// Mathematical view of an error.
pub enum SoclessErrorV {
    NotFoundError { key: Seq<char>, table: Seq<char> },
    ResolutionError { key: Seq<char>, path: Seq<char> },
    VaultKeyUnavailable { key: Seq<char> },
    MalformedError { message: Seq<char> },
    ContractViolation { message: Seq<char> },
}

impl View for SoclessError {
    type V = SoclessErrorV;

    open spec fn view(&self) -> SoclessErrorV {
        match self {
            SoclessError::NotFoundError { key, table } => SoclessErrorV::NotFoundError {
                key: key@,
                table: table@,
            },
            SoclessError::ResolutionError { key, path } => SoclessErrorV::ResolutionError {
                key: key@,
                path: path@,
            },
            SoclessError::VaultKeyUnavailable { key } => SoclessErrorV::VaultKeyUnavailable {
                key: key@,
            },
            SoclessError::MalformedError { message } => SoclessErrorV::MalformedError {
                message: message@,
            },
            SoclessError::ContractViolation { message } => SoclessErrorV::ContractViolation {
                message: message@,
            },
        }
    }
}

impl SoclessError {
    /// A human-readable description of the error.
    pub fn describe(&self) -> String {
        match self {
            SoclessError::NotFoundError { key, table } => {
                let mut s = String::new();
                s.append("key: ");
                s.append(key.as_str());
                s.append(" not found in table: ");
                s.append(table.as_str());
                s
            },
            SoclessError::ResolutionError { key, path } => {
                let mut s = String::new();
                s.append("Unable to resolve key ");
                s.append(key.as_str());
                s.append(", parent object does not exist. Full path: ");
                s.append(path.as_str());
                s
            },
            SoclessError::VaultKeyUnavailable { key } => {
                let mut s = String::new();
                s.append("vault object not yet available: ");
                s.append(key.as_str());
                s
            },
            SoclessError::MalformedError { message } => message.clone(),
            SoclessError::ContractViolation { message } => message.clone(),
        }
    }
}

} // verus!
