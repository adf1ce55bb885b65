//! The error type returned by header generation.

use vstd::prelude::*;
use crate::validate::{
    UnresolvedTypesError, UnrepresentableTypesError, unresolved_message, unrepresentable_message,
    uses_view, reports_view,
};
use crate::text::{owned, copy_string};

verus! {

/// Everything that can go wrong while generating a C header.
///
/// Paths are held as the text they were given as, and the failures of
/// outside tools as their messages.
#[derive(Debug)]
#[non_exhaustive]
pub enum TerraffiError {
    /// The configured crate directory does not exist, or is not a directory.
    CrateDirNotFound(String),
    /// `cargo metadata` could not be run for the crate manifest.
    CargoMetadata {
        /// The manifest `cargo metadata` was pointed at.
        manifest_path: String,
        /// The failure reported by `cargo metadata`.
        message: String,
    },
    /// The manifest describes a workspace rather than a single package.
    NoRootPackage(String),
    /// A source file could not be read.
    ReadSource {
        /// The file that could not be read.
        path: String,
        /// The underlying I/O failure.
        message: String,
    },
    /// A source file could not be parsed as Rust.
    ParseSource {
        /// The file that could not be parsed.
        path: String,
        /// The parser's message.
        message: String,
    },
    /// An item could not be converted into a C declaration.
    UnsupportedItem(String),
    /// The header would reference types that it does not declare.
    UnresolvedTypes(UnresolvedTypesError),
    /// A declaration uses a type C cannot express where it is used.
    UnrepresentableTypes(UnrepresentableTypesError),
    /// The header could not be written.
    Write,
}

/// The message of an error.
pub open spec fn error_message(e: TerraffiError) -> Seq<char> {
    match e {
        TerraffiError::CrateDirNotFound(path) => "crate directory `"@ + path@ + "` is not a directory"@,
        TerraffiError::CargoMetadata { manifest_path, message } => "could not read cargo metadata for `"@
            + manifest_path@ + "`: "@ + message@,
        TerraffiError::NoRootPackage(manifest_path) => "could not determine the root package from `"@
            + manifest_path@
            + "`. The manifest path must point at a specific package's Cargo.toml, not a workspace virtual manifest"@,
        TerraffiError::ReadSource { path, message } => "could not read `"@ + path@ + "`: "@ + message@,
        TerraffiError::ParseSource { path, message } => "could not parse `"@ + path@ + "`: "@ + message@,
        TerraffiError::UnsupportedItem(message) => message@,
        TerraffiError::UnresolvedTypes(e) => unresolved_message(uses_view(e.unresolved@)),
        TerraffiError::UnrepresentableTypes(e) => unrepresentable_message(reports_view(e.unrepresentable@)),
        TerraffiError::Write => "could not write the header: an error occurred when formatting an argument"@,
    }
}

fn cat3(a: &str, b: &String, c: &str) -> (r: String)
    ensures
        r@ == a@ + b@ + c@,
{
    let mut s = owned(a);
    s.append(b.as_str());
    s.append(c);
    s
}

impl TerraffiError {
    /// The error's message (see [`error_message`]).
    pub fn to_string(&self) -> (r: String)
        ensures
            r@ == error_message(*self),
    {
        match self {
            TerraffiError::CrateDirNotFound(path) => cat3("crate directory `", path, "` is not a directory"),
            TerraffiError::CargoMetadata { manifest_path, message } => {
                let mut s = cat3("could not read cargo metadata for `", manifest_path, "`: ");
                s.append(message.as_str());
                s
            },
            TerraffiError::NoRootPackage(manifest_path) => cat3(
                "could not determine the root package from `",
                manifest_path,
                "`. The manifest path must point at a specific package's Cargo.toml, not a workspace virtual manifest",
            ),
            TerraffiError::ReadSource { path, message } => {
                let mut s = cat3("could not read `", path, "`: ");
                s.append(message.as_str());
                s
            },
            TerraffiError::ParseSource { path, message } => {
                let mut s = cat3("could not parse `", path, "`: ");
                s.append(message.as_str());
                s
            },
            TerraffiError::UnsupportedItem(message) => copy_string(message),
            TerraffiError::UnresolvedTypes(e) => e.to_string(),
            TerraffiError::UnrepresentableTypes(e) => e.to_string(),
            TerraffiError::Write => owned("could not write the header: an error occurred when formatting an argument"),
        }
    }

    /// The message of the underlying cause, where there is one: the I/O
    /// failure of an unreadable file, or the validation error.
    pub fn source(&self) -> (r: Option<String>)
        ensures
            match *self {
                TerraffiError::ReadSource { message, .. } => r matches Some(s) && s@ == message@,
                TerraffiError::UnresolvedTypes(e) => r matches Some(s) && s@ == unresolved_message(
                    uses_view(e.unresolved@),
                ),
                TerraffiError::UnrepresentableTypes(e) => r matches Some(s) && s@ == unrepresentable_message(
                    reports_view(e.unrepresentable@),
                ),
                TerraffiError::Write => r matches Some(s) && s@
                    == "an error occurred when formatting an argument"@,
                _ => r is None,
            },
    {
        match self {
            TerraffiError::ReadSource { message, .. } => Some(copy_string(message)),
            TerraffiError::UnresolvedTypes(e) => Some(e.to_string()),
            TerraffiError::UnrepresentableTypes(e) => Some(e.to_string()),
            TerraffiError::Write => Some(owned("an error occurred when formatting an argument")),
            _ => None,
        }
    }

    /// Wraps unresolved types.
    pub fn from_unresolved(value: UnresolvedTypesError) -> (r: TerraffiError)
        ensures
            r matches TerraffiError::UnresolvedTypes(e) && e == value,
    {
        TerraffiError::UnresolvedTypes(value)
    }

    /// Wraps unrepresentable types.
    pub fn from_unrepresentable(value: UnrepresentableTypesError) -> (r: TerraffiError)
        ensures
            r matches TerraffiError::UnrepresentableTypes(e) && e == value,
    {
        TerraffiError::UnrepresentableTypes(value)
    }
}

} // verus!
