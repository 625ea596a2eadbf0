//! Errors of the configuration front end.

use vstd::prelude::*;
use vfs::VfsError;

verus! {

/// Why a build step failed.
#[derive(Debug)]
pub enum HEMTTError {
    /// No file was found for an include target. The cause is the error of
    /// the first lookup, the one beside the including file.
    FileNotFound(VfsError),
}

/// Why a parse tree could not be simplified.
#[derive(Debug, Clone, PartialEq, Eq)]
pub enum ArmaConfigError {
    /// The tree has not been macro-expanded yet.
    NotProcessed,
    /// The root of the tree is not a `Config` statement.
    NotRoot,
    /// A property holds a value of an unsupported shape.
    InvalidProperty(String),
    /// The tree holds a statement in a position where the grammar never
    /// puts one: a fault of the parser, not of the author of the file.
    InternalStructuralDefect(String),
}

/// The mathematical value of an [`ArmaConfigError`].
pub enum ErrorModel {
    NotProcessed,
    NotRoot,
    InvalidProperty(Seq<char>),
    InternalStructuralDefect(Seq<char>),
}

impl View for ArmaConfigError {
    type V = ErrorModel;

    open spec fn view(&self) -> ErrorModel {
        match self {
            ArmaConfigError::NotProcessed => ErrorModel::NotProcessed,
            ArmaConfigError::NotRoot => ErrorModel::NotRoot,
            ArmaConfigError::InvalidProperty(text) => ErrorModel::InvalidProperty(text@),
            ArmaConfigError::InternalStructuralDefect(text) => ErrorModel::InternalStructuralDefect(
                text@,
            ),
        }
    }
}

} // verus!
