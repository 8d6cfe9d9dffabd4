//! The errors that decoding and indexing report.
use vstd::prelude::*;

verus! {

/// Why a text or an object could not be decoded. Every one of them is for
/// the caller to handle: the input is rejected, nothing else is affected.
#[derive(Debug, Clone, PartialEq, Eq)]
pub enum DecodeError {
    /// The input does not have the shape of the encoding at all.
    InvalidFormat,
    /// A required field, named here, is absent.
    MissingField(String),
    /// The field named here is present, but its value has the wrong shape.
    InvalidValue(String),
    /// The type discriminator names no known variant.
    UnknownVariant,
}

/// What a [`DecodeError`] says, with field names as plain text.
pub enum DecodeErrorView {
    InvalidFormat,
    MissingField(Seq<char>),
    InvalidValue(Seq<char>),
    UnknownVariant,
}

impl View for DecodeError {
    type V = DecodeErrorView;

    open spec fn view(&self) -> DecodeErrorView {
        match self {
            DecodeError::InvalidFormat => DecodeErrorView::InvalidFormat,
            DecodeError::MissingField(name) => DecodeErrorView::MissingField(name@),
            DecodeError::InvalidValue(name) => DecodeErrorView::InvalidValue(name@),
            DecodeError::UnknownVariant => DecodeErrorView::UnknownVariant,
        }
    }
}

/// Why an indexing run ended without having replaced the catalog. A run
/// that fails has committed nothing.
#[derive(Debug, Clone, PartialEq, Eq)]
pub enum IndexError {
    /// The root named here could not be enumerated at all.
    UnreachableRoot(String),
    /// The catalog store did not take the commit.
    StorageUnavailable,
    /// The machine could not be identified.
    IdentityUnavailable,
}

/// What an [`IndexError`] says, with the root as plain text.
pub enum IndexErrorView {
    UnreachableRoot(Seq<char>),
    StorageUnavailable,
    IdentityUnavailable,
}

impl View for IndexError {
    type V = IndexErrorView;

    open spec fn view(&self) -> IndexErrorView {
        match self {
            IndexError::UnreachableRoot(root) => IndexErrorView::UnreachableRoot(root@),
            IndexError::StorageUnavailable => IndexErrorView::StorageUnavailable,
            IndexError::IdentityUnavailable => IndexErrorView::IdentityUnavailable,
        }
    }
}

} // verus!
