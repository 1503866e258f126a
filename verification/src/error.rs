//! Failures of a filter chain.

use vstd::prelude::*;

verus! {

/// Why the graphics backend could not deliver a surface.
#[derive(Clone, Copy, Debug, PartialEq, Eq, Structural)]
pub enum BackendError {
    /// A surface with these dimensions cannot exist, or a pixel buffer
    /// does not have the length its dimensions call for.
    InvalidSize,
    /// The backend ran out of memory.
    NoMemory,
    /// Any other failure, by the backend's own status code.
    Status(i32),
}

/// Why a filter primitive, and with it the whole chain, failed.
#[derive(Debug)]
pub enum FilterError {
    /// A child element that the primitive needs was already in error.
    ChildNodeInError,
    /// An input names a result that no earlier primitive published.
    UnknownInput(String),
    /// The value of the named attribute is malformed.
    InvalidAttributeValue(String),
    /// The graphics backend failed.
    BackendError(BackendError),
}

/// A `FilterError` with its texts as sequences of characters.
pub enum FilterErrorView {
    ChildNodeInError,
    UnknownInput(Seq<char>),
    InvalidAttributeValue(Seq<char>),
    BackendError(BackendError),
}

impl View for FilterError {
    type V = FilterErrorView;

    open spec fn view(&self) -> FilterErrorView {
        match *self {
            FilterError::ChildNodeInError => FilterErrorView::ChildNodeInError,
            FilterError::UnknownInput(name) => FilterErrorView::UnknownInput(name@),
            FilterError::InvalidAttributeValue(attribute) => FilterErrorView::InvalidAttributeValue(
                attribute@,
            ),
            FilterError::BackendError(e) => FilterErrorView::BackendError(e),
        }
    }
}

} // verus!
