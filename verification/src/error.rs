//! The errors that the library reports.

use vstd::prelude::*;

verus! {

/// Why an operation did not do what was asked.
#[derive(Debug, PartialEq, Eq)]
pub enum DigestError {
    /// The hour is above 23 or the minute above 59.
    InvalidTime,
    /// A digest was to be sent and no destination is configured.
    NoDestinationConfigured,
    /// Every attempt to send failed; holds what the transport said of the
    /// last one.
    SendError(String),
    /// A stored snapshot breaks a rule of the data it describes.
    MalformedSnapshot,
}

/// A [`DigestError`], with the transport's words as a sequence of characters.
pub enum DigestErrorView {
    InvalidTime,
    NoDestinationConfigured,
    SendError(Seq<char>),
    MalformedSnapshot,
}

impl View for DigestError {
    type V = DigestErrorView;

    open spec fn view(&self) -> DigestErrorView {
        match self {
            DigestError::InvalidTime => DigestErrorView::InvalidTime,
            DigestError::NoDestinationConfigured => DigestErrorView::NoDestinationConfigured,
            DigestError::SendError(reason) => DigestErrorView::SendError(reason@),
            DigestError::MalformedSnapshot => DigestErrorView::MalformedSnapshot,
        }
    }
}

} // verus!
