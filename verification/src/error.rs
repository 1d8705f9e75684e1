//! Errors that the library's own logic reports.

use vstd::prelude::*;

verus! {

/// The error kinds that the registries, the framing and the web side decide on.
#[derive(Debug, Clone, Copy, PartialEq, Eq)]
pub enum CaptureError {
    /// A password did not match.
    ValidateFailed,
    /// Recording was not asked for.
    NotTranscribe,
    /// No entry is registered under the label.
    EmptyLabelName,
    /// A label was registered twice.
    DuplicatedLabelError,
    /// A shared map could not be borrowed mutably.
    ArcGetMutMapError,
    /// A web request named no usable label; the text says why.
    InvalidLabel(&'static str),
}

} // verus!
