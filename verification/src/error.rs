//! The closed set of failures that a caller can see.

use vstd::prelude::*;
use vstd::string::*;

verus! {

/// A failure of one call into the binding. Each one ends the call that
/// raised it; nothing is retried.
#[derive(Debug)]
pub enum PdfiumError {
    /// The native engine could not be set up.
    InitializationFailed,
    /// The input buffer is empty.
    InvalidData,
    /// The document could not be loaded for text extraction; the text
    /// says why.
    ExtractionFailed(String),
    /// The native converter gave no structure dump; the text says why.
    ConversionFailed(String),
}

/// The mathematical value of a [`PdfiumError`]: the reasons as
/// sequences of characters.
pub enum ErrorView {
    InitializationFailed,
    InvalidData,
    ExtractionFailed(Seq<char>),
    ConversionFailed(Seq<char>),
}

impl View for PdfiumError {
    type V = ErrorView;

    open spec fn view(&self) -> ErrorView {
        match self {
            PdfiumError::InitializationFailed => ErrorView::InitializationFailed,
            PdfiumError::InvalidData => ErrorView::InvalidData,
            PdfiumError::ExtractionFailed(reason) => ErrorView::ExtractionFailed(reason@),
            PdfiumError::ConversionFailed(reason) => ErrorView::ConversionFailed(reason@),
        }
    }
}

impl ErrorView {
    /// The line shown to a user for this failure.
    pub open spec fn message(self) -> Seq<char> {
        match self {
            ErrorView::InitializationFailed => "Failed to initialize PDFium library"@,
            ErrorView::InvalidData => "Invalid PDF data"@,
            ErrorView::ExtractionFailed(reason) => "Text extraction failed: "@ + reason,
            ErrorView::ConversionFailed(reason) => "PDF to JSON conversion failed: "@ + reason,
        }
    }
}

/// The mathematical value of what an operation returns: the text, or
/// the failure.
pub open spec fn outcome_view(outcome: Result<String, PdfiumError>) -> Result<
    Seq<char>,
    ErrorView,
> {
    match outcome {
        Ok(text) => Ok(text@),
        Err(error) => Err(error@),
    }
}

impl PdfiumError {
    /// The line shown to a user for this failure: a fixed sentence, and
    /// for the two failures that carry a reason, the reason after it.
    pub fn message(&self) -> (text: String)
        ensures
            text@ == self@.message(),
    {
        match self {
            PdfiumError::InitializationFailed => String::from_str(
                "Failed to initialize PDFium library",
            ),
            PdfiumError::InvalidData => String::from_str("Invalid PDF data"),
            PdfiumError::ExtractionFailed(reason) => {
                let mut text = String::from_str("Text extraction failed: ");
                text.append(reason.as_str());
                text
            },
            PdfiumError::ConversionFailed(reason) => {
                let mut text = String::from_str("PDF to JSON conversion failed: ");
                text.append(reason.as_str());
                text
            },
        }
    }
}

} // verus!
