//! Errors of the screen capture and their printed report.

use vstd::prelude::*;
use crate::strings::{error_report, format_error_report};

verus! {

/// A failed capture. Each variant but the first carries the text of the
/// system error that caused it.
#[derive(Debug, PartialEq, Eq)]
pub enum WindowsCaptureError {
    WindowNotFoundErr,
    DimensionNotFoundErr(String),
    ImageGenFailedErr(String),
    ImageSaveFailedErr(String),
}

impl WindowsCaptureError {
    /// The error's own message.
    pub open spec fn message_text(&self) -> Seq<char> {
        match self {
            WindowsCaptureError::WindowNotFoundErr =>
                "Failed to find window handle, is the translator window open?"@,
            WindowsCaptureError::DimensionNotFoundErr(_) =>
                "Failed to get the dimensions of the window, cant capture region"@,
            WindowsCaptureError::ImageGenFailedErr(_) => "Failed to create image from frame data"@,
            WindowsCaptureError::ImageSaveFailedErr(_) => "Failed to create image from path"@,
        }
    }

    /// The text of the underlying cause, if there is one.
    pub open spec fn source_text(&self) -> Option<Seq<char>> {
        match self {
            WindowsCaptureError::WindowNotFoundErr => None,
            WindowsCaptureError::DimensionNotFoundErr(s) => Some(s@),
            WindowsCaptureError::ImageGenFailedErr(s) => Some(s@),
            WindowsCaptureError::ImageSaveFailedErr(s) => Some(s@),
        }
    }

    /// The error's message, as its display shows it.
    pub fn message(&self) -> (r: String)
        ensures
            r@ == self.message_text(),
    {
        match self {
            WindowsCaptureError::WindowNotFoundErr => String::from_str(
                "Failed to find window handle, is the translator window open?",
            ),
            WindowsCaptureError::DimensionNotFoundErr(_) => String::from_str(
                "Failed to get the dimensions of the window, cant capture region",
            ),
            WindowsCaptureError::ImageGenFailedErr(_) => String::from_str(
                "Failed to create image from frame data",
            ),
            WindowsCaptureError::ImageSaveFailedErr(_) => String::from_str(
                "Failed to create image from path",
            ),
        }
    }
}

/// The report printed for a capture error: its message, and its cause when
/// it has one.
pub fn err_to_string(e: &WindowsCaptureError) -> (r: String)
    ensures
        r@ == error_report(e.message_text(), e.source_text()),
{
    let m = e.message();
    match e {
        WindowsCaptureError::WindowNotFoundErr => format_error_report(m.as_str(), None),
        WindowsCaptureError::DimensionNotFoundErr(s) => format_error_report(
            m.as_str(),
            Some(s.as_str()),
        ),
        WindowsCaptureError::ImageGenFailedErr(s) => format_error_report(
            m.as_str(),
            Some(s.as_str()),
        ),
        WindowsCaptureError::ImageSaveFailedErr(s) => format_error_report(
            m.as_str(),
            Some(s.as_str()),
        ),
    }
}

} // verus!
