//! The computing side of OCR: what becomes of the text tesseract
//! recognised, and how OCR errors are reported.

use vstd::prelude::*;
use crate::strings::{error_report, format_error_report};
use crate::text::{clean_text, cleaned};

verus! {

/// A tesseract failure, held as the text tesseract's error displays.
#[derive(Debug, PartialEq, Eq)]
pub struct TessErrWrapper {
    pub error: String,
}

/// A failed OCR run: tesseract failed, or the image could not be read or
/// written (the variant carries the text of the system error).
#[derive(Debug, PartialEq, Eq)]
pub enum OCRError {
    OCRTessErr(TessErrWrapper),
    OCRioErr(String),
}

impl OCRError {
    /// The error's own message.
    pub open spec fn message_text(&self) -> Seq<char> {
        match self {
            OCRError::OCRTessErr(_) => "Tesseract failed to extract text from the image"@,
            OCRError::OCRioErr(_) => "There was a problem saving the image to your disk"@,
        }
    }

    /// The text of the underlying cause.
    pub open spec fn source_text(&self) -> Seq<char> {
        match self {
            OCRError::OCRTessErr(w) => w.error@,
            OCRError::OCRioErr(s) => s@,
        }
    }

    /// The error's message, as its display shows it.
    pub fn message(&self) -> (r: String)
        ensures
            r@ == self.message_text(),
    {
        match self {
            OCRError::OCRTessErr(_) => String::from_str(
                "Tesseract failed to extract text from the image",
            ),
            OCRError::OCRioErr(_) => String::from_str(
                "There was a problem saving the image to your disk",
            ),
        }
    }
}

/// Finishes an OCR run: recognised text is cleaned with `clean_text`, an
/// error is passed on unchanged.
pub fn run_ocr(recognized: Result<String, OCRError>) -> (r: Result<String, OCRError>)
    ensures
        match recognized {
            Ok(t) => r matches Ok(c) && c@ == cleaned(t@),
            Err(e) => r == Err::<String, OCRError>(e),
        },
{
    match recognized {
        Ok(t) => Ok(clean_text(t.as_str())),
        Err(e) => Err(e),
    }
}

/// The report printed for an OCR error: its message and its cause.
pub fn err_to_string(e: &OCRError) -> (r: String)
    ensures
        r@ == error_report(e.message_text(), Some(e.source_text())),
{
    let m = e.message();
    match e {
        OCRError::OCRTessErr(w) => format_error_report(m.as_str(), Some(w.error.as_str())),
        OCRError::OCRioErr(s) => format_error_report(m.as_str(), Some(s.as_str())),
    }
}

/// The text shown for an OCR outcome: the recognised text, or the error
/// report when OCR failed.
pub fn ocr_outcome_text(outcome: Result<String, OCRError>) -> (r: String)
    ensures
        match outcome {
            Ok(t) => r == t,
            Err(e) => r@ == error_report(e.message_text(), Some(e.source_text())),
        },
{
    match outcome {
        Ok(t) => t,
        Err(e) => err_to_string(&e),
    }
}

} // verus!
