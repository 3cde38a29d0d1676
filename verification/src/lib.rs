//! Verified core of a live OCR translator: text clean-up of OCR output,
//! language-code handling, DeepL request construction and response
//! decisions, screen-capture region arithmetic and error reporting.

pub mod capture;
pub mod capture_error;
pub mod languages;
pub mod ocr;
pub mod strings;
pub mod text;
pub mod translator;
pub mod translator_error;
