//! Errors of the DeepL client and their messages.

use vstd::prelude::*;

verus! {

/// What can go wrong when talking to DeepL.
#[derive(Debug, PartialEq, Eq)]
pub enum TranslatorError {
    AuthorizationErr,
    ServerErr(String),
    DeserializationErr,
    NotFoundErr,
}

impl TranslatorError {
    /// The error's message.
    pub open spec fn message_text(&self) -> Seq<char> {
        match self {
            TranslatorError::AuthorizationErr => "Authorization failed, API key is likely wrong"@,
            TranslatorError::ServerErr(s) =>
                "An error occured when communicating with the DeepL server\n    Error: "@ + s@,
            TranslatorError::DeserializationErr =>
                "An error occured when deserializing the server response"@,
            TranslatorError::NotFoundErr => "The requested resource was not found"@,
        }
    }

    /// The error's message, as its display shows it.
    pub fn message(&self) -> (r: String)
        ensures
            r@ == self.message_text(),
    {
        match self {
            TranslatorError::AuthorizationErr => String::from_str(
                "Authorization failed, API key is likely wrong",
            ),
            TranslatorError::ServerErr(s) => {
                let mut m = String::from_str(
                    "An error occured when communicating with the DeepL server\n    Error: ",
                );
                m.append(s.as_str());
                m
            },
            TranslatorError::DeserializationErr => String::from_str(
                "An error occured when deserializing the server response",
            ),
            TranslatorError::NotFoundErr => String::from_str("The requested resource was not found"),
        }
    }
}

} // verus!
