//! Validation of a prediction request and its encoding for the model.

use crate::alphabet::{encoding, AlphabetIndex, ENCODED_LEN};
use vstd::prelude::*;
use vstd::utf8::encode_utf8;

verus! {

/// Fewest bytes of data that a request may carry.
pub const MINIMUM_DATA_LENGTH: usize = 4;

/// The one language that the model was trained on, in lower case.
pub const SUPPORTED_LANGUAGE: &'static str = "english";

/// The lower-case form of a text, as Rust's Unicode case mapping gives it.
pub uninterp spec fn lower_of(s: Seq<char>) -> Seq<char>;

/// Relies on `str::to_lowercase`: the result depends on the characters alone.
#[verifier::external_body]
fn lowercase(s: &str) -> (r: String)
    ensures
        r@ == lower_of(s@),
{
    s.to_lowercase()
}

/// Why a request is turned away.
#[derive(Clone, Copy, Debug, PartialEq, Eq, Structural)]
pub enum Rejection {
    InputTooShort,
    UnsupportedLanguage,
}

impl Rejection {
    /// The text reported to the caller.
    pub fn message(&self) -> (r: &'static str)
        ensures
            *self == Rejection::InputTooShort ==> r == "Input data length must be at least 4 bytes",
            *self == Rejection::UnsupportedLanguage ==> r == "The language is not supported",
    {
        match self {
            Rejection::InputTooShort => "Input data length must be at least 4 bytes",
            Rejection::UnsupportedLanguage => "The language is not supported",
        }
    }
}

/// Length in bytes of the UTF-8 form of a text.
pub open spec fn byte_len(s: Seq<char>) -> nat {
    encode_utf8(s).len()
}

/// The verdict on a request whose language has already been lower-cased.
pub open spec fn verdict(lowered_language: Seq<char>, data: Seq<char>) -> Result<(), Rejection> {
    if byte_len(data) < MINIMUM_DATA_LENGTH {
        Err(Rejection::InputTooShort)
    } else if lowered_language != SUPPORTED_LANGUAGE@ {
        Err(Rejection::UnsupportedLanguage)
    } else {
        Ok(())
    }
}

/// Whether an already lower-cased language is the supported one.
pub fn is_supported_language(lowered: &String) -> (r: bool)
    ensures
        r == (lowered@ == SUPPORTED_LANGUAGE@),
{
    let expected = String::from_str(SUPPORTED_LANGUAGE);
    *lowered == expected
}

/// Checks a request whose language has already been lower-cased: data too
/// short is reported first, then a language other than the supported one.
pub fn validate_lowered(lowered_language: &String, data: &str) -> (r: Result<(), Rejection>)
    ensures
        r == verdict(lowered_language@, data@),
{
    if data.as_bytes().len() < MINIMUM_DATA_LENGTH {
        return Err(Rejection::InputTooShort);
    }
    if !is_supported_language(lowered_language) {
        return Err(Rejection::UnsupportedLanguage);
    }
    Ok(())
}

/// A request for a prediction: the language of the sample and the sample.
pub struct PredictRequest {
    pub language: String,
    pub data: String,
}

impl PredictRequest {
    pub fn new(language: String, data: String) -> (r: PredictRequest)
        ensures
            r.language == language,
            r.data == data,
    {
        PredictRequest { language, data }
    }

    /// Checks the request: data shorter than `MINIMUM_DATA_LENGTH` bytes is
    /// rejected whatever the language; otherwise a language that is not
    /// "english" in any case is rejected.
    pub fn validate(&self) -> (r: Result<(), Rejection>)
        ensures
            r == verdict(lower_of(self.language@), self.data@),
    {
        let lowered = lowercase(self.language.as_str());
        validate_lowered(&lowered, self.data.as_str())
    }

    /// Validates the request and, if it passes, encodes its data for the
    /// model. Nothing is encoded for a rejected request.
    pub fn prepare(&self, index: &AlphabetIndex) -> (r: Result<Vec<u32>, Rejection>)
        requires
            index.wf(),
        ensures
            match verdict(lower_of(self.language@), self.data@) {
                Ok(()) => r is Ok && r.unwrap()@ == encoding(self.data@),
                Err(e) => r == Err::<Vec<u32>, Rejection>(e),
            },
            r is Ok ==> r.unwrap()@.len() == ENCODED_LEN,
    {
        match self.validate() {
            Ok(()) => Ok(index.encode(self.data.as_str())),
            Err(e) => Err(e),
        }
    }
}

/// Data shorter than `MINIMUM_DATA_LENGTH` bytes is rejected as too short,
/// whatever the language.
pub proof fn lemma_short_data_rejected(language: Seq<char>, data: Seq<char>)
    requires
        byte_len(data) < MINIMUM_DATA_LENGTH,
    ensures
        verdict(lower_of(language), data) == Err::<(), Rejection>(Rejection::InputTooShort),
{
}

/// Data of valid length with a language that is not "english" in any case is
/// rejected as an unsupported language.
pub proof fn lemma_other_language_rejected(language: Seq<char>, data: Seq<char>)
    requires
        byte_len(data) >= MINIMUM_DATA_LENGTH,
        lower_of(language) != SUPPORTED_LANGUAGE@,
    ensures
        verdict(lower_of(language), data) == Err::<(), Rejection>(Rejection::UnsupportedLanguage),
{
}

} // verus!
