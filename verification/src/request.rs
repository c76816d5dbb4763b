//! What is asked for, and what comes back.
use crate::text;
use vstd::prelude::*;

verus! {

/// What a request's text can be made of.
pub trait IntoText: Sized {
    /// The text.
    spec fn text(self) -> Seq<char>;

    /// The text as a string of its own.
    fn into_text(self) -> (string: String)
        ensures
            string@ == self.text(),
    ;
}

impl IntoText for String {
    open spec fn text(self) -> Seq<char> {
        self@
    }

    fn into_text(self) -> (string: String) {
        self
    }
}

impl<'a> IntoText for &'a str {
    open spec fn text(self) -> Seq<char> {
        self@
    }

    fn into_text(self) -> (string: String) {
        self.to_owned()
    }
}

impl<'a> IntoText for &'a String {
    open spec fn text(self) -> Seq<char> {
        self@
    }

    fn into_text(self) -> (string: String) {
        self.clone()
    }
}

/// A single translation request.
#[derive(Debug, PartialEq, Eq)]
pub struct TranslationRequest {
    /// The text to translate.
    pub source_text: String,
    /// An optional identifier echoed back in the response, useful for
    /// correlating results when translating many strings.
    pub client_identifier: Option<String>,
}

/// What [`TranslationRequest`] stands for.
pub struct RequestModel {
    pub source_text: Seq<char>,
    pub client_identifier: Option<Seq<char>>,
}

impl Clone for TranslationRequest {
    fn clone(&self) -> (copy: TranslationRequest)
        ensures
            copy == *self,
    {
        TranslationRequest {
            source_text: self.source_text.clone(),
            client_identifier: self.client_identifier.clone(),
        }
    }
}

impl View for TranslationRequest {
    type V = RequestModel;

    open spec fn view(&self) -> RequestModel {
        RequestModel {
            source_text: self.source_text@,
            client_identifier: text::text_of(self.client_identifier),
        }
    }
}

/// The request for a text, without an identifier.
pub open spec fn plain_request(source_text: Seq<char>) -> RequestModel {
    RequestModel { source_text, client_identifier: None }
}

impl TranslationRequest {
    /// A request without an identifier.
    pub fn new<T: IntoText>(source_text: T) -> (request: TranslationRequest)
        ensures
            request@ == plain_request(source_text.text()),
            request.source_text@ == source_text.text(),
            request.client_identifier is None,
    {
        TranslationRequest { source_text: source_text.into_text(), client_identifier: None }
    }

    /// A request with an identifier.
    pub fn with_client_id<T: IntoText, U: IntoText>(source_text: T, client_identifier: U) -> (request:
        TranslationRequest)
        ensures
            request@ == (RequestModel {
                source_text: source_text.text(),
                client_identifier: Some(client_identifier.text()),
            }),
            request.source_text@ == source_text.text(),
            request.client_identifier is Some,
            request.client_identifier->0@ == client_identifier.text(),
    {
        TranslationRequest {
            source_text: source_text.into_text(),
            client_identifier: Some(client_identifier.into_text()),
        }
    }
}

// A string made from a `&str` is known by what it holds only, so no request is
// named here; `from` says what its request holds.
impl<'a> vstd::std_specs::convert::FromSpecImpl<&'a str> for TranslationRequest {
    open spec fn obeys_from_spec() -> bool {
        false
    }

    open spec fn from_spec(s: &'a str) -> TranslationRequest {
        arbitrary()
    }
}

impl<'a> From<&'a str> for TranslationRequest {
    fn from(s: &'a str) -> (request: TranslationRequest)
        ensures
            request@ == plain_request(s@),
            request.source_text@ == s@,
            request.client_identifier is None,
    {
        TranslationRequest::new(s)
    }
}

impl vstd::std_specs::convert::FromSpecImpl<String> for TranslationRequest {
    open spec fn obeys_from_spec() -> bool {
        true
    }

    open spec fn from_spec(s: String) -> TranslationRequest {
        TranslationRequest { source_text: s, client_identifier: None }
    }
}

impl From<String> for TranslationRequest {
    fn from(s: String) -> (request: TranslationRequest)
        ensures
            request@ == plain_request(s@),
            request.source_text@ == s@,
            request.client_identifier is None,
    {
        TranslationRequest { source_text: s, client_identifier: None }
    }
}

/// The result of a single translation.
#[derive(Debug, PartialEq, Eq)]
pub struct TranslationResponse {
    /// The source language (BCP-47 code, as `zh-Hans`).
    pub source_language: String,
    /// The target language (BCP-47 code, as `en`).
    pub target_language: String,
    /// The source text that was submitted.
    pub source_text: String,
    /// The translated text.
    pub target_text: String,
    /// The client identifier from the request, if any.
    pub client_identifier: Option<String>,
}

/// What [`TranslationResponse`] stands for.
pub struct ResponseModel {
    pub source_language: Seq<char>,
    pub target_language: Seq<char>,
    pub source_text: Seq<char>,
    pub target_text: Seq<char>,
    pub client_identifier: Option<Seq<char>>,
}

impl Clone for TranslationResponse {
    fn clone(&self) -> (copy: TranslationResponse)
        ensures
            copy == *self,
    {
        TranslationResponse {
            source_language: self.source_language.clone(),
            target_language: self.target_language.clone(),
            source_text: self.source_text.clone(),
            target_text: self.target_text.clone(),
            client_identifier: self.client_identifier.clone(),
        }
    }
}

impl View for TranslationResponse {
    type V = ResponseModel;

    open spec fn view(&self) -> ResponseModel {
        ResponseModel {
            source_language: self.source_language@,
            target_language: self.target_language@,
            source_text: self.source_text@,
            target_text: self.target_text@,
            client_identifier: text::text_of(self.client_identifier),
        }
    }
}

/// A request and a response stand for what their fields hold.
pub proof fn fields_are_held_as_they_are(request: TranslationRequest, response: TranslationResponse)
    ensures
        request@.source_text == request.source_text@,
        request@.client_identifier is Some <==> request.client_identifier is Some,
        request.client_identifier is Some ==> request@.client_identifier->0
            == request.client_identifier->0@,
        response@.source_language == response.source_language@,
        response@.target_language == response.target_language@,
        response@.source_text == response.source_text@,
        response@.target_text == response.target_text@,
        response@.client_identifier is Some <==> response.client_identifier is Some,
        response.client_identifier is Some ==> response@.client_identifier->0
            == response.client_identifier->0@,
{
}

/// A text can be given as a string or as a borrowed one: it is the same text.
pub proof fn a_text_is_the_same_however_given(string: String, borrowed: &str)
    requires
        string@ == borrowed@,
    ensures
        string.text() == string@,
        borrowed.text() == string.text(),
        (&string).text() == string.text(),
        plain_request(string.text()).source_text == borrowed@,
        plain_request(string.text()).client_identifier is None,
{
}

} // verus!
