//! A translator for a language pair: what it asks of the framework, and what
//! it makes of the reply.
//!
//! Each operation is a call of the framework, given as a [`FrameworkCall`],
//! and a function that takes what the call returned. The framework reports why
//! a call failed by leaving an error behind, which [`LastError`] holds.
use crate::error;
use crate::error::{LastError, TranslationError};
use crate::request;
use crate::request::{TranslationRequest, TranslationResponse};
use crate::text;
use vstd::prelude::*;

verus! {

/// A call of the framework.
#[derive(Debug, PartialEq, Eq)]
pub enum FrameworkCall {
    /// Detect the dominant language of a text.
    DetectLanguage { text: String },
    /// Check whether a language pair is installed.
    CheckLanguages { source: String, target: String },
    /// Translate a text.
    Translate { source: String, target: String, text: String },
    /// Translate several texts.
    TranslateBatch { source: String, target: String, texts: Vec<String> },
    /// Load what a language pair needs.
    PrepareTranslation { source: String, target: String },
}

/// What [`FrameworkCall`] stands for.
pub enum CallModel {
    DetectLanguage { text: Seq<char> },
    CheckLanguages { source: Seq<char>, target: Seq<char> },
    Translate { source: Seq<char>, target: Seq<char>, text: Seq<char> },
    TranslateBatch { source: Seq<char>, target: Seq<char>, texts: Seq<Seq<char>> },
    PrepareTranslation { source: Seq<char>, target: Seq<char> },
}

impl View for FrameworkCall {
    type V = CallModel;

    open spec fn view(&self) -> CallModel {
        match self {
            FrameworkCall::DetectLanguage { text } => CallModel::DetectLanguage { text: text@ },
            FrameworkCall::CheckLanguages { source, target } => {
                CallModel::CheckLanguages { source: source@, target: target@ }
            },
            FrameworkCall::Translate { source, target, text } => {
                CallModel::Translate { source: source@, target: target@, text: text@ }
            },
            FrameworkCall::TranslateBatch { source, target, texts } => {
                CallModel::TranslateBatch {
                    source: source@,
                    target: target@,
                    texts: text::texts_of(texts@),
                }
            },
            FrameworkCall::PrepareTranslation { source, target } => {
                CallModel::PrepareTranslation { source: source@, target: target@ }
            },
        }
    }
}

/// A translator for a specific language pair.
///
/// It holds the pair and nothing else, and is cheap to clone. Once
/// [`LanguageTranslator::new`] has found the pair available, it can be used
/// for any number of translations.
#[derive(Debug, PartialEq, Eq)]
pub struct LanguageTranslator {
    source: String,
    target: String,
}

/// What [`LanguageTranslator`] stands for.
pub struct PairModel {
    pub source: Seq<char>,
    pub target: Seq<char>,
}

impl View for LanguageTranslator {
    type V = PairModel;

    closed spec fn view(&self) -> PairModel {
        PairModel { source: self.source@, target: self.target@ }
    }
}

impl Clone for LanguageTranslator {
    fn clone(&self) -> (copy: LanguageTranslator)
        ensures
            copy == *self,
    {
        LanguageTranslator { source: self.source.clone(), target: self.target.clone() }
    }
}

/// What an operation's outcome stands for.
pub open spec fn outcome_model(outcome: Result<(), TranslationError>) -> Result<
    (),
    error::ErrorModel,
> {
    match outcome {
        Ok(()) => Ok(()),
        Err(e) => Err(e@),
    }
}

/// What the result of a translation stands for.
pub open spec fn result_model(result: Result<TranslationResponse, TranslationError>) -> Result<
    request::ResponseModel,
    error::ErrorModel,
> {
    match result {
        Ok(response) => Ok(response@),
        Err(e) => Err(e@),
    }
}

/// What the results of some translations stand for.
pub open spec fn results_model(
    results: Seq<Result<TranslationResponse, TranslationError>>,
) -> Seq<Result<request::ResponseModel, error::ErrorModel>> {
    Seq::new(results.len(), |i: int| result_model(results[i]))
}

/// What some requests stand for.
pub open spec fn requests_model(requests: Seq<TranslationRequest>) -> Seq<request::RequestModel> {
    Seq::new(requests.len(), |i: int| requests[i]@)
}

/// The texts that some requests ask for.
pub open spec fn source_texts(requests: Seq<request::RequestModel>) -> Seq<Seq<char>> {
    Seq::new(requests.len(), |i: int| requests[i].source_text)
}

/// The error of an operation that the framework gave up with an error of this
/// kind: a deadline exceeded, or else a failure for `reason`.
pub open spec fn operation_error(
    kind: i32,
    operation: Seq<char>,
    seconds: u64,
    reason: Seq<char>,
) -> error::ErrorModel {
    if kind == error::ERR_TIMED_OUT {
        error::ErrorModel::TimedOut { operation, seconds }
    } else {
        error::ErrorModel::TranslationFailed { reason }
    }
}

/// The error of an operation that the framework gave up, by the error that it
/// left behind.
pub(crate) fn operation_failed(
    last: &mut LastError,
    operation: &'static str,
    seconds: u64,
    reason: &str,
) -> (failure: TranslationError)
    ensures
        failure@ == operation_error(old(last)@.kind, operation@, seconds, reason@),
        final(last)@ == error::no_error(),
{
    let (kind, _) = error::take_last_error(last);
    if kind == error::ERR_TIMED_OUT {
        error::timed_out(operation, seconds)
    } else {
        error::translation_failed(reason)
    }
}

/// The call that detects the dominant language of a text.
pub fn detect_language_call(text: &str) -> (call: FrameworkCall)
    ensures
        call@ == (CallModel::DetectLanguage { text: text@ }),
        call matches FrameworkCall::DetectLanguage { text: t } && t@ == text@,
{
    FrameworkCall::DetectLanguage { text: text.to_owned() }
}

/// The dominant language of a text, by the reply to its call: a BCP-47
/// language code, or `None` where the detection failed.
pub fn detect_language(reply: Option<String>) -> (language: Option<String>)
    ensures
        language == reply,
{
    reply
}

/// The call that checks whether a language pair is installed.
pub fn check_language_availability_call(source: &str, target: &str) -> (call: FrameworkCall)
    ensures
        call@ == (CallModel::CheckLanguages { source: source@, target: target@ }),
        call matches FrameworkCall::CheckLanguages { source: s, target: t } && s@ == source@ && t@
            == target@,
{
    FrameworkCall::CheckLanguages { source: source.to_owned(), target: target.to_owned() }
}

/// Whether a language pair is available, by the reply to its check: no reply
/// says that it is, and any other says why it is not.
pub open spec fn availability(
    source: Seq<char>,
    target: Seq<char>,
    reply: Option<Seq<char>>,
    kind: i32,
) -> Result<(), error::ErrorModel> {
    match reply {
        None => Ok(()),
        Some(message) => Err(error::pair_error(kind, source, target, message)),
    }
}

/// Whether the given language pair is available for translation.
///
/// Returns `Ok(())` if the pair is installed and ready,
/// [`TranslationError::LanguageNotInstalled`] if its model is still to be
/// downloaded, and [`TranslationError::LanguageUnsupported`] if the pair
/// cannot be translated.
pub fn check_language_availability(
    source: &str,
    target: &str,
    reply: Option<String>,
    last: &mut LastError,
) -> (outcome: Result<(), TranslationError>)
    ensures
        outcome_model(outcome) == availability(
            source@,
            target@,
            text::text_of(reply),
            old(last)@.kind,
        ),
        final(last)@ == (if reply is Some {
            error::no_error()
        } else {
            old(last)@
        }),
{
    match reply {
        Some(message) => {
            let (kind, _) = error::take_last_error(last);
            Err(error::source_target_error(kind, source, target, message))
        },
        None => Ok(()),
    }
}

/// The result for one request, given the translation of its text. An empty
/// translation is a failed one.
pub open spec fn response_to(
    pair: PairModel,
    req: request::RequestModel,
    target_text: Seq<char>,
) -> Result<request::ResponseModel, error::ErrorModel> {
    if target_text.len() == 0 {
        Err(error::ErrorModel::TranslationFailed { reason: "translation failed"@ })
    } else {
        Ok(
            request::ResponseModel {
                source_language: pair.source,
                target_language: pair.target,
                source_text: req.source_text,
                target_text,
                client_identifier: req.client_identifier,
            },
        )
    }
}

/// The results for some requests, given the translations of their texts: one
/// for each request, in the same order. A translation that is missing counts
/// as empty, and one that belongs to no request is dropped.
pub open spec fn responses_to(
    pair: PairModel,
    requests: Seq<request::RequestModel>,
    targets: Seq<Seq<char>>,
) -> Seq<Result<request::ResponseModel, error::ErrorModel>> {
    Seq::new(
        requests.len(),
        |i: int|
            response_to(
                pair,
                requests[i],
                if i < targets.len() {
                    targets[i]
                } else {
                    Seq::empty()
                },
            ),
    )
}

impl LanguageTranslator {
    /// A translator for the given language pair, where the reply to the pair's
    /// check says that it is available.
    ///
    /// Language identifiers should be valid BCP-47 codes, as `en`, `es` or
    /// `zh-Hans`.
    pub fn new(
        source: &str,
        target: &str,
        reply: Option<String>,
        last: &mut LastError,
    ) -> (translator: Result<LanguageTranslator, TranslationError>)
        ensures
            match availability(source@, target@, text::text_of(reply), old(last)@.kind) {
                Ok(()) => translator matches Ok(t) && t@ == (PairModel {
                    source: source@,
                    target: target@,
                }),
                Err(e) => translator matches Err(f) && f@ == e,
            },
            final(last)@ == (if reply is Some {
                error::no_error()
            } else {
                old(last)@
            }),
    {
        match check_language_availability(source, target, reply, last) {
            Ok(()) => Ok(
                LanguageTranslator { source: source.to_owned(), target: target.to_owned() },
            ),
            Err(e) => Err(e),
        }
    }

    /// The source language code (as `zh-Hans`).
    pub fn source(&self) -> (source: &str)
        ensures
            source@ == self@.source,
    {
        self.source.as_str()
    }

    /// The target language code (as `en`).
    pub fn target(&self) -> (target: &str)
        ensures
            target@ == self@.target,
    {
        self.target.as_str()
    }

    /// The call that translates a text.
    pub fn translate_call(&self, text: &str) -> (call: FrameworkCall)
        ensures
            call@ == (CallModel::Translate {
                source: self@.source,
                target: self@.target,
                text: text@,
            }),
            call matches FrameworkCall::Translate { source, target, text: t } && source@
                == self@.source && target@ == self@.target && t@ == text@,
    {
        FrameworkCall::Translate {
            source: self.source.clone(),
            target: self.target.clone(),
            text: text.to_owned(),
        }
    }

    /// The translation of a text, by the reply to its call.
    ///
    /// Without a reply it is [`TranslationError::TimedOut`] where the framework
    /// exceeded its deadline of 30 seconds, and else
    /// [`TranslationError::TranslationFailed`].
    pub fn translate(&self, text: &str, reply: Option<String>, last: &mut LastError) -> (result:
        Result<TranslationResponse, TranslationError>)
        ensures
            result_model(result) == (match reply {
                Some(target_text) => Ok(
                    request::ResponseModel {
                        source_language: self@.source,
                        target_language: self@.target,
                        source_text: text@,
                        target_text: target_text@,
                        client_identifier: None,
                    },
                ),
                None => Err(
                    operation_error(
                        old(last)@.kind,
                        "translate"@,
                        30,
                        "translation failed (check stderr for details from the Swift runtime)"@,
                    ),
                ),
            }),
            final(last)@ == (if reply is None {
                error::no_error()
            } else {
                old(last)@
            }),
    {
        match reply {
            Some(target_text) => Ok(
                TranslationResponse {
                    source_language: self.source.clone(),
                    target_language: self.target.clone(),
                    source_text: text.to_owned(),
                    target_text,
                    client_identifier: None,
                },
            ),
            None => Err(
                operation_failed(
                    last,
                    "translate",
                    30,
                    "translation failed (check stderr for details from the Swift runtime)",
                ),
            ),
        }
    }

    /// The results for some requests, given the translations of their texts:
    /// one for each request, in the same order.
    pub fn responses_from_targets(
        &self,
        requests: &[TranslationRequest],
        targets: &[String],
    ) -> (results: Vec<Result<TranslationResponse, TranslationError>>)
        ensures
            results_model(results@) == responses_to(
                self@,
                requests_model(requests@),
                text::texts_of(targets@),
            ),
            results@.len() == requests@.len(),
            forall|i: int|
                0 <= i < results@.len() ==> match #[trigger] results@[i] {
                    Ok(r) => {
                        &&& i < targets@.len() && targets@[i]@.len() > 0
                        &&& r.target_text@ == targets@[i]@
                        &&& r.source_text@ == requests@[i].source_text@
                        &&& r.source_language@ == self@.source
                        &&& r.target_language@ == self@.target
                        &&& text::text_of(r.client_identifier) == text::text_of(
                            requests@[i].client_identifier,
                        )
                    },
                    Err(_) => i >= targets@.len() || targets@[i]@.len() == 0,
                },
    {
        let mut results: Vec<Result<TranslationResponse, TranslationError>> = Vec::new();
        let mut i: usize = 0;
        while i < requests.len()
            invariant
                i <= requests@.len(),
                results@.len() == i,
                forall|j: int|
                    0 <= j < i ==> result_model(#[trigger] results@[j]) == responses_to(
                        self@,
                        requests_model(requests@),
                        text::texts_of(targets@),
                    )[j],
                forall|j: int|
                    0 <= j < i ==> match #[trigger] results@[j] {
                        Ok(r) => {
                            &&& j < targets@.len() && targets@[j]@.len() > 0
                            &&& r.target_text@ == targets@[j]@
                            &&& r.source_text@ == requests@[j].source_text@
                            &&& r.source_language@ == self@.source
                            &&& r.target_language@ == self@.target
                            &&& text::text_of(r.client_identifier) == text::text_of(
                                requests@[j].client_identifier,
                            )
                        },
                        Err(_) => j >= targets@.len() || targets@[j]@.len() == 0,
                    },
            decreases requests.len() - i,
        {
            let result = if i < targets.len() && !targets[i].as_str().is_empty() {
                Ok(
                    TranslationResponse {
                        source_language: self.source.clone(),
                        target_language: self.target.clone(),
                        source_text: requests[i].source_text.clone(),
                        target_text: targets[i].clone(),
                        client_identifier: requests[i].client_identifier.clone(),
                    },
                )
            } else {
                Err(error::translation_failed("translation failed"))
            };
            results.push(result);
            i += 1;
        }
        assert(results_model(results@) =~= responses_to(
            self@,
            requests_model(requests@),
            text::texts_of(targets@),
        ));
        results
    }

    /// The call that loads what the language pair needs.
    pub fn prepare_call(&self) -> (call: FrameworkCall)
        ensures
            call@ == (CallModel::PrepareTranslation {
                source: self@.source,
                target: self@.target,
            }),
            call matches FrameworkCall::PrepareTranslation { source, target } && source@
                == self@.source && target@ == self@.target,
    {
        FrameworkCall::PrepareTranslation {
            source: self.source.clone(),
            target: self.target.clone(),
        }
    }

    /// Whether what the language pair needs has been loaded, by the reply to
    /// the call that loads it: no reply says that it has, and any other says
    /// why it has not. The deadline is 60 seconds.
    pub fn prepare(&self, reply: Option<String>, last: &mut LastError) -> (outcome: Result<
        (),
        TranslationError,
    >)
        ensures
            outcome_model(outcome) == (match reply {
                None => Ok(()),
                Some(message) => Err(
                    operation_error(old(last)@.kind, "prepare"@, 60, message@),
                ),
            }),
            final(last)@ == (if reply is Some {
                error::no_error()
            } else {
                old(last)@
            }),
    {
        match reply {
            Some(message) => Err(operation_failed(last, "prepare", 60, message.as_str())),
            None => Ok(()),
        }
    }
}

/// Every request gets one result, in its place; and a result that is a
/// response holds the translator's language pair, the request's own text and
/// identifier, and a translation that is not empty.
pub proof fn every_response_answers_its_request(
    pair: PairModel,
    requests: Seq<request::RequestModel>,
    targets: Seq<Seq<char>>,
    i: int,
)
    requires
        0 <= i < requests.len(),
    ensures
        responses_to(pair, requests, targets).len() == requests.len(),
        responses_to(pair, requests, targets)[i] matches Ok(response) ==> {
            &&& response.source_language == pair.source
            &&& response.target_language == pair.target
            &&& response.source_text == requests[i].source_text
            &&& response.client_identifier == requests[i].client_identifier
            &&& response.target_text == targets[i]
            &&& response.target_text.len() > 0
        },
        responses_to(pair, requests, targets)[i] matches Err(e) ==> e == (
        error::ErrorModel::TranslationFailed { reason: "translation failed"@ }),
        responses_to(pair, requests, targets)[i] is Ok <==> i < targets.len() && targets[i].len()
            > 0,
{
}

/// An error is taken for one failed call at most: once it has been taken, a
/// call that fails without leaving an error behind fails for its own reason,
/// and for nothing that an earlier call left.
pub proof fn a_taken_error_is_not_taken_again(
    pair: PairModel,
    operation: Seq<char>,
    seconds: u64,
    reason: Seq<char>,
)
    ensures
        operation_error(error::no_error().kind, operation, seconds, reason)
            == (error::ErrorModel::TranslationFailed { reason }),
        availability(pair.source, pair.target, Some(reason), error::no_error().kind) == Err::<
            (),
            error::ErrorModel,
        >(error::ErrorModel::TranslationFailed { reason }),
{
}

/// The texts that some requests ask for are as many as the requests, and each
/// stands in the place of its request.
pub proof fn texts_are_asked_for_in_the_order_of_their_requests(
    requests: Seq<request::RequestModel>,
)
    ensures
        source_texts(requests).len() == requests.len(),
        forall|i: int|
            0 <= i < requests.len() ==> #[trigger] source_texts(requests)[i]
                == requests[i].source_text,
{
}

/// Requests and results stand for what they hold, in the same order.
pub proof fn requests_and_results_stand_in_their_order(
    requests: Seq<TranslationRequest>,
    results: Seq<Result<TranslationResponse, TranslationError>>,
    outcome: Result<(), TranslationError>,
)
    ensures
        requests_model(requests).len() == requests.len(),
        forall|i: int|
            0 <= i < requests.len() ==> #[trigger] requests_model(requests)[i] == requests[i]@,
        results_model(results).len() == results.len(),
        forall|i: int|
            0 <= i < results.len() ==> match #[trigger] results_model(results)[i] {
                Ok(r) => results[i] is Ok && results[i]->Ok_0@ == r,
                Err(e) => results[i] is Err && results[i]->Err_0@ == e,
            },
        outcome is Ok <==> outcome_model(outcome) is Ok,
        outcome is Err ==> outcome_model(outcome)->Err_0 == outcome->Err_0@,
{
}

/// A pair is available exactly where its check brought no reply; and where it
/// brought one, the error is that of the kind left behind, with the reply as
/// the reason where the kind gives none.
pub proof fn a_pair_is_available_without_a_reply(
    pair: PairModel,
    reply: Option<Seq<char>>,
    kind: i32,
)
    ensures
        availability(pair.source, pair.target, reply, kind) is Ok <==> reply is None,
        reply is Some ==> availability(pair.source, pair.target, reply, kind)->Err_0
            == error::pair_error(kind, pair.source, pair.target, reply->0),
{
}

/// An operation exceeded its deadline exactly where the framework left an error
/// of the kind 4 behind; else it failed for its reason.
pub proof fn only_one_kind_of_error_is_a_deadline(
    kind: i32,
    operation: Seq<char>,
    seconds: u64,
    reason: Seq<char>,
)
    ensures
        kind == 4 ==> operation_error(kind, operation, seconds, reason) == (
        error::ErrorModel::TimedOut { operation, seconds }),
        kind != 4 ==> operation_error(kind, operation, seconds, reason) == (
        error::ErrorModel::TranslationFailed { reason }),
{
}

/// How many translations there are decides nothing about the others: the
/// result for a request depends on its own place alone.
pub proof fn results_do_not_depend_on_each_other(
    pair: PairModel,
    requests: Seq<request::RequestModel>,
    targets: Seq<Seq<char>>,
    more: Seq<request::RequestModel>,
    i: int,
)
    requires
        0 <= i < requests.len(),
    ensures
        responses_to(pair, requests + more, targets)[i] == responses_to(pair, requests, targets)[i],
        i < targets.len() ==> responses_to(pair, requests, targets)[i] == responses_to(
            pair,
            seq![requests[i]],
            seq![targets[i]],
        )[0],
{
}

} // verus!
