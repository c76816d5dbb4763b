//! The errors of a translation, and the error that the framework leaves
//! behind for the call that failed.
use crate::text;
use vstd::prelude::*;

verus! {

/// The framework reports no error.
pub const ERR_SUCCESS: i32 = 0;

/// The framework has no model for the language pair.
pub const ERR_LANG_NOT_INSTALLED: i32 = 1;

/// The framework does not support the language pair.
pub const ERR_LANG_UNSUPPORTED: i32 = 2;

/// The framework failed to translate.
pub const ERR_TRANSLATION_FAILED: i32 = 3;

/// The framework did not answer in time.
pub const ERR_TIMED_OUT: i32 = 4;

/// Errors that can occur during translation.
#[derive(Debug, PartialEq, Eq)]
pub enum TranslationError {
    /// Model not downloaded for this language pair.
    LanguageNotInstalled { source: String, target: String },
    /// Language pair is unsupported by the framework.
    LanguageUnsupported { source: String, target: String },
    /// Framework reported an error during translation.
    TranslationFailed { reason: String },
    /// Operation exceeded the deadline.
    TimedOut { operation: &'static str, seconds: u64 },
}

/// What [`TranslationError`] stands for.
pub enum ErrorModel {
    LanguageNotInstalled { source: Seq<char>, target: Seq<char> },
    LanguageUnsupported { source: Seq<char>, target: Seq<char> },
    TranslationFailed { reason: Seq<char> },
    TimedOut { operation: Seq<char>, seconds: u64 },
}

impl View for TranslationError {
    type V = ErrorModel;

    open spec fn view(&self) -> ErrorModel {
        match self {
            TranslationError::LanguageNotInstalled { source, target } => {
                ErrorModel::LanguageNotInstalled { source: source@, target: target@ }
            },
            TranslationError::LanguageUnsupported { source, target } => {
                ErrorModel::LanguageUnsupported { source: source@, target: target@ }
            },
            TranslationError::TranslationFailed { reason } => {
                ErrorModel::TranslationFailed { reason: reason@ }
            },
            TranslationError::TimedOut { operation, seconds } => {
                ErrorModel::TimedOut { operation: operation@, seconds: *seconds }
            },
        }
    }
}

impl Clone for TranslationError {
    fn clone(&self) -> (copy: TranslationError)
        ensures
            copy == *self,
    {
        match self {
            TranslationError::LanguageNotInstalled { source, target } => {
                TranslationError::LanguageNotInstalled {
                    source: source.clone(),
                    target: target.clone(),
                }
            },
            TranslationError::LanguageUnsupported { source, target } => {
                TranslationError::LanguageUnsupported {
                    source: source.clone(),
                    target: target.clone(),
                }
            },
            TranslationError::TranslationFailed { reason } => {
                TranslationError::TranslationFailed { reason: reason.clone() }
            },
            TranslationError::TimedOut { operation, seconds } => {
                TranslationError::TimedOut { operation: *operation, seconds: *seconds }
            },
        }
    }
}

impl ErrorModel {
    /// What the error is called to a user.
    pub open spec fn message(self) -> Seq<char> {
        match self {
            ErrorModel::LanguageNotInstalled { source, target } => {
                "language model not installed for "@ + source + " → "@ + target
            },
            ErrorModel::LanguageUnsupported { source, target } => {
                "language pair unsupported: "@ + source + " → "@ + target
            },
            ErrorModel::TranslationFailed { reason } => "translation failed: "@ + reason,
            ErrorModel::TimedOut { operation, seconds } => {
                operation + " timed out after "@ + text::decimal(seconds as nat) + "s"@
            },
        }
    }
}

impl TranslationError {
    /// What the error is called to a user.
    pub fn to_string(&self) -> (message: String)
        ensures
            message@ == self@.message(),
    {
        match self {
            TranslationError::LanguageNotInstalled { source, target } => {
                let mut message = "language model not installed for ".to_owned();
                message.append(source.as_str());
                message.append(" → ");
                message.append(target.as_str());
                message
            },
            TranslationError::LanguageUnsupported { source, target } => {
                let mut message = "language pair unsupported: ".to_owned();
                message.append(source.as_str());
                message.append(" → ");
                message.append(target.as_str());
                message
            },
            TranslationError::TranslationFailed { reason } => {
                let mut message = "translation failed: ".to_owned();
                message.append(reason.as_str());
                message
            },
            TranslationError::TimedOut { operation, seconds } => {
                let mut message = (*operation).to_owned();
                message.append(" timed out after ");
                message.append(text::decimal_text(*seconds).as_str());
                message.append("s");
                message
            },
        }
    }
}

/// The error of an operation that exceeded its deadline.
pub fn timed_out(operation: &'static str, seconds: u64) -> (error: TranslationError)
    ensures
        error@ == (ErrorModel::TimedOut { operation: operation@, seconds }),
        error matches TranslationError::TimedOut { operation: o, seconds: s } && o@ == operation@
            && s == seconds,
{
    TranslationError::TimedOut { operation, seconds }
}

/// The error of a translation that failed for `reason`.
pub fn translation_failed(reason: &str) -> (error: TranslationError)
    ensures
        error@ == (ErrorModel::TranslationFailed { reason: reason@ }),
        error matches TranslationError::TranslationFailed { reason: r } && r@ == reason@,
{
    TranslationError::TranslationFailed { reason: reason.to_owned() }
}

/// The error that a failed check of a language pair stands for.
pub open spec fn pair_error(
    kind: i32,
    source: Seq<char>,
    target: Seq<char>,
    fallback: Seq<char>,
) -> ErrorModel {
    if kind == ERR_LANG_NOT_INSTALLED {
        ErrorModel::LanguageNotInstalled { source, target }
    } else if kind == ERR_LANG_UNSUPPORTED {
        ErrorModel::LanguageUnsupported { source, target }
    } else if kind == ERR_TIMED_OUT {
        ErrorModel::TimedOut { operation: "check_language_availability"@, seconds: 15 }
    } else {
        ErrorModel::TranslationFailed { reason: fallback }
    }
}

/// The error of a check of a language pair that failed with an error of this
/// kind; `fallback` is the reason where the kind says nothing more.
pub fn source_target_error(kind: i32, source: &str, target: &str, fallback: String) -> (error:
    TranslationError)
    ensures
        error@ == pair_error(kind, source@, target@, fallback@),
{
    if kind == ERR_LANG_NOT_INSTALLED {
        TranslationError::LanguageNotInstalled {
            source: source.to_owned(),
            target: target.to_owned(),
        }
    } else if kind == ERR_LANG_UNSUPPORTED {
        TranslationError::LanguageUnsupported {
            source: source.to_owned(),
            target: target.to_owned(),
        }
    } else if kind == ERR_TIMED_OUT {
        timed_out("check_language_availability", 15)
    } else {
        translation_failed(fallback.as_str())
    }
}

/// The error kind and message that the framework left behind last and that
/// nobody has taken yet.
pub struct LastError {
    kind: i32,
    message: String,
}

/// What [`LastError`] stands for.
pub struct LastErrorModel {
    pub kind: i32,
    pub message: Seq<char>,
}

/// That no error is left behind.
pub open spec fn no_error() -> LastErrorModel {
    LastErrorModel { kind: ERR_SUCCESS, message: Seq::empty() }
}

impl View for LastError {
    type V = LastErrorModel;

    closed spec fn view(&self) -> LastErrorModel {
        LastErrorModel { kind: self.kind, message: self.message@ }
    }
}

impl LastError {
    /// That no error is left behind.
    pub fn new() -> (last: LastError)
        ensures
            last@ == no_error(),
    {
        LastError { kind: ERR_SUCCESS, message: String::new() }
    }

    /// Leaves an error behind, in place of what was left before.
    pub fn set(&mut self, kind: i32, message: String)
        ensures
            final(self)@ == (LastErrorModel { kind, message: message@ }),
    {
        self.kind = kind;
        self.message = message;
    }
}

/// Takes the error that was left behind last. Nothing is left behind after
/// that, so that no error is taken for that of a later call.
pub fn take_last_error(last: &mut LastError) -> (taken: (i32, String))
    ensures
        taken.0 == old(last)@.kind,
        taken.1@ == old(last)@.message,
        final(last)@ == no_error(),
{
    let mut message = String::new();
    std::mem::swap(&mut message, &mut last.message);
    let kind: i32 = last.kind;
    last.kind = ERR_SUCCESS;
    (kind, message)
}

/// An error stands for its own variant, with what its fields hold.
pub proof fn an_error_is_of_its_own_variant(error: TranslationError)
    ensures
        match error {
            TranslationError::LanguageNotInstalled { source, target } => {
                error@ matches ErrorModel::LanguageNotInstalled { source: s, target: t } && s
                    == source@ && t == target@
            },
            TranslationError::LanguageUnsupported { source, target } => {
                error@ matches ErrorModel::LanguageUnsupported { source: s, target: t } && s
                    == source@ && t == target@
            },
            TranslationError::TranslationFailed { reason } => {
                error@ matches ErrorModel::TranslationFailed { reason: r } && r == reason@
            },
            TranslationError::TimedOut { operation, seconds } => {
                error@ matches ErrorModel::TimedOut { operation: o, seconds: s } && o == operation@
                    && s == seconds
            },
        },
{
}

/// The framework's kinds of error mean: 1, that the pair's model is not
/// installed; 2, that the pair is not supported; 4, that the check took longer
/// than its 15 seconds; and any other, that it failed for the reason given. The
/// first two name the pair that was checked.
pub proof fn each_kind_of_error_means_one_thing(
    kind: i32,
    source: Seq<char>,
    target: Seq<char>,
    reason: Seq<char>,
)
    ensures
        kind == 1 <==> pair_error(kind, source, target, reason) == (
        ErrorModel::LanguageNotInstalled { source, target }),
        kind == 2 <==> pair_error(kind, source, target, reason) == (
        ErrorModel::LanguageUnsupported { source, target }),
        kind == 4 <==> pair_error(kind, source, target, reason) == (ErrorModel::TimedOut {
            operation: "check_language_availability"@,
            seconds: 15,
        }),
        kind != 1 && kind != 2 && kind != 4 <==> pair_error(kind, source, target, reason) == (
        ErrorModel::TranslationFailed { reason }),
{
}

/// What an error is called says which it is and holds what it is about: the
/// pair with an arrow between, the reason, or the operation and its deadline.
pub proof fn an_error_is_called_by_what_it_is_about(
    source: Seq<char>,
    target: Seq<char>,
    seconds: u64,
)
    ensures
        (ErrorModel::LanguageNotInstalled { source, target }).message()
            == "language model not installed for "@ + source + " → "@ + target,
        (ErrorModel::LanguageUnsupported { source, target }).message()
            == "language pair unsupported: "@ + source + " → "@ + target,
        (ErrorModel::TranslationFailed { reason: source }).message() == "translation failed: "@
            + source,
        (ErrorModel::TimedOut { operation: source, seconds }).message() == source
            + " timed out after "@ + text::decimal(seconds as nat) + "s"@,
{
}

/// Nothing is left behind where there is no error.
pub proof fn no_error_is_a_success()
    ensures
        no_error().kind == 0,
        no_error().message.len() == 0,
{
}

} // verus!
