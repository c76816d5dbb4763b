//! What a translator asks for, and what it makes of each reply.

use apple_translate_rs_sync::error::{timed_out, translation_failed};
use apple_translate_rs_sync::translator::{check_language_availability_call, detect_language_call};
use apple_translate_rs_sync::{
    check_language_availability, source_target_error, take_last_error, FrameworkCall,
    LanguageTranslator, LastError, TranslationError, TranslationRequest,
};

fn en_es() -> LanguageTranslator {
    LanguageTranslator::new("en", "es", None, &mut LastError::new()).unwrap()
}

fn failed_with(kind: i32) -> LastError {
    let mut last = LastError::new();
    last.set(kind, "detail".to_owned());
    last
}

#[test]
fn calls_carry_the_pair_and_the_text() {
    let t = en_es();
    assert_eq!(
        t.translate_call("Hello"),
        FrameworkCall::Translate {
            source: "en".to_owned(),
            target: "es".to_owned(),
            text: "Hello".to_owned(),
        }
    );
    assert_eq!(
        t.prepare_call(),
        FrameworkCall::PrepareTranslation {
            source: "en".to_owned(),
            target: "es".to_owned(),
        }
    );
    assert_eq!(
        check_language_availability_call("a", "b"),
        FrameworkCall::CheckLanguages {
            source: "a".to_owned(),
            target: "b".to_owned(),
        }
    );
    assert_eq!(
        detect_language_call("x"),
        FrameworkCall::DetectLanguage {
            text: "x".to_owned(),
        }
    );
}

#[test]
fn each_kind_of_error_has_its_own_meaning_for_a_pair() {
    let meaning = |kind: i32| {
        check_language_availability("en", "zu", Some("why".to_owned()), &mut failed_with(kind))
    };
    assert_eq!(
        meaning(1),
        Err(TranslationError::LanguageNotInstalled {
            source: "en".to_owned(),
            target: "zu".to_owned(),
        })
    );
    assert_eq!(
        meaning(2),
        Err(TranslationError::LanguageUnsupported {
            source: "en".to_owned(),
            target: "zu".to_owned(),
        })
    );
    assert_eq!(
        meaning(4),
        Err(timed_out("check_language_availability", 15))
    );
    for kind in [0, 3, 5, -1] {
        assert_eq!(meaning(kind), Err(translation_failed("why")));
    }
    assert_eq!(
        source_target_error(3, "en", "zu", "because".to_owned()),
        translation_failed("because")
    );
}

#[test]
fn a_translator_is_had_exactly_where_the_pair_is_available() {
    let made = LanguageTranslator::new("zh-Hans", "en", None, &mut failed_with(2));
    let t = made.unwrap();
    assert_eq!((t.source(), t.target()), ("zh-Hans", "en"));
    let refused = LanguageTranslator::new("en", "zz", Some("no".to_owned()), &mut failed_with(2));
    assert_eq!(
        refused,
        Err(TranslationError::LanguageUnsupported {
            source: "en".to_owned(),
            target: "zz".to_owned(),
        })
    );
}

#[test]
fn a_translation_without_reply_is_a_failure() {
    let t = en_es();
    assert_eq!(
        t.translate("Hello", None, &mut failed_with(4)),
        Err(timed_out("translate", 30))
    );
    assert_eq!(
        t.translate("Hello", None, &mut failed_with(3)),
        Err(translation_failed(
            "translation failed (check stderr for details from the Swift runtime)"
        ))
    );
}

#[test]
fn preparing_succeeds_without_a_reply() {
    let t = en_es();
    assert_eq!(t.prepare(None, &mut failed_with(4)), Ok(()));
    assert_eq!(
        t.prepare(Some("slow".to_owned()), &mut failed_with(4)),
        Err(timed_out("prepare", 60))
    );
    assert_eq!(
        t.prepare(Some("broken".to_owned()), &mut failed_with(3)),
        Err(translation_failed("broken"))
    );
}

#[test]
fn an_error_is_taken_once() {
    let mut last = failed_with(4);
    assert_eq!(take_last_error(&mut last), (4, "detail".to_owned()));
    assert_eq!(take_last_error(&mut last), (0, String::new()));

    let t = en_es();
    let mut last = failed_with(4);
    assert_eq!(
        t.translate("a", None, &mut last),
        Err(timed_out("translate", 30))
    );
    assert_eq!(
        t.prepare(Some("own reason".to_owned()), &mut last),
        Err(translation_failed("own reason"))
    );
}

#[test]
fn a_success_leaves_the_last_error_alone() {
    let t = en_es();
    let mut last = failed_with(4);
    assert!(t.translate("a", Some("b".to_owned()), &mut last).is_ok());
    assert_eq!(take_last_error(&mut last), (4, "detail".to_owned()));
}

#[test]
fn errors_are_worded_for_a_user() {
    let worded = |e: TranslationError| TranslationError::to_string(&e);
    assert_eq!(
        worded(TranslationError::LanguageNotInstalled {
            source: "en".to_owned(),
            target: "zu".to_owned(),
        }),
        "language model not installed for en → zu"
    );
    assert_eq!(
        worded(TranslationError::LanguageUnsupported {
            source: "en".to_owned(),
            target: "zz".to_owned(),
        }),
        "language pair unsupported: en → zz"
    );
    assert_eq!(worded(translation_failed("x")), "translation failed: x");
    assert_eq!(
        worded(timed_out("translate_batch", 60)),
        "translate_batch timed out after 60s"
    );
    assert_eq!(
        worded(timed_out("op", u64::MAX)),
        "op timed out after 18446744073709551615s"
    );
}

#[test]
fn responses_stand_in_the_place_of_their_requests() {
    let t = en_es();
    let requests = vec![
        TranslationRequest::with_client_id("one", "1"),
        TranslationRequest::new("two"),
        TranslationRequest::new("three"),
    ];
    let targets = vec!["uno".to_owned(), String::new()];
    let results = t.responses_from_targets(&requests, &targets);
    assert_eq!(results.len(), 3);
    let first = results[0].as_ref().unwrap();
    assert_eq!(first.source_text, "one");
    assert_eq!(first.target_text, "uno");
    assert_eq!(first.client_identifier.as_deref(), Some("1"));
    assert_eq!(results[1], Err(translation_failed("translation failed")));
    assert_eq!(results[2], Err(translation_failed("translation failed")));

    let more = vec!["uno".to_owned(), "dos".to_owned(), "tres".to_owned(), "cuatro".to_owned()];
    let results = t.responses_from_targets(&requests, &more);
    assert_eq!(results.len(), 3);
    assert_eq!(results[2].as_ref().unwrap().target_text, "tres");
    assert!(results[2].as_ref().unwrap().client_identifier.is_none());
}

#[test]
fn requests_and_errors_are_copied_whole() {
    let request = TranslationRequest::with_client_id(&"text".to_owned(), "id");
    assert_eq!(request.clone(), request);
    let error = timed_out("op", 1);
    assert_eq!(error.clone(), error);
    let response = en_es().translate("a", Some("b".to_owned()), &mut LastError::new()).unwrap();
    assert_eq!(response.clone(), response);
}
