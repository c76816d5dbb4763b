//! The library's operations end to end, with a stand-in for the framework
//! that knows one language pair.

use apple_translate_rs_sync::translator::{check_language_availability_call, detect_language_call};
use apple_translate_rs_sync::{
    check_language_availability, detect_language, BatchAction, FrameworkCall, LanguageTranslator,
    LastError, TranslationError, TranslationRequest, TranslationResponse,
};

fn translation_of(text: &str) -> Option<String> {
    match text {
        "Hello" => Some("Hola".to_owned()),
        "Goodbye" => Some("Adiós".to_owned()),
        "World" => Some("Mundo".to_owned()),
        _ => None,
    }
}

fn answer(call: FrameworkCall, last: &mut LastError) -> Option<String> {
    match call {
        FrameworkCall::DetectLanguage { text } => match text.as_str() {
            "Hello, world!" => Some("en".to_owned()),
            "Hola, mundo!" => Some("es".to_owned()),
            _ => None,
        },
        FrameworkCall::CheckLanguages { source, target } => {
            match (source.as_str(), target.as_str()) {
                ("en", "es") => None,
                ("en", "zu") => {
                    last.set(1, "not installed".to_owned());
                    Some("not installed".to_owned())
                }
                _ => {
                    last.set(2, "unsupported".to_owned());
                    Some("unsupported".to_owned())
                }
            }
        }
        FrameworkCall::Translate { source, target, text } => {
            assert_eq!((source.as_str(), target.as_str()), ("en", "es"));
            translation_of(&text)
        }
        FrameworkCall::PrepareTranslation { source, target } => {
            assert_eq!((source.as_str(), target.as_str()), ("en", "es"));
            None
        }
        FrameworkCall::TranslateBatch { .. } => panic!("answered as a batch"),
    }
}

fn new_translator(source: &str, target: &str) -> Result<LanguageTranslator, TranslationError> {
    let mut last = LastError::new();
    let reply = answer(check_language_availability_call(source, target), &mut last);
    LanguageTranslator::new(source, target, reply, &mut last)
}

fn available(source: &str, target: &str) -> Result<(), TranslationError> {
    let mut last = LastError::new();
    let reply = answer(check_language_availability_call(source, target), &mut last);
    check_language_availability(source, target, reply, &mut last)
}

fn translate(
    t: &LanguageTranslator,
    text: &str,
) -> Result<TranslationResponse, TranslationError> {
    let mut last = LastError::new();
    let reply = answer(t.translate_call(text), &mut last);
    t.translate(text, reply, &mut last)
}

fn translate_batch(
    t: &LanguageTranslator,
    requests: &[TranslationRequest],
) -> Vec<Result<TranslationResponse, TranslationError>> {
    let mut last = LastError::new();
    let mut run = t.translate_batch(requests);
    loop {
        match run.action() {
            BatchAction::FindPool => run.pool_found(false),
            BatchAction::CallFramework(FrameworkCall::TranslateBatch { source, target, texts }) => {
                assert_eq!((source.as_str(), target.as_str()), ("en", "es"));
                let results = texts
                    .iter()
                    .map(|text| translation_of(text).unwrap_or_default())
                    .collect();
                run.framework_answered(results, &mut last);
            }
            BatchAction::Stop => return run.finish(),
            _ => panic!("no worker was found"),
        }
    }
}

fn detect(text: &str) -> Option<String> {
    detect_language(answer(detect_language_call(text), &mut LastError::new()))
}

fn try_en_es() -> Option<LanguageTranslator> {
    match new_translator("en", "es") {
        Ok(t) => Some(t),
        Err(TranslationError::LanguageNotInstalled { .. }) => {
            println!("Skipping: Spanish model not installed");
            None
        }
        Err(TranslationError::LanguageUnsupported { .. }) => {
            println!("Skipping: en→es unsupported");
            None
        }
        Err(e) => {
            println!("Skipping: runtime not available ({})", TranslationError::to_string(&e));
            None
        }
    }
}

#[test]
fn the_stand_in_offers_the_pair_that_the_tests_use() {
    assert!(try_en_es().is_some());
}

#[test]
fn test_new_unavailable_pair() {
    match new_translator("en", "zu") {
        Err(TranslationError::LanguageNotInstalled { source, target }) => {
            assert_eq!(source, "en");
            assert_eq!(target, "zu");
        }
        Err(TranslationError::LanguageUnsupported { .. }) => panic!("the model is known"),
        Ok(_) => panic!("the model is not installed"),
        Err(e) => panic!("unexpected error: {}", TranslationError::to_string(&e)),
    }
}

#[test]
fn test_source_and_target_accessors() {
    let t = match try_en_es() {
        Some(t) => t,
        None => return,
    };
    assert_eq!(t.source(), "en");
    assert_eq!(t.target(), "es");
}

#[test]
fn test_translate_single() {
    let t = match try_en_es() {
        Some(t) => t,
        None => return,
    };
    let response = translate(&t, "Hello").expect("translation should succeed");
    assert!(
        !response.target_text.is_empty(),
        "target text should not be empty"
    );
    assert_eq!(response.source_language, "en");
    assert_eq!(response.target_language, "es");
    assert_eq!(response.source_text, "Hello");
    assert!(response.client_identifier.is_none());
    println!("en→es: 'Hello' → '{}'", response.target_text);
}

#[test]
fn test_translate_batch_sync() {
    let t = match try_en_es() {
        Some(t) => t,
        None => return,
    };
    let requests: Vec<TranslationRequest> = vec!["Hello".into(), "Goodbye".into()];
    let results = translate_batch(&t, &requests);
    assert_eq!(results.len(), 2);
    for (req, result) in requests.iter().zip(&results) {
        let response = result.as_ref().expect("batch item should succeed");
        assert!(!response.target_text.is_empty());
        assert_eq!(response.source_text, req.source_text);
        println!("'{}' → '{}'", req.source_text, response.target_text);
    }
}

#[test]
fn test_translate_batch_empty() {
    let t = match try_en_es() {
        Some(t) => t,
        None => return,
    };
    let results = translate_batch(&t, &[]);
    assert!(results.is_empty());
}

#[test]
fn test_prepare() {
    let t = match try_en_es() {
        Some(t) => t,
        None => return,
    };
    let mut last = LastError::new();
    let reply = answer(t.prepare_call(), &mut last);
    match t.prepare(reply, &mut last) {
        Ok(()) => println!("prepare() succeeded"),
        Err(e) => panic!("prepare() returned error: {}", TranslationError::to_string(&e)),
    }
}

#[test]
fn test_check_availability_sync() {
    match available("en", "es") {
        Ok(()) => println!("en→es available"),
        Err(TranslationError::LanguageNotInstalled { .. }) => {
            println!("en→es model not installed");
        }
        Err(TranslationError::LanguageUnsupported { .. }) => {
            println!("en→es unsupported");
        }
        Err(e) => println!("availability check failed: {}", TranslationError::to_string(&e)),
    }

    let result = available("en", "zz");
    assert!(result.is_err(), "invalid pair should error");
}

#[test]
fn test_detect_language() {
    let lang = detect("Hello, world!");
    assert_eq!(lang.as_deref(), Some("en"), "should detect English");

    let lang = detect("Hola, mundo!");
    assert_eq!(lang.as_deref(), Some("es"), "should detect Spanish");

    let lang = detect("");
    assert!(lang.is_none(), "empty text should return None");
}

#[test]
fn test_request_constructors() {
    let req = TranslationRequest::new("hello");
    assert_eq!(req.source_text, "hello");
    assert!(req.client_identifier.is_none());

    let req = TranslationRequest::new(String::from("hello"));
    assert_eq!(req.source_text, "hello");

    let req = TranslationRequest::with_client_id("hello", "msg-1");
    assert_eq!(req.source_text, "hello");
    assert_eq!(req.client_identifier.as_deref(), Some("msg-1"));

    let req: TranslationRequest = "hello".into();
    assert_eq!(req.source_text, "hello");

    let req: TranslationRequest = String::from("hello").into();
    assert_eq!(req.source_text, "hello");
}

#[test]
fn test_response_fields() {
    let t = match try_en_es() {
        Some(t) => t,
        None => return,
    };
    let req = TranslationRequest::with_client_id("Hello", "test-1");
    let response = translate_batch(&t, &[req])
        .into_iter()
        .next()
        .unwrap()
        .expect("should succeed");

    assert_eq!(response.source_language, "en");
    assert_eq!(response.target_language, "es");
    assert_eq!(response.source_text, "Hello");
    assert!(!response.target_text.is_empty());
    assert_eq!(response.client_identifier.as_deref(), Some("test-1"));
}

#[test]
fn test_translator_is_cloneable() {
    let t = match try_en_es() {
        Some(t) => t,
        None => return,
    };
    let t2 = t.clone();
    assert_eq!(t.source(), t2.source());
    assert_eq!(t.target(), t2.target());

    let r1 = translate(&t, "Hello").unwrap();
    let r2 = translate(&t2, "World").unwrap();
    assert!(!r1.target_text.is_empty());
    assert!(!r2.target_text.is_empty());
}

fn assert_impl<T: Send + Sync>() {}

#[test]
fn assert_send_sync() {
    assert_impl::<LanguageTranslator>();
    assert_impl::<TranslationError>();
    assert_impl::<TranslationRequest>();
    assert_impl::<TranslationResponse>();
}
