//! A batch through a worker, through the framework, and from one to the other.

use apple_translate_rs_sync::error::{timed_out, translation_failed};
use apple_translate_rs_sync::{
    is_usable_batch, BatchAction, BatchRun, FrameworkCall, LanguageTranslator, LastError,
    TranslationError, TranslationRequest, TranslationResponse,
};

type Results = Vec<Result<TranslationResponse, TranslationError>>;

fn translator() -> LanguageTranslator {
    LanguageTranslator::new("zh-Hans", "en", None, &mut LastError::new()).unwrap()
}

fn requests(texts: &[&str]) -> Vec<TranslationRequest> {
    texts.iter().map(|t| TranslationRequest::new(*t)).collect()
}

fn strings(texts: &[&str]) -> Vec<String> {
    texts.iter().map(|t| (*t).to_owned()).collect()
}

/// Runs a batch to its end. Gives its results and the notices given.
fn run_batch(
    texts: &[&str],
    worker: Option<Result<Vec<String>, String>>,
    framework: &[&str],
    kind: i32,
) -> (Results, Vec<String>) {
    let mut run: BatchRun = translator().translate_batch(&requests(texts));
    let mut last = LastError::new();
    last.set(kind, String::new());
    let mut notices = Vec::new();
    loop {
        match run.action() {
            BatchAction::FindPool => run.pool_found(worker.is_some()),
            BatchAction::RunWorker(asked) => {
                assert_eq!(asked, strings(texts));
                run.worker_answered(worker.clone().unwrap());
            }
            BatchAction::Retire(notice) => {
                notices.push(notice);
                run.worker_retired();
            }
            BatchAction::CallFramework(call) => {
                assert_eq!(
                    call,
                    FrameworkCall::TranslateBatch {
                        source: "zh-Hans".to_owned(),
                        target: "en".to_owned(),
                        texts: strings(texts),
                    }
                );
                run.framework_answered(strings(framework), &mut last);
            }
            BatchAction::Stop => return (run.finish(), notices),
        }
    }
}

fn targets(results: &Results) -> Vec<Option<String>> {
    results
        .iter()
        .map(|r| r.as_ref().ok().map(|r| r.target_text.clone()))
        .collect()
}

fn some(texts: &[&str]) -> Vec<Option<String>> {
    texts.iter().map(|t| Some((*t).to_owned())).collect()
}

#[test]
fn an_empty_batch_has_its_results_at_once() {
    let (results, notices) = run_batch(&[], None, &["unasked"], 0);
    assert!(results.is_empty());
    assert!(notices.is_empty());
}

#[test]
fn a_worker_serves_its_pair() {
    let worker = Some(Ok(strings(&["Hello", "World"])));
    let (results, notices) = run_batch(&["你好", "世界"], worker, &[], 4);
    assert_eq!(targets(&results), some(&["Hello", "World"]));
    assert!(notices.is_empty());
}

#[test]
fn a_worker_that_serves_in_part_is_kept() {
    let worker = Some(Ok(strings(&["", "World"])));
    let (results, notices) = run_batch(&["你好", "世界"], worker, &["A", "B"], 0);
    assert_eq!(results[0], Err(translation_failed("translation failed")));
    assert_eq!(results[1].as_ref().unwrap().target_text, "World");
    assert!(notices.is_empty());
}

#[test]
fn without_a_worker_the_framework_serves() {
    let (results, notices) = run_batch(&["你好"], None, &["Hello"], 0);
    assert_eq!(targets(&results), some(&["Hello"]));
    assert!(notices.is_empty());
}

#[test]
fn a_failed_worker_is_given_up() {
    let worker = Some(Err("worker closed stdout".to_owned()));
    let (results, notices) = run_batch(&["你好"], worker, &["Hello"], 0);
    assert_eq!(targets(&results), some(&["Hello"]));
    assert_eq!(
        notices,
        ["apple-translate-rs-sync: worker failed: worker closed stdout; disabling worker for zh-Hans->en and falling back"]
    );
}

#[test]
fn a_worker_without_translations_is_given_up() {
    let worker = Some(Ok(strings(&["", ""])));
    let (results, notices) = run_batch(&["你好", ""], worker, &["Hello", ""], 0);
    assert_eq!(results[0].as_ref().unwrap().target_text, "Hello");
    assert_eq!(results[1], Err(translation_failed("translation failed")));
    assert_eq!(
        notices,
        ["apple-translate-rs-sync: worker returned no usable translations; disabling worker for zh-Hans->en and falling back"]
    );
}

#[test]
fn a_worker_is_kept_where_there_was_nothing_to_translate() {
    let worker = Some(Ok(strings(&["", ""])));
    let (results, notices) = run_batch(&["", ""], worker, &["", ""], 0);
    assert_eq!(targets(&results), vec![None, None]);
    assert!(notices.is_empty());
}

#[test]
fn a_useless_worker_leaves_the_results_as_without_it() {
    let without = run_batch(&["a", "b"], None, &["A", "B"], 0).0;
    let failed = run_batch(&["a", "b"], Some(Err("x".to_owned())), &["A", "B"], 0).0;
    let useless = run_batch(&["a", "b"], Some(Ok(strings(&["", ""]))), &["A", "B"], 0).0;
    assert_eq!(failed, without);
    assert_eq!(useless, without);
}

#[test]
fn no_results_at_all_fail_every_request() {
    let (results, _) = run_batch(&["a", "b"], None, &[], 4);
    assert_eq!(
        results,
        vec![
            Err(timed_out("translate_batch", 60)),
            Err(timed_out("translate_batch", 60))
        ]
    );
    let (results, _) = run_batch(&["a", "b", "c"], None, &[], 3);
    assert_eq!(results.len(), 3);
    for result in results {
        assert_eq!(result, Err(translation_failed("batch translation failed")));
    }
}

#[test]
fn every_request_gets_a_result_though_some_are_missing() {
    let (results, _) = run_batch(&["a", "b", "c"], None, &["A"], 0);
    assert_eq!(targets(&results), vec![Some("A".to_owned()), None, None]);
    let (results, _) = run_batch(&["a"], None, &["A", "B"], 0);
    assert_eq!(targets(&results), some(&["A"]));
}

#[test]
fn a_batch_is_usable_with_one_translation() {
    assert!(!is_usable_batch(&[]));
    assert!(!is_usable_batch(&strings(&["", ""])));
    assert!(is_usable_batch(&strings(&["", "x"])));
}
