//! What the programs around the library decide.

use apple_translate_rs_sync::cli::{
    detected_source, parse_args, printed, text_from_stdin, translator_failure, CliCommand,
};
use apple_translate_rs_sync::error::{timed_out, translation_failed};
use apple_translate_rs_sync::functional::{
    show_item, show_single, Failure, FunctionalRun, Probe, ProbeAction, Suite, Verdict,
};
use apple_translate_rs_sync::stress::{
    chunk_bounds, chunk_requests, cycle_texts, exit_with, failing_rounds, merge, parse_mode,
    requests_from_strings, requests_from_strs, round_sizes, stress_result, tally, tally_outputs,
    translated_length, worker_line, worker_lines, Mode, ModeChoice, Throughput, BATCH_TEXTS,
    CALLS_PER_THREAD,
};
use apple_translate_rs_sync::{
    LanguageTranslator, LastError, TranslationError, TranslationRequest, TranslationResponse,
};

fn strings(texts: &[&str]) -> Vec<String> {
    texts.iter().map(|t| (*t).to_owned()).collect()
}

fn parsed(args: &[&str]) -> CliCommand {
    parse_args(&strings(args))
}

fn translation(from: Option<&str>, to: &str, text: Option<&str>) -> CliCommand {
    CliCommand::Translate {
        from: from.map(|s| s.to_owned()),
        to: to.to_owned(),
        text: text.map(|s| s.to_owned()),
    }
}

fn refused(message: &str) -> CliCommand {
    CliCommand::Refused(message.to_owned())
}

#[test]
fn words_are_translated_into_english_by_default() {
    assert_eq!(parsed(&[]), translation(None, "en", None));
    assert_eq!(parsed(&["Hola, mundo!"]), translation(None, "en", Some("Hola, mundo!")));
    assert_eq!(parsed(&["a", "b", "c"]), translation(None, "en", Some("a b c")));
}

#[test]
fn empty_words_part_no_others_at_the_start() {
    assert_eq!(parsed(&[""]), translation(None, "en", Some("")));
    assert_eq!(parsed(&["", "", "a"]), translation(None, "en", Some("a")));
    assert_eq!(parsed(&["a", "", "b"]), translation(None, "en", Some("a  b")));
}

#[test]
fn options_name_the_languages() {
    assert_eq!(
        parsed(&["--to", "fr", "Hello, world!"]),
        translation(None, "fr", Some("Hello, world!"))
    );
    assert_eq!(
        parsed(&["--from", "en", "--to", "zh-Hans", "Good morning"]),
        translation(Some("en"), "zh-Hans", Some("Good morning"))
    );
    assert_eq!(
        parsed(&["Good", "-f", "en", "-t", "ja", "morning"]),
        translation(Some("en"), "ja", Some("Good morning"))
    );
    assert_eq!(parsed(&["-f", "-t"]), translation(Some("-t"), "en", None));
}

#[test]
fn the_last_language_counts() {
    assert_eq!(
        parsed(&["-t", "fr", "x", "--to", "de"]),
        translation(None, "de", Some("x"))
    );
    assert_eq!(
        parsed(&["-f", "fr", "x", "--from", "de"]),
        translation(Some("de"), "en", Some("x"))
    );
}

#[test]
fn options_without_a_language_are_refused() {
    assert_eq!(parsed(&["-f"]), refused("error: --from requires a language code"));
    assert_eq!(parsed(&["x", "--to"]), refused("error: --to requires a language code"));
    assert_eq!(parsed(&["--bogus", "-h"]), refused("error: unknown flag: --bogus"));
    assert_eq!(parsed(&["-"]), refused("error: unknown flag: -"));
}

#[test]
fn help_is_given_as_soon_as_it_is_asked_for() {
    assert_eq!(parsed(&["-h", "--bogus"]), CliCommand::Usage);
    assert_eq!(parsed(&["x", "--help"]), CliCommand::Usage);
    assert_eq!(parsed(&["--install"]), CliCommand::InstallHelp);
    assert_eq!(parsed(&["--download", "-h"]), CliCommand::InstallHelp);
}

#[test]
fn the_standard_input_is_read_without_its_end() {
    assert_eq!(text_from_stdin(" a b \n\u{3000}\u{85}\t").as_deref(), Some(" a b"));
    assert_eq!(text_from_stdin(" \n"), None);
    assert_eq!(text_from_stdin(""), None);
}

#[test]
fn a_missing_language_pair_leads_to_help() {
    let missing = TranslationError::LanguageNotInstalled {
        source: "en".to_owned(),
        target: "zu".to_owned(),
    };
    let failure = translator_failure(&missing, "en", "zu");
    assert_eq!(failure.message, "error: language pair not available: en -> zu");
    assert!(failure.install_help);
    let unsupported = TranslationError::LanguageUnsupported {
        source: "en".to_owned(),
        target: "zz".to_owned(),
    };
    assert!(translator_failure(&unsupported, "en", "zz").install_help);
    let failure = translator_failure(&timed_out("x", 15), "en", "zu");
    assert_eq!(failure.message, "error: x timed out after 15s");
    assert!(!failure.install_help);
}

#[test]
fn a_detected_language_is_noted() {
    assert_eq!(
        detected_source(Some("es".to_owned())),
        Ok(("es".to_owned(), "[detected source: es]".to_owned()))
    );
    assert_eq!(
        detected_source(None),
        Err(strings(&[
            "error: could not auto-detect source language",
            "  Hint: specify the source language with --from LANG",
        ]))
    );
}

fn response(source_text: &str, target_text: &str, id: Option<&str>) -> TranslationResponse {
    TranslationResponse {
        source_language: "zh-Hans".to_owned(),
        target_language: "en".to_owned(),
        source_text: source_text.to_owned(),
        target_text: target_text.to_owned(),
        client_identifier: id.map(|s| s.to_owned()),
    }
}

#[test]
fn the_translation_is_printed() {
    assert_eq!(printed(Ok(response("a", "b", None))), Ok("b".to_owned()));
    assert_eq!(
        printed(Err(translation_failed("x"))),
        Err("error: translation failed: x".to_owned())
    );
}

#[test]
fn the_arguments_choose_a_mode() {
    let chosen = |args: &[&str]| parse_mode(&strings(args));
    assert_eq!(chosen(&[]), ModeChoice::Run(Mode::All));
    assert_eq!(chosen(&["all"]), ModeChoice::Run(Mode::All));
    for name in ["functional", "harness", "smoke"] {
        assert_eq!(chosen(&[name]), ModeChoice::Run(Mode::Functional));
    }
    for name in ["batch", "short"] {
        assert_eq!(chosen(&[name]), ModeChoice::Run(Mode::Batch));
    }
    assert_eq!(chosen(&["long"]), ModeChoice::Run(Mode::Long));
    assert_eq!(chosen(&["parallel"]), ModeChoice::Run(Mode::Parallel));
    assert_eq!(chosen(&["worker"]), ModeChoice::Run(Mode::WorkerBatch));
    assert_eq!(chosen(&["worker", "batch"]), ModeChoice::Run(Mode::WorkerBatch));
    assert_eq!(chosen(&["worker", "long"]), ModeChoice::Run(Mode::WorkerLong));
    for name in ["-h", "--help", "help"] {
        assert_eq!(chosen(&[name]), ModeChoice::Usage);
    }
    assert_eq!(
        chosen(&["fast"]),
        ModeChoice::Unknown("unknown stress mode: fast".to_owned())
    );
}

#[test]
fn a_run_that_failed_says_so() {
    assert_eq!(exit_with(0), 0);
    assert_eq!(exit_with(1), 1);
    assert_eq!(exit_with(7), 1);
}

#[test]
fn a_run_has_its_rounds_and_their_failures() {
    assert_eq!(round_sizes(), [1, 2, 4, 8, 16]);
    assert_eq!((BATCH_TEXTS, CALLS_PER_THREAD), (40, 20));
    let good = Throughput { ok: 20, fail: 0 };
    let bad = Throughput { ok: 19, fail: 1 };
    assert_eq!(stress_result(true, &[good, bad, good, bad]), 2);
    assert_eq!(stress_result(true, &[good]), 0);
    assert_eq!(stress_result(true, &[]), 0);
    assert_eq!(stress_result(false, &[]), 1);
    assert_eq!(stress_result(false, &[bad, bad]), 1);
}

#[test]
fn texts_are_cycled_and_asked_for() {
    assert_eq!(cycle_texts(&["a", "b", "c"], 5), ["a", "b", "c", "a", "b"]);
    assert!(cycle_texts(&[], 5).is_empty());
    let requests = requests_from_strs(&["a", "b"]);
    assert_eq!(requests, requests_from_strings(&strings(&["a", "b"])));
    assert_eq!(requests, vec![TranslationRequest::new("a"), TranslationRequest::new("b")]);
}

#[test]
fn items_are_spread_evenly() {
    assert_eq!(chunk_bounds(10, 4), [(0, 3), (3, 6), (6, 8), (8, 10)]);
    assert_eq!(chunk_bounds(2, 3), [(0, 1), (1, 2), (2, 2)]);
    assert_eq!(chunk_bounds(0, 2), [(0, 0), (0, 0)]);
    let chunks = chunk_requests(&["a", "b", "c"], 2);
    assert_eq!(chunks.len(), 2);
    assert_eq!(chunks[0], requests_from_strs(&["a", "b"]));
    assert_eq!(chunks[1], requests_from_strs(&["c"]));
}

#[test]
fn results_are_counted() {
    let results = vec![
        Ok(response("a", "A", None)),
        Err(translation_failed("x")),
        Ok(response("b", "B", None)),
    ];
    let counted = tally(&results);
    assert_eq!(counted, Throughput { ok: 2, fail: 1 });
    assert_eq!(tally(&[]), Throughput { ok: 0, fail: 0 });
    assert_eq!(
        tally_outputs(&strings(&["x", "", "y"])),
        Throughput { ok: 2, fail: 1 }
    );
    let good = Throughput { ok: 5, fail: 0 };
    assert_eq!(merge(&[counted, good]), Throughput { ok: 7, fail: 1 });
    assert_eq!(failing_rounds(&[counted, good, counted]), 2);
    assert_eq!(failing_rounds(&[good]), 0);
    assert_eq!(translated_length(good, 12), 60);
    assert_eq!(worker_lines(&results), ["A", "B"]);
    assert_eq!(worker_line(&results).as_deref(), Some("A"));
    assert_eq!(worker_line(&results[1..]), None);
    assert_eq!(worker_line(&[]), None);
}

fn made() -> Result<LanguageTranslator, TranslationError> {
    LanguageTranslator::new("zh-Hans", "en", None, &mut LastError::new())
}

fn lines(suite: Suite, verdicts: &[Verdict]) -> Vec<String> {
    verdicts.iter().map(|v| v.line(suite)).collect()
}

/// A run up to the probe for a translator, with everything as it should be.
fn run_to_creation(suite: Suite) -> FunctionalRun {
    let mut run = FunctionalRun::new(suite);
    assert_eq!(run.action(), ProbeAction::Detect("Hello, world!"));
    run.detected(Some("en".to_owned()));
    assert_eq!(run.action(), ProbeAction::Detect("你好世界"));
    run.detected(Some("zh-Hans".to_owned()));
    assert_eq!(run.action(), ProbeAction::Detect(""));
    run.detected(None);
    let pair = ProbeAction::Check {
        source: "zh-Hans",
        target: "en",
    };
    assert_eq!(run.action(), pair);
    run.checked(Ok(()));
    let invalid = ProbeAction::Check {
        source: "en",
        target: "zz",
    };
    assert_eq!(run.action(), invalid);
    run.checked(Err(translation_failed("x")));
    let create = ProbeAction::Create {
        source: "zh-Hans",
        target: "en",
    };
    assert_eq!(run.action(), create);
    run
}

#[test]
fn a_run_in_which_all_is_right_passes_every_check() {
    for suite in [Suite::Stress, Suite::Harness] {
        let mut run = run_to_creation(suite);
        run.created(&made());
        assert_eq!(run.action(), ProbeAction::Translate("你好"));
        run.translated(Ok(response("你好", "Hello", None)));
        let batch = requests_from_strs(&["你好", "世界", "谢谢"]);
        assert_eq!(run.action(), ProbeAction::Batch(batch));
        run.batch_answered(&[
            Ok(response("你好", "Hello", None)),
            Ok(response("世界", "World", None)),
            Ok(response("谢谢", "Thanks", None)),
        ]);
        let named = vec![
            TranslationRequest::with_client_id("你好", "a"),
            TranslationRequest::with_client_id("世界", "b"),
        ];
        assert_eq!(run.action(), ProbeAction::Batch(named));
        run.ids_answered(&[
            Ok(response("你好", "Hello", Some("a"))),
            Ok(response("世界", "World", Some("b"))),
        ]);
        assert_eq!(run.action(), ProbeAction::Batch(Vec::new()));
        run.empty_answered(&[]);
        assert_eq!(run.action(), ProbeAction::Prepare);
        run.prepared(Ok(()));
        assert_eq!(run.action(), ProbeAction::Stop);
        assert_eq!(run.probe(), Probe::Ended);
        assert_eq!(run.failed(), 0);
        let summary = match suite {
            Suite::Stress => "functional result: 15 passed, 0 failed",
            Suite::Harness => "=== Results: 15 passed, 0 failed ===",
        };
        assert_eq!(run.finish(), summary);
    }
}

#[test]
fn a_wrong_language_fails_its_check() {
    let mut run = FunctionalRun::new(Suite::Stress);
    let verdicts = run.detected(Some("fr".to_owned()));
    assert_eq!(
        lines(Suite::Stress, &verdicts),
        ["  FAIL  detect English: expected Some(\"en\"), got Some(\"fr\")"]
    );
    let verdicts = run.detected(None);
    assert_eq!(
        lines(Suite::Stress, &verdicts),
        ["  FAIL  detect Chinese: expected zh-*, got None"]
    );
    let verdicts = run.detected(Some("en".to_owned()));
    assert_eq!(
        lines(Suite::Stress, &verdicts),
        ["  FAIL  detect empty: expected None"]
    );
    let verdicts = run.checked(Err(translation_failed("x")));
    assert_eq!(
        lines(Suite::Stress, &verdicts),
        ["  FAIL  availability: translation failed: x"]
    );
    let verdicts = run.checked(Ok(()));
    assert_eq!(
        lines(Suite::Stress, &verdicts),
        ["  FAIL  invalid pair errors: expected error for en -> zz"]
    );
    assert_eq!(run.failed(), 5);
}

#[test]
fn without_a_translator_a_run_stops() {
    let mut run = run_to_creation(Suite::Stress);
    let verdicts = run.created(&Err(translation_failed("x")));
    assert_eq!(
        lines(Suite::Stress, &verdicts),
        ["  FAIL  translator: translation failed: x"]
    );
    assert_eq!(run.action(), ProbeAction::Stop);
    assert_eq!(run.failed(), 1);

    let mut run = run_to_creation(Suite::Harness);
    assert!(run.created(&Err(translation_failed("x"))).is_empty());
    assert_eq!(run.probe(), Probe::Aborted);
}

#[test]
fn an_unexpected_pair_fails_the_accessors() {
    let other = LanguageTranslator::new("en", "es", None, &mut LastError::new());
    let verdicts = run_to_creation(Suite::Stress).created(&other);
    assert_eq!(
        lines(Suite::Stress, &verdicts),
        [
            "  FAIL  source/target accessors: unexpected language pair",
            "  PASS  clone",
        ]
    );
    let verdicts = run_to_creation(Suite::Harness).created(&other);
    assert_eq!(
        lines(Suite::Harness, &verdicts)[0],
        "  FAIL  accessors: expected zh-Hans/en"
    );
}

fn run_to_translation(suite: Suite) -> FunctionalRun {
    let mut run = run_to_creation(suite);
    run.created(&made());
    run
}

#[test]
fn a_wrong_translation_fails_its_check() {
    let judged = |suite: Suite, result: Result<TranslationResponse, TranslationError>| {
        lines(suite, &run_to_translation(suite).translated(result)).remove(0)
    };
    assert_eq!(
        judged(Suite::Stress, Ok(response("你好", "", None))),
        "  FAIL  translate single: unexpected response: TranslationResponse { source_language: \"zh-Hans\", target_language: \"en\", source_text: \"你好\", target_text: \"\", client_identifier: None }"
    );
    let shown = response("a\"b", "c", Some("d"));
    assert_eq!(
        judged(Suite::Stress, Ok(shown.clone())),
        format!("  FAIL  translate single: unexpected response: {:?}", shown)
    );
    assert_eq!(
        judged(Suite::Harness, Ok(response("你好", "", None))),
        "  FAIL  translate single: empty target_text"
    );
    assert_eq!(
        judged(Suite::Harness, Ok(response("再见", "Bye", None))),
        "  FAIL  translate single: source_text mismatch: \"再见\""
    );
    let mut wrong = response("你好", "Hello", None);
    wrong.source_language = "ja".to_owned();
    assert_eq!(
        judged(Suite::Harness, Ok(wrong)),
        "  FAIL  translate single: source_language mismatch: ja"
    );
    let mut wrong = response("你好", "Hello", None);
    wrong.target_language = "fr".to_owned();
    assert_eq!(
        judged(Suite::Harness, Ok(wrong)),
        "  FAIL  translate single: target_language mismatch: fr"
    );
    assert_eq!(
        judged(Suite::Harness, Err(timed_out("translate", 30))),
        "  FAIL  translate single: translate timed out after 30s"
    );
}

fn run_to_batch(suite: Suite) -> FunctionalRun {
    let mut run = run_to_translation(suite);
    run.translated(Ok(response("你好", "Hello", None)));
    run
}

#[test]
fn translations_are_shown() {
    let right = Ok(response("你好", "Hello", None));
    assert_eq!(
        show_single(Suite::Stress, &right).as_deref(),
        Some("  '你好' -> 'Hello'")
    );
    assert_eq!(
        show_single(Suite::Harness, &right).as_deref(),
        Some("    '你好' → 'Hello'")
    );
    let empty = Ok(response("你好", "", None));
    let other = Ok(response("再见", "Bye", None));
    let failed = Err(translation_failed("x"));
    for suite in [Suite::Stress, Suite::Harness] {
        for wrong in [&empty, &other, &failed] {
            assert_eq!(show_single(suite, wrong), None);
        }
    }

    let request = TranslationRequest::new("你好");
    assert_eq!(
        show_item(Suite::Stress, &request, &right).as_deref(),
        Some("  '你好' -> 'Hello'")
    );
    for wrong in [&empty, &other, &failed] {
        assert_eq!(show_item(Suite::Stress, &request, wrong), None);
    }
    assert_eq!(
        show_item(Suite::Harness, &request, &other).as_deref(),
        Some("    '你好' → 'Bye'")
    );
    assert_eq!(show_item(Suite::Harness, &request, &failed), None);
}

#[test]
fn the_items_of_a_batch_are_judged_one_by_one() {
    let results = [
        Ok(response("你好", "", None)),
        Err(translation_failed("x")),
        Ok(response("谢谢", "Thanks", None)),
    ];
    let verdicts = run_to_batch(Suite::Stress).batch_answered(&results);
    assert_eq!(verdicts.len(), 2);
    assert_eq!(verdicts[0].desc, "batch item");
    assert!(matches!(verdicts[0].failure, Some(Failure::Response(_))));
    assert_eq!(
        verdicts[1].line(Suite::Stress),
        "  FAIL  batch item: translation failed: x"
    );

    let verdicts = run_to_batch(Suite::Harness).batch_answered(&results);
    assert_eq!(
        lines(Suite::Harness, &verdicts),
        ["  FAIL  batch sync item: translation failed: x"]
    );

    let mismatch = [
        Ok(response("你好", "", None)),
        Ok(response("再见", "Bye", None)),
        Ok(response("谢谢", "Thanks", None)),
    ];
    assert!(run_to_batch(Suite::Harness).batch_answered(&mismatch).is_empty());

    let verdicts = run_to_batch(Suite::Stress).batch_answered(&results[..2]);
    assert_eq!(
        lines(Suite::Stress, &verdicts),
        ["  FAIL  batch length: expected 3, got 2"]
    );
    let verdicts = run_to_batch(Suite::Harness).batch_answered(&results[..2]);
    assert_eq!(
        lines(Suite::Harness, &verdicts),
        ["  FAIL  batch sync: expected 3 results, got 2"]
    );
}

#[test]
fn the_identifiers_of_a_batch_are_judged() {
    let judged = |suite: Suite, results: &[Result<TranslationResponse, TranslationError>]| {
        let mut run = run_to_batch(suite);
        run.batch_answered(&[]);
        lines(suite, &run.ids_answered(results))
    };
    let swapped = [
        Ok(response("你好", "Hello", Some("b"))),
        Ok(response("世界", "World", Some("a"))),
    ];
    assert_eq!(
        judged(Suite::Stress, &swapped),
        ["  FAIL  batch client IDs: mismatch"]
    );
    let failed = [
        Ok(response("你好", "Hello", Some("a"))),
        Err(translation_failed("x")),
    ];
    assert_eq!(
        judged(Suite::Stress, &failed),
        ["  FAIL  batch client IDs: mismatch"]
    );
    assert_eq!(
        judged(Suite::Harness, &failed),
        [
            "  FAIL  batch client ID: translation failed: x",
            "  FAIL  batch client IDs: mismatch",
        ]
    );
    assert_eq!(
        judged(Suite::Harness, &failed[..1]),
        ["  PASS  batch with client IDs"]
    );
    assert_eq!(judged(Suite::Stress, &[]), ["  PASS  batch client IDs"]);
}

#[test]
fn the_last_probes_are_judged() {
    let mut run = run_to_batch(Suite::Harness);
    run.batch_answered(&[]);
    run.ids_answered(&[]);
    let verdicts = run.empty_answered(&[Ok(response("a", "b", None))]);
    assert_eq!(
        lines(Suite::Harness, &verdicts),
        ["  FAIL  batch empty: expected empty"]
    );
    let verdicts = run.prepared(Err(timed_out("prepare", 60)));
    assert_eq!(
        lines(Suite::Harness, &verdicts),
        [
            "  FAIL  prepare sync: prepare timed out after 60s",
            "  PASS  From<&str>",
            "  PASS  From<String>",
            "  PASS  with_client_id",
        ]
    );
    assert_eq!(run.failed(), 3);
    assert_eq!(run.finish(), "=== Results: 12 passed, 3 failed ===");
}
