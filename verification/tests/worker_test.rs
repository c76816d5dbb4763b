//! The exchange with a worker process, over bytes in memory.

use apple_translate_rs_sync::wire::line_of;
use apple_translate_rs_sync::worker_pool::{length_of_line, WorkerPipes};
use apple_translate_rs_sync::{
    BatchAction, ExchangeAction, LanguageTranslator, LastError, TranslationRequest,
    WorkerExchange, WorkerPool,
};

fn started() -> WorkerPool {
    let pipes = WorkerPipes {
        stdin: true,
        stdout: true,
        stderr: true,
    };
    match WorkerPool::spawn(Ok(pipes)) {
        Ok(pool) => pool,
        Err(message) => panic!("{}", message),
    }
}

fn strings(texts: &[&str]) -> Vec<String> {
    texts.iter().map(|t| (*t).to_owned()).collect()
}

/// Runs an exchange against a stream of replies. Gives what was written and
/// what the exchange came to.
fn exchange(texts: &[&str], stream: &[u8]) -> (Vec<u8>, Result<Vec<String>, String>) {
    let mut rest = stream;
    exchange_on(texts, &mut rest)
}

/// Runs an exchange against a stream of replies, and leaves in its place what
/// was not read of it.
fn exchange_on(texts: &[&str], rest: &mut &[u8]) -> (Vec<u8>, Result<Vec<String>, String>) {
    let mut exchange: WorkerExchange = started().translate_batch(&strings(texts));
    let mut written: Vec<u8> = Vec::new();
    loop {
        match exchange.action() {
            ExchangeAction::Write(bytes) => {
                written.extend_from_slice(&bytes);
                exchange.wrote(Ok(()));
            }
            ExchangeAction::Flush => exchange.wrote(Ok(())),
            ExchangeAction::ReadLine => {
                let end = match rest.iter().position(|b| *b == b'\n') {
                    Some(i) => i + 1,
                    None => rest.len(),
                };
                let (line, later) = rest.split_at(end);
                *rest = later;
                let outcome = String::from_utf8(line.to_vec());
                exchange.line_read(
                    outcome.map_err(|_| "stream did not contain valid UTF-8".to_owned()),
                );
            }
            ExchangeAction::ReadBytes(len) => {
                if len <= rest.len() {
                    let (bytes, later) = rest.split_at(len);
                    *rest = later;
                    exchange.bytes_read(Ok(bytes.to_vec()));
                } else {
                    exchange.bytes_read(Err("failed to fill whole buffer".to_owned()));
                }
            }
            ExchangeAction::Stop => return (written, exchange.finish()),
        }
    }
}

fn frames(answers: &[&str]) -> Vec<u8> {
    let mut bytes = Vec::new();
    for answer in answers {
        bytes.extend_from_slice(format!("{}\n", answer.len()).as_bytes());
        bytes.extend_from_slice(answer.as_bytes());
    }
    bytes
}

fn failure(texts: &[&str], stream: &[u8]) -> String {
    match exchange(texts, stream).1 {
        Ok(_) => panic!("the exchange completed"),
        Err(message) => message,
    }
}

#[test]
fn a_number_stands_on_a_line_of_its_own() {
    assert_eq!(line_of(0), b"0\n");
    assert_eq!(line_of(10), b"10\n");
    assert_eq!(line_of(4096), b"4096\n");
}

#[test]
fn a_batch_is_written_as_counted_and_measured_texts() {
    let (written, outcome) = exchange(&["hi", "你好", ""], &frames(&["a", "b", "c"]));
    assert_eq!(written, "3\n2\nhi6\n你好0\n".as_bytes());
    assert_eq!(outcome, Ok(strings(&["a", "b", "c"])));
}

#[test]
fn answers_are_read_back_whatever_they_hold() {
    let answers = ["", "line\nfeed", "12\n", "谢谢 → thanks", " trailing "];
    let texts = ["1", "2", "3", "4", "5"];
    let mut stream = frames(&answers);
    stream.extend_from_slice(b"what follows");
    assert_eq!(exchange(&texts, &stream).1, Ok(strings(&answers)));
}

#[test]
fn batches_on_one_worker_stay_in_step() {
    let mut stream = frames(&["a", "12\n"]);
    stream.extend_from_slice(&frames(&["", "b"]));
    stream.extend_from_slice(b"rest");
    let mut rest: &[u8] = &stream;
    assert_eq!(exchange_on(&["x", "y"], &mut rest).1, Ok(strings(&["a", "12\n"])));
    assert_eq!(exchange_on(&["x", "y"], &mut rest).1, Ok(strings(&["", "b"])));
    assert_eq!(rest, b"rest");
}

#[test]
fn a_written_batch_is_to_be_answered() {
    let mut exchange = started().translate_batch(&strings(&["x", "y"]));
    for _ in 0..6 {
        assert!(!matches!(exchange.action(), ExchangeAction::ReadLine));
        exchange.wrote(Ok(()));
    }
    assert!(matches!(exchange.action(), ExchangeAction::ReadLine));
}

#[test]
fn an_empty_batch_writes_nothing() {
    assert_eq!(exchange(&[], b""), (Vec::new(), Ok(Vec::new())));
}

#[test]
fn white_space_behind_a_length_is_ignored() {
    assert_eq!(exchange(&["x"], b"2 \t\r\nab").1, Ok(strings(&["ab"])));
    assert_eq!(exchange(&["x"], b"+2\nab").1, Ok(strings(&["ab"])));
    assert_eq!(exchange(&["x"], "2\u{3000}\nab".as_bytes()).1, Ok(strings(&["ab"])));
}

#[test]
fn a_worker_that_leaves_fails_the_exchange() {
    assert_eq!(failure(&["x"], b""), "worker closed stdout");
    assert_eq!(failure(&["x", "y"], &frames(&["a"])), "worker closed stdout");
}

#[test]
fn a_line_without_a_length_fails_the_exchange() {
    assert_eq!(
        failure(&["x"], b"two\n"),
        "invalid result length \"two\": invalid digit found in string"
    );
    assert_eq!(
        failure(&["x"], b"\n"),
        "invalid result length \"\": cannot parse integer from empty string"
    );
    assert_eq!(
        failure(&["x"], b" 2\n"),
        "invalid result length \" 2\": invalid digit found in string"
    );
    assert_eq!(
        failure(&["x"], b"a\"b\\\t.\n"),
        "invalid result length \"a\\\"b\\\\\\t.\": invalid digit found in string"
    );
    assert_eq!(
        failure(&["x"], b"99999999999999999999999\n"),
        "invalid result length \"99999999999999999999999\": number too large to fit in target type"
    );
    assert_eq!(
        failure(&["x"], b"\xff\n"),
        "read failed: stream did not contain valid UTF-8"
    );
}

#[test]
fn a_result_that_is_no_text_fails_the_exchange() {
    assert_eq!(
        failure(&["x"], b"1\n\xff"),
        "worker returned non-UTF-8 result: invalid utf-8 sequence of 1 bytes from index 0"
    );
    assert_eq!(
        failure(&["x"], b"3\na\xe4\xbd"),
        "worker returned non-UTF-8 result: incomplete utf-8 byte sequence from index 1"
    );
}

#[test]
fn a_reply_that_is_cut_short_fails_the_exchange() {
    let whole = frames(&["abc", "0123456789"]);
    for k in 0..whole.len() {
        assert!(exchange(&["x", "y"], &whole[..k]).1.is_err(), "cut at {}", k);
    }
    assert!(exchange(&["x", "y"], &whole).1.is_ok());
    assert_eq!(
        failure(&["x"], b"5\nab"),
        "read result bytes failed: failed to fill whole buffer"
    );
    let empty_last = frames(&["abc", ""]);
    for k in 0..empty_last.len() - 1 {
        assert!(exchange(&["x", "y"], &empty_last[..k]).1.is_err());
    }
    let without_line_feed = &empty_last[..empty_last.len() - 1];
    assert_eq!(exchange(&["x", "y"], without_line_feed).1, Ok(strings(&["abc", ""])));
}

#[test]
fn each_write_that_fails_is_told_apart() {
    let messages = [
        "write count failed: broken pipe",
        "write text length failed: broken pipe",
        "write text bytes failed: broken pipe",
        "flush failed: broken pipe",
    ];
    for (i, message) in messages.iter().enumerate() {
        let mut exchange = started().translate_batch(&strings(&["x"]));
        for _ in 0..i {
            exchange.wrote(Ok(()));
        }
        exchange.wrote(Err("broken pipe".to_owned()));
        assert!(matches!(exchange.action(), ExchangeAction::Stop));
        assert_eq!(exchange.finish(), Err((*message).to_owned()));
    }
}

#[test]
fn a_length_is_what_its_line_was_parsed_to() {
    assert_eq!(length_of_line("7", Ok(7)), Ok(7));
    assert_eq!(
        length_of_line("x", Err("why".to_owned())),
        Err("invalid result length \"x\": why".to_owned())
    );
}

#[test]
fn a_worker_is_started_with_its_assets_engines_and_locales() {
    let command = WorkerPool::try_create(
        Some("/bin/worker".to_owned()),
        Some("/assets".to_owned()),
        "zh-Hans",
        "en",
        4,
    )
    .unwrap();
    assert_eq!(command.program, "/bin/worker");
    assert_eq!(command.args, ["/assets", "4", "zh_CN", "en_US"]);
    let some = Some("x".to_owned());
    assert!(WorkerPool::try_create(None, some.clone(), "a", "b", 1).is_none());
    assert!(WorkerPool::try_create(some, None, "a", "b", 1).is_none());
}

#[test]
fn a_worker_without_a_pipe_is_none() {
    let without = |stdin: bool, stdout: bool, stderr: bool| {
        let pipes = WorkerPipes {
            stdin,
            stdout,
            stderr,
        };
        match WorkerPool::spawn(Ok(pipes)) {
            Ok(_) => String::new(),
            Err(message) => message,
        }
    };
    assert_eq!(without(false, false, true), "Failed to get worker stdin");
    assert_eq!(without(true, false, false), "Failed to get worker stdout");
    assert_eq!(without(true, true, false), "Failed to get worker stderr");
    assert_eq!(without(true, true, true), "");
    match WorkerPool::spawn(Err("no such file".to_owned())) {
        Ok(_) => panic!("nothing was started"),
        Err(message) => assert_eq!(message, "Failed to spawn translation worker: no such file"),
    }
}

#[test]
fn a_worker_is_ended_once() {
    let mut pool = started();
    assert!(pool.terminate());
    assert!(!pool.terminate());
    assert_eq!(pool.shutdown(), None);

    let mut pool = started();
    assert_eq!(pool.shutdown(), Some(b"0\n".to_vec()));
    assert_eq!(pool.shutdown(), None);
    assert!(!pool.terminate());
}

#[test]
fn no_batch_begins_as_the_farewell_does() {
    for n in [1usize, 9, 10, 100] {
        let texts: Vec<&str> = vec!["x"; n];
        let (written, _) = exchange(&texts, b"");
        assert!(!written.starts_with(b"0\n"));
    }
}

/// Runs a batch with a worker that puts out `stream`. Gives the translations
/// and whether the worker was given up.
fn batch_through_worker(texts: &[&str], stream: &[u8]) -> (Vec<Option<String>>, bool) {
    let mut last = LastError::new();
    let translator = LanguageTranslator::new("en", "es", None, &mut last).unwrap();
    let requests: Vec<TranslationRequest> =
        texts.iter().map(|t| TranslationRequest::new(*t)).collect();
    let mut run = translator.translate_batch(&requests);
    let mut given_up = false;
    loop {
        match run.action() {
            BatchAction::FindPool => run.pool_found(true),
            BatchAction::RunWorker(asked) => {
                let asked: Vec<&str> = asked.iter().map(|t| t.as_str()).collect();
                run.worker_answered(exchange(&asked, stream).1);
            }
            BatchAction::Retire(_) => {
                given_up = true;
                run.worker_retired();
            }
            BatchAction::CallFramework(_) => {
                run.framework_answered(strings(&["x", "y"]), &mut last);
            }
            BatchAction::Stop => {
                let results = run.finish().into_iter();
                return (results.map(|r| r.ok().map(|r| r.target_text)).collect(), given_up);
            }
        }
    }
}

#[test]
fn a_batch_goes_through_a_worker_whole() {
    let stream = frames(&["Hola", ""]);
    let (targets, given_up) = batch_through_worker(&["Hello", ""], &stream);
    assert_eq!(targets, vec![Some("Hola".to_owned()), None]);
    assert!(!given_up);
}

#[test]
fn a_batch_does_without_a_worker_that_breaks_off() {
    let stream = frames(&["Hola", "Mundo"]);
    for k in 0..stream.len() {
        let (targets, given_up) = batch_through_worker(&["Hello", "World"], &stream[..k]);
        assert_eq!(targets, vec![Some("x".to_owned()), Some("y".to_owned())]);
        assert!(given_up);
    }
}
