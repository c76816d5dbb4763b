//! A worker process and the exchange of one batch with it.
//!
//! The process itself, its pipes included, is held elsewhere. Here stands what
//! is written to it and in which order, what is read from it, and what becomes
//! of each outcome: a caller performs the [`ExchangeAction`] that
//! [`WorkerExchange::action`] names and hands the outcome back, until the
//! exchange stops.
use crate::config;
use crate::text;
use crate::wire;
use vstd::prelude::*;
use vstd::utf8::*;

verus! {

/// How far an exchange has come.
pub enum ExchangeStage {
    /// The number of texts is to be written.
    WriteCount,
    /// The length of the text at this index is to be written.
    WriteLength(usize),
    /// The text at this index is to be written.
    WriteText(usize),
    /// What was written is to be flushed.
    Flush,
    /// The line with the next result's length is to be read.
    ReadLength,
    /// A result of this many bytes is to be read.
    ReadText(usize),
    /// Every result has been read.
    Complete,
    /// The exchange failed, for the reason given.
    Failed(String),
}

/// What [`ExchangeStage`] stands for.
pub enum StageModel {
    WriteCount,
    WriteLength(int),
    WriteText(int),
    Flush,
    ReadLength,
    ReadText(nat),
    Complete,
    Failed(Seq<char>),
}

impl View for ExchangeStage {
    type V = StageModel;

    open spec fn view(&self) -> StageModel {
        match self {
            ExchangeStage::WriteCount => StageModel::WriteCount,
            ExchangeStage::WriteLength(i) => StageModel::WriteLength(*i as int),
            ExchangeStage::WriteText(i) => StageModel::WriteText(*i as int),
            ExchangeStage::Flush => StageModel::Flush,
            ExchangeStage::ReadLength => StageModel::ReadLength,
            ExchangeStage::ReadText(len) => StageModel::ReadText(*len as nat),
            ExchangeStage::Complete => StageModel::Complete,
            ExchangeStage::Failed(reason) => StageModel::Failed(reason@),
        }
    }
}

/// An exchange: the texts of the batch, the results so far, and the stage.
pub struct ExchangeModel {
    pub texts: Seq<Seq<char>>,
    pub results: Seq<Seq<char>>,
    pub stage: StageModel,
}

impl ExchangeModel {
    /// The stage is one that an exchange of these texts and results can be in.
    pub open spec fn wf(self) -> bool {
        &&& self.results.len() <= self.texts.len()
        &&& match self.stage {
            StageModel::WriteCount => self.texts.len() > 0 && self.results.len() == 0,
            StageModel::WriteLength(i) => 0 <= i < self.texts.len() && self.results.len() == 0,
            StageModel::WriteText(i) => 0 <= i < self.texts.len() && self.results.len() == 0,
            StageModel::Flush => self.texts.len() > 0 && self.results.len() == 0,
            StageModel::ReadLength => self.results.len() < self.texts.len(),
            StageModel::ReadText(_) => self.results.len() < self.texts.len(),
            StageModel::Complete => self.results.len() == self.texts.len(),
            StageModel::Failed(_) => true,
        }
    }

    /// Whether something is to be written or flushed next.
    pub open spec fn writing(self) -> bool {
        self.stage is WriteCount || self.stage is WriteLength || self.stage is WriteText
            || self.stage is Flush
    }

    /// Whether nothing more is to be done.
    pub open spec fn stopped(self) -> bool {
        self.stage is Complete || self.stage is Failed
    }

    /// This exchange at another stage.
    pub open spec fn at(self, stage: StageModel) -> ExchangeModel {
        ExchangeModel { texts: self.texts, results: self.results, stage }
    }

    /// The bytes to be written at this stage.
    pub open spec fn chunk(self) -> Seq<u8> {
        match self.stage {
            StageModel::WriteCount => wire::number_line(self.texts.len()),
            StageModel::WriteLength(i) => wire::number_line(encode_utf8(self.texts[i]).len()),
            StageModel::WriteText(i) => encode_utf8(self.texts[i]),
            _ => Seq::empty(),
        }
    }

    /// All the bytes that are still to be written, from this stage on.
    pub open spec fn pending(self) -> Seq<u8> {
        match self.stage {
            StageModel::WriteCount => wire::batch_frame(self.texts),
            StageModel::WriteLength(i) => wire::frames(self.texts.skip(i)),
            StageModel::WriteText(i) => encode_utf8(self.texts[i]) + wire::frames(
                self.texts.skip(i + 1),
            ),
            _ => Seq::empty(),
        }
    }

    /// What a failure to write, with the account `fault`, is reported as.
    pub open spec fn write_failure(self, fault: Seq<char>) -> Seq<char> {
        match self.stage {
            StageModel::WriteCount => "write count failed: "@ + fault,
            StageModel::WriteLength(_) => "write text length failed: "@ + fault,
            StageModel::WriteText(_) => "write text bytes failed: "@ + fault,
            _ => "flush failed: "@ + fault,
        }
    }

    /// The exchange once a write or a flush has ended.
    pub open spec fn after_write(self, outcome: Result<(), Seq<char>>) -> ExchangeModel {
        match outcome {
            Err(fault) => self.at(StageModel::Failed(self.write_failure(fault))),
            Ok(()) => match self.stage {
                StageModel::WriteCount => self.at(StageModel::WriteLength(0)),
                StageModel::WriteLength(i) => self.at(StageModel::WriteText(i)),
                StageModel::WriteText(i) => if i + 1 < self.texts.len() {
                    self.at(StageModel::WriteLength(i + 1))
                } else {
                    self.at(StageModel::Flush)
                },
                _ => self.at(StageModel::ReadLength),
            },
        }
    }

    /// The exchange once a line has been read; an empty line is the end of
    /// the stream.
    pub open spec fn after_line(self, outcome: Result<Seq<char>, Seq<char>>) -> ExchangeModel {
        match outcome {
            Err(e) => self.at(StageModel::Failed("read failed: "@ + e)),
            Ok(line) => if line.len() == 0 {
                self.at(StageModel::Failed("worker closed stdout"@))
            } else {
                match length_in(line) {
                    Some(len) => self.at(StageModel::ReadText(len)),
                    None => {
                        let trimmed = text::trimmed_end(line);
                        self.at(
                            StageModel::Failed(
                                bad_length(trimmed, text::parse_fault(trimmed, usize::BITS)),
                            ),
                        )
                    },
                }
            },
        }
    }

    /// The exchange once the bytes of a result have been read.
    pub open spec fn after_bytes(self, outcome: Result<Seq<u8>, Seq<char>>) -> ExchangeModel {
        match outcome {
            Err(e) => self.at(StageModel::Failed("read result bytes failed: "@ + e)),
            Ok(bytes) => if valid_utf8(bytes) {
                let results = self.results.push(decode_utf8(bytes));
                ExchangeModel {
                    texts: self.texts,
                    results,
                    stage: if results.len() < self.texts.len() {
                        StageModel::ReadLength
                    } else {
                        StageModel::Complete
                    },
                }
            } else {
                self.at(
                    StageModel::Failed(
                        "worker returned non-UTF-8 result: "@ + text::utf8_fault(bytes),
                    ),
                )
            },
        }
    }

    /// What the exchange came to, once it has stopped: the results, or the
    /// reason for its failure.
    pub open spec fn outcome(self) -> Result<Seq<Seq<char>>, Seq<char>> {
        match self.stage {
            StageModel::Failed(reason) => Err(reason),
            _ => Ok(self.results),
        }
    }

    /// How many writes and flushes are still to come.
    pub open spec fn writes_left(self) -> int {
        match self.stage {
            StageModel::WriteCount => (2 * self.texts.len() + 2) as int,
            StageModel::WriteLength(i) => 2 * (self.texts.len() - i) + 1,
            StageModel::WriteText(i) => 2 * (self.texts.len() - i),
            StageModel::Flush => 1,
            _ => 0,
        }
    }

    /// How many reads the next result takes.
    pub open spec fn reads_left(self) -> nat {
        match self.stage {
            StageModel::ReadLength => 2,
            StageModel::ReadText(_) => 1,
            _ => 0,
        }
    }

    /// Where the exchange ends when the worker's whole output from here on is
    /// `stream`. `fault` stands for the account of why the stream could not be
    /// read.
    pub open spec fn run(self, stream: Seq<u8>, fault: Seq<char>) -> ExchangeModel
        decreases self.texts.len() - self.results.len(), self.reads_left(),
        when self.wf()
    {
        match self.stage {
            StageModel::ReadLength => {
                let line = wire::first_line(stream);
                if valid_utf8(line) {
                    self.after_line(Ok(decode_utf8(line))).run(
                        stream.skip(line.len() as int),
                        fault,
                    )
                } else {
                    self.after_line(Err(fault))
                }
            },
            StageModel::ReadText(len) => if len <= stream.len() {
                self.after_bytes(Ok(stream.take(len as int))).run(stream.skip(len as int), fault)
            } else {
                self.after_bytes(Err(fault))
            },
            _ => self,
        }
    }

    /// What is left to be read of the worker's output `stream` where the
    /// exchange ends. Of a worker that failed nothing is read any more.
    pub open spec fn unread(self, stream: Seq<u8>) -> Seq<u8>
        decreases self.texts.len() - self.results.len(), self.reads_left(),
        when self.wf()
    {
        match self.stage {
            StageModel::ReadLength => {
                let line = wire::first_line(stream);
                if valid_utf8(line) {
                    self.after_line(Ok(decode_utf8(line))).unread(stream.skip(line.len() as int))
                } else {
                    Seq::empty()
                }
            },
            StageModel::ReadText(len) => if len <= stream.len() {
                self.after_bytes(Ok(stream.take(len as int))).unread(stream.skip(len as int))
            } else {
                Seq::empty()
            },
            StageModel::Failed(_) => Seq::empty(),
            _ => stream,
        }
    }
}

/// The length that a line holds: the numeral before the white space at its
/// end, where that is the numeral of a number that fits in a `usize`.
pub open spec fn length_in(line: Seq<char>) -> Option<nat> {
    match text::numeral(text::trimmed_end(line)) {
        Some(n) => if n <= usize::MAX {
            Some(n)
        } else {
            None
        },
        None => None,
    }
}

/// What a line that holds no length is reported as.
pub open spec fn bad_length(trimmed: Seq<char>, fault: Seq<char>) -> Seq<char> {
    "invalid result length "@ + text::quoted(trimmed) + ": "@ + fault
}

/// The exchange with which a batch begins.
pub open spec fn opening(texts: Seq<Seq<char>>) -> ExchangeModel {
    ExchangeModel {
        texts,
        results: Seq::empty(),
        stage: if texts.len() == 0 {
            StageModel::Complete
        } else {
            StageModel::WriteCount
        },
    }
}

/// What is to be done with the worker's pipes next.
pub enum ExchangeAction {
    /// Write these bytes to the worker.
    Write(Vec<u8>),
    /// Flush what was written.
    Flush,
    /// Read one line, its line feed included.
    ReadLine,
    /// Read exactly this many bytes.
    ReadBytes(usize),
    /// Nothing: the exchange has stopped.
    Stop,
}

/// One batch on its way through a worker.
pub struct WorkerExchange {
    texts: Vec<String>,
    results: Vec<String>,
    stage: ExchangeStage,
}

impl View for WorkerExchange {
    type V = ExchangeModel;

    closed spec fn view(&self) -> ExchangeModel {
        ExchangeModel {
            texts: text::texts_of(self.texts@),
            results: text::texts_of(self.results@),
            stage: self.stage@,
        }
    }
}

/// `prefix` followed by `fault`.
fn report(prefix: &str, fault: &str) -> (message: String)
    ensures
        message@ == prefix@ + fault@,
{
    let mut message = prefix.to_owned();
    message.append(fault);
    message
}

/// What the outcome of an operation that yields nothing stands for.
pub open spec fn done_or_fault(outcome: Result<(), String>) -> Result<(), Seq<char>> {
    match outcome {
        Ok(()) => Ok(()),
        Err(e) => Err(e@),
    }
}

/// What the outcome of reading a line stands for.
pub open spec fn line_or_fault(outcome: Result<String, String>) -> Result<Seq<char>, Seq<char>> {
    match outcome {
        Ok(line) => Ok(line@),
        Err(e) => Err(e@),
    }
}

/// What the outcome of reading bytes stands for.
pub open spec fn bytes_or_fault(outcome: Result<Vec<u8>, String>) -> Result<Seq<u8>, Seq<char>> {
    match outcome {
        Ok(bytes) => Ok(bytes@),
        Err(e) => Err(e@),
    }
}

/// What the results of a batch stand for.
pub open spec fn results_or_fault(outcome: Result<Vec<String>, String>) -> Result<
    Seq<Seq<char>>,
    Seq<char>,
> {
    match outcome {
        Ok(results) => Ok(text::texts_of(results@)),
        Err(e) => Err(e@),
    }
}

/// The length of the next result, from the line that was read for it, once
/// what is left of the line at its end has been parsed.
pub fn length_of_line(trimmed: &str, parsed: Result<usize, String>) -> (length: Result<usize, String>)
    ensures
        match parsed {
            Ok(n) => length == Ok::<usize, String>(n),
            Err(fault) => length matches Err(m) && m@ == bad_length(trimmed@, fault@),
        },
{
    match parsed {
        Ok(n) => Ok(n),
        Err(fault) => {
            let mut message = report("invalid result length ", text::quote(trimmed).as_str());
            message.append(": ");
            message.append(fault.as_str());
            Err(message)
        },
    }
}

impl WorkerExchange {
    /// What is to be done next.
    pub fn action(&self) -> (action: ExchangeAction)
        requires
            self@.wf(),
        ensures
            match self@.stage {
                StageModel::WriteCount | StageModel::WriteLength(_) | StageModel::WriteText(_) => {
                    action matches ExchangeAction::Write(bytes) && bytes@ == self@.chunk()
                },
                StageModel::Flush => action == ExchangeAction::Flush,
                StageModel::ReadLength => action == ExchangeAction::ReadLine,
                StageModel::ReadText(len) => {
                    action matches ExchangeAction::ReadBytes(n) && n as nat == len
                },
                StageModel::Complete | StageModel::Failed(_) => action == ExchangeAction::Stop,
            },
    {
        match &self.stage {
            ExchangeStage::WriteCount => ExchangeAction::Write(wire::line_of(self.texts.len())),
            ExchangeStage::WriteLength(i) => {
                let bytes = self.texts[*i].as_str().as_bytes_vec();
                ExchangeAction::Write(wire::line_of(bytes.len()))
            },
            ExchangeStage::WriteText(i) => {
                ExchangeAction::Write(self.texts[*i].as_str().as_bytes_vec())
            },
            ExchangeStage::Flush => ExchangeAction::Flush,
            ExchangeStage::ReadLength => ExchangeAction::ReadLine,
            ExchangeStage::ReadText(len) => ExchangeAction::ReadBytes(*len),
            ExchangeStage::Complete => ExchangeAction::Stop,
            ExchangeStage::Failed(_) => ExchangeAction::Stop,
        }
    }

    /// Takes the outcome of a write or a flush.
    pub fn wrote(&mut self, outcome: Result<(), String>)
        requires
            old(self)@.wf(),
            old(self)@.writing(),
        ensures
            final(self)@.wf(),
            final(self)@ == old(self)@.after_write(done_or_fault(outcome)),
    {
        let n: usize = self.texts.len();
        match outcome {
            Err(fault) => {
                let message = match &self.stage {
                    ExchangeStage::WriteCount => report("write count failed: ", fault.as_str()),
                    ExchangeStage::WriteLength(_) => {
                        report("write text length failed: ", fault.as_str())
                    },
                    ExchangeStage::WriteText(_) => {
                        report("write text bytes failed: ", fault.as_str())
                    },
                    _ => report("flush failed: ", fault.as_str()),
                };
                self.stage = ExchangeStage::Failed(message);
            },
            Ok(()) => {
                let next = match &self.stage {
                    ExchangeStage::WriteCount => ExchangeStage::WriteLength(0),
                    ExchangeStage::WriteLength(i) => ExchangeStage::WriteText(*i),
                    ExchangeStage::WriteText(i) => if *i + 1 < n {
                        ExchangeStage::WriteLength(*i + 1)
                    } else {
                        ExchangeStage::Flush
                    },
                    _ => ExchangeStage::ReadLength,
                };
                self.stage = next;
            },
        }
    }

    /// Takes the line that was read, empty at the end of the stream, or the
    /// account of why none could be.
    pub fn line_read(&mut self, outcome: Result<String, String>)
        requires
            old(self)@.wf(),
            old(self)@.stage is ReadLength,
        ensures
            final(self)@.wf(),
            final(self)@ == old(self)@.after_line(line_or_fault(outcome)),
    {
        let next = match &outcome {
            Err(e) => ExchangeStage::Failed(report("read failed: ", e.as_str())),
            Ok(line) => if line.as_str().is_empty() {
                ExchangeStage::Failed("worker closed stdout".to_owned())
            } else {
                let trimmed = text::trim_end(line.as_str());
                match length_of_line(trimmed, text::parse_usize(trimmed)) {
                    Ok(len) => ExchangeStage::ReadText(len),
                    Err(message) => ExchangeStage::Failed(message),
                }
            },
        };
        self.stage = next;
    }

    /// Takes the bytes of a result, or the account of why they could not be
    /// read.
    pub fn bytes_read(&mut self, outcome: Result<Vec<u8>, String>)
        requires
            old(self)@.wf(),
            old(self)@.stage is ReadText,
        ensures
            final(self)@.wf(),
            final(self)@ == old(self)@.after_bytes(bytes_or_fault(outcome)),
    {
        match outcome {
            Err(e) => {
                self.stage = ExchangeStage::Failed(report("read result bytes failed: ", e.as_str()));
            },
            Ok(bytes) => {
                match text::string_from_utf8(bytes) {
                    Err(e) => {
                        self.stage = ExchangeStage::Failed(
                            report("worker returned non-UTF-8 result: ", e.as_str()),
                        );
                    },
                    Ok(result) => {
                        self.results.push(result);
                        assert(text::texts_of(self.results@) =~= old(self)@.results.push(result@));
                        if self.results.len() < self.texts.len() {
                            self.stage = ExchangeStage::ReadLength;
                        } else {
                            self.stage = ExchangeStage::Complete;
                        }
                    },
                }
            },
        }
    }

    /// What a stopped exchange came to: the results, or the reason for its
    /// failure.
    pub fn finish(self) -> (outcome: Result<Vec<String>, String>)
        requires
            self@.wf(),
            self@.stopped(),
        ensures
            results_or_fault(outcome) == self@.outcome(),
            outcome is Ok <==> self@.stage is Complete,
            outcome matches Ok(results) ==> results@.len() == self@.texts.len() && forall|i: int|
                0 <= i < results@.len() ==> (#[trigger] results@[i])@ == self@.results[i],
    {
        proof {
            text::texts_stand_in_their_order(self.results@);
        }
        match self.stage {
            ExchangeStage::Failed(reason) => Err(reason),
            _ => Ok(self.results),
        }
    }
}

/// The bytes that are written from here on when no write fails.
pub open spec fn written(exchange: ExchangeModel) -> Seq<u8>
    decreases exchange.writes_left(),
    when exchange.wf()
{
    if exchange.writing() {
        exchange.chunk() + written(exchange.after_write(Ok(())))
    } else {
        Seq::empty()
    }
}

/// The exchange once nothing more is to be written, when no write and no flush
/// fails.
pub open spec fn after_writes(exchange: ExchangeModel) -> ExchangeModel
    decreases exchange.writes_left(),
    when exchange.wf()
{
    if exchange.writing() {
        after_writes(exchange.after_write(Ok(())))
    } else {
        exchange
    }
}

/// The writes of an exchange put together are its pending bytes.
proof fn writes_are_pending(exchange: ExchangeModel)
    requires
        exchange.wf(),
    ensures
        written(exchange) == exchange.pending(),
    decreases exchange.writes_left(),
{
    if exchange.writing() {
        let next = exchange.after_write(Ok(()));
        writes_are_pending(next);
        let texts = exchange.texts;
        match exchange.stage {
            StageModel::WriteCount => {
                assert(texts.skip(0) =~= texts);
            },
            StageModel::WriteLength(i) => {
                assert(texts.skip(i)[0] == texts[i]);
                assert(texts.skip(i).skip(1) =~= texts.skip(i + 1));
                assert(exchange.pending() =~= exchange.chunk() + next.pending());
            },
            StageModel::WriteText(i) => {
                if i + 1 == texts.len() {
                    assert(texts.skip(i + 1).len() == 0);
                }
            },
            _ => {
                assert(exchange.chunk() + next.pending() =~= exchange.pending());
            },
        }
    }
}

/// What a worker is written for a batch is the batch's frame: the number of
/// texts, and each text behind its length, in order.
pub proof fn a_batch_is_written_as_its_frame(texts: Seq<Seq<char>>)
    requires
        texts.len() > 0,
    ensures
        written(opening(texts)) == wire::batch_frame(texts),
{
    writes_are_pending(opening(texts));
}

/// An exchange that is writing comes to reading once nothing more is to be
/// written.
proof fn writes_come_to_reading(exchange: ExchangeModel)
    requires
        exchange.wf(),
        exchange.writing(),
    ensures
        after_writes(exchange) == exchange.at(StageModel::ReadLength),
    decreases exchange.writes_left(),
{
    let next = exchange.after_write(Ok(()));
    if next.writing() {
        writes_come_to_reading(next);
    } else {
        assert(after_writes(next) == next);
    }
}

/// Once a batch has been written and flushed, with no failure, its first answer
/// is to be read.
pub proof fn a_written_batch_is_to_be_answered(texts: Seq<Seq<char>>)
    requires
        texts.len() > 0,
    ensures
        after_writes(opening(texts)) == opening(texts).at(StageModel::ReadLength),
{
    writes_come_to_reading(opening(texts));
}

/// A write or a flush that fails ends the exchange, whatever was written before.
pub proof fn a_failed_write_ends_the_exchange(exchange: ExchangeModel, fault: Seq<char>)
    requires
        exchange.wf(),
        exchange.writing(),
    ensures
        exchange.after_write(Err(fault)).outcome() == Err::<Seq<Seq<char>>, Seq<char>>(
            exchange.write_failure(fault),
        ),
        exchange.after_write(Err(fault)).stopped(),
{
}

/// Reading the frames of some answers, one for each text that is still
/// without, gives those answers behind the results so far, and leaves what
/// follows the frames unread.
proof fn answers_are_collected(
    exchange: ExchangeModel,
    answers: Seq<Seq<char>>,
    rest: Seq<u8>,
    fault: Seq<char>,
)
    requires
        exchange.wf(),
        exchange.stage is ReadLength,
        exchange.results.len() + answers.len() == exchange.texts.len(),
        forall|i: int|
            0 <= i < answers.len() ==> encode_utf8(#[trigger] answers[i]).len() <= usize::MAX,
    ensures
        exchange.run(wire::frames(answers) + rest, fault) == (ExchangeModel {
            texts: exchange.texts,
            results: exchange.results + answers,
            stage: StageModel::Complete,
        }),
        exchange.unread(wire::frames(answers) + rest) == rest,
    decreases answers.len(),
{
    let answer = answers[0];
    let later = answers.skip(1);
    let bytes = encode_utf8(answer);
    let line = wire::number_line(bytes.len());
    let stream = wire::frames(answers) + rest;
    let beyond = wire::frames(later) + rest;
    assert(stream =~= line + (bytes + beyond));
    wire::number_line_is_read_back(bytes.len(), bytes + beyond);
    assert(stream.skip(line.len() as int) =~= bytes + beyond);
    let reading = exchange.at(StageModel::ReadText(bytes.len()));
    assert(exchange.after_line(Ok(decode_utf8(line))) == reading);
    assert(exchange.run(stream, fault) == reading.run(bytes + beyond, fault));
    assert(exchange.unread(stream) == reading.unread(bytes + beyond));
    assert((bytes + beyond).take(bytes.len() as int) =~= bytes);
    assert((bytes + beyond).skip(bytes.len() as int) =~= beyond);
    encode_utf8_valid_utf8(answer);
    encode_utf8_decode_utf8(answer);
    let next = reading.after_bytes(Ok(bytes));
    assert(reading.run(bytes + beyond, fault) == next.run(beyond, fault));
    assert(reading.unread(bytes + beyond) == next.unread(beyond));
    assert(next.results =~= exchange.results.push(answer));
    if later.len() == 0 {
        assert(exchange.results + answers =~= next.results);
        assert(next.run(beyond, fault) == next);
        assert(beyond =~= rest);
        assert(next.unread(beyond) == beyond);
    } else {
        assert forall|i: int| 0 <= i < later.len() implies encode_utf8(#[trigger] later[i]).len()
            <= usize::MAX by {
            assert(later[i] == answers[i + 1]);
        }
        answers_are_collected(next, later, rest, fault);
        assert(next.results + later =~= exchange.results + answers);
    }
}

/// What a worker writes is read back: from the frames of one answer for each
/// text, whatever follows them, come those answers, in order, and what follows
/// them stays unread.
pub proof fn framed_answers_are_read_back(
    texts: Seq<Seq<char>>,
    answers: Seq<Seq<char>>,
    rest: Seq<u8>,
    fault: Seq<char>,
)
    requires
        texts.len() > 0,
        answers.len() == texts.len(),
        forall|i: int|
            0 <= i < answers.len() ==> encode_utf8(#[trigger] answers[i]).len() <= usize::MAX,
    ensures
        opening(texts).at(StageModel::ReadLength).run(wire::frames(answers) + rest, fault)
            == (ExchangeModel { texts, results: answers, stage: StageModel::Complete }),
        opening(texts).at(StageModel::ReadLength).unread(wire::frames(answers) + rest) == rest,
{
    answers_are_collected(opening(texts).at(StageModel::ReadLength), answers, rest, fault);
    assert(Seq::<Seq<char>>::empty() + answers =~= answers);
}

/// Two batches on one worker stay in step: when the worker has written the
/// frames of its answers to the one and then to the other, each batch comes to
/// its own answers.
pub proof fn two_batches_stay_in_step(
    texts1: Seq<Seq<char>>,
    answers1: Seq<Seq<char>>,
    texts2: Seq<Seq<char>>,
    answers2: Seq<Seq<char>>,
    rest: Seq<u8>,
    fault: Seq<char>,
)
    requires
        texts1.len() > 0,
        answers1.len() == texts1.len(),
        texts2.len() > 0,
        answers2.len() == texts2.len(),
        forall|i: int|
            0 <= i < answers1.len() ==> encode_utf8(#[trigger] answers1[i]).len() <= usize::MAX,
        forall|i: int|
            0 <= i < answers2.len() ==> encode_utf8(#[trigger] answers2[i]).len() <= usize::MAX,
    ensures
        ({
            let stream = wire::frames(answers1) + (wire::frames(answers2) + rest);
            let first = after_writes(opening(texts1));
            let second = after_writes(opening(texts2));
            &&& first.run(stream, fault).outcome() == Ok::<Seq<Seq<char>>, Seq<char>>(answers1)
            &&& second.run(first.unread(stream), fault).outcome() == Ok::<
                Seq<Seq<char>>,
                Seq<char>,
            >(answers2)
            &&& second.unread(first.unread(stream)) == rest
        }),
{
    a_written_batch_is_to_be_answered(texts1);
    a_written_batch_is_to_be_answered(texts2);
    framed_answers_are_read_back(texts1, answers1, wire::frames(answers2) + rest, fault);
    framed_answers_are_read_back(texts2, answers2, rest, fault);
}

/// Whatever a worker writes, reading it stops; and it completes only with
/// exactly one result for each text.
pub proof fn reading_stops_with_a_result_for_each_text(
    exchange: ExchangeModel,
    stream: Seq<u8>,
    fault: Seq<char>,
)
    requires
        exchange.wf(),
        !exchange.writing(),
    ensures
        exchange.run(stream, fault).stopped(),
        exchange.run(stream, fault).texts == exchange.texts,
        exchange.run(stream, fault).stage is Complete ==> exchange.run(stream, fault).results.len()
            == exchange.texts.len(),
    decreases exchange.texts.len() - exchange.results.len(), exchange.reads_left(),
{
    match exchange.stage {
        StageModel::ReadLength => {
            let line = wire::first_line(stream);
            if valid_utf8(line) {
                reading_stops_with_a_result_for_each_text(
                    exchange.after_line(Ok(decode_utf8(line))),
                    stream.skip(line.len() as int),
                    fault,
                );
            }
        },
        StageModel::ReadText(len) => {
            if len <= stream.len() {
                reading_stops_with_a_result_for_each_text(
                    exchange.after_bytes(Ok(stream.take(len as int))),
                    stream.skip(len as int),
                    fault,
                );
            }
        },
        _ => {},
    }
}

/// A worker that has ended its output fails the exchange, whatever was read
/// before.
pub proof fn a_closed_stream_fails_the_exchange(exchange: ExchangeModel, fault: Seq<char>)
    requires
        exchange.wf(),
        exchange.stage is ReadLength,
    ensures
        exchange.run(Seq::empty(), fault).stage == StageModel::Failed("worker closed stdout"@),
{
    let line = wire::first_line(Seq::empty());
    assert(line =~= Seq::<u8>::empty());
    encode_utf8_valid_utf8(Seq::empty());
    assert(encode_utf8(Seq::empty()) =~= line);
    encode_utf8_decode_utf8(Seq::empty());
    assert(decode_utf8(line) =~= Seq::<char>::empty());
    let failed = exchange.after_line(Ok(decode_utf8(line)));
    assert(failed.run(Seq::<u8>::empty().skip(0), fault) == failed);
}

/// The frames of some answers, cut short, do not complete an exchange that is
/// still without those answers.
proof fn cut_answers_are_not_collected(
    exchange: ExchangeModel,
    answers: Seq<Seq<char>>,
    k: int,
    fault: Seq<char>,
)
    requires
        exchange.wf(),
        exchange.stage is ReadLength,
        exchange.results.len() + answers.len() == exchange.texts.len(),
        forall|i: int|
            0 <= i < answers.len() ==> encode_utf8(#[trigger] answers[i]).len() <= usize::MAX,
        0 <= k < wire::frames(answers).len(),
        answers.last().len() == 0 ==> k < wire::frames(answers).len() - 1,
    ensures
        exchange.run(wire::frames(answers).take(k), fault).stage is Failed,
    decreases answers.len(),
{
    let answer = answers[0];
    let later = answers.skip(1);
    let bytes = encode_utf8(answer);
    let line = wire::number_line(bytes.len());
    let whole = wire::frames(answers);
    let stream = whole.take(k);
    let read = line.len() + bytes.len();
    assert(whole =~= line + bytes + wire::frames(later));
    let reading = exchange.at(StageModel::ReadText(bytes.len()));
    if k >= line.len() {
        let rest = stream.skip(line.len() as int);
        assert(stream =~= line + rest);
        wire::number_line_is_read_back(bytes.len(), rest);
        assert(exchange.run(stream, fault) == reading.run(rest, fault));
        if k >= read {
            assert(rest.take(bytes.len() as int) =~= bytes);
            let beyond = rest.skip(bytes.len() as int);
            assert(beyond =~= wire::frames(later).take(k - read));
            encode_utf8_valid_utf8(answer);
            let next = reading.after_bytes(Ok(bytes));
            assert(reading.run(rest, fault) == next.run(beyond, fault));
            if later.len() == 0 {
                assert(wire::frames(later).len() == 0);
                assert(false);
            }
            assert(later.last() == answers.last());
            assert forall|i: int| 0 <= i < later.len() implies encode_utf8(
                #[trigger] later[i],
            ).len() <= usize::MAX by {
                assert(later[i] == answers[i + 1]);
            }
            cut_answers_are_not_collected(next, later, k - read, fault);
        } else {
            assert(reading.run(rest, fault) == reading.after_bytes(Err(fault)));
        }
    } else if k == 0 {
        assert(stream =~= Seq::empty());
        a_closed_stream_fails_the_exchange(exchange, fault);
    } else {
        assert(stream =~= line.take(k));
        wire::a_cut_number_line_is_a_number(bytes.len(), k);
        let misread = exchange.after_line(Ok(decode_utf8(stream)));
        let nothing = stream.skip(stream.len() as int);
        assert(nothing =~= Seq::empty());
        assert(exchange.run(stream, fault) == misread.run(nothing, fault));
        match misread.stage {
            StageModel::ReadText(len) => {
                if len == 0 {
                    wire::only_the_empty_text_has_no_bytes(answer);
                    assert(nothing.take(0) =~= Seq::empty());
                    assert(nothing.skip(0) =~= Seq::empty());
                    encode_utf8_valid_utf8(Seq::empty());
                    assert(encode_utf8(Seq::empty()) =~= Seq::<u8>::empty());
                    let next = misread.after_bytes(Ok(Seq::empty()));
                    assert(misread.run(nothing, fault) == next.run(Seq::empty(), fault));
                    if later.len() == 0 {
                        assert(answers.last() == answer);
                        assert(wire::frames(later).len() == 0);
                        assert(whole.len() == line.len());
                        assert(line.len() == 2) by {
                            wire::zero_takes_two_bytes();
                        }
                        assert(false);
                    }
                    a_closed_stream_fails_the_exchange(next, fault);
                } else {
                    assert(misread.run(nothing, fault) == misread.after_bytes(Err(fault)));
                }
            },
            _ => {
                assert(misread.run(nothing, fault) == misread);
            },
        }
    }
}

/// A reply that is cut short is never taken for a whole one, but for one that
/// lacks no more than the line feed before a last answer that is empty.
pub proof fn a_cut_reply_fails_the_exchange(
    texts: Seq<Seq<char>>,
    answers: Seq<Seq<char>>,
    k: int,
    fault: Seq<char>,
)
    requires
        texts.len() > 0,
        answers.len() == texts.len(),
        forall|i: int|
            0 <= i < answers.len() ==> encode_utf8(#[trigger] answers[i]).len() <= usize::MAX,
        0 <= k < wire::frames(answers).len(),
        answers.last().len() == 0 ==> k < wire::frames(answers).len() - 1,
    ensures
        opening(texts).at(StageModel::ReadLength).run(wire::frames(answers).take(k), fault).stage is Failed,
{
    cut_answers_are_not_collected(
        opening(texts).at(StageModel::ReadLength),
        answers,
        k,
        fault,
    );
}

/// Two batches with the same frame are the same batch.
pub proof fn a_frame_tells_batches_apart(texts1: Seq<Seq<char>>, texts2: Seq<Seq<char>>)
    requires
        forall|i: int|
            0 <= i < texts1.len() ==> encode_utf8(#[trigger] texts1[i]).len() <= usize::MAX,
        forall|i: int|
            0 <= i < texts2.len() ==> encode_utf8(#[trigger] texts2[i]).len() <= usize::MAX,
        wire::batch_frame(texts1) == wire::batch_frame(texts2),
    ensures
        texts1 == texts2,
{
    let frames1 = wire::frames(texts1);
    let frames2 = wire::frames(texts2);
    let line1 = wire::number_line(texts1.len());
    let line2 = wire::number_line(texts2.len());
    wire::number_line_is_read_back(texts1.len(), frames1);
    wire::number_line_is_read_back(texts2.len(), frames2);
    assert((line1 + frames1).skip(line1.len() as int) =~= frames1);
    assert((line2 + frames2).skip(line2.len() as int) =~= frames2);
    if texts1.len() > 0 {
        let rest = Seq::<u8>::empty();
        framed_answers_are_read_back(texts1, texts1, rest, Seq::empty());
        framed_answers_are_read_back(texts1, texts2, rest, Seq::empty());
    } else {
        assert(texts1 =~= texts2);
    }
}

/// The line with which a worker is bid farewell begins no batch.
pub proof fn no_batch_begins_with_the_farewell(texts: Seq<Seq<char>>)
    requires
        texts.len() > 0,
    ensures
        !wire::number_line(0).is_prefix_of(wire::batch_frame(texts)),
{
    wire::farewell_line_differs(texts.len());
    let farewell = wire::number_line(0);
    let count = wire::number_line(texts.len());
    wire::number_line_is_read_back(0, Seq::empty());
    wire::number_line_is_read_back(texts.len(), wire::frames(texts));
    assert(wire::batch_frame(texts)[0] == count[0]);
}

/// A program to run and the arguments to run it with.
pub struct WorkerCommand {
    pub program: String,
    pub args: Vec<String>,
}

/// Which of a started process's three pipes could be had.
#[derive(Clone, Copy)]
pub struct WorkerPipes {
    pub stdin: bool,
    pub stdout: bool,
    pub stderr: bool,
}

/// A running worker, of which is kept whether it has been ended.
///
/// The worker stays alive over many batches; each one is an exchange that
/// [`WorkerPool::translate_batch`] opens.
pub struct WorkerPool {
    terminated: bool,
}

impl WorkerPool {
    /// Whether the worker has been ended.
    pub closed spec fn terminated(self) -> bool {
        self.terminated
    }

    /// The command that starts a worker for a language pair, or `None` where
    /// the worker's program or the pair's assets are missing.
    pub fn try_create(
        worker_bin: Option<String>,
        assets_dir: Option<String>,
        src: &str,
        tgt: &str,
        num_engines: usize,
    ) -> (command: Option<WorkerCommand>)
        ensures
            command is Some <==> worker_bin is Some && assets_dir is Some,
            command matches Some(c) ==> {
                &&& c.program == worker_bin->0
                &&& c.args@.len() == 4
                &&& c.args@[0]@ == assets_dir->0@
                &&& c.args@[1]@ == text::decimal(num_engines as nat)
                &&& c.args@[2]@ == config::icu_locale(src@)
                &&& c.args@[3]@ == config::icu_locale(tgt@)
                &&& text::texts_of(c.args@) == seq![
                    assets_dir->0@,
                    text::decimal(num_engines as nat),
                    config::icu_locale(src@),
                    config::icu_locale(tgt@),
                ]
            },
    {
        let program = match worker_bin {
            Some(program) => program,
            None => return None,
        };
        let assets = match assets_dir {
            Some(assets) => assets,
            None => return None,
        };
        let mut args: Vec<String> = Vec::new();
        args.push(assets);
        args.push(text::decimal_text(num_engines as u64));
        args.push(config::normalize_locale(src));
        args.push(config::normalize_locale(tgt));
        assert(text::texts_of(args@) =~= seq![
            assets_dir->0@,
            text::decimal(num_engines as nat),
            config::icu_locale(src@),
            config::icu_locale(tgt@),
        ]);
        Some(WorkerCommand { program, args })
    }

    /// The worker that was started, or the reason for which there is none:
    /// the account of why it could not be started, or the first pipe missing.
    pub fn spawn(started: Result<WorkerPipes, String>) -> (pool: Result<WorkerPool, String>)
        ensures
            match started {
                Err(e) => pool matches Err(m) && m@ == "Failed to spawn translation worker: "@ + e@,
                Ok(pipes) => if !pipes.stdin {
                    pool matches Err(m) && m@ == "Failed to get worker stdin"@
                } else if !pipes.stdout {
                    pool matches Err(m) && m@ == "Failed to get worker stdout"@
                } else if !pipes.stderr {
                    pool matches Err(m) && m@ == "Failed to get worker stderr"@
                } else {
                    pool matches Ok(p) && !p.terminated()
                },
            },
    {
        match started {
            Err(e) => Err(report("Failed to spawn translation worker: ", e.as_str())),
            Ok(pipes) => if !pipes.stdin {
                Err("Failed to get worker stdin".to_owned())
            } else if !pipes.stdout {
                Err("Failed to get worker stdout".to_owned())
            } else if !pipes.stderr {
                Err("Failed to get worker stderr".to_owned())
            } else {
                Ok(WorkerPool { terminated: false })
            },
        }
    }

    /// Opens the exchange of a batch: one result for each text, in the same
    /// order, or the reason for which there is none.
    pub fn translate_batch(&self, texts: &[String]) -> (exchange: WorkerExchange)
        ensures
            exchange@ == opening(text::texts_of(texts@)),
            exchange@.texts.len() == texts@.len(),
            forall|i: int| 0 <= i < texts@.len() ==> #[trigger] exchange@.texts[i] == texts@[i]@,
            exchange@.wf(),
    {
        let stage = if texts.len() == 0 {
            ExchangeStage::Complete
        } else {
            ExchangeStage::WriteCount
        };
        let exchange = WorkerExchange { texts: text::copy_texts(texts), results: Vec::new(), stage };
        assert(exchange@.results =~= Seq::empty());
        exchange
    }

    /// Ends the worker by force. Says whether the process is now to be killed
    /// and waited for; once the worker has been ended it is not.
    pub fn terminate(&mut self) -> (kill: bool)
        ensures
            kill == !old(self).terminated(),
            final(self).terminated(),
    {
        let kill = !self.terminated;
        self.terminated = true;
        kill
    }

    /// Ends the worker in order. Gives the line that tells it to leave, after
    /// which the process is to be waited for; once the worker has been ended
    /// there is none.
    pub fn shutdown(&mut self) -> (farewell: Option<Vec<u8>>)
        ensures
            match farewell {
                Some(line) => !old(self).terminated() && line@ == wire::number_line(0),
                None => old(self).terminated(),
            },
            final(self).terminated(),
    {
        if self.terminated {
            None
        } else {
            self.terminated = true;
            Some(wire::line_of(0))
        }
    }
}

/// An exchange begins with its texts, with no results, and with writing where
/// there is a text.
pub proof fn an_exchange_begins_with_its_texts(texts: Seq<Seq<char>>)
    ensures
        opening(texts).texts == texts,
        opening(texts).results.len() == 0,
        opening(texts).stopped() <==> texts.len() == 0,
        texts.len() > 0 ==> opening(texts).stage is WriteCount,
        opening(texts).wf(),
{
}

/// Each part of a batch is written on its own: the line of how many texts
/// there are, and of each text the line of its length in bytes and its bytes.
pub proof fn each_part_of_a_batch_is_written(exchange: ExchangeModel, i: int)
    ensures
        exchange.at(StageModel::WriteCount).chunk() == wire::number_line(exchange.texts.len()),
        exchange.at(StageModel::WriteLength(i)).chunk() == wire::number_line(
            encode_utf8(exchange.texts[i]).len(),
        ),
        exchange.at(StageModel::WriteText(i)).chunk() == encode_utf8(exchange.texts[i]),
{
}

/// Writing changes neither the texts nor the results; every success leaves one
/// write or flush less; nothing is left to be written when it comes to the
/// flush; and nothing is read before the flush.
pub proof fn the_flush_follows_every_write(exchange: ExchangeModel)
    requires
        exchange.wf(),
        exchange.writing(),
    ensures
        exchange.after_write(Ok(())).wf(),
        exchange.after_write(Ok(())).texts == exchange.texts,
        exchange.after_write(Ok(())).results == exchange.results,
        exchange.after_write(Ok(())).writes_left() == exchange.writes_left() - 1,
        exchange.after_write(Ok(())).stage is Flush <==> exchange.stage == StageModel::WriteText(
            exchange.texts.len() - 1,
        ),
        exchange.after_write(Ok(())).stage is ReadLength <==> exchange.stage is Flush,
        !(exchange.stage is Flush) ==> exchange.after_write(Ok(())).writing(),
{
}

/// A write that fails is reported as what it was and with why it failed, and
/// changes neither the texts nor the results.
pub proof fn a_failed_write_says_what_failed(exchange: ExchangeModel, fault: Seq<char>, i: int)
    ensures
        exchange.at(StageModel::WriteCount).after_write(Err(fault)) == exchange.at(
            StageModel::Failed("write count failed: "@ + fault),
        ),
        exchange.at(StageModel::WriteLength(i)).after_write(Err(fault)) == exchange.at(
            StageModel::Failed("write text length failed: "@ + fault),
        ),
        exchange.at(StageModel::WriteText(i)).after_write(Err(fault)) == exchange.at(
            StageModel::Failed("write text bytes failed: "@ + fault),
        ),
        exchange.at(StageModel::Flush).after_write(Err(fault)) == exchange.at(
            StageModel::Failed("flush failed: "@ + fault),
        ),
{
}

/// An exchange at another stage has the same texts and results.
pub proof fn a_stage_changes_no_text_and_no_result(exchange: ExchangeModel, stage: StageModel)
    ensures
        exchange.at(stage).texts == exchange.texts,
        exchange.at(stage).results == exchange.results,
        exchange.at(stage).stage == stage,
{
}

/// A line that was read changes neither the texts nor the results. A result of
/// `n` bytes is read next exactly where the line, without the white space at its
/// end, is a numeral of `n`; else the exchange fails, and says why.
pub proof fn a_line_holds_a_length(exchange: ExchangeModel, line: Seq<char>, fault: Seq<char>, n: nat)
    ensures
        exchange.after_line(Ok(line)).texts == exchange.texts,
        exchange.after_line(Ok(line)).results == exchange.results,
        n <= usize::MAX ==> (exchange.after_line(Ok(line)).stage == StageModel::ReadText(n)
            <==> line.len() > 0 && text::numeral(text::trimmed_end(line)) == Some(n)),
        n > usize::MAX && text::numeral(text::trimmed_end(line)) == Some(n)
            ==> exchange.after_line(Ok(line)).stage is Failed,
        line.len() > 0 && exchange.after_line(Ok(line)).stage is Failed ==> exchange.after_line(
            Ok(line),
        ).stage->Failed_0 == "invalid result length "@ + text::quoted(text::trimmed_end(line))
            + ": "@ + text::parse_fault(text::trimmed_end(line), usize::BITS),
        exchange.after_line(Ok(line)).stage is ReadText || exchange.after_line(Ok(line)).stage is Failed,
        line.len() == 0 ==> exchange.after_line(Ok(line)).stage == StageModel::Failed(
            "worker closed stdout"@,
        ),
        exchange.after_line(Err(fault)) == exchange.at(
            StageModel::Failed("read failed: "@ + fault),
        ),
{
}

/// The bytes that were read become one more result, behind the others, exactly
/// where they are UTF-8; with as many results as texts the exchange is
/// complete, and with fewer the next length is read.
pub proof fn read_bytes_are_one_more_result(
    exchange: ExchangeModel,
    bytes: Seq<u8>,
    t: Seq<char>,
    fault: Seq<char>,
)
    requires
        exchange.results.len() < exchange.texts.len(),
    ensures
        exchange.after_bytes(Ok(encode_utf8(t))).results == exchange.results + seq![t],
        exchange.after_bytes(Ok(encode_utf8(t))).texts == exchange.texts,
        exchange.after_bytes(Ok(encode_utf8(t))).stage is Complete <==> exchange.results.len() + 1
            == exchange.texts.len(),
        exchange.after_bytes(Ok(encode_utf8(t))).stage is ReadLength <==> exchange.results.len() + 1
            < exchange.texts.len(),
        !valid_utf8(bytes) ==> exchange.after_bytes(Ok(bytes)) == exchange.at(
            StageModel::Failed("worker returned non-UTF-8 result: "@ + text::utf8_fault(bytes)),
        ),
        exchange.after_bytes(Err(fault)) == exchange.at(
            StageModel::Failed("read result bytes failed: "@ + fault),
        ),
{
    encode_utf8_valid_utf8(t);
    encode_utf8_decode_utf8(t);
    assert(exchange.results.push(t) =~= exchange.results + seq![t]);
}

/// A complete exchange came to its results, and a failed one to its reason.
pub proof fn an_exchange_comes_to_its_results_or_its_reason(
    exchange: ExchangeModel,
    reason: Seq<char>,
)
    ensures
        exchange.at(StageModel::Complete).outcome() == Ok::<Seq<Seq<char>>, Seq<char>>(
            exchange.results,
        ),
        exchange.at(StageModel::Failed(reason)).outcome() == Err::<Seq<Seq<char>>, Seq<char>>(
            reason,
        ),
{
}

/// An outcome that was handed over is a success exactly where it was one, with
/// what it holds, and else the account of its failure.
pub proof fn outcomes_are_taken_as_they_are(
    done: Result<(), String>,
    line: Result<String, String>,
    bytes: Result<Vec<u8>, String>,
    results: Result<Vec<String>, String>,
)
    ensures
        done is Ok <==> done_or_fault(done) is Ok,
        done is Err ==> done_or_fault(done)->Err_0 == done->Err_0@,
        line is Ok <==> line_or_fault(line) is Ok,
        line is Ok ==> line_or_fault(line)->Ok_0 == line->Ok_0@,
        line is Err ==> line_or_fault(line)->Err_0 == line->Err_0@,
        bytes is Ok <==> bytes_or_fault(bytes) is Ok,
        bytes is Ok ==> bytes_or_fault(bytes)->Ok_0 == bytes->Ok_0@,
        bytes is Err ==> bytes_or_fault(bytes)->Err_0 == bytes->Err_0@,
        results is Ok <==> results_or_fault(results) is Ok,
        results is Ok ==> results_or_fault(results)->Ok_0.len() == results->Ok_0@.len(),
        results is Ok ==> forall|i: int|
            0 <= i < results->Ok_0@.len() ==> #[trigger] results_or_fault(results)->Ok_0[i]
                == results->Ok_0@[i]@,
        results is Err ==> results_or_fault(results)->Err_0 == results->Err_0@,
{
}

} // verus!
