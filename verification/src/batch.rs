//! A batch on its way: first through the language pair's worker, where there
//! is one, and through the framework where the worker does not serve.
//!
//! A caller performs the [`BatchAction`] that [`BatchRun::action`] names and
//! hands the outcome back, until the run stops.
use crate::error;
use crate::error::{LastError, TranslationError};
use crate::request;
use crate::request::{TranslationRequest, TranslationResponse};
use crate::text;
use crate::translator;
use crate::translator::{FrameworkCall, LanguageTranslator};
use crate::wire;
use crate::worker_pool;
use vstd::prelude::*;
use vstd::utf8::*;

verus! {

/// How far a batch has come.
pub enum BatchStage {
    /// The language pair's worker is to be found.
    FindPool,
    /// The worker is to translate.
    RunWorker,
    /// The worker is to be ended and the pair disabled, with this notice.
    Retire(String),
    /// The framework is to translate.
    CallFramework,
    /// These are the results.
    Finished(Vec<Result<TranslationResponse, TranslationError>>),
}

/// What [`BatchStage`] stands for.
pub enum BatchStageModel {
    FindPool,
    RunWorker,
    Retire(Seq<char>),
    CallFramework,
    Finished(Seq<Result<request::ResponseModel, error::ErrorModel>>),
}

impl View for BatchStage {
    type V = BatchStageModel;

    open spec fn view(&self) -> BatchStageModel {
        match self {
            BatchStage::FindPool => BatchStageModel::FindPool,
            BatchStage::RunWorker => BatchStageModel::RunWorker,
            BatchStage::Retire(notice) => BatchStageModel::Retire(notice@),
            BatchStage::CallFramework => BatchStageModel::CallFramework,
            BatchStage::Finished(results) => BatchStageModel::Finished(
                translator::results_model(results@),
            ),
        }
    }
}

/// Whether the results of a worker hold a translation at all.
pub open spec fn usable(results: Seq<Seq<char>>) -> bool {
    exists|i: int| 0 <= i < results.len() && (#[trigger] results[i]).len() > 0
}

/// Whether the results of a worker hold a translation at all.
pub fn is_usable_batch(results: &[String]) -> (is_usable: bool)
    ensures
        is_usable == usable(text::texts_of(results@)),
{
    let mut i: usize = 0;
    while i < results.len()
        invariant
            i <= results@.len(),
            forall|j: int| 0 <= j < i ==> (#[trigger] text::texts_of(results@)[j]).len() == 0,
        decreases results.len() - i,
    {
        if !results[i].as_str().is_empty() {
            assert(text::texts_of(results@)[i as int].len() > 0);
            return true;
        }
        i += 1;
    }
    false
}

/// A batch: the language pair, the requests, and the stage.
pub struct BatchModel {
    pub pair: translator::PairModel,
    pub requests: Seq<request::RequestModel>,
    pub stage: BatchStageModel,
}

impl BatchModel {
    /// A batch that is not finished holds a request, and one that is has a
    /// result for each.
    pub open spec fn wf(self) -> bool {
        match self.stage {
            BatchStageModel::Finished(results) => results.len() == self.requests.len(),
            _ => self.requests.len() > 0,
        }
    }

    /// This batch at another stage.
    pub open spec fn at(self, stage: BatchStageModel) -> BatchModel {
        BatchModel { pair: self.pair, requests: self.requests, stage }
    }

    /// The texts that are asked for.
    pub open spec fn texts(self) -> Seq<Seq<char>> {
        translator::source_texts(self.requests)
    }

    /// The results, given the translations of the texts.
    pub open spec fn answered(self, targets: Seq<Seq<char>>) -> BatchModel {
        self.at(
            BatchStageModel::Finished(
                translator::responses_to(self.pair, self.requests, targets),
            ),
        )
    }

    /// The batch once it is known whether a worker can be had.
    pub open spec fn after_lookup(self, found: bool) -> BatchModel {
        if found {
            self.at(BatchStageModel::RunWorker)
        } else {
            self.at(BatchStageModel::CallFramework)
        }
    }

    /// Whether the worker's results leave every text without a translation
    /// though one of them needs it.
    pub open spec fn shows_worker_broken(self, results: Seq<Seq<char>>) -> bool {
        !usable(results) && usable(self.texts())
    }

    /// The batch once the worker has answered.
    pub open spec fn after_worker(self, outcome: Result<Seq<Seq<char>>, Seq<char>>) -> BatchModel {
        match outcome {
            Ok(results) => if usable(results) {
                self.answered(results)
            } else if self.shows_worker_broken(results) {
                self.at(BatchStageModel::Retire(unusable_notice(self.pair)))
            } else {
                self.at(BatchStageModel::CallFramework)
            },
            Err(fault) => self.at(BatchStageModel::Retire(failure_notice(self.pair, fault))),
        }
    }

    /// The batch once the framework has answered, with an error of this kind
    /// left behind. No results at all are a failure of every request.
    pub open spec fn after_framework(self, results: Seq<Seq<char>>, kind: i32) -> BatchModel {
        if results.len() == 0 {
            self.at(
                BatchStageModel::Finished(
                    Seq::new(
                        self.requests.len(),
                        |i: int|
                            Err(
                                translator::operation_error(
                                    kind,
                                    "translate_batch"@,
                                    60,
                                    "batch translation failed"@,
                                ),
                            ),
                    ),
                ),
            )
        } else {
            self.answered(results)
        }
    }

    /// Where the batch ends, given what the worker would answer, if there is
    /// one, and what the framework would.
    pub open spec fn run(
        self,
        worker: Option<Result<Seq<Seq<char>>, Seq<char>>>,
        framework: Seq<Seq<char>>,
        kind: i32,
    ) -> BatchModel
        decreases self.steps_left(),
    {
        match self.stage {
            BatchStageModel::FindPool => self.after_lookup(worker is Some).run(
                worker,
                framework,
                kind,
            ),
            BatchStageModel::RunWorker => self.after_worker(worker->0).run(worker, framework, kind),
            BatchStageModel::Retire(_) => self.at(BatchStageModel::CallFramework).run(
                worker,
                framework,
                kind,
            ),
            BatchStageModel::CallFramework => self.after_framework(framework, kind),
            BatchStageModel::Finished(_) => self,
        }
    }

    /// How many steps the batch can still take.
    pub open spec fn steps_left(self) -> nat {
        match self.stage {
            BatchStageModel::FindPool => 4,
            BatchStageModel::RunWorker => 3,
            BatchStageModel::Retire(_) => 2,
            BatchStageModel::CallFramework => 1,
            BatchStageModel::Finished(_) => 0,
        }
    }
}

/// The end of a notice that a pair's worker is given up.
pub open spec fn disabling(pair: translator::PairModel) -> Seq<char> {
    "; disabling worker for "@ + pair.source + "->"@ + pair.target + " and falling back"@
}

/// The notice that a worker returned nothing usable.
pub open spec fn unusable_notice(pair: translator::PairModel) -> Seq<char> {
    "apple-translate-rs-sync: worker returned no usable translations"@ + disabling(pair)
}

/// The notice that a worker failed.
pub open spec fn failure_notice(pair: translator::PairModel, fault: Seq<char>) -> Seq<char> {
    "apple-translate-rs-sync: worker failed: "@ + fault + disabling(pair)
}

/// What is to be done for a batch next.
pub enum BatchAction {
    /// Find the language pair's worker.
    FindPool,
    /// Have the worker translate these texts.
    RunWorker(Vec<String>),
    /// Give this notice, end the worker, discard it and disable the pair.
    Retire(String),
    /// Make this call of the framework.
    CallFramework(FrameworkCall),
    /// Nothing: the results are there.
    Stop,
}

/// The batch with which a run begins.
pub open spec fn opening(
    pair: translator::PairModel,
    requests: Seq<request::RequestModel>,
) -> BatchModel {
    BatchModel {
        pair,
        requests,
        stage: if requests.len() == 0 {
            BatchStageModel::Finished(Seq::empty())
        } else {
            BatchStageModel::FindPool
        },
    }
}

/// One batch of requests on its way.
pub struct BatchRun {
    translator: LanguageTranslator,
    requests: Vec<TranslationRequest>,
    stage: BatchStage,
}

impl View for BatchRun {
    type V = BatchModel;

    closed spec fn view(&self) -> BatchModel {
        BatchModel {
            pair: self.translator@,
            requests: translator::requests_model(self.requests@),
            stage: self.stage@,
        }
    }
}

/// A copy of some requests.
fn copy_requests(requests: &[TranslationRequest]) -> (copy: Vec<TranslationRequest>)
    ensures
        copy@ == requests@,
{
    let mut copy: Vec<TranslationRequest> = Vec::new();
    let mut i: usize = 0;
    while i < requests.len()
        invariant
            i <= requests@.len(),
            copy@.len() == i,
            forall|j: int| 0 <= j < i ==> #[trigger] copy@[j] == requests@[j],
        decreases requests.len() - i,
    {
        copy.push(requests[i].clone());
        i += 1;
    }
    assert(copy@ =~= requests@);
    copy
}

/// One failure for each of `n` requests.
fn failures(n: usize, failure: &TranslationError) -> (results: Vec<
    Result<TranslationResponse, TranslationError>,
>)
    ensures
        results@.len() == n,
        forall|j: int| 0 <= j < n ==> #[trigger] results@[j] == Err::<TranslationResponse, TranslationError>(*failure),
{
    let mut results: Vec<Result<TranslationResponse, TranslationError>> = Vec::new();
    let mut i: usize = 0;
    while i < n
        invariant
            i <= n,
            results@.len() == i,
            forall|j: int| 0 <= j < i ==> #[trigger] results@[j] == Err::<TranslationResponse, TranslationError>(*failure),
        decreases n - i,
    {
        results.push(Err(failure.clone()));
        i += 1;
    }
    results
}

impl LanguageTranslator {
    /// Translates a batch of requests: one result for each request, in the
    /// same order. An empty batch has its results at once.
    pub fn translate_batch(&self, requests: &[TranslationRequest]) -> (run: BatchRun)
        ensures
            run@ == opening(self@, translator::requests_model(requests@)),
            run@.wf(),
            run@.pair == self@,
            run@.requests.len() == requests@.len(),
            forall|i: int|
                0 <= i < requests@.len() ==> #[trigger] run@.requests[i] == requests@[i]@,
    {
        let stage = if requests.len() == 0 {
            BatchStage::Finished(Vec::new())
        } else {
            BatchStage::FindPool
        };
        let run = BatchRun { translator: self.clone(), requests: copy_requests(requests), stage };
        assert(translator::results_model(Seq::empty()) =~= Seq::empty());
        run
    }
}

impl BatchRun {
    /// The texts that are asked for.
    fn texts(&self) -> (texts: Vec<String>)
        ensures
            text::texts_of(texts@) == self@.texts(),
            texts@.len() == self@.requests.len(),
            forall|i: int|
                0 <= i < texts@.len() ==> (#[trigger] texts@[i])@ == self@.requests[i].source_text,
    {
        let mut texts: Vec<String> = Vec::new();
        let mut i: usize = 0;
        while i < self.requests.len()
            invariant
                i <= self.requests@.len(),
                texts@.len() == i,
                forall|j: int|
                    0 <= j < i ==> (#[trigger] texts@[j])@ == self.requests@[j].source_text@,
            decreases self.requests.len() - i,
        {
            texts.push(self.requests[i].source_text.clone());
            i += 1;
        }
        assert(text::texts_of(texts@) =~= self@.texts());
        texts
    }

    /// What is to be done next.
    pub fn action(&self) -> (action: BatchAction)
        ensures
            match self@.stage {
                BatchStageModel::FindPool => action == BatchAction::FindPool,
                BatchStageModel::RunWorker => {
                    action matches BatchAction::RunWorker(texts) && text::texts_of(texts@)
                        == self@.texts() && texts@.len() == self@.requests.len() && forall|i: int|
                        0 <= i < texts@.len() ==> (#[trigger] texts@[i])@
                            == self@.requests[i].source_text
                },
                BatchStageModel::Retire(notice) => {
                    action matches BatchAction::Retire(n) && n@ == notice
                },
                BatchStageModel::CallFramework => {
                    action matches BatchAction::CallFramework(call) && call@
                        == (translator::CallModel::TranslateBatch {
                        source: self@.pair.source,
                        target: self@.pair.target,
                        texts: self@.texts(),
                    }) && (call matches FrameworkCall::TranslateBatch { source, target, texts }
                        && source@ == self@.pair.source && target@ == self@.pair.target
                        && texts@.len() == self@.requests.len() && forall|i: int|
                        0 <= i < texts@.len() ==> (#[trigger] texts@[i])@
                            == self@.requests[i].source_text)
                },
                BatchStageModel::Finished(_) => action == BatchAction::Stop,
            },
    {
        match &self.stage {
            BatchStage::FindPool => BatchAction::FindPool,
            BatchStage::RunWorker => BatchAction::RunWorker(self.texts()),
            BatchStage::Retire(notice) => BatchAction::Retire(notice.clone()),
            BatchStage::CallFramework => BatchAction::CallFramework(
                FrameworkCall::TranslateBatch {
                    source: self.translator.source().to_owned(),
                    target: self.translator.target().to_owned(),
                    texts: self.texts(),
                },
            ),
            BatchStage::Finished(_) => BatchAction::Stop,
        }
    }

    /// Takes whether a worker has been found that can be used.
    pub fn pool_found(&mut self, found: bool)
        requires
            old(self)@.wf(),
            old(self)@.stage is FindPool,
        ensures
            final(self)@.wf(),
            final(self)@ == old(self)@.after_lookup(found),
    {
        if found {
            self.stage = BatchStage::RunWorker;
        } else {
            self.stage = BatchStage::CallFramework;
        }
    }

    /// `reason` followed by the end of a notice that the worker is given up.
    fn notice(&self, reason: &str) -> (notice: String)
        ensures
            notice@ == reason@ + disabling(self@.pair),
    {
        let mut end = "; disabling worker for ".to_owned();
        end.append(self.translator.source());
        end.append("->");
        end.append(self.translator.target());
        end.append(" and falling back");
        let mut notice = reason.to_owned();
        notice.append(end.as_str());
        notice
    }

    /// Takes the worker's results, or the account of its failure.
    pub fn worker_answered(&mut self, outcome: Result<Vec<String>, String>)
        requires
            old(self)@.wf(),
            old(self)@.stage is RunWorker,
        ensures
            final(self)@.wf(),
            final(self)@ == old(self)@.after_worker(worker_pool::results_or_fault(outcome)),
    {
        match outcome {
            Ok(results) => {
                if is_usable_batch(results.as_slice()) {
                    let responses = self.translator.responses_from_targets(
                        self.requests.as_slice(),
                        results.as_slice(),
                    );
                    self.stage = BatchStage::Finished(responses);
                } else if is_usable_batch(self.texts().as_slice()) {
                    let notice = self.notice(
                        "apple-translate-rs-sync: worker returned no usable translations",
                    );
                    self.stage = BatchStage::Retire(notice);
                } else {
                    self.stage = BatchStage::CallFramework;
                }
            },
            Err(fault) => {
                let mut reason = "apple-translate-rs-sync: worker failed: ".to_owned();
                reason.append(fault.as_str());
                let notice = self.notice(reason.as_str());
                self.stage = BatchStage::Retire(notice);
            },
        }
    }

    /// Takes that the worker has been ended and the pair disabled.
    pub fn worker_retired(&mut self)
        requires
            old(self)@.wf(),
            old(self)@.stage is Retire,
        ensures
            final(self)@.wf(),
            final(self)@ == old(self)@.at(BatchStageModel::CallFramework),
    {
        self.stage = BatchStage::CallFramework;
    }

    /// Takes the framework's translations, none at all where it failed.
    pub fn framework_answered(&mut self, results: Vec<String>, last: &mut LastError)
        requires
            old(self)@.wf(),
            old(self)@.stage is CallFramework,
        ensures
            final(self)@.wf(),
            final(self)@ == old(self)@.after_framework(
                text::texts_of(results@),
                old(last)@.kind,
            ),
            final(last)@ == (if results@.len() == 0 {
                error::no_error()
            } else {
                old(last)@
            }),
    {
        if results.len() == 0 {
            let failure = translator::operation_failed(
                last,
                "translate_batch",
                60,
                "batch translation failed",
            );
            let responses = failures(self.requests.len(), &failure);
            self.stage = BatchStage::Finished(responses);
            assert(self@.stage->Finished_0 =~= old(self)@.after_framework(
                text::texts_of(results@),
                old(last)@.kind,
            ).stage->Finished_0);
        } else {
            let responses = self.translator.responses_from_targets(
                self.requests.as_slice(),
                results.as_slice(),
            );
            self.stage = BatchStage::Finished(responses);
        }
    }

    /// The results of a run that has stopped.
    pub fn finish(self) -> (results: Vec<Result<TranslationResponse, TranslationError>>)
        requires
            self@.wf(),
            self@.stage is Finished,
        ensures
            translator::results_model(results@) == self@.stage->Finished_0,
            results@.len() == self@.requests.len(),
            forall|i: int|
                0 <= i < results@.len() ==> match #[trigger] results@[i] {
                    Ok(r) => self@.stage->Finished_0[i] == Ok::<
                        request::ResponseModel,
                        error::ErrorModel,
                    >(r@),
                    Err(e) => self@.stage->Finished_0[i] == Err::<
                        request::ResponseModel,
                        error::ErrorModel,
                    >(e@),
                },
    {
        proof {
            assert(self@.stage == self.stage@);
            translator::requests_and_results_stand_in_their_order(
                Seq::empty(),
                self.stage->Finished_0@,
                Ok(()),
            );
        }
        match self.stage {
            BatchStage::Finished(results) => results,
            _ => Vec::new(),
        }
    }
}

/// What a batch comes to: nothing for no requests; the worker's translations
/// where it has any; the framework's where it has any; and else the same
/// failure for each request.
pub open spec fn batch_results(
    pair: translator::PairModel,
    requests: Seq<request::RequestModel>,
    worker: Option<Result<Seq<Seq<char>>, Seq<char>>>,
    framework: Seq<Seq<char>>,
    kind: i32,
) -> Seq<Result<request::ResponseModel, error::ErrorModel>> {
    let served = match worker {
        Some(Ok(results)) => usable(results),
        _ => false,
    };
    if requests.len() == 0 {
        Seq::empty()
    } else if served {
        translator::responses_to(pair, requests, worker->0->Ok_0)
    } else if framework.len() > 0 {
        translator::responses_to(pair, requests, framework)
    } else {
        Seq::new(
            requests.len(),
            |i: int|
                Err(
                    translator::operation_error(
                        kind,
                        "translate_batch"@,
                        60,
                        "batch translation failed"@,
                    ),
                ),
        )
    }
}

/// Whatever the worker and the framework answer, a batch stops, with the
/// results that its parts stand for and one for each request.
pub proof fn a_batch_comes_to_its_results(
    pair: translator::PairModel,
    requests: Seq<request::RequestModel>,
    worker: Option<Result<Seq<Seq<char>>, Seq<char>>>,
    framework: Seq<Seq<char>>,
    kind: i32,
)
    ensures
        opening(pair, requests).run(worker, framework, kind).stage == BatchStageModel::Finished(
            batch_results(pair, requests, worker, framework, kind),
        ),
        batch_results(pair, requests, worker, framework, kind).len() == requests.len(),
{
    reveal_with_fuel(BatchModel::run, 5);
}

/// A worker that fails or returns nothing usable changes no result: the batch
/// comes to what it comes to without a worker.
pub proof fn a_useless_worker_changes_no_result(
    pair: translator::PairModel,
    requests: Seq<request::RequestModel>,
    worker: Result<Seq<Seq<char>>, Seq<char>>,
    framework: Seq<Seq<char>>,
    kind: i32,
)
    requires
        worker matches Ok(results) ==> !usable(results),
    ensures
        opening(pair, requests).run(Some(worker), framework, kind) == opening(pair, requests).run(
            None,
            framework,
            kind,
        ),
{
    reveal_with_fuel(BatchModel::run, 5);
}

/// A batch goes through a worker whole: the worker is written the frame of the
/// requests' texts, and from the frames of its answers, one of them at least
/// not empty, comes a result for each request, in the same order.
pub proof fn a_worker_serves_a_batch(
    pair: translator::PairModel,
    requests: Seq<request::RequestModel>,
    answers: Seq<Seq<char>>,
    rest: Seq<u8>,
    fault: Seq<char>,
    framework: Seq<Seq<char>>,
    kind: i32,
)
    requires
        requests.len() > 0,
        answers.len() == requests.len(),
        usable(answers),
        forall|i: int|
            0 <= i < answers.len() ==> encode_utf8(#[trigger] answers[i]).len() <= usize::MAX,
    ensures
        worker_pool::written(worker_pool::opening(translator::source_texts(requests)))
            == wire::batch_frame(translator::source_texts(requests)),
        opening(pair, requests).run(
            Some(
                worker_pool::after_writes(
                    worker_pool::opening(translator::source_texts(requests)),
                ).run(wire::frames(answers) + rest, fault).outcome(),
            ),
            framework,
            kind,
        ).stage == BatchStageModel::Finished(translator::responses_to(pair, requests, answers)),
{
    let texts = translator::source_texts(requests);
    worker_pool::a_batch_is_written_as_its_frame(texts);
    worker_pool::a_written_batch_is_to_be_answered(texts);
    worker_pool::framed_answers_are_read_back(texts, answers, rest, fault);
    a_batch_comes_to_its_results(pair, requests, Some(Ok(answers)), framework, kind);
}

/// A worker whose answers break off is given up, and changes no result; but for
/// one that lacks no more than the line feed before a last answer that is empty.
pub proof fn a_worker_that_breaks_off_is_given_up(
    pair: translator::PairModel,
    requests: Seq<request::RequestModel>,
    answers: Seq<Seq<char>>,
    k: int,
    fault: Seq<char>,
    framework: Seq<Seq<char>>,
    kind: i32,
)
    requires
        requests.len() > 0,
        answers.len() == requests.len(),
        forall|i: int|
            0 <= i < answers.len() ==> encode_utf8(#[trigger] answers[i]).len() <= usize::MAX,
        0 <= k < wire::frames(answers).len(),
        answers.last().len() == 0 ==> k < wire::frames(answers).len() - 1,
    ensures
        ({
            let outcome = worker_pool::after_writes(
                worker_pool::opening(translator::source_texts(requests)),
            ).run(wire::frames(answers).take(k), fault).outcome();
            &&& opening(pair, requests).after_lookup(true).after_worker(outcome).stage is Retire
            &&& opening(pair, requests).run(Some(outcome), framework, kind) == opening(
                pair,
                requests,
            ).run(None, framework, kind)
        }),
{
    let texts = translator::source_texts(requests);
    worker_pool::a_written_batch_is_to_be_answered(texts);
    worker_pool::a_cut_reply_fails_the_exchange(texts, answers, k, fault);
    let outcome = worker_pool::after_writes(worker_pool::opening(texts)).run(
        wire::frames(answers).take(k),
        fault,
    ).outcome();
    a_useless_worker_changes_no_result(pair, requests, outcome, framework, kind);
}

/// A worker is given up exactly where it failed, or left every text without a
/// translation though one of them is not empty.
pub proof fn a_worker_is_given_up_for_cause(
    batch: BatchModel,
    outcome: Result<Seq<Seq<char>>, Seq<char>>,
)
    ensures
        batch.after_worker(outcome).stage is Retire <==> (match outcome {
            Ok(results) => !usable(results) && usable(batch.texts()),
            Err(_) => true,
        }),
{
}

/// What a batch asks the worker and the framework for is the text of each
/// request, in the order of the requests.
pub proof fn a_batch_asks_for_the_text_of_each_request(batch: BatchModel)
    ensures
        batch.texts().len() == batch.requests.len(),
        forall|i: int|
            0 <= i < batch.requests.len() ==> #[trigger] batch.texts()[i]
                == batch.requests[i].source_text,
{
}

/// A batch keeps its pair and its requests whatever happens.
pub proof fn a_batch_keeps_its_requests(
    batch: BatchModel,
    stage: BatchStageModel,
    found: bool,
    outcome: Result<Seq<Seq<char>>, Seq<char>>,
    results: Seq<Seq<char>>,
    kind: i32,
)
    ensures
        batch.at(stage).pair == batch.pair,
        batch.at(stage).requests == batch.requests,
        batch.at(stage).stage == stage,
        batch.after_lookup(found).pair == batch.pair,
        batch.after_lookup(found).requests == batch.requests,
        batch.after_worker(outcome).pair == batch.pair,
        batch.after_worker(outcome).requests == batch.requests,
        batch.after_framework(results, kind).pair == batch.pair,
        batch.after_framework(results, kind).requests == batch.requests,
        opening(batch.pair, batch.requests).pair == batch.pair,
        opening(batch.pair, batch.requests).requests == batch.requests,
{
}

/// A batch that holds a request looks for a worker first, has it translate
/// where there is one, and has the framework translate where there is none; an
/// empty one has ended.
pub proof fn a_batch_asks_a_worker_first(
    pair: translator::PairModel,
    requests: Seq<request::RequestModel>,
)
    ensures
        opening(pair, requests).stage is FindPool <==> requests.len() > 0,
        opening(pair, requests).stage is Finished <==> requests.len() == 0,
        requests.len() == 0 ==> opening(pair, requests).stage->Finished_0.len() == 0,
        opening(pair, requests).after_lookup(true).stage is RunWorker,
        opening(pair, requests).after_lookup(false).stage is CallFramework,
{
}

/// Results are usable exactly where one of them is not empty; so what is
/// usable stays so with more, and a list of empty ones never is.
pub proof fn results_are_usable_with_one_translation(
    results: Seq<Seq<char>>,
    more: Seq<Seq<char>>,
    i: int,
)
    ensures
        0 <= i < results.len() && results[i].len() > 0 ==> usable(results),
        (forall|j: int| 0 <= j < results.len() ==> (#[trigger] results[j]).len() == 0) ==> !usable(
            results,
        ),
        usable(results + more) <==> usable(results) || usable(more),
{
    let all = results + more;
    if usable(results) {
        let j = choose|j: int| 0 <= j < results.len() && (#[trigger] results[j]).len() > 0;
        assert(all[j].len() > 0);
    }
    if usable(more) {
        let j = choose|j: int| 0 <= j < more.len() && (#[trigger] more[j]).len() > 0;
        assert(all[results.len() + j].len() > 0);
    }
    if usable(all) {
        let j = choose|j: int| 0 <= j < all.len() && (#[trigger] all[j]).len() > 0;
        if j < results.len() {
            assert(results[j].len() > 0);
        } else {
            assert(more[j - results.len()].len() > 0);
        }
    }
}

/// The worker's answers are the results exactly where one of them is not empty.
/// Where none is, the worker is given up if a request's text is not empty, and
/// else the framework is asked with the worker kept.
pub proof fn a_worker_answers_or_is_passed_over(
    batch: BatchModel,
    answers: Seq<Seq<char>>,
    fault: Seq<char>,
    i: int,
    j: int,
)
    ensures
        0 <= i < answers.len() && answers[i].len() > 0 ==> batch.after_worker(Ok(answers)).stage
            == BatchStageModel::Finished(
            translator::responses_to(batch.pair, batch.requests, answers),
        ),
        (forall|k: int| 0 <= k < answers.len() ==> (#[trigger] answers[k]).len() == 0) && 0 <= j
            < batch.requests.len() && batch.requests[j].source_text.len() > 0
            ==> batch.after_worker(Ok(answers)).stage == BatchStageModel::Retire(
            "apple-translate-rs-sync: worker returned no usable translations"@
                + ("; disabling worker for "@ + batch.pair.source + "->"@ + batch.pair.target
                + " and falling back"@),
        ),
        (forall|k: int| 0 <= k < answers.len() ==> (#[trigger] answers[k]).len() == 0) && (forall|
            k: int,
        |
            0 <= k < batch.requests.len() ==> (#[trigger] batch.requests[k]).source_text.len() == 0)
            ==> batch.after_worker(Ok(answers)).stage is CallFramework,
        batch.after_worker(Err(fault)).stage == BatchStageModel::Retire(
            "apple-translate-rs-sync: worker failed: "@ + fault + ("; disabling worker for "@
                + batch.pair.source + "->"@ + batch.pair.target + " and falling back"@),
        ),
{
    if 0 <= j < batch.requests.len() && batch.requests[j].source_text.len() > 0 {
        assert(batch.texts()[j].len() > 0);
    }
    if forall|k: int|
        0 <= k < batch.requests.len() ==> (#[trigger] batch.requests[k]).source_text.len() == 0 {
        assert forall|k: int| 0 <= k < batch.texts().len() implies (#[trigger] batch.texts()[k]).len()
            == 0 by {
            assert(batch.requests[k].source_text.len() == 0);
        }
    }
}

/// The framework's answers are the results where there are any; none at all are
/// the same failure for every request, by the kind of error left behind.
pub proof fn the_framework_answers_or_fails_every_request(
    batch: BatchModel,
    answers: Seq<Seq<char>>,
    kind: i32,
    i: int,
)
    requires
        0 <= i < batch.requests.len(),
    ensures
        answers.len() > 0 ==> batch.after_framework(answers, kind).stage
            == BatchStageModel::Finished(
            translator::responses_to(batch.pair, batch.requests, answers),
        ),
        batch.after_framework(answers, kind).stage is Finished,
        batch.after_framework(answers, kind).stage->Finished_0.len() == batch.requests.len(),
        answers.len() == 0 && kind == 4 ==> batch.after_framework(
            answers,
            kind,
        ).stage->Finished_0[i] == Err::<request::ResponseModel, error::ErrorModel>(
            error::ErrorModel::TimedOut { operation: "translate_batch"@, seconds: 60 },
        ),
        answers.len() == 0 && kind != 4 ==> batch.after_framework(
            answers,
            kind,
        ).stage->Finished_0[i] == Err::<request::ResponseModel, error::ErrorModel>(
            error::ErrorModel::TranslationFailed { reason: "batch translation failed"@ },
        ),
{
}

/// Each request of a batch gets its own translation: that of the worker where
/// it returned any translation, and else that of the framework. A translation
/// that is missing or empty is a failure.
pub proof fn each_request_gets_its_own_translation(
    pair: translator::PairModel,
    requests: Seq<request::RequestModel>,
    worker: Option<Result<Seq<Seq<char>>, Seq<char>>>,
    framework: Seq<Seq<char>>,
    kind: i32,
    i: int,
    j: int,
)
    requires
        0 <= i < requests.len(),
    ensures
        ({
            let end = opening(pair, requests).run(worker, framework, kind);
            let asked = worker is Some && worker->0 is Ok;
            let answers = worker->0->Ok_0;
            &&& end.stage is Finished
            &&& end.stage->Finished_0.len() == requests.len()
            &&& end.stage->Finished_0[i] matches Ok(r) ==> {
                &&& r.source_text == requests[i].source_text
                &&& r.client_identifier == requests[i].client_identifier
                &&& r.source_language == pair.source
                &&& r.target_language == pair.target
                &&& r.target_text.len() > 0
            }
            &&& asked && 0 <= j < answers.len() && answers[j].len() > 0 ==> {
                &&& end.stage->Finished_0[i] is Ok <==> i < answers.len() && answers[i].len() > 0
                &&& end.stage->Finished_0[i] is Ok ==> end.stage->Finished_0[i]->Ok_0.target_text
                    == answers[i]
            }
            &&& !asked || (forall|k: int|
                0 <= k < answers.len() ==> (#[trigger] answers[k]).len() == 0) ==> {
                &&& end.stage->Finished_0[i] is Ok <==> i < framework.len() && framework[i].len()
                    > 0
                &&& end.stage->Finished_0[i] is Ok ==> end.stage->Finished_0[i]->Ok_0.target_text
                    == framework[i]
            }
        }),
{
    a_batch_comes_to_its_results(pair, requests, worker, framework, kind);
    if worker is Some && worker->0 is Ok {
        let answers = worker->0->Ok_0;
        translator::every_response_answers_its_request(pair, requests, answers, i);
    }
    translator::every_response_answers_its_request(pair, requests, framework, i);
}

} // verus!
