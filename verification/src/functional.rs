//! The functional checks: each probes one operation end to end and judges
//! what came back.
//!
//! A caller performs the [`ProbeAction`] that [`FunctionalRun::action`] names
//! and hands what came back to the run, which gives its verdicts, until the
//! run stops.
use crate::error;
use crate::error::TranslationError;
use crate::request;
use crate::request::{TranslationRequest, TranslationResponse};
use crate::text;
use crate::translator;
use crate::translator::LanguageTranslator;
use vstd::prelude::*;

verus! {

/// Which program makes the checks. The two word their verdicts differently,
/// and differ in what they ask of a batch.
#[derive(Debug, Clone, Copy, PartialEq, Eq, Structural)]
pub enum Suite {
    Stress,
    Harness,
}

/// The probe that is to be made next.
#[derive(Debug, Clone, Copy, PartialEq, Eq, Structural)]
pub enum Probe {
    DetectEnglish,
    DetectChinese,
    DetectEmpty,
    Availability,
    InvalidPair,
    Create,
    Translate,
    Batch,
    BatchIds,
    BatchEmpty,
    Prepare,
    /// None: every check has been made.
    Ended,
    /// None: without a translator there is nothing to check.
    Aborted,
}

impl Probe {
    /// How many probes come before this one.
    pub open spec fn rank(self) -> nat {
        match self {
            Probe::DetectEnglish => 0,
            Probe::DetectChinese => 1,
            Probe::DetectEmpty => 2,
            Probe::Availability => 3,
            Probe::InvalidPair => 4,
            Probe::Create => 5,
            Probe::Translate => 6,
            Probe::Batch => 7,
            Probe::BatchIds => 8,
            Probe::BatchEmpty => 9,
            Probe::Prepare => 10,
            Probe::Ended => 11,
            Probe::Aborted => 11,
        }
    }
}

/// Why a check failed.
#[derive(Debug, PartialEq, Eq)]
pub enum Failure {
    /// For the reason given.
    Reason(&'static str),
    /// Another language was detected than the one expected.
    Language { wanted: &'static str, detected: Option<String> },
    /// There was an error.
    Error(TranslationError),
    /// The response is not the one expected.
    Response(TranslationResponse),
    /// A field of the response does not hold what was expected.
    Field { name: &'static str, held: String },
    /// There were more or fewer results than expected.
    Count { expected: usize, got: usize },
}

/// What [`Failure`] stands for.
pub enum FailureModel {
    Reason(Seq<char>),
    Language { wanted: Seq<char>, detected: Option<Seq<char>> },
    Error(error::ErrorModel),
    Response(request::ResponseModel),
    Field { name: Seq<char>, held: Seq<char> },
    Count { expected: nat, got: nat },
}

impl View for Failure {
    type V = FailureModel;

    open spec fn view(&self) -> FailureModel {
        match self {
            Failure::Reason(reason) => FailureModel::Reason(reason@),
            Failure::Language { wanted, detected } => FailureModel::Language {
                wanted: wanted@,
                detected: text::text_of(*detected),
            },
            Failure::Error(e) => FailureModel::Error(e@),
            Failure::Response(response) => FailureModel::Response(response@),
            Failure::Field { name, held } => FailureModel::Field { name: name@, held: held@ },
            Failure::Count { expected, got } => FailureModel::Count {
                expected: *expected as nat,
                got: *got as nat,
            },
        }
    }
}

/// The verdict on one check: what was checked, and why it failed if it did.
#[derive(Debug, PartialEq, Eq)]
pub struct Verdict {
    pub desc: &'static str,
    pub failure: Option<Failure>,
}

/// What [`Verdict`] stands for.
pub struct VerdictModel {
    pub desc: Seq<char>,
    pub failure: Option<FailureModel>,
}

impl View for Verdict {
    type V = VerdictModel;

    open spec fn view(&self) -> VerdictModel {
        VerdictModel {
            desc: self.desc@,
            failure: match self.failure {
                Some(failure) => Some(failure@),
                None => None,
            },
        }
    }
}

/// What some verdicts stand for.
pub open spec fn verdicts_model(verdicts: Seq<Verdict>) -> Seq<VerdictModel> {
    Seq::new(verdicts.len(), |i: int| verdicts[i]@)
}

/// The verdict that a check passed.
pub open spec fn pass(desc: Seq<char>) -> VerdictModel {
    VerdictModel { desc, failure: None }
}

/// The verdict that a check failed.
pub open spec fn fail(desc: Seq<char>, failure: FailureModel) -> VerdictModel {
    VerdictModel { desc, failure: Some(failure) }
}

/// The verdict that a check passed, or else failed.
pub open spec fn pass_if(passed: bool, desc: Seq<char>, failure: FailureModel) -> VerdictModel {
    if passed {
        pass(desc)
    } else {
        fail(desc, failure)
    }
}

/// How many of some checks passed.
pub open spec fn passes(verdicts: Seq<VerdictModel>) -> nat
    decreases verdicts.len(),
{
    if verdicts.len() == 0 {
        0
    } else {
        passes(verdicts.drop_last()) + if verdicts.last().failure is None {
            1nat
        } else {
            0nat
        }
    }
}

/// How many of some checks failed.
pub open spec fn fails(verdicts: Seq<VerdictModel>) -> nat
    decreases verdicts.len(),
{
    if verdicts.len() == 0 {
        0
    } else {
        fails(verdicts.drop_last()) + if verdicts.last().failure is Some {
            1nat
        } else {
            0nat
        }
    }
}

/// Every check passed or failed.
pub proof fn every_check_is_counted(verdicts: Seq<VerdictModel>)
    ensures
        passes(verdicts) + fails(verdicts) == verdicts.len(),
        fails(verdicts) == 0 <==> forall|i: int|
            0 <= i < verdicts.len() ==> (#[trigger] verdicts[i]).failure is None,
    decreases verdicts.len(),
{
    if verdicts.len() > 0 {
        let before = verdicts.drop_last();
        every_check_is_counted(before);
        assert(forall|i: int| 0 <= i < before.len() ==> before[i] == verdicts[i]);
        if fails(verdicts) == 0 {
            assert forall|i: int| 0 <= i < verdicts.len() implies (#[trigger] verdicts[i]).failure is None by {
                if i < before.len() {
                    assert(before[i].failure is None);
                }
            }
        }
        if forall|i: int| 0 <= i < verdicts.len() ==> (#[trigger] verdicts[i]).failure is None {
            assert(verdicts[verdicts.len() - 1].failure is None);
            assert forall|i: int| 0 <= i < before.len() implies (#[trigger] before[i]).failure is None by {
                assert(verdicts[i].failure is None);
            }
        }
    }
}

/// A run: who makes it, the next probe, and how many checks passed and failed.
pub struct RunModel {
    pub suite: Suite,
    pub probe: Probe,
    pub passed: nat,
    pub failed: nat,
}

impl RunModel {
    /// No probe gives more than eight verdicts.
    pub open spec fn wf(self) -> bool {
        self.passed + self.failed <= 8 * self.probe.rank()
    }

    /// The run once some verdicts have been given and `next` is to be probed.
    pub open spec fn after(self, verdicts: Seq<VerdictModel>, next: Probe) -> RunModel {
        RunModel {
            suite: self.suite,
            probe: next,
            passed: self.passed + passes(verdicts),
            failed: self.failed + fails(verdicts),
        }
    }
}

/// The language pair that the checks use.
pub open spec fn pair() -> translator::PairModel {
    translator::PairModel { source: "zh-Hans"@, target: "en"@ }
}

/// The texts of the batch that is checked.
pub open spec fn batch_texts() -> Seq<Seq<char>> {
    seq!["你好"@, "世界"@, "谢谢"@]
}

/// The requests of the batch that is checked.
pub open spec fn batch_requests() -> Seq<request::RequestModel> {
    Seq::new(3, |i: int| request::plain_request(batch_texts()[i]))
}

/// The requests of the batch whose identifiers are checked.
pub open spec fn id_requests() -> Seq<request::RequestModel> {
    seq![
        request::RequestModel { source_text: "你好"@, client_identifier: Some("a"@) },
        request::RequestModel { source_text: "世界"@, client_identifier: Some("b"@) },
    ]
}

/// The verdict on a detected language.
pub open spec fn language_verdict(probe: Probe, got: Option<Seq<char>>) -> VerdictModel {
    match probe {
        Probe::DetectEnglish => pass_if(
            got == Some("en"@),
            "detect English"@,
            FailureModel::Language { wanted: "Some(\"en\")"@, detected: got },
        ),
        Probe::DetectChinese => pass_if(
            got is Some && "zh"@.is_prefix_of(got->0),
            "detect Chinese"@,
            FailureModel::Language { wanted: "zh-*"@, detected: got },
        ),
        _ => pass_if(got is None, "detect empty"@, FailureModel::Reason("expected None"@)),
    }
}

/// The verdict on whether a language pair is available.
pub open spec fn availability_verdict(
    suite: Suite,
    probe: Probe,
    outcome: Result<(), error::ErrorModel>,
) -> VerdictModel {
    match probe {
        Probe::Availability => {
            let desc = match suite {
                Suite::Stress => "availability"@,
                Suite::Harness => "availability sync"@,
            };
            match outcome {
                Ok(()) => pass(desc),
                Err(e) => fail(desc, FailureModel::Error(e)),
            }
        },
        _ => pass_if(
            outcome is Err,
            "invalid pair errors"@,
            FailureModel::Reason(
                match suite {
                    Suite::Stress => "expected error for en -> zz"@,
                    Suite::Harness => "expected error for en→zz"@,
                },
            ),
        ),
    }
}

/// The verdicts on a translator.
pub open spec fn translator_verdicts(suite: Suite, made: translator::PairModel) -> Seq<
    VerdictModel,
> {
    seq![
        if made == pair() {
            pass("source/target accessors"@)
        } else {
            match suite {
                Suite::Stress => fail(
                    "source/target accessors"@,
                    FailureModel::Reason("unexpected language pair"@),
                ),
                Suite::Harness => fail(
                    "accessors"@,
                    FailureModel::Reason("expected zh-Hans/en"@),
                ),
            }
        },
        pass("clone"@),
    ]
}

/// The verdicts on whether there is a translator, and on it.
pub open spec fn creation_verdicts(
    suite: Suite,
    made: Result<translator::PairModel, error::ErrorModel>,
) -> Seq<VerdictModel> {
    match made {
        Ok(made) => translator_verdicts(suite, made),
        Err(e) => match suite {
            Suite::Stress => seq![fail("translator"@, FailureModel::Error(e))],
            Suite::Harness => Seq::empty(),
        },
    }
}

/// The probe that follows the one for a translator.
pub open spec fn after_creation(suite: Suite, made: bool) -> Probe {
    if made {
        Probe::Translate
    } else {
        match suite {
            Suite::Stress => Probe::Ended,
            Suite::Harness => Probe::Aborted,
        }
    }
}

/// The verdict on a single translation.
pub open spec fn single_verdict(
    suite: Suite,
    result: Result<request::ResponseModel, error::ErrorModel>,
) -> VerdictModel {
    let desc = "translate single"@;
    match result {
        Err(e) => fail(desc, FailureModel::Error(e)),
        Ok(r) => match suite {
            Suite::Stress => pass_if(
                r.target_text.len() > 0 && r.source_text == "你好"@ && r.source_language
                    == pair().source && r.target_language == pair().target,
                desc,
                FailureModel::Response(r),
            ),
            Suite::Harness => if r.target_text.len() == 0 {
                fail(desc, FailureModel::Reason("empty target_text"@))
            } else if r.source_text != "你好"@ {
                fail(desc, FailureModel::Field { name: "source_text"@, held: r.source_text })
            } else if r.source_language != pair().source {
                fail(desc, FailureModel::Field { name: "source_language"@, held: r.source_language })
            } else if r.target_language != pair().target {
                fail(desc, FailureModel::Field { name: "target_language"@, held: r.target_language })
            } else {
                pass(desc)
            },
        },
    }
}

/// Whether a result of a batch is as it should be.
pub open spec fn item_is_right(
    suite: Suite,
    req: request::RequestModel,
    result: Result<request::ResponseModel, error::ErrorModel>,
) -> bool {
    match result {
        Ok(r) => r.source_text == req.source_text && (suite == Suite::Harness
            || r.target_text.len() > 0),
        Err(_) => false,
    }
}

/// The verdicts on a result of a batch that is not as it should be.
pub open spec fn item_verdicts(
    suite: Suite,
    req: request::RequestModel,
    result: Result<request::ResponseModel, error::ErrorModel>,
) -> Seq<VerdictModel> {
    if item_is_right(suite, req, result) {
        Seq::empty()
    } else {
        match suite {
            Suite::Stress => match result {
                Ok(r) => seq![fail("batch item"@, FailureModel::Response(r))],
                Err(e) => seq![fail("batch item"@, FailureModel::Error(e))],
            },
            Suite::Harness => match result {
                Ok(_) => Seq::empty(),
                Err(e) => seq![fail("batch sync item"@, FailureModel::Error(e))],
            },
        }
    }
}

/// The verdicts on the results of a batch.
pub open spec fn batch_verdicts(
    suite: Suite,
    results: Seq<Result<request::ResponseModel, error::ErrorModel>>,
) -> Seq<VerdictModel> {
    let requests = batch_requests();
    if results.len() != 3 {
        seq![
            fail(
                match suite {
                    Suite::Stress => "batch length"@,
                    Suite::Harness => "batch sync"@,
                },
                FailureModel::Count { expected: 3, got: results.len() },
            ),
        ]
    } else {
        item_verdicts(suite, requests[0], results[0]) + item_verdicts(
            suite,
            requests[1],
            results[1],
        ) + item_verdicts(suite, requests[2], results[2]) + if item_is_right(
            suite,
            requests[0],
            results[0],
        ) && item_is_right(suite, requests[1], results[1]) && item_is_right(
            suite,
            requests[2],
            results[2],
        ) {
            seq![
                pass(
                    match suite {
                        Suite::Stress => "batch"@,
                        Suite::Harness => "batch sync"@,
                    },
                ),
            ]
        } else {
            Seq::empty()
        }
    }
}

/// Whether a result, where there is one, echoes the identifier of its request.
pub open spec fn id_is_right(
    results: Seq<Result<request::ResponseModel, error::ErrorModel>>,
    i: int,
) -> bool {
    i < results.len() ==> match results[i] {
        Ok(r) => r.client_identifier == id_requests()[i].client_identifier,
        Err(_) => false,
    }
}

/// The verdicts on a result that is an error where an identifier was to be
/// echoed.
pub open spec fn id_verdicts(
    suite: Suite,
    results: Seq<Result<request::ResponseModel, error::ErrorModel>>,
    i: int,
) -> Seq<VerdictModel> {
    if suite == Suite::Harness && i < results.len() && results[i] is Err {
        seq![fail("batch client ID"@, FailureModel::Error(results[i]->Err_0))]
    } else {
        Seq::empty()
    }
}

/// The verdicts on the identifiers of a batch.
pub open spec fn ids_verdicts(
    suite: Suite,
    results: Seq<Result<request::ResponseModel, error::ErrorModel>>,
) -> Seq<VerdictModel> {
    (id_verdicts(suite, results, 0) + id_verdicts(suite, results, 1)).push(
        if id_is_right(results, 0) && id_is_right(results, 1) {
            pass(
                match suite {
                    Suite::Stress => "batch client IDs"@,
                    Suite::Harness => "batch with client IDs"@,
                },
            )
        } else {
            fail("batch client IDs"@, FailureModel::Reason("mismatch"@))
        },
    )
}

/// The verdicts on the last probe and on the ways to make a request.
pub open spec fn last_verdicts(suite: Suite, outcome: Result<(), error::ErrorModel>) -> Seq<
    VerdictModel,
> {
    let desc = match suite {
        Suite::Stress => "prepare"@,
        Suite::Harness => "prepare sync"@,
    };
    seq![
        match outcome {
            Ok(()) => pass(desc),
            Err(e) => fail(desc, FailureModel::Error(e)),
        },
        pass("From<&str>"@),
        pass("From<String>"@),
        pass("with_client_id"@),
    ]
}

/// What is to be done for the next probe.
#[derive(Debug, PartialEq, Eq)]
pub enum ProbeAction {
    /// Detect the language of a text.
    Detect(&'static str),
    /// Check whether a language pair is available.
    Check { source: &'static str, target: &'static str },
    /// Create a translator for a language pair.
    Create { source: &'static str, target: &'static str },
    /// Translate a text.
    Translate(&'static str),
    /// Translate a batch.
    Batch(Vec<TranslationRequest>),
    /// Load what the language pair needs.
    Prepare,
    /// Nothing: the run has stopped.
    Stop,
}

/// What [`ProbeAction`] stands for.
pub enum ActionModel {
    Detect(Seq<char>),
    Check { source: Seq<char>, target: Seq<char> },
    Create { source: Seq<char>, target: Seq<char> },
    Translate(Seq<char>),
    Batch(Seq<request::RequestModel>),
    Prepare,
    Stop,
}

impl View for ProbeAction {
    type V = ActionModel;

    open spec fn view(&self) -> ActionModel {
        match self {
            ProbeAction::Detect(text) => ActionModel::Detect(text@),
            ProbeAction::Check { source, target } => ActionModel::Check {
                source: source@,
                target: target@,
            },
            ProbeAction::Create { source, target } => ActionModel::Create {
                source: source@,
                target: target@,
            },
            ProbeAction::Translate(text) => ActionModel::Translate(text@),
            ProbeAction::Batch(requests) => ActionModel::Batch(
                translator::requests_model(requests@),
            ),
            ProbeAction::Prepare => ActionModel::Prepare,
            ProbeAction::Stop => ActionModel::Stop,
        }
    }
}

/// What a probe does.
pub open spec fn probing(probe: Probe) -> ActionModel {
    match probe {
        Probe::DetectEnglish => ActionModel::Detect("Hello, world!"@),
        Probe::DetectChinese => ActionModel::Detect("你好世界"@),
        Probe::DetectEmpty => ActionModel::Detect(""@),
        Probe::Availability => ActionModel::Check { source: "zh-Hans"@, target: "en"@ },
        Probe::InvalidPair => ActionModel::Check { source: "en"@, target: "zz"@ },
        Probe::Create => ActionModel::Create { source: "zh-Hans"@, target: "en"@ },
        Probe::Translate => ActionModel::Translate("你好"@),
        Probe::Batch => ActionModel::Batch(batch_requests()),
        Probe::BatchIds => ActionModel::Batch(id_requests()),
        Probe::BatchEmpty => ActionModel::Batch(Seq::empty()),
        Probe::Prepare => ActionModel::Prepare,
        Probe::Ended => ActionModel::Stop,
        Probe::Aborted => ActionModel::Stop,
    }
}

/// A run of the functional checks.
pub struct FunctionalRun {
    suite: Suite,
    probe: Probe,
    passed: usize,
    failed: usize,
}

impl View for FunctionalRun {
    type V = RunModel;

    closed spec fn view(&self) -> RunModel {
        RunModel {
            suite: self.suite,
            probe: self.probe,
            passed: self.passed as nat,
            failed: self.failed as nat,
        }
    }
}

/// The verdict that a check passed.
fn passing(desc: &'static str) -> (verdict: Verdict)
    ensures
        verdict@ == pass(desc@),
{
    Verdict { desc, failure: None }
}

/// The verdict that a check failed.
fn failing(desc: &'static str, failure: Failure) -> (verdict: Verdict)
    ensures
        verdict@ == fail(desc@, failure@),
{
    Verdict { desc, failure: Some(failure) }
}

/// The requests of the batch that is checked.
fn make_batch_requests() -> (requests: Vec<TranslationRequest>)
    ensures
        translator::requests_model(requests@) == batch_requests(),
{
    let mut requests: Vec<TranslationRequest> = Vec::new();
    requests.push(TranslationRequest::new("你好"));
    requests.push(TranslationRequest::new("世界"));
    requests.push(TranslationRequest::new("谢谢"));
    assert(translator::requests_model(requests@) =~= batch_requests());
    requests
}

/// The requests of the batch whose identifiers are checked.
fn make_id_requests() -> (requests: Vec<TranslationRequest>)
    ensures
        translator::requests_model(requests@) == id_requests(),
{
    let mut requests: Vec<TranslationRequest> = Vec::new();
    requests.push(TranslationRequest::with_client_id("你好", "a"));
    requests.push(TranslationRequest::with_client_id("世界", "b"));
    assert(translator::requests_model(requests@) =~= id_requests());
    requests
}

/// Whether two optional texts are the same.
fn same_id(a: &Option<String>, b: &Option<String>) -> (same: bool)
    ensures
        same == (text::text_of(*a) == text::text_of(*b)),
{
    match (a, b) {
        (Some(a), Some(b)) => text::same_text(a.as_str(), b.as_str()),
        (None, None) => true,
        _ => false,
    }
}

/// Judges one result of a batch: whether it is as it should be, and the
/// verdicts on it if it is not.
fn judge_item(
    suite: Suite,
    req: &TranslationRequest,
    result: &Result<TranslationResponse, TranslationError>,
    verdicts: &mut Vec<Verdict>,
) -> (right: bool)
    ensures
        right == item_is_right(suite, req@, translator::result_model(*result)),
        verdicts_model(final(verdicts)@) == verdicts_model(old(verdicts)@) + item_verdicts(
            suite,
            req@,
            translator::result_model(*result),
        ),
{
    match result {
        Ok(r) => {
            let echoed = text::same_text(r.source_text.as_str(), req.source_text.as_str());
            match suite {
                Suite::Stress => {
                    if echoed && !r.target_text.as_str().is_empty() {
                        assert(verdicts_model(verdicts@) =~= verdicts_model(old(verdicts)@)
                            + Seq::empty());
                        true
                    } else {
                        verdicts.push(failing("batch item", Failure::Response(r.clone())));
                        assert(verdicts_model(verdicts@) =~= verdicts_model(old(verdicts)@)
                            + seq![fail("batch item"@, FailureModel::Response(r@))]);
                        false
                    }
                },
                Suite::Harness => {
                    assert(verdicts_model(verdicts@) =~= verdicts_model(old(verdicts)@)
                        + Seq::empty());
                    echoed
                },
            }
        },
        Err(e) => {
            let desc = match suite {
                Suite::Stress => "batch item",
                Suite::Harness => "batch sync item",
            };
            verdicts.push(failing(desc, Failure::Error(e.clone())));
            assert(verdicts_model(verdicts@) =~= verdicts_model(old(verdicts)@) + seq![
                fail(desc@, FailureModel::Error(e@)),
            ]);
            false
        },
    }
}

/// Judges whether a result, where there is one, echoes the identifier of its
/// request, and gives the verdicts on it if it is an error.
fn judge_id(
    suite: Suite,
    req: &TranslationRequest,
    result: &Result<TranslationResponse, TranslationError>,
    verdicts: &mut Vec<Verdict>,
) -> (right: bool)
    ensures
        right == (match translator::result_model(*result) {
            Ok(r) => r.client_identifier == req@.client_identifier,
            Err(_) => false,
        }),
        verdicts_model(final(verdicts)@) == verdicts_model(old(verdicts)@) + (if suite
            == Suite::Harness && result is Err {
            seq![fail("batch client ID"@, FailureModel::Error(result->Err_0@))]
        } else {
            Seq::empty()
        }),
{
    match result {
        Ok(r) => {
            assert(verdicts_model(verdicts@) =~= verdicts_model(old(verdicts)@) + Seq::empty());
            same_id(&r.client_identifier, &req.client_identifier)
        },
        Err(e) => {
            match suite {
                Suite::Stress => {
                    assert(verdicts_model(verdicts@) =~= verdicts_model(old(verdicts)@)
                        + Seq::empty());
                },
                Suite::Harness => {
                    verdicts.push(failing("batch client ID", Failure::Error(e.clone())));
                    assert(verdicts_model(verdicts@) =~= verdicts_model(old(verdicts)@) + seq![
                        fail("batch client ID"@, FailureModel::Error(e@)),
                    ]);
                },
            }
            false
        },
    }
}

impl FunctionalRun {
    /// A run of which nothing has been probed.
    pub fn new(suite: Suite) -> (run: FunctionalRun)
        ensures
            run@ == (RunModel { suite, probe: Probe::DetectEnglish, passed: 0, failed: 0 }),
            run@.wf(),
    {
        FunctionalRun { suite, probe: Probe::DetectEnglish, passed: 0, failed: 0 }
    }

    /// What is to be done next.
    pub fn action(&self) -> (action: ProbeAction)
        ensures
            action@ == probing(self@.probe),
    {
        match self.probe {
            Probe::DetectEnglish => ProbeAction::Detect("Hello, world!"),
            Probe::DetectChinese => ProbeAction::Detect("你好世界"),
            Probe::DetectEmpty => ProbeAction::Detect(""),
            Probe::Availability => ProbeAction::Check { source: "zh-Hans", target: "en" },
            Probe::InvalidPair => ProbeAction::Check { source: "en", target: "zz" },
            Probe::Create => ProbeAction::Create { source: "zh-Hans", target: "en" },
            Probe::Translate => ProbeAction::Translate("你好"),
            Probe::Batch => ProbeAction::Batch(make_batch_requests()),
            Probe::BatchIds => ProbeAction::Batch(make_id_requests()),
            Probe::BatchEmpty => {
                let requests: Vec<TranslationRequest> = Vec::new();
                assert(translator::requests_model(requests@) =~= Seq::empty());
                ProbeAction::Batch(requests)
            },
            Probe::Prepare => ProbeAction::Prepare,
            Probe::Ended => ProbeAction::Stop,
            Probe::Aborted => ProbeAction::Stop,
        }
    }

    /// Counts some verdicts and goes on to the next probe.
    fn count(&mut self, verdicts: &Vec<Verdict>, next: Probe)
        requires
            old(self)@.wf(),
            verdicts@.len() <= 8,
            old(self)@.probe.rank() < next.rank(),
        ensures
            final(self)@.wf(),
            final(self)@ == old(self)@.after(verdicts_model(verdicts@), next),
    {
        let ghost all = verdicts_model(verdicts@);
        let mut i: usize = 0;
        assert(all.take(0) =~= Seq::empty());
        while i < verdicts.len()
            invariant
                i <= verdicts@.len() <= 8,
                all == verdicts_model(verdicts@),
                old(self)@.wf(),
                old(self)@.probe.rank() <= 11,
                self.suite == old(self).suite,
                self.passed == old(self).passed + passes(all.take(i as int)),
                self.failed == old(self).failed + fails(all.take(i as int)),
                passes(all.take(i as int)) + fails(all.take(i as int)) == i,
            decreases verdicts.len() - i,
        {
            assert(all.take(i + 1).drop_last() =~= all.take(i as int));
            assert(all.take(i + 1).last() == verdicts@[i as int]@);
            match &verdicts[i].failure {
                None => {
                    self.passed += 1;
                },
                Some(_) => {
                    self.failed += 1;
                },
            }
            i += 1;
        }
        assert(all.take(all.len() as int) =~= all);
        self.probe = next;
    }

    /// Takes the language that was detected.
    pub fn detected(&mut self, language: Option<String>) -> (verdicts: Vec<Verdict>)
        requires
            old(self)@.wf(),
            old(self)@.probe.rank() <= 2,
        ensures
            verdicts_model(verdicts@) == seq![
                language_verdict(old(self)@.probe, text::text_of(language)),
            ],
            final(self)@.wf(),
            final(self)@ == old(self)@.after(
                verdicts_model(verdicts@),
                match old(self)@.probe {
                    Probe::DetectEnglish => Probe::DetectChinese,
                    Probe::DetectChinese => Probe::DetectEmpty,
                    _ => Probe::Availability,
                },
            ),
    {
        let (verdict, next) = match self.probe {
            Probe::DetectEnglish => {
                let right = match &language {
                    Some(l) => text::same_text(l.as_str(), "en"),
                    None => false,
                };
                if right {
                    (passing("detect English"), Probe::DetectChinese)
                } else {
                    (
                        failing(
                            "detect English",
                            Failure::Language { wanted: "Some(\"en\")", detected: language },
                        ),
                        Probe::DetectChinese,
                    )
                }
            },
            Probe::DetectChinese => {
                let right = match &language {
                    Some(l) => text::starts_with(l.as_str(), "zh"),
                    None => false,
                };
                if right {
                    (passing("detect Chinese"), Probe::DetectEmpty)
                } else {
                    (
                        failing(
                            "detect Chinese",
                            Failure::Language { wanted: "zh-*", detected: language },
                        ),
                        Probe::DetectEmpty,
                    )
                }
            },
            _ => if language.is_none() {
                (passing("detect empty"), Probe::Availability)
            } else {
                (failing("detect empty", Failure::Reason("expected None")), Probe::Availability)
            },
        };
        let mut verdicts: Vec<Verdict> = Vec::new();
        verdicts.push(verdict);
        assert(verdicts_model(verdicts@) =~= seq![
            language_verdict(old(self)@.probe, text::text_of(language)),
        ]);
        self.count(&verdicts, next);
        verdicts
    }

    /// Takes whether the language pair is available.
    pub fn checked(&mut self, outcome: Result<(), TranslationError>) -> (verdicts: Vec<Verdict>)
        requires
            old(self)@.wf(),
            old(self)@.probe == Probe::Availability || old(self)@.probe == Probe::InvalidPair,
        ensures
            verdicts_model(verdicts@) == seq![
                availability_verdict(
                    old(self)@.suite,
                    old(self)@.probe,
                    translator::outcome_model(outcome),
                ),
            ],
            final(self)@.wf(),
            final(self)@ == old(self)@.after(
                verdicts_model(verdicts@),
                match old(self)@.probe {
                    Probe::Availability => Probe::InvalidPair,
                    _ => Probe::Create,
                },
            ),
    {
        let (verdict, next) = match self.probe {
            Probe::Availability => {
                let desc = match self.suite {
                    Suite::Stress => "availability",
                    Suite::Harness => "availability sync",
                };
                match outcome {
                    Ok(()) => (passing(desc), Probe::InvalidPair),
                    Err(e) => (failing(desc, Failure::Error(e)), Probe::InvalidPair),
                }
            },
            _ => {
                let reason = match self.suite {
                    Suite::Stress => "expected error for en -> zz",
                    Suite::Harness => "expected error for en→zz",
                };
                if outcome.is_err() {
                    (passing("invalid pair errors"), Probe::Create)
                } else {
                    (failing("invalid pair errors", Failure::Reason(reason)), Probe::Create)
                }
            },
        };
        let mut verdicts: Vec<Verdict> = Vec::new();
        verdicts.push(verdict);
        assert(verdicts_model(verdicts@) =~= seq![
            availability_verdict(
                old(self)@.suite,
                old(self)@.probe,
                translator::outcome_model(outcome),
            ),
        ]);
        self.count(&verdicts, next);
        verdicts
    }

    /// Takes the translator that was created, or the error of why none was.
    pub fn created(&mut self, made: &Result<LanguageTranslator, TranslationError>) -> (verdicts:
        Vec<Verdict>)
        requires
            old(self)@.wf(),
            old(self)@.probe == Probe::Create,
        ensures
            verdicts_model(verdicts@) == creation_verdicts(old(self)@.suite, made_model(*made)),
            final(self)@.wf(),
            final(self)@ == old(self)@.after(
                verdicts_model(verdicts@),
                after_creation(old(self)@.suite, made is Ok),
            ),
    {
        let mut verdicts: Vec<Verdict> = Vec::new();
        let next = match made {
            Ok(t) => {
                let right = text::same_text(t.source(), "zh-Hans") && text::same_text(
                    t.target(),
                    "en",
                );
                if right {
                    verdicts.push(passing("source/target accessors"));
                } else {
                    match self.suite {
                        Suite::Stress => verdicts.push(
                            failing(
                                "source/target accessors",
                                Failure::Reason("unexpected language pair"),
                            ),
                        ),
                        Suite::Harness => verdicts.push(
                            failing("accessors", Failure::Reason("expected zh-Hans/en")),
                        ),
                    }
                }
                let copy = t.clone();
                if text::same_text(copy.source(), t.source()) && text::same_text(
                    copy.target(),
                    t.target(),
                ) {
                    verdicts.push(passing("clone"));
                } else {
                    verdicts.push(failing("clone", Failure::Reason("mismatch")));
                }
                Probe::Translate
            },
            Err(e) => match self.suite {
                Suite::Stress => {
                    verdicts.push(failing("translator", Failure::Error(e.clone())));
                    Probe::Ended
                },
                Suite::Harness => Probe::Aborted,
            },
        };
        assert(verdicts_model(verdicts@) =~= creation_verdicts(old(self)@.suite, made_model(*made)));
        self.count(&verdicts, next);
        verdicts
    }

    /// Takes the result of the single translation.
    pub fn translated(&mut self, result: Result<TranslationResponse, TranslationError>) -> (verdicts:
        Vec<Verdict>)
        requires
            old(self)@.wf(),
            old(self)@.probe == Probe::Translate,
        ensures
            verdicts_model(verdicts@) == seq![
                single_verdict(old(self)@.suite, translator::result_model(result)),
            ],
            final(self)@.wf(),
            final(self)@ == old(self)@.after(verdicts_model(verdicts@), Probe::Batch),
    {
        let desc = "translate single";
        let verdict = match result {
            Err(e) => failing(desc, Failure::Error(e)),
            Ok(r) => {
                let no_target = r.target_text.as_str().is_empty();
                let text_echoed = text::same_text(r.source_text.as_str(), "你好");
                let source_right = text::same_text(r.source_language.as_str(), "zh-Hans");
                let target_right = text::same_text(r.target_language.as_str(), "en");
                match self.suite {
                    Suite::Stress => if !no_target && text_echoed && source_right
                        && target_right {
                        passing(desc)
                    } else {
                        failing(desc, Failure::Response(r))
                    },
                    Suite::Harness => if no_target {
                        failing(desc, Failure::Reason("empty target_text"))
                    } else if !text_echoed {
                        failing(desc, Failure::Field { name: "source_text", held: r.source_text })
                    } else if !source_right {
                        failing(
                            desc,
                            Failure::Field { name: "source_language", held: r.source_language },
                        )
                    } else if !target_right {
                        failing(
                            desc,
                            Failure::Field { name: "target_language", held: r.target_language },
                        )
                    } else {
                        passing(desc)
                    },
                }
            },
        };
        let mut verdicts: Vec<Verdict> = Vec::new();
        verdicts.push(verdict);
        assert(verdicts_model(verdicts@) =~= seq![
            single_verdict(old(self)@.suite, translator::result_model(result)),
        ]);
        self.count(&verdicts, Probe::Batch);
        verdicts
    }

    /// Takes the results of the batch that is checked.
    pub fn batch_answered(&mut self, results: &[Result<TranslationResponse, TranslationError>]) -> (verdicts:
        Vec<Verdict>)
        requires
            old(self)@.wf(),
            old(self)@.probe == Probe::Batch,
        ensures
            verdicts_model(verdicts@) == batch_verdicts(
                old(self)@.suite,
                translator::results_model(results@),
            ),
            final(self)@.wf(),
            final(self)@ == old(self)@.after(verdicts_model(verdicts@), Probe::BatchIds),
    {
        let ghost all = translator::results_model(results@);
        let mut verdicts: Vec<Verdict> = Vec::new();
        let requests = make_batch_requests();
        let expected: usize = requests.len();
        assert(translator::requests_model(requests@).len() == 3);
        if results.len() != expected {
            let desc = match self.suite {
                Suite::Stress => "batch length",
                Suite::Harness => "batch sync",
            };
            verdicts.push(failing(desc, Failure::Count { expected, got: results.len() }));
        } else {
            assert(requests@[0]@ == batch_requests()[0]) by {
                assert(translator::requests_model(requests@)[0] == requests@[0]@);
            }
            assert(requests@[1]@ == batch_requests()[1]) by {
                assert(translator::requests_model(requests@)[1] == requests@[1]@);
            }
            assert(requests@[2]@ == batch_requests()[2]) by {
                assert(translator::requests_model(requests@)[2] == requests@[2]@);
            }
            assert(verdicts_model(verdicts@) =~= Seq::empty());
            let first = judge_item(self.suite, &requests[0], &results[0], &mut verdicts);
            let second = judge_item(self.suite, &requests[1], &results[1], &mut verdicts);
            let third = judge_item(self.suite, &requests[2], &results[2], &mut verdicts);
            if first && second && third {
                let desc = match self.suite {
                    Suite::Stress => "batch",
                    Suite::Harness => "batch sync",
                };
                verdicts.push(passing(desc));
            }
        }
        assert(verdicts_model(verdicts@) =~= batch_verdicts(old(self)@.suite, all));
        assert(verdicts@.len() == verdicts_model(verdicts@).len());
        self.count(&verdicts, Probe::BatchIds);
        verdicts
    }

    /// Takes the results of the batch whose identifiers are checked.
    pub fn ids_answered(&mut self, results: &[Result<TranslationResponse, TranslationError>]) -> (verdicts:
        Vec<Verdict>)
        requires
            old(self)@.wf(),
            old(self)@.probe == Probe::BatchIds,
        ensures
            verdicts_model(verdicts@) == ids_verdicts(
                old(self)@.suite,
                translator::results_model(results@),
            ),
            final(self)@.wf(),
            final(self)@ == old(self)@.after(verdicts_model(verdicts@), Probe::BatchEmpty),
    {
        let ghost all = translator::results_model(results@);
        let mut verdicts: Vec<Verdict> = Vec::new();
        let requests = make_id_requests();
        assert(translator::requests_model(requests@).len() == 2);
        assert(requests@[0]@ == id_requests()[0]) by {
            assert(translator::requests_model(requests@)[0] == requests@[0]@);
        }
        assert(requests@[1]@ == id_requests()[1]) by {
            assert(translator::requests_model(requests@)[1] == requests@[1]@);
        }
        assert(verdicts_model(verdicts@) =~= Seq::empty());
        let mut ids_ok = true;
        if results.len() > 0 {
            let right = judge_id(self.suite, &requests[0], &results[0], &mut verdicts);
            ids_ok = right;
        }
        assert(verdicts_model(verdicts@) =~= id_verdicts(old(self)@.suite, all, 0));
        if results.len() > 1 {
            let right = judge_id(self.suite, &requests[1], &results[1], &mut verdicts);
            ids_ok = ids_ok && right;
        }
        assert(verdicts_model(verdicts@) =~= id_verdicts(old(self)@.suite, all, 0) + id_verdicts(
            old(self)@.suite,
            all,
            1,
        ));
        if ids_ok {
            let desc = match self.suite {
                Suite::Stress => "batch client IDs",
                Suite::Harness => "batch with client IDs",
            };
            verdicts.push(passing(desc));
        } else {
            verdicts.push(failing("batch client IDs", Failure::Reason("mismatch")));
        }
        assert(verdicts_model(verdicts@) =~= ids_verdicts(old(self)@.suite, all));
        assert(verdicts@.len() == verdicts_model(verdicts@).len());
        self.count(&verdicts, Probe::BatchEmpty);
        verdicts
    }

    /// Takes the results of the empty batch.
    pub fn empty_answered(&mut self, results: &[Result<TranslationResponse, TranslationError>]) -> (verdicts:
        Vec<Verdict>)
        requires
            old(self)@.wf(),
            old(self)@.probe == Probe::BatchEmpty,
        ensures
            verdicts_model(verdicts@) == seq![
                pass_if(
                    results@.len() == 0,
                    "batch empty"@,
                    FailureModel::Reason("expected empty"@),
                ),
            ],
            final(self)@.wf(),
            final(self)@ == old(self)@.after(verdicts_model(verdicts@), Probe::Prepare),
    {
        let mut verdicts: Vec<Verdict> = Vec::new();
        if results.len() == 0 {
            verdicts.push(passing("batch empty"));
        } else {
            verdicts.push(failing("batch empty", Failure::Reason("expected empty")));
        }
        assert(verdicts_model(verdicts@) =~= seq![
            pass_if(results@.len() == 0, "batch empty"@, FailureModel::Reason("expected empty"@)),
        ]);
        self.count(&verdicts, Probe::Prepare);
        verdicts
    }

    /// Takes whether what the language pair needs has been loaded, and checks
    /// the ways to make a request.
    pub fn prepared(&mut self, outcome: Result<(), TranslationError>) -> (verdicts: Vec<Verdict>)
        requires
            old(self)@.wf(),
            old(self)@.probe == Probe::Prepare,
        ensures
            verdicts_model(verdicts@) == last_verdicts(
                old(self)@.suite,
                translator::outcome_model(outcome),
            ),
            final(self)@.wf(),
            final(self)@ == old(self)@.after(verdicts_model(verdicts@), Probe::Ended),
    {
        let mut verdicts: Vec<Verdict> = Vec::new();
        let desc = match self.suite {
            Suite::Stress => "prepare",
            Suite::Harness => "prepare sync",
        };
        match outcome {
            Ok(()) => verdicts.push(passing(desc)),
            Err(e) => verdicts.push(failing(desc, Failure::Error(e))),
        }
        let borrowed: TranslationRequest = TranslationRequest::from("hello");
        if text::same_text(borrowed.source_text.as_str(), "hello")
            && borrowed.client_identifier.is_none() {
            verdicts.push(passing("From<&str>"));
        } else {
            verdicts.push(failing("From<&str>", Failure::Reason("unexpected value")));
        }
        let owned: TranslationRequest = TranslationRequest::from("hello".to_owned());
        if text::same_text(owned.source_text.as_str(), "hello") {
            verdicts.push(passing("From<String>"));
        } else {
            verdicts.push(failing("From<String>", Failure::Reason("unexpected value")));
        }
        let named = TranslationRequest::with_client_id("hello", "id-1");
        let id = Some("id-1".to_owned());
        if text::same_text(named.source_text.as_str(), "hello") && same_id(
            &named.client_identifier,
            &id,
        ) {
            verdicts.push(passing("with_client_id"));
        } else {
            verdicts.push(failing("with_client_id", Failure::Reason("unexpected value")));
        }
        assert(verdicts_model(verdicts@) =~= last_verdicts(
            old(self)@.suite,
            translator::outcome_model(outcome),
        ));
        self.count(&verdicts, Probe::Ended);
        verdicts
    }

    /// The probe that is to be made next.
    pub fn probe(&self) -> (probe: Probe)
        ensures
            probe == self@.probe,
    {
        self.probe
    }

    /// How many checks failed.
    pub fn failed(&self) -> (failed: usize)
        ensures
            failed == self@.failed,
    {
        self.failed
    }

    /// The line that sums the run up.
    pub fn finish(&self) -> (line: String)
        ensures
            line@ == summary(self@),
    {
        let mut line = match self.suite {
            Suite::Stress => "functional result: ".to_owned(),
            Suite::Harness => "=== Results: ".to_owned(),
        };
        line.append(text::decimal_text(self.passed as u64).as_str());
        line.append(" passed, ");
        line.append(text::decimal_text(self.failed as u64).as_str());
        match self.suite {
            Suite::Stress => line.append(" failed"),
            Suite::Harness => line.append(" failed ==="),
        }
        line
    }
}

/// What the outcome of creating a translator stands for.
pub open spec fn made_model(made: Result<LanguageTranslator, TranslationError>) -> Result<
    translator::PairModel,
    error::ErrorModel,
> {
    match made {
        Ok(t) => Ok(t@),
        Err(e) => Err(e@),
    }
}

/// The line that sums a run up.
pub open spec fn summary(run: RunModel) -> Seq<char> {
    let counts = text::decimal(run.passed) + " passed, "@ + text::decimal(run.failed);
    match run.suite {
        Suite::Stress => "functional result: "@ + counts + " failed"@,
        Suite::Harness => "=== Results: "@ + counts + " failed ==="@,
    }
}

/// An optional text as it is shown in a report.
pub open spec fn shown_option(text: Option<Seq<char>>) -> Seq<char> {
    match text {
        Some(t) => "Some("@ + text::quoted(t) + ")"@,
        None => "None"@,
    }
}

/// A response as it is shown in a report.
pub open spec fn shown_response(r: request::ResponseModel) -> Seq<char> {
    "TranslationResponse { source_language: "@ + text::quoted(r.source_language)
        + ", target_language: "@ + text::quoted(r.target_language) + ", source_text: "@
        + text::quoted(r.source_text) + ", target_text: "@ + text::quoted(r.target_text)
        + ", client_identifier: "@ + shown_option(r.client_identifier) + " }"@
}

/// Why a check failed, as a report says it.
pub open spec fn explanation(suite: Suite, failure: FailureModel) -> Seq<char> {
    match failure {
        FailureModel::Reason(reason) => reason,
        FailureModel::Language { wanted, detected } => "expected "@ + wanted + ", got "@
            + shown_option(detected),
        FailureModel::Error(e) => e.message(),
        FailureModel::Response(r) => "unexpected response: "@ + shown_response(r),
        FailureModel::Field { name, held } => name + " mismatch: "@ + (if name == "source_text"@ {
            text::quoted(held)
        } else {
            held
        }),
        FailureModel::Count { expected, got } => "expected "@ + text::decimal(expected) + (
        match suite {
            Suite::Stress => ", got "@,
            Suite::Harness => " results, got "@,
        }) + text::decimal(got),
    }
}

/// The line of a report that gives a verdict.
pub open spec fn verdict_line(suite: Suite, verdict: VerdictModel) -> Seq<char> {
    match verdict.failure {
        None => "  PASS  "@ + verdict.desc,
        Some(failure) => "  FAIL  "@ + verdict.desc + ": "@ + explanation(suite, failure),
    }
}

/// Appends an optional text as it is shown in a report.
fn show_option(line: &mut String, text: &Option<String>)
    ensures
        final(line)@ == old(line)@ + shown_option(text::text_of(*text)),
{
    match text {
        Some(t) => {
            line.append("Some(");
            line.append(text::quote(t.as_str()).as_str());
            line.append(")");
        },
        None => line.append("None"),
    }
}

/// Appends a response as it is shown in a report.
fn show_response(line: &mut String, r: &TranslationResponse)
    ensures
        final(line)@ == old(line)@ + shown_response(r@),
{
    line.append("TranslationResponse { source_language: ");
    line.append(text::quote(r.source_language.as_str()).as_str());
    line.append(", target_language: ");
    line.append(text::quote(r.target_language.as_str()).as_str());
    line.append(", source_text: ");
    line.append(text::quote(r.source_text.as_str()).as_str());
    line.append(", target_text: ");
    line.append(text::quote(r.target_text.as_str()).as_str());
    line.append(", client_identifier: ");
    show_option(line, &r.client_identifier);
    line.append(" }");
}

/// Appends why a check failed.
fn explain(line: &mut String, suite: Suite, failure: &Failure)
    ensures
        final(line)@ == old(line)@ + explanation(suite, failure@),
{
    match failure {
        Failure::Reason(reason) => line.append(*reason),
        Failure::Language { wanted, detected } => {
            line.append("expected ");
            line.append(*wanted);
            line.append(", got ");
            show_option(line, detected);
        },
        Failure::Error(e) => line.append(e.to_string().as_str()),
        Failure::Response(r) => {
            line.append("unexpected response: ");
            show_response(line, r);
        },
        Failure::Field { name, held } => {
            line.append(*name);
            line.append(" mismatch: ");
            if text::same_text(*name, "source_text") {
                line.append(text::quote(held.as_str()).as_str());
            } else {
                line.append(held.as_str());
            }
        },
        Failure::Count { expected, got } => {
            line.append("expected ");
            line.append(text::decimal_text(*expected as u64).as_str());
            match suite {
                Suite::Stress => line.append(", got "),
                Suite::Harness => line.append(" results, got "),
            }
            line.append(text::decimal_text(*got as u64).as_str());
        },
    }
}

/// The line of a report that shows a translation.
pub open spec fn translation_line(
    suite: Suite,
    source_text: Seq<char>,
    target_text: Seq<char>,
) -> Seq<char> {
    match suite {
        Suite::Stress => "  '"@ + source_text + "' -> '"@ + target_text + "'"@,
        Suite::Harness => "    '"@ + source_text + "' → '"@ + target_text + "'"@,
    }
}

/// The line of a report that shows a translation.
fn show_translation(suite: Suite, source_text: &str, target_text: &str) -> (line: String)
    ensures
        line@ == translation_line(suite, source_text@, target_text@),
{
    let (open, arrow) = match suite {
        Suite::Stress => ("  '", "' -> '"),
        Suite::Harness => ("    '", "' → '"),
    };
    let mut line = open.to_owned();
    line.append(source_text);
    line.append(arrow);
    line.append(target_text);
    line.append("'");
    line
}

/// The line that shows the single translation, where its check passes.
pub fn show_single(suite: Suite, result: &Result<TranslationResponse, TranslationError>) -> (line:
    Option<String>)
    ensures
        text::text_of(line) == (match translator::result_model(*result) {
            Ok(r) => if single_verdict(suite, Ok(r)).failure is None {
                Some(translation_line(suite, "你好"@, r.target_text))
            } else {
                None
            },
            Err(_) => None,
        }),
{
    match result {
        Ok(r) => if !r.target_text.as_str().is_empty() && text::same_text(
            r.source_text.as_str(),
            "你好",
        ) && text::same_text(r.source_language.as_str(), "zh-Hans") && text::same_text(
            r.target_language.as_str(),
            "en",
        ) {
            Some(show_translation(suite, "你好", r.target_text.as_str()))
        } else {
            None
        },
        Err(_) => None,
    }
}

/// The line that shows a translation of the batch that is checked: the stress
/// runs show one that is as it should be, and the harness shows any.
pub fn show_item(
    suite: Suite,
    req: &TranslationRequest,
    result: &Result<TranslationResponse, TranslationError>,
) -> (line: Option<String>)
    ensures
        text::text_of(line) == (match translator::result_model(*result) {
            Ok(r) => if suite == Suite::Harness || item_is_right(suite, req@, Ok(r)) {
                Some(translation_line(suite, req@.source_text, r.target_text))
            } else {
                None
            },
            Err(_) => None,
        }),
{
    match result {
        Ok(r) => {
            let shown = match suite {
                Suite::Stress => text::same_text(r.source_text.as_str(), req.source_text.as_str())
                    && !r.target_text.as_str().is_empty(),
                Suite::Harness => true,
            };
            if shown {
                Some(show_translation(suite, req.source_text.as_str(), r.target_text.as_str()))
            } else {
                None
            }
        },
        Err(_) => None,
    }
}

impl Verdict {
    /// The line of a report that gives the verdict.
    pub fn line(&self, suite: Suite) -> (line: String)
        ensures
            line@ == verdict_line(suite, self@),
    {
        match &self.failure {
            None => {
                let mut line = "  PASS  ".to_owned();
                line.append(self.desc);
                line
            },
            Some(failure) => {
                let mut line = "  FAIL  ".to_owned();
                line.append(self.desc);
                line.append(": ");
                explain(&mut line, suite, failure);
                line
            },
        }
    }
}

/// A check that passed counts once among those that did, wherever it stands.
pub proof fn each_pass_counts_once(before: Seq<VerdictModel>, behind: Seq<VerdictModel>, one: VerdictModel)
    ensures
        passes(before + behind) == passes(before) + passes(behind),
        passes(seq![one]) == (if one.failure is None {
            1nat
        } else {
            0nat
        }),
        passes(Seq::empty()) == 0,
    decreases behind.len(),
{
    let single = seq![one];
    assert(single.drop_last() =~= Seq::empty());
    assert(single.last() == one);
    assert(passes(Seq::empty()) == 0);
    if behind.len() == 0 {
        assert(before + behind =~= before);
    } else {
        assert((before + behind).drop_last() =~= before + behind.drop_last());
        assert((before + behind).last() == behind.last());
        each_pass_counts_once(before, behind.drop_last(), one);
    }
}

/// A check that failed counts once among those that did, wherever it stands.
pub proof fn each_failure_counts_once(before: Seq<VerdictModel>, behind: Seq<VerdictModel>, one: VerdictModel)
    ensures
        fails(before + behind) == fails(before) + fails(behind),
        fails(seq![one]) == (if one.failure is Some {
            1nat
        } else {
            0nat
        }),
        fails(Seq::empty()) == 0,
    decreases behind.len(),
{
    let single = seq![one];
    assert(single.drop_last() =~= Seq::empty());
    assert(single.last() == one);
    assert(fails(Seq::empty()) == 0);
    if behind.len() == 0 {
        assert(before + behind =~= before);
    } else {
        assert((before + behind).drop_last() =~= before + behind.drop_last());
        assert((before + behind).last() == behind.last());
        each_failure_counts_once(before, behind.drop_last(), one);
    }
}

/// Verdicts stand for what they hold, in the same order.
pub proof fn verdicts_stand_in_their_order(verdicts: Seq<Verdict>)
    ensures
        verdicts_model(verdicts).len() == verdicts.len(),
        forall|i: int|
            0 <= i < verdicts.len() ==> {
                let v = #[trigger] verdicts_model(verdicts)[i];
                &&& v.desc == verdicts[i].desc@
                &&& v.failure is Some <==> verdicts[i].failure is Some
                &&& verdicts[i].failure is Some ==> v.failure->0 == verdicts[i].failure->0@
            },
{
}

/// A run adds the verdicts on a probe to those before, and goes on to the next
/// probe for the same suite.
pub proof fn a_run_adds_its_verdicts_up(run: RunModel, verdicts: Seq<VerdictModel>, next: Probe)
    ensures
        run.after(verdicts, next).passed == run.passed + passes(verdicts),
        run.after(verdicts, next).failed == run.failed + fails(verdicts),
        run.after(verdicts, next).probe == next,
        run.after(verdicts, next).suite == run.suite,
        run.after(verdicts, next).passed + run.after(verdicts, next).failed == run.passed
            + run.failed + verdicts.len(),
{
    every_check_is_counted(verdicts);
}

/// English is detected where the language is `en`, Chinese where it begins with
/// `zh`, and nothing where there is no language.
pub proof fn a_language_is_judged_by_what_was_asked(got: Option<Seq<char>>)
    ensures
        language_verdict(Probe::DetectEnglish, got).failure is None <==> got is Some && got->0
            == seq!['e', 'n'],
        language_verdict(Probe::DetectChinese, got).failure is None <==> got is Some && got->0.len()
            >= 2 && got->0[0] == 'z' && got->0[1] == 'h',
        language_verdict(Probe::DetectEmpty, got).failure is None <==> got is None,
        language_verdict(Probe::DetectEnglish, got).failure is Some ==> language_verdict(
            Probe::DetectEnglish,
            got,
        ).failure->0 == (FailureModel::Language { wanted: "Some(\"en\")"@, detected: got }),
        language_verdict(Probe::DetectChinese, got).failure is Some ==> language_verdict(
            Probe::DetectChinese,
            got,
        ).failure->0 == (FailureModel::Language { wanted: "zh-*"@, detected: got }),
{
    reveal_strlit("en");
    reveal_strlit("zh");
    assert("en"@ =~= seq!['e', 'n']);
    if got is Some {
        let l = got->0;
        if l.len() >= 2 && l[0] == 'z' && l[1] == 'h' {
            assert(l.subrange(0, 2) =~= "zh"@);
        }
        if "zh"@.is_prefix_of(l) {
            assert(l.subrange(0, 2)[0] == 'z' && l.subrange(0, 2)[1] == 'h');
        }
    }
}

/// The pair is to be available, and the invalid one is not.
pub proof fn availability_is_judged_by_the_pair(suite: Suite, outcome: Result<(), error::ErrorModel>)
    ensures
        availability_verdict(suite, Probe::Availability, outcome).failure is None <==> outcome is Ok,
        outcome is Err ==> availability_verdict(suite, Probe::Availability, outcome).failure == Some(
            FailureModel::Error(outcome->Err_0),
        ),
        availability_verdict(suite, Probe::InvalidPair, outcome).failure is None <==> outcome is Err,
{
}

/// A translator is judged by its pair, and a translator that could not be had
/// fails the stress runs and gives the harness nothing to judge.
pub proof fn a_translator_is_judged_by_its_pair(
    suite: Suite,
    made: translator::PairModel,
    e: error::ErrorModel,
)
    ensures
        creation_verdicts(suite, Ok(made)).len() == 2,
        creation_verdicts(suite, Ok(made))[0].failure is None <==> made.source == "zh-Hans"@
            && made.target == "en"@,
        creation_verdicts(suite, Ok(made))[1].failure is None,
        creation_verdicts(Suite::Stress, Err(e)).len() == 1,
        creation_verdicts(Suite::Stress, Err(e))[0].failure == Some(FailureModel::Error(e)),
        creation_verdicts(Suite::Harness, Err(e)).len() == 0,
        after_creation(suite, true) == Probe::Translate,
        after_creation(Suite::Stress, false) == Probe::Ended,
        after_creation(Suite::Harness, false) == Probe::Aborted,
{
}

/// A single translation passes, for either suite, exactly where it is a
/// response with a translation, with the text that was asked for and with the
/// pair's languages.
pub proof fn a_translation_is_judged_by_its_fields(
    suite: Suite,
    result: Result<request::ResponseModel, error::ErrorModel>,
)
    ensures
        single_verdict(suite, result).failure is None <==> {
            &&& result is Ok
            &&& result->Ok_0.target_text.len() > 0
            &&& result->Ok_0.source_text == "你好"@
            &&& result->Ok_0.source_language == "zh-Hans"@
            &&& result->Ok_0.target_language == "en"@
        },
        result is Err ==> single_verdict(suite, result).failure == Some(
            FailureModel::Error(result->Err_0),
        ),
{
}

/// A batch passes once, exactly where there are three results, each a response
/// to the text in its place and, for the stress runs, with a translation. It
/// fails once for a wrong number of results, and else once for each error and,
/// for the stress runs, for each response that is not right.
pub proof fn a_batch_is_judged_item_by_item(
    suite: Suite,
    results: Seq<Result<request::ResponseModel, error::ErrorModel>>,
)
    ensures
        passes(batch_verdicts(suite, results)) <= 1,
        passes(batch_verdicts(suite, results)) == 1 <==> {
            &&& results.len() == 3
            &&& results[0] is Ok && results[0]->Ok_0.source_text == "你好"@
            &&& results[1] is Ok && results[1]->Ok_0.source_text == "世界"@
            &&& results[2] is Ok && results[2]->Ok_0.source_text == "谢谢"@
            &&& suite == Suite::Stress ==> results[0]->Ok_0.target_text.len() > 0
                && results[1]->Ok_0.target_text.len() > 0 && results[2]->Ok_0.target_text.len() > 0
        },
        results.len() != 3 ==> fails(batch_verdicts(suite, results)) == 1,
        passes(batch_verdicts(suite, results)) == 1 ==> fails(batch_verdicts(suite, results)) == 0,
        suite == Suite::Stress ==> passes(batch_verdicts(suite, results)) == 1 || fails(
            batch_verdicts(suite, results),
        ) > 0,
        results.len() == 3 && (results[0] is Err || results[1] is Err || results[2] is Err) ==> fails(
            batch_verdicts(suite, results),
        ) > 0,
{
    let verdicts = batch_verdicts(suite, results);
    let any = pass(Seq::empty());
    if results.len() != 3 {
        each_pass_counts_once(Seq::empty(), Seq::empty(), verdicts[0]);
        each_failure_counts_once(Seq::empty(), Seq::empty(), verdicts[0]);
        assert(verdicts =~= seq![verdicts[0]]);
    } else {
        let requests = batch_requests();
        let v0 = item_verdicts(suite, requests[0], results[0]);
        let v1 = item_verdicts(suite, requests[1], results[1]);
        let v2 = item_verdicts(suite, requests[2], results[2]);
        let right = item_is_right(suite, requests[0], results[0]) && item_is_right(
            suite,
            requests[1],
            results[1],
        ) && item_is_right(suite, requests[2], results[2]);
        let desc = match suite {
            Suite::Stress => "batch"@,
            Suite::Harness => "batch sync"@,
        };
        let end = if right {
            seq![pass(desc)]
        } else {
            Seq::empty()
        };
        assert(verdicts == v0 + v1 + v2 + end);
        an_item_fails_alone(suite, requests[0], results[0]);
        an_item_fails_alone(suite, requests[1], results[1]);
        an_item_fails_alone(suite, requests[2], results[2]);
        each_pass_counts_once(v0 + v1 + v2, end, pass(desc));
        each_pass_counts_once(v0 + v1, v2, any);
        each_pass_counts_once(v0, v1, any);
        each_failure_counts_once(v0 + v1 + v2, end, pass(desc));
        each_failure_counts_once(v0 + v1, v2, any);
        each_failure_counts_once(v0, v1, any);
    }
}

/// The verdicts on one item hold no pass, and a failure exactly where the item
/// is an error or, for the stress runs, is not right.
proof fn an_item_fails_alone(
    suite: Suite,
    req: request::RequestModel,
    result: Result<request::ResponseModel, error::ErrorModel>,
)
    ensures
        passes(item_verdicts(suite, req, result)) == 0,
        fails(item_verdicts(suite, req, result)) == (if result is Err || suite == Suite::Stress
            && !item_is_right(suite, req, result) {
            1nat
        } else {
            0nat
        }),
{
    let verdicts = item_verdicts(suite, req, result);
    if verdicts.len() == 1 {
        assert(verdicts =~= seq![verdicts[0]]);
        each_pass_counts_once(Seq::empty(), Seq::empty(), verdicts[0]);
        each_failure_counts_once(Seq::empty(), Seq::empty(), verdicts[0]);
    }
}

/// The identifiers pass exactly where each result there is, of the first two,
/// is a response with its request's own identifier; the last verdict says so,
/// and an error has a verdict of its own with the harness.
pub proof fn identifiers_are_judged_by_their_requests(
    suite: Suite,
    results: Seq<Result<request::ResponseModel, error::ErrorModel>>,
)
    ensures
        ids_verdicts(suite, results).len() > 0,
        ids_verdicts(suite, results).last().failure is None <==> {
            &&& results.len() > 0 ==> results[0] is Ok && results[0]->Ok_0.client_identifier == Some(
                "a"@,
            )
            &&& results.len() > 1 ==> results[1] is Ok && results[1]->Ok_0.client_identifier == Some(
                "b"@,
            )
        },
        suite == Suite::Stress ==> ids_verdicts(suite, results).len() == 1,
        suite == Suite::Harness ==> ids_verdicts(suite, results).len() == 1 + (if results.len() > 0
            && results[0] is Err {
            1int
        } else {
            0int
        }) + (if results.len() > 1 && results[1] is Err {
            1int
        } else {
            0int
        }),
{
}

/// Loading is judged by its outcome, and a request can be made in each way.
pub proof fn loading_is_judged_by_its_outcome(suite: Suite, outcome: Result<(), error::ErrorModel>)
    ensures
        last_verdicts(suite, outcome).len() == 4,
        last_verdicts(suite, outcome)[0].failure is None <==> outcome is Ok,
        outcome is Err ==> last_verdicts(suite, outcome)[0].failure == Some(
            FailureModel::Error(outcome->Err_0),
        ),
        forall|i: int| 1 <= i < 4 ==> (#[trigger] last_verdicts(suite, outcome)[i]).failure is None,
{
}

/// A line of a report says whether the check passed, what was checked, and why
/// it failed.
pub proof fn a_report_says_what_failed_and_why(
    suite: Suite,
    desc: Seq<char>,
    held: Seq<char>,
    e: error::ErrorModel,
    expected: nat,
    got: nat,
)
    ensures
        verdict_line(suite, pass(desc)) == "  PASS  "@ + desc,
        verdict_line(suite, fail(desc, FailureModel::Reason(held))) == "  FAIL  "@ + desc + ": "@
            + held,
        verdict_line(suite, fail(desc, FailureModel::Error(e))) == "  FAIL  "@ + desc + ": "@
            + e.message(),
        explanation(suite, FailureModel::Language { wanted: desc, detected: Some(held) })
            == "expected "@ + desc + ", got "@ + ("Some("@ + text::quoted(held) + ")"@),
        explanation(suite, FailureModel::Language { wanted: desc, detected: None }) == "expected "@
            + desc + ", got "@ + "None"@,
        explanation(suite, FailureModel::Field { name: "source_text"@, held })
            == "source_text"@ + " mismatch: "@ + text::quoted(held),
        desc != "source_text"@ ==> explanation(suite, FailureModel::Field { name: desc, held })
            == desc + " mismatch: "@ + held,
        explanation(Suite::Stress, FailureModel::Count { expected, got }) == "expected "@
            + text::decimal(expected) + ", got "@ + text::decimal(got),
        explanation(Suite::Harness, FailureModel::Count { expected, got }) == "expected "@
            + text::decimal(expected) + " results, got "@ + text::decimal(got),
{
}

/// A response is shown with every field, the texts in quotes.
pub proof fn a_response_is_shown_whole(suite: Suite, r: request::ResponseModel)
    ensures
        explanation(suite, FailureModel::Response(r)) == "unexpected response: "@ + (
        "TranslationResponse { source_language: "@ + text::quoted(r.source_language)
            + ", target_language: "@ + text::quoted(r.target_language) + ", source_text: "@
            + text::quoted(r.source_text) + ", target_text: "@ + text::quoted(r.target_text)
            + ", client_identifier: "@ + (if r.client_identifier is Some {
            "Some("@ + text::quoted(r.client_identifier->0) + ")"@
        } else {
            "None"@
        }) + " }"@),
        translation_line(Suite::Stress, r.source_text, r.target_text) == "  '"@ + r.source_text
            + "' -> '"@ + r.target_text + "'"@,
        translation_line(Suite::Harness, r.source_text, r.target_text) == "    '"@ + r.source_text
            + "' → '"@ + r.target_text + "'"@,
{
}

/// A run is summed up by how many checks passed and how many failed.
pub proof fn a_run_is_summed_up_by_its_counts(run: RunModel)
    ensures
        run.suite == Suite::Stress ==> summary(run) == "functional result: "@ + (text::decimal(
            run.passed,
        ) + " passed, "@ + text::decimal(run.failed)) + " failed"@,
        run.suite == Suite::Harness ==> summary(run) == "=== Results: "@ + (text::decimal(
            run.passed,
        ) + " passed, "@ + text::decimal(run.failed)) + " failed ==="@,
{
}

/// What a check is called depends on the check and the suite, and on nothing
/// that came back.
pub proof fn a_check_is_called_the_same_whatever_came_back(
    suite: Suite,
    got: Option<Seq<char>>,
    outcome: Result<(), error::ErrorModel>,
    result: Result<request::ResponseModel, error::ErrorModel>,
    results: Seq<Result<request::ResponseModel, error::ErrorModel>>,
)
    ensures
        language_verdict(Probe::DetectEnglish, got).desc == "detect English"@,
        language_verdict(Probe::DetectChinese, got).desc == "detect Chinese"@,
        language_verdict(Probe::DetectEmpty, got).desc == "detect empty"@,
        availability_verdict(Suite::Stress, Probe::Availability, outcome).desc == "availability"@,
        availability_verdict(Suite::Harness, Probe::Availability, outcome).desc
            == "availability sync"@,
        availability_verdict(suite, Probe::InvalidPair, outcome).desc == "invalid pair errors"@,
        single_verdict(suite, result).desc == "translate single"@,
        last_verdicts(Suite::Stress, outcome)[0].desc == "prepare"@,
        last_verdicts(Suite::Harness, outcome)[0].desc == "prepare sync"@,
        last_verdicts(suite, outcome)[1].desc == "From<&str>"@,
        last_verdicts(suite, outcome)[2].desc == "From<String>"@,
        last_verdicts(suite, outcome)[3].desc == "with_client_id"@,
        ids_verdicts(Suite::Stress, results).last().desc == "batch client IDs"@,
        ids_verdicts(Suite::Harness, results).last().desc == (if ids_verdicts(
            Suite::Harness,
            results,
        ).last().failure is None {
            "batch with client IDs"@
        } else {
            "batch client IDs"@
        }),
        passes(batch_verdicts(suite, results)) == 1 ==> batch_verdicts(suite, results).last().desc
            == (match suite {
            Suite::Stress => "batch"@,
            Suite::Harness => "batch sync"@,
        }),
{
    a_batch_is_judged_item_by_item(suite, results);
    if passes(batch_verdicts(suite, results)) == 1 {
        let desc = match suite {
            Suite::Stress => "batch"@,
            Suite::Harness => "batch sync"@,
        };
        assert(batch_verdicts(suite, results) =~= seq![pass(desc)]);
    }
}

/// A check that has nothing to show for its failure gives its own reason.
pub proof fn a_check_without_a_value_gives_its_reason(got: Seq<char>, made: translator::PairModel)
    ensures
        language_verdict(Probe::DetectEmpty, Some(got)).failure == Some(
            FailureModel::Reason("expected None"@),
        ),
        availability_verdict(Suite::Stress, Probe::InvalidPair, Ok(())).failure == Some(
            FailureModel::Reason("expected error for en -> zz"@),
        ),
        availability_verdict(Suite::Harness, Probe::InvalidPair, Ok(())).failure == Some(
            FailureModel::Reason("expected error for en→zz"@),
        ),
        made.source != "zh-Hans"@ || made.target != "en"@ ==> {
            &&& creation_verdicts(Suite::Stress, Ok(made))[0] == fail(
                "source/target accessors"@,
                FailureModel::Reason("unexpected language pair"@),
            )
            &&& creation_verdicts(Suite::Harness, Ok(made))[0] == fail(
                "accessors"@,
                FailureModel::Reason("expected zh-Hans/en"@),
            )
        },
{
}

} // verus!
