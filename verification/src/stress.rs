//! The stress runs: what the arguments ask for, how texts are spread over
//! threads, and how results are counted.
use crate::error::TranslationError;
use crate::request;
use crate::request::{TranslationRequest, TranslationResponse};
use crate::text;
use crate::translator;
use vstd::arithmetic::div_mod::*;
use vstd::arithmetic::mul::*;
use vstd::prelude::*;

verus! {

/// A kind of run.
#[derive(Debug, Clone, Copy, PartialEq, Eq, Structural)]
pub enum Mode {
    All,
    Functional,
    Batch,
    Long,
    Parallel,
    WorkerBatch,
    WorkerLong,
}

/// What the arguments ask for.
#[derive(Debug, PartialEq, Eq)]
pub enum ModeChoice {
    /// A run.
    Run(Mode),
    /// To say how the command is used.
    Usage,
    /// What there is not, with a message of it.
    Unknown(String),
}

/// What [`ModeChoice`] stands for.
pub enum ChoiceModel {
    Run(Mode),
    Usage,
    Unknown(Seq<char>),
}

impl View for ModeChoice {
    type V = ChoiceModel;

    open spec fn view(&self) -> ChoiceModel {
        match self {
            ModeChoice::Run(mode) => ChoiceModel::Run(*mode),
            ModeChoice::Usage => ChoiceModel::Usage,
            ModeChoice::Unknown(message) => ChoiceModel::Unknown(message@),
        }
    }
}

/// What the arguments ask for, by the first of them and, for a worker, by the
/// second.
pub open spec fn chosen_mode(args: Seq<Seq<char>>) -> ChoiceModel {
    if args.len() == 0 || args[0] == "all"@ {
        ChoiceModel::Run(Mode::All)
    } else if args[0] == "functional"@ || args[0] == "harness"@ || args[0] == "smoke"@ {
        ChoiceModel::Run(Mode::Functional)
    } else if args[0] == "batch"@ || args[0] == "short"@ {
        ChoiceModel::Run(Mode::Batch)
    } else if args[0] == "long"@ {
        ChoiceModel::Run(Mode::Long)
    } else if args[0] == "parallel"@ {
        ChoiceModel::Run(Mode::Parallel)
    } else if args[0] == "worker"@ {
        ChoiceModel::Run(
            if args.len() > 1 && args[1] == "long"@ {
                Mode::WorkerLong
            } else {
                Mode::WorkerBatch
            },
        )
    } else if args[0] == "-h"@ || args[0] == "--help"@ || args[0] == "help"@ {
        ChoiceModel::Usage
    } else {
        ChoiceModel::Unknown("unknown stress mode: "@ + args[0])
    }
}

/// Reads the arguments, the program's own name not among them.
pub fn parse_mode(args: &[String]) -> (choice: ModeChoice)
    ensures
        choice@ == chosen_mode(text::texts_of(args@)),
{
    if args.len() == 0 {
        return ModeChoice::Run(Mode::All);
    }
    let mode = args[0].as_str();
    if text::same_text(mode, "all") {
        ModeChoice::Run(Mode::All)
    } else if text::same_text(mode, "functional") || text::same_text(mode, "harness")
        || text::same_text(mode, "smoke") {
        ModeChoice::Run(Mode::Functional)
    } else if text::same_text(mode, "batch") || text::same_text(mode, "short") {
        ModeChoice::Run(Mode::Batch)
    } else if text::same_text(mode, "long") {
        ModeChoice::Run(Mode::Long)
    } else if text::same_text(mode, "parallel") {
        ModeChoice::Run(Mode::Parallel)
    } else if text::same_text(mode, "worker") {
        if args.len() > 1 && text::same_text(args[1].as_str(), "long") {
            ModeChoice::Run(Mode::WorkerLong)
        } else {
            ModeChoice::Run(Mode::WorkerBatch)
        }
    } else if text::same_text(mode, "-h") || text::same_text(mode, "--help") || text::same_text(
        mode,
        "help",
    ) {
        ModeChoice::Usage
    } else {
        let mut message = "unknown stress mode: ".to_owned();
        message.append(mode);
        ModeChoice::Unknown(message)
    }
}

/// The status with which a run that failed this often exits.
pub fn exit_with(failed: usize) -> (status: i32)
    ensures
        status == (if failed > 0 {
            1i32
        } else {
            0i32
        }),
{
    if failed > 0 {
        1
    } else {
        0
    }
}

/// Requests for some texts, without identifiers.
pub fn requests_from_strs(texts: &[&str]) -> (requests: Vec<TranslationRequest>)
    ensures
        translator::requests_model(requests@) == Seq::new(
            texts@.len(),
            |i: int| request::plain_request(texts@[i]@),
        ),
        requests@.len() == texts@.len(),
        forall|i: int|
            0 <= i < requests@.len() ==> (#[trigger] requests@[i]).source_text@ == texts@[i]@
                && requests@[i].client_identifier is None,
{
    let mut requests: Vec<TranslationRequest> = Vec::new();
    let mut i: usize = 0;
    while i < texts.len()
        invariant
            i <= texts@.len(),
            requests@.len() == i,
            forall|j: int|
                0 <= j < i ==> (#[trigger] requests@[j])@ == request::plain_request(texts@[j]@)
                    && requests@[j].source_text@ == texts@[j]@ && requests@[j].client_identifier is None,
        decreases texts.len() - i,
    {
        requests.push(TranslationRequest::new(texts[i]));
        i += 1;
    }
    assert(translator::requests_model(requests@) =~= Seq::new(
        texts@.len(),
        |i: int| request::plain_request(texts@[i]@),
    ));
    requests
}

/// Requests for some texts, without identifiers.
pub fn requests_from_strings(texts: &[String]) -> (requests: Vec<TranslationRequest>)
    ensures
        translator::requests_model(requests@) == Seq::new(
            texts@.len(),
            |i: int| request::plain_request(texts@[i]@),
        ),
        requests@.len() == texts@.len(),
        forall|i: int|
            0 <= i < requests@.len() ==> (#[trigger] requests@[i]).source_text@ == texts@[i]@
                && requests@[i].client_identifier is None,
{
    let mut requests: Vec<TranslationRequest> = Vec::new();
    let mut i: usize = 0;
    while i < texts.len()
        invariant
            i <= texts@.len(),
            requests@.len() == i,
            forall|j: int|
                0 <= j < i ==> (#[trigger] requests@[j])@ == request::plain_request(texts@[j]@)
                    && requests@[j].source_text@ == texts@[j]@ && requests@[j].client_identifier is None,
        decreases texts.len() - i,
    {
        requests.push(TranslationRequest::new(texts[i].clone()));
        i += 1;
    }
    assert(translator::requests_model(requests@) =~= Seq::new(
        texts@.len(),
        |i: int| request::plain_request(texts@[i]@),
    ));
    requests
}

/// `total` texts, taken from some texts over and over.
pub fn cycle_texts<'a>(texts: &[&'a str], total: usize) -> (pool: Vec<&'a str>)
    ensures
        pool@ == (if texts@.len() == 0 {
            Seq::empty()
        } else {
            Seq::new(total as nat, |i: int| texts@[i % texts@.len() as int])
        }),
{
    let mut pool: Vec<&'a str> = Vec::new();
    if texts.len() == 0 {
        return pool;
    }
    let mut i: usize = 0;
    while i < total
        invariant
            i <= total,
            texts@.len() > 0,
            pool@.len() == i,
            forall|j: int| 0 <= j < i ==> #[trigger] pool@[j] == texts@[j % texts@.len() as int],
        decreases total - i,
    {
        pool.push(texts[i % texts.len()]);
        i += 1;
    }
    assert(pool@ =~= Seq::new(total as nat, |i: int| texts@[i % texts@.len() as int]));
    pool
}

/// Where the chunk `i` begins when `len` items are spread over `n` threads:
/// each gets its even share, and the first ones one item more until none is
/// left over.
pub open spec fn chunk_start(len: int, n: int, i: int) -> int {
    i * (len / n) + if i < len % n {
        i
    } else {
        len % n
    }
}

/// The next chunk begins an even share later, or one item more.
proof fn chunk_step(len: int, n: int, i: int)
    requires
        0 <= len,
        0 < n,
        0 <= i < n,
    ensures
        chunk_start(len, n, i + 1) == chunk_start(len, n, i) + len / n + (if i < len % n {
            1int
        } else {
            0int
        }),
        0 <= chunk_start(len, n, i) <= chunk_start(len, n, i + 1) <= len,
        chunk_start(len, n, n) == len,
{
    let base = len / n;
    lemma_div_pos_is_pos(len, n);
    lemma_mod_bound(len, n);
    lemma_fundamental_div_mod(len, n);
    lemma_mul_is_distributive_add_other_way(base, i, 1);
    lemma_mul_inequality(i + 1, n, base);
    lemma_mul_nonnegative(i, base);
}

/// The chunks in which `len` items are spread over threads: where each begins
/// and ends.
pub fn chunk_bounds(len: usize, n_threads: usize) -> (bounds: Vec<(usize, usize)>)
    requires
        n_threads > 0,
    ensures
        bounds@.len() == n_threads,
        forall|i: int|
            0 <= i < n_threads ==> (#[trigger] bounds@[i]).0 == chunk_start(
                len as int,
                n_threads as int,
                i,
            ) && bounds@[i].1 == chunk_start(len as int, n_threads as int, i + 1),
{
    let base: usize = len / n_threads;
    let rem: usize = len % n_threads;
    let mut bounds: Vec<(usize, usize)> = Vec::new();
    let mut offset: usize = 0;
    let mut i: usize = 0;
    assert(chunk_start(len as int, n_threads as int, 0) == 0) by {
        lemma_mod_bound(len as int, n_threads as int);
        lemma_mul_by_zero_is_zero(base as int);
    }
    while i < n_threads
        invariant
            i <= n_threads,
            n_threads > 0,
            base == len / n_threads,
            rem == len % n_threads,
            offset == chunk_start(len as int, n_threads as int, i as int),
            bounds@.len() == i,
            forall|j: int|
                0 <= j < i ==> (#[trigger] bounds@[j]).0 == chunk_start(
                    len as int,
                    n_threads as int,
                    j,
                ) && bounds@[j].1 == chunk_start(len as int, n_threads as int, j + 1),
        decreases n_threads - i,
    {
        proof {
            chunk_step(len as int, n_threads as int, i as int);
        }
        let size: usize = if i < rem {
            base + 1
        } else {
            base
        };
        bounds.push((offset, offset + size));
        offset += size;
        i += 1;
    }
    bounds
}

/// The chunks part the items: the first begins with the first item, each
/// begins where the one before it ends, and the last ends with the last item;
/// and no two of them differ by more than one item, the earlier ones being the
/// larger.
pub proof fn chunks_part_the_items(len: int, n: int, i: int, j: int)
    requires
        0 <= len,
        0 < n,
        0 <= i < n,
        0 <= j < n,
    ensures
        chunk_start(len, n, 0) == 0,
        chunk_start(len, n, n) == len,
        chunk_start(len, n, i) <= chunk_start(len, n, i + 1),
        chunk_start(len, n, i + 1) - chunk_start(len, n, i) <= chunk_start(len, n, j + 1)
            - chunk_start(len, n, j) + 1,
        i <= j ==> chunk_start(len, n, i + 1) - chunk_start(len, n, i) >= chunk_start(len, n, j + 1)
            - chunk_start(len, n, j),
{
    chunk_step(len, n, i);
    chunk_step(len, n, j);
    lemma_mod_bound(len, n);
    lemma_mul_by_zero_is_zero(len / n);
}

/// The requests that each of some threads makes when texts are spread over
/// them.
pub fn chunk_requests(pool: &[&str], n_threads: usize) -> (chunks: Vec<Vec<TranslationRequest>>)
    requires
        n_threads > 0,
    ensures
        chunks@.len() == n_threads,
        forall|i: int|
            0 <= i < n_threads ==> translator::requests_model((#[trigger] chunks@[i])@)
                == requests_between(
                pool@,
                chunk_start(pool@.len() as int, n_threads as int, i),
                chunk_start(pool@.len() as int, n_threads as int, i + 1),
            ),
        forall|i: int, k: int|
            0 <= i < n_threads && 0 <= k < chunks@[i]@.len() ==> (
            #[trigger] chunks@[i]@[k]).source_text@ == pool@[chunk_start(
                pool@.len() as int,
                n_threads as int,
                i,
            ) + k]@,
        forall|i: int|
            0 <= i < n_threads ==> (#[trigger] chunks@[i])@.len() == chunk_start(
                pool@.len() as int,
                n_threads as int,
                i + 1,
            ) - chunk_start(pool@.len() as int, n_threads as int, i),
{
    let bounds = chunk_bounds(pool.len(), n_threads);
    let mut chunks: Vec<Vec<TranslationRequest>> = Vec::new();
    let mut i: usize = 0;
    while i < n_threads
        invariant
            i <= n_threads,
            bounds@.len() == n_threads,
            forall|j: int|
                0 <= j < n_threads ==> (#[trigger] bounds@[j]).0 == chunk_start(
                    pool@.len() as int,
                    n_threads as int,
                    j,
                ) && bounds@[j].1 == chunk_start(pool@.len() as int, n_threads as int, j + 1),
            chunks@.len() == i,
            forall|j: int|
                0 <= j < i ==> translator::requests_model((#[trigger] chunks@[j])@)
                    == requests_between(
                    pool@,
                    chunk_start(pool@.len() as int, n_threads as int, j),
                    chunk_start(pool@.len() as int, n_threads as int, j + 1),
                ),
            forall|j: int, k: int|
                0 <= j < i && 0 <= k < chunks@[j]@.len() ==> (
                #[trigger] chunks@[j]@[k]).source_text@ == pool@[chunk_start(
                    pool@.len() as int,
                    n_threads as int,
                    j,
                ) + k]@,
            forall|j: int|
                0 <= j < i ==> (#[trigger] chunks@[j])@.len() == chunk_start(
                    pool@.len() as int,
                    n_threads as int,
                    j + 1,
                ) - chunk_start(pool@.len() as int, n_threads as int, j),
        decreases n_threads - i,
    {
        proof {
            chunk_step(pool@.len() as int, n_threads as int, i as int);
        }
        let (from, to) = bounds[i];
        let mut chunk: Vec<TranslationRequest> = Vec::new();
        let mut k: usize = from;
        while k < to
            invariant
                from <= k <= to <= pool@.len(),
                chunk@.len() == k - from,
                forall|j: int|
                    0 <= j < chunk@.len() ==> (#[trigger] chunk@[j])@ == request::plain_request(
                        pool@[from + j]@,
                    ) && chunk@[j].source_text@ == pool@[from + j]@,
            decreases to - k,
        {
            chunk.push(TranslationRequest::new(pool[k]));
            k += 1;
        }
        assert(translator::requests_model(chunk@) =~= requests_between(
            pool@,
            from as int,
            to as int,
        ));
        chunks.push(chunk);
        i += 1;
    }
    chunks
}

/// Requests for the texts from one place to another.
pub open spec fn requests_between(texts: Seq<&str>, from: int, to: int) -> Seq<
    request::RequestModel,
> {
    Seq::new((to - from) as nat, |k: int| request::plain_request(texts[from + k]@))
}

/// How many translations succeeded and how many failed.
#[derive(Debug, Clone, Copy, PartialEq, Eq, Structural)]
pub struct Throughput {
    pub ok: usize,
    pub fail: usize,
}

/// How many of some results are responses.
pub open spec fn responses_among(
    results: Seq<Result<TranslationResponse, TranslationError>>,
) -> nat
    decreases results.len(),
{
    if results.len() == 0 {
        0
    } else {
        responses_among(results.drop_last()) + if results.last() is Ok {
            1nat
        } else {
            0nat
        }
    }
}

/// Counts the results of a batch.
pub fn tally(results: &[Result<TranslationResponse, TranslationError>]) -> (throughput: Throughput)
    ensures
        throughput.ok == responses_among(results@),
        throughput.ok + throughput.fail == results@.len(),
{
    let mut ok: usize = 0;
    let mut i: usize = 0;
    assert(results@.take(0) =~= Seq::empty());
    while i < results.len()
        invariant
            i <= results@.len(),
            ok <= i,
            ok == responses_among(results@.take(i as int)),
        decreases results.len() - i,
    {
        assert(results@.take(i + 1).drop_last() =~= results@.take(i as int));
        if results[i].is_ok() {
            ok += 1;
        }
        i += 1;
    }
    assert(results@.take(results@.len() as int) =~= results@);
    Throughput { ok, fail: results.len() - ok }
}

/// How many of some outputs are not empty.
pub open spec fn outputs_among(outputs: Seq<Seq<char>>) -> nat
    decreases outputs.len(),
{
    if outputs.len() == 0 {
        0
    } else {
        outputs_among(outputs.drop_last()) + if outputs.last().len() > 0 {
            1nat
        } else {
            0nat
        }
    }
}

/// Counts the processes that put something out.
pub fn tally_outputs(outputs: &[String]) -> (throughput: Throughput)
    ensures
        throughput.ok == outputs_among(text::texts_of(outputs@)),
        throughput.ok + throughput.fail == outputs@.len(),
{
    let mut ok: usize = 0;
    let mut i: usize = 0;
    let ghost all = text::texts_of(outputs@);
    assert(all.take(0) =~= Seq::empty());
    while i < outputs.len()
        invariant
            i <= outputs@.len(),
            ok <= i,
            all == text::texts_of(outputs@),
            ok == outputs_among(all.take(i as int)),
        decreases outputs.len() - i,
    {
        assert(all.take(i + 1).drop_last() =~= all.take(i as int));
        if !outputs[i].as_str().is_empty() {
            ok += 1;
        }
        i += 1;
    }
    assert(all.take(all.len() as int) =~= all);
    Throughput { ok, fail: outputs.len() - ok }
}

/// The successes of some counts together.
pub open spec fn total_ok(parts: Seq<Throughput>) -> nat
    decreases parts.len(),
{
    if parts.len() == 0 {
        0
    } else {
        total_ok(parts.drop_last()) + parts.last().ok as nat
    }
}

/// The failures of some counts together.
pub open spec fn total_fail(parts: Seq<Throughput>) -> nat
    decreases parts.len(),
{
    if parts.len() == 0 {
        0
    } else {
        total_fail(parts.drop_last()) + parts.last().fail as nat
    }
}

/// The totals of some of the first counts are no larger than those of all.
proof fn totals_grow(parts: Seq<Throughput>, i: int)
    requires
        0 <= i <= parts.len(),
    ensures
        total_ok(parts.take(i)) <= total_ok(parts),
        total_fail(parts.take(i)) <= total_fail(parts),
    decreases parts.len(),
{
    if i == parts.len() {
        assert(parts.take(i) =~= parts);
    } else {
        totals_grow(parts.drop_last(), i);
        assert(parts.drop_last().take(i) =~= parts.take(i));
    }
}

/// Puts the counts of several threads together.
pub fn merge(parts: &[Throughput]) -> (whole: Throughput)
    requires
        total_ok(parts@) <= usize::MAX,
        total_fail(parts@) <= usize::MAX,
    ensures
        whole.ok == total_ok(parts@),
        whole.fail == total_fail(parts@),
{
    let mut ok: usize = 0;
    let mut fail: usize = 0;
    let mut i: usize = 0;
    assert(parts@.take(0) =~= Seq::empty());
    while i < parts.len()
        invariant
            i <= parts@.len(),
            total_ok(parts@) <= usize::MAX,
            total_fail(parts@) <= usize::MAX,
            ok == total_ok(parts@.take(i as int)),
            fail == total_fail(parts@.take(i as int)),
        decreases parts.len() - i,
    {
        proof {
            totals_grow(parts@, i + 1);
            assert(parts@.take(i + 1).drop_last() =~= parts@.take(i as int));
            assert(parts@.take(i + 1).last() == parts@[i as int]);
        }
        ok += parts[i].ok;
        fail += parts[i].fail;
        i += 1;
    }
    assert(parts@.take(parts@.len() as int) =~= parts@);
    Throughput { ok, fail }
}

/// How many of some rounds had a failure.
pub open spec fn failing_among(rounds: Seq<Throughput>) -> nat
    decreases rounds.len(),
{
    if rounds.len() == 0 {
        0
    } else {
        failing_among(rounds.drop_last()) + if rounds.last().fail > 0 {
            1nat
        } else {
            0nat
        }
    }
}

/// Counts the rounds that had a failure.
pub fn failing_rounds(rounds: &[Throughput]) -> (failed: usize)
    ensures
        failed == failing_among(rounds@),
        failed <= rounds@.len(),
{
    let mut failed: usize = 0;
    let mut i: usize = 0;
    assert(rounds@.take(0) =~= Seq::empty());
    while i < rounds.len()
        invariant
            i <= rounds@.len(),
            failed <= i,
            failed == failing_among(rounds@.take(i as int)),
        decreases rounds.len() - i,
    {
        assert(rounds@.take(i + 1).drop_last() =~= rounds@.take(i as int));
        if rounds[i].fail > 0 {
            failed += 1;
        }
        i += 1;
    }
    assert(rounds@.take(rounds@.len() as int) =~= rounds@);
    failed
}

/// How many texts a round of batches translates.
pub const BATCH_TEXTS: usize = 40;

/// How often each thread of a parallel round translates its text.
pub const CALLS_PER_THREAD: usize = 20;

/// How many threads or processes each round of a run has, in order: one at
/// first, and twice as many each time.
pub fn round_sizes() -> (sizes: Vec<usize>)
    ensures
        sizes@ == seq![1usize, 2usize, 4usize, 8usize, 16usize],
{
    vec![1, 2, 4, 8, 16]
}

/// How often a run failed: once where it could not begin, for want of a
/// translator or of its first translation, and else in each round that had a
/// failure.
pub fn stress_result(ready: bool, rounds: &[Throughput]) -> (failed: usize)
    ensures
        failed == (if !ready {
            1
        } else {
            failing_among(rounds@)
        }),
{
    if ready {
        failing_rounds(rounds)
    } else {
        1
    }
}

/// A run fails exactly where one of its rounds had a failure.
pub proof fn a_run_fails_with_any_round(rounds: Seq<Throughput>)
    ensures
        failing_among(rounds) > 0 <==> exists|i: int|
            0 <= i < rounds.len() && (#[trigger] rounds[i]).fail > 0,
    decreases rounds.len(),
{
    if rounds.len() > 0 {
        a_run_fails_with_any_round(rounds.drop_last());
        if exists|i: int| 0 <= i < rounds.len() && (#[trigger] rounds[i]).fail > 0 {
            let i = choose|i: int| 0 <= i < rounds.len() && (#[trigger] rounds[i]).fail > 0;
            if i < rounds.len() - 1 {
                assert(rounds.drop_last()[i].fail > 0);
            }
        }
        if failing_among(rounds.drop_last()) > 0 {
            let i = choose|i: int|
                0 <= i < rounds.drop_last().len() && (#[trigger] rounds.drop_last()[i]).fail > 0;
            assert(rounds[i].fail > 0);
        }
        if rounds.last().fail > 0 {
            assert(rounds[rounds.len() - 1].fail > 0);
        }
    }
}

/// How much text was translated: the length of one text as often as it was.
pub fn translated_length(throughput: Throughput, chars_per_item: usize) -> (total: usize)
    requires
        throughput.ok * chars_per_item <= usize::MAX,
    ensures
        total == throughput.ok * chars_per_item,
{
    throughput.ok * chars_per_item
}

/// The translations among some results, in order.
pub open spec fn translations_among(
    results: Seq<Result<TranslationResponse, TranslationError>>,
) -> Seq<Seq<char>>
    decreases results.len(),
{
    if results.len() == 0 {
        Seq::empty()
    } else {
        match results.last() {
            Ok(response) => translations_among(results.drop_last()).push(response.target_text@),
            Err(_) => translations_among(results.drop_last()),
        }
    }
}

/// The lines that a batch worker puts out: the translations among its
/// results, in order.
pub fn worker_lines(results: &[Result<TranslationResponse, TranslationError>]) -> (lines: Vec<
    String,
>)
    ensures
        text::texts_of(lines@) == translations_among(results@),
{
    let mut lines: Vec<String> = Vec::new();
    let mut i: usize = 0;
    assert(results@.take(0) =~= Seq::empty());
    assert(text::texts_of(lines@) =~= Seq::empty());
    while i < results.len()
        invariant
            i <= results@.len(),
            text::texts_of(lines@) == translations_among(results@.take(i as int)),
        decreases results.len() - i,
    {
        assert(results@.take(i + 1).drop_last() =~= results@.take(i as int));
        match &results[i] {
            Ok(response) => {
                let ghost before = text::texts_of(lines@);
                lines.push(response.target_text.clone());
                assert(text::texts_of(lines@) =~= before.push(response.target_text@));
            },
            Err(_) => {},
        }
        i += 1;
    }
    assert(results@.take(results@.len() as int) =~= results@);
    lines
}

/// The line that a worker for one long text puts out: its translation, where
/// there is one.
pub fn worker_line(results: &[Result<TranslationResponse, TranslationError>]) -> (line: Option<
    String,
>)
    ensures
        text::text_of(line) == (if results@.len() > 0 && results@[0] is Ok {
            Some(results@[0]->Ok_0.target_text@)
        } else {
            None
        }),
{
    if results.len() == 0 {
        return None;
    }
    match &results[0] {
        Ok(response) => Some(response.target_text.clone()),
        Err(_) => None,
    }
}

/// A response counts once, wherever it stands, and an error does not count.
pub proof fn each_response_counts_once(before: Seq<Result<TranslationResponse, TranslationError>>, behind: Seq<Result<TranslationResponse, TranslationError>>, one: Result<TranslationResponse, TranslationError>)
    ensures
        responses_among(before + behind) == responses_among(before) + responses_among(behind),
        responses_among(seq![one]) == (if one is Ok {
            1nat
        } else {
            0nat
        }),
        responses_among(Seq::empty()) == 0,
    decreases behind.len(),
{
    let single = seq![one];
    assert(single.drop_last() =~= Seq::empty());
    assert(single.last() == one);
    assert(responses_among(Seq::empty()) == 0);
    if behind.len() == 0 {
        assert(before + behind =~= before);
    } else {
        assert((before + behind).drop_last() =~= before + behind.drop_last());
        assert((before + behind).last() == behind.last());
        each_response_counts_once(before, behind.drop_last(), one);
    }
}

/// An output counts once, wherever it stands, where it is not empty.
pub proof fn each_output_counts_once(before: Seq<Seq<char>>, behind: Seq<Seq<char>>, one: Seq<char>)
    ensures
        outputs_among(before + behind) == outputs_among(before) + outputs_among(behind),
        outputs_among(seq![one]) == (if one.len() > 0 {
            1nat
        } else {
            0nat
        }),
        outputs_among(Seq::empty()) == 0,
    decreases behind.len(),
{
    let single = seq![one];
    assert(single.drop_last() =~= Seq::empty());
    assert(single.last() == one);
    assert(outputs_among(Seq::empty()) == 0);
    if behind.len() == 0 {
        assert(before + behind =~= before);
    } else {
        assert((before + behind).drop_last() =~= before + behind.drop_last());
        assert((before + behind).last() == behind.last());
        each_output_counts_once(before, behind.drop_last(), one);
    }
}

/// The successes of some counts together are those of each.
pub proof fn successes_add_up(before: Seq<Throughput>, behind: Seq<Throughput>, one: Throughput)
    ensures
        total_ok(before + behind) == total_ok(before) + total_ok(behind),
        total_ok(seq![one]) == one.ok as nat,
        total_ok(Seq::empty()) == 0,
    decreases behind.len(),
{
    let single = seq![one];
    assert(single.drop_last() =~= Seq::empty());
    assert(single.last() == one);
    assert(total_ok(Seq::empty()) == 0);
    if behind.len() == 0 {
        assert(before + behind =~= before);
    } else {
        assert((before + behind).drop_last() =~= before + behind.drop_last());
        assert((before + behind).last() == behind.last());
        successes_add_up(before, behind.drop_last(), one);
    }
}

/// The failures of some counts together are those of each.
pub proof fn failures_add_up(before: Seq<Throughput>, behind: Seq<Throughput>, one: Throughput)
    ensures
        total_fail(before + behind) == total_fail(before) + total_fail(behind),
        total_fail(seq![one]) == one.fail as nat,
        total_fail(Seq::empty()) == 0,
    decreases behind.len(),
{
    let single = seq![one];
    assert(single.drop_last() =~= Seq::empty());
    assert(single.last() == one);
    assert(total_fail(Seq::empty()) == 0);
    if behind.len() == 0 {
        assert(before + behind =~= before);
    } else {
        assert((before + behind).drop_last() =~= before + behind.drop_last());
        assert((before + behind).last() == behind.last());
        failures_add_up(before, behind.drop_last(), one);
    }
}

/// A round counts once, however many failures it had, where it had one.
pub proof fn each_failing_round_counts_once(before: Seq<Throughput>, behind: Seq<Throughput>, one: Throughput)
    ensures
        failing_among(before + behind) == failing_among(before) + failing_among(behind),
        failing_among(seq![one]) == (if one.fail > 0 {
            1nat
        } else {
            0nat
        }),
        failing_among(Seq::empty()) == 0,
    decreases behind.len(),
{
    let single = seq![one];
    assert(single.drop_last() =~= Seq::empty());
    assert(single.last() == one);
    assert(failing_among(Seq::empty()) == 0);
    if behind.len() == 0 {
        assert(before + behind =~= before);
    } else {
        assert((before + behind).drop_last() =~= before + behind.drop_last());
        assert((before + behind).last() == behind.last());
        each_failing_round_counts_once(before, behind.drop_last(), one);
    }
}

/// The translations among results that stand one behind the other are those
/// among the first and those among the rest; a response has its own, and an
/// error has none.
pub proof fn translations_stand_in_the_order_of_their_results(
    before: Seq<Result<TranslationResponse, TranslationError>>,
    behind: Seq<Result<TranslationResponse, TranslationError>>,
    response: TranslationResponse,
    failure: TranslationError,
)
    ensures
        translations_among(before + behind) == translations_among(before) + translations_among(
            behind,
        ),
        translations_among(seq![Ok::<TranslationResponse, TranslationError>(response)])
            == seq![response.target_text@],
        translations_among(seq![Err::<TranslationResponse, TranslationError>(failure)])
            == Seq::<Seq<char>>::empty(),
        translations_among(Seq::empty()) == Seq::<Seq<char>>::empty(),
    decreases behind.len(),
{
    let good = seq![Ok::<TranslationResponse, TranslationError>(response)];
    let bad = seq![Err::<TranslationResponse, TranslationError>(failure)];
    assert(translations_among(Seq::empty()) == Seq::<Seq<char>>::empty());
    assert(good.drop_last() =~= Seq::empty());
    assert(good.last() == Ok::<TranslationResponse, TranslationError>(response));
    assert(translations_among(good) =~= seq![response.target_text@]);
    assert(bad.drop_last() =~= Seq::empty());
    assert(bad.last() == Err::<TranslationResponse, TranslationError>(failure));
    if behind.len() == 0 {
        assert(before + behind =~= before);
        assert(translations_among(before) + translations_among(behind) =~= translations_among(
            before,
        ));
    } else {
        let all = before + behind;
        assert(all.drop_last() =~= before + behind.drop_last());
        assert(all.last() == behind.last());
        translations_stand_in_the_order_of_their_results(
            before,
            behind.drop_last(),
            response,
            failure,
        );
        assert(translations_among(all) =~= translations_among(before) + translations_among(behind));
    }
}

/// The first argument chooses the run, a worker's run is chosen with the second,
/// and those behind them count for nothing. What is no run and no help is
/// refused by its name.
pub proof fn the_first_arguments_choose_the_run(args: Seq<Seq<char>>, more: Seq<Seq<char>>)
    requires
        args.len() > 0,
    ensures
        args.len() >= 2 ==> chosen_mode(args + more) == chosen_mode(args),
        args[0] != "worker"@ ==> chosen_mode(args + more) == chosen_mode(args),
        args[0] == "worker"@ && args.len() > 1 && args[1] == "long"@ ==> chosen_mode(args)
            == ChoiceModel::Run(Mode::WorkerLong),
        args[0] == "worker"@ && !(args.len() > 1 && args[1] == "long"@) ==> chosen_mode(args)
            == ChoiceModel::Run(Mode::WorkerBatch),
        chosen_mode(args) is Unknown <==> args[0] != "all"@ && args[0] != "functional"@ && args[0]
            != "harness"@ && args[0] != "smoke"@ && args[0] != "batch"@ && args[0] != "short"@
            && args[0] != "long"@ && args[0] != "parallel"@ && args[0] != "worker"@ && args[0]
            != "-h"@ && args[0] != "--help"@ && args[0] != "help"@,
        chosen_mode(args) is Unknown ==> chosen_mode(args)->Unknown_0 == "unknown stress mode: "@
            + args[0],
{
    assert((args + more)[0] == args[0]);
    if args.len() >= 2 {
        assert((args + more)[1] == args[1]);
    }
    reveal_strlit("worker");
    reveal_strlit("all");
    reveal_strlit("functional");
    reveal_strlit("harness");
    reveal_strlit("smoke");
    reveal_strlit("batch");
    reveal_strlit("short");
    reveal_strlit("long");
    reveal_strlit("parallel");
    assert("worker"@[0] == 'w');
    assert("all"@[0] == 'a' && "functional"@[0] == 'f' && "harness"@[0] == 'h' && "smoke"@[0] == 's');
    assert("batch"@[0] == 'b' && "short"@[0] == 's' && "long"@[0] == 'l' && "parallel"@[0] == 'p');
}

/// The requests for the texts from one place to another are as many as the
/// places, one for the text at each, in order and without identifiers.
pub proof fn requests_are_made_for_the_texts_in_order(
    texts: Seq<&str>,
    from: int,
    to: int,
    k: int,
)
    requires
        0 <= from <= from + k < to <= texts.len(),
        0 <= k,
    ensures
        requests_between(texts, from, to).len() == to - from,
        requests_between(texts, from, to)[k].source_text == texts[from + k]@,
        requests_between(texts, from, to)[k].client_identifier is None,
{
}

/// A choice stands for the run, the help or the message that it is.
pub proof fn a_choice_is_what_it_holds(choice: ModeChoice)
    ensures
        match choice {
            ModeChoice::Run(mode) => choice@ == ChoiceModel::Run(mode),
            ModeChoice::Usage => choice@ is Usage,
            ModeChoice::Unknown(message) => choice@ == ChoiceModel::Unknown(message@),
        },
{
}

} // verus!
