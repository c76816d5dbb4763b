//! Which worker serves a language pair, and which pairs are served by none.
use vstd::hash_map::StringHashMap;
use vstd::hash_set::StringHashSet;
use vstd::prelude::*;

verus! {

/// The key under which a language pair is filed.
pub open spec fn pair_text(source: Seq<char>, target: Seq<char>) -> Seq<char> {
    source + "->"@ + target
}

/// The key under which a language pair is filed.
pub fn pair_key(source: &str, target: &str) -> (key: String)
    ensures
        key@ == pair_text(source@, target@),
        key@ == source@ + seq!['-', '>'] + target@,
{
    let mut key = source.to_owned();
    key.append("->");
    key.append(target);
    proof {
        reveal_strlit("->");
        assert("->"@ =~= seq!['-', '>']);
    }
    key
}

/// A pool, and the number that tells it from every other pool that is alive.
pub struct PooledWorker<P> {
    pub id: usize,
    pub pool: P,
}

/// The pools that are in use, one for a language pair at most.
#[verifier::reject_recursive_types(P)]
pub struct PoolCache<P> {
    pools: StringHashMap<PooledWorker<P>>,
}

impl<P> View for PoolCache<P> {
    type V = Map<Seq<char>, PooledWorker<P>>;

    closed spec fn view(&self) -> Map<Seq<char>, PooledWorker<P>> {
        self.pools@
    }
}

/// The language pairs whose worker has failed.
pub struct DisabledPairs {
    pairs: StringHashSet,
}

impl View for DisabledPairs {
    type V = Set<Seq<char>>;

    closed spec fn view(&self) -> Set<Seq<char>> {
        self.pairs@
    }
}

impl DisabledPairs {
    /// That no pair's worker has failed.
    pub fn new() -> (disabled: DisabledPairs)
        ensures
            disabled@ == Set::<Seq<char>>::empty(),
    {
        DisabledPairs { pairs: StringHashSet::new() }
    }
}

/// Which worker is to serve a language pair.
pub enum PoolLookup<'a, P> {
    /// None: the pair's worker has failed.
    Disabled,
    /// The one that is in use.
    Cached(&'a PooledWorker<P>),
    /// One that is to be created and filed.
    Missing,
}

impl<P> PoolCache<P> {
    /// That no pool is in use.
    pub fn new() -> (cache: PoolCache<P>)
        ensures
            cache@ == Map::<Seq<char>, PooledWorker<P>>::empty(),
    {
        PoolCache { pools: StringHashMap::new() }
    }

    /// Files a new pool for a language pair.
    pub fn file(&mut self, source: &str, target: &str, worker: PooledWorker<P>)
        ensures
            final(self)@ == old(self)@.insert(pair_text(source@, target@), worker),
    {
        self.pools.insert(pair_key(source, target), worker);
    }
}

/// Looks up the worker for a language pair.
pub fn worker_pool_for<'a, P>(
    disabled: &DisabledPairs,
    cache: &'a PoolCache<P>,
    source: &str,
    target: &str,
) -> (lookup: PoolLookup<'a, P>)
    ensures
        match lookup {
            PoolLookup::Disabled => disabled@.contains(pair_text(source@, target@)),
            PoolLookup::Cached(worker) => {
                &&& !disabled@.contains(pair_text(source@, target@))
                &&& cache@.contains_key(pair_text(source@, target@))
                &&& *worker == cache@[pair_text(source@, target@)]
            },
            PoolLookup::Missing => {
                &&& !disabled@.contains(pair_text(source@, target@))
                &&& !cache@.contains_key(pair_text(source@, target@))
            },
        },
{
    let key = pair_key(source, target);
    if disabled.pairs.contains(key.as_str()) {
        return PoolLookup::Disabled;
    }
    match cache.pools.get(key.as_str()) {
        Some(worker) => PoolLookup::Cached(worker),
        None => PoolLookup::Missing,
    }
}

/// The pools in use once the pool `id` has been discarded.
pub open spec fn without_pool<P>(
    pools: Map<Seq<char>, PooledWorker<P>>,
    key: Seq<char>,
    id: usize,
) -> Map<Seq<char>, PooledWorker<P>> {
    if pools.contains_key(key) && pools[key].id == id {
        pools.remove(key)
    } else {
        pools
    }
}

/// Discards the pool `id` of a language pair. A pool that has taken its place
/// stays.
pub fn discard_worker_pool<P>(cache: &mut PoolCache<P>, source: &str, target: &str, id: usize)
    ensures
        final(cache)@ == without_pool(old(cache)@, pair_text(source@, target@), id),
{
    let key = pair_key(source, target);
    let same = match cache.pools.get(key.as_str()) {
        Some(worker) => worker.id == id,
        None => false,
    };
    if same {
        cache.pools.remove(key.as_str());
    }
}

/// Records that the worker of a language pair has failed: from now on no
/// worker serves the pair.
pub fn disable_worker_pair(disabled: &mut DisabledPairs, source: &str, target: &str)
    ensures
        final(disabled)@ == old(disabled)@.insert(pair_text(source@, target@)),
{
    let key = pair_key(source, target);
    disabled.pairs.insert(key);
}

/// Two language pairs are filed under one key exactly where they are the same
/// pair, or the longer source is the shorter one, an arrow and some text, and
/// that text with an arrow begins the other's target.
pub proof fn pairs_of_one_key(
    source1: Seq<char>,
    target1: Seq<char>,
    source2: Seq<char>,
    target2: Seq<char>,
)
    ensures
        pair_text(source1, target1) == pair_text(source2, target2) <==> {
            ||| source1 == source2 && target1 == target2
            ||| exists|between: Seq<char>| splits_at(source1, target1, source2, target2, between)
            ||| exists|between: Seq<char>| splits_at(source2, target2, source1, target1, between)
        },
{
    reveal_strlit("->");
    if pair_text(source1, target1) == pair_text(source2, target2) {
        if source1.len() <= source2.len() {
            equal_keys_split(source1, target1, source2, target2);
        } else {
            equal_keys_split(source2, target2, source1, target1);
        }
    }
    if exists|between: Seq<char>| splits_at(source1, target1, source2, target2, between) {
        let between = choose|between: Seq<char>|
            splits_at(source1, target1, source2, target2, between);
        assert(pair_text(source1, target1) =~= pair_text(source2, target2));
    }
    if exists|between: Seq<char>| splits_at(source2, target2, source1, target1, between) {
        let between = choose|between: Seq<char>|
            splits_at(source2, target2, source1, target1, between);
        assert(pair_text(source1, target1) =~= pair_text(source2, target2));
    }
}

/// Whether the second source is the first one, an arrow and `between`, and the
/// first target is `between`, an arrow and the second target.
pub open spec fn splits_at(
    source1: Seq<char>,
    target1: Seq<char>,
    source2: Seq<char>,
    target2: Seq<char>,
    between: Seq<char>,
) -> bool {
    source2 == source1 + "->"@ + between && target1 == between + "->"@ + target2
}

/// Two pairs of one key, the first with the shorter source, are the same or
/// split.
proof fn equal_keys_split(
    source1: Seq<char>,
    target1: Seq<char>,
    source2: Seq<char>,
    target2: Seq<char>,
)
    requires
        pair_text(source1, target1) == pair_text(source2, target2),
        source1.len() <= source2.len(),
    ensures
        source1 == source2 && target1 == target2 || exists|between: Seq<char>|
            splits_at(source1, target1, source2, target2, between),
{
    reveal_strlit("->");
    let key1 = pair_text(source1, target1);
    let key2 = pair_text(source2, target2);
    let n1 = source1.len() as int;
    let n2 = source2.len() as int;
    assert(key1.take(n1) =~= source1);
    assert(key2.take(n2) =~= source2);
    assert(key1.skip(n1 + 2) =~= target1);
    assert(key2.skip(n2 + 2) =~= target2);
    if n1 < n2 {
        assert(key1[n1] == '-' && key1[n1 + 1] == '>');
        assert(key2[n2] == '-' && key2[n2 + 1] == '>');
        let between = key1.subrange(n1 + 2, n2);
        assert(source2 =~= source1 + "->"@ + between);
        assert(target1 =~= between + "->"@ + target2);
        assert(splits_at(source1, target1, source2, target2, between));
    }
}

/// Whether an arrow occurs in a text.
pub open spec fn holds_arrow(s: Seq<char>) -> bool {
    exists|i: int| 0 <= i < s.len() - 1 && #[trigger] s[i] == '-' && s[i + 1] == '>'
}

/// Pairs whose source languages hold no arrow are filed under one key only
/// where they are the same pair.
pub proof fn keys_tell_pairs_apart(
    source1: Seq<char>,
    target1: Seq<char>,
    source2: Seq<char>,
    target2: Seq<char>,
)
    requires
        !holds_arrow(source1),
        !holds_arrow(source2),
        pair_text(source1, target1) == pair_text(source2, target2),
    ensures
        source1 == source2,
        target1 == target2,
{
    reveal_strlit("->");
    pairs_of_one_key(source1, target1, source2, target2);
    if exists|between: Seq<char>| splits_at(source1, target1, source2, target2, between) {
        assert(source2[source1.len() as int] == '-' && source2[source1.len() as int + 1] == '>');
    }
    if exists|between: Seq<char>| splits_at(source2, target2, source1, target1, between) {
        assert(source1[source2.len() as int] == '-' && source1[source2.len() as int + 1] == '>');
    }
}

/// Once a pair's worker has been discarded and the pair disabled, the pair has
/// no pool in use, is disabled for good, and no other pair has lost its pool
/// or been disabled.
pub proof fn a_failed_worker_is_gone<P>(
    pools: Map<Seq<char>, PooledWorker<P>>,
    disabled: Set<Seq<char>>,
    key: Seq<char>,
    id: usize,
    other: Seq<char>,
)
    requires
        pools.contains_key(key) ==> pools[key].id == id,
        other != key,
    ensures
        !without_pool(pools, key, id).contains_key(key),
        disabled.insert(key).contains(key),
        disabled.insert(key).insert(other).contains(key),
        without_pool(pools, key, id).contains_key(other) == pools.contains_key(other),
        pools.contains_key(other) ==> without_pool(pools, key, id)[other] == pools[other],
        disabled.insert(key).contains(other) == disabled.contains(other),
{
}

/// The key of a language pair is the source, an arrow and the target.
pub proof fn a_key_is_the_pair_with_an_arrow_between(source: Seq<char>, target: Seq<char>)
    ensures
        pair_text(source, target) == source + seq!['-', '>'] + target,
{
    reveal_strlit("->");
    assert("->"@ =~= seq!['-', '>']);
}

/// Discarding a pool takes it away and no other: not one of another pair, and
/// not one that has taken its place.
pub proof fn only_the_pool_itself_is_discarded<P>(
    pools: Map<Seq<char>, PooledWorker<P>>,
    key: Seq<char>,
    id: usize,
    other: Seq<char>,
)
    ensures
        without_pool(pools, key, id).contains_key(other) <==> pools.contains_key(other) && !(other
            == key && pools[key].id == id),
        without_pool(pools, key, id).contains_key(other) ==> without_pool(pools, key, id)[other]
            == pools[other],
{
}

} // verus!
