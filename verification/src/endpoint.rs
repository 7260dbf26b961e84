//! The endpoint pool and its selection machinery: a generic, strategy-driven
//! selector that hands out the next backend endpoint to use.
//!
//! The pool is an ordered, non-empty collection of endpoint values. A
//! selection strategy may reorder the pool on every pick, but it can never
//! add, remove or duplicate elements: the multiset of endpoints is invariant
//! under any number of picks. Round robin — rotate the pool by one and return
//! the element that was at the front — is the one supplied strategy.
use std::collections::VecDeque;
use vstd::prelude::*;

verus! {

/// The closed set of selection strategies a configuration can ask for.
#[derive(Clone, Copy, Debug, PartialEq, Eq, Structural)]
pub enum Strategy {
    RoundRobin,
}

/// The error returned when a raw configuration string cannot be read as an
/// endpoint of the protocol engine in use.
#[derive(Clone, Copy, Debug, PartialEq, Eq, Structural)]
pub struct ParseError;

/// The fatal startup errors of selector construction.
#[derive(Clone, Copy, Debug, PartialEq, Eq, Structural)]
pub enum SelectorError {
    /// The configured endpoint list was empty.
    EmptyPool,
    /// The endpoint string at this index could not be parsed.
    InvalidEndpoint(usize),
}

/// An endpoint value that a pool can hold: it has a mathematical view and it
/// can be duplicated without changing that view, so that a strategy can both
/// keep an element in the pool and hand it out.
pub trait Endpoint: DeepView + Sized {
    /// Returns a copy of the endpoint that denotes the same value.
    fn duplicate(&self) -> (r: Self)
        ensures
            r.deep_view() == self.deep_view(),
    ;
}

/// A parser from a raw configuration string to an endpoint value; applied
/// once per configured endpoint, before the selector is built.
pub trait EndpointParser<T: Endpoint> {
    /// The meaning of a raw string: the endpoint it denotes, or `None` when
    /// it is malformed.
    spec fn spec_parse(&self, input: Seq<char>) -> Option<T::V>;

    /// Parses one raw endpoint string; fails exactly on the strings that
    /// denote no endpoint.
    fn parse_endpoint(&self, input: String) -> (r: Result<T, ParseError>)
        ensures
            match r {
                Ok(endpoint) => self.spec_parse(input@) == Some(endpoint.deep_view()),
                Err(_) => self.spec_parse(input@) is None,
            },
    ;
}

/// One rotation of the pool: the front element moves to the back.
pub open spec fn rotate_once<V>(pool: Seq<V>) -> Seq<V> {
    if pool.len() == 0 {
        pool
    } else {
        pool.drop_first().push(pool[0])
    }
}

/// The pool after `k` round-robin picks.
pub open spec fn rotate_k<V>(pool: Seq<V>, k: nat) -> Seq<V>
    decreases k,
{
    if k == 0 {
        pool
    } else {
        rotate_once(rotate_k(pool, (k - 1) as nat))
    }
}

/// The endpoint that the `k`-th round-robin pick returns (counting from 0),
/// on a pool whose initial order is `pool`.
pub open spec fn round_robin_pick<V>(pool: Seq<V>, k: nat) -> V
    recommends
        pool.len() > 0,
{
    pool[(k % pool.len()) as int]
}

/// A selection strategy: given the current pool it yields the next endpoint
/// and the pool's next state. Whatever the reordering, the multiset of
/// endpoints is preserved and the pick is drawn from the pool.
pub trait EndpointStrategy<T: Endpoint> {
    /// The pool's next state after one pick.
    spec fn spec_next(&self, pool: Seq<T::V>) -> Seq<T::V>;

    /// The endpoint that one pick on this pool returns.
    spec fn spec_pick(&self, pool: Seq<T::V>) -> T::V;

    /// Every strategy keeps the pool's cardinality and multiset intact, and
    /// picks an element of the pool.
    proof fn pool_preserved(&self, pool: Seq<T::V>)
        requires
            pool.len() > 0,
        ensures
            self.spec_next(pool).len() == pool.len(),
            self.spec_next(pool).to_multiset() == pool.to_multiset(),
            pool.contains(self.spec_pick(pool)),
    ;

    /// Advances the queue to its next state and returns the picked endpoint.
    fn next(&self, queue: &mut VecDeque<T>) -> (endpoint: T)
        requires
            old(queue)@.len() > 0,
        ensures
            final(queue).deep_view() == self.spec_next(old(queue).deep_view()),
            endpoint.deep_view() == self.spec_pick(old(queue).deep_view()),
    ;
}

/// Round robin: pop the front endpoint, append it to the back, return it.
pub struct RoundRobin;

impl<T: Endpoint> EndpointStrategy<T> for RoundRobin {
    open spec fn spec_next(&self, pool: Seq<T::V>) -> Seq<T::V> {
        rotate_once(pool)
    }

    open spec fn spec_pick(&self, pool: Seq<T::V>) -> T::V {
        pool[0]
    }

    proof fn pool_preserved(&self, pool: Seq<T::V>) {
        lemma_rotate_once_multiset(pool);
    }

    fn next(&self, queue: &mut VecDeque<T>) -> (endpoint: T) {
        let endpoint = queue.pop_front().unwrap();
        let copy = endpoint.duplicate();
        queue.push_back(copy);
        proof {
            assert(queue.deep_view() =~= rotate_once(old(queue).deep_view()));
        }
        endpoint
    }
}

/// The endpoint pool paired with its selection strategy. Built once at
/// startup from the configured endpoint strings; constructing it from an
/// empty list is a fatal configuration error, so a selector always holds a
/// non-empty pool.
pub struct EndpointSelector<T: Endpoint, S: EndpointStrategy<T>> {
    endpoints: VecDeque<T>,
    strategy: S,
}

impl<T: Endpoint, S: EndpointStrategy<T>> EndpointSelector<T, S> {
    /// The current pool, in order.
    pub closed spec fn pool(&self) -> Seq<T::V> {
        self.endpoints.deep_view()
    }

    /// The strategy this selector was built with.
    pub closed spec fn spec_strategy(&self) -> S {
        self.strategy
    }

    /// A selector is valid exactly when its pool is non-empty; `new`
    /// establishes this and `next` preserves it.
    pub open spec fn is_valid(&self) -> bool {
        self.pool().len() > 0
    }

    /// Parses every configured endpoint string and builds the selector.
    /// Fails on an empty endpoint list and on the first malformed endpoint
    /// string, and on nothing else.
    pub fn new<P: EndpointParser<T>>(endpoints: Vec<String>, parser: P, strategy: S) -> (r: Result<
        Self,
        SelectorError,
    >)
        ensures
            match r {
                Ok(selector) => {
                    &&& endpoints.deep_view().len() > 0
                    &&& selector.pool().len() == endpoints.deep_view().len()
                    &&& forall|i: int|
                        0 <= i < endpoints.deep_view().len() ==> #[trigger] parser.spec_parse(
                            endpoints.deep_view()[i],
                        ) == Some(selector.pool()[i])
                    &&& selector.spec_strategy() == strategy
                    &&& selector.is_valid()
                },
                Err(SelectorError::EmptyPool) => endpoints.deep_view().len() == 0,
                Err(SelectorError::InvalidEndpoint(i)) => {
                    &&& 0 <= i < endpoints.deep_view().len()
                    &&& parser.spec_parse(endpoints.deep_view()[i as int]) is None
                    &&& forall|j: int|
                        0 <= j < i ==> #[trigger] parser.spec_parse(
                            endpoints.deep_view()[j],
                        ) is Some
                },
            },
    {
        if endpoints.len() == 0 {
            return Err(SelectorError::EmptyPool);
        }
        let mut queue: VecDeque<T> = VecDeque::new();
        let mut i: usize = 0;
        while i < endpoints.len()
            invariant
                0 <= i <= endpoints.deep_view().len(),
                endpoints.deep_view().len() > 0,
                queue.deep_view().len() == i,
                forall|j: int|
                    0 <= j < i ==> #[trigger] parser.spec_parse(endpoints.deep_view()[j]) == Some(
                        queue.deep_view()[j],
                    ),
            decreases endpoints.deep_view().len() - i,
        {
            let raw = endpoints[i].clone();
            match parser.parse_endpoint(raw) {
                Ok(endpoint) => {
                    let ghost prev = queue.deep_view();
                    let ghost parsed = endpoint.deep_view();
                    queue.push_back(endpoint);
                    proof {
                        assert(endpoints.deep_view()[i as int] == endpoints@[i as int]@);
                        assert(queue.deep_view() =~= prev.push(parsed));
                    }
                },
                Err(_) => {
                    proof {
                        assert(endpoints.deep_view()[i as int] == endpoints@[i as int]@);
                    }
                    return Err(SelectorError::InvalidEndpoint(i));
                },
            }
            i = i + 1;
        }
        Ok(EndpointSelector { endpoints: queue, strategy })
    }

    /// Hands out the next endpoint per the active strategy and advances the
    /// pool to its next state. The pool's multiset of endpoints, and with it
    /// the selector's validity, is preserved.
    pub fn next(&mut self) -> (endpoint: T)
        requires
            old(self).is_valid(),
        ensures
            final(self).pool() == old(self).spec_strategy().spec_next(old(self).pool()),
            endpoint.deep_view() == old(self).spec_strategy().spec_pick(old(self).pool()),
            final(self).spec_strategy() == old(self).spec_strategy(),
            final(self).pool().to_multiset() == old(self).pool().to_multiset(),
            final(self).is_valid(),
    {
        proof {
            old(self).strategy.pool_preserved(old(self).pool());
        }
        self.strategy.next(&mut self.endpoints)
    }
}

/// Proof that one rotation neither adds, removes nor duplicates endpoints.
pub proof fn lemma_rotate_once_multiset<V>(pool: Seq<V>)
    requires
        pool.len() > 0,
    ensures
        rotate_once(pool).len() == pool.len(),
        rotate_once(pool).to_multiset() == pool.to_multiset(),
        pool.contains(pool[0]),
{
    broadcast use vstd::seq_lib::group_to_multiset_ensures;

    assert(pool.drop_first() =~= pool.remove(0));
    assert(pool[0] == pool.first());
    assert(rotate_once(pool).to_multiset() =~= pool.to_multiset()) by {
        assert(pool.remove(0).to_multiset() =~= pool.to_multiset().remove(pool[0]));
        assert(pool.contains(pool[0]));
        assert(pool.to_multiset().count(pool[0]) > 0);
    }
}

/// The pool after `k` round-robin picks is the original pool rotated by
/// `k`: position `i` holds the original element at `(i + k) mod size`.
pub proof fn lemma_rotate_k_index<V>(pool: Seq<V>, k: nat)
    requires
        pool.len() > 0,
    ensures
        rotate_k(pool, k).len() == pool.len(),
        forall|i: int|
            0 <= i < pool.len() ==> #[trigger] rotate_k(pool, k)[i] == pool[(i + k) % (
            pool.len() as int)],
    decreases k,
{
    let n = pool.len() as int;
    if k == 0 {
        assert forall|i: int| 0 <= i < n implies #[trigger] rotate_k(pool, k)[i] == pool[(i + k)
            % n] by {
            vstd::arithmetic::div_mod::lemma_small_mod(i as nat, n as nat);
        }
    } else {
        let prev = rotate_k(pool, (k - 1) as nat);
        lemma_rotate_k_index(pool, (k - 1) as nat);
        assert forall|i: int| 0 <= i < n implies #[trigger] rotate_k(pool, k)[i] == pool[(i + k)
            % n] by {
            if i < n - 1 {
                assert(rotate_k(pool, k)[i] == prev[i + 1]);
                assert(prev[i + 1] == pool[((i + 1) + (k - 1)) % n]);
            } else {
                assert(rotate_k(pool, k)[i] == prev[0]);
                assert(prev[0] == pool[(0 + (k - 1)) % n]);
                vstd::arithmetic::div_mod::lemma_mod_add_multiples_vanish(k - 1, n);
            }
        }
    }
}

/// Any number of round-robin picks leaves the pool's multiset of endpoints
/// — and so its size — unchanged.
pub proof fn lemma_rotate_k_multiset<V>(pool: Seq<V>, k: nat)
    requires
        pool.len() > 0,
    ensures
        rotate_k(pool, k).len() == pool.len(),
        rotate_k(pool, k).to_multiset() == pool.to_multiset(),
    decreases k,
{
    if k > 0 {
        lemma_rotate_k_multiset(pool, (k - 1) as nat);
        lemma_rotate_once_multiset(rotate_k(pool, (k - 1) as nat));
    }
}

/// The `k`-th pick of the round-robin strategy is the front of the pool it
/// sees, and that front is the original pool at index `k mod size`.
pub proof fn lemma_round_robin_pick_is_front<V>(pool: Seq<V>, k: nat)
    requires
        pool.len() > 0,
    ensures
        rotate_k(pool, k).len() == pool.len(),
        rotate_k(pool, k)[0] == round_robin_pick(pool, k),
{
    lemma_rotate_k_index(pool, k);
    assert(rotate_k(pool, k)[0] == pool[(0 + k as int) % (pool.len() as int)]);
}

/// Law (periodicity): the round-robin schedule has period `pool.len()` —
/// after one full cycle both the pool order and the pick repeat.
pub proof fn lemma_round_robin_periodic<V>(pool: Seq<V>, k: nat)
    requires
        pool.len() > 0,
    ensures
        rotate_k(pool, k + pool.len()) == rotate_k(pool, k),
        round_robin_pick(pool, k + pool.len()) == round_robin_pick(pool, k),
{
    let n = pool.len() as int;
    lemma_rotate_k_index(pool, k);
    lemma_rotate_k_index(pool, k + pool.len());
    assert forall|i: int| 0 <= i < n implies rotate_k(pool, k + pool.len())[i] == rotate_k(
        pool,
        k,
    )[i] by {
        vstd::arithmetic::div_mod::lemma_mod_add_multiples_vanish(i + k, n);
    }
    assert(rotate_k(pool, k + pool.len()) =~= rotate_k(pool, k));
    vstd::arithmetic::div_mod::lemma_mod_add_multiples_vanish(k as int, n);
}

/// Law (fair cycle): any window of `pool.len()` consecutive round-robin
/// picks — wherever it starts — returns the whole pool: it is the pool
/// rotated by the window's start, so its multiset equals the pool's
/// multiset, with no endpoint skipped and none returned twice beyond its
/// multiplicity in the pool. For the first window (`k == 0`) the picks are
/// the pool itself, in its original order.
pub proof fn lemma_round_robin_cycle<V>(pool: Seq<V>, k: nat)
    requires
        pool.len() > 0,
    ensures
        Seq::new(pool.len(), |i: int| round_robin_pick(pool, (k + i) as nat)) == rotate_k(pool, k),
        Seq::new(pool.len(), |i: int| round_robin_pick(pool, (k + i) as nat)).to_multiset()
            == pool.to_multiset(),
{
    let n = pool.len() as int;
    let window = Seq::new(pool.len(), |i: int| round_robin_pick(pool, (k + i) as nat));
    lemma_rotate_k_index(pool, k);
    assert forall|i: int| 0 <= i < n implies window[i] == rotate_k(pool, k)[i] by {
        assert(rotate_k(pool, k)[i] == pool[(i + k) % n]);
    }
    assert(window =~= rotate_k(pool, k));
    lemma_rotate_k_multiset(pool, k);
}

} // verus!
