//! What holds of every registry, proved from the contracts of its functions.

use vstd::prelude::*;
use crate::cell::{settled, CellState, CellView, Step};
use crate::error::DataError;
use crate::key::{disjoint, ResourceKey};
use crate::registry::{RegistryView, Route};
use crate::request::DataRequest;

verus! {

/// A cell that has taken the outcome of one build attempt is settled for
/// good: it is no longer unbuilt, and the outcome of any further attempt
/// leaves it as it is.
pub proof fn lemma_settled_once<P>(
    state: CellState<P>,
    first: Result<P, DataError>,
    second: Result<P, DataError>,
)
    ensures
        !(settled(state, first) is Unbuilt),
        settled(settled(state, first), second) == settled(state, first),
{
}

/// A cell plans a build only while it is unbuilt: once it holds a provider
/// or an error, no key makes it build again.
pub proof fn lemma_no_second_build<P>(cell: CellView<P>, key: ResourceKey)
    ensures
        cell.step(key) == Step::Build ==> cell.state is Unbuilt,
        !cell.owns(key) ==> cell.step(key) == Step::Skip,
{
}

impl<S, P> RegistryView<S, P> {
    /// The declared key sets of two different domains of a well-formed
    /// registry have no key in common.
    pub proof fn lemma_domains_disjoint(self, i: int, j: int)
        requires
            self.wf(),
            0 <= i < self.domains.len(),
            0 <= j < self.domains.len(),
            i != j,
        ensures
            disjoint(self.domains[i].keys, self.domains[j].keys),
    {
        if i < j {
            assert(disjoint(self.domains[i].keys, self.domains[j].keys));
        } else {
            assert(disjoint(self.domains[j].keys, self.domains[i].keys));
        }
    }

    /// In a well-formed registry the order of the domains does not decide who
    /// answers: a domain that declares a key is its owner, and the only
    /// domain that declares it.
    pub proof fn lemma_claimant_is_owner(self, i: int, key: ResourceKey)
        requires
            self.wf(),
            self.claims(i, key),
        ensures
            self.owner(key) == Some(i),
            forall|j: int| self.claims(j, key) ==> j == i,
    {
        self.lemma_owner_from(key, 0);
        assert forall|j: int| self.claims(j, key) implies j == i by {
            if j != i {
                self.lemma_domains_disjoint(i, j);
            }
        }
    }

    /// A key is in the first `n` domains' part of the catalog exactly when
    /// one of those domains declares it.
    pub proof fn lemma_keys_of_first(self, n: int, key: ResourceKey)
        requires
            0 <= n <= self.domains.len(),
        ensures
            self.keys_of_first(n).contains(key) <==> exists|i: int|
                0 <= i < n && self.claims(i, key),
        decreases n,
    {
        if n > 0 {
            self.lemma_keys_of_first(n - 1, key);
            let head = self.keys_of_first(n - 1);
            let tail = self.domains[n - 1].keys;
            if head.contains(key) {
                let at = choose|at: int| 0 <= at < head.len() && head[at] == key;
                assert((head + tail)[at] == key);
                let i = choose|i: int| 0 <= i < n - 1 && self.claims(i, key);
                assert(0 <= i < n && self.claims(i, key));
            } else if tail.contains(key) {
                let at = choose|at: int| 0 <= at < tail.len() && tail[at] == key;
                assert((head + tail)[head.len() + at] == key);
                assert(self.claims(n - 1, key));
            } else {
                if (head + tail).contains(key) {
                    let at = choose|at: int| 0 <= at < (head + tail).len() && (head + tail)[at] == key;
                    if at < head.len() {
                        assert(head[at] == key);
                    } else {
                        assert(tail[at - head.len()] == key);
                    }
                }
                if exists|i: int| 0 <= i < n && self.claims(i, key) {
                    let i = choose|i: int| 0 <= i < n && self.claims(i, key);
                    if i < n - 1 {
                        assert(0 <= i < n - 1 && self.claims(i, key));
                    }
                }
            }
        }
    }

    /// The catalog holds exactly the keys that have an owner.
    pub proof fn lemma_catalog_is_the_owned_keys(self, key: ResourceKey)
        ensures
            self.catalog().contains(key) <==> self.owner(key) is Some,
    {
        self.lemma_keys_of_first(self.domains.len() as int, key);
        self.lemma_owner_from(key, 0);
        if self.owner(key) is Some {
            assert(self.claims(self.owner(key).unwrap(), key));
        }
    }

    /// A registry in which some domain declares a key has a catalog that is
    /// not empty.
    pub proof fn lemma_catalog_not_empty(self, i: int)
        requires
            0 <= i < self.domains.len(),
            self.domains[i].keys.len() > 0,
        ensures
            self.catalog().len() > 0,
    {
        let key = self.domains[i].keys[0];
        assert(self.claims(i, key));
        self.lemma_keys_of_first(self.domains.len() as int, key);
    }

    /// A key outside the catalog is missing everywhere: the check of the key
    /// alone says `MissingResourceKey`, the registry plans nothing for it,
    /// and any question about it is answered with the same error, with no
    /// domain built or changed.
    pub proof fn lemma_unknown_key_is_missing<Q, A, F: FnOnce(&P, &Q) -> Result<A, DataError>>(
        self,
        after: Self,
        key: ResourceKey,
        built: spec_fn(int, Result<P, DataError>) -> bool,
        ask: F,
        query: &Q,
        out: Result<A, DataError>,
    )
        requires
            !self.catalog().contains(key),
            self.dispatched(after, key, built, ask, query, out),
        ensures
            self.validation(key) == Err::<(), DataError>(DataError::MissingResourceKey(key)),
            self.route(key) == Route::Missing,
            out == Err::<A, DataError>(DataError::MissingResourceKey(key)),
            forall|j: int|
                0 <= j < self.domains.len() ==> (#[trigger] after.domains[j]).state
                    == self.domains[j].state,
    {
        self.lemma_catalog_is_the_owned_keys(key);
    }

    /// The answer to a question about a key is the answer of the one domain
    /// that declares the key, whatever that answer is: where that domain
    /// holds the provider `p` after the call, `out` is what `ask` got from
    /// `p`, and every other domain is as it was.
    pub proof fn lemma_owner_answers<Q, A, F: FnOnce(&P, &Q) -> Result<A, DataError>>(
        self,
        after: Self,
        key: ResourceKey,
        built: spec_fn(int, Result<P, DataError>) -> bool,
        ask: F,
        query: &Q,
        out: Result<A, DataError>,
        i: int,
        p: P,
    )
        requires
            self.wf(),
            self.claims(i, key),
            self.dispatched(after, key, built, ask, query, out),
            after.domains[i].state == CellState::Built(p),
        ensures
            call_ensures(ask, (&p, query), out),
            forall|j: int|
                0 <= j < self.domains.len() && j != i ==> (#[trigger] after.domains[j]).state
                    == self.domains[j].state,
    {
        self.lemma_claimant_is_owner(i, key);
    }

    /// Where the provider of the domain that declares the key of a request
    /// can only say that it has nothing for the options of the request, that
    /// is the answer to the request: no other domain is asked in its place.
    pub proof fn lemma_unsupported_options_are_final<R, F: FnOnce(&P, &DataRequest) -> Result<
        R,
        DataError,
    >>(
        self,
        after: Self,
        req: &DataRequest,
        built: spec_fn(int, Result<P, DataError>) -> bool,
        serve: F,
        out: Result<R, DataError>,
        i: int,
        p: P,
    )
        requires
            self.wf(),
            self.claims(i, req.key),
            self.dispatched(after, req.key, built, serve, req, out),
            after.domains[i].state == CellState::Built(p),
            forall|r: Result<R, DataError>|
                call_ensures(serve, (&p, req), r) ==> r == Err::<R, DataError>(
                    DataError::UnsupportedOptions(*req),
                ),
        ensures
            out == Err::<R, DataError>(DataError::UnsupportedOptions(*req)),
    {
        self.lemma_owner_answers(after, req.key, built, serve, req, out, i, p);
    }

    /// A domain that holds a provider or a build error before a question
    /// holds the same after it, whatever the question is about, and neither
    /// before nor after does the registry plan a build for any of its keys:
    /// nothing is built twice.
    pub proof fn lemma_built_once<Q, A, F: FnOnce(&P, &Q) -> Result<A, DataError>>(
        self,
        after: Self,
        key: ResourceKey,
        built: spec_fn(int, Result<P, DataError>) -> bool,
        ask: F,
        query: &Q,
        out: Result<A, DataError>,
        i: int,
    )
        requires
            0 <= i < self.domains.len(),
            !(self.domains[i].state is Unbuilt),
            self.dispatched(after, key, built, ask, query, out),
        ensures
            after.domains[i].state == self.domains[i].state,
            forall|k: ResourceKey| self.owner(k) == Some(i) ==> !(self.route(k) is Build),
            forall|k: ResourceKey| after.owner(k) == Some(i) ==> !(after.route(k) is Build),
    {
        self.lemma_owner_from(key, 0);
    }

    /// A failed build is kept: a question about a key of a domain whose build
    /// has failed is answered with that domain's error, and nothing changes.
    pub proof fn lemma_failure_is_replayed<Q, A, F: FnOnce(&P, &Q) -> Result<A, DataError>>(
        self,
        after: Self,
        key: ResourceKey,
        built: spec_fn(int, Result<P, DataError>) -> bool,
        ask: F,
        query: &Q,
        out: Result<A, DataError>,
        i: int,
        error: DataError,
    )
        requires
            self.wf(),
            self.claims(i, key),
            self.domains[i].state == CellState::<P>::Failed(error),
            self.dispatched(after, key, built, ask, query, out),
        ensures
            out == Err::<A, DataError>(error),
            forall|j: int|
                0 <= j < self.domains.len() ==> (#[trigger] after.domains[j]).state
                    == self.domains[j].state,
    {
        self.lemma_claimant_is_owner(i, key);
    }

    /// The first question about a key of an unbuilt domain settles that
    /// domain: it takes one outcome of the build step, a provider or an
    /// error, and holds it from then on.
    pub proof fn lemma_first_question_settles<Q, A, F: FnOnce(&P, &Q) -> Result<A, DataError>>(
        self,
        after: Self,
        key: ResourceKey,
        built: spec_fn(int, Result<P, DataError>) -> bool,
        ask: F,
        query: &Q,
        out: Result<A, DataError>,
        i: int,
    )
        requires
            self.wf(),
            self.claims(i, key),
            self.domains[i].state is Unbuilt,
            self.dispatched(after, key, built, ask, query, out),
        ensures
            !(after.domains[i].state is Unbuilt),
            exists|outcome: Result<P, DataError>|
                built(i, outcome) && after.domains[i].state == settled(
                    self.domains[i].state,
                    outcome,
                ),
            after.domains[i].state is Failed ==> out == Err::<A, DataError>(
                after.domains[i].state->Failed_0,
            ),
    {
        self.lemma_claimant_is_owner(i, key);
        match after.domains[i].state {
            CellState::Built(p) => {
                let outcome = Ok::<P, DataError>(p);
                assert(built(i, outcome) && after.domains[i].state == settled(
                    self.domains[i].state,
                    outcome,
                ));
            },
            CellState::Failed(e) => {
                let outcome = Err::<P, DataError>(e);
                assert(built(i, outcome) && after.domains[i].state == settled(
                    self.domains[i].state,
                    outcome,
                ));
            },
            CellState::Unbuilt => {},
        }
    }

    /// From `from` on, a new domain at the end changes the first owner only of
    /// the keys that had none.
    pub proof fn lemma_with_domain_from(self, keys: Seq<ResourceKey>, key: ResourceKey, from: int)
        requires
            0 <= from <= self.domains.len(),
        ensures
            self.with_domain(keys).owner_from(key, from) == match self.owner_from(key, from) {
                Some(i) => Some(i),
                None => if keys.contains(key) {
                    Some(self.domains.len() as int)
                } else {
                    None
                },
            },
        decreases self.domains.len() - from,
    {
        let more = self.with_domain(keys);
        if from < self.domains.len() {
            assert(more.domains[from] == self.domains[from]);
            if !self.domains[from].owns(key) {
                self.lemma_with_domain_from(keys, key, from + 1);
            }
        } else {
            assert(more.domains[from].keys == keys);
            assert(more.owner_from(key, from + 1) is None);
        }
    }

    /// The order of the domains is fixed: a domain added later is consulted
    /// last, so every key keeps the owner it had, and the new domain owns
    /// those of its keys that had none.
    pub proof fn lemma_added_domain_comes_last(self, keys: Seq<ResourceKey>, key: ResourceKey)
        ensures
            self.owner(key) is Some ==> self.with_domain(keys).owner(key) == self.owner(key),
            self.owner(key) is None && keys.contains(key) ==> self.with_domain(keys).owner(key)
                == Some(self.domains.len() as int),
            self.owner(key) is None && !keys.contains(key) ==> self.with_domain(keys).owner(key)
                is None,
            self.with_domain(keys).catalog() == self.catalog() + keys,
    {
        self.lemma_with_domain_from(keys, key, 0);
        self.lemma_with_domain_keeps_keys(keys, self.domains.len() as int);
    }

    /// A new domain at the end leaves the catalog of the domains before it.
    pub proof fn lemma_with_domain_keeps_keys(self, keys: Seq<ResourceKey>, n: int)
        requires
            0 <= n <= self.domains.len(),
        ensures
            self.with_domain(keys).keys_of_first(n) == self.keys_of_first(n),
        decreases n,
    {
        if n > 0 {
            self.lemma_with_domain_keeps_keys(keys, n - 1);
            assert(self.with_domain(keys).domains[n - 1] == self.domains[n - 1]);
        }
    }
}

} // verus!
