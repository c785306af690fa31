//! The composite registry: one lazy cell per domain, and the routing of every
//! request to the one domain that owns its key.

use vstd::prelude::*;
use crate::catalog::{cldr_keys, extend, CldrDomain, DOMAIN_COUNT};
use crate::cell::{answered, settled, CellState, CellView, LazyCldrProvider};
use crate::error::DataError;
use crate::key::{disjoint, ResourceKey};
use crate::request::{DataRequest, ResourceOptions};

verus! {

/// A key that a new domain declares although an earlier domain owns it.
#[derive(Clone, Copy, Debug, PartialEq, Eq, Structural)]
pub struct KeyConflict {
    /// The key declared twice.
    pub key: ResourceKey,
    /// The domain that owned it first.
    pub owner: usize,
}

/// What the registry does with a key.
#[derive(Clone, Copy, Debug, PartialEq, Eq, Structural)]
pub enum Route {
    /// No domain owns the key.
    Missing,
    /// The domain owns the key and has not been built: build it.
    Build(usize),
    /// The domain owns the key and its provider is there: ask it.
    Serve(usize),
    /// The domain owns the key and building it failed: repeat that error.
    Replay(usize),
}

/// A registry as the contracts see it: the data source it was made with, and
/// its domains in the fixed order in which they are consulted.
pub struct RegistryView<S, P> {
    pub source: S,
    pub domains: Seq<CellView<P>>,
}

impl<S, P> RegistryView<S, P> {
    /// Whether `i` is a domain that declares `key`.
    pub open spec fn claims(self, i: int, key: ResourceKey) -> bool {
        0 <= i < self.domains.len() && self.domains[i].owns(key)
    }

    /// The registry is well formed when no key is declared by two domains.
    pub open spec fn wf(self) -> bool {
        forall|i: int, j: int|
            0 <= i < j < self.domains.len() ==> disjoint(
                (#[trigger] self.domains[i]).keys,
                (#[trigger] self.domains[j]).keys,
            )
    }

    /// The first domain at or after `from` that declares `key`.
    pub open spec fn owner_from(self, key: ResourceKey, from: int) -> Option<int>
        decreases self.domains.len() - from,
    {
        if from < 0 || from >= self.domains.len() {
            None
        } else if self.domains[from].owns(key) {
            Some(from)
        } else {
            self.owner_from(key, from + 1)
        }
    }

    /// The domain that answers for `key`: the first that declares it.
    pub open spec fn owner(self, key: ResourceKey) -> Option<int> {
        self.owner_from(key, 0)
    }

    /// The declared keys of the first `n` domains, one domain after the other.
    pub open spec fn keys_of_first(self, n: int) -> Seq<ResourceKey>
        decreases n,
    {
        if n <= 0 {
            Seq::empty()
        } else {
            self.keys_of_first(n - 1) + self.domains[n - 1].keys
        }
    }

    /// Every key that the registry can ever answer for: the declared keys of
    /// all domains, in the order of the domains.
    pub open spec fn catalog(self) -> Seq<ResourceKey> {
        self.keys_of_first(self.domains.len() as int)
    }

    /// What the registry does with `key`.
    pub open spec fn route(self, key: ResourceKey) -> Route {
        match self.owner(key) {
            None => Route::Missing,
            Some(i) => match self.domains[i].state {
                CellState::Unbuilt => Route::Build(i as usize),
                CellState::Built(_) => Route::Serve(i as usize),
                CellState::Failed(_) => Route::Replay(i as usize),
            },
        }
    }

    /// What checking `key` against the declarations gives.
    pub open spec fn validation(self, key: ResourceKey) -> Result<(), DataError> {
        if self.owner(key) is Some {
            Ok(())
        } else {
            Err(DataError::MissingResourceKey(key))
        }
    }

    /// Whether `after` has the source and the domains of `self` with the same
    /// keys, and the same state in every domain but, possibly, `touched`.
    pub open spec fn same_but(self, after: Self, touched: int) -> bool {
        &&& after.source == self.source
        &&& after.domains.len() == self.domains.len()
        &&& forall|j: int|
            0 <= j < self.domains.len() ==> (#[trigger] after.domains[j]).keys
                == self.domains[j].keys
        &&& forall|j: int|
            0 <= j < self.domains.len() && j != touched ==> (#[trigger] after.domains[j]).state
                == self.domains[j].state
    }

    /// The registry with one more domain, unbuilt, that declares `keys`.
    pub open spec fn with_domain(self, keys: Seq<ResourceKey>) -> Self {
        RegistryView {
            source: self.source,
            domains: self.domains.push(CellView { keys, state: CellState::Unbuilt }),
        }
    }

    /// What a question about `key` needs of the two callbacks: where the owner
    /// of `key` would build, `build` can be called for it, and `ask` can be
    /// put to whatever provider `build` gives; where the owner holds a
    /// provider, `ask` can be put to it.
    ///
    /// Nothing else is asked, so nothing else is done: `build` is never called
    /// for a key without an owner, for a domain other than the owner, or for
    /// an owner that has been built or has failed before, and `ask` is put to
    /// no provider but the owner's.
    pub open spec fn callable<Q, A, B: FnOnce(usize, &S) -> Result<P, DataError>, F: FnOnce(
        &P,
        &Q,
    ) -> Result<A, DataError>>(self, key: ResourceKey, build: B, ask: F, query: &Q) -> bool {
        match self.owner(key) {
            None => true,
            Some(i) => 0 <= i < self.domains.len() ==> match self.domains[i].state {
                CellState::Unbuilt => call_requires(build, (i as usize, &self.source))
                    && forall|p: P|
                    call_ensures(build, (i as usize, &self.source), Ok::<P, DataError>(p))
                        ==> #[trigger] call_requires(ask, (&p, query)),
                CellState::Built(p) => call_requires(ask, (&p, query)),
                CellState::Failed(_) => true,
            },
        }
    }

    /// How the registry answers one question about `key`, where `self` is the
    /// registry before and `after` the registry after.
    ///
    /// With no owner the answer is `MissingResourceKey` and nothing changes.
    /// Otherwise only the owner's cell may change, and the answer is the
    /// owner's answer, as [`answered`] describes it, with a build step whose
    /// possible outcomes for domain `i` are those `r` with `built(i, r)`.
    pub open spec fn dispatched<Q, A, F: FnOnce(&P, &Q) -> Result<A, DataError>>(
        self,
        after: Self,
        key: ResourceKey,
        built: spec_fn(int, Result<P, DataError>) -> bool,
        ask: F,
        query: &Q,
        out: Result<A, DataError>,
    ) -> bool {
        match self.owner(key) {
            None => self.same_but(after, -1) && out == Err::<A, DataError>(
                DataError::MissingResourceKey(key),
            ),
            Some(i) => self.same_but(after, i) && answered(
                self.domains[i].state,
                after.domains[i].state,
                |r: Result<P, DataError>| built(i, r),
                ask,
                query,
                out,
            ),
        }
    }

    /// The first owner is a claimant with no claimant before it, and there is
    /// no owner only where there is no claimant.
    pub proof fn lemma_owner_from(self, key: ResourceKey, from: int)
        requires
            0 <= from,
        ensures
            match self.owner_from(key, from) {
                Some(i) => from <= i && self.claims(i, key) && forall|j: int|
                    from <= j < i ==> !self.claims(j, key),
                None => forall|j: int| from <= j ==> !self.claims(j, key),
            },
        decreases self.domains.len() - from,
    {
        if from < self.domains.len() && !self.domains[from].owns(key) {
            self.lemma_owner_from(key, from + 1);
        }
    }

    /// A registry with the same declarations is as well formed.
    pub proof fn lemma_same_keys_keep_wf(self, after: Self, touched: int)
        requires
            self.wf(),
            self.same_but(after, touched),
        ensures
            after.wf(),
    {
        assert forall|i: int, j: int| 0 <= i < j < after.domains.len() implies disjoint(
            (#[trigger] after.domains[i]).keys,
            (#[trigger] after.domains[j]).keys,
        ) by {
            assert(disjoint(self.domains[i].keys, self.domains[j].keys));
        }
    }
}

/// A data provider made of several domains, each with its own keys and its
/// own provider, built when first needed.
#[derive(Debug)]
pub struct CldrJsonDataProvider<S, P> {
    /// Where the domains' source data is found; handed to the build step.
    pub cldr_paths: S,
    cells: Vec<LazyCldrProvider<P>>,
}

impl<S, P> View for CldrJsonDataProvider<S, P> {
    type V = RegistryView<S, P>;

    closed spec fn view(&self) -> RegistryView<S, P> {
        RegistryView {
            source: self.cldr_paths,
            domains: self.cells@.map_values(|cell: LazyCldrProvider<P>| cell@),
        }
    }
}

impl<S, P> CldrJsonDataProvider<S, P> {
    /// The registry of the CLDR domains, each with the keys it declares and
    /// none of them built.
    pub fn new(cldr_paths: S) -> (registry: Self)
        ensures
            registry@.wf(),
            registry@.source == cldr_paths,
            registry@.domains.len() == DOMAIN_COUNT,
            forall|i: int|
                0 <= i < DOMAIN_COUNT ==> (#[trigger] registry@.domains[i]).state is Unbuilt
                    && CldrDomain::at(i) is Some && registry@.domains[i].keys == CldrDomain::at(
                    i,
                ).unwrap().declared(),
            registry@.catalog() == cldr_keys(),
    {
        let mut cells: Vec<LazyCldrProvider<P>> = Vec::new();
        let mut i: usize = 0;
        while i < DOMAIN_COUNT
            invariant
                i <= DOMAIN_COUNT,
                cells@.len() == i,
                forall|j: int|
                    0 <= j < i ==> (#[trigger] cells@[j])@.state is Unbuilt && CldrDomain::at(j) is Some
                        && cells@[j]@.keys == CldrDomain::at(j).unwrap().declared(),
            decreases DOMAIN_COUNT - i,
        {
            match CldrDomain::from_index(i) {
                Some(domain) => {
                    cells.push(LazyCldrProvider::new(domain.all_keys()));
                },
                None => {},
            }
            i += 1;
        }
        let registry = CldrJsonDataProvider { cldr_paths, cells };
        proof {
            let view = registry@;
            assert forall|j: int| 0 <= j < DOMAIN_COUNT implies (#[trigger] view.domains[j]).state is Unbuilt
                && view.domains[j].keys == CldrDomain::at(j).unwrap().declared() by {
                assert(view.domains[j] == registry.cells@[j]@);
            }
            assert forall|a: int, b: int| 0 <= a < b < view.domains.len() implies disjoint(
                (#[trigger] view.domains[a]).keys,
                (#[trigger] view.domains[b]).keys,
            ) by {
                let first = CldrDomain::at(a).unwrap();
                let second = CldrDomain::at(b).unwrap();
                assert(view.domains[a].keys == first.declared());
                assert(view.domains[b].keys == second.declared());
                assert forall|k: ResourceKey|
                    !(first.declared().contains(k) && second.declared().contains(k)) by {
                    if first.declared().contains(k) && second.declared().contains(k) {
                        first.lemma_declared_at_home(k);
                        second.lemma_declared_at_home(k);
                    }
                }
            }
            reveal_with_fuel(RegistryView::keys_of_first, 8);
            assert(view.domains[0].keys == CldrDomain::Aliases.declared());
            assert(view.domains[1].keys == CldrDomain::DateSymbols.declared());
            assert(view.domains[2].keys == CldrDomain::DatePatterns.declared());
            assert(view.domains[3].keys == CldrDomain::LikelySubtags.declared());
            assert(view.domains[4].keys == CldrDomain::Numbers.declared());
            assert(view.domains[5].keys == CldrDomain::Plurals.declared());
            assert(view.domains[6].keys == CldrDomain::TimeZones.declared());
            assert(view.catalog() =~= cldr_keys());
        }
        registry
    }

    /// A registry without domains.
    pub fn empty(cldr_paths: S) -> (registry: Self)
        ensures
            registry@.wf(),
            registry@.source == cldr_paths,
            registry@.domains.len() == 0,
    {
        CldrJsonDataProvider { cldr_paths, cells: Vec::new() }
    }

    /// The number of domains.
    pub fn domain_count(&self) -> (n: usize)
        ensures
            n == self@.domains.len(),
    {
        self.cells.len()
    }

    /// The domain that answers for `key`, if there is one. Looks at the
    /// declarations only: nothing is built.
    pub fn owner_of(&self, key: &ResourceKey) -> (found: Option<usize>)
        ensures
            match found {
                Some(i) => self@.owner(*key) == Some(i as int),
                None => self@.owner(*key) is None,
            },
    {
        let mut i: usize = 0;
        while i < self.cells.len()
            invariant
                i <= self.cells.len(),
                self@.owner(*key) == self@.owner_from(*key, i as int),
            decreases self.cells.len() - i,
        {
            assert(self@.domains[i as int] == self.cells@[i as int]@);
            if self.cells[i].supports_key(key) {
                return Some(i);
            }
            i += 1;
        }
        None
    }

    /// Adds a domain that declares `keys`, after the domains already there.
    ///
    /// The domain is refused, and the registry left as it was, when one of
    /// `keys` belongs to an earlier domain: the conflict names the first such
    /// key of `keys` and its owner.
    pub fn register(&mut self, keys: Vec<ResourceKey>) -> (added: Result<usize, KeyConflict>)
        requires
            old(self)@.wf(),
        ensures
            final(self)@.wf(),
            final(self)@.source == old(self)@.source,
            match added {
                Ok(i) => {
                    &&& i == old(self)@.domains.len()
                    &&& forall|n: int| 0 <= n < keys@.len() ==> old(self)@.owner(keys@[n]) is None
                    &&& final(self)@ == old(self)@.with_domain(keys@)
                },
                Err(conflict) => {
                    &&& final(self)@ == old(self)@
                    &&& exists|n: int|
                        {
                            &&& 0 <= n < keys@.len()
                            &&& conflict.key == keys@[n]
                            &&& old(self)@.owner(keys@[n]) == Some(conflict.owner as int)
                            &&& forall|m: int| 0 <= m < n ==> old(self)@.owner(keys@[m]) is None
                        }
                },
            },
    {
        let mut n: usize = 0;
        while n < keys.len()
            invariant
                n <= keys.len(),
                *self == *old(self),
                self@.wf(),
                forall|m: int| 0 <= m < n ==> self@.owner(keys@[m]) is None,
            decreases keys.len() - n,
        {
            match self.owner_of(&keys[n]) {
                Some(owner) => {
                    return Err(KeyConflict { key: keys[n], owner });
                },
                None => {},
            }
            n += 1;
        }
        let ghost declared = keys@;
        let ghost before = self@;
        let i: usize = self.cells.len();
        self.cells.push(LazyCldrProvider::new(keys));
        proof {
            let after = self@;
            assert(after.domains =~= before.with_domain(declared).domains);
            assert forall|a: int, b: int| 0 <= a < b < after.domains.len() implies disjoint(
                (#[trigger] after.domains[a]).keys,
                (#[trigger] after.domains[b]).keys,
            ) by {
                if b == i {
                    assert forall|k: ResourceKey|
                        !(after.domains[a].keys.contains(k) && declared.contains(k)) by {
                        if declared.contains(k) {
                            let m = choose|m: int| 0 <= m < declared.len() && declared[m] == k;
                            before.lemma_owner_from(declared[m], 0);
                            assert(!before.claims(a, k));
                        }
                    }
                } else {
                    assert(after.domains[a] == before.domains[a]);
                    assert(after.domains[b] == before.domains[b]);
                }
            }
        }
        Ok(i)
    }

    /// Checks that some domain declares `key`. Looks at the declarations
    /// only: nothing is built, and the options of a later request play no
    /// part.
    pub fn supports_key(&self, key: &ResourceKey) -> (checked: Result<(), DataError>)
        ensures
            checked == self@.validation(*key),
    {
        match self.owner_of(key) {
            Some(_) => Ok(()),
            None => Err(DataError::MissingResourceKey(*key)),
        }
    }

    /// Every key that the registry can ever answer for, domain after domain.
    /// Reads the declarations only: nothing is built.
    pub fn all_keys(&self) -> (keys: Vec<ResourceKey>)
        ensures
            keys@ == self@.catalog(),
    {
        let mut keys: Vec<ResourceKey> = Vec::new();
        let mut i: usize = 0;
        while i < self.cells.len()
            invariant
                i <= self.cells.len(),
                keys@ == self@.keys_of_first(i as int),
            decreases self.cells.len() - i,
        {
            assert(self@.domains[i as int] == self.cells@[i as int]@);
            extend(&mut keys, self.cells[i].keys());
            i += 1;
        }
        keys
    }

    /// What the registry does with `key`.
    pub fn next_step(&self, key: &ResourceKey) -> (route: Route)
        ensures
            route == self@.route(*key),
    {
        match self.owner_of(key) {
            None => Route::Missing,
            Some(i) => {
                proof {
                    self@.lemma_owner_from(*key, 0);
                    assert(self@.domains[i as int] == self.cells@[i as int]@);
                }
                if self.cells[i].is_built() {
                    Route::Serve(i)
                } else if self.cells[i].is_settled() {
                    Route::Replay(i)
                } else {
                    Route::Build(i)
                }
            },
        }
    }

    /// Records how building the provider of `domain` ended. Only an unbuilt
    /// domain takes the outcome; one that already holds a provider or an
    /// error keeps it. A `domain` that does not exist changes nothing.
    pub fn settle(&mut self, domain: usize, outcome: Result<P, DataError>)
        requires
            old(self)@.wf(),
        ensures
            final(self)@.wf(),
            old(self)@.same_but(final(self)@, domain as int),
            domain < old(self)@.domains.len() ==> final(self)@.domains[domain as int].state
                == settled(old(self)@.domains[domain as int].state, outcome),
    {
        let ghost before = self@;
        if domain < self.cells.len() {
            assert(before.domains[domain as int] == self.cells@[domain as int]@);
            self.cells[domain].settle(outcome);
        }
        proof {
            let after = self@;
            assert forall|j: int| 0 <= j < before.domains.len() implies (#[trigger] after.domains[j]).keys
                == before.domains[j].keys && (j != domain ==> after.domains[j].state
                == before.domains[j].state) by {
                assert(after.domains[j] == self.cells@[j]@);
                assert(before.domains[j] == old(self).cells@[j]@);
            }
            before.lemma_same_keys_keep_wf(after, domain as int);
        }
    }

    /// The provider of `domain`, once built.
    pub fn provider(&self, domain: usize) -> (provider: Option<&P>)
        ensures
            provider is Some <==> domain < self@.domains.len() && self@.domains[domain as int].state is Built,
            provider is Some ==> self@.domains[domain as int].state == CellState::Built(
                *provider.unwrap(),
            ),
    {
        if domain < self.cells.len() {
            assert(self@.domains[domain as int] == self.cells@[domain as int]@);
            self.cells[domain].provider()
        } else {
            None
        }
    }

    /// The kept build error of `domain`, once building has failed.
    pub fn failure(&self, domain: usize) -> (error: Option<DataError>)
        ensures
            error is Some <==> domain < self@.domains.len() && self@.domains[domain as int].state is Failed,
            error is Some ==> self@.domains[domain as int].state == CellState::<P>::Failed(
                error.unwrap(),
            ),
    {
        if domain < self.cells.len() {
            assert(self@.domains[domain as int] == self.cells@[domain as int]@);
            self.cells[domain].failure()
        } else {
            None
        }
    }

    /// Puts the question `query`, which is about `key`, to the domain that
    /// owns `key`.
    ///
    /// The domains are tried in their fixed order and the first that declares
    /// `key` answers: its provider is built with `build` if no build was tried
    /// before, and what `ask` gets from the provider, or the domain's build
    /// error, is the answer. No later domain is consulted, whatever the owner
    /// answers. Where no domain declares `key` the answer is
    /// `MissingResourceKey` and nothing is built.
    pub fn dispatch<Q, A, B: FnOnce(usize, &S) -> Result<P, DataError>, F: FnOnce(&P, &Q) -> Result<
        A,
        DataError,
    >>(&mut self, key: &ResourceKey, query: &Q, build: B, ask: F) -> (out: Result<A, DataError>)
        requires
            old(self)@.wf(),
            old(self)@.callable(*key, build, ask, query),
        ensures
            final(self)@.wf(),
            old(self)@.dispatched(
                final(self)@,
                *key,
                |i: int, r: Result<P, DataError>|
                    call_ensures(build, (i as usize, &old(self)@.source), r),
                ask,
                query,
                out,
            ),
    {
        let ghost before = self@;
        let mut i: usize = 0;
        while i < self.cells.len()
            invariant
                i <= self.cells.len(),
                *self == *old(self),
                before == self@,
                before.wf(),
                before.callable(*key, build, ask, query),
                before.owner(*key) == before.owner_from(*key, i as int),
            decreases self.cells.len() - i,
        {
            assert(before.domains[i as int] == self.cells@[i as int]@);
            if self.cells[i].supports_key(key) {
                let paths = &self.cldr_paths;
                let here = move || -> (r: Result<P, DataError>)
                    requires
                        call_requires(build, (i, paths)),
                    ensures
                        call_ensures(build, (i, paths), r),
                    { build(i, paths) };
                let claimed = self.cells[i].try_ask(key, query, here, ask);
                proof {
                    let after = self@;
                    assert forall|j: int| 0 <= j < before.domains.len() implies (
                    #[trigger] after.domains[j]).keys == before.domains[j].keys && (j != i
                        ==> after.domains[j].state == before.domains[j].state) by {
                        assert(after.domains[j] == self.cells@[j]@);
                        assert(before.domains[j] == old(self).cells@[j]@);
                    }
                    assert(after.domains[i as int] == self.cells@[i as int]@);
                    before.lemma_same_keys_keep_wf(after, i as int);
                }
                return match claimed {
                    Some(answer) => answer,
                    None => Err(DataError::MissingResourceKey(*key)),
                };
            }
            i += 1;
        }
        proof {
            before.lemma_owner_from(*key, 0);
        }
        Err(DataError::MissingResourceKey(*key))
    }

    /// Loads the data for `req` from the domain that owns its key: see
    /// [`Self::dispatch`].
    pub fn load_payload<R, B: FnOnce(usize, &S) -> Result<P, DataError>, F: FnOnce(
        &P,
        &DataRequest,
    ) -> Result<R, DataError>>(&mut self, req: &DataRequest, build: B, serve: F) -> (out: Result<
        R,
        DataError,
    >)
        requires
            old(self)@.wf(),
            old(self)@.callable(req.key, build, serve, req),
        ensures
            final(self)@.wf(),
            old(self)@.dispatched(
                final(self)@,
                req.key,
                |i: int, r: Result<P, DataError>|
                    call_ensures(build, (i as usize, &old(self)@.source), r),
                serve,
                req,
                out,
            ),
    {
        self.dispatch(&req.key, req, build, serve)
    }

    /// Lists the options that the owner of `resc_key` holds under it: see
    /// [`Self::dispatch`].
    pub fn supported_options_for_key<B: FnOnce(usize, &S) -> Result<P, DataError>, F: FnOnce(
        &P,
        &ResourceKey,
    ) -> Result<Vec<ResourceOptions>, DataError>>(
        &mut self,
        resc_key: &ResourceKey,
        build: B,
        list: F,
    ) -> (out: Result<Vec<ResourceOptions>, DataError>)
        requires
            old(self)@.wf(),
            old(self)@.callable(*resc_key, build, list, resc_key),
        ensures
            final(self)@.wf(),
            old(self)@.dispatched(
                final(self)@,
                *resc_key,
                |i: int, r: Result<P, DataError>|
                    call_ensures(build, (i as usize, &old(self)@.source), r),
                list,
                resc_key,
                out,
            ),
    {
        self.dispatch(resc_key, resc_key, build, list)
    }
}

} // verus!
