//! The lazy cell: one domain's declared keys and its provider, built on
//! first use.

use vstd::prelude::*;
use crate::error::DataError;
use crate::key::{contains_key, ResourceKey};
use crate::request::{DataRequest, ResourceOptions};

verus! {

/// Where a cell stands. A cell starts `Unbuilt`, moves once to `Built` or to
/// `Failed`, and never moves again.
#[derive(Debug)]
pub enum CellState<P> {
    /// Nothing has asked for this domain yet.
    Unbuilt,
    /// The provider was built and is kept for every later request.
    Built(P),
    /// Building failed; the error is kept and given to every later request.
    Failed(DataError),
}

/// What a cell does with a key.
#[derive(Clone, Copy, Debug, PartialEq, Eq, Structural)]
pub enum Step {
    /// The key is not one of the cell's keys: the cell declines.
    Skip,
    /// The key is the cell's and the provider has not been built: build it.
    Build,
    /// The key is the cell's and the provider is there: ask it.
    Serve,
    /// The key is the cell's and building failed: repeat that error.
    Replay,
}

/// The state after a build attempt ended in `outcome`: an unbuilt cell takes
/// the outcome, any other cell stays as it is.
pub open spec fn settled<P>(state: CellState<P>, outcome: Result<P, DataError>) -> CellState<P> {
    match state {
        CellState::Unbuilt => match outcome {
            Ok(provider) => CellState::Built(provider),
            Err(error) => CellState::Failed(error),
        },
        _ => state,
    }
}

/// How a cell that owns the key answers one question.
///
/// `before` and `after` are the cell's states around the call, `built` says
/// which outcomes the build step can have, `ask` puts the question `query` to
/// a provider, and `out` is the answer given.
///
/// A built cell is left alone and answers what its provider answers. A failed
/// cell is left alone and answers its kept error. An unbuilt cell takes one
/// outcome of the build step, and then answers as a cell in that state does.
pub open spec fn answered<P, Q, A, F: FnOnce(&P, &Q) -> Result<A, DataError>>(
    before: CellState<P>,
    after: CellState<P>,
    built: spec_fn(Result<P, DataError>) -> bool,
    ask: F,
    query: &Q,
    out: Result<A, DataError>,
) -> bool {
    match before {
        CellState::Built(provider) => after == before && call_ensures(ask, (&provider, query), out),
        CellState::Failed(error) => after == before && out == Err::<A, DataError>(error),
        CellState::Unbuilt => match after {
            CellState::Built(provider) => built(Ok(provider)) && call_ensures(
                ask,
                (&provider, query),
                out,
            ),
            CellState::Failed(error) => built(Err(error)) && out == Err::<A, DataError>(error),
            CellState::Unbuilt => false,
        },
    }
}

/// A cell as the contracts see it: the keys that the domain declares, in the
/// order of declaration, and where the cell stands.
pub struct CellView<P> {
    pub keys: Seq<ResourceKey>,
    pub state: CellState<P>,
}

impl<P> CellView<P> {
    /// Whether `key` is one of the declared keys.
    pub open spec fn owns(self, key: ResourceKey) -> bool {
        self.keys.contains(key)
    }

    /// What the cell does with `key`.
    pub open spec fn step(self, key: ResourceKey) -> Step {
        if !self.owns(key) {
            Step::Skip
        } else {
            match self.state {
                CellState::Unbuilt => Step::Build,
                CellState::Built(_) => Step::Serve,
                CellState::Failed(_) => Step::Replay,
            }
        }
    }

    /// What asking the cell about `key` needs of the two callbacks: where the
    /// cell would build, `build` can be called, and `ask` can be put to
    /// whatever provider `build` gives; where the cell holds a provider, `ask`
    /// can be put to it.
    ///
    /// Nothing else is asked, so nothing else is done: a cell that does not
    /// own `key`, or that has been built or has failed before, never calls
    /// `build`, and `ask` is put to no provider but the cell's own.
    pub open spec fn callable<Q, A, B: FnOnce() -> Result<P, DataError>, F: FnOnce(&P, &Q) -> Result<
        A,
        DataError,
    >>(self, key: ResourceKey, build: B, ask: F, query: &Q) -> bool {
        self.owns(key) ==> match self.state {
            CellState::Unbuilt => call_requires(build, ()) && forall|p: P|
                call_ensures(build, (), Ok::<P, DataError>(p)) ==> #[trigger] call_requires(
                    ask,
                    (&p, query),
                ),
            CellState::Built(p) => call_requires(ask, (&p, query)),
            CellState::Failed(_) => true,
        }
    }

    /// How the cell, `self` before and `after` after, answers one question
    /// about `key`. Its keys stay. A cell that does not own `key` declines
    /// with `None` and stays as it is; a cell that owns it answers `Some`, as
    /// [`answered`] describes.
    pub open spec fn asked<Q, A, F: FnOnce(&P, &Q) -> Result<A, DataError>>(
        self,
        after: Self,
        key: ResourceKey,
        built: spec_fn(Result<P, DataError>) -> bool,
        ask: F,
        query: &Q,
        out: Option<Result<A, DataError>>,
    ) -> bool {
        &&& after.keys == self.keys
        &&& if self.owns(key) {
            out is Some && answered(self.state, after.state, built, ask, query, out.unwrap())
        } else {
            out is None && after.state == self.state
        }
    }
}

/// One domain of the registry: the keys it declares and, once something has
/// asked for one of them, its provider or the error that building it gave.
#[derive(Debug)]
pub struct LazyCldrProvider<P> {
    keys: Vec<ResourceKey>,
    state: CellState<P>,
}

impl<P> View for LazyCldrProvider<P> {
    type V = CellView<P>;

    closed spec fn view(&self) -> CellView<P> {
        CellView { keys: self.keys@, state: self.state }
    }
}

impl<P> LazyCldrProvider<P> {
    /// An unbuilt cell for the domain that declares `keys`.
    pub fn new(keys: Vec<ResourceKey>) -> (cell: Self)
        ensures
            cell@.keys == keys@,
            cell@.state is Unbuilt,
    {
        LazyCldrProvider { keys, state: CellState::Unbuilt }
    }

    /// The declared keys.
    pub fn keys(&self) -> (keys: &Vec<ResourceKey>)
        ensures
            keys@ == self@.keys,
    {
        &self.keys
    }

    /// Whether `key` is one of the declared keys. Looks at the declaration
    /// only: nothing is built.
    pub fn supports_key(&self, key: &ResourceKey) -> (mine: bool)
        ensures
            mine == self@.owns(*key),
    {
        contains_key(&self.keys, key)
    }

    /// Whether the provider has been built.
    pub fn is_built(&self) -> (built: bool)
        ensures
            built == (self@.state is Built),
    {
        match &self.state {
            CellState::Built(_) => true,
            _ => false,
        }
    }

    /// Whether a build has been tried, with either outcome.
    pub fn is_settled(&self) -> (done: bool)
        ensures
            done == !(self@.state is Unbuilt),
    {
        match &self.state {
            CellState::Unbuilt => false,
            _ => true,
        }
    }

    /// The provider, once built.
    pub fn provider(&self) -> (provider: Option<&P>)
        ensures
            match self@.state {
                CellState::Built(p) => provider == Some(&p),
                _ => provider is None,
            },
    {
        match &self.state {
            CellState::Built(p) => Some(p),
            _ => None,
        }
    }

    /// The kept build error, once building has failed.
    pub fn failure(&self) -> (error: Option<DataError>)
        ensures
            match self@.state {
                CellState::Failed(e) => error == Some(e),
                _ => error is None,
            },
    {
        match &self.state {
            CellState::Failed(e) => Some(e.clone()),
            _ => None,
        }
    }

    /// What the cell does with `key`.
    pub fn next_step(&self, key: &ResourceKey) -> (step: Step)
        ensures
            step == self@.step(*key),
    {
        if !self.supports_key(key) {
            Step::Skip
        } else {
            match &self.state {
                CellState::Unbuilt => Step::Build,
                CellState::Built(_) => Step::Serve,
                CellState::Failed(_) => Step::Replay,
            }
        }
    }

    /// Records how a build attempt ended. Only an unbuilt cell takes the
    /// outcome; a cell that already holds a provider or an error keeps it.
    pub fn settle(&mut self, outcome: Result<P, DataError>)
        ensures
            final(self)@.keys == old(self)@.keys,
            final(self)@.state == settled(old(self)@.state, outcome),
    {
        if let CellState::Unbuilt = self.state {
            self.state = match outcome {
                Ok(provider) => CellState::Built(provider),
                Err(error) => CellState::Failed(error),
            };
        }
    }

    /// Puts the question `query`, which is about `key`, to this cell.
    ///
    /// A cell that does not own `key` declines with `None`, untouched and
    /// without building. A cell that owns it builds its provider with `build`
    /// if no build was tried before, and answers `Some`: what `ask` gets from
    /// the provider, or the build error, kept from now on.
    pub fn try_ask<Q, A, B: FnOnce() -> Result<P, DataError>, F: FnOnce(&P, &Q) -> Result<
        A,
        DataError,
    >>(&mut self, key: &ResourceKey, query: &Q, build: B, ask: F) -> (out: Option<
        Result<A, DataError>,
    >)
        requires
            old(self)@.callable(*key, build, ask, query),
        ensures
            old(self)@.asked(
                final(self)@,
                *key,
                |r: Result<P, DataError>| call_ensures(build, (), r),
                ask,
                query,
                out,
            ),
    {
        if !self.supports_key(key) {
            return None;
        }
        if let CellState::Unbuilt = self.state {
            let outcome = build();
            self.settle(outcome);
        }
        match &self.state {
            CellState::Built(provider) => Some(ask(provider, query)),
            CellState::Failed(error) => Some(Err(error.clone())),
            CellState::Unbuilt => None,
        }
    }

    /// Loads the data for `req` if its key is this cell's: see [`Self::try_ask`].
    pub fn try_load<R, B: FnOnce() -> Result<P, DataError>, F: FnOnce(&P, &DataRequest) -> Result<
        R,
        DataError,
    >>(&mut self, req: &DataRequest, build: B, serve: F) -> (out: Option<Result<R, DataError>>)
        requires
            old(self)@.callable(req.key, build, serve, req),
        ensures
            old(self)@.asked(
                final(self)@,
                req.key,
                |r: Result<P, DataError>| call_ensures(build, (), r),
                serve,
                req,
                out,
            ),
    {
        self.try_ask(&req.key, req, build, serve)
    }

    /// Lists the options held under `key` if the key is this cell's: see
    /// [`Self::try_ask`].
    pub fn try_supported_options<B: FnOnce() -> Result<P, DataError>, F: FnOnce(
        &P,
        &ResourceKey,
    ) -> Result<Vec<ResourceOptions>, DataError>>(
        &mut self,
        key: &ResourceKey,
        build: B,
        list: F,
    ) -> (out: Option<Result<Vec<ResourceOptions>, DataError>>)
        requires
            old(self)@.callable(*key, build, list, key),
        ensures
            old(self)@.asked(
                final(self)@,
                *key,
                |r: Result<P, DataError>| call_ensures(build, (), r),
                list,
                key,
                out,
            ),
    {
        self.try_ask(key, key, build, list)
    }
}

} // verus!
