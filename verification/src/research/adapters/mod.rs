//! Research sources and the registry that holds them.

pub mod arxiv;
pub mod common;
pub mod github;

pub use arxiv::ArXivAdapter;
pub use common::{AdapterConfig, HttpHelper, RateLimiter};
pub use github::GitHubAdapter;

use vstd::prelude::*;
use crate::commander::task_scheduler::AdapterChoice;
use crate::commander::{ResearchSource, SourceView};
use crate::research::traits::{ResearchAdapter, ResearchError};
use crate::sequence::{
    is_first_at, lemma_position_found, lemma_position_meaning, lemma_position_missing,
    none_satisfies, spec_position,
};

verus! {

/// The adapters that come with the library.
#[derive(Debug, PartialEq)]
pub enum BuiltinAdapter {
    GitHub(GitHubAdapter),
    ArXiv(ArXivAdapter),
}

impl ResearchAdapter for BuiltinAdapter {
    open spec fn spec_name(&self) -> Seq<char> {
        match self {
            BuiltinAdapter::GitHub(adapter) => adapter.spec_name(),
            BuiltinAdapter::ArXiv(adapter) => adapter.spec_name(),
        }
    }

    open spec fn spec_source(&self) -> SourceView {
        match self {
            BuiltinAdapter::GitHub(adapter) => adapter.spec_source(),
            BuiltinAdapter::ArXiv(adapter) => adapter.spec_source(),
        }
    }

    fn name(&self) -> (r: String) {
        match self {
            BuiltinAdapter::GitHub(adapter) => adapter.name(),
            BuiltinAdapter::ArXiv(adapter) => adapter.name(),
        }
    }

    fn source(&self) -> (r: ResearchSource) {
        match self {
            BuiltinAdapter::GitHub(adapter) => adapter.source(),
            BuiltinAdapter::ArXiv(adapter) => adapter.source(),
        }
    }
}

/// The adapters by name, in the order of their registration.
pub struct ResearchAdapterRegistry<A: ResearchAdapter> {
    adapters: Vec<A>,
}

/// No two adapters have the same name.
pub open spec fn spec_distinct_names<A: ResearchAdapter>(adapters: Seq<A>) -> bool {
    forall|i: int, j: int|
        0 <= i < j < adapters.len() ==> (#[trigger] adapters[i]).spec_name() != (
        #[trigger] adapters[j]).spec_name()
}

/// The adapters after `adapter` was registered: in the place of the one
/// with its name, or behind all others.
pub open spec fn spec_register<A: ResearchAdapter>(adapters: Seq<A>, adapter: A) -> Seq<A> {
    match spec_position(adapters, |a: A| a.spec_name() == adapter.spec_name()) {
        Some(at) => adapters.update(at, adapter),
        None => adapters.push(adapter),
    }
}

/// The adapters that passed their health check: an adapter without a
/// result counts as failed.
pub open spec fn spec_available<A: ResearchAdapter>(adapters: Seq<A>, health: Seq<bool>) -> Seq<A>
    decreases adapters.len(),
{
    if adapters.len() == 0 {
        Seq::empty()
    } else {
        let front = spec_available(adapters.drop_last(), health);
        if adapters.len() <= health.len() && health[adapters.len() - 1] {
            front.push(adapters.last())
        } else {
            front
        }
    }
}

impl<A: ResearchAdapter> View for ResearchAdapterRegistry<A> {
    type V = Seq<A>;

    closed spec fn view(&self) -> Seq<A> {
        self.adapters@
    }
}

impl<A: ResearchAdapter> ResearchAdapterRegistry<A> {
    /// No two adapters have the same name.
    pub open spec fn wf(&self) -> bool {
        spec_distinct_names(self@)
    }

    /// An empty registry.
    pub fn new() -> (r: Self)
        ensures
            r@ == Seq::<A>::empty(),
            r.wf(),
    {
        ResearchAdapterRegistry { adapters: Vec::new() }
    }

    /// Registers an adapter under its name. An adapter that was registered
    /// under that name is replaced.
    pub fn register(&mut self, adapter: A) -> (r: Result<(), ResearchError>)
        ensures
            r is Ok,
            final(self)@ == spec_register(old(self)@, adapter),
            old(self).wf() ==> final(self).wf(),
    {
        let ghost before = self.adapters@;
        let ghost same = |a: A| a.spec_name() == adapter.spec_name();
        let name = adapter.name();
        let mut at: usize = 0;
        while at < self.adapters.len()
            invariant
                at <= self.adapters.len(),
                self.adapters@ == before,
                before == old(self)@,
                name@ == adapter.spec_name(),
                same == |a: A| a.spec_name() == adapter.spec_name(),
                forall|k: int| 0 <= k < at ==> !same(#[trigger] before[k]),
            decreases self.adapters.len() - at,
        {
            if self.adapters[at].name() == name {
                proof {
                    assert(is_first_at(before, same, at as int));
                    lemma_position_found(before, same, at as int);
                    if old(self).wf() {
                        lemma_register_then_get(before, adapter);
                    }
                }
                self.adapters[at] = adapter;
                assert(self.adapters@ =~= before.update(at as int, adapter));
                return Ok(());
            }
            at += 1;
        }
        proof {
            assert(none_satisfies(before, same));
            lemma_position_missing(before, same);
            if old(self).wf() {
                lemma_register_then_get(before, adapter);
            }
        }
        self.adapters.push(adapter);
        Ok(())
    }

    /// Takes the adapter with the name out of the registry. Fails where
    /// there is none.
    pub fn unregister(&mut self, name: &str) -> (r: Result<(), ResearchError>)
        ensures
            match spec_position(old(self)@, |a: A| a.spec_name() == name@) {
                Some(at) => r is Ok && final(self)@ == old(self)@.remove(at),
                None => {
                    &&& r matches Err(ResearchError::AdapterUnavailable(m))
                    &&& m@ == name@
                    &&& final(self)@ == old(self)@
                },
            },
            old(self).wf() ==> final(self).wf(),
    {
        match self.index_of(name) {
            Some(at) => {
                self.adapters.remove(at);
                Ok(())
            },
            None => Err(ResearchError::AdapterUnavailable(String::from_str(name))),
        }
    }

    /// The adapter with the name, if there is one.
    pub fn get(&self, name: &str) -> (r: Option<&A>)
        ensures
            match spec_position(self@, |a: A| a.spec_name() == name@) {
                Some(at) => r == Some(&self@[at]),
                None => r is None,
            },
    {
        match self.index_of(name) {
            Some(at) => Some(&self.adapters[at]),
            None => None,
        }
    }

    /// The first adapter for the kind of source, if there is one.
    pub fn get_by_source(&self, source: &ResearchSource) -> (r: Option<&A>)
        ensures
            match spec_position(self@, |a: A| a.spec_source() == source.deep_view()) {
                Some(at) => r == Some(&self@[at]),
                None => r is None,
            },
    {
        let ghost wanted = |a: A| a.spec_source() == source.deep_view();
        let mut at: usize = 0;
        while at < self.adapters.len()
            invariant
                at <= self.adapters.len(),
                wanted == |a: A| a.spec_source() == source.deep_view(),
                forall|k: int| 0 <= k < at ==> !wanted(#[trigger] self@[k]),
            decreases self.adapters.len() - at,
        {
            if self.adapters[at].source().same_as(source) {
                proof {
                    assert(is_first_at(self@, wanted, at as int));
                    lemma_position_found(self@, wanted, at as int);
                }
                return Some(&self.adapters[at]);
            }
            at += 1;
        }
        proof {
            assert(none_satisfies(self@, wanted));
            lemma_position_missing(self@, wanted);
        }
        None
    }

    /// The adapter that a search is to go to: the first for the kind of
    /// source, or the one with the name.
    pub fn resolve(&self, choice: &AdapterChoice) -> (r: Option<&A>)
        ensures
            match choice {
                AdapterChoice::BySource(source) => match spec_position(
                    self@,
                    |a: A| a.spec_source() == source.deep_view(),
                ) {
                    Some(at) => r == Some(&self@[at]),
                    None => r is None,
                },
                AdapterChoice::ByName(name) => match spec_position(
                    self@,
                    |a: A| a.spec_name() == name@,
                ) {
                    Some(at) => r == Some(&self@[at]),
                    None => r is None,
                },
            },
    {
        match choice {
            AdapterChoice::BySource(source) => self.get_by_source(source),
            AdapterChoice::ByName(name) => self.get(name.as_str()),
        }
    }

    /// All adapters, in the order of their registration.
    pub fn all(&self) -> (r: &Vec<A>)
        ensures
            r@ == self@,
    {
        &self.adapters
    }

    /// The adapters that passed their health check, given the results in
    /// the order of registration.
    pub fn available(&self, health: &Vec<bool>) -> (r: Vec<&A>)
        ensures
            r@.map_values(|a: &A| *a) == spec_available(self@, health@),
    {
        let mut out: Vec<&A> = Vec::new();
        let mut i: usize = 0;
        assert(self@.take(0) =~= Seq::<A>::empty());
        assert(out@.map_values(|a: &A| *a) =~= Seq::<A>::empty());
        while i < self.adapters.len()
            invariant
                i <= self.adapters.len(),
                out@.map_values(|a: &A| *a) == spec_available(self@.take(i as int), health@),
            decreases self.adapters.len() - i,
        {
            let ghost before = out@.map_values(|a: &A| *a);
            proof {
                assert(self@.take(i + 1).drop_last() =~= self@.take(i as int));
                assert(self@.take(i + 1).last() == self@[i as int]);
            }
            if i < health.len() && health[i] {
                out.push(&self.adapters[i]);
                assert(out@.map_values(|a: &A| *a) =~= before.push(self@[i as int]));
            }
            i += 1;
        }
        assert(self@.take(self.adapters.len() as int) =~= self@);
        out
    }

    /// The names of all adapters, in the order of their registration.
    pub fn list_names(&self) -> (r: Vec<String>)
        ensures
            r.deep_view() == self@.map_values(|a: A| a.spec_name()),
    {
        let mut names: Vec<String> = Vec::new();
        let mut i: usize = 0;
        while i < self.adapters.len()
            invariant
                i <= self.adapters.len(),
                names.len() == i,
                forall|k: int| 0 <= k < i ==> (#[trigger] names@[k])@ == self@[k].spec_name(),
            decreases self.adapters.len() - i,
        {
            names.push(self.adapters[i].name());
            i += 1;
        }
        assert(names.deep_view() =~= self@.map_values(|a: A| a.spec_name()));
        names
    }

    /// The health of every adapter by name, given the results of the
    /// checks in the order of registration; an adapter without a result
    /// counts as failed.
    pub fn health_check(&self, health: &Vec<bool>) -> (r: Vec<(String, bool)>)
        ensures
            r@.len() == self@.len(),
            forall|k: int|
                0 <= k < r@.len() ==> (#[trigger] r@[k]).0@ == self@[k].spec_name() && r@[k].1 == (
                k < health@.len() && health@[k]),
    {
        let mut report: Vec<(String, bool)> = Vec::new();
        let mut i: usize = 0;
        while i < self.adapters.len()
            invariant
                i <= self.adapters.len(),
                report.len() == i,
                forall|k: int|
                    0 <= k < i ==> (#[trigger] report@[k]).0@ == self@[k].spec_name()
                        && report@[k].1 == (k < health@.len() && health@[k]),
            decreases self.adapters.len() - i,
        {
            let healthy = i < health.len() && health[i];
            report.push((self.adapters[i].name(), healthy));
            i += 1;
        }
        report
    }

    /// The index of the adapter with the name.
    fn index_of(&self, name: &str) -> (r: Option<usize>)
        ensures
            match r {
                Some(at) => spec_position(self@, |a: A| a.spec_name() == name@) == Some(at as int)
                    && at < self@.len(),
                None => spec_position(self@, |a: A| a.spec_name() == name@) is None,
            },
    {
        let ghost wanted = |a: A| a.spec_name() == name@;
        let key = String::from_str(name);
        let mut at: usize = 0;
        while at < self.adapters.len()
            invariant
                at <= self.adapters.len(),
                key@ == name@,
                wanted == |a: A| a.spec_name() == name@,
                forall|k: int| 0 <= k < at ==> !wanted(#[trigger] self@[k]),
            decreases self.adapters.len() - at,
        {
            if self.adapters[at].name() == key {
                proof {
                    assert(is_first_at(self@, wanted, at as int));
                    lemma_position_found(self@, wanted, at as int);
                }
                return Some(at);
            }
            at += 1;
        }
        proof {
            assert(none_satisfies(self@, wanted));
            lemma_position_missing(self@, wanted);
        }
        None
    }
}

impl ResearchAdapterRegistry<BuiltinAdapter> {
    /// A registry with the adapters for GitHub and arXiv, neither with a key.
    pub fn with_defaults() -> (r: Result<Self, ResearchError>)
        ensures
            r matches Ok(registry) && registry.wf() && registry@.len() == 2 && (
            registry@[0] matches BuiltinAdapter::GitHub(github) && github.token() is None
                && github.api_url() == "https://api.github.com"@) && (
            registry@[1] matches BuiltinAdapter::ArXiv(arxiv) && arxiv.api_url()
                == "http://export.arxiv.org/api/query"@),
    {
        let mut registry = ResearchAdapterRegistry::new();
        let github = BuiltinAdapter::GitHub(GitHubAdapter::new(None));
        let arxiv = BuiltinAdapter::ArXiv(ArXivAdapter::new());
        proof {
            reveal_strlit("GitHub");
            reveal_strlit("ArXiv");
            let none = Seq::<BuiltinAdapter>::empty();
            lemma_position_meaning(none, |a: BuiltinAdapter| a.spec_name() == github.spec_name());
            lemma_position_meaning(
                seq![github],
                |a: BuiltinAdapter| a.spec_name() == arxiv.spec_name(),
            );
            assert(none.push(github) =~= seq![github]);
            assert("GitHub"@ != "ArXiv"@) by {
                assert("GitHub"@[0] == 'G');
                assert("ArXiv"@[0] == 'A');
            }
        }
        match registry.register(github) {
            Ok(()) => {},
            Err(e) => {
                return Err(e);
            },
        }
        match registry.register(arxiv) {
            Ok(()) => {},
            Err(e) => {
                return Err(e);
            },
        }
        Ok(registry)
    }
}

impl<A: ResearchAdapter> Default for ResearchAdapterRegistry<A> {
    fn default() -> (r: Self)
        ensures
            r@ == Seq::<A>::empty(),
    {
        ResearchAdapterRegistry::new()
    }
}

/// Looking up a name that was never registered finds nothing, and looking
/// up a name after its registration finds the adapter registered.
pub proof fn lemma_register_then_get<A: ResearchAdapter>(adapters: Seq<A>, adapter: A)
    requires
        spec_distinct_names(adapters),
    ensures
        spec_distinct_names(spec_register(adapters, adapter)),
        spec_position(spec_register(adapters, adapter), |a: A| a.spec_name() == adapter.spec_name())
            matches Some(at) && spec_register(adapters, adapter)[at] == adapter,
{
    let same = |a: A| a.spec_name() == adapter.spec_name();
    lemma_position_meaning(adapters, same);
    let after = spec_register(adapters, adapter);
    match spec_position(adapters, same) {
        Some(at) => {
            assert forall|k: int| 0 <= k < at implies !same(#[trigger] after[k]) by {
                assert(after[k] == adapters[k]);
            }
            assert(is_first_at(after, same, at));
            lemma_position_found(after, same, at);
            assert forall|i: int, j: int| 0 <= i < j < after.len() implies (
            #[trigger] after[i]).spec_name() != (#[trigger] after[j]).spec_name() by {
                if i == at {
                    assert(adapters[at].spec_name() != adapters[j].spec_name());
                } else if j == at {
                    assert(adapters[i].spec_name() != adapters[at].spec_name());
                } else {
                    assert(adapters[i].spec_name() != adapters[j].spec_name());
                }
            }
        },
        None => {
            let at = adapters.len() as int;
            assert forall|k: int| 0 <= k < at implies !same(#[trigger] after[k]) by {
                assert(after[k] == adapters[k]);
                assert(!same(adapters[k]));
            }
            assert(is_first_at(after, same, at));
            lemma_position_found(after, same, at);
            assert forall|i: int, j: int| 0 <= i < j < after.len() implies (
            #[trigger] after[i]).spec_name() != (#[trigger] after[j]).spec_name() by {
                if j == at {
                    assert(!same(adapters[i]));
                } else {
                    assert(adapters[i].spec_name() != adapters[j].spec_name());
                }
            }
        },
    }
}

} // verus!
