//! The parsed-document cache of one model-load session: each part name is
//! fetched at most once, whether the fetch succeeds or fails, and a
//! collection step shrinks the cache to what a strategy retains.
use vstd::prelude::*;

use crate::bridge::{load_part, Location, ResolutionError};
use crate::names::slash_normalized;
use crate::store::PartLibrary;

verus! {

/// The result of a resolution as the contracts see it.
pub type ResolvedView = Result<(Location, Seq<u8>), ResolutionError>;

/// One cache entry as the contracts see it: the name and how it resolved.
pub type EntryView = (Seq<char>, ResolvedView);

/// The state of a cache: its entries in insertion order, and how many
/// underlying fetches it has recorded (this count stops at `u64::MAX`).
pub struct CacheModel {
    pub entries: Seq<EntryView>,
    pub fetches: u64,
}

pub open spec fn has_name(s: Seq<EntryView>, name: Seq<char>) -> bool {
    exists|i: int| 0 <= i < s.len() && s[i].0 == name
}

pub open spec fn names_unique(s: Seq<EntryView>) -> bool {
    forall|i: int, j: int| 0 <= i < s.len() && 0 <= j < s.len() && i != j ==> s[i].0 != s[j].0
}

/// The resolution cached under `name`.
pub open spec fn entry_for(s: Seq<EntryView>, name: Seq<char>) -> ResolvedView {
    let i = choose|i: int| 0 <= i < s.len() && s[i].0 == name;
    s[i].1
}

pub open spec fn count_fetch(n: u64) -> u64 {
    if n == u64::MAX {
        n
    } else {
        (n + 1) as u64
    }
}

pub open spec fn resolved_view(r: Result<(Location, Vec<u8>), ResolutionError>) -> ResolvedView {
    match r {
        Ok((location, bytes)) => Ok((location, bytes@)),
        Err(e) => Err(e),
    }
}

/// The cache after recording one underlying fetch of `name` with result
/// `fetched`, and the result handed to the caller. A name that is cached
/// already keeps its entry and the cached result is returned; otherwise the
/// fetch's result, success or failure, is added and returned.
pub open spec fn after_fetch(m: CacheModel, name: Seq<char>, fetched: ResolvedView) -> (
    CacheModel,
    ResolvedView,
) {
    if has_name(m.entries, name) {
        (
            CacheModel { entries: m.entries, fetches: count_fetch(m.fetches) },
            entry_for(m.entries, name),
        )
    } else {
        (
            CacheModel { entries: m.entries.push((name, fetched)), fetches: count_fetch(m.fetches) },
            fetched,
        )
    }
}

/// What one fetch of `name` from a store with index `store` gives.
pub open spec fn store_fetch(store: Map<Seq<char>, Seq<u8>>, name: Seq<char>) -> ResolvedView {
    if store.contains_key(slash_normalized(name)) {
        Ok((Location::Library, store[slash_normalized(name)]))
    } else {
        Err(ResolutionError::FileNotFound)
    }
}

/// The cache after resolving `name` against a store, and the result: a
/// cached name, resolved or failed, is answered without a fetch; any other
/// is fetched once.
pub open spec fn after_resolve(m: CacheModel, store: Map<Seq<char>, Seq<u8>>, name: Seq<char>) -> (
    CacheModel,
    ResolvedView,
) {
    if has_name(m.entries, name) {
        (m, entry_for(m.entries, name))
    } else {
        after_fetch(m, name, store_fetch(store, name))
    }
}

/// Which entries a collection strategy keeps.
#[derive(PartialEq, Eq, Structural, Debug, Clone, Copy)]
pub enum CollectionStrategy {
    /// Keep the reusable parts of the library; drop local documents, the
    /// scaffolding of the model being loaded, and recorded failures.
    Parts,
    /// Keep every entry.
    All,
}

pub open spec fn retains(strategy: CollectionStrategy, resolved: ResolvedView) -> bool {
    match strategy {
        CollectionStrategy::Parts => match resolved {
            Ok((location, _)) => location == Location::Library,
            Err(_) => false,
        },
        CollectionStrategy::All => true,
    }
}

pub open spec fn retained_by(strategy: CollectionStrategy) -> spec_fn(EntryView) -> bool {
    |e: EntryView| retains(strategy, e.1)
}

/// The entries that collecting with `strategy` keeps, in their order.
pub open spec fn collected(s: Seq<EntryView>, strategy: CollectionStrategy) -> Seq<EntryView> {
    s.filter(retained_by(strategy))
}

pub proof fn lemma_filter_names_unique(s: Seq<EntryView>, p: spec_fn(EntryView) -> bool)
    requires
        names_unique(s),
    ensures
        names_unique(s.filter(p)),
        forall|i: int| 0 <= i < s.filter(p).len() ==> has_name(s, #[trigger] s.filter(p)[i].0),
    decreases s.len(),
{
    reveal(Seq::filter);
    if s.len() > 0 {
        let t = s.drop_last();
        assert(names_unique(t));
        lemma_filter_names_unique(t, p);
        let ft = t.filter(p);
        assert forall|i: int| 0 <= i < ft.len() implies ft[i].0 != s.last().0 by {
            assert(has_name(t, ft[i].0));
            let j = choose|j: int| 0 <= j < t.len() && t[j].0 == ft[i].0;
            assert(s[j] == t[j]);
        }
        assert forall|i: int| 0 <= i < ft.len() implies has_name(s, ft[i].0) by {
            assert(has_name(t, ft[i].0));
            let j = choose|j: int| 0 <= j < t.len() && t[j].0 == ft[i].0;
            assert(s[j] == t[j]);
        }
        assert(has_name(s, s.last().0)) by {
            assert(s[s.len() - 1].0 == s.last().0);
        }
    }
}

/// Collecting never makes the cache larger, and never removes an entry that
/// the strategy retains.
pub proof fn lemma_collect_keeps_retained(s: Seq<EntryView>, strategy: CollectionStrategy)
    ensures
        collected(s, strategy).len() <= s.len(),
        forall|i: int|
            0 <= i < s.len() && retains(strategy, #[trigger] s[i].1) ==> collected(
                s,
                strategy,
            ).contains(s[i]),
{
    s.lemma_filter_len(retained_by(strategy));
    assert forall|i: int| 0 <= i < s.len() && retains(strategy, #[trigger] s[i].1) implies collected(
        s,
        strategy,
    ).contains(s[i]) by {
        s.lemma_filter_contains(retained_by(strategy), i);
    }
}

/// Resolving one name twice performs at most one underlying fetch: the
/// second resolution is answered from the cache with the same result and no
/// fetch, whether the first succeeded or failed.
pub proof fn lemma_resolve_twice_fetches_once(
    m: CacheModel,
    store: Map<Seq<char>, Seq<u8>>,
    name: Seq<char>,
)
    requires
        names_unique(m.entries),
    ensures
        ({
            let (m1, r1) = after_resolve(m, store, name);
            let (m2, r2) = after_resolve(m1, store, name);
            &&& m1.fetches == m.fetches || m1.fetches == count_fetch(m.fetches)
            &&& m2 == m1
            &&& r2 == r1
        }),
{
    let (m1, r1) = after_resolve(m, store, name);
    if !has_name(m.entries, name) {
        let n = m.entries.len() as int;
        assert(m1.entries[n].0 == name);
        assert(has_name(m1.entries, name));
        let j = choose|j: int| 0 <= j < m1.entries.len() && m1.entries[j].0 == name;
        if j != n {
            assert(m1.entries[j] == m.entries[j]);
        }
    }
}

/// One cached resolution: a document with its location, or the error.
#[derive(Debug)]
pub struct CachedPart {
    pub name: String,
    pub outcome: Result<(Location, Vec<u8>), ResolutionError>,
}

impl CachedPart {
    pub open spec fn view(&self) -> EntryView {
        (self.name@, resolved_view(self.outcome))
    }
}

fn clone_outcome(r: &Result<(Location, Vec<u8>), ResolutionError>) -> (c: Result<
    (Location, Vec<u8>),
    ResolutionError,
>)
    ensures
        resolved_view(c) == resolved_view(*r),
{
    match r {
        Ok((location, bytes)) => Ok((*location, bytes.clone())),
        Err(e) => Err(*e),
    }
}

/// The cache of one model-load session.
#[derive(Debug)]
pub struct PartCache {
    entries: Vec<CachedPart>,
    fetches: u64,
}

impl PartCache {
    pub closed spec fn model(&self) -> CacheModel {
        CacheModel {
            entries: self.entries@.map_values(|e: CachedPart| e.view()),
            fetches: self.fetches,
        }
    }

    /// Each name is cached at most once.
    pub open spec fn wf(&self) -> bool {
        names_unique(self.model().entries)
    }

    /// An empty cache, as at the start of a session.
    pub fn new() -> (r: PartCache)
        ensures
            r.wf(),
            r.model().entries == Seq::<EntryView>::empty(),
            r.model().fetches == 0,
    {
        let r = PartCache { entries: Vec::new(), fetches: 0 };
        assert(r.model().entries =~= Seq::<EntryView>::empty());
        r
    }

    /// The number of cached resolutions.
    pub fn len(&self) -> (r: usize)
        ensures
            r == self.model().entries.len(),
    {
        self.entries.len()
    }

    /// The number of underlying fetches recorded so far.
    pub fn fetch_count(&self) -> (r: u64)
        ensures
            r == self.model().fetches,
    {
        self.fetches
    }

    fn position(&self, name: &str) -> (r: Option<usize>)
        ensures
            match r {
                Some(i) => i < self.entries@.len() && self.model().entries[i as int].0 == name@,
                None => !has_name(self.model().entries, name@),
            },
    {
        let key = String::from_str(name);
        let mut i: usize = 0;
        while i < self.entries.len()
            invariant
                key@ == name@,
                i <= self.entries@.len(),
                forall|j: int| 0 <= j < i ==> self.model().entries[j].0 != name@,
            decreases self.entries@.len() - i,
        {
            if self.entries[i].name == key {
                return Some(i);
            }
            i = i + 1;
        }
        None
    }

    /// Whether `name` is cached.
    pub fn contains(&self, name: &str) -> (r: bool)
        ensures
            r == has_name(self.model().entries, name@),
    {
        self.position(name).is_some()
    }

    /// The resolution cached under `name`, if any.
    pub fn lookup(&self, name: &str) -> (r: Option<Result<(Location, Vec<u8>), ResolutionError>>)
        requires
            self.wf(),
        ensures
            match r {
                Some(hit) => has_name(self.model().entries, name@) && resolved_view(hit)
                    == entry_for(self.model().entries, name@),
                None => !has_name(self.model().entries, name@),
            },
    {
        match self.position(name) {
            Some(i) => {
                let e = &self.entries[i];
                proof {
                    let s = self.model().entries;
                    let j = choose|j: int| 0 <= j < s.len() && s[j].0 == name@;
                    assert(j == i);
                }
                Some(clone_outcome(&e.outcome))
            },
            None => None,
        }
    }

    /// Records one underlying fetch of `name` that gave `fetched` (see
    /// `after_fetch`); a fetch of a name that is cached meanwhile is counted
    /// but not stored a second time, and a failed fetch is stored too.
    pub fn record_fetch(&mut self, name: &str, fetched: Result<(Location, Vec<u8>), ResolutionError>) -> (r:
        Result<(Location, Vec<u8>), ResolutionError>)
        requires
            old(self).wf(),
        ensures
            final(self).wf(),
            (final(self).model(), resolved_view(r)) == after_fetch(
                old(self).model(),
                name@,
                resolved_view(fetched),
            ),
    {
        self.fetches = if self.fetches == u64::MAX {
            self.fetches
        } else {
            self.fetches + 1
        };
        match self.lookup(name) {
            Some(hit) => {
                assert(self.model().entries =~= old(self).model().entries);
                hit
            },
            None => {
                let ghost before = self.model().entries;
                let stored = clone_outcome(&fetched);
                self.entries.push(CachedPart { name: String::from_str(name), outcome: stored });
                assert(self.model().entries =~= before.push((name@, resolved_view(fetched))));
                fetched
            },
        }
    }

    /// Resolves `name` against the store in this process (see
    /// `after_resolve`): a cached name is answered from the cache, any other
    /// is fetched once through the loader bridge.
    pub fn resolve_local(&mut self, store: &PartLibrary, name: &str) -> (r: Result<
        (Location, Vec<u8>),
        ResolutionError,
    >)
        requires
            old(self).wf(),
            store.wf(),
        ensures
            final(self).wf(),
            (final(self).model(), resolved_view(r)) == after_resolve(
                old(self).model(),
                store@,
                name@,
            ),
    {
        match self.lookup(name) {
            Some(hit) => hit,
            None => {
                let fetched = load_part(store, name, true);
                assert(resolved_view(fetched) == store_fetch(store@, name@));
                self.record_fetch(name, fetched)
            },
        }
    }

    /// Drops every entry that `strategy` does not retain, keeping the order
    /// of the rest.
    pub fn collect(&mut self, strategy: CollectionStrategy)
        requires
            old(self).wf(),
        ensures
            final(self).wf(),
            final(self).model().entries == collected(old(self).model().entries, strategy),
            final(self).model().fetches == old(self).model().fetches,
    {
        let ghost start = self.model().entries;
        let ghost p = retained_by(strategy);
        let ghost mut j: int = 0;
        let mut i: usize = 0;
        while i < self.entries.len()
            invariant
                0 <= j <= start.len(),
                i == start.subrange(0, j).filter(p).len(),
                self.model().entries == start.subrange(0, j).filter(p) + start.subrange(
                    j,
                    start.len() as int,
                ),
                self.model().fetches == old(self).model().fetches,
                p == retained_by(strategy),
            decreases start.len() - j,
        {
            proof {
                reveal(Seq::filter);
                assert(start.subrange(0, j + 1).drop_last() =~= start.subrange(0, j));
                assert(start.subrange(0, j + 1).last() == start[j]);
                assert(self.model().entries[i as int] == start[j]);
            }
            let keep = match strategy {
                CollectionStrategy::Parts => match &self.entries[i].outcome {
                    Ok((location, _)) => *location == Location::Library,
                    Err(_) => false,
                },
                CollectionStrategy::All => true,
            };
            let ghost before = self.model().entries;
            if keep {
                i = i + 1;
                proof {
                    assert(self.model().entries =~= start.subrange(0, j + 1).filter(p)
                        + start.subrange(j + 1, start.len() as int));
                }
            } else {
                self.entries.remove(i);
                proof {
                    assert(self.model().entries =~= before.remove(i as int));
                    assert(self.model().entries =~= start.subrange(0, j + 1).filter(p)
                        + start.subrange(j + 1, start.len() as int));
                }
            }
            proof {
                j = j + 1;
            }
        }
        proof {
            assert(j == start.len()) by {
                start.subrange(0, j).lemma_filter_len(p);
            }
            assert(start.subrange(0, j) =~= start);
            assert(self.model().entries =~= collected(start, strategy));
            lemma_filter_names_unique(start, p);
        }
    }
}

} // verus!
