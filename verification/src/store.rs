//! The representation store: a cache from keys to bundles that only grows.
use crate::bundle::{Bundle, BundleView};
use crate::text::same_text;
use vstd::prelude::*;

verus! {

/// One cached bundle under its key.
#[derive(Debug)]
struct Entry {
    key: String,
    bundle: Bundle,
}

/// A cache from keys to bundles. A bundle is entered once under its key and
/// is neither replaced nor removed afterwards. A lookup walks the entries:
/// the cache is meant for the handful of representations of one session.
#[derive(Debug)]
pub struct Store {
    entries: Vec<Entry>,
}

/// Whether some entry has the key `key`.
spec fn holds(entries: Seq<Entry>, key: Seq<char>) -> bool {
    exists|i: int| 0 <= i < entries.len() && (#[trigger] entries[i]).key@ == key
}

/// The position of an entry with the key `key`.
spec fn slot(entries: Seq<Entry>, key: Seq<char>) -> int {
    choose|i: int| 0 <= i < entries.len() && (#[trigger] entries[i]).key@ == key
}

/// No two entries share a key.
spec fn distinct(entries: Seq<Entry>) -> bool {
    forall|i: int, j: int|
        0 <= i < entries.len() && 0 <= j < entries.len() && i != j ==> (#[trigger] entries[i]).key@
            != (#[trigger] entries[j]).key@
}

/// The cache after an ingestion of `bundle` under `key`: unchanged where the
/// key is cached already, else with the bundle under the key.
pub open spec fn ingested(
    cache: Map<Seq<char>, BundleView>,
    key: Seq<char>,
    bundle: BundleView,
) -> Map<Seq<char>, BundleView> {
    if cache.contains_key(key) {
        cache
    } else {
        cache.insert(key, bundle)
    }
}

/// After an ingestion the key is cached; an ingestion under a key that is
/// cached changes nothing, so a second ingestion under the same key, of
/// whatever bundle, is without effect; and every other key is cached as before.
pub proof fn lemma_ingest_idempotent(
    cache: Map<Seq<char>, BundleView>,
    key: Seq<char>,
    first: BundleView,
    second: BundleView,
    other: Seq<char>,
)
    ensures
        ingested(cache, key, first).contains_key(key),
        cache.contains_key(key) ==> ingested(cache, key, first) == cache,
        !cache.contains_key(key) ==> ingested(cache, key, first)[key] == first,
        ingested(ingested(cache, key, first), key, second) == ingested(cache, key, first),
        other != key ==> (ingested(cache, key, first).contains_key(other) <==> cache.contains_key(
            other,
        )),
        other != key && cache.contains_key(other) ==> ingested(cache, key, first)[other]
            == cache[other],
{
}

/// The cache that the entries make up.
spec fn cache_of(entries: Seq<Entry>) -> Map<Seq<char>, BundleView> {
    Map::new(
        |key: Seq<char>| holds(entries, key),
        |key: Seq<char>| entries[slot(entries, key)].bundle@,
    )
}

/// The bundle at position `i` is the one cached under the key at `i`.
proof fn lemma_entry(entries: Seq<Entry>, i: int)
    requires
        distinct(entries),
        0 <= i < entries.len(),
    ensures
        cache_of(entries).contains_key(entries[i].key@),
        cache_of(entries)[entries[i].key@] == entries[i].bundle@,
{
    let key = entries[i].key@;
    assert(holds(entries, key));
    assert(slot(entries, key) == i);
}

/// One more entry under a key that no entry has keeps the keys distinct and
/// adds its bundle under its key to the cache.
proof fn lemma_push(before: Seq<Entry>, entry: Entry)
    requires
        distinct(before),
        !holds(before, entry.key@),
    ensures
        distinct(before.push(entry)),
        cache_of(before.push(entry)) == cache_of(before).insert(entry.key@, entry.bundle@),
{
    let after = before.push(entry);
    let last = before.len() as int;
    assert(forall|i: int| 0 <= i < last ==> after[i] == before[i]);
    assert(after[last] == entry);
    assert forall|i: int, j: int|
        0 <= i < after.len() && 0 <= j < after.len() && i != j implies (#[trigger] after[i]).key@
        != (#[trigger] after[j]).key@ by {
        if i < last && j < last {
            assert(before[i].key@ != before[j].key@);
        } else if i < last {
            assert(before[i].key@ != entry.key@);
        } else {
            assert(before[j].key@ != entry.key@);
        }
    }
    let grown = cache_of(before).insert(entry.key@, entry.bundle@);
    assert forall|key: Seq<char>| cache_of(after).contains_key(key) <==> grown.contains_key(
        key,
    ) by {
        if holds(before, key) {
            assert(after[slot(before, key)].key@ == key);
        }
        if key == entry.key@ {
            assert(after[last].key@ == key);
        }
        if holds(after, key) && slot(after, key) < last {
            assert(before[slot(after, key)].key@ == key);
        }
    }
    assert forall|key: Seq<char>| cache_of(after).contains_key(key) implies cache_of(after)[key]
        == grown[key] by {
        let i = slot(after, key);
        lemma_entry(after, i);
        if i < last {
            lemma_entry(before, i);
        }
    }
    assert(cache_of(after) =~= grown);
}

impl View for Store {
    type V = Map<Seq<char>, BundleView>;

    closed spec fn view(&self) -> Map<Seq<char>, BundleView> {
        cache_of(self.entries@)
    }
}

impl Store {
    /// No key is cached twice.
    #[verifier::type_invariant]
    spec fn inv(self) -> bool {
        distinct(self.entries@)
    }

    /// An empty store.
    pub fn new() -> (store: Store)
        ensures
            store@ == Map::<Seq<char>, BundleView>::empty(),
    {
        let store = Store { entries: Vec::new() };
        assert(store@ =~= Map::<Seq<char>, BundleView>::empty());
        store
    }

    /// The position of the entry under `key`, if there is one.
    fn find(&self, key: &str) -> (found: Option<usize>)
        ensures
            found is Some <==> self@.contains_key(key@),
            found matches Some(i) ==> i < self.entries@.len() && self.entries@[i as int].key@
                == key@ && self@[key@] == self.entries@[i as int].bundle@,
    {
        proof {
            use_type_invariant(self);
        }
        let mut i: usize = 0;
        while i < self.entries.len()
            invariant
                i <= self.entries@.len(),
                distinct(self.entries@),
                forall|k: int| 0 <= k < i ==> (#[trigger] self.entries@[k]).key@ != key@,
            decreases self.entries@.len() - i,
        {
            if same_text(self.entries[i].key.as_str(), key) {
                proof {
                    lemma_entry(self.entries@, i as int);
                }
                return Some(i);
            }
            i += 1;
        }
        assert(!holds(self.entries@, key@));
        None
    }

    /// Whether a bundle is cached under `key`.
    pub fn has(&self, key: &str) -> (cached: bool)
        ensures
            cached == self@.contains_key(key@),
    {
        self.find(key).is_some()
    }

    /// The bundle cached under `key`, lent for as long as the store is.
    pub fn get(&self, key: &str) -> (bundle: Option<&Bundle>)
        ensures
            bundle is Some <==> self@.contains_key(key@),
            bundle matches Some(b) ==> b@ == self@[key@] && b@.wf(),
    {
        match self.find(key) {
            Some(i) => {
                let bundle = &self.entries[i].bundle;
                proof {
                    use_type_invariant(bundle);
                }
                Some(bundle)
            },
            None => None,
        }
    }

    /// The number of cached bundles.
    pub fn len(&self) -> (n: usize)
        ensures
            n == self@.dom().len(),
            self@.dom().finite(),
    {
        proof {
            use_type_invariant(self);
            lemma_domain(self.entries@);
            assert(self@.dom() =~= keys(self.entries@));
        }
        self.entries.len()
    }

    /// Caches `bundle` under `key` unless a bundle is cached there already,
    /// and says whether it did. The check and the insertion are one step.
    pub fn ingest(&mut self, key: String, bundle: Bundle) -> (fresh: bool)
        ensures
            fresh == !old(self)@.contains_key(key@),
            final(self)@ == ingested(old(self)@, key@, bundle@),
    {
        if self.has(key.as_str()) {
            return false;
        }
        proof {
            use_type_invariant(&*self);
            lemma_push(self.entries@, Entry { key, bundle });
        }
        let mut entries: Vec<Entry> = Vec::new();
        core::mem::swap(&mut self.entries, &mut entries);
        entries.push(Entry { key, bundle });
        core::mem::swap(&mut self.entries, &mut entries);
        true
    }
}

/// The keys of the entries.
spec fn keys(entries: Seq<Entry>) -> Set<Seq<char>> {
    Set::new(|key: Seq<char>| holds(entries, key))
}

/// Entries with distinct keys have as many keys as there are entries.
proof fn lemma_domain(entries: Seq<Entry>)
    requires
        distinct(entries),
    ensures
        keys(entries).finite(),
        keys(entries).len() == entries.len(),
    decreases entries.len(),
{
    if entries.len() == 0 {
        assert(keys(entries) =~= Set::<Seq<char>>::empty());
    } else {
        let front = entries.drop_last();
        let last = entries.last();
        assert(forall|i: int| 0 <= i < front.len() ==> front[i] == entries[i]);
        assert(distinct(front));
        lemma_domain(front);
        assert(!holds(front, last.key@)) by {
            if holds(front, last.key@) {
                let i = slot(front, last.key@);
                assert(entries[i].key@ == entries[entries.len() - 1].key@);
            }
        }
        assert(keys(entries) =~= keys(front).insert(last.key@)) by {
            assert forall|key: Seq<char>| keys(entries).contains(key) <==> keys(front).insert(
                last.key@,
            ).contains(key) by {
                if holds(entries, key) {
                    let i = slot(entries, key);
                    if i < front.len() {
                        assert(front[i].key@ == key);
                    }
                }
                if holds(front, key) {
                    let i = slot(front, key);
                    assert(entries[i].key@ == key);
                }
                if key == last.key@ {
                    assert(entries[entries.len() - 1].key@ == key);
                }
            }
        }
    }
}

} // verus!
