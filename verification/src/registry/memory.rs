//! A registry held in memory: each stored Facet under its id, with its listing metadata,
//! its artifact and its bytes. Storing under an id that is already held replaces that entry.

use vstd::prelude::*;

use crate::text::same_text;

use super::{FacetState, FacetSummary, ListFilter, admits_fn, admitted, filter_admits, listing_ordered, order_listing};

verus! {

/// One stored Facet: what a listing shows of it, what it is, and its bytes.
pub struct StoredFacet<A> {
    pub summary: FacetSummary,
    pub artifact: A,
    pub bytes: Vec<u8>,
}

/// The entry of `s` stored under `id`, if there is one.
pub open spec fn entry_for<A>(s: Seq<StoredFacet<A>>, id: Seq<char>) -> Option<StoredFacet<A>> {
    if exists|i: int| 0 <= i < s.len() && (#[trigger] s[i]).summary.id@ == id {
        Some(s[choose|i: int| 0 <= i < s.len() && (#[trigger] s[i]).summary.id@ == id])
    } else {
        None
    }
}

/// No two entries of `s` are stored under one id.
pub open spec fn ids_distinct<A>(s: Seq<StoredFacet<A>>) -> bool {
    forall|i: int, j: int|
        0 <= i < s.len() && 0 <= j < s.len() && i != j ==> (#[trigger] s[i]).summary.id@ != (#[trigger] s[j]).summary.id@
}

/// The listing metadata of each entry of `s`, in order.
pub open spec fn summaries_of<A>(s: Seq<StoredFacet<A>>) -> Seq<FacetSummary> {
    s.map_values(|e: StoredFacet<A>| e.summary)
}

/// `e` with its moderation state set to `state`.
pub open spec fn with_state<A>(e: StoredFacet<A>, state: FacetState) -> StoredFacet<A> {
    StoredFacet { summary: FacetSummary { state, ..e.summary }, ..e }
}

/// A process-local registry. Nothing survives the process.
pub struct InMemoryStore<A> {
    entries: Vec<StoredFacet<A>>,
}

impl<A> View for InMemoryStore<A> {
    type V = Map<Seq<char>, StoredFacet<A>>;

    /// What is stored under each id.
    closed spec fn view(&self) -> Map<Seq<char>, StoredFacet<A>> {
        Map::new(|id: Seq<char>| entry_for(self.entries@, id) is Some, |id: Seq<char>| entry_for(self.entries@, id)->0)
    }
}

proof fn lemma_entry_at<A>(s: Seq<StoredFacet<A>>, i: int)
    requires
        ids_distinct(s),
        0 <= i < s.len(),
    ensures
        entry_for(s, s[i].summary.id@) == Some(s[i]),
{
    let id = s[i].summary.id@;
    assert(exists|k: int| 0 <= k < s.len() && (#[trigger] s[k]).summary.id@ == id);
    let c = choose|k: int| 0 <= k < s.len() && (#[trigger] s[k]).summary.id@ == id;
    assert(c == i);
}

proof fn lemma_entry_absent<A>(s: Seq<StoredFacet<A>>, id: Seq<char>)
    requires
        forall|i: int| 0 <= i < s.len() ==> (#[trigger] s[i]).summary.id@ != id,
    ensures
        entry_for(s, id) is None,
{
}

/// Replacing entry `i` of `s` by `e`, stored under the same id, changes what is stored under
/// that id and nothing else.
proof fn lemma_entry_replaced<A>(s: Seq<StoredFacet<A>>, i: int, e: StoredFacet<A>, id: Seq<char>)
    requires
        ids_distinct(s),
        0 <= i < s.len(),
        e.summary.id@ == s[i].summary.id@,
    ensures
        ids_distinct(s.update(i, e)),
        entry_for(s.update(i, e), id) == if id == e.summary.id@ {
            Some(e)
        } else {
            entry_for(s, id)
        },
{
    let t = s.update(i, e);
    assert forall|a: int, b: int| 0 <= a < t.len() && 0 <= b < t.len() && a != b implies (#[trigger] t[a]).summary.id@
        != (#[trigger] t[b]).summary.id@ by {
        assert(s[a].summary.id@ != s[b].summary.id@);
    }
    if id == e.summary.id@ {
        lemma_entry_at(t, i);
    } else if exists|k: int| 0 <= k < s.len() && (#[trigger] s[k]).summary.id@ == id {
        let k = choose|k: int| 0 <= k < s.len() && (#[trigger] s[k]).summary.id@ == id;
        lemma_entry_at(s, k);
        assert(t[k] == s[k]);
        lemma_entry_at(t, k);
    } else {
        assert forall|k: int| 0 <= k < t.len() implies (#[trigger] t[k]).summary.id@ != id by {
            if k != i {
                assert(t[k] == s[k]);
            }
        }
    }
}

/// Appending `e`, under an id not yet held, stores `e` under it and changes nothing else.
proof fn lemma_entry_pushed<A>(s: Seq<StoredFacet<A>>, e: StoredFacet<A>, id: Seq<char>)
    requires
        ids_distinct(s),
        forall|i: int| 0 <= i < s.len() ==> (#[trigger] s[i]).summary.id@ != e.summary.id@,
    ensures
        ids_distinct(s.push(e)),
        entry_for(s.push(e), id) == if id == e.summary.id@ {
            Some(e)
        } else {
            entry_for(s, id)
        },
{
    let t = s.push(e);
    assert forall|a: int, b: int| 0 <= a < t.len() && 0 <= b < t.len() && a != b implies (#[trigger] t[a]).summary.id@
        != (#[trigger] t[b]).summary.id@ by {
        if a < s.len() && b < s.len() {
            assert(t[a] == s[a] && t[b] == s[b]);
        } else if a < s.len() {
            assert(t[a] == s[a]);
        } else {
            assert(t[b] == s[b]);
        }
    }
    if id == e.summary.id@ {
        lemma_entry_at(t, s.len() as int);
    } else if exists|k: int| 0 <= k < s.len() && (#[trigger] s[k]).summary.id@ == id {
        let k = choose|k: int| 0 <= k < s.len() && (#[trigger] s[k]).summary.id@ == id;
        lemma_entry_at(s, k);
        assert(t[k] == s[k]);
        lemma_entry_at(t, k);
    } else {
        assert forall|k: int| 0 <= k < t.len() implies (#[trigger] t[k]).summary.id@ != id by {
            if k < s.len() {
                assert(t[k] == s[k]);
            }
        }
    }
}

impl<A> InMemoryStore<A> {
    /// The store's entries are held under distinct ids.
    pub closed spec fn wf(&self) -> bool {
        ids_distinct(self.entries@)
    }

    /// An empty store.
    pub fn new() -> (s: InMemoryStore<A>)
        ensures
            s.wf(),
            s@ == Map::<Seq<char>, StoredFacet<A>>::empty(),
    {
        let s = InMemoryStore { entries: Vec::new() };
        assert(s@ =~= Map::<Seq<char>, StoredFacet<A>>::empty());
        s
    }

    /// The position of the entry stored under `id`, if any.
    fn position(&self, id: &str) -> (r: Option<usize>)
        ensures
            match r {
                Some(i) => i < self.entries@.len() && self.entries@[i as int].summary.id@ == id@,
                None => forall|i: int| 0 <= i < self.entries@.len() ==> (#[trigger] self.entries@[i]).summary.id@ != id@,
            },
    {
        let mut i: usize = 0;
        while i < self.entries.len()
            invariant
                i <= self.entries@.len(),
                forall|k: int| 0 <= k < i ==> (#[trigger] self.entries@[k]).summary.id@ != id@,
            decreases self.entries@.len() - i,
        {
            if same_text(self.entries[i].summary.id.as_str(), id) {
                return Some(i);
            }
            i += 1;
        }
        None
    }

    /// Store `entry` under its id, replacing whatever was stored under that id.
    pub fn insert(&mut self, entry: StoredFacet<A>)
        requires
            old(self).wf(),
        ensures
            final(self).wf(),
            final(self)@ == old(self)@.insert(entry.summary.id@, entry),
    {
        let ghost e = entry;
        let ghost s0 = self.entries@;
        match self.position(entry.summary.id.as_str()) {
            Some(i) => {
                self.entries.remove(i);
                self.entries.insert(i, entry);
                proof {
                    assert(self.entries@ =~= s0.update(i as int, e));
                    assert forall|id: Seq<char>| true implies entry_for(self.entries@, id) == if id == e.summary.id@ {
                        Some(e)
                    } else {
                        entry_for(s0, id)
                    } by {
                        lemma_entry_replaced(s0, i as int, e, id);
                    }
                    lemma_entry_replaced(s0, i as int, e, e.summary.id@);
                }
            },
            None => {
                self.entries.push(entry);
                proof {
                    assert(self.entries@ =~= s0.push(e));
                    assert forall|id: Seq<char>| true implies entry_for(self.entries@, id) == if id == e.summary.id@ {
                        Some(e)
                    } else {
                        entry_for(s0, id)
                    } by {
                        lemma_entry_pushed(s0, e, id);
                    }
                    lemma_entry_pushed(s0, e, e.summary.id@);
                }
            },
        }
        assert(self@ =~= old(self)@.insert(e.summary.id@, e));
    }

    /// The entry stored under `id`, or `None` where nothing is.
    pub fn get(&self, id: &str) -> (r: Option<&StoredFacet<A>>)
        requires
            self.wf(),
        ensures
            match r {
                Some(e) => self@.contains_key(id@) && self@[id@] == *e,
                None => !self@.contains_key(id@),
            },
    {
        match self.position(id) {
            Some(i) => {
                proof {
                    lemma_entry_at(self.entries@, i as int);
                }
                Some(&self.entries[i])
            },
            None => {
                proof {
                    lemma_entry_absent(self.entries@, id@);
                }
                None
            },
        }
    }

    /// The bytes stored under `id`, or `None` where nothing is.
    pub fn get_bytes(&self, id: &str) -> (r: Option<Vec<u8>>)
        requires
            self.wf(),
        ensures
            match r {
                Some(b) => self@.contains_key(id@) && b@ == self@[id@].bytes@,
                None => !self@.contains_key(id@),
            },
    {
        match self.get(id) {
            Some(e) => {
                let mut out: Vec<u8> = Vec::new();
                let mut k: usize = 0;
                while k < e.bytes.len()
                    invariant
                        k <= e.bytes@.len(),
                        out@ == e.bytes@.take(k as int),
                    decreases e.bytes@.len() - k,
                {
                    out.push(e.bytes[k]);
                    k += 1;
                    assert(out@ =~= e.bytes@.take(k as int));
                }
                assert(e.bytes@.take(k as int) =~= e.bytes@);
                Some(out)
            },
            None => None,
        }
    }

    /// Set the moderation state of the Facet stored under `id`. Returns `false`, and
    /// changes nothing, where nothing is stored under `id`.
    pub fn set_state(&mut self, id: &str, state: FacetState) -> (found: bool)
        requires
            old(self).wf(),
        ensures
            final(self).wf(),
            found == old(self)@.contains_key(id@),
            found ==> final(self)@ == old(self)@.insert(id@, with_state(old(self)@[id@], state)),
            !found ==> final(self)@ == old(self)@,
    {
        let ghost s0 = self.entries@;
        match self.position(id) {
            Some(i) => {
                let mut e = self.entries.remove(i);
                let ghost before = e;
                e.summary.state = state;
                let ghost after = e;
                self.entries.insert(i, e);
                proof {
                    lemma_entry_at(s0, i as int);
                    assert(after == with_state(before, state));
                    assert(self.entries@ =~= s0.update(i as int, after));
                    assert forall|k: Seq<char>| true implies entry_for(self.entries@, k) == if k == id@ {
                        Some(after)
                    } else {
                        entry_for(s0, k)
                    } by {
                        lemma_entry_replaced(s0, i as int, after, k);
                    }
                    lemma_entry_replaced(s0, i as int, after, id@);
                    assert(self@ =~= old(self)@.insert(id@, with_state(old(self)@[id@], state)));
                }
                true
            },
            None => {
                proof {
                    lemma_entry_absent(s0, id@);
                }
                false
            },
        }
    }

    /// The Facets that `filter` admits, newest first, ties broken by id: each stored Facet
    /// that the filter admits, once, and nothing else.
    pub fn list(&self, filter: &ListFilter) -> (out: Vec<FacetSummary>)
        requires
            self.wf(),
        ensures
            listing_ordered(out@),
            out@.no_duplicates(),
            forall|x: FacetSummary|
                #![trigger out@.contains(x)]
                out@.contains(x) <==> (self@.contains_key(x.id@) && self@[x.id@].summary == x
                    && filter_admits(filter.state, x.state)),
    {
        let mut items: Vec<FacetSummary> = Vec::new();
        let mut k: usize = 0;
        while k < self.entries.len()
            invariant
                k <= self.entries@.len(),
                items@ == summaries_of(self.entries@.take(k as int)),
            decreases self.entries@.len() - k,
        {
            items.push(self.entries[k].summary.duplicate());
            k += 1;
            assert(items@ =~= summaries_of(self.entries@.take(k as int)));
        }
        assert(self.entries@.take(k as int) =~= self.entries@);
        let out = order_listing(items, filter);
        proof {
            broadcast use vstd::seq_lib::group_to_multiset_ensures;
            broadcast use vstd::seq_lib::group_filter_ensures;

            let s = self.entries@;
            let summ = summaries_of(s);
            let f = admits_fn(filter.state);
            let a = admitted(summ, filter.state);
            lemma_summaries_no_dup(s);
            lemma_filter_no_dup(summ, f);
            a.lemma_multiset_has_no_duplicates();
            assert forall|x: FacetSummary| out@.to_multiset().contains(x) implies out@.to_multiset().count(x)
                == 1 by {
                assert(a.to_multiset().contains(x));
            }
            out@.lemma_multiset_has_no_duplicates_conv();
            assert forall|x: FacetSummary| out@.contains(x) <==> (self@.contains_key(x.id@) && self@[x.id@].summary
                == x && filter_admits(filter.state, x.state)) by {
                assert(out@.to_multiset().count(x) == a.to_multiset().count(x));
                if a.contains(x) {
                    summ.lemma_filter_contains_rev(f, x);
                    let i = choose|i: int| 0 <= i < summ.len() && summ[i] == x;
                    lemma_entry_at(s, i);
                    let j = choose|j: int| 0 <= j < a.len() && a[j] == x;
                    summ.lemma_filter_pred(f, j);
                }
                if self@.contains_key(x.id@) && self@[x.id@].summary == x && filter_admits(filter.state, x.state) {
                    let i = choose|i: int| 0 <= i < s.len() && (#[trigger] s[i]).summary.id@ == x.id@;
                    lemma_entry_at(s, i);
                    assert(summ[i] == x);
                    summ.lemma_filter_contains(f, i);
                }
            }
        }
        out
    }
}

proof fn lemma_summaries_no_dup<A>(s: Seq<StoredFacet<A>>)
    requires
        ids_distinct(s),
    ensures
        summaries_of(s).no_duplicates(),
{
    let t = summaries_of(s);
    assert forall|i: int, j: int| 0 <= i < t.len() && 0 <= j < t.len() && i != j implies t[i] != t[j] by {
        assert(s[i].summary.id@ != s[j].summary.id@);
    }
}

proof fn lemma_filter_no_dup<T>(s: Seq<T>, p: spec_fn(T) -> bool)
    requires
        s.no_duplicates(),
    ensures
        s.filter(p).no_duplicates(),
    decreases s.len(),
{
    broadcast use vstd::seq_lib::group_filter_ensures;

    if s.len() > 0 {
        let r = s.drop_last();
        let x = s.last();
        assert(r.push(x) =~= s);
        assert(r.no_duplicates()) by {
            assert forall|i: int, j: int| 0 <= i < r.len() && 0 <= j < r.len() && i != j implies r[i] != r[j] by {
                assert(r[i] == s[i] && r[j] == s[j]);
            }
        }
        lemma_filter_no_dup(r, p);
        r.lemma_filter_push(x, p);
        if p(x) {
            if r.filter(p).contains(x) {
                r.lemma_filter_contains_rev(p, x);
                let i = choose|i: int| 0 <= i < r.len() && r[i] == x;
                assert(s[i] == s[s.len() - 1]);
            }
            let t = r.filter(p).push(x);
            assert forall|i: int, j: int| 0 <= i < t.len() && 0 <= j < t.len() && i != j implies t[i] != t[j] by {
                if i < t.len() - 1 && j < t.len() - 1 {
                    assert(t[i] == r.filter(p)[i] && t[j] == r.filter(p)[j]);
                } else if i < t.len() - 1 {
                    assert(t[i] == r.filter(p)[i]);
                } else {
                    assert(t[j] == r.filter(p)[j]);
                }
            }
        }
    } else {
        assert(s.filter(p).len() == 0);
    }
}

} // verus!
