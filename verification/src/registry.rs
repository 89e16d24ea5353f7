//! The Facet registry's domain: a Facet's moderation state, its artifact kind, the summary a
//! listing shows, the listing filter and order (newest first, ties by id), and the store's
//! error.

use vstd::prelude::*;

pub mod memory;

pub use memory::{InMemoryStore, StoredFacet};

use crate::text::same_text;

verus! {

/// Where a Facet is in moderation. It enters `Certified`, and a moderator moves it to
/// `Published` or `Rejected`.
#[derive(Debug, Clone, Copy, PartialEq, Eq, Structural)]
pub enum FacetState {
    Certified,
    Published,
    Rejected,
}

/// The stable slug of a state.
pub open spec fn state_slug(s: FacetState) -> Seq<char> {
    match s {
        FacetState::Certified => "certified"@,
        FacetState::Published => "published"@,
        FacetState::Rejected => "rejected"@,
    }
}

/// The state a slug names, if any.
pub open spec fn state_of_slug(s: Seq<char>) -> Option<FacetState> {
    if s == "certified"@ {
        Some(FacetState::Certified)
    } else if s == "published"@ {
        Some(FacetState::Published)
    } else if s == "rejected"@ {
        Some(FacetState::Rejected)
    } else {
        None
    }
}

impl FacetState {
    /// The stable slug.
    pub fn as_str(self) -> (s: &'static str)
        ensures
            s@ == state_slug(self),
    {
        match self {
            FacetState::Certified => "certified",
            FacetState::Published => "published",
            FacetState::Rejected => "rejected",
        }
    }

    /// The state a slug names, or `None` for an unknown slug.
    pub fn parse(s: &str) -> (r: Option<FacetState>)
        ensures
            r == state_of_slug(s@),
    {
        if same_text(s, "certified") {
            Some(FacetState::Certified)
        } else if same_text(s, "published") {
            Some(FacetState::Published)
        } else if same_text(s, "rejected") {
            Some(FacetState::Rejected)
        } else {
            None
        }
    }
}

/// Reading a state's slug back gives the state.
pub proof fn lemma_state_slug_roundtrip(s: FacetState)
    ensures
        state_of_slug(state_slug(s)) == Some(s),
{
    reveal_strlit("certified");
    reveal_strlit("published");
    reveal_strlit("rejected");
    assert("certified"@ != "published"@) by {
        assert("certified"@[0] != "published"@[0]);
    }
    assert("certified"@ != "rejected"@) by {
        assert("certified"@[0] != "rejected"@[0]);
    }
    assert("published"@ != "rejected"@) by {
        assert("published"@[0] != "rejected"@[0]);
    }
}

/// What kind of artifact a Facet is.
#[derive(Debug, Clone, Copy, PartialEq, Eq, Structural)]
pub enum ArtifactKind {
    /// A self-contained wasm module.
    Wasm,
    /// A DSL bytecode program run on the shared interpreter.
    Program,
}

/// The listing view of a Facet.
#[derive(Debug, Clone)]
pub struct FacetSummary {
    pub id: String,
    pub name: String,
    pub author: String,
    pub kind: ArtifactKind,
    pub state: FacetState,
    pub created_at: i64,
}

impl FacetSummary {
    /// A copy of this summary.
    pub fn duplicate(&self) -> (r: FacetSummary)
        ensures
            r == *self,
    {
        FacetSummary {
            id: self.id.clone(),
            name: self.name.clone(),
            author: self.author.clone(),
            kind: self.kind,
            state: self.state,
            created_at: self.created_at,
        }
    }
}

/// A listing filter: by state, or everything.
#[derive(Debug, Clone)]
pub struct ListFilter {
    pub state: Option<FacetState>,
}

/// Whether filter `f` admits a Facet in state `s`.
pub open spec fn filter_admits(f: Option<FacetState>, s: FacetState) -> bool {
    match f {
        None => true,
        Some(want) => s == want,
    }
}

impl Default for ListFilter {
    fn default() -> (f: ListFilter)
        ensures
            f.state is None,
    {
        ListFilter { state: None }
    }
}

impl ListFilter {
    /// Whether this filter admits a Facet in state `s`.
    pub fn admits(&self, s: FacetState) -> (b: bool)
        ensures
            b == filter_admits(self.state, s),
    {
        match self.state {
            None => true,
            Some(want) => s == want,
        }
    }
}

/// A registry backend failure.
#[derive(Debug)]
pub enum StoreError {
    Backend(String),
}

impl StoreError {
    /// The human-readable text of this error.
    pub fn to_display_string(&self) -> (s: String)
        ensures
            match self {
                StoreError::Backend(m) => s@ == "registry backend error: "@ + m@,
            },
    {
        match self {
            StoreError::Backend(m) => {
                let mut s = String::new();
                s.append("registry backend error: ");
                s.append(m.as_str());
                s
            },
        }
    }
}

/// Lexicographic order on texts by code point, from position `i`: `a` sorts before `b`.
pub open spec fn text_lt_from(a: Seq<char>, b: Seq<char>, i: int) -> bool
    decreases a.len() - i,
{
    if i >= a.len() {
        i < b.len()
    } else if i >= b.len() {
        false
    } else if a[i] != b[i] {
        (a[i] as u32) < (b[i] as u32)
    } else {
        text_lt_from(a, b, i + 1)
    }
}

/// `a` sorts strictly before `b`, lexicographically by code point.
pub open spec fn text_lt(a: Seq<char>, b: Seq<char>) -> bool {
    text_lt_from(a, b, 0)
}

/// In a listing, `a` comes strictly before `b`: newer first, and among equally new ones the
/// smaller id first.
pub open spec fn listed_before(a: FacetSummary, b: FacetSummary) -> bool {
    a.created_at > b.created_at || (a.created_at == b.created_at && text_lt(a.id@, b.id@))
}

/// No entry comes strictly before an earlier one.
pub open spec fn listing_ordered(s: Seq<FacetSummary>) -> bool {
    forall|i: int, j: int| 0 <= i < j < s.len() ==> !listed_before(#[trigger] s[j], #[trigger] s[i])
}

/// The entries of `s` that filter `f` admits, in order.
pub open spec fn admitted(s: Seq<FacetSummary>, f: Option<FacetState>) -> Seq<FacetSummary> {
    s.filter(admits_fn(f))
}

/// Filter `f` as a predicate on summaries.
pub open spec fn admits_fn(f: Option<FacetState>) -> spec_fn(FacetSummary) -> bool {
    |x: FacetSummary| filter_admits(f, x.state)
}

proof fn lemma_text_lt_from_trans(a: Seq<char>, b: Seq<char>, c: Seq<char>, i: int)
    requires
        0 <= i,
        text_lt_from(a, b, i),
        text_lt_from(b, c, i),
    ensures
        text_lt_from(a, c, i),
    decreases a.len() - i,
{
    if i < a.len() && i < b.len() && i < c.len() && a[i] == b[i] && b[i] == c[i] {
        lemma_text_lt_from_trans(a, b, c, i + 1);
    }
}

proof fn lemma_text_lt_from_irrefl(a: Seq<char>, i: int)
    requires
        0 <= i,
    ensures
        !text_lt_from(a, a, i),
    decreases a.len() - i,
{
    if i < a.len() {
        lemma_text_lt_from_irrefl(a, i + 1);
    }
}

/// The listing order is transitive.
pub proof fn lemma_listed_before_trans(a: FacetSummary, b: FacetSummary, c: FacetSummary)
    requires
        listed_before(a, b),
        listed_before(b, c),
    ensures
        listed_before(a, c),
{
    if a.created_at == b.created_at && b.created_at == c.created_at {
        lemma_text_lt_from_trans(a.id@, b.id@, c.id@, 0);
    }
}

proof fn lemma_text_lt_from_total(a: Seq<char>, b: Seq<char>, i: int)
    requires
        0 <= i <= a.len(),
        i <= b.len(),
        forall|k: int| 0 <= k < i ==> a[k] == b[k],
        a != b,
    ensures
        text_lt_from(a, b, i) || text_lt_from(b, a, i),
    decreases a.len() - i,
{
    if i == a.len() && i == b.len() {
        assert(a =~= b);
    } else if i < a.len() && i < b.len() {
        if a[i] == b[i] {
            lemma_text_lt_from_total(a, b, i + 1);
        } else {
            let (ca, cb) = (a[i], b[i]);
            vstd::utf8::char_u32_cast(ca, ca as u32);
            vstd::utf8::char_u32_cast(cb, cb as u32);
            assert((ca as u32) != (cb as u32));
        }
    }
}

/// Of two entries with different ids, one is listed before the other.
pub proof fn lemma_listed_before_total(a: FacetSummary, b: FacetSummary)
    requires
        a.id@ != b.id@,
    ensures
        listed_before(a, b) || listed_before(b, a),
{
    if a.created_at == b.created_at {
        lemma_text_lt_from_total(a.id@, b.id@, 0);
    }
}

/// No entry is listed before itself, and of two entries at most one comes first.
pub proof fn lemma_listed_before_asymmetric(a: FacetSummary, b: FacetSummary)
    ensures
        !(listed_before(a, b) && listed_before(b, a)),
{
    lemma_text_lt_from_irrefl(a.id@, 0);
    if listed_before(a, b) && listed_before(b, a) {
        lemma_text_lt_from_trans(a.id@, b.id@, a.id@, 0);
    }
}

/// A listing is determined by its entries: two ordered listings of the same entries, whose
/// ids are distinct, are the same sequence — so every backend lists the same Facets in the
/// same order, whatever order it holds them in.
pub proof fn lemma_listing_is_determined(s1: Seq<FacetSummary>, s2: Seq<FacetSummary>)
    requires
        listing_ordered(s1),
        listing_ordered(s2),
        s1.to_multiset() == s2.to_multiset(),
        forall|i: int, j: int| 0 <= i < j < s1.len() ==> s1[i].id@ != s1[j].id@,
    ensures
        s1 == s2,
    decreases s1.len(),
{
    broadcast use vstd::seq_lib::group_to_multiset_ensures;

    assert(s1.to_multiset().len() == s1.len() && s2.to_multiset().len() == s2.len());
    if s1.len() == 0 {
        assert(s1 =~= s2);
    } else {
        let x = s1[0];
        let y = s2[0];
        assert(s1.contains(x));
        assert(s2.contains(y));
        assert(s2.to_multiset().count(x) > 0);
        assert(s1.to_multiset().count(y) > 0);
        if x != y {
            let m = choose|m: int| 0 <= m < s1.len() && s1[m] == y;
            let k = choose|k: int| 0 <= k < s2.len() && s2[k] == x;
            assert(m != 0 && k != 0);
            assert(!listed_before(s1[m], s1[0]));
            assert(!listed_before(s2[k], s2[0]));
            lemma_listed_before_total(x, y);
        }
        let r1 = s1.drop_first();
        let r2 = s2.drop_first();
        assert(r1 =~= s1.remove(0));
        assert(r2 =~= s2.remove(0));
        assert(r1.to_multiset() == r2.to_multiset());
        assert forall|i: int, j: int| 0 <= i < j < r1.len() implies !listed_before(#[trigger] r1[j], #[trigger] r1[i]) by {
            assert(r1[j] == s1[j + 1] && r1[i] == s1[i + 1]);
        }
        assert forall|i: int, j: int| 0 <= i < j < r2.len() implies !listed_before(#[trigger] r2[j], #[trigger] r2[i]) by {
            assert(r2[j] == s2[j + 1] && r2[i] == s2[i + 1]);
        }
        assert forall|i: int, j: int| 0 <= i < j < r1.len() implies r1[i].id@ != r1[j].id@ by {
            assert(r1[j] == s1[j + 1] && r1[i] == s1[i + 1]);
        }
        lemma_listing_is_determined(r1, r2);
        assert(s1 =~= s2) by {
            assert forall|i: int| 0 <= i < s1.len() implies s1[i] == s2[i] by {
                if i > 0 {
                    assert(s1[i] == r1[i - 1] && s2[i] == r2[i - 1]);
                }
            }
        }
    }
}

fn text_lt_exec(a: &String, b: &String) -> (r: bool)
    ensures
        r == text_lt(a@, b@),
{
    let sa = a.as_str();
    let sb = b.as_str();
    let la = sa.unicode_len();
    let lb = sb.unicode_len();
    let mut i: usize = 0;
    while i < la && i < lb
        invariant
            la == a@.len(),
            lb == b@.len(),
            sa@ == a@,
            sb@ == b@,
            i <= la,
            i <= lb,
            text_lt(a@, b@) == text_lt_from(a@, b@, i as int),
        decreases la - i,
    {
        let ca = sa.get_char(i);
        let cb = sb.get_char(i);
        if ca != cb {
            return (ca as u32) < (cb as u32);
        }
        i += 1;
    }
    i < lb
}

fn before_exec(a: &FacetSummary, b: &FacetSummary) -> (r: bool)
    ensures
        r == listed_before(*a, *b),
{
    a.created_at > b.created_at || (a.created_at == b.created_at && text_lt_exec(&a.id, &b.id))
}

/// The listing a filter asks for: the admitted entries, newest first, ties broken by id —
/// a total order, so the listing is the same whatever order the store held them in.
pub fn order_listing(items: Vec<FacetSummary>, filter: &ListFilter) -> (out: Vec<FacetSummary>)
    ensures
        out@.to_multiset() == admitted(items@, filter.state).to_multiset(),
        listing_ordered(out@),
        forall|i: int| 0 <= i < out@.len() ==> filter_admits(filter.state, (#[trigger] out@[i]).state),
{
    broadcast use vstd::seq_lib::group_to_multiset_ensures;

    let mut out: Vec<FacetSummary> = Vec::new();
    let mut k: usize = 0;
    while k < items.len()
        invariant
            k <= items@.len(),
            out@.to_multiset() == admitted(items@.take(k as int), filter.state).to_multiset(),
            listing_ordered(out@),
            forall|i: int| 0 <= i < out@.len() ==> filter_admits(filter.state, (#[trigger] out@[i]).state),
        decreases items@.len() - k,
    {
        let x = &items[k];
        proof {
            let f = admits_fn(filter.state);
            assert(items@.take(k + 1) =~= items@.take(k as int).push(items@[k as int]));
            items@.take(k as int).lemma_filter_push(items@[k as int], f);
        }
        if filter.admits(x.state) {
            let mut p: usize = 0;
            while p < out.len() && !before_exec(x, &out[p])
                invariant
                    p <= out@.len(),
                    listing_ordered(out@),
                    forall|q: int| 0 <= q < p ==> !listed_before(*x, #[trigger] out@[q]),
                decreases out@.len() - p,
            {
                p += 1;
            }
            let ghost old_out = out@;
            out.insert(p, x.duplicate());
            proof {
                assert(out@ == old_out.insert(p as int, *x));
                assert forall|i: int, j: int| 0 <= i < j < out@.len() implies !listed_before(#[trigger] out@[j], #[trigger] out@[i]) by {
                    if i < p && j == p {
                    } else if i == p && j > p {
                        if listed_before(out@[j], *x) {
                            assert(listed_before(*x, old_out[p as int]));
                            lemma_listed_before_trans(out@[j], *x, old_out[p as int]);
                            assert(out@[j] == old_out[j - 1]);
                            if j - 1 > p {
                                assert(!listed_before(old_out[j - 1], old_out[p as int]));
                            } else {
                                lemma_text_lt_from_irrefl(old_out[p as int].id@, 0);
                            }
                        }
                    } else {
                        let oi = if i < p { i } else { i - 1 };
                        let oj = if j < p { j } else { j - 1 };
                        assert(out@[i] == old_out[oi]);
                        assert(out@[j] == old_out[oj]);
                    }
                }
                assert forall|i: int| 0 <= i < out@.len() implies filter_admits(filter.state, (#[trigger] out@[i]).state) by {
                    if i < p {
                        assert(out@[i] == old_out[i]);
                    } else if i > p {
                        assert(out@[i] == old_out[i - 1]);
                    }
                }
                vstd::seq_lib::to_multiset_insert(old_out, p as int, *x);
                vstd::seq_lib::to_multiset_build(admitted(items@.take(k as int), filter.state), *x);
                assert(out@.to_multiset() == old_out.to_multiset().insert(*x));
                assert(admitted(items@.take(k + 1), filter.state) == admitted(items@.take(k as int), filter.state).push(*x));
                assert(admitted(items@.take(k + 1), filter.state).to_multiset() == admitted(items@.take(k as int), filter.state).to_multiset().insert(*x));
            }
        } else {
            assert(admitted(items@.take(k + 1), filter.state) == admitted(items@.take(k as int), filter.state));
        }
        k += 1;
    }
    assert(items@.take(k as int) =~= items@);
    out
}

} // verus!
