//! The filter and sort engine: a pure, order-preserving filter over entry
//! collections and a stable sort by a chosen key. Both have exact
//! functional contracts: `apply` returns precisely the matching entries in
//! their original order, and `sort_entries` returns precisely the stable
//! insertion sort of its input.
use vstd::prelude::*;
use crate::models::{source_label, StartupEntry, StartupSource};
use crate::text::{has_sub, lower_of, str_le, str_le_exec, to_lowercase};
use crate::text::{lemma_str_le_total, lemma_str_le_trans};

verus! {

broadcast use {vstd::seq_lib::group_to_multiset_ensures, vstd::multiset::group_multiset_axioms};

/// A query over an entry collection. `search_term` is held lowercased;
/// `enabled_only` and `disabled_only` are mutually exclusive by
/// construction (setting one clears the other).
#[derive(Debug)]
pub struct Filter {
    pub search_term: Option<String>,
    pub source_filter: Option<Vec<StartupSource>>,
    pub enabled_only: Option<bool>,
    pub disabled_only: Option<bool>,
}

/// The mathematical content of a `Filter`.
pub ghost struct FilterView {
    pub search_term: Option<Seq<char>>,
    pub source_filter: Option<Seq<StartupSource>>,
    pub enabled_only: Option<bool>,
    pub disabled_only: Option<bool>,
}

impl View for Filter {
    type V = FilterView;

    open spec fn view(&self) -> FilterView {
        FilterView {
            search_term: match self.search_term {
                Some(t) => Some(t@),
                None => None,
            },
            source_filter: match self.source_filter {
                Some(v) => Some(v@),
                None => None,
            },
            enabled_only: self.enabled_only,
            disabled_only: self.disabled_only,
        }
    }
}

/// The query a live search buffer narrows a filter to: a non-empty buffer
/// becomes the (lowercased) search term; an empty one leaves the filter
/// as it is.
pub open spec fn effective_view(f: FilterView, search: Seq<char>) -> FilterView {
    if search.len() > 0 {
        FilterView { search_term: Some(lower_of(search)), ..f }
    } else {
        f
    }
}

/// Whether one entry satisfies every predicate of the filter.
///
/// A search term matches if it is a substring of the lowercased name,
/// command, or description (an absent description never matches). A source
/// filter requires the entry's source to be listed. The enabled/disabled
/// predicates apply last. All predicates are conjoined.
pub open spec fn entry_matches(f: FilterView, e: StartupEntry) -> bool {
    &&& match f.search_term {
        Some(t) => has_sub(lower_of(e.name@), t) || has_sub(lower_of(e.command@), t) || match e
            .description {
            Some(d) => has_sub(lower_of(d@), t),
            None => false,
        },
        None => true,
    }
    &&& match f.source_filter {
        Some(sources) => sources.contains(e.source),
        None => true,
    }
    &&& (f.enabled_only == Some(true) ==> e.enabled)
    &&& (f.disabled_only == Some(true) ==> !e.enabled)
}

/// The subsequence of `s` whose entries match `f`, in their original order.
pub open spec fn filtered(f: FilterView, s: Seq<StartupEntry>) -> Seq<StartupEntry>
    decreases s.len(),
{
    if s.len() == 0 {
        Seq::empty()
    } else {
        filtered(f, s.drop_last()) + if entry_matches(f, s.last()) {
            seq![s.last()]
        } else {
            Seq::empty()
        }
    }
}

/// Filtering only selects: every entry of the result occurs in the input,
/// every entry of the result matches the filter, and the result is never
/// longer than the input.
pub proof fn lemma_filtered_subset(f: FilterView, s: Seq<StartupEntry>)
    ensures
        forall|e: StartupEntry| #[trigger] filtered(f, s).contains(e) ==> s.contains(e),
        forall|e: StartupEntry| #[trigger] filtered(f, s).contains(e) ==> entry_matches(f, e),
        filtered(f, s).len() <= s.len(),
    decreases s.len(),
{
    if s.len() > 0 {
        lemma_filtered_subset(f, s.drop_last());
        assert forall|e: StartupEntry| #[trigger] filtered(f, s).contains(e) implies s.contains(e)
            && entry_matches(f, e) by {
            let i = choose|i: int| 0 <= i < filtered(f, s).len() && filtered(f, s)[i] == e;
            if i < filtered(f, s.drop_last()).len() {
                assert(filtered(f, s.drop_last()).contains(e));
                let j = choose|j: int|
                    0 <= j < s.drop_last().len() && s.drop_last()[j] == e;
                assert(s[j] == e);
            } else {
                assert(e == s.last());
                assert(s[s.len() - 1] == e);
            }
        }
    }
}

impl Clone for Filter {
    fn clone(&self) -> (r: Self)
        ensures
            r@ == self@,
    {
        Filter {
            search_term: match &self.search_term {
                Some(t) => Some(t.clone()),
                None => None,
            },
            source_filter: match &self.source_filter {
                Some(v) => {
                    let mut c: Vec<StartupSource> = Vec::new();
                    let mut i: usize = 0;
                    while i < v.len()
                        invariant
                            i <= v.len(),
                            c@ == v@.take(i as int),
                        decreases v.len() - i,
                    {
                        c.push(v[i]);
                        proof {
                            assert(c@ =~= v@.take(i + 1));
                        }
                        i += 1;
                    }
                    proof {
                        assert(v@.take(v@.len() as int) =~= v@);
                    }
                    Some(c)
                },
                None => None,
            },
            enabled_only: self.enabled_only,
            disabled_only: self.disabled_only,
        }
    }
}

impl Default for Filter {
    /// The empty query: every entry matches.
    fn default() -> (r: Self)
        ensures
            r.search_term is None,
            r.source_filter is None,
            r.enabled_only is None,
            r.disabled_only is None,
    {
        Filter { search_term: None, source_filter: None, enabled_only: None, disabled_only: None }
    }
}

impl Filter {
    /// The empty query: every entry matches.
    pub fn new() -> (r: Self)
        ensures
            r.search_term is None,
            r.source_filter is None,
            r.enabled_only is None,
            r.disabled_only is None,
    {
        Filter { search_term: None, source_filter: None, enabled_only: None, disabled_only: None }
    }

    /// Sets the search term, lowercased so matching is case-insensitive.
    pub fn with_search(self, term: String) -> (r: Self)
        ensures
            r@.search_term == Some(lower_of(term@)),
            r@.source_filter == self@.source_filter,
            r@.enabled_only == self@.enabled_only,
            r@.disabled_only == self@.disabled_only,
    {
        Filter { search_term: Some(to_lowercase(term.as_str())), ..self }
    }

    /// Restricts matches to the given sources.
    pub fn with_source(self, sources: Vec<StartupSource>) -> (r: Self)
        ensures
            r@.search_term == self@.search_term,
            r@.source_filter == Some(sources@),
            r@.enabled_only == self@.enabled_only,
            r@.disabled_only == self@.disabled_only,
    {
        Filter { source_filter: Some(sources), ..self }
    }

    /// Keeps only enabled entries; clears the disabled-only predicate.
    pub fn enabled_only(self) -> (r: Self)
        ensures
            r@.search_term == self@.search_term,
            r@.source_filter == self@.source_filter,
            r@.enabled_only == Some(true),
            r@.disabled_only is None,
    {
        Filter { enabled_only: Some(true), disabled_only: None, ..self }
    }

    /// Keeps only disabled entries; clears the enabled-only predicate.
    pub fn disabled_only(self) -> (r: Self)
        ensures
            r@.search_term == self@.search_term,
            r@.source_filter == self@.source_filter,
            r@.enabled_only is None,
            r@.disabled_only == Some(true),
    {
        Filter { disabled_only: Some(true), enabled_only: None, ..self }
    }

    /// Resets every predicate; afterwards every entry matches.
    pub fn clear(&mut self)
        ensures
            final(self)@.search_term is None,
            final(self)@.source_filter is None,
            final(self)@.enabled_only is None,
            final(self)@.disabled_only is None,
    {
        self.search_term = None;
        self.source_filter = None;
        self.enabled_only = None;
        self.disabled_only = None;
    }

    /// Whether `e` satisfies every predicate of this filter.
    pub fn matches(&self, e: &StartupEntry) -> (r: bool)
        ensures
            r == entry_matches(self@, *e),
    {
        if let Some(term) = &self.search_term {
            let lname = to_lowercase(e.name.as_str());
            let name_match = crate::text::contains_sub(lname.as_str(), term.as_str());
            let lcmd = to_lowercase(e.command.as_str());
            let command_match = crate::text::contains_sub(lcmd.as_str(), term.as_str());
            let desc_match = match &e.description {
                Some(d) => {
                    let ld = to_lowercase(d.as_str());
                    crate::text::contains_sub(ld.as_str(), term.as_str())
                },
                None => false,
            };
            if !name_match && !command_match && !desc_match {
                return false;
            }
        }
        if let Some(sources) = &self.source_filter {
            if !sources_contain(sources, e.source) {
                return false;
            }
        }
        if let Some(true) = self.enabled_only {
            if !e.enabled {
                return false;
            }
        }
        if let Some(true) = self.disabled_only {
            if e.enabled {
                return false;
            }
        }
        true
    }

    /// The pure, order-preserving filter: returns exactly the entries of
    /// `entries` that match, in their original order. Never mutates its
    /// input.
    pub fn apply(&self, entries: &Vec<StartupEntry>) -> (r: Vec<StartupEntry>)
        ensures
            r@ == filtered(self@, entries@),
    {
        let mut out: Vec<StartupEntry> = Vec::new();
        let mut i: usize = 0;
        while i < entries.len()
            invariant
                i <= entries.len(),
                out@ == filtered(self@, entries@.take(i as int)),
            decreases entries.len() - i,
        {
            let ghost pre = entries@.take(i as int);
            let ghost post = entries@.take(i + 1);
            proof {
                assert(post.drop_last() =~= pre);
                assert(post.last() == entries@[i as int]);
            }
            if self.matches(&entries[i]) {
                out.push(entries[i].clone());
                proof {
                    assert(out@ =~= filtered(self@, pre) + seq![entries@[i as int]]);
                }
            } else {
                proof {
                    assert(out@ =~= filtered(self@, pre) + Seq::<StartupEntry>::empty());
                }
            }
            i += 1;
        }
        proof {
            assert(entries@.take(entries@.len() as int) =~= entries@);
        }
        out
    }
}

/// Whether a source list contains `s`.
fn sources_contain(v: &Vec<StartupSource>, s: StartupSource) -> (r: bool)
    ensures
        r == v@.contains(s),
{
    let mut i: usize = 0;
    while i < v.len()
        invariant
            i <= v.len(),
            forall|k: int| 0 <= k < i ==> v@[k] != s,
        decreases v.len() - i,
    {
        if v[i] == s {
            proof {
                assert(v@[i as int] == s);
            }
            return true;
        }
        i += 1;
    }
    false
}

/// The key an entry collection can be ordered by.
#[derive(Debug, Clone, Copy, PartialEq, Eq, Structural)]
pub enum SortBy {
    Name,
    Source,
    Status,
    Command,
}

/// The sort order: `Name` and `Command` compare lexically, `Source`
/// compares the human-readable labels (so sources group visually), and
/// `Status` places enabled entries before disabled ones.
pub open spec fn key_le(k: SortBy, a: StartupEntry, b: StartupEntry) -> bool {
    match k {
        SortBy::Name => str_le(a.name@, b.name@),
        SortBy::Source => str_le(source_label(a.source), source_label(b.source)),
        SortBy::Status => a.enabled || !b.enabled,
        SortBy::Command => str_le(a.command@, b.command@),
    }
}

/// Strictly before in the sort order.
pub open spec fn key_lt(k: SortBy, a: StartupEntry, b: StartupEntry) -> bool {
    key_le(k, a, b) && !key_le(k, b, a)
}

/// `key_le` is total.
pub proof fn lemma_key_le_total(k: SortBy, a: StartupEntry, b: StartupEntry)
    ensures
        key_le(k, a, b) || key_le(k, b, a),
{
    match k {
        SortBy::Name => lemma_str_le_total(a.name@, b.name@),
        SortBy::Source => lemma_str_le_total(source_label(a.source), source_label(b.source)),
        SortBy::Status => {},
        SortBy::Command => lemma_str_le_total(a.command@, b.command@),
    }
}

/// `key_le` is transitive.
pub proof fn lemma_key_le_trans(k: SortBy, a: StartupEntry, b: StartupEntry, c: StartupEntry)
    requires
        key_le(k, a, b),
        key_le(k, b, c),
    ensures
        key_le(k, a, c),
{
    match k {
        SortBy::Name => lemma_str_le_trans(a.name@, b.name@, c.name@),
        SortBy::Source => lemma_str_le_trans(
            source_label(a.source),
            source_label(b.source),
            source_label(c.source),
        ),
        SortBy::Status => {},
        SortBy::Command => lemma_str_le_trans(a.command@, b.command@, c.command@),
    }
}

/// Stable insertion of `e` into `s`: `e` goes after every element that is
/// not strictly greater, so elements with equal keys keep their order.
pub open spec fn insert_sorted(k: SortBy, e: StartupEntry, s: Seq<StartupEntry>) -> Seq<
    StartupEntry,
>
    decreases s.len(),
{
    if s.len() == 0 {
        seq![e]
    } else if key_lt(k, e, s.last()) {
        insert_sorted(k, e, s.drop_last()).push(s.last())
    } else {
        s.push(e)
    }
}

/// The stable sort of `s` by key `k`: a left fold of stable insertions.
pub open spec fn sort_spec(k: SortBy, s: Seq<StartupEntry>) -> Seq<StartupEntry>
    decreases s.len(),
{
    if s.len() == 0 {
        s
    } else {
        insert_sorted(k, s.last(), sort_spec(k, s.drop_last()))
    }
}

/// Non-decreasing in the sort order.
pub open spec fn sorted_by(k: SortBy, s: Seq<StartupEntry>) -> bool {
    forall|i: int, j: int| 0 <= i <= j < s.len() ==> key_le(k, s[i], s[j])
}

/// Inserting rearranges nothing: the contents are the old contents plus
/// the inserted entry.
pub proof fn lemma_insert_sorted_multiset(k: SortBy, e: StartupEntry, s: Seq<StartupEntry>)
    ensures
        insert_sorted(k, e, s).to_multiset() == s.to_multiset().insert(e),
        insert_sorted(k, e, s).len() == s.len() + 1,
    decreases s.len(),
{
    if s.len() == 0 {
        assert(seq![e] =~= Seq::<StartupEntry>::empty().push(e));
        assert(Seq::<StartupEntry>::empty().push(e).to_multiset()
            == Seq::<StartupEntry>::empty().to_multiset().insert(e));
    } else if key_lt(k, e, s.last()) {
        lemma_insert_sorted_multiset(k, e, s.drop_last());
        assert(s.drop_last().push(s.last()) =~= s);
        assert(s.drop_last().to_multiset().insert(s.last()) == s.to_multiset());
        assert(insert_sorted(k, e, s).to_multiset() == insert_sorted(
            k,
            e,
            s.drop_last(),
        ).to_multiset().insert(s.last()));
        assert(s.drop_last().to_multiset().insert(e).insert(s.last())
            =~= s.drop_last().to_multiset().insert(s.last()).insert(e));
    } else {
    }
}

/// Inserting into a sorted sequence keeps it sorted.
pub proof fn lemma_insert_sorted_sorted(k: SortBy, e: StartupEntry, s: Seq<StartupEntry>)
    requires
        sorted_by(k, s),
    ensures
        sorted_by(k, insert_sorted(k, e, s)),
    decreases s.len(),
{
    if s.len() == 0 {
        lemma_key_le_total(k, e, e);
    } else if key_lt(k, e, s.last()) {
        let t = insert_sorted(k, e, s.drop_last());
        lemma_insert_sorted_sorted(k, e, s.drop_last());
        lemma_insert_sorted_multiset(k, e, s.drop_last());
        // every element of t is either from s.drop_last() or is e; both are
        // at most s.last() in the order.
        assert forall|i: int, j: int|
            0 <= i <= j < t.push(s.last()).len() implies key_le(
            k,
            t.push(s.last())[i],
            t.push(s.last())[j],
        ) by {
            if j < t.len() {
            } else {
                let x = t.push(s.last())[i];
                if i < t.len() {
                    assert(t.contains(x));
                    assert(t.to_multiset().contains(x));
                    assert(s.drop_last().to_multiset().insert(e).contains(x));
                    if x == e {
                        assert(key_le(k, x, s.last()));
                    } else {
                        assert(s.drop_last().to_multiset().contains(x));
                        assert(s.drop_last().contains(x));
                        let w = choose|w: int|
                            0 <= w < s.drop_last().len() && s.drop_last()[w] == x;
                        assert(s[w] == x);
                        assert(key_le(k, x, s.last()));
                    }
                } else {
                    lemma_key_le_total(k, x, x);
                }
            }
        }
    } else {
        // e is not strictly less than s.last(), so by totality
        // key_le(s.last(), e); transitivity lifts every element over e.
        lemma_key_le_total(k, e, s.last());
        assert forall|i: int, j: int|
            0 <= i <= j < s.push(e).len() implies key_le(k, s.push(e)[i], s.push(e)[j]) by {
            if j < s.len() {
            } else if i < s.len() {
                assert(key_le(k, s[i], s[s.len() - 1]));
                lemma_key_le_trans(k, s[i], s[s.len() - 1], e);
            } else {
                lemma_key_le_total(k, e, e);
            }
        }
    }
}

/// The sort returns a sorted permutation of its input.
pub proof fn lemma_sort_spec_sorted(k: SortBy, s: Seq<StartupEntry>)
    ensures
        sorted_by(k, sort_spec(k, s)),
        sort_spec(k, s).to_multiset() == s.to_multiset(),
        sort_spec(k, s).len() == s.len(),
    decreases s.len(),
{
    if s.len() > 0 {
        lemma_sort_spec_sorted(k, s.drop_last());
        lemma_insert_sorted_sorted(k, s.last(), sort_spec(k, s.drop_last()));
        lemma_insert_sorted_multiset(k, s.last(), sort_spec(k, s.drop_last()));
        assert(s.drop_last().push(s.last()) =~= s);
        assert(s.drop_last().to_multiset().insert(s.last()) == s.to_multiset());
    }
}

/// Sorting an already sorted sequence changes nothing.
pub proof fn lemma_sort_sorted_identity(k: SortBy, s: Seq<StartupEntry>)
    requires
        sorted_by(k, s),
    ensures
        sort_spec(k, s) == s,
    decreases s.len(),
{
    if s.len() > 0 {
        assert(sorted_by(k, s.drop_last()));
        lemma_sort_sorted_identity(k, s.drop_last());
        let dl = s.drop_last();
        if dl.len() == 0 {
            assert(sort_spec(k, s) =~= s);
        } else {
            assert(key_le(k, dl[dl.len() - 1], s[s.len() - 1]));
            assert(!key_lt(k, s.last(), dl.last()));
            assert(sort_spec(k, s) == dl.push(s.last()));
            assert(dl.push(s.last()) =~= s);
        }
    }
}

/// Sorting is idempotent: a second identical sort returns its input.
pub proof fn lemma_sort_idempotent(k: SortBy, s: Seq<StartupEntry>)
    ensures
        sort_spec(k, sort_spec(k, s)) == sort_spec(k, s),
{
    lemma_sort_spec_sorted(k, s);
    lemma_sort_sorted_identity(k, sort_spec(k, s));
}

/// Whether `a` sorts strictly before `b` under key `k`.
fn key_lt_exec(k: SortBy, a: &StartupEntry, b: &StartupEntry) -> (r: bool)
    ensures
        r == key_lt(k, *a, *b),
{
    let ab = key_le_exec(k, a, b);
    let ba = key_le_exec(k, b, a);
    ab && !ba
}

/// Whether `a` sorts at or before `b` under key `k`.
fn key_le_exec(k: SortBy, a: &StartupEntry, b: &StartupEntry) -> (r: bool)
    ensures
        r == key_le(k, *a, *b),
{
    match k {
        SortBy::Name => str_le_exec(a.name.as_str(), b.name.as_str()),
        SortBy::Source => {
            let la = a.source.label();
            let lb = b.source.label();
            str_le_exec(la.as_str(), lb.as_str())
        },
        SortBy::Status => a.enabled || !b.enabled,
        SortBy::Command => str_le_exec(a.command.as_str(), b.command.as_str()),
    }
}

/// `insert_sorted` splits at the stable insertion point.
proof fn lemma_insert_sorted_at(k: SortBy, e: StartupEntry, s: Seq<StartupEntry>, pos: int)
    requires
        0 <= pos <= s.len(),
        forall|j: int| pos <= j < s.len() ==> key_lt(k, e, #[trigger] s[j]),
        pos > 0 ==> !key_lt(k, e, s[pos - 1]),
    ensures
        insert_sorted(k, e, s) == s.subrange(0, pos) + seq![e] + s.subrange(pos, s.len() as int),
    decreases s.len(),
{
    if pos == s.len() {
        if s.len() == 0 {
            assert(insert_sorted(k, e, s) =~= s.subrange(0, pos) + seq![e] + s.subrange(
                pos,
                s.len() as int,
            ));
        } else {
            assert(!key_lt(k, e, s.last()));
            assert(s.push(e) =~= s.subrange(0, pos) + seq![e] + s.subrange(pos, s.len() as int));
        }
    } else {
        assert(key_lt(k, e, s[s.len() - 1]));
        let dl = s.drop_last();
        assert(forall|j: int| pos <= j < dl.len() ==> key_lt(k, e, #[trigger] dl[j]));
        if pos > 0 {
            assert(dl[pos - 1] == s[pos - 1]);
        }
        lemma_insert_sorted_at(k, e, dl, pos);
        assert((dl.subrange(0, pos) + seq![e] + dl.subrange(pos, dl.len() as int)).push(s.last())
            =~= s.subrange(0, pos) + seq![e] + s.subrange(pos, s.len() as int));
    }
}

/// Inserts `e` into the sorted vector `v` at its stable position.
fn insert_one(v: &mut Vec<StartupEntry>, e: StartupEntry, k: SortBy)
    ensures
        final(v)@ == insert_sorted(k, e, old(v)@),
{
    let mut pos: usize = v.len();
    while pos > 0 && key_lt_exec(k, &e, &v[pos - 1])
        invariant
            pos <= v@.len(),
            forall|j: int| pos <= j < v@.len() ==> key_lt(k, e, #[trigger] v@[j]),
        decreases pos,
    {
        pos -= 1;
    }
    proof {
        lemma_insert_sorted_at(k, e, v@, pos as int);
    }
    v.insert(pos, e);
    proof {
        assert(final(v)@ =~= old(v)@.subrange(0, pos as int) + seq![e] + old(v)@.subrange(
            pos as int,
            old(v)@.len() as int,
        ));
    }
}

/// Stable sort of the collection by the given key. The result is exactly
/// the stable insertion sort of the input: sorted, a permutation, and
/// entries with equal keys keep their original order.
pub fn sort_entries(entries: &mut Vec<StartupEntry>, sort_by: SortBy)
    ensures
        final(entries)@ == sort_spec(sort_by, old(entries)@),
{
    let mut out: Vec<StartupEntry> = Vec::new();
    let mut i: usize = 0;
    while i < entries.len()
        invariant
            i <= entries.len(),
            entries@ == old(entries)@,
            out@ == sort_spec(sort_by, entries@.take(i as int)),
        decreases entries.len() - i,
    {
        let ghost pre = entries@.take(i as int);
        let ghost post = entries@.take(i + 1);
        proof {
            assert(post.drop_last() =~= pre);
            assert(post.last() == entries@[i as int]);
        }
        insert_one(&mut out, entries[i].clone(), sort_by);
        i += 1;
    }
    proof {
        assert(entries@.take(entries@.len() as int) =~= entries@);
    }
    *entries = out;
}

} // verus!
