//! The statistics aggregator: read-only rollups over an entry collection,
//! recomputed on demand and never cached across mutations.
use vstd::prelude::*;
use vstd::string::StringExecFns;
use crate::models::{source_label, StartupEntry};
use crate::text::{dec_digits, rate_tenths, ratio_tenths, str_eq, tenths_string, tenths_view};
use crate::text::u64_to_string;

verus! {

/// How many entries of `s` are enabled.
pub open spec fn count_enabled(s: Seq<StartupEntry>) -> int
    decreases s.len(),
{
    if s.len() == 0 {
        0
    } else {
        count_enabled(s.drop_last()) + if s.last().enabled {
            1int
        } else {
            0int
        }
    }
}

/// How many entries of `s` carry the source with label `lbl`.
pub open spec fn count_label(s: Seq<StartupEntry>, lbl: Seq<char>) -> int
    decreases s.len(),
{
    if s.len() == 0 {
        0
    } else {
        count_label(s.drop_last(), lbl) + if source_label(s.last().source) == lbl {
            1int
        } else {
            0int
        }
    }
}

proof fn lemma_count_enabled_bound(s: Seq<StartupEntry>)
    ensures
        0 <= count_enabled(s) <= s.len(),
    decreases s.len(),
{
    if s.len() > 0 {
        lemma_count_enabled_bound(s.drop_last());
    }
}

proof fn lemma_count_label_bound(s: Seq<StartupEntry>, lbl: Seq<char>)
    ensures
        0 <= count_label(s, lbl) <= s.len(),
    decreases s.len(),
{
    if s.len() > 0 {
        lemma_count_label_bound(s.drop_last(), lbl);
    }
}

/// Counts over one entry collection: the total, the enabled/disabled
/// split, and per-source and per-status breakdowns keyed by their
/// human-readable labels.
#[derive(Debug)]
pub struct ScanStatistics {
    pub total_entries: usize,
    pub enabled_count: usize,
    pub disabled_count: usize,
    pub by_source: Vec<(String, usize)>,
    pub by_status: Vec<(String, usize)>,
}

/// Every row of the per-source table counts exactly the entries of `s`
/// that carry its label.
pub open spec fn table_counts(t: Seq<(String, usize)>, s: Seq<StartupEntry>) -> bool {
    forall|j: int| 0 <= j < t.len() ==> (#[trigger] t[j]).1 as int == count_label(s, t[j].0@)
}

/// No label appears on two rows.
pub open spec fn table_unique(t: Seq<(String, usize)>) -> bool {
    forall|j1: int, j2: int|
        0 <= j1 < j2 < t.len() ==> (#[trigger] t[j1]).0@ != (#[trigger] t[j2]).0@
}

/// Every label that occurs in `s` has a row.
pub open spec fn table_complete(t: Seq<(String, usize)>, s: Seq<StartupEntry>) -> bool {
    forall|k: int|
        0 <= k < s.len() ==> exists|j: int|
            0 <= j < t.len() && (#[trigger] t[j]).0@ == source_label((#[trigger] s[k]).source)
}

/// Every row's label occurs in `s`.
pub open spec fn table_sound(t: Seq<(String, usize)>, s: Seq<StartupEntry>) -> bool {
    forall|j: int|
        0 <= j < t.len() ==> exists|k: int|
            0 <= k < s.len() && (#[trigger] t[j]).0@ == source_label(s[k].source)
}

/// The per-source table is exactly the label histogram of `s`.
#[verifier::opaque]
pub open spec fn source_table(t: Seq<(String, usize)>, s: Seq<StartupEntry>) -> bool {
    table_counts(t, s) && table_unique(t) && table_complete(t, s) && table_sound(t, s)
}

/// Bumping the row of the label of one new entry keeps the histogram.
#[verifier::rlimit(100)]
#[verifier::spinoff_prover]
proof fn lemma_table_bump(
    t: Seq<(String, usize)>,
    s: Seq<StartupEntry>,
    e: StartupEntry,
    j: int,
    p: (String, usize),
)
    requires
        source_table(t, s),
        0 <= j < t.len(),
        t[j].0@ == source_label(e.source),
        p.0@ == t[j].0@,
        p.1 as int == t[j].1 as int + 1,
    ensures
        source_table(t.update(j, p), s.push(e)),
{
    reveal(source_table);
    let t1 = t.update(j, p);
    let s1 = s.push(e);
    assert(s1.drop_last() =~= s);
    assert(s1.last() == e);
    assert forall|jj: int| 0 <= jj < t1.len() implies (#[trigger] t1[jj]).1 as int == count_label(
        s1,
        t1[jj].0@,
    ) by {
        assert(count_label(s1, t1[jj].0@) == count_label(s, t1[jj].0@) + if source_label(e.source)
            == t1[jj].0@ {
            1int
        } else {
            0int
        });
        if jj != j {
            assert(t1[jj] == t[jj]);
            assert(t[jj].0@ != t[j].0@);
        }
    }
    assert forall|k: int| 0 <= k < s1.len() implies exists|jj: int|
        0 <= jj < t1.len() && (#[trigger] t1[jj]).0@ == source_label(
            (#[trigger] s1[k]).source,
        ) by {
        if k < s.len() {
            let j0 = choose|j0: int|
                0 <= j0 < t.len() && (#[trigger] t[j0]).0@ == source_label(s[k].source);
            assert(t1[j0].0@ == t[j0].0@);
            assert(t1[j0].0@ == source_label(s1[k].source));
        } else {
            assert(t1[j].0@ == source_label(s1[k].source));
        }
    }
    assert forall|jj: int| 0 <= jj < t1.len() implies exists|k: int|
        0 <= k < s1.len() && (#[trigger] t1[jj]).0@ == source_label(s1[k].source) by {
        let k0 = choose|k0: int|
            0 <= k0 < s.len() && (#[trigger] t[jj]).0@ == source_label(s[k0].source);
        assert(s1[k0] == s[k0]);
        assert(t1[jj].0@ == source_label(s1[k0].source));
    }
    assert forall|j1: int, j2: int| 0 <= j1 < j2 < t1.len() implies (#[trigger] t1[j1]).0@ != (
    #[trigger] t1[j2]).0@ by {
        assert(t1[j1].0@ == t[j1].0@);
        assert(t1[j2].0@ == t[j2].0@);
    }
}

/// Appending a row for a label no row has keeps the histogram.
#[verifier::rlimit(100)]
#[verifier::spinoff_prover]
proof fn lemma_table_new(
    t: Seq<(String, usize)>,
    s: Seq<StartupEntry>,
    e: StartupEntry,
    p: (String, usize),
)
    requires
        source_table(t, s),
        forall|j: int| 0 <= j < t.len() ==> (#[trigger] t[j]).0@ != source_label(e.source),
        p.0@ == source_label(e.source),
        p.1 == 1,
    ensures
        source_table(t.push(p), s.push(e)),
{
    reveal(source_table);
    let t1 = t.push(p);
    let s1 = s.push(e);
    assert(s1.drop_last() =~= s);
    assert(s1.last() == e);
    // the new label was never counted before
    if count_label(s, p.0@) != 0 {
        lemma_count_label_witness(s, p.0@);
        let k = choose|k: int| 0 <= k < s.len() && source_label(#[trigger] s[k].source) == p.0@;
        let j0 = choose|j0: int|
            0 <= j0 < t.len() && (#[trigger] t[j0]).0@ == source_label(s[k].source);
        assert(false);
    }
    assert forall|jj: int| 0 <= jj < t1.len() implies (#[trigger] t1[jj]).1 as int == count_label(
        s1,
        t1[jj].0@,
    ) by {
        assert(count_label(s1, t1[jj].0@) == count_label(s, t1[jj].0@) + if source_label(e.source)
            == t1[jj].0@ {
            1int
        } else {
            0int
        });
        if jj < t.len() {
            assert(t1[jj] == t[jj]);
        } else {
            assert(t1[jj] == p);
        }
    }
    assert forall|k: int| 0 <= k < s1.len() implies exists|jj: int|
        0 <= jj < t1.len() && (#[trigger] t1[jj]).0@ == source_label(
            (#[trigger] s1[k]).source,
        ) by {
        if k < s.len() {
            let j0 = choose|j0: int|
                0 <= j0 < t.len() && (#[trigger] t[j0]).0@ == source_label(s[k].source);
            assert(t1[j0].0@ == source_label(s1[k].source));
        } else {
            assert(t1[t.len() as int].0@ == source_label(s1[k].source));
        }
    }
    assert forall|jj: int| 0 <= jj < t1.len() implies exists|k: int|
        0 <= k < s1.len() && (#[trigger] t1[jj]).0@ == source_label(s1[k].source) by {
        if jj < t.len() {
            let k0 = choose|k0: int|
                0 <= k0 < s.len() && (#[trigger] t[jj]).0@ == source_label(s[k0].source);
            assert(s1[k0] == s[k0]);
            assert(t1[jj].0@ == source_label(s1[k0].source));
        } else {
            assert(t1[jj].0@ == source_label(s1[s.len() as int].source));
        }
    }
}

/// An empty table is the histogram of an empty collection.
proof fn lemma_table_empty()
    ensures
        source_table(Seq::<(String, usize)>::empty(), Seq::<StartupEntry>::empty()),
{
    reveal(source_table);
}

/// Each row of a histogram states its label's count, which the collection
/// bounds.
pub proof fn lemma_table_row(t: Seq<(String, usize)>, s: Seq<StartupEntry>, j: int)
    requires
        source_table(t, s),
        0 <= j < t.len(),
    ensures
        t[j].1 as int == count_label(s, t[j].0@),
        t[j].1 <= s.len(),
{
    reveal(source_table);
    lemma_count_label_bound(s, t[j].0@);
}

/// The counts of a rollup are consistent: the split sums to the total and
/// no per-source count exceeds it.
pub open spec fn stats_wf(st: ScanStatistics) -> bool {
    &&& st.enabled_count + st.disabled_count == st.total_entries
    &&& forall|j: int|
        0 <= j < st.by_source@.len() ==> (#[trigger] st.by_source@[j]).1 <= st.total_entries
}

impl ScanStatistics {
    /// Computes the rollup of `entries`. The per-source table holds, in
    /// first-seen order, exactly the labels that occur, each with the
    /// number of entries carrying it; the per-status table holds the
    /// enabled and disabled counts under their labels.
    pub fn from_entries(entries: &Vec<StartupEntry>) -> (r: Self)
        ensures
            r.total_entries == entries@.len(),
            r.enabled_count == count_enabled(entries@),
            r.enabled_count + r.disabled_count == entries@.len(),
            source_table(r.by_source@, entries@),
            r.by_status@.len() == 2,
            r.by_status@[0].0@ == "Enabled"@,
            r.by_status@[0].1 == r.enabled_count,
            r.by_status@[1].0@ == "Disabled"@,
            r.by_status@[1].1 == r.disabled_count,
            stats_wf(r),
    {
        let mut by_source: Vec<(String, usize)> = Vec::new();
        let mut enabled_count: usize = 0;
        proof {
            lemma_table_empty();
            assert(by_source@ =~= Seq::<(String, usize)>::empty());
            assert(entries@.take(0) =~= Seq::<StartupEntry>::empty());
        }
        let mut i: usize = 0;
        while i < entries.len()
            invariant
                i <= entries.len(),
                enabled_count == count_enabled(entries@.take(i as int)),
                source_table(by_source@, entries@.take(i as int)),
            decreases entries.len() - i,
        {
            let ghost pre = entries@.take(i as int);
            let ghost post = entries@.take(i + 1);
            proof {
                assert(post =~= pre.push(entries@[i as int]));
                assert(post.drop_last() =~= pre);
                assert(post.last() == entries@[i as int]);
                lemma_count_enabled_bound(pre);
            }
            let label = entries[i].source.label();
            let ghost table0 = by_source@;
            match find_label(&by_source, label.as_str()) {
                Some(j) => {
                    let pair = by_source.remove(j);
                    proof {
                        lemma_table_row(table0, pre, j as int);
                    }
                    let newpair = (pair.0, pair.1 + 1);
                    let ghost gnew = newpair;
                    by_source.insert(j, newpair);
                    proof {
                        assert(by_source@ =~= table0.update(j as int, gnew));
                        lemma_table_bump(table0, pre, entries@[i as int], j as int, gnew);
                    }
                },
                None => {
                    let ghost gnew = (label@, 1usize);
                    by_source.push((label, 1));
                    proof {
                        assert(by_source@.last().0@ == gnew.0);
                        lemma_table_new(
                            table0,
                            pre,
                            entries@[i as int],
                            by_source@.last(),
                        );
                        assert(by_source@ =~= table0.push(by_source@.last()));
                    }
                },
            }
            if entries[i].enabled {
                enabled_count += 1;
            }
            proof {
                assert(count_enabled(post) == count_enabled(pre) + if entries@[i as int].enabled {
                    1int
                } else {
                    0int
                });
            }
            i += 1;
        }
        proof {
            assert(entries@.take(entries@.len() as int) =~= entries@);
            lemma_count_enabled_bound(entries@);
        }
        let disabled_count = entries.len() - enabled_count;
        let mut by_status: Vec<(String, usize)> = Vec::new();
        by_status.push((String::from_str("Enabled"), enabled_count));
        by_status.push((String::from_str("Disabled"), disabled_count));
        proof {
            assert forall|j: int|
                0 <= j < by_source@.len() implies (#[trigger] by_source@[j]).1
                <= entries@.len() by {
                lemma_table_row(by_source@, entries@, j);
            }
        }
        ScanStatistics {
            total_entries: entries.len(),
            enabled_count,
            disabled_count,
            by_source,
            by_status,
        }
    }

    /// The multi-line, operator-facing rollup text: the total, the
    /// enabled/disabled split with percentages, and one line per source
    /// label in table order.
    pub fn get_summary(&self) -> (r: String)
        requires
            stats_wf(*self),
        ensures
            r@ == summary_header(*self) + source_lines(self.by_source@, self.total_entries as nat),
    {
        let mut s = String::new();
        s.append("Total Entries: ");
        let tot = u64_to_string(self.total_entries as u64);
        s.append(tot.as_str());
        s.append("\n  Enabled: ");
        let en = u64_to_string(self.enabled_count as u64);
        s.append(en.as_str());
        s.append(" (");
        let ep = tenths_string(ratio_tenths(self.enabled_count, self.total_entries));
        s.append(ep.as_str());
        s.append("%)\n  Disabled: ");
        let di = u64_to_string(self.disabled_count as u64);
        s.append(di.as_str());
        s.append(" (");
        let dp = tenths_string(ratio_tenths(self.disabled_count, self.total_entries));
        s.append(dp.as_str());
        s.append("%)\n\nBy Source:\n");
        let ghost header = s@;
        let mut j: usize = 0;
        while j < self.by_source.len()
            invariant
                j <= self.by_source@.len(),
                stats_wf(*self),
                s@ == header + source_lines(self.by_source@.take(j as int), self.total_entries as nat),
                header == summary_header(*self),
            decreases self.by_source@.len() - j,
        {
            let ghost pre = self.by_source@.take(j as int);
            let ghost post = self.by_source@.take(j + 1);
            proof {
                assert(post.drop_last() =~= pre);
                assert(post.last() == self.by_source@[j as int]);
            }
            s.append("  ");
            let pair = &self.by_source[j];
            s.append(pair.0.as_str());
            s.append(": ");
            let c = u64_to_string(pair.1 as u64);
            s.append(c.as_str());
            s.append(" (");
            let p = tenths_string(ratio_tenths(pair.1, self.total_entries));
            s.append(p.as_str());
            s.append("%)\n");
            j += 1;
        }
        proof {
            assert(self.by_source@.take(self.by_source@.len() as int) =~= self.by_source@);
        }
        s
    }
}

/// The fixed head of the rollup text, before the per-source lines.
pub open spec fn summary_header(st: ScanStatistics) -> Seq<char> {
    "Total Entries: "@ + dec_digits(st.total_entries as nat) + "\n  Enabled: "@ + dec_digits(
        st.enabled_count as nat,
    ) + " ("@ + tenths_view(rate_tenths(st.enabled_count as nat, st.total_entries as nat))
        + "%)\n  Disabled: "@ + dec_digits(st.disabled_count as nat) + " ("@ + tenths_view(
        rate_tenths(st.disabled_count as nat, st.total_entries as nat),
    ) + "%)\n\nBy Source:\n"@
}

/// One rollup line per source label, in table order.
pub open spec fn source_lines(pairs: Seq<(String, usize)>, total: nat) -> Seq<char>
    decreases pairs.len(),
{
    if pairs.len() == 0 {
        Seq::empty()
    } else {
        source_lines(pairs.drop_last(), total) + "  "@ + pairs.last().0@ + ": "@ + dec_digits(
            pairs.last().1 as nat,
        ) + " ("@ + tenths_view(rate_tenths(pairs.last().1 as nat, total)) + "%)\n"@
    }
}

/// A positive count names a witness: some entry carries the label.
proof fn lemma_count_label_witness(s: Seq<StartupEntry>, lbl: Seq<char>)
    requires
        count_label(s, lbl) != 0,
    ensures
        exists|k: int| 0 <= k < s.len() && source_label(#[trigger] s[k].source) == lbl,
    decreases s.len(),
{
    if s.len() > 0 {
        if source_label(s.last().source) == lbl {
            assert(source_label(s[s.len() - 1].source) == lbl);
        } else {
            lemma_count_label_witness(s.drop_last(), lbl);
            let k = choose|k: int|
                0 <= k < s.drop_last().len() && source_label(s.drop_last()[k].source) == lbl;
            assert(source_label(s[k].source) == lbl);
        }
    }
}

/// Finds the row of `lbl` in the per-source table.
fn find_label(v: &Vec<(String, usize)>, lbl: &str) -> (r: Option<usize>)
    ensures
        match r {
            Some(j) => j < v@.len() && v@[j as int].0@ == lbl@,
            None => forall|j: int| 0 <= j < v@.len() ==> (#[trigger] v@[j]).0@ != lbl@,
        },
{
    let mut j: usize = 0;
    while j < v.len()
        invariant
            j <= v@.len(),
            forall|k: int| 0 <= k < j ==> (#[trigger] v@[k]).0@ != lbl@,
        decreases v@.len() - j,
    {
        if str_eq(v[j].0.as_str(), lbl) {
            return Some(j);
        }
        j += 1;
    }
    None
}

} // verus!
