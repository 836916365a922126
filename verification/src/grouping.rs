//! Findings a reader cannot tell apart become one row: rows with the same
//! agent, title and detail are merged, every location and every line of
//! provenance is kept, and the title says how many places raised it.

use vstd::prelude::*;

use crate::collect::strs;
use crate::extract::Location;
use crate::report::{raised_at_phrase, raised_at_spec};
use crate::review::{distinct_onto, string_listed};
use crate::text::{owned, str_eq};

verus! {

/// One finding row, with the provenance of its evidence record beside its
/// own. The agent is named by its label.
pub struct FindingRow {
    pub agent: String,
    pub title: String,
    pub detail: String,
    pub location: Option<Location>,
    pub also_at: Vec<Location>,
    pub provenance: Vec<String>,
    pub evidence_provenance: Vec<String>,
}

/// A finding row as plain values.
pub struct FindingRowView {
    pub agent: Seq<char>,
    pub title: Seq<char>,
    pub detail: Seq<char>,
    pub location: Option<Location>,
    pub also_at: Seq<Location>,
    pub provenance: Seq<Seq<char>>,
    pub evidence_provenance: Seq<Seq<char>>,
}

impl View for FindingRow {
    type V = FindingRowView;

    open spec fn view(&self) -> FindingRowView {
        FindingRowView {
            agent: self.agent@,
            title: self.title@,
            detail: self.detail@,
            location: self.location,
            also_at: self.also_at@,
            provenance: strs(self.provenance@),
            evidence_provenance: strs(self.evidence_provenance@),
        }
    }
}

/// The views of a run of rows.
pub open spec fn rows_view(v: Seq<FindingRow>) -> Seq<FindingRowView> {
    v.map_values(|r: FindingRow| r@)
}

/// Two rows show the same thing: agent, title and detail.
pub open spec fn same_row(a: FindingRowView, b: FindingRowView) -> bool {
    a.agent == b.agent && a.title == b.title && a.detail == b.detail
}

/// The first row from `k` on showing the same thing as `r`.
pub open spec fn first_same(rows: Seq<FindingRowView>, r: FindingRowView, k: int) -> Option<int>
    decreases rows.len() - k,
{
    if k < 0 || k >= rows.len() {
        None
    } else if same_row(rows[k], r) {
        Some(k)
    } else {
        first_same(rows, r, k + 1)
    }
}

/// `it` folded into the row it repeats: its location joins the other
/// places, and each line of its provenance and of its evidence's is added
/// to both lists unless already there.
pub open spec fn absorb(prev: FindingRowView, it: FindingRowView) -> FindingRowView {
    let lines = it.provenance + it.evidence_provenance;
    FindingRowView {
        also_at: match it.location {
            Some(l) => prev.also_at.push(l),
            None => prev.also_at,
        },
        provenance: distinct_onto(prev.provenance, lines),
        evidence_provenance: distinct_onto(prev.evidence_provenance, lines),
        ..prev
    }
}

/// Rows merged in order: a row that repeats an earlier one is folded into
/// the first such; any other row is kept.
pub open spec fn merge_rows(rows: Seq<FindingRowView>) -> Seq<FindingRowView>
    decreases rows.len(),
{
    if rows.len() == 0 {
        Seq::empty()
    } else {
        let m = merge_rows(rows.drop_last());
        match first_same(m, rows.last(), 0) {
            Some(j) => m.update(j, absorb(m[j], rows.last())),
            None => m.push(rows.last()),
        }
    }
}

/// A merged row titled with how many places raised it.
pub open spec fn titled(r: FindingRowView) -> FindingRowView {
    FindingRowView { title: raised_at_spec(r.title, r.also_at.len() + 1, false), ..r }
}

/// The grouped rows.
pub open spec fn group_spec(rows: Seq<FindingRowView>) -> Seq<FindingRowView> {
    merge_rows(rows).map_values(|r: FindingRowView| titled(r))
}

/// Add lines onto a list, each only if not already there.
fn add_lines(acc: &mut Vec<String>, lines: &Vec<String>)
    ensures
        strs(final(acc)@) == distinct_onto(strs(old(acc)@), strs(lines@)),
{
    let ghost a0 = strs(acc@);
    let ghost ls = strs(lines@);
    let mut i: usize = 0;
    while i < lines.len()
        invariant
            i <= lines@.len(),
            ls == strs(lines@),
            strs(acc@) == distinct_onto(a0, ls.subrange(0, i as int)),
        decreases lines@.len() - i,
    {
        assert(ls.subrange(0, i + 1).drop_last() =~= ls.subrange(0, i as int));
        assert(ls.subrange(0, i + 1).last() == lines@[i as int]@);
        let x = lines[i].as_str();
        if !string_listed(acc, x) {
            let ghost b = strs(acc@);
            acc.push(owned(x));
            assert(strs(acc@) =~= b.push(x@));
        }
        i += 1;
    }
    assert(ls.subrange(0, lines@.len() as int) =~= ls);
}

proof fn lemma_distinct_onto_append(acc: Seq<Seq<char>>, a: Seq<Seq<char>>, b: Seq<Seq<char>>)
    ensures
        distinct_onto(distinct_onto(acc, a), b) == distinct_onto(acc, a + b),
    decreases b.len(),
{
    if b.len() == 0 {
        assert(a + b =~= a);
    } else {
        lemma_distinct_onto_append(acc, a, b.drop_last());
        assert((a + b).drop_last() =~= a + b.drop_last());
        assert((a + b).last() == b.last());
    }
}

/// Fold `it` into `prev`.
fn absorb_row(prev: &mut FindingRow, it: FindingRow)
    ensures
        final(prev)@ == absorb(old(prev)@, it@),
{
    let ghost p0 = prev@;
    let ghost i0 = it@;
    match it.location {
        Some(l) => prev.also_at.push(l),
        None => {},
    }
    add_lines(&mut prev.provenance, &it.provenance);
    add_lines(&mut prev.provenance, &it.evidence_provenance);
    add_lines(&mut prev.evidence_provenance, &it.provenance);
    add_lines(&mut prev.evidence_provenance, &it.evidence_provenance);
    proof {
        lemma_distinct_onto_append(p0.provenance, i0.provenance, i0.evidence_provenance);
        lemma_distinct_onto_append(p0.evidence_provenance, i0.provenance, i0.evidence_provenance);
    }
    assert(prev@.also_at == absorb(p0, i0).also_at);
}

/// The first merged row showing the same thing as `r`.
fn find_same(rows: &Vec<FindingRow>, r: &FindingRow) -> (j: Option<usize>)
    ensures
        match j {
            Some(k) => k < rows@.len() && first_same(rows_view(rows@), r@, 0) == Some(k as int),
            None => first_same(rows_view(rows@), r@, 0) is None,
        },
{
    let ghost rv = rows_view(rows@);
    let mut k: usize = 0;
    while k < rows.len()
        invariant
            k <= rows@.len(),
            rv == rows_view(rows@),
            first_same(rv, r@, 0) == first_same(rv, r@, k as int),
        decreases rows@.len() - k,
    {
        assert(rv[k as int] == rows@[k as int]@);
        if str_eq(rows[k].agent.as_str(), r.agent.as_str()) && str_eq(rows[k].title.as_str(), r.title.as_str())
            && str_eq(rows[k].detail.as_str(), r.detail.as_str()) {
            return Some(k);
        }
        k += 1;
    }
    None
}

/// **Rows a reader cannot tell apart are one row**: rows with the same
/// agent, title and detail are merged into the first, keeping every
/// location (the first in `location`, the rest in `also_at`) and every line
/// of provenance once; each row is then titled with how many places raised
/// it.
pub fn group_findings(rows: Vec<FindingRow>) -> (r: Vec<FindingRow>)
    requires
        forall|k: int| 0 <= k < rows@.len() ==> (#[trigger] rows@[k]).also_at@.len() == 0,
    ensures
        rows_view(r@) == group_spec(rows_view(rows@)),
{
    let ghost rv = rows_view(rows@);
    let mut merged: Vec<FindingRow> = Vec::new();
    let mut rest = rows;
    let mut i: usize = 0;
    let n = rest.len();
    let ghost orig = rest@;
    assert(rest@ =~= orig.subrange(0, n as int));
    assert(rows_view(merged@) =~= merge_rows(rv.take(0)));
    while i < n
        invariant
            n == orig.len(),
            rv == rows_view(orig),
            i <= n,
            rest@ == orig.subrange(i as int, n as int),
            rows_view(merged@) == merge_rows(rv.take(i as int)),
            forall|k: int| 0 <= k < orig.len() ==> (#[trigger] orig[k]).also_at@.len() == 0,
            forall|q: int| 0 <= q < merged@.len() ==> (#[trigger] merged@[q]).also_at@.len() + 1 <= i,
        decreases n - i,
    {
        let it = rest.remove(0);
        assert(it == orig[i as int]);
        assert(rest@ =~= orig.subrange(i + 1, n as int));
        assert(rv.take(i + 1).drop_last() =~= rv.take(i as int));
        assert(rv.take(i + 1).last() == it@);
        let ghost m0 = rows_view(merged@);
        let ghost ms0 = merged@;
        assert(it.also_at@.len() == 0);
        match find_same(&merged, &it) {
            Some(j) => {
                absorb_row(&mut merged[j], it);
                assert(merged@[j as int].also_at@.len() <= ms0[j as int].also_at@.len() + 1);
                assert forall|q: int| 0 <= q < merged@.len() && q != j implies #[trigger] merged@[q] == ms0[q] by {}
                assert(rows_view(merged@) =~= m0.update(j as int, absorb(m0[j as int], rv[i as int])));
            },
            None => {
                merged.push(it);
                assert(rows_view(merged@) =~= m0.push(rv[i as int]));
            },
        }
        i += 1;
    }
    assert(rv.take(n as int) =~= rv);
    let ghost m = rows_view(merged@);
    let ghost ms = merged@;
    let total = merged.len();
    let mut out: Vec<FindingRow> = Vec::new();
    let mut k: usize = 0;
    assert(merged@ =~= ms.subrange(0, total as int));
    while k < total
        invariant
            k <= total,
            total == ms.len(),
            m == rows_view(ms),
            n == orig.len(),
            merged@ == ms.subrange(k as int, total as int),
            forall|q: int| 0 <= q < ms.len() ==> (#[trigger] ms[q]).also_at@.len() + 1 <= n,
            out@.len() == k,
            forall|q: int| 0 <= q < k ==> #[trigger] out@[q]@ == titled(m[q]),
        decreases total - k,
    {
        let row = merged.remove(0);
        assert(row == ms[k as int]);
        assert(merged@ =~= ms.subrange(k + 1, total as int));
        assert(row.also_at@.len() + 1 <= n);
        let places = row.also_at.len() + 1;
        let title = raised_at_phrase(row.title.as_str(), places, false);
        let FindingRow { agent, title: _, detail, location, also_at, provenance, evidence_provenance } = row;
        out.push(FindingRow { agent, title, detail, location, also_at, provenance, evidence_provenance });
        assert(m[k as int] == ms[k as int]@);
        k += 1;
    }
    let merged = out;
    assert(rows_view(merged@) =~= group_spec(rv));
    merged
}


proof fn lemma_first_same(rows: Seq<FindingRowView>, r: FindingRowView, k: int)
    requires
        0 <= k,
    ensures
        first_same(rows, r, k) matches Some(j) ==> k <= j < rows.len() && same_row(rows[j], r),
        first_same(rows, r, k) is None ==> forall|q: int| k <= q < rows.len() ==> !same_row(#[trigger] rows[q], r),
    decreases rows.len() - k,
{
    if k < rows.len() && !same_row(rows[k], r) {
        lemma_first_same(rows, r, k + 1);
    }
}

/// Merging leaves no two rows a reader could not tell apart, and never adds
/// a row.
pub proof fn lemma_merged_rows_distinct(rows: Seq<FindingRowView>)
    ensures
        forall|a: int, b: int|
            0 <= a < b < merge_rows(rows).len() ==> !same_row(#[trigger] merge_rows(rows)[a], #[trigger] merge_rows(rows)[b]),
        merge_rows(rows).len() <= rows.len(),
    decreases rows.len(),
{
    if rows.len() > 0 {
        let pre = rows.drop_last();
        lemma_merged_rows_distinct(pre);
        let m = merge_rows(pre);
        let it = rows.last();
        lemma_first_same(m, it, 0);
        let r = merge_rows(rows);
        match first_same(m, it, 0) {
            Some(j) => {
                assert forall|a: int, b: int| 0 <= a < b < r.len() implies !same_row(#[trigger] r[a], #[trigger] r[b]) by {
                    assert(same_row(r[a], r[b]) == same_row(m[a], m[b]));
                }
            },
            None => {
                assert forall|a: int, b: int| 0 <= a < b < r.len() implies !same_row(#[trigger] r[a], #[trigger] r[b]) by {
                    if b == m.len() {
                        assert(r[b] == it);
                        assert(r[a] == m[a]);
                    } else {
                        assert(r[a] == m[a] && r[b] == m[b]);
                    }
                }
            },
        }
    }
}

} // verus!
