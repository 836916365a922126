//! Facts about a manuscript as a report states them, and the one convention
//! every reader-facing surface numbers paragraphs by: from 1.

use vstd::prelude::*;

use crate::extract::{kind_name, Location};
use crate::text::{decimal, push_str, push_usize};

verus! {

/// The paragraph ordinal a reader sees, on every surface: 1-based, where
/// [`Location::paragraph`] is a 0-based index.
pub fn human_paragraph(loc: &Location) -> (n: usize)
    requires
        loc.paragraph < usize::MAX,
    ensures
        n == loc.paragraph + 1,
{
    loc.paragraph + 1
}

/// The provenance line's location: `location:{section:?} paragraph {n}`.
pub open spec fn provenance_location_spec(loc: Location) -> Seq<char> {
    "location:"@ + kind_name(loc.section) + " paragraph "@ + decimal((loc.paragraph + 1) as nat)
}

/// The provenance line's location, as the inspector shows it.
pub fn provenance_location(loc: &Location) -> (r: String)
    requires
        loc.paragraph < usize::MAX,
    ensures
        r@ == provenance_location_spec(*loc),
{
    let mut s = String::new();
    push_str(&mut s, "location:");
    push_str(&mut s, loc.section.debug_name());
    push_str(&mut s, " paragraph ");
    push_usize(&mut s, human_paragraph(loc));
    s
}

/// The report's human location: `{section_name}, paragraph {n}`.
pub open spec fn reported_statistic_location_spec(section_name: Seq<char>, loc: Location) -> Seq<char> {
    section_name + ", paragraph "@ + decimal((loc.paragraph + 1) as nat)
}

/// The report's human location ("Results, paragraph 3"), taking the section
/// name already resolved.
pub fn reported_statistic_location(section_name: &str, loc: &Location) -> (r: String)
    requires
        loc.paragraph < usize::MAX,
    ensures
        r@ == reported_statistic_location_spec(section_name@, *loc),
{
    let mut s = String::new();
    push_str(&mut s, section_name);
    push_str(&mut s, ", paragraph ");
    push_usize(&mut s, human_paragraph(loc));
    s
}

/// Both surfaces print the same number after "paragraph ", and it is the
/// index plus one: no surface names a paragraph 0.
pub proof fn lemma_surfaces_agree_on_the_paragraph(section_name: Seq<char>, loc: Location)
    ensures
        ({
            let n = decimal((loc.paragraph + 1) as nat);
            &&& provenance_location_spec(loc).subrange(
                provenance_location_spec(loc).len() - n.len(),
                provenance_location_spec(loc).len() as int,
            ) == n
            &&& reported_statistic_location_spec(section_name, loc).subrange(
                reported_statistic_location_spec(section_name, loc).len() - n.len(),
                reported_statistic_location_spec(section_name, loc).len() as int,
            ) == n
            &&& loc.paragraph + 1 >= 1
        }),
{
    let n = decimal((loc.paragraph + 1) as nat);
    let a = provenance_location_spec(loc);
    let b = reported_statistic_location_spec(section_name, loc);
    assert(a.subrange(a.len() - n.len(), a.len() as int) =~= n);
    assert(b.subrange(b.len() - n.len(), b.len() as int) =~= n);
}

/// Facts about the manuscript itself, all counted rather than judged.
pub struct ManuscriptFacts {
    pub title: Option<String>,
    pub word_count: usize,
    pub section_count: usize,
    pub table_count: usize,
    pub reference_count: usize,
    /// Every statistic the extractor found, with whether an effect size
    /// accompanied it.
    pub statistics: Vec<ReportedStatistic>,
}

/// One extracted statistical claim, as reported by the manuscript.
#[derive(Debug)]
pub struct ReportedStatistic {
    /// Test or quantity name as the extractor classified it ("p-value", "t").
    pub kind: String,
    /// The value as written in the manuscript, never reformatted.
    pub reported: String,
    /// Human-readable position, e.g. "Results, paragraph 3".
    pub location: String,
    /// Whether an effect size was found alongside this statistic.
    pub effect_size_present: bool,
    /// A significance criterion (`p ≤ 0.05` as a decision rule) rather than a
    /// reported result.
    pub is_threshold: bool,
}

} // verus!
