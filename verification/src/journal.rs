//! A journal's stored requirements, as the crawl extracted them: one row per
//! requirement, with the page and the sentence it came from.

use vstd::prelude::*;

use crate::text::{contains, lowercase, seq_contains, chars_of, to_lowercase};

verus! {

/// What a stored requirement constrains.
#[derive(Debug, Clone, Copy, PartialEq, Eq, Structural)]
pub enum RequirementKind {
    /// A manuscript word limit; `value` is the number.
    WordLimit,
    /// An abstract word limit; `value` is the number.
    AbstractLimit,
    /// A data-sharing policy.
    DataPolicy,
    /// A statement the manuscript must carry; `value` names it.
    SectionRequired,
    /// A reporting standard named by the journal; `value` names it.
    ReportingStandard,
}

/// One requirement as the crawl stored it.
#[derive(Debug, Clone)]
pub struct StoredRequirement {
    pub kind: RequirementKind,
    pub value: String,
    /// The article type the journal stated it for; `None` means every type.
    pub article_type: Option<String>,
    pub status: String,
    pub source_url: String,
    pub source_heading: String,
    /// The journal's own sentence.
    pub source_span: String,
    pub conflict_id: Option<i64>,
}

/// The statement names a required statement is recognised by, in the order
/// they are tried.
pub open spec fn statement_needles() -> Seq<Seq<char>> {
    seq![
        "competing interest"@,
        "data availability"@,
        "code availability"@,
        "funding"@,
        "ethics"@,
        "informed consent"@,
        "author contribution"@,
    ]
}

/// The first statement name, from `k` on, occurring in `lower`.
pub open spec fn needle_from(lower: Seq<char>, k: int) -> Option<Seq<char>>
    decreases statement_needles().len() - k,
{
    if k < 0 || k >= statement_needles().len() {
        None
    } else if contains(lower, statement_needles()[k]) {
        Some(statement_needles()[k])
    } else {
        needle_from(lower, k + 1)
    }
}

/// The statement a required-statement value names: the first statement name
/// its lowercase form contains.
pub open spec fn statement_for(value: Seq<char>) -> Option<Seq<char>> {
    needle_from(lowercase(value), 0)
}

/// The statement a required-statement value names, if it is one this
/// engine recognises.
pub fn heading_for_statement(value: &str) -> (r: Option<&'static str>)
    ensures
        match r {
            Some(n) => statement_for(value@) == Some(n@),
            None => statement_for(value@) is None,
        },
{
    let lower = to_lowercase(value);
    let lc = chars_of(lower.as_str());
    let needles: Vec<&'static str> = vec![
        "competing interest",
        "data availability",
        "code availability",
        "funding",
        "ethics",
        "informed consent",
        "author contribution",
    ];
    assert(needles@.map_values(|s: &str| s@) =~= statement_needles());
    let mut k: usize = 0;
    while k < needles.len()
        invariant
            k <= needles@.len(),
            needles@.map_values(|s: &str| s@) == statement_needles(),
            lc@ == lowercase(value@),
            statement_for(value@) == needle_from(lc@, k as int),
        decreases needles@.len() - k,
    {
        let n = chars_of(needles[k]);
        assert(needles@[k as int]@ == statement_needles()[k as int]);
        if seq_contains(&lc, &n) {
            return Some(needles[k]);
        }
        k += 1;
    }
    None
}

} // verus!
