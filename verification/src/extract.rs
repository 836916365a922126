//! The extraction model every check reads: a manuscript as sections of
//! paragraphs, with the statistics, tables, citations and references found in
//! it, each addressed by a [`Location`].

use std::sync::Arc;
use vstd::prelude::*;

use crate::text::{chars_of, is_white, is_whitespace, string_of, string_views};

verus! {

/// The kind of a classified section.
#[derive(Debug, Clone, Copy, PartialEq, Eq, Structural)]
pub enum SectionKind {
    Abstract,
    Introduction,
    Methods,
    Results,
    Discussion,
    Conclusion,
    References,
    Other,
}

/// The name `Debug` prints for a section kind.
pub open spec fn kind_name(k: SectionKind) -> Seq<char> {
    match k {
        SectionKind::Abstract => "Abstract"@,
        SectionKind::Introduction => "Introduction"@,
        SectionKind::Methods => "Methods"@,
        SectionKind::Results => "Results"@,
        SectionKind::Discussion => "Discussion"@,
        SectionKind::Conclusion => "Conclusion"@,
        SectionKind::References => "References"@,
        SectionKind::Other => "Other"@,
    }
}

impl SectionKind {
    /// The variant's name, as `Debug` prints it.
    pub fn debug_name(self) -> (r: &'static str)
        ensures
            r@ == kind_name(self),
    {
        match self {
            SectionKind::Abstract => "Abstract",
            SectionKind::Introduction => "Introduction",
            SectionKind::Methods => "Methods",
            SectionKind::Results => "Results",
            SectionKind::Discussion => "Discussion",
            SectionKind::Conclusion => "Conclusion",
            SectionKind::References => "References",
            SectionKind::Other => "Other",
        }
    }
}

/// Where in the manuscript something is: a paragraph index WITHIN a section.
/// `section_index`, when known, names which section of that kind.
#[derive(Debug, Clone, Copy, PartialEq, Eq, Structural)]
pub struct Location {
    pub section: SectionKind,
    pub paragraph: usize,
    pub section_index: Option<usize>,
}

impl Location {
    /// A location inside the `section_index`-th section, of kind `kind`.
    pub fn in_section(kind: SectionKind, section_index: usize, paragraph: usize) -> (r: Location)
        ensures
            r == (Location { section: kind, paragraph, section_index: Some(section_index) }),
    {
        Location { section: kind, paragraph, section_index: Some(section_index) }
    }
}

/// One classified section.
#[derive(Debug, Clone)]
pub struct Section {
    pub kind: SectionKind,
    pub heading: String,
    pub paragraphs: Vec<String>,
}

/// A parsed bibliography entry.
#[derive(Debug, Clone, PartialEq)]
pub struct Reference {
    pub raw: String,
    pub authors: String,
    pub year: Option<i32>,
    pub title: Option<String>,
    pub doi: Option<String>,
}

/// An in-text citation marker. `numbers` holds the 1-based indices a numeric
/// marker names (`[1, 3]`); an author-year marker carries none.
#[derive(Debug, Clone, PartialEq)]
pub struct Citation {
    pub raw: String,
    pub numbers: Vec<u32>,
    pub location: Location,
}

/// What kind of statistic was found, with its value as written.
#[derive(Debug, Clone, PartialEq)]
pub enum Stat {
    PValue { text: String },
    SampleSize { text: String },
    Test { name: String },
    TestStatistic { text: String },
    EffectSize { text: String },
    ConfidenceInterval { text: String },
}

/// One extracted statistic, with where it was found.
#[derive(Debug, Clone, PartialEq)]
pub struct StatClaim {
    pub stat: Stat,
    pub raw: String,
    pub location: Location,
}

/// A table reference.
#[derive(Debug, Clone, PartialEq)]
pub struct TableRef {
    pub label: String,
    pub location: Location,
}

/// A claim id of the scientific layer.
#[derive(Debug, Clone, PartialEq)]
pub struct ClaimId(pub String);

/// A range of paragraphs within one section.
#[derive(Debug, Clone, Copy, PartialEq)]
pub struct LocationRange {
    pub section: SectionKind,
    pub start_paragraph: usize,
    pub end_paragraph: usize,
}

/// Where a scientific claim was read from.
#[derive(Debug, Clone, PartialEq)]
pub enum SourceSpan {
    Point(Location),
    Range(LocationRange),
}

/// A claim of the scientific layer. `statement` is manuscript prose.
#[derive(Debug, Clone, PartialEq)]
pub struct ScientificClaim {
    pub id: ClaimId,
    pub statement: String,
    pub source_span: SourceSpan,
}

/// The opt-in scientific layer.
#[derive(Debug, Clone, PartialEq)]
pub struct ScientificExtraction {
    pub claims: Vec<ScientificClaim>,
    pub contributions: Vec<String>,
    pub limitations: Vec<String>,
    pub questions: Vec<String>,
    pub hypotheses: Vec<String>,
}

/// Everything extraction returned for one manuscript.
#[derive(Debug, Clone)]
pub struct ExtractionResult {
    pub title: Option<String>,
    pub sections: Vec<Section>,
    pub statistics: Vec<StatClaim>,
    pub tables: Vec<TableRef>,
    pub citations: Vec<Citation>,
    pub references: Vec<Reference>,
    pub scientific: Option<Arc<ScientificExtraction>>,
}

impl Default for ExtractionResult {
    fn default() -> (r: ExtractionResult)
        ensures
            r.title.is_none(),
            r.sections@.len() == 0,
            r.statistics@.len() == 0,
            r.tables@.len() == 0,
            r.citations@.len() == 0,
            r.references@.len() == 0,
            r.scientific.is_none(),
    {
        ExtractionResult {
            title: None,
            sections: Vec::new(),
            statistics: Vec::new(),
            tables: Vec::new(),
            citations: Vec::new(),
            references: Vec::new(),
            scientific: None,
        }
    }
}

// ---------------------------------------------------------------------------
// Resolving a location to its paragraph
// ---------------------------------------------------------------------------

/// The index of the first section of kind `k` at or after `from`, if any.
pub open spec fn first_of_kind(secs: Seq<Section>, k: SectionKind, from: int) -> Option<int>
    decreases secs.len() - from,
{
    if from < 0 || from >= secs.len() {
        None
    } else if secs[from].kind == k {
        Some(from)
    } else {
        first_of_kind(secs, k, from + 1)
    }
}

/// The section a location names: the one at `section_index` when that is given
/// and has the right kind; otherwise the first section of the location's kind.
pub open spec fn section_of(ex: ExtractionResult, loc: Location) -> Option<int> {
    match loc.section_index {
        Some(i) => if i < ex.sections@.len() && ex.sections@[i as int].kind == loc.section {
            Some(i as int)
        } else {
            None
        },
        None => first_of_kind(ex.sections@, loc.section, 0),
    }
}

/// The paragraph text a location names, if it resolves.
pub open spec fn paragraph_spec(ex: ExtractionResult, loc: Location) -> Option<Seq<char>> {
    match section_of(ex, loc) {
        Some(i) => if loc.paragraph < ex.sections@[i].paragraphs@.len() {
            Some(ex.sections@[i].paragraphs@[loc.paragraph as int]@)
        } else {
            None
        },
        None => None,
    }
}

proof fn lemma_first_of_kind_range(secs: Seq<Section>, k: SectionKind, from: int)
    ensures
        first_of_kind(secs, k, from) matches Some(i) ==> from <= i < secs.len() && secs[i].kind
            == k,
    decreases secs.len() - from,
{
    if from >= 0 && from < secs.len() && secs[from].kind != k {
        lemma_first_of_kind_range(secs, k, from + 1);
    }
}

fn find_first_of_kind(secs: &Vec<Section>, k: SectionKind) -> (r: Option<usize>)
    ensures
        r matches Some(i) ==> first_of_kind(secs@, k, 0) == Some(i as int),
        r is None ==> first_of_kind(secs@, k, 0) is None,
{
    let mut i: usize = 0;
    while i < secs.len()
        invariant
            i <= secs@.len(),
            first_of_kind(secs@, k, 0) == first_of_kind(secs@, k, i as int),
        decreases secs@.len() - i,
    {
        if secs[i].kind == k {
            return Some(i);
        }
        i += 1;
    }
    None
}

/// **The paragraph a location names, or a typed absence.** `None` when the
/// section or the paragraph index does not exist — never an empty string.
pub fn paragraph_at<'a>(ex: &'a ExtractionResult, loc: &Location) -> (r: Option<&'a str>)
    ensures
        match r {
            Some(p) => paragraph_spec(*ex, *loc) == Some(p@),
            None => paragraph_spec(*ex, *loc) is None,
        },
{
    let idx = match loc.section_index {
        Some(i) => {
            if i < ex.sections.len() && ex.sections[i].kind == loc.section {
                Some(i)
            } else {
                None
            }
        },
        None => find_first_of_kind(&ex.sections, loc.section),
    };
    match idx {
        Some(i) => {
            proof {
                lemma_first_of_kind_range(ex.sections@, loc.section, 0);
            }
            if loc.paragraph < ex.sections[i].paragraphs.len() {
                Some(ex.sections[i].paragraphs[loc.paragraph].as_str())
            } else {
                None
            }
        },
        None => None,
    }
}

// ---------------------------------------------------------------------------
// Sentences
// ---------------------------------------------------------------------------

/// A sentence terminator.
pub open spec fn is_terminator(c: char) -> bool {
    c == '.' || c == '!' || c == '?'
}

/// A sentence ends after position `i` when `s[i]` is a terminator followed by
/// whitespace or by the end of the text.
pub open spec fn ends_sentence(s: Seq<char>, i: int) -> bool {
    0 <= i < s.len() && is_terminator(s[i]) && (i + 1 == s.len() || is_white(s[i + 1]))
}

/// The sentences of `s` from position `i` on, given the sentence `cur` being
/// built and the sentences `done` so far. Every character lands in exactly
/// one sentence, in order; an unterminated tail is the last sentence.
pub open spec fn split_sentences(
    s: Seq<char>,
    i: int,
    cur: Seq<char>,
    done: Seq<Seq<char>>,
) -> Seq<Seq<char>>
    decreases s.len() - i,
{
    if i < 0 || i >= s.len() {
        if cur.len() > 0 {
            done.push(cur)
        } else {
            done
        }
    } else if ends_sentence(s, i) {
        split_sentences(s, i + 1, Seq::empty(), done.push(cur.push(s[i])))
    } else {
        split_sentences(s, i + 1, cur.push(s[i]), done)
    }
}

/// The sentences of a paragraph.
pub open spec fn sentences(s: Seq<char>) -> Seq<Seq<char>> {
    split_sentences(s, 0, Seq::empty(), Seq::empty())
}

/// Split a paragraph into sentences: a sentence ends at `.`, `!` or `?`
/// followed by whitespace or the end of the paragraph.
pub fn sentences_in(para: &str) -> (r: Vec<String>)
    ensures
        string_views(r@) == sentences(para@),
{
    let s = chars_of(para);
    let mut done: Vec<String> = Vec::new();
    let mut cur: Vec<char> = Vec::new();
    let mut i: usize = 0;
    assert(string_views(done@) =~= Seq::<Seq<char>>::empty());
    assert(cur@ =~= Seq::<char>::empty());
    while i < s.len()
        invariant
            i <= s@.len(),
            s@ == para@,
            split_sentences(s@, i as int, cur@, string_views(done@)) == sentences(para@),
        decreases s@.len() - i,
    {
        let c = s[i];
        cur.push(c);
        let ends = (c == '.' || c == '!' || c == '?') && (i + 1 == s.len() || is_whitespace(
            s[i + 1],
        ));
        if ends {
            let piece = string_of(&cur);
            let ghost before = string_views(done@);
            done.push(piece);
            assert(string_views(done@) =~= before.push(cur@));
            cur = Vec::new();
            assert(cur@ =~= Seq::<char>::empty());
        }
        i += 1;
    }
    if cur.len() > 0 {
        let piece = string_of(&cur);
        let ghost before = string_views(done@);
        done.push(piece);
        assert(string_views(done@) =~= before.push(cur@));
    }
    done
}

} // verus!
