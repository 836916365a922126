//! The journal-compliance checklist: always-on structural checks, checks
//! triggered by a journal's guideline text, and checks derived from the
//! journal's own stored requirements and reporting-standard bindings.

use vstd::prelude::*;

use crate::extract::{kind_name, ExtractionResult, Reference, Section, SectionKind};
use crate::journal::{RequirementKind, StoredRequirement};
use crate::report::{push_joined, rows_view, ChecklistItem, ChecklistSource, RowView, SourceView};
use crate::statement::{statement_in_text, statement_spec};
use crate::text::{
    ascii_digit, chars_of, contains, contains_any, contains_any_of, decimal, is_white, join,
    lowercase, opt_as_str, opt_owned, opt_str_view, opt_view, owned, push_str, push_usize,
    seq_starts_with, str_contains, str_eq, string_views, to_lowercase, trim_start, views,
};

verus! {

/// One chunk of a journal's guideline document, as retrieval returns it.
#[derive(Debug, Clone)]
pub struct RagHit {
    pub chunk_id: i64,
    pub document_id: i64,
    pub seq: i64,
    pub content: String,
    pub source_type: String,
    pub title: String,
    pub source_url: String,
    pub fetched_at: i64,
    pub checksum: String,
}

// ---------------------------------------------------------------------------
// Article-type scoping
// ---------------------------------------------------------------------------

/// The caveat for a requirement the journal stated for one article type.
pub open spec fn article_caveat(t: Seq<char>) -> Seq<char> {
    "the journal states this for "@ + t
        + " articles; whether it applies depends on the article type you are submitting, which this analysis does not know"@
}

/// A requirement cannot be decided exactly when the journal scoped it to an
/// article type and the manuscript's type is not known.
pub open spec fn undecidable_spec(required_for: Option<Seq<char>>, manuscript_type: Option<Seq<char>>) -> Option<
    Seq<char>,
> {
    match (required_for, manuscript_type) {
        (Some(t), None) => Some(article_caveat(t)),
        _ => None,
    }
}

/// **The journal scoped this requirement to an article type, and nothing
/// here knows the manuscript's.** `Some(caveat)` means the row cannot be
/// decided. A known type never makes a requirement "not applicable".
pub fn undecidable_for_article_type(required_for: Option<&str>, manuscript_type: Option<&str>) -> (r:
    Option<String>)
    ensures
        opt_view(r) == undecidable_spec(opt_str_view(required_for), opt_str_view(manuscript_type)),
{
    match (required_for, manuscript_type) {
        (Some(t), None) => {
            let mut s = owned("the journal states this for ");
            push_str(&mut s, t);
            push_str(
                &mut s,
                " articles; whether it applies depends on the article type you are submitting, which this analysis does not know",
            );
            Some(s)
        },
        _ => None,
    }
}

/// A row after article-type scoping: an undecidable row is marked
/// `unevaluable`, not passed, and its detail carries the caveat.
pub open spec fn scoped_spec(v: RowView, manuscript_type: Option<Seq<char>>) -> RowView {
    if v.unevaluable {
        v
    } else {
        match undecidable_spec(v.article_type, manuscript_type) {
            Some(c) => RowView {
                detail: v.detail + " — "@ + c + "."@,
                passed: false,
                unevaluable: true,
                ..v
            },
            None => v,
        }
    }
}

/// Apply article-type scoping to a freshly built row.
pub fn scoped(item: ChecklistItem, manuscript_type: Option<&str>) -> (r: ChecklistItem)
    ensures
        r@ == scoped_spec(item@, opt_str_view(manuscript_type)),
{
    if item.unevaluable {
        return item;
    }
    let caveat = undecidable_for_article_type(opt_as_str(&item.article_type), manuscript_type);
    match caveat {
        Some(c) => {
            let mut item = item;
            let mut d = item.detail;
            push_str(&mut d, " — ");
            push_str(&mut d, c.as_str());
            push_str(&mut d, ".");
            item.detail = d;
            item.passed = false;
            item.unevaluable = true;
            item
        },
        None => item,
    }
}

/// A stored requirement as a carried source.
pub open spec fn source_view(r: StoredRequirement) -> SourceView {
    SourceView {
        guideline_source: r.source_url@,
        source_span: r.source_span@,
        article_type: opt_view(r.article_type),
    }
}

/// One stored requirement as a carried source.
pub fn source_of(r: &StoredRequirement) -> (s: ChecklistSource)
    ensures
        s@ == source_view(*r),
{
    ChecklistSource {
        guideline_source: r.source_url.clone(),
        source_span: r.source_span.clone(),
        article_type: opt_owned(&r.article_type),
    }
}

// ---------------------------------------------------------------------------
// Statement names
// ---------------------------------------------------------------------------

/// Phrasings that satisfy a data availability statement.
pub open spec fn data_availability_names() -> Seq<Seq<char>> {
    seq!["data availability"@, "data availability statement"@, "availability of data"@]
}

/// Phrasings that satisfy a competing-interests statement.
pub open spec fn competing_interest_names() -> Seq<Seq<char>> {
    seq![
        "competing interest"@,
        "conflict of interest"@,
        "conflicts of interest"@,
        "declaration of interest"@,
        "disclosure statement"@,
    ]
}

/// The phrasings that satisfy a statement: the author's words, not only the
/// journal's. A name with no recorded synonyms is checked under itself.
pub open spec fn synonyms_spec(needle: Seq<char>) -> Seq<Seq<char>> {
    if needle == "competing interest"@ {
        competing_interest_names()
    } else if needle == "data availability"@ {
        data_availability_names()
    } else if needle == "code availability"@ {
        seq!["code availability"@, "code is available"@, "software availability"@]
    } else if needle == "funding"@ {
        seq!["funding"@, "financial support"@, "grant support"@, "supported by a grant"@]
    } else if needle == "ethics"@ {
        seq![
            "ethics"@,
            "ethical approval"@,
            "ethics approval"@,
            "institutional review board"@,
            "ethics committee"@,
            "ethical clearance"@,
        ]
    } else if needle == "informed consent"@ {
        seq!["informed consent"@, "consent was obtained"@, "consent to participate"@]
    } else if needle == "author contribution"@ {
        seq!["author contribution"@, "authors' contribution"@, "credit author"@]
    } else {
        seq![needle]
    }
}

pub fn data_names() -> (r: Vec<&'static str>)
    ensures
        views(r@) == data_availability_names(),
{
    let v = vec!["data availability", "data availability statement", "availability of data"];
    assert(views(v@) =~= data_availability_names());
    v
}

/// **Synonyms, because a journal's name for a statement is not the
/// author's.** The lists err towards admitting: a missing synonym is a false
/// flag that costs a researcher work.
pub fn synonyms_for(needle: &'static str) -> (r: Vec<&'static str>)
    ensures
        views(r@) == synonyms_spec(needle@),
{
    if str_eq(needle, "competing interest") {
        let v = vec![
            "competing interest",
            "conflict of interest",
            "conflicts of interest",
            "declaration of interest",
            "disclosure statement",
        ];
        assert(views(v@) =~= competing_interest_names());
        v
    } else if str_eq(needle, "data availability") {
        data_names()
    } else if str_eq(needle, "code availability") {
        let v = vec!["code availability", "code is available", "software availability"];
        assert(views(v@) =~= synonyms_spec(needle@));
        v
    } else if str_eq(needle, "funding") {
        let v = vec!["funding", "financial support", "grant support", "supported by a grant"];
        assert(views(v@) =~= synonyms_spec(needle@));
        v
    } else if str_eq(needle, "ethics") {
        let v = vec![
            "ethics",
            "ethical approval",
            "ethics approval",
            "institutional review board",
            "ethics committee",
            "ethical clearance",
        ];
        assert(views(v@) =~= synonyms_spec(needle@));
        v
    } else if str_eq(needle, "informed consent") {
        let v = vec!["informed consent", "consent was obtained", "consent to participate"];
        assert(views(v@) =~= synonyms_spec(needle@));
        v
    } else if str_eq(needle, "author contribution") {
        let v = vec!["author contribution", "authors' contribution", "credit author"];
        assert(views(v@) =~= synonyms_spec(needle@));
        v
    } else {
        let v = vec![needle];
        assert(views(v@) =~= synonyms_spec(needle@));
        v
    }
}

/// What a statement row says it found.
pub open spec fn found_detail(found: Option<Seq<char>>, n: nat) -> Seq<char> {
    match found {
        Some(s) => "found in the manuscript: "@ + s,
        None => "none of "@ + decimal(n) + " phrasings was found anywhere in the manuscript"@,
    }
}

pub fn found_detail_exec(found: &Option<String>, n: usize) -> (r: String)
    ensures
        r@ == found_detail(opt_view(*found), n as nat),
{
    match found {
        Some(s) => {
            let mut d = owned("found in the manuscript: ");
            push_str(&mut d, s.as_str());
            d
        },
        None => {
            let mut d = owned("none of ");
            push_usize(&mut d, n);
            push_str(&mut d, " phrasings was found anywhere in the manuscript");
            d
        },
    }
}

// ---------------------------------------------------------------------------
// The manuscript body
// ---------------------------------------------------------------------------

/// The paragraphs of every section that is not the reference list, in order.
pub open spec fn body_paragraphs(secs: Seq<Section>) -> Seq<Seq<char>>
    decreases secs.len(),
{
    if secs.len() == 0 {
        Seq::empty()
    } else {
        body_paragraphs(secs.drop_last()) + if secs.last().kind != SectionKind::References {
            string_views(secs.last().paragraphs@)
        } else {
            Seq::empty()
        }
    }
}

/// The manuscript minus its reference list: the body paragraphs joined by
/// newlines, or `fallback` when extraction found no body.
pub open spec fn body_text(ex: ExtractionResult, fallback: Seq<char>) -> Seq<char> {
    let b = body_paragraphs(ex.sections@);
    if b.len() == 0 {
        fallback
    } else {
        join(b, "\n"@)
    }
}

/// **A statement name inside a reference title is never the author's
/// declaration**, so statements are searched in the body only.
pub fn text_without_references(extraction: &ExtractionResult, fallback: &str) -> (r: String)
    ensures
        r@ == body_text(*extraction, fallback@),
{
    let secs = &extraction.sections;
    let mut parts: Vec<&str> = Vec::new();
    let mut i: usize = 0;
    assert(views(parts@) =~= body_paragraphs(secs@.subrange(0, 0)));
    while i < secs.len()
        invariant
            i <= secs@.len(),
            secs@ == extraction.sections@,
            views(parts@) == body_paragraphs(secs@.subrange(0, i as int)),
        decreases secs@.len() - i,
    {
        let ghost before = views(parts@);
        assert(secs@.subrange(0, i + 1).drop_last() =~= secs@.subrange(0, i as int));
        if secs[i].kind != SectionKind::References {
            let ps = &secs[i].paragraphs;
            let mut j: usize = 0;
            assert(before =~= before + string_views(ps@.subrange(0, 0)));
            while j < ps.len()
                invariant
                    j <= ps@.len(),
                    views(parts@) == before + string_views(ps@.subrange(0, j as int)),
                decreases ps@.len() - j,
            {
                proof {
                    assert(ps@.subrange(0, j + 1) =~= ps@.subrange(0, j as int).push(ps@[j as int]));
                    assert(string_views(ps@.subrange(0, j + 1)) =~= string_views(
                        ps@.subrange(0, j as int),
                    ).push(ps@[j as int]@));
                }
                let ghost pv = views(parts@);
                parts.push(ps[j].as_str());
                assert(views(parts@) =~= pv.push(ps@[j as int]@));
                j += 1;
                assert(views(parts@) =~= before + string_views(ps@.subrange(0, j as int)));
            }
            assert(ps@.subrange(0, ps@.len() as int) =~= ps@);
        } else {
            assert(views(parts@) =~= before + Seq::<Seq<char>>::empty());
        }
        i += 1;
    }
    assert(secs@.subrange(0, secs@.len() as int) =~= secs@);
    if parts.len() == 0 {
        return owned(fallback);
    }
    let mut s = String::new();
    push_joined(&mut s, &parts, "\n");
    assert(s@ =~= join(views(parts@), "\n"@));
    s
}

// ---------------------------------------------------------------------------
// Rows common to both checklists
// ---------------------------------------------------------------------------

/// Whether extraction classified a section of kind `k`.
pub open spec fn has_kind(ex: ExtractionResult, k: SectionKind) -> bool {
    exists|i: int| 0 <= i < ex.sections@.len() && #[trigger] ex.sections@[i].kind == k
}

fn has_section(ex: &ExtractionResult, k: SectionKind) -> (r: bool)
    ensures
        r == has_kind(*ex, k),
{
    let mut i: usize = 0;
    while i < ex.sections.len()
        invariant
            i <= ex.sections@.len(),
            forall|j: int| 0 <= j < i ==> ex.sections@[j].kind != k,
        decreases ex.sections@.len() - i,
    {
        if ex.sections[i].kind == k {
            return true;
        }
        i += 1;
    }
    false
}

/// A row with no extra sources.
pub open spec fn row(
    requirement: Seq<char>,
    passed: bool,
    detail: Seq<char>,
    guideline_source: Option<Seq<char>>,
    source_span: Option<Seq<char>>,
    article_type: Option<Seq<char>>,
    checked_field: Option<Seq<char>>,
    unevaluable: bool,
) -> RowView {
    RowView {
        requirement,
        passed,
        detail,
        guideline_source,
        source_span,
        article_type,
        checked_field,
        unevaluable,
        also_from: Seq::empty(),
    }
}

/// The always-on check that a section of kind `k` is present.
pub open spec fn structural_row(ex: ExtractionResult, k: SectionKind) -> RowView {
    let name = kind_name(k);
    let present = has_kind(ex, k);
    row(
        "required section: "@ + name,
        present,
        if present {
            name + " section found"@
        } else {
            name + " section missing"@
        },
        None,
        None,
        None,
        Some("extraction.sections"@),
        false,
    )
}

/// The four always-on structural rows.
pub open spec fn structural_rows(ex: ExtractionResult) -> Seq<RowView> {
    seq![
        structural_row(ex, SectionKind::Abstract),
        structural_row(ex, SectionKind::Methods),
        structural_row(ex, SectionKind::Results),
        structural_row(ex, SectionKind::References),
    ]
}

fn structural_item(ex: &ExtractionResult, k: SectionKind) -> (r: ChecklistItem)
    ensures
        r@ == structural_row(*ex, k),
{
    let name = k.debug_name();
    let present = has_section(ex, k);
    let mut requirement = owned("required section: ");
    push_str(&mut requirement, name);
    let mut detail = owned(name);
    if present {
        push_str(&mut detail, " section found");
    } else {
        push_str(&mut detail, " section missing");
    }
    let r = ChecklistItem {
        requirement,
        passed: present,
        detail,
        guideline_source: None,
        source_span: None,
        article_type: None,
        checked_field: Some(owned("extraction.sections")),
        unevaluable: false,
        also_from: Vec::new(),
    };
    assert(r@.also_from =~= Seq::<SourceView>::empty());
    r
}

/// Add a row unless an earlier kept row states the same requirement.
pub open spec fn add_row(acc: Seq<RowView>, r: RowView) -> Seq<RowView> {
    if exists|j: int| 0 <= j < acc.len() && #[trigger] acc[j].requirement == r.requirement {
        acc
    } else {
        acc.push(r)
    }
}

/// The rows with duplicates by requirement removed, the first of each kept.
pub open spec fn keep_first(rows: Seq<RowView>) -> Seq<RowView>
    decreases rows.len(),
{
    if rows.len() == 0 {
        Seq::empty()
    } else {
        add_row(keep_first(rows.drop_last()), rows.last())
    }
}

fn add_item(items: &mut Vec<ChecklistItem>, item: ChecklistItem)
    ensures
        rows_view(final(items)@) == add_row(rows_view(old(items)@), item@),
{
    let ghost acc = rows_view(items@);
    let mut j: usize = 0;
    while j < items.len()
        invariant
            j <= items@.len(),
            acc == rows_view(items@),
            forall|m: int| 0 <= m < j ==> acc[m].requirement != item@.requirement,
        decreases items@.len() - j,
    {
        if str_eq(items[j].requirement.as_str(), item.requirement.as_str()) {
            assert(acc[j as int].requirement == item@.requirement);
            return;
        }
        j += 1;
    }
    items.push(item);
    assert(rows_view(items@) =~= acc.push(item@));
}

// ---------------------------------------------------------------------------
// The checklist from guideline text
// ---------------------------------------------------------------------------

/// The structured-abstract detail when an abstract is present.
pub const STRUCTURE_UNCHECKED: &'static str = "an abstract is present, but whether it is STRUCTURED (headed subsections such as Background / Methods / Results) is not checked here. This item is undecided, not passed.";

/// The row a guideline asking for a structured abstract raises: presence is
/// decidable, structure is not.
pub open spec fn structured_row(ex: ExtractionResult, h: RagHit) -> RowView {
    let has = has_kind(ex, SectionKind::Abstract);
    row(
        "structured abstract"@,
        false,
        if has {
            STRUCTURE_UNCHECKED@
        } else {
            "no abstract section found"@
        },
        Some(h.source_url@),
        statement_spec(lowercase(h.content@), h.content@, seq!["structured abstract"@]),
        None,
        Some("extraction.sections"@),
        has,
    )
}

/// The row a guideline stating a competing-interests requirement raises,
/// decided from the manuscript's full text.
pub open spec fn coi_row(text: Seq<char>, h: RagHit) -> RowView {
    let found = statement_spec(lowercase(text), text, competing_interest_names());
    row(
        "conflict-of-interest declaration"@,
        found is Some,
        found_detail(found, competing_interest_names().len()),
        Some(h.source_url@),
        statement_spec(lowercase(h.content@), h.content@, competing_interest_names()),
        None,
        Some("manuscript full text"@),
        false,
    )
}

/// A reference entry that starts with a number or a bracket.
pub open spec fn numbered_entry(r: Reference) -> bool {
    let t = trim_start(r.raw@);
    t.len() > 0 && (ascii_digit(t[0]) || t[0] == '[')
}

/// How many entries are numbered.
pub open spec fn numbered_count(refs: Seq<Reference>) -> nat
    decreases refs.len(),
{
    if refs.len() == 0 {
        0
    } else {
        numbered_count(refs.drop_last()) + if numbered_entry(refs.last()) {
            1nat
        } else {
            0nat
        }
    }
}

/// The row a guideline asking for numbered references raises.
pub open spec fn vancouver_row(ex: ExtractionResult, h: RagHit) -> RowView {
    let total = ex.references@.len();
    let numbered = numbered_count(ex.references@);
    row(
        "numbered (Vancouver) reference style"@,
        total > 0 && numbered == total,
        decimal(numbered) + "/"@ + decimal(total) + " reference entries are numbered"@,
        Some(h.source_url@),
        statement_spec(lowercase(h.content@), h.content@, seq!["vancouver"@, "numbered"@]),
        None,
        None,
        false,
    )
}

/// The rows one guideline chunk raises, in order.
pub open spec fn hit_rows(ex: ExtractionResult, text: Seq<char>, h: RagHit) -> Seq<RowView> {
    let g = lowercase(h.content@);
    (if contains(g, "structured abstract"@) {
        seq![structured_row(ex, h)]
    } else {
        Seq::empty()
    }) + (if contains_any(g, competing_interest_names()) {
        seq![coi_row(text, h)]
    } else {
        Seq::empty()
    }) + (if contains(g, "vancouver"@) || contains(g, "numbered"@) {
        seq![vancouver_row(ex, h)]
    } else {
        Seq::empty()
    })
}

/// The rows every chunk raises, chunk by chunk.
pub open spec fn guideline_rows(ex: ExtractionResult, text: Seq<char>, hits: Seq<RagHit>) -> Seq<
    RowView,
>
    decreases hits.len(),
{
    if hits.len() == 0 {
        Seq::empty()
    } else {
        guideline_rows(ex, text, hits.drop_last()) + hit_rows(ex, text, hits.last())
    }
}

/// The checklist from guideline text: the structural rows, then each chunk's
/// rows, with a requirement stated in several chunks kept once (the first).
pub open spec fn guidelines_spec(ex: ExtractionResult, text: Seq<char>, hits: Seq<RagHit>) -> Seq<
    RowView,
> {
    keep_first(structural_rows(ex) + guideline_rows(ex, text, hits))
}

fn count_numbered(refs: &Vec<Reference>) -> (r: usize)
    ensures
        r == numbered_count(refs@),
        r <= refs@.len(),
{
    let mut n: usize = 0;
    let mut i: usize = 0;
    while i < refs.len()
        invariant
            i <= refs@.len(),
            n == numbered_count(refs@.subrange(0, i as int)),
            n <= i,
        decreases refs@.len() - i,
    {
        assert(refs@.subrange(0, i + 1).drop_last() =~= refs@.subrange(0, i as int));
        let raw = chars_of(refs[i].raw.as_str());
        let t = crate::lines::trim_start_chars(&raw);
        let numbered = t.len() > 0 && ((t[0] as u32 >= 48 && t[0] as u32 <= 57) || t[0] == '[');
        if numbered {
            n += 1;
        }
        i += 1;
    }
    assert(refs@.subrange(0, refs@.len() as int) =~= refs@);
    n
}

/// Push the rows one chunk raises.
fn add_hit_rows(
    items: &mut Vec<ChecklistItem>,
    ex: &ExtractionResult,
    text: &str,
    text_lower: &str,
    hit: &RagHit,
)
    requires
        text_lower@ == lowercase(text@),
    ensures
        rows_view(final(items)@) == keep_first_onto(rows_view(old(items)@), hit_rows(*ex, text@, *hit)),
{
    let ghost start = rows_view(items@);
    let ghost rows = hit_rows(*ex, text@, *hit);
    let g = to_lowercase(hit.content.as_str());
    let gc = chars_of(g.as_str());
    let ghost mut done: Seq<RowView> = Seq::empty();
    if str_contains(g.as_str(), "structured abstract") {
        let has = has_section(ex, SectionKind::Abstract);
        let names = vec!["structured abstract"];
        assert(views(names@) =~= seq!["structured abstract"@]);
        let span = statement_in_text(g.as_str(), hit.content.as_str(), &names);
        let it = ChecklistItem {
            requirement: owned("structured abstract"),
            passed: false,
            detail: if has {
                owned(STRUCTURE_UNCHECKED)
            } else {
                owned("no abstract section found")
            },
            guideline_source: Some(hit.source_url.clone()),
            source_span: span,
            article_type: None,
            checked_field: Some(owned("extraction.sections")),
            unevaluable: has,
            also_from: Vec::new(),
        };
        assert(it@ =~= structured_row(*ex, *hit));
        let ghost before = done;
        add_item(items, it);
        proof {
            done = done.push(structured_row(*ex, *hit));
            lemma_keep_first_onto_push(start, before, structured_row(*ex, *hit));
        }
    }
    assert(rows_view(items@) == keep_first_onto(start, done));
    let coi_names = synonyms_for("competing interest");
    assert(views(coi_names@) == competing_interest_names());
    if contains_any_of(&gc, coi_names.as_slice()) {
        let found = statement_in_text(text_lower, text, &coi_names);
        let detail = found_detail_exec(&found, coi_names.len());
        let span = statement_in_text(g.as_str(), hit.content.as_str(), &coi_names);
        let it = ChecklistItem {
            requirement: owned("conflict-of-interest declaration"),
            passed: found.is_some(),
            detail,
            guideline_source: Some(hit.source_url.clone()),
            source_span: span,
            article_type: None,
            checked_field: Some(owned("manuscript full text")),
            unevaluable: false,
            also_from: Vec::new(),
        };
        assert(it@ =~= coi_row(text@, *hit));
        let ghost before = done;
        add_item(items, it);
        proof {
            done = done.push(coi_row(text@, *hit));
            lemma_keep_first_onto_push(start, before, coi_row(text@, *hit));
        }
    }
    assert(rows_view(items@) == keep_first_onto(start, done));
    if str_contains(g.as_str(), "vancouver") || str_contains(g.as_str(), "numbered") {
        let total = ex.references.len();
        let numbered = count_numbered(&ex.references);
        let mut detail = String::new();
        push_usize(&mut detail, numbered);
        push_str(&mut detail, "/");
        push_usize(&mut detail, total);
        push_str(&mut detail, " reference entries are numbered");
        let names = vec!["vancouver", "numbered"];
        assert(views(names@) =~= seq!["vancouver"@, "numbered"@]);
        let span = statement_in_text(g.as_str(), hit.content.as_str(), &names);
        let it = ChecklistItem {
            requirement: owned("numbered (Vancouver) reference style"),
            passed: total > 0 && numbered == total,
            detail,
            guideline_source: Some(hit.source_url.clone()),
            source_span: span,
            article_type: None,
            checked_field: None,
            unevaluable: false,
            also_from: Vec::new(),
        };
        assert(it@ =~= vancouver_row(*ex, *hit));
        let ghost before = done;
        add_item(items, it);
        proof {
            done = done.push(vancouver_row(*ex, *hit));
            lemma_keep_first_onto_push(start, before, vancouver_row(*ex, *hit));
        }
    }
    assert(done =~= rows);
}

/// `rows` added one by one onto `acc`, each unless its requirement is
/// already there.
pub open spec fn keep_first_onto(acc: Seq<RowView>, rows: Seq<RowView>) -> Seq<RowView>
    decreases rows.len(),
{
    if rows.len() == 0 {
        acc
    } else {
        add_row(keep_first_onto(acc, rows.drop_last()), rows.last())
    }
}

proof fn lemma_keep_first_onto_push(acc: Seq<RowView>, rows: Seq<RowView>, r: RowView)
    ensures
        keep_first_onto(acc, rows.push(r)) == add_row(keep_first_onto(acc, rows), r),
{
    assert(rows.push(r).drop_last() =~= rows);
}

proof fn lemma_keep_first_onto_concat(acc: Seq<RowView>, a: Seq<RowView>, b: Seq<RowView>)
    ensures
        keep_first_onto(keep_first_onto(acc, a), b) == keep_first_onto(acc, a + b),
    decreases b.len(),
{
    if b.len() == 0 {
        assert(a + b =~= a);
    } else {
        lemma_keep_first_onto_concat(acc, a, b.drop_last());
        assert((a + b).drop_last() =~= a + b.drop_last());
        assert((a + b).last() == b.last());
    }
}

proof fn lemma_keep_first_is_onto(rows: Seq<RowView>)
    ensures
        keep_first(rows) == keep_first_onto(Seq::empty(), rows),
    decreases rows.len(),
{
    if rows.len() > 0 {
        lemma_keep_first_is_onto(rows.drop_last());
    }
}

/// **The deterministic checklist from a journal's guideline chunks.**
///
/// Four always-on structural rows come first; with no guideline chunks they
/// are all there is — the absence of a guideline is not a manuscript failure.
/// Each chunk can raise a structured-abstract row (undecided when an abstract
/// is present), a conflict-of-interest row (decided from the manuscript's own
/// declaration sentence) and a numbered-references row; a requirement raised
/// by several chunks is kept once, from the first.
pub fn checklist_from_guidelines(
    extraction: &ExtractionResult,
    manuscript_text: &str,
    guidelines: &[RagHit],
) -> (r: Vec<ChecklistItem>)
    ensures
        rows_view(r@) == guidelines_spec(*extraction, manuscript_text@, guidelines@),
{
    let mut items: Vec<ChecklistItem> = Vec::new();
    assert(rows_view(items@) =~= Seq::<RowView>::empty());
    let ghost structural = structural_rows(*extraction);
    let ghost e = Seq::<RowView>::empty();
    let ghost mut done = Seq::<RowView>::empty();
    let kinds = [SectionKind::Abstract, SectionKind::Methods, SectionKind::Results, SectionKind::References];
    let mut k: usize = 0;
    while k < 4
        invariant
            k <= 4,
            kinds@ == seq![SectionKind::Abstract, SectionKind::Methods, SectionKind::Results, SectionKind::References],
            structural == structural_rows(*extraction),
            done == structural.subrange(0, k as int),
            rows_view(items@) == keep_first_onto(e, done),
        decreases 4 - k,
    {
        let it = structural_item(extraction, kinds[k]);
        proof {
            lemma_keep_first_onto_push(e, done, it@);
        }
        add_item(&mut items, it);
        proof {
            done = done.push(structural_row(*extraction, kinds@[k as int]));
            assert(done =~= structural.subrange(0, k + 1));
        }
        k += 1;
    }
    proof {
        assert(done =~= structural);
        lemma_keep_first_is_onto(structural + guideline_rows(*extraction, manuscript_text@, guidelines@));
    }
    if guidelines.len() == 0 {
        assert(structural + guideline_rows(*extraction, manuscript_text@, guidelines@) =~= structural);
        return items;
    }
    let text_lower = to_lowercase(manuscript_text);
    let mut i: usize = 0;
    while i < guidelines.len()
        invariant
            i <= guidelines@.len(),
            text_lower@ == lowercase(manuscript_text@),
            structural == structural_rows(*extraction),
            rows_view(items@) == keep_first_onto(
                Seq::empty(),
                structural + guideline_rows(*extraction, manuscript_text@, guidelines@.subrange(0, i as int)),
            ),
        decreases guidelines@.len() - i,
    {
        let ghost prev = structural + guideline_rows(*extraction, manuscript_text@, guidelines@.subrange(0, i as int));
        let ghost hr = hit_rows(*extraction, manuscript_text@, guidelines@[i as int]);
        add_hit_rows(&mut items, extraction, manuscript_text, text_lower.as_str(), &guidelines[i]);
        proof {
            lemma_keep_first_onto_concat(Seq::empty(), prev, hr);
            assert(guidelines@.subrange(0, i + 1).drop_last() =~= guidelines@.subrange(0, i as int));
            assert(structural + guideline_rows(*extraction, manuscript_text@, guidelines@.subrange(0, i + 1))
                =~= prev + hr);
        }
        i += 1;
    }
    assert(guidelines@.subrange(0, guidelines@.len() as int) =~= guidelines@);
    items
}

// ---------------------------------------------------------------------------
// What every checklist keeps
// ---------------------------------------------------------------------------

/// Rows that name no requirement twice.
pub open spec fn requirements_distinct(rows: Seq<RowView>) -> bool {
    forall|i: int, j: int| 0 <= i < j < rows.len() ==> #[trigger] rows[i].requirement != #[trigger] rows[j].requirement
}

/// A checklist names each requirement once, whatever the guideline chunks
/// repeat: the first occurrence is kept.
pub proof fn lemma_checklist_requirements_distinct(rows: Seq<RowView>)
    ensures
        requirements_distinct(keep_first(rows)),
    decreases rows.len(),
{
    if rows.len() > 0 {
        lemma_checklist_requirements_distinct(rows.drop_last());
        let acc = keep_first(rows.drop_last());
        let r = rows.last();
        if !(exists|j: int| 0 <= j < acc.len() && #[trigger] acc[j].requirement == r.requirement) {
            let out = acc.push(r);
            assert forall|i: int, j: int| 0 <= i < j < out.len() implies #[trigger] out[i].requirement
                != #[trigger] out[j].requirement by {
                if j == acc.len() {
                    assert(out[i] == acc[i]);
                } else {
                    assert(out[i] == acc[i] && out[j] == acc[j]);
                }
            }
        }
    }
}

/// A row scoped to an article type, when the manuscript's type is unknown,
/// is undecided and never passed; with no scope, or a known type, the row
/// is left as built.
pub proof fn lemma_scoped_row_is_undecided(v: RowView, manuscript_type: Option<Seq<char>>)
    ensures
        !v.unevaluable && v.article_type is Some && manuscript_type is None ==> {
            &&& scoped_spec(v, manuscript_type).unevaluable
            &&& !scoped_spec(v, manuscript_type).passed
            &&& scoped_spec(v, manuscript_type).requirement == v.requirement
        },
        (v.article_type is None || manuscript_type is Some) ==> scoped_spec(v, manuscript_type) == v,
        v.unevaluable ==> scoped_spec(v, manuscript_type) == v,
{
}

/// With no guideline chunk at all, the checklist is exactly the four
/// always-on structural rows: each passes exactly when its section was
/// found, none is attributed to a guideline, and none is left undecided.
pub proof fn lemma_no_guidelines_means_structural_rows_only(ex: ExtractionResult, text: Seq<char>)
    ensures
        guidelines_spec(ex, text, Seq::empty()) == structural_rows(ex),
        forall|i: int|
            0 <= i < 4 ==> {
                let row = #[trigger] structural_rows(ex)[i];
                &&& row.guideline_source is None
                &&& !row.unevaluable
            },
        structural_rows(ex)[0].passed == has_kind(ex, SectionKind::Abstract),
        structural_rows(ex)[1].passed == has_kind(ex, SectionKind::Methods),
        structural_rows(ex)[2].passed == has_kind(ex, SectionKind::Results),
        structural_rows(ex)[3].passed == has_kind(ex, SectionKind::References),
{
    reveal_strlit("Abstract");
    reveal_strlit("Methods");
    reveal_strlit("Results");
    reveal_strlit("References");
    reveal_strlit("required section: ");
    let rows = structural_rows(ex);
    assert(guideline_rows(ex, text, Seq::empty()) =~= Seq::<RowView>::empty());
    assert(rows + Seq::<RowView>::empty() =~= rows);
    let a = rows[0].requirement;
    let m = rows[1].requirement;
    let r = rows[2].requirement;
    let f = rows[3].requirement;
    assert(a[18] == 'A' && m[18] == 'M' && r[18] == 'R' && f[18] == 'R');
    assert(r[19] == 'e' && f[19] == 'e' && r[20] == 's' && f[20] == 'f');
    assert(keep_first(rows.take(1)) =~= rows.take(1)) by {
        let e = Seq::<RowView>::empty();
        assert(rows.take(1).drop_last() =~= e);
        assert(keep_first(e) =~= e);
        assert(!(exists|j: int| 0 <= j < e.len() && #[trigger] e[j].requirement == rows[0].requirement));
        assert(add_row(e, rows[0]) =~= e.push(rows[0]));
    }
    assert(keep_first(rows.take(2)) =~= rows.take(2)) by {
        assert(rows.take(2).drop_last() =~= rows.take(1));
    }
    assert(keep_first(rows.take(3)) =~= rows.take(3)) by {
        assert(rows.take(3).drop_last() =~= rows.take(2));
    }
    assert(keep_first(rows) =~= rows) by {
        assert(rows.drop_last() =~= rows.take(3));
    }
}


// ---------------------------------------------------------------------------
// Where each row of a guideline checklist comes from
// ---------------------------------------------------------------------------

/// `r` is the earliest of `rows` stating its requirement.
pub open spec fn earliest(rows: Seq<RowView>, r: RowView) -> bool {
    exists|i: int|
        0 <= i < rows.len() && rows[i] == r && forall|i2: int| 0 <= i2 < i ==> (#[trigger] rows[i2]).requirement != r.requirement
}

proof fn lemma_keep_first_covers(rows: Seq<RowView>)
    ensures
        forall|i: int|
            0 <= i < rows.len() ==> exists|j: int|
                0 <= j < keep_first(rows).len() && (#[trigger] keep_first(rows)[j]).requirement == (#[trigger] rows[i]).requirement,
    decreases rows.len(),
{
    if rows.len() > 0 {
        let pre = rows.drop_last();
        lemma_keep_first_covers(pre);
        let kp = keep_first(pre);
        let k = keep_first(rows);
        assert(k == add_row(kp, rows.last()));
        assert forall|i: int| 0 <= i < rows.len() implies exists|j: int|
            0 <= j < k.len() && (#[trigger] k[j]).requirement == (#[trigger] rows[i]).requirement by {
            if i < pre.len() {
                assert(rows[i] == pre[i]);
                let j = choose|j: int| 0 <= j < kp.len() && (#[trigger] kp[j]).requirement == pre[i].requirement;
                assert(k[j] == kp[j]);
            } else {
                if exists|j: int| 0 <= j < kp.len() && #[trigger] kp[j].requirement == rows.last().requirement {
                    let j = choose|j: int| 0 <= j < kp.len() && #[trigger] kp[j].requirement == rows.last().requirement;
                    assert(k[j] == kp[j]);
                } else {
                    assert(k[kp.len() as int] == rows.last());
                }
            }
        }
    }
}

#[verifier::rlimit(50)]
proof fn lemma_keep_first_earliest(rows: Seq<RowView>)
    ensures
        forall|j: int| 0 <= j < keep_first(rows).len() ==> earliest(rows, #[trigger] keep_first(rows)[j]),
    decreases rows.len(),
{
    if rows.len() > 0 {
        let pre = rows.drop_last();
        lemma_keep_first_earliest(pre);
        lemma_keep_first_covers(pre);
        let kp = keep_first(pre);
        let k = keep_first(rows);
        assert forall|j: int| 0 <= j < k.len() implies earliest(rows, #[trigger] k[j]) by {
            if j < kp.len() {
                assert(k[j] == kp[j]);
                assert(earliest(pre, kp[j]));
                let i = choose|i: int|
                    0 <= i < pre.len() && pre[i] == kp[j] && forall|i2: int| 0 <= i2 < i ==> (#[trigger] pre[i2]).requirement
                        != kp[j].requirement;
                assert(rows[i] == pre[i]);
                assert forall|i2: int| 0 <= i2 < i implies (#[trigger] rows[i2]).requirement != k[j].requirement by {
                    assert(rows[i2] == pre[i2]);
                }
            } else {
                let last = rows.last();
                assert(!exists|m: int| 0 <= m < kp.len() && #[trigger] kp[m].requirement == last.requirement);
                assert(k[j] == last);
                assert forall|i2: int| 0 <= i2 < rows.len() - 1 implies (#[trigger] rows[i2]).requirement != last.requirement by {
                    assert(rows[i2] == pre[i2]);
                    if pre[i2].requirement == last.requirement {
                        let m = choose|m: int| 0 <= m < kp.len() && (#[trigger] kp[m]).requirement == pre[i2].requirement;
                        assert(kp[m].requirement == last.requirement);
                    }
                }
                assert(rows[rows.len() - 1] == last);
            }
        }
    }
}

proof fn lemma_keep_first_prefix(a: Seq<RowView>, b: Seq<RowView>)
    ensures
        keep_first(a).len() <= keep_first(a + b).len(),
        keep_first(a + b).subrange(0, keep_first(a).len() as int) == keep_first(a),
    decreases b.len(),
{
    if b.len() == 0 {
        assert(a + b =~= a);
        assert(keep_first(a).subrange(0, keep_first(a).len() as int) =~= keep_first(a));
    } else {
        lemma_keep_first_prefix(a, b.drop_last());
        assert((a + b).drop_last() =~= a + b.drop_last());
        let k0 = keep_first(a + b.drop_last());
        let k1 = keep_first(a + b);
        assert(k1.subrange(0, keep_first(a).len() as int) =~= k0.subrange(0, keep_first(a).len() as int));
    }
}

/// A row one guideline chunk raises.
pub open spec fn raised_by(ex: ExtractionResult, text: Seq<char>, h: RagHit, r: RowView) -> bool {
    r == structured_row(ex, h) || r == coi_row(text, h) || r == vancouver_row(ex, h)
}

proof fn lemma_guideline_rows_raised(ex: ExtractionResult, text: Seq<char>, hits: Seq<RagHit>)
    ensures
        forall|i: int|
            0 <= i < guideline_rows(ex, text, hits).len() ==> exists|m: int|
                0 <= m < hits.len() && raised_by(ex, text, hits[m], #[trigger] guideline_rows(ex, text, hits)[i]),
    decreases hits.len(),
{
    if hits.len() > 0 {
        let pre = hits.drop_last();
        lemma_guideline_rows_raised(ex, text, pre);
        let g = guideline_rows(ex, text, hits);
        let gp = guideline_rows(ex, text, pre);
        let h = hits.last();
        let here = hit_rows(ex, text, h);
        assert(g == gp + here);
        assert forall|i: int| 0 <= i < g.len() implies exists|m: int|
            0 <= m < hits.len() && raised_by(ex, text, hits[m], #[trigger] g[i]) by {
            if i < gp.len() {
                assert(g[i] == gp[i]);
                let m = choose|m: int| 0 <= m < pre.len() && raised_by(ex, text, pre[m], #[trigger] gp[i]);
                assert(hits[m] == pre[m]);
            } else {
                assert(g[i] == here[i - gp.len()]);
                assert(hits[hits.len() - 1] == h);
                assert(raised_by(ex, text, h, here[i - gp.len()]));
            }
        }
    }
}

/// Where each row of a guideline checklist comes from: every row is the
/// earliest row stating its requirement among the four structural rows
/// followed by each chunk's rows in chunk order; the four structural rows
/// come first; and every other row is a row its chunk raised, carrying that
/// chunk's address — a structured-abstract row (never passed, undecided
/// exactly when an abstract is present), a competing-interests row, or a
/// numbered-references row (passed exactly when there are references and
/// every entry starts with a digit or a bracket). No other requirement is
/// ever stated, so there is no word-limit row.
pub proof fn lemma_guideline_checklist(ex: ExtractionResult, text: Seq<char>, hits: Seq<RagHit>)
    ensures
        ({
            let all = structural_rows(ex) + guideline_rows(ex, text, hits);
            let kept = guidelines_spec(ex, text, hits);
            &&& forall|j: int| 0 <= j < kept.len() ==> earliest(all, #[trigger] kept[j])
            &&& kept.len() >= 4
            &&& kept.subrange(0, 4) == structural_rows(ex)
            &&& forall|i: int|
                4 <= i < all.len() ==> exists|m: int| 0 <= m < hits.len() && raised_by(ex, text, hits[m], #[trigger] all[i])
        }),
        forall|h: RagHit|
            {
                let r = #[trigger] structured_row(ex, h);
                &&& !r.passed
                &&& r.unevaluable == has_kind(ex, SectionKind::Abstract)
                &&& r.guideline_source == Some(h.source_url@)
            },
        forall|h: RagHit|
            {
                let r = #[trigger] vancouver_row(ex, h);
                &&& r.passed == (ex.references@.len() > 0 && numbered_count(ex.references@) == ex.references@.len())
                &&& r.guideline_source == Some(h.source_url@)
            },
        forall|h: RagHit| (#[trigger] coi_row(text, h)).guideline_source == Some(h.source_url@),
{
    let st = structural_rows(ex);
    let g = guideline_rows(ex, text, hits);
    let all = st + g;
    lemma_keep_first_earliest(all);
    lemma_guideline_rows_raised(ex, text, hits);
    lemma_no_guidelines_means_structural_rows_only(ex, text);
    assert(guidelines_spec(ex, text, Seq::empty()) == keep_first(st)) by {
        assert(guideline_rows(ex, text, Seq::empty()) =~= Seq::<RowView>::empty());
        assert(st + Seq::<RowView>::empty() =~= st);
    }
    lemma_keep_first_prefix(st, g);
    assert forall|i: int| 4 <= i < all.len() implies exists|m: int|
        0 <= m < hits.len() && raised_by(ex, text, hits[m], #[trigger] all[i]) by {
        assert(all[i] == g[i - 4]);
    }
}

} // verus!
