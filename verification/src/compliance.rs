//! The checklist built from a journal's OWN extracted requirements and its
//! reporting-standard bindings, and the composition of both checklists.

use vstd::prelude::*;

use crate::checklist::{
    body_text, checklist_from_guidelines, data_availability_names, found_detail,
    found_detail_exec, guidelines_spec, row, scoped, scoped_spec, source_of, source_view,
    synonyms_for, synonyms_spec, text_without_references, RagHit,
};
use crate::extract::{ExtractionResult, Section, SectionKind};
use crate::journal::{heading_for_statement, statement_for, RequirementKind, StoredRequirement};
use crate::lines::{split_whitespace, tokens};
use crate::report::{
    coverage_of, decided_spec, evaluable_upto, evaluate, push_joined, rows_view, verdict_ok,
    ChecklistItem, ChecklistSource, ItemStatus, RowView, SourceView,
};
use crate::standards::{
    all_standards, item_count, item_data, items_for, parse_standard, published_spec,
    standard_name, Standard, StandardBinding,
};
use crate::statement::{statement_in_text, statement_spec};
use crate::text::{
    chars_of, contains, decimal, join, lex_lt, lowercase, opt_owned, opt_view, owned,
    parse_usize, parse_usize_spec, push_str, push_usize, seq_contains, str_contains, str_eq,
    seq_starts_with, str_lt, string_views, to_lowercase, views,
};

verus! {

// ---------------------------------------------------------------------------
// Selecting requirements
// ---------------------------------------------------------------------------

/// The requirements of one kind, in order.
pub open spec fn of_kind(reqs: Seq<StoredRequirement>, k: RequirementKind) -> Seq<StoredRequirement>
    decreases reqs.len(),
{
    if reqs.len() == 0 {
        Seq::empty()
    } else {
        of_kind(reqs.drop_last(), k) + if reqs.last().kind == k {
            seq![reqs.last()]
        } else {
            Seq::empty()
        }
    }
}

/// The positions of the requirements of one kind.
fn positions_of_kind(reqs: &[StoredRequirement], k: RequirementKind) -> (r: Vec<usize>)
    ensures
        forall|j: int| 0 <= j < r@.len() ==> r@[j] < reqs@.len(),
        r@.map_values(|i: usize| reqs@[i as int]) == of_kind(reqs@, k),
{
    let mut out: Vec<usize> = Vec::new();
    let mut i: usize = 0;
    while i < reqs.len()
        invariant
            i <= reqs@.len(),
            forall|j: int| 0 <= j < out@.len() ==> out@[j] < i,
            out@.map_values(|m: usize| reqs@[m as int]) == of_kind(reqs@.subrange(0, i as int), k),
        decreases reqs@.len() - i,
    {
        let ghost before = out@.map_values(|m: usize| reqs@[m as int]);
        assert(reqs@.subrange(0, i + 1).drop_last() =~= reqs@.subrange(0, i as int));
        if reqs[i].kind == k {
            out.push(i);
            assert(out@.map_values(|m: usize| reqs@[m as int]) =~= before.push(reqs@[i as int]));
        }
        i += 1;
        assert(out@.map_values(|m: usize| reqs@[m as int]) =~= of_kind(reqs@.subrange(0, i as int), k));
    }
    assert(reqs@.subrange(0, reqs@.len() as int) =~= reqs@);
    out
}

/// The sources of the requirements at `pos[from..]`.
fn sources_from(reqs: &[StoredRequirement], pos: &Vec<usize>, from: usize) -> (r: Vec<ChecklistSource>)
    requires
        from <= pos@.len(),
        forall|j: int| 0 <= j < pos@.len() ==> pos@[j] < reqs@.len(),
    ensures
        r@.map_values(|c: ChecklistSource| c@) == pos@.map_values(|i: usize| reqs@[i as int]).subrange(
            from as int,
            pos@.len() as int,
        ).map_values(|q: StoredRequirement| source_view(q)),
{
    let ghost sel = pos@.map_values(|i: usize| reqs@[i as int]);
    let mut out: Vec<ChecklistSource> = Vec::new();
    let mut j = from;
    while j < pos.len()
        invariant
            from <= j <= pos@.len(),
            sel == pos@.map_values(|i: usize| reqs@[i as int]),
            forall|m: int| 0 <= m < pos@.len() ==> pos@[m] < reqs@.len(),
            out@.map_values(|c: ChecklistSource| c@) == sel.subrange(from as int, j as int).map_values(
                |q: StoredRequirement| source_view(q),
            ),
        decreases pos@.len() - j,
    {
        let ghost before = out@.map_values(|c: ChecklistSource| c@);
        let src = source_of(&reqs[pos[j]]);
        proof {
            assert(sel[j as int] == reqs@[pos@[j as int] as int]);
            assert(sel.subrange(from as int, j + 1) =~= sel.subrange(from as int, j as int).push(sel[j as int]));
        }
        out.push(src);
        proof {
            assert(out@.map_values(|c: ChecklistSource| c@) =~= before.push(src@));
            let f = |q: StoredRequirement| source_view(q);
            let a = sel.subrange(from as int, j as int);
            assert(a.push(sel[j as int]).map_values(f) =~= a.map_values(f).push(f(sel[j as int])));
        }
        j += 1;
        assert(out@.map_values(|c: ChecklistSource| c@) =~= sel.subrange(from as int, j as int).map_values(
            |q: StoredRequirement| source_view(q),
        ));
    }
    out
}

// ---------------------------------------------------------------------------
// Word limit
// ---------------------------------------------------------------------------

/// A limit's value with the article type it was stated for.
pub open spec fn stated_limit(r: StoredRequirement) -> Seq<char> {
    r.value@ + " ("@ + match opt_view(r.article_type) {
        Some(t) => t,
        None => "type not stated"@,
    } + ")"@
}

/// The row for the journal's one word limit.
pub open spec fn single_limit_row(r: StoredRequirement, limit: nat, words: nat) -> RowView {
    row(
        "word limit: "@ + decimal(limit),
        words <= limit,
        "manuscript has "@ + decimal(words) + " words against a stated limit of "@ + decimal(limit),
        Some(r.source_url@),
        Some(r.source_span@),
        opt_view(r.article_type),
        Some("manuscript word count"@),
        false,
    )
}

/// The row for several word limits, one per article type: every limit is
/// named and no verdict is passed, since the article type is unknown.
pub open spec fn multi_limit_row(wl: Seq<StoredRequirement>, words: nat) -> RowView {
    RowView {
        requirement: "word limit depends on article type"@,
        passed: false,
        detail: "the journal states "@ + decimal(wl.len()) + " word limits — "@ + join(
            wl.map_values(|r: StoredRequirement| stated_limit(r)),
            "; "@,
        ) + ". Your manuscript has "@ + decimal(words)
            + " words; which limit applies depends on the article type you are submitting, which this analysis does not know."@,
        guideline_source: Some(wl[0].source_url@),
        source_span: Some(wl[0].source_span@),
        article_type: None,
        checked_field: Some("manuscript word count"@),
        unevaluable: true,
        also_from: wl.subrange(1, wl.len() as int).map_values(|r: StoredRequirement| source_view(r)),
    }
}

/// The word-limit rows: none, one judged row, or one unjudged row naming
/// every limit.
pub open spec fn word_limit_rows(reqs: Seq<StoredRequirement>, words: nat) -> Seq<RowView> {
    let wl = of_kind(reqs, RequirementKind::WordLimit);
    if wl.len() == 0 {
        Seq::empty()
    } else if wl.len() == 1 {
        match parse_usize_spec(wl[0].value@) {
            Some(limit) => seq![scoped_spec(single_limit_row(wl[0], limit, words), None)],
            None => Seq::empty(),
        }
    } else {
        seq![multi_limit_row(wl, words)]
    }
}

fn word_limit_items(reqs: &[StoredRequirement], words: usize) -> (r: Vec<ChecklistItem>)
    ensures
        rows_view(r@) == word_limit_rows(reqs@, words as nat),
{
    let pos = positions_of_kind(reqs, RequirementKind::WordLimit);
    let ghost wl = pos@.map_values(|i: usize| reqs@[i as int]);
    let mut out: Vec<ChecklistItem> = Vec::new();
    if pos.len() == 0 {
        assert(rows_view(out@) =~= Seq::<RowView>::empty());
        return out;
    }
    if pos.len() == 1 {
        let r = &reqs[pos[0]];
        assert(*r == wl[0]);
        match parse_usize(r.value.as_str()) {
            Some(limit) => {
                let mut requirement = owned("word limit: ");
                push_usize(&mut requirement, limit);
                let mut detail = owned("manuscript has ");
                push_usize(&mut detail, words);
                push_str(&mut detail, " words against a stated limit of ");
                push_usize(&mut detail, limit);
                let it = ChecklistItem {
                    also_from: Vec::new(),
                    requirement,
                    passed: words <= limit,
                    detail,
                    guideline_source: Some(r.source_url.clone()),
                    source_span: Some(r.source_span.clone()),
                    article_type: opt_owned(&r.article_type),
                    checked_field: Some(owned("manuscript word count")),
                    unevaluable: false,
                };
                assert(it@ =~= single_limit_row(wl[0], limit as nat, words as nat));
                let it = scoped(it, None);
                out.push(it);
                assert(rows_view(out@) =~= seq![it@]);
            },
            None => {
                assert(rows_view(out@) =~= Seq::<RowView>::empty());
            },
        }
        return out;
    }
    let mut stated = String::new();
    let mut j: usize = 0;
    let ghost parts = wl.map_values(|r: StoredRequirement| stated_limit(r));
    assert(parts.subrange(0, 0) =~= Seq::<Seq<char>>::empty());
    while j < pos.len()
        invariant
            j <= pos@.len(),
            wl == pos@.map_values(|i: usize| reqs@[i as int]),
            parts == wl.map_values(|r: StoredRequirement| stated_limit(r)),
            forall|m: int| 0 <= m < pos@.len() ==> pos@[m] < reqs@.len(),
            stated@ == join(parts.subrange(0, j as int), "; "@),
        decreases pos@.len() - j,
    {
        let ghost before = stated@;
        let r = &reqs[pos[j]];
        if j > 0 {
            push_str(&mut stated, "; ");
        }
        push_str(&mut stated, r.value.as_str());
        push_str(&mut stated, " (");
        match &r.article_type {
            Some(t) => push_str(&mut stated, t.as_str()),
            None => push_str(&mut stated, "type not stated"),
        }
        push_str(&mut stated, ")");
        proof {
            let q = parts.subrange(0, j + 1);
            assert(q.drop_last() =~= parts.subrange(0, j as int));
            assert(q.last() == stated_limit(wl[j as int]));
            if j > 0 {
                assert(stated@ =~= before + "; "@ + q.last());
            } else {
                assert(parts.subrange(0, 0) =~= Seq::<Seq<char>>::empty());
                assert(stated@ =~= before + q.last());
            }
        }
        j += 1;
    }
    assert(parts.subrange(0, pos@.len() as int) =~= parts);
    let mut detail = owned("the journal states ");
    push_usize(&mut detail, pos.len());
    push_str(&mut detail, " word limits — ");
    push_str(&mut detail, stated.as_str());
    push_str(&mut detail, ". Your manuscript has ");
    push_usize(&mut detail, words);
    push_str(
        &mut detail,
        " words; which limit applies depends on the article type you are submitting, which this analysis does not know.",
    );
    let first = &reqs[pos[0]];
    let it = ChecklistItem {
        also_from: sources_from(reqs, &pos, 1),
        requirement: owned("word limit depends on article type"),
        passed: false,
        detail,
        guideline_source: Some(first.source_url.clone()),
        source_span: Some(first.source_span.clone()),
        article_type: None,
        checked_field: Some(owned("manuscript word count")),
        unevaluable: true,
    };
    assert(it@ =~= multi_limit_row(wl, words as nat));
    out.push(it);
    assert(rows_view(out@) =~= seq![it@]);
    out
}

// ---------------------------------------------------------------------------
// Abstract limit
// ---------------------------------------------------------------------------

/// The index of the first requirement of kind `k` at or after `i`.
pub open spec fn first_req(reqs: Seq<StoredRequirement>, k: RequirementKind, i: int) -> Option<int>
    decreases reqs.len() - i,
{
    if i < 0 || i >= reqs.len() {
        None
    } else if reqs[i].kind == k {
        Some(i)
    } else {
        first_req(reqs, k, i + 1)
    }
}

/// The words of a list of paragraphs.
pub open spec fn paragraph_words(ps: Seq<String>) -> nat
    decreases ps.len(),
{
    if ps.len() == 0 {
        0
    } else {
        paragraph_words(ps.drop_last()) + tokens(ps.last()@).len()
    }
}

/// The words of every abstract section's paragraphs.
pub open spec fn abstract_words(secs: Seq<Section>) -> nat
    decreases secs.len(),
{
    if secs.len() == 0 {
        0
    } else {
        abstract_words(secs.drop_last()) + if secs.last().kind == SectionKind::Abstract {
            paragraph_words(secs.last().paragraphs@)
        } else {
            0
        }
    }
}

/// The abstract-limit row: only for the first such requirement, only when
/// its value is a number, and only when an abstract was found — an abstract
/// the extractor did not find is not an abstract over the limit.
pub open spec fn abstract_rows(ex: ExtractionResult, reqs: Seq<StoredRequirement>) -> Seq<RowView> {
    match first_req(reqs, RequirementKind::AbstractLimit, 0) {
        Some(i) => match parse_usize_spec(reqs[i].value@) {
            Some(limit) => {
                let aw = abstract_words(ex.sections@);
                if aw > 0 {
                    seq![
                        scoped_spec(
                            row(
                                "abstract limit: "@ + decimal(limit) + " words"@,
                                aw <= limit,
                                "abstract has "@ + decimal(aw) + " words against a limit of "@
                                    + decimal(limit),
                                Some(reqs[i].source_url@),
                                Some(reqs[i].source_span@),
                                opt_view(reqs[i].article_type),
                                Some("extraction.sections[Abstract]"@),
                                false,
                            ),
                            None,
                        ),
                    ]
                } else {
                    Seq::empty()
                }
            },
            None => Seq::empty(),
        },
        None => Seq::empty(),
    }
}

proof fn lemma_abstract_words_prefix(secs: Seq<Section>, i: int)
    requires
        0 <= i <= secs.len(),
    ensures
        abstract_words(secs.subrange(0, i)) <= abstract_words(secs),
    decreases secs.len() - i,
{
    if i < secs.len() {
        lemma_abstract_words_prefix(secs, i + 1);
        assert(secs.subrange(0, i + 1).drop_last() =~= secs.subrange(0, i));
    } else {
        assert(secs.subrange(0, i) =~= secs);
    }
}

proof fn lemma_paragraph_words_prefix(ps: Seq<String>, j: int)
    requires
        0 <= j <= ps.len(),
    ensures
        paragraph_words(ps.subrange(0, j)) <= paragraph_words(ps),
    decreases ps.len() - j,
{
    if j < ps.len() {
        lemma_paragraph_words_prefix(ps, j + 1);
        assert(ps.subrange(0, j + 1).drop_last() =~= ps.subrange(0, j));
    } else {
        assert(ps.subrange(0, j) =~= ps);
    }
}

fn count_abstract_words(ex: &ExtractionResult) -> (r: usize)
    requires
        abstract_words(ex.sections@) <= usize::MAX,
    ensures
        r == abstract_words(ex.sections@),
{
    let secs = &ex.sections;
    let mut total: usize = 0;
    let mut i: usize = 0;
    while i < secs.len()
        invariant
            i <= secs@.len(),
            secs@ == ex.sections@,
            abstract_words(secs@) <= usize::MAX,
            total == abstract_words(secs@.subrange(0, i as int)),
        decreases secs@.len() - i,
    {
        proof {
            assert(secs@.subrange(0, i + 1).drop_last() =~= secs@.subrange(0, i as int));
            lemma_abstract_words_prefix(secs@, i + 1);
        }
        if secs[i].kind == SectionKind::Abstract {
            let ps = &secs[i].paragraphs;
            let ghost base = total as int;
            let mut j: usize = 0;
            assert(ps@.subrange(0, 0) =~= Seq::<String>::empty());
            while j < ps.len()
                invariant
                    j <= ps@.len(),
                    base + paragraph_words(ps@) <= usize::MAX,
                    total == base + paragraph_words(ps@.subrange(0, j as int)),
                decreases ps@.len() - j,
            {
                proof {
                    assert(ps@.subrange(0, j + 1).drop_last() =~= ps@.subrange(0, j as int));
                    lemma_paragraph_words_prefix(ps@, j + 1);
                }
                let cs = chars_of(ps[j].as_str());
                let toks = split_whitespace(&cs);
                assert(toks@.map_values(|t: Vec<char>| t@).len() == toks@.len());
                total = total + toks.len();
                j += 1;
            }
            assert(ps@.subrange(0, ps@.len() as int) =~= ps@);
        }
        i += 1;
    }
    assert(secs@.subrange(0, secs@.len() as int) =~= secs@);
    total
}

fn abstract_items(ex: &ExtractionResult, reqs: &[StoredRequirement]) -> (r: Vec<ChecklistItem>)
    requires
        abstract_words(ex.sections@) <= usize::MAX,
    ensures
        rows_view(r@) == abstract_rows(*ex, reqs@),
{
    let mut out: Vec<ChecklistItem> = Vec::new();
    assert(rows_view(out@) =~= Seq::<RowView>::empty());
    let mut i: usize = 0;
    while i < reqs.len()
        invariant
            i <= reqs@.len(),
            first_req(reqs@, RequirementKind::AbstractLimit, 0) == first_req(
                reqs@,
                RequirementKind::AbstractLimit,
                i as int,
            ),
        ensures
            i < reqs@.len() ==> reqs@[i as int].kind == RequirementKind::AbstractLimit,
            i <= reqs@.len(),
            first_req(reqs@, RequirementKind::AbstractLimit, 0) == first_req(
                reqs@,
                RequirementKind::AbstractLimit,
                i as int,
            ),
        decreases reqs@.len() - i,
    {
        if reqs[i].kind == RequirementKind::AbstractLimit {
            break;
        }
        i += 1;
    }
    if i >= reqs.len() {
        return out;
    }
    let r = &reqs[i];
    let limit = match parse_usize(r.value.as_str()) {
        Some(l) => l,
        None => {
            return out;
        },
    };
    let aw = count_abstract_words(ex);
    if aw == 0 {
        return out;
    }
    let mut requirement = owned("abstract limit: ");
    push_usize(&mut requirement, limit);
    push_str(&mut requirement, " words");
    let mut detail = owned("abstract has ");
    push_usize(&mut detail, aw);
    push_str(&mut detail, " words against a limit of ");
    push_usize(&mut detail, limit);
    let it = ChecklistItem {
        also_from: Vec::new(),
        requirement,
        passed: aw <= limit,
        detail,
        guideline_source: Some(r.source_url.clone()),
        source_span: Some(r.source_span.clone()),
        article_type: opt_owned(&r.article_type),
        checked_field: Some(owned("extraction.sections[Abstract]")),
        unevaluable: false,
    };
    let ghost expected = row(
        "abstract limit: "@ + decimal(limit as nat) + " words"@,
        aw <= limit,
        "abstract has "@ + decimal(aw as nat) + " words against a limit of "@ + decimal(limit as nat),
        Some(r.source_url@),
        Some(r.source_span@),
        opt_view(r.article_type),
        Some("extraction.sections[Abstract]"@),
        false,
    );
    assert(it@ =~= expected);
    let it = scoped(it, None);
    out.push(it);
    assert(rows_view(out@) =~= seq![it@]);
    out
}

// ---------------------------------------------------------------------------
// Data availability
// ---------------------------------------------------------------------------

/// The data-availability row, when any data policy was stored: decided from
/// the body text, carrying every policy page as a source.
pub open spec fn data_rows(reqs: Seq<StoredRequirement>, body: Seq<char>) -> Seq<RowView> {
    let dr = of_kind(reqs, RequirementKind::DataPolicy);
    if dr.len() == 0 {
        Seq::empty()
    } else {
        let found = statement_spec(lowercase(body), body, data_availability_names());
        seq![
            scoped_spec(
                RowView {
                    requirement: "data availability statement"@,
                    passed: found is Some,
                    detail: found_detail(found, data_availability_names().len()),
                    guideline_source: Some(dr[0].source_url@),
                    source_span: Some(dr[0].source_span@),
                    article_type: opt_view(dr[0].article_type),
                    checked_field: Some("manuscript full text"@),
                    unevaluable: false,
                    also_from: dr.subrange(1, dr.len() as int).map_values(
                        |r: StoredRequirement| source_view(r),
                    ),
                },
                None,
            ),
        ]
    }
}

fn data_items(reqs: &[StoredRequirement], body: &str, lower: &str) -> (r: Vec<ChecklistItem>)
    requires
        lower@ == lowercase(body@),
    ensures
        rows_view(r@) == data_rows(reqs@, body@),
{
    let pos = positions_of_kind(reqs, RequirementKind::DataPolicy);
    let ghost dr = pos@.map_values(|i: usize| reqs@[i as int]);
    let mut out: Vec<ChecklistItem> = Vec::new();
    if pos.len() == 0 {
        assert(rows_view(out@) =~= Seq::<RowView>::empty());
        return out;
    }
    let names = crate::checklist::data_names();
    let found = statement_in_text(lower, body, &names);
    let detail = found_detail_exec(&found, names.len());
    let first = &reqs[pos[0]];
    assert(*first == dr[0]);
    let it = ChecklistItem {
        requirement: owned("data availability statement"),
        passed: found.is_some(),
        detail,
        guideline_source: Some(first.source_url.clone()),
        source_span: Some(first.source_span.clone()),
        article_type: opt_owned(&first.article_type),
        checked_field: Some(owned("manuscript full text")),
        unevaluable: false,
        also_from: sources_from(reqs, &pos, 1),
    };
    let it = scoped(it, None);
    out.push(it);
    assert(rows_view(out@) =~= data_rows(reqs@, body@));
    out
}

// ---------------------------------------------------------------------------
// Required statements
// ---------------------------------------------------------------------------

/// The statement a stored requirement asks for, if it is a required
/// statement this engine recognises.
pub open spec fn statement_of(r: StoredRequirement) -> Option<Seq<char>> {
    if r.kind == RequirementKind::SectionRequired {
        statement_for(r.value@)
    } else {
        None
    }
}

/// The statements asked for, each once, in order of first request.
pub open spec fn statement_order(reqs: Seq<StoredRequirement>) -> Seq<Seq<char>>
    decreases reqs.len(),
{
    if reqs.len() == 0 {
        Seq::empty()
    } else {
        let o = statement_order(reqs.drop_last());
        match statement_of(reqs.last()) {
            Some(n) => if o.contains(n) {
                o
            } else {
                o.push(n)
            },
            None => o,
        }
    }
}

/// Every requirement asking for statement `n`, in order.
pub open spec fn statement_group(reqs: Seq<StoredRequirement>, n: Seq<char>) -> Seq<StoredRequirement>
    decreases reqs.len(),
{
    if reqs.len() == 0 {
        Seq::empty()
    } else {
        statement_group(reqs.drop_last(), n) + if statement_of(reqs.last()) == Some(n) {
            seq![reqs.last()]
        } else {
            Seq::empty()
        }
    }
}

/// What a required-statement row says: the sentence found, or how many
/// phrasings were searched and which.
pub open spec fn statement_detail(found: Option<Seq<char>>, names: Seq<Seq<char>>) -> Seq<char> {
    match found {
        Some(s) => "found in the manuscript: "@ + s,
        None => "none of "@ + decimal(names.len()) + " phrasings ("@ + join(names, ", "@)
            + ") was found anywhere in the manuscript"@,
    }
}

/// One row per statement: the first request states the requirement, every
/// other request is carried as a further source.
pub open spec fn statement_row(reqs: Seq<StoredRequirement>, n: Seq<char>, body: Seq<char>) -> RowView {
    let group = statement_group(reqs, n);
    let names = synonyms_spec(n);
    let found = statement_spec(lowercase(body), body, names);
    scoped_spec(
        RowView {
            requirement: group[0].value@,
            passed: found is Some,
            detail: statement_detail(found, names),
            guideline_source: Some(group[0].source_url@),
            source_span: Some(group[0].source_span@),
            article_type: opt_view(group[0].article_type),
            checked_field: Some("manuscript full text"@),
            unevaluable: false,
            also_from: group.subrange(1, group.len() as int).map_values(
                |r: StoredRequirement| source_view(r),
            ),
        },
        None,
    )
}

/// The required-statement rows.
pub open spec fn statement_rows(reqs: Seq<StoredRequirement>, body: Seq<char>) -> Seq<RowView> {
    statement_order(reqs).map_values(|n: Seq<char>| statement_row(reqs, n, body))
}

proof fn lemma_order_has_group(reqs: Seq<StoredRequirement>, n: Seq<char>)
    requires
        statement_order(reqs).contains(n),
    ensures
        statement_group(reqs, n).len() > 0,
    decreases reqs.len(),
{
    if reqs.len() > 0 {
        let o = statement_order(reqs.drop_last());
        if o.contains(n) {
            lemma_order_has_group(reqs.drop_last(), n);
        }
    }
}

fn statement_needle(r: &StoredRequirement) -> (n: Option<&'static str>)
    ensures
        match n {
            Some(x) => statement_of(*r) == Some(x@),
            None => statement_of(*r) is None,
        },
{
    if r.kind == RequirementKind::SectionRequired {
        heading_for_statement(r.value.as_str())
    } else {
        None
    }
}

/// The positions of the requirements asking for statement `n`.
fn group_positions(reqs: &[StoredRequirement], n: &str) -> (r: Vec<usize>)
    ensures
        forall|j: int| 0 <= j < r@.len() ==> r@[j] < reqs@.len(),
        r@.map_values(|i: usize| reqs@[i as int]) == statement_group(reqs@, n@),
{
    let mut out: Vec<usize> = Vec::new();
    let mut i: usize = 0;
    while i < reqs.len()
        invariant
            i <= reqs@.len(),
            forall|j: int| 0 <= j < out@.len() ==> out@[j] < i,
            out@.map_values(|m: usize| reqs@[m as int]) == statement_group(reqs@.subrange(0, i as int), n@),
        decreases reqs@.len() - i,
    {
        let ghost before = out@.map_values(|m: usize| reqs@[m as int]);
        assert(reqs@.subrange(0, i + 1).drop_last() =~= reqs@.subrange(0, i as int));
        let hit = match statement_needle(&reqs[i]) {
            Some(x) => str_eq(x, n),
            None => false,
        };
        if hit {
            out.push(i);
            assert(out@.map_values(|m: usize| reqs@[m as int]) =~= before.push(reqs@[i as int]));
        }
        i += 1;
        assert(out@.map_values(|m: usize| reqs@[m as int]) =~= statement_group(reqs@.subrange(0, i as int), n@));
    }
    assert(reqs@.subrange(0, reqs@.len() as int) =~= reqs@);
    out
}

/// The statements asked for, in order of first request.
fn statement_needles_of(reqs: &[StoredRequirement]) -> (r: Vec<&'static str>)
    ensures
        views(r@) == statement_order(reqs@),
{
    let mut out: Vec<&'static str> = Vec::new();
    let mut i: usize = 0;
    assert(views(out@) =~= statement_order(reqs@.subrange(0, 0)));
    while i < reqs.len()
        invariant
            i <= reqs@.len(),
            views(out@) == statement_order(reqs@.subrange(0, i as int)),
        decreases reqs@.len() - i,
    {
        assert(reqs@.subrange(0, i + 1).drop_last() =~= reqs@.subrange(0, i as int));
        assert(reqs@.subrange(0, i + 1).last() == reqs@[i as int]);
        match statement_needle(&reqs[i]) {
            Some(x) => {
                let mut present = false;
                let mut j: usize = 0;
                while j < out.len()
                    invariant
                        j <= out@.len(),
                        !present ==> forall|m: int| 0 <= m < j ==> views(out@)[m] != x@,
                        present ==> views(out@).contains(x@),
                    decreases out@.len() - j,
                {
                    if str_eq(out[j], x) {
                        assert(views(out@)[j as int] == x@);
                        present = true;
                    }
                    j += 1;
                }
                if !present {
                    let ghost before = views(out@);
                    out.push(x);
                    assert(views(out@) =~= before.push(x@));
                }
            },
            None => {},
        }
        i += 1;
    }
    assert(reqs@.subrange(0, reqs@.len() as int) =~= reqs@);
    out
}

fn statement_items(reqs: &[StoredRequirement], body: &str, lower: &str) -> (r: Vec<ChecklistItem>)
    requires
        lower@ == lowercase(body@),
    ensures
        rows_view(r@) == statement_rows(reqs@, body@),
{
    let order = statement_needles_of(reqs);
    let mut out: Vec<ChecklistItem> = Vec::new();
    let mut k: usize = 0;
    assert(rows_view(out@) =~= statement_rows(reqs@, body@).subrange(0, 0));
    while k < order.len()
        invariant
            k <= order@.len(),
            lower@ == lowercase(body@),
            views(order@) == statement_order(reqs@),
            rows_view(out@) == statement_rows(reqs@, body@).subrange(0, k as int),
        decreases order@.len() - k,
    {
        let n = order[k];
        assert(n@ == statement_order(reqs@)[k as int]);
        proof {
            lemma_order_has_group(reqs@, n@);
        }
        let pos = group_positions(reqs, n);
        let ghost group = pos@.map_values(|i: usize| reqs@[i as int]);
        let names = synonyms_for(n);
        let found = statement_in_text(lower, body, &names);
        let detail = match &found {
            Some(sentence) => {
                let mut d = owned("found in the manuscript: ");
                push_str(&mut d, sentence.as_str());
                d
            },
            None => {
                let mut d = owned("none of ");
                push_usize(&mut d, names.len());
                push_str(&mut d, " phrasings (");
                push_joined(&mut d, &names, ", ");
                push_str(&mut d, ") was found anywhere in the manuscript");
                d
            },
        };
        let first = &reqs[pos[0]];
        assert(*first == group[0]);
        let it = ChecklistItem {
            requirement: first.value.clone(),
            passed: found.is_some(),
            detail,
            guideline_source: Some(first.source_url.clone()),
            source_span: Some(first.source_span.clone()),
            article_type: opt_owned(&first.article_type),
            checked_field: Some(owned("manuscript full text")),
            unevaluable: false,
            also_from: sources_from(reqs, &pos, 1),
        };
        let it = scoped(it, None);
        assert(it@ == statement_row(reqs@, n@, body@));
        let ghost before = rows_view(out@);
        out.push(it);
        proof {
            assert(rows_view(out@) =~= before.push(it@));
            assert(statement_rows(reqs@, body@).subrange(0, k + 1) =~= statement_rows(reqs@, body@).subrange(
                0,
                k as int,
            ).push(statement_row(reqs@, n@, body@)));
        }
        k += 1;
    }
    assert(statement_rows(reqs@, body@).subrange(0, order@.len() as int) =~= statement_rows(reqs@, body@));
    out
}

// ---------------------------------------------------------------------------
// Reporting-standard bindings
// ---------------------------------------------------------------------------

/// An earlier binding has the same standard and design.
pub open spec fn dup_binding(bs: Seq<StandardBinding>, i: int) -> bool {
    exists|j: int| 0 <= j < i && #[trigger] bs[j].standard == bs[i].standard && bs[j].design@ == bs[i].design@
}

/// An earlier binding has the same standard.
pub open spec fn standard_before(bs: Seq<StandardBinding>, i: int) -> bool {
    exists|j: int| 0 <= j < i && #[trigger] bs[j].standard == bs[i].standard
}

/// The journal's sentence has mandatory force.
pub open spec fn mandatory_span(lower: Seq<char>) -> bool {
    contains(lower, "must "@) || contains(lower, "are required"@) || contains(lower, "is required"@)
        || contains(lower, "shall "@)
}

/// The article that agrees with the design it introduces.
pub open spec fn article_for(design: Seq<char>) -> Seq<char> {
    if design.len() > 0 && (design[0] == 'a' || design[0] == 'e' || design[0] == 'i' || design[0]
        == 'o' || design[0] == 'u') {
        "an"@
    } else {
        "a"@
    }
}

/// The row reporting a binding: it judges nothing, so it is undecided.
pub open spec fn binding_row(b: StandardBinding) -> RowView {
    let s = b.standard;
    let name = standard_name(s);
    let art = article_for(b.design@);
    let verb = if mandatory_span(lowercase(b.source_span@)) {
        "requires"@
    } else {
        "recommends"@
    };
    let lead = "if your study is "@ + art + " "@ + b.design@ + ", this journal "@ + verb + " "@ + name
        + " reporting. Gaply "@;
    row(
        name + " applies to "@ + art + " "@ + b.design@,
        false,
        if published_spec(s) is Some {
            lead + coverage_of(s) + "."@
        } else {
            lead + "has no evaluator for this standard yet."@
        },
        None,
        Some(b.source_span@),
        None,
        Some("journal_requirements.reporting_standard (binding)"@),
        true,
    )
}

/// The designs bound to standard `s`, in binding order.
pub open spec fn designs_of(bs: Seq<StandardBinding>, s: Standard) -> Seq<Seq<char>>
    decreases bs.len(),
{
    if bs.len() == 0 {
        Seq::empty()
    } else {
        designs_of(bs.drop_last(), s) + if bs.last().standard == s {
            seq![bs.last().design@]
        } else {
            Seq::empty()
        }
    }
}

/// `x` placed in a sorted list: kept out if already present, otherwise before
/// the first entry it sorts before.
pub open spec fn insert_sorted(d: Seq<Seq<char>>, x: Seq<char>) -> Seq<Seq<char>>
    decreases d.len(),
{
    if d.len() == 0 {
        seq![x]
    } else if d[0] == x {
        d
    } else if lex_lt(x, d[0]) {
        seq![x] + d
    } else {
        seq![d[0]] + insert_sorted(d.drop_first(), x)
    }
}

/// The distinct values of `xs`, sorted.
pub open spec fn sort_unique(xs: Seq<Seq<char>>) -> Seq<Seq<char>>
    decreases xs.len(),
{
    if xs.len() == 0 {
        Seq::empty()
    } else {
        insert_sorted(sort_unique(xs.drop_last()), xs.last())
    }
}

/// The conditional every item row of standard `s` carries, naming every
/// design it is bound to.
pub open spec fn applies_text(bs: Seq<StandardBinding>, s: Standard) -> Seq<char> {
    "if your study is a "@ + join(sort_unique(designs_of(bs, s)), ", a "@)
}

/// The row for item `k` of standard `s`: its verdict, the conditional, the
/// coverage fraction, and the journal sentence that bound it.
pub open spec fn verdict_row(
    ex: ExtractionResult,
    body: Seq<char>,
    s: Standard,
    k: int,
    applies: Seq<char>,
    span: Seq<char>,
) -> RowView {
    let d = item_data(s, k);
    let v = decided_spec(ex, body, d.2, d.3);
    row(
        standard_name(s) + " item "@ + d.0 + " ("@ + applies + "; "@ + coverage_of(s) + "): "@ + d.1,
        v.0 == ItemStatus::Met,
        match v.1 {
            Some(sp) => if v.0 == ItemStatus::Met {
                v.3 + " — "@ + sp
            } else {
                v.3
            },
            None => v.3,
        },
        None,
        Some(span),
        None,
        Some(join(d.3, " / "@)),
        v.0 == ItemStatus::Unevaluable,
    )
}

/// The item rows raised by binding `i`.
pub open spec fn item_rows(ex: ExtractionResult, body: Seq<char>, bs: Seq<StandardBinding>, i: int) -> Seq<
    RowView,
> {
    let s = bs[i].standard;
    Seq::new(
        item_count(s),
        |k: int| verdict_row(ex, body, s, k, applies_text(bs, s), bs[i].source_span@),
    )
}

/// The rows raised by binding `i`: none for a repeated binding; else the
/// binding row, and the item rows the first time its standard is bound.
pub open spec fn rows_of_binding(ex: ExtractionResult, body: Seq<char>, bs: Seq<StandardBinding>, i: int) -> Seq<
    RowView,
> {
    if dup_binding(bs, i) {
        Seq::empty()
    } else {
        seq![binding_row(bs[i])] + if standard_before(bs, i) {
            Seq::empty()
        } else {
            item_rows(ex, body, bs, i)
        }
    }
}

/// The rows raised by the first `n` bindings.
pub open spec fn binding_rows(ex: ExtractionResult, body: Seq<char>, bs: Seq<StandardBinding>, n: int) -> Seq<
    RowView,
>
    decreases n,
{
    if n <= 0 {
        Seq::empty()
    } else {
        binding_rows(ex, body, bs, n - 1) + rows_of_binding(ex, body, bs, n - 1)
    }
}

fn insert_design<'a>(d: &mut Vec<&'a str>, x: &'a str)
    ensures
        views(final(d)@) == insert_sorted(views(old(d)@), x@),
{
    let ghost orig = views(d@);
    let mut p: usize = 0;
    assert(orig.subrange(0, 0) + insert_sorted(orig.subrange(0, orig.len() as int), x@) =~= insert_sorted(orig, x@)) by {
        assert(orig.subrange(0, orig.len() as int) =~= orig);
    }
    while p < d.len()
        invariant
            p <= d@.len(),
            views(d@) == orig,
            orig == views(old(d)@),
            insert_sorted(orig, x@) == orig.subrange(0, p as int) + insert_sorted(
                orig.subrange(p as int, orig.len() as int),
                x@,
            ),
        decreases d@.len() - p,
    {
        let t = Ghost(orig.subrange(p as int, orig.len() as int));
        assert(t@[0] == d@[p as int]@);
        if str_eq(d[p], x) {
            assert(orig.subrange(0, p as int) + t@ =~= orig);
            return;
        }
        if str_lt(x, d[p]) {
            d.insert(p, x);
            assert(views(d@) =~= orig.subrange(0, p as int) + (seq![x@] + t@));
            return;
        }
        assert(t@.drop_first() =~= orig.subrange(p + 1, orig.len() as int));
        assert(orig.subrange(0, p as int) + (seq![t@[0]] + insert_sorted(t@.drop_first(), x@))
            =~= orig.subrange(0, p + 1) + insert_sorted(orig.subrange(p + 1, orig.len() as int), x@));
        p += 1;
    }
    d.push(x);
    assert(orig.subrange(p as int, orig.len() as int) =~= Seq::<Seq<char>>::empty());
    assert(views(d@) =~= orig.subrange(0, p as int) + seq![x@]);
}

fn applies_for(bs: &[StandardBinding], s: Standard) -> (r: String)
    ensures
        r@ == applies_text(bs@, s),
{
    let mut d: Vec<&str> = Vec::new();
    let mut i: usize = 0;
    assert(views(d@) =~= sort_unique(designs_of(bs@.subrange(0, 0), s)));
    while i < bs.len()
        invariant
            i <= bs@.len(),
            views(d@) == sort_unique(designs_of(bs@.subrange(0, i as int), s)),
        decreases bs@.len() - i,
    {
        let ghost prev = designs_of(bs@.subrange(0, i as int), s);
        assert(bs@.subrange(0, i + 1).drop_last() =~= bs@.subrange(0, i as int));
        if bs[i].standard == s {
            insert_design(&mut d, bs[i].design.as_str());
            assert(designs_of(bs@.subrange(0, i + 1), s) =~= prev.push(bs@[i as int].design@));
            assert(prev.push(bs@[i as int].design@).drop_last() =~= prev);
        } else {
            assert(designs_of(bs@.subrange(0, i + 1), s) =~= prev);
        }
        i += 1;
    }
    assert(bs@.subrange(0, bs@.len() as int) =~= bs@);
    let mut out = owned("if your study is a ");
    push_joined(&mut out, &d, ", a ");
    out
}

fn binding_item(b: &StandardBinding, coverage: &str) -> (r: ChecklistItem)
    requires
        coverage@ == coverage_of(b.standard),
    ensures
        r@ == binding_row(*b),
{
    let name = b.standard.as_str();
    let dc = chars_of(b.design.as_str());
    let vowel = dc.len() > 0 && (dc[0] == 'a' || dc[0] == 'e' || dc[0] == 'i' || dc[0] == 'o'
        || dc[0] == 'u');
    let article = if vowel {
        "an"
    } else {
        "a"
    };
    let span_lower = to_lowercase(b.source_span.as_str());
    let mandatory = str_contains(span_lower.as_str(), "must ") || str_contains(
        span_lower.as_str(),
        "are required",
    ) || str_contains(span_lower.as_str(), "is required") || str_contains(
        span_lower.as_str(),
        "shall ",
    );
    let verb = if mandatory {
        "requires"
    } else {
        "recommends"
    };
    let mut requirement = owned(name);
    push_str(&mut requirement, " applies to ");
    push_str(&mut requirement, article);
    push_str(&mut requirement, " ");
    push_str(&mut requirement, b.design.as_str());
    let mut detail = owned("if your study is ");
    push_str(&mut detail, article);
    push_str(&mut detail, " ");
    push_str(&mut detail, b.design.as_str());
    push_str(&mut detail, ", this journal ");
    push_str(&mut detail, verb);
    push_str(&mut detail, " ");
    push_str(&mut detail, name);
    push_str(&mut detail, " reporting. Gaply ");
    match crate::standards::published_item_count(b.standard) {
        Some(_) => {
            push_str(&mut detail, coverage);
            push_str(&mut detail, ".");
        },
        None => {
            push_str(&mut detail, "has no evaluator for this standard yet.");
        },
    }
    let it = ChecklistItem {
        also_from: Vec::new(),
        requirement,
        passed: false,
        detail,
        guideline_source: None,
        source_span: Some(b.source_span.clone()),
        article_type: None,
        checked_field: Some(owned("journal_requirements.reporting_standard (binding)")),
        unevaluable: true,
    };
    assert(it@ =~= binding_row(*b));
    it
}

fn verdict_item(
    ex: &ExtractionResult,
    body: &str,
    s: Standard,
    k: usize,
    v: &crate::report::ItemVerdict,
    applies: &str,
    coverage: &str,
    span: &str,
) -> (r: ChecklistItem)
    requires
        verdict_ok(*v, s, k as int, *ex, body@),
        coverage@ == coverage_of(s),
    ensures
        r@ == verdict_row(*ex, body@, s, k as int, applies@, span@),
{
    let mut requirement = owned(s.as_str());
    push_str(&mut requirement, " item ");
    push_str(&mut requirement, v.item);
    push_str(&mut requirement, " (");
    push_str(&mut requirement, applies);
    push_str(&mut requirement, "; ");
    push_str(&mut requirement, coverage);
    push_str(&mut requirement, "): ");
    push_str(&mut requirement, v.requirement);
    let detail = match &v.evidence_span {
        Some(sp) => {
            if v.status == ItemStatus::Met {
                let mut d = v.detail.clone();
                push_str(&mut d, " — ");
                push_str(&mut d, sp.as_str());
                d
            } else {
                v.detail.clone()
            }
        },
        None => v.detail.clone(),
    };
    let mut checked = String::new();
    push_joined(&mut checked, &v.reads, " / ");
    let it = ChecklistItem {
        also_from: Vec::new(),
        requirement,
        passed: v.status == ItemStatus::Met,
        unevaluable: v.status == ItemStatus::Unevaluable,
        detail,
        guideline_source: None,
        source_span: Some(owned(span)),
        article_type: None,
        checked_field: Some(checked),
    };
    assert(it@ =~= verdict_row(*ex, body@, s, k as int, applies@, span@));
    it
}

fn binding_items(ex: &ExtractionResult, body: &str, bs: &[StandardBinding]) -> (r: Vec<ChecklistItem>)
    ensures
        rows_view(r@) == binding_rows(*ex, body@, bs@, bs@.len() as int),
{
    let mut out: Vec<ChecklistItem> = Vec::new();
    assert(rows_view(out@) =~= Seq::<RowView>::empty());
    let mut i: usize = 0;
    while i < bs.len()
        invariant
            i <= bs@.len(),
            rows_view(out@) == binding_rows(*ex, body@, bs@, i as int),
        decreases bs@.len() - i,
    {
        let b = &bs[i];
        let ghost start = rows_view(out@);
        let mut dup = false;
        let mut same_std = false;
        let mut j: usize = 0;
        while j < i
            invariant
                j <= i,
                i < bs@.len(),
                b == bs@[i as int],
                dup == exists|m: int| 0 <= m < j && #[trigger] bs@[m].standard == b.standard && bs@[m].design@ == b.design@,
                same_std == exists|m: int| 0 <= m < j && #[trigger] bs@[m].standard == b.standard,
            decreases i - j,
        {
            if bs[j].standard == b.standard {
                same_std = true;
                if str_eq(bs[j].design.as_str(), b.design.as_str()) {
                    dup = true;
                }
            }
            j += 1;
        }
        assert(dup == dup_binding(bs@, i as int));
        assert(same_std == standard_before(bs@, i as int));
        if !dup {
            let eval = evaluate(b.standard, ex, body);
            let coverage = eval.coverage_phrase();
            let bi = binding_item(b, coverage.as_str());
            out.push(bi);
            let ghost mid = rows_view(out@);
            assert(mid =~= start.push(binding_row(*b)));
            if !same_std {
                let applies = applies_for(bs, b.standard);
                let ghost irows = item_rows(*ex, body@, bs@, i as int);
                let mut k: usize = 0;
                assert(mid =~= mid + irows.subrange(0, 0));
                while k < eval.verdicts.len()
                    invariant
                        k <= eval.verdicts@.len(),
                        eval.verdicts@.len() == item_count(b.standard),
                        eval.standard == b.standard,
                        forall|m: int| 0 <= m < eval.verdicts@.len() ==> verdict_ok(#[trigger] eval.verdicts@[m], b.standard, m, *ex, body@),
                        coverage@ == coverage_of(b.standard),
                        applies@ == applies_text(bs@, b.standard),
                        i < bs@.len(),
                        b == bs@[i as int],
                        irows == item_rows(*ex, body@, bs@, i as int),
                        rows_view(out@) == mid + irows.subrange(0, k as int),
                    decreases eval.verdicts@.len() - k,
                {
                    let it = verdict_item(
                        ex,
                        body,
                        b.standard,
                        k,
                        &eval.verdicts[k],
                        applies.as_str(),
                        coverage.as_str(),
                        b.source_span.as_str(),
                    );
                    let ghost before = rows_view(out@);
                    out.push(it);
                    proof {
                        assert(rows_view(out@) =~= before.push(it@));
                        assert(irows.subrange(0, k + 1) =~= irows.subrange(0, k as int).push(irows[k as int]));
                    }
                    k += 1;
                }
                assert(irows.subrange(0, irows.len() as int) =~= irows);
            } else {
                assert(mid =~= mid + Seq::<RowView>::empty());
            }
        } else {
            assert(start =~= start + Seq::<RowView>::empty());
        }
        i += 1;
    }
    out
}

// ---------------------------------------------------------------------------
// Standards the journal did not bind
// ---------------------------------------------------------------------------

pub const NAMED_BEFORE: &'static str = "This journal's guidance names ";

pub const NAMED_AFTER: &'static str = " without stating which study designs it                      applies to, so Gaply could not select it. If your study is one it covers,                      apply the checklist yourself — and if the sentence below does name a                      design, we read it wrong and would like to know.";

pub const UNREAD_A: &'static str = "This journal does not state a ";

pub const UNREAD_B: &'static str = " requirement on the ";

pub const UNREAD_C: &'static str = " page(s) we read.                      Gaply can evaluate ";

pub const UNREAD_D: &'static str = ", so this is a fact about the journal's published                      guidance rather than a gap in the check — and it is checkable: if the                      journal requires it somewhere we did not read, please tell us.";

/// Some binding binds standard `s`.
pub open spec fn bound(bs: Seq<StandardBinding>, s: Standard) -> bool {
    exists|j: int| 0 <= j < bs.len() && #[trigger] bs[j].standard == s
}

/// The first reporting-standard requirement at or after `i` naming `s`.
pub open spec fn named_at(reqs: Seq<StoredRequirement>, s: Standard, i: int) -> Option<int>
    decreases reqs.len() - i,
{
    if i < 0 || i >= reqs.len() {
        None
    } else if reqs[i].kind == RequirementKind::ReportingStandard && parse_standard(reqs[i].value@)
        == Some(s) {
        Some(i)
    } else {
        named_at(reqs, s, i + 1)
    }
}

/// The distinct values of `xs`, in order of first appearance.
pub open spec fn distinct(xs: Seq<Seq<char>>) -> Seq<Seq<char>>
    decreases xs.len(),
{
    if xs.len() == 0 {
        Seq::empty()
    } else {
        let d = distinct(xs.drop_last());
        if d.contains(xs.last()) {
            d
        } else {
            d.push(xs.last())
        }
    }
}

/// How many distinct pages the requirements were read from.
pub open spec fn page_count(reqs: Seq<StoredRequirement>) -> nat {
    distinct(reqs.map_values(|r: StoredRequirement| r.source_url@)).len()
}

/// The absence row for an unbound standard `s`: named without a design, or
/// never named though it could have been evaluated.
pub open spec fn unbound_row(reqs: Seq<StoredRequirement>, s: Standard) -> Option<RowView> {
    let name = standard_name(s);
    match named_at(reqs, s, 0) {
        Some(i) => Some(
            row(
                name + ": named by this journal, but no study design stated"@,
                false,
                NAMED_BEFORE@ + name + NAMED_AFTER@,
                Some(reqs[i].source_url@),
                Some(reqs[i].source_span@),
                None,
                Some("journal_requirements.reporting_standard (absence)"@),
                true,
            ),
        ),
        None => if item_count(s) > 0 {
            Some(
                row(
                    name + ": not required by this journal"@,
                    false,
                    UNREAD_A@ + name + UNREAD_B@ + decimal(page_count(reqs)) + UNREAD_C@ + name
                        + UNREAD_D@,
                    None,
                    None,
                    None,
                    Some("journal_requirements.reporting_standard (absence)"@),
                    true,
                ),
            )
        } else {
            None
        },
    }
}

/// The absence rows for the standards from position `k` on.
pub open spec fn unbound_from(reqs: Seq<StoredRequirement>, bs: Seq<StandardBinding>, k: int) -> Seq<
    RowView,
>
    decreases all_standards().len() - k,
{
    if k < 0 || k >= all_standards().len() {
        Seq::empty()
    } else {
        let s = all_standards()[k];
        let here = if bound(bs, s) {
            Seq::empty()
        } else {
            match unbound_row(reqs, s) {
                Some(r) => seq![r],
                None => Seq::empty(),
            }
        };
        here + unbound_from(reqs, bs, k + 1)
    }
}

/// **A standard this journal did not bind is a finding about the journal.**
/// With nothing read, nothing is claimed.
pub open spec fn unbound_rows(reqs: Seq<StoredRequirement>, bs: Seq<StandardBinding>) -> Seq<RowView> {
    if reqs.len() == 0 {
        Seq::empty()
    } else {
        unbound_from(reqs, bs, 0)
    }
}

fn count_pages(reqs: &[StoredRequirement]) -> (r: usize)
    ensures
        r == page_count(reqs@),
{
    let ghost urls = reqs@.map_values(|r: StoredRequirement| r.source_url@);
    let mut seen: Vec<&str> = Vec::new();
    let mut i: usize = 0;
    assert(views(seen@) =~= distinct(urls.subrange(0, 0)));
    while i < reqs.len()
        invariant
            i <= reqs@.len(),
            urls == reqs@.map_values(|r: StoredRequirement| r.source_url@),
            views(seen@) == distinct(urls.subrange(0, i as int)),
            seen@.len() <= i,
        decreases reqs@.len() - i,
    {
        let u = reqs[i].source_url.as_str();
        assert(urls.subrange(0, i + 1).drop_last() =~= urls.subrange(0, i as int));
        assert(urls.subrange(0, i + 1).last() == u@);
        let mut present = false;
        let mut j: usize = 0;
        while j < seen.len()
            invariant
                j <= seen@.len(),
                !present ==> forall|m: int| 0 <= m < j ==> views(seen@)[m] != u@,
                present ==> views(seen@).contains(u@),
            decreases seen@.len() - j,
        {
            if str_eq(seen[j], u) {
                assert(views(seen@)[j as int] == u@);
                present = true;
            }
            j += 1;
        }
        if !present {
            let ghost before = views(seen@);
            seen.push(u);
            assert(views(seen@) =~= before.push(u@));
        }
        i += 1;
    }
    assert(urls.subrange(0, reqs@.len() as int) =~= urls);
    seen.len()
}

fn unbound_standard_findings(reqs: &[StoredRequirement], bs: &[StandardBinding]) -> (r: Vec<ChecklistItem>)
    ensures
        rows_view(r@) == unbound_rows(reqs@, bs@),
{
    let mut out: Vec<ChecklistItem> = Vec::new();
    assert(rows_view(out@) =~= Seq::<RowView>::empty());
    if reqs.len() == 0 {
        return out;
    }
    let pages = count_pages(reqs);
    let all = [
        Standard::Consort,
        Standard::Prisma,
        Standard::Strobe,
        Standard::Arrive,
        Standard::Tripod,
        Standard::Cheers,
        Standard::Spirit,
        Standard::Stard,
    ];
    assert(all@ =~= all_standards());
    let mut k: usize = 0;
    proof {
        assert(unbound_from(reqs@, bs@, 0) == Seq::<RowView>::empty() + unbound_from(reqs@, bs@, 0));
    }
    while k < 8
        invariant
            k <= 8,
            all@ == all_standards(),
            pages == page_count(reqs@),
            rows_view(out@) + unbound_from(reqs@, bs@, k as int) == unbound_from(reqs@, bs@, 0),
        decreases 8 - k,
    {
        let s = all[k];
        let ghost before = rows_view(out@);
        let mut is_bound = false;
        let mut j: usize = 0;
        while j < bs.len()
            invariant
                j <= bs@.len(),
                is_bound == exists|m: int| 0 <= m < j && #[trigger] bs@[m].standard == s,
            decreases bs@.len() - j,
        {
            if bs[j].standard == s {
                is_bound = true;
            }
            j += 1;
        }
        if !is_bound {
            let mut at: usize = 0;
            while at < reqs.len()
                invariant
                    at <= reqs@.len(),
                    named_at(reqs@, s, 0) == named_at(reqs@, s, at as int),
                ensures
                    at <= reqs@.len(),
                    named_at(reqs@, s, 0) == named_at(reqs@, s, at as int),
                    at < reqs@.len() ==> named_at(reqs@, s, at as int) == Some(at as int),
                decreases reqs@.len() - at,
            {
                let named = reqs[at].kind == RequirementKind::ReportingStandard && match Standard::parse(
                    reqs[at].value.as_str(),
                ) {
                    Some(x) => x == s,
                    None => false,
                };
                if named {
                    break;
                }
                at += 1;
            }
            let name = s.as_str();
            if at < reqs.len() {
                let r = &reqs[at];
                let mut requirement = owned(name);
                push_str(&mut requirement, ": named by this journal, but no study design stated");
                let mut detail = owned(NAMED_BEFORE);
                push_str(&mut detail, name);
                push_str(&mut detail, NAMED_AFTER);
                let it = ChecklistItem {
                    also_from: Vec::new(),
                    requirement,
                    passed: false,
                    detail,
                    guideline_source: Some(r.source_url.clone()),
                    source_span: Some(r.source_span.clone()),
                    article_type: None,
                    checked_field: Some(owned("journal_requirements.reporting_standard (absence)")),
                    unevaluable: true,
                };
                assert(unbound_row(reqs@, s) == Some(it@));
                out.push(it);
                assert(rows_view(out@) =~= before + seq![it@]);
            } else if items_for(s).len() > 0 {
                let mut requirement = owned(name);
                push_str(&mut requirement, ": not required by this journal");
                let mut detail = owned(UNREAD_A);
                push_str(&mut detail, name);
                push_str(&mut detail, UNREAD_B);
                push_usize(&mut detail, pages);
                push_str(&mut detail, UNREAD_C);
                push_str(&mut detail, name);
                push_str(&mut detail, UNREAD_D);
                let it = ChecklistItem {
                    also_from: Vec::new(),
                    requirement,
                    passed: false,
                    detail,
                    guideline_source: None,
                    source_span: None,
                    article_type: None,
                    checked_field: Some(owned("journal_requirements.reporting_standard (absence)")),
                    unevaluable: true,
                };
                assert(unbound_row(reqs@, s) == Some(it@));
                out.push(it);
                assert(rows_view(out@) =~= before + seq![it@]);
            } else {
                assert(unbound_row(reqs@, s) is None);
                assert(rows_view(out@) =~= before + Seq::<RowView>::empty());
            }
        } else {
            assert(rows_view(out@) =~= before + Seq::<RowView>::empty());
        }
        proof {
            assert(all_standards()[k as int] == s);
        }
        k += 1;
    }
    assert(rows_view(out@) =~= rows_view(out@) + unbound_from(reqs@, bs@, 8));
    out
}

// ---------------------------------------------------------------------------
// The whole checklist
// ---------------------------------------------------------------------------

/// The checklist from a journal's own requirements: word limit, abstract
/// limit, data availability, required statements (each decided from the
/// body text), then the rows of each reporting-standard binding, then the
/// standards the journal did not bind.
pub open spec fn requirements_spec(
    ex: ExtractionResult,
    text: Seq<char>,
    words: nat,
    reqs: Seq<StoredRequirement>,
    bs: Seq<StandardBinding>,
) -> Seq<RowView> {
    let body = body_text(ex, text);
    word_limit_rows(reqs, words) + abstract_rows(ex, reqs) + data_rows(reqs, body) + statement_rows(
        reqs,
        body,
    ) + binding_rows(ex, body, bs, bs.len() as int) + unbound_rows(reqs, bs)
}

proof fn lemma_rows_view_append(a: Seq<ChecklistItem>, b: Seq<ChecklistItem>)
    ensures
        rows_view(a + b) == rows_view(a) + rows_view(b),
{
    assert(rows_view(a + b) =~= rows_view(a) + rows_view(b));
}

/// **A checklist built from a journal's OWN extracted requirements.**
///
/// A required statement is decided from the manuscript's body text — never
/// from a heading, never from the reference list — and a found row quotes
/// the manuscript's own sentence. A requirement the journal scoped to an
/// article type is undecided, not failed. A binding row reports a binding
/// and judges nothing; each bound standard's items are evaluated once, every
/// item row carrying the coverage fraction and the journal's sentence.
pub fn checklist_from_requirements(
    extraction: &ExtractionResult,
    manuscript_text: &str,
    manuscript_words: usize,
    requirements: &[StoredRequirement],
    bindings: &[StandardBinding],
) -> (r: Vec<ChecklistItem>)
    requires
        abstract_words(extraction.sections@) <= usize::MAX,
    ensures
        rows_view(r@) == requirements_spec(
            *extraction,
            manuscript_text@,
            manuscript_words as nat,
            requirements@,
            bindings@,
        ),
{
    let mut items = word_limit_items(requirements, manuscript_words);
    let mut a = abstract_items(extraction, requirements);
    let ghost s0 = items@;
    let ghost s1 = a@;
    items.append(&mut a);
    proof {
        lemma_rows_view_append(s0, s1);
    }
    let body = text_without_references(extraction, manuscript_text);
    let lower = to_lowercase(body.as_str());
    let mut d = data_items(requirements, body.as_str(), lower.as_str());
    let ghost s0 = items@;
    let ghost s1 = d@;
    items.append(&mut d);
    proof {
        lemma_rows_view_append(s0, s1);
    }
    let mut st = statement_items(requirements, body.as_str(), lower.as_str());
    let ghost s0 = items@;
    let ghost s1 = st@;
    items.append(&mut st);
    proof {
        lemma_rows_view_append(s0, s1);
    }
    let mut b = binding_items(extraction, body.as_str(), bindings);
    let ghost s0 = items@;
    let ghost s1 = b@;
    items.append(&mut b);
    proof {
        lemma_rows_view_append(s0, s1);
    }
    let mut u = unbound_standard_findings(requirements, bindings);
    let ghost s0 = items@;
    let ghost s1 = u@;
    items.append(&mut u);
    proof {
        lemma_rows_view_append(s0, s1);
    }
    items
}

/// A row that depends on knowing the study's design: a reporting-standard
/// binding or absence row.
pub open spec fn design_dependent(v: RowView) -> bool {
    match v.checked_field {
        Some(f) => crate::text::starts_with(f, "journal_requirements.reporting_standard"@),
        None => false,
    }
}

/// The rows that do not depend on knowing the study's design, in order.
pub open spec fn keep_independent(rows: Seq<RowView>) -> Seq<RowView>
    decreases rows.len(),
{
    if rows.len() == 0 {
        Seq::empty()
    } else {
        keep_independent(rows.drop_last()) + if design_dependent(rows.last()) {
            Seq::empty()
        } else {
            seq![rows.last()]
        }
    }
}

/// **The checklist rows that do NOT depend on knowing the study's design**:
/// every row whose checked field names the reporting-standard layer is
/// removed; the rest keep their order.
pub fn design_independent(items: Vec<ChecklistItem>) -> (r: Vec<ChecklistItem>)
    ensures
        rows_view(r@) == keep_independent(rows_view(items@)),
{
    let ghost orig = rows_view(items@);
    let mut items = items;
    let mut out: Vec<ChecklistItem> = Vec::new();
    let ghost mut i: int = 0;
    assert(rows_view(out@) =~= keep_independent(orig.subrange(0, 0)));
    assert(rows_view(items@) =~= orig.subrange(0, orig.len() as int));
    while items.len() > 0
        invariant
            0 <= i <= orig.len(),
            rows_view(items@) == orig.subrange(i, orig.len() as int),
            rows_view(out@) == keep_independent(orig.subrange(0, i)),
        decreases items@.len(),
    {
        let ghost rest = items@;
        let it = items.remove(0);
        proof {
            assert(rows_view(rest)[0] == it@);
            assert(rows_view(rest) == orig.subrange(i, orig.len() as int));
            assert(rows_view(rest).len() == rest.len());
            assert(i < orig.len());
            assert(orig.subrange(i, orig.len() as int)[0] == orig[i]);
            assert(orig[i] == it@);
            assert(orig.subrange(0, i + 1).drop_last() =~= orig.subrange(0, i));
            assert(items@ =~= rest.subrange(1, rest.len() as int));
            assert(rows_view(items@) =~= rows_view(rest).subrange(1, rest.len() as int));
            assert(rows_view(items@) =~= orig.subrange(i + 1, orig.len() as int));
        }
        let dependent = match &it.checked_field {
            Some(f) => {
                let fc = chars_of(f.as_str());
                let p = chars_of("journal_requirements.reporting_standard");
                seq_starts_with(&fc, &p)
            },
            None => false,
        };
        if !dependent {
            let ghost before = rows_view(out@);
            out.push(it);
            assert(rows_view(out@) =~= before.push(orig[i]));
        }
        proof {
            i = i + 1;
        }
    }
    assert(orig.subrange(0, i) =~= orig);
    out
}

/// The rows that carry no guideline source: the always-on structural rows.
pub open spec fn structural_only(rows: Seq<RowView>) -> Seq<RowView>
    decreases rows.len(),
{
    if rows.len() == 0 {
        Seq::empty()
    } else {
        structural_only(rows.drop_last()) + if rows.last().guideline_source is None {
            seq![rows.last()]
        } else {
            Seq::empty()
        }
    }
}

/// The journal-compliance checklist for one guideline document and one
/// journal's stored requirements.
pub open spec fn build_spec(
    ex: ExtractionResult,
    text: Seq<char>,
    hits: Seq<RagHit>,
    reqs: Option<Seq<StoredRequirement>>,
) -> Seq<RowView> {
    let g = guidelines_spec(ex, text, hits);
    match reqs {
        Some(rs) => if rs.len() > 0 {
            structural_only(g) + keep_independent(
                requirements_spec(ex, text, tokens(text).len(), rs, Seq::empty()),
            )
        } else {
            g
        },
        None => g,
    }
}

/// **Build the journal-compliance checklist.** `guidelines` is every chunk
/// of the one guideline document asked for (empty when none was); with no
/// chunks only the structural checks run. When the journal's own extracted
/// requirements are given and not empty they supersede the keyword rows:
/// the structural rows are kept and the requirement rows that do not depend
/// on the study's design follow them.
pub fn build_checklist(
    extraction: &ExtractionResult,
    manuscript_text: &str,
    guidelines: &[RagHit],
    requirements: Option<&[StoredRequirement]>,
) -> (r: Vec<ChecklistItem>)
    requires
        abstract_words(extraction.sections@) <= usize::MAX,
    ensures
        rows_view(r@) == build_spec(
            *extraction,
            manuscript_text@,
            guidelines@,
            match requirements {
                Some(rs) => Some(rs@),
                None => None,
            },
        ),
{
    let items = checklist_from_guidelines(extraction, manuscript_text, guidelines);
    match requirements {
        Some(reqs) => {
            if reqs.len() == 0 {
                return items;
            }
            let cs = chars_of(manuscript_text);
            let words = split_whitespace(&cs).len();
            let no_bindings: Vec<StandardBinding> = Vec::new();
            let from_requirements = design_independent(
                checklist_from_requirements(extraction, manuscript_text, words, reqs, no_bindings.as_slice()),
            );
            assert(no_bindings@ =~= Seq::<StandardBinding>::empty());
            let ghost g = rows_view(items@);
            let mut items = items;
            let mut kept: Vec<ChecklistItem> = Vec::new();
            let ghost mut i: int = 0;
            assert(rows_view(kept@) =~= structural_only(g.subrange(0, 0)));
            assert(rows_view(items@) =~= g.subrange(0, g.len() as int));
            while items.len() > 0
                invariant
                    0 <= i <= g.len(),
                    rows_view(items@) == g.subrange(i, g.len() as int),
                    rows_view(kept@) == structural_only(g.subrange(0, i)),
                decreases items@.len(),
            {
                let ghost rest = items@;
                let it = items.remove(0);
                proof {
                    assert(rows_view(rest)[0] == it@);
                    assert(rows_view(rest) == g.subrange(i, g.len() as int));
                    assert(rows_view(rest).len() == rest.len());
                    assert(i < g.len());
                    assert(g.subrange(i, g.len() as int)[0] == g[i]);
                    assert(g[i] == it@);
                    assert(g.subrange(0, i + 1).drop_last() =~= g.subrange(0, i));
                    assert(items@ =~= rest.subrange(1, rest.len() as int));
                    assert(rows_view(items@) =~= rows_view(rest).subrange(1, rest.len() as int));
                    assert(rows_view(items@) =~= g.subrange(i + 1, g.len() as int));
                }
                if it.guideline_source.is_none() {
                    let ghost before = rows_view(kept@);
                    kept.push(it);
                    assert(rows_view(kept@) =~= before.push(g[i]));
                }
                proof {
                    i = i + 1;
                }
            }
            assert(g.subrange(0, i) =~= g);
            let mut rest = from_requirements;
            let ghost s0 = kept@;
            let ghost s1 = rest@;
            kept.append(&mut rest);
            proof {
                lemma_rows_view_append(s0, s1);
            }
            kept
        },
        None => items,
    }
}

/// The structural part of a checklist carries no row attributed to a
/// guideline document, and drops none that is not.
pub proof fn lemma_structural_only_filters(rows: Seq<RowView>)
    ensures
        forall|i: int| 0 <= i < structural_only(rows).len() ==> (#[trigger] structural_only(rows)[i]).guideline_source is None,
        forall|i: int| 0 <= i < rows.len() && (#[trigger] rows[i]).guideline_source is None ==> structural_only(rows).contains(rows[i]),
    decreases rows.len(),
{
    if rows.len() > 0 {
        lemma_structural_only_filters(rows.drop_last());
        let pre = structural_only(rows.drop_last());
        let out = structural_only(rows);
        assert forall|i: int| 0 <= i < out.len() implies (#[trigger] out[i]).guideline_source is None by {
            if i < pre.len() {
                assert(out[i] == pre[i]);
            }
        }
        assert forall|i: int| 0 <= i < rows.len() && (#[trigger] rows[i]).guideline_source is None implies out.contains(rows[i]) by {
            if i < rows.len() - 1 {
                assert(rows[i] == rows.drop_last()[i]);
                let k = choose|k: int| 0 <= k < pre.len() && pre[k] == rows[i];
                assert(out[k] == pre[k]);
            } else {
                assert(out[out.len() - 1] == rows[i]);
            }
        }
    }
}

/// Once the study's design is unknown, no row that reads the
/// reporting-standard layer survives, and every other row does.
pub proof fn lemma_design_independent_rows(rows: Seq<RowView>)
    ensures
        forall|i: int| 0 <= i < keep_independent(rows).len() ==> !design_dependent(#[trigger] keep_independent(rows)[i]),
        forall|i: int| 0 <= i < rows.len() && !design_dependent(#[trigger] rows[i]) ==> keep_independent(rows).contains(rows[i]),
    decreases rows.len(),
{
    if rows.len() > 0 {
        lemma_design_independent_rows(rows.drop_last());
        let pre = keep_independent(rows.drop_last());
        let out = keep_independent(rows);
        assert forall|i: int| 0 <= i < out.len() implies !design_dependent(#[trigger] out[i]) by {
            if i < pre.len() {
                assert(out[i] == pre[i]);
            }
        }
        assert forall|i: int| 0 <= i < rows.len() && !design_dependent(#[trigger] rows[i]) implies out.contains(rows[i]) by {
            if i < rows.len() - 1 {
                assert(rows[i] == rows.drop_last()[i]);
                let k = choose|k: int| 0 <= k < pre.len() && pre[k] == rows[i];
                assert(out[k] == pre[k]);
            } else {
                assert(out[out.len() - 1] == rows[i]);
            }
        }
    }
}


// ---------------------------------------------------------------------------
// What the unbound-standard rows keep
// ---------------------------------------------------------------------------

/// Every row is one standard's absence row, for a standard the journal did
/// not bind, and passes no verdict.
pub open spec fn absence_rows_ok(reqs: Seq<StoredRequirement>, bs: Seq<StandardBinding>, rows: Seq<RowView>) -> bool {
    forall|j: int|
        0 <= j < rows.len() ==> {
            &&& !(#[trigger] rows[j]).passed
            &&& rows[j].unevaluable
            &&& exists|k: int|
                0 <= k < all_standards().len() && !bound(bs, all_standards()[k]) && unbound_row(reqs, all_standards()[k])
                    == Some(rows[j])
        }
}

proof fn lemma_unbound_from(reqs: Seq<StoredRequirement>, bs: Seq<StandardBinding>, k: int)
    requires
        0 <= k,
    ensures
        absence_rows_ok(reqs, bs, unbound_from(reqs, bs, k)),
    decreases all_standards().len() - k,
{
    if k < all_standards().len() {
        lemma_unbound_from(reqs, bs, k + 1);
        let s = all_standards()[k];
        let here = if bound(bs, s) {
            Seq::empty()
        } else {
            match unbound_row(reqs, s) {
                Some(r) => seq![r],
                None => Seq::empty(),
            }
        };
        let rest = unbound_from(reqs, bs, k + 1);
        let all = unbound_from(reqs, bs, k);
        assert(all == here + rest);
        assert forall|j: int| 0 <= j < all.len() implies {
            &&& !(#[trigger] all[j]).passed
            &&& all[j].unevaluable
            &&& exists|k2: int|
                0 <= k2 < all_standards().len() && !bound(bs, all_standards()[k2]) && unbound_row(reqs, all_standards()[k2])
                    == Some(all[j])
        } by {
            if j < here.len() {
                assert(all[j] == here[j]);
                assert(unbound_row(reqs, all_standards()[k]) == Some(all[j]));
            } else {
                assert(all[j] == rest[j - here.len()]);
            }
        }
    } else {
        assert(unbound_from(reqs, bs, k) =~= Seq::<RowView>::empty());
    }
}

/// The rows about standards the journal did not bind: none when nothing was
/// read; otherwise each is the absence row of one unbound standard (named
/// without a design, with the journal's sentence, or never named though it
/// could be evaluated, counting the pages read), and none passes a verdict.
pub proof fn lemma_unbound_rows(reqs: Seq<StoredRequirement>, bs: Seq<StandardBinding>)
    ensures
        reqs.len() == 0 ==> unbound_rows(reqs, bs).len() == 0,
        absence_rows_ok(reqs, bs, unbound_rows(reqs, bs)),
{
    if reqs.len() > 0 {
        lemma_unbound_from(reqs, bs, 0);
    }
}


// ---------------------------------------------------------------------------
// What the binding rows keep
// ---------------------------------------------------------------------------

/// The rows one binding raises: nothing for a repeated (standard, design)
/// pair; otherwise one undecided row saying the standard applies to that
/// design, followed — only for the first binding of its standard — by one
/// row per carried item, each carrying the conditional that names every
/// design the standard is bound to (sorted, each once), the binding's
/// sentence, and never both a pass and an undecided mark.
pub proof fn lemma_binding_rows(ex: ExtractionResult, body: Seq<char>, bs: Seq<StandardBinding>, i: int)
    requires
        0 <= i < bs.len(),
    ensures
        ({
            let rows = rows_of_binding(ex, body, bs, i);
            let s = bs[i].standard;
            &&& dup_binding(bs, i) ==> rows.len() == 0
            &&& !dup_binding(bs, i) ==> rows[0] == binding_row(bs[i]) && !rows[0].passed && rows[0].unevaluable
            &&& !dup_binding(bs, i) && standard_before(bs, i) ==> rows.len() == 1
            &&& !dup_binding(bs, i) && !standard_before(bs, i) ==> {
                &&& rows.len() == 1 + item_count(s)
                &&& forall|k: int|
                    0 <= k < item_count(s) ==> {
                        &&& #[trigger] rows[1 + k] == verdict_row(ex, body, s, k, applies_text(bs, s), bs[i].source_span@)
                        &&& !(rows[1 + k].passed && rows[1 + k].unevaluable)
                        &&& rows[1 + k].source_span == Some(bs[i].source_span@)
                    }
            }
        }),
{
    let rows = rows_of_binding(ex, body, bs, i);
    let s = bs[i].standard;
    if !dup_binding(bs, i) && !standard_before(bs, i) {
        let items = item_rows(ex, body, bs, i);
        assert forall|k: int| 0 <= k < item_count(s) implies {
            &&& #[trigger] rows[1 + k] == verdict_row(ex, body, s, k, applies_text(bs, s), bs[i].source_span@)
            &&& !(rows[1 + k].passed && rows[1 + k].unevaluable)
            &&& rows[1 + k].source_span == Some(bs[i].source_span@)
        } by {
            assert(rows[1 + k] == items[k]);
        }
    }
}


// ---------------------------------------------------------------------------
// The word-limit verdict
// ---------------------------------------------------------------------------

/// **A manuscript within the journal's one word limit passes it, and one
/// over it fails.** When the requirements state exactly one word limit, for
/// every article type, and its value reads as the number `limit`, the
/// checklist opens with the row "word limit: {limit}", decided (not left
/// undecided), and passed exactly when the manuscript's word count is at
/// most the limit. Scoped to an article type instead, the same row is left
/// undecided and never passed.
pub proof fn lemma_single_word_limit_verdict(
    ex: ExtractionResult,
    text: Seq<char>,
    words: nat,
    reqs: Seq<StoredRequirement>,
    bs: Seq<StandardBinding>,
    limit: nat,
)
    requires
        of_kind(reqs, RequirementKind::WordLimit).len() == 1,
        parse_usize_spec(of_kind(reqs, RequirementKind::WordLimit)[0].value@) == Some(limit),
    ensures
        requirements_spec(ex, text, words, reqs, bs).len() >= 1,
        requirements_spec(ex, text, words, reqs, bs)[0].requirement == "word limit: "@ + decimal(limit),
        of_kind(reqs, RequirementKind::WordLimit)[0].article_type is None ==> {
            &&& requirements_spec(ex, text, words, reqs, bs)[0].passed == (words <= limit)
            &&& !requirements_spec(ex, text, words, reqs, bs)[0].unevaluable
        },
        of_kind(reqs, RequirementKind::WordLimit)[0].article_type is Some ==> {
            &&& !requirements_spec(ex, text, words, reqs, bs)[0].passed
            &&& requirements_spec(ex, text, words, reqs, bs)[0].unevaluable
        },
{
    let w = word_limit_rows(reqs, words);
    let all = requirements_spec(ex, text, words, reqs, bs);
    assert(w.len() == 1);
    assert(all[0] == w[0]);
}

} // verus!
