use gaply_core::checklist::{checklist_from_guidelines, undecidable_for_article_type, RagHit};
use gaply_core::compliance::{checklist_from_requirements, design_independent};
use gaply_core::extract::{
    paragraph_at, ExtractionResult, Location, Reference, Section, SectionKind, Stat, StatClaim,
};
use gaply_core::journal::{RequirementKind, StoredRequirement};
use gaply_core::statement::statement_in_text;
use gaply_core::report::{disclaimer_for, evaluate, extract_word_limit, ChecklistItem, ItemStatus};
use gaply_core::standards::{items_for, Standard, StandardBinding};

fn sec(kind: SectionKind, heading: &str, paras: &[&str]) -> Section {
    Section {
        kind,
        heading: heading.to_string(),
        paragraphs: paras.iter().map(|p| p.to_string()).collect(),
    }
}

fn extraction(title: Option<&str>, sections: Vec<Section>) -> ExtractionResult {
    ExtractionResult {
        title: title.map(str::to_string),
        sections,
        statistics: vec![],
        tables: vec![],
        citations: vec![],
        references: vec![],
        scientific: None,
    }
}

fn stat(stat: Stat, raw: &str, section: SectionKind, section_index: usize, paragraph: usize) -> StatClaim {
    StatClaim {
        stat,
        raw: raw.to_string(),
        location: Location { section, paragraph, section_index: Some(section_index) },
    }
}

fn guideline_hit(content: &str) -> RagHit {
    RagHit {
        chunk_id: 1,
        document_id: 1,
        seq: 0,
        content: content.into(),
        source_type: "journal_guideline".into(),
        title: "Journal of Rest — Author Guidelines".into(),
        source_url: "https://rest.example/authors".into(),
        fetched_at: 1_000,
        checksum: "d".repeat(64),
    }
}

fn stmt_req(value: &str) -> StoredRequirement {
    StoredRequirement {
        kind: RequirementKind::SectionRequired,
        value: value.into(),
        article_type: None,
        status: "VERIFIED".into(),
        source_url: "https://example.test/authors".into(),
        source_heading: "Required statements".into(),
        source_span: "Manuscripts must include this statement.".into(),
        conflict_id: None,
    }
}

fn stmt_req_for(value: &str, article_type: &str) -> StoredRequirement {
    StoredRequirement { article_type: Some(article_type.into()), ..stmt_req(value) }
}

/// "Title\n\nAbstract\nShort.\n\nMethods\nWe did work.\n", as sectioned.
fn short_paper() -> ExtractionResult {
    extraction(
        Some("Title"),
        vec![
            sec(SectionKind::Abstract, "Abstract", &["Short."]),
            sec(SectionKind::Methods, "Methods", &["We did work."]),
        ],
    )
}

#[test]
fn checklist_flags_violations_against_journal_guideline() {
    // Over the word limit, no COI statement, author-year (not numbered) refs.
    let text = "A Paper\n\nAbstract\nShort.\n\nMethods\nWe did things.\n\nResults\nGood.\n\n\
                References\nDoe, J. (2020). Title. Journal, 1(1), 1-2.\n";
    let mut ex = extraction(
        Some("A Paper"),
        vec![
            sec(SectionKind::Abstract, "Abstract", &["Short."]),
            sec(SectionKind::Methods, "Methods", &["We did things."]),
            sec(SectionKind::Results, "Results", &["Good."]),
            sec(SectionKind::References, "References", &["Doe, J. (2020). Title. Journal, 1(1), 1-2."]),
        ],
    );
    ex.references = vec![Reference {
        raw: "Doe, J. (2020). Title. Journal, 1(1), 1-2.".into(),
        authors: "Doe, J.".into(),
        year: Some(2020),
        title: Some("Title".into()),
        doi: None,
    }];
    let guideline = guideline_hit(
        "References follow the numbered Vancouver citation style. Authors must declare all \
         conflicts of interest. Manuscripts have a limit of 10 words.",
    );
    let items = checklist_from_guidelines(&ex, text, &[guideline]);

    let by_req = |needle: &str| {
        items.iter().find(|c| c.requirement.contains(needle)).unwrap_or_else(|| {
            panic!(
                "missing checklist item: {needle} — have {:?}",
                items.iter().map(|c| &c.requirement).collect::<Vec<_>>()
            )
        })
    };
    assert!(
        !items.iter().any(|c| c.requirement.contains("word limit")),
        "word-limit detector must stay disabled: {:?}",
        items.iter().map(|c| &c.requirement).collect::<Vec<_>>()
    );
    assert!(!by_req("conflict-of-interest").passed, "no COI statement in fixture");
    assert!(!by_req("Vancouver").passed, "author-year refs are not numbered");
    assert!(by_req("required section: Methods").passed);
    for item in items.iter().filter(|i| i.guideline_source.is_some()) {
        assert_eq!(item.guideline_source.as_deref(), Some("https://rest.example/authors"));
    }
}

#[test]
fn checklist_without_guidelines_shows_structural_checks_only_no_fake_failure() {
    let ex = extraction(Some("T"), vec![sec(SectionKind::Abstract, "Abstract", &["x."])]);
    let items = checklist_from_guidelines(&ex, "T Abstract x.", &[]);
    assert!(
        !items.iter().any(|i| i.requirement.contains("guidelines available")),
        "empty store must NOT emit a fake guidelines-availability item, got {:?}",
        items.iter().map(|c| &c.requirement).collect::<Vec<_>>()
    );
    assert!(!items.is_empty(), "structural checks still run with no guidelines");
    assert!(
        items.iter().all(|i| i.guideline_source.is_none()),
        "with no guidelines every item must be a structural check"
    );
    assert!(
        items.iter().any(|i| i.requirement.contains("required section: Abstract")),
        "the structural section checks are present"
    );
}

#[test]
fn a_plural_conflicts_declaration_is_found_and_quoted() {
    const DECLARED: &str = "Methods\n\nWe surveyed 222 firms.\n\nConflicts of Interest: \
        The authors declare no conflicts of interest.\n";
    let ex = extraction(
        None,
        vec![sec(
            SectionKind::Methods,
            "Methods",
            &[
                "We surveyed 222 firms.",
                "Conflicts of Interest: The authors declare no conflicts of interest.",
            ],
        )],
    );
    let g = guideline_hit("Competing interests must be declared by all authors.");
    let items = checklist_from_guidelines(&ex, DECLARED, &[g]);
    let coi = items
        .iter()
        .find(|i| i.requirement == "conflict-of-interest declaration")
        .expect("the requirement sentence must raise the item");
    assert!(coi.passed, "the declaration IS in the manuscript: {:?}", coi.detail);
    assert!(
        coi.detail.contains("declare no conflicts of interest"),
        "a 'found' row must quote the sentence, or it cannot be checked: {:?}",
        coi.detail
    );

    const ABSENT: &str = "Methods\n\nWe surveyed 222 firms.\n\nResults\n\nProvision rose.\n";
    let ex2 = extraction(
        None,
        vec![
            sec(SectionKind::Methods, "Methods", &["We surveyed 222 firms."]),
            sec(SectionKind::Results, "Results", &["Provision rose."]),
        ],
    );
    let g2 = guideline_hit("Competing interests must be declared by all authors.");
    let missing = checklist_from_guidelines(&ex2, ABSENT, &[g2]);
    let coi2 = missing
        .iter()
        .find(|i| i.requirement == "conflict-of-interest declaration")
        .expect("item still raised");
    assert!(!coi2.passed, "a manuscript with no declaration must FAIL");
}

#[test]
fn a_structured_abstract_item_is_undecided_not_passed() {
    const WITH: &str = "Abstract\n\nWe surveyed firms and provision rose.\n\nMethods\n\nA survey.\n";
    let ex = extraction(
        None,
        vec![
            sec(SectionKind::Abstract, "Abstract", &["We surveyed firms and provision rose."]),
            sec(SectionKind::Methods, "Methods", &["A survey."]),
        ],
    );
    let g = guideline_hit("Authors must supply structured abstracts.");
    let items = checklist_from_guidelines(&ex, WITH, &[g]);
    let it = items.iter().find(|i| i.requirement == "structured abstract").expect("raised");
    assert!(it.unevaluable, "presence is not structure: {:?}", it.detail);
    assert!(!it.passed, "an undecided item must not read as a pass: {it:?}");

    const WITHOUT: &str = "Methods\n\nA survey.\n\nResults\n\nProvision rose.\n";
    let ex2 = extraction(
        None,
        vec![
            sec(SectionKind::Methods, "Methods", &["A survey."]),
            sec(SectionKind::Results, "Results", &["Provision rose."]),
        ],
    );
    let g2 = guideline_hit("Authors must supply structured abstracts.");
    let items2 = checklist_from_guidelines(&ex2, WITHOUT, &[g2]);
    let it2 = items2.iter().find(|i| i.requirement == "structured abstract").expect("raised");
    assert!(!it2.unevaluable && !it2.passed, "a missing abstract is a decided FAIL: {it2:?}");
}

#[test]
fn a_contents_entry_is_not_a_funding_statement() {
    const M: &str = "Contents\n\n7  Funding and Financial Constraints\t45\n\n        Methods\n\nWe surveyed 222 firms.\n\n        Funding: Ministry of Health, Oman (Grant MOH/CSR/24/29387).\n";
    let ex = extraction(
        None,
        vec![
            sec(SectionKind::Other, "Contents", &["7  Funding and Financial Constraints\t45"]),
            sec(
                SectionKind::Methods,
                "Methods",
                &["We surveyed 222 firms.", "Funding: Ministry of Health, Oman (Grant MOH/CSR/24/29387)."],
            ),
        ],
    );
    let reqs = [stmt_req("funding statement")];
    let items = checklist_from_requirements(&ex, M, 40, &reqs, &[]);
    let f = items.iter().find(|i| i.requirement.contains("funding")).expect("the requirement raises the item");
    assert!(f.passed, "the manuscript HAS a funding statement: {:?}", f.detail);
    assert!(
        f.detail.contains("Ministry of Health"),
        "it must quote the declaration, not the contents entry: {:?}",
        f.detail
    );
    assert!(
        !f.detail.contains("Financial Constraints"),
        "the contents entry must not be quoted as the statement: {:?}",
        f.detail
    );

    const PROSE: &str = "Methods\n\nWe surveyed firms.\n\n        Under ODOP, each of the districts was designated a unique traditional product \
        for promotion, branding, marketing and funding support.\n";
    let ex2 = extraction(
        None,
        vec![sec(
            SectionKind::Methods,
            "Methods",
            &[
                "We surveyed firms.",
                "Under ODOP, each of the districts was designated a unique traditional product for promotion, branding, marketing and funding support.",
            ],
        )],
    );
    let items2 = checklist_from_requirements(&ex2, PROSE, 40, &reqs, &[]);
    let f2 = items2.iter().find(|i| i.requirement.contains("funding")).expect("raised");
    assert!(!f2.passed, "a sentence merely mentioning funding is not a funding statement: {:?}", f2.detail);
}

#[test]
fn a_reference_title_is_not_an_ethics_statement() {
    const M: &str = "Methods\n\nWe surveyed 222 firms.\n\n        References\n\nThe ethics of ChatGPT: Exploring the ethical issues of an         emerging technology.\n";
    let ex = extraction(
        None,
        vec![
            sec(SectionKind::Methods, "Methods", &["We surveyed 222 firms."]),
            sec(
                SectionKind::References,
                "References",
                &["The ethics of ChatGPT: Exploring the ethical issues of an         emerging technology."],
            ),
        ],
    );
    let reqs = [stmt_req("ethics statement")];
    let items = checklist_from_requirements(&ex, M, 40, &reqs, &[]);
    let e = items.iter().find(|i| i.requirement.contains("ethics")).expect("the requirement raises the item");
    assert!(!e.passed, "a citation is not the author's declaration: {:?}", e.detail);

    const BODY: &str = "Methods\n\nWe surveyed 222 firms.\n\n        Ethical Approval: Ministry of Health, Oman.\n";
    let ex2 = extraction(
        None,
        vec![sec(
            SectionKind::Methods,
            "Methods",
            &["We surveyed 222 firms.", "Ethical Approval: Ministry of Health, Oman."],
        )],
    );
    let items2 = checklist_from_requirements(&ex2, BODY, 40, &reqs, &[]);
    let e2 = items2.iter().find(|i| i.requirement.contains("ethics")).expect("raised");
    assert!(e2.passed, "a real declaration must still be found: {:?}", e2.detail);
}

#[test]
fn a_standard_binding_row_is_undecided_not_passed() {
    let ex = extraction(None, vec![sec(SectionKind::Methods, "Methods", &["We surveyed 222 firms."])]);
    let b = StandardBinding {
        standard: Standard::Cheers,
        design: "economic evaluation".into(),
        source_span: "Economic evaluations must follow CHEERS.".into(),
    };
    let items = checklist_from_requirements(&ex, "Methods\n\nWe surveyed 222 firms.\n", 40, &[], &[b]);
    let row = items.iter().find(|i| i.requirement.contains("applies to")).expect("the binding raises a row");
    assert!(!row.passed, "it judged nothing: {:?}", row.detail);
    assert!(row.unevaluable, "and undecided is the state the type carries");

    let kept = design_independent(items);
    assert!(
        !kept.iter().any(|i| i.requirement.contains("applies to")),
        "design-dependent rows must not reach the design-independent checklist"
    );
}

#[test]
fn an_unresolvable_location_resolves_to_a_typed_absence() {
    // "Located Findings\n\nMethods\nThe gamma marker ...\n\nResults\nThe ALPHAMARKER ...\n\nThe BETAMARKER ...\n"
    let ex = extraction(
        Some("Located Findings"),
        vec![
            sec(SectionKind::Methods, "Methods", &["The gamma marker was measured (p = 0.04)."]),
            sec(
                SectionKind::Results,
                "Results",
                &["The ALPHAMARKER improved recall (p = 0.01).", "The BETAMARKER reduced errors (p = 0.02)."],
            ),
        ],
    );
    assert_eq!(
        paragraph_at(&ex, &Location { section: SectionKind::Results, paragraph: 99, section_index: None }),
        None,
        "a paragraph index past the end must not resolve"
    );
    assert_eq!(
        paragraph_at(&ex, &Location { section: SectionKind::Discussion, paragraph: 0, section_index: None }),
        None,
        "a section the document does not have must not resolve"
    );
}

#[test]
fn a_recommended_standard_is_not_reported_as_required() {
    let bindings = vec![
        StandardBinding {
            standard: Standard::Strobe,
            design: "observational study".into(),
            source_span: "Observational studies (cohort, case-control or cross-sectional \
                          designs) must be reported according to the STROBE statement."
                .into(),
        },
        StandardBinding {
            standard: Standard::Arrive,
            design: "animal study".into(),
            source_span: "We recommend following the ARRIVE 2.0 reporting guidelines when \
                          documenting animal studies"
                .into(),
        },
    ];
    let ex = ExtractionResult::default();
    let items = checklist_from_requirements(&ex, "", 1000, &[], &bindings);
    let strobe = items.iter().find(|i| i.requirement.starts_with("STROBE")).unwrap();
    assert!(strobe.detail.contains("requires STROBE"), "{}", strobe.detail);
    let arrive = items.iter().find(|i| i.requirement.starts_with("ARRIVE")).unwrap();
    assert!(arrive.detail.contains("recommends ARRIVE"), "a recommendation was reported as a requirement: {}", arrive.detail);
    assert!(arrive.requirement.contains("an animal study"), "{}", arrive.requirement);
    assert!(strobe.requirement.contains("an observational study"), "{}", strobe.requirement);
}

/// "Abstract\n\nMethods: Cross-sectional employer survey (n = 222). ...\n\nResults\n\nProvision was 36.5% (95% CI: 30.2-43.1%).\n"
fn strobe_paper() -> ExtractionResult {
    let mut ex = extraction(
        None,
        vec![
            sec(
                SectionKind::Abstract,
                "Abstract",
                &["Methods: Cross-sectional employer survey (n = 222). Multivariable logistic regression was used."],
            ),
            sec(SectionKind::Results, "Results", &["Provision was 36.5% (95% CI: 30.2-43.1%)."]),
        ],
    );
    ex.statistics = vec![
        stat(Stat::SampleSize { text: "n = 222".into() }, "n = 222", SectionKind::Abstract, 0, 0),
        stat(
            Stat::ConfidenceInterval { text: "95% CI: 30.2-43.1%".into() },
            "95% CI: 30.2-43.1%",
            SectionKind::Results,
            1,
            0,
        ),
    ];
    ex
}

#[test]
fn every_standard_item_row_states_the_fraction_of_the_standard_checked() {
    let bindings = vec![StandardBinding {
        standard: Standard::Strobe,
        design: "cross-sectional study".into(),
        source_span: "Observational studies (cohort, case-control or cross-sectional designs) \
                      must be reported according to the STROBE statement."
            .into(),
    }];
    let ex = strobe_paper();
    let items = checklist_from_requirements(&ex, "", 1000, &[], &bindings);
    let rows: Vec<&ChecklistItem> = items.iter().filter(|i| i.requirement.contains("STROBE item")).collect();
    assert_eq!(rows.len(), 5, "one row per item, not one row per standard");
    for r in &rows {
        assert!(
            r.requirement.contains("checks 2 of STROBE's 22 numbered items"),
            "the fraction must be in the ROW, not only in a header: {}",
            r.requirement
        );
        assert!(
            r.source_span.as_deref().is_some_and(|s| s.contains("must be reported")),
            "every item must carry the binding sentence: {:?}",
            r.source_span
        );
    }
    let passed: Vec<&str> = rows.iter().filter(|r| r.passed).map(|r| r.requirement.as_str()).collect();
    assert_eq!(passed.len(), 2, "only the two decidable items may pass: {passed:?}");
    for r in rows.iter().filter(|r| r.detail.contains("not checked")) {
        assert!(!r.passed, "an unevaluable item rendered as passed: {}", r.requirement);
    }
    let met = rows.iter().find(|r| r.passed && r.requirement.contains("16a")).unwrap();
    assert!(met.detail.contains("95% CI"), "a met row must show its evidence: {}", met.detail);
}

const REAL: &str = "Abstract\n\nMethods: Cross-sectional employer survey (n = 222) \
    conducted prior to full Dhamani enforcement, using stratified purposive sampling by \
    firm size and sector. Multivariable logistic regression and bootstrapped mediation \
    analysis were used.\n\nResults\n\nFormal provision was 36.5% overall (95% CI: \
    30.2-43.1%), ranging from 10.8% among micro-enterprises to 81.0% among large firms.\n";

fn real_paper() -> ExtractionResult {
    let mut ex = extraction(
        None,
        vec![
            sec(
                SectionKind::Abstract,
                "Abstract",
                &["Methods: Cross-sectional employer survey (n = 222) conducted prior to full Dhamani enforcement, using stratified purposive sampling by firm size and sector. Multivariable logistic regression and bootstrapped mediation analysis were used."],
            ),
            sec(
                SectionKind::Results,
                "Results",
                &["Formal provision was 36.5% overall (95% CI: 30.2-43.1%), ranging from 10.8% among micro-enterprises to 81.0% among large firms."],
            ),
        ],
    );
    ex.statistics = vec![
        stat(Stat::SampleSize { text: "n = 222".into() }, "n = 222", SectionKind::Abstract, 0, 0),
        stat(
            Stat::ConfidenceInterval { text: "95% CI: 30.2-43.1%".into() },
            "95% CI: 30.2-43.1%",
            SectionKind::Results,
            1,
            0,
        ),
    ];
    ex
}

#[test]
fn the_coverage_phrase_counts_what_can_be_decided_not_what_is_listed() {
    let e = evaluate(Standard::Strobe, &real_paper(), REAL);
    assert_eq!(e.items_implemented, 5, "five items are listed");
    assert_eq!(e.items_evaluable, 2, "two can actually be decided");
    assert_eq!(e.published_items.unwrap().numbered, 22);
    let phrase = e.coverage_phrase();
    assert_eq!(
        phrase,
        "checks 2 of STROBE's 22 numbered items — Gaply's items include sub-items, so the true fraction is smaller"
    );
    assert!(!phrase.contains("of STROBE's 5"), "the listed count must not become the numerator: {phrase}");
}

#[test]
fn the_evaluable_fraction_is_small_and_stated_per_standard() {
    let expected = [
        (Standard::Consort, 4, 25),
        (Standard::Prisma, 2, 27),
        (Standard::Strobe, 2, 22),
        (Standard::Arrive, 2, 21),
        (Standard::Tripod, 1, 22),
    ];
    for (s, evaluable, published) in expected {
        let e = evaluate(s, &real_paper(), REAL);
        assert_eq!(e.items_evaluable, evaluable, "{s:?} evaluable");
        assert_eq!(e.published_items.unwrap().numbered, published, "{s:?} numbered");
    }
}

#[test]
fn an_item_reading_only_the_declined_layer_is_unevaluable_not_missing() {
    let e = evaluate(Standard::Strobe, &real_paper(), REAL);
    let v = e.verdicts.iter().find(|v| v.item == "4").expect("STROBE 4");
    assert_eq!(v.status, ItemStatus::Unevaluable);
    assert_ne!(v.status, ItemStatus::NotFound, "absence of a check is not absence of evidence");
    assert!(v.detail.contains("D165"), "the reason must name the record: {}", v.detail);
    assert!(v.evidence_span.is_none(), "nothing to quote, so nothing is quoted");
}

#[test]
fn a_met_item_carries_its_manuscript_span() {
    let e = evaluate(Standard::Strobe, &real_paper(), REAL);
    let v = e.verdicts.iter().find(|v| v.item == "16a").expect("STROBE 16a");
    assert_eq!(v.status, ItemStatus::Met, "a 95% CI is reported: {}", v.detail);
    let span = v.evidence_span.as_ref().expect("a met item must quote its evidence");
    assert!(span.contains("95% CI"), "the span must contain the evidence: {span}");
    assert!(span.len() > 60, "the span is the paragraph, not a fragment — a truncated span is not a span: {span}");
}

#[test]
fn the_same_item_is_not_found_when_the_evidence_is_absent() {
    let bare = "Abstract\n\nWe surveyed firms.\n\nResults\n\nProvision was common.\n";
    let ex = extraction(
        None,
        vec![
            sec(SectionKind::Abstract, "Abstract", &["We surveyed firms."]),
            sec(SectionKind::Results, "Results", &["Provision was common."]),
        ],
    );
    let e = evaluate(Standard::Strobe, &ex, bare);
    let v = e.verdicts.iter().find(|v| v.item == "16a").unwrap();
    assert_eq!(v.status, ItemStatus::NotFound);
    assert!(v.evidence_span.is_none(), "nothing found, so nothing quoted");
    assert_eq!(e.met(), 0, "and nothing is met on a manuscript carrying no statistics");
}

#[test]
fn no_implemented_check_sources_evidence_from_the_declined_layer() {
    for s in [Standard::Consort, Standard::Prisma, Standard::Strobe, Standard::Arrive, Standard::Tripod] {
        for it in items_for(s) {
            if it.check.is_evaluable() {
                assert!(
                    it.reads.iter().any(|f| !f.starts_with("science.")),
                    "{s:?} item {} has a check but reads only {:?} — it would decide from the declined layer",
                    it.item,
                    it.reads
                );
            }
        }
    }
}

fn unbound_req(value: &str, span: &str) -> StoredRequirement {
    StoredRequirement {
        kind: RequirementKind::ReportingStandard,
        value: value.into(),
        article_type: None,
        status: "VERIFIED".into(),
        source_url: "https://www.nature.com/nm/editorial-policies/clinicalresearch".into(),
        source_heading: "Reporting guidelines".into(),
        source_span: span.into(),
        conflict_id: None,
    }
}

const STARD_SPAN: &str = "Studies reporting biomarkers in association with clinical \
                          outcomes must follow the STARD guidelines or relevant STARD \
                          extensions.";
const STROBE_SPAN: &str = "Observational studies (cohort, case-control or cross-sectional \
                           designs) must be reported according to the STROBE statement.";

fn run_unbound(reqs: &[StoredRequirement], bindings: &[StandardBinding]) -> Vec<ChecklistItem> {
    let ex = extraction(None, vec![sec(SectionKind::Abstract, "Abstract", &["A paper."])]);
    checklist_from_requirements(&ex, "", 1000, reqs, bindings)
}

#[test]
fn a_standard_named_without_a_design_is_reported_with_its_sentence() {
    let items = run_unbound(&[unbound_req("STARD", STARD_SPAN)], &[]);
    let row = items.iter().find(|i| i.requirement.starts_with("STARD:")).expect("STARD must be reported");
    assert!(row.requirement.contains("no study design stated"), "{}", row.requirement);
    assert_eq!(row.source_span.as_deref(), Some(STARD_SPAN), "the journal's own sentence must travel with the finding");
    assert!(row.detail.contains("we read it wrong"), "the finding must invite correction");
    assert!(!row.passed, "a row that judged nothing must not render as a pass");
    assert!(row.unevaluable, "it is undecided, which is a state the type carries");
}

#[test]
fn a_standard_never_named_is_reported_as_not_required_with_the_page_count() {
    let items = run_unbound(&[unbound_req("STROBE", STROBE_SPAN)], &[]);
    let row = items
        .iter()
        .find(|i| i.requirement.starts_with("CONSORT:"))
        .expect("CONSORT must be reported as not required");
    assert!(row.requirement.contains("not required by this journal"), "{}", row.requirement);
    assert!(row.detail.contains("1 page(s) we read"), "{}", row.detail);
    assert!(row.source_span.is_none(), "there is no sentence to quote for an absence");
}

#[test]
fn a_bound_standard_produces_no_absence_finding() {
    let bindings = vec![StandardBinding {
        standard: Standard::Strobe,
        design: "cross-sectional study".into(),
        source_span: STROBE_SPAN.into(),
    }];
    let items = run_unbound(&[unbound_req("STROBE", STROBE_SPAN)], &bindings);
    assert!(
        !items.iter().any(|i| i.requirement.starts_with("STROBE:")),
        "STROBE is bound; an absence finding for it would be false"
    );
    assert!(items.iter().any(|i| i.requirement.starts_with("CONSORT:")));
}

#[test]
fn a_standard_with_no_evaluator_and_no_mention_is_not_reported() {
    let items = run_unbound(&[unbound_req("STROBE", STROBE_SPAN)], &[]);
    assert!(!items.iter().any(|i| i.requirement.starts_with("CHEERS")), "CHEERS has no evaluator");
    assert!(!items.iter().any(|i| i.requirement.starts_with("SPIRIT")), "SPIRIT has no evaluator");
}

#[test]
fn nothing_is_claimed_when_no_page_was_read() {
    let items = run_unbound(&[], &[]);
    assert!(
        !items.iter().any(|i| i.requirement.contains("not required by this journal")),
        "an empty crawl must assert nothing about the journal"
    );
}

#[test]
fn standard_item_rows_are_evaluated_once_carry_the_conditional_and_do_not_flag_the_undecided() {
    let span = "Randomized trials must conform to CONSORT 2025 guidelines.";
    let bindings: Vec<StandardBinding> = ["clinical trial", "randomised trial", "trial protocol"]
        .iter()
        .map(|d| StandardBinding { standard: Standard::Consort, design: (*d).into(), source_span: span.into() })
        .collect();
    let mut ex = extraction(
        None,
        vec![
            sec(SectionKind::Abstract, "Abstract", &["A cross-sectional employer survey (n = 222)."]),
            sec(SectionKind::Results, "Results", &["Provision was 36.5% (95% CI: 30.2-43.1%)."]),
        ],
    );
    ex.statistics = vec![
        stat(Stat::SampleSize { text: "n = 222".into() }, "n = 222", SectionKind::Abstract, 0, 0),
        stat(
            Stat::ConfidenceInterval { text: "95% CI: 30.2-43.1%".into() },
            "95% CI: 30.2-43.1%",
            SectionKind::Results,
            1,
            0,
        ),
    ];
    let items = checklist_from_requirements(&ex, "", 1000, &[], &bindings);
    let rows: Vec<&ChecklistItem> = items.iter().filter(|i| i.requirement.contains("CONSORT item")).collect();
    assert_eq!(rows.len(), 5, "CONSORT's five items, once: got {}", rows.len());
    for r in &rows {
        for d in ["clinical trial", "randomised trial", "trial protocol"] {
            assert!(r.requirement.contains(d), "item row must name every design the standard binds: {}", r.requirement);
        }
        assert!(r.requirement.contains("if your study is"), "{}", r.requirement);
    }
    let six_a = rows.iter().find(|r| r.requirement.contains("item 6a")).expect("CONSORT 6a");
    assert!(six_a.unevaluable, "6a reads only the declined layer, so it cannot be decided");
    assert!(!six_a.passed, "and it is not a pass either");
    let one_b = rows.iter().find(|r| r.requirement.contains("item 1b")).expect("CONSORT 1b");
    assert!(one_b.passed, "an Abstract is present");
    assert!(!one_b.unevaluable, "a decided item is never unevaluable");
    let seventeen_a = rows.iter().find(|r| r.requirement.contains("item 17a")).expect("CONSORT 17a");
    assert!(!seventeen_a.passed, "no effect size is reported");
    assert!(!seventeen_a.unevaluable, "an effect-size check CAN be decided; calling it unevaluable would hide a real gap");
}

#[test]
fn a_required_statement_written_as_a_run_in_label_is_found() {
    let text = "Results\n\nThe estimate was 36.5%.\n\nEthical Approval: Ministry of \
                Health, Oman (Grant MOH/CSR/24/29387). Conducted in accordance with the \
                Declaration of Helsinki. Participant consent obtained prior to \
                interview.\nData Availability: Available from the corresponding author on \
                reasonable request.\nConflicts of Interest: The authors declare no \
                conflicts of interest.\nFunding: Ministry of Health, Oman (Grant \
                MOH/CSR/24/29387).\n";
    let ex = extraction(
        None,
        vec![sec(
            SectionKind::Results,
            "Results",
            &[
                "The estimate was 36.5%.",
                "Ethical Approval: Ministry of Health, Oman (Grant MOH/CSR/24/29387). Conducted in accordance with the Declaration of Helsinki. Participant consent obtained prior to interview.\nData Availability: Available from the corresponding author on reasonable request.\nConflicts of Interest: The authors declare no conflicts of interest.\nFunding: Ministry of Health, Oman (Grant MOH/CSR/24/29387).",
            ],
        )],
    );
    assert!(
        !ex.sections.iter().any(|s| s.heading.to_lowercase().contains("data availability")),
        "precondition: the classifier produces no such HEADING"
    );
    let req = |kind: RequirementKind, value: &str| StoredRequirement {
        kind,
        value: value.to_string(),
        article_type: None,
        status: "verified".into(),
        source_url: "https://www.nature.com/nm/for-authors".into(),
        source_heading: "Preparing your submission".into(),
        source_span: "all submissions must include a data availability statement".into(),
        conflict_id: None,
    };
    let reqs = vec![
        req(RequirementKind::DataPolicy, "data sharing required"),
        req(RequirementKind::SectionRequired, "competing interests statement"),
        req(RequirementKind::SectionRequired, "funding statement"),
    ];
    let items = checklist_from_requirements(&ex, text, 1000, &reqs, &[]);
    let da = items.iter().find(|i| i.requirement == "data availability statement").unwrap();
    assert!(da.passed, "{da:?}");
    assert!(
        da.detail.contains("Available from the corresponding author"),
        "the item must quote the manuscript's own sentence, not assert: {}",
        da.detail
    );
    assert_eq!(da.checked_field.as_deref(), Some("manuscript full text"));
    let ci = items.iter().find(|i| i.requirement == "competing interests statement").unwrap();
    assert!(ci.passed, "{ci:?}");
    assert!(ci.detail.contains("declare no conflicts of interest"), "{}", ci.detail);
    let f = items.iter().find(|i| i.requirement == "funding statement").unwrap();
    assert!(f.passed, "{f:?}");
}

#[test]
fn a_statement_that_is_genuinely_absent_is_still_flagged_with_its_lexicon() {
    let text = "Results\n\nThe estimate was 36.5%.\n";
    let ex = extraction(None, vec![sec(SectionKind::Results, "Results", &["The estimate was 36.5%."])]);
    let reqs = vec![StoredRequirement {
        kind: RequirementKind::DataPolicy,
        value: "data sharing required".into(),
        article_type: None,
        status: "verified".into(),
        source_url: "u".into(),
        source_heading: "h".into(),
        source_span: "must include a data availability statement".into(),
        conflict_id: None,
    }];
    let items = checklist_from_requirements(&ex, text, 1000, &reqs, &[]);
    let da = items.iter().find(|i| i.requirement == "data availability statement").unwrap();
    assert!(!da.passed);
    assert!(da.detail.contains("phrasings was found"), "{}", da.detail);
}

#[test]
fn a_heading_the_classifier_does_not_know_is_not_a_missing_section() {
    for (heading, body) in [
        ("4.8 INTERPRETATION OF RESULTS", "Provision rose with firm size."),
        ("5 DISCUSSION OF THE RESULTS", "The trend held across both cohorts."),
    ] {
        let text = format!("A Title\n\n1. Background\n\nSome prose.\n\n{heading}\n{body}\n");
        let ex = extraction(
            Some("A Title"),
            vec![sec(SectionKind::Introduction, "1. Background", &["Some prose.", &format!("{heading}\n{body}")])],
        );
        assert!(
            !ex.sections.iter().any(|s| s.kind == SectionKind::Results),
            "precondition: the classifier misses {heading:?}"
        );
        let e = evaluate(Standard::Prisma, &ex, &text);
        let v = e.verdicts.iter().find(|v| v.item == "16a").expect("PRISMA 16a");
        assert_eq!(v.status, ItemStatus::Met, "{heading:?} is a Results heading: {}", v.detail);
        assert!(v.detail.contains("fact about the extractor"), "and the row says whose fact it is: {}", v.detail);
    }
}

#[test]
fn a_compound_heading_is_now_found_by_the_classifier_not_the_fallback() {
    let text = "A Title\n\n1. Background\n\nSome prose.\n\nIV. EXPERIMENTS AND RESULTS\n\
                Accuracy reached 96.42% on the combined set.\n";
    let ex = extraction(
        Some("A Title"),
        vec![
            sec(SectionKind::Introduction, "1. Background", &["Some prose."]),
            sec(SectionKind::Results, "IV. EXPERIMENTS AND RESULTS", &["Accuracy reached 96.42% on the combined set."]),
        ],
    );
    assert!(
        ex.sections.iter().any(|s| s.kind == SectionKind::Results),
        "the classifier must now find a compound Results heading"
    );
    let e = evaluate(Standard::Prisma, &ex, text);
    let v = e.verdicts.iter().find(|v| v.item == "16a").expect("PRISMA 16a");
    assert_eq!(v.status, ItemStatus::Met, "{}", v.detail);
    assert!(
        !v.detail.contains("fact about the extractor"),
        "answered by the fallback, not the classifier — the fix did not take: {}",
        v.detail
    );
}

#[test]
fn a_manuscript_with_no_results_heading_anywhere_is_still_not_found() {
    let text = "A Title\n\n1. Background\n\nThis chapter reviews the literature on \
                sediment chemistry and says nothing about what was measured.\n";
    let ex = extraction(
        Some("A Title"),
        vec![sec(
            SectionKind::Introduction,
            "1. Background",
            &["This chapter reviews the literature on sediment chemistry and says nothing about what was measured."],
        )],
    );
    let e = evaluate(Standard::Prisma, &ex, text);
    let v = e.verdicts.iter().find(|v| v.item == "16a").expect("PRISMA 16a");
    assert_eq!(v.status, ItemStatus::NotFound, "{}", v.detail);
    assert!(v.detail.contains("no heading-shaped line matching"), "{}", v.detail);
}

#[test]
fn a_sentence_mentioning_results_is_not_a_heading() {
    for prose in [
        "The results of the survey were inconclusive and are discussed below.",
        "Table 3 summarises our findings for each of the three lakes studied.",
    ] {
        let text = format!("A Title\n\n1. Background\n\n{prose}\n");
        let ex = extraction(Some("A Title"), vec![sec(SectionKind::Introduction, "1. Background", &[prose])]);
        let e = evaluate(Standard::Prisma, &ex, &text);
        let v = e.verdicts.iter().find(|v| v.item == "16a").expect("PRISMA 16a");
        assert_eq!(v.status, ItemStatus::NotFound, "{prose:?} -> {}", v.detail);
    }
}

#[test]
fn a_requirement_scoped_to_an_article_type_is_not_decided() {
    let ex = short_paper();
    let items = checklist_from_requirements(
        &ex,
        "Title Abstract Short. Methods We did work.",
        7,
        &[stmt_req_for("author contributions statement", "Matters Arising")],
        &[],
    );
    let it = items
        .iter()
        .find(|i| i.requirement == "author contributions statement")
        .expect("the row is still emitted — scoping it does not drop the journal's requirement");
    assert!(it.unevaluable, "scoped to an article type nobody established: {it:?}");
    assert!(!it.passed, "and never a pass");
    assert!(it.detail.contains("which this analysis does not know"), "it must say WHY: {}", it.detail);
    assert!(it.detail.contains("Matters Arising"), "and name the type the journal scoped it to: {}", it.detail);
}

#[test]
fn a_requirement_with_no_article_type_is_still_decided() {
    let ex = short_paper();
    let items = checklist_from_requirements(
        &ex,
        "Title Abstract Short. Methods We did work.",
        7,
        &[stmt_req("competing interests statement")],
        &[],
    );
    let it = items.iter().find(|i| i.requirement == "competing interests statement").expect("raised");
    assert!(!it.unevaluable, "unscoped: nothing stops this being decided: {it:?}");
    assert!(!it.passed, "and the manuscript really does not declare one");
}

#[test]
fn a_known_article_type_decides_the_row_and_never_says_not_applicable() {
    assert_eq!(undecidable_for_article_type(None, None), None, "nothing to scope");
    assert_eq!(undecidable_for_article_type(Some("Article"), Some("Article")), None, "type known and matching: decide it");
    assert_eq!(
        undecidable_for_article_type(Some("Brief Communication"), Some("Article")),
        None,
        "type known and DIFFERENT: still decided here"
    );
    assert!(
        undecidable_for_article_type(Some("Matters Arising"), None).is_some(),
        "scoped, and the manuscript's type is unknown: the only undecidable case"
    );
}

#[test]
fn an_abstract_limit_scoped_to_an_article_type_is_not_decided() {
    let words = "word ".repeat(202);
    let text = format!("Title\n\nAbstract\n{}\n\nMethods\nWe did work.\n", words);
    let ex = extraction(
        Some("Title"),
        vec![
            sec(SectionKind::Abstract, "Abstract", &[words.trim_end()]),
            sec(SectionKind::Methods, "Methods", &["We did work."]),
        ],
    );
    let req = StoredRequirement {
        kind: RequirementKind::AbstractLimit,
        value: "150".into(),
        article_type: Some("Brief Communication".into()),
        status: "VERIFIED".into(),
        source_url: "https://example.test/content".into(),
        source_heading: "Format".into(),
        source_span: "Format Abstract – up to 150 words, unreferenced.".into(),
        conflict_id: None,
    };
    let items = checklist_from_requirements(&ex, &text, 210, &[req], &[]);
    let it = items.iter().find(|i| i.requirement.starts_with("abstract limit")).expect("raised");
    assert!(it.unevaluable, "{it:?}");
    assert!(
        it.detail.contains("202 words") && it.detail.contains("Brief Communication"),
        "the observation is kept beside the caveat: {}",
        it.detail
    );
}

#[test]
fn a_word_limit_is_read_from_either_phrasing() {
    assert_eq!(extract_word_limit("manuscripts have a limit of 3000 words."), Some(3000));
    assert_eq!(extract_word_limit("maximum 3,000 words in the main text"), Some(3000));
    assert_eq!(extract_word_limit("the 250 word limit applies to abstracts"), Some(250));
    assert_eq!(extract_word_limit("highlights: 50\twords"), Some(50));
}

#[test]
fn the_first_qualifying_number_wins_and_implausible_ones_are_skipped() {
    // 5 is below the plausibility floor; 2,000 is the limit.
    assert_eq!(extract_word_limit("up to 5 words per keyword; body 2,000 words"), Some(2000));
    // 3 figures and 200000 words are both rejected.
    assert_eq!(extract_word_limit("3 figures, 200000 words"), None);
    // A number that no unit follows is not a limit.
    assert_eq!(extract_word_limit("see section 4 for limits"), None);
    assert_eq!(extract_word_limit("1500 wordsmiths"), Some(1500));
    assert_eq!(extract_word_limit(""), None);
    // Too large for usize: it does not parse, so it is skipped.
    assert_eq!(extract_word_limit("99999999999999999999999 words, or 900 words"), Some(900));
}

#[test]
fn the_disclaimer_omits_the_revision_tier_when_nothing_was_revised() {
    let d = disclaimer_for(false);
    assert!(!d.contains("reconsidered after peer review"), "the disclaimer explains a tier no finding carries: {d:?}");
    assert!(d.contains("mathematically certain"), "{d:?}");
    assert!(d.contains("AI-assessed"), "{d:?}");
    assert!(!d.is_empty());
}

#[test]
fn the_disclaimer_names_the_revision_tier_only_when_an_agent_revised() {
    let d = disclaimer_for(true);
    assert!(d.contains("reconsidered after peer review"));
    assert!(d.contains("mathematically certain") && d.contains("never"));
    assert!(d.ends_with("non-definitive."));
    assert!(disclaimer_for(false).ends_with("never definitive proof."));
}

#[test]
fn several_word_limits_are_named_and_no_verdict_is_passed() {
    let limit = |value: &str, article: &str, url: &str| StoredRequirement {
        kind: RequirementKind::WordLimit,
        value: value.into(),
        article_type: Some(article.into()),
        source_url: url.into(),
        ..stmt_req("unused")
    };
    let reqs = vec![
        limit("4000", "Article", "https://example.test/article"),
        limit("2000", "Brief Communication", "https://example.test/brief"),
    ];
    let items = checklist_from_requirements(&short_paper(), "We did work.", 3100, &reqs, &[]);
    let rows: Vec<&ChecklistItem> = items.iter().filter(|i| i.requirement.contains("word limit")).collect();
    assert_eq!(rows.len(), 1, "one row for all the limits");
    let row = rows[0];
    assert_eq!(row.requirement, "word limit depends on article type");
    assert!(row.unevaluable && !row.passed, "the article type is unknown, so no verdict");
    assert!(row.detail.contains("4000 (Article)") && row.detail.contains("2000 (Brief Communication)"), "{}", row.detail);
    assert!(row.detail.contains("3100 words"));
    assert_eq!(row.guideline_source.as_deref(), Some("https://example.test/article"));
}

#[test]
fn a_declaration_must_begin_within_forty_bytes_of_its_sentence() {
    let names = vec!["funding"];
    // Twenty Greek letters take forty bytes: the name starts at byte 41.
    let greek = "αβγδεζηθικλμνξοπρστυ funding: the work was funded by nobody.";
    assert_eq!(statement_in_text(greek, greek, &names), None);
    // The same number of ASCII letters takes twenty bytes.
    let ascii = "abcdefghijklmnopqrst funding: the work was funded by nobody.";
    assert_eq!(statement_in_text(ascii, ascii, &names), Some(ascii.to_string()));
}
