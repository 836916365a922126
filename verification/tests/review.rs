use gaply_core::collect::LensInput;
use gaply_core::criteria::{declined_lenses, lenses, LensId};
use gaply_core::extract::{ExtractionResult, Location, Reference, Section, SectionKind};
use gaply_core::inputs::{RuleCheck, RuleId, SpecialistFinding, SpecialistReport, StatsValidityReport, ValidityFlag};
use gaply_core::lens_checks::{admit_absence, codes_of, reference_currency};
use gaply_core::lens_sources::{FieldReach, LensSource, SourceId, SourceState, StateField};
use gaply_core::report::{evaluate, StandardEvaluation};
use gaply_core::review::{availability, review, Concern, CriterionState, ReviewerReport};
use gaply_core::risk::{risk_table, severity_rule, ReviewSeverity, DEFAULT_SEVERITY};
use gaply_core::standards::Standard;

/// Every finding code any shipped producer can emit.
const SHIPPED_CODES: &[&str] = &[
    "p_value_reported_as_exactly_zero",
    "multiple_comparisons_uncorrected",
    "parametric_test_assumptions_unstated",
    "marginal_significance_language",
    "test_claimed_but_absent_from_analysis",
    "resampling_not_stated_as_post_split",
    "no_heldout_evaluation_named",
    "no_baseline_comparison",
    "no_variance_across_runs",
    "causal_claim_from_associational_design",
    "TestGroupMismatch",
    "PValueOverclaim",
    "MissingEffectSize",
    "MissingConfidenceInterval",
    "SmallSampleCausalClaim",
    "PRIOR_WORK_EXISTS",
    "NOVELTY_NARROWER_THAN_STATED",
    "novelty_claim_states_no_scope",
    "no_data_availability_statement",
    "no_ethics_statement_in_a_study_with_subjects",
    "reference_list_is_mostly_outdated",
    "AbstractPresent",
    "ResultsSectionPresent",
    "SampleSizeReported",
    "StatisticalTestReported",
    "EffectSizeReported",
    "ConfidenceIntervalReported",
];

const NOT_FROM_A_SPECIALIST: &[(&str, &str)] = &[
    ("TestGroupMismatch", "validate.rs"),
    ("PValueOverclaim", "validate.rs"),
    ("MissingEffectSize", "validate.rs"),
    ("MissingConfidenceInterval", "validate.rs"),
    ("SmallSampleCausalClaim", "validate.rs"),
    ("PRIOR_WORK_EXISTS", "novelty::assess"),
    ("NOVELTY_NARROWER_THAN_STATED", "novelty::assess"),
    ("novelty_claim_states_no_scope", "novelty::assess"),
    ("AbstractPresent", "report::evaluate"),
    ("ResultsSectionPresent", "report::evaluate"),
    ("SampleSizeReported", "report::evaluate"),
    ("StatisticalTestReported", "report::evaluate"),
    ("EffectSizeReported", "report::evaluate"),
    ("ConfidenceIntervalReported", "report::evaluate"),
    ("no_data_availability_statement", "a research-state check"),
    ("no_ethics_statement_in_a_study_with_subjects", "a research-state check"),
    ("reference_list_is_mostly_outdated", "a research-state check"),
];

const HEADINGS: &[(&str, SectionKind)] = &[
    ("Abstract", SectionKind::Abstract),
    ("Introduction", SectionKind::Introduction),
    ("Methods", SectionKind::Methods),
    ("Results", SectionKind::Results),
    ("Discussion", SectionKind::Discussion),
    ("Conclusion", SectionKind::Conclusion),
    ("References", SectionKind::References),
];

/// The simple test manuscripts below, sectioned: a paragraph that is exactly
/// a known heading opens a section; every other paragraph belongs to the
/// section it follows.
fn sectioned(text: &str) -> ExtractionResult {
    let mut sections: Vec<Section> = Vec::new();
    for para in text.split("\n\n").map(str::trim).filter(|p| !p.is_empty()) {
        if let Some((_, kind)) = HEADINGS.iter().find(|(h, _)| *h == para) {
            sections.push(Section { kind: *kind, heading: para.to_string(), paragraphs: vec![] });
        } else if let Some(last) = sections.last_mut() {
            last.paragraphs.push(para.to_string());
        } else {
            sections.push(Section { kind: SectionKind::Other, heading: String::new(), paragraphs: vec![para.to_string()] });
        }
    }
    ExtractionResult {
        title: None,
        sections,
        statistics: vec![],
        tables: vec![],
        citations: vec![],
        references: vec![],
        scientific: None,
    }
}

fn input<'a>(ex: &'a ExtractionResult) -> LensInput<'a> {
    LensInput {
        extraction: ex,
        full_text: None,
        this_year: 2026,
        specialists: None,
        validity: None,
        standards: None,
        checklist: None,
        novelty: None,
    }
}

fn at(section: SectionKind, section_index: usize, paragraph: usize) -> Location {
    Location { section, paragraph, section_index: Some(section_index) }
}

fn every_rule_ran(flags: Vec<ValidityFlag>) -> StatsValidityReport {
    StatsValidityReport {
        checks: [
            RuleId::TestGroupMismatch,
            RuleId::SmallSampleCausalClaim,
            RuleId::PValueOverclaim,
            RuleId::MissingEffectSize,
            RuleId::MissingConfidenceInterval,
        ]
        .iter()
        .map(|r| RuleCheck { rule: *r })
        .collect(),
        flags,
    }
}

fn ran_clean(specialist: &str) -> SpecialistReport {
    SpecialistReport { specialist: specialist.into(), admitted: vec![], not_applicable: None }
}

/// The claim-strength specialist's report on the causal survey below: one
/// admitted finding, quoting the sentence that states the causal claim.
const CAUSAL_SURVEY: &str = "Abstract\n\nA cross-sectional survey of 412 firms.\n\nDiscussion\n\n\
     Organisational capacity causes higher insurance provision among firms.\n";

fn claim_strength_report() -> SpecialistReport {
    SpecialistReport {
        specialist: "claim_evidence_strength".into(),
        admitted: vec![SpecialistFinding {
            code: "causal_claim_from_associational_design".into(),
            summary: "A causal claim is drawn from a cross-sectional design.".into(),
            span: Some("Organisational capacity causes higher insurance provision among firms.".into()),
            location: Some(at(SectionKind::Discussion, 1, 0)),
            uncertainty: Some("The design was read from the manuscript's own description.".into()),
        }],
        not_applicable: None,
    }
}

fn lens(id: LensId) -> gaply_core::criteria::ReviewLens {
    lenses().into_iter().find(|l| l.id == id).unwrap()
}

#[test]
fn every_shipped_finding_code_is_claimed_by_exactly_one_criterion() {
    for code in SHIPPED_CODES {
        let owners: Vec<&str> = lenses()
            .iter()
            .flat_map(|l| l.criteria.iter())
            .filter(|c| c.codes.contains(code))
            .map(|c| c.id)
            .collect();
        assert_eq!(
            owners.len(),
            1,
            "`{code}` is claimed by {owners:?} — zero means it never reaches a report, more than one means it appears twice"
        );
    }
}

#[test]
fn every_shipped_finding_code_has_a_severity_rule() {
    let missing: Vec<&&str> = SHIPPED_CODES.iter().filter(|c| severity_rule(c).is_none()).collect();
    assert!(
        missing.is_empty(),
        "no rule in the severity policy for {missing:?} — each would be reported at {} with no risk-table cell behind it",
        DEFAULT_SEVERITY.as_str()
    );
}

#[test]
fn four_lenses_ship_and_the_two_declined_are_declined_for_different_reasons() {
    let ids: Vec<LensId> = lenses().iter().map(|l| l.id).collect();
    assert_eq!(ids, vec![LensId::Methodology, LensId::Statistics, LensId::NoveltyLiterature, LensId::ReportingEthics]);
    let declined_all = declined_lenses();
    let declined: Vec<LensId> = declined_all.iter().map(|d| d.id).collect();
    assert_eq!(declined, vec![LensId::JournalFit, LensId::General]);

    let fit = &declined_all[0];
    assert!(
        fit.criteria.iter().all(|c| c.sources.iter().all(|s| s.state() != SourceState::Shipping)),
        "journal fit is declined because its LAYER is empty"
    );
    assert!(fit.reason.contains("THE LAYER IS EMPTY"));

    let general = &declined_all[1];
    assert!(
        general
            .criteria
            .iter()
            .all(|c| c.sources.iter().all(|s| s.field().map(|f| f.reach() == FieldReach::Mediated).unwrap_or(false))),
        "general is declined because every field it reads is MEDIATED"
    );
    assert!(general.reason.contains("THE ABSENCE RULE FORBIDS IT"));
    assert!(general.reason.contains("NO data path would unblock this one"), "the two declines must not read as the same kind");
}

#[test]
fn a_shipping_lens_has_sourced_criteria_and_names_every_unsourced_one() {
    for l in lenses() {
        let sourced = l.criteria.iter().filter(|c| c.sources.iter().any(|s| s.state() == SourceState::Shipping)).count();
        assert!(sourced > 0, "{:?} has no sourced criterion at all", l.id);
        let a = availability();
        let entry = a.iter().find(|x| x.lens == l.id).unwrap();
        assert_eq!(
            entry.sourced_criteria.len() + entry.unsourced_criteria.len(),
            l.criteria.len(),
            "{:?}: every criterion is accounted for in one list or the other",
            l.id
        );
        for (name, why) in &entry.unsourced_criteria {
            assert!(!why.is_empty(), "{:?} / {name} is unsourced with no reason", l.id);
        }
    }
}

#[test]
fn no_shipping_criterion_concludes_from_a_mediated_field() {
    for l in lenses() {
        for c in l.criteria {
            for f in c.sources.iter().filter_map(|s| s.field()) {
                assert_eq!(
                    f.reach(),
                    FieldReach::Exhaustive,
                    "{:?} / {} reads `{}`, whose absence is about the extractor — {}",
                    l.id,
                    c.name,
                    f.as_str(),
                    f.absence_note()
                );
            }
        }
    }
}

#[test]
fn a_source_that_never_ran_is_not_reported_as_a_strength() {
    let r = sectioned("Introduction\n\nA paragraph.\n\nResults\n\nThe mean was 4.2 (p = 0.03).\n");
    let stats = lens(LensId::Statistics);
    let never_ran = review(&stats, &input(&r));
    assert!(never_ran.strengths.is_empty(), "nothing ran, so nothing passed: {:?}", never_ran.strengths);
    assert!(
        never_ran.criteria.iter().all(|c| matches!(c.state, CriterionState::SourceNotRun { .. })),
        "{:?}",
        never_ran.criteria
    );

    // The rules ran; a p-value with neither an effect size nor an interval
    // fires both reporting rules on the Results paragraph.
    let validity = every_rule_ran(vec![
        ValidityFlag {
            rule: RuleId::MissingEffectSize,
            explanation: "p-value reported without an effect size".into(),
            location: at(SectionKind::Results, 1, 0),
        },
        ValidityFlag {
            rule: RuleId::MissingConfidenceInterval,
            explanation: "p-value reported without a confidence interval".into(),
            location: at(SectionKind::Results, 1, 0),
        },
    ]);
    let specialists = [ran_clean("frequentist_stats")];
    let standards: [StandardEvaluation; 0] = [];
    let ran_clean = review(
        &stats,
        &LensInput { specialists: Some(&specialists), validity: Some(&validity), standards: Some(&standards), ..input(&r) },
    );
    assert!(!ran_clean.strengths.is_empty(), "the checks ran and found nothing, which IS a strength: {ran_clean:?}");
}

fn methodology_with_claim_strength() -> ReviewerReport {
    let r = sectioned(CAUSAL_SURVEY);
    let reports = vec![claim_strength_report()];
    let validity = every_rule_ran(vec![]);
    review(
        &lens(LensId::Methodology),
        &LensInput { specialists: Some(&reports), validity: Some(&validity), ..input(&r) },
    )
}

#[test]
fn no_concern_ever_quotes_the_risk_tables_compliant_column() {
    let compliant: Vec<&str> = risk_table().iter().map(|b| b.compliant).collect();
    let report = methodology_with_claim_strength();
    assert_eq!(report.major_concerns.len(), 1, "{report:?}");
    for c in report.major_concerns.iter().chain(report.minor_concerns.iter()) {
        for good in &compliant {
            assert!(!c.summary.contains(good), "a concern quoting the table's good-case column: {}", c.summary);
        }
    }
}

#[test]
fn every_concern_carries_its_span_its_uncertainty_and_its_trail() {
    let report = methodology_with_claim_strength();
    assert!(!report.major_concerns.is_empty());
    for c in &report.major_concerns {
        assert!(!c.spans.is_empty(), "{c:?}");
        assert_eq!(c.spans.len(), c.occurrences, "every occurrence keeps its span: {c:?}");
        assert!(c.uncertainty.is_some(), "{c:?}");
        assert!(
            c.trail.iter().any(|t| t.stage == "severity" && t.detail.contains("Risk")),
            "the trail must name the risk-table cell that set the severity: {:?}",
            c.trail
        );
        assert!(!c.required_revision.is_empty(), "{c:?}");
    }
}

#[test]
fn a_specialist_that_declined_does_not_earn_the_manuscript_a_strength() {
    let r = sectioned(
        "Abstract\n\nA cross-sectional employer survey of 222 firms.\n\nMethods\n\nLogistic regression was used.\n",
    );
    let reports = vec![SpecialistReport {
        specialist: "ml_methodology".into(),
        admitted: vec![],
        not_applicable: Some("no model is trained or evaluated in this manuscript".into()),
    }];
    assert!(reports[0].not_applicable.is_some(), "precondition: this is not an ML paper");
    let standards: [StandardEvaluation; 0] = [];
    let report = review(
        &lens(LensId::Methodology),
        &LensInput { specialists: Some(&reports), standards: Some(&standards), ..input(&r) },
    );
    assert!(
        report.strengths.is_empty(),
        "the only design check declined; nothing established a robust design: {:?}",
        report.strengths
    );
}

#[test]
fn a_code_that_fires_repeatedly_is_one_concern_carrying_every_span() {
    let r = sectioned(
        "Results\n\nGroup A differed (t = 2.1, p = 0.04).\n\nThe second test also \
         differed (t = 3.0, p = 0.01).\n\nA third differed (t = 4.0, p = 0.02).\n",
    );
    let flag = |p: usize| ValidityFlag {
        rule: RuleId::MissingEffectSize,
        explanation: "p-value reported without an effect size".into(),
        location: at(SectionKind::Results, 0, p),
    };
    let v = every_rule_ran(vec![flag(0), flag(1), flag(2)]);
    let repeated = v.flags.iter().filter(|f| f.rule == RuleId::MissingEffectSize).count();
    assert!(repeated >= 2, "precondition: the rule fires more than once ({repeated})");
    let specialists: [SpecialistReport; 0] = [];
    let standards: [StandardEvaluation; 0] = [];
    let report = review(
        &lens(LensId::Statistics),
        &LensInput { specialists: Some(&specialists), validity: Some(&v), standards: Some(&standards), ..input(&r) },
    );
    let missing: Vec<&Concern> = report.major_concerns.iter().filter(|c| c.code == "MissingEffectSize").collect();
    assert_eq!(missing.len(), 1, "one concern, not {repeated}: {missing:?}");
    assert_eq!(missing[0].occurrences, repeated, "and it says how many");
    assert_eq!(missing[0].spans.len(), repeated, "every occurrence keeps its span");
}

#[test]
fn a_check_with_nothing_to_examine_yields_neither_a_concern_nor_a_strength() {
    let r = sectioned("Introduction\n\nThis paper reports an employer survey.\n");
    let novelty = [];
    let report = review(&lens(LensId::NoveltyLiterature), &LensInput { novelty: Some(&novelty), ..input(&r) });
    assert!(report.strengths.is_empty(), "no novelty claim was made, so none was verified: {:?}", report.strengths);
    assert!(report.major_concerns.is_empty() && report.minor_concerns.is_empty());
    let novelty = report
        .criteria
        .iter()
        .find(|c| c.criterion == "Novelty & Significance")
        .unwrap_or_else(|| panic!("{:?}", report.criteria));
    match &novelty.state {
        CriterionState::NoShippingSource { detail } => assert!(detail.contains("D166"), "the row names the decision: {detail}"),
        other => panic!("a declined source is not a source that did not run: {other:?}"),
    }
    assert!(
        report
            .criteria
            .iter()
            .any(|c| c.criterion == "Up-to-Date References" && matches!(c.state, CriterionState::SourceNotRun { .. })),
        "{:?}",
        report.criteria
    );
    assert!(
        report.major_concerns.iter().all(|c| c.code != "reference_list_is_mostly_outdated"),
        "{:?}",
        report.major_concerns
    );
}

#[test]
fn a_strength_says_what_ran_rather_than_asserting_the_good_case() {
    let r = sectioned("Results\n\nThe effect was large (Cohen's d = 0.8, 95% CI: 0.4-1.2, t = 2.1, p = 0.04).\n");
    let specialists = [ran_clean("frequentist_stats")];
    let validity = every_rule_ran(vec![]);
    let standards: [StandardEvaluation; 0] = [];
    let report = review(
        &lens(LensId::Statistics),
        &LensInput { specialists: Some(&specialists), validity: Some(&validity), standards: Some(&standards), ..input(&r) },
    );
    assert!(!report.strengths.is_empty(), "{report:?}");
    for s in &report.strengths {
        assert!(s.contains("check(s) ran") && s.contains("not a positive finding"), "a strength that asserts rather than reports: {s}");
    }
}

fn methodology_over(text: &str) -> ReviewerReport {
    let r = sectioned(text);
    let specialists: [SpecialistReport; 0] = [];
    review(
        &lens(LensId::Methodology),
        &LensInput { full_text: Some(text), specialists: Some(&specialists), ..input(&r) },
    )
}

#[test]
fn an_absence_in_an_exhaustive_field_is_a_finding() {
    let report = methodology_over("Abstract\n\nWe surveyed 412 firms.\n\nResults\n\nProvision was 36.5%.\n");
    let f = report
        .major_concerns
        .iter()
        .find(|c| c.code == "no_data_availability_statement")
        .unwrap_or_else(|| panic!("{report:?}"));
    assert_eq!(f.source, LensSource::State(StateField::FullText));
    assert!(
        f.spans[0].contains("Searched the whole manuscript"),
        "an absence has no quotable sentence, so it quotes what it searched for: {:?}",
        f.spans
    );
    assert!(f.uncertainty.as_deref().unwrap().contains("lexicon limit"), "an absence finding must state the limit of its own lexicon");
    assert!(report.absence_rejected.is_empty(), "{:?}", report.absence_rejected);
}

#[test]
fn a_data_availability_statement_that_is_present_suppresses_the_finding() {
    let report = methodology_over(
        "Abstract\n\nWe surveyed 412 firms.\n\nMethods\n\nData availability: the dataset is deposited in Zenodo.\n",
    );
    assert!(
        report.major_concerns.iter().all(|c| c.code != "no_data_availability_statement"),
        "{:?}",
        report.major_concerns
    );
}

#[test]
fn an_absence_in_a_mediated_field_is_refused_with_its_reason() {
    for f in [
        StateField::Sections,
        StateField::Title,
        StateField::References,
        StateField::Statistics,
        StateField::Tables,
        StateField::JournalRequirements,
    ] {
        let err = admit_absence(f).expect_err("mediated fields are refused");
        assert!(err.contains("MEDIATED"), "{err}");
        assert!(err.contains("about the extractor"), "the refusal must say whose fact the absence is: {err}");
    }
    for f in [StateField::FullText, StateField::ReferenceYears] {
        assert!(admit_absence(f).is_ok(), "{f:?}");
    }
}

#[test]
fn the_ethics_check_declines_on_a_manuscript_with_no_human_or_animal_subjects() {
    let desk = methodology_over(
        "Introduction\n\nThis chapter reviews sediment chemistry in three lakes.\n\
         \n\nResults\n\nAlkalinity increased toward the inlet.\n",
    );
    assert!(
        desk.major_concerns.iter().all(|c| c.code != "no_ethics_statement_in_a_study_with_subjects"),
        "no subjects, so no ethics statement is owed: {:?}",
        desk.major_concerns
    );
    let with_subjects = methodology_over("Methods\n\nWe recruited 412 participants who completed a questionnaire.\n");
    let f = with_subjects
        .major_concerns
        .iter()
        .find(|c| c.code == "no_ethics_statement_in_a_study_with_subjects")
        .unwrap_or_else(|| panic!("{with_subjects:?}"));
    assert_eq!(f.severity, ReviewSeverity::Major);
}

#[test]
fn a_metaphor_a_lake_survey_and_a_bibliography_are_not_research_subjects() {
    for sentence in [
        "The microclimate findings reinforce that urban wetlands are active \
         participants in their surrounding environment.",
        "The field survey of Section 4.1 established that the three lakes carry a \
         heavy and seasonally variable nutrient load.",
        "It is an almost exclusive inhabitant of the gut of warm-blooded animals, and \
         it is shed in enormous numbers in faeces.",
        "127 Publication Lawrence, C.. \"The husbandry of zebrafish (Danio rerio): A \
         review\", Aquaculture, 2007",
    ] {
        let report = methodology_over(&format!("Introduction\n\n{sentence}\n"));
        assert!(
            report.major_concerns.iter().all(|c| c.code != "no_ethics_statement_in_a_study_with_subjects"),
            "this manuscript has no research subjects: {sentence:?}"
        );
    }
}

#[test]
fn the_ethics_finding_quotes_the_sentence_that_shows_subjects() {
    let report = methodology_over(
        "Methods\n\nAfter exposure, the fish were euthanised, and the brain tissues \
         were dissected and homogenised in 0.1 M phosphate buffer.\n",
    );
    let f = report
        .major_concerns
        .iter()
        .find(|c| c.code == "no_ethics_statement_in_a_study_with_subjects")
        .unwrap_or_else(|| panic!("{report:?}"));
    assert!(
        f.spans[0].contains("WHY THIS CHECK APPLIES: After exposure, the fish were euthanised"),
        "the finding must quote what made it apply: {:?}",
        f.spans
    );
    assert!(f.spans[0].contains("Searched the whole manuscript for"), "{:?}", f.spans);
}

#[test]
fn a_stated_ethics_approval_suppresses_the_finding() {
    let report = methodology_over(
        "Methods\n\nWe recruited 412 participants. Ethical approval was granted by the \
         institutional review board and the study followed the Declaration of \
         Helsinki.\n",
    );
    assert!(
        report.major_concerns.iter().all(|c| c.code != "no_ethics_statement_in_a_study_with_subjects"),
        "{:?}",
        report.major_concerns
    );
}

fn dated(years: &[i32]) -> Vec<Reference> {
    years
        .iter()
        .map(|y| Reference { raw: String::new(), authors: "A".into(), year: Some(*y), title: None, doi: None })
        .collect()
}

#[test]
fn reference_currency_refuses_to_speak_below_its_denominator() {
    assert_eq!(reference_currency(&dated(&[1990, 1991, 1992]), 2026).majority_outdated(), None);
    let old = dated(&[1980, 1981, 1982, 1983, 1984, 1985, 1986, 1987, 1988, 1989, 2024]);
    let c = reference_currency(&old, 2026);
    assert_eq!(c.dated, 11);
    assert_eq!(c.majority_outdated(), Some(true));
    let recent = dated(&[2018, 2019, 2020, 2021, 2022, 2023, 2024, 2025, 2019, 2020, 1970]);
    assert_eq!(reference_currency(&recent, 2026).majority_outdated(), Some(false));
}

#[test]
fn the_currency_row_states_which_references_its_denominator_counts() {
    let mut refs = dated(&(1980..1991).collect::<Vec<i32>>());
    for _ in 0..5 {
        refs.push(Reference { raw: String::new(), authors: "B".into(), year: None, title: None, doi: None });
    }
    let mut ex = sectioned("Introduction\n\nA paragraph.\n");
    ex.references = refs;
    let novelty = [];
    let report = review(
        &lens(LensId::NoveltyLiterature),
        &LensInput { full_text: Some("Introduction\n\nA paragraph.\n"), novelty: Some(&novelty), ..input(&ex) },
    );
    let c = report
        .minor_concerns
        .iter()
        .find(|c| c.code == "reference_list_is_mostly_outdated")
        .unwrap_or_else(|| panic!("{report:?}"));
    assert!(c.summary.contains("of 11 dated references"), "{}", c.summary);
    assert!(c.spans[0].contains("16 reference(s) parsed, 11 carrying a year"), "{:?}", c.spans);
    assert!(c.spans[0].contains("denominator is the dated ones"), "the row must say what its denominator counts: {:?}", c.spans);
}

#[test]
fn a_full_text_check_with_no_text_supplied_concludes_nothing() {
    let r = sectioned("Methods\n\nWe recruited 412 participants.\n");
    let specialists: [SpecialistReport; 0] = [];
    let report = review(&lens(LensId::Methodology), &LensInput { specialists: Some(&specialists), ..input(&r) });
    assert!(report.major_concerns.is_empty(), "{:?}", report.major_concerns);
    assert!(report.strengths.is_empty(), "and it is not a pass either: {:?}", report.strengths);
}

#[test]
fn a_check_its_own_gate_skipped_is_not_reported_as_a_strength() {
    let desk = methodology_over(
        "Introduction\n\nThis chapter reviews sediment chemistry in three lakes.\n\n\
         Methods\n\nData availability: the dataset is deposited in Zenodo.\n",
    );
    assert!(
        desk.strengths.iter().all(|s| !s.starts_with("Ethical Compliance")),
        "the ethics check never ran on a study with no subjects: {:?}",
        desk.strengths
    );
    assert!(
        desk.criteria.iter().any(|c| c.criterion == "Ethical Compliance"
            && matches!(&c.state, CriterionState::SourceNotRun { detail } if detail.contains("its own gate turned it away"))),
        "and the report says which: {:?}",
        desk.criteria
    );
    assert!(
        desk.strengths.iter().any(|s| s.starts_with("Reproducibility & Data Availability")),
        "{:?}",
        desk.strengths
    );
}

#[test]
fn the_strength_line_counts_checks_and_names_them() {
    let report = methodology_over(
        "Methods\n\nWe recruited 412 participants. Ethical approval was granted by the \
         institutional review board. Data availability: deposited in Zenodo.\n",
    );
    let s = report
        .strengths
        .iter()
        .find(|s| s.starts_with("Ethical Compliance"))
        .unwrap_or_else(|| panic!("{report:?}"));
    assert!(
        s.contains("1 of this criterion's check(s) ran — no_ethics_statement_in_a_study_with_subjects — reading"),
        "the number counts checks and the checks are named: {s}"
    );
}

#[test]
fn every_specialist_code_is_attributed_to_its_specialist() {
    let attributed: Vec<&str> = [SourceId::FrequentistStats, SourceId::MlMethodology, SourceId::ClaimEvidenceStrength]
        .iter()
        .flat_map(|s| codes_of(*s))
        .collect();
    for c in &attributed {
        assert!(SHIPPED_CODES.contains(c), "`{c}` is attributed but not shipped");
    }
    for c in SHIPPED_CODES {
        let elsewhere = NOT_FROM_A_SPECIALIST.iter().any(|(n, _)| n == c);
        assert!(
            attributed.contains(c) || elsewhere,
            "`{c}` is shipped, attributed to no specialist, and not listed as coming from anything else"
        );
        assert!(!(attributed.contains(c) && elsewhere), "`{c}` is claimed by a specialist AND by something else");
    }
}

#[test]
fn a_concern_that_quotes_nothing_is_refused_by_the_lenss_own_policy() {
    let r = sectioned("Results\n\nThe mean was 4.2 (p = 0.03).\n");
    let naked = SpecialistReport {
        specialist: "frequentist_stats".into(),
        admitted: vec![SpecialistFinding {
            code: "multiple_comparisons_uncorrected".into(),
            summary: "something".into(),
            span: None,
            location: None,
            uncertainty: Some("u".into()),
        }],
        not_applicable: None,
    };
    let stats = lens(LensId::Statistics);
    assert!(stats.evidence_policy.citation_required, "precondition");
    let standards: [StandardEvaluation; 0] = [];
    let report = review(
        &stats,
        &LensInput { specialists: Some(std::slice::from_ref(&naked)), standards: Some(&standards), ..input(&r) },
    );
    assert!(report.major_concerns.iter().all(|c| c.code != "multiple_comparisons_uncorrected"), "{report:?}");
    assert_eq!(report.policy_rejected.len(), 1, "{:?}", report.policy_rejected);
    assert!(report.policy_rejected[0].contains("carried nothing"), "and the refusal says why: {:?}", report.policy_rejected);
}

#[test]
fn every_concern_from_every_lens_carries_at_least_one_span() {
    let text = "Abstract\n\nA cross-sectional employer survey of 222 firms.\n\n\
                Results\n\nProvision was 36.5% (t = 2.1, p = 0.04).\n\n\
                Discussion\n\nCapacity causes higher provision among firms.\n";
    let r = sectioned(text);
    let reports = vec![
        ran_clean("frequentist_stats"),
        SpecialistReport {
            specialist: "ml_methodology".into(),
            admitted: vec![],
            not_applicable: Some("no model is trained or evaluated".into()),
        },
        SpecialistReport {
            specialist: "claim_evidence_strength".into(),
            admitted: vec![SpecialistFinding {
                code: "causal_claim_from_associational_design".into(),
                summary: "A causal claim is drawn from a cross-sectional design.".into(),
                span: Some("Capacity causes higher provision among firms.".into()),
                location: Some(at(SectionKind::Discussion, 2, 0)),
                uncertainty: Some("The design was read from the manuscript's own description.".into()),
            }],
            not_applicable: None,
        },
    ];
    let standards: Vec<StandardEvaluation> =
        [Standard::Consort, Standard::Strobe].iter().map(|s| evaluate(*s, &r, text)).collect();
    let validity = every_rule_ran(vec![
        ValidityFlag {
            rule: RuleId::MissingEffectSize,
            explanation: "p-value reported without an effect size".into(),
            location: at(SectionKind::Results, 1, 0),
        },
        ValidityFlag {
            rule: RuleId::MissingConfidenceInterval,
            explanation: "p-value reported without a confidence interval".into(),
            location: at(SectionKind::Results, 1, 0),
        },
    ]);
    for l in lenses() {
        let novelty = [];
        let report = review(
            &l,
            &LensInput {
                full_text: Some(text),
                specialists: Some(&reports),
                validity: Some(&validity),
                standards: Some(&standards),
                novelty: Some(&novelty),
                ..input(&r)
            },
        );
        for c in report.major_concerns.iter().chain(report.minor_concerns.iter()) {
            assert!(!c.spans.is_empty(), "{:?} / {} / {} quotes nothing", l.id, c.criterion, c.code);
        }
        assert!(
            report.policy_rejected.is_empty(),
            "{:?} produced a concern its own policy had to refuse: {:?}",
            l.id,
            report.policy_rejected
        );
    }
}

#[test]
fn no_lens_recommends_an_outcome() {
    let r = sectioned("Introduction\n\nA paragraph.\n");
    for l in lenses() {
        let report = review(&l, &input(&r));
        let text = format!("{} {}", report.overall_assessment, report.contribution);
        for banned in ["we recommend", "recommend acceptance", "should be accepted", "should be rejected", "recommend rejection"] {
            assert!(!text.to_lowercase().contains(banned), "{:?} made a recommendation: {text}", l.id);
        }
    }
}

#[test]
fn an_empty_compliance_section_says_no_journal_was_read() {
    let r = sectioned("Introduction\n\nA paragraph.\n");
    let report = review(&lens(LensId::ReportingEthics), &input(&r));
    assert!(report.journal_compliance.iter().any(|l| l.contains("not compliance")), "{:?}", report.journal_compliance);
}
