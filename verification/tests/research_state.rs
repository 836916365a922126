use std::sync::Arc;

use gaply_core::extract::{
    Citation, ClaimId, ExtractionResult, Location, Reference, ScientificClaim, ScientificExtraction, Section,
    SectionKind, SourceSpan, Stat, StatClaim, TableRef,
};
use gaply_core::research_state::{Edge, EdgeKind, NodeRef, ResearchState};

fn sec(kind: SectionKind, heading: &str, paras: &[&str]) -> Section {
    Section { kind, heading: heading.to_string(), paragraphs: paras.iter().map(|p| p.to_string()).collect() }
}

fn at(section: SectionKind, section_index: usize, paragraph: usize) -> Location {
    Location { section, paragraph, section_index: Some(section_index) }
}

fn reference(raw: &str, authors: &str, year: i32) -> Reference {
    Reference { raw: raw.into(), authors: authors.into(), year: Some(year), title: None, doi: None }
}

/// The sleep-and-memory paper as extraction returns it: five sections, a
/// paired t-test with its statistic, p-value and effect size, Table 1 in the
/// same Results paragraph, numeric markers `[1]` and `[second]`, and two
/// references.
fn paper_with_second_marker(second: u32) -> ExtractionResult {
    let results = at(SectionKind::Results, 3, 0);
    ExtractionResult {
        title: Some("Sleep and Memory".into()),
        sections: vec![
            sec(SectionKind::Abstract, "Abstract", &["We examined sleep and recall."]),
            sec(
                SectionKind::Introduction,
                "Introduction",
                &["Prior work suggests sleep supports consolidation [1].\nA second line reports the opposite [2]."],
            ),
            sec(
                SectionKind::Methods,
                "Methods",
                &["We recruited 48 participants and analysed recall with a paired t-test."],
            ),
            sec(
                SectionKind::Results,
                "Results",
                &["Table 1 Recall by condition. Sleep improved recall (t(47) = 3.2, p = 0.002, d = 0.46)."],
            ),
            sec(
                SectionKind::References,
                "References",
                &[
                    "Walker M P and Stickgold R. 2006. Sleep, memory, and plasticity. Annual Review of Psychology 57: 139-166.",
                    "Diekelmann S and Born J. 2010. The memory function of sleep. Nature Reviews Neuroscience 11: 114-126.",
                ],
            ),
        ],
        statistics: vec![
            StatClaim { stat: Stat::Test { name: "paired t-test".into() }, raw: "paired t-test".into(), location: at(SectionKind::Methods, 2, 0) },
            StatClaim { stat: Stat::TestStatistic { text: "t(47) = 3.2".into() }, raw: "t(47) = 3.2".into(), location: results },
            StatClaim { stat: Stat::PValue { text: "p = 0.002".into() }, raw: "p = 0.002".into(), location: results },
            StatClaim { stat: Stat::EffectSize { text: "d = 0.46".into() }, raw: "d = 0.46".into(), location: results },
        ],
        tables: vec![TableRef { label: "Table 1".into(), location: results }],
        citations: vec![
            Citation { raw: "[1]".into(), numbers: vec![1], location: at(SectionKind::Introduction, 1, 0) },
            Citation {
                raw: format!("[{second}]"),
                numbers: vec![second],
                location: at(SectionKind::Introduction, 1, 0),
            },
        ],
        references: vec![
            reference(
                "Walker M P and Stickgold R. 2006. Sleep, memory, and plasticity. Annual Review of Psychology 57: 139-166.",
                "Walker M P and Stickgold R",
                2006,
            ),
            reference(
                "Diekelmann S and Born J. 2010. The memory function of sleep. Nature Reviews Neuroscience 11: 114-126.",
                "Diekelmann S and Born J",
                2010,
            ),
        ],
        scientific: None,
    }
}

fn state() -> ResearchState {
    ResearchState::from_extraction(&paper_with_second_marker(2))
}

#[test]
fn the_derivation_is_pure_and_the_hash_is_stable() {
    let a = state();
    let b = state();
    assert_eq!(a.content_hash, b.content_hash, "same input must hash the same");
    assert_eq!(a, b);
    assert!(a.hash_matches());
    assert!(!a.content_hash.is_empty());
}

#[test]
fn the_hash_detects_a_mutated_state() {
    let mut s = state();
    assert!(s.hash_matches());
    s.title = Some("a different paper".into());
    assert!(!s.hash_matches(), "the hash must cover the fields it is supposed to");
}

#[test]
fn a_clone_keeps_the_hash_and_an_edited_clone_loses_it() {
    let s = state();
    let mut c = s.clone();
    assert_eq!(c, s);
    assert!(c.hash_matches());
    c.schema_version = 2;
    assert_ne!(c, s);
    assert!(!c.hash_matches(), "the schema version is hashed too");
}

#[test]
fn provenance_names_each_extractor_including_the_one_that_does_not_exist() {
    let s = state();
    let by = |f: &str| s.provenance.iter().find(|p| p.field == f).cloned().expect(f);
    assert_eq!(by("statistics").extractor, "extract::stats");
    assert_eq!(by("references").extractor, "extract::citations::parse_reference_list");
    assert!(by("statistics").count > 0, "the fixture has a t-test");
    let figs = by("figures");
    assert_eq!(figs.count, 0);
    assert!(figs.extractor.contains("none"), "the absence must name itself: {figs:?}");
    assert!(s.figures.is_empty());
}

#[test]
fn numeric_citations_edge_to_their_reference_by_index() {
    let s = state();
    let cites: Vec<&Edge> = s.evidence.of_kind(EdgeKind::CitesReference);
    assert!(!cites.is_empty(), "the fixture has numeric markers and a reference list");
    for e in &cites {
        let (NodeRef::Citation { index: ci }, NodeRef::Reference { index: ri }) = (&e.from, &e.to) else {
            panic!("wrong node kinds on a CitesReference edge: {e:?}")
        };
        assert!(*ci < s.citations.len());
        assert!(*ri < s.references.len(), "an edge must never point past the bibliography");
    }
}

#[test]
fn an_out_of_range_marker_produces_no_edge_rather_than_a_nearest_guess() {
    let s = ResearchState::from_extraction(&paper_with_second_marker(9));
    for e in s.evidence.of_kind(EdgeKind::CitesReference) {
        let NodeRef::Reference { index } = &e.to else { panic!("wrong node") };
        assert!(*index < s.references.len(), "edge points past the reference list: {e:?}");
    }
}

#[test]
fn a_statistic_and_a_table_in_one_paragraph_are_co_located_not_supported() {
    let s = state();
    let edges: Vec<&Edge> = s.evidence.of_kind(EdgeKind::StatisticCoLocatedWithTable);
    assert!(!edges.is_empty(), "the fixture puts Table 1 and a t-test in one paragraph");
    for e in edges {
        let (NodeRef::Statistic { index: si }, NodeRef::Table { index: ti }) = (&e.from, &e.to) else {
            panic!("wrong node kinds: {e:?}")
        };
        assert_eq!(
            s.statistics[*si].location, s.tables[*ti].location,
            "an edge claiming co-location must actually be co-located"
        );
    }
}

#[test]
fn no_claim_edges_exist_when_the_scientific_layer_did_not_run() {
    let s = state();
    assert!(s.science.is_none(), "the base extraction does not run the scientific layer");
    assert_eq!(s.evidence.of_kind(EdgeKind::ClaimCoLocatedWithStatistic).len(), 0);
}

#[test]
fn claim_edges_appear_when_the_scientific_layer_runs() {
    let mut ex = paper_with_second_marker(2);
    ex.scientific = Some(Arc::new(ScientificExtraction {
        claims: vec![ScientificClaim {
            id: ClaimId("c1".into()),
            statement: "Sleep improved recall".into(),
            source_span: SourceSpan::Point(at(SectionKind::Results, 3, 0)),
        }],
        contributions: vec![],
        limitations: vec![],
        questions: vec![],
        hypotheses: vec![],
    }));
    let s = ResearchState::from_extraction(&ex);
    assert!(s.science.is_some(), "the opt-in layer must be present when asked for");
    for e in s.evidence.of_kind(EdgeKind::ClaimCoLocatedWithStatistic) {
        let NodeRef::Claim { id } = &e.from else { panic!("wrong node: {e:?}") };
        assert!(
            s.science.as_ref().unwrap().claims.iter().any(|c| &c.id.0 == id),
            "an edge names a claim that is not in the layer: {id}"
        );
    }
    assert_eq!(s.evidence.of_kind(EdgeKind::ClaimCoLocatedWithStatistic).len(), 3, "one per co-located statistic");
    assert!(s.carries_manuscript_prose());
}

#[test]
fn a_state_without_the_layer_is_gate_safe() {
    let ex = ExtractionResult {
        title: None,
        sections: vec![
            sec(SectionKind::Introduction, "Introduction", &["Background."]),
            sec(
                SectionKind::Results,
                "Results",
                &["Treated larvae showed values appreciably higher than the untreated control across both seasons."],
            ),
        ],
        statistics: vec![],
        tables: vec![],
        citations: vec![],
        references: vec![],
        scientific: None,
    };
    let s = ResearchState::from_extraction(&ex);
    assert!(s.science.is_none(), "the base extraction does not run the scientific layer");
    assert!(!s.carries_manuscript_prose());
}

#[test]
fn the_structure_counts_paragraphs_and_keeps_headings() {
    let s = state();
    assert_eq!(s.structure.len(), 5);
    assert_eq!(s.structure[4].heading, "References");
    assert_eq!(s.structure[4].paragraph_count, 2);
    assert!(s.structure.iter().any(|x| x.heading.to_lowercase().contains("method")));
}

#[test]
fn the_hash_is_sixty_four_lower_hex_digits() {
    let s = state();
    assert_eq!(s.content_hash.len(), 64);
    assert!(s.content_hash.chars().all(|c| c.is_ascii_hexdigit() && !c.is_ascii_uppercase()));
}

#[test]
fn every_marker_names_the_reference_it_numbers() {
    let s = state();
    let pairs: Vec<(usize, usize)> = s
        .evidence
        .of_kind(EdgeKind::CitesReference)
        .iter()
        .map(|e| match (&e.from, &e.to) {
            (NodeRef::Citation { index: c }, NodeRef::Reference { index: r }) => (*c, *r),
            _ => panic!("wrong node kinds"),
        })
        .collect();
    assert_eq!(pairs, vec![(0, 0), (1, 1)]);
    let s9 = ResearchState::from_extraction(&paper_with_second_marker(9));
    assert_eq!(s9.evidence.of_kind(EdgeKind::CitesReference).len(), 1, "[9] names no reference");
}
