use gaply_core::extract::Reference;
use gaply_core::report::{CertaintyTier, FindingSeverity};
use gaply_core::reference_use::{uncited_reference_findings, ReferenceUse};

fn entry(authors: &str, year: Option<i32>) -> Reference {
    Reference {
        raw: format!("{authors}. {}. A paper.", year.map(|y| y.to_string()).unwrap_or_default()),
        authors: authors.into(),
        year,
        title: Some("A paper".into()),
        doi: None,
    }
}

// The matcher's verdicts are given as plain values: for a bibliography whose
// one entry the text cites, whose two entries share an author-year key, and
// whose second entry no citation names.

#[test]
fn a_fully_cited_bibliography_produces_no_finding() {
    let refs = vec![entry("Smith J", Some(2020))];
    assert!(uncited_reference_findings(&refs, &[ReferenceUse::Cited]).is_none(), "a non-event is not a finding");
}

#[test]
fn an_ambiguous_key_yields_no_uncited_finding_end_to_end() {
    let refs = vec![entry("Etebari K, Mirhoseini S", Some(2005)), entry("Etebari K, Bizhannia A", Some(2005))];
    let f = uncited_reference_findings(&refs, &[ReferenceUse::NotEvaluated, ReferenceUse::NotEvaluated]);
    assert!(f.is_none(), "ambiguous keys must produce NO finding, got: {:?}", f.map(|f| f.detail));
}

#[test]
fn an_uncited_reference_is_reported_with_both_numbers() {
    let refs = vec![entry("Smith J", Some(2020)), entry("Jones A", Some(2019))];
    let f = uncited_reference_findings(&refs, &[ReferenceUse::Cited, ReferenceUse::Uncited])
        .expect("uncited-reference finding missing");
    assert_eq!(f.severity, FindingSeverity::Minor);
    assert_eq!(f.tier, CertaintyTier::AiAssessedModerate);
    assert!(f.detail.contains("2 of 2 reference(s) were checked"), "detail: {}", f.detail);
    assert!(f.detail.contains("Jones 2019"), "should name the uncited entry: {}", f.detail);
    assert!(
        f.detail.contains("could not be checked and are NOT counted as uncited"),
        "detail must disclose the not-evaluated count: {}",
        f.detail
    );
}

#[test]
fn the_uncited_finding_states_its_exact_wording() {
    let refs = vec![entry("Smith J", Some(2020)), entry("Jones A", None), entry("Lee B", Some(2001))];
    let f = uncited_reference_findings(
        &refs,
        &[ReferenceUse::Uncited, ReferenceUse::Uncited, ReferenceUse::NotEvaluated],
    )
    .unwrap();
    assert_eq!(f.title, "2 of 2 checked reference(s) appear never cited in the text");
    assert_eq!(
        f.detail,
        "2 of 3 reference(s) were checked; 2 appear(s) never cited in the text (Smith 2020; Jones). \
         1 reference(s) could not be checked and are NOT counted as uncited."
    );
    assert_eq!(
        f.provenance,
        vec![
            "signal:uncited_reference".to_string(),
            "evidence:checked=2/3 uncited=2".to_string(),
            "agent:extraction (deterministic, author-year matching)".to_string(),
        ]
    );
}

#[test]
fn only_five_uncited_entries_are_named_and_the_rest_counted() {
    let refs: Vec<Reference> = (0..7).map(|i| entry(&format!("Author{i} X"), Some(2000 + i))).collect();
    let f = uncited_reference_findings(&refs, &[ReferenceUse::Uncited; 7]).unwrap();
    assert!(f.detail.contains("(Author0 2000; Author1 2001; Author2 2002; Author3 2003; Author4 2004; and 2 more)"), "{}", f.detail);
    assert!(uncited_reference_findings(&[], &[]).is_none());
}
