use gaply_core::extract::{Location, SectionKind};
use gaply_core::grouping::{group_findings, FindingRow};

fn at(paragraph: usize) -> Location {
    Location { section: SectionKind::Results, paragraph, section_index: None }
}

fn row(agent: &str, title: &str, detail: &str, loc: Option<Location>, prov: &[&str]) -> FindingRow {
    FindingRow {
        agent: agent.into(),
        title: title.into(),
        detail: detail.into(),
        location: loc,
        also_at: vec![],
        provenance: prov.iter().map(|p| p.to_string()).collect(),
        evidence_provenance: vec!["rule:MissingEffectSize".into()],
    }
}

#[test]
fn identical_rows_group_into_one_carrying_every_location() {
    let rows = vec![
        row("maths", "missing effect size", "A p-value without an effect size.", Some(at(0)), &["location:Results paragraph 0"]),
        row("extraction", "citation recency", "Old references.", None, &["signal:citation_recency"]),
        row("maths", "missing effect size", "A p-value without an effect size.", Some(at(3)), &["location:Results paragraph 3"]),
        row("maths", "missing effect size", "A p-value without an effect size.", Some(at(5)), &["location:Results paragraph 5"]),
    ];
    let g = group_findings(rows);
    assert_eq!(g.len(), 2, "three identical rows are one");
    assert_eq!(g[0].title, "missing effect size (raised at 3 places)");
    assert_eq!(g[0].location, Some(at(0)));
    assert_eq!(g[0].also_at, vec![at(3), at(5)]);
    assert_eq!(
        g[0].provenance,
        vec![
            "location:Results paragraph 0".to_string(),
            "location:Results paragraph 3".to_string(),
            "rule:MissingEffectSize".to_string(),
            "location:Results paragraph 5".to_string(),
        ]
    );
    assert_eq!(g[1].title, "citation recency", "an ungrouped row keeps its title");
}

#[test]
fn rows_a_reader_can_tell_apart_stay_apart() {
    let rows = vec![
        row("maths", "missing effect size", "detail one", Some(at(0)), &[]),
        row("maths", "missing effect size", "detail two", Some(at(1)), &[]),
        row("stats", "missing effect size", "detail one", Some(at(2)), &[]),
    ];
    let g = group_findings(rows);
    assert_eq!(g.len(), 3);
    assert!(g.iter().all(|r| r.title == "missing effect size" && r.also_at.is_empty()));
}
