use gaply_core::report_compose::Block;
use gaply_core::report_model::{ManuscriptFacts, ReportedStatistic};
use gaply_core::report_sections::statistics;

fn facts(stats: Vec<ReportedStatistic>) -> ManuscriptFacts {
    ManuscriptFacts {
        title: Some("A Study".into()),
        word_count: 4000,
        section_count: 5,
        table_count: 1,
        reference_count: 20,
        statistics: stats,
    }
}

fn stat(kind: &str, reported: &str, effect: bool) -> ReportedStatistic {
    ReportedStatistic {
        kind: kind.into(),
        reported: reported.into(),
        location: "Results, paragraph 1".into(),
        effect_size_present: effect,
        is_threshold: false,
    }
}

fn threshold(reported: &str) -> ReportedStatistic {
    ReportedStatistic {
        kind: "Significance threshold".into(),
        reported: reported.into(),
        location: "Methods, paragraph 1".into(),
        effect_size_present: false,
        is_threshold: true,
    }
}

fn section(stats: Vec<ReportedStatistic>) -> Vec<Block> {
    let mut out = Vec::new();
    statistics(&facts(stats), &mut out);
    out
}

fn headings(blocks: &[Block]) -> Vec<String> {
    blocks
        .iter()
        .filter_map(|b| match b {
            Block::Heading { text, .. } => Some(text.clone()),
            _ => None,
        })
        .collect()
}

#[test]
fn the_reported_with_an_effect_size_block_can_now_fill() {
    let blocks = section(vec![
        stat("p-value", "p = 0.01", true),
        stat("Cohen's d", "d = 0.42", true),
        stat("p-value", "p = 0.20", false),
    ]);
    let h = headings(&blocks);
    assert!(h.iter().any(|t| t == "Reported with an effect size (2)"), "the with-effect-size block must fill: {h:?}");
    assert!(h.iter().any(|t| t == "Reported without an effect size (1)"), "{h:?}");
    let text: Vec<String> = blocks
        .iter()
        .filter_map(|b| match b {
            Block::Paragraph { text } => Some(text.clone()),
            _ => None,
        })
        .collect();
    assert_eq!(text.iter().filter(|t| *t == "None.").count(), 0, "{text:?}");
}

#[test]
fn a_report_with_no_effect_sizes_still_says_none() {
    let blocks = section(vec![stat("p-value", "p = 0.01", false)]);
    let h = headings(&blocks);
    assert!(h.iter().any(|t| t == "Reported with an effect size (0)"), "{h:?}");
}

#[test]
fn a_significance_criterion_gets_its_own_block_not_the_missing_bucket() {
    let blocks = section(vec![stat("p-value", "p = 0.01", false), threshold("p < 0.05")]);
    let h = headings(&blocks);
    assert!(h.iter().any(|t| t == "Significance criteria declared (1)"), "the criterion must have its own block: {h:?}");
    assert!(h.iter().any(|t| t == "Reported without an effect size (1)"), "only the real p-value counts as missing one: {h:?}");
    assert!(
        h.iter().any(|t| t == "Reported with an effect size (0)"),
        "and the criterion must not inflate the accompanied count either: {h:?}"
    );
}

#[test]
fn the_statistics_section_lists_each_statistic_as_written() {
    let blocks = section(vec![stat("t", "t(28) = 2.1", true), threshold("p < 0.05")]);
    assert!(matches!(blocks[0], Block::PageBreak));
    let bullets: Vec<String> = blocks
        .iter()
        .filter_map(|b| match b {
            Block::Bullet { text, .. } => Some(text.clone()),
            _ => None,
        })
        .collect();
    assert_eq!(bullets, vec!["t — t(28) = 2.1 (Results, paragraph 1)".to_string(), "p < 0.05 (Methods, paragraph 1)".to_string()]);
    assert!(section(vec![]).is_empty(), "no statistic, no section");
}

#[test]
fn the_summary_states_agreement_counts_and_the_disclaimer() {
    let mut out = Vec::new();
    gaply_core::report_sections::summary("concern", &facts(vec![]), "Certainty tiers: …", &mut out);
    assert_eq!(out.len(), 4);
    assert!(matches!(&out[0], Block::Heading { text, level: 1 } if text == "Summary"));
    assert!(matches!(&out[1], Block::Paragraph { text } if text == "Agreement across the checks: concern."));
    assert!(matches!(&out[2], Block::Paragraph { text } if text == "This manuscript has 5 sections, 1 tables and 20 references."));
    assert!(matches!(&out[3], Block::Note { text } if text == "Certainty tiers: …"));
}
