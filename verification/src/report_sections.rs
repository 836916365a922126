//! Sections of the composed report that read only plain manuscript facts.

use vstd::prelude::*;

use crate::report_compose::{Block, Tone};
use crate::report_model::{ManuscriptFacts, ReportedStatistic};
use crate::text::{decimal, owned, push_str, push_usize};

verus! {

/// A block as plain values.
pub enum BlockView {
    Cover { title: Seq<char>, subtitle: Seq<char>, meta: Seq<(Seq<char>, Seq<char>)> },
    Heading { text: Seq<char>, level: u8 },
    Paragraph { text: Seq<char> },
    Bullet { text: Seq<char>, indent: u8 },
    Note { text: Seq<char> },
    Badge { text: Seq<char>, tone: Tone },
    PageBreak,
}

/// One block as plain values.
pub open spec fn block_view(b: Block) -> BlockView {
    match b {
        Block::Cover { title, subtitle, meta } => BlockView::Cover {
            title: title@,
            subtitle: subtitle@,
            meta: meta@.map_values(|p: (String, String)| (p.0@, p.1@)),
        },
        Block::Heading { text, level } => BlockView::Heading { text: text@, level },
        Block::Paragraph { text } => BlockView::Paragraph { text: text@ },
        Block::Bullet { text, indent } => BlockView::Bullet { text: text@, indent },
        Block::Note { text } => BlockView::Note { text: text@ },
        Block::Badge { text, tone } => BlockView::Badge { text: text@, tone },
        Block::PageBreak => BlockView::PageBreak,
    }
}

/// A run of blocks as plain values.
pub open spec fn blocks_view(v: Seq<Block>) -> Seq<BlockView> {
    v.map_values(|b: Block| block_view(b))
}

/// Which statistics a block lists.
#[derive(PartialEq, Eq, Structural)]
pub enum StatGroup {
    /// Results reported with an effect size.
    WithEffect,
    /// Results reported without one.
    WithoutEffect,
    /// Significance criteria, which report no result.
    Criterion,
}

/// The group a statistic belongs to.
pub open spec fn group_of(s: ReportedStatistic) -> StatGroup {
    if s.is_threshold {
        StatGroup::Criterion
    } else if s.effect_size_present {
        StatGroup::WithEffect
    } else {
        StatGroup::WithoutEffect
    }
}

/// The bullet a statistic is listed as.
pub open spec fn stat_line(s: ReportedStatistic, g: StatGroup) -> Seq<char> {
    if g == StatGroup::Criterion {
        s.reported@ + " ("@ + s.location@ + ")"@
    } else {
        s.kind@ + " — "@ + s.reported@ + " ("@ + s.location@ + ")"@
    }
}

/// The bullets of the statistics in group `g`, in order.
pub open spec fn group_bullets(ss: Seq<ReportedStatistic>, g: StatGroup) -> Seq<BlockView>
    decreases ss.len(),
{
    if ss.len() == 0 {
        Seq::empty()
    } else {
        group_bullets(ss.drop_last(), g) + if group_of(ss.last()) == g {
            seq![BlockView::Bullet { text: stat_line(ss.last(), g), indent: 0 }]
        } else {
            Seq::empty()
        }
    }
}

pub const MISSING_EFFECT_NOTE: &'static str = "Many journals ask for an effect size alongside a significance test.";

pub const CRITERIA_NOTE: &'static str = "These state the threshold your analysis used. They are not results, and nothing below is a finding about them.";

/// The effect-size block: its counted heading, then its bullets, or "None."
/// when there are none.
pub open spec fn effect_block(label: Seq<char>, lead: Seq<BlockView>, bullets: Seq<BlockView>) -> Seq<BlockView> {
    seq![BlockView::Heading { text: label + decimal(bullets.len()) + ")"@, level: 2 }] + if bullets.len() == 0 {
        seq![BlockView::Paragraph { text: "None."@ }]
    } else {
        lead + bullets
    }
}

/// The criteria block, only when there are criteria.
pub open spec fn criteria_block(bullets: Seq<BlockView>) -> Seq<BlockView> {
    if bullets.len() == 0 {
        Seq::empty()
    } else {
        seq![
            BlockView::Heading { text: "Significance criteria declared ("@ + decimal(bullets.len()) + ")"@, level: 2 },
            BlockView::Paragraph { text: CRITERIA_NOTE@ },
        ] + bullets
    }
}

/// **The statistics section.** Nothing when the manuscript reports no
/// statistic. Otherwise, after a page break: the results reported with an
/// effect size, then those reported without one (each heading counting its
/// rows, and "None." under an empty one), then — only when there are any —
/// the significance criteria the manuscript declared, in a block of their
/// own, since a criterion reports no result and belongs under neither
/// effect-size heading.
pub open spec fn statistics_spec(ss: Seq<ReportedStatistic>) -> Seq<BlockView> {
    if ss.len() == 0 {
        Seq::empty()
    } else {
        seq![BlockView::PageBreak, BlockView::Heading { text: "Statistics reported"@, level: 1 }]
            + effect_block("Reported with an effect size ("@, Seq::empty(), group_bullets(ss, StatGroup::WithEffect))
            + effect_block(
            "Reported without an effect size ("@,
            seq![BlockView::Paragraph { text: MISSING_EFFECT_NOTE@ }],
            group_bullets(ss, StatGroup::WithoutEffect),
        ) + criteria_block(group_bullets(ss, StatGroup::Criterion))
    }
}

/// Push one block.
fn push_block(out: &mut Vec<Block>, b: Block)
    ensures
        blocks_view(final(out)@) == blocks_view(old(out)@).push(block_view(b)),
{
    let ghost before = blocks_view(out@);
    out.push(b);
    assert(blocks_view(out@) =~= before.push(block_view(b)));
}

fn in_group(s: &ReportedStatistic, g: &StatGroup) -> (r: bool)
    ensures
        r == (group_of(*s) == *g),
{
    match g {
        StatGroup::Criterion => s.is_threshold,
        StatGroup::WithEffect => !s.is_threshold && s.effect_size_present,
        StatGroup::WithoutEffect => !s.is_threshold && !s.effect_size_present,
    }
}

/// The bullets of group `g`.
fn bullets_of(ss: &Vec<ReportedStatistic>, g: StatGroup) -> (r: Vec<Block>)
    ensures
        blocks_view(r@) == group_bullets(ss@, g),
{
    let mut out: Vec<Block> = Vec::new();
    let mut i: usize = 0;
    assert(blocks_view(out@) =~= group_bullets(ss@.take(0), g));
    while i < ss.len()
        invariant
            i <= ss@.len(),
            blocks_view(out@) == group_bullets(ss@.take(i as int), g),
        decreases ss@.len() - i,
    {
        assert(ss@.take(i + 1).drop_last() =~= ss@.take(i as int));
        assert(ss@.take(i + 1).last() == ss@[i as int]);
        let s = &ss[i];
        if in_group(s, &g) {
            let mut text = String::new();
            if g == StatGroup::Criterion {
                push_str(&mut text, s.reported.as_str());
            } else {
                push_str(&mut text, s.kind.as_str());
                push_str(&mut text, " — ");
                push_str(&mut text, s.reported.as_str());
            }
            push_str(&mut text, " (");
            push_str(&mut text, s.location.as_str());
            push_str(&mut text, ")");
            assert(text@ =~= stat_line(*s, g));
            push_block(&mut out, Block::Bullet { text, indent: 0 });
        }
        i += 1;
    }
    assert(ss@.take(ss@.len() as int) =~= ss@);
    out
}

/// Append blocks.
fn append_blocks(out: &mut Vec<Block>, more: Vec<Block>)
    ensures
        blocks_view(final(out)@) == blocks_view(old(out)@) + blocks_view(more@),
{
    let ghost a = out@;
    let ghost b = more@;
    let mut more = more;
    out.append(&mut more);
    assert(blocks_view(out@) =~= blocks_view(a) + blocks_view(b));
}

fn counted_heading(label: &str, n: usize) -> (b: Block)
    ensures
        block_view(b) == (BlockView::Heading { text: label@ + decimal(n as nat) + ")"@, level: 2 }),
{
    let mut text = owned(label);
    push_usize(&mut text, n);
    push_str(&mut text, ")");
    Block::Heading { text, level: 2 }
}

/// Push an effect-size block.
fn push_effect_block(out: &mut Vec<Block>, label: &str, lead: Option<&str>, bullets: Vec<Block>)
    ensures
        blocks_view(final(out)@) == blocks_view(old(out)@) + effect_block(
            label@,
            match lead {
                Some(t) => seq![BlockView::Paragraph { text: t@ }],
                None => Seq::empty(),
            },
            blocks_view(bullets@),
        ),
{
    let ghost start = blocks_view(out@);
    let ghost bv = blocks_view(bullets@);
    push_block(out, counted_heading(label, bullets.len()));
    if bullets.len() == 0 {
        push_block(out, Block::Paragraph { text: owned("None.") });
    } else {
        match lead {
            Some(t) => push_block(out, Block::Paragraph { text: owned(t) }),
            None => {},
        }
        append_blocks(out, bullets);
    }
    assert(blocks_view(out@) =~= start + effect_block(
        label@,
        match lead {
            Some(t) => seq![BlockView::Paragraph { text: t@ }],
            None => Seq::empty(),
        },
        bv,
    ));
}

/// Push the criteria block.
fn push_criteria_block(out: &mut Vec<Block>, bullets: Vec<Block>)
    ensures
        blocks_view(final(out)@) == blocks_view(old(out)@) + criteria_block(blocks_view(bullets@)),
{
    let ghost start = blocks_view(out@);
    let ghost bv = blocks_view(bullets@);
    if bullets.len() > 0 {
        push_block(out, counted_heading("Significance criteria declared (", bullets.len()));
        push_block(out, Block::Paragraph { text: owned(CRITERIA_NOTE) });
        append_blocks(out, bullets);
    }
    assert(blocks_view(out@) =~= start + criteria_block(bv));
}

/// Compose the statistics section from the manuscript's facts.
pub fn statistics(facts: &ManuscriptFacts, out: &mut Vec<Block>)
    ensures
        blocks_view(final(out)@) == blocks_view(old(out)@) + statistics_spec(facts.statistics@),
{
    let ghost start = blocks_view(out@);
    let ss = &facts.statistics;
    if ss.len() == 0 {
        assert(blocks_view(out@) =~= start + statistics_spec(ss@));
        return;
    }
    let with = bullets_of(ss, StatGroup::WithEffect);
    let without = bullets_of(ss, StatGroup::WithoutEffect);
    let criteria = bullets_of(ss, StatGroup::Criterion);
    push_block(out, Block::PageBreak);
    push_block(out, Block::Heading { text: owned("Statistics reported"), level: 1 });
    let ghost a1 = blocks_view(out@);
    push_effect_block(out, "Reported with an effect size (", None, with);
    let ghost a2 = blocks_view(out@);
    push_effect_block(out, "Reported without an effect size (", Some(MISSING_EFFECT_NOTE), without);
    let ghost a3 = blocks_view(out@);
    push_criteria_block(out, criteria);
    assert(a1 =~= start + seq![BlockView::PageBreak, BlockView::Heading { text: "Statistics reported"@, level: 1 }]);
    assert(blocks_view(out@) =~= start + statistics_spec(ss@));
}


/// **The summary section**: its heading; the checks' agreement, labelled as
/// agreement rather than as an assessment; the manuscript's section, table
/// and reference counts; then the certainty disclaimer as a note.
pub open spec fn summary_spec(verdict: Seq<char>, facts: ManuscriptFacts, disclaimer: Seq<char>) -> Seq<BlockView> {
    seq![
        BlockView::Heading { text: "Summary"@, level: 1 },
        BlockView::Paragraph { text: "Agreement across the checks: "@ + verdict + "."@ },
        BlockView::Paragraph {
            text: "This manuscript has "@ + decimal(facts.section_count as nat) + " sections, "@ + decimal(
                facts.table_count as nat,
            ) + " tables and "@ + decimal(facts.reference_count as nat) + " references."@,
        },
        BlockView::Note { text: disclaimer },
    ]
}

/// Compose the summary section.
pub fn summary(verdict: &str, facts: &ManuscriptFacts, disclaimer: &str, out: &mut Vec<Block>)
    ensures
        blocks_view(final(out)@) == blocks_view(old(out)@) + summary_spec(verdict@, *facts, disclaimer@),
{
    let ghost start = blocks_view(out@);
    push_block(out, Block::Heading { text: owned("Summary"), level: 1 });
    let mut agreement = owned("Agreement across the checks: ");
    push_str(&mut agreement, verdict);
    push_str(&mut agreement, ".");
    push_block(out, Block::Paragraph { text: agreement });
    let mut counts = owned("This manuscript has ");
    push_usize(&mut counts, facts.section_count);
    push_str(&mut counts, " sections, ");
    push_usize(&mut counts, facts.table_count);
    push_str(&mut counts, " tables and ");
    push_usize(&mut counts, facts.reference_count);
    push_str(&mut counts, " references.");
    push_block(out, Block::Paragraph { text: counts });
    push_block(out, Block::Note { text: owned(disclaimer) });
    assert(blocks_view(out@) =~= start + summary_spec(verdict@, *facts, disclaimer@));
}

} // verus!
