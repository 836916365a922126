//! The report's vocabulary — certainty tiers, finding severities, checklist
//! rows — and the evaluation of a reporting standard against one manuscript.

use vstd::prelude::*;

use crate::extract::{
    kind_name, paragraph_at, paragraph_spec, ExtractionResult, Location, SectionKind, Stat,
};
use crate::lines::{
    trim_start_chars, lines, lines_of, split_whitespace, strip_non_alnum, strip_non_alnum_chars, tokens, trim_chars,
};
use crate::standards::{
    item_count, item_data, items_for, published_item_count, published_spec, standard_name,
    ItemCheck, PublishedCount, Standard,
};
use crate::inputs::ReferenceVerification;
use crate::report_compose::{lemma_trim_starts_clean, snap_prefix, snap_spec};
use crate::text::{
    ascii_digit, chars_of, contains, occurs_at, decimal, is_white, join, lowercase, opt_view, owned, parse_usize, parse_usize_spec,
    push_char, push_chars, push_str, push_usize, seq_contains, seq_starts_with, starts_with, string_of, to_lowercase,
    trim, trim_start, views,
};


verus! {

// ============================================================================
// Certainty tiers + severity
// ============================================================================

/// How certain a finding is.
#[derive(Debug, Clone, Copy, PartialEq, Eq, Structural)]
pub enum CertaintyTier {
    MathematicallyCertain,
    AiAssessedModerate,
    ReconsideredAfterPeerReview,
}

pub open spec fn tier_label(t: CertaintyTier) -> Seq<char> {
    match t {
        CertaintyTier::MathematicallyCertain => "mathematically certain"@,
        CertaintyTier::AiAssessedModerate => "AI-assessed, moderate confidence"@,
        CertaintyTier::ReconsideredAfterPeerReview => "reconsidered after peer review"@,
    }
}

pub open spec fn tier_rank(t: CertaintyTier) -> u8 {
    match t {
        CertaintyTier::MathematicallyCertain => 0,
        CertaintyTier::ReconsideredAfterPeerReview => 1,
        CertaintyTier::AiAssessedModerate => 2,
    }
}

impl CertaintyTier {
    /// The label shown verbatim in the report.
    pub fn label(&self) -> (r: &'static str)
        ensures
            r@ == tier_label(*self),
    {
        match self {
            CertaintyTier::MathematicallyCertain => "mathematically certain",
            CertaintyTier::AiAssessedModerate => "AI-assessed, moderate confidence",
            CertaintyTier::ReconsideredAfterPeerReview => "reconsidered after peer review",
        }
    }

    /// Within a severity band, mathematically-certain findings outrank
    /// reconsidered ones, which outrank AI-assessed ones.
    pub fn rank(&self) -> (r: u8)
        ensures
            r == tier_rank(*self),
    {
        match self {
            CertaintyTier::MathematicallyCertain => 0,
            CertaintyTier::ReconsideredAfterPeerReview => 1,
            CertaintyTier::AiAssessedModerate => 2,
        }
    }
}

/// A finding's severity.
#[derive(Debug, Clone, Copy, PartialEq, Eq, Structural)]
pub enum FindingSeverity {
    /// Hard constraints — deterministic failures. Always first.
    Critical,
    /// Soft-consensus concerns.
    Major,
    /// Uncertain / needs-attention items.
    Minor,
    /// Informational.
    Info,
}

pub open spec fn severity_rank(s: FindingSeverity) -> u8 {
    match s {
        FindingSeverity::Critical => 0,
        FindingSeverity::Major => 1,
        FindingSeverity::Minor => 2,
        FindingSeverity::Info => 3,
    }
}

impl FindingSeverity {
    /// Priority rank, 0 the most urgent.
    pub fn rank(&self) -> (r: u8)
        ensures
            r == severity_rank(*self),
    {
        match self {
            FindingSeverity::Critical => 0,
            FindingSeverity::Major => 1,
            FindingSeverity::Minor => 2,
            FindingSeverity::Info => 3,
        }
    }
}

/// Which agent produced a finding.
#[derive(Debug, Clone, Copy, PartialEq, Eq, Structural)]
pub enum AgentKind {
    AiDetection,
    Extraction,
    Rag,
    ValidationMaths,
    Verification,
    Plagiarism,
}

/// What editorial statement a finding makes.
#[derive(Debug, Clone, Copy, PartialEq, Eq, Structural)]
pub enum ClaimKind {
    /// Something about the manuscript a referee would require changed.
    ManuscriptDefect,
    /// A signal about who or what wrote the text.
    AuthorshipSignal,
    /// A statement about the run, not about the manuscript.
    ProcessState,
}

/// What a lane-level round-table opinion asserts. Total over the agents.
pub open spec fn opinion_claim_spec(agent: AgentKind) -> ClaimKind {
    match agent {
        AgentKind::AiDetection => ClaimKind::AuthorshipSignal,
        AgentKind::Extraction => ClaimKind::ProcessState,
        AgentKind::Rag => ClaimKind::ProcessState,
        AgentKind::ValidationMaths => ClaimKind::ManuscriptDefect,
        AgentKind::Verification => ClaimKind::ProcessState,
        AgentKind::Plagiarism => ClaimKind::ManuscriptDefect,
    }
}

/// What a lane-level round-table opinion asserts.
pub fn opinion_claim(agent: AgentKind) -> (r: ClaimKind)
    ensures
        r == opinion_claim_spec(agent),
{
    match agent {
        AgentKind::AiDetection => ClaimKind::AuthorshipSignal,
        AgentKind::Extraction => ClaimKind::ProcessState,
        AgentKind::Rag => ClaimKind::ProcessState,
        AgentKind::ValidationMaths => ClaimKind::ManuscriptDefect,
        AgentKind::Verification => ClaimKind::ProcessState,
        AgentKind::Plagiarism => ClaimKind::ManuscriptDefect,
    }
}

/// **An authorship signal is never louder than `Info`**; every other claim
/// keeps the severity proposed for it.
pub fn authorship_capped(claim: ClaimKind, proposed: FindingSeverity) -> (r: FindingSeverity)
    ensures
        claim == ClaimKind::AuthorshipSignal ==> r == FindingSeverity::Info,
        claim != ClaimKind::AuthorshipSignal ==> r == proposed,
{
    match claim {
        ClaimKind::AuthorshipSignal => FindingSeverity::Info,
        ClaimKind::ProcessState | ClaimKind::ManuscriptDefect => proposed,
    }
}

/// The title of a finding raised in several places.
pub open spec fn raised_at_spec(summary: Seq<char>, places: nat, quoted: bool) -> Seq<char> {
    if places <= 1 {
        summary
    } else if quoted {
        summary + " (raised at "@ + decimal(places) + " places; all are quoted)"@
    } else {
        summary + " (raised at "@ + decimal(places) + " places)"@
    }
}

/// **How a finding raised in several places is titled** — one formatter for
/// every surface. `quoted` says whether every place can be quoted.
pub fn raised_at_phrase(summary: &str, places: usize, quoted: bool) -> (r: String)
    ensures
        r@ == raised_at_spec(summary@, places as nat, quoted),
{
    let mut s = owned(summary);
    if places <= 1 {
        return s;
    }
    push_str(&mut s, " (raised at ");
    push_usize(&mut s, places);
    if quoted {
        push_str(&mut s, " places; all are quoted)");
    } else {
        push_str(&mut s, " places)");
    }
    s
}

/// The two tiers every report can carry, each named: what a
/// 'mathematically certain' finding states, and what an 'AI-assessed' one is.
pub const DISCLAIMER_BASE: &'static str = "Certainty tiers: 'mathematically certain' findings come from \
deterministic checks and state what an automated check did or did not find in the text, not that the \
manuscript is wrong; \
'AI-assessed, moderate confidence' findings are statistical or model-derived signals — \
indicators for human review, never definitive proof";

pub const DISCLAIMER_REVISED: &'static str = "; 'reconsidered after peer review' findings were revised \
by the verification agent after seeing other agents' evidence and remain non-definitive";

/// The disclaimer a report carries.
pub open spec fn disclaimer_spec(revised: bool) -> Seq<char> {
    if revised {
        DISCLAIMER_BASE@ + DISCLAIMER_REVISED@ + "."@
    } else {
        DISCLAIMER_BASE@ + "."@
    }
}

/// Every disclaimer names the two tiers every report can carry, and one
/// whose findings were revised also names the revision tier.
pub proof fn lemma_disclaimer_names_its_tiers(revised: bool)
    ensures
        contains(disclaimer_spec(revised), "mathematically certain"@),
        contains(disclaimer_spec(revised), "AI-assessed"@),
        contains(disclaimer_spec(revised), "never"@),
        revised ==> contains(disclaimer_spec(revised), "reconsidered after peer review"@),
{
    reveal_strlit("Certainty tiers: 'mathematically certain' findings come from \
deterministic checks and state what an automated check did or did not find in the text, not that the \
manuscript is wrong; \
'AI-assessed, moderate confidence' findings are statistical or model-derived signals — \
indicators for human review, never definitive proof");
    reveal_strlit("; 'reconsidered after peer review' findings were revised \
by the verification agent after seeing other agents' evidence and remain non-definitive");
    reveal_strlit(".");
    reveal_strlit("mathematically certain");
    reveal_strlit("AI-assessed");
    reveal_strlit("never");
    reveal_strlit("reconsidered after peer review");
    let d = disclaimer_spec(revised);
    assert(d.subrange(18, 40) =~= "mathematically certain"@);
    assert(occurs_at(d, "mathematically certain"@, 18));
    assert(d.subrange(184, 195) =~= "AI-assessed"@);
    assert(occurs_at(d, "AI-assessed"@, 184));
    assert(d.subrange(299, 304) =~= "never"@);
    assert(occurs_at(d, "never"@, 299));
    if revised {
        assert(d.subrange(324, 354) =~= "reconsidered after peer review"@);
        assert(occurs_at(d, "reconsidered after peer review"@, 324));
    }
}

/// **The disclaimer explains the tiers THIS report has**: the revision clause
/// appears exactly when an agent revised.
pub fn disclaimer_for(revised: bool) -> (r: String)
    ensures
        r@ == disclaimer_spec(revised),
{
    let mut s = owned(DISCLAIMER_BASE);
    if revised {
        push_str(&mut s, DISCLAIMER_REVISED);
    }
    push_char(&mut s, '.');
    proof {
        assert(seq!['.'] =~= "."@) by {
            reveal_strlit(".");
        }
    }
    s
}

// ============================================================================
// Checklist rows
// ============================================================================

/// One more page on which the journal states a requirement.
#[derive(Debug, Clone)]
pub struct ChecklistSource {
    pub guideline_source: String,
    pub source_span: String,
    /// The article type this source bound the requirement to.
    pub article_type: Option<String>,
}

/// One row of the journal-compliance checklist. Compliance has three states:
/// `passed`, failed, and `unevaluable` — an undecided row is never a pass.
#[derive(Debug, Clone)]
pub struct ChecklistItem {
    pub requirement: String,
    pub passed: bool,
    pub detail: String,
    /// Provenance of the guideline this row was derived from, or `None` for
    /// the always-on structural checks.
    pub guideline_source: Option<String>,
    /// The journal's own sentence.
    pub source_span: Option<String>,
    /// The article type the requirement was bound to; `None` means not stated.
    pub article_type: Option<String>,
    /// Which extraction field this row read.
    pub checked_field: Option<String>,
    pub unevaluable: bool,
    /// Every other page on which the journal states this requirement.
    pub also_from: Vec<ChecklistSource>,
}

/// A checklist source as plain text.
#[verifier::ext_equal]
pub struct SourceView {
    pub guideline_source: Seq<char>,
    pub source_span: Seq<char>,
    pub article_type: Option<Seq<char>>,
}

impl View for ChecklistSource {
    type V = SourceView;

    open spec fn view(&self) -> SourceView {
        SourceView {
            guideline_source: self.guideline_source@,
            source_span: self.source_span@,
            article_type: opt_view(self.article_type),
        }
    }
}

/// A checklist row as plain text.
#[verifier::ext_equal]
pub struct RowView {
    pub requirement: Seq<char>,
    pub passed: bool,
    pub detail: Seq<char>,
    pub guideline_source: Option<Seq<char>>,
    pub source_span: Option<Seq<char>>,
    pub article_type: Option<Seq<char>>,
    pub checked_field: Option<Seq<char>>,
    pub unevaluable: bool,
    pub also_from: Seq<SourceView>,
}

impl View for ChecklistItem {
    type V = RowView;

    open spec fn view(&self) -> RowView {
        RowView {
            requirement: self.requirement@,
            passed: self.passed,
            detail: self.detail@,
            guideline_source: opt_view(self.guideline_source),
            source_span: opt_view(self.source_span),
            article_type: opt_view(self.article_type),
            checked_field: opt_view(self.checked_field),
            unevaluable: self.unevaluable,
            also_from: self.also_from@.map_values(|c: ChecklistSource| c@),
        }
    }
}

/// The views of a list of rows.
pub open spec fn rows_view(v: Seq<ChecklistItem>) -> Seq<RowView> {
    v.map_values(|i: ChecklistItem| i@)
}

/// Why a harness note exists.
#[derive(Debug, Clone, Copy, PartialEq, Eq, Structural)]
pub enum HarnessNoteReason {
    OutputRejectedByInternalGate,
}

/// A statement about the run, never about the manuscript.
#[derive(Debug, Clone)]
pub struct HarnessNote {
    pub agent: AgentKind,
    pub detail: String,
    pub reason: HarnessNoteReason,
}

/// How the debate went.
#[derive(Debug, Clone)]
pub struct DebateSummary {
    pub rounds_run: usize,
    pub converged: bool,
    pub overridden_by_constraint: bool,
    pub rejected_agents: Vec<AgentKind>,
    pub revised_agents: Vec<AgentKind>,
}

// ============================================================================
// Reporting-standard evaluation
// ============================================================================

/// What an item's test decided.
#[derive(Debug, Clone, Copy, PartialEq, Eq, Structural)]
pub enum ItemStatus {
    /// The evidence the item asks for is present.
    Met,
    /// The item could be decided and the evidence is absent.
    NotFound,
    /// The item was not decided — distinct from `NotFound`.
    Unevaluable,
}

/// One item's verdict, with the manuscript evidence it rests on.
#[derive(Debug, Clone)]
pub struct ItemVerdict {
    pub standard: Standard,
    pub item: &'static str,
    pub requirement: &'static str,
    pub status: ItemStatus,
    pub reads: Vec<&'static str>,
    /// The manuscript paragraph or heading the verdict rests on, whole.
    pub evidence_span: Option<String>,
    pub location: Option<Location>,
    /// Why, in one sentence.
    pub detail: String,
}

/// A standard evaluated against one manuscript.
#[derive(Debug, Clone)]
pub struct StandardEvaluation {
    pub standard: Standard,
    pub verdicts: Vec<ItemVerdict>,
    /// Items this engine carries at all.
    pub items_implemented: usize,
    /// Items it can actually decide.
    pub items_evaluable: usize,
    /// What the published standard has, with its unit.
    pub published_items: Option<PublishedCount>,
}

/// How many verdicts have the given status.
pub open spec fn count_status(vs: Seq<ItemVerdict>, st: ItemStatus) -> nat
    decreases vs.len(),
{
    if vs.len() == 0 {
        0
    } else {
        count_status(vs.drop_last(), st) + if vs.last().status == st {
            1nat
        } else {
            0nat
        }
    }
}

/// The coverage sentence for a row: how many items could be DECIDED, over
/// what the published standard has, in its own unit.
pub open spec fn coverage_spec(e: StandardEvaluation) -> Seq<char> {
    coverage_text(e.standard, e.items_evaluable as nat, e.published_items)
}

/// The coverage sentence for a standard with `evaluable` decidable items and
/// the given published count.
pub open spec fn coverage_text(s: Standard, evaluable: nat, published: Option<PublishedCount>) -> Seq<char> {
    let name = standard_name(s);
    match published {
        None => "no evaluator for "@ + name,
        Some(count) => match count.sub_items {
            Some(rows) => "checks "@ + decimal(evaluable) + " of "@ + name
                + "'s "@ + decimal(rows as nat) + " checklist rows"@,
            None => if published_spec(s) is Some {
                "checks "@ + decimal(evaluable) + " of "@ + name + "'s "@
                    + decimal(count.numbered as nat) + SUB_ITEM_NOTE@
            } else {
                "checks "@ + decimal(evaluable) + " of "@ + name + "'s "@
                    + decimal(count.numbered as nat) + " numbered items"@
            },
        },
    }
}

/// The coverage sentence of a standard as the evaluator states it.
pub open spec fn coverage_of(s: Standard) -> Seq<char> {
    coverage_text(s, evaluable_upto(s, item_count(s) as int), published_spec(s))
}

pub const SUB_ITEM_NOTE: &'static str =
    " numbered items — Gaply's items include sub-items, so the true fraction is smaller";

impl StandardEvaluation {
    /// How many items were met.
    pub fn met(&self) -> (r: usize)
        ensures
            r == count_status(self.verdicts@, ItemStatus::Met),
    {
        count_with(&self.verdicts, ItemStatus::Met)
    }

    /// How many items were decided and found missing.
    pub fn not_found(&self) -> (r: usize)
        ensures
            r == count_status(self.verdicts@, ItemStatus::NotFound),
    {
        count_with(&self.verdicts, ItemStatus::NotFound)
    }

    /// **The fraction, phrased for the row**: evaluable items over published
    /// ones, with the unit mismatch declared rather than hidden.
    pub fn coverage_phrase(&self) -> (r: String)
        ensures
            r@ == coverage_spec(*self),
    {
        let name = self.standard.as_str();
        let count = match self.published_items {
            None => {
                let mut s = owned("no evaluator for ");
                push_str(&mut s, name);
                return s;
            },
            Some(c) => c,
        };
        let mut s = owned("checks ");
        push_usize(&mut s, self.items_evaluable);
        push_str(&mut s, " of ");
        push_str(&mut s, name);
        push_str(&mut s, "'s ");
        match count.sub_items {
            Some(rows) => {
                push_usize(&mut s, rows);
                push_str(&mut s, " checklist rows");
            },
            None => {
                push_usize(&mut s, count.numbered);
                if self.standard.items_are_sub_items() {
                    push_str(&mut s, SUB_ITEM_NOTE);
                } else {
                    push_str(&mut s, " numbered items");
                }
            },
        }
        s
    }
}

fn count_with(vs: &Vec<ItemVerdict>, st: ItemStatus) -> (r: usize)
    ensures
        r == count_status(vs@, st),
{
    let mut n: usize = 0;
    let mut i: usize = 0;
    while i < vs.len()
        invariant
            i <= vs@.len(),
            n == count_status(vs@.subrange(0, i as int), st),
            n <= i,
        decreases vs@.len() - i,
    {
        assert(vs@.subrange(0, i + 1).drop_last() =~= vs@.subrange(0, i as int));
        if vs[i].status == st {
            n += 1;
        }
        i += 1;
    }
    assert(vs@.subrange(0, vs@.len() as int) =~= vs@);
    n
}

// ---------------------------------------------------------------------------
// The per-item decision
// ---------------------------------------------------------------------------

/// A statistic of the kind an item check asks for.
pub open spec fn stat_fits(s: Stat, check: ItemCheck) -> bool {
    match check {
        ItemCheck::SampleSizeReported => s is SampleSize,
        ItemCheck::StatisticalTestReported => s is Test || s is TestStatistic,
        ItemCheck::EffectSizeReported => s is EffectSize,
        ItemCheck::ConfidenceIntervalReported => s is ConfidenceInterval,
        _ => false,
    }
}

/// Every character of `s` is whitespace.
pub open spec fn all_white(s: Seq<char>) -> bool {
    forall|i: int| 0 <= i < s.len() ==> is_white(s[i])
}

/// The first statistic at or after `i` of the kind `check` asks for whose
/// paragraph resolves to text that is not blank, as (paragraph, location).
pub open spec fn first_evidence(ex: ExtractionResult, check: ItemCheck, i: int) -> Option<
    (Seq<char>, Location),
>
    decreases ex.statistics@.len() - i,
{
    if i < 0 || i >= ex.statistics@.len() {
        None
    } else {
        let here = if stat_fits(ex.statistics@[i].stat, check) {
            match paragraph_spec(ex, ex.statistics@[i].location) {
                Some(p) => if !all_white(p) {
                    Some((p, ex.statistics@[i].location))
                } else {
                    None
                },
                None => None,
            }
        } else {
            None
        };
        if here is Some {
            here
        } else {
            first_evidence(ex, check, i + 1)
        }
    }
}

/// The index of the first section of kind `k` with at least one paragraph.
pub open spec fn first_with_content(ex: ExtractionResult, k: SectionKind, i: int) -> Option<int>
    decreases ex.sections@.len() - i,
{
    if i < 0 || i >= ex.sections@.len() {
        None
    } else if ex.sections@[i].kind == k && ex.sections@[i].paragraphs@.len() > 0 {
        Some(i)
    } else {
        first_with_content(ex, k, i + 1)
    }
}

/// A line that looks like a heading and names one of `words`: at most 60
/// characters after trimming, not ending in a sentence terminator, not a
/// table-of-contents row, and holding one of the words as a whole token.
pub open spec fn heading_shaped(l: Seq<char>, words: Seq<Seq<char>>) -> bool {
    &&& heading_frame(l)
    &&& exists|t: int| 0 <= t < tokens(lowercase(l)).len() && words.contains(strip_non_alnum(#[trigger] tokens(lowercase(l))[t]))
}

/// The shape of a heading line, before its words are looked at.
pub open spec fn heading_frame(l: Seq<char>) -> bool {
    &&& l.len() > 0
    &&& l.len() <= 60
    &&& !(l.last() == '.' || l.last() == '!' || l.last() == '?' || l.last() == ','
        || l.last() == ';' || l.last() == ':')
    &&& !l.contains('\t')
    &&& !contains(l, "..."@)
}

/// The first heading-shaped line at or after line `i`, trimmed.
pub open spec fn heading_line_from(ls: Seq<Seq<char>>, words: Seq<Seq<char>>, i: int) -> Option<
    Seq<char>,
>
    decreases ls.len() - i,
{
    if i < 0 || i >= ls.len() {
        None
    } else if heading_shaped(trim(ls[i]), words) {
        Some(trim(ls[i]))
    } else {
        heading_line_from(ls, words, i + 1)
    }
}

/// The first heading-shaped line of a text naming one of `words`.
pub open spec fn heading_line(text: Seq<char>, words: Seq<Seq<char>>) -> Option<Seq<char>> {
    heading_line_from(lines_of(text), words, 0)
}

/// The words a section check looks for.
pub open spec fn check_words(kind: SectionKind) -> Seq<Seq<char>> {
    if kind == SectionKind::Abstract {
        seq!["abstract"@, "summary"@, "synopsis"@]
    } else {
        seq!["results"@, "findings"@]
    }
}

/// How `{words:?}` prints a list of plain words.
pub open spec fn debug_words(words: Seq<Seq<char>>) -> Seq<char> {
    "["@ + join(words.map_values(|w: Seq<char>| "\""@ + w + "\""@), ", "@) + "]"@
}

/// The verdict of an item: status, evidence, location, detail.
pub type Decided = (ItemStatus, Option<String>, Option<Location>, String);

/// The specification of a verdict, over views.
pub open spec fn decided_spec(
    ex: ExtractionResult,
    text: Seq<char>,
    check: ItemCheck,
    reads: Seq<Seq<char>>,
) -> (ItemStatus, Option<Seq<char>>, Option<Location>, Seq<char>) {
    match check {
        ItemCheck::NotImplemented => (
            ItemStatus::Unevaluable,
            None,
            None,
            "not checked: the evidence for this item lives only in "@ + join(reads, " / "@)
                + ", which Gaply does not produce (§11 D165)"@,
        ),
        ItemCheck::AbstractPresent => section_spec(ex, text, SectionKind::Abstract),
        ItemCheck::ResultsSectionPresent => section_spec(ex, text, SectionKind::Results),
        _ => match first_evidence(ex, check, 0) {
            Some((p, loc)) => (ItemStatus::Met, Some(p), Some(loc), met_text(check)),
            None => (ItemStatus::NotFound, None, None, missing_text(check)),
        },
    }
}

pub open spec fn met_text(check: ItemCheck) -> Seq<char> {
    match check {
        ItemCheck::SampleSizeReported => "an explicit sample size is reported"@,
        ItemCheck::StatisticalTestReported => "a named statistical test is reported"@,
        ItemCheck::EffectSizeReported => "an effect size is reported with its value"@,
        _ => "a confidence interval is reported"@,
    }
}

pub open spec fn missing_text(check: ItemCheck) -> Seq<char> {
    match check {
        ItemCheck::SampleSizeReported => "no explicit sample size (`n = …`) was found anywhere in the manuscript"@,
        ItemCheck::StatisticalTestReported => "no named statistical test or test statistic was found"@,
        ItemCheck::EffectSizeReported => "no effect size with a value was found"@,
        _ => "no confidence interval was found"@,
    }
}

/// Is a section of this kind present? The classifier first, then a
/// heading-shaped line in the full text.
pub open spec fn section_spec(ex: ExtractionResult, text: Seq<char>, kind: SectionKind) -> (
    ItemStatus,
    Option<Seq<char>>,
    Option<Location>,
    Seq<char>,
) {
    match first_with_content(ex, kind, 0) {
        Some(i) => (
            ItemStatus::Met,
            Some(ex.sections@[i].paragraphs@[0]@),
            Some(Location { section: kind, paragraph: 0, section_index: Some(i as usize) }),
            "a "@ + kind_name(kind) + " section is present with content"@,
        ),
        None => match heading_line(text, check_words(kind)) {
            Some(line) => (
                ItemStatus::Met,
                Some(line),
                None,
                "no "@ + kind_name(kind) + " section was classified, but the manuscript carries the heading \""@
                    + line + HEADING_NOTE@,
            ),
            None => (
                ItemStatus::NotFound,
                None,
                None,
                "no "@ + kind_name(kind)
                    + " section was classified and no heading-shaped line matching "@
                    + debug_words(check_words(kind)) + " was found anywhere in the manuscript"@,
            ),
        },
    }
}

pub const HEADING_NOTE: &'static str =
    "\" — the heading vocabulary did not recognise it, which is a fact \
     about the extractor and not about the manuscript";

/// The views of a decided verdict.
pub open spec fn decided_view(d: Decided) -> (ItemStatus, Option<Seq<char>>, Option<Location>, Seq<char>) {
    (
        d.0,
        match d.1 {
            Some(s) => Some(s@),
            None => None,
        },
        d.2,
        d.3@,
    )
}

fn first_evidence_exec(ex: &ExtractionResult, check: ItemCheck) -> (r: Option<(String, Location)>)
    ensures
        match r {
            Some((p, loc)) => first_evidence(*ex, check, 0) == Some((p@, loc)),
            None => first_evidence(*ex, check, 0) is None,
        },
{
    let mut i: usize = 0;
    while i < ex.statistics.len()
        invariant
            i <= ex.statistics@.len(),
            first_evidence(*ex, check, 0) == first_evidence(*ex, check, i as int),
        decreases ex.statistics@.len() - i,
    {
        let fits = match check {
            ItemCheck::SampleSizeReported => match &ex.statistics[i].stat {
                Stat::SampleSize { .. } => true,
                _ => false,
            },
            ItemCheck::StatisticalTestReported => match &ex.statistics[i].stat {
                Stat::Test { .. } | Stat::TestStatistic { .. } => true,
                _ => false,
            },
            ItemCheck::EffectSizeReported => match &ex.statistics[i].stat {
                Stat::EffectSize { .. } => true,
                _ => false,
            },
            ItemCheck::ConfidenceIntervalReported => match &ex.statistics[i].stat {
                Stat::ConfidenceInterval { .. } => true,
                _ => false,
            },
            _ => false,
        };
        if fits {
            let loc = ex.statistics[i].location;
            if let Some(p) = paragraph_at(ex, &loc) {
                let cs = chars_of(p);
                if !blank(&cs) {
                    return Some((owned(p), loc));
                }
            }
        }
        i += 1;
    }
    None
}

/// Every character is whitespace.
fn blank(cs: &[char]) -> (r: bool)
    ensures
        r == all_white(cs@),
{
    let mut i: usize = 0;
    while i < cs.len()
        invariant
            i <= cs@.len(),
            forall|j: int| 0 <= j < i ==> is_white(cs@[j]),
        decreases cs@.len() - i,
    {
        if !crate::text::is_whitespace(cs[i]) {
            return false;
        }
        i += 1;
    }
    true
}

fn decide(check: ItemCheck, found: Option<(String, Location)>, met: &str, missing: &str) -> (r: Decided)
    ensures
        match found {
            Some((p, l)) => decided_view(r) == (ItemStatus::Met, Some(p@), Some(l), met@),
            None => decided_view(r) == (ItemStatus::NotFound, None::<Seq<char>>, None::<Location>, missing@),
        },
{
    match found {
        Some((span, loc)) => (ItemStatus::Met, Some(span), Some(loc), owned(met)),
        None => (ItemStatus::NotFound, None, None, owned(missing)),
    }
}

fn first_content_section(ex: &ExtractionResult, kind: SectionKind) -> (r: Option<usize>)
    ensures
        match r {
            Some(i) => first_with_content(*ex, kind, 0) == Some(i as int),
            None => first_with_content(*ex, kind, 0) is None,
        },
{
    let mut i: usize = 0;
    while i < ex.sections.len()
        invariant
            i <= ex.sections@.len(),
            first_with_content(*ex, kind, 0) == first_with_content(*ex, kind, i as int),
        decreases ex.sections@.len() - i,
    {
        if ex.sections[i].kind == kind && ex.sections[i].paragraphs.len() > 0 {
            return Some(i);
        }
        i += 1;
    }
    None
}

proof fn lemma_first_with_content_range(ex: ExtractionResult, k: SectionKind, i: int)
    ensures
        first_with_content(ex, k, i) matches Some(j) ==> 0 <= j < ex.sections@.len()
            && ex.sections@[j].kind == k && ex.sections@[j].paragraphs@.len() > 0,
    decreases ex.sections@.len() - i,
{
    if i >= 0 && i < ex.sections@.len() && !(ex.sections@[i].kind == k
        && ex.sections@[i].paragraphs@.len() > 0) {
        lemma_first_with_content_range(ex, k, i + 1);
    }
}

fn section_words(kind: SectionKind) -> (r: Vec<&'static str>)
    ensures
        views(r@) == check_words(kind),
{
    if kind == SectionKind::Abstract {
        let v = vec!["abstract", "summary", "synopsis"];
        assert(views(v@) =~= check_words(kind));
        v
    } else {
        let v = vec!["results", "findings"];
        assert(views(v@) =~= check_words(kind));
        v
    }
}

fn push_debug_words(s: &mut String, words: &Vec<&'static str>)
    ensures
        final(s)@ == old(s)@ + debug_words(views(words@)),
{
    let ghost start = old(s)@;
    push_char(s, '[');
    let ghost quoted = views(words@).map_values(|w: Seq<char>| "\""@ + w + "\""@);
    let mut i: usize = 0;
    proof {
        reveal_strlit("[");
        reveal_strlit("\"");
        assert(s@ =~= start + "["@ + join(quoted.subrange(0, 0), ", "@));
    }
    while i < words.len()
        invariant
            i <= words@.len(),
            quoted == views(words@).map_values(|w: Seq<char>| "\""@ + w + "\""@),
            s@ == start + "["@ + join(quoted.subrange(0, i as int), ", "@),
        decreases words@.len() - i,
    {
        let ghost before = s@;
        if i > 0 {
            push_str(s, ", ");
        }
        push_char(s, '"');
        push_str(s, words[i]);
        push_char(s, '"');
        proof {
            reveal_strlit("\"");
            let q = quoted.subrange(0, i + 1);
            assert(q.drop_last() =~= quoted.subrange(0, i as int));
            assert(q.last() == "\""@ + words@[i as int]@ + "\""@);
            if i > 0 {
                assert(s@ =~= before + ", "@ + q.last());
            } else {
                assert(quoted.subrange(0, 0) =~= Seq::<Seq<char>>::empty());
                assert(s@ =~= before + q.last());
            }
        }
        i += 1;
    }
    push_char(s, ']');
    proof {
        reveal_strlit("]");
        assert(quoted.subrange(0, words@.len() as int) =~= quoted);
        assert(s@ =~= start + debug_words(views(words@)));
    }
}

/// A line that looks like a heading and names one of `words`.
fn heading_shaped_line(text: &str, words: &Vec<&'static str>) -> (r: Option<String>)
    ensures
        match r {
            Some(l) => heading_line(text@, views(words@)) == Some(l@),
            None => heading_line(text@, views(words@)) is None,
        },
{
    let ls = lines(text);
    let ghost lv = ls@.map_values(|l: Vec<char>| l@);
    let mut i: usize = 0;
    while i < ls.len()
        invariant
            lv == ls@.map_values(|l: Vec<char>| l@),
            lv == lines_of(text@),
            i <= ls@.len(),
            heading_line(text@, views(words@)) == heading_line_from(lv, views(words@), i as int),
        decreases ls@.len() - i,
    {
        let l = trim_chars(&ls[i]);
        assert(l@ == trim(lv[i as int]));
        if is_heading_shaped(&l, words) {
            return Some(string_of(&l));
        }
        i += 1;
    }
    None
}

fn is_heading_shaped(l: &Vec<char>, words: &Vec<&'static str>) -> (r: bool)
    ensures
        r == heading_shaped(l@, views(words@)),
{
    let n = l.len();
    if n == 0 || n > 60 {
        return false;
    }
    let last = l[n - 1];
    if last == '.' || last == '!' || last == '?' || last == ',' || last == ';' || last == ':' {
        return false;
    }
    let tab = vec!['\t'];
    if seq_contains(l, &tab) {
        proof {
            let k = choose|k: int| crate::text::occurs_at(l@, tab@, k);
            assert(l@[k] == l@.subrange(k, k + 1)[0]);
        }
        return false;
    }
    proof {
        if l@.contains('\t') {
            let k = choose|k: int| 0 <= k < l@.len() && l@[k] == '\t';
            assert(l@.subrange(k, k + 1) =~= tab@);
            assert(crate::text::occurs_at(l@, tab@, k));
        }
    }
    let dots = chars_of("...");
    if seq_contains(l, &dots) {
        return false;
    }
    let ls = string_of(l);
    let lower = to_lowercase(ls.as_str());
    let lc = chars_of(lower.as_str());
    let toks = split_whitespace(&lc);
    let ghost tv = toks@.map_values(|t: Vec<char>| t@);
    let mut t: usize = 0;
    assert(heading_frame(l@));
    while t < toks.len()
        invariant
            heading_frame(l@),
            tv == toks@.map_values(|t: Vec<char>| t@),
            tv == crate::lines::tokens(lowercase(l@)),
            t <= toks@.len(),
            forall|j: int| 0 <= j < t ==> !views(words@).contains(strip_non_alnum(#[trigger] tv[j])),
        decreases toks@.len() - t,
    {
        let stripped = strip_non_alnum_chars(&toks[t]);
        let mut k: usize = 0;
        while k < words.len()
            invariant
                k <= words@.len(),
                heading_frame(l@),
                t < toks@.len(),
                tv == toks@.map_values(|t: Vec<char>| t@),
                tv == crate::lines::tokens(lowercase(l@)),
                stripped@ == strip_non_alnum(tv[t as int]),
                forall|m: int| 0 <= m < k ==> views(words@)[m] != stripped@,
            decreases words@.len() - k,
        {
            let w = chars_of(words[k]);
            if crate::text::seq_eq(&stripped, &w) {
                assert(views(words@)[k as int] == stripped@);
                assert(views(words@).contains(strip_non_alnum(tv[t as int])));
                assert(tv[t as int] == tokens(lowercase(l@))[t as int]);
                assert(0 <= t < tokens(lowercase(l@)).len() && views(words@).contains(
                    strip_non_alnum(tokens(lowercase(l@))[t as int]),
                ));
                return true;
            }
            k += 1;
        }
        assert(!views(words@).contains(stripped@)) by {
            if views(words@).contains(stripped@) {
                let m = choose|m: int| 0 <= m < views(words@).len() && views(words@)[m] == stripped@;
            }
        }
        t += 1;
    }
    false
}

fn section_check(ex: &ExtractionResult, text: &str, kind: SectionKind) -> (r: Decided)
    ensures
        decided_view(r) == section_spec(*ex, text@, kind),
{
    proof {
        lemma_first_with_content_range(*ex, kind, 0);
    }
    if let Some(i) = first_content_section(ex, kind) {
        let p = ex.sections[i].paragraphs[0].clone();
        let mut d = owned("a ");
        push_str(&mut d, kind.debug_name());
        push_str(&mut d, " section is present with content");
        return (ItemStatus::Met, Some(p), Some(Location::in_section(kind, i, 0)), d);
    }
    let words = section_words(kind);
    if let Some(line) = heading_shaped_line(text, &words) {
        let mut d = owned("no ");
        push_str(&mut d, kind.debug_name());
        push_str(&mut d, " section was classified, but the manuscript carries the heading \"");
        push_str(&mut d, line.as_str());
        push_str(&mut d, HEADING_NOTE);
        return (ItemStatus::Met, Some(line), None, d);
    }
    let mut d = owned("no ");
    push_str(&mut d, kind.debug_name());
    push_str(&mut d, " section was classified and no heading-shaped line matching ");
    push_debug_words(&mut d, &words);
    push_str(&mut d, " was found anywhere in the manuscript");
    (ItemStatus::NotFound, None, None, d)
}

/// The verdict of an item with the given check and reads.
fn decide_item(ex: &ExtractionResult, text: &str, check: ItemCheck, reads: &Vec<&'static str>) -> (r: Decided)
    ensures
        decided_view(r) == decided_spec(*ex, text@, check, views(reads@)),
{
    match check {
        ItemCheck::NotImplemented => {
            let mut d = owned("not checked: the evidence for this item lives only in ");
            push_joined(&mut d, reads, " / ");
            push_str(&mut d, ", which Gaply does not produce (§11 D165)");
            (ItemStatus::Unevaluable, None, None, d)
        },
        ItemCheck::AbstractPresent => section_check(ex, text, SectionKind::Abstract),
        ItemCheck::ResultsSectionPresent => section_check(ex, text, SectionKind::Results),
        ItemCheck::SampleSizeReported => decide(
            check,
            first_evidence_exec(ex, check),
            "an explicit sample size is reported",
            "no explicit sample size (`n = …`) was found anywhere in the manuscript",
        ),
        ItemCheck::StatisticalTestReported => decide(
            check,
            first_evidence_exec(ex, check),
            "a named statistical test is reported",
            "no named statistical test or test statistic was found",
        ),
        ItemCheck::EffectSizeReported => decide(
            check,
            first_evidence_exec(ex, check),
            "an effect size is reported with its value",
            "no effect size with a value was found",
        ),
        ItemCheck::ConfidenceIntervalReported => decide(
            check,
            first_evidence_exec(ex, check),
            "a confidence interval is reported",
            "no confidence interval was found",
        ),
    }
}

/// Append `parts` joined by `sep`.
pub fn push_joined(s: &mut String, parts: &Vec<&str>, sep: &str)
    ensures
        final(s)@ == old(s)@ + join(views(parts@), sep@),
{
    let ghost start = old(s)@;
    let mut i: usize = 0;
    proof {
        assert(views(parts@).subrange(0, 0) =~= Seq::<Seq<char>>::empty());
        assert(s@ =~= start + join(views(parts@).subrange(0, 0), sep@));
    }
    while i < parts.len()
        invariant
            i <= parts@.len(),
            s@ == start + join(views(parts@).subrange(0, i as int), sep@),
        decreases parts@.len() - i,
    {
        let ghost before = s@;
        if i > 0 {
            push_str(s, sep);
        }
        push_str(s, parts[i]);
        proof {
            let q = views(parts@).subrange(0, i + 1);
            assert(q.drop_last() =~= views(parts@).subrange(0, i as int));
            if i > 0 {
                assert(s@ =~= before + sep@ + q.last());
            } else {
                assert(views(parts@).subrange(0, 0) =~= Seq::<Seq<char>>::empty());
                assert(s@ =~= before + q.last());
            }
        }
        i += 1;
    }
    assert(views(parts@).subrange(0, parts@.len() as int) =~= views(parts@));
}

/// How many of a standard's carried items can be decided.
pub open spec fn evaluable_upto(s: Standard, n: int) -> nat
    decreases n,
{
    if n <= 0 {
        0
    } else {
        evaluable_upto(s, n - 1) + if item_data(s, n - 1).2 != ItemCheck::NotImplemented {
            1nat
        } else {
            0nat
        }
    }
}

/// A verdict states exactly what the item and the manuscript decide.
pub open spec fn verdict_ok(v: ItemVerdict, s: Standard, k: int, ex: ExtractionResult, text: Seq<char>) -> bool {
    let (item, req, check, reads) = item_data(s, k);
    &&& v.standard == s
    &&& v.item@ == item
    &&& v.requirement@ == req
    &&& views(v.reads@) == reads
    &&& (v.status, match v.evidence_span {
        Some(e) => Some(e@),
        None => None,
    }, v.location, v.detail@) == decided_spec(ex, text, check, reads)
}

/// **Evaluate a standard against a manuscript. Deterministic, no model.**
///
/// One verdict per carried item, in checklist order. An item whose evidence
/// lives only in the declined scientific layer is `Unevaluable`; a section
/// item is `Met` when the classifier found the section OR the text carries a
/// heading-shaped line naming it; a statistic item is `Met` with the first
/// resolving paragraph that reports such a statistic, and `NotFound` otherwise.
pub fn evaluate(standard: Standard, extraction: &ExtractionResult, manuscript_text: &str) -> (r: StandardEvaluation)
    ensures
        r.standard == standard,
        r.verdicts@.len() == item_count(standard),
        forall|k: int| 0 <= k < r.verdicts@.len() ==> verdict_ok(#[trigger] r.verdicts@[k], standard, k, *extraction, manuscript_text@),
        r.items_implemented == item_count(standard),
        r.items_evaluable == evaluable_upto(standard, item_count(standard) as int),
        r.published_items == published_spec(standard),
{
    let items = items_for(standard);
    let mut verdicts: Vec<ItemVerdict> = Vec::new();
    let mut evaluable: usize = 0;
    let mut i: usize = 0;
    while i < items.len()
        invariant
            crate::standards::items_ok(standard, items@),
            i <= items@.len(),
            verdicts@.len() == i,
            evaluable == evaluable_upto(standard, i as int),
            evaluable <= i,
            forall|k: int| 0 <= k < i ==> verdict_ok(#[trigger] verdicts@[k], standard, k, *extraction, manuscript_text@),
        decreases items@.len() - i,
    {
        let it = &items[i];
        assert(crate::standards::item_is(items@[i as int], item_data(standard, i as int).0, item_data(standard, i as int).1, item_data(standard, i as int).2, item_data(standard, i as int).3));
        let mut reads: Vec<&'static str> = Vec::new();
        let mut j: usize = 0;
        while j < it.reads.len()
            invariant
                j <= it.reads@.len(),
                reads@ == it.reads@.subrange(0, j as int),
            decreases it.reads@.len() - j,
        {
            reads.push(it.reads[j]);
            j += 1;
            assert(reads@ =~= it.reads@.subrange(0, j as int));
        }
        assert(it.reads@.subrange(0, it.reads@.len() as int) =~= it.reads@);
        let (status, evidence_span, location, detail) = decide_item(extraction, manuscript_text, it.check, &reads);
        if it.check.is_evaluable() {
            evaluable += 1;
        }
        verdicts.push(ItemVerdict {
            standard,
            item: it.item,
            requirement: it.requirement,
            status,
            reads,
            evidence_span,
            location,
            detail,
        });
        i += 1;
    }
    StandardEvaluation {
        standard,
        verdicts,
        items_implemented: items.len(),
        items_evaluable: evaluable,
        published_items: published_item_count(standard),
    }
}

// ============================================================================
// Naming a citation by the reference it resolves to
// ============================================================================

/// How much of a reference to show when naming it in a finding title.
pub const CITATION_LABEL_CHARS: usize = 80usize;

/// The 0-based registry position a citation id `c{n}` names, when it parses
/// and `n` is at least 1.
pub open spec fn citation_index(id: Seq<char>) -> Option<nat> {
    if id.len() > 0 && id[0] == 'c' {
        match parse_usize_spec(id.drop_first()) {
            Some(n) => if n >= 1 {
                Some((n - 1) as nat)
            } else {
                None
            },
            None => None,
        }
    } else {
        None
    }
}

/// The reference a citation id names, quoted, or `None` when the id does not
/// map to a non-empty entry. An entry over the cap is cut at a word boundary
/// and marked with `…` inside the quotes.
pub open spec fn citation_label_spec(id: Seq<char>, registry: Seq<Seq<char>>) -> Option<Seq<char>> {
    match citation_index(id) {
        Some(i) => if i < registry.len() {
            let r = trim(registry[i as int]);
            if r.len() == 0 {
                None
            } else if r.len() <= CITATION_LABEL_CHARS {
                Some(seq!['\u{201c}'] + r + seq!['\u{201d}'])
            } else {
                Some(seq!['\u{201c}'] + snap_spec(r, CITATION_LABEL_CHARS as int) + seq!['\u{2026}', '\u{201d}'])
            }
        } else {
            None
        },
        None => None,
    }
}

/// The raw entries of a registry.
pub open spec fn registry_raws(registry: Seq<ReferenceVerification>) -> Seq<Seq<char>> {
    registry.map_values(|rv: ReferenceVerification| rv.reference_raw@)
}

/// The resolvable name of a citation id: `None` when the id does not map to
/// a reference, never a guessed one or the index itself.
pub fn citation_label_opt(citation_id: &str, registry: &[ReferenceVerification]) -> (r: Option<String>)
    ensures
        opt_view(r) == citation_label_spec(citation_id@, registry_raws(registry@)),
{
    let cs = chars_of(citation_id);
    if cs.len() == 0 || cs[0] != 'c' {
        return None;
    }
    let mut rest: Vec<char> = Vec::new();
    let mut i: usize = 1;
    while i < cs.len()
        invariant
            1 <= i <= cs@.len(),
            rest@ == cs@.subrange(1, i as int),
        decreases cs@.len() - i,
    {
        rest.push(cs[i]);
        i += 1;
        assert(rest@ =~= cs@.subrange(1, i as int));
    }
    assert(rest@ =~= citation_id@.drop_first());
    let rest_s = string_of(&rest);
    let n = match parse_usize(rest_s.as_str()) {
        Some(n) => n,
        None => return None,
    };
    if n == 0 || n - 1 >= registry.len() {
        return None;
    }
    let raw = chars_of(registry[n - 1].reference_raw.as_str());
    let r = trim_chars(&raw);
    assert(registry_raws(registry@)[(n - 1) as int] == registry@[(n - 1) as int].reference_raw@);
    if r.len() == 0 {
        return None;
    }
    let mut out = String::new();
    push_char(&mut out, '\u{201c}');
    if r.len() <= CITATION_LABEL_CHARS {
        push_chars(&mut out, &r);
        push_char(&mut out, '\u{201d}');
    } else {
        proof {
            lemma_trim_starts_clean(raw@);
        }
        let kept = snap_prefix(&r, CITATION_LABEL_CHARS);
        push_chars(&mut out, &kept);
        push_char(&mut out, '\u{2026}');
        push_char(&mut out, '\u{201d}');
    }
    assert(out@ =~= citation_label_spec(citation_id@, registry_raws(registry@)).unwrap());
    Some(out)
}

/// A name the author can resolve for a citation id: the quoted reference, or
/// "a reference" when the id names none.
pub fn citation_label(citation_id: &str, registry: &[ReferenceVerification]) -> (r: String)
    ensures
        r@ == match citation_label_spec(citation_id@, registry_raws(registry@)) {
            Some(l) => l,
            None => "a reference"@,
        },
{
    match citation_label_opt(citation_id, registry) {
        Some(l) => l,
        None => owned("a reference"),
    }
}

/// An item is undecided exactly when its evidence lives in a layer nothing
/// here produces; a met item always quotes the manuscript, an item that is
/// not met quotes nothing, and only a met item has a location.
pub proof fn lemma_item_verdicts(ex: ExtractionResult, text: Seq<char>, check: ItemCheck, reads: Seq<Seq<char>>)
    ensures
        (decided_spec(ex, text, check, reads).0 == ItemStatus::Unevaluable) <==> check == ItemCheck::NotImplemented,
        (decided_spec(ex, text, check, reads).0 == ItemStatus::Met) <==> decided_spec(ex, text, check, reads).1 is Some,
        decided_spec(ex, text, check, reads).2 is Some ==> decided_spec(ex, text, check, reads).0 == ItemStatus::Met,
{
}

/// Every verdict of an evaluation: it is undecided exactly when its
/// carried item is not implemented, it quotes the manuscript exactly when it
/// is met, and only a met verdict has a location.
pub proof fn lemma_evaluation_verdicts(v: ItemVerdict, s: Standard, k: int, ex: ExtractionResult, text: Seq<char>)
    requires
        verdict_ok(v, s, k, ex, text),
    ensures
        (v.status == ItemStatus::Unevaluable) <==> item_data(s, k).2 == ItemCheck::NotImplemented,
        (v.status == ItemStatus::Met) <==> v.evidence_span is Some,
        v.status != ItemStatus::Met ==> v.evidence_span is None && v.location is None,
{
    let (item, req, check, reads) = item_data(s, k);
    lemma_item_verdicts(ex, text, check, reads);
}

/// Statistic `j` can stand as evidence: its paragraph resolves to text that
/// is not blank.
pub open spec fn resolves_at(ex: ExtractionResult, j: int) -> bool {
    match paragraph_spec(ex, ex.statistics@[j].location) {
        Some(p) => !all_white(p),
        None => false,
    }
}

proof fn lemma_first_evidence_exists(ex: ExtractionResult, check: ItemCheck, i: int)
    requires
        0 <= i,
    ensures
        first_evidence(ex, check, i) is Some <==> exists|j: int|
            i <= j < ex.statistics@.len() && stat_fits(ex.statistics@[j].stat, check) && #[trigger] resolves_at(ex, j),
        first_evidence(ex, check, i) matches Some((p, loc)) ==> exists|j: int|
            i <= j < ex.statistics@.len() && stat_fits(ex.statistics@[j].stat, check) && #[trigger] resolves_at(ex, j)
                && ex.statistics@[j].location == loc && paragraph_spec(ex, loc) == Some(p),
    decreases ex.statistics@.len() - i,
{
    if i < ex.statistics@.len() {
        lemma_first_evidence_exists(ex, check, i + 1);
        if stat_fits(ex.statistics@[i].stat, check) && resolves_at(ex, i) {
            assert(resolves_at(ex, i));
        }
        if exists|j: int| i <= j < ex.statistics@.len() && stat_fits(ex.statistics@[j].stat, check) && #[trigger] resolves_at(ex, j) {
            let j = choose|j: int| i <= j < ex.statistics@.len() && stat_fits(ex.statistics@[j].stat, check) && #[trigger] resolves_at(ex, j);
            if j > i {
                assert(i + 1 <= j);
            }
        }
    }
}

/// **A statistic item is met exactly when the extraction carries a
/// statistic of the kind it asks for whose paragraph is not blank**, and
/// then it quotes that paragraph with its location; otherwise it is not
/// found. A test is reported by a named test or by a test statistic alone;
/// a sample size, an effect size and a confidence interval each by their own
/// kind.
pub proof fn lemma_statistic_items(ex: ExtractionResult, text: Seq<char>, reads: Seq<Seq<char>>)
    ensures
        (decided_spec(ex, text, ItemCheck::StatisticalTestReported, reads).0 == ItemStatus::Met) <==> exists|j: int|
            0 <= j < ex.statistics@.len() && (ex.statistics@[j].stat is Test || ex.statistics@[j].stat is TestStatistic)
                && #[trigger] resolves_at(ex, j),
        (decided_spec(ex, text, ItemCheck::SampleSizeReported, reads).0 == ItemStatus::Met) <==> exists|j: int|
            0 <= j < ex.statistics@.len() && ex.statistics@[j].stat is SampleSize && #[trigger] resolves_at(ex, j),
        (decided_spec(ex, text, ItemCheck::EffectSizeReported, reads).0 == ItemStatus::Met) <==> exists|j: int|
            0 <= j < ex.statistics@.len() && ex.statistics@[j].stat is EffectSize && #[trigger] resolves_at(ex, j),
        (decided_spec(ex, text, ItemCheck::ConfidenceIntervalReported, reads).0 == ItemStatus::Met) <==> exists|j: int|
            0 <= j < ex.statistics@.len() && ex.statistics@[j].stat is ConfidenceInterval && #[trigger] resolves_at(ex, j),
        forall|c: ItemCheck|
            (c == ItemCheck::StatisticalTestReported || c == ItemCheck::SampleSizeReported || c == ItemCheck::EffectSizeReported
                || c == ItemCheck::ConfidenceIntervalReported) ==> {
                let d = #[trigger] decided_spec(ex, text, c, reads);
                &&& d.0 == ItemStatus::Met || d.0 == ItemStatus::NotFound
                &&& d.0 == ItemStatus::Met ==> exists|j: int|
                    0 <= j < ex.statistics@.len() && #[trigger] resolves_at(ex, j) && d.2 == Some(ex.statistics@[j].location)
                        && paragraph_spec(ex, ex.statistics@[j].location) == d.1
            },
{
    lemma_first_evidence_exists(ex, ItemCheck::StatisticalTestReported, 0);
    lemma_first_evidence_exists(ex, ItemCheck::SampleSizeReported, 0);
    lemma_first_evidence_exists(ex, ItemCheck::EffectSizeReported, 0);
    lemma_first_evidence_exists(ex, ItemCheck::ConfidenceIntervalReported, 0);
}

/// Of a standard's carried items, exactly the implemented ones are counted
/// as evaluable, and no more than are carried.
pub proof fn lemma_evaluable_counts_implemented(s: Standard, n: int)
    requires
        0 <= n,
    ensures
        evaluable_upto(s, n) <= n,
    decreases n,
{
    if n > 0 {
        lemma_evaluable_counts_implemented(s, n - 1);
    }
}


// ============================================================================
// Word limits stated in guideline text
// ============================================================================

/// Where a run of digits and commas starting at `i` ends.
pub open spec fn number_end(s: Seq<char>, i: int) -> int
    decreases s.len() - i,
{
    if 0 <= i < s.len() && (ascii_digit(s[i]) || s[i] == ',') {
        number_end(s, i + 1)
    } else {
        i
    }
}

/// A number run ends after its start and covers only digits and commas.
pub proof fn lemma_number_end(s: Seq<char>, i: int)
    requires
        0 <= i,
    ensures
        i <= number_end(s, i),
        number_end(s, i) <= s.len() || number_end(s, i) == i,
        0 <= i < s.len() && ascii_digit(s[i]) ==> i < number_end(s, i) <= s.len(),
        forall|k: int| i <= k < number_end(s, i) ==> (ascii_digit(#[trigger] s[k]) || s[k] == ','),
        number_end(s, i) < s.len() ==> !(ascii_digit(s[number_end(s, i)]) || s[number_end(s, i)] == ','),
    decreases s.len() - i,
{
    if 0 <= i < s.len() && (ascii_digit(s[i]) || s[i] == ',') {
        lemma_number_end(s, i + 1);
    }
}

/// The characters of a run with its commas dropped.
pub open spec fn without_commas(s: Seq<char>) -> Seq<char>
    decreases s.len(),
{
    if s.len() == 0 {
        Seq::empty()
    } else if s.last() == ',' {
        without_commas(s.drop_last())
    } else {
        without_commas(s.drop_last()).push(s.last())
    }
}

/// The first plausible word limit stated from position `i` on: a number
/// (commas allowed as separators) followed, after any whitespace, by
/// "words" or "word limit", whose value parses and lies between 10 and
/// 100,000. A number that does not qualify is skipped whole.
pub open spec fn word_limit_from(s: Seq<char>, i: int) -> Option<nat>
    decreases s.len() - i,
{
    if i < 0 || i >= s.len() {
        None
    } else if ascii_digit(s[i]) {
        let j = number_end(s, i);
        proof {
            lemma_number_end(s, i);
        }
        let digits = without_commas(s.subrange(i, j));
        let rest = trim_start(s.subrange(j, s.len() as int));
        let n = parse_usize_spec(digits);
        if (starts_with(rest, "words"@) || starts_with(rest, "word limit"@)) && n is Some && 10 <= n.unwrap() <= 100_000 {
            n
        } else {
            word_limit_from(s, j)
        }
    } else {
        word_limit_from(s, i + 1)
    }
}

/// Parse a word limit out of lowercased guideline text, such as "a limit of
/// 3000 words" or "maximum 3,000 words": the first number that qualifies.
pub fn extract_word_limit(guideline_lower: &str) -> (r: Option<usize>)
    ensures
        match r {
            Some(n) => word_limit_from(guideline_lower@, 0) == Some(n as nat),
            None => word_limit_from(guideline_lower@, 0) is None,
        },
{
    let cs = chars_of(guideline_lower);
    let ghost s = cs@;
    let words = chars_of("words");
    let word_limit = chars_of("word limit");
    let mut i: usize = 0;
    while i < cs.len()
        invariant
            s == cs@,
            s == guideline_lower@,
            words@ == "words"@,
            word_limit@ == "word limit"@,
            i <= s.len(),
            word_limit_from(s, i as int) == word_limit_from(s, 0),
        decreases s.len() - i,
    {
        if ascii_digit_char(cs[i]) {
            proof {
                lemma_number_end(s, i as int);
            }
            let start = i;
            let mut j = i;
            let mut digits = String::new();
            while j < cs.len() && (ascii_digit_char(cs[j]) || cs[j] == ',')
                invariant
                    s == cs@,
                    start <= j <= s.len(),
                    j <= number_end(s, start as int),
                    forall|k: int| start <= k < j ==> (ascii_digit(#[trigger] s[k]) || s[k] == ','),
                    number_end(s, start as int) == number_end(s, j as int),
                    digits@ == without_commas(s.subrange(start as int, j as int)),
                decreases s.len() - j,
            {
                assert(s.subrange(start as int, j + 1).drop_last() =~= s.subrange(start as int, j as int));
                proof {
                    lemma_number_end(s, j + 1);
                    assert(number_end(s, j as int) == number_end(s, j + 1));
                }
                if cs[j] != ',' {
                    push_char(&mut digits, cs[j]);
                }
                j += 1;
            }
            assert(j == number_end(s, start as int));
            let mut tail: Vec<char> = Vec::new();
            let mut k = j;
            while k < cs.len()
                invariant
                    s == cs@,
                    j <= k <= s.len(),
                    tail@ == s.subrange(j as int, k as int),
                decreases s.len() - k,
            {
                tail.push(cs[k]);
                k += 1;
                assert(tail@ =~= s.subrange(j as int, k as int));
            }
            let rest = trim_start_chars(&tail);
            if seq_starts_with(&rest, &words) || seq_starts_with(&rest, &word_limit) {
                let parsed = parse_usize(digits.as_str());
                if let Some(n) = parsed {
                    if 10 <= n && n <= 100_000 {
                        return Some(n);
                    }
                }
            }
            i = j;
        } else {
            i += 1;
        }
    }
    None
}

fn ascii_digit_char(c: char) -> (r: bool)
    ensures
        r == ascii_digit(c),
{
    let u = c as u32;
    48 <= u && u <= 57
}

} // verus!
