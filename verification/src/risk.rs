//! The referee document's Risk Assessment Table, the four-level severity
//! vocabulary, and the severity policy that maps every finding code to a
//! level with the table cell that justifies it.

use vstd::prelude::*;

use crate::text::{str_eq};

verus! {

/// The six rows of the Risk Assessment Table.
#[derive(Debug, Clone, Copy, PartialEq, Eq, Structural)]
pub enum RiskRow {
    NoveltyOriginality,
    MethodologyQuality,
    ClarityStructure,
    DataEthics,
    LiteratureCitations,
    JournalCompliance,
}

/// One row of that table, verbatim. `compliant` is the Low Risk column, which
/// describes the GOOD case and feeds strengths, never a concern.
#[derive(Debug, Clone, Copy)]
pub struct RiskBand {
    pub row: RiskRow,
    pub label: &'static str,
    pub fatal: &'static str,
    pub fixable: &'static str,
    pub compliant: &'static str,
}

pub const NOVELTY_ORIGINALITY_LABEL: &'static str = "Novelty/Originality";

pub const NOVELTY_ORIGINALITY_FATAL: &'static str = "Just repeats known results; obvious question; local interest only.";

pub const NOVELTY_ORIGINALITY_FIXABLE: &'static str = "Adds some new angle but under-emphasized; novelty unclear to reader.";

pub const NOVELTY_ORIGINALITY_COMPLIANT: &'static str = "Presents a clearly new finding, well-motivated hypothesis.";

pub const METHODOLOGY_QUALITY_LABEL: &'static str = "Methodology Quality";

pub const METHODOLOGY_QUALITY_FATAL: &'static str = "Flawed design (no control, biased sampling, confounders); inappropriate \
                stats (no replication, wrong test).";

pub const METHODOLOGY_QUALITY_FIXABLE: &'static str = "Some methodological limitations (small N, some missing controls) or not \
                  fully described.";

pub const METHODOLOGY_QUALITY_COMPLIANT: &'static str = "Robust design with adequate power and thorough explanation; appropriate \
                    analysis.";

pub const CLARITY_STRUCTURE_LABEL: &'static str = "Clarity & Structure";

pub const CLARITY_STRUCTURE_FATAL: &'static str = "Manuscript is disorganized or incomprehensible; missing sections (e.g. no \
                abstract or unclear intro).";

pub const CLARITY_STRUCTURE_FIXABLE: &'static str = "Minor language issues or a few unclear paragraphs; some reformatting \
                  needed (e.g. reorder sections).";

pub const CLARITY_STRUCTURE_COMPLIANT: &'static str = "Well-structured, logically flowing text; minimal language edits needed.";

pub const DATA_ETHICS_LABEL: &'static str = "Data & Ethics";

pub const DATA_ETHICS_FATAL: &'static str = "Missing ethics approval when required; no raw data or hiding key results; \
                plagiarism.";

pub const DATA_ETHICS_FIXABLE: &'static str = "Limited data reporting (e.g. only summaries); Data-available-on-request \
                  (problematic); small ethical oversight (e.g. consent form detail omitted).";

pub const DATA_ETHICS_COMPLIANT: &'static str = "All data deposited publicly; full ethical disclosure; reproducible \
                    methods.";

pub const LITERATURE_CITATIONS_LABEL: &'static str = "Literature & Citations";

pub const LITERATURE_CITATIONS_FATAL: &'static str = "Ignores key literature; high self-citation/coercive citations; plagiarism \
                detected.";

pub const LITERATURE_CITATIONS_FIXABLE: &'static str = "Minor omissions of related studies; references slightly outdated; some \
                  formatting errors in references.";

pub const LITERATURE_CITATIONS_COMPLIANT: &'static str = "Comprehensive, up-to-date citations; follows reference style perfectly.";

pub const JOURNAL_COMPLIANCE_LABEL: &'static str = "Journal Compliance";

pub const JOURNAL_COMPLIANCE_FATAL: &'static str = "Not following guidelines: wrong format, no cover letter, huge overshoot of \
                limits, mandatory statements missing.";

pub const JOURNAL_COMPLIANCE_FIXABLE: &'static str = "Small format issues (e.g. incorrect reference style); word count slightly \
                  over; table/figure renumbering needed.";

pub const JOURNAL_COMPLIANCE_COMPLIANT: &'static str = "Fully compliant with instructions; well-labelled, styled manuscript.";


/// The band of a row.
pub open spec fn band_of(r: RiskRow) -> RiskBand {
    match r {
        RiskRow::NoveltyOriginality => RiskBand { row: RiskRow::NoveltyOriginality, label: NOVELTY_ORIGINALITY_LABEL, fatal: NOVELTY_ORIGINALITY_FATAL, fixable: NOVELTY_ORIGINALITY_FIXABLE, compliant: NOVELTY_ORIGINALITY_COMPLIANT },
        RiskRow::MethodologyQuality => RiskBand { row: RiskRow::MethodologyQuality, label: METHODOLOGY_QUALITY_LABEL, fatal: METHODOLOGY_QUALITY_FATAL, fixable: METHODOLOGY_QUALITY_FIXABLE, compliant: METHODOLOGY_QUALITY_COMPLIANT },
        RiskRow::ClarityStructure => RiskBand { row: RiskRow::ClarityStructure, label: CLARITY_STRUCTURE_LABEL, fatal: CLARITY_STRUCTURE_FATAL, fixable: CLARITY_STRUCTURE_FIXABLE, compliant: CLARITY_STRUCTURE_COMPLIANT },
        RiskRow::DataEthics => RiskBand { row: RiskRow::DataEthics, label: DATA_ETHICS_LABEL, fatal: DATA_ETHICS_FATAL, fixable: DATA_ETHICS_FIXABLE, compliant: DATA_ETHICS_COMPLIANT },
        RiskRow::LiteratureCitations => RiskBand { row: RiskRow::LiteratureCitations, label: LITERATURE_CITATIONS_LABEL, fatal: LITERATURE_CITATIONS_FATAL, fixable: LITERATURE_CITATIONS_FIXABLE, compliant: LITERATURE_CITATIONS_COMPLIANT },
        RiskRow::JournalCompliance => RiskBand { row: RiskRow::JournalCompliance, label: JOURNAL_COMPLIANCE_LABEL, fatal: JOURNAL_COMPLIANCE_FATAL, fixable: JOURNAL_COMPLIANCE_FIXABLE, compliant: JOURNAL_COMPLIANCE_COMPLIANT },
    }
}

/// The whole table, in the document's row order.
pub open spec fn risk_table_spec() -> Seq<RiskBand> {
    seq![band_of(RiskRow::NoveltyOriginality), band_of(RiskRow::MethodologyQuality), band_of(RiskRow::ClarityStructure), band_of(RiskRow::DataEthics), band_of(RiskRow::LiteratureCitations), band_of(RiskRow::JournalCompliance)] 
}

impl RiskRow {
    /// The row's band. Every row is in the table.
    pub fn band(self) -> (r: RiskBand)
        ensures
            r == band_of(self),
    {
        match self {
            RiskRow::NoveltyOriginality => RiskBand { row: RiskRow::NoveltyOriginality, label: NOVELTY_ORIGINALITY_LABEL, fatal: NOVELTY_ORIGINALITY_FATAL, fixable: NOVELTY_ORIGINALITY_FIXABLE, compliant: NOVELTY_ORIGINALITY_COMPLIANT },
            RiskRow::MethodologyQuality => RiskBand { row: RiskRow::MethodologyQuality, label: METHODOLOGY_QUALITY_LABEL, fatal: METHODOLOGY_QUALITY_FATAL, fixable: METHODOLOGY_QUALITY_FIXABLE, compliant: METHODOLOGY_QUALITY_COMPLIANT },
            RiskRow::ClarityStructure => RiskBand { row: RiskRow::ClarityStructure, label: CLARITY_STRUCTURE_LABEL, fatal: CLARITY_STRUCTURE_FATAL, fixable: CLARITY_STRUCTURE_FIXABLE, compliant: CLARITY_STRUCTURE_COMPLIANT },
            RiskRow::DataEthics => RiskBand { row: RiskRow::DataEthics, label: DATA_ETHICS_LABEL, fatal: DATA_ETHICS_FATAL, fixable: DATA_ETHICS_FIXABLE, compliant: DATA_ETHICS_COMPLIANT },
            RiskRow::LiteratureCitations => RiskBand { row: RiskRow::LiteratureCitations, label: LITERATURE_CITATIONS_LABEL, fatal: LITERATURE_CITATIONS_FATAL, fixable: LITERATURE_CITATIONS_FIXABLE, compliant: LITERATURE_CITATIONS_COMPLIANT },
            RiskRow::JournalCompliance => RiskBand { row: RiskRow::JournalCompliance, label: JOURNAL_COMPLIANCE_LABEL, fatal: JOURNAL_COMPLIANCE_FATAL, fixable: JOURNAL_COMPLIANCE_FIXABLE, compliant: JOURNAL_COMPLIANCE_COMPLIANT },
        }
    }
}

/// The Risk Assessment Table, verbatim from the referee document.
pub fn risk_table() -> (r: Vec<RiskBand>)
    ensures
        r@ == risk_table_spec(),
{
    let mut v = Vec::new();
    v.push(RiskRow::NoveltyOriginality.band());
    v.push(RiskRow::MethodologyQuality.band());
    v.push(RiskRow::ClarityStructure.band());
    v.push(RiskRow::DataEthics.band());
    v.push(RiskRow::LiteratureCitations.band());
    v.push(RiskRow::JournalCompliance.band());
    assert(v@ =~= risk_table_spec());
    v
}

/// The four severity levels. A blocking finding is blocking regardless of
/// surrounding strengths.
#[derive(Debug, Clone, Copy, PartialEq, Eq, Structural)]
pub enum ReviewSeverity {
    Blocking,
    Major,
    Minor,
    Informational,
}

pub open spec fn severity_name(s: ReviewSeverity) -> Seq<char> {
    match s {
        ReviewSeverity::Blocking => "BLOCKING"@,
        ReviewSeverity::Major => "MAJOR"@,
        ReviewSeverity::Minor => "MINOR"@,
        ReviewSeverity::Informational => "INFORMATIONAL"@,
    }
}

impl ReviewSeverity {
    pub fn as_str(self) -> (r: &'static str)
        ensures
            r@ == severity_name(self),
    {
        match self {
            ReviewSeverity::Blocking => "BLOCKING",
            ReviewSeverity::Major => "MAJOR",
            ReviewSeverity::Minor => "MINOR",
            ReviewSeverity::Informational => "INFORMATIONAL",
        }
    }
}

/// Which column of the risk table a finding sits in.
#[derive(Debug, Clone, Copy, PartialEq, Eq, Structural)]
pub enum RiskLevel {
    Fatal,
    Fixable,
}

/// One rule of the severity policy. `why` says why this code sits in that
/// cell rather than the neighbouring one.
#[derive(Debug, Clone, Copy)]
pub struct SeverityRule {
    pub code: &'static str,
    pub severity: ReviewSeverity,
    pub row: RiskRow,
    pub level: RiskLevel,
    pub why: &'static str,
}

/// What an unmapped code gets: MAJOR, because an unmapped code is an
/// unreviewed one.
pub const DEFAULT_SEVERITY: ReviewSeverity = ReviewSeverity::Major;

/// The two blocking codes that can fire today.
pub fn reachable_blocking_codes() -> (r: Vec<&'static str>)
    ensures
        crate::text::views(r@) == seq!["TestGroupMismatch"@, "SmallSampleCausalClaim"@],
{
    let v = vec!["TestGroupMismatch", "SmallSampleCausalClaim"];
    assert(crate::text::views(v@) =~= seq!["TestGroupMismatch"@, "SmallSampleCausalClaim"@]);
    v
}

pub const WHY_MULTIPLE_COMPARISONS_UNCORRECTED: &'static str = "the table's fatal cell names \"inappropriate stats (no replication, wrong \
              test)\", and an uncorrected family of tests is that — but it is correctable by \
              re-analysis without new data, which is why it is MAJOR and not BLOCKING";

pub const WHY_PARAMETRIC_TEST_ASSUMPTIONS_UNSTATED: &'static str = "\"not fully described\" — the check cannot tell an unperformed test from an \
              unreported one, and the fixable cell is the one that covers both";

pub const WHY_P_VALUE_REPORTED_AS_EXACTLY_ZERO: &'static str = "a reporting convention, corrected by writing p < 0.001";

pub const WHY_MARGINAL_SIGNIFICANCE_LANGUAGE: &'static str = "the document's \"Statistical Issues\": \"Over-claiming results … is frowned \
              upon\". A wording change, not a re-analysis";

pub const WHY_TEST_CLAIMED_BUT_ABSENT_FROM_ANALYSIS: &'static str = "the manuscript reports a test the uploaded analysis does not contain. Nothing \
              in a revision fixes a result that was not produced, so the editor cannot \
              demote it";

pub const WHY_RESAMPLING_NOT_STATED_AS_POST_SPLIT: &'static str = "leakage invalidates the reported performance — the fatal cell's \"flawed \
              design\". MAJOR rather than BLOCKING because the check reads the description \
              and not the code: the split may have come first and gone unstated";

pub const WHY_NO_HELDOUT_EVALUATION_NAMED: &'static str = "\"flawed design\" — a performance number with no held-out set measures fit, \
              not generalisation";

pub const WHY_NO_BASELINE_COMPARISON: &'static str = "the novelty row's fixable cell: \"Adds some new angle but under-emphasized\". \
              Without a baseline the advance cannot be sized";

pub const WHY_NO_VARIANCE_ACROSS_RUNS: &'static str = "\"not fully described\" — re-running with seeds is a revision, not a redesign";

pub const WHY_CAUSAL_CLAIM_FROM_ASSOCIATIONAL_DESIGN: &'static str = "the document's \"Overstated Conclusions\": \"Claims must be justified by the \
              data.\" The fix is language, not data, so MAJOR — but the referee document \
              lists over-claiming among the commonest rejection causes";

pub const WHY_TESTGROUPMISMATCH: &'static str = "\"wrong test\", deterministically established. §4.4 puts Tier 0 above every \
              model in the system, so nothing downstream may demote it";

pub const WHY_SMALLSAMPLECAUSALCLAIM: &'static str = "the document's own example of a fatal overclaim: \"claiming a treatment \
              'eliminates disease' based on limited animal data would be rejected\"";

pub const WHY_PVALUEOVERCLAIM: &'static str = "\"inappropriate stats\" — p-values reported alone is the weak case the \
              document names verbatim";

pub const WHY_MISSINGEFFECTSIZE: &'static str = "\"not fully described\". The document: \"reports effect sizes or confidence \
              intervals, not just p-values\"";

pub const WHY_MISSINGCONFIDENCEINTERVAL: &'static str = "as above — recomputable from what the manuscript already reports";

pub const WHY_NO_DATA_AVAILABILITY_STATEMENT: &'static str = "the table's fatal cell names \"no raw data or hiding key results\". MAJOR \
              rather than BLOCKING because the check reads a 14-phrase lexicon over the \
              full text, and §8's Blocking is undemotable — an undemotable verdict on a \
              lexicon is the wrong pairing";

pub const WHY_NO_ETHICS_STATEMENT_IN_A_STUDY_WITH_SUBJECTS: &'static str = "\"Missing ethics approval when required\" is the table's fatal cell and §8 \
              names it explicitly as a blocking example. **It is MAJOR here, and the \
              downgrade was measured rather than reasoned.** It shipped as BLOCKING on the \
              argument that a doubly-gated finding is strong enough to be undemotable; the \
              first live run then surfaced it on a real manuscript, where the subject \
              gate had fired on a metaphor, a survey of lakes, a description of E. coli's \
              habitat, and a table row of a similarity printout appended to the document; \
              it stays MAJOR";

pub const WHY_REFERENCE_LIST_IS_MOSTLY_OUTDATED: &'static str = "\"references slightly outdated\" — the table's fixable cell, and the fix is \
              a literature search rather than new work. It stays MINOR because a ten-year \
              window is the referee document's and not every field's";

pub const WHY_ABSTRACTPRESENT: &'static str = "\"missing sections (e.g. no abstract or unclear intro)\" — fatal in the \
              table, held at MAJOR because the evidence is a heading classifier";

pub const WHY_RESULTSSECTIONPRESENT: &'static str = "as above: the table's fatal cell names missing sections, and the evidence is \
              a heading classifier rather than a verified requirement";

pub const WHY_SAMPLESIZEREPORTED: &'static str = "\"Some methodological limitations (small N …) or not fully described\" — the \
              standard asks how the sample size was determined and nothing states it";

pub const WHY_STATISTICALTESTREPORTED: &'static str = "\"not fully described\" — the standard's item asks for the statistical \
              methods and the extractor found no named test";

pub const WHY_EFFECTSIZEREPORTED: &'static str = "the document: \"reports effect sizes or confidence intervals, not just \
              p-values\". Recomputable from what is already reported";

pub const WHY_CONFIDENCEINTERVALREPORTED: &'static str = "as above — the precision of an estimate, absent";

pub const WHY_PRIOR_WORK_EXISTS: &'static str = "\"Just repeats known results\" — and where the matching work is in the \
              manuscript's OWN bibliography, the contradiction is on the page";

pub const WHY_NOVELTY_CLAIM_STATES_NO_SCOPE: &'static str = "\"novelty unclear to reader\". **A PHRASING observation, not a novelty \
              verdict**: the claim asserts unrestricted priority and names no scope, which \
              is repairable by stating the scope the study has. It says nothing about \
              whether the claim is true, which is why it is MINOR and separate from \
              NOVELTY_NARROWER_THAN_STATED";

pub const WHY_NOVELTY_NARROWER_THAN_STATED: &'static str = "\"novelty unclear to reader\" — the claim is repairable by stating the scope \
              the study actually has";

/// The severity policy, as data. Every shipped finding code appears here.
pub open spec fn policy_spec() -> Seq<SeverityRule> {
    seq![
        SeverityRule { code: "multiple_comparisons_uncorrected", severity: ReviewSeverity::Major, row: RiskRow::MethodologyQuality, level: RiskLevel::Fatal, why: WHY_MULTIPLE_COMPARISONS_UNCORRECTED },
        SeverityRule { code: "parametric_test_assumptions_unstated", severity: ReviewSeverity::Major, row: RiskRow::MethodologyQuality, level: RiskLevel::Fixable, why: WHY_PARAMETRIC_TEST_ASSUMPTIONS_UNSTATED },
        SeverityRule { code: "p_value_reported_as_exactly_zero", severity: ReviewSeverity::Minor, row: RiskRow::MethodologyQuality, level: RiskLevel::Fixable, why: WHY_P_VALUE_REPORTED_AS_EXACTLY_ZERO },
        SeverityRule { code: "marginal_significance_language", severity: ReviewSeverity::Minor, row: RiskRow::MethodologyQuality, level: RiskLevel::Fixable, why: WHY_MARGINAL_SIGNIFICANCE_LANGUAGE },
        SeverityRule { code: "test_claimed_but_absent_from_analysis", severity: ReviewSeverity::Blocking, row: RiskRow::MethodologyQuality, level: RiskLevel::Fatal, why: WHY_TEST_CLAIMED_BUT_ABSENT_FROM_ANALYSIS },
        SeverityRule { code: "resampling_not_stated_as_post_split", severity: ReviewSeverity::Major, row: RiskRow::MethodologyQuality, level: RiskLevel::Fatal, why: WHY_RESAMPLING_NOT_STATED_AS_POST_SPLIT },
        SeverityRule { code: "no_heldout_evaluation_named", severity: ReviewSeverity::Major, row: RiskRow::MethodologyQuality, level: RiskLevel::Fatal, why: WHY_NO_HELDOUT_EVALUATION_NAMED },
        SeverityRule { code: "no_baseline_comparison", severity: ReviewSeverity::Major, row: RiskRow::NoveltyOriginality, level: RiskLevel::Fixable, why: WHY_NO_BASELINE_COMPARISON },
        SeverityRule { code: "no_variance_across_runs", severity: ReviewSeverity::Minor, row: RiskRow::MethodologyQuality, level: RiskLevel::Fixable, why: WHY_NO_VARIANCE_ACROSS_RUNS },
        SeverityRule { code: "causal_claim_from_associational_design", severity: ReviewSeverity::Major, row: RiskRow::MethodologyQuality, level: RiskLevel::Fatal, why: WHY_CAUSAL_CLAIM_FROM_ASSOCIATIONAL_DESIGN },
        SeverityRule { code: "TestGroupMismatch", severity: ReviewSeverity::Blocking, row: RiskRow::MethodologyQuality, level: RiskLevel::Fatal, why: WHY_TESTGROUPMISMATCH },
        SeverityRule { code: "SmallSampleCausalClaim", severity: ReviewSeverity::Blocking, row: RiskRow::MethodologyQuality, level: RiskLevel::Fatal, why: WHY_SMALLSAMPLECAUSALCLAIM },
        SeverityRule { code: "PValueOverclaim", severity: ReviewSeverity::Major, row: RiskRow::MethodologyQuality, level: RiskLevel::Fatal, why: WHY_PVALUEOVERCLAIM },
        SeverityRule { code: "MissingEffectSize", severity: ReviewSeverity::Major, row: RiskRow::MethodologyQuality, level: RiskLevel::Fixable, why: WHY_MISSINGEFFECTSIZE },
        SeverityRule { code: "MissingConfidenceInterval", severity: ReviewSeverity::Major, row: RiskRow::MethodologyQuality, level: RiskLevel::Fixable, why: WHY_MISSINGCONFIDENCEINTERVAL },
        SeverityRule { code: "no_data_availability_statement", severity: ReviewSeverity::Major, row: RiskRow::DataEthics, level: RiskLevel::Fatal, why: WHY_NO_DATA_AVAILABILITY_STATEMENT },
        SeverityRule { code: "no_ethics_statement_in_a_study_with_subjects", severity: ReviewSeverity::Major, row: RiskRow::DataEthics, level: RiskLevel::Fatal, why: WHY_NO_ETHICS_STATEMENT_IN_A_STUDY_WITH_SUBJECTS },
        SeverityRule { code: "reference_list_is_mostly_outdated", severity: ReviewSeverity::Minor, row: RiskRow::LiteratureCitations, level: RiskLevel::Fixable, why: WHY_REFERENCE_LIST_IS_MOSTLY_OUTDATED },
        SeverityRule { code: "AbstractPresent", severity: ReviewSeverity::Major, row: RiskRow::ClarityStructure, level: RiskLevel::Fatal, why: WHY_ABSTRACTPRESENT },
        SeverityRule { code: "ResultsSectionPresent", severity: ReviewSeverity::Major, row: RiskRow::ClarityStructure, level: RiskLevel::Fatal, why: WHY_RESULTSSECTIONPRESENT },
        SeverityRule { code: "SampleSizeReported", severity: ReviewSeverity::Major, row: RiskRow::MethodologyQuality, level: RiskLevel::Fixable, why: WHY_SAMPLESIZEREPORTED },
        SeverityRule { code: "StatisticalTestReported", severity: ReviewSeverity::Major, row: RiskRow::MethodologyQuality, level: RiskLevel::Fixable, why: WHY_STATISTICALTESTREPORTED },
        SeverityRule { code: "EffectSizeReported", severity: ReviewSeverity::Major, row: RiskRow::MethodologyQuality, level: RiskLevel::Fixable, why: WHY_EFFECTSIZEREPORTED },
        SeverityRule { code: "ConfidenceIntervalReported", severity: ReviewSeverity::Major, row: RiskRow::MethodologyQuality, level: RiskLevel::Fixable, why: WHY_CONFIDENCEINTERVALREPORTED },
        SeverityRule { code: "PRIOR_WORK_EXISTS", severity: ReviewSeverity::Blocking, row: RiskRow::NoveltyOriginality, level: RiskLevel::Fatal, why: WHY_PRIOR_WORK_EXISTS },
        SeverityRule { code: "novelty_claim_states_no_scope", severity: ReviewSeverity::Minor, row: RiskRow::NoveltyOriginality, level: RiskLevel::Fixable, why: WHY_NOVELTY_CLAIM_STATES_NO_SCOPE },
        SeverityRule { code: "NOVELTY_NARROWER_THAN_STATED", severity: ReviewSeverity::Major, row: RiskRow::NoveltyOriginality, level: RiskLevel::Fixable, why: WHY_NOVELTY_NARROWER_THAN_STATED },
    ]
}

/// The severity policy.
pub fn severity_policy() -> (r: Vec<SeverityRule>)
    ensures
        r@ == policy_spec(),
{
    let mut v = Vec::new();
    v.push(SeverityRule { code: "multiple_comparisons_uncorrected", severity: ReviewSeverity::Major, row: RiskRow::MethodologyQuality, level: RiskLevel::Fatal, why: WHY_MULTIPLE_COMPARISONS_UNCORRECTED });
    v.push(SeverityRule { code: "parametric_test_assumptions_unstated", severity: ReviewSeverity::Major, row: RiskRow::MethodologyQuality, level: RiskLevel::Fixable, why: WHY_PARAMETRIC_TEST_ASSUMPTIONS_UNSTATED });
    v.push(SeverityRule { code: "p_value_reported_as_exactly_zero", severity: ReviewSeverity::Minor, row: RiskRow::MethodologyQuality, level: RiskLevel::Fixable, why: WHY_P_VALUE_REPORTED_AS_EXACTLY_ZERO });
    v.push(SeverityRule { code: "marginal_significance_language", severity: ReviewSeverity::Minor, row: RiskRow::MethodologyQuality, level: RiskLevel::Fixable, why: WHY_MARGINAL_SIGNIFICANCE_LANGUAGE });
    v.push(SeverityRule { code: "test_claimed_but_absent_from_analysis", severity: ReviewSeverity::Blocking, row: RiskRow::MethodologyQuality, level: RiskLevel::Fatal, why: WHY_TEST_CLAIMED_BUT_ABSENT_FROM_ANALYSIS });
    v.push(SeverityRule { code: "resampling_not_stated_as_post_split", severity: ReviewSeverity::Major, row: RiskRow::MethodologyQuality, level: RiskLevel::Fatal, why: WHY_RESAMPLING_NOT_STATED_AS_POST_SPLIT });
    v.push(SeverityRule { code: "no_heldout_evaluation_named", severity: ReviewSeverity::Major, row: RiskRow::MethodologyQuality, level: RiskLevel::Fatal, why: WHY_NO_HELDOUT_EVALUATION_NAMED });
    v.push(SeverityRule { code: "no_baseline_comparison", severity: ReviewSeverity::Major, row: RiskRow::NoveltyOriginality, level: RiskLevel::Fixable, why: WHY_NO_BASELINE_COMPARISON });
    v.push(SeverityRule { code: "no_variance_across_runs", severity: ReviewSeverity::Minor, row: RiskRow::MethodologyQuality, level: RiskLevel::Fixable, why: WHY_NO_VARIANCE_ACROSS_RUNS });
    v.push(SeverityRule { code: "causal_claim_from_associational_design", severity: ReviewSeverity::Major, row: RiskRow::MethodologyQuality, level: RiskLevel::Fatal, why: WHY_CAUSAL_CLAIM_FROM_ASSOCIATIONAL_DESIGN });
    v.push(SeverityRule { code: "TestGroupMismatch", severity: ReviewSeverity::Blocking, row: RiskRow::MethodologyQuality, level: RiskLevel::Fatal, why: WHY_TESTGROUPMISMATCH });
    v.push(SeverityRule { code: "SmallSampleCausalClaim", severity: ReviewSeverity::Blocking, row: RiskRow::MethodologyQuality, level: RiskLevel::Fatal, why: WHY_SMALLSAMPLECAUSALCLAIM });
    v.push(SeverityRule { code: "PValueOverclaim", severity: ReviewSeverity::Major, row: RiskRow::MethodologyQuality, level: RiskLevel::Fatal, why: WHY_PVALUEOVERCLAIM });
    v.push(SeverityRule { code: "MissingEffectSize", severity: ReviewSeverity::Major, row: RiskRow::MethodologyQuality, level: RiskLevel::Fixable, why: WHY_MISSINGEFFECTSIZE });
    v.push(SeverityRule { code: "MissingConfidenceInterval", severity: ReviewSeverity::Major, row: RiskRow::MethodologyQuality, level: RiskLevel::Fixable, why: WHY_MISSINGCONFIDENCEINTERVAL });
    v.push(SeverityRule { code: "no_data_availability_statement", severity: ReviewSeverity::Major, row: RiskRow::DataEthics, level: RiskLevel::Fatal, why: WHY_NO_DATA_AVAILABILITY_STATEMENT });
    v.push(SeverityRule { code: "no_ethics_statement_in_a_study_with_subjects", severity: ReviewSeverity::Major, row: RiskRow::DataEthics, level: RiskLevel::Fatal, why: WHY_NO_ETHICS_STATEMENT_IN_A_STUDY_WITH_SUBJECTS });
    v.push(SeverityRule { code: "reference_list_is_mostly_outdated", severity: ReviewSeverity::Minor, row: RiskRow::LiteratureCitations, level: RiskLevel::Fixable, why: WHY_REFERENCE_LIST_IS_MOSTLY_OUTDATED });
    v.push(SeverityRule { code: "AbstractPresent", severity: ReviewSeverity::Major, row: RiskRow::ClarityStructure, level: RiskLevel::Fatal, why: WHY_ABSTRACTPRESENT });
    v.push(SeverityRule { code: "ResultsSectionPresent", severity: ReviewSeverity::Major, row: RiskRow::ClarityStructure, level: RiskLevel::Fatal, why: WHY_RESULTSSECTIONPRESENT });
    v.push(SeverityRule { code: "SampleSizeReported", severity: ReviewSeverity::Major, row: RiskRow::MethodologyQuality, level: RiskLevel::Fixable, why: WHY_SAMPLESIZEREPORTED });
    v.push(SeverityRule { code: "StatisticalTestReported", severity: ReviewSeverity::Major, row: RiskRow::MethodologyQuality, level: RiskLevel::Fixable, why: WHY_STATISTICALTESTREPORTED });
    v.push(SeverityRule { code: "EffectSizeReported", severity: ReviewSeverity::Major, row: RiskRow::MethodologyQuality, level: RiskLevel::Fixable, why: WHY_EFFECTSIZEREPORTED });
    v.push(SeverityRule { code: "ConfidenceIntervalReported", severity: ReviewSeverity::Major, row: RiskRow::MethodologyQuality, level: RiskLevel::Fixable, why: WHY_CONFIDENCEINTERVALREPORTED });
    v.push(SeverityRule { code: "PRIOR_WORK_EXISTS", severity: ReviewSeverity::Blocking, row: RiskRow::NoveltyOriginality, level: RiskLevel::Fatal, why: WHY_PRIOR_WORK_EXISTS });
    v.push(SeverityRule { code: "novelty_claim_states_no_scope", severity: ReviewSeverity::Minor, row: RiskRow::NoveltyOriginality, level: RiskLevel::Fixable, why: WHY_NOVELTY_CLAIM_STATES_NO_SCOPE });
    v.push(SeverityRule { code: "NOVELTY_NARROWER_THAN_STATED", severity: ReviewSeverity::Major, row: RiskRow::NoveltyOriginality, level: RiskLevel::Fixable, why: WHY_NOVELTY_NARROWER_THAN_STATED });
    assert(v@ =~= policy_spec());
    v
}

/// The first rule at or after `i` whose code is `code`.
pub open spec fn find_rule(p: Seq<SeverityRule>, code: Seq<char>, i: int) -> Option<SeverityRule>
    decreases p.len() - i,
{
    if i < 0 || i >= p.len() {
        None
    } else if p[i].code@ == code {
        Some(p[i])
    } else {
        find_rule(p, code, i + 1)
    }
}

/// The rule for a code, if the policy has one.
pub open spec fn rule_for(code: Seq<char>) -> Option<SeverityRule> {
    find_rule(policy_spec(), code, 0)
}

/// The severity a code is reported at.
pub open spec fn severity_for(code: Seq<char>) -> ReviewSeverity {
    match rule_for(code) {
        Some(r) => r.severity,
        None => DEFAULT_SEVERITY,
    }
}

/// The rule for a code, if there is one.
pub fn severity_rule(code: &str) -> (r: Option<SeverityRule>)
    ensures
        r == rule_for(code@),
{
    let p = severity_policy();
    let mut i: usize = 0;
    while i < p.len()
        invariant
            p@ == policy_spec(),
            i <= p@.len(),
            find_rule(p@, code@, 0) == find_rule(p@, code@, i as int),
        decreases p@.len() - i,
    {
        if str_eq(p[i].code, code) {
            return Some(p[i]);
        }
        i += 1;
    }
    None
}

} // verus!
