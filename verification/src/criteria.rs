//! The referee lenses: each lens's criteria, quoted from the referee
//! document with their strong / weak / action sentences, what each criterion
//! reads, and the measurement of which lenses have anything to read.

use vstd::prelude::*;

use crate::lens_sources::{
    lens_source_name, lens_source_note, lens_source_rank, lens_source_state, LensSource, SourceId,
    SourceState, StateField,
};
use crate::risk::RiskRow;
use crate::text::{join, push_str, views};

verus! {

/// Where a piece of evidence comes from.
#[derive(Debug, Clone, Copy, PartialEq, Eq, Structural)]
pub enum EvidenceSource {
    ManuscriptSpan,
    JournalRequirement,
    ExternalWork,
}

/// What a lens demands of every concern it emits.
#[derive(Debug, Clone)]
pub struct EvidencePolicy {
    pub min_sources: usize,
    pub permitted_sources: Vec<EvidenceSource>,
    pub citation_required: bool,
    pub uncertainty_required: bool,
}

/// The lenses' uniform, strict policy: every concern quotes what it rests on
/// and states what it could not determine.
pub open spec fn strict_policy(p: EvidencePolicy) -> bool {
    &&& p.min_sources == 1
    &&& p.permitted_sources@ == seq![
        EvidenceSource::ManuscriptSpan,
        EvidenceSource::JournalRequirement,
        EvidenceSource::ExternalWork,
    ]
    &&& p.citation_required
    &&& p.uncertainty_required
}

fn strict() -> (p: EvidencePolicy)
    ensures
        strict_policy(p),
{
    let mut v = Vec::new();
    v.push(EvidenceSource::ManuscriptSpan);
    v.push(EvidenceSource::JournalRequirement);
    v.push(EvidenceSource::ExternalWork);
    assert(v@ =~= seq![
        EvidenceSource::ManuscriptSpan,
        EvidenceSource::JournalRequirement,
        EvidenceSource::ExternalWork,
    ]);
    EvidencePolicy {
        min_sources: 1,
        permitted_sources: v,
        citation_required: true,
        uncertainty_required: true,
    }
}

/// A criterion from the referee document, with strong / weak / action as
/// that document states them. `codes` are the finding codes it claims; empty
/// means its evidence is reported in the journal-compliance section.
#[derive(Debug)]
pub struct Criterion {
    pub id: &'static str,
    pub name: &'static str,
    pub strong: &'static str,
    pub weak: &'static str,
    pub action: &'static str,
    pub row: RiskRow,
    pub sources: Vec<LensSource>,
    pub codes: Vec<&'static str>,
}

/// The lens ids.
#[derive(Debug, Clone, Copy, PartialEq, Eq, Structural)]
pub enum LensId {
    Methodology,
    Statistics,
    NoveltyLiterature,
    ReportingEthics,
    /// Declared and declined: its layer is empty.
    JournalFit,
    /// Declared and declined: the absence rule forbids it.
    General,
}

pub open spec fn lens_name(l: LensId) -> Seq<char> {
    match l {
        LensId::Methodology => "methodology"@,
        LensId::Statistics => "statistics"@,
        LensId::NoveltyLiterature => "novelty_literature"@,
        LensId::JournalFit => "journal_fit"@,
        LensId::ReportingEthics => "reporting_ethics"@,
        LensId::General => "general"@,
    }
}

impl LensId {
    pub fn as_str(self) -> (r: &'static str)
        ensures
            r@ == lens_name(self),
    {
        match self {
            LensId::Methodology => "methodology",
            LensId::Statistics => "statistics",
            LensId::NoveltyLiterature => "novelty_literature",
            LensId::JournalFit => "journal_fit",
            LensId::ReportingEthics => "reporting_ethics",
            LensId::General => "general",
        }
    }
}

/// A lens: its criteria, its evidence policy, and whether it reads the
/// journal's requirements.
#[derive(Debug)]
pub struct ReviewLens {
    pub id: LensId,
    pub criteria: Vec<Criterion>,
    pub evidence_policy: EvidencePolicy,
    pub journal_context: bool,
}

/// Some criterion of `cs` reads `s`.
pub open spec fn read_by(cs: Seq<Criterion>, s: LensSource) -> bool {
    exists|i: int, j: int| 0 <= i < cs.len() && 0 <= j < cs[i].sources@.len() && #[trigger] cs[i].sources@[j] == s
}

/// The source of a given rank, the inverse of `lens_source_rank`.
pub open spec fn rank_source(k: nat) -> LensSource {
    if k == 0 { LensSource::Specialist(SourceId::FrequentistStats) }
    else if k == 1 { LensSource::Specialist(SourceId::MlMethodology) }
    else if k == 2 { LensSource::Specialist(SourceId::ClaimEvidenceStrength) }
    else if k == 3 { LensSource::Specialist(SourceId::NoveltyClaims) }
    else if k == 4 { LensSource::Specialist(SourceId::ValidationMaths) }
    else if k == 5 { LensSource::Specialist(SourceId::ReportingStandards) }
    else if k == 6 { LensSource::Specialist(SourceId::JournalRequirements) }
    else if k == 7 { LensSource::Specialist(SourceId::ComparableCorpus) }
    else if k == 8 { LensSource::Specialist(SourceId::BayesianAnalysis) }
    else if k == 9 { LensSource::Specialist(SourceId::QualitativeMethods) }
    else if k == 10 { LensSource::Specialist(SourceId::SurveyPsychometric) }
    else if k == 11 { LensSource::Specialist(SourceId::LabWetBench) }
    else if k == 12 { LensSource::Specialist(SourceId::ComputationalConsistency) }
    else if k == 13 { LensSource::Specialist(SourceId::ReferenceCurrency) }
    else if k == 14 { LensSource::Specialist(SourceId::LiteratureCoverage) }
    else if k == 15 { LensSource::Specialist(SourceId::ClarityStructure) }
    else if k == 16 { LensSource::State(StateField::FullText) }
    else if k == 17 { LensSource::State(StateField::Statistics) }
    else if k == 18 { LensSource::State(StateField::References) }
    else if k == 19 { LensSource::State(StateField::ReferenceYears) }
    else if k == 20 { LensSource::State(StateField::Sections) }
    else if k == 21 { LensSource::State(StateField::Title) }
    else if k == 22 { LensSource::State(StateField::Tables) }
    else if k == 23 { LensSource::State(StateField::JournalRequirements) }
    else { LensSource::State(StateField::JournalStandardBindings) }
}

/// The sources of rank below `k` that `cs` reads, in rank order.
pub open spec fn reads_upto(cs: Seq<Criterion>, k: nat) -> Seq<LensSource>
    decreases k,
{
    if k == 0 {
        Seq::empty()
    } else {
        reads_upto(cs, (k - 1) as nat) + if read_by(cs, rank_source((k - 1) as nat)) {
            seq![rank_source((k - 1) as nat)]
        } else {
            Seq::empty()
        }
    }
}

/// What a lens with criteria `cs` reads: every source some criterion reads,
/// once each, in rank order.
pub open spec fn reads_spec(cs: Seq<Criterion>) -> Seq<LensSource> {
    reads_upto(cs, 25)
}

fn source_at_rank(k: u32) -> (r: LensSource)
    requires
        k < 25,
    ensures
        lens_source_rank(r) == k as nat,
        r == rank_source(k as nat),
{
    match k {
        0 => LensSource::Specialist(SourceId::FrequentistStats),
        1 => LensSource::Specialist(SourceId::MlMethodology),
        2 => LensSource::Specialist(SourceId::ClaimEvidenceStrength),
        3 => LensSource::Specialist(SourceId::NoveltyClaims),
        4 => LensSource::Specialist(SourceId::ValidationMaths),
        5 => LensSource::Specialist(SourceId::ReportingStandards),
        6 => LensSource::Specialist(SourceId::JournalRequirements),
        7 => LensSource::Specialist(SourceId::ComparableCorpus),
        8 => LensSource::Specialist(SourceId::BayesianAnalysis),
        9 => LensSource::Specialist(SourceId::QualitativeMethods),
        10 => LensSource::Specialist(SourceId::SurveyPsychometric),
        11 => LensSource::Specialist(SourceId::LabWetBench),
        12 => LensSource::Specialist(SourceId::ComputationalConsistency),
        13 => LensSource::Specialist(SourceId::ReferenceCurrency),
        14 => LensSource::Specialist(SourceId::LiteratureCoverage),
        15 => LensSource::Specialist(SourceId::ClarityStructure),
        16 => LensSource::State(StateField::FullText),
        17 => LensSource::State(StateField::Statistics),
        18 => LensSource::State(StateField::References),
        19 => LensSource::State(StateField::ReferenceYears),
        20 => LensSource::State(StateField::Sections),
        21 => LensSource::State(StateField::Title),
        22 => LensSource::State(StateField::Tables),
        23 => LensSource::State(StateField::JournalRequirements),
        _ => LensSource::State(StateField::JournalStandardBindings),
    }
}

/// Every source has a rank below 25.
proof fn lemma_rank_bound(s: LensSource)
    ensures
        lens_source_rank(s) < 25,
{
}

fn reads_source(cs: &Vec<Criterion>, s: LensSource) -> (r: bool)
    ensures
        r == read_by(cs@, s),
{
    let mut i: usize = 0;
    while i < cs.len()
        invariant
            i <= cs@.len(),
            forall|a: int, b: int|
                0 <= a < i && 0 <= b < cs@[a].sources@.len() ==> #[trigger] cs@[a].sources@[b] != s,
        decreases cs@.len() - i,
    {
        let mut j: usize = 0;
        while j < cs[i].sources.len()
            invariant
                i < cs@.len(),
                j <= cs@[i as int].sources@.len(),
                forall|b: int| 0 <= b < j ==> #[trigger] cs@[i as int].sources@[b] != s,
            decreases cs@[i as int].sources@.len() - j,
        {
            if cs[i].sources[j] == s {
                return true;
            }
            j += 1;
        }
        i += 1;
    }
    false
}

impl ReviewLens {
    /// What the lens reads, computed from its criteria so it cannot disagree
    /// with them: every source some criterion reads, once each, in the order
    /// `derive(Ord)` gives.
    pub fn reads(&self) -> (r: Vec<LensSource>)
        ensures
            r@ == reads_spec(self.criteria@),
            forall|s: LensSource| r@.contains(s) <==> read_by(self.criteria@, s),
            forall|a: int, b: int|
                0 <= a < b < r@.len() ==> lens_source_rank(r@[a]) < lens_source_rank(r@[b]),
    {
        let mut out: Vec<LensSource> = Vec::new();
        let mut k: u32 = 0;
        while k < 25
            invariant
                k <= 25,
                out@ == reads_upto(self.criteria@, k as nat),
                forall|s: LensSource| #[trigger] out@.contains(s) <==> (read_by(self.criteria@, s) && lens_source_rank(s) < k),
                forall|a: int, b: int|
                    0 <= a < b < out@.len() ==> lens_source_rank(out@[a]) < lens_source_rank(out@[b]),
                forall|a: int| 0 <= a < out@.len() ==> lens_source_rank(out@[a]) < k,
            decreases 25 - k,
        {
            let s = source_at_rank(k);
            if reads_source(&self.criteria, s) {
                let ghost old_out = out@;
                out.push(s);
                assert forall|t: LensSource| #[trigger] out@.contains(t) <==> (read_by(self.criteria@, t) && lens_source_rank(t) < k + 1) by {
                    if out@.contains(t) && t != s {
                        assert(old_out.contains(t));
                    }
                    if read_by(self.criteria@, t) && lens_source_rank(t) < k + 1 && lens_source_rank(t) < k {
                        assert(old_out.contains(t));
                        let m = choose|m: int| 0 <= m < old_out.len() && old_out[m] == t;
                        assert(out@[m] == t);
                    }
                    if read_by(self.criteria@, t) && lens_source_rank(t) == k {
                        crate::lens_sources::lemma_rank_injective(t, s);
                        assert(out@[out@.len() - 1] == s);
                    }
                }
            } else {
                assert forall|t: LensSource| #[trigger] out@.contains(t) <==> (read_by(self.criteria@, t) && lens_source_rank(t) < k + 1) by {
                    if read_by(self.criteria@, t) && lens_source_rank(t) == k {
                        crate::lens_sources::lemma_rank_injective(t, s);
                        if out@.contains(t) {
                            let m = choose|m: int| 0 <= m < out@.len() && out@[m] == t;
                        }
                    }
                }
            }
            k += 1;
        }
        assert forall|s: LensSource| out@.contains(s) <==> read_by(self.criteria@, s) by {
            lemma_rank_bound(s);
        }
        out
    }
}

pub const STUDY_DESIGN_NAME: &'static str = "Study Design";

pub const STUDY_DESIGN_STRONG: &'static str = "Clear rationale and controls (e.g. control group, randomisation, blinding \
                 if needed); methods follow best practice or gold-standard techniques.";

pub const STUDY_DESIGN_WEAK: &'static str = "Flawed or missing controls; exploratory design without enough replications; \
               outdated methods when superior ones exist.";

pub const STUDY_DESIGN_ACTION: &'static str = "Preempt criticisms by using robust design (power calculations, pilot \
                 data). Detail procedures thoroughly (randomisation, validation of tools). \
                 If some ideal control wasn't used, acknowledge and justify it in Discussion.";

pub const REPRODUCIBILITY_DATA_AVAILABILITY_NAME: &'static str = "Reproducibility & Data Availability";

pub const REPRODUCIBILITY_DATA_AVAILABILITY_STRONG: &'static str = "All data deposited in a repository (with DOI) and/or included as \
                 Supplementary files; code and parameters provided; method details \
                 sufficient for replication.";

pub const REPRODUCIBILITY_DATA_AVAILABILITY_WEAK: &'static str = "Manuscript only gives summary statistics; \"data available on request\" \
               statements; missing key parameters or poorly documented procedures.";

pub const REPRODUCIBILITY_DATA_AVAILABILITY_ACTION: &'static str = "Prepare a detailed Data Availability statement following journal policy. \
                 Upload datasets (and code) to public archives (e.g. GenBank for sequences, \
                 Dryad/Zenodo for datasets, GitHub for code) with links. In Methods, ensure \
                 materials (cell lines, antibodies, software versions) are fully specified.";

pub const ETHICAL_COMPLIANCE_NAME: &'static str = "Ethical Compliance";

pub const ETHICAL_COMPLIANCE_STRONG: &'static str = "Documentation of ethics approval numbers and adherence to guidelines \
                 (Declaration of Helsinki, ARRIVE etc.).";

pub const ETHICAL_COMPLIANCE_WEAK: &'static str = "No mention of ethics, or retroactive approval; missing consent forms for \
               human studies.";

pub const ETHICAL_COMPLIANCE_ACTION: &'static str = "Obtain and cite all necessary ethics permissions in Methods. If the study \
                 uses archival data or anonymised records, state this. Explicitly state \
                 that participants gave informed consent if applicable. Follow any \
                 field-specific reporting checklists (e.g. CONSORT, PRISMA) and mention them.";

pub const OVERSTATED_CONCLUSIONS_NAME: &'static str = "Overstated Conclusions";

pub const OVERSTATED_CONCLUSIONS_STRONG: &'static str = "Referees will demand that conclusions are conservative and proportional.";

pub const OVERSTATED_CONCLUSIONS_WEAK: &'static str = "For instance, claiming a treatment \"eliminates disease\" based on limited \
               animal data would be rejected.";

pub const OVERSTATED_CONCLUSIONS_ACTION: &'static str = "Use cautious language (\"suggests\", \"may\") if the evidence is \
                 preliminary.";

/// The criteria of the `methodology` list, as the referee document states them.
pub open spec fn methodology_criteria_ok(cs: Seq<Criterion>) -> bool {
    &&& cs.len() == 4
    &&& criterion_is(cs[0], "study_design"@, STUDY_DESIGN_NAME@, STUDY_DESIGN_STRONG@, STUDY_DESIGN_WEAK@, STUDY_DESIGN_ACTION@, RiskRow::MethodologyQuality, seq![LensSource::Specialist(SourceId::MlMethodology), LensSource::Specialist(SourceId::ReportingStandards), LensSource::Specialist(SourceId::LabWetBench)], seq!["no_heldout_evaluation_named"@, "resampling_not_stated_as_post_split"@, "no_variance_across_runs"@, "no_baseline_comparison"@])
    &&& criterion_is(cs[1], "reproducibility_data_availability"@, REPRODUCIBILITY_DATA_AVAILABILITY_NAME@, REPRODUCIBILITY_DATA_AVAILABILITY_STRONG@, REPRODUCIBILITY_DATA_AVAILABILITY_WEAK@, REPRODUCIBILITY_DATA_AVAILABILITY_ACTION@, RiskRow::DataEthics, seq![LensSource::State(StateField::FullText), LensSource::Specialist(SourceId::JournalRequirements), LensSource::Specialist(SourceId::ComputationalConsistency)], seq!["no_data_availability_statement"@])
    &&& criterion_is(cs[2], "ethical_compliance"@, ETHICAL_COMPLIANCE_NAME@, ETHICAL_COMPLIANCE_STRONG@, ETHICAL_COMPLIANCE_WEAK@, ETHICAL_COMPLIANCE_ACTION@, RiskRow::DataEthics, seq![LensSource::State(StateField::FullText), LensSource::Specialist(SourceId::ReportingStandards), LensSource::Specialist(SourceId::JournalRequirements)], seq!["no_ethics_statement_in_a_study_with_subjects"@])
    &&& criterion_is(cs[3], "overstated_conclusions"@, OVERSTATED_CONCLUSIONS_NAME@, OVERSTATED_CONCLUSIONS_STRONG@, OVERSTATED_CONCLUSIONS_WEAK@, OVERSTATED_CONCLUSIONS_ACTION@, RiskRow::MethodologyQuality, seq![LensSource::Specialist(SourceId::ClaimEvidenceStrength), LensSource::Specialist(SourceId::ValidationMaths)], seq!["causal_claim_from_associational_design"@, "SmallSampleCausalClaim"@])
}

fn methodology_criteria() -> (r: Vec<Criterion>)
    ensures
        methodology_criteria_ok(r@),
{
    let mut v = Vec::new();
    let c = Criterion { id: "study_design", name: STUDY_DESIGN_NAME, strong: STUDY_DESIGN_STRONG, weak: STUDY_DESIGN_WEAK, action: STUDY_DESIGN_ACTION, row: RiskRow::MethodologyQuality, sources: vec![LensSource::Specialist(SourceId::MlMethodology), LensSource::Specialist(SourceId::ReportingStandards), LensSource::Specialist(SourceId::LabWetBench)], codes: vec!["no_heldout_evaluation_named", "resampling_not_stated_as_post_split", "no_variance_across_runs", "no_baseline_comparison"] };
    assert(views(c.codes@) =~= seq!["no_heldout_evaluation_named"@, "resampling_not_stated_as_post_split"@, "no_variance_across_runs"@, "no_baseline_comparison"@]);
    assert(c.sources@ =~= seq![LensSource::Specialist(SourceId::MlMethodology), LensSource::Specialist(SourceId::ReportingStandards), LensSource::Specialist(SourceId::LabWetBench)]);
    v.push(c);
    let c = Criterion { id: "reproducibility_data_availability", name: REPRODUCIBILITY_DATA_AVAILABILITY_NAME, strong: REPRODUCIBILITY_DATA_AVAILABILITY_STRONG, weak: REPRODUCIBILITY_DATA_AVAILABILITY_WEAK, action: REPRODUCIBILITY_DATA_AVAILABILITY_ACTION, row: RiskRow::DataEthics, sources: vec![LensSource::State(StateField::FullText), LensSource::Specialist(SourceId::JournalRequirements), LensSource::Specialist(SourceId::ComputationalConsistency)], codes: vec!["no_data_availability_statement"] };
    assert(views(c.codes@) =~= seq!["no_data_availability_statement"@]);
    assert(c.sources@ =~= seq![LensSource::State(StateField::FullText), LensSource::Specialist(SourceId::JournalRequirements), LensSource::Specialist(SourceId::ComputationalConsistency)]);
    v.push(c);
    let c = Criterion { id: "ethical_compliance", name: ETHICAL_COMPLIANCE_NAME, strong: ETHICAL_COMPLIANCE_STRONG, weak: ETHICAL_COMPLIANCE_WEAK, action: ETHICAL_COMPLIANCE_ACTION, row: RiskRow::DataEthics, sources: vec![LensSource::State(StateField::FullText), LensSource::Specialist(SourceId::ReportingStandards), LensSource::Specialist(SourceId::JournalRequirements)], codes: vec!["no_ethics_statement_in_a_study_with_subjects"] };
    assert(views(c.codes@) =~= seq!["no_ethics_statement_in_a_study_with_subjects"@]);
    assert(c.sources@ =~= seq![LensSource::State(StateField::FullText), LensSource::Specialist(SourceId::ReportingStandards), LensSource::Specialist(SourceId::JournalRequirements)]);
    v.push(c);
    let c = Criterion { id: "overstated_conclusions", name: OVERSTATED_CONCLUSIONS_NAME, strong: OVERSTATED_CONCLUSIONS_STRONG, weak: OVERSTATED_CONCLUSIONS_WEAK, action: OVERSTATED_CONCLUSIONS_ACTION, row: RiskRow::MethodologyQuality, sources: vec![LensSource::Specialist(SourceId::ClaimEvidenceStrength), LensSource::Specialist(SourceId::ValidationMaths)], codes: vec!["causal_claim_from_associational_design", "SmallSampleCausalClaim"] };
    assert(views(c.codes@) =~= seq!["causal_claim_from_associational_design"@, "SmallSampleCausalClaim"@]);
    assert(c.sources@ =~= seq![LensSource::Specialist(SourceId::ClaimEvidenceStrength), LensSource::Specialist(SourceId::ValidationMaths)]);
    v.push(c);
    v
}

pub const STATISTICAL_ANALYSIS_NAME: &'static str = "Statistical Analysis";

pub const STATISTICAL_ANALYSIS_STRONG: &'static str = "Uses appropriate tests (e.g. t-test, ANOVA, regression) with checks \
                 (normality, variance) and reports effect sizes or confidence intervals, \
                 not just p-values.";

pub const STATISTICAL_ANALYSIS_WEAK: &'static str = "P-values reported alone; misuse of tests (e.g. multiple t-tests instead of \
               ANOVA) or lack of correction for multiple comparisons.";

pub const STATISTICAL_ANALYSIS_ACTION: &'static str = "Consult a statistician if unsure. Include a statistics section detailing \
                 methods and thresholds. Report actual values (means, SDs, exact p-values) \
                 and indicate software or packages used.";

pub const SELECTIVE_REPORTING_NAME: &'static str = "Selective Reporting";

pub const SELECTIVE_REPORTING_STRONG: &'static str = "Referees expect all relevant data presented (avoiding selective \
                 reporting).";

pub const SELECTIVE_REPORTING_WEAK: &'static str = "Over-claiming results or neglecting negative/inconclusive data is frowned \
               upon.";

pub const SELECTIVE_REPORTING_ACTION: &'static str = "Don't hide data variability—present confidence intervals and include \
                 non-significant findings in text or Supplement.";

/// The criteria of the `statistics` list, as the referee document states them.
pub open spec fn statistics_criteria_ok(cs: Seq<Criterion>) -> bool {
    &&& cs.len() == 2
    &&& criterion_is(cs[0], "statistical_analysis"@, STATISTICAL_ANALYSIS_NAME@, STATISTICAL_ANALYSIS_STRONG@, STATISTICAL_ANALYSIS_WEAK@, STATISTICAL_ANALYSIS_ACTION@, RiskRow::MethodologyQuality, seq![LensSource::Specialist(SourceId::FrequentistStats), LensSource::Specialist(SourceId::ValidationMaths), LensSource::Specialist(SourceId::ReportingStandards)], seq!["multiple_comparisons_uncorrected"@, "parametric_test_assumptions_unstated"@, "p_value_reported_as_exactly_zero"@, "test_claimed_but_absent_from_analysis"@, "TestGroupMismatch"@, "MissingEffectSize"@, "MissingConfidenceInterval"@])
    &&& criterion_is(cs[1], "selective_reporting"@, SELECTIVE_REPORTING_NAME@, SELECTIVE_REPORTING_STRONG@, SELECTIVE_REPORTING_WEAK@, SELECTIVE_REPORTING_ACTION@, RiskRow::MethodologyQuality, seq![LensSource::Specialist(SourceId::FrequentistStats), LensSource::Specialist(SourceId::ValidationMaths)], seq!["marginal_significance_language"@, "PValueOverclaim"@])
}

fn statistics_criteria() -> (r: Vec<Criterion>)
    ensures
        statistics_criteria_ok(r@),
{
    let mut v = Vec::new();
    let c = Criterion { id: "statistical_analysis", name: STATISTICAL_ANALYSIS_NAME, strong: STATISTICAL_ANALYSIS_STRONG, weak: STATISTICAL_ANALYSIS_WEAK, action: STATISTICAL_ANALYSIS_ACTION, row: RiskRow::MethodologyQuality, sources: vec![LensSource::Specialist(SourceId::FrequentistStats), LensSource::Specialist(SourceId::ValidationMaths), LensSource::Specialist(SourceId::ReportingStandards)], codes: vec!["multiple_comparisons_uncorrected", "parametric_test_assumptions_unstated", "p_value_reported_as_exactly_zero", "test_claimed_but_absent_from_analysis", "TestGroupMismatch", "MissingEffectSize", "MissingConfidenceInterval"] };
    assert(views(c.codes@) =~= seq!["multiple_comparisons_uncorrected"@, "parametric_test_assumptions_unstated"@, "p_value_reported_as_exactly_zero"@, "test_claimed_but_absent_from_analysis"@, "TestGroupMismatch"@, "MissingEffectSize"@, "MissingConfidenceInterval"@]);
    assert(c.sources@ =~= seq![LensSource::Specialist(SourceId::FrequentistStats), LensSource::Specialist(SourceId::ValidationMaths), LensSource::Specialist(SourceId::ReportingStandards)]);
    v.push(c);
    let c = Criterion { id: "selective_reporting", name: SELECTIVE_REPORTING_NAME, strong: SELECTIVE_REPORTING_STRONG, weak: SELECTIVE_REPORTING_WEAK, action: SELECTIVE_REPORTING_ACTION, row: RiskRow::MethodologyQuality, sources: vec![LensSource::Specialist(SourceId::FrequentistStats), LensSource::Specialist(SourceId::ValidationMaths)], codes: vec!["marginal_significance_language", "PValueOverclaim"] };
    assert(views(c.codes@) =~= seq!["marginal_significance_language"@, "PValueOverclaim"@]);
    assert(c.sources@ =~= seq![LensSource::Specialist(SourceId::FrequentistStats), LensSource::Specialist(SourceId::ValidationMaths)]);
    v.push(c);
    v
}

pub const NOVELTY_SIGNIFICANCE_NAME: &'static str = "Novelty & Significance";

pub const NOVELTY_SIGNIFICANCE_STRONG: &'static str = "Demonstrates a gap in knowledge and addresses it (e.g. first report of a \
                 phenomenon, new mechanism).";

pub const NOVELTY_SIGNIFICANCE_WEAK: &'static str = "Confirms known results or adds only incremental detail (\"me-too\" study).";

pub const NOVELTY_SIGNIFICANCE_ACTION: &'static str = "State the novel hypothesis/aim in the Introduction; cite very recent \
                 papers to show uniqueness. Emphasize in title/abstract how the work \
                 changes current understanding.";

pub const LITERATURE_COVERAGE_NAME: &'static str = "Coverage of Relevant Literature";

pub const LITERATURE_COVERAGE_STRONG: &'static str = "Comprehensive review of recent studies (last 3–5 years especially) and \
                 foundational works.";

pub const LITERATURE_COVERAGE_WEAK: &'static str = "Ignoring recent publications or major groups; citing only older or \
               peripheral papers.";

pub const LITERATURE_COVERAGE_ACTION: &'static str = "Conduct thorough searches (PubMed, Scopus, Google Scholar, and specialized \
                 databases) to identify all major related studies. Add references to recent \
                 high-profile papers. Include any studies with conflicting results and \
                 discuss these.";

pub const UP_TO_DATE_REFERENCES_NAME: &'static str = "Up-to-Date References";

pub const UP_TO_DATE_REFERENCES_STRONG: &'static str = "Majority of references from the past decade, including latest articles or \
                 preprints if allowed.";

pub const UP_TO_DATE_REFERENCES_WEAK: &'static str = "Reliance on outdated sources (10+ years old) or irrelevant citations; missed \
               citing key recent advances.";

pub const UP_TO_DATE_REFERENCES_ACTION: &'static str = "Double-check each section: do not say \"no one has studied this\" if \
                 someone did so recently. Use recent literature review articles and \
                 reference mining to ensure nothing is overlooked. Update the reference \
                 list after initial draft submission.";

/// The criteria of the `novelty` list, as the referee document states them.
pub open spec fn novelty_criteria_ok(cs: Seq<Criterion>) -> bool {
    &&& cs.len() == 3
    &&& criterion_is(cs[0], "novelty_significance"@, NOVELTY_SIGNIFICANCE_NAME@, NOVELTY_SIGNIFICANCE_STRONG@, NOVELTY_SIGNIFICANCE_WEAK@, NOVELTY_SIGNIFICANCE_ACTION@, RiskRow::NoveltyOriginality, seq![LensSource::Specialist(SourceId::NoveltyClaims)], seq!["PRIOR_WORK_EXISTS"@, "NOVELTY_NARROWER_THAN_STATED"@, "novelty_claim_states_no_scope"@])
    &&& criterion_is(cs[1], "literature_coverage"@, LITERATURE_COVERAGE_NAME@, LITERATURE_COVERAGE_STRONG@, LITERATURE_COVERAGE_WEAK@, LITERATURE_COVERAGE_ACTION@, RiskRow::LiteratureCitations, seq![LensSource::Specialist(SourceId::LiteratureCoverage)], seq![])
    &&& criterion_is(cs[2], "up_to_date_references"@, UP_TO_DATE_REFERENCES_NAME@, UP_TO_DATE_REFERENCES_STRONG@, UP_TO_DATE_REFERENCES_WEAK@, UP_TO_DATE_REFERENCES_ACTION@, RiskRow::LiteratureCitations, seq![LensSource::State(StateField::ReferenceYears)], seq!["reference_list_is_mostly_outdated"@])
}

fn novelty_criteria() -> (r: Vec<Criterion>)
    ensures
        novelty_criteria_ok(r@),
{
    let mut v = Vec::new();
    let c = Criterion { id: "novelty_significance", name: NOVELTY_SIGNIFICANCE_NAME, strong: NOVELTY_SIGNIFICANCE_STRONG, weak: NOVELTY_SIGNIFICANCE_WEAK, action: NOVELTY_SIGNIFICANCE_ACTION, row: RiskRow::NoveltyOriginality, sources: vec![LensSource::Specialist(SourceId::NoveltyClaims)], codes: vec!["PRIOR_WORK_EXISTS", "NOVELTY_NARROWER_THAN_STATED", "novelty_claim_states_no_scope"] };
    assert(views(c.codes@) =~= seq!["PRIOR_WORK_EXISTS"@, "NOVELTY_NARROWER_THAN_STATED"@, "novelty_claim_states_no_scope"@]);
    assert(c.sources@ =~= seq![LensSource::Specialist(SourceId::NoveltyClaims)]);
    v.push(c);
    let c = Criterion { id: "literature_coverage", name: LITERATURE_COVERAGE_NAME, strong: LITERATURE_COVERAGE_STRONG, weak: LITERATURE_COVERAGE_WEAK, action: LITERATURE_COVERAGE_ACTION, row: RiskRow::LiteratureCitations, sources: vec![LensSource::Specialist(SourceId::LiteratureCoverage)], codes: vec![] };
    assert(views(c.codes@) =~= seq![]);
    assert(c.sources@ =~= seq![LensSource::Specialist(SourceId::LiteratureCoverage)]);
    v.push(c);
    let c = Criterion { id: "up_to_date_references", name: UP_TO_DATE_REFERENCES_NAME, strong: UP_TO_DATE_REFERENCES_STRONG, weak: UP_TO_DATE_REFERENCES_WEAK, action: UP_TO_DATE_REFERENCES_ACTION, row: RiskRow::LiteratureCitations, sources: vec![LensSource::State(StateField::ReferenceYears)], codes: vec!["reference_list_is_mostly_outdated"] };
    assert(views(c.codes@) =~= seq!["reference_list_is_mostly_outdated"@]);
    assert(c.sources@ =~= seq![LensSource::State(StateField::ReferenceYears)]);
    v.push(c);
    v
}

pub const SCOPE_FIT_NAME: &'static str = "Scope/Fit";

pub const SCOPE_FIT_STRONG: &'static str = "A research question of broad relevance (not merely local interest).";

pub const SCOPE_FIT_WEAK: &'static str = "Study of only narrow/regional scope or on a trendy topic outside the \
               journal's focus.";

pub const SCOPE_FIT_ACTION: &'static str = "Choose journals carefully (use pre-submission enquiries or journal finder \
                 tools) and mention fit in the cover letter.";

pub const COMPARABLE_POSITION_NAME: &'static str = "Position against the comparable corpus";

pub const COMPARABLE_POSITION_STRONG: &'static str = "Even strong science must fit the journal's scope and audience. Evidence: \
                 Submission cover letter and content clearly address the journal's aims.";

pub const COMPARABLE_POSITION_WEAK: &'static str = "Topic outside journal scope, too narrow or too general for target field.";

pub const COMPARABLE_POSITION_ACTION: &'static str = "Check author guidelines/scope statement; revise title/abstract to match \
                 field language; consider more suitable journal if out of scope.";

/// The criteria of the `journal_fit` list, as the referee document states them.
pub open spec fn journal_fit_criteria_ok(cs: Seq<Criterion>) -> bool {
    &&& cs.len() == 2
    &&& criterion_is(cs[0], "scope_fit"@, SCOPE_FIT_NAME@, SCOPE_FIT_STRONG@, SCOPE_FIT_WEAK@, SCOPE_FIT_ACTION@, RiskRow::JournalCompliance, seq![LensSource::Specialist(SourceId::ComparableCorpus)], seq![])
    &&& criterion_is(cs[1], "comparable_position"@, COMPARABLE_POSITION_NAME@, COMPARABLE_POSITION_STRONG@, COMPARABLE_POSITION_WEAK@, COMPARABLE_POSITION_ACTION@, RiskRow::JournalCompliance, seq![LensSource::Specialist(SourceId::ComparableCorpus)], seq![])
}

fn journal_fit_criteria() -> (r: Vec<Criterion>)
    ensures
        journal_fit_criteria_ok(r@),
{
    let mut v = Vec::new();
    let c = Criterion { id: "scope_fit", name: SCOPE_FIT_NAME, strong: SCOPE_FIT_STRONG, weak: SCOPE_FIT_WEAK, action: SCOPE_FIT_ACTION, row: RiskRow::JournalCompliance, sources: vec![LensSource::Specialist(SourceId::ComparableCorpus)], codes: vec![] };
    assert(views(c.codes@) =~= seq![]);
    assert(c.sources@ =~= seq![LensSource::Specialist(SourceId::ComparableCorpus)]);
    v.push(c);
    let c = Criterion { id: "comparable_position", name: COMPARABLE_POSITION_NAME, strong: COMPARABLE_POSITION_STRONG, weak: COMPARABLE_POSITION_WEAK, action: COMPARABLE_POSITION_ACTION, row: RiskRow::JournalCompliance, sources: vec![LensSource::Specialist(SourceId::ComparableCorpus)], codes: vec![] };
    assert(views(c.codes@) =~= seq![]);
    assert(c.sources@ =~= seq![LensSource::Specialist(SourceId::ComparableCorpus)]);
    v.push(c);
    v
}

pub const MANDATED_STANDARDS_MET_NAME: &'static str = "Reporting standards mandated by the journal";

pub const MANDATED_STANDARDS_MET_STRONG: &'static str = "State compliance with reporting standards (e.g. data sharing policy, \
                 clinical trial registration number if clinical trials).";

pub const MANDATED_STANDARDS_MET_WEAK: &'static str = "Omitting mandatory forms or failing to declare a conflict (including funding \
               or affiliations).";

pub const MANDATED_STANDARDS_MET_ACTION: &'static str = "Review the journal's ethics checklist. Complete forms (for example, ICMJE \
                 author form) if required. Declare all funding sources and personal or \
                 institutional conflicts.";

pub const FORMATTING_AND_STYLE_NAME: &'static str = "Formatting and Style";

pub const FORMATTING_AND_STYLE_STRONG: &'static str = "Submissions that match journal layout (sections in correct order, required \
                 sections present).";

pub const FORMATTING_AND_STYLE_WEAK: &'static str = "Wrong document class (e.g. double columns instead of single), missing \
               abstract or keywords, or neglecting required section headers.";

pub const FORMATTING_AND_STYLE_ACTION: &'static str = "Download and use the journal's template or sample paper. Before \
                 submission, use the submission checklist (if provided) and confirm each \
                 requirement (format, structure, word limit) is met.";

pub const WORD_PAGE_LIMITS_NAME: &'static str = "Word/Page Limits";

pub const WORD_PAGE_LIMITS_STRONG: &'static str = "Comfortable compliance (some journals reject or return without review if \
                 exceeded).";

pub const WORD_PAGE_LIMITS_WEAK: &'static str = "Significantly overlength text or too many/oversized figures (even if \
               important).";

pub const WORD_PAGE_LIMITS_ACTION: &'static str = "Trim unnecessary filler; focus writing tightly on the main story. Move \
                 extensive literature background or ancillary results to the Supplement if \
                 needed. Check that titles and abstracts also meet length rules.";

pub const REFERENCE_STYLE_NAME: &'static str = "Reference Style";

pub const REFERENCE_STYLE_STRONG: &'static str = "All references correctly formatted and numbered if needed.";

pub const REFERENCE_STYLE_WEAK: &'static str = "Mixed styles, missing DOI/PMID (if required), inconsistent author listings.";

pub const REFERENCE_STYLE_ACTION: &'static str = "Use reference manager tools (EndNote, Zotero) with the journal's style \
                 file. Proofread the final bibliography and fix any anomalies (special \
                 characters, et al usage).";

pub const ETHICS_AND_DISCLOSURES_NAME: &'static str = "Ethics and Disclosures";

pub const ETHICS_AND_DISCLOSURES_STRONG: &'static str = "Clear statements about IRB approval (with reference number), informed \
                 consent, and disclosure of any commercial interests or funding sources.";

pub const ETHICS_AND_DISCLOSURES_WEAK: &'static str = "Omitting mandatory forms or failing to declare a conflict (including funding \
               or affiliations).";

pub const ETHICS_AND_DISCLOSURES_ACTION: &'static str = "Review the journal's ethics checklist. Complete forms (for example, ICMJE \
                 author form) if required. Declare all funding sources and personal or \
                 institutional conflicts.";

/// The criteria of the `reporting_ethics` list, as the referee document states them.
pub open spec fn reporting_ethics_criteria_ok(cs: Seq<Criterion>) -> bool {
    &&& cs.len() == 5
    &&& criterion_is(cs[0], "mandated_standards_met"@, MANDATED_STANDARDS_MET_NAME@, MANDATED_STANDARDS_MET_STRONG@, MANDATED_STANDARDS_MET_WEAK@, MANDATED_STANDARDS_MET_ACTION@, RiskRow::JournalCompliance, seq![LensSource::Specialist(SourceId::ReportingStandards)], seq!["AbstractPresent"@, "ResultsSectionPresent"@, "SampleSizeReported"@, "StatisticalTestReported"@, "EffectSizeReported"@, "ConfidenceIntervalReported"@])
    &&& criterion_is(cs[1], "formatting_and_style"@, FORMATTING_AND_STYLE_NAME@, FORMATTING_AND_STYLE_STRONG@, FORMATTING_AND_STYLE_WEAK@, FORMATTING_AND_STYLE_ACTION@, RiskRow::JournalCompliance, seq![LensSource::Specialist(SourceId::JournalRequirements)], seq![])
    &&& criterion_is(cs[2], "word_page_limits"@, WORD_PAGE_LIMITS_NAME@, WORD_PAGE_LIMITS_STRONG@, WORD_PAGE_LIMITS_WEAK@, WORD_PAGE_LIMITS_ACTION@, RiskRow::JournalCompliance, seq![LensSource::Specialist(SourceId::JournalRequirements)], seq![])
    &&& criterion_is(cs[3], "reference_style"@, REFERENCE_STYLE_NAME@, REFERENCE_STYLE_STRONG@, REFERENCE_STYLE_WEAK@, REFERENCE_STYLE_ACTION@, RiskRow::JournalCompliance, seq![LensSource::Specialist(SourceId::JournalRequirements)], seq![])
    &&& criterion_is(cs[4], "ethics_and_disclosures"@, ETHICS_AND_DISCLOSURES_NAME@, ETHICS_AND_DISCLOSURES_STRONG@, ETHICS_AND_DISCLOSURES_WEAK@, ETHICS_AND_DISCLOSURES_ACTION@, RiskRow::DataEthics, seq![LensSource::Specialist(SourceId::JournalRequirements), LensSource::Specialist(SourceId::ReportingStandards)], seq![])
}

fn reporting_ethics_criteria() -> (r: Vec<Criterion>)
    ensures
        reporting_ethics_criteria_ok(r@),
{
    let mut v = Vec::new();
    let c = Criterion { id: "mandated_standards_met", name: MANDATED_STANDARDS_MET_NAME, strong: MANDATED_STANDARDS_MET_STRONG, weak: MANDATED_STANDARDS_MET_WEAK, action: MANDATED_STANDARDS_MET_ACTION, row: RiskRow::JournalCompliance, sources: vec![LensSource::Specialist(SourceId::ReportingStandards)], codes: vec!["AbstractPresent", "ResultsSectionPresent", "SampleSizeReported", "StatisticalTestReported", "EffectSizeReported", "ConfidenceIntervalReported"] };
    assert(views(c.codes@) =~= seq!["AbstractPresent"@, "ResultsSectionPresent"@, "SampleSizeReported"@, "StatisticalTestReported"@, "EffectSizeReported"@, "ConfidenceIntervalReported"@]);
    assert(c.sources@ =~= seq![LensSource::Specialist(SourceId::ReportingStandards)]);
    v.push(c);
    let c = Criterion { id: "formatting_and_style", name: FORMATTING_AND_STYLE_NAME, strong: FORMATTING_AND_STYLE_STRONG, weak: FORMATTING_AND_STYLE_WEAK, action: FORMATTING_AND_STYLE_ACTION, row: RiskRow::JournalCompliance, sources: vec![LensSource::Specialist(SourceId::JournalRequirements)], codes: vec![] };
    assert(views(c.codes@) =~= seq![]);
    assert(c.sources@ =~= seq![LensSource::Specialist(SourceId::JournalRequirements)]);
    v.push(c);
    let c = Criterion { id: "word_page_limits", name: WORD_PAGE_LIMITS_NAME, strong: WORD_PAGE_LIMITS_STRONG, weak: WORD_PAGE_LIMITS_WEAK, action: WORD_PAGE_LIMITS_ACTION, row: RiskRow::JournalCompliance, sources: vec![LensSource::Specialist(SourceId::JournalRequirements)], codes: vec![] };
    assert(views(c.codes@) =~= seq![]);
    assert(c.sources@ =~= seq![LensSource::Specialist(SourceId::JournalRequirements)]);
    v.push(c);
    let c = Criterion { id: "reference_style", name: REFERENCE_STYLE_NAME, strong: REFERENCE_STYLE_STRONG, weak: REFERENCE_STYLE_WEAK, action: REFERENCE_STYLE_ACTION, row: RiskRow::JournalCompliance, sources: vec![LensSource::Specialist(SourceId::JournalRequirements)], codes: vec![] };
    assert(views(c.codes@) =~= seq![]);
    assert(c.sources@ =~= seq![LensSource::Specialist(SourceId::JournalRequirements)]);
    v.push(c);
    let c = Criterion { id: "ethics_and_disclosures", name: ETHICS_AND_DISCLOSURES_NAME, strong: ETHICS_AND_DISCLOSURES_STRONG, weak: ETHICS_AND_DISCLOSURES_WEAK, action: ETHICS_AND_DISCLOSURES_ACTION, row: RiskRow::DataEthics, sources: vec![LensSource::Specialist(SourceId::JournalRequirements), LensSource::Specialist(SourceId::ReportingStandards)], codes: vec![] };
    assert(views(c.codes@) =~= seq![]);
    assert(c.sources@ =~= seq![LensSource::Specialist(SourceId::JournalRequirements), LensSource::Specialist(SourceId::ReportingStandards)]);
    v.push(c);
    v
}

pub const CLARITY_STRUCTURE_NAME: &'static str = "Clarity & Structure";

pub const CLARITY_STRUCTURE_STRONG: &'static str = "Clear, well-signed structure; major points easy to identify.";

pub const CLARITY_STRUCTURE_WEAK: &'static str = "Rambling or disordered writing, missing sections or unclear logic.";

pub const CLARITY_STRUCTURE_ACTION: &'static str = "Outline the paper before writing. Write a precise abstract/summary that \
                 states the problem, methods, results, and implications. Use subheadings \
                 and ensure each paragraph transitions smoothly.";

pub const TITLE_ABSTRACT_KEYWORDS_NAME: &'static str = "Title/Abstract/Keywords";

pub const TITLE_ABSTRACT_KEYWORDS_STRONG: &'static str = "Title highlights the main finding; abstract is standalone and clear.";

pub const TITLE_ABSTRACT_KEYWORDS_WEAK: &'static str = "Title is vague or over-claims; abstract omits key data or is too general.";

pub const TITLE_ABSTRACT_KEYWORDS_ACTION: &'static str = "Review guidelines on title/abstract length. Use compelling language for \
                 the key result (avoid clichés like \"novel\" without specifics) and \
                 include 4–6 effective keywords (often from the introduction). Check the \
                 abstract against journal criteria (word count, structure).";

/// The criteria of the `general` list, as the referee document states them.
pub open spec fn general_criteria_ok(cs: Seq<Criterion>) -> bool {
    &&& cs.len() == 2
    &&& criterion_is(cs[0], "clarity_structure"@, CLARITY_STRUCTURE_NAME@, CLARITY_STRUCTURE_STRONG@, CLARITY_STRUCTURE_WEAK@, CLARITY_STRUCTURE_ACTION@, RiskRow::ClarityStructure, seq![LensSource::State(StateField::Sections)], seq![])
    &&& criterion_is(cs[1], "title_abstract_keywords"@, TITLE_ABSTRACT_KEYWORDS_NAME@, TITLE_ABSTRACT_KEYWORDS_STRONG@, TITLE_ABSTRACT_KEYWORDS_WEAK@, TITLE_ABSTRACT_KEYWORDS_ACTION@, RiskRow::ClarityStructure, seq![LensSource::State(StateField::Title)], seq![])
}

fn general_criteria() -> (r: Vec<Criterion>)
    ensures
        general_criteria_ok(r@),
{
    let mut v = Vec::new();
    let c = Criterion { id: "clarity_structure", name: CLARITY_STRUCTURE_NAME, strong: CLARITY_STRUCTURE_STRONG, weak: CLARITY_STRUCTURE_WEAK, action: CLARITY_STRUCTURE_ACTION, row: RiskRow::ClarityStructure, sources: vec![LensSource::State(StateField::Sections)], codes: vec![] };
    assert(views(c.codes@) =~= seq![]);
    assert(c.sources@ =~= seq![LensSource::State(StateField::Sections)]);
    v.push(c);
    let c = Criterion { id: "title_abstract_keywords", name: TITLE_ABSTRACT_KEYWORDS_NAME, strong: TITLE_ABSTRACT_KEYWORDS_STRONG, weak: TITLE_ABSTRACT_KEYWORDS_WEAK, action: TITLE_ABSTRACT_KEYWORDS_ACTION, row: RiskRow::ClarityStructure, sources: vec![LensSource::State(StateField::Title)], codes: vec![] };
    assert(views(c.codes@) =~= seq![]);
    assert(c.sources@ =~= seq![LensSource::State(StateField::Title)]);
    v.push(c);
    v
}

/// A criterion has exactly these texts, row, sources and codes.
pub open spec fn criterion_is(
    c: Criterion,
    id: Seq<char>,
    name: Seq<char>,
    strong: Seq<char>,
    weak: Seq<char>,
    action: Seq<char>,
    row: RiskRow,
    sources: Seq<LensSource>,
    codes: Seq<Seq<char>>,
) -> bool {
    &&& c.id@ == id
    &&& c.name@ == name
    &&& c.strong@ == strong
    &&& c.weak@ == weak
    &&& c.action@ == action
    &&& c.row == row
    &&& c.sources@ == sources
    &&& views(c.codes@) == codes
}

/// **The four lenses that ship**, each with the uniform strict evidence
/// policy. Journal fit and General are declined, in [`declined_lenses`].
pub fn lenses() -> (r: Vec<ReviewLens>)
    ensures
        r@.len() == 4,
        r@[0].id == LensId::Methodology && methodology_criteria_ok(r@[0].criteria@) && !r@[0].journal_context,
        r@[1].id == LensId::Statistics && statistics_criteria_ok(r@[1].criteria@) && !r@[1].journal_context,
        r@[2].id == LensId::NoveltyLiterature && novelty_criteria_ok(r@[2].criteria@) && !r@[2].journal_context,
        r@[3].id == LensId::ReportingEthics && reporting_ethics_criteria_ok(r@[3].criteria@) && r@[3].journal_context,
        forall|i: int| 0 <= i < 4 ==> strict_policy(#[trigger] r@[i].evidence_policy),
{
    let mut v = Vec::new();
    v.push(ReviewLens { id: LensId::Methodology, criteria: methodology_criteria(), evidence_policy: strict(), journal_context: false });
    v.push(ReviewLens { id: LensId::Statistics, criteria: statistics_criteria(), evidence_policy: strict(), journal_context: false });
    v.push(ReviewLens { id: LensId::NoveltyLiterature, criteria: novelty_criteria(), evidence_policy: strict(), journal_context: false });
    v.push(ReviewLens { id: LensId::ReportingEthics, criteria: reporting_ethics_criteria(), evidence_policy: strict(), journal_context: true });
    v
}

/// A lens that is declared and not run, with its criteria kept so the
/// decline is checkable.
#[derive(Debug)]
pub struct DeclinedLens {
    pub id: LensId,
    pub criteria: Vec<Criterion>,
    pub reason: &'static str,
}

pub const JOURNAL_FIT_DECLINED: &'static str = "THE LAYER IS EMPTY. Both criteria read the comparable corpus. \
                 `journal_corpus::derive_conventions` and `PublishedPaper` exist; the \
                 OpenAlex fetch that fills them is in the APP crate, where `gaply_core` \
                 cannot reach it; no `journal_papers` table exists in `migrations.rs`; and \
                 the only in-core caller of `derive_conventions` is a test constructing \
                 twenty fabricated papers. A journal's scope is not extracted either — \
                 `RequirementKind` has nine variants and none is scope. A corpus job would \
                 unblock this lens without changing anything here.";

pub const GENERAL_DECLINED: &'static str = "THE ABSENCE RULE FORBIDS IT. Its two remaining criteria read \
                 `StateField::Sections` and `StateField::Title`, both `Mediated`: measured \
                 over six real manuscripts, the Conclusion heading is missed on 5 of 6 that \
                 all conclude, and the title is a Turnitin cover page or an AI-detector \
                 banner on 2 of 6. Every finding this lens could make rests on an absence \
                 that is about the extractor. Judging whether prose is \"rambling or \
                 disordered\" is a Tier 3/4 reading and belongs to the synthesis cluster. \
                 Its third criterion, Overstated Conclusions, had a real input and moved to \
                 the Methodology lens. Unlike journal fit, NO data path would unblock this \
                 one: it needs a judge, not a corpus.";

/// **The two declined lenses, declined for different reasons**: journal fit
/// because its layer is empty, General because the absence rule forbids it.
pub fn declined_lenses() -> (r: Vec<DeclinedLens>)
    ensures
        r@.len() == 2,
        r@[0].id == LensId::JournalFit && journal_fit_criteria_ok(r@[0].criteria@) && r@[0].reason@ == JOURNAL_FIT_DECLINED@,
        r@[1].id == LensId::General && general_criteria_ok(r@[1].criteria@) && r@[1].reason@ == GENERAL_DECLINED@,
{
    let mut v = Vec::new();
    v.push(DeclinedLens { id: LensId::JournalFit, criteria: journal_fit_criteria(), reason: JOURNAL_FIT_DECLINED });
    v.push(DeclinedLens { id: LensId::General, criteria: general_criteria(), reason: GENERAL_DECLINED });
    v
}

} // verus!
