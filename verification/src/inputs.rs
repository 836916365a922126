//! What the producers a referee lens reads hand it: specialist reports, the
//! deterministic validity rules' report, and novelty assessments — as plain
//! values, carrying what a lens reads of them.

use vstd::prelude::*;

use crate::extract::Location;

verus! {

/// One finding a specialist admitted.
#[derive(Debug, Clone)]
pub struct SpecialistFinding {
    pub code: String,
    pub summary: String,
    /// The manuscript sentence the finding rests on, whole.
    pub span: Option<String>,
    pub location: Option<Location>,
    /// What the check could not determine.
    pub uncertainty: Option<String>,
}

/// One specialist's report on one manuscript. `not_applicable` set means the
/// specialist declined: it ran none of its checks.
#[derive(Debug, Clone)]
pub struct SpecialistReport {
    pub specialist: String,
    pub admitted: Vec<SpecialistFinding>,
    pub not_applicable: Option<String>,
}

/// A deterministic validity rule.
#[derive(Debug, Clone, Copy, PartialEq, Eq, Structural)]
pub enum RuleId {
    TestGroupMismatch,
    SmallSampleCausalClaim,
    PValueOverclaim,
    MissingEffectSize,
    MissingConfidenceInterval,
}

/// The rule's name, as `Debug` prints it.
pub open spec fn rule_name(r: RuleId) -> Seq<char> {
    match r {
        RuleId::TestGroupMismatch => "TestGroupMismatch"@,
        RuleId::SmallSampleCausalClaim => "SmallSampleCausalClaim"@,
        RuleId::PValueOverclaim => "PValueOverclaim"@,
        RuleId::MissingEffectSize => "MissingEffectSize"@,
        RuleId::MissingConfidenceInterval => "MissingConfidenceInterval"@,
    }
}

impl RuleId {
    /// The rule's name, as `Debug` prints it.
    pub fn debug_name(self) -> (r: &'static str)
        ensures
            r@ == rule_name(self),
    {
        match self {
            RuleId::TestGroupMismatch => "TestGroupMismatch",
            RuleId::SmallSampleCausalClaim => "SmallSampleCausalClaim",
            RuleId::PValueOverclaim => "PValueOverclaim",
            RuleId::MissingEffectSize => "MissingEffectSize",
            RuleId::MissingConfidenceInterval => "MissingConfidenceInterval",
        }
    }
}

/// A rule that was evaluated on the manuscript.
#[derive(Debug, Clone, Copy)]
pub struct RuleCheck {
    pub rule: RuleId,
}

/// A rule that fired, at the location it evaluated.
#[derive(Debug, Clone)]
pub struct ValidityFlag {
    pub rule: RuleId,
    pub explanation: String,
    pub location: Location,
}

/// The deterministic validity rules' report.
#[derive(Debug, Clone)]
pub struct StatsValidityReport {
    pub checks: Vec<RuleCheck>,
    pub flags: Vec<ValidityFlag>,
}

/// What novelty retrieval concluded about one claim.
#[derive(Debug, Clone, Copy, PartialEq, Eq, Structural)]
pub enum NoveltyStatus {
    PriorWorkExists,
    NoveltyNarrowerThanStated,
    Unverified,
}

pub open spec fn novelty_status_name(s: NoveltyStatus) -> Seq<char> {
    match s {
        NoveltyStatus::PriorWorkExists => "PRIOR_WORK_EXISTS"@,
        NoveltyStatus::NoveltyNarrowerThanStated => "NOVELTY_NARROWER_THAN_STATED"@,
        NoveltyStatus::Unverified => "UNVERIFIED"@,
    }
}

impl NoveltyStatus {
    pub fn as_str(self) -> (r: &'static str)
        ensures
            r@ == novelty_status_name(self),
    {
        match self {
            NoveltyStatus::PriorWorkExists => "PRIOR_WORK_EXISTS",
            NoveltyStatus::NoveltyNarrowerThanStated => "NOVELTY_NARROWER_THAN_STATED",
            NoveltyStatus::Unverified => "UNVERIFIED",
        }
    }
}

/// The nearest prior work retrieval found.
#[derive(Debug, Clone)]
pub struct PriorWork {
    /// How the work is cited.
    pub citation: String,
    /// What the work showed, in one sentence.
    pub showed: String,
}

/// A novelty claim as the manuscript states it.
#[derive(Debug, Clone)]
pub struct NoveltyClaim {
    pub sentence: String,
    pub location: Location,
}

/// One novelty claim, assessed.
#[derive(Debug, Clone)]
pub struct NoveltyAssessment {
    pub claim: NoveltyClaim,
    pub status: NoveltyStatus,
    pub nearest_prior_work: Option<PriorWork>,
    /// How the novelty is narrower than stated, when it is.
    pub narrowing: Option<String>,
    /// The observation that the claim states no scope, whatever the status.
    pub states_no_scope: Option<String>,
    pub uncertainty: String,
}

/// A bibliography entry as the verification lane checked it; the report
/// reads the entry as the manuscript wrote it.
#[derive(Debug, Clone)]
pub struct ReferenceVerification {
    pub reference_raw: String,
}

} // verus!
