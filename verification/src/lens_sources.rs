//! What a referee lens can read — specialist producers and research-state
//! fields — whether each exists, and what an absence in each field means.

use vstd::prelude::*;

verus! {

/// Every producer a lens can read, shipped or not.
#[derive(Debug, Clone, Copy, PartialEq, Eq, Structural)]
pub enum SourceId {
    FrequentistStats,
    MlMethodology,
    ClaimEvidenceStrength,
    NoveltyClaims,
    ValidationMaths,
    ReportingStandards,
    JournalRequirements,
    ComparableCorpus,
    BayesianAnalysis,
    QualitativeMethods,
    SurveyPsychometric,
    LabWetBench,
    ComputationalConsistency,
    ReferenceCurrency,
    LiteratureCoverage,
    ClarityStructure,
}

/// Whether a source exists, and if not, what is missing.
#[derive(Debug, Clone, Copy, PartialEq, Eq, Structural)]
pub enum SourceState {
    /// Built and producing rows on the real corpus.
    Shipping,
    /// Declined against a named empty layer. Never "not yet built".
    Declined,
    /// The type exists; nothing fills it in this crate.
    NoDataPath,
    /// Nothing produces this at all.
    NotBuilt,
}

pub const NOTE_SHIPPING: &'static str = "built, and producing rows on the six real manuscripts";

pub const NOTE_NOVELTY_DECLINED: &'static str =
    "declined (§11 D166): a 31-cue scan over 20 real manuscripts found 12 \
     candidate sentences and 2 real novelty claims — 0.1 per manuscript — \
     and §4.6's own phrasings appear in none of them. The instrument is \
     kept; no lens consumes it";

pub const NOTE_COMPUTATIONAL_DECLINED: &'static str =
    "declined: no upload path accepts an analysis file. The SPSS parser and \
     the `AnalysisRecord` type already exist";

pub const NOTE_SCIENTIFIC_DECLINED: &'static str =
    "declined against the scientific layer (§11 D165): 5.9% precision \
     against a 50% no-skill baseline";

pub const NOTE_NO_DATA_PATH: &'static str =
    "the type and the derivation exist in `journal_corpus`; the OpenAlex fetch \
     that fills them is in the app crate, no `journal_papers` table exists, and \
     the only in-core caller is a test with twenty fabricated papers";

pub const NOTE_CURRENCY_NOT_BUILT: &'static str =
    "not built. Every `Reference` carries a `year`, so this is cheap — but a \
     lens computing it would be an extractor wearing a lens's name";

pub const NOTE_COVERAGE_NOT_BUILT: &'static str =
    "not built. Needs the field's literature, which is the comparable \
     corpus's problem one layer down";

pub const NOTE_CLARITY_NOT_BUILT: &'static str =
    "not built. Section structure is extracted; nothing judges it";

pub open spec fn source_name(s: SourceId) -> Seq<char> {
    match s {
        SourceId::FrequentistStats => "frequentist_stats"@,
        SourceId::MlMethodology => "ml_methodology"@,
        SourceId::ClaimEvidenceStrength => "claim_evidence_strength"@,
        SourceId::NoveltyClaims => "novelty_claims"@,
        SourceId::ValidationMaths => "validation_maths"@,
        SourceId::ReportingStandards => "reporting_standards"@,
        SourceId::JournalRequirements => "journal_requirements"@,
        SourceId::ComparableCorpus => "comparable_corpus"@,
        SourceId::BayesianAnalysis => "bayesian_analysis"@,
        SourceId::QualitativeMethods => "qualitative_methods"@,
        SourceId::SurveyPsychometric => "survey_psychometric"@,
        SourceId::LabWetBench => "lab_wet_bench"@,
        SourceId::ComputationalConsistency => "computational_consistency"@,
        SourceId::ReferenceCurrency => "reference_currency"@,
        SourceId::LiteratureCoverage => "literature_coverage"@,
        SourceId::ClarityStructure => "clarity_structure"@,
    }
}

/// **The measurement**: which sources ship, and why the others do not.
pub open spec fn source_state(s: SourceId) -> SourceState {
    match s {
        SourceId::FrequentistStats | SourceId::MlMethodology | SourceId::ClaimEvidenceStrength
        | SourceId::ValidationMaths | SourceId::ReportingStandards
        | SourceId::JournalRequirements => SourceState::Shipping,
        SourceId::NoveltyClaims => SourceState::Declined,
        SourceId::BayesianAnalysis | SourceId::QualitativeMethods | SourceId::SurveyPsychometric
        | SourceId::LabWetBench => SourceState::Declined,
        SourceId::ComputationalConsistency => SourceState::Declined,
        SourceId::ComparableCorpus => SourceState::NoDataPath,
        SourceId::ReferenceCurrency | SourceId::LiteratureCoverage
        | SourceId::ClarityStructure => SourceState::NotBuilt,
    }
}

pub open spec fn source_note(s: SourceId) -> Seq<char> {
    match source_state(s) {
        SourceState::Shipping => NOTE_SHIPPING@,
        SourceState::Declined => match s {
            SourceId::NoveltyClaims => NOTE_NOVELTY_DECLINED@,
            SourceId::ComputationalConsistency => NOTE_COMPUTATIONAL_DECLINED@,
            _ => NOTE_SCIENTIFIC_DECLINED@,
        },
        SourceState::NoDataPath => NOTE_NO_DATA_PATH@,
        SourceState::NotBuilt => match s {
            SourceId::ReferenceCurrency => NOTE_CURRENCY_NOT_BUILT@,
            SourceId::LiteratureCoverage => NOTE_COVERAGE_NOT_BUILT@,
            _ => NOTE_CLARITY_NOT_BUILT@,
        },
    }
}

/// Declaration order, which is the order `derive(Ord)` gives.
pub open spec fn source_index(s: SourceId) -> nat {
    match s {
        SourceId::FrequentistStats => 0,
        SourceId::MlMethodology => 1,
        SourceId::ClaimEvidenceStrength => 2,
        SourceId::NoveltyClaims => 3,
        SourceId::ValidationMaths => 4,
        SourceId::ReportingStandards => 5,
        SourceId::JournalRequirements => 6,
        SourceId::ComparableCorpus => 7,
        SourceId::BayesianAnalysis => 8,
        SourceId::QualitativeMethods => 9,
        SourceId::SurveyPsychometric => 10,
        SourceId::LabWetBench => 11,
        SourceId::ComputationalConsistency => 12,
        SourceId::ReferenceCurrency => 13,
        SourceId::LiteratureCoverage => 14,
        SourceId::ClarityStructure => 15,
    }
}

impl SourceId {
    pub fn as_str(self) -> (r: &'static str)
        ensures
            r@ == source_name(self),
    {
        match self {
            SourceId::FrequentistStats => "frequentist_stats",
            SourceId::MlMethodology => "ml_methodology",
            SourceId::ClaimEvidenceStrength => "claim_evidence_strength",
            SourceId::NoveltyClaims => "novelty_claims",
            SourceId::ValidationMaths => "validation_maths",
            SourceId::ReportingStandards => "reporting_standards",
            SourceId::JournalRequirements => "journal_requirements",
            SourceId::ComparableCorpus => "comparable_corpus",
            SourceId::BayesianAnalysis => "bayesian_analysis",
            SourceId::QualitativeMethods => "qualitative_methods",
            SourceId::SurveyPsychometric => "survey_psychometric",
            SourceId::LabWetBench => "lab_wet_bench",
            SourceId::ComputationalConsistency => "computational_consistency",
            SourceId::ReferenceCurrency => "reference_currency",
            SourceId::LiteratureCoverage => "literature_coverage",
            SourceId::ClarityStructure => "clarity_structure",
        }
    }

    /// Whether this source exists. Total, with no wildcard arm.
    pub fn state(self) -> (r: SourceState)
        ensures
            r == source_state(self),
    {
        match self {
            SourceId::FrequentistStats | SourceId::MlMethodology
            | SourceId::ClaimEvidenceStrength | SourceId::ValidationMaths
            | SourceId::ReportingStandards | SourceId::JournalRequirements => SourceState::Shipping,
            SourceId::NoveltyClaims => SourceState::Declined,
            SourceId::BayesianAnalysis | SourceId::QualitativeMethods
            | SourceId::SurveyPsychometric | SourceId::LabWetBench => SourceState::Declined,
            SourceId::ComputationalConsistency => SourceState::Declined,
            SourceId::ComparableCorpus => SourceState::NoDataPath,
            SourceId::ReferenceCurrency | SourceId::LiteratureCoverage
            | SourceId::ClarityStructure => SourceState::NotBuilt,
        }
    }

    /// Why, in one sentence a reader can act on.
    pub fn note(self) -> (r: &'static str)
        ensures
            r@ == source_note(self),
    {
        match self.state() {
            SourceState::Shipping => NOTE_SHIPPING,
            SourceState::Declined => match self {
                SourceId::NoveltyClaims => NOTE_NOVELTY_DECLINED,
                SourceId::ComputationalConsistency => NOTE_COMPUTATIONAL_DECLINED,
                _ => NOTE_SCIENTIFIC_DECLINED,
            },
            SourceState::NoDataPath => NOTE_NO_DATA_PATH,
            SourceState::NotBuilt => match self {
                SourceId::ReferenceCurrency => NOTE_CURRENCY_NOT_BUILT,
                SourceId::LiteratureCoverage => NOTE_COVERAGE_NOT_BUILT,
                _ => NOTE_CLARITY_NOT_BUILT,
            },
        }
    }
}

// ---------------------------------------------------------------------------
// Research-state fields
// ---------------------------------------------------------------------------

/// What a lens searched, and therefore what an empty result means.
#[derive(Debug, Clone, Copy, PartialEq, Eq, Structural)]
pub enum FieldReach {
    /// Every word of the manuscript. An absence here is about the MANUSCRIPT.
    Exhaustive,
    /// A projection the extractor built. An absence here is about the
    /// EXTRACTOR, and no finding may rest on it.
    Mediated,
}

/// A field of the research state or the journal fingerprint that a lens reads.
#[derive(Debug, Clone, Copy, PartialEq, Eq, Structural)]
pub enum StateField {
    FullText,
    Statistics,
    References,
    ReferenceYears,
    Sections,
    Title,
    Tables,
    JournalRequirements,
    JournalStandardBindings,
}

pub const FIELD_NOTE_FULL_TEXT: &'static str =
    "is every word of the manuscript as `docparse` produced it, so a miss can \
     only be a phrasing this lexicon does not know";

pub const FIELD_NOTE_REFERENCE_YEARS: &'static str =
    "carries only the reference years that WERE parsed, so nothing is concluded \
     from a reference having none; below ten dated references it says nothing";

pub const FIELD_NOTE_SECTIONS: &'static str =
    "comes from a heading classifier: measured, the Conclusion heading is \
     missed on 5 of 6 real manuscripts that all conclude";

pub const FIELD_NOTE_REFERENCES: &'static str =
    "comes from a bibliography parser that returns nothing on 2 of 6 real \
     manuscripts carrying 15 and 165 in-text citations";

pub const FIELD_NOTE_TITLE: &'static str =
    "is a Turnitin cover page or an AI-detector banner on 2 of 6 real \
     manuscripts";

pub const FIELD_NOTE_STATISTICS: &'static str =
    "omits any statistic in a format the extractor does not know, which is \
     indistinguishable from one that is not there";

pub const FIELD_NOTE_TABLES: &'static str =
    "omits any table the converter flattened, which is indistinguishable \
     from one the paper does not have";

pub const FIELD_NOTE_JOURNAL: &'static str =
    "may be missing because the journal does not state it OR because the \
     crawl never reached the page; the fingerprint's four-way status is \
     where that distinction lives";

pub open spec fn field_name(f: StateField) -> Seq<char> {
    match f {
        StateField::FullText => "full_text"@,
        StateField::Statistics => "statistics"@,
        StateField::References => "references"@,
        StateField::ReferenceYears => "reference_years"@,
        StateField::Sections => "sections"@,
        StateField::Title => "title"@,
        StateField::Tables => "tables"@,
        StateField::JournalRequirements => "journal_requirements"@,
        StateField::JournalStandardBindings => "journal_standard_bindings"@,
    }
}

/// **The rule**: only the full text, and the years of references that were
/// parsed, are exhaustive.
pub open spec fn field_reach(f: StateField) -> FieldReach {
    match f {
        StateField::FullText | StateField::ReferenceYears => FieldReach::Exhaustive,
        _ => FieldReach::Mediated,
    }
}

pub open spec fn field_note(f: StateField) -> Seq<char> {
    match f {
        StateField::FullText => FIELD_NOTE_FULL_TEXT@,
        StateField::ReferenceYears => FIELD_NOTE_REFERENCE_YEARS@,
        StateField::Sections => FIELD_NOTE_SECTIONS@,
        StateField::References => FIELD_NOTE_REFERENCES@,
        StateField::Title => FIELD_NOTE_TITLE@,
        StateField::Statistics => FIELD_NOTE_STATISTICS@,
        StateField::Tables => FIELD_NOTE_TABLES@,
        StateField::JournalRequirements | StateField::JournalStandardBindings => FIELD_NOTE_JOURNAL@,
    }
}

pub open spec fn field_index(f: StateField) -> nat {
    match f {
        StateField::FullText => 0,
        StateField::Statistics => 1,
        StateField::References => 2,
        StateField::ReferenceYears => 3,
        StateField::Sections => 4,
        StateField::Title => 5,
        StateField::Tables => 6,
        StateField::JournalRequirements => 7,
        StateField::JournalStandardBindings => 8,
    }
}

impl StateField {
    pub fn as_str(self) -> (r: &'static str)
        ensures
            r@ == field_name(self),
    {
        match self {
            StateField::FullText => "full_text",
            StateField::Statistics => "statistics",
            StateField::References => "references",
            StateField::ReferenceYears => "reference_years",
            StateField::Sections => "sections",
            StateField::Title => "title",
            StateField::Tables => "tables",
            StateField::JournalRequirements => "journal_requirements",
            StateField::JournalStandardBindings => "journal_standard_bindings",
        }
    }

    /// The rule. Total, no wildcard.
    pub fn reach(self) -> (r: FieldReach)
        ensures
            r == field_reach(self),
    {
        match self {
            StateField::FullText => FieldReach::Exhaustive,
            StateField::ReferenceYears => FieldReach::Exhaustive,
            StateField::Statistics
            | StateField::References
            | StateField::Sections
            | StateField::Title
            | StateField::Tables => FieldReach::Mediated,
            StateField::JournalRequirements | StateField::JournalStandardBindings => {
                FieldReach::Mediated
            },
        }
    }

    /// Why, for a reader who will not read the measurement.
    pub fn absence_note(self) -> (r: &'static str)
        ensures
            r@ == field_note(self),
    {
        match self {
            StateField::FullText => FIELD_NOTE_FULL_TEXT,
            StateField::ReferenceYears => FIELD_NOTE_REFERENCE_YEARS,
            _ => match self.reach() {
                FieldReach::Exhaustive => FIELD_NOTE_FULL_TEXT,
                FieldReach::Mediated => match self {
                    StateField::Sections => FIELD_NOTE_SECTIONS,
                    StateField::References => FIELD_NOTE_REFERENCES,
                    StateField::Title => FIELD_NOTE_TITLE,
                    StateField::Statistics => FIELD_NOTE_STATISTICS,
                    StateField::Tables => FIELD_NOTE_TABLES,
                    _ => FIELD_NOTE_JOURNAL,
                },
            },
        }
    }
}

// ---------------------------------------------------------------------------
// What a lens reads
// ---------------------------------------------------------------------------

/// A lens sees specialist reports and research-state fields.
#[derive(Debug, Clone, Copy, PartialEq, Eq, Structural)]
pub enum LensSource {
    Specialist(SourceId),
    State(StateField),
}

pub open spec fn lens_source_name(s: LensSource) -> Seq<char> {
    match s {
        LensSource::Specialist(x) => source_name(x),
        LensSource::State(f) => field_name(f),
    }
}

/// A research-state field always exists; what varies is what may be
/// concluded from it.
pub open spec fn lens_source_state(s: LensSource) -> SourceState {
    match s {
        LensSource::Specialist(x) => source_state(x),
        LensSource::State(_) => SourceState::Shipping,
    }
}

pub open spec fn lens_source_note(s: LensSource) -> Seq<char> {
    match s {
        LensSource::Specialist(x) => source_note(x),
        LensSource::State(f) => field_note(f),
    }
}

/// The order `derive(Ord)` gives: every specialist before every field, each
/// in declaration order.
pub open spec fn lens_source_rank(s: LensSource) -> nat {
    match s {
        LensSource::Specialist(x) => source_index(x),
        LensSource::State(f) => 16 + field_index(f),
    }
}

impl LensSource {
    pub fn as_str(self) -> (r: &'static str)
        ensures
            r@ == lens_source_name(self),
    {
        match self {
            LensSource::Specialist(s) => s.as_str(),
            LensSource::State(f) => f.as_str(),
        }
    }

    /// Whether this source exists.
    pub fn state(self) -> (r: SourceState)
        ensures
            r == lens_source_state(self),
    {
        match self {
            LensSource::Specialist(s) => s.state(),
            LensSource::State(_) => SourceState::Shipping,
        }
    }

    pub fn note(self) -> (r: &'static str)
        ensures
            r@ == lens_source_note(self),
    {
        match self {
            LensSource::Specialist(s) => s.note(),
            LensSource::State(f) => f.absence_note(),
        }
    }

    /// The specialist behind this source, if it is one.
    pub fn specialist(self) -> (r: Option<SourceId>)
        ensures
            r == (match self {
                LensSource::Specialist(s) => Some(s),
                LensSource::State(_) => None::<SourceId>,
            }),
    {
        match self {
            LensSource::Specialist(s) => Some(s),
            LensSource::State(_) => None,
        }
    }

    /// The research-state field behind this source, if it is one.
    pub fn field(self) -> (r: Option<StateField>)
        ensures
            r == (match self {
                LensSource::State(f) => Some(f),
                LensSource::Specialist(_) => None::<StateField>,
            }),
    {
        match self {
            LensSource::State(f) => Some(f),
            LensSource::Specialist(_) => None,
        }
    }

    /// The position `derive(Ord)` would give this source.
    pub fn rank(self) -> (r: u32)
        ensures
            r as nat == lens_source_rank(self),
    {
        match self {
            LensSource::Specialist(s) => match s {
                SourceId::FrequentistStats => 0,
                SourceId::MlMethodology => 1,
                SourceId::ClaimEvidenceStrength => 2,
                SourceId::NoveltyClaims => 3,
                SourceId::ValidationMaths => 4,
                SourceId::ReportingStandards => 5,
                SourceId::JournalRequirements => 6,
                SourceId::ComparableCorpus => 7,
                SourceId::BayesianAnalysis => 8,
                SourceId::QualitativeMethods => 9,
                SourceId::SurveyPsychometric => 10,
                SourceId::LabWetBench => 11,
                SourceId::ComputationalConsistency => 12,
                SourceId::ReferenceCurrency => 13,
                SourceId::LiteratureCoverage => 14,
                SourceId::ClarityStructure => 15,
            },
            LensSource::State(f) => match f {
                StateField::FullText => 16,
                StateField::Statistics => 17,
                StateField::References => 18,
                StateField::ReferenceYears => 19,
                StateField::Sections => 20,
                StateField::Title => 21,
                StateField::Tables => 22,
                StateField::JournalRequirements => 23,
                StateField::JournalStandardBindings => 24,
            },
        }
    }
}

/// Distinct sources have distinct ranks.
pub proof fn lemma_rank_injective(a: LensSource, b: LensSource)
    ensures
        lens_source_rank(a) == lens_source_rank(b) ==> a == b,
{
}

} // verus!
