//! The referee lens's own checks over the research state, and the
//! vocabulary its reports are written in: the full-text statement checks,
//! reference currency, the absence rule, and the verification trail.

use vstd::prelude::*;

use crate::extract::{ExtractionResult, Reference, Section};
use crate::lens_sources::{
    field_name, field_note, field_reach, lens_source_name, source_name, source_note, FieldReach,
    LensSource, SourceId, StateField,
};
use crate::report::ItemVerdict;
use crate::risk::{band_of, severity_name, RiskLevel, SeverityRule, DEFAULT_SEVERITY};
use crate::text::{
    chars_of, contains, contains_any, contains_any_of, decimal, lowercase, owned, push_str,
    push_usize, str_contains, str_eq, to_lowercase, trim, views,
};

verus! {

// ---------------------------------------------------------------------------
// Statement checks over the full text
// ---------------------------------------------------------------------------

/// One phrase-presence check over the full text. Every one reads
/// [`StateField::FullText`], the one field an absence may be concluded from.
#[derive(Debug)]
pub struct StateCheck {
    pub code: &'static str,
    /// Phrases whose presence satisfies the check, lowercased.
    pub phrases: Vec<&'static str>,
    /// What the report says when none of them occurs.
    pub absent_summary: &'static str,
    /// The limit of the lexicon, carried into every finding's uncertainty.
    pub uncertainty: &'static str,
    pub field: StateField,
}

/// The check has exactly these parts and reads the full text.
pub open spec fn check_is(
    c: StateCheck,
    code: Seq<char>,
    phrases: Seq<Seq<char>>,
    absent: Seq<char>,
    uncertainty: Seq<char>,
) -> bool {
    &&& c.code@ == code
    &&& views(c.phrases@) == phrases
    &&& c.absent_summary@ == absent
    &&& c.uncertainty@ == uncertainty
    &&& c.field == StateField::FullText
}

pub const DATA_AVAILABILITY_CODE: &'static str = "no_data_availability_statement";

pub const DATA_AVAILABILITY_ABSENT: &'static str = "No data availability statement was found anywhere in the manuscript. The referee document puts this in the Data & Ethics row's fatal cell (\"no raw data or hiding key results\") and most journals now require a statement even when the answer is that data cannot be shared.";

pub const DATA_AVAILABILITY_UNCERTAINTY: &'static str = "Searched the whole manuscript for 14 phrasings. A statement worded in none of them reads here as absent, which is a lexicon limit rather than a finding about the manuscript. The check does not judge whether a statement that IS present is adequate.";

pub const ETHICS_CODE: &'static str = "no_ethics_statement_in_a_study_with_subjects";

pub const ETHICS_ABSENT: &'static str = "The manuscript describes work with human participants or animals and no ethics approval, consent or clearance statement was found anywhere in it. The referee document's Data & Ethics fatal cell names \"missing ethics approval when required\".";

pub const ETHICS_UNCERTAINTY: &'static str = "Searched the whole manuscript for 14 phrasings, and decided the study involves subjects from its own words. Both halves are lexicons: a study that is exempt, or that states its approval in wording none of these match, reads here as missing one.";

/// The phrasings that satisfy a data availability statement.
pub open spec fn data_phrases() -> Seq<Seq<char>> {
    seq!["data availability"@, "data are available"@, "data is available"@, "data will be made available"@, "available on request"@, "available upon request"@, "deposited in"@, "accession number"@, "supplementary data"@, "underlying data"@, "zenodo"@, "dryad"@, "figshare"@, "osf.io"@]
}

/// The phrasings that satisfy an ethics statement.
pub open spec fn ethics_phrases() -> Seq<Seq<char>> {
    seq!["ethics approval"@, "ethical approval"@, "ethics committee"@, "ethical clearance"@, "institutional review board"@, "institutional ethics"@, "iacuc"@, "informed consent"@, "consent to participate"@, "declaration of helsinki"@, "ethics statement"@, "arrive guidelines"@, "animal welfare"@, "ethical considerations"@]
}

/// Phrases showing that THIS study had human or animal subjects: each
/// carries a verb or qualifier, so a metaphor, a lake survey or a cited
/// bibliography does not match.
pub open spec fn subject_phrases() -> Seq<Seq<char>> {
    seq!["participants were"@, "participants gave"@, "participants provided"@, "participants completed"@, "we recruited"@, "were recruited"@, "respondents were"@, "patients were"@, "patients who"@, "volunteers were"@, "human participants"@, "study participants"@, "human subjects"@, "interviews were conducted"@, "questionnaire was administered"@, "questionnaires were administered"@, "animals were"@, "animal experiments"@, "animal study"@, "laboratory animals"@, "mice were"@, "rats were"@, "rabbits were"@, "zebrafish were"@, "in vivo experiment"@, "clinical trial"@, "were sacrificed"@, "were euthanised"@, "were euthanized"@, "were administered"@]
}

/// **Data availability**: one of fourteen phrasings anywhere in the text.
pub fn data_availability_check() -> (r: StateCheck)
    ensures
        check_is(r, DATA_AVAILABILITY_CODE@, data_phrases(), DATA_AVAILABILITY_ABSENT@, DATA_AVAILABILITY_UNCERTAINTY@),
{
    let phrases = vec!["data availability", "data are available", "data is available", "data will be made available", "available on request", "available upon request", "deposited in", "accession number", "supplementary data", "underlying data", "zenodo", "dryad", "figshare", "osf.io"];
    assert(views(phrases@) =~= data_phrases());
    StateCheck {
        code: DATA_AVAILABILITY_CODE,
        phrases,
        absent_summary: DATA_AVAILABILITY_ABSENT,
        uncertainty: DATA_AVAILABILITY_UNCERTAINTY,
        field: StateField::FullText,
    }
}

/// **Ethics approval**: one of fourteen phrasings, checked only in a study
/// that shows human or animal subjects.
pub fn ethics_check() -> (r: StateCheck)
    ensures
        check_is(r, ETHICS_CODE@, ethics_phrases(), ETHICS_ABSENT@, ETHICS_UNCERTAINTY@),
{
    let phrases = vec!["ethics approval", "ethical approval", "ethics committee", "ethical clearance", "institutional review board", "institutional ethics", "iacuc", "informed consent", "consent to participate", "declaration of helsinki", "ethics statement", "arrive guidelines", "animal welfare", "ethical considerations"];
    assert(views(phrases@) =~= ethics_phrases());
    StateCheck {
        code: ETHICS_CODE,
        phrases,
        absent_summary: ETHICS_ABSENT,
        uncertainty: ETHICS_UNCERTAINTY,
        field: StateField::FullText,
    }
}

/// The subject phrases.
pub fn subjects_present() -> (r: Vec<&'static str>)
    ensures
        views(r@) == subject_phrases(),
{
    let v = vec!["participants were", "participants gave", "participants provided", "participants completed", "we recruited", "were recruited", "respondents were", "patients were", "patients who", "volunteers were", "human participants", "study participants", "human subjects", "interviews were conducted", "questionnaire was administered", "questionnaires were administered", "animals were", "animal experiments", "animal study", "laboratory animals", "mice were", "rats were", "rabbits were", "zebrafish were", "in vivo experiment", "clinical trial", "were sacrificed", "were euthanised", "were euthanized", "were administered"];
    assert(views(v@) =~= subject_phrases());
    v
}

// ---------------------------------------------------------------------------
// Reference currency
// ---------------------------------------------------------------------------

/// The number of years within which a reference counts as recent.
pub const RECENT_WINDOW_YEARS: i32 = 10;

/// Fewer dated references than this is a denominator too small to carry a
/// majority claim.
pub const MINIMUM_DATED: usize = 10;

/// Reference currency, from the years of references that WERE parsed.
#[derive(Debug, Clone, Copy, PartialEq, Eq, Structural)]
pub struct ReferenceCurrency {
    /// References the parser returned.
    pub total: usize,
    /// Of those, the ones carrying a year — the denominator.
    pub dated: usize,
    /// Of `dated`, those published in the last ten years.
    pub recent: usize,
    pub oldest: Option<i32>,
    pub newest: Option<i32>,
}

/// The years the references carry, in order.
pub open spec fn years_of(refs: Seq<Reference>) -> Seq<i32>
    decreases refs.len(),
{
    if refs.len() == 0 {
        Seq::empty()
    } else {
        years_of(refs.drop_last()) + match refs.last().year {
            Some(y) => seq![y],
            None => Seq::empty(),
        }
    }
}

/// How many of `ys` lie within the window before `this_year`.
pub open spec fn recent_count(ys: Seq<i32>, this_year: int) -> nat
    decreases ys.len(),
{
    if ys.len() == 0 {
        0
    } else {
        recent_count(ys.drop_last(), this_year) + if this_year - ys.last() <= RECENT_WINDOW_YEARS {
            1nat
        } else {
            0nat
        }
    }
}

/// The least of `ys`.
pub open spec fn seq_min(ys: Seq<i32>) -> Option<i32>
    decreases ys.len(),
{
    if ys.len() == 0 {
        None
    } else {
        match seq_min(ys.drop_last()) {
            Some(m) => Some(if ys.last() < m { ys.last() } else { m }),
            None => Some(ys.last()),
        }
    }
}

/// The greatest of `ys`.
pub open spec fn seq_max(ys: Seq<i32>) -> Option<i32>
    decreases ys.len(),
{
    if ys.len() == 0 {
        None
    } else {
        match seq_max(ys.drop_last()) {
            Some(m) => Some(if ys.last() > m { ys.last() } else { m }),
            None => Some(ys.last()),
        }
    }
}

/// Currency against a supplied "now" year, injected rather than read from a
/// clock.
pub fn reference_currency(refs: &[Reference], this_year: i32) -> (r: ReferenceCurrency)
    ensures
        r.total == refs@.len(),
        r.dated == years_of(refs@).len(),
        r.recent == recent_count(years_of(refs@), this_year as int),
        r.oldest == seq_min(years_of(refs@)),
        r.newest == seq_max(years_of(refs@)),
{
    let mut dated: usize = 0;
    let mut recent: usize = 0;
    let mut oldest: Option<i32> = None;
    let mut newest: Option<i32> = None;
    let mut i: usize = 0;
    while i < refs.len()
        invariant
            i <= refs@.len(),
            dated == years_of(refs@.subrange(0, i as int)).len(),
            recent == recent_count(years_of(refs@.subrange(0, i as int)), this_year as int),
            recent <= dated,
            dated <= i,
            oldest == seq_min(years_of(refs@.subrange(0, i as int))),
            newest == seq_max(years_of(refs@.subrange(0, i as int))),
        decreases refs@.len() - i,
    {
        let ghost ys = years_of(refs@.subrange(0, i as int));
        assert(refs@.subrange(0, i + 1).drop_last() =~= refs@.subrange(0, i as int));
        match refs[i].year {
            Some(y) => {
                let ghost ys2 = ys + seq![y];
                assert(ys2.drop_last() =~= ys);
                assert(years_of(refs@.subrange(0, i + 1)) == ys2);
                dated += 1;
                let age: i64 = this_year as i64 - y as i64;
                if age <= 10 {
                    recent += 1;
                }
                oldest = match oldest {
                    Some(m) => Some(if y < m { y } else { m }),
                    None => Some(y),
                };
                newest = match newest {
                    Some(m) => Some(if y > m { y } else { m }),
                    None => Some(y),
                };
            },
            None => {
                assert(years_of(refs@.subrange(0, i + 1)) =~= ys);
            },
        }
        i += 1;
    }
    assert(refs@.subrange(0, refs@.len() as int) =~= refs@);
    ReferenceCurrency { total: refs.len(), dated, recent, oldest, newest }
}

impl ReferenceCurrency {
    /// **Is there enough to say anything?** `Some(true)` when a majority of
    /// the dated references are outside the window; `None` when fewer than
    /// [`MINIMUM_DATED`] carry a year.
    pub fn majority_outdated(&self) -> (r: Option<bool>)
        ensures
            r == (if self.dated >= MINIMUM_DATED {
                Some(self.recent * 2 < self.dated)
            } else {
                None
            }),
    {
        if self.dated >= MINIMUM_DATED {
            Some((self.recent as u128) * 2 < self.dated as u128)
        } else {
            None
        }
    }
}

// ---------------------------------------------------------------------------
// The absence rule
// ---------------------------------------------------------------------------

/// A finding the absence rule refused, and why. Returned, never dropped.
#[derive(Debug, Clone)]
pub struct AbsenceRejected {
    pub criterion: String,
    pub code: String,
    pub field: StateField,
    pub reason: String,
}

/// Why an absence in a mediated field is refused.
pub open spec fn mediated_reason(f: StateField) -> Seq<char> {
    "this finding rests on `"@ + field_name(f) + "` being empty, and that field is MEDIATED: "@ + field_note(f)
        + ". An absence there is a fact about the extractor, not about the manuscript."@
}

/// **May a finding rest on this field being EMPTY?** Only an exhaustive
/// field admits an absence; a mediated one is refused with its reason.
pub fn admit_absence(field: StateField) -> (r: Result<(), String>)
    ensures
        match r {
            Ok(()) => field_reach(field) == FieldReach::Exhaustive,
            Err(reason) => field_reach(field) == FieldReach::Mediated && reason@ == mediated_reason(field),
        },
{
    match field.reach() {
        FieldReach::Exhaustive => Ok(()),
        FieldReach::Mediated => {
            let mut s = owned("this finding rests on `");
            push_str(&mut s, field.as_str());
            push_str(&mut s, "` being empty, and that field is MEDIATED: ");
            push_str(&mut s, field.absence_note());
            push_str(&mut s, ". An absence there is a fact about the extractor, not about the manuscript.");
            Err(s)
        },
    }
}

// ---------------------------------------------------------------------------
// Codes
// ---------------------------------------------------------------------------

/// What an occurrence count means, per source.
pub open spec fn occurrence_unit_spec(source: LensSource) -> Seq<char> {
    match source {
        LensSource::Specialist(SourceId::ReportingStandards) => "standard items asking for the same manuscript property — not places in the manuscript"@,
        LensSource::Specialist(SourceId::JournalRequirements) => "journal requirements"@,
        LensSource::State(StateField::FullText) => "phrase searches over the whole manuscript"@,
        LensSource::State(StateField::ReferenceYears) => "reference lists"@,
        _ => "places in the manuscript"@,
    }
}

/// **What an occurrence count means, per source**: a reporting-standard code
/// counts standard items asking for one property, not places.
pub fn occurrence_unit(source: LensSource) -> (r: &'static str)
    ensures
        r@ == occurrence_unit_spec(source),
{
    match source {
        LensSource::Specialist(SourceId::ReportingStandards) => "standard items asking for the same manuscript property — not places in the manuscript",
        LensSource::Specialist(SourceId::JournalRequirements) => "journal requirements",
        LensSource::State(StateField::FullText) => "phrase searches over the whole manuscript",
        LensSource::State(StateField::ReferenceYears) => "reference lists",
        _ => "places in the manuscript",
    }
}

/// The codes a specialist can emit.
pub open spec fn codes_of_spec(s: SourceId) -> Seq<Seq<char>> {
    match s {
        SourceId::FrequentistStats => seq!["p_value_reported_as_exactly_zero"@, "multiple_comparisons_uncorrected"@, "parametric_test_assumptions_unstated"@, "marginal_significance_language"@, "test_claimed_but_absent_from_analysis"@],
        SourceId::MlMethodology => seq!["resampling_not_stated_as_post_split"@, "no_heldout_evaluation_named"@, "no_baseline_comparison"@, "no_variance_across_runs"@],
        SourceId::ClaimEvidenceStrength => seq!["causal_claim_from_associational_design"@],
        _ => Seq::empty(),
    }
}

/// The codes a specialist can emit.
pub fn codes_of(s: SourceId) -> (r: Vec<&'static str>)
    ensures
        views(r@) == codes_of_spec(s),
{
    let v: Vec<&'static str> = match s {
        SourceId::FrequentistStats => vec!["p_value_reported_as_exactly_zero", "multiple_comparisons_uncorrected", "parametric_test_assumptions_unstated", "marginal_significance_language", "test_claimed_but_absent_from_analysis"],
        SourceId::MlMethodology => vec!["resampling_not_stated_as_post_split", "no_heldout_evaluation_named", "no_baseline_comparison", "no_variance_across_runs"],
        SourceId::ClaimEvidenceStrength => vec!["causal_claim_from_associational_design"],
        _ => Vec::new(),
    };
    assert(views(v@) =~= codes_of_spec(s));
    v
}

/// The code a standard item's verdict is routed by: its CHECK, read from
/// what it reads and what it asks for, not its item number.
pub open spec fn check_code_spec(reads: Seq<Seq<char>>, requirement: Seq<char>) -> Seq<char> {
    let lr = lowercase(requirement);
    let stats = reads.contains("statistics"@);
    if stats && contains(lr, "sample size"@) {
        "SampleSizeReported"@
    } else if stats && contains(lr, "effect size"@) {
        "EffectSizeReported"@
    } else if stats && contains(lr, "confidence interval"@) {
        "ConfidenceIntervalReported"@
    } else if reads.contains("structure"@) {
        if contains(lr, "summary"@) {
            "AbstractPresent"@
        } else {
            "ResultsSectionPresent"@
        }
    } else {
        "StatisticalTestReported"@
    }
}

fn reads_contain(reads: &Vec<&'static str>, x: &str) -> (r: bool)
    ensures
        r == views(reads@).contains(x@),
{
    let mut i: usize = 0;
    while i < reads.len()
        invariant
            i <= reads@.len(),
            forall|j: int| 0 <= j < i ==> views(reads@)[j] != x@,
        decreases reads@.len() - i,
    {
        if str_eq(reads[i], x) {
            assert(views(reads@)[i as int] == x@);
            return true;
        }
        i += 1;
    }
    false
}

/// The code a verdict is routed by.
pub fn check_code(v: &ItemVerdict) -> (r: String)
    ensures
        r@ == check_code_spec(views(v.reads@), v.requirement@),
{
    let lr = to_lowercase(v.requirement);
    let stats = reads_contain(&v.reads, "statistics");
    if stats && str_contains(lr.as_str(), "sample size") {
        owned("SampleSizeReported")
    } else if stats && str_contains(lr.as_str(), "effect size") {
        owned("EffectSizeReported")
    } else if stats && str_contains(lr.as_str(), "confidence interval") {
        owned("ConfidenceIntervalReported")
    } else if reads_contain(&v.reads, "structure") {
        if str_contains(lr.as_str(), "summary") {
            owned("AbstractPresent")
        } else {
            owned("ResultsSectionPresent")
        }
    } else {
        owned("StatisticalTestReported")
    }
}

// ---------------------------------------------------------------------------
// The sentence that makes a check apply
// ---------------------------------------------------------------------------

/// The first of `ss` whose lowercase form contains any of `needles`, trimmed.
pub open spec fn first_in_sentences(ss: Seq<Seq<char>>, needles: Seq<Seq<char>>) -> Option<Seq<char>>
    decreases ss.len(),
{
    if ss.len() == 0 {
        None
    } else if contains_any(lowercase(ss[0]), needles) {
        Some(trim(ss[0]))
    } else {
        first_in_sentences(ss.drop_first(), needles)
    }
}

/// The first such sentence over paragraphs, in order.
pub open spec fn first_in_paragraphs(ps: Seq<String>, needles: Seq<Seq<char>>) -> Option<Seq<char>>
    decreases ps.len(),
{
    if ps.len() == 0 {
        None
    } else {
        match first_in_sentences(crate::extract::sentences(ps[0]@), needles) {
            Some(s) => Some(s),
            None => first_in_paragraphs(ps.drop_first(), needles),
        }
    }
}

/// The first such sentence over sections, in order.
pub open spec fn first_in_sections(secs: Seq<Section>, needles: Seq<Seq<char>>) -> Option<Seq<char>>
    decreases secs.len(),
{
    if secs.len() == 0 {
        None
    } else {
        match first_in_paragraphs(secs[0].paragraphs@, needles) {
            Some(s) => Some(s),
            None => first_in_sections(secs.drop_first(), needles),
        }
    }
}

/// **The first whole sentence of the manuscript containing any of
/// `needles`**, read from the extracted sections so a reader can check it.
pub fn sentence_containing(r: &ExtractionResult, needles: &Vec<&'static str>) -> (out: Option<String>)
    ensures
        match out {
            Some(s) => first_in_sections(r.sections@, views(needles@)) == Some(s@),
            None => first_in_sections(r.sections@, views(needles@)) is None,
        },
{
    let secs = &r.sections;
    let ghost nv = views(needles@);
    let mut i: usize = 0;
    assert(secs@.subrange(0, secs@.len() as int) =~= secs@);
    while i < secs.len()
        invariant
            i <= secs@.len(),
            secs@ == r.sections@,
            nv == views(needles@),
            first_in_sections(secs@, nv) == first_in_sections(secs@.subrange(i as int, secs@.len() as int), nv),
        decreases secs@.len() - i,
    {
        let ps = &secs[i].paragraphs;
        let mut j: usize = 0;
        assert(ps@.subrange(0, ps@.len() as int) =~= ps@);
        while j < ps.len()
            invariant
                j <= ps@.len(),
                secs@ == r.sections@,
                i < secs@.len(),
                ps@ == secs@[i as int].paragraphs@,
                first_in_sections(secs@, nv) == first_in_sections(secs@.subrange(i as int, secs@.len() as int), nv),
                nv == views(needles@),
                first_in_paragraphs(ps@, nv) == first_in_paragraphs(ps@.subrange(j as int, ps@.len() as int), nv),
            decreases ps@.len() - j,
        {
            let ss = crate::extract::sentences_in(ps[j].as_str());
            let ghost sv = crate::text::string_views(ss@);
            let mut k: usize = 0;
            assert(sv.subrange(0, sv.len() as int) =~= sv);
            while k < ss.len()
                invariant
                    k <= ss@.len(),
                    secs@ == r.sections@,
                    i < secs@.len(),
                    j < ps@.len(),
                    ps@ == secs@[i as int].paragraphs@,
                    first_in_sections(secs@, nv) == first_in_sections(secs@.subrange(i as int, secs@.len() as int), nv),
                    first_in_paragraphs(ps@, nv) == first_in_paragraphs(ps@.subrange(j as int, ps@.len() as int), nv),
                    sv == crate::extract::sentences(ps@[j as int]@),
                    sv == crate::text::string_views(ss@),
                    nv == views(needles@),
                    first_in_sentences(sv, nv) == first_in_sentences(sv.subrange(k as int, sv.len() as int), nv),
                decreases ss@.len() - k,
            {
                let lower = to_lowercase(ss[k].as_str());
                let lc = chars_of(lower.as_str());
                let ghost t = sv.subrange(k as int, sv.len() as int);
                assert(t[0] == ss@[k as int]@);
                if contains_any_of(&lc, needles.as_slice()) {
                    let sc = chars_of(ss[k].as_str());
                    let trimmed = crate::lines::trim_chars(&sc);
                    proof {
                        assert(contains_any(lowercase(t[0]), nv));
                        assert(first_in_sentences(t, nv) == Some(trim(t[0])));
                        assert(trimmed@ == trim(t[0]));
                        let pt = ps@.subrange(j as int, ps@.len() as int);
                        assert(pt[0] == ps@[j as int]);
                        assert(first_in_paragraphs(pt, nv) == Some(trimmed@));
                        let st = secs@.subrange(i as int, secs@.len() as int);
                        assert(st[0] == secs@[i as int]);
                        assert(first_in_sections(st, nv) == Some(trimmed@));
                    }
                    return Some(crate::text::string_of(&trimmed));
                }
                assert(t.drop_first() =~= sv.subrange(k + 1, sv.len() as int));
                k += 1;
            }
            let t = Ghost(ps@.subrange(j as int, ps@.len() as int));
            assert(t@[0] == ps@[j as int]);
            assert(t@.drop_first() =~= ps@.subrange(j + 1, ps@.len() as int));
            j += 1;
        }
        let t = Ghost(secs@.subrange(i as int, secs@.len() as int));
        assert(t@[0] == secs@[i as int]);
        assert(t@.drop_first() =~= secs@.subrange(i + 1, secs@.len() as int));
        i += 1;
    }
    None
}

// ---------------------------------------------------------------------------
// The verification trail
// ---------------------------------------------------------------------------

/// One step of a concern's verification trail.
#[derive(Debug, Clone)]
pub struct TrailStep {
    /// What kind of step: `source`, `evidence`, `criterion`, `severity`.
    pub stage: String,
    pub detail: String,
}

/// A trail step as plain text.
pub open spec fn step_view(t: TrailStep) -> (Seq<char>, Seq<char>) {
    (t.stage@, t.detail@)
}

/// The trail step naming where a finding came from.
pub open spec fn source_step(source: LensSource, code: Seq<char>) -> Seq<char> {
    match source {
        LensSource::Specialist(x) => "The `"@ + source_name(x) + "` specialist produced the finding `"@ + code
            + "`. It is "@ + source_note(x) + "."@,
        LensSource::State(f) => "Read directly from the research state's `"@ + field_name(f) + "` field, which "@ + field_note(f)
            + "."@,
    }
}

/// The trail step naming the risk-table cell that set a severity.
pub open spec fn severity_step(rule: Option<SeverityRule>, code: Seq<char>) -> Seq<char> {
    match rule {
        Some(x) => {
            let band = band_of(x.row);
            severity_name(x.severity) + " — the Risk Assessment Table's \""@ + band.label@ + "\" row, "@ + match x.level {
                RiskLevel::Fatal => "High Risk (Fatal Flaws)"@,
                RiskLevel::Fixable => "Medium Risk (Fixable)"@,
            } + " cell: \""@ + match x.level {
                RiskLevel::Fatal => band.fatal@,
                RiskLevel::Fixable => band.fixable@,
            } + "\". "@ + x.why@
        },
        None => severity_name(DEFAULT_SEVERITY) + " by default: `"@ + code + "` has no rule in the severity policy, so nobody has decided where it sits in the risk table. The default is deliberately not the lowest level."@,
    }
}

/// The trail: where the finding came from, the criterion it maps to, and the
/// risk-table cell that set its severity.
pub open spec fn trail_spec(source: LensSource, criterion: Seq<char>, rule: Option<SeverityRule>, code: Seq<char>) -> Seq<
    (Seq<char>, Seq<char>),
> {
    seq![
        ("source"@, source_step(source, code)),
        ("criterion"@, "Mapped to the referee document's criterion \""@ + criterion + "\"."@),
        ("severity"@, severity_step(rule, code)),
    ]
}

/// The trail of a concern.
pub fn trail(source: LensSource, criterion: &str, rule: &Option<SeverityRule>, code: &str) -> (r: Vec<TrailStep>)
    ensures
        r@.map_values(|t: TrailStep| step_view(t)) == trail_spec(source, criterion@, *rule, code@),
{
    let mut first = String::new();
    match source {
        LensSource::Specialist(x) => {
            push_str(&mut first, "The `");
            push_str(&mut first, x.as_str());
            push_str(&mut first, "` specialist produced the finding `");
            push_str(&mut first, code);
            push_str(&mut first, "`. It is ");
            push_str(&mut first, x.note());
            push_str(&mut first, ".");
        },
        LensSource::State(f) => {
            push_str(&mut first, "Read directly from the research state's `");
            push_str(&mut first, f.as_str());
            push_str(&mut first, "` field, which ");
            push_str(&mut first, f.absence_note());
            push_str(&mut first, ".");
        },
    }
    let mut second = owned("Mapped to the referee document's criterion \"");
    push_str(&mut second, criterion);
    push_str(&mut second, "\".");
    let mut third = String::new();
    match rule {
        Some(x) => {
            let band = x.row.band();
            push_str(&mut third, x.severity.as_str());
            push_str(&mut third, " — the Risk Assessment Table's \"");
            push_str(&mut third, band.label);
            push_str(&mut third, "\" row, ");
            match x.level {
                RiskLevel::Fatal => push_str(&mut third, "High Risk (Fatal Flaws)"),
                RiskLevel::Fixable => push_str(&mut third, "Medium Risk (Fixable)"),
            }
            push_str(&mut third, " cell: \"");
            match x.level {
                RiskLevel::Fatal => push_str(&mut third, band.fatal),
                RiskLevel::Fixable => push_str(&mut third, band.fixable),
            }
            push_str(&mut third, "\". ");
            push_str(&mut third, x.why);
        },
        None => {
            push_str(&mut third, DEFAULT_SEVERITY.as_str());
            push_str(&mut third, " by default: `");
            push_str(&mut third, code);
            push_str(&mut third, "` has no rule in the severity policy, so nobody has decided where it sits in the risk table. The default is deliberately not the lowest level.");
        },
    }
    let v = vec![
        TrailStep { stage: owned("source"), detail: first },
        TrailStep { stage: owned("criterion"), detail: second },
        TrailStep { stage: owned("severity"), detail: third },
    ];
    assert(v@.map_values(|t: TrailStep| step_view(t)) =~= trail_spec(source, criterion@, *rule, code@));
    v
}

} // verus!
