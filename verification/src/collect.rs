//! Running a referee lens: what it collects from every producer, how
//! findings become concerns with their trails, and the report it writes.

use vstd::prelude::*;

use crate::criteria::{lens_name, Criterion, LensId, ReviewLens};
use crate::extract::{paragraph_at, paragraph_spec, ExtractionResult, Location, Reference};
use crate::inputs::{
    novelty_status_name, rule_name, NoveltyAssessment, NoveltyStatus, SpecialistFinding,
    SpecialistReport, StatsValidityReport,
};
use crate::lens_checks::{
    admit_absence, check_code, check_code_spec, codes_of, codes_of_spec, data_availability_check,
    data_phrases, ethics_check, ethics_phrases, first_in_sections, mediated_reason,
    recent_count, reference_currency, sentence_containing, seq_max, seq_min, subject_phrases,
    subjects_present, years_of, AbsenceRejected, StateCheck, DATA_AVAILABILITY_ABSENT,
    DATA_AVAILABILITY_CODE, DATA_AVAILABILITY_UNCERTAINTY, ETHICS_ABSENT, ETHICS_CODE,
    ETHICS_UNCERTAINTY, MINIMUM_DATED, RECENT_WINDOW_YEARS,
};
use crate::lens_sources::{field_reach, FieldReach, LensSource, SourceId, StateField};
use crate::report::{coverage_spec, ItemStatus, ItemVerdict, StandardEvaluation};
use crate::standards::standard_name;
use crate::text::{
    chars_of, contains_any, contains_any_of, decimal, decimal_int, join, lowercase, opt_owned,
    opt_view, owned, push_i32, push_str, push_usize, str_eq, to_lowercase, views,
};

verus! {

/// Everything a lens reads. Every collection is an `Option`: `Some` of an
/// empty list is "the producer ran and found nothing"; `None` is "it never
/// ran".
pub struct LensInput<'a> {
    pub extraction: &'a ExtractionResult,
    /// The manuscript text, the one exhaustive field. `None` means it was not
    /// supplied, and every full-text check then declines.
    pub full_text: Option<&'a str>,
    /// The current year, injected.
    pub this_year: i32,
    pub specialists: Option<&'a [SpecialistReport]>,
    pub validity: Option<&'a StatsValidityReport>,
    pub standards: Option<&'a [StandardEvaluation]>,
    pub checklist: Option<&'a [crate::report::ChecklistItem]>,
    pub novelty: Option<&'a [NoveltyAssessment]>,
}

/// A finding flattened out of whichever producer made it.
#[derive(Debug)]
pub struct Raw {
    pub source: LensSource,
    pub code: String,
    pub summary: String,
    pub span: Option<String>,
    pub location: Option<Location>,
    pub uncertainty: Option<String>,
}

/// A collected finding as plain values.
#[verifier::ext_equal]
pub struct RawView {
    pub source: LensSource,
    pub code: Seq<char>,
    pub summary: Seq<char>,
    pub span: Option<Seq<char>>,
    pub location: Option<Location>,
    pub uncertainty: Option<Seq<char>>,
}

impl View for Raw {
    type V = RawView;

    open spec fn view(&self) -> RawView {
        RawView {
            source: self.source,
            code: self.code@,
            summary: self.summary@,
            span: opt_view(self.span),
            location: self.location,
            uncertainty: opt_view(self.uncertainty),
        }
    }
}

/// The views of collected findings.
pub open spec fn raws_view(v: Seq<Raw>) -> Seq<RawView> {
    v.map_values(|r: Raw| r@)
}

/// The views of a list of strings.
pub open spec fn strs(v: Seq<String>) -> Seq<Seq<char>> {
    v.map_values(|s: String| s@)
}

// ---------------------------------------------------------------------------
// Specialists
// ---------------------------------------------------------------------------

/// The source a specialist report's name routes to.
pub open spec fn specialist_source(name: Seq<char>) -> Option<SourceId> {
    if name == "frequentist_stats"@ {
        Some(SourceId::FrequentistStats)
    } else if name == "ml_methodology"@ {
        Some(SourceId::MlMethodology)
    } else if name == "claim_evidence_strength"@ {
        Some(SourceId::ClaimEvidenceStrength)
    } else {
        None
    }
}

/// A specialist's admitted finding, as collected.
pub open spec fn finding_raw(s: SourceId, f: SpecialistFinding) -> RawView {
    RawView {
        source: LensSource::Specialist(s),
        code: f.code@,
        summary: f.summary@,
        span: opt_view(f.span),
        location: f.location,
        uncertainty: opt_view(f.uncertainty),
    }
}

/// The findings of the routed specialist reports, in order.
pub open spec fn specialist_raws(rs: Seq<SpecialistReport>) -> Seq<RawView>
    decreases rs.len(),
{
    if rs.len() == 0 {
        Seq::empty()
    } else {
        specialist_raws(rs.drop_last()) + match specialist_source(rs.last().specialist@) {
            Some(s) => rs.last().admitted@.map_values(|f: SpecialistFinding| finding_raw(s, f)),
            None => Seq::empty(),
        }
    }
}

/// The codes of every routed specialist that ran: one that declined ran
/// none of its checks.
pub open spec fn specialist_executed(rs: Seq<SpecialistReport>) -> Seq<Seq<char>>
    decreases rs.len(),
{
    if rs.len() == 0 {
        Seq::empty()
    } else {
        specialist_executed(rs.drop_last()) + match specialist_source(rs.last().specialist@) {
            Some(s) => if rs.last().not_applicable is None {
                codes_of_spec(s)
            } else {
                Seq::empty()
            },
            None => Seq::empty(),
        }
    }
}

fn route(name: &str) -> (r: Option<SourceId>)
    ensures
        r == specialist_source(name@),
{
    if str_eq(name, "frequentist_stats") {
        Some(SourceId::FrequentistStats)
    } else if str_eq(name, "ml_methodology") {
        Some(SourceId::MlMethodology)
    } else if str_eq(name, "claim_evidence_strength") {
        Some(SourceId::ClaimEvidenceStrength)
    } else {
        None
    }
}

fn collect_specialists(rs: &[SpecialistReport], out: &mut Vec<Raw>, executed: &mut Vec<String>)
    ensures
        raws_view(final(out)@) == raws_view(old(out)@) + specialist_raws(rs@),
        strs(final(executed)@) == strs(old(executed)@) + specialist_executed(rs@),
{
    let ghost out0 = raws_view(out@);
    let ghost ex0 = strs(executed@);
    let mut i: usize = 0;
    assert(rs@.subrange(0, 0) =~= Seq::<SpecialistReport>::empty());
    assert(out0 + specialist_raws(rs@.subrange(0, 0)) =~= out0);
    assert(ex0 + specialist_executed(rs@.subrange(0, 0)) =~= ex0);
    while i < rs.len()
        invariant
            i <= rs@.len(),
            raws_view(out@) == out0 + specialist_raws(rs@.subrange(0, i as int)),
            strs(executed@) == ex0 + specialist_executed(rs@.subrange(0, i as int)),
        decreases rs@.len() - i,
    {
        let r = &rs[i];
        assert(rs@.subrange(0, i + 1).drop_last() =~= rs@.subrange(0, i as int));
        assert(rs@.subrange(0, i + 1).last() == rs@[i as int]);
        let ghost before_out = raws_view(out@);
        let ghost before_ex = strs(executed@);
        match route(r.specialist.as_str()) {
            Some(source) => {
                if r.not_applicable.is_none() {
                    let codes = codes_of(source);
                    let mut k: usize = 0;
                    while k < codes.len()
                        invariant
                            k <= codes@.len(),
                            strs(executed@) == before_ex + views(codes@).subrange(0, k as int),
                        decreases codes@.len() - k,
                    {
                        let ghost b = strs(executed@);
                        executed.push(owned(codes[k]));
                        assert(strs(executed@) =~= b.push(codes@[k as int]@));
                        assert(views(codes@).subrange(0, k + 1) =~= views(codes@).subrange(0, k as int).push(codes@[k as int]@));
                        k += 1;
                    }
                    assert(views(codes@).subrange(0, codes@.len() as int) =~= codes_of_spec(source));
                } else {
                    assert(before_ex + Seq::<Seq<char>>::empty() =~= before_ex);
                }
                let fs = &r.admitted;
                let ghost fv = fs@.map_values(|f: SpecialistFinding| finding_raw(source, f));
                let mut k: usize = 0;
                assert(before_out + fv.subrange(0, 0) =~= before_out);
                while k < fs.len()
                    invariant
                        k <= fs@.len(),
                        fv == fs@.map_values(|f: SpecialistFinding| finding_raw(source, f)),
                        raws_view(out@) == before_out + fv.subrange(0, k as int),
                    decreases fs@.len() - k,
                {
                    let f = &fs[k];
                    let raw = Raw {
                        source: LensSource::Specialist(source),
                        code: f.code.clone(),
                        summary: f.summary.clone(),
                        span: opt_owned(&f.span),
                        location: f.location,
                        uncertainty: opt_owned(&f.uncertainty),
                    };
                    let ghost b = raws_view(out@);
                    out.push(raw);
                    assert(raws_view(out@) =~= b.push(fv[k as int]));
                    assert(fv.subrange(0, k + 1) =~= fv.subrange(0, k as int).push(fv[k as int]));
                    k += 1;
                }
                assert(fv.subrange(0, fs@.len() as int) =~= fv);
            },
            None => {
                assert(before_out + Seq::<RawView>::empty() =~= before_out);
                assert(before_ex + Seq::<Seq<char>>::empty() =~= before_ex);
            },
        }
        assert(raws_view(out@) =~= out0 + specialist_raws(rs@.subrange(0, i + 1)));
        assert(strs(executed@) =~= ex0 + specialist_executed(rs@.subrange(0, i + 1)));
        i += 1;
    }
    assert(rs@.subrange(0, rs@.len() as int) =~= rs@);
}

// ---------------------------------------------------------------------------
// The deterministic validity rules
// ---------------------------------------------------------------------------

pub const TIER0_UNCERTAINTY: &'static str = "A Tier-0 deterministic rule (§4.4). It overrides model consensus and cannot be demoted; what it does not do is judge whether the design that produced the number was appropriate.";

/// A fired rule, as collected: quoted from the paragraph its location names,
/// when that resolves.
pub open spec fn flag_raw(ex: ExtractionResult, f: crate::inputs::ValidityFlag) -> RawView {
    RawView {
        source: LensSource::Specialist(SourceId::ValidationMaths),
        code: rule_name(f.rule),
        summary: f.explanation@,
        span: paragraph_spec(ex, f.location),
        location: Some(f.location),
        uncertainty: Some(TIER0_UNCERTAINTY@),
    }
}

fn collect_validity(ex: &ExtractionResult, v: &StatsValidityReport, out: &mut Vec<Raw>, executed: &mut Vec<String>)
    ensures
        raws_view(final(out)@) == raws_view(old(out)@) + v.flags@.map_values(
            |f: crate::inputs::ValidityFlag| flag_raw(*ex, f),
        ),
        strs(final(executed)@) == strs(old(executed)@) + v.checks@.map_values(
            |c: crate::inputs::RuleCheck| rule_name(c.rule),
        ),
{
    let ghost ex0 = strs(executed@);
    let ghost cv = v.checks@.map_values(|c: crate::inputs::RuleCheck| rule_name(c.rule));
    let mut k: usize = 0;
    assert(ex0 + cv.subrange(0, 0) =~= ex0);
    while k < v.checks.len()
        invariant
            k <= v.checks@.len(),
            cv == v.checks@.map_values(|c: crate::inputs::RuleCheck| rule_name(c.rule)),
            strs(executed@) == ex0 + cv.subrange(0, k as int),
        decreases v.checks@.len() - k,
    {
        let ghost b = strs(executed@);
        executed.push(owned(v.checks[k].rule.debug_name()));
        assert(strs(executed@) =~= b.push(cv[k as int]));
        assert(cv.subrange(0, k + 1) =~= cv.subrange(0, k as int).push(cv[k as int]));
        k += 1;
    }
    assert(cv.subrange(0, v.checks@.len() as int) =~= cv);
    let ghost out0 = raws_view(out@);
    let ghost fv = v.flags@.map_values(|f: crate::inputs::ValidityFlag| flag_raw(*ex, f));
    let mut k: usize = 0;
    assert(out0 + fv.subrange(0, 0) =~= out0);
    while k < v.flags.len()
        invariant
            k <= v.flags@.len(),
            fv == v.flags@.map_values(|f: crate::inputs::ValidityFlag| flag_raw(*ex, f)),
            raws_view(out@) == out0 + fv.subrange(0, k as int),
        decreases v.flags@.len() - k,
    {
        let f = &v.flags[k];
        let span = match paragraph_at(ex, &f.location) {
            Some(p) => Some(owned(p)),
            None => None,
        };
        let raw = Raw {
            source: LensSource::Specialist(SourceId::ValidationMaths),
            code: owned(f.rule.debug_name()),
            summary: f.explanation.clone(),
            span,
            location: Some(f.location),
            uncertainty: Some(owned(TIER0_UNCERTAINTY)),
        };
        let ghost b = raws_view(out@);
        out.push(raw);
        assert(raws_view(out@) =~= b.push(fv[k as int]));
        assert(fv.subrange(0, k + 1) =~= fv.subrange(0, k as int).push(fv[k as int]));
        k += 1;
    }
    assert(fv.subrange(0, v.flags@.len() as int) =~= fv);
}

// ---------------------------------------------------------------------------
// Novelty
// ---------------------------------------------------------------------------

pub const DEFAULT_NARROWING: &'static str = "A work carrying every content term of this novelty claim exists.";

pub const SCOPE_UNCERTAINTY: &'static str = "Read from the claim sentence alone. A scope stated in the surrounding sentences rather than in this one reads here as no scope.";

/// The prior-work lines appended to a novelty finding.
pub open spec fn work_text(w: Option<crate::inputs::PriorWork>) -> Seq<char> {
    match w {
        Some(p) => "\n  PRIOR WORK: "@ + p.citation@ + "\n  WHAT IT SHOWED: "@ + p.showed@,
        None => Seq::empty(),
    }
}

/// The findings one novelty assessment raises: its status when it rests on a
/// named work, and its phrasing observation whatever the status.
pub open spec fn assessment_raws(a: NoveltyAssessment) -> Seq<RawView> {
    (if a.status == NoveltyStatus::PriorWorkExists || a.status == NoveltyStatus::NoveltyNarrowerThanStated {
        seq![
            RawView {
                source: LensSource::Specialist(SourceId::NoveltyClaims),
                code: novelty_status_name(a.status),
                summary: match opt_view(a.narrowing) {
                    Some(n) => n,
                    None => DEFAULT_NARROWING@,
                } + work_text(a.nearest_prior_work),
                span: Some(a.claim.sentence@),
                location: Some(a.claim.location),
                uncertainty: Some(a.uncertainty@),
            },
        ]
    } else {
        Seq::empty()
    }) + match opt_view(a.states_no_scope) {
        Some(note) => seq![
            RawView {
                source: LensSource::Specialist(SourceId::NoveltyClaims),
                code: "novelty_claim_states_no_scope"@,
                summary: note,
                span: Some(a.claim.sentence@),
                location: Some(a.claim.location),
                uncertainty: Some(SCOPE_UNCERTAINTY@),
            },
        ],
        None => Seq::empty(),
    }
}

/// The findings of every assessment, in order.
pub open spec fn novelty_raws(as_: Seq<NoveltyAssessment>) -> Seq<RawView>
    decreases as_.len(),
{
    if as_.len() == 0 {
        Seq::empty()
    } else {
        novelty_raws(as_.drop_last()) + assessment_raws(as_.last())
    }
}

/// The novelty codes count as run when any claim was assessed.
pub open spec fn novelty_executed(as_: Seq<NoveltyAssessment>) -> Seq<Seq<char>> {
    if as_.len() > 0 {
        seq!["PRIOR_WORK_EXISTS"@, "NOVELTY_NARROWER_THAN_STATED"@, "novelty_claim_states_no_scope"@]
    } else {
        Seq::empty()
    }
}

fn assessment_findings(a: &NoveltyAssessment, out: &mut Vec<Raw>)
    ensures
        raws_view(final(out)@) == raws_view(old(out)@) + assessment_raws(*a),
{
    let ghost out0 = raws_view(out@);
    let ghost mut added: Seq<RawView> = Seq::empty();
    if a.status == NoveltyStatus::PriorWorkExists || a.status == NoveltyStatus::NoveltyNarrowerThanStated {
        let mut summary = match &a.narrowing {
            Some(n) => n.clone(),
            None => owned(DEFAULT_NARROWING),
        };
        match &a.nearest_prior_work {
            Some(w) => {
                push_str(&mut summary, "\n  PRIOR WORK: ");
                push_str(&mut summary, w.citation.as_str());
                push_str(&mut summary, "\n  WHAT IT SHOWED: ");
                push_str(&mut summary, w.showed.as_str());
            },
            None => {},
        }
        let raw = Raw {
            source: LensSource::Specialist(SourceId::NoveltyClaims),
            code: owned(a.status.as_str()),
            summary,
            span: Some(a.claim.sentence.clone()),
            location: Some(a.claim.location),
            uncertainty: Some(a.uncertainty.clone()),
        };
        let ghost rv = raw@;
        assert(rv.summary == (match opt_view(a.narrowing) {
            Some(n) => n,
            None => DEFAULT_NARROWING@,
        }) + work_text(a.nearest_prior_work));
        out.push(raw);
        proof {
            added = added.push(rv);
        }
    }
    assert(added =~= (if a.status == NoveltyStatus::PriorWorkExists || a.status == NoveltyStatus::NoveltyNarrowerThanStated {
        seq![
            RawView {
                source: LensSource::Specialist(SourceId::NoveltyClaims),
                code: novelty_status_name(a.status),
                summary: match opt_view(a.narrowing) {
                    Some(n) => n,
                    None => DEFAULT_NARROWING@,
                } + work_text(a.nearest_prior_work),
                span: Some(a.claim.sentence@),
                location: Some(a.claim.location),
                uncertainty: Some(a.uncertainty@),
            },
        ]
    } else {
        Seq::<RawView>::empty()
    }));
    match &a.states_no_scope {
        Some(note) => {
            let raw = Raw {
                source: LensSource::Specialist(SourceId::NoveltyClaims),
                code: owned("novelty_claim_states_no_scope"),
                summary: note.clone(),
                span: Some(a.claim.sentence.clone()),
                location: Some(a.claim.location),
                uncertainty: Some(owned(SCOPE_UNCERTAINTY)),
            };
            let ghost rv = raw@;
            out.push(raw);
            proof {
                added = added.push(rv);
            }
        },
        None => {},
    }
    assert(added =~= assessment_raws(*a));
    assert(raws_view(out@) =~= out0 + added);
}

fn collect_novelty(as_: &[NoveltyAssessment], out: &mut Vec<Raw>, executed: &mut Vec<String>)
    ensures
        raws_view(final(out)@) == raws_view(old(out)@) + novelty_raws(as_@),
        strs(final(executed)@) == strs(old(executed)@) + novelty_executed(as_@),
{
    let ghost ex0 = strs(executed@);
    if as_.len() > 0 {
        executed.push(owned("PRIOR_WORK_EXISTS"));
        executed.push(owned("NOVELTY_NARROWER_THAN_STATED"));
        executed.push(owned("novelty_claim_states_no_scope"));
    }
    assert(strs(executed@) =~= ex0 + novelty_executed(as_@));
    let ghost out0 = raws_view(out@);
    let mut i: usize = 0;
    assert(out0 + novelty_raws(as_@.subrange(0, 0)) =~= out0);
    while i < as_.len()
        invariant
            i <= as_@.len(),
            raws_view(out@) == out0 + novelty_raws(as_@.subrange(0, i as int)),
        decreases as_@.len() - i,
    {
        assert(as_@.subrange(0, i + 1).drop_last() =~= as_@.subrange(0, i as int));
        assessment_findings(&as_[i], out);
        assert(raws_view(out@) =~= out0 + novelty_raws(as_@.subrange(0, i + 1)));
        i += 1;
    }
    assert(as_@.subrange(0, as_@.len() as int) =~= as_@);
}

// ---------------------------------------------------------------------------
// Full-text statement checks, through the absence rule
// ---------------------------------------------------------------------------

/// The span of an absence finding: the sentence that made the check apply,
/// when there is one, and what was searched for.
pub open spec fn absence_span(subject: Option<Seq<char>>, phrases: Seq<Seq<char>>) -> Seq<char> {
    (match subject {
        Some(s) => "WHY THIS CHECK APPLIES: "@ + s + "\n"@,
        None => Seq::empty(),
    }) + "Searched the whole manuscript for "@ + decimal(phrases.len()) + " phrasings and found none of them: "@
        + join(phrases, ", "@)
}

/// The absence finding of a full-text check.
pub open spec fn absence_raw(
    code: Seq<char>,
    summary: Seq<char>,
    subject: Option<Seq<char>>,
    phrases: Seq<Seq<char>>,
    uncertainty: Seq<char>,
) -> RawView {
    RawView {
        source: LensSource::State(StateField::FullText),
        code,
        summary,
        span: Some(absence_span(subject, phrases)),
        location: None,
        uncertainty: Some(uncertainty),
    }
}

/// The sentence showing the study had human or animal subjects.
pub open spec fn subject_sentence(ex: ExtractionResult) -> Option<Seq<char>> {
    first_in_sections(ex.sections@, subject_phrases())
}

/// The full-text findings: data availability always runs; the ethics check
/// runs only on a study that shows subjects. A statement present in the text
/// suppresses its finding.
pub open spec fn text_raws(ex: ExtractionResult, lower: Seq<char>) -> Seq<RawView> {
    (if contains_any(lower, data_phrases()) {
        Seq::empty()
    } else {
        seq![absence_raw(DATA_AVAILABILITY_CODE@, DATA_AVAILABILITY_ABSENT@, None, data_phrases(), DATA_AVAILABILITY_UNCERTAINTY@)]
    }) + match subject_sentence(ex) {
        Some(s) => if contains_any(lower, ethics_phrases()) {
            Seq::empty()
        } else {
            seq![absence_raw(ETHICS_CODE@, ETHICS_ABSENT@, Some(s), ethics_phrases(), ETHICS_UNCERTAINTY@)]
        },
        None => Seq::empty(),
    }
}

/// The full-text checks that ran: the ethics check counts only when its own
/// gate let it run.
pub open spec fn text_executed(ex: ExtractionResult) -> Seq<Seq<char>> {
    seq![DATA_AVAILABILITY_CODE@] + if subject_sentence(ex) is Some {
        seq![ETHICS_CODE@]
    } else {
        Seq::empty()
    }
}

fn run_state_check(
    check: &StateCheck,
    lower: &Vec<char>,
    subject: &Option<String>,
    out: &mut Vec<Raw>,
    executed: &mut Vec<String>,
    refusals: &mut Vec<(String, StateField, String)>,
)
    requires
        check.field == StateField::FullText,
    ensures
        strs(final(executed)@) == strs(old(executed)@).push(check.code@),
        final(refusals)@ == old(refusals)@,
        raws_view(final(out)@) == raws_view(old(out)@) + if contains_any(lower@, views(check.phrases@)) {
            Seq::<RawView>::empty()
        } else {
            seq![absence_raw(check.code@, check.absent_summary@, opt_view(*subject), views(check.phrases@), check.uncertainty@)]
        },
{
    let ghost ex0 = strs(executed@);
    executed.push(owned(check.code));
    assert(strs(executed@) =~= ex0.push(check.code@));
    let ghost out0 = raws_view(out@);
    if contains_any_of(lower, check.phrases.as_slice()) {
        assert(raws_view(out@) =~= out0 + Seq::<RawView>::empty());
        return;
    }
    match admit_absence(check.field) {
        Ok(()) => {
            let mut span = String::new();
            match subject {
                Some(s) => {
                    push_str(&mut span, "WHY THIS CHECK APPLIES: ");
                    push_str(&mut span, s.as_str());
                    push_str(&mut span, "\n");
                },
                None => {},
            }
            push_str(&mut span, "Searched the whole manuscript for ");
            push_usize(&mut span, check.phrases.len());
            push_str(&mut span, " phrasings and found none of them: ");
            crate::report::push_joined(&mut span, &check.phrases, ", ");
            let raw = Raw {
                source: LensSource::State(check.field),
                code: owned(check.code),
                summary: owned(check.absent_summary),
                span: Some(span),
                location: None,
                uncertainty: Some(owned(check.uncertainty)),
            };
            out.push(raw);
            assert(raws_view(out@) =~= out0 + seq![absence_raw(check.code@, check.absent_summary@, opt_view(*subject), views(check.phrases@), check.uncertainty@)]);
        },
        Err(reason) => {
            assert(false);
            refusals.push((owned(check.code), check.field, reason));
        },
    }
}

fn collect_text(
    ex: &ExtractionResult,
    text: &str,
    out: &mut Vec<Raw>,
    executed: &mut Vec<String>,
    refusals: &mut Vec<(String, StateField, String)>,
)
    ensures
        raws_view(final(out)@) == raws_view(old(out)@) + text_raws(*ex, lowercase(text@)),
        strs(final(executed)@) == strs(old(executed)@) + text_executed(*ex),
        final(refusals)@ == old(refusals)@,
{
    let lower = to_lowercase(text);
    let lc = chars_of(lower.as_str());
    let ghost out0 = raws_view(out@);
    let ghost ex0 = strs(executed@);
    let data = data_availability_check();
    let none: Option<String> = None;
    run_state_check(&data, &lc, &none, out, executed, refusals);
    let ghost out1 = raws_view(out@);
    let ghost ex1 = strs(executed@);
    let subjects = subjects_present();
    let subject = sentence_containing(ex, &subjects);
    match &subject {
        Some(_) => {
            let ethics = ethics_check();
            run_state_check(&ethics, &lc, &subject, out, executed, refusals);
        },
        None => {},
    }
    assert(raws_view(out@) =~= out0 + text_raws(*ex, lowercase(text@)));
    assert(strs(executed@) =~= ex0 + text_executed(*ex));
}

// ---------------------------------------------------------------------------
// Reference currency
// ---------------------------------------------------------------------------

/// The currency finding, raised when a majority of at least ten dated
/// references is outside the window.
pub open spec fn currency_raws(refs: Seq<Reference>, this_year: int) -> Seq<RawView> {
    let ys = years_of(refs);
    let dated = ys.len();
    let recent = recent_count(ys, this_year);
    if dated >= MINIMUM_DATED && recent * 2 < dated {
        seq![
            RawView {
                source: LensSource::State(StateField::ReferenceYears),
                code: "reference_list_is_mostly_outdated"@,
                summary: decimal(recent) + " of "@ + decimal(dated) + " dated references are from the last "@
                    + decimal(RECENT_WINDOW_YEARS as nat) + " years — a minority. The referee document's weak case is \"Reliance on outdated sources (10+ years old)\"."@,
                span: Some(decimal(refs.len()) + " reference(s) parsed, "@ + decimal(dated) + " carrying a year, spanning "@
                    + year_text(seq_min(ys)) + "–"@ + year_text(seq_max(ys)) + ". The denominator is the dated ones, not the total."@),
                location: None,
                uncertainty: Some("Reasons only over references the parser dated: "@ + decimal(dated) + " of "@ + decimal(refs.len())
                    + " carry a year. A field where a decade-old paper is still current reads as outdated here, and the window is the referee document's, not this field's."@),
            },
        ]
    } else {
        Seq::empty()
    }
}

/// A year, or `?` when there is none.
pub open spec fn year_text(y: Option<i32>) -> Seq<char> {
    match y {
        Some(v) => decimal_int(v as int),
        None => "?"@,
    }
}

/// The currency check counts as run when its denominator can carry a claim.
pub open spec fn currency_executed(refs: Seq<Reference>) -> Seq<Seq<char>> {
    if years_of(refs).len() >= MINIMUM_DATED {
        seq!["reference_list_is_mostly_outdated"@]
    } else {
        Seq::empty()
    }
}

fn push_year(s: &mut String, y: Option<i32>)
    ensures
        final(s)@ == old(s)@ + year_text(y),
{
    match y {
        Some(v) => push_i32(s, v),
        None => push_str(s, "?"),
    }
}

fn collect_currency(refs: &[Reference], this_year: i32, out: &mut Vec<Raw>, executed: &mut Vec<String>)
    ensures
        raws_view(final(out)@) == raws_view(old(out)@) + currency_raws(refs@, this_year as int),
        strs(final(executed)@) == strs(old(executed)@) + currency_executed(refs@),
{
    let c = reference_currency(refs, this_year);
    let ghost out0 = raws_view(out@);
    let ghost ex0 = strs(executed@);
    let verdict = c.majority_outdated();
    if verdict.is_some() {
        executed.push(owned("reference_list_is_mostly_outdated"));
    }
    assert(strs(executed@) =~= ex0 + currency_executed(refs@));
    if verdict == Some(true) {
        let mut summary = String::new();
        push_usize(&mut summary, c.recent);
        push_str(&mut summary, " of ");
        push_usize(&mut summary, c.dated);
        push_str(&mut summary, " dated references are from the last ");
        push_i32(&mut summary, RECENT_WINDOW_YEARS);
        push_str(&mut summary, " years — a minority. The referee document's weak case is \"Reliance on outdated sources (10+ years old)\".");
        let mut span = String::new();
        push_usize(&mut span, c.total);
        push_str(&mut span, " reference(s) parsed, ");
        push_usize(&mut span, c.dated);
        push_str(&mut span, " carrying a year, spanning ");
        push_year(&mut span, c.oldest);
        push_str(&mut span, "–");
        push_year(&mut span, c.newest);
        push_str(&mut span, ". The denominator is the dated ones, not the total.");
        let mut unc = owned("Reasons only over references the parser dated: ");
        push_usize(&mut unc, c.dated);
        push_str(&mut unc, " of ");
        push_usize(&mut unc, c.total);
        push_str(&mut unc, " carry a year. A field where a decade-old paper is still current reads as outdated here, and the window is the referee document's, not this field's.");
        let raw = Raw {
            source: LensSource::State(StateField::ReferenceYears),
            code: owned("reference_list_is_mostly_outdated"),
            summary,
            span: Some(span),
            location: None,
            uncertainty: Some(unc),
        };
        out.push(raw);
        assert(decimal_int(RECENT_WINDOW_YEARS as int) == decimal(RECENT_WINDOW_YEARS as nat));
        assert(raws_view(out@) =~= out0 + currency_raws(refs@, this_year as int));
    } else {
        assert(raws_view(out@) =~= out0 + currency_raws(refs@, this_year as int));
    }
}

// ---------------------------------------------------------------------------
// Reporting standards
// ---------------------------------------------------------------------------

/// A standard item found missing, as collected: an absence quotes what was
/// looked for.
pub open spec fn verdict_raw(e: StandardEvaluation, v: ItemVerdict) -> RawView {
    RawView {
        source: LensSource::Specialist(SourceId::ReportingStandards),
        code: check_code_spec(views(v.reads@), v.requirement@),
        summary: standard_name(e.standard) + " item "@ + v.item@ + ": "@ + v.requirement@ + " — "@
            + v.detail@,
        span: Some(match v.evidence_span {
            Some(s) => s@,
            None => "WHAT WAS LOOKED FOR: "@ + v.detail@,
        }),
        location: v.location,
        uncertainty: Some("The engine "@ + coverage_spec(e) + ". Whether this item's verdict matches a human referee's is unmeasured."@),
    }
}

/// The missing-item findings of one evaluation.
pub open spec fn eval_raws(e: StandardEvaluation, vs: Seq<ItemVerdict>) -> Seq<RawView>
    decreases vs.len(),
{
    if vs.len() == 0 {
        Seq::empty()
    } else {
        eval_raws(e, vs.drop_last()) + if vs.last().status == ItemStatus::NotFound {
            seq![verdict_raw(e, vs.last())]
        } else {
            Seq::empty()
        }
    }
}

/// The checks one evaluation ran: every decided item's code.
pub open spec fn eval_executed(vs: Seq<ItemVerdict>) -> Seq<Seq<char>>
    decreases vs.len(),
{
    if vs.len() == 0 {
        Seq::empty()
    } else {
        eval_executed(vs.drop_last()) + if vs.last().status != ItemStatus::Unevaluable {
            seq![check_code_spec(views(vs.last().reads@), vs.last().requirement@)]
        } else {
            Seq::empty()
        }
    }
}

/// The missing-item findings of every evaluation.
pub open spec fn standard_raws(es: Seq<StandardEvaluation>) -> Seq<RawView>
    decreases es.len(),
{
    if es.len() == 0 {
        Seq::empty()
    } else {
        standard_raws(es.drop_last()) + eval_raws(es.last(), es.last().verdicts@)
    }
}

/// The checks every evaluation ran.
pub open spec fn standard_executed(es: Seq<StandardEvaluation>) -> Seq<Seq<char>>
    decreases es.len(),
{
    if es.len() == 0 {
        Seq::empty()
    } else {
        standard_executed(es.drop_last()) + eval_executed(es.last().verdicts@)
    }
}

fn collect_evaluation(e: &StandardEvaluation, out: &mut Vec<Raw>, executed: &mut Vec<String>)
    ensures
        raws_view(final(out)@) == raws_view(old(out)@) + eval_raws(*e, e.verdicts@),
        strs(final(executed)@) == strs(old(executed)@) + eval_executed(e.verdicts@),
{
    let ghost out0 = raws_view(out@);
    let ghost ex0 = strs(executed@);
    let coverage = e.coverage_phrase();
    let vs = &e.verdicts;
    let mut k: usize = 0;
    assert(out0 + eval_raws(*e, vs@.subrange(0, 0)) =~= out0);
    assert(ex0 + eval_executed(vs@.subrange(0, 0)) =~= ex0);
    while k < vs.len()
        invariant
            k <= vs@.len(),
            vs@ == e.verdicts@,
            coverage@ == coverage_spec(*e),
            raws_view(out@) == out0 + eval_raws(*e, vs@.subrange(0, k as int)),
            strs(executed@) == ex0 + eval_executed(vs@.subrange(0, k as int)),
        decreases vs@.len() - k,
    {
        let v = &vs[k];
        assert(vs@.subrange(0, k + 1).drop_last() =~= vs@.subrange(0, k as int));
        assert(vs@.subrange(0, k + 1).last() == vs@[k as int]);
        let ghost b_ex = strs(executed@);
        if v.status != ItemStatus::Unevaluable {
            let c = check_code(v);
            executed.push(c);
            assert(strs(executed@) =~= b_ex.push(check_code_spec(views(v.reads@), v.requirement@)));
        } else {
            assert(strs(executed@) =~= b_ex + Seq::<Seq<char>>::empty());
        }
        let ghost b_out = raws_view(out@);
        if v.status == ItemStatus::NotFound {
            let mut summary = owned(e.standard.as_str());
            push_str(&mut summary, " item ");
            push_str(&mut summary, v.item);
            push_str(&mut summary, ": ");
            push_str(&mut summary, v.requirement);
            push_str(&mut summary, " — ");
            push_str(&mut summary, v.detail.as_str());
            let span = match &v.evidence_span {
                Some(s) => s.clone(),
                None => {
                    let mut w = owned("WHAT WAS LOOKED FOR: ");
                    push_str(&mut w, v.detail.as_str());
                    w
                },
            };
            let mut unc = owned("The engine ");
            push_str(&mut unc, coverage.as_str());
            push_str(&mut unc, ". Whether this item's verdict matches a human referee's is unmeasured.");
            let raw = Raw {
                source: LensSource::Specialist(SourceId::ReportingStandards),
                code: check_code(v),
                summary,
                span: Some(span),
                location: v.location,
                uncertainty: Some(unc),
            };
            out.push(raw);
            assert(raws_view(out@) =~= b_out.push(verdict_raw(*e, *v)));
        } else {
            assert(raws_view(out@) =~= b_out + Seq::<RawView>::empty());
        }
        k += 1;
    }
    assert(vs@.subrange(0, vs@.len() as int) =~= vs@);
}

fn collect_standards(es: &[StandardEvaluation], out: &mut Vec<Raw>, executed: &mut Vec<String>)
    ensures
        raws_view(final(out)@) == raws_view(old(out)@) + standard_raws(es@),
        strs(final(executed)@) == strs(old(executed)@) + standard_executed(es@),
{
    let ghost out0 = raws_view(out@);
    let ghost ex0 = strs(executed@);
    let mut i: usize = 0;
    assert(out0 + standard_raws(es@.subrange(0, 0)) =~= out0);
    assert(ex0 + standard_executed(es@.subrange(0, 0)) =~= ex0);
    while i < es.len()
        invariant
            i <= es@.len(),
            raws_view(out@) == out0 + standard_raws(es@.subrange(0, i as int)),
            strs(executed@) == ex0 + standard_executed(es@.subrange(0, i as int)),
        decreases es@.len() - i,
    {
        assert(es@.subrange(0, i + 1).drop_last() =~= es@.subrange(0, i as int));
        assert(es@.subrange(0, i + 1).last() == es@[i as int]);
        collect_evaluation(&es[i], out, executed);
        assert(raws_view(out@) =~= out0 + standard_raws(es@.subrange(0, i + 1)));
        assert(strs(executed@) =~= ex0 + standard_executed(es@.subrange(0, i + 1)));
        i += 1;
    }
    assert(es@.subrange(0, es@.len() as int) =~= es@);
}

// ---------------------------------------------------------------------------
// Everything collected
// ---------------------------------------------------------------------------

/// Every finding a lens can see, in producer order.
pub open spec fn collected_spec(input: LensInput) -> Seq<RawView> {
    (match input.specialists {
        Some(rs) => specialist_raws(rs@),
        None => Seq::empty(),
    }) + (match input.validity {
        Some(v) => v.flags@.map_values(|f: crate::inputs::ValidityFlag| flag_raw(*input.extraction, f)),
        None => Seq::empty(),
    }) + (match input.novelty {
        Some(a) => novelty_raws(a@),
        None => Seq::empty(),
    }) + (match input.full_text {
        Some(t) => text_raws(*input.extraction, lowercase(t@)),
        None => Seq::empty(),
    }) + currency_raws(input.extraction.references@, input.this_year as int) + (match input.standards {
        Some(es) => standard_raws(es@),
        None => Seq::empty(),
    })
}

/// Every check that actually ran: produced by something that ran, had
/// something to look at, and was not turned away by its own gate.
pub open spec fn executed_spec(input: LensInput) -> Seq<Seq<char>> {
    (match input.specialists {
        Some(rs) => specialist_executed(rs@),
        None => Seq::empty(),
    }) + (match input.validity {
        Some(v) => v.checks@.map_values(|c: crate::inputs::RuleCheck| rule_name(c.rule)),
        None => Seq::empty(),
    }) + (match input.novelty {
        Some(a) => novelty_executed(a@),
        None => Seq::empty(),
    }) + (match input.full_text {
        Some(t) => text_executed(*input.extraction),
        None => Seq::empty(),
    }) + currency_executed(input.extraction.references@) + (match input.standards {
        Some(es) => standard_executed(es@),
        None => Seq::empty(),
    })
}

/// **Collect what every producer found**, with the codes that executed. No
/// full-text finding is ever refused by the absence rule: each reads the one
/// exhaustive field.
pub fn collect(input: &LensInput) -> (r: (Vec<Raw>, Vec<(String, StateField, String)>, Vec<String>))
    ensures
        raws_view(r.0@) == collected_spec(*input),
        r.1@.len() == 0,
        strs(r.2@) == executed_spec(*input),
{
    let mut out: Vec<Raw> = Vec::new();
    let mut refusals: Vec<(String, StateField, String)> = Vec::new();
    let mut executed: Vec<String> = Vec::new();
    assert(raws_view(out@) =~= Seq::<RawView>::empty());
    assert(strs(executed@) =~= Seq::<Seq<char>>::empty());
    let ghost e = Seq::<RawView>::empty();
    let ghost es = Seq::<Seq<char>>::empty();
    match input.specialists {
        Some(rs) => collect_specialists(rs, &mut out, &mut executed),
        None => {},
    }
    let ghost o1 = raws_view(out@);
    let ghost x1 = strs(executed@);
    match input.validity {
        Some(v) => collect_validity(input.extraction, v, &mut out, &mut executed),
        None => {},
    }
    let ghost o2 = raws_view(out@);
    let ghost x2 = strs(executed@);
    match input.novelty {
        Some(a) => collect_novelty(a, &mut out, &mut executed),
        None => {},
    }
    let ghost o3 = raws_view(out@);
    let ghost x3 = strs(executed@);
    match input.full_text {
        Some(t) => collect_text(input.extraction, t, &mut out, &mut executed, &mut refusals),
        None => {},
    }
    let ghost o4 = raws_view(out@);
    let ghost x4 = strs(executed@);
    collect_currency(&input.extraction.references, input.this_year, &mut out, &mut executed);
    let ghost o5 = raws_view(out@);
    let ghost x5 = strs(executed@);
    match input.standards {
        Some(es) => collect_standards(es, &mut out, &mut executed),
        None => {},
    }
    assert(raws_view(out@) =~= collected_spec(*input));
    assert(strs(executed@) =~= executed_spec(*input));
    (out, refusals, executed)
}

} // verus!
