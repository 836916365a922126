//! Running a referee lens over what the producers found: one concern per
//! code with every span it rests on, what happened to every criterion, the
//! journal's own requirements, and the lens's evidence policy applied.

use vstd::prelude::*;

use crate::collect::{collect, collected_spec, executed_spec, raws_view, strs, LensInput, Raw, RawView};
use crate::compliance::distinct;
use crate::criteria::{read_by, reads_spec, Criterion, LensId, ReviewLens};
use crate::extract::Location;
use crate::lens_checks::{
    occurrence_unit, occurrence_unit_spec, step_view, trail, trail_spec, AbsenceRejected,
    TrailStep,
};
use crate::lens_sources::{lens_source_name, lens_source_note, lens_source_state, LensSource, SourceState};
use crate::report::{coverage_spec, raised_at_phrase, raised_at_spec, rows_view, RowView};
use crate::risk::{band_of, rule_for, severity_for, severity_rule, ReviewSeverity, DEFAULT_SEVERITY};
use crate::standards::standard_name;
use crate::text::{contains, decimal, join, occurs_at, opt_owned, opt_view, owned, push_str, push_usize, str_eq, trim, views};

verus! {

// ---------------------------------------------------------------------------
// The report's types
// ---------------------------------------------------------------------------

/// What happened to one criterion on one manuscript.
#[derive(Debug, Clone)]
pub enum CriterionState {
    /// Its checks ran. No concern then means the manuscript passed them.
    Evaluated,
    /// A shipping source exists and did not run here: not the same as passing.
    SourceNotRun { detail: String },
    /// No shipping source at all.
    NoShippingSource { detail: String },
    /// Decided by the journal's own requirement rows, reported in the
    /// compliance section.
    ReportedInComplianceSection { detail: String },
}

/// A criterion's state as plain values.
pub enum StateView {
    Evaluated,
    SourceNotRun(Seq<char>),
    NoShippingSource(Seq<char>),
    ReportedInComplianceSection(Seq<char>),
}

pub open spec fn state_view(s: CriterionState) -> StateView {
    match s {
        CriterionState::Evaluated => StateView::Evaluated,
        CriterionState::SourceNotRun { detail } => StateView::SourceNotRun(detail@),
        CriterionState::NoShippingSource { detail } => StateView::NoShippingSource(detail@),
        CriterionState::ReportedInComplianceSection { detail } => StateView::ReportedInComplianceSection(detail@),
    }
}

/// One criterion's outcome.
#[derive(Debug, Clone)]
pub struct CriterionOutcome {
    pub criterion: String,
    pub state: CriterionState,
    pub concerns: usize,
}

/// An outcome as plain values.
pub open spec fn outcome_view(o: CriterionOutcome) -> (Seq<char>, StateView, nat) {
    (o.criterion@, state_view(o.state), o.concerns as nat)
}

pub open spec fn outcomes_view(v: Seq<CriterionOutcome>) -> Seq<(Seq<char>, StateView, nat)> {
    v.map_values(|o: CriterionOutcome| outcome_view(o))
}

/// A major or minor concern, with its verification trail.
#[derive(Debug, Clone)]
pub struct Concern {
    pub criterion: String,
    pub source: LensSource,
    pub code: String,
    pub severity: ReviewSeverity,
    pub summary: String,
    /// What `occurrences` counts.
    pub occurrence_unit: String,
    /// How many times this check fired under this criterion.
    pub occurrences: usize,
    /// Every manuscript sentence this rests on, each whole.
    pub spans: Vec<String>,
    pub locations: Vec<Location>,
    pub trail: Vec<TrailStep>,
    /// What the underlying check could not determine, carried up unchanged.
    pub uncertainty: Option<String>,
    /// The referee document's action for this criterion.
    pub required_revision: String,
}

/// A concern as plain values.
#[verifier::ext_equal]
pub struct ConcernView {
    pub criterion: Seq<char>,
    pub source: LensSource,
    pub code: Seq<char>,
    pub severity: ReviewSeverity,
    pub summary: Seq<char>,
    pub occurrence_unit: Seq<char>,
    pub occurrences: nat,
    pub spans: Seq<Seq<char>>,
    pub locations: Seq<Location>,
    pub trail: Seq<(Seq<char>, Seq<char>)>,
    pub uncertainty: Option<Seq<char>>,
    pub required_revision: Seq<char>,
}

impl View for Concern {
    type V = ConcernView;

    open spec fn view(&self) -> ConcernView {
        ConcernView {
            criterion: self.criterion@,
            source: self.source,
            code: self.code@,
            severity: self.severity,
            summary: self.summary@,
            occurrence_unit: self.occurrence_unit@,
            occurrences: self.occurrences as nat,
            spans: strs(self.spans@),
            locations: self.locations@,
            trail: self.trail@.map_values(|t: TrailStep| step_view(t)),
            uncertainty: opt_view(self.uncertainty),
            required_revision: self.required_revision@,
        }
    }
}

pub open spec fn concerns_view(v: Seq<Concern>) -> Seq<ConcernView> {
    v.map_values(|c: Concern| c@)
}

/// An independent referee report in the shape a real one takes.
#[derive(Debug)]
pub struct ReviewerReport {
    pub lens: LensId,
    pub overall_assessment: String,
    /// What the lens can see of the contribution; the judgement is absent.
    pub contribution: String,
    pub strengths: Vec<String>,
    pub major_concerns: Vec<Concern>,
    pub minor_concerns: Vec<Concern>,
    pub journal_compliance: Vec<String>,
    pub required_revisions: Vec<String>,
    /// What happened to every criterion the lens declares.
    pub criteria: Vec<CriterionOutcome>,
    /// Set when the lens has no shipping source at all.
    pub not_applicable: Option<String>,
    /// Findings the absence rule refused.
    pub absence_rejected: Vec<AbsenceRejected>,
    /// Concerns the lens's own evidence policy refused, with the reason.
    pub policy_rejected: Vec<String>,
}

// ---------------------------------------------------------------------------
// Sources of a criterion
// ---------------------------------------------------------------------------

/// The sources that ship, in order.
pub open spec fn shipping_of(srcs: Seq<LensSource>) -> Seq<LensSource>
    decreases srcs.len(),
{
    if srcs.len() == 0 {
        Seq::empty()
    } else {
        shipping_of(srcs.drop_last()) + if lens_source_state(srcs.last()) == SourceState::Shipping {
            seq![srcs.last()]
        } else {
            Seq::empty()
        }
    }
}

/// Each source with why it is absent.
pub open spec fn source_reasons(srcs: Seq<LensSource>) -> Seq<char> {
    join(srcs.map_values(|s: LensSource| lens_source_name(s) + " — "@ + lens_source_note(s)), "; "@)
}

/// The sources' names.
pub open spec fn source_names(srcs: Seq<LensSource>) -> Seq<char> {
    join(srcs.map_values(|s: LensSource| lens_source_name(s)), ", "@)
}

fn shipping_list(srcs: &Vec<LensSource>) -> (r: Vec<LensSource>)
    ensures
        r@ == shipping_of(srcs@),
{
    let mut out: Vec<LensSource> = Vec::new();
    let mut i: usize = 0;
    while i < srcs.len()
        invariant
            i <= srcs@.len(),
            out@ == shipping_of(srcs@.subrange(0, i as int)),
        decreases srcs@.len() - i,
    {
        assert(srcs@.subrange(0, i + 1).drop_last() =~= srcs@.subrange(0, i as int));
        if srcs[i].state() == SourceState::Shipping {
            out.push(srcs[i]);
        }
        assert(out@ =~= shipping_of(srcs@.subrange(0, i + 1)));
        i += 1;
    }
    assert(srcs@.subrange(0, srcs@.len() as int) =~= srcs@);
    out
}

fn reasons_text(srcs: &Vec<LensSource>) -> (r: String)
    ensures
        r@ == source_reasons(srcs@),
{
    let ghost parts = srcs@.map_values(|s: LensSource| lens_source_name(s) + " — "@ + lens_source_note(s));
    let mut out = String::new();
    let mut i: usize = 0;
    assert(parts.subrange(0, 0) =~= Seq::<Seq<char>>::empty());
    while i < srcs.len()
        invariant
            i <= srcs@.len(),
            parts == srcs@.map_values(|s: LensSource| lens_source_name(s) + " — "@ + lens_source_note(s)),
            out@ == join(parts.subrange(0, i as int), "; "@),
        decreases srcs@.len() - i,
    {
        let ghost before = out@;
        if i > 0 {
            push_str(&mut out, "; ");
        }
        push_str(&mut out, srcs[i].as_str());
        push_str(&mut out, " — ");
        push_str(&mut out, srcs[i].note());
        proof {
            let q = parts.subrange(0, i + 1);
            assert(q.drop_last() =~= parts.subrange(0, i as int));
            if i > 0 {
                assert(out@ =~= before + "; "@ + q.last());
            } else {
                assert(out@ =~= before + q.last());
            }
        }
        i += 1;
    }
    assert(parts.subrange(0, srcs@.len() as int) =~= parts);
    out
}

fn names_text(srcs: &Vec<LensSource>) -> (r: String)
    ensures
        r@ == source_names(srcs@),
{
    let ghost parts = srcs@.map_values(|s: LensSource| lens_source_name(s));
    let mut out = String::new();
    let mut i: usize = 0;
    assert(parts.subrange(0, 0) =~= Seq::<Seq<char>>::empty());
    while i < srcs.len()
        invariant
            i <= srcs@.len(),
            parts == srcs@.map_values(|s: LensSource| lens_source_name(s)),
            out@ == join(parts.subrange(0, i as int), ", "@),
        decreases srcs@.len() - i,
    {
        let ghost before = out@;
        if i > 0 {
            push_str(&mut out, ", ");
        }
        push_str(&mut out, srcs[i].as_str());
        proof {
            let q = parts.subrange(0, i + 1);
            assert(q.drop_last() =~= parts.subrange(0, i as int));
            if i > 0 {
                assert(out@ =~= before + ", "@ + q.last());
            } else {
                assert(out@ =~= before + q.last());
            }
        }
        i += 1;
    }
    assert(parts.subrange(0, srcs@.len() as int) =~= parts);
    out
}

/// `parts` joined by `sep`, as a new string.
pub(crate) fn join_strings(parts: &Vec<String>, sep: &str) -> (r: String)
    ensures
        r@ == join(strs(parts@), sep@),
{
    let mut out = String::new();
    let mut i: usize = 0;
    assert(strs(parts@).subrange(0, 0) =~= Seq::<Seq<char>>::empty());
    while i < parts.len()
        invariant
            i <= parts@.len(),
            out@ == join(strs(parts@).subrange(0, i as int), sep@),
        decreases parts@.len() - i,
    {
        let ghost before = out@;
        if i > 0 {
            push_str(&mut out, sep);
        }
        push_str(&mut out, parts[i].as_str());
        proof {
            let q = strs(parts@).subrange(0, i + 1);
            assert(q.drop_last() =~= strs(parts@).subrange(0, i as int));
            if i > 0 {
                assert(out@ =~= before + sep@ + q.last());
            } else {
                assert(out@ =~= before + q.last());
            }
        }
        i += 1;
    }
    assert(strs(parts@).subrange(0, parts@.len() as int) =~= strs(parts@));
    out
}

// ---------------------------------------------------------------------------
// The findings a criterion claims, grouped by code
// ---------------------------------------------------------------------------

/// A criterion claims a finding whose code it lists and whose source it
/// reads.
pub open spec fn claims(c: Criterion, x: RawView) -> bool {
    views(c.codes@).contains(x.code) && c.sources@.contains(x.source)
}

/// The findings a criterion claims, in order.
pub open spec fn mine_of(c: Criterion, raws: Seq<RawView>) -> Seq<RawView>
    decreases raws.len(),
{
    if raws.len() == 0 {
        Seq::empty()
    } else {
        mine_of(c, raws.drop_last()) + if claims(c, raws.last()) {
            seq![raws.last()]
        } else {
            Seq::empty()
        }
    }
}

/// The findings with one code, in order.
pub open spec fn with_code(rs: Seq<RawView>, code: Seq<char>) -> Seq<RawView>
    decreases rs.len(),
{
    if rs.len() == 0 {
        Seq::empty()
    } else {
        with_code(rs.drop_last(), code) + if rs.last().code == code {
            seq![rs.last()]
        } else {
            Seq::empty()
        }
    }
}

/// The spans the findings carry, in order.
pub open spec fn spans_of(rs: Seq<RawView>) -> Seq<Seq<char>>
    decreases rs.len(),
{
    if rs.len() == 0 {
        Seq::empty()
    } else {
        spans_of(rs.drop_last()) + match rs.last().span {
            Some(s) => seq![s],
            None => Seq::empty(),
        }
    }
}

/// The locations the findings carry, in order.
pub open spec fn locations_of(rs: Seq<RawView>) -> Seq<Location>
    decreases rs.len(),
{
    if rs.len() == 0 {
        Seq::empty()
    } else {
        locations_of(rs.drop_last()) + match rs.last().location {
            Some(l) => seq![l],
            None => Seq::empty(),
        }
    }
}

/// The trail step quoting every span a concern rests on.
pub open spec fn evidence_text(spans: Seq<Seq<char>>) -> Seq<char> {
    "The manuscript's own sentence(s), "@ + decimal(spans.len()) + " of them: "@ + join(spans, "  ||  "@)
}

/// A concern's trail: source, the evidence when there is any, criterion,
/// severity.
pub open spec fn concern_trail(source: LensSource, criterion: Seq<char>, code: Seq<char>, spans: Seq<Seq<char>>) -> Seq<
    (Seq<char>, Seq<char>),
> {
    let t = trail_spec(source, criterion, rule_for(code), code);
    if spans.len() > 0 {
        seq![t[0], ("evidence"@, evidence_text(spans)), t[1], t[2]]
    } else {
        t
    }
}

/// **One concern per code**, carrying every occurrence and every span.
pub open spec fn concern_spec(c: Criterion, mine: Seq<RawView>, code: Seq<char>) -> ConcernView {
    let same = with_code(mine, code);
    let first = same[0];
    let spans = spans_of(same);
    ConcernView {
        criterion: c.name@,
        source: first.source,
        code,
        severity: severity_for(code),
        summary: raised_at_spec(first.summary, same.len(), true),
        occurrence_unit: occurrence_unit_spec(first.source),
        occurrences: same.len(),
        spans,
        locations: locations_of(same),
        trail: concern_trail(first.source, c.name@, code, spans),
        uncertainty: first.uncertainty,
        required_revision: c.action@,
    }
}

/// The codes of findings, in order.
pub open spec fn codes_in(rs: Seq<RawView>) -> Seq<Seq<char>> {
    rs.map_values(|x: RawView| x.code)
}

/// A criterion that can raise concerns: it has a shipping source and codes.
pub open spec fn active(c: Criterion) -> bool {
    shipping_of(c.sources@).len() > 0 && c.codes@.len() > 0
}

/// The concerns one criterion raises, one per code in order of first firing.
pub open spec fn criterion_concerns(c: Criterion, raws: Seq<RawView>) -> Seq<ConcernView> {
    if active(c) {
        let mine = mine_of(c, raws);
        distinct(codes_in(mine)).map_values(|k: Seq<char>| concern_spec(c, mine, k))
    } else {
        Seq::empty()
    }
}

/// The concerns of every criterion, in order.
pub open spec fn all_concerns(cs: Seq<Criterion>, raws: Seq<RawView>) -> Seq<ConcernView>
    decreases cs.len(),
{
    if cs.len() == 0 {
        Seq::empty()
    } else {
        all_concerns(cs.drop_last(), raws) + criterion_concerns(cs.last(), raws)
    }
}

/// Blocking and major concerns go to the major list.
pub open spec fn is_major(s: ReviewSeverity) -> bool {
    s == ReviewSeverity::Blocking || s == ReviewSeverity::Major
}

pub open spec fn majors(cv: Seq<ConcernView>) -> Seq<ConcernView>
    decreases cv.len(),
{
    if cv.len() == 0 {
        Seq::empty()
    } else {
        majors(cv.drop_last()) + if is_major(cv.last().severity) {
            seq![cv.last()]
        } else {
            Seq::empty()
        }
    }
}

pub open spec fn minors(cv: Seq<ConcernView>) -> Seq<ConcernView>
    decreases cv.len(),
{
    if cv.len() == 0 {
        Seq::empty()
    } else {
        minors(cv.drop_last()) + if !is_major(cv.last().severity) {
            seq![cv.last()]
        } else {
            Seq::empty()
        }
    }
}

/// The concerns that quote what they rest on.
pub open spec fn quoted(cv: Seq<ConcernView>) -> Seq<ConcernView>
    decreases cv.len(),
{
    if cv.len() == 0 {
        Seq::empty()
    } else {
        quoted(cv.drop_last()) + if cv.last().spans.len() > 0 {
            seq![cv.last()]
        } else {
            Seq::empty()
        }
    }
}

/// The refusal recorded for a concern that quotes nothing.
pub open spec fn refusal_line(c: ConcernView) -> Seq<char> {
    c.criterion + " / "@ + c.code + ": refused — this lens requires every concern to quote what it rests on, and this one carried nothing"@
}

/// The refusals of the concerns that quote nothing, in order.
pub open spec fn refused_lines(cv: Seq<ConcernView>) -> Seq<Seq<char>>
    decreases cv.len(),
{
    if cv.len() == 0 {
        Seq::empty()
    } else {
        refused_lines(cv.drop_last()) + if cv.last().spans.len() == 0 {
            seq![refusal_line(cv.last())]
        } else {
            Seq::empty()
        }
    }
}

/// The criterion's codes that executed.
pub open spec fn ran_codes(codes: Seq<Seq<char>>, executed: Seq<Seq<char>>) -> Seq<Seq<char>>
    decreases codes.len(),
{
    if codes.len() == 0 {
        Seq::empty()
    } else {
        ran_codes(codes.drop_last(), executed) + if executed.contains(codes.last()) {
            seq![codes.last()]
        } else {
            Seq::empty()
        }
    }
}

/// The criterion's codes that did not execute.
pub open spec fn skipped_codes(codes: Seq<Seq<char>>, executed: Seq<Seq<char>>) -> Seq<Seq<char>>
    decreases codes.len(),
{
    if codes.len() == 0 {
        Seq::empty()
    } else {
        skipped_codes(codes.drop_last(), executed) + if !executed.contains(codes.last()) {
            seq![codes.last()]
        } else {
            Seq::empty()
        }
    }
}

/// What happened to a criterion.
pub open spec fn outcome_spec(c: Criterion, raws: Seq<RawView>, executed: Seq<Seq<char>>) -> (Seq<char>, StateView, nat) {
    let sh = shipping_of(c.sources@);
    if sh.len() == 0 {
        (c.name@, StateView::NoShippingSource(source_reasons(c.sources@)), 0)
    } else if c.codes@.len() == 0 {
        (c.name@, StateView::ReportedInComplianceSection("decided by the journal's own requirement rows ("@ + source_names(sh) + "); those appear under journal-specific compliance below, not as a concern here"@), 0)
    } else {
        let sk = skipped_codes(views(c.codes@), executed);
        (c.name@, if sk.len() == 0 {
            StateView::Evaluated
        } else {
            StateView::SourceNotRun(join(sk, ", "@) + " did not run on this manuscript — the producer declined, had nothing to examine, or its own gate turned it away — so nothing here is either a concern or a strength"@)
        }, mine_of(c, raws).len())
    }
}

/// **A strength requires every check of the criterion to have executed and
/// none to have fired**, and it says what ran rather than asserting the
/// good case.
pub open spec fn strength_spec(c: Criterion, raws: Seq<RawView>, executed: Seq<Seq<char>>) -> Option<Seq<char>> {
    if active(c) && mine_of(c, raws).len() == 0 && skipped_codes(views(c.codes@), executed).len() == 0 {
        let ran = ran_codes(views(c.codes@), executed);
        let band = band_of(c.row);
        Some(c.name@ + ": "@ + decimal(ran.len()) + " of this criterion's check(s) ran — "@ + join(ran, ", "@)
            + " — reading "@ + source_names(shipping_of(c.sources@)) + ", and none fired. The Risk Assessment Table's low-risk description of the \""@ + band.label@
            + "\" row is \""@ + band.compliant@ + "\" — this is what the checks that ran did not contradict, not a positive finding that the description holds."@)
    } else {
        None
    }
}

/// The strengths of every criterion, in order.
pub open spec fn strengths_spec(cs: Seq<Criterion>, raws: Seq<RawView>, executed: Seq<Seq<char>>) -> Seq<Seq<char>>
    decreases cs.len(),
{
    if cs.len() == 0 {
        Seq::empty()
    } else {
        strengths_spec(cs.drop_last(), raws, executed) + match strength_spec(cs.last(), raws, executed) {
            Some(s) => seq![s],
            None => Seq::empty(),
        }
    }
}

// ---------------------------------------------------------------------------
// One criterion
// ---------------------------------------------------------------------------

fn code_listed(codes: &Vec<&'static str>, code: &str) -> (r: bool)
    ensures
        r == views(codes@).contains(code@),
{
    let mut i: usize = 0;
    while i < codes.len()
        invariant
            i <= codes@.len(),
            forall|j: int| 0 <= j < i ==> views(codes@)[j] != code@,
        decreases codes@.len() - i,
    {
        if str_eq(codes[i], code) {
            assert(views(codes@)[i as int] == code@);
            return true;
        }
        i += 1;
    }
    false
}

fn source_listed(srcs: &Vec<LensSource>, s: LensSource) -> (r: bool)
    ensures
        r == srcs@.contains(s),
{
    let mut i: usize = 0;
    while i < srcs.len()
        invariant
            i <= srcs@.len(),
            forall|j: int| 0 <= j < i ==> srcs@[j] != s,
        decreases srcs@.len() - i,
    {
        if srcs[i] == s {
            return true;
        }
        i += 1;
    }
    false
}

pub(crate) fn string_listed(v: &Vec<String>, x: &str) -> (r: bool)
    ensures
        r == strs(v@).contains(x@),
{
    let mut i: usize = 0;
    while i < v.len()
        invariant
            i <= v@.len(),
            forall|j: int| 0 <= j < i ==> strs(v@)[j] != x@,
        decreases v@.len() - i,
    {
        if str_eq(v[i].as_str(), x) {
            assert(strs(v@)[i as int] == x@);
            return true;
        }
        i += 1;
    }
    false
}

/// The positions of the findings a criterion claims.
fn mine_positions(c: &Criterion, raws: &Vec<Raw>) -> (r: Vec<usize>)
    ensures
        forall|j: int| 0 <= j < r@.len() ==> r@[j] < raws@.len(),
        r@.map_values(|i: usize| raws_view(raws@)[i as int]) == mine_of(*c, raws_view(raws@)),
{
    let ghost rv = raws_view(raws@);
    let mut out: Vec<usize> = Vec::new();
    let mut i: usize = 0;
    while i < raws.len()
        invariant
            i <= raws@.len(),
            rv == raws_view(raws@),
            forall|j: int| 0 <= j < out@.len() ==> out@[j] < i,
            out@.map_values(|m: usize| rv[m as int]) == mine_of(*c, rv.subrange(0, i as int)),
        decreases raws@.len() - i,
    {
        let ghost before = out@.map_values(|m: usize| rv[m as int]);
        assert(rv.subrange(0, i + 1).drop_last() =~= rv.subrange(0, i as int));
        assert(rv.subrange(0, i + 1).last() == raws@[i as int]@);
        if code_listed(&c.codes, raws[i].code.as_str()) && source_listed(&c.sources, raws[i].source) {
            out.push(i);
            assert(out@.map_values(|m: usize| rv[m as int]) =~= before.push(rv[i as int]));
        }
        i += 1;
        assert(out@.map_values(|m: usize| rv[m as int]) =~= mine_of(*c, rv.subrange(0, i as int)));
    }
    assert(rv.subrange(0, raws@.len() as int) =~= rv);
    out
}

fn build_concern(c: &Criterion, raws: &Vec<Raw>, mine: &Vec<usize>, code: &str) -> (r: Concern)
    requires
        forall|j: int| 0 <= j < mine@.len() ==> mine@[j] < raws@.len(),
        with_code(mine@.map_values(|i: usize| raws_view(raws@)[i as int]), code@).len() > 0,
    ensures
        r@ == concern_spec(*c, mine@.map_values(|i: usize| raws_view(raws@)[i as int]), code@),
{
    let ghost rv = raws_view(raws@);
    let ghost mv = mine@.map_values(|i: usize| rv[i as int]);
    let mut count: usize = 0;
    let mut first: usize = 0;
    let mut spans: Vec<String> = Vec::new();
    let mut locations: Vec<Location> = Vec::new();
    let mut p: usize = 0;
    assert(mv.subrange(0, 0) =~= Seq::<RawView>::empty());
    while p < mine.len()
        invariant
            p <= mine@.len(),
            rv == raws_view(raws@),
            mv == mine@.map_values(|i: usize| rv[i as int]),
            forall|j: int| 0 <= j < mine@.len() ==> mine@[j] < raws@.len(),
            count == with_code(mv.subrange(0, p as int), code@).len(),
            count <= p,
            count > 0 ==> first < raws@.len() && rv[first as int] == with_code(mv.subrange(0, p as int), code@)[0],
            strs(spans@) == spans_of(with_code(mv.subrange(0, p as int), code@)),
            locations@ == locations_of(with_code(mv.subrange(0, p as int), code@)),
        decreases mine@.len() - p,
    {
        let x = &raws[mine[p]];
        let ghost w = with_code(mv.subrange(0, p as int), code@);
        assert(mv.subrange(0, p + 1).drop_last() =~= mv.subrange(0, p as int));
        assert(mv[p as int] == x@);
        if str_eq(x.code.as_str(), code) {
            let ghost w2 = w.push(x@);
            assert(with_code(mv.subrange(0, p + 1), code@) == w2);
            assert(w2.drop_last() =~= w);
            if count == 0 {
                first = mine[p];
            }
            count += 1;
            let ghost sb = strs(spans@);
            match &x.span {
                Some(s) => {
                    spans.push(s.clone());
                    assert(strs(spans@) =~= sb.push(s@));
                },
                None => {},
            }
            match x.location {
                Some(l) => {
                    locations.push(l);
                },
                None => {},
            }
            assert(strs(spans@) =~= spans_of(w2));
            assert(locations@ =~= locations_of(w2));
        } else {
            assert(with_code(mv.subrange(0, p + 1), code@) =~= w);
        }
        p += 1;
    }
    assert(mv.subrange(0, mine@.len() as int) =~= mv);
    let x = &raws[first];
    let rule = severity_rule(code);
    let severity = match rule {
        Some(rr) => rr.severity,
        None => DEFAULT_SEVERITY,
    };
    let summary = raised_at_phrase(x.summary.as_str(), count, true);
    let mut t = trail(x.source, c.name, &rule, code);
    let ghost tv = t@.map_values(|s: TrailStep| step_view(s));
    if spans.len() > 0 {
        let mut d = owned("The manuscript's own sentence(s), ");
        push_usize(&mut d, spans.len());
        push_str(&mut d, " of them: ");
        let joined = join_strings(&spans, "  ||  ");
        push_str(&mut d, joined.as_str());
        assert(tv.len() == 3);
        let ghost t0 = t@;
        let step = TrailStep { stage: owned("evidence"), detail: d };
        let ghost sv = step_view(step);
        t.insert(1, step);
        proof {
            assert(t@ == t0.insert(1, step));
            assert(t@.len() == 4);
            assert(t@[0] == t0[0]);
            assert(t@[2] == t0[1]);
            assert(t@[3] == t0[2]);
            assert(step_view(t@[1]) == sv);
        }
        assert(t@.map_values(|s: TrailStep| step_view(s)) =~= seq![tv[0], ("evidence"@, evidence_text(strs(spans@))), tv[1], tv[2]]);
    }
    let it = Concern {
        criterion: owned(c.name),
        source: x.source,
        code: owned(code),
        severity,
        summary,
        occurrence_unit: owned(occurrence_unit(x.source)),
        occurrences: count,
        spans,
        locations,
        trail: t,
        uncertainty: opt_owned(&x.uncertainty),
        required_revision: owned(c.action),
    };
    assert(it@ =~= concern_spec(*c, mv, code@));
    it
}

/// Whether a code executed.
fn executed_has(executed: &Vec<String>, code: &str) -> (r: bool)
    ensures
        r == strs(executed@).contains(code@),
{
    string_listed(executed, code)
}

/// The concerns, outcome and strength of one criterion.
fn criterion_review(c: &Criterion, raws: &Vec<Raw>, executed: &Vec<String>) -> (r: (Vec<Concern>, CriterionOutcome, Option<String>))
    ensures
        concerns_view(r.0@) == criterion_concerns(*c, raws_view(raws@)),
        outcome_view(r.1) == outcome_spec(*c, raws_view(raws@), strs(executed@)),
        opt_view(r.2) == strength_spec(*c, raws_view(raws@), strs(executed@)),
{
    let ghost rv = raws_view(raws@);
    let ghost ex = strs(executed@);
    let mut concerns: Vec<Concern> = Vec::new();
    assert(concerns_view(concerns@) =~= Seq::<ConcernView>::empty());
    let shipping = shipping_list(&c.sources);
    if shipping.len() == 0 {
        let detail = reasons_text(&c.sources);
        let o = CriterionOutcome {
            criterion: owned(c.name),
            state: CriterionState::NoShippingSource { detail },
            concerns: 0,
        };
        return (concerns, o, None);
    }
    if c.codes.len() == 0 {
        let mut detail = owned("decided by the journal's own requirement rows (");
        let names = names_text(&shipping);
        push_str(&mut detail, names.as_str());
        push_str(&mut detail, "); those appear under journal-specific compliance below, not as a concern here");
        let o = CriterionOutcome {
            criterion: owned(c.name),
            state: CriterionState::ReportedInComplianceSection { detail },
            concerns: 0,
        };
        return (concerns, o, None);
    }
    // Which of the criterion's checks executed.
    let mut ran: Vec<String> = Vec::new();
    let mut skipped: Vec<String> = Vec::new();
    let ghost cv = views(c.codes@);
    let mut k: usize = 0;
    assert(cv.subrange(0, 0) =~= Seq::<Seq<char>>::empty());
    while k < c.codes.len()
        invariant
            k <= c.codes@.len(),
            cv == views(c.codes@),
            ex == strs(executed@),
            strs(ran@) == ran_codes(cv.subrange(0, k as int), ex),
            strs(skipped@) == skipped_codes(cv.subrange(0, k as int), ex),
        decreases c.codes@.len() - k,
    {
        assert(cv.subrange(0, k + 1).drop_last() =~= cv.subrange(0, k as int));
        assert(cv.subrange(0, k + 1).last() == c.codes@[k as int]@);
        let ghost rb = strs(ran@);
        let ghost sb = strs(skipped@);
        if executed_has(executed, c.codes[k]) {
            ran.push(owned(c.codes[k]));
            assert(strs(ran@) =~= rb.push(c.codes@[k as int]@));
            assert(strs(skipped@) =~= sb + Seq::<Seq<char>>::empty());
        } else {
            skipped.push(owned(c.codes[k]));
            assert(strs(skipped@) =~= sb.push(c.codes@[k as int]@));
            assert(strs(ran@) =~= rb + Seq::<Seq<char>>::empty());
        }
        k += 1;
    }
    assert(cv.subrange(0, c.codes@.len() as int) =~= cv);
    // One concern per code, in order of first firing.
    let mine = mine_positions(c, raws);
    let ghost mv = mine@.map_values(|i: usize| rv[i as int]);
    let ghost mc = codes_in(mv);
    let mut seen: Vec<String> = Vec::new();
    let mut p: usize = 0;
    assert(mc.subrange(0, 0) =~= Seq::<Seq<char>>::empty());
    assert(distinct(mc.subrange(0, 0)).map_values(|q: Seq<char>| concern_spec(*c, mv, q)) =~= Seq::<ConcernView>::empty());
    while p < mine.len()
        invariant
            p <= mine@.len(),
            rv == raws_view(raws@),
            mv == mine@.map_values(|i: usize| rv[i as int]),
            mc == codes_in(mv),
            forall|j: int| 0 <= j < mine@.len() ==> mine@[j] < raws@.len(),
            strs(seen@) == distinct(mc.subrange(0, p as int)),
            concerns_view(concerns@) == distinct(mc.subrange(0, p as int)).map_values(
                |q: Seq<char>| concern_spec(*c, mv, q),
            ),
        decreases mine@.len() - p,
    {
        let code = raws[mine[p]].code.as_str();
        assert(mc.subrange(0, p + 1).drop_last() =~= mc.subrange(0, p as int));
        assert(mc.subrange(0, p + 1).last() == code@);
        if !string_listed(&seen, code) {
            proof {
                lemma_with_code_nonempty(mv, code@, p as int);
            }
            let cn = build_concern(c, raws, &mine, code);
            let ghost cb = concerns_view(concerns@);
            concerns.push(cn);
            let ghost sb = strs(seen@);
            seen.push(owned(code));
            proof {
                assert(strs(seen@) =~= sb.push(code@));
                assert(concerns_view(concerns@) =~= cb.push(cn@));
                let d = distinct(mc.subrange(0, p as int));
                assert(d.push(code@).map_values(|q: Seq<char>| concern_spec(*c, mv, q)) =~= d.map_values(
                    |q: Seq<char>| concern_spec(*c, mv, q),
                ).push(concern_spec(*c, mv, code@)));
            }
        }
        p += 1;
    }
    assert(mc.subrange(0, mine@.len() as int) =~= mc);
    let total = mine.len();
    let evaluated = skipped.len() == 0;
    let state = if evaluated {
        CriterionState::Evaluated
    } else {
        let mut d = join_strings(&skipped, ", ");
        push_str(&mut d, " did not run on this manuscript — the producer declined, had nothing to examine, or its own gate turned it away — so nothing here is either a concern or a strength");
        CriterionState::SourceNotRun { detail: d }
    };
    let strength = if total == 0 && evaluated {
        let band = c.row.band();
        let mut s = owned(c.name);
        push_str(&mut s, ": ");
        push_usize(&mut s, ran.len());
        push_str(&mut s, " of this criterion's check(s) ran — ");
        let rj = join_strings(&ran, ", ");
        push_str(&mut s, rj.as_str());
        push_str(&mut s, " — reading ");
        let names = names_text(&shipping);
        push_str(&mut s, names.as_str());
        push_str(&mut s, ", and none fired. The Risk Assessment Table's low-risk description of the \"");
        push_str(&mut s, band.label);
        push_str(&mut s, "\" row is \"");
        push_str(&mut s, band.compliant);
        push_str(&mut s, "\" — this is what the checks that ran did not contradict, not a positive finding that the description holds.");
        Some(s)
    } else {
        None
    };
    let o = CriterionOutcome { criterion: owned(c.name), state, concerns: total };
    (concerns, o, strength)
}

proof fn lemma_with_code_nonempty(mv: Seq<RawView>, code: Seq<char>, p: int)
    requires
        0 <= p < mv.len(),
        mv[p].code == code,
    ensures
        with_code(mv, code).len() > 0,
    decreases mv.len(),
{
    if p < mv.len() - 1 {
        lemma_with_code_nonempty(mv.drop_last(), code, p);
    }
}

// ---------------------------------------------------------------------------
// The journal's own requirements, and the report's summary sentences
// ---------------------------------------------------------------------------

pub const NO_JOURNAL_READ: &'static str = "No journal requirements were ingested for this run, so nothing here is a statement about any journal. An empty compliance section is not compliance.";

/// How a requirement row renders in the compliance section: undecided,
/// met, or flagged, with the journal's sentence.
pub open spec fn compliance_line(v: RowView) -> Seq<char> {
    "["@ + (if v.unevaluable {
        "UNEVALUABLE"@
    } else if v.passed {
        "OK"@
    } else {
        "FLAG"@
    }) + "] "@ + v.requirement + match v.source_span {
        Some(s) => "\n    the journal's own sentence: "@ + s,
        None => Seq::empty(),
    }
}

/// The compliance section: the journal's rows (or the statement that none
/// were read), then each evaluated standard's coverage.
pub open spec fn compliance_spec(journal_context: bool, input: LensInput) -> Seq<Seq<char>> {
    if journal_context {
        (match input.checklist {
            Some(items) => rows_view(items@).map_values(|v: RowView| compliance_line(v)),
            None => seq![NO_JOURNAL_READ@],
        }) + match input.standards {
            Some(es) => es@.map_values(
                |e: crate::report::StandardEvaluation| "["@ + standard_name(e.standard) + "] "@ + coverage_spec(e),
            ),
            None => Seq::empty(),
        }
    } else {
        Seq::empty()
    }
}

/// How many concerns are blocking.
pub open spec fn count_blocking(cv: Seq<ConcernView>) -> nat
    decreases cv.len(),
{
    if cv.len() == 0 {
        0
    } else {
        count_blocking(cv.drop_last()) + if cv.last().severity == ReviewSeverity::Blocking {
            1nat
        } else {
            0nat
        }
    }
}

/// How many criteria were not evaluated.
pub open spec fn count_unevaluated(os: Seq<(Seq<char>, StateView, nat)>) -> nat
    decreases os.len(),
{
    if os.len() == 0 {
        0
    } else {
        count_unevaluated(os.drop_last()) + if os.last().1 is Evaluated {
            0nat
        } else {
            1nat
        }
    }
}

/// The overall assessment: counts, what was not evaluated, and no
/// recommendation.
pub open spec fn assessment_spec(
    major: Seq<ConcernView>,
    minor: Seq<ConcernView>,
    os: Seq<(Seq<char>, StateView, nat)>,
    refused: nat,
) -> Seq<char> {
    let blocking = count_blocking(major);
    let unevaluated = count_unevaluated(os);
    "Under this lens: "@ + decimal(blocking) + " blocking, "@ + decimal((major.len() - blocking) as nat) + " major and "@
        + decimal(minor.len()) + " minor concern(s) across "@ + decimal((os.len() - unevaluated) as nat)
        + " criterion/criteria that were evaluated. "@ + decimal(unevaluated) + " of the "@ + decimal(os.len()) + " criteria this lens declares were NOT evaluated and are listed with their reasons. "@
        + decimal(refused) + " finding(s) were REFUSED by the absence rule and are listed with theirs. **No recommendation is made here**: Accept / Minor / Major / Reject is the editor layer's output (§5.7), which weighs every lens together and is not built."@
}

/// The title as extracted, trimmed and cut at 120 characters.
pub open spec fn title_text(t: Option<String>) -> Seq<char> {
    match t {
        Some(s) => {
            let tt = trim(s@);
            if tt.len() > 120 {
                tt.subrange(0, 120) + "…"@
            } else {
                tt
            }
        },
        None => "(no title extracted)"@,
    }
}

/// What the lens can say of novelty claims.
pub open spec fn novelty_text(n: Option<&[crate::inputs::NoveltyAssessment]>) -> Seq<char> {
    match n {
        None => "Novelty claims were not extracted for this run."@,
        Some(a) => if a@.len() == 0 {
            "The manuscript states no novelty claim this system recognises."@
        } else {
            "The manuscript states "@ + decimal(a@.len()) + " novelty claim(s), assessed separately."@
        },
    }
}

/// **Not a summary of the contribution**: what is visible, and the absence
/// of the judgement named.
pub open spec fn contribution_spec(input: LensInput) -> Seq<char> {
    "Title as extracted: "@ + title_text(input.extraction.title) + ". "@ + novelty_text(input.novelty) + " **What the contribution amounts to is not judged here** — that is the synthesis cluster's output (§4.4 Tier 4), and a deterministic lens asserting it would be inventing a judgement."@
}

/// Whether the lens reads any shipping source at all.
pub open spec fn lens_runs(cs: Seq<Criterion>) -> bool {
    exists|s: LensSource| read_by(cs, s) && lens_source_state(s) == SourceState::Shipping
}

/// What a lens that reads no shipping source says instead of a review.
pub open spec fn not_applicable_text(cs: Seq<Criterion>) -> Seq<char> {
    "This lens reads only sources that do not exist, so it has nothing to review: "@ + join(
        reads_spec(cs).map_values(|s: LensSource| lens_source_name(s) + " ("@ + lens_source_note(s) + ")"@),
        "; "@,
    ) + ". An empty report from it would say the manuscript passed checks nobody ran."@
}

/// Every criterion's outcome, in order.
pub open spec fn outcomes_spec(cs: Seq<Criterion>, raws: Seq<RawView>, executed: Seq<Seq<char>>) -> Seq<(Seq<char>, StateView, nat)> {
    cs.map_values(|c: Criterion| outcome_spec(c, raws, executed))
}

fn line_for(v: &crate::report::ChecklistItem) -> (r: String)
    ensures
        r@ == compliance_line(v@),
{
    let mut s = owned("[");
    if v.unevaluable {
        push_str(&mut s, "UNEVALUABLE");
    } else if v.passed {
        push_str(&mut s, "OK");
    } else {
        push_str(&mut s, "FLAG");
    }
    push_str(&mut s, "] ");
    push_str(&mut s, v.requirement.as_str());
    match &v.source_span {
        Some(sp) => {
            push_str(&mut s, "\n    the journal's own sentence: ");
            push_str(&mut s, sp.as_str());
        },
        None => {},
    }
    s
}

fn compliance_lines(journal_context: bool, input: &LensInput) -> (r: Vec<String>)
    ensures
        strs(r@) == compliance_spec(journal_context, *input),
{
    let mut out: Vec<String> = Vec::new();
    if !journal_context {
        assert(strs(out@) =~= Seq::<Seq<char>>::empty());
        return out;
    }
    match input.checklist {
        Some(items) => {
            let ghost lv = rows_view(items@).map_values(|v: RowView| compliance_line(v));
            let mut i: usize = 0;
            assert(strs(out@) =~= lv.subrange(0, 0));
            while i < items.len()
                invariant
                    i <= items@.len(),
                    lv == rows_view(items@).map_values(|v: RowView| compliance_line(v)),
                    strs(out@) == lv.subrange(0, i as int),
                decreases items@.len() - i,
            {
                let line = line_for(&items[i]);
                let ghost b = strs(out@);
                out.push(line);
                assert(strs(out@) =~= b.push(lv[i as int]));
                assert(lv.subrange(0, i + 1) =~= lv.subrange(0, i as int).push(lv[i as int]));
                i += 1;
            }
            assert(lv.subrange(0, items@.len() as int) =~= lv);
        },
        None => {
            out.push(owned(NO_JOURNAL_READ));
            assert(strs(out@) =~= seq![NO_JOURNAL_READ@]);
        },
    }
    let ghost head = strs(out@);
    match input.standards {
        Some(es) => {
            let ghost ev = es@.map_values(
                |e: crate::report::StandardEvaluation| "["@ + standard_name(e.standard) + "] "@ + coverage_spec(e),
            );
            let mut i: usize = 0;
            assert(head + ev.subrange(0, 0) =~= head);
            while i < es.len()
                invariant
                    i <= es@.len(),
                    ev == es@.map_values(
                        |e: crate::report::StandardEvaluation| "["@ + standard_name(e.standard) + "] "@ + coverage_spec(e),
                    ),
                    strs(out@) == head + ev.subrange(0, i as int),
                decreases es@.len() - i,
            {
                let mut line = owned("[");
                push_str(&mut line, es[i].standard.as_str());
                push_str(&mut line, "] ");
                let cov = es[i].coverage_phrase();
                push_str(&mut line, cov.as_str());
                let ghost b = strs(out@);
                out.push(line);
                assert(strs(out@) =~= b.push(ev[i as int]));
                assert(ev.subrange(0, i + 1) =~= ev.subrange(0, i as int).push(ev[i as int]));
                i += 1;
            }
            assert(ev.subrange(0, es@.len() as int) =~= ev);
        },
        None => {
            assert(head + Seq::<Seq<char>>::empty() =~= head);
        },
    }
    out
}

fn assessment(major: &Vec<Concern>, minor: &Vec<Concern>, os: &Vec<CriterionOutcome>, refused: usize) -> (r: String)
    ensures
        r@ == assessment_spec(concerns_view(major@), concerns_view(minor@), outcomes_view(os@), refused as nat),
{
    let ghost mv = concerns_view(major@);
    let mut blocking: usize = 0;
    let mut i: usize = 0;
    while i < major.len()
        invariant
            i <= major@.len(),
            mv == concerns_view(major@),
            blocking == count_blocking(mv.subrange(0, i as int)),
            blocking <= i,
        decreases major@.len() - i,
    {
        assert(mv.subrange(0, i + 1).drop_last() =~= mv.subrange(0, i as int));
        if major[i].severity == ReviewSeverity::Blocking {
            blocking += 1;
        }
        i += 1;
    }
    assert(mv.subrange(0, major@.len() as int) =~= mv);
    let ghost ov = outcomes_view(os@);
    let mut unevaluated: usize = 0;
    let mut j: usize = 0;
    while j < os.len()
        invariant
            j <= os@.len(),
            ov == outcomes_view(os@),
            unevaluated == count_unevaluated(ov.subrange(0, j as int)),
            unevaluated <= j,
        decreases os@.len() - j,
    {
        assert(ov.subrange(0, j + 1).drop_last() =~= ov.subrange(0, j as int));
        match os[j].state {
            CriterionState::Evaluated => {},
            _ => {
                unevaluated += 1;
            },
        }
        j += 1;
    }
    assert(ov.subrange(0, os@.len() as int) =~= ov);
    let mut s = owned("Under this lens: ");
    push_usize(&mut s, blocking);
    push_str(&mut s, " blocking, ");
    push_usize(&mut s, major.len() - blocking);
    push_str(&mut s, " major and ");
    push_usize(&mut s, minor.len());
    push_str(&mut s, " minor concern(s) across ");
    push_usize(&mut s, os.len() - unevaluated);
    push_str(&mut s, " criterion/criteria that were evaluated. ");
    push_usize(&mut s, unevaluated);
    push_str(&mut s, " of the ");
    push_usize(&mut s, os.len());
    push_str(&mut s, " criteria this lens declares were NOT evaluated and are listed with their reasons. ");
    push_usize(&mut s, refused);
    push_str(&mut s, " finding(s) were REFUSED by the absence rule and are listed with theirs. **No recommendation is made here**: Accept / Minor / Major / Reject is the editor layer's output (§5.7), which weighs every lens together and is not built.");
    s
}

fn contribution(input: &LensInput) -> (r: String)
    ensures
        r@ == contribution_spec(*input),
{
    let mut s = owned("Title as extracted: ");
    match &input.extraction.title {
        Some(t) => {
            let cs = crate::text::chars_of(t.as_str());
            let tt = crate::lines::trim_chars(&cs);
            if tt.len() > 120 {
                let cut = crate::statement::slice_chars(&tt, 0, 120);
                crate::text::push_chars(&mut s, &cut);
                push_str(&mut s, "…");
            } else {
                crate::text::push_chars(&mut s, &tt);
            }
        },
        None => push_str(&mut s, "(no title extracted)"),
    }
    push_str(&mut s, ". ");
    match input.novelty {
        None => push_str(&mut s, "Novelty claims were not extracted for this run."),
        Some(a) => {
            if a.len() == 0 {
                push_str(&mut s, "The manuscript states no novelty claim this system recognises.");
            } else {
                push_str(&mut s, "The manuscript states ");
                push_usize(&mut s, a.len());
                push_str(&mut s, " novelty claim(s), assessed separately.");
            }
        },
    }
    push_str(&mut s, " **What the contribution amounts to is not judged here** — that is the synthesis cluster's output (§4.4 Tier 4), and a deterministic lens asserting it would be inventing a judgement.");
    s
}

// ---------------------------------------------------------------------------
// The lens run
// ---------------------------------------------------------------------------

/// The outcomes of a lens that reads no shipping source.
pub open spec fn idle_outcomes(cs: Seq<Criterion>) -> Seq<(Seq<char>, StateView, nat)> {
    cs.map_values(|c: Criterion| (c.name@, StateView::NoShippingSource(source_reasons(c.sources@)), 0nat))
}

/// The major concerns a report lists under a policy.
pub open spec fn kept(cv: Seq<ConcernView>, citation_required: bool) -> Seq<ConcernView> {
    if citation_required {
        quoted(cv)
    } else {
        cv
    }
}

/// The revisions the concerns ask for, each once, majors first.
pub open spec fn revisions_spec(all: Seq<ConcernView>) -> Seq<Seq<char>> {
    distinct((majors(all) + minors(all)).map_values(|c: ConcernView| c.required_revision))
}

/// What the policy refused, majors first.
pub open spec fn policy_spec(all: Seq<ConcernView>, citation_required: bool) -> Seq<Seq<char>> {
    if citation_required {
        refused_lines(majors(all)) + refused_lines(minors(all))
    } else {
        Seq::empty()
    }
}

fn split_by_severity(all: Vec<Concern>) -> (r: (Vec<Concern>, Vec<Concern>))
    ensures
        concerns_view(r.0@) == majors(concerns_view(all@)),
        concerns_view(r.1@) == minors(concerns_view(all@)),
{
    let ghost av = concerns_view(all@);
    let mut all = all;
    let mut major: Vec<Concern> = Vec::new();
    let mut minor: Vec<Concern> = Vec::new();
    let ghost mut i: int = 0;
    assert(concerns_view(all@) =~= av.subrange(0, av.len() as int));
    assert(concerns_view(major@) =~= majors(av.subrange(0, 0)));
    assert(concerns_view(minor@) =~= minors(av.subrange(0, 0)));
    while all.len() > 0
        invariant
            0 <= i <= av.len(),
            concerns_view(all@) == av.subrange(i, av.len() as int),
            concerns_view(major@) == majors(av.subrange(0, i)),
            concerns_view(minor@) == minors(av.subrange(0, i)),
        decreases all@.len(),
    {
        let ghost rest = all@;
        let c = all.remove(0);
        proof {
            assert(concerns_view(rest) == av.subrange(i, av.len() as int));
            assert(concerns_view(rest).len() == rest.len());
            assert(i < av.len());
            assert(av.subrange(i, av.len() as int)[0] == av[i]);
            assert(concerns_view(rest)[0] == c@);
            assert(all@ =~= rest.subrange(1, rest.len() as int));
            assert(concerns_view(all@) =~= concerns_view(rest).subrange(1, rest.len() as int));
            assert(concerns_view(all@) =~= av.subrange(i + 1, av.len() as int));
            assert(av.subrange(0, i + 1).drop_last() =~= av.subrange(0, i));
            assert(av.subrange(0, i + 1).last() == c@);
        }
        let ghost cv = c@;
        if c.severity == ReviewSeverity::Blocking || c.severity == ReviewSeverity::Major {
            let ghost b = concerns_view(major@);
            major.push(c);
            assert(concerns_view(major@) =~= b.push(cv));
            assert(concerns_view(minor@) =~= minors(av.subrange(0, i + 1)));
        } else {
            let ghost b = concerns_view(minor@);
            minor.push(c);
            assert(concerns_view(minor@) =~= b.push(cv));
            assert(concerns_view(major@) =~= majors(av.subrange(0, i + 1)));
        }
        proof {
            i = i + 1;
        }
    }
    assert(av.subrange(0, i) =~= av);
    (major, minor)
}

fn apply_policy(cv: Vec<Concern>, refused: &mut Vec<String>) -> (r: Vec<Concern>)
    ensures
        concerns_view(r@) == quoted(concerns_view(cv@)),
        strs(final(refused)@) == strs(old(refused)@) + refused_lines(concerns_view(cv@)),
{
    let ghost av = concerns_view(cv@);
    let ghost r0 = strs(refused@);
    let mut cv = cv;
    let mut out: Vec<Concern> = Vec::new();
    let ghost mut i: int = 0;
    assert(concerns_view(cv@) =~= av.subrange(0, av.len() as int));
    assert(concerns_view(out@) =~= quoted(av.subrange(0, 0)));
    assert(r0 + refused_lines(av.subrange(0, 0)) =~= r0);
    while cv.len() > 0
        invariant
            0 <= i <= av.len(),
            concerns_view(cv@) == av.subrange(i, av.len() as int),
            concerns_view(out@) == quoted(av.subrange(0, i)),
            strs(refused@) == r0 + refused_lines(av.subrange(0, i)),
        decreases cv@.len(),
    {
        let ghost rest = cv@;
        let c = cv.remove(0);
        proof {
            assert(concerns_view(rest) == av.subrange(i, av.len() as int));
            assert(concerns_view(rest).len() == rest.len());
            assert(i < av.len());
            assert(av.subrange(i, av.len() as int)[0] == av[i]);
            assert(concerns_view(rest)[0] == c@);
            assert(cv@ =~= rest.subrange(1, rest.len() as int));
            assert(concerns_view(cv@) =~= concerns_view(rest).subrange(1, rest.len() as int));
            assert(concerns_view(cv@) =~= av.subrange(i + 1, av.len() as int));
            assert(av.subrange(0, i + 1).drop_last() =~= av.subrange(0, i));
            assert(av.subrange(0, i + 1).last() == c@);
        }
        let ghost v = c@;
        if c.spans.len() == 0 {
            let mut line = c.criterion.clone();
            push_str(&mut line, " / ");
            push_str(&mut line, c.code.as_str());
            push_str(&mut line, ": refused — this lens requires every concern to quote what it rests on, and this one carried nothing");
            let ghost b = strs(refused@);
            refused.push(line);
            assert(strs(refused@) =~= b.push(refusal_line(v)));
            assert(concerns_view(out@) =~= quoted(av.subrange(0, i + 1)));
        } else {
            let ghost b = concerns_view(out@);
            out.push(c);
            assert(concerns_view(out@) =~= b.push(v));
            assert(strs(refused@) =~= r0 + refused_lines(av.subrange(0, i + 1)));
        }
        proof {
            i = i + 1;
        }
    }
    assert(av.subrange(0, i) =~= av);
    out
}

fn add_revisions(cs: &Vec<Concern>, acc: &mut Vec<String>)
    ensures
        strs(final(acc)@) == distinct_onto(strs(old(acc)@), concerns_view(cs@).map_values(|c: ConcernView| c.required_revision)),
{
    let ghost rv = concerns_view(cs@).map_values(|c: ConcernView| c.required_revision);
    let ghost a0 = strs(acc@);
    let mut i: usize = 0;
    while i < cs.len()
        invariant
            i <= cs@.len(),
            rv == concerns_view(cs@).map_values(|c: ConcernView| c.required_revision),
            strs(acc@) == distinct_onto(a0, rv.subrange(0, i as int)),
        decreases cs@.len() - i,
    {
        let x = cs[i].required_revision.as_str();
        assert(rv.subrange(0, i + 1).drop_last() =~= rv.subrange(0, i as int));
        assert(rv.subrange(0, i + 1).last() == x@);
        if !string_listed(acc, x) {
            let ghost b = strs(acc@);
            acc.push(owned(x));
            assert(strs(acc@) =~= b.push(x@));
        }
        i += 1;
    }
    assert(rv.subrange(0, cs@.len() as int) =~= rv);
}

/// `xs` added onto `acc`, each value kept only the first time.
pub open spec fn distinct_onto(acc: Seq<Seq<char>>, xs: Seq<Seq<char>>) -> Seq<Seq<char>>
    decreases xs.len(),
{
    if xs.len() == 0 {
        acc
    } else {
        let d = distinct_onto(acc, xs.drop_last());
        if d.contains(xs.last()) {
            d
        } else {
            d.push(xs.last())
        }
    }
}

proof fn lemma_distinct_onto_concat(a: Seq<Seq<char>>, b: Seq<Seq<char>>)
    ensures
        distinct_onto(distinct_onto(Seq::empty(), a), b) == distinct(a + b),
    decreases b.len(),
{
    if b.len() == 0 {
        lemma_distinct_onto_empty(a);
        assert(a + b =~= a);
    } else {
        lemma_distinct_onto_concat(a, b.drop_last());
        assert((a + b).drop_last() =~= a + b.drop_last());
        assert((a + b).last() == b.last());
    }
}

proof fn lemma_distinct_onto_empty(a: Seq<Seq<char>>)
    ensures
        distinct_onto(Seq::empty(), a) == distinct(a),
    decreases a.len(),
{
    if a.len() > 0 {
        lemma_distinct_onto_empty(a.drop_last());
    }
}

/// **Run one lens over what the producers found.** Deterministic: no model,
/// no network. A lens with no shipping source declares itself rather than
/// producing an empty report. Otherwise every criterion gets an outcome;
/// every concern carries its spans, its source's uncertainty and a trail
/// naming the source, the criterion and the risk-table cell; a strength is
/// only reported when every check of its criterion ran and none fired; and
/// under a citation-requiring policy a concern that quotes nothing is
/// refused with the reason recorded.
pub fn review(lens: &ReviewLens, input: &LensInput) -> (r: ReviewerReport)
    ensures
        r.lens == lens.id,
        !lens_runs(lens.criteria@) ==> {
            &&& opt_view(r.not_applicable) == Some(not_applicable_text(lens.criteria@))
            &&& r.overall_assessment@ == not_applicable_text(lens.criteria@)
            &&& r.contribution@ == "Not assessed: this lens did not run."@
            &&& outcomes_view(r.criteria@) == idle_outcomes(lens.criteria@)
            &&& r.strengths@.len() == 0
            &&& r.major_concerns@.len() == 0
            &&& r.minor_concerns@.len() == 0
            &&& r.journal_compliance@.len() == 0
            &&& r.required_revisions@.len() == 0
            &&& r.absence_rejected@.len() == 0
            &&& r.policy_rejected@.len() == 0
        },
        lens_runs(lens.criteria@) ==> {
            &&& r.not_applicable is None
            &&& outcomes_view(r.criteria@) == outcomes_spec(lens.criteria@, collected_spec(*input), executed_spec(*input))
            &&& strs(r.strengths@) == strengths_spec(lens.criteria@, collected_spec(*input), executed_spec(*input))
            &&& concerns_view(r.major_concerns@) == kept(
                majors(all_concerns(lens.criteria@, collected_spec(*input))),
                lens.evidence_policy.citation_required,
            )
            &&& concerns_view(r.minor_concerns@) == kept(
                minors(all_concerns(lens.criteria@, collected_spec(*input))),
                lens.evidence_policy.citation_required,
            )
            &&& strs(r.policy_rejected@) == policy_spec(
                all_concerns(lens.criteria@, collected_spec(*input)),
                lens.evidence_policy.citation_required,
            )
            &&& strs(r.required_revisions@) == revisions_spec(all_concerns(lens.criteria@, collected_spec(*input)))
            &&& strs(r.journal_compliance@) == compliance_spec(lens.journal_context, *input)
            &&& r.absence_rejected@.len() == 0
            &&& r.overall_assessment@ == assessment_spec(
                concerns_view(r.major_concerns@),
                concerns_view(r.minor_concerns@),
                outcomes_view(r.criteria@),
                0,
            )
            &&& r.contribution@ == contribution_spec(*input)
        },
{
    let reads = lens.reads();
    let mut runs = false;
    let mut i: usize = 0;
    while i < reads.len()
        invariant
            i <= reads@.len(),
            !runs ==> forall|j: int| 0 <= j < i ==> lens_source_state(#[trigger] reads@[j]) != SourceState::Shipping,
            runs ==> lens_runs(lens.criteria@),
            forall|s: LensSource| reads@.contains(s) <==> read_by(lens.criteria@, s),
        decreases reads@.len() - i,
    {
        if reads[i].state() == SourceState::Shipping {
            assert(reads@.contains(reads@[i as int]));
            runs = true;
        }
        i += 1;
    }
    if !runs {
        assert(!lens_runs(lens.criteria@)) by {
            if lens_runs(lens.criteria@) {
                let s = choose|s: LensSource| read_by(lens.criteria@, s) && lens_source_state(s) == SourceState::Shipping;
                assert(reads@.contains(s));
                let j = choose|j: int| 0 <= j < reads@.len() && reads@[j] == s;
            }
        }
        let ghost parts = reads@.map_values(|s: LensSource| lens_source_name(s) + " ("@ + lens_source_note(s) + ")"@);
        let mut missing = String::new();
        let mut k: usize = 0;
        assert(parts.subrange(0, 0) =~= Seq::<Seq<char>>::empty());
        while k < reads.len()
            invariant
                k <= reads@.len(),
                parts == reads@.map_values(|s: LensSource| lens_source_name(s) + " ("@ + lens_source_note(s) + ")"@),
                missing@ == join(parts.subrange(0, k as int), "; "@),
            decreases reads@.len() - k,
        {
            let ghost before = missing@;
            if k > 0 {
                push_str(&mut missing, "; ");
            }
            push_str(&mut missing, reads[k].as_str());
            push_str(&mut missing, " (");
            push_str(&mut missing, reads[k].note());
            push_str(&mut missing, ")");
            proof {
                let q = parts.subrange(0, k + 1);
                assert(q.drop_last() =~= parts.subrange(0, k as int));
                if k > 0 {
                    assert(missing@ =~= before + "; "@ + q.last());
                } else {
                    assert(missing@ =~= before + q.last());
                }
            }
            k += 1;
        }
        assert(parts.subrange(0, reads@.len() as int) =~= parts);
        let mut text = owned("This lens reads only sources that do not exist, so it has nothing to review: ");
        push_str(&mut text, missing.as_str());
        push_str(&mut text, ". An empty report from it would say the manuscript passed checks nobody ran.");
        let mut criteria: Vec<CriterionOutcome> = Vec::new();
        let mut c: usize = 0;
        let ghost cs = lens.criteria@;
        assert(outcomes_view(criteria@) =~= idle_outcomes(cs.subrange(0, 0)));
        while c < lens.criteria.len()
            invariant
                c <= lens.criteria@.len(),
                cs == lens.criteria@,
                outcomes_view(criteria@) == idle_outcomes(cs.subrange(0, c as int)),
            decreases lens.criteria@.len() - c,
        {
            let detail = reasons_text(&lens.criteria[c].sources);
            let ghost b = outcomes_view(criteria@);
            let o = CriterionOutcome {
                criterion: owned(lens.criteria[c].name),
                state: CriterionState::NoShippingSource { detail },
                concerns: 0,
            };
            let ghost ov = outcome_view(o);
            criteria.push(o);
            proof {
                let f = |c: Criterion| (c.name@, StateView::NoShippingSource(source_reasons(c.sources@)), 0nat);
                assert(ov == f(cs[c as int]));
                assert(outcomes_view(criteria@) =~= b.push(ov));
                assert(cs.subrange(0, c + 1) =~= cs.subrange(0, c as int).push(cs[c as int]));
                assert(cs.subrange(0, c + 1).map_values(f) =~= cs.subrange(0, c as int).map_values(f).push(f(cs[c as int])));
            }
            assert(outcomes_view(criteria@) =~= idle_outcomes(cs.subrange(0, c + 1)));
            c += 1;
        }
        assert(cs.subrange(0, cs.len() as int) =~= cs);
        return ReviewerReport {
            lens: lens.id,
            overall_assessment: text.clone(),
            contribution: owned("Not assessed: this lens did not run."),
            strengths: Vec::new(),
            major_concerns: Vec::new(),
            minor_concerns: Vec::new(),
            journal_compliance: Vec::new(),
            required_revisions: Vec::new(),
            criteria,
            not_applicable: Some(text),
            absence_rejected: Vec::new(),
            policy_rejected: Vec::new(),
        };
    }
    let (raws, refusals, executed) = collect(input);
    let ghost rv = raws_view(raws@);
    let ghost ev = strs(executed@);
    let ghost cs = lens.criteria@;
    let mut all: Vec<Concern> = Vec::new();
    let mut criteria: Vec<CriterionOutcome> = Vec::new();
    let mut strengths: Vec<String> = Vec::new();
    let mut c: usize = 0;
    assert(concerns_view(all@) =~= all_concerns(cs.subrange(0, 0), rv));
    assert(outcomes_view(criteria@) =~= outcomes_spec(cs.subrange(0, 0), rv, ev));
    assert(strs(strengths@) =~= strengths_spec(cs.subrange(0, 0), rv, ev));
    while c < lens.criteria.len()
        invariant
            c <= lens.criteria@.len(),
            cs == lens.criteria@,
            rv == raws_view(raws@),
            ev == strs(executed@),
            concerns_view(all@) == all_concerns(cs.subrange(0, c as int), rv),
            outcomes_view(criteria@) == outcomes_spec(cs.subrange(0, c as int), rv, ev),
            strs(strengths@) == strengths_spec(cs.subrange(0, c as int), rv, ev),
        decreases lens.criteria@.len() - c,
    {
        let (mut cc, o, st) = criterion_review(&lens.criteria[c], &raws, &executed);
        assert(cs.subrange(0, c + 1).drop_last() =~= cs.subrange(0, c as int));
        assert(cs.subrange(0, c + 1).last() == cs[c as int]);
        let ghost a0 = all@;
        let ghost a1 = cc@;
        all.append(&mut cc);
        assert(concerns_view(all@) =~= concerns_view(a0) + concerns_view(a1));
        let ghost ob = outcomes_view(criteria@);
        let ghost ov = outcome_view(o);
        criteria.push(o);
        proof {
            let f = |c: Criterion| outcome_spec(c, rv, ev);
            assert(ov == f(cs[c as int]));
            assert(outcomes_view(criteria@) =~= ob.push(ov));
            assert(cs.subrange(0, c + 1) =~= cs.subrange(0, c as int).push(cs[c as int]));
            assert(cs.subrange(0, c + 1).map_values(f) =~= cs.subrange(0, c as int).map_values(f).push(f(cs[c as int])));
        }
        assert(outcomes_view(criteria@) =~= outcomes_spec(cs.subrange(0, c + 1), rv, ev));
        let ghost sb = strs(strengths@);
        match st {
            Some(s) => {
                strengths.push(s);
                assert(strs(strengths@) =~= sb.push(s@));
            },
            None => {
                assert(strs(strengths@) =~= sb + Seq::<Seq<char>>::empty());
            },
        }
        c += 1;
    }
    assert(cs.subrange(0, cs.len() as int) =~= cs);
    let ghost allv = concerns_view(all@);
    let (major, minor) = split_by_severity(all);
    let mut revisions: Vec<String> = Vec::new();
    assert(strs(revisions@) =~= Seq::<Seq<char>>::empty());
    add_revisions(&major, &mut revisions);
    add_revisions(&minor, &mut revisions);
    proof {
        let f = |c: ConcernView| c.required_revision;
        assert((majors(allv) + minors(allv)).map_values(f) =~= majors(allv).map_values(f) + minors(allv).map_values(f));
        lemma_distinct_onto_concat(majors(allv).map_values(f), minors(allv).map_values(f));
    }
    let mut refused: Vec<String> = Vec::new();
    assert(strs(refused@) =~= Seq::<Seq<char>>::empty());
    let (major, minor) = if lens.evidence_policy.citation_required {
        let m1 = apply_policy(major, &mut refused);
        let m2 = apply_policy(minor, &mut refused);
        (m1, m2)
    } else {
        (major, minor)
    };
    let mut absence_rejected: Vec<AbsenceRejected> = Vec::new();
    let mut q: usize = 0;
    while q < refusals.len()
        invariant
            refusals@.len() == 0,
            q <= refusals@.len(),
        decreases refusals@.len() - q,
    {
        q += 1;
    }
    let journal_compliance = compliance_lines(lens.journal_context, input);
    let overall = assessment(&major, &minor, &criteria, absence_rejected.len());
    let visible = contribution(input);
    ReviewerReport {
        lens: lens.id,
        overall_assessment: overall,
        contribution: visible,
        strengths,
        major_concerns: major,
        minor_concerns: minor,
        journal_compliance,
        required_revisions: revisions,
        criteria,
        not_applicable: None,
        absence_rejected,
        policy_rejected: refused,
    }
}

// ---------------------------------------------------------------------------
// What each lens has to read
// ---------------------------------------------------------------------------

/// Whether a lens has anything to read.
#[derive(Debug, Clone, Copy, PartialEq, Eq, Structural)]
pub enum LensState {
    /// Every criterion has at least one shipping source.
    Runs,
    /// Some criteria have a shipping source and some do not.
    RunsPartial,
    /// No criterion has a shipping source.
    NoInputs,
}

/// One lens's inputs, measured.
#[derive(Debug)]
pub struct LensAvailability {
    pub lens: LensId,
    pub state: LensState,
    /// Criteria with at least one shipping source.
    pub sourced_criteria: Vec<String>,
    /// Criteria with none, each with the reason its sources are absent.
    pub unsourced_criteria: Vec<(String, String)>,
    /// What the lens reads, with each source's state.
    pub reads: Vec<(LensSource, SourceState)>,
}

/// The criteria with a shipping source, by name.
pub open spec fn sourced_names(cs: Seq<Criterion>) -> Seq<Seq<char>>
    decreases cs.len(),
{
    if cs.len() == 0 {
        Seq::empty()
    } else {
        sourced_names(cs.drop_last()) + if shipping_of(cs.last().sources@).len() > 0 {
            seq![cs.last().name@]
        } else {
            Seq::empty()
        }
    }
}

/// The criteria without one, each with why its sources are absent.
pub open spec fn unsourced_pairs(cs: Seq<Criterion>) -> Seq<(Seq<char>, Seq<char>)>
    decreases cs.len(),
{
    if cs.len() == 0 {
        Seq::empty()
    } else {
        unsourced_pairs(cs.drop_last()) + if shipping_of(cs.last().sources@).len() == 0 {
            seq![(cs.last().name@, source_reasons(cs.last().sources@))]
        } else {
            Seq::empty()
        }
    }
}

/// The measured availability of a lens with criteria `cs`.
pub open spec fn availability_of(a: LensAvailability, cs: Seq<Criterion>) -> bool {
    let sourced = sourced_names(cs);
    let unsourced = unsourced_pairs(cs);
    &&& strs(a.sourced_criteria@) == sourced
    &&& a.unsourced_criteria@.map_values(|p: (String, String)| (p.0@, p.1@)) == unsourced
    &&& a.state == if sourced.len() == 0 {
        LensState::NoInputs
    } else if unsourced.len() == 0 {
        LensState::Runs
    } else {
        LensState::RunsPartial
    }
    &&& a.reads@ == reads_spec(cs).map_values(|s: LensSource| (s, lens_source_state(s)))
}

/// Measure one lens: which criteria have a shipping source and which do
/// not, and what it reads.
pub fn lens_availability(l: &ReviewLens) -> (r: LensAvailability)
    ensures
        r.lens == l.id,
        availability_of(r, l.criteria@),
{
    let ghost cs = l.criteria@;
    let mut sourced: Vec<String> = Vec::new();
    let mut unsourced: Vec<(String, String)> = Vec::new();
    let mut i: usize = 0;
    assert(strs(sourced@) =~= sourced_names(cs.subrange(0, 0)));
    assert(unsourced@.map_values(|p: (String, String)| (p.0@, p.1@)) =~= unsourced_pairs(cs.subrange(0, 0)));
    while i < l.criteria.len()
        invariant
            i <= cs.len(),
            cs == l.criteria@,
            strs(sourced@) == sourced_names(cs.subrange(0, i as int)),
            unsourced@.map_values(|p: (String, String)| (p.0@, p.1@)) == unsourced_pairs(cs.subrange(0, i as int)),
        decreases cs.len() - i,
    {
        let c = &l.criteria[i];
        assert(cs.subrange(0, i + 1).drop_last() =~= cs.subrange(0, i as int));
        assert(cs.subrange(0, i + 1).last() == cs[i as int]);
        let sh = shipping_list(&c.sources);
        let ghost sb = strs(sourced@);
        let ghost ub = unsourced@.map_values(|p: (String, String)| (p.0@, p.1@));
        if sh.len() > 0 {
            sourced.push(owned(c.name));
            assert(strs(sourced@) =~= sb.push(c.name@));
            assert(unsourced@.map_values(|p: (String, String)| (p.0@, p.1@)) =~= ub + Seq::<(Seq<char>, Seq<char>)>::empty());
        } else {
            let why = reasons_text(&c.sources);
            unsourced.push((owned(c.name), why));
            assert(unsourced@.map_values(|p: (String, String)| (p.0@, p.1@)) =~= ub.push((c.name@, source_reasons(c.sources@))));
            assert(strs(sourced@) =~= sb + Seq::<Seq<char>>::empty());
        }
        i += 1;
    }
    assert(cs.subrange(0, cs.len() as int) =~= cs);
    let state = if sourced.len() == 0 {
        LensState::NoInputs
    } else if unsourced.len() == 0 {
        LensState::Runs
    } else {
        LensState::RunsPartial
    };
    let rs = l.reads();
    let mut reads: Vec<(LensSource, SourceState)> = Vec::new();
    let mut k: usize = 0;
    while k < rs.len()
        invariant
            k <= rs@.len(),
            reads@ == rs@.subrange(0, k as int).map_values(|s: LensSource| (s, lens_source_state(s))),
        decreases rs@.len() - k,
    {
        reads.push((rs[k], rs[k].state()));
        k += 1;
        assert(reads@ =~= rs@.subrange(0, k as int).map_values(|s: LensSource| (s, lens_source_state(s))));
    }
    assert(rs@.subrange(0, rs@.len() as int) =~= rs@);
    LensAvailability {
        lens: l.id,
        state,
        sourced_criteria: sourced,
        unsourced_criteria: unsourced,
        reads,
    }
}

/// **Measure, for every shipping lens, what it declares and what exists** —
/// a property of the graph of sources, not of any manuscript.
pub fn availability() -> (r: Vec<LensAvailability>)
    ensures
        r@.len() == 4,
        r@[0].lens == LensId::Methodology && exists|cs: Seq<Criterion>|
            crate::criteria::methodology_criteria_ok(cs) && availability_of(r@[0], cs),
        r@[1].lens == LensId::Statistics && exists|cs: Seq<Criterion>|
            crate::criteria::statistics_criteria_ok(cs) && availability_of(r@[1], cs),
        r@[2].lens == LensId::NoveltyLiterature && exists|cs: Seq<Criterion>|
            crate::criteria::novelty_criteria_ok(cs) && availability_of(r@[2], cs),
        r@[3].lens == LensId::ReportingEthics && exists|cs: Seq<Criterion>|
            crate::criteria::reporting_ethics_criteria_ok(cs) && availability_of(r@[3], cs),
{
    let ls = crate::criteria::lenses();
    let mut out: Vec<LensAvailability> = Vec::new();
    out.push(lens_availability(&ls[0]));
    out.push(lens_availability(&ls[1]));
    out.push(lens_availability(&ls[2]));
    out.push(lens_availability(&ls[3]));
    out
}

// ---------------------------------------------------------------------------
// What every report keeps
// ---------------------------------------------------------------------------

/// Under a policy that requires citations, every concern the report keeps
/// quotes at least one span of the manuscript.
pub proof fn lemma_kept_concerns_quote_their_evidence(cv: Seq<ConcernView>)
    ensures
        forall|i: int| 0 <= i < kept(cv, true).len() ==> (#[trigger] kept(cv, true)[i]).spans.len() > 0,
    decreases cv.len(),
{
    if cv.len() > 0 {
        lemma_kept_concerns_quote_their_evidence(cv.drop_last());
        let pre = quoted(cv.drop_last());
        assert forall|i: int| 0 <= i < quoted(cv).len() implies (#[trigger] quoted(cv)[i]).spans.len() > 0 by {
            if i < pre.len() {
                assert(quoted(cv)[i] == pre[i]);
            }
        }
    }
}

/// Nothing the policy removes is lost silently: each concern is either kept
/// or recorded as refused, never both.
pub proof fn lemma_refusals_account_for_every_dropped_concern(cv: Seq<ConcernView>)
    ensures
        quoted(cv).len() + refused_lines(cv).len() == cv.len(),
    decreases cv.len(),
{
    if cv.len() > 0 {
        lemma_refusals_account_for_every_dropped_concern(cv.drop_last());
    }
}

/// The major list holds only blocking and major concerns, the minor list
/// only the rest, and together they hold every concern.
pub proof fn lemma_severity_split(cv: Seq<ConcernView>)
    ensures
        forall|i: int| 0 <= i < majors(cv).len() ==> is_major((#[trigger] majors(cv)[i]).severity),
        forall|i: int| 0 <= i < minors(cv).len() ==> !is_major((#[trigger] minors(cv)[i]).severity),
        majors(cv).len() + minors(cv).len() == cv.len(),
    decreases cv.len(),
{
    if cv.len() > 0 {
        lemma_severity_split(cv.drop_last());
        let pm = majors(cv.drop_last());
        let pn = minors(cv.drop_last());
        assert forall|i: int| 0 <= i < majors(cv).len() implies is_major((#[trigger] majors(cv)[i]).severity) by {
            if i < pm.len() {
                assert(majors(cv)[i] == pm[i]);
            }
        }
        assert forall|i: int| 0 <= i < minors(cv).len() implies !is_major((#[trigger] minors(cv)[i]).severity) by {
            if i < pn.len() {
                assert(minors(cv)[i] == pn[i]);
            }
        }
    }
}

/// A criterion earns a strength only when it was evaluated with every check
/// run, nothing of its own fired, and it raised no concern.
pub proof fn lemma_strength_means_evaluated_and_silent(c: Criterion, raws: Seq<RawView>, executed: Seq<Seq<char>>)
    ensures
        strength_spec(c, raws, executed) is Some ==> {
            &&& outcome_spec(c, raws, executed).1 == StateView::Evaluated
            &&& outcome_spec(c, raws, executed).2 == 0
            &&& criterion_concerns(c, raws).len() == 0
        },
{
    if strength_spec(c, raws, executed) is Some {
        let mine = mine_of(c, raws);
        assert(codes_in(mine) =~= Seq::<Seq<char>>::empty());
        assert(distinct(codes_in(mine)) =~= Seq::<Seq<char>>::empty());
    }
}


// ---------------------------------------------------------------------------
// Where every concern, refusal and strength comes from
// ---------------------------------------------------------------------------

/// `x` is the concern criterion `n` raises for one code that fired under it.
pub open spec fn raised_concern(cs: Seq<Criterion>, raws: Seq<RawView>, x: ConcernView, n: int) -> bool {
    &&& 0 <= n < cs.len()
    &&& active(cs[n])
    &&& exists|code: Seq<char>|
        distinct(codes_in(mine_of(cs[n], raws))).contains(code) && x == #[trigger] concern_spec(
            cs[n],
            mine_of(cs[n], raws),
            code,
        )
}

/// `x` is a concern some criterion raises.
pub open spec fn is_raised(cs: Seq<Criterion>, raws: Seq<RawView>, x: ConcernView) -> bool {
    exists|n: int| raised_concern(cs, raws, x, n)
}

proof fn lemma_all_concerns_raised(cs: Seq<Criterion>, raws: Seq<RawView>)
    ensures
        forall|i: int|
            0 <= i < all_concerns(cs, raws).len() ==> is_raised(cs, raws, #[trigger] all_concerns(cs, raws)[i]),
    decreases cs.len(),
{
    if cs.len() > 0 {
        let pre = cs.drop_last();
        lemma_all_concerns_raised(pre, raws);
        let a = all_concerns(cs, raws);
        let ap = all_concerns(pre, raws);
        let here = criterion_concerns(cs.last(), raws);
        assert(a == ap + here);
        assert forall|i: int| 0 <= i < a.len() implies is_raised(cs, raws, #[trigger] a[i]) by {
            if i < ap.len() {
                assert(a[i] == ap[i]);
                assert(is_raised(pre, raws, ap[i]));
                let n = choose|n: int| raised_concern(pre, raws, ap[i], n);
                assert(cs[n] == pre[n]);
                let code = choose|code: Seq<char>|
                    distinct(codes_in(mine_of(pre[n], raws))).contains(code) && ap[i] == #[trigger] concern_spec(
                        pre[n],
                        mine_of(pre[n], raws),
                        code,
                    );
                assert(raised_concern(cs, raws, a[i], n));
            } else {
                let c = cs.last();
                let n = cs.len() - 1;
                assert(cs[n] == c);
                let ds = distinct(codes_in(mine_of(c, raws)));
                let k = i - ap.len();
                assert(a[i] == here[k]);
                assert(here[k] == concern_spec(c, mine_of(c, raws), ds[k]));
                assert(ds.contains(ds[k]));
                assert(raised_concern(cs, raws, a[i], n));
            }
        }
    }
}

proof fn lemma_filters_keep_members(cv: Seq<ConcernView>)
    ensures
        forall|i: int| 0 <= i < majors(cv).len() ==> cv.contains(#[trigger] majors(cv)[i]),
        forall|i: int| 0 <= i < minors(cv).len() ==> cv.contains(#[trigger] minors(cv)[i]),
        forall|i: int| 0 <= i < quoted(cv).len() ==> cv.contains(#[trigger] quoted(cv)[i]),
    decreases cv.len(),
{
    if cv.len() > 0 {
        let pre = cv.drop_last();
        lemma_filters_keep_members(pre);
        assert(cv[cv.len() - 1] == cv.last());
        assert forall|i: int| 0 <= i < majors(cv).len() implies cv.contains(#[trigger] majors(cv)[i]) by {
            if i < majors(pre).len() {
                assert(majors(cv)[i] == majors(pre)[i]);
                let j = choose|j: int| 0 <= j < pre.len() && pre[j] == majors(pre)[i];
                assert(cv[j] == pre[j]);
            }
        }
        assert forall|i: int| 0 <= i < minors(cv).len() implies cv.contains(#[trigger] minors(cv)[i]) by {
            if i < minors(pre).len() {
                assert(minors(cv)[i] == minors(pre)[i]);
                let j = choose|j: int| 0 <= j < pre.len() && pre[j] == minors(pre)[i];
                assert(cv[j] == pre[j]);
            }
        }
        assert forall|i: int| 0 <= i < quoted(cv).len() implies cv.contains(#[trigger] quoted(cv)[i]) by {
            if i < quoted(pre).len() {
                assert(quoted(cv)[i] == quoted(pre)[i]);
                let j = choose|j: int| 0 <= j < pre.len() && pre[j] == quoted(pre)[i];
                assert(cv[j] == pre[j]);
            }
        }
    }
}

/// Every concern a report lists, major or minor, under either policy, is the
/// one concern its criterion raises for one code that fired: its severity is
/// the severity rule's for that code, its required revision is the
/// criterion's action, its trail names the source, the evidence when there
/// is any, the criterion and the severity, and it carries every occurrence
/// and span of that code.
pub proof fn lemma_listed_concerns_are_raised(cs: Seq<Criterion>, raws: Seq<RawView>, citation_required: bool)
    ensures
        forall|i: int|
            0 <= i < kept(majors(all_concerns(cs, raws)), citation_required).len() ==> is_raised(
                cs,
                raws,
                #[trigger] kept(majors(all_concerns(cs, raws)), citation_required)[i],
            ),
        forall|i: int|
            0 <= i < kept(minors(all_concerns(cs, raws)), citation_required).len() ==> is_raised(
                cs,
                raws,
                #[trigger] kept(minors(all_concerns(cs, raws)), citation_required)[i],
            ),
        forall|x: ConcernView, n: int|
            #[trigger] raised_concern(cs, raws, x, n) ==> {
                &&& x.severity == severity_for(x.code)
                &&& x.required_revision == cs[n].action@
                &&& x.criterion == cs[n].name@
                &&& x.trail == concern_trail(x.source, x.criterion, x.code, x.spans)
            },
{
    let a = all_concerns(cs, raws);
    lemma_all_concerns_raised(cs, raws);
    lemma_filters_keep_members(a);
    lemma_filters_keep_members(majors(a));
    lemma_filters_keep_members(minors(a));
    let km = kept(majors(a), citation_required);
    let kn = kept(minors(a), citation_required);
    assert forall|i: int| 0 <= i < km.len() implies is_raised(cs, raws, #[trigger] km[i]) by {
        if !citation_required {
            assert(majors(a)[i] == km[i]);
        }
        assert(majors(a).contains(km[i]));
        let j = choose|j: int| 0 <= j < majors(a).len() && majors(a)[j] == km[i];
        assert(a.contains(majors(a)[j]));
        let m = choose|m: int| 0 <= m < a.len() && a[m] == majors(a)[j];
        assert(is_raised(cs, raws, a[m]));
    }
    assert forall|i: int| 0 <= i < kn.len() implies is_raised(cs, raws, #[trigger] kn[i]) by {
        if !citation_required {
            assert(minors(a)[i] == kn[i]);
        }
        assert(minors(a).contains(kn[i]));
        let j = choose|j: int| 0 <= j < minors(a).len() && minors(a)[j] == kn[i];
        assert(a.contains(minors(a)[j]));
        let m = choose|m: int| 0 <= m < a.len() && a[m] == minors(a)[j];
        assert(is_raised(cs, raws, a[m]));
    }
}

/// `line` is the refusal of some concern of `cv` that quotes nothing.
pub open spec fn refusal_of_some(cv: Seq<ConcernView>, line: Seq<char>) -> bool {
    exists|i: int| 0 <= i < cv.len() && cv[i].spans.len() == 0 && line == refusal_line(cv[i])
}

/// The refusals recorded are exactly those of the concerns that quote
/// nothing, each naming its criterion and code with the refusal reason.
pub proof fn lemma_refusal_lines(cv: Seq<ConcernView>)
    ensures
        forall|j: int|
            0 <= j < refused_lines(cv).len() ==> refusal_of_some(cv, #[trigger] refused_lines(cv)[j]),
        forall|i: int| 0 <= i < cv.len() && (#[trigger] cv[i]).spans.len() == 0 ==> refused_lines(cv).contains(refusal_line(cv[i])),
    decreases cv.len(),
{
    if cv.len() > 0 {
        let pre = cv.drop_last();
        lemma_refusal_lines(pre);
        let r = refused_lines(cv);
        let rp = refused_lines(pre);
        assert(cv[cv.len() - 1] == cv.last());
        assert forall|j: int| 0 <= j < r.len() implies refusal_of_some(cv, #[trigger] r[j]) by {
            if j < rp.len() {
                assert(r[j] == rp[j]);
                assert(refusal_of_some(pre, rp[j]));
                let i = choose|i: int| 0 <= i < pre.len() && pre[i].spans.len() == 0 && rp[j] == refusal_line(pre[i]);
                assert(cv[i] == pre[i]);
            } else {
                assert(r[j] == refusal_line(cv.last()));
                assert(cv[cv.len() - 1].spans.len() == 0);
            }
        }
        assert forall|i: int| 0 <= i < cv.len() && (#[trigger] cv[i]).spans.len() == 0 implies r.contains(refusal_line(cv[i])) by {
            if i < pre.len() {
                assert(cv[i] == pre[i]);
                let j = choose|j: int| 0 <= j < rp.len() && rp[j] == refusal_line(pre[i]);
                assert(r[j] == rp[j]);
            } else {
                assert(r[rp.len() as int] == refusal_line(cv[i]));
            }
        }
    }
}

/// Every strength is the one sentence a criterion earns when it is active,
/// every one of its checks ran and none fired: it names the criterion, how
/// many checks ran and which, the sources read, and the risk-table row's
/// low-risk description as what the checks did not contradict.
pub proof fn lemma_strengths_are_earned(cs: Seq<Criterion>, raws: Seq<RawView>, executed: Seq<Seq<char>>)
    ensures
        forall|j: int|
            0 <= j < strengths_spec(cs, raws, executed).len() ==> exists|n: int|
                0 <= n < cs.len() && strength_spec(cs[n], raws, executed) == Some(#[trigger] strengths_spec(cs, raws, executed)[j]),
    decreases cs.len(),
{
    if cs.len() > 0 {
        let pre = cs.drop_last();
        lemma_strengths_are_earned(pre, raws, executed);
        let st = strengths_spec(cs, raws, executed);
        let sp = strengths_spec(pre, raws, executed);
        assert(cs[cs.len() - 1] == cs.last());
        assert forall|j: int| 0 <= j < st.len() implies exists|n: int|
            0 <= n < cs.len() && strength_spec(cs[n], raws, executed) == Some(#[trigger] st[j]) by {
            if j < sp.len() {
                assert(st[j] == sp[j]);
                let n = choose|n: int| 0 <= n < pre.len() && strength_spec(pre[n], raws, executed) == Some(#[trigger] sp[j]);
                assert(cs[n] == pre[n]);
            }
        }
    }
}


// ---------------------------------------------------------------------------
// What the overall assessment counts
// ---------------------------------------------------------------------------

/// How many criteria were evaluated.
pub open spec fn count_evaluated(os: Seq<(Seq<char>, StateView, nat)>) -> nat
    decreases os.len(),
{
    if os.len() == 0 {
        0
    } else {
        count_evaluated(os.drop_last()) + if os.last().1 == StateView::Evaluated {
            1nat
        } else {
            0nat
        }
    }
}

proof fn lemma_evaluated_split(os: Seq<(Seq<char>, StateView, nat)>)
    ensures
        count_evaluated(os) + count_unevaluated(os) == os.len(),
    decreases os.len(),
{
    if os.len() > 0 {
        lemma_evaluated_split(os.drop_last());
    }
}

/// **The assessment counts what was evaluated**: it says the concerns span
/// as many criteria as have the state `Evaluated`, that the rest were not
/// evaluated, and how many the lens declares — so the evaluated and the
/// unevaluated add up to the declared.
pub proof fn lemma_assessment_counts_evaluated(
    major: Seq<ConcernView>,
    minor: Seq<ConcernView>,
    os: Seq<(Seq<char>, StateView, nat)>,
    refused: nat,
)
    ensures
        count_evaluated(os) <= os.len(),
        contains(
            assessment_spec(major, minor, os, refused),
            " minor concern(s) across "@ + decimal(count_evaluated(os)) + " criterion/criteria that were evaluated. "@
                + decimal((os.len() - count_evaluated(os)) as nat) + " of the "@ + decimal(os.len()),
        ),
{
    lemma_evaluated_split(os);
    let blocking = count_blocking(major);
    let a = "Under this lens: "@ + decimal(blocking) + " blocking, "@ + decimal((major.len() - blocking) as nat) + " major and "@
        + decimal(minor.len());
    let n = " minor concern(s) across "@ + decimal(count_evaluated(os)) + " criterion/criteria that were evaluated. "@
        + decimal((os.len() - count_evaluated(os)) as nat) + " of the "@ + decimal(os.len());
    let c = " criteria this lens declares were NOT evaluated and are listed with their reasons. "@ + decimal(refused)
        + " finding(s) were REFUSED by the absence rule and are listed with theirs. **No recommendation is made here**: Accept / Minor / Major / Reject is the editor layer's output (§5.7), which weighs every lens together and is not built."@;
    let x = assessment_spec(major, minor, os, refused);
    assert(x =~= a + n + c);
    assert(x.subrange(a.len() as int, (a.len() + n.len()) as int) =~= n);
    assert(occurs_at(x, n, a.len() as int));
}

} // verus!
