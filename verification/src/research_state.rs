//! The research state: a gate-safe, structured projection of one
//! manuscript's extraction — section labels, statistics, tables, citations
//! and references, what produced each, an evidence graph of EXACT edges, and
//! a content hash over all of it.

use std::sync::Arc;
use vstd::prelude::*;

use crate::extract::{
    Citation, ClaimId, ExtractionResult, Location, Reference, ScientificClaim,
    ScientificExtraction, Section, SectionKind, SourceSpan, Stat, StatClaim, TableRef,
};
use crate::state_encoding::{
    lemma_hex_len, lemma_list_bytes_congruent, lemma_opt_str_bytes_injective,
    hex, hex_spec, items_bytes, kind_tag, list_bytes, location_bytes, opt_str_bytes,
    push_citations, push_location, push_opt_str_bytes, push_references, push_stat_claims,
    push_str_bytes, push_strings, push_tables, push_u64, reference_bytes, stat_claim_bytes,
    str_bytes, table_bytes, citation_bytes, u64_bytes,
};
use crate::text::{opt_owned, opt_view, owned};

verus! {

/// The schema version of the state.
pub const RESEARCH_STATE_SCHEMA_VERSION: u32 = 1;

/// A section as a label: kind, heading, and how many paragraphs — never the
/// paragraphs themselves.
#[derive(Debug, Clone, PartialEq, Eq)]
pub struct SectionSummary {
    pub kind: SectionKind,
    pub heading: String,
    pub paragraph_count: usize,
}

/// A figure. No figure extractor exists, so the state carries none.
#[derive(Debug, Clone, PartialEq)]
pub struct Figure {
    pub label: String,
    pub caption: Option<String>,
    pub location: Location,
}

/// Which extractor produced a field, and how many items it produced.
#[derive(Debug, Clone, PartialEq)]
pub struct FieldProvenance {
    pub field: String,
    pub extractor: String,
    pub count: usize,
}

/// A node of the evidence graph, addressed by index into the state.
#[derive(Debug, Clone, PartialEq)]
pub enum NodeRef {
    Statistic { index: usize },
    Table { index: usize },
    Citation { index: usize },
    Reference { index: usize },
    Claim { id: String },
}

/// What an edge asserts: an exact link, or co-location named as such.
#[derive(Debug, Clone, Copy, PartialEq, Eq, Structural)]
pub enum EdgeKind {
    CitesReference,
    StatisticCoLocatedWithTable,
    ClaimCoLocatedWithStatistic,
}

/// One edge.
#[derive(Debug, Clone, PartialEq)]
pub struct Edge {
    pub from: NodeRef,
    pub to: NodeRef,
    pub kind: EdgeKind,
}

/// The evidence graph.
#[derive(Debug, Clone, PartialEq)]
pub struct EvidenceGraph {
    pub edges: Vec<Edge>,
}

/// A node as plain values.
pub enum NodeView {
    Statistic(nat),
    Table(nat),
    Citation(nat),
    Reference(nat),
    Claim(Seq<char>),
}

pub open spec fn node_view(n: NodeRef) -> NodeView {
    match n {
        NodeRef::Statistic { index } => NodeView::Statistic(index as nat),
        NodeRef::Table { index } => NodeView::Table(index as nat),
        NodeRef::Citation { index } => NodeView::Citation(index as nat),
        NodeRef::Reference { index } => NodeView::Reference(index as nat),
        NodeRef::Claim { id } => NodeView::Claim(id@),
    }
}

/// An edge as plain values.
pub open spec fn edge_view(e: Edge) -> (NodeView, NodeView, EdgeKind) {
    (node_view(e.from), node_view(e.to), e.kind)
}

pub open spec fn edges_view(v: Seq<Edge>) -> Seq<(NodeView, NodeView, EdgeKind)> {
    v.map_values(|e: Edge| edge_view(e))
}

impl EvidenceGraph {
    /// Whether the graph has no edge.
    pub fn is_empty(&self) -> (r: bool)
        ensures
            r == (self.edges@.len() == 0),
    {
        self.edges.len() == 0
    }

    /// The edges of one kind, in order.
    pub fn of_kind(&self, kind: EdgeKind) -> (r: Vec<&Edge>)
        ensures
            r@.map_values(|e: &Edge| edge_view(*e)) == edges_of_kind(edges_view(self.edges@), kind),
    {
        let ghost ev = edges_view(self.edges@);
        let mut out: Vec<&Edge> = Vec::new();
        let mut i: usize = 0;
        assert(out@.map_values(|e: &Edge| edge_view(*e)) =~= edges_of_kind(ev.subrange(0, 0), kind));
        while i < self.edges.len()
            invariant
                i <= self.edges@.len(),
                ev == edges_view(self.edges@),
                out@.map_values(|e: &Edge| edge_view(*e)) == edges_of_kind(ev.subrange(0, i as int), kind),
            decreases self.edges@.len() - i,
        {
            let ghost b = out@.map_values(|e: &Edge| edge_view(*e));
            assert(ev.subrange(0, i + 1).drop_last() =~= ev.subrange(0, i as int));
            assert(ev.subrange(0, i + 1).last() == edge_view(self.edges@[i as int]));
            if self.edges[i].kind == kind {
                out.push(&self.edges[i]);
                assert(out@.map_values(|e: &Edge| edge_view(*e)) =~= b.push(edge_view(self.edges@[i as int])));
            }
            i += 1;
        }
        assert(ev.subrange(0, self.edges@.len() as int) =~= ev);
        out
    }
}

/// The edges of one kind, in order.
pub open spec fn edges_of_kind(es: Seq<(NodeView, NodeView, EdgeKind)>, kind: EdgeKind) -> Seq<(NodeView, NodeView, EdgeKind)>
    decreases es.len(),
{
    if es.len() == 0 {
        Seq::empty()
    } else {
        edges_of_kind(es.drop_last(), kind) + if es.last().2 == kind {
            seq![es.last()]
        } else {
            Seq::empty()
        }
    }
}

/// The structured state of one manuscript.
#[derive(Debug, Clone, PartialEq)]
pub struct ResearchState {
    pub schema_version: u32,
    /// The hex SHA-256 of the state's canonical encoding.
    pub content_hash: String,
    /// The opt-in scientific layer. It carries manuscript prose.
    pub science: Option<Arc<ScientificExtraction>>,
    pub title: Option<String>,
    pub structure: Vec<SectionSummary>,
    pub statistics: Vec<StatClaim>,
    pub tables: Vec<TableRef>,
    pub figures: Vec<Figure>,
    pub citations: Vec<Citation>,
    pub references: Vec<Reference>,
    pub provenance: Vec<FieldProvenance>,
    pub evidence: EvidenceGraph,
}

// ---------------------------------------------------------------------------
// The outside digest
// ---------------------------------------------------------------------------

/// The SHA-256 digest of some bytes, as the `sha2` crate computes it.
pub uninterp spec fn sha256(data: Seq<u8>) -> Seq<u8>;

/// `sha2::Sha256`: new, update with the bytes, finalize. Claims that the
/// result is the SHA-256 digest of the bytes (named by [`sha256`]) and is 32
/// bytes long; the digest itself is not restated.
#[verifier::external_body]
fn sha256_digest(data: &Vec<u8>) -> (r: Vec<u8>)
    ensures
        r@ == sha256(data@),
        r@.len() == 32,
{
    let mut h = <sha2::Sha256 as sha2::Digest>::new();
    sha2::Digest::update(&mut h, data.as_slice());
    sha2::Digest::finalize(h).to_vec()
}

/// `Arc::clone`: a second handle to the same value.
#[verifier::external_body]
fn share<T>(a: &Arc<T>) -> (r: Arc<T>)
    ensures
        r == *a,
{
    Arc::clone(a)
}

// ---------------------------------------------------------------------------
// The canonical encoding of a state
// ---------------------------------------------------------------------------

pub open spec fn summary_bytes(s: SectionSummary) -> Seq<u8> {
    seq![kind_tag(s.kind)] + str_bytes(s.heading@) + u64_bytes(s.paragraph_count as u64)
}

pub open spec fn figure_bytes(f: Figure) -> Seq<u8> {
    str_bytes(f.label@) + opt_str_bytes(opt_view(f.caption)) + location_bytes(f.location)
}

pub open spec fn provenance_bytes(p: FieldProvenance) -> Seq<u8> {
    str_bytes(p.field@) + str_bytes(p.extractor@) + u64_bytes(p.count as u64)
}

pub open spec fn node_bytes(n: NodeRef) -> Seq<u8> {
    match n {
        NodeRef::Statistic { index } => seq![0u8] + u64_bytes(index as u64),
        NodeRef::Table { index } => seq![1u8] + u64_bytes(index as u64),
        NodeRef::Citation { index } => seq![2u8] + u64_bytes(index as u64),
        NodeRef::Reference { index } => seq![3u8] + u64_bytes(index as u64),
        NodeRef::Claim { id } => seq![4u8] + str_bytes(id@),
    }
}

pub open spec fn edge_kind_tag(k: EdgeKind) -> u8 {
    match k {
        EdgeKind::CitesReference => 0,
        EdgeKind::StatisticCoLocatedWithTable => 1,
        EdgeKind::ClaimCoLocatedWithStatistic => 2,
    }
}

pub open spec fn edge_bytes(e: Edge) -> Seq<u8> {
    node_bytes(e.from) + node_bytes(e.to) + seq![edge_kind_tag(e.kind)]
}

pub open spec fn span_bytes(s: SourceSpan) -> Seq<u8> {
    match s {
        SourceSpan::Point(l) => seq![0u8] + location_bytes(l),
        SourceSpan::Range(r) => seq![1u8, kind_tag(r.section)] + u64_bytes(r.start_paragraph as u64)
            + u64_bytes(r.end_paragraph as u64),
    }
}

pub open spec fn claim_bytes(c: ScientificClaim) -> Seq<u8> {
    str_bytes(c.id.0@) + str_bytes(c.statement@) + span_bytes(c.source_span)
}

pub open spec fn science_bytes(s: Option<Arc<ScientificExtraction>>) -> Seq<u8> {
    match s {
        None => seq![0u8],
        Some(a) => seq![1u8] + list_bytes(a.claims@, |c: ScientificClaim| claim_bytes(c)) + list_bytes(
            a.contributions@,
            |x: String| str_bytes(x@),
        ) + list_bytes(a.limitations@, |x: String| str_bytes(x@)) + list_bytes(
            a.questions@,
            |x: String| str_bytes(x@),
        ) + list_bytes(a.hypotheses@, |x: String| str_bytes(x@)),
    }
}

/// The fields encoded before the title: the schema version and the
/// scientific layer.
pub open spec fn state_head(s: ResearchState) -> Seq<u8> {
    u64_bytes(s.schema_version as u64) + science_bytes(s.science)
}

/// The fields encoded after the title, in declaration order.
#[verifier::opaque]
pub open spec fn state_tail(s: ResearchState) -> Seq<u8> {
    list_bytes(s.structure@, |x: SectionSummary| summary_bytes(x)) + list_bytes(
        s.statistics@,
        |x: StatClaim| stat_claim_bytes(x),
    ) + list_bytes(s.tables@, |x: TableRef| table_bytes(x)) + list_bytes(
        s.figures@,
        |x: Figure| figure_bytes(x),
    ) + list_bytes(s.citations@, |x: Citation| citation_bytes(x)) + list_bytes(
        s.references@,
        |x: Reference| reference_bytes(x),
    ) + list_bytes(s.provenance@, |x: FieldProvenance| provenance_bytes(x)) + list_bytes(
        s.evidence.edges@,
        |x: Edge| edge_bytes(x),
    )
}

/// The canonical encoding of every field of a state but its hash.
pub open spec fn state_bytes(s: ResearchState) -> Seq<u8> {
    state_head(s) + opt_str_bytes(opt_view(s.title)) + state_tail(s)
}

/// The hash a state's fields determine.
pub open spec fn hash_of(s: ResearchState) -> Seq<char> {
    hex_spec(sha256(state_bytes(s)))
}

fn push_node(out: &mut Vec<u8>, n: &NodeRef)
    ensures
        final(out)@ == old(out)@ + node_bytes(*n),
{
    match n {
        NodeRef::Statistic { index } => {
            out.push(0u8);
            push_u64(out, *index as u64);
        },
        NodeRef::Table { index } => {
            out.push(1u8);
            push_u64(out, *index as u64);
        },
        NodeRef::Citation { index } => {
            out.push(2u8);
            push_u64(out, *index as u64);
        },
        NodeRef::Reference { index } => {
            out.push(3u8);
            push_u64(out, *index as u64);
        },
        NodeRef::Claim { id } => {
            out.push(4u8);
            push_str_bytes(out, id.as_str());
        },
    }
    assert(final(out)@ =~= old(out)@ + node_bytes(*n));
}

fn push_span(out: &mut Vec<u8>, s: &SourceSpan)
    ensures
        final(out)@ == old(out)@ + span_bytes(*s),
{
    match s {
        SourceSpan::Point(l) => {
            out.push(0u8);
            push_location(out, l);
        },
        SourceSpan::Range(r) => {
            out.push(1u8);
            let tag: u8 = match r.section {
                SectionKind::Abstract => 0,
                SectionKind::Introduction => 1,
                SectionKind::Methods => 2,
                SectionKind::Results => 3,
                SectionKind::Discussion => 4,
                SectionKind::Conclusion => 5,
                SectionKind::References => 6,
                SectionKind::Other => 7,
            };
            out.push(tag);
            push_u64(out, r.start_paragraph as u64);
            push_u64(out, r.end_paragraph as u64);
        },
    }
    assert(final(out)@ =~= old(out)@ + span_bytes(*s));
}

fn push_science(out: &mut Vec<u8>, s: &Option<Arc<ScientificExtraction>>)
    ensures
        final(out)@ == old(out)@ + science_bytes(*s),
{
    match s {
        None => {
            out.push(0u8);
            assert(final(out)@ =~= old(out)@ + science_bytes(*s));
        },
        Some(a) => {
            out.push(1u8);
            let sci: &ScientificExtraction = &**a;
            let ghost f = |c: ScientificClaim| claim_bytes(c);
            push_u64(out, sci.claims.len() as u64);
            let ghost mid = out@;
            let mut i: usize = 0;
            assert(mid =~= mid + items_bytes(sci.claims@.subrange(0, 0), f));
            while i < sci.claims.len()
                invariant
                    i <= sci.claims@.len(),
                    f == |c: ScientificClaim| claim_bytes(c),
                    out@ == mid + items_bytes(sci.claims@.subrange(0, i as int), f),
                decreases sci.claims@.len() - i,
            {
                let c = &sci.claims[i];
                let ghost b = out@;
                push_str_bytes(out, c.id.0.as_str());
                push_str_bytes(out, c.statement.as_str());
                push_span(out, &c.source_span);
                assert(out@ =~= b + claim_bytes(*c));
                assert(sci.claims@.subrange(0, i + 1).drop_last() =~= sci.claims@.subrange(0, i as int));
                i += 1;
                assert(out@ =~= mid + items_bytes(sci.claims@.subrange(0, i as int), f));
            }
            assert(sci.claims@.subrange(0, sci.claims@.len() as int) =~= sci.claims@);
            push_strings(out, &sci.contributions);
            push_strings(out, &sci.limitations);
            push_strings(out, &sci.questions);
            push_strings(out, &sci.hypotheses);
            assert(final(out)@ =~= old(out)@ + science_bytes(*s));
        },
    }
}

fn push_structure(out: &mut Vec<u8>, xs: &Vec<SectionSummary>)
    ensures
        final(out)@ == old(out)@ + list_bytes(xs@, |x: SectionSummary| summary_bytes(x)),
{
    let ghost f = |x: SectionSummary| summary_bytes(x);
    push_u64(out, xs.len() as u64);
    let ghost mid = out@;
    let mut i: usize = 0;
    assert(mid =~= mid + items_bytes(xs@.subrange(0, 0), f));
    while i < xs.len()
        invariant
            i <= xs@.len(),
            f == |x: SectionSummary| summary_bytes(x),
            out@ == mid + items_bytes(xs@.subrange(0, i as int), f),
        decreases xs@.len() - i,
    {
        let x = &xs[i];
        let ghost b = out@;
        let tag: u8 = match x.kind {
            SectionKind::Abstract => 0,
            SectionKind::Introduction => 1,
            SectionKind::Methods => 2,
            SectionKind::Results => 3,
            SectionKind::Discussion => 4,
            SectionKind::Conclusion => 5,
            SectionKind::References => 6,
            SectionKind::Other => 7,
        };
        out.push(tag);
        push_str_bytes(out, x.heading.as_str());
        push_u64(out, x.paragraph_count as u64);
        assert(out@ =~= b + summary_bytes(*x));
        assert(xs@.subrange(0, i + 1).drop_last() =~= xs@.subrange(0, i as int));
        i += 1;
        assert(out@ =~= mid + items_bytes(xs@.subrange(0, i as int), f));
    }
    assert(xs@.subrange(0, xs@.len() as int) =~= xs@);
    assert(final(out)@ =~= old(out)@ + list_bytes(xs@, f));
}

fn push_figures(out: &mut Vec<u8>, xs: &Vec<Figure>)
    ensures
        final(out)@ == old(out)@ + list_bytes(xs@, |x: Figure| figure_bytes(x)),
{
    let ghost f = |x: Figure| figure_bytes(x);
    push_u64(out, xs.len() as u64);
    let ghost mid = out@;
    let mut i: usize = 0;
    assert(mid =~= mid + items_bytes(xs@.subrange(0, 0), f));
    while i < xs.len()
        invariant
            i <= xs@.len(),
            f == |x: Figure| figure_bytes(x),
            out@ == mid + items_bytes(xs@.subrange(0, i as int), f),
        decreases xs@.len() - i,
    {
        let x = &xs[i];
        let ghost b = out@;
        push_str_bytes(out, x.label.as_str());
        push_opt_str_bytes(out, &x.caption);
        push_location(out, &x.location);
        assert(out@ =~= b + figure_bytes(*x));
        assert(xs@.subrange(0, i + 1).drop_last() =~= xs@.subrange(0, i as int));
        i += 1;
        assert(out@ =~= mid + items_bytes(xs@.subrange(0, i as int), f));
    }
    assert(xs@.subrange(0, xs@.len() as int) =~= xs@);
    assert(final(out)@ =~= old(out)@ + list_bytes(xs@, f));
}

fn push_provenance(out: &mut Vec<u8>, xs: &Vec<FieldProvenance>)
    ensures
        final(out)@ == old(out)@ + list_bytes(xs@, |x: FieldProvenance| provenance_bytes(x)),
{
    let ghost f = |x: FieldProvenance| provenance_bytes(x);
    push_u64(out, xs.len() as u64);
    let ghost mid = out@;
    let mut i: usize = 0;
    assert(mid =~= mid + items_bytes(xs@.subrange(0, 0), f));
    while i < xs.len()
        invariant
            i <= xs@.len(),
            f == |x: FieldProvenance| provenance_bytes(x),
            out@ == mid + items_bytes(xs@.subrange(0, i as int), f),
        decreases xs@.len() - i,
    {
        let x = &xs[i];
        let ghost b = out@;
        push_str_bytes(out, x.field.as_str());
        push_str_bytes(out, x.extractor.as_str());
        push_u64(out, x.count as u64);
        assert(out@ =~= b + provenance_bytes(*x));
        assert(xs@.subrange(0, i + 1).drop_last() =~= xs@.subrange(0, i as int));
        i += 1;
        assert(out@ =~= mid + items_bytes(xs@.subrange(0, i as int), f));
    }
    assert(xs@.subrange(0, xs@.len() as int) =~= xs@);
    assert(final(out)@ =~= old(out)@ + list_bytes(xs@, f));
}

fn push_edges(out: &mut Vec<u8>, es: &Vec<Edge>)
    ensures
        final(out)@ == old(out)@ + list_bytes(es@, |x: Edge| edge_bytes(x)),
{
    let ghost f = |x: Edge| edge_bytes(x);
    push_u64(out, es.len() as u64);
    let ghost mid = out@;
    let mut i: usize = 0;
    assert(mid =~= mid + items_bytes(es@.subrange(0, 0), f));
    while i < es.len()
        invariant
            i <= es@.len(),
            f == |x: Edge| edge_bytes(x),
            out@ == mid + items_bytes(es@.subrange(0, i as int), f),
        decreases es@.len() - i,
    {
        let x = &es[i];
        let ghost b = out@;
        push_node(out, &x.from);
        push_node(out, &x.to);
        let tag: u8 = match x.kind {
            EdgeKind::CitesReference => 0,
            EdgeKind::StatisticCoLocatedWithTable => 1,
            EdgeKind::ClaimCoLocatedWithStatistic => 2,
        };
        out.push(tag);
        assert(out@ =~= b + edge_bytes(*x));
        assert(es@.subrange(0, i + 1).drop_last() =~= es@.subrange(0, i as int));
        i += 1;
        assert(out@ =~= mid + items_bytes(es@.subrange(0, i as int), f));
    }
    assert(es@.subrange(0, es@.len() as int) =~= es@);
    assert(final(out)@ =~= old(out)@ + list_bytes(es@, f));
}

/// The canonical encoding of a state, hash excluded.
fn encode_state(s: &ResearchState) -> (r: Vec<u8>)
    ensures
        r@ == state_bytes(*s),
{
    let mut out: Vec<u8> = Vec::new();
    push_u64(&mut out, s.schema_version as u64);
    let ghost a0 = out@;
    push_science(&mut out, &s.science);
    let ghost a1 = out@;
    push_opt_str_bytes(&mut out, &s.title);
    let ghost a2 = out@;
    push_structure(&mut out, &s.structure);
    let ghost a3 = out@;
    push_stat_claims(&mut out, &s.statistics);
    let ghost a4 = out@;
    push_tables(&mut out, &s.tables);
    let ghost a5 = out@;
    push_figures(&mut out, &s.figures);
    let ghost a6 = out@;
    push_citations(&mut out, &s.citations);
    let ghost a7 = out@;
    push_references(&mut out, &s.references);
    let ghost a8 = out@;
    push_provenance(&mut out, &s.provenance);
    let ghost a9 = out@;
    push_edges(&mut out, &s.evidence.edges);
    assert(a0 =~= u64_bytes(s.schema_version as u64));
    proof {
        reveal(state_tail);
        assert(out@.subrange(a2.len() as int, out@.len() as int) =~= state_tail(*s));
        assert(a2 =~= state_head(*s) + opt_str_bytes(opt_view(s.title)));
    }
    assert(out@ =~= state_bytes(*s));
    out
}

// ---------------------------------------------------------------------------
// The evidence graph
// ---------------------------------------------------------------------------

/// Two locations name the same paragraph of the same kind of section.
pub open spec fn same_paragraph(a: Location, b: Location) -> bool {
    a.section == b.section && a.paragraph == b.paragraph
}

pub type EdgeV = (NodeView, NodeView, EdgeKind);

/// The edges from citation `ci`'s markers: a marker `n` names reference
/// `n - 1`, and only when that reference exists.
pub open spec fn marker_edges(ci: nat, ns: Seq<u32>, nrefs: nat) -> Seq<EdgeV>
    decreases ns.len(),
{
    if ns.len() == 0 {
        Seq::empty()
    } else {
        marker_edges(ci, ns.drop_last(), nrefs) + if ns.last() >= 1 && ns.last() - 1 < nrefs {
            seq![(NodeView::Citation(ci), NodeView::Reference((ns.last() - 1) as nat), EdgeKind::CitesReference)]
        } else {
            Seq::empty()
        }
    }
}

/// Every citation's reference edges, in order.
pub open spec fn cite_edges(cits: Seq<Citation>, nrefs: nat) -> Seq<EdgeV>
    decreases cits.len(),
{
    if cits.len() == 0 {
        Seq::empty()
    } else {
        cite_edges(cits.drop_last(), nrefs) + marker_edges((cits.len() - 1) as nat, cits.last().numbers@, nrefs)
    }
}

/// Statistic `si` at `loc` with every table in the same paragraph.
pub open spec fn table_edges(si: nat, loc: Location, tables: Seq<TableRef>) -> Seq<EdgeV>
    decreases tables.len(),
{
    if tables.len() == 0 {
        Seq::empty()
    } else {
        table_edges(si, loc, tables.drop_last()) + if same_paragraph(loc, tables.last().location) {
            seq![(NodeView::Statistic(si), NodeView::Table((tables.len() - 1) as nat), EdgeKind::StatisticCoLocatedWithTable)]
        } else {
            Seq::empty()
        }
    }
}

/// Every statistic's co-located tables, in order.
pub open spec fn stat_table_edges(stats: Seq<StatClaim>, tables: Seq<TableRef>) -> Seq<EdgeV>
    decreases stats.len(),
{
    if stats.len() == 0 {
        Seq::empty()
    } else {
        stat_table_edges(stats.drop_last(), tables) + table_edges((stats.len() - 1) as nat, stats.last().location, tables)
    }
}

/// Where a claim was read from: its point, or the first paragraph of its
/// range.
pub open spec fn claim_location(c: ScientificClaim) -> Location {
    match c.source_span {
        SourceSpan::Point(l) => l,
        SourceSpan::Range(r) => Location { section: r.section, paragraph: r.start_paragraph, section_index: None },
    }
}

/// Claim `id` at `loc` with every statistic in the same paragraph.
pub open spec fn claim_stat_edges(id: Seq<char>, loc: Location, stats: Seq<StatClaim>) -> Seq<EdgeV>
    decreases stats.len(),
{
    if stats.len() == 0 {
        Seq::empty()
    } else {
        claim_stat_edges(id, loc, stats.drop_last()) + if same_paragraph(loc, stats.last().location) {
            seq![(NodeView::Claim(id), NodeView::Statistic((stats.len() - 1) as nat), EdgeKind::ClaimCoLocatedWithStatistic)]
        } else {
            Seq::empty()
        }
    }
}

/// Every claim's co-located statistics, in order.
pub open spec fn claims_edges(claims: Seq<ScientificClaim>, stats: Seq<StatClaim>) -> Seq<EdgeV>
    decreases claims.len(),
{
    if claims.len() == 0 {
        Seq::empty()
    } else {
        claims_edges(claims.drop_last(), stats) + claim_stat_edges(claims.last().id.0@, claim_location(claims.last()), stats)
    }
}

/// **EXACT edges only**: numeric markers to the references they name,
/// statistics co-located with tables, and — when the scientific layer ran —
/// claims co-located with statistics.
pub open spec fn graph_spec(
    cits: Seq<Citation>,
    nrefs: nat,
    stats: Seq<StatClaim>,
    tables: Seq<TableRef>,
    science: Option<Arc<ScientificExtraction>>,
) -> Seq<EdgeV> {
    cite_edges(cits, nrefs) + stat_table_edges(stats, tables) + match science {
        Some(a) => claims_edges(a.claims@, stats),
        None => Seq::empty(),
    }
}

fn same_para(a: &Location, b: &Location) -> (r: bool)
    ensures
        r == same_paragraph(*a, *b),
{
    a.section == b.section && a.paragraph == b.paragraph
}

fn build_graph(s: &ResearchState) -> (g: EvidenceGraph)
    ensures
        edges_view(g.edges@) == graph_spec(s.citations@, s.references@.len(), s.statistics@, s.tables@, s.science),
{
    let mut edges: Vec<Edge> = Vec::new();
    let nrefs = s.references.len();
    let ghost nr = nrefs as nat;
    let mut ci: usize = 0;
    assert(edges_view(edges@) =~= cite_edges(s.citations@.subrange(0, 0), nr));
    while ci < s.citations.len()
        invariant
            ci <= s.citations@.len(),
            nr == nrefs as nat,
            nrefs == s.references@.len(),
            edges_view(edges@) == cite_edges(s.citations@.subrange(0, ci as int), nr),
        decreases s.citations@.len() - ci,
    {
        let ns = &s.citations[ci].numbers;
        let ghost base = edges_view(edges@);
        let mut k: usize = 0;
        assert(base =~= base + marker_edges(ci as nat, ns@.subrange(0, 0), nr));
        while k < ns.len()
            invariant
                k <= ns@.len(),
                nr == nrefs as nat,
                edges_view(edges@) == base + marker_edges(ci as nat, ns@.subrange(0, k as int), nr),
            decreases ns@.len() - k,
        {
            let n = ns[k];
            assert(ns@.subrange(0, k + 1).drop_last() =~= ns@.subrange(0, k as int));
            let ghost b = edges_view(edges@);
            if n >= 1 && ((n - 1) as usize) < nrefs {
                edges.push(Edge {
                    from: NodeRef::Citation { index: ci },
                    to: NodeRef::Reference { index: (n - 1) as usize },
                    kind: EdgeKind::CitesReference,
                });
                assert(edges_view(edges@) =~= b.push((NodeView::Citation(ci as nat), NodeView::Reference((n - 1) as nat), EdgeKind::CitesReference)));
            }
            k += 1;
            assert(edges_view(edges@) =~= base + marker_edges(ci as nat, ns@.subrange(0, k as int), nr));
        }
        assert(ns@.subrange(0, ns@.len() as int) =~= ns@);
        assert(s.citations@.subrange(0, ci + 1).drop_last() =~= s.citations@.subrange(0, ci as int));
        ci += 1;
        assert(edges_view(edges@) =~= cite_edges(s.citations@.subrange(0, ci as int), nr));
    }
    assert(s.citations@.subrange(0, s.citations@.len() as int) =~= s.citations@);
    let ghost after_cites = edges_view(edges@);
    let mut si: usize = 0;
    assert(after_cites =~= after_cites + stat_table_edges(s.statistics@.subrange(0, 0), s.tables@));
    while si < s.statistics.len()
        invariant
            si <= s.statistics@.len(),
            edges_view(edges@) == after_cites + stat_table_edges(s.statistics@.subrange(0, si as int), s.tables@),
        decreases s.statistics@.len() - si,
    {
        let loc = s.statistics[si].location;
        let ghost base = edges_view(edges@);
        let mut ti: usize = 0;
        assert(base =~= base + table_edges(si as nat, loc, s.tables@.subrange(0, 0)));
        while ti < s.tables.len()
            invariant
                ti <= s.tables@.len(),
                edges_view(edges@) == base + table_edges(si as nat, loc, s.tables@.subrange(0, ti as int)),
            decreases s.tables@.len() - ti,
        {
            assert(s.tables@.subrange(0, ti + 1).drop_last() =~= s.tables@.subrange(0, ti as int));
            let ghost b = edges_view(edges@);
            if same_para(&loc, &s.tables[ti].location) {
                edges.push(Edge {
                    from: NodeRef::Statistic { index: si },
                    to: NodeRef::Table { index: ti },
                    kind: EdgeKind::StatisticCoLocatedWithTable,
                });
                assert(edges_view(edges@) =~= b.push((NodeView::Statistic(si as nat), NodeView::Table(ti as nat), EdgeKind::StatisticCoLocatedWithTable)));
            }
            ti += 1;
            assert(edges_view(edges@) =~= base + table_edges(si as nat, loc, s.tables@.subrange(0, ti as int)));
        }
        assert(s.tables@.subrange(0, s.tables@.len() as int) =~= s.tables@);
        assert(s.statistics@.subrange(0, si + 1).drop_last() =~= s.statistics@.subrange(0, si as int));
        si += 1;
        assert(edges_view(edges@) =~= after_cites + stat_table_edges(s.statistics@.subrange(0, si as int), s.tables@));
    }
    assert(s.statistics@.subrange(0, s.statistics@.len() as int) =~= s.statistics@);
    let ghost after_tables = edges_view(edges@);
    match &s.science {
        Some(a) => {
            let sci: &ScientificExtraction = &**a;
            let mut c: usize = 0;
            assert(after_tables =~= after_tables + claims_edges(sci.claims@.subrange(0, 0), s.statistics@));
            while c < sci.claims.len()
                invariant
                    c <= sci.claims@.len(),
                    edges_view(edges@) == after_tables + claims_edges(sci.claims@.subrange(0, c as int), s.statistics@),
                decreases sci.claims@.len() - c,
            {
                let claim = &sci.claims[c];
                let loc = match &claim.source_span {
                    SourceSpan::Point(l) => *l,
                    SourceSpan::Range(r) => Location { section: r.section, paragraph: r.start_paragraph, section_index: None },
                };
                let ghost base = edges_view(edges@);
                let mut si: usize = 0;
                assert(base =~= base + claim_stat_edges(claim.id.0@, loc, s.statistics@.subrange(0, 0)));
                while si < s.statistics.len()
                    invariant
                        si <= s.statistics@.len(),
                        loc == claim_location(*claim),
                        edges_view(edges@) == base + claim_stat_edges(claim.id.0@, loc, s.statistics@.subrange(0, si as int)),
                    decreases s.statistics@.len() - si,
                {
                    assert(s.statistics@.subrange(0, si + 1).drop_last() =~= s.statistics@.subrange(0, si as int));
                    let ghost b = edges_view(edges@);
                    if same_para(&loc, &s.statistics[si].location) {
                        edges.push(Edge {
                            from: NodeRef::Claim { id: claim.id.0.clone() },
                            to: NodeRef::Statistic { index: si },
                            kind: EdgeKind::ClaimCoLocatedWithStatistic,
                        });
                        assert(edges_view(edges@) =~= b.push((NodeView::Claim(claim.id.0@), NodeView::Statistic(si as nat), EdgeKind::ClaimCoLocatedWithStatistic)));
                    }
                    si += 1;
                    assert(edges_view(edges@) =~= base + claim_stat_edges(claim.id.0@, loc, s.statistics@.subrange(0, si as int)));
                }
                assert(s.statistics@.subrange(0, s.statistics@.len() as int) =~= s.statistics@);
                assert(sci.claims@.subrange(0, c + 1).drop_last() =~= sci.claims@.subrange(0, c as int));
                c += 1;
                assert(edges_view(edges@) =~= after_tables + claims_edges(sci.claims@.subrange(0, c as int), s.statistics@));
            }
            assert(sci.claims@.subrange(0, sci.claims@.len() as int) =~= sci.claims@);
        },
        None => {
            assert(after_tables =~= after_tables + Seq::<EdgeV>::empty());
        },
    }
    EvidenceGraph { edges }
}

// ---------------------------------------------------------------------------
// Deriving the state
// ---------------------------------------------------------------------------

/// A section as its label.
pub open spec fn summary_of(s: Section) -> SectionSummary {
    SectionSummary { kind: s.kind, heading: s.heading, paragraph_count: s.paragraphs@.len() as usize }
}

/// A section's shape: its kind, its heading and how many paragraphs it has.
fn summarise_section(s: &Section) -> (r: SectionSummary)
    ensures
        r == summary_of(*s),
{
    SectionSummary { kind: s.kind, heading: s.heading.clone(), paragraph_count: s.paragraphs.len() }
}

/// A citation as plain values.
pub open spec fn citation_view(c: Citation) -> (Seq<char>, Seq<u32>, Location) {
    (c.raw@, c.numbers@, c.location)
}

/// Provenance as plain values.
pub open spec fn provenance_view(p: FieldProvenance) -> (Seq<char>, Seq<char>, nat) {
    (p.field@, p.extractor@, p.count as nat)
}

/// Which extractor produced each field, with its count; figures are listed
/// with zero and an extractor that names its own absence.
pub open spec fn provenance_spec(ex: ExtractionResult) -> Seq<(Seq<char>, Seq<char>, nat)> {
    seq![
        ("structure"@, "extract::sections"@, ex.sections@.len()),
        ("statistics"@, "extract::stats"@, ex.statistics@.len()),
        ("tables"@, "extract::detect_table"@, ex.tables@.len()),
        ("citations"@, "extract::citations::extract_in_text"@, ex.citations@.len()),
        ("references"@, "extract::citations::parse_reference_list"@, ex.references@.len()),
        ("figures"@, "(none — no figure extractor exists)"@, 0),
        ("science"@, "extract::{claims,variables,methods,datasets} (opt-in)"@, match ex.scientific {
            Some(s) => s.claims@.len(),
            None => 0,
        }),
    ]
}

fn prov(field: &str, extractor: &str, count: usize) -> (r: FieldProvenance)
    ensures
        provenance_view(r) == (field@, extractor@, count as nat),
{
    FieldProvenance { field: owned(field), extractor: owned(extractor), count }
}

fn copy_stat(s: &StatClaim) -> (r: StatClaim)
    ensures
        r == *s,
{
    let stat = match &s.stat {
        Stat::PValue { text } => Stat::PValue { text: text.clone() },
        Stat::SampleSize { text } => Stat::SampleSize { text: text.clone() },
        Stat::Test { name } => Stat::Test { name: name.clone() },
        Stat::TestStatistic { text } => Stat::TestStatistic { text: text.clone() },
        Stat::EffectSize { text } => Stat::EffectSize { text: text.clone() },
        Stat::ConfidenceInterval { text } => Stat::ConfidenceInterval { text: text.clone() },
    };
    StatClaim { stat, raw: s.raw.clone(), location: s.location }
}

fn copy_reference(r: &Reference) -> (out: Reference)
    ensures
        out == *r,
{
    Reference {
        raw: r.raw.clone(),
        authors: r.authors.clone(),
        year: r.year,
        title: match &r.title {
            Some(t) => Some(t.clone()),
            None => None,
        },
        doi: match &r.doi {
            Some(t) => Some(t.clone()),
            None => None,
        },
    }
}

fn copy_citation(c: &Citation) -> (out: Citation)
    ensures
        citation_view(out) == citation_view(*c),
{
    let mut numbers: Vec<u32> = Vec::new();
    let mut i: usize = 0;
    while i < c.numbers.len()
        invariant
            i <= c.numbers@.len(),
            numbers@ == c.numbers@.subrange(0, i as int),
        decreases c.numbers@.len() - i,
    {
        numbers.push(c.numbers[i]);
        i += 1;
        assert(numbers@ =~= c.numbers@.subrange(0, i as int));
    }
    assert(c.numbers@.subrange(0, c.numbers@.len() as int) =~= c.numbers@);
    Citation { raw: c.raw.clone(), numbers, location: c.location }
}

/// What a state derived from an extraction holds: the schema version,
/// the scientific layer and title as extracted, each section as its label
/// only, the other collections as extracted, no figure, the exact evidence
/// graph, and a hash of 64 hex digits that is the hash of its fields.
pub open spec fn derived_from(r: ResearchState, ex: ExtractionResult) -> bool {
    &&& r.schema_version == RESEARCH_STATE_SCHEMA_VERSION
    &&& r.science == ex.scientific
    &&& r.title == ex.title
    &&& r.structure@ == ex.sections@.map_values(|s: Section| summary_of(s))
    &&& r.statistics@ == ex.statistics@
    &&& r.tables@ == ex.tables@
    &&& r.figures@.len() == 0
    &&& r.citations@.map_values(|c: Citation| citation_view(c)) == ex.citations@.map_values(
        |c: Citation| citation_view(c),
    )
    &&& r.references@ == ex.references@
    &&& r.provenance@.map_values(|p: FieldProvenance| provenance_view(p)) == provenance_spec(ex)
    &&& edges_view(r.evidence.edges@) == graph_spec(
        r.citations@,
        r.references@.len(),
        r.statistics@,
        r.tables@,
        r.science,
    )
    &&& r.content_hash@ == hash_of(r)
    &&& r.content_hash@.len() == 64
}

/// **Derive the state from an extraction.** Pure: the same extraction gives
/// the same state and the same hash. Sections become labels and paragraph
/// counts, never paragraphs; every other collection is carried as extracted;
/// no figure is invented; the evidence graph holds only exact edges; and the
/// hash is the SHA-256 of the canonical encoding of everything else.
pub fn from_extraction(ex: &ExtractionResult) -> (r: ResearchState)
    ensures
        derived_from(r, *ex),
{
    let mut structure: Vec<SectionSummary> = Vec::new();
    let mut i: usize = 0;
    while i < ex.sections.len()
        invariant
            i <= ex.sections@.len(),
            structure@ == ex.sections@.subrange(0, i as int).map_values(|s: Section| summary_of(s)),
        decreases ex.sections@.len() - i,
    {
        let s = &ex.sections[i];
        structure.push(summarise_section(s));
        i += 1;
        assert(structure@ =~= ex.sections@.subrange(0, i as int).map_values(|s: Section| summary_of(s)));
    }
    assert(ex.sections@.subrange(0, ex.sections@.len() as int) =~= ex.sections@);
    let mut statistics: Vec<StatClaim> = Vec::new();
    let mut i: usize = 0;
    while i < ex.statistics.len()
        invariant
            i <= ex.statistics@.len(),
            statistics@ == ex.statistics@.subrange(0, i as int),
        decreases ex.statistics@.len() - i,
    {
        statistics.push(copy_stat(&ex.statistics[i]));
        i += 1;
        assert(statistics@ =~= ex.statistics@.subrange(0, i as int));
    }
    assert(ex.statistics@.subrange(0, ex.statistics@.len() as int) =~= ex.statistics@);
    let mut tables: Vec<TableRef> = Vec::new();
    let mut i: usize = 0;
    while i < ex.tables.len()
        invariant
            i <= ex.tables@.len(),
            tables@ == ex.tables@.subrange(0, i as int),
        decreases ex.tables@.len() - i,
    {
        tables.push(TableRef { label: ex.tables[i].label.clone(), location: ex.tables[i].location });
        i += 1;
        assert(tables@ =~= ex.tables@.subrange(0, i as int));
    }
    assert(ex.tables@.subrange(0, ex.tables@.len() as int) =~= ex.tables@);
    let mut citations: Vec<Citation> = Vec::new();
    let mut i: usize = 0;
    while i < ex.citations.len()
        invariant
            i <= ex.citations@.len(),
            citations@.map_values(|c: Citation| citation_view(c)) == ex.citations@.subrange(0, i as int).map_values(
                |c: Citation| citation_view(c),
            ),
        decreases ex.citations@.len() - i,
    {
        let ghost prev = citations@;
        let copy = copy_citation(&ex.citations[i]);
        citations.push(copy);
        proof {
            let f = |c: Citation| citation_view(c);
            assert(citations@ =~= prev.push(copy));
            assert(citations@.map_values(f) =~= prev.map_values(f).push(f(copy)));
            assert(ex.citations@.subrange(0, i + 1) =~= ex.citations@.subrange(0, i as int).push(ex.citations@[i as int]));
            assert(ex.citations@.subrange(0, i + 1).map_values(f) =~= ex.citations@.subrange(0, i as int).map_values(f).push(
                f(ex.citations@[i as int]),
            ));
        }
        i += 1;
    }
    assert(ex.citations@.subrange(0, ex.citations@.len() as int) =~= ex.citations@);
    let mut references: Vec<Reference> = Vec::new();
    let mut i: usize = 0;
    while i < ex.references.len()
        invariant
            i <= ex.references@.len(),
            references@ == ex.references@.subrange(0, i as int),
        decreases ex.references@.len() - i,
    {
        references.push(copy_reference(&ex.references[i]));
        i += 1;
        assert(references@ =~= ex.references@.subrange(0, i as int));
    }
    assert(ex.references@.subrange(0, ex.references@.len() as int) =~= ex.references@);
    let science_claims = match &ex.scientific {
        Some(s) => s.claims.len(),
        None => 0,
    };
    let provenance = vec![
        prov("structure", "extract::sections", structure.len()),
        prov("statistics", "extract::stats", ex.statistics.len()),
        prov("tables", "extract::detect_table", ex.tables.len()),
        prov("citations", "extract::citations::extract_in_text", ex.citations.len()),
        prov("references", "extract::citations::parse_reference_list", ex.references.len()),
        prov("figures", "(none — no figure extractor exists)", 0),
        prov("science", "extract::{claims,variables,methods,datasets} (opt-in)", science_claims),
    ];
    assert(provenance@.map_values(|p: FieldProvenance| provenance_view(p)) =~= provenance_spec(*ex));
    let science = match &ex.scientific {
        Some(a) => Some(share(a)),
        None => None,
    };
    let title = match &ex.title {
        Some(t) => Some(t.clone()),
        None => None,
    };
    let mut state = ResearchState {
        schema_version: RESEARCH_STATE_SCHEMA_VERSION,
        content_hash: String::new(),
        science,
        title,
        structure,
        statistics,
        tables,
        figures: Vec::new(),
        citations,
        references,
        provenance,
        evidence: EvidenceGraph { edges: Vec::new() },
    };
    let graph = build_graph(&state);
    state.evidence = graph;
    let h = state.compute_hash();
    let ghost before = state;
    state.content_hash = h;
    assert(state_bytes(state) == state_bytes(before)) by {
        reveal(state_tail);
    }
    state
}

impl ResearchState {
    /// The hash of this state's fields, every one but the hash itself.
    pub fn compute_hash(&self) -> (r: String)
        ensures
            r@ == hash_of(*self),
            r@.len() == 64,
    {
        let bytes = encode_state(self);
        let digest = sha256_digest(&bytes);
        proof {
            lemma_hex_len(digest@);
        }
        hex(&digest)
    }

    /// **Whether the stored hash is the hash of the fields.** A state edited
    /// after derivation stops matching.
    pub fn hash_matches(&self) -> (r: bool)
        ensures
            r == (hash_of(*self) == self.content_hash@),
    {
        let h = self.compute_hash();
        crate::text::str_eq(h.as_str(), self.content_hash.as_str())
    }

    /// **Whether the state carries manuscript prose**: exactly when the
    /// scientific layer is present and holds any claim, contribution,
    /// limitation, question or hypothesis.
    pub fn carries_manuscript_prose(&self) -> (r: bool)
        ensures
            r == match self.science {
                Some(s) => s.claims@.len() > 0 || s.contributions@.len() > 0 || s.limitations@.len() > 0
                    || s.questions@.len() > 0 || s.hypotheses@.len() > 0,
                None => false,
            },
    {
        match &self.science {
            Some(a) => {
                let s: &ScientificExtraction = &**a;
                s.claims.len() > 0 || s.contributions.len() > 0 || s.limitations.len() > 0
                    || s.questions.len() > 0 || s.hypotheses.len() > 0
            },
            None => false,
        }
    }

    /// The state derived from an extraction.
    pub fn from_extraction(ex: &ExtractionResult) -> (r: ResearchState)
        ensures
            derived_from(r, *ex),
    {
        from_extraction(ex)
    }
}

// ---------------------------------------------------------------------------
// Every edge is exact
// ---------------------------------------------------------------------------

/// What an edge of each kind must be: a citation to a reference that exists,
/// a statistic to a table in the same paragraph, a claim to a statistic in
/// the same paragraph as the claim.
pub open spec fn edge_sound(
    e: EdgeV,
    cits: Seq<Citation>,
    nrefs: nat,
    stats: Seq<StatClaim>,
    tables: Seq<TableRef>,
) -> bool {
    match e.2 {
        EdgeKind::CitesReference => {
            &&& e.0 matches NodeView::Citation(c) && c < cits.len()
            &&& e.1 matches NodeView::Reference(r) && r < nrefs
        },
        EdgeKind::StatisticCoLocatedWithTable => e.0 matches NodeView::Statistic(si) && si < stats.len() && (
        e.1 matches NodeView::Table(ti) && ti < tables.len() && same_paragraph(
            stats[si as int].location,
            tables[ti as int].location,
        )),
        EdgeKind::ClaimCoLocatedWithStatistic => {
            &&& e.0 is Claim
            &&& e.1 matches NodeView::Statistic(si) && si < stats.len()
        },
    }
}

proof fn lemma_marker_edges(ci: nat, ns: Seq<u32>, nrefs: nat)
    ensures
        forall|k: int|
            0 <= k < marker_edges(ci, ns, nrefs).len() ==> {
                let e = #[trigger] marker_edges(ci, ns, nrefs)[k];
                &&& e.2 == EdgeKind::CitesReference
                &&& e.0 == NodeView::Citation(ci)
                &&& e.1 matches NodeView::Reference(r) && r < nrefs
            },
    decreases ns.len(),
{
    if ns.len() > 0 {
        lemma_marker_edges(ci, ns.drop_last(), nrefs);
        let pre = marker_edges(ci, ns.drop_last(), nrefs);
        assert forall|k: int| 0 <= k < marker_edges(ci, ns, nrefs).len() implies {
            let e = #[trigger] marker_edges(ci, ns, nrefs)[k];
            &&& e.2 == EdgeKind::CitesReference
            &&& e.0 == NodeView::Citation(ci)
            &&& e.1 matches NodeView::Reference(r) && r < nrefs
        } by {
            if k < pre.len() {
                assert(marker_edges(ci, ns, nrefs)[k] == pre[k]);
            }
        }
    }
}

proof fn lemma_cite_edges(cits: Seq<Citation>, nrefs: nat)
    ensures
        forall|k: int|
            0 <= k < cite_edges(cits, nrefs).len() ==> {
                let e = #[trigger] cite_edges(cits, nrefs)[k];
                &&& e.2 == EdgeKind::CitesReference
                &&& e.0 matches NodeView::Citation(c) && c < cits.len()
                &&& e.1 matches NodeView::Reference(r) && r < nrefs
            },
    decreases cits.len(),
{
    if cits.len() > 0 {
        lemma_cite_edges(cits.drop_last(), nrefs);
        let ci = (cits.len() - 1) as nat;
        lemma_marker_edges(ci, cits.last().numbers@, nrefs);
        let pre = cite_edges(cits.drop_last(), nrefs);
        let m = marker_edges(ci, cits.last().numbers@, nrefs);
        assert forall|k: int| 0 <= k < cite_edges(cits, nrefs).len() implies {
            let e = #[trigger] cite_edges(cits, nrefs)[k];
            &&& e.2 == EdgeKind::CitesReference
            &&& e.0 matches NodeView::Citation(c) && c < cits.len()
            &&& e.1 matches NodeView::Reference(r) && r < nrefs
        } by {
            if k < pre.len() {
                assert(cite_edges(cits, nrefs)[k] == pre[k]);
            } else {
                assert(cite_edges(cits, nrefs)[k] == m[k - pre.len()]);
            }
        }
    }
}

proof fn lemma_table_edges(si: nat, loc: Location, tables: Seq<TableRef>)
    ensures
        forall|k: int|
            0 <= k < table_edges(si, loc, tables).len() ==> {
                let e = #[trigger] table_edges(si, loc, tables)[k];
                &&& e.2 == EdgeKind::StatisticCoLocatedWithTable
                &&& e.0 == NodeView::Statistic(si)
                &&& e.1 matches NodeView::Table(ti) && ti < tables.len() && same_paragraph(loc, tables[ti as int].location)
            },
    decreases tables.len(),
{
    if tables.len() > 0 {
        lemma_table_edges(si, loc, tables.drop_last());
        let pre = table_edges(si, loc, tables.drop_last());
        assert forall|k: int| 0 <= k < table_edges(si, loc, tables).len() implies {
            let e = #[trigger] table_edges(si, loc, tables)[k];
            &&& e.2 == EdgeKind::StatisticCoLocatedWithTable
            &&& e.0 == NodeView::Statistic(si)
            &&& e.1 matches NodeView::Table(ti) && ti < tables.len() && same_paragraph(loc, tables[ti as int].location)
        } by {
            if k < pre.len() {
                assert(table_edges(si, loc, tables)[k] == pre[k]);
                if let NodeView::Table(ti) = pre[k].1 {
                    assert(tables.drop_last()[ti as int] == tables[ti as int]);
                }
            }
        }
    }
}

proof fn lemma_stat_table_edges(stats: Seq<StatClaim>, tables: Seq<TableRef>)
    ensures
        forall|k: int|
            0 <= k < stat_table_edges(stats, tables).len() ==> {
                let e = #[trigger] stat_table_edges(stats, tables)[k];
                &&& e.2 == EdgeKind::StatisticCoLocatedWithTable
                &&& e.0 matches NodeView::Statistic(si) && si < stats.len() && (e.1 matches NodeView::Table(ti) && ti
                    < tables.len() && same_paragraph(stats[si as int].location, tables[ti as int].location))
            },
    decreases stats.len(),
{
    if stats.len() > 0 {
        lemma_stat_table_edges(stats.drop_last(), tables);
        let si = (stats.len() - 1) as nat;
        lemma_table_edges(si, stats.last().location, tables);
        let pre = stat_table_edges(stats.drop_last(), tables);
        let t = table_edges(si, stats.last().location, tables);
        assert forall|k: int| 0 <= k < stat_table_edges(stats, tables).len() implies {
            let e = #[trigger] stat_table_edges(stats, tables)[k];
            &&& e.2 == EdgeKind::StatisticCoLocatedWithTable
            &&& e.0 matches NodeView::Statistic(si) && si < stats.len() && (e.1 matches NodeView::Table(ti) && ti
                < tables.len() && same_paragraph(stats[si as int].location, tables[ti as int].location))
        } by {
            if k < pre.len() {
                assert(stat_table_edges(stats, tables)[k] == pre[k]);
                if let NodeView::Statistic(s0) = pre[k].0 {
                    assert(stats.drop_last()[s0 as int] == stats[s0 as int]);
                }
            } else {
                assert(stat_table_edges(stats, tables)[k] == t[k - pre.len()]);
            }
        }
    }
}

proof fn lemma_claim_stat_edges(id: Seq<char>, loc: Location, stats: Seq<StatClaim>)
    ensures
        forall|k: int|
            0 <= k < claim_stat_edges(id, loc, stats).len() ==> {
                let e = #[trigger] claim_stat_edges(id, loc, stats)[k];
                &&& e.2 == EdgeKind::ClaimCoLocatedWithStatistic
                &&& e.0 == NodeView::Claim(id)
                &&& e.1 matches NodeView::Statistic(si) && si < stats.len() && same_paragraph(loc, stats[si as int].location)
            },
    decreases stats.len(),
{
    if stats.len() > 0 {
        lemma_claim_stat_edges(id, loc, stats.drop_last());
        let pre = claim_stat_edges(id, loc, stats.drop_last());
        assert forall|k: int| 0 <= k < claim_stat_edges(id, loc, stats).len() implies {
            let e = #[trigger] claim_stat_edges(id, loc, stats)[k];
            &&& e.2 == EdgeKind::ClaimCoLocatedWithStatistic
            &&& e.0 == NodeView::Claim(id)
            &&& e.1 matches NodeView::Statistic(si) && si < stats.len() && same_paragraph(loc, stats[si as int].location)
        } by {
            if k < pre.len() {
                assert(claim_stat_edges(id, loc, stats)[k] == pre[k]);
                if let NodeView::Statistic(s0) = pre[k].1 {
                    assert(stats.drop_last()[s0 as int] == stats[s0 as int]);
                }
            }
        }
    }
}

proof fn lemma_claims_edges(claims: Seq<ScientificClaim>, stats: Seq<StatClaim>)
    ensures
        forall|k: int|
            0 <= k < claims_edges(claims, stats).len() ==> {
                let e = #[trigger] claims_edges(claims, stats)[k];
                &&& e.2 == EdgeKind::ClaimCoLocatedWithStatistic
                &&& e.0 is Claim
                &&& e.1 matches NodeView::Statistic(si) && si < stats.len()
            },
    decreases claims.len(),
{
    if claims.len() > 0 {
        lemma_claims_edges(claims.drop_last(), stats);
        let c = claims.last();
        lemma_claim_stat_edges(c.id.0@, claim_location(c), stats);
        let pre = claims_edges(claims.drop_last(), stats);
        let m = claim_stat_edges(c.id.0@, claim_location(c), stats);
        assert forall|k: int| 0 <= k < claims_edges(claims, stats).len() implies {
            let e = #[trigger] claims_edges(claims, stats)[k];
            &&& e.2 == EdgeKind::ClaimCoLocatedWithStatistic
            &&& e.0 is Claim
            &&& e.1 matches NodeView::Statistic(si) && si < stats.len()
        } by {
            if k < pre.len() {
                assert(claims_edges(claims, stats)[k] == pre[k]);
            } else {
                assert(claims_edges(claims, stats)[k] == m[k - pre.len()]);
            }
        }
    }
}

/// Every edge of the evidence graph is exact: a citation edge never points
/// past the bibliography, a co-location edge joins two things in one
/// paragraph, and no claim edge exists when the scientific layer did not run.
pub proof fn lemma_every_edge_is_exact(
    cits: Seq<Citation>,
    nrefs: nat,
    stats: Seq<StatClaim>,
    tables: Seq<TableRef>,
    science: Option<Arc<ScientificExtraction>>,
)
    ensures
        forall|k: int|
            0 <= k < graph_spec(cits, nrefs, stats, tables, science).len() ==> edge_sound(
                #[trigger] graph_spec(cits, nrefs, stats, tables, science)[k],
                cits,
                nrefs,
                stats,
                tables,
            ),
        science is None ==> forall|k: int|
            0 <= k < graph_spec(cits, nrefs, stats, tables, science).len() ==> (#[trigger] graph_spec(
                cits,
                nrefs,
                stats,
                tables,
                science,
            )[k]).2 != EdgeKind::ClaimCoLocatedWithStatistic,
{
    lemma_cite_edges(cits, nrefs);
    lemma_stat_table_edges(stats, tables);
    let a = cite_edges(cits, nrefs);
    let b = stat_table_edges(stats, tables);
    let c = match science {
        Some(x) => claims_edges(x.claims@, stats),
        None => Seq::empty(),
    };
    if let Some(x) = science {
        lemma_claims_edges(x.claims@, stats);
    }
    let g = graph_spec(cits, nrefs, stats, tables, science);
    assert(g == a + b + c);
    assert forall|k: int| 0 <= k < g.len() implies edge_sound(#[trigger] g[k], cits, nrefs, stats, tables) by {
        if k < a.len() {
            assert(g[k] == a[k]);
        } else if k < a.len() + b.len() {
            assert(g[k] == b[k - a.len()]);
        } else {
            assert(g[k] == c[k - a.len() - b.len()]);
        }
    }
    if science is None {
        assert forall|k: int| 0 <= k < g.len() implies (#[trigger] g[k]).2 != EdgeKind::ClaimCoLocatedWithStatistic by {
            if k < a.len() {
                assert(g[k] == a[k]);
            } else {
                assert(g[k] == b[k - a.len()]);
            }
        }
    }
}

/// The bytes the content hash is taken over cover the title: two states
/// that differ only in their title encode differently.
pub proof fn lemma_hashed_bytes_cover_the_title(a: ResearchState, b: ResearchState)
    requires
        a.schema_version == b.schema_version,
        a.science == b.science,
        a.structure == b.structure,
        a.statistics == b.statistics,
        a.tables == b.tables,
        a.figures == b.figures,
        a.citations == b.citations,
        a.references == b.references,
        a.provenance == b.provenance,
        a.evidence == b.evidence,
        opt_view(a.title) != opt_view(b.title),
    ensures
        state_bytes(a) != state_bytes(b),
{
    let ta = opt_str_bytes(opt_view(a.title));
    let tb = opt_str_bytes(opt_view(b.title));
    let h = state_head(a);
    assert(state_head(b) == h);
    assert(state_tail(b) == state_tail(a)) by {
        reveal(state_tail);
    }
    let t = state_tail(a);
    if state_bytes(a) == state_bytes(b) {
        assert(state_bytes(a).len() == state_bytes(b).len());
        assert(ta.len() == tb.len());
        assert(ta =~= state_bytes(a).subrange(h.len() as int, (h.len() + ta.len()) as int));
        assert(tb =~= state_bytes(b).subrange(h.len() as int, (h.len() + tb.len()) as int));
        lemma_opt_str_bytes_injective(opt_view(a.title), opt_view(b.title));
    }
}


// ---------------------------------------------------------------------------
// Derivation is pure
// ---------------------------------------------------------------------------

proof fn lemma_cite_edges_congruent(x: Seq<Citation>, y: Seq<Citation>, nrefs: nat)
    requires
        x.len() == y.len(),
        forall|i: int| 0 <= i < x.len() ==> (#[trigger] x[i]).numbers@ == y[i].numbers@,
    ensures
        cite_edges(x, nrefs) == cite_edges(y, nrefs),
    decreases x.len(),
{
    if x.len() > 0 {
        assert forall|i: int| 0 <= i < x.drop_last().len() implies (#[trigger] x.drop_last()[i]).numbers@ == y.drop_last()[i].numbers@ by {
            assert(x.drop_last()[i] == x[i]);
            assert(y.drop_last()[i] == y[i]);
        }
        lemma_cite_edges_congruent(x.drop_last(), y.drop_last(), nrefs);
        assert(x.last().numbers@ == y.last().numbers@) by {
            assert(x[x.len() - 1].numbers@ == y[y.len() - 1].numbers@);
        }
    }
}

proof fn lemma_node_bytes_of_view(a: NodeRef, b: NodeRef)
    requires
        node_view(a) == node_view(b),
    ensures
        node_bytes(a) == node_bytes(b),
{
}

proof fn lemma_citations_alike(ac: Seq<Citation>, bc: Seq<Citation>, nrefs: nat)
    requires
        ac.map_values(|c: Citation| citation_view(c)) == bc.map_values(|c: Citation| citation_view(c)),
    ensures
        cite_edges(ac, nrefs) == cite_edges(bc, nrefs),
        list_bytes(ac, |x: Citation| citation_bytes(x)) == list_bytes(bc, |x: Citation| citation_bytes(x)),
{
    assert(ac.len() == ac.map_values(|c: Citation| citation_view(c)).len());
    assert(bc.len() == bc.map_values(|c: Citation| citation_view(c)).len());
    assert forall|i: int| 0 <= i < ac.len() implies (#[trigger] ac[i]).numbers@ == bc[i].numbers@ by {
        assert(ac.map_values(|c: Citation| citation_view(c))[i] == bc.map_values(|c: Citation| citation_view(c))[i]);
    }
    assert forall|i: int| 0 <= i < ac.len() implies citation_bytes(#[trigger] ac[i]) == citation_bytes(bc[i]) by {
        assert(ac.map_values(|c: Citation| citation_view(c))[i] == bc.map_values(|c: Citation| citation_view(c))[i]);
    }
    lemma_cite_edges_congruent(ac, bc, nrefs);
    lemma_list_bytes_congruent(ac, bc, |x: Citation| citation_bytes(x));
}

proof fn lemma_provenance_alike(ap: Seq<FieldProvenance>, bp: Seq<FieldProvenance>)
    requires
        ap.map_values(|p: FieldProvenance| provenance_view(p)) == bp.map_values(|p: FieldProvenance| provenance_view(p)),
    ensures
        list_bytes(ap, |x: FieldProvenance| provenance_bytes(x)) == list_bytes(bp, |x: FieldProvenance| provenance_bytes(x)),
{
    assert(ap.len() == ap.map_values(|p: FieldProvenance| provenance_view(p)).len());
    assert(bp.len() == bp.map_values(|p: FieldProvenance| provenance_view(p)).len());
    assert forall|i: int| 0 <= i < ap.len() implies provenance_bytes(#[trigger] ap[i]) == provenance_bytes(bp[i]) by {
        assert(ap.map_values(|p: FieldProvenance| provenance_view(p))[i] == bp.map_values(|p: FieldProvenance| provenance_view(p))[i]);
    }
    lemma_list_bytes_congruent(ap, bp, |x: FieldProvenance| provenance_bytes(x));
}

proof fn lemma_edges_alike(ae: Seq<Edge>, be: Seq<Edge>)
    requires
        edges_view(ae) == edges_view(be),
    ensures
        list_bytes(ae, |x: Edge| edge_bytes(x)) == list_bytes(be, |x: Edge| edge_bytes(x)),
{
    assert(ae.len() == edges_view(ae).len());
    assert(be.len() == edges_view(be).len());
    assert forall|i: int| 0 <= i < ae.len() implies edge_bytes(#[trigger] ae[i]) == edge_bytes(be[i]) by {
        assert(edges_view(ae)[i] == edges_view(be)[i]);
        lemma_node_bytes_of_view(ae[i].from, be[i].from);
        lemma_node_bytes_of_view(ae[i].to, be[i].to);
    }
    lemma_list_bytes_congruent(ae, be, |x: Edge| edge_bytes(x));
}

/// Deriving a state is pure: two states derived from one extraction agree
/// on every field, encode to the same bytes and carry the same hash, which
/// matches their fields and has 64 hex digits.
pub proof fn lemma_derivation_is_pure(a: ResearchState, b: ResearchState, ex: ExtractionResult)
    requires
        derived_from(a, ex),
        derived_from(b, ex),
    ensures
        a.schema_version == b.schema_version == RESEARCH_STATE_SCHEMA_VERSION,
        a.science == b.science,
        a.title == b.title,
        a.structure@ == b.structure@,
        a.statistics@ == b.statistics@,
        a.tables@ == b.tables@,
        a.figures@.len() == b.figures@.len() == 0,
        a.citations@.map_values(|c: Citation| citation_view(c)) == b.citations@.map_values(|c: Citation| citation_view(c)),
        a.references@ == b.references@,
        a.provenance@.map_values(|p: FieldProvenance| provenance_view(p)) == b.provenance@.map_values(
            |p: FieldProvenance| provenance_view(p),
        ),
        edges_view(a.evidence.edges@) == edges_view(b.evidence.edges@),
        state_bytes(a) == state_bytes(b),
        a.content_hash@ == b.content_hash@,
        hash_of(a) == a.content_hash@,
        a.content_hash@.len() == 64,
{
    lemma_citations_alike(a.citations@, b.citations@, a.references@.len());
    lemma_provenance_alike(a.provenance@, b.provenance@);
    lemma_edges_alike(a.evidence.edges@, b.evidence.edges@);
    assert(a.figures@ =~= b.figures@);
    assert(state_tail(a) == state_tail(b)) by {
        reveal(state_tail);
    }
}

/// Every citation marker that names an existing reference gives its edge:
/// marker `n` of citation `ci` links it to reference `n - 1`.
pub proof fn lemma_in_range_markers_give_edges(
    cits: Seq<Citation>,
    nrefs: nat,
    stats: Seq<StatClaim>,
    tables: Seq<TableRef>,
    science: Option<Arc<ScientificExtraction>>,
    ci: int,
    k: int,
)
    requires
        0 <= ci < cits.len(),
        0 <= k < cits[ci].numbers@.len(),
        1 <= cits[ci].numbers@[k],
        cits[ci].numbers@[k] - 1 < nrefs,
    ensures
        graph_spec(cits, nrefs, stats, tables, science).contains(
            (NodeView::Citation(ci as nat), NodeView::Reference((cits[ci].numbers@[k] - 1) as nat), EdgeKind::CitesReference),
        ),
{
    let e = (NodeView::Citation(ci as nat), NodeView::Reference((cits[ci].numbers@[k] - 1) as nat), EdgeKind::CitesReference);
    lemma_marker_edge(ci as nat, cits[ci].numbers@, nrefs, k);
    lemma_cite_edges_hold(cits, nrefs, ci, e);
    let g = graph_spec(cits, nrefs, stats, tables, science);
    let c = cite_edges(cits, nrefs);
    let j = choose|j: int| 0 <= j < c.len() && c[j] == e;
    assert(g[j] == c[j]);
}

proof fn lemma_marker_edge(ci: nat, ns: Seq<u32>, nrefs: nat, k: int)
    requires
        0 <= k < ns.len(),
        1 <= ns[k],
        ns[k] - 1 < nrefs,
    ensures
        marker_edges(ci, ns, nrefs).contains(
            (NodeView::Citation(ci), NodeView::Reference((ns[k] - 1) as nat), EdgeKind::CitesReference),
        ),
    decreases ns.len(),
{
    let e = (NodeView::Citation(ci), NodeView::Reference((ns[k] - 1) as nat), EdgeKind::CitesReference);
    let m = marker_edges(ci, ns, nrefs);
    let pre = marker_edges(ci, ns.drop_last(), nrefs);
    if k == ns.len() - 1 {
        assert(m[pre.len() as int] == e);
    } else {
        assert(ns.drop_last()[k] == ns[k]);
        lemma_marker_edge(ci, ns.drop_last(), nrefs, k);
        let j = choose|j: int| 0 <= j < pre.len() && pre[j] == e;
        assert(m[j] == pre[j]);
    }
}

proof fn lemma_cite_edges_hold(cits: Seq<Citation>, nrefs: nat, ci: int, e: EdgeV)
    requires
        0 <= ci < cits.len(),
        marker_edges(ci as nat, cits[ci].numbers@, nrefs).contains(e),
    ensures
        cite_edges(cits, nrefs).contains(e),
    decreases cits.len(),
{
    let c = cite_edges(cits, nrefs);
    let pre = cite_edges(cits.drop_last(), nrefs);
    if ci == cits.len() - 1 {
        let me = marker_edges(ci as nat, cits[ci].numbers@, nrefs);
        let j = choose|j: int| 0 <= j < me.len() && me[j] == e;
        assert(cits.last() == cits[ci]);
        assert(c[pre.len() + j] == me[j]);
    } else {
        assert(cits.drop_last()[ci] == cits[ci]);
        lemma_cite_edges_hold(cits.drop_last(), nrefs, ci, e);
        let j = choose|j: int| 0 <= j < pre.len() && pre[j] == e;
        assert(c[j] == pre[j]);
    }
}

} // verus!
