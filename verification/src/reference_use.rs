//! Which bibliography entries the text never cites, counted over the
//! verdicts of the author–year matcher, given as plain values.

use vstd::prelude::*;

use crate::collect::strs;
use crate::extract::Reference;
use crate::lines::{split_whitespace, tokens};
use crate::report::{CertaintyTier, FindingSeverity};
use crate::review::join_strings;
use crate::text::{decimal, decimal_int, join, owned, push_i32, push_str, push_usize};

verus! {

/// What the matcher decided of one bibliography entry.
#[derive(Debug, Clone, Copy, PartialEq, Eq, Structural)]
pub enum ReferenceUse {
    /// Some in-text citation names the entry.
    Cited,
    /// The entry could be checked and no citation names it.
    Uncited,
    /// The entry could not be checked (an ambiguous or missing key).
    NotEvaluated,
}

/// How many entries are named in the detail before the rest are summarised.
pub const UNCITED_EXAMPLE_LIMIT: usize = 5usize;

/// The finding about entries the text never cites.
#[derive(Debug)]
pub struct UncitedReferenceFinding {
    pub severity: FindingSeverity,
    pub tier: CertaintyTier,
    pub title: String,
    pub detail: String,
    pub provenance: Vec<String>,
}

/// How many entries the matcher could check.
pub open spec fn evaluated_count(vs: Seq<ReferenceUse>) -> nat
    decreases vs.len(),
{
    if vs.len() == 0 {
        0
    } else {
        evaluated_count(vs.drop_last()) + if vs.last() != ReferenceUse::NotEvaluated {
            1nat
        } else {
            0nat
        }
    }
}

/// The positions of the entries found uncited, in order.
pub open spec fn uncited_positions(vs: Seq<ReferenceUse>) -> Seq<int>
    decreases vs.len(),
{
    if vs.len() == 0 {
        Seq::empty()
    } else {
        uncited_positions(vs.drop_last()) + if vs.last() == ReferenceUse::Uncited {
            seq![vs.len() - 1]
        } else {
            Seq::empty()
        }
    }
}

/// An entry as the detail names it: the first word of its authors (or `?`),
/// then its year when it has one.
pub open spec fn entry_label(r: Reference) -> Seq<char> {
    let ts = tokens(r.authors@);
    let who = if ts.len() > 0 {
        ts[0]
    } else {
        "?"@
    };
    match r.year {
        Some(y) => who + " "@ + decimal_int(y as int),
        None => who,
    }
}

/// The labels of the given positions that name an entry, in order.
pub open spec fn labels_at(refs: Seq<Reference>, ps: Seq<int>) -> Seq<Seq<char>>
    decreases ps.len(),
{
    if ps.len() == 0 {
        Seq::empty()
    } else {
        labels_at(refs, ps.drop_last()) + if 0 <= ps.last() < refs.len() {
            seq![entry_label(refs[ps.last()])]
        } else {
            Seq::empty()
        }
    }
}

/// The examples the detail names: the first five uncited entries, then how
/// many more there are.
pub open spec fn examples_spec(refs: Seq<Reference>, un: Seq<int>) -> Seq<Seq<char>> {
    let first = labels_at(refs, un.take(if un.len() < 5 { un.len() as int } else { 5 }));
    if un.len() > first.len() {
        first.push("and "@ + decimal((un.len() - first.len()) as nat) + " more"@)
    } else {
        first
    }
}

/// The finding, as title, detail and provenance: none without references,
/// without verdicts, or without an uncited entry; otherwise both numbers are
/// stated — how many were checked out of how many, and how many could not
/// be checked and are not counted as uncited.
pub open spec fn uncited_spec(refs: Seq<Reference>, vs: Seq<ReferenceUse>) -> Option<(Seq<char>, Seq<char>, Seq<Seq<char>>)> {
    let total = refs.len();
    let evaluated = evaluated_count(vs);
    let un = uncited_positions(vs);
    if total == 0 || vs.len() == 0 || un.len() == 0 {
        None
    } else {
        Some(
            (
                decimal(un.len()) + " of "@ + decimal(evaluated) + " checked reference(s) appear never cited in the text"@,
                decimal(evaluated) + " of "@ + decimal(total) + " reference(s) were checked; "@ + decimal(un.len())
                    + " appear(s) never cited in the text ("@ + join(examples_spec(refs, un), "; "@) + "). "@ + decimal(
                    (total - evaluated) as nat,
                ) + " reference(s) could not be checked and are NOT counted as uncited."@,
                seq![
                    "signal:uncited_reference"@,
                    "evidence:checked="@ + decimal(evaluated) + "/"@ + decimal(total) + " uncited="@ + decimal(un.len()),
                    "agent:extraction (deterministic, author-year matching)"@,
                ],
            ),
        )
    }
}

proof fn lemma_counts_bounded(vs: Seq<ReferenceUse>)
    ensures
        evaluated_count(vs) <= vs.len(),
        uncited_positions(vs).len() <= evaluated_count(vs),
        forall|k: int| 0 <= k < uncited_positions(vs).len() ==> 0 <= #[trigger] uncited_positions(vs)[k] < vs.len(),
    decreases vs.len(),
{
    if vs.len() > 0 {
        lemma_counts_bounded(vs.drop_last());
        let p = uncited_positions(vs.drop_last());
        assert forall|k: int| 0 <= k < uncited_positions(vs).len() implies 0 <= #[trigger] uncited_positions(vs)[k] < vs.len() by {
            if k < p.len() {
                assert(uncited_positions(vs)[k] == p[k]);
            }
        }
    }
}

/// One entry's label.
fn entry_label_exec(r: &Reference) -> (s: String)
    ensures
        s@ == entry_label(*r),
{
    let cs = crate::text::chars_of(r.authors.as_str());
    let ts = split_whitespace(&cs);
    let mut s = String::new();
    if ts.len() > 0 {
        crate::text::push_chars(&mut s, &ts[0]);
        assert(ts@.map_values(|l: Vec<char>| l@)[0] == ts@[0]@);
    } else {
        push_str(&mut s, "?");
    }
    match r.year {
        Some(y) => {
            push_str(&mut s, " ");
            push_i32(&mut s, y);
        },
        None => {},
    }
    s
}

/// The uncited-reference finding over the matcher's verdicts, one per
/// bibliography entry.
pub fn uncited_reference_findings(references: &[Reference], verdicts: &[ReferenceUse]) -> (r: Option<UncitedReferenceFinding>)
    requires
        evaluated_count(verdicts@) <= references@.len(),
    ensures
        match r {
            None => uncited_spec(references@, verdicts@) is None,
            Some(f) => {
                &&& uncited_spec(references@, verdicts@) == Some((f.title@, f.detail@, strs(f.provenance@)))
                &&& f.severity == FindingSeverity::Minor
                &&& f.tier == CertaintyTier::AiAssessedModerate
            },
        },
{
    let total = references.len();
    if total == 0 || verdicts.len() == 0 {
        return None;
    }
    proof {
        lemma_counts_bounded(verdicts@);
    }
    let mut evaluated: usize = 0;
    let mut uncited: Vec<usize> = Vec::new();
    let mut i: usize = 0;
    while i < verdicts.len()
        invariant
            i <= verdicts@.len(),
            evaluated == evaluated_count(verdicts@.take(i as int)),
            evaluated <= i,
            uncited@.map_values(|u: usize| u as int) == uncited_positions(verdicts@.take(i as int)),
        decreases verdicts@.len() - i,
    {
        assert(verdicts@.take(i + 1).drop_last() =~= verdicts@.take(i as int));
        if verdicts[i] != ReferenceUse::NotEvaluated {
            evaluated += 1;
        }
        if verdicts[i] == ReferenceUse::Uncited {
            let ghost before = uncited@;
            uncited.push(i);
            assert(uncited@.map_values(|u: usize| u as int) =~= before.map_values(|u: usize| u as int).push(i as int));
        } else {
            assert(uncited@.map_values(|u: usize| u as int) =~= uncited_positions(verdicts@.take(i + 1)));
        }
        i += 1;
    }
    assert(verdicts@.take(verdicts@.len() as int) =~= verdicts@);
    let ghost un = uncited_positions(verdicts@);
    if uncited.len() == 0 {
        assert(un.len() == 0);
        return None;
    }
    let limit = if uncited.len() < UNCITED_EXAMPLE_LIMIT { uncited.len() } else { UNCITED_EXAMPLE_LIMIT };
    let ghost firsts = un.take(limit as int);
    let mut examples: Vec<String> = Vec::new();
    let mut k: usize = 0;
    assert(labels_at(references@, firsts.take(0)) =~= Seq::<Seq<char>>::empty());
    while k < limit
        invariant
            k <= limit <= uncited@.len(),
            uncited@.map_values(|u: usize| u as int) == un,
            firsts == un.take(limit as int),
            strs(examples@) == labels_at(references@, firsts.take(k as int)),
            examples@.len() <= k,
        decreases limit - k,
    {
        assert(firsts.take(k + 1).drop_last() =~= firsts.take(k as int));
        assert(firsts.take(k + 1).last() == un[k as int]);
        assert(un[k as int] == uncited@[k as int] as int);
        let p = uncited[k];
        if p < references.len() {
            let ghost before = strs(examples@);
            let lab = entry_label_exec(&references[p]);
            examples.push(lab);
            assert(strs(examples@) =~= before.push(entry_label(references@[p as int])));
        } else {
            assert(strs(examples@) =~= labels_at(references@, firsts.take(k + 1)));
        }
        k += 1;
    }
    assert(firsts.take(limit as int) =~= firsts);
    if uncited.len() > examples.len() {
        let ghost before = strs(examples@);
        let mut more = owned("and ");
        push_usize(&mut more, uncited.len() - examples.len());
        push_str(&mut more, " more");
        examples.push(more);
        assert(strs(examples@) =~= before.push(more@));
    }
    assert(strs(examples@) == examples_spec(references@, un));
    let not_evaluated = total - evaluated;
    let mut detail = String::new();
    push_usize(&mut detail, evaluated);
    push_str(&mut detail, " of ");
    push_usize(&mut detail, total);
    push_str(&mut detail, " reference(s) were checked; ");
    push_usize(&mut detail, uncited.len());
    push_str(&mut detail, " appear(s) never cited in the text (");
    let joined = join_strings(&examples, "; ");
    push_str(&mut detail, joined.as_str());
    push_str(&mut detail, "). ");
    push_usize(&mut detail, not_evaluated);
    push_str(&mut detail, " reference(s) could not be checked and are NOT counted as uncited.");
    let mut title = String::new();
    push_usize(&mut title, uncited.len());
    push_str(&mut title, " of ");
    push_usize(&mut title, evaluated);
    push_str(&mut title, " checked reference(s) appear never cited in the text");
    let mut evidence = owned("evidence:checked=");
    push_usize(&mut evidence, evaluated);
    push_str(&mut evidence, "/");
    push_usize(&mut evidence, total);
    push_str(&mut evidence, " uncited=");
    push_usize(&mut evidence, uncited.len());
    let provenance = vec![
        owned("signal:uncited_reference"),
        evidence,
        owned("agent:extraction (deterministic, author-year matching)"),
    ];
    proof {
        reveal_strlit(" of ");
    }
    let f = UncitedReferenceFinding {
        severity: FindingSeverity::Minor,
        tier: CertaintyTier::AiAssessedModerate,
        title,
        detail,
        provenance,
    };
    let ghost expected = uncited_spec(references@, verdicts@).unwrap();
    assert(strs(f.provenance@) =~= expected.2);
    Some(f)
}

} // verus!
