//! The vocabulary a composed report is written in, and the text the composer
//! owns: a flat list of blocks (a line of text with a role), the renderers'
//! disclosure wording, and the cut applied to a quoted paragraph.

use vstd::prelude::*;

use crate::lines::{lemma_trim_end_prefix, lemma_trim_start_suffix, trim_chars};
use crate::report_pdf::{fate_of, some_fate, CharFate};
use crate::text::{chars_of, is_white, is_whitespace, push_char, string_of, trim, trim_end, trim_start};

verus! {

/// How a badge should read, not how it should look.
#[derive(Debug, Clone, Copy, PartialEq, Eq, Structural)]
pub enum Tone {
    /// Checked and supported.
    Good,
    /// Needs the author's attention.
    Warn,
    /// Wrong, contradicted, or failed.
    Bad,
    /// Stated without judgement.
    Neutral,
}

/// One unit of composed output: a line of text with a role.
#[derive(Debug, Clone)]
pub enum Block {
    /// Document title page. `meta` is label/value pairs.
    Cover { title: String, subtitle: String, meta: Vec<(String, String)> },
    /// `level` 1 = section, 2 = subsection, 3 = finding title.
    Heading { text: String, level: u8 },
    Paragraph { text: String },
    /// `indent` 0 = flush bullet, 1 = nested.
    Bullet { text: String, indent: u8 },
    /// A caveat, disclosure or limitation. Rendered de-emphasised.
    Note { text: String },
    /// A verdict, as a label with a semantic tone rather than a colour.
    Badge { text: String, tone: Tone },
    PageBreak,
}

/// Disclosure for characters folded to a Latin base letter. It names the
/// class of change rather than showing an instance, which the medium doing
/// the showing could not display.
pub const NOTE_SIMPLIFIED: &'static str = "Some characters in this report were written in their closest basic Latin form: a letter carrying an accent appears as its plain equivalent, and a Greek letter or mathematical symbol appears as its name spelled out. Your manuscript is unchanged.";

/// Disclosure for characters the renderer cannot represent at all. It states
/// no count: the marks show that something is missing, not how much.
pub const NOTE_MARKED: &'static str = "Some characters could not be displayed in this report and appear as a question mark. This is a limitation of the report's font, not of the analysis \u{2014} nothing was skipped or removed.";

/// Shown when the run consulted no journal guidelines at all.
pub const NOTE_NO_GUIDELINES: &'static str = "No journal guidelines were consulted for this run, so nothing below compares your manuscript against a specific journal's requirements. These are Gaply's always-on structural checks. Their silence is not a journal's approval.";

/// How much of a quoted manuscript paragraph a finding's bullet shows.
pub const NEARBY_TEXT_CHARS: usize = 350usize;

/// The index of the last whitespace character, if any.
pub open spec fn last_white(s: Seq<char>) -> Option<int>
    decreases s.len(),
{
    if s.len() == 0 {
        None
    } else if is_white(s.last()) {
        Some(s.len() - 1)
    } else {
        last_white(s.drop_last())
    }
}

/// The first `cap` characters of a text that does not begin with
/// whitespace, cut back to the last whitespace inside them (kept whole when
/// there is none), with trailing whitespace dropped.
pub open spec fn snap_spec(t: Seq<char>, cap: int) -> Seq<char> {
    let head = t.take(cap);
    let cut = match last_white(head) {
        Some(k) => head.take(k),
        None => head,
    };
    trim_end(cut)
}

/// A quoted paragraph as a bullet shows it: trimmed; if longer than the cap,
/// cut back to the last whitespace inside the cap (or at the cap when there
/// is none), trailing whitespace dropped, and the cut marked with `…`.
pub open spec fn shorten_spec(text: Seq<char>) -> Seq<char> {
    let t = trim(text);
    if t.len() <= NEARBY_TEXT_CHARS {
        t
    } else {
        snap_spec(t, NEARBY_TEXT_CHARS as int).push('\u{2026}')
    }
}

/// `last_white` is the last whitespace position.
proof fn lemma_last_white(s: Seq<char>)
    ensures
        match last_white(s) {
            Some(k) => 0 <= k < s.len() && is_white(s[k]) && forall|j: int| k < j < s.len() ==> !is_white(s[j]),
            None => forall|j: int| 0 <= j < s.len() ==> !is_white(s[j]),
        },
    decreases s.len(),
{
    if s.len() > 0 && !is_white(s.last()) {
        lemma_last_white(s.drop_last());
        assert forall|j: int| 0 <= j < s.len() - 1 implies s[j] == s.drop_last()[j] by {}
    }
}

/// A trimmed text does not begin with whitespace.
pub(crate) proof fn lemma_trim_starts_clean(s: Seq<char>)
    ensures
        trim(s).len() > 0 ==> !is_white(trim(s)[0]),
{
    let k = lemma_trim_start_suffix(s);
    let u = trim_start(s);
    let k2 = lemma_trim_end_prefix(u);
    if trim(s).len() > 0 {
        assert(trim(s)[0] == u[0]);
        assert(u[0] == s[k]);
    }
}

/// Trailing whitespace removed from a text that does not begin with any is
/// the same as trimming it.
proof fn lemma_trim_end_is_trim(s: Seq<char>)
    requires
        s.len() > 0 ==> !is_white(s[0]),
    ensures
        trim(s) == trim_end(s),
{
    assert(trim_start(s) == s);
}

/// The cut of [`snap_spec`]: never inside a word or a number.
pub fn snap_prefix(t: &[char], cap: usize) -> (r: Vec<char>)
    requires
        t@.len() > cap,
        !is_white(t@[0]),
    ensures
        r@ == snap_spec(t@, cap as int),
{
    let ghost head = t@.take(cap as int);
    let mut k: usize = cap;
    while k > 0 && !is_whitespace(t[k - 1])
        invariant
            t@.len() > cap,
            k <= cap,
            forall|j: int| k <= j < cap ==> !is_white(t@[j]),
        decreases k,
    {
        k -= 1;
    }
    let end = if k == 0 { cap } else { k - 1 };
    let mut cut: Vec<char> = Vec::new();
    let mut i: usize = 0;
    while i < end
        invariant
            end <= cap < t@.len(),
            i <= end,
            cut@ == t@.take(i as int),
        decreases end - i,
    {
        cut.push(t[i]);
        i += 1;
        assert(cut@ =~= t@.take(i as int));
    }
    proof {
        lemma_last_white(head);
        if k == 0 {
            assert(last_white(head) is None) by {
                if let Some(m) = last_white(head) {
                    assert(!is_white(t@[m]));
                }
            }
            assert(cut@ =~= head);
        } else {
            assert(last_white(head) == Some((k - 1) as int)) by {
                if let Some(m) = last_white(head) {
                    assert(head[(k - 1) as int] == t@[(k - 1) as int]);
                    if m < k - 1 {
                        assert(!is_white(head[(k - 1) as int]));
                    }
                    if m > k - 1 {
                        assert(!is_white(t@[m]));
                    }
                } else {
                    assert(!is_white(head[(k - 1) as int]));
                }
            }
            assert(cut@ =~= head.take((k - 1) as int));
        }
        if cut@.len() > 0 {
            assert(cut@[0] == t@[0]);
        }
        lemma_trim_end_is_trim(cut@);
    }
    trim_chars(&cut)
}

/// Cut a quoted paragraph to [`NEARBY_TEXT_CHARS`], snapping back to the last
/// whitespace so no word or number is split, and marking the cut with `…`.
pub fn shorten(text: &str) -> (r: String)
    ensures
        r@ == shorten_spec(text@),
{
    let cs = chars_of(text);
    let t = trim_chars(&cs);
    if t.len() <= NEARBY_TEXT_CHARS {
        return string_of(&t);
    }
    proof {
        lemma_trim_starts_clean(cs@);
    }
    let kept = snap_prefix(&t, NEARBY_TEXT_CHARS);
    let mut out = string_of(&kept);
    push_char(&mut out, '\u{2026}');
    out
}

/// A truncated quotation is a verbatim prefix of the trimmed paragraph,
/// marked with `…`, and it stops where a whitespace character follows unless
/// the whole capped head held none.
pub proof fn lemma_shorten_cuts_at_whitespace(text: Seq<char>)
    requires
        trim(text).len() > NEARBY_TEXT_CHARS,
    ensures
        ({
            let t = trim(text);
            let r = shorten_spec(text);
            let p = r.drop_last();
            &&& r.last() == '\u{2026}'
            &&& p.len() <= NEARBY_TEXT_CHARS
            &&& p == t.take(p.len() as int)
            &&& (is_white(t[p.len() as int]) || forall|j: int|
                0 <= j < NEARBY_TEXT_CHARS ==> !is_white(#[trigger] t[j]))
        }),
{
    let t = trim(text);
    let head = t.take(NEARBY_TEXT_CHARS as int);
    lemma_last_white(head);
    let cut = match last_white(head) {
        Some(k) => head.take(k),
        None => head,
    };
    let m = lemma_trim_end_prefix(cut);
    let r = shorten_spec(text);
    assert(r.drop_last() =~= cut.subrange(0, m));
    assert(cut.subrange(0, m) =~= t.take(m));
    match last_white(head) {
        Some(k) => {
            if m < k {
                assert(is_white(cut[m]));
                assert(cut[m] == t[m]);
            } else {
                assert(t[m] == head[k]);
            }
        },
        None => {
            assert forall|j: int| 0 <= j < NEARBY_TEXT_CHARS implies !is_white(#[trigger] t[j]) by {
                assert(t[j] == head[j]);
            }
        },
    }
}

/// The marked disclosure carries no digit: it makes no claim about how much
/// is missing.
pub proof fn lemma_marked_note_states_no_count()
    ensures
        forall|i: int| 0 <= i < NOTE_MARKED@.len() ==> !('0' <= #[trigger] NOTE_MARKED@[i] <= '9'),
{
    reveal_strlit("Some characters could not be displayed in this report and appear as a question mark. This is a limitation of the report's font, not of the analysis \u{2014} nothing was skipped or removed.");
}

/// Both disclosures survive the renderer intact: neither needs a fold or a
/// mark, so disclosing one never triggers the other.
pub proof fn lemma_disclosures_render_intact()
    ensures
        !some_fate(NOTE_SIMPLIFIED@, CharFate::Simplified),
        !some_fate(NOTE_SIMPLIFIED@, CharFate::Marked),
        !some_fate(NOTE_MARKED@, CharFate::Simplified),
        !some_fate(NOTE_MARKED@, CharFate::Marked),
{
    reveal_strlit("Some characters in this report were written in their closest basic Latin form: a letter carrying an accent appears as its plain equivalent, and a Greek letter or mathematical symbol appears as its name spelled out. Your manuscript is unchanged.");
    reveal_strlit("Some characters could not be displayed in this report and appear as a question mark. This is a limitation of the report's font, not of the analysis \u{2014} nothing was skipped or removed.");
}

} // verus!
