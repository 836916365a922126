//! Page layout for the PDF report: the type scale, word wrapping against the
//! Helvetica metrics, decoration, and pagination onto A4.
//!
//! Every distance is kept exactly, in hundredths of a point: each constant of
//! the layout — margins, sizes, leadings, paddings — has at most two decimals,
//! so sums and differences of them are exact, and a position is written with
//! the two decimals it has. Widths are compared exactly too: a run of text
//! fits a column when the sum of its glyph advances (thousandths of an em)
//! times the size is at most a thousand times the column width.

use vstd::prelude::*;

use crate::report_compose::{Block, NOTE_MARKED, NOTE_SIMPLIFIED};
use crate::report_pdf::{
    ascii, byte_views, encode_spec, lemma_page_objects_len, lemma_page_pair, page_object, pages_object, stream_object, encode_winansi, escape_pdf, escape_pdf_spec, face_resource, pdf_file,
    pdf_objects, some_fate, widths_for, write_pdf, CharFate, EncodingOutcome, Face, HELVETICA_BOLD_WIDTHS,
    HELVETICA_WIDTHS,
};
use crate::text::{chars_of, decimal, decimal_chars_wide, push_chars, to_uppercase, uppercase};

verus! {

// ---------------------------------------------------------------------------
// The page, in hundredths of a point
// ---------------------------------------------------------------------------

/// A4 height: 841.89pt.
pub const PAGE_H: i128 = 84189i128;

/// 25mm left and right margins.
pub const MARGIN_X: i128 = 7087i128;

/// 24mm top and bottom margins.
pub const MARGIN_Y: i128 = 6803i128;

/// The text column: the page width, 595.28pt, less both margins.
pub const TEXT_W: i128 = 45354i128;

/// The first baseline region's top: below the top margin and the running
/// header.
pub const TOP: i128 = 75186i128;

/// The lowest a group may reach: above the bottom margin and the footer.
pub const BOTTOM: i128 = 8603i128;

/// The most a group of lines can need: every line's lead and leading are at
/// most 110.40pt, a group holds fewer than 2^64 lines, and decoration adds at
/// most 36pt.
pub const MAX_GROUP_HEIGHT: i128 = 0x4000_0000_0000_0000_0000i128;

// ---------------------------------------------------------------------------
// Numbers as the page writes them
// ---------------------------------------------------------------------------

/// The two-digit rendering of `n < 100`.
pub open spec fn two_digits(n: nat) -> Seq<char> {
    seq![crate::text::digit_char(n / 10), crate::text::digit_char(n % 10)]
}

/// A distance in hundredths written with two decimals, as `{:.2}` writes it.
pub open spec fn cp_text(v: int) -> Seq<char> {
    if v < 0 {
        seq!['-'] + decimal(((-v) / 100) as nat) + seq!['.'] + two_digits(((-v) % 100) as nat)
    } else {
        decimal((v / 100) as nat) + seq!['.'] + two_digits((v % 100) as nat)
    }
}

/// Append characters, one byte each.
fn push_ascii_chars(out: &mut Vec<u8>, cs: &[char])
    ensures
        final(out)@ == old(out)@ + ascii(cs@),
{
    let ghost start = out@;
    let mut i: usize = 0;
    while i < cs.len()
        invariant
            i <= cs@.len(),
            out@ == start + ascii(cs@.subrange(0, i as int)),
        decreases cs@.len() - i,
    {
        out.push(cs[i] as u8);
        i += 1;
        assert(out@ =~= start + ascii(cs@.subrange(0, i as int)));
    }
    assert(cs@.subrange(0, cs@.len() as int) =~= cs@);
}

/// Append a literal, one byte per character.
fn push_ascii(out: &mut Vec<u8>, s: &str)
    ensures
        final(out)@ == old(out)@ + ascii(s@),
{
    let cs = chars_of(s);
    push_ascii_chars(out, &cs);
}

/// Append bytes.
fn push_bytes(out: &mut Vec<u8>, bs: &[u8])
    ensures
        final(out)@ == old(out)@ + bs@,
{
    let ghost start = out@;
    let mut i: usize = 0;
    while i < bs.len()
        invariant
            i <= bs@.len(),
            out@ == start + bs@.subrange(0, i as int),
        decreases bs@.len() - i,
    {
        out.push(bs[i]);
        i += 1;
        assert(out@ =~= start + bs@.subrange(0, i as int));
    }
    assert(bs@.subrange(0, bs@.len() as int) =~= bs@);
}

/// Append a distance with two decimals.
fn push_cp(out: &mut Vec<u8>, v: i128)
    ensures
        final(out)@ == old(out)@ + ascii(cp_text(v as int)),
{
    let ghost start = out@;
    let m: u128 = if v < 0 {
        assert(v > i128::MIN ==> -v <= i128::MAX);
        if v == i128::MIN {
            (i128::MAX as u128) + 1
        } else {
            (-v) as u128
        }
    } else {
        v as u128
    };
    assert(m as int == (if v < 0 { -(v as int) } else { v as int }));
    let mut cs: Vec<char> = Vec::new();
    if v < 0 {
        cs.push('-');
    }
    let whole = decimal_chars_wide(m / 100);
    let mut i: usize = 0;
    let ghost pre = cs@;
    while i < whole.len()
        invariant
            i <= whole@.len(),
            cs@ == pre + whole@.subrange(0, i as int),
        decreases whole@.len() - i,
    {
        cs.push(whole[i]);
        i += 1;
        assert(cs@ =~= pre + whole@.subrange(0, i as int));
    }
    assert(whole@.subrange(0, whole@.len() as int) =~= whole@);
    cs.push('.');
    let frac = (m % 100) as u8;
    let d1 = ((48u8 + frac / 10) as char);
    let d2 = ((48u8 + frac % 10) as char);
    assert(d1 == crate::text::digit_char((m % 100) as nat / 10));
    assert(d2 == crate::text::digit_char((m % 100) as nat % 10));
    cs.push(d1);
    cs.push(d2);
    assert(cs@ =~= cp_text(v as int));
    push_ascii_chars(out, &cs);
}

// ---------------------------------------------------------------------------
// Colours, as `{:.3}` writes each channel of the specimen's palette
// ---------------------------------------------------------------------------

/// The palette.
#[derive(Debug, Clone, Copy, PartialEq, Eq, Structural)]
pub enum Tint {
    Ink,
    Body,
    Muted,
    Faint,
    Hair,
    Panel,
    QuoteBg,
    QuoteRule,
}

/// A tint's three channels, each as its intensity out of 255 written with
/// three decimals.
pub open spec fn tint_text(t: Tint) -> Seq<char> {
    match t {
        Tint::Ink => "0.078 0.078 0.078"@,
        Tint::Body => "0.180 0.180 0.180"@,
        Tint::Muted => "0.439 0.439 0.439"@,
        Tint::Faint => "0.604 0.604 0.604"@,
        Tint::Hair => "0.910 0.910 0.910"@,
        Tint::Panel => "0.965 0.965 0.961"@,
        Tint::QuoteBg => "0.984 0.969 0.937"@,
        Tint::QuoteRule => "0.847 0.788 0.659"@,
    }
}

fn tint_str(t: Tint) -> (r: &'static str)
    ensures
        r@ == tint_text(t),
{
    match t {
        Tint::Ink => "0.078 0.078 0.078",
        Tint::Body => "0.180 0.180 0.180",
        Tint::Muted => "0.439 0.439 0.439",
        Tint::Faint => "0.604 0.604 0.604",
        Tint::Hair => "0.910 0.910 0.910",
        Tint::Panel => "0.965 0.965 0.961",
        Tint::QuoteBg => "0.984 0.969 0.937",
        Tint::QuoteRule => "0.847 0.788 0.659",
    }
}

/// A filled rectangle in a tint.
pub open spec fn rect_spec(x: int, y: int, w: int, h: int, t: Tint) -> Seq<u8> {
    ascii(tint_text(t)) + ascii(" rg\n"@) + ascii(cp_text(x)) + ascii(" "@) + ascii(cp_text(y)) + ascii(" "@)
        + ascii(cp_text(w)) + ascii(" "@) + ascii(cp_text(h)) + ascii(" re f\n"@)
}

fn fill_rect(out: &mut Vec<u8>, x: i128, y: i128, w: i128, h: i128, t: Tint)
    ensures
        final(out)@ == old(out)@ + rect_spec(x as int, y as int, w as int, h as int, t),
{
    let ghost start = out@;
    push_ascii(out, tint_str(t));
    push_ascii(out, " rg\n");
    push_cp(out, x);
    push_ascii(out, " ");
    push_cp(out, y);
    push_ascii(out, " ");
    push_cp(out, w);
    push_ascii(out, " ");
    push_cp(out, h);
    push_ascii(out, " re f\n");
    assert(out@ =~= start + rect_spec(x as int, y as int, w as int, h as int, t));
}

/// One run of already-encoded text set at a baseline.
pub open spec fn text_spec(t: Tint, face: Face, size: int, x: int, y: int, bytes: Seq<u8>) -> Seq<u8> {
    ascii(tint_text(t)) + ascii(" rg\nBT\n"@) + ascii(face_resource(face)) + ascii(" "@) + ascii(cp_text(size))
        + ascii(" Tf\n1 0 0 1 "@) + ascii(cp_text(x)) + ascii(" "@) + ascii(cp_text(y)) + ascii(" Tm\n("@)
        + escape_pdf_spec(bytes) + ascii(") Tj\nET\n"@)
}

fn set_text(out: &mut Vec<u8>, t: Tint, face: Face, size: i128, x: i128, y: i128, bytes: &[u8])
    ensures
        final(out)@ == old(out)@ + text_spec(t, face, size as int, x as int, y as int, bytes@),
{
    let ghost start = out@;
    push_ascii(out, tint_str(t));
    push_ascii(out, " rg\nBT\n");
    push_ascii(out, face.resource());
    push_ascii(out, " ");
    push_cp(out, size);
    push_ascii(out, " Tf\n1 0 0 1 ");
    push_cp(out, x);
    push_ascii(out, " ");
    push_cp(out, y);
    push_ascii(out, " Tm\n(");
    let escaped = escape_pdf(bytes);
    push_bytes(out, &escaped);
    push_ascii(out, ") Tj\nET\n");
    assert(out@ =~= start + text_spec(t, face, size as int, x as int, y as int, bytes@));
}

// ---------------------------------------------------------------------------
// Measuring and wrapping
// ---------------------------------------------------------------------------

/// The advance widths a face is measured with.
pub open spec fn table(face: Face) -> Seq<u16> {
    if face == Face::Bold {
        HELVETICA_BOLD_WIDTHS@
    } else {
        HELVETICA_WIDTHS@
    }
}

/// The advance of a run of bytes, in thousandths of an em.
pub open spec fn advance(bs: Seq<u8>, face: Face) -> nat
    decreases bs.len(),
{
    if bs.len() == 0 {
        0
    } else {
        advance(bs.drop_last(), face) + table(face)[bs.last() as int] as nat
    }
}

/// A run fits a width (both in hundredths of a point) at a size.
pub open spec fn fits(bs: Seq<u8>, size: int, width: int, face: Face) -> bool {
    advance(bs, face) * size <= width * 1000
}

/// The words of encoded text from position `i`: the runs between ASCII
/// spaces, empty runs skipped.
pub open spec fn words_from(s: Seq<u8>, i: int, cur: Seq<u8>, done: Seq<Seq<u8>>) -> Seq<Seq<u8>>
    decreases s.len() - i,
{
    if i >= s.len() {
        if cur.len() > 0 {
            done.push(cur)
        } else {
            done
        }
    } else if s[i] == 32 {
        words_from(s, i + 1, Seq::empty(), if cur.len() > 0 { done.push(cur) } else { done })
    } else {
        words_from(s, i + 1, cur.push(s[i]), done)
    }
}

/// The words of encoded text.
pub open spec fn words(s: Seq<u8>) -> Seq<Seq<u8>> {
    words_from(s, 0, Seq::empty(), Seq::empty())
}

/// Greedy filling over words: the finished lines and the line being built.
pub open spec fn wrap_fold(ws: Seq<Seq<u8>>, size: int, width: int, face: Face) -> (Seq<Seq<u8>>, Seq<u8>)
    decreases ws.len(),
{
    if ws.len() == 0 {
        (Seq::empty(), Seq::empty())
    } else {
        let prev = wrap_fold(ws.drop_last(), size, width, face);
        let w = ws.last();
        let trial = if prev.1.len() == 0 {
            w
        } else {
            prev.1 + seq![32u8] + w
        };
        if fits(trial, size, width, face) || prev.1.len() == 0 {
            (prev.0, trial)
        } else {
            (prev.0.push(prev.1), w)
        }
    }
}

/// Greedy word wrap: words join a line while it fits, a word that fits on no
/// line stands alone, and text with no words is one empty line.
pub open spec fn wrap_spec(bs: Seq<u8>, size: int, width: int, face: Face) -> Seq<Seq<u8>> {
    let r = wrap_fold(words(bs), size, width, face);
    let lines = if r.1.len() > 0 {
        r.0.push(r.1)
    } else {
        r.0
    };
    if lines.len() == 0 {
        seq![Seq::empty()]
    } else {
        lines
    }
}

/// The advance of a run, computed.
fn measure(bs: &[u8], face: Face) -> (r: u128)
    ensures
        r as nat == advance(bs@, face),
        r <= 1015 * bs@.len(),
{
    let w = widths_for(face);
    let mut total: u128 = 0;
    let mut i: usize = 0;
    proof {
        lemma_widths_bounded();
    }
    while i < bs.len()
        invariant
            w@ == table(face),
            forall|k: int| 0 <= k < 256 ==> #[trigger] table(face)[k] <= 1015,
            i <= bs@.len(),
            total as nat == advance(bs@.subrange(0, i as int), face),
            total <= 1015 * i,
        decreases bs@.len() - i,
    {
        assert(bs@.subrange(0, i + 1).drop_last() =~= bs@.subrange(0, i as int));
        total = total + w[bs[i] as usize] as u128;
        i += 1;
    }
    assert(bs@.subrange(0, bs@.len() as int) =~= bs@);
    total
}

/// No advance exceeds 1015 thousandths of an em.
proof fn lemma_widths_bounded()
    ensures
        forall|k: int| 0 <= k < 256 ==> #[trigger] HELVETICA_WIDTHS@[k] <= 1015,
        forall|k: int| 0 <= k < 256 ==> #[trigger] HELVETICA_BOLD_WIDTHS@[k] <= 1015,
        HELVETICA_WIDTHS@.len() == 256,
        HELVETICA_BOLD_WIDTHS@.len() == 256,
{
}

/// The words of encoded text.
fn split_words(s: &[u8]) -> (r: Vec<Vec<u8>>)
    ensures
        byte_views(r@) == words(s@),
{
    let mut done: Vec<Vec<u8>> = Vec::new();
    let mut cur: Vec<u8> = Vec::new();
    let mut i: usize = 0;
    assert(byte_views(done@) =~= Seq::<Seq<u8>>::empty());
    assert(cur@ =~= Seq::<u8>::empty());
    while i < s.len()
        invariant
            i <= s@.len(),
            words_from(s@, i as int, cur@, byte_views(done@)) == words(s@),
        decreases s@.len() - i,
    {
        if s[i] == 32 {
            if cur.len() > 0 {
                let ghost before = byte_views(done@);
                let ghost c = cur@;
                done.push(cur);
                assert(byte_views(done@) =~= before.push(c));
                cur = Vec::new();
            }
            assert(cur@ =~= Seq::<u8>::empty());
        } else {
            cur.push(s[i]);
        }
        i += 1;
    }
    if cur.len() > 0 {
        let ghost before = byte_views(done@);
        let ghost c = cur@;
        done.push(cur);
        assert(byte_views(done@) =~= before.push(c));
    }
    done
}

/// Greedy word wrap on encoded bytes, splitting on ASCII space: every encoded
/// byte is one character wide.
pub fn wrap(bytes: &[u8], size: i128, width: i128, face: Face) -> (r: Vec<Vec<u8>>)
    requires
        0 <= size <= 100_000,
        0 <= width <= 1_000_000_000,
    ensures
        byte_views(r@) == wrap_spec(bytes@, size as int, width as int, face),
{
    let ws = split_words(bytes);
    let ghost wv = byte_views(ws@);
    let mut lines: Vec<Vec<u8>> = Vec::new();
    let mut cur: Vec<u8> = Vec::new();
    let mut i: usize = 0;
    assert(wv.take(0) =~= Seq::<Seq<u8>>::empty());
    assert(byte_views(lines@) =~= Seq::<Seq<u8>>::empty());
    assert(cur@ =~= Seq::<u8>::empty());
    while i < ws.len()
        invariant
            0 <= size <= 100_000,
            0 <= width <= 1_000_000_000,
            wv == byte_views(ws@),
            i <= ws@.len(),
            (byte_views(lines@), cur@) == wrap_fold(wv.take(i as int), size as int, width as int, face),
        decreases ws@.len() - i,
    {
        let word = &ws[i];
        let mut trial: Vec<u8> = Vec::new();
        push_bytes(&mut trial, &cur);
        if cur.len() > 0 {
            trial.push(32u8);
        }
        push_bytes(&mut trial, word);
        let adv = measure(&trial, face);
        let trial_len = trial.len();
        proof {
            assert(wv[i as int] == word@);
            assert(wv.take(i + 1).drop_last() =~= wv.take(i as int));
            if cur@.len() == 0 {
                assert(trial@ =~= word@);
            } else {
                assert(trial@ =~= cur@ + seq![32u8] + word@);
            }
        }
        assert(adv * (size as u128) <= 1015 * 0x1_0000_0000_0000_0000 * 100_000) by (nonlinear_arith)
            requires
                adv <= 1015 * trial@.len(),
                trial@.len() == trial_len,
                usize::MAX < 0x1_0000_0000_0000_0000,
                0 <= size <= 100_000,
        ;
        let fit = adv * (size as u128) <= (width as u128) * 1000;
        if fit || cur.len() == 0 {
            cur = trial;
        } else {
            let ghost before = byte_views(lines@);
            let ghost c = cur@;
            lines.push(cur);
            assert(byte_views(lines@) =~= before.push(c));
            let mut next: Vec<u8> = Vec::new();
            push_bytes(&mut next, word);
            cur = next;
        }
        i += 1;
    }
    assert(wv.take(wv.len() as int) =~= wv);
    if cur.len() > 0 {
        let ghost before = byte_views(lines@);
        let ghost c = cur@;
        lines.push(cur);
        assert(byte_views(lines@) =~= before.push(c));
    }
    if lines.len() == 0 {
        lines.push(Vec::new());
        assert(byte_views(lines@) =~= seq![Seq::<u8>::empty()]);
    }
    lines
}

// ---------------------------------------------------------------------------
// What wrapping keeps
// ---------------------------------------------------------------------------

/// A run with no ASCII space.
pub open spec fn one_word(bs: Seq<u8>) -> bool {
    forall|k: int| 0 <= k < bs.len() ==> bs[k] != 32
}

proof fn lemma_words_have_no_space(s: Seq<u8>, i: int, cur: Seq<u8>, done: Seq<Seq<u8>>)
    requires
        one_word(cur),
        forall|j: int| 0 <= j < done.len() ==> one_word(#[trigger] done[j]),
        0 <= i,
    ensures
        forall|j: int| 0 <= j < words_from(s, i, cur, done).len() ==> one_word(#[trigger] words_from(s, i, cur, done)[j]),
    decreases s.len() - i,
{
    let d2 = if cur.len() > 0 { done.push(cur) } else { done };
    assert forall|j: int| 0 <= j < d2.len() implies one_word(#[trigger] d2[j]) by {
        if j < done.len() {
            assert(d2[j] == done[j]);
            assert(one_word(done[j]));
        } else {
            assert(d2[j] == cur);
        }
    }
    if i >= s.len() {
        assert(words_from(s, i, cur, done) == d2);
    } else if s[i] == 32 {
        assert(one_word(Seq::<u8>::empty()));
        lemma_words_have_no_space(s, i + 1, Seq::empty(), d2);
        assert(words_from(s, i, cur, done) == words_from(s, i + 1, Seq::empty(), d2));
    } else {
        assert(one_word(cur.push(s[i]))) by {
            assert forall|k: int| 0 <= k < cur.push(s[i]).len() implies cur.push(s[i])[k] != 32 by {
                if k < cur.len() {
                    assert(cur.push(s[i])[k] == cur[k]);
                }
            }
        }
        lemma_words_have_no_space(s, i + 1, cur.push(s[i]), done);
    }
    let r = words_from(s, i, cur, done);
    let rest = if i >= s.len() {
        d2
    } else if s[i] == 32 {
        words_from(s, i + 1, Seq::empty(), d2)
    } else {
        words_from(s, i + 1, cur.push(s[i]), done)
    };
    assert(r == rest);
    assert forall|j: int| 0 <= j < r.len() implies one_word(#[trigger] r[j]) by {
        assert(one_word(rest[j]));
    }
}

proof fn lemma_wrap_fold_lines(ws: Seq<Seq<u8>>, size: int, width: int, face: Face)
    requires
        forall|j: int| 0 <= j < ws.len() ==> one_word(#[trigger] ws[j]),
    ensures
        forall|j: int|
            0 <= j < wrap_fold(ws, size, width, face).0.len() ==> {
                let l = #[trigger] wrap_fold(ws, size, width, face).0[j];
                fits(l, size, width, face) || one_word(l)
            },
        fits(wrap_fold(ws, size, width, face).1, size, width, face) || one_word(wrap_fold(ws, size, width, face).1),
    decreases ws.len(),
{
    if ws.len() > 0 {
        assert forall|j: int| 0 <= j < ws.drop_last().len() implies one_word(#[trigger] ws.drop_last()[j]) by {
            assert(ws.drop_last()[j] == ws[j]);
        }
        lemma_wrap_fold_lines(ws.drop_last(), size, width, face);
        let prev = wrap_fold(ws.drop_last(), size, width, face);
        let r = wrap_fold(ws, size, width, face);
        assert(one_word(ws.last()));
        assert forall|j: int| 0 <= j < r.0.len() implies {
            let l = #[trigger] r.0[j];
            fits(l, size, width, face) || one_word(l)
        } by {
            if j < prev.0.len() {
                assert(r.0[j] == prev.0[j]);
            }
        }
    }
}

/// Runs joined by single ASCII spaces.
pub open spec fn joined(ws: Seq<Seq<u8>>) -> Seq<u8>
    decreases ws.len(),
{
    if ws.len() == 0 {
        Seq::empty()
    } else if ws.len() == 1 {
        ws[0]
    } else {
        joined(ws.drop_last()) + seq![32u8] + ws.last()
    }
}

proof fn lemma_words_nonempty(s: Seq<u8>, i: int, cur: Seq<u8>, done: Seq<Seq<u8>>)
    requires
        forall|j: int| 0 <= j < done.len() ==> (#[trigger] done[j]).len() > 0,
        0 <= i,
    ensures
        forall|j: int| 0 <= j < words_from(s, i, cur, done).len() ==> (#[trigger] words_from(s, i, cur, done)[j]).len() > 0,
    decreases s.len() - i,
{
    let d2 = if cur.len() > 0 { done.push(cur) } else { done };
    assert forall|j: int| 0 <= j < d2.len() implies (#[trigger] d2[j]).len() > 0 by {
        if j < done.len() {
            assert(d2[j] == done[j]);
        }
    }
    if i < s.len() {
        if s[i] == 32 {
            lemma_words_nonempty(s, i + 1, Seq::empty(), d2);
        } else {
            lemma_words_nonempty(s, i + 1, cur.push(s[i]), done);
        }
    }
    let r = words_from(s, i, cur, done);
    let rest = if i >= s.len() {
        d2
    } else if s[i] == 32 {
        words_from(s, i + 1, Seq::empty(), d2)
    } else {
        words_from(s, i + 1, cur.push(s[i]), done)
    };
    assert(r == rest);
}

proof fn lemma_wrap_fold_joined(ws: Seq<Seq<u8>>, size: int, width: int, face: Face)
    requires
        ws.len() > 0,
        forall|j: int| 0 <= j < ws.len() ==> (#[trigger] ws[j]).len() > 0,
    ensures
        wrap_fold(ws, size, width, face).1.len() > 0,
        joined(wrap_fold(ws, size, width, face).0.push(wrap_fold(ws, size, width, face).1)) == joined(ws),
    decreases ws.len(),
{
    let pre = ws.drop_last();
    let w = ws.last();
    assert(w == ws[ws.len() - 1]);
    let prev = wrap_fold(pre, size, width, face);
    if pre.len() == 0 {
        assert(prev.0.push(w) =~= seq![w]);
        assert(ws =~= seq![w]);
    } else {
        assert forall|j: int| 0 <= j < pre.len() implies (#[trigger] pre[j]).len() > 0 by {
            assert(pre[j] == ws[j]);
        }
        lemma_wrap_fold_joined(pre, size, width, face);
        let trial = prev.1 + seq![32u8] + w;
        let r = wrap_fold(ws, size, width, face);
        if fits(trial, size, width, face) {
            assert(r.0.push(r.1).drop_last() =~= prev.0);
            if prev.0.len() == 0 {
                assert(prev.0.push(prev.1) =~= seq![prev.1]);
            } else {
                assert(prev.0.push(prev.1).drop_last() =~= prev.0);
            }
        } else {
            assert(r.0.push(r.1).drop_last() =~= prev.0.push(prev.1));
        }
    }
}

/// Wrapping only decides where lines break: the lines, joined by single
/// spaces, are the text's words joined by single spaces, so no word is
/// lost, split, reordered or repeated.
pub proof fn lemma_wrap_keeps_every_word(bs: Seq<u8>, size: int, width: int, face: Face)
    ensures
        joined(wrap_spec(bs, size, width, face)) == joined(words(bs)),
        wrap_spec(bs, size, width, face).len() >= 1,
{
    let ws = words(bs);
    lemma_words_nonempty(bs, 0, Seq::empty(), Seq::empty());
    if ws.len() > 0 {
        lemma_wrap_fold_joined(ws, size, width, face);
    } else {
        assert(joined(seq![Seq::<u8>::empty()]) =~= Seq::<u8>::empty());
    }
}

/// Every wrapped line fits its column, except a line holding a single word
/// too wide for any line, which stands alone rather than being split.
pub proof fn lemma_wrapped_lines_fit(bs: Seq<u8>, size: int, width: int, face: Face)
    ensures
        forall|j: int|
            0 <= j < wrap_spec(bs, size, width, face).len() ==> {
                let l = #[trigger] wrap_spec(bs, size, width, face)[j];
                fits(l, size, width, face) || one_word(l)
            },
{
    lemma_words_have_no_space(bs, 0, Seq::empty(), Seq::empty());
    lemma_wrap_fold_lines(words(bs), size, width, face);
    let r = wrap_fold(words(bs), size, width, face);
    let lines = if r.1.len() > 0 { r.0.push(r.1) } else { r.0 };
    assert forall|j: int| 0 <= j < wrap_spec(bs, size, width, face).len() implies {
        let l = #[trigger] wrap_spec(bs, size, width, face)[j];
        fits(l, size, width, face) || one_word(l)
    } by {
        if lines.len() == 0 {
            assert(wrap_spec(bs, size, width, face)[j] =~= Seq::<u8>::empty());
        } else if j < r.0.len() {
            assert(wrap_spec(bs, size, width, face)[j] == r.0[j]);
        }
    }
}


// ---------------------------------------------------------------------------
// Lines and groups
// ---------------------------------------------------------------------------

/// One positioned line of encoded bytes, as the layout sees it.
pub struct LineView {
    pub bytes: Seq<u8>,
    pub face: Face,
    /// Type size, hundredths of a point.
    pub size: int,
    /// Baseline-to-baseline distance.
    pub leading: int,
    pub indent: int,
    pub tint: Tint,
    /// Extra space above this line.
    pub lead: int,
}

/// One positioned line of encoded bytes.
pub struct Line {
    pub bytes: Vec<u8>,
    pub face: Face,
    pub size: i128,
    pub leading: i128,
    pub indent: i128,
    pub tint: Tint,
    pub lead: i128,
}

impl View for Line {
    type V = LineView;

    open spec fn view(&self) -> LineView {
        LineView {
            bytes: self.bytes@,
            face: self.face,
            size: self.size as int,
            leading: self.leading as int,
            indent: self.indent as int,
            tint: self.tint,
            lead: self.lead as int,
        }
    }
}

/// The views of a run of lines.
pub open spec fn lines_view(ls: Seq<Line>) -> Seq<LineView> {
    Seq::new(ls.len(), |i: int| ls[i]@)
}

/// Background and rule treatment for a group of lines.
#[derive(Debug, Clone, Copy, PartialEq, Eq, Structural)]
pub enum Decor {
    Plain,
    /// Shaded panel: 11pt padding on all four sides, full column.
    Panel,
    /// Quotation: 10pt padding, a 2pt bar on the left edge only.
    Quote,
    /// A heading followed by a rule of the given weight (hundredths of a
    /// point) and tint.
    RuleUnder(i128, Tint),
}

/// A group of lines drawn together, as the layout sees it: the unit of
/// pagination, so a panel is never split across pages.
pub struct ElemView {
    pub lines: Seq<LineView>,
    pub decor: Decor,
    /// A break the composer asked for, honoured unless the page is nearly
    /// empty.
    pub soft_break: bool,
    /// A break that always happens: only the cover asks for one.
    pub hard_break: bool,
}

/// A group of lines drawn together.
pub struct Elem {
    pub lines: Vec<Line>,
    pub decor: Decor,
    pub soft_break: bool,
    pub hard_break: bool,
}

impl View for Elem {
    type V = ElemView;

    open spec fn view(&self) -> ElemView {
        ElemView { lines: lines_view(self.lines@), decor: self.decor, soft_break: self.soft_break, hard_break: self.hard_break }
    }
}

/// The views of a run of groups.
pub open spec fn elems_view(es: Seq<Elem>) -> Seq<ElemView> {
    Seq::new(es.len(), |i: int| es[i]@)
}

/// A line's measures stay within the type scale's.
pub open spec fn line_ok(l: LineView) -> bool {
    &&& 0 <= l.lead <= 9640
    &&& 0 <= l.leading <= 2000
    &&& 0 <= l.indent <= 1400
    &&& 0 <= l.size <= 1550
}

/// Every line of a group keeps to the type scale, and a rule under a
/// heading is at most 2.2pt.
pub open spec fn elem_ok(e: ElemView) -> bool {
    &&& forall|k: int| 0 <= k < e.lines.len() ==> line_ok(#[trigger] e.lines[k])
    &&& (e.decor matches Decor::RuleUnder(w, _) ==> 0 <= w <= 220)
}

/// The lines one run of text is set as: encoded, wrapped to its column
/// less its indent, with the extra space above the first line only.
pub open spec fn lay_spec(
    text: Seq<char>,
    size: int,
    leading: int,
    face: Face,
    indent: int,
    tint: Tint,
    lead: int,
    column: int,
) -> Seq<LineView> {
    let ls = wrap_spec(encode_spec(text), size, column - indent, face);
    Seq::new(
        ls.len(),
        |i: int| LineView { bytes: ls[i], face, size, leading, indent, tint, lead: if i == 0 { lead } else { 0 } },
    )
}

/// Lay out one run of text, noting in `out` what encoding did to it.
fn lay(
    out: &mut EncodingOutcome,
    text: &str,
    size: i128,
    leading: i128,
    face: Face,
    indent: i128,
    tint: Tint,
    lead: i128,
    column: i128,
) -> (r: Vec<Line>)
    requires
        0 <= size <= 1550,
        0 <= leading <= 2000,
        0 <= lead <= 9640,
        0 <= indent <= 1400,
        indent <= column <= TEXT_W,
    ensures
        lines_view(r@) == lay_spec(text@, size as int, leading as int, face, indent as int, tint, lead as int, column as int),
        forall|k: int| 0 <= k < r@.len() ==> line_ok(#[trigger] lines_view(r@)[k]),
        final(out).any_simplified == (old(out).any_simplified || some_fate(text@, CharFate::Simplified)),
        final(out).any_marked == (old(out).any_marked || some_fate(text@, CharFate::Marked)),
{
    let (bytes, o) = encode_winansi(text);
    out.any_simplified = out.any_simplified || o.any_simplified;
    out.any_marked = out.any_marked || o.any_marked;
    let ls = wrap(&bytes, size, column - indent, face);
    let ghost spec = lay_spec(text@, size as int, leading as int, face, indent as int, tint, lead as int, column as int);
    let mut r: Vec<Line> = Vec::new();
    let mut i: usize = 0;
    while i < ls.len()
        invariant
            i <= ls@.len(),
            byte_views(ls@) == wrap_spec(encode_spec(text@), size as int, (column - indent) as int, face),
            spec == lay_spec(text@, size as int, leading as int, face, indent as int, tint, lead as int, column as int),
            0 <= size <= 1550,
            0 <= leading <= 2000,
            0 <= lead <= 9640,
            0 <= indent <= 1400,
            r@.len() == i,
            forall|k: int| 0 <= k < i ==> #[trigger] r@[k]@ == spec[k],
        decreases ls@.len() - i,
    {
        let mut b: Vec<u8> = Vec::new();
        push_bytes(&mut b, &ls[i]);
        let this_lead = if i == 0 { lead } else { 0 };
        r.push(Line { bytes: b, face, size, leading, indent, tint, lead: this_lead });
        proof {
            assert(byte_views(ls@)[i as int] == ls@[i as int]@);
        }
        i += 1;
    }
    assert(lines_view(r@) =~= spec);
    r
}


// ---------------------------------------------------------------------------
// The type scale: size and leading, hundredths of a point
// ---------------------------------------------------------------------------

pub const COVER_BRAND_SIZE: i128 = 1150i128;
pub const COVER_BRAND_LEADING: i128 = 1400i128;
pub const COVER_SUBTITLE_SIZE: i128 = 1020i128;
pub const COVER_SUBTITLE_LEADING: i128 = 1400i128;
pub const FIELD_LABEL_SIZE: i128 = 740i128;
pub const FIELD_LABEL_LEADING: i128 = 1000i128;
pub const FIELD_VALUE_SIZE: i128 = 1060i128;
pub const FIELD_VALUE_LEADING: i128 = 1500i128;
pub const H1_SIZE: i128 = 1550i128;
pub const H1_LEADING: i128 = 2000i128;
pub const H2_SIZE: i128 = 1180i128;
pub const H2_LEADING: i128 = 1600i128;
pub const H3_SIZE: i128 = 960i128;
pub const H3_LEADING: i128 = 1400i128;
pub const BODY_SIZE: i128 = 1020i128;
pub const BODY_LEADING: i128 = 1440i128;
pub const SMALL_SIZE: i128 = 900i128;
pub const SMALL_LEADING: i128 = 1300i128;
pub const QUOTATION_SIZE: i128 = 960i128;
pub const QUOTATION_LEADING: i128 = 1450i128;
pub const FURNITURE_SIZE: i128 = 740i128;
pub const FURNITURE_LEADING: i128 = 1000i128;

// ---------------------------------------------------------------------------
// From blocks to groups
// ---------------------------------------------------------------------------

/// A group that asks for no break.
pub open spec fn group(lines: Seq<LineView>, decor: Decor) -> ElemView {
    ElemView { lines, decor, soft_break: false, hard_break: false }
}

/// A break and nothing else.
pub open spec fn break_group(soft: bool, hard: bool) -> ElemView {
    ElemView { lines: Seq::empty(), decor: Decor::Plain, soft_break: soft, hard_break: hard }
}

/// A cover's metadata pair: the label in capitals over its value.
pub open spec fn pair_group(label: Seq<char>, value: Seq<char>) -> ElemView {
    group(
        lay_spec(uppercase(label), FIELD_LABEL_SIZE as int, FIELD_LABEL_LEADING as int, Face::Bold, 0, Tint::Faint, 1000, TEXT_W as int)
            + lay_spec(value, FIELD_VALUE_SIZE as int, FIELD_VALUE_LEADING as int, Face::Regular, 0, Tint::Ink, 100, TEXT_W as int),
        Decor::Plain,
    )
}

/// The groups of a cover's metadata, one per pair, in order.
pub open spec fn meta_groups(meta: Seq<(String, String)>) -> Seq<ElemView> {
    Seq::new(meta.len(), |i: int| pair_group(meta[i].0@, meta[i].1@))
}

/// The texts a cover's metadata encodes, in the order it encodes them.
pub open spec fn meta_texts(meta: Seq<(String, String)>) -> Seq<Seq<char>>
    decreases meta.len(),
{
    if meta.len() == 0 {
        Seq::empty()
    } else {
        meta_texts(meta.drop_last()) + seq![uppercase(meta.last().0@), meta.last().1@]
    }
}

/// The groups of a cover: the brand and title over a rule, the metadata
/// pairs, then a break that always happens.
pub open spec fn cover_elems(title: Seq<char>, subtitle: Seq<char>, meta: Seq<(String, String)>) -> Seq<ElemView> {
    seq![
        group(
            lay_spec(subtitle, COVER_BRAND_SIZE as int, COVER_BRAND_LEADING as int, Face::Bold, 0, Tint::Ink, 9640, TEXT_W as int)
                + lay_spec(title, COVER_SUBTITLE_SIZE as int, COVER_SUBTITLE_LEADING as int, Face::Regular, 0, Tint::Body, 200, TEXT_W as int),
            Decor::RuleUnder(90, Tint::Ink),
        ),
    ] + meta_groups(meta) + seq![break_group(false, true)]
}

/// The texts a cover encodes.
pub open spec fn cover_texts(title: Seq<char>, subtitle: Seq<char>, meta: Seq<(String, String)>) -> Seq<Seq<char>> {
    seq![subtitle, title] + meta_texts(meta)
}

/// The groups one block is set as.
pub open spec fn block_elems(b: Block) -> Seq<ElemView> {
    match b {
        Block::Cover { title, subtitle, meta } => cover_elems(title@, subtitle@, meta@),
        Block::Heading { text, level } => if level == 1 {
            seq![group(lay_spec(text@, H1_SIZE as int, H1_LEADING as int, Face::Bold, 0, Tint::Ink, 2400, TEXT_W as int), Decor::RuleUnder(90, Tint::Ink))]
        } else if level == 2 {
            seq![group(lay_spec(text@, H2_SIZE as int, H2_LEADING as int, Face::Bold, 0, Tint::Ink, 1800, TEXT_W as int), Decor::Plain)]
        } else {
            seq![group(lay_spec(text@, H3_SIZE as int, H3_LEADING as int, Face::Bold, 0, Tint::Ink, 1400, TEXT_W as int), Decor::Plain)]
        },
        Block::Paragraph { text } => seq![
            group(lay_spec(text@, BODY_SIZE as int, BODY_LEADING as int, Face::Regular, 0, Tint::Body, 800, TEXT_W as int), Decor::Plain),
        ],
        Block::Bullet { text, indent } => if indent >= 1 {
            seq![
                group(
                    lay_spec(text@, QUOTATION_SIZE as int, QUOTATION_LEADING as int, Face::Oblique, 1200, Tint::Body, 800, TEXT_W - 2000),
                    Decor::Quote,
                ),
            ]
        } else {
            seq![
                group(
                    lay_spec("- "@ + text@, BODY_SIZE as int, BODY_LEADING as int, Face::Regular, 1400, Tint::Body, 400, TEXT_W as int),
                    Decor::Plain,
                ),
            ]
        },
        Block::Note { text } => seq![
            group(lay_spec(text@, SMALL_SIZE as int, SMALL_LEADING as int, Face::Regular, 1100, Tint::Muted, 1200, TEXT_W - 2200), Decor::Panel),
        ],
        Block::Badge { text, .. } => seq![
            group(lay_spec(text@, BODY_SIZE as int, BODY_LEADING as int, Face::Bold, 0, Tint::Ink, 800, TEXT_W as int), Decor::Plain),
        ],
        Block::PageBreak => seq![break_group(true, false)],
    }
}

/// The texts one block encodes.
pub open spec fn block_texts(b: Block) -> Seq<Seq<char>> {
    match b {
        Block::Cover { title, subtitle, meta } => cover_texts(title@, subtitle@, meta@),
        Block::Heading { text, .. } => seq![text@],
        Block::Paragraph { text } => seq![text@],
        Block::Bullet { text, indent } => if indent >= 1 {
            seq![text@]
        } else {
            seq!["- "@ + text@]
        },
        Block::Note { text } => seq![text@],
        Block::Badge { text, .. } => seq![text@],
        Block::PageBreak => Seq::empty(),
    }
}

/// Did some character of some text meet the fate `f`?
pub open spec fn texts_fate(ts: Seq<Seq<char>>, f: CharFate) -> bool {
    exists|j: int| 0 <= j < ts.len() && #[trigger] some_fate(ts[j], f)
}

proof fn lemma_texts_fate_append(a: Seq<Seq<char>>, b: Seq<Seq<char>>, f: CharFate)
    ensures
        texts_fate(a + b, f) == (texts_fate(a, f) || texts_fate(b, f)),
{
    if texts_fate(a + b, f) {
        let j = choose|j: int| 0 <= j < (a + b).len() && #[trigger] some_fate((a + b)[j], f);
        if j < a.len() {
            assert((a + b)[j] == a[j]);
        } else {
            assert((a + b)[j] == b[j - a.len()]);
        }
    }
    if texts_fate(a, f) {
        let j = choose|j: int| 0 <= j < a.len() && #[trigger] some_fate(a[j], f);
        assert((a + b)[j] == a[j]);
    }
    if texts_fate(b, f) {
        let j = choose|j: int| 0 <= j < b.len() && #[trigger] some_fate(b[j], f);
        assert((a + b)[a.len() + j] == b[j]);
    }
}

/// Lay out one block's groups onto the end of `elems`.
fn block_groups(out: &mut EncodingOutcome, b: &Block, elems: &mut Vec<Elem>)
    ensures
        elems_view(final(elems)@) == elems_view(old(elems)@) + block_elems(*b),
        forall|k: int| 0 <= k < old(elems)@.len() ==> final(elems)@[k] == old(elems)@[k],
        forall|k: int| old(elems)@.len() <= k < final(elems)@.len() ==> elem_ok(#[trigger] final(elems)@[k]@),
        final(out).any_simplified == (old(out).any_simplified || texts_fate(block_texts(*b), CharFate::Simplified)),
        final(out).any_marked == (old(out).any_marked || texts_fate(block_texts(*b), CharFate::Marked)),
{
    let ghost start = elems@;
    match b {
        Block::Cover { title, subtitle, meta } => {
            cover_groups(out, title, subtitle, meta, elems);
            assert(block_elems(*b) == cover_elems(title@, subtitle@, meta@));
            assert(block_texts(*b) == cover_texts(title@, subtitle@, meta@));
        },
        Block::Heading { text, level } => {
            let lines = if *level == 1 {
                lay(out, text.as_str(), H1_SIZE, H1_LEADING, Face::Bold, 0, Tint::Ink, 2400, TEXT_W)
            } else if *level == 2 {
                lay(out, text.as_str(), H2_SIZE, H2_LEADING, Face::Bold, 0, Tint::Ink, 1800, TEXT_W)
            } else {
                lay(out, text.as_str(), H3_SIZE, H3_LEADING, Face::Bold, 0, Tint::Ink, 1400, TEXT_W)
            };
            let decor = if *level == 1 { Decor::RuleUnder(90, Tint::Ink) } else { Decor::Plain };
            single_group(elems, lines, decor);
            proof { lemma_one_text(text@); }
        },
        Block::Paragraph { text } => {
            let lines = lay(out, text.as_str(), BODY_SIZE, BODY_LEADING, Face::Regular, 0, Tint::Body, 800, TEXT_W);
            single_group(elems, lines, Decor::Plain);
            proof { lemma_one_text(text@); }
        },
        Block::Bullet { text, indent } => {
            if *indent >= 1 {
                let lines = lay(out, text.as_str(), QUOTATION_SIZE, QUOTATION_LEADING, Face::Oblique, 1200, Tint::Body, 800, TEXT_W - 2000);
                single_group(elems, lines, Decor::Quote);
                proof { lemma_one_text(text@); }
            } else {
                let mut item = String::new();
                push_chars(&mut item, &chars_of("- "));
                push_chars(&mut item, &chars_of(text.as_str()));
                let lines = lay(out, item.as_str(), BODY_SIZE, BODY_LEADING, Face::Regular, 1400, Tint::Body, 400, TEXT_W);
                single_group(elems, lines, Decor::Plain);
                proof { lemma_one_text(item@); }
            }
        },
        Block::Note { text } => {
            let lines = lay(out, text.as_str(), SMALL_SIZE, SMALL_LEADING, Face::Regular, 1100, Tint::Muted, 1200, TEXT_W - 2200);
            single_group(elems, lines, Decor::Panel);
            proof { lemma_one_text(text@); }
        },
        Block::Badge { text, .. } => {
            let lines = lay(out, text.as_str(), BODY_SIZE, BODY_LEADING, Face::Bold, 0, Tint::Ink, 800, TEXT_W);
            single_group(elems, lines, Decor::Plain);
            proof { lemma_one_text(text@); }
        },
        Block::PageBreak => {
            elems.push(Elem { lines: Vec::new(), decor: Decor::Plain, soft_break: true, hard_break: false });
            proof {
                assert(lines_view(elems@.last().lines@) =~= Seq::<LineView>::empty());
                assert(elems_view(elems@) =~= elems_view(start) + block_elems(*b));
                assert(texts_fate(Seq::<Seq<char>>::empty(), CharFate::Simplified) == false);
                assert(texts_fate(Seq::<Seq<char>>::empty(), CharFate::Marked) == false);
            }
        },
    }
}

/// Lay out a cover's groups onto the end of `elems`.
fn cover_groups(out: &mut EncodingOutcome, title: &String, subtitle: &String, meta: &Vec<(String, String)>, elems: &mut Vec<Elem>)
    ensures
        elems_view(final(elems)@) == elems_view(old(elems)@) + cover_elems(title@, subtitle@, meta@),
        forall|k: int| 0 <= k < old(elems)@.len() ==> final(elems)@[k] == old(elems)@[k],
        forall|k: int| old(elems)@.len() <= k < final(elems)@.len() ==> elem_ok(#[trigger] final(elems)@[k]@),
        final(out).any_simplified == (old(out).any_simplified || texts_fate(cover_texts(title@, subtitle@, meta@), CharFate::Simplified)),
        final(out).any_marked == (old(out).any_marked || texts_fate(cover_texts(title@, subtitle@, meta@), CharFate::Marked)),
{
    let ghost start = elems@;
    let mut lines = lay(out, subtitle.as_str(), COVER_BRAND_SIZE, COVER_BRAND_LEADING, Face::Bold, 0, Tint::Ink, 9640, TEXT_W);
    let ghost first = lines@;
    let mut more = lay(out, title.as_str(), COVER_SUBTITLE_SIZE, COVER_SUBTITLE_LEADING, Face::Regular, 0, Tint::Body, 200, TEXT_W);
    let ghost second = more@;
    lines.append(&mut more);
    assert(lines_view(lines@) =~= lines_view(first) + lines_view(second));
    elems.push(Elem { lines, decor: Decor::RuleUnder(90, Tint::Ink), soft_break: false, hard_break: false });
    proof {
        let e = elems@.last()@;
        assert forall|k: int| 0 <= k < e.lines.len() implies line_ok(#[trigger] e.lines[k]) by {
            if k < first.len() {
                assert(e.lines[k] == lines_view(first)[k]);
            } else {
                assert(e.lines[k] == lines_view(second)[k - first.len()]);
            }
        }
        assert(texts_fate(seq![subtitle@, title@], CharFate::Simplified) == (some_fate(subtitle@, CharFate::Simplified) || some_fate(title@, CharFate::Simplified))) by {
            if some_fate(subtitle@, CharFate::Simplified) {
                assert(seq![subtitle@, title@][0] == subtitle@);
            }
            if some_fate(title@, CharFate::Simplified) {
                assert(seq![subtitle@, title@][1] == title@);
            }
        }
        assert(texts_fate(seq![subtitle@, title@], CharFate::Marked) == (some_fate(subtitle@, CharFate::Marked) || some_fate(title@, CharFate::Marked))) by {
            if some_fate(subtitle@, CharFate::Marked) {
                assert(seq![subtitle@, title@][0] == subtitle@);
            }
            if some_fate(title@, CharFate::Marked) {
                assert(seq![subtitle@, title@][1] == title@);
            }
        }
    }
    let ghost head = elems@;
    meta_pair_groups(out, meta, elems);
    let ghost tail = elems@;
    elems.push(Elem { lines: Vec::new(), decor: Decor::Plain, soft_break: false, hard_break: true });
    proof {
        assert(lines_view(elems@.last().lines@) =~= Seq::<LineView>::empty());
        assert(elems_view(elems@) =~= elems_view(tail).push(break_group(false, true)));
        lemma_texts_fate_append(seq![subtitle@, title@], meta_texts(meta@), CharFate::Simplified);
        lemma_texts_fate_append(seq![subtitle@, title@], meta_texts(meta@), CharFate::Marked);
        assert(elems_view(head) =~= elems_view(start).push(head.last()@));
        assert(elems_view(elems@) =~= elems_view(start) + cover_elems(title@, subtitle@, meta@));
    }

}

/// Lay out a cover's metadata pairs onto the end of `elems`.
fn meta_pair_groups(out: &mut EncodingOutcome, meta: &Vec<(String, String)>, elems: &mut Vec<Elem>)
    ensures
        elems_view(final(elems)@) == elems_view(old(elems)@) + meta_groups(meta@),
        final(elems)@.len() == old(elems)@.len() + meta@.len(),
        forall|k: int| 0 <= k < old(elems)@.len() ==> final(elems)@[k] == old(elems)@[k],
        forall|k: int| old(elems)@.len() <= k < final(elems)@.len() ==> elem_ok(#[trigger] final(elems)@[k]@),
        final(out).any_simplified == (old(out).any_simplified || texts_fate(meta_texts(meta@), CharFate::Simplified)),
        final(out).any_marked == (old(out).any_marked || texts_fate(meta_texts(meta@), CharFate::Marked)),
{
    let ghost head = elems@;
    let ghost o1 = *out;
    assert(meta_groups(meta@.take(0)) =~= Seq::<ElemView>::empty());
    assert(meta_texts(meta@.take(0)) =~= Seq::<Seq<char>>::empty());
    assert(elems_view(head) + Seq::<ElemView>::empty() =~= elems_view(head));
    let mut i: usize = 0;
    while i < meta.len()
        invariant
            i <= meta@.len(),
            elems@.len() == head.len() + i,
            forall|k: int| 0 <= k < head.len() ==> elems@[k] == head[k],
            forall|k: int| head.len() <= k < elems@.len() ==> elem_ok(#[trigger] elems@[k]@),
            elems_view(elems@) == elems_view(head) + meta_groups(meta@.take(i as int)),
            out.any_simplified == (o1.any_simplified || texts_fate(meta_texts(meta@.take(i as int)), CharFate::Simplified)),
            out.any_marked == (o1.any_marked || texts_fate(meta_texts(meta@.take(i as int)), CharFate::Marked)),
        decreases meta@.len() - i,
    {
        let label = to_uppercase(meta[i].0.as_str());
        let mut pair = lay(out, label.as_str(), FIELD_LABEL_SIZE, FIELD_LABEL_LEADING, Face::Bold, 0, Tint::Faint, 1000, TEXT_W);
        let ghost p1 = pair@;
        let mut value = lay(out, meta[i].1.as_str(), FIELD_VALUE_SIZE, FIELD_VALUE_LEADING, Face::Regular, 0, Tint::Ink, 100, TEXT_W);
        let ghost p2 = value@;
        pair.append(&mut value);
        assert(lines_view(pair@) =~= lines_view(p1) + lines_view(p2));
        let ghost before = elems@;
        elems.push(Elem { lines: pair, decor: Decor::Plain, soft_break: false, hard_break: false });
        proof {
            let e = elems@.last()@;
            assert forall|k: int| 0 <= k < e.lines.len() implies line_ok(#[trigger] e.lines[k]) by {
                if k < p1.len() {
                    assert(e.lines[k] == lines_view(p1)[k]);
                } else {
                    assert(e.lines[k] == lines_view(p2)[k - p1.len()]);
                }
            }
            let m = meta@.take(i + 1);
            assert(m.drop_last() =~= meta@.take(i as int));
            assert(m.last() == meta@[i as int]);
            let pt = seq![uppercase(meta@[i as int].0@), meta@[i as int].1@];
            assert(meta_texts(m) == meta_texts(meta@.take(i as int)) + pt);
            lemma_texts_fate_append(meta_texts(meta@.take(i as int)), pt, CharFate::Simplified);
            lemma_texts_fate_append(meta_texts(meta@.take(i as int)), pt, CharFate::Marked);
            assert(texts_fate(pt, CharFate::Simplified) == (some_fate(pt[0], CharFate::Simplified) || some_fate(pt[1], CharFate::Simplified))) by {
                if texts_fate(pt, CharFate::Simplified) {
                    let j = choose|j: int| 0 <= j < pt.len() && #[trigger] some_fate(pt[j], CharFate::Simplified);
                    assert(j == 0 || j == 1);
                }
            }
            assert(texts_fate(pt, CharFate::Marked) == (some_fate(pt[0], CharFate::Marked) || some_fate(pt[1], CharFate::Marked))) by {
                if texts_fate(pt, CharFate::Marked) {
                    let j = choose|j: int| 0 <= j < pt.len() && #[trigger] some_fate(pt[j], CharFate::Marked);
                    assert(j == 0 || j == 1);
                }
            }
            assert(meta_groups(m) =~= meta_groups(meta@.take(i as int)).push(pair_group(meta@[i as int].0@, meta@[i as int].1@)));
            assert(elems_view(elems@) =~= elems_view(before).push(elems@.last()@));
        }
        i += 1;
    }
    assert(meta@.take(meta@.len() as int) =~= meta@);
}

/// One text's fates are those of the text alone.
proof fn lemma_one_text(t: Seq<char>)
    ensures
        texts_fate(seq![t], CharFate::Simplified) == some_fate(t, CharFate::Simplified),
        texts_fate(seq![t], CharFate::Marked) == some_fate(t, CharFate::Marked),
{
    assert(seq![t][0] == t);
}

/// Push one group, with no break, onto `elems`.
fn single_group(elems: &mut Vec<Elem>, lines: Vec<Line>, decor: Decor)
    requires
        forall|k: int| 0 <= k < lines@.len() ==> line_ok(#[trigger] lines_view(lines@)[k]),
        decor matches Decor::RuleUnder(w, _) ==> 0 <= w <= 220,
    ensures
        elems_view(final(elems)@) == elems_view(old(elems)@).push(group(lines_view(lines@), decor)),
        final(elems)@.len() == old(elems)@.len() + 1,
        forall|k: int| 0 <= k < old(elems)@.len() ==> final(elems)@[k] == old(elems)@[k],
        elem_ok(final(elems)@.last()@),
{
    let ghost start = elems@;
    let ghost lv = lines_view(lines@);
    elems.push(Elem { lines, decor, soft_break: false, hard_break: false });
    assert(elems_view(elems@) =~= elems_view(start).push(group(lv, decor)));
    assert forall|k: int| 0 <= k < elems@.last()@.lines.len() implies line_ok(#[trigger] elems@.last()@.lines[k]) by {
        assert(elems@.last()@.lines[k] == lv[k]);
    }
}


// ---------------------------------------------------------------------------
// Drawing a group
// ---------------------------------------------------------------------------

/// The vertical space a run of lines takes: each line's lead and leading.
pub open spec fn lines_height(ls: Seq<LineView>) -> int
    decreases ls.len(),
{
    if ls.len() == 0 {
        0
    } else {
        lines_height(ls.drop_last()) + ls.last().lead + ls.last().leading
    }
}

/// The padding a decoration keeps above and below its lines.
pub open spec fn pad_of(d: Decor) -> int {
    match d {
        Decor::Panel => 1100,
        Decor::Quote => 1000,
        _ => 0,
    }
}

/// The space a decoration adds to a group's height, as pagination counts it.
pub open spec fn decor_extra(d: Decor) -> int {
    match d {
        Decor::Panel => 2200,
        Decor::Quote => 3600,
        Decor::RuleUnder(..) => 1700,
        Decor::Plain => 0,
    }
}

/// The height pagination reserves for a group.
pub open spec fn elem_height(e: ElemView) -> int {
    lines_height(e.lines) + decor_extra(e.decor)
}

/// One line set at a baseline.
pub open spec fn line_op(l: LineView, y: int) -> Seq<u8> {
    text_spec(l.tint, l.face, l.size, MARGIN_X + l.indent, y, l.bytes)
}

/// Lines set downward from `top`: each baseline sits its lead and leading
/// below the one before.
pub open spec fn lines_body(ls: Seq<LineView>, top: int) -> Seq<u8>
    decreases ls.len(),
{
    if ls.len() == 0 {
        Seq::empty()
    } else {
        lines_body(ls.drop_last(), top) + line_op(ls.last(), top - lines_height(ls))
    }
}

/// A group drawn from `y` down: its bytes, decoration first so the text
/// sits on any fill, and where the next group starts.
pub open spec fn drawn(e: ElemView, y: int) -> (Seq<u8>, int) {
    let p = pad_of(e.decor);
    let body = lines_body(e.lines, y - p);
    let low = y - p - lines_height(e.lines) - p;
    match e.decor {
        Decor::Panel => (rect_spec(MARGIN_X as int, low, TEXT_W as int, y - low, Tint::Panel) + body, low),
        Decor::Quote => (
            rect_spec(MARGIN_X as int, low, TEXT_W as int, y - low, Tint::QuoteBg) + rect_spec(MARGIN_X as int, low, 200, y - low, Tint::QuoteRule)
                + body,
            low,
        ),
        Decor::RuleUnder(w, t) => (rect_spec(MARGIN_X as int, low - 1100, TEXT_W as int, w as int, t) + body, low - 1700),
        Decor::Plain => (body, low),
    }
}

fn pad_cp(d: Decor) -> (r: i128)
    ensures
        r == pad_of(d),
{
    match d {
        Decor::Panel => 1100,
        Decor::Quote => 1000,
        _ => 0,
    }
}

fn extra_cp(d: Decor) -> (r: i128)
    ensures
        r == decor_extra(d),
{
    match d {
        Decor::Panel => 2200,
        Decor::Quote => 3600,
        Decor::RuleUnder(..) => 1700,
        Decor::Plain => 0,
    }
}

impl Elem {
    /// The height pagination reserves for a group.
    fn height(&self) -> (h: i128)
        requires
            elem_ok(self@),
        ensures
            h == elem_height(self@),
            0 <= h <= 11640 * 0x1_0000_0000_0000_0000 + 3600,
    {
        let ghost ls = self@.lines;
        let mut total: i128 = 0;
        let mut k: usize = 0;
        let n = self.lines.len();
        while k < n
            invariant
                ls == self@.lines,
                elem_ok(self@),
                k <= ls.len(),
                ls.len() == self.lines@.len(),
                n == self.lines@.len(),
                total == lines_height(ls.take(k as int)),
                0 <= total <= 11640 * k,
            decreases ls.len() - k,
        {
            assert(ls.take(k + 1).drop_last() =~= ls.take(k as int));
            assert(ls[k as int] == self.lines@[k as int]@);
            assert(line_ok(ls[k as int]));
            total = total + self.lines[k].lead + self.lines[k].leading;
            k += 1;
        }
        assert(ls.take(ls.len() as int) =~= ls);
        assert(usize::MAX < 0x1_0000_0000_0000_0000);
        total + extra_cp(self.decor)
    }
}

/// Draw a group from `y` down onto `stream`; the result is where the next
/// group starts.
#[verifier::spinoff_prover]
#[verifier::rlimit(40)]
fn draw(e: &Elem, y: i128, stream: &mut Vec<u8>) -> (y2: i128)
    requires
        elem_ok(e@),
        -0x1_0000_0000_0000_0000_0000_0000 <= y <= TOP,
    ensures
        final(stream)@ == old(stream)@ + drawn(e@, y as int).0,
        y2 == drawn(e@, y as int).1,
{
    let p = pad_cp(e.decor);
    let top = y - p;
    let mut body: Vec<u8> = Vec::new();
    assert forall|k: int| 0 <= k < e.lines@.len() implies line_ok(#[trigger] lines_view(e.lines@)[k]) by {
        assert(lines_view(e.lines@)[k] == e@.lines[k]);
    }
    let cy = set_lines(&e.lines, top, &mut body);
    let low = cy - p;
    let ghost before = stream@;
    let next = match e.decor {
        Decor::Panel => {
            fill_rect(stream, MARGIN_X, low, TEXT_W, y - low, Tint::Panel);
            low
        },
        Decor::Quote => {
            fill_rect(stream, MARGIN_X, low, TEXT_W, y - low, Tint::QuoteBg);
            fill_rect(stream, MARGIN_X, low, 200, y - low, Tint::QuoteRule);
            low
        },
        Decor::RuleUnder(w, t) => {
            fill_rect(stream, MARGIN_X, low - 1100, TEXT_W, w, t);
            low - 1700
        },
        Decor::Plain => low,
    };
    push_bytes(stream, &body);
    assert(stream@ =~= before + drawn(e@, y as int).0);
    next
}

/// Set lines downward from `top` onto `body`; the result is the last
/// baseline.
fn set_lines(lines: &Vec<Line>, top: i128, body: &mut Vec<u8>) -> (cy: i128)
    requires
        forall|k: int| 0 <= k < lines@.len() ==> line_ok(#[trigger] lines_view(lines@)[k]),
        -0x1_0000_0000_0000_0000_0000_0000 - 1100 <= top <= TOP,
    ensures
        final(body)@ == old(body)@ + lines_body(lines_view(lines@), top as int),
        cy == top - lines_height(lines_view(lines@)),
        0 <= lines_height(lines_view(lines@)) <= 11640 * 0x1_0000_0000_0000_0000,
{
    let ghost ls = lines_view(lines@);
    let ghost start = body@;
    let mut cy = top;
    let mut k: usize = 0;
    let n = lines.len();
    assert(lines_body(ls.take(0), top as int) =~= Seq::<u8>::empty());
    assert(body@ =~= start + lines_body(ls.take(0), top as int));
    while k < n
        invariant
            ls == lines_view(lines@),
            forall|j: int| 0 <= j < lines@.len() ==> line_ok(#[trigger] lines_view(lines@)[j]),
            k <= ls.len(),
            n == lines@.len(),
            -0x1_0000_0000_0000_0000_0000_0000 - 1100 <= top <= TOP,
            cy == top - lines_height(ls.take(k as int)),
            0 <= lines_height(ls.take(k as int)) <= 11640 * k,
            body@ == start + lines_body(ls.take(k as int), top as int),
        decreases ls.len() - k,
    {
        assert(ls.take(k + 1).drop_last() =~= ls.take(k as int));
        assert(ls[k as int] == lines@[k as int]@);
        assert(line_ok(ls[k as int]));
        let l = &lines[k];
        cy = cy - (l.lead + l.leading);
        set_text(body, l.tint, l.face, l.size, MARGIN_X + l.indent, cy, &l.bytes);
        assert(body@ =~= start + lines_body(ls.take(k + 1), top as int));
        k += 1;
    }
    assert(ls.take(ls.len() as int) =~= ls);
    assert(usize::MAX < 0x1_0000_0000_0000_0000);
    cy
}


// ---------------------------------------------------------------------------
// Pagination
// ---------------------------------------------------------------------------

/// Where pagination stands: the finished pages, the page being filled, the
/// next group's top, and whether anything is on the page yet.
pub struct PageState {
    pub pages: Seq<Seq<u8>>,
    pub stream: Seq<u8>,
    pub y: int,
    pub empty: bool,
}

/// Nothing laid out yet.
pub open spec fn first_page() -> PageState {
    PageState { pages: Seq::empty(), stream: Seq::empty(), y: TOP as int, empty: true }
}

/// Close the page being filled and start a new one.
pub open spec fn fresh_page(st: PageState) -> PageState {
    PageState { pages: st.pages.push(st.stream), stream: Seq::empty(), y: TOP as int, empty: true }
}

/// A page is filled enough to honour a soft break once 45% of the space
/// between the top and the bottom is used.
pub open spec fn filled_enough(y: int) -> bool {
    100 * (TOP - y) >= 45 * (TOP - BOTTOM)
}

/// One group placed: a hard break starts a page unless the page is empty; a
/// soft break does so only on a page filled enough, and is otherwise spent
/// as 18pt of space; a group that would cross the bottom starts a page
/// unless it is the first on its page.
pub open spec fn place(st: PageState, e: ElemView) -> PageState {
    if e.hard_break {
        if st.empty {
            st
        } else {
            fresh_page(st)
        }
    } else if e.soft_break {
        if st.empty {
            st
        } else if filled_enough(st.y) {
            fresh_page(st)
        } else {
            PageState { pages: st.pages, stream: st.stream, y: st.y - 1800, empty: st.empty }
        }
    } else if e.lines.len() == 0 {
        st
    } else {
        let s1 = if !st.empty && st.y - elem_height(e) < BOTTOM {
            fresh_page(st)
        } else {
            st
        };
        let d = drawn(e, s1.y);
        PageState { pages: s1.pages, stream: s1.stream + d.0, y: d.1, empty: false }
    }
}

/// Groups placed in order.
pub open spec fn paginate_spec(es: Seq<ElemView>) -> PageState
    decreases es.len(),
{
    if es.len() == 0 {
        first_page()
    } else {
        place(paginate_spec(es.drop_last()), es.last())
    }
}

/// The pages groups fill: the last page is kept if anything is on it, and a
/// document is never without a page.
pub open spec fn pages_of(es: Seq<ElemView>) -> Seq<Seq<u8>> {
    let st = paginate_spec(es);
    let ps = if !st.empty {
        st.pages.push(st.stream)
    } else {
        st.pages
    };
    if ps.len() == 0 {
        seq![Seq::empty()]
    } else {
        ps
    }
}

/// Pagination in progress.
struct Pager {
    pages: Vec<Vec<u8>>,
    stream: Vec<u8>,
    y: i128,
    empty: bool,
}

impl Pager {
    spec fn state(&self) -> PageState {
        PageState { pages: byte_views(self.pages@), stream: self.stream@, y: self.y as int, empty: self.empty }
    }

    spec fn ok(&self) -> bool {
        &&& self.empty ==> self.y == TOP
        &&& TOP - MAX_GROUP_HEIGHT - 1800 <= self.y <= TOP
    }

    fn new_page(&mut self)
        ensures
            final(self).state() == fresh_page(old(self).state()),
            final(self).ok(),
            final(self).pages@.len() == old(self).pages@.len() + 1,
    {
        let ghost pv = byte_views(self.pages@);
        let ghost sv = self.stream@;
        let mut s: Vec<u8> = Vec::new();
        std::mem::swap(&mut s, &mut self.stream);
        self.pages.push(s);
        self.y = TOP;
        self.empty = true;
        assert(byte_views(self.pages@) =~= pv.push(sv));
    }

    fn place(&mut self, e: &Elem)
        requires
            old(self).ok(),
            elem_ok(e@),
        ensures
            final(self).state() == place(old(self).state(), e@),
            final(self).ok(),
            final(self).pages@.len() <= old(self).pages@.len() + 1,
    {
        if e.hard_break {
            if !self.empty {
                self.new_page();
            }
        } else if e.soft_break {
            if !self.empty {
                if 100 * (TOP - self.y) >= 45 * (TOP - BOTTOM) {
                    self.new_page();
                } else {
                    self.y = self.y - 1800;
                }
            }
        } else if e.lines.len() > 0 {
            let h = e.height();
            if !self.empty && self.y - h < BOTTOM {
                self.new_page();
            }
            let ghost mid = self.state();
            assert(11640 * 0x1_0000_0000_0000_0000 + 3600 < MAX_GROUP_HEIGHT);
            let y = draw(e, self.y, &mut self.stream);
            proof {
                lemma_drawn_bounds(e@, mid.y);
            }
            self.y = y;
            self.empty = false;
        }
    }
}

/// A group drawn from `y` ends no lower than its reserved height below `y`,
/// and no higher than `y`.
proof fn lemma_drawn_bounds(e: ElemView, y: int)
    requires
        elem_ok(e),
    ensures
        y - elem_height(e) <= drawn(e, y).1 <= y,
{
    lemma_lines_height_nonneg(e.lines);
}

proof fn lemma_lines_height_nonneg(ls: Seq<LineView>)
    requires
        forall|k: int| 0 <= k < ls.len() ==> line_ok(#[trigger] ls[k]),
    ensures
        lines_height(ls) >= 0,
    decreases ls.len(),
{
    if ls.len() > 0 {
        assert(line_ok(ls[ls.len() - 1]));
        assert forall|k: int| 0 <= k < ls.drop_last().len() implies line_ok(#[trigger] ls.drop_last()[k]) by {
            assert(ls.drop_last()[k] == ls[k]);
        }
        lemma_lines_height_nonneg(ls.drop_last());
    }
}

/// Place groups onto pages.
fn paginate(elems: &Vec<Elem>) -> (r: Vec<Vec<u8>>)
    requires
        forall|k: int| 0 <= k < elems@.len() ==> elem_ok(#[trigger] elems@[k]@),
    ensures
        byte_views(r@) == pages_of(elems_view(elems@)),
        r@.len() <= elems@.len() + 1,
{
    let ghost ev = elems_view(elems@);
    let mut pager = Pager { pages: Vec::new(), stream: Vec::new(), y: TOP, empty: true };
    let mut i: usize = 0;
    let n = elems.len();
    assert(ev.take(0) =~= Seq::<ElemView>::empty());
    assert(byte_views(pager.pages@) =~= Seq::<Seq<u8>>::empty());
    assert(pager.stream@ =~= Seq::<u8>::empty());
    assert(pager.state() == first_page());
    while i < n
        invariant
            ev == elems_view(elems@),
            n == elems@.len(),
            forall|k: int| 0 <= k < elems@.len() ==> elem_ok(#[trigger] elems@[k]@),
            i <= n,
            pager.state() == paginate_spec(ev.take(i as int)),
            pager.ok(),
            pager.pages@.len() <= i,
        decreases n - i,
    {
        proof {
            assert(ev.take(i + 1).drop_last() =~= ev.take(i as int));
            assert(ev[i as int] == elems@[i as int]@);
            assert(elem_ok(elems@[i as int]@));
        }
        pager.place(&elems[i]);
        i += 1;
    }
    assert(ev.take(n as int) =~= ev);
    let mut pages = pager.pages;
    if !pager.empty {
        let ghost pv = byte_views(pages@);
        let ghost sv = pager.stream@;
        pages.push(pager.stream);
        assert(byte_views(pages@) =~= pv.push(sv));
    }
    if pages.len() == 0 {
        pages.push(Vec::new());
        assert(byte_views(pages@) =~= seq![Seq::<u8>::empty()]);
    }
    pages
}


// ---------------------------------------------------------------------------
// Running header and footer
// ---------------------------------------------------------------------------

/// One line of running header or footer: faint, at the furniture size.
pub open spec fn furniture(t: Seq<u8>, x: int, y: int) -> Seq<u8> {
    text_spec(Tint::Faint, Face::Regular, FURNITURE_SIZE as int, x, y, t)
}

/// Where a page number starts so that it ends at the right margin: the
/// column's right edge less the number's width, to the nearest hundredth.
pub open spec fn page_number_x(n: nat) -> int {
    ((MARGIN_X + TEXT_W) * 1000 - advance(ascii(decimal(n)), Face::Regular) * FURNITURE_SIZE + 500) / 1000
}

/// What tops a page: a 2.2pt rule across the cover's top margin, and on
/// every later page the running header over a hairline.
pub open spec fn page_head(i: nat) -> Seq<u8> {
    if i == 0 {
        rect_spec(MARGIN_X as int, PAGE_H - MARGIN_Y, TEXT_W as int, 220, Tint::Ink)
    } else {
        furniture(ascii("PublishReady report"@), MARGIN_X as int, PAGE_H - MARGIN_Y - 1000)
            + rect_spec(MARGIN_X as int, PAGE_H - MARGIN_Y - 1500, TEXT_W as int, 50, Tint::Hair)
    }
}

/// Page `i` (from zero) with its furniture: the head, the footer's name on
/// the left and the page number on the right, then the content.
pub open spec fn furnished(i: nat, content: Seq<u8>) -> Seq<u8> {
    page_head(i) + furniture(ascii("PublishReady"@), MARGIN_X as int, MARGIN_Y as int) + furniture(
        ascii(decimal(i + 1)),
        page_number_x(i + 1),
        MARGIN_Y as int,
    ) + content
}

/// Every page furnished.
pub open spec fn furnish_spec(pages: Seq<Seq<u8>>) -> Seq<Seq<u8>> {
    Seq::new(pages.len(), |i: int| furnished(i as nat, pages[i]))
}

spec fn pow10(k: nat) -> nat
    decreases k,
{
    if k == 0 {
        1
    } else {
        10 * pow10((k - 1) as nat)
    }
}

proof fn lemma_decimal_short(n: nat, k: nat)
    requires
        1 <= k,
        n < pow10(k),
    ensures
        decimal(n).len() <= k,
    decreases k,
{
    if n >= 10 {
        if k == 1 {
            assert(pow10(1) == 10 * pow10(0));
        } else {
            assert(pow10(k) == 10 * pow10((k - 1) as nat));
            lemma_decimal_short(n / 10, (k - 1) as nat);
        }
    }
}

/// A page number needs at most twenty digits.
proof fn lemma_page_number_digits(n: nat)
    requires
        n <= 0x1_0000_0000_0000_0000,
    ensures
        decimal(n).len() <= 20,
{
    assert(pow10(20) == 100000000000000000000nat) by {
        reveal_with_fuel(pow10, 21);
    }
    lemma_decimal_short(n, 20);
}

fn furniture_text(out: &mut Vec<u8>, t: &[u8], x: i128, y: i128)
    ensures
        final(out)@ == old(out)@ + furniture(t@, x as int, y as int),
{
    set_text(out, Tint::Faint, Face::Regular, FURNITURE_SIZE, x, y, t);
}

/// Add the running header and footer to every page.
fn furnish(pages: Vec<Vec<u8>>) -> (r: Vec<Vec<u8>>)
    ensures
        byte_views(r@) == furnish_spec(byte_views(pages@)),
{
    let ghost pv = byte_views(pages@);
    let mut r: Vec<Vec<u8>> = Vec::new();
    let mut i: usize = 0;
    let n = pages.len();
    while i < n
        invariant
            pv == byte_views(pages@),
            n == pages@.len(),
            i <= n,
            r@.len() == i,
            forall|k: int| 0 <= k < i ==> #[trigger] r@[k]@ == furnished(k as nat, pv[k]),
        decreases n - i,
    {
        let mut page: Vec<u8> = Vec::new();
        if i == 0 {
            fill_rect(&mut page, MARGIN_X, PAGE_H - MARGIN_Y, TEXT_W, 220, Tint::Ink);
        } else {
            let mut head: Vec<u8> = Vec::new();
            push_ascii(&mut head, "PublishReady report");
            furniture_text(&mut page, &head, MARGIN_X, PAGE_H - MARGIN_Y - 1000);
            fill_rect(&mut page, MARGIN_X, PAGE_H - MARGIN_Y - 1500, TEXT_W, 50, Tint::Hair);
        }
        assert(page@ == page_head(i as nat));
        let mut name: Vec<u8> = Vec::new();
        push_ascii(&mut name, "PublishReady");
        furniture_text(&mut page, &name, MARGIN_X, MARGIN_Y);
        let digits = decimal_chars_wide((i as u128) + 1);
        let mut number: Vec<u8> = Vec::new();
        push_ascii_chars(&mut number, &digits);
        let adv = measure(&number, Face::Regular);
        proof {
            lemma_page_number_digits((i + 1) as nat);
            assert(number@.len() == decimal((i + 1) as nat).len());
        }
        let x = ((MARGIN_X + TEXT_W) * 1000 - (adv as i128) * FURNITURE_SIZE + 500) / 1000;
        furniture_text(&mut page, &number, x, MARGIN_Y);
        push_bytes(&mut page, &pages[i]);
        proof {
            assert(pv[i as int] == pages@[i as int]@);
            assert(page@ =~= furnished(i as nat, pv[i as int]));
        }
        r.push(page);
        i += 1;
    }
    assert(byte_views(r@) =~= furnish_spec(pv));
    r
}


// ---------------------------------------------------------------------------
// The whole document
// ---------------------------------------------------------------------------

/// The groups blocks are set as, in order.
pub open spec fn body_elems(bs: Seq<Block>) -> Seq<ElemView>
    decreases bs.len(),
{
    if bs.len() == 0 {
        Seq::empty()
    } else {
        body_elems(bs.drop_last()) + block_elems(bs.last())
    }
}

/// Did some character the blocks encode meet the fate `f`?
pub open spec fn blocks_fate(bs: Seq<Block>, f: CharFate) -> bool
    decreases bs.len(),
{
    if bs.len() == 0 {
        false
    } else {
        blocks_fate(bs.drop_last(), f) || texts_fate(block_texts(bs.last()), f)
    }
}

/// The renderer's disclosures of its own limits: one panel for folding and
/// one for marking, each only when it happened.
pub open spec fn disclosure_elems(simplified: bool, marked: bool) -> Seq<ElemView> {
    (if simplified {
        seq![
            group(
                lay_spec(NOTE_SIMPLIFIED@, FURNITURE_SIZE as int, FURNITURE_LEADING as int, Face::Regular, 1100, Tint::Muted, 1800, TEXT_W - 2200),
                Decor::Panel,
            ),
        ]
    } else {
        Seq::empty()
    }) + (if marked {
        seq![
            group(
                lay_spec(NOTE_MARKED@, FURNITURE_SIZE as int, FURNITURE_LEADING as int, Face::Regular, 1100, Tint::Muted, 800, TEXT_W - 2200),
                Decor::Panel,
            ),
        ]
    } else {
        Seq::empty()
    })
}

/// Every group of a document, disclosures last.
pub open spec fn layout_elems(bs: Seq<Block>) -> Seq<ElemView> {
    body_elems(bs) + disclosure_elems(blocks_fate(bs, CharFate::Simplified), blocks_fate(bs, CharFate::Marked))
}

/// The PDF a document renders to.
pub open spec fn render_spec(bs: Seq<Block>) -> Seq<u8> {
    pdf_file(pdf_objects(furnish_spec(pages_of(layout_elems(bs)))))
}

/// Push one disclosure panel.
fn disclosure(elems: &mut Vec<Elem>, note: &str, lead: i128)
    requires
        0 <= lead <= 9640,
    ensures
        elems_view(final(elems)@) == elems_view(old(elems)@).push(
            group(
                lay_spec(note@, FURNITURE_SIZE as int, FURNITURE_LEADING as int, Face::Regular, 1100, Tint::Muted, lead as int, TEXT_W - 2200),
                Decor::Panel,
            ),
        ),
        final(elems)@.len() == old(elems)@.len() + 1,
        forall|k: int| 0 <= k < old(elems)@.len() ==> final(elems)@[k] == old(elems)@[k],
        elem_ok(final(elems)@.last()@),
{
    let mut scratch = EncodingOutcome::default();
    let lines = lay(&mut scratch, note, FURNITURE_SIZE, FURNITURE_LEADING, Face::Regular, 1100, Tint::Muted, lead, TEXT_W - 2200);
    single_group(elems, lines, Decor::Panel);
}

/// Lay out the blocks' groups, and note what encoding did to their text.
fn body_groups(blocks: &[Block], outcome: &mut EncodingOutcome) -> (elems: Vec<Elem>)
    requires
        *old(outcome) == (EncodingOutcome { any_simplified: false, any_marked: false }),
    ensures
        elems_view(elems@) == body_elems(blocks@),
        forall|k: int| 0 <= k < elems@.len() ==> elem_ok(#[trigger] elems@[k]@),
        final(outcome).any_simplified == blocks_fate(blocks@, CharFate::Simplified),
        final(outcome).any_marked == blocks_fate(blocks@, CharFate::Marked),
{
    let mut elems: Vec<Elem> = Vec::new();
    let mut i: usize = 0;
    let n = blocks.len();
    assert(blocks@.take(0) =~= Seq::<Block>::empty());
    assert(elems_view(elems@) =~= Seq::<ElemView>::empty());
    while i < n
        invariant
            n == blocks@.len(),
            i <= n,
            elems_view(elems@) == body_elems(blocks@.take(i as int)),
            forall|k: int| 0 <= k < elems@.len() ==> elem_ok(#[trigger] elems@[k]@),
            outcome.any_simplified == blocks_fate(blocks@.take(i as int), CharFate::Simplified),
            outcome.any_marked == blocks_fate(blocks@.take(i as int), CharFate::Marked),
        decreases n - i,
    {
        proof {
            assert(blocks@.take(i + 1).drop_last() =~= blocks@.take(i as int));
            assert(blocks@.take(i + 1).last() == blocks@[i as int]);
        }
        block_groups(outcome, &blocks[i], &mut elems);
        i += 1;
    }
    assert(blocks@.take(n as int) =~= blocks@);
    elems
}

/// Every group of a document, disclosures last.
fn layout(blocks: &[Block]) -> (elems: Vec<Elem>)
    ensures
        elems_view(elems@) == layout_elems(blocks@),
        forall|k: int| 0 <= k < elems@.len() ==> elem_ok(#[trigger] elems@[k]@),
{
    let mut outcome = EncodingOutcome::default();
    let mut elems = body_groups(blocks, &mut outcome);
    if outcome.any_simplified {
        disclosure(&mut elems, NOTE_SIMPLIFIED, 1800);
    }
    if outcome.any_marked {
        disclosure(&mut elems, NOTE_MARKED, 800);
    }
    assert(elems_view(elems@) =~= layout_elems(blocks@));
    elems
}

/// Paginate groups, furnish each page, and write the file.
fn paginate_and_write(elems: &Vec<Elem>) -> (r: Vec<u8>)
    requires
        forall|k: int| 0 <= k < elems@.len() ==> elem_ok(#[trigger] elems@[k]@),
        elems@.len() + 1 <= (usize::MAX - 7) / 2,
    ensures
        r@ == pdf_file(pdf_objects(furnish_spec(pages_of(elems_view(elems@))))),
{
    let pages = paginate(elems);
    let ghost pv = byte_views(pages@);
    let furnished = furnish(pages);
    proof {
        assert(furnished@.len() == byte_views(furnished@).len());
        assert(pv.len() == pages@.len());
    }
    write_pdf(&furnished)
}

/// Render composed blocks to the bytes of a PDF file.
pub fn render_pdf(blocks: &[Block]) -> (r: Vec<u8>)
    requires
        body_elems(blocks@).len() + 3 <= (usize::MAX - 7) / 2,
    ensures
        r@ == render_spec(blocks@),
{
    let elems = layout(blocks);
    proof {
        assert(elems@.len() == elems_view(elems@).len());
        assert(layout_elems(blocks@).len() <= body_elems(blocks@).len() + 2);
    }
    paginate_and_write(&elems)
}

// ---------------------------------------------------------------------------
// What pagination keeps
// ---------------------------------------------------------------------------

/// A hard break always ends the page: whatever follows it starts on a page
/// of its own, so the cover never shares one.
pub proof fn lemma_hard_break_ends_the_page(es: Seq<ElemView>)
    ensures
        paginate_spec(es.push(break_group(false, true))).empty,
        paginate_spec(es.push(break_group(false, true))).stream.len() == 0,
        paginate_spec(es.push(break_group(false, true))).y == TOP,
{
    lemma_empty_page_is_blank(es);
    assert(es.push(break_group(false, true)).drop_last() =~= es);
}

proof fn lemma_empty_page_is_blank(es: Seq<ElemView>)
    ensures
        paginate_spec(es).empty ==> paginate_spec(es).stream.len() == 0 && paginate_spec(es).y == TOP,
    decreases es.len(),
{
    if es.len() > 0 {
        lemma_empty_page_is_blank(es.drop_last());
    }
}

/// A soft break on a page not yet 45% full starts no page: it is spent as
/// 18pt of space, or as nothing on an empty page.
pub proof fn lemma_soft_break_on_a_sparse_page(es: Seq<ElemView>)
    requires
        !filled_enough(paginate_spec(es).y),
    ensures
        paginate_spec(es.push(break_group(true, false))).pages == paginate_spec(es).pages,
        paginate_spec(es.push(break_group(true, false))).stream == paginate_spec(es).stream,
{
    assert(es.push(break_group(true, false)).drop_last() =~= es);
}

/// While every group is no taller than the space between the top and the
/// bottom, the layout never runs below the bottom: each group either fits
/// under the one before or starts a page.
pub proof fn lemma_fitting_groups_stay_above_the_bottom(es: Seq<ElemView>)
    requires
        forall|k: int| 0 <= k < es.len() ==> elem_ok(#[trigger] es[k]),
        forall|k: int| 0 <= k < es.len() ==> elem_height(#[trigger] es[k]) <= TOP - BOTTOM,
    ensures
        BOTTOM <= paginate_spec(es).y <= TOP,
        paginate_spec(es).empty ==> paginate_spec(es).y == TOP,
    decreases es.len(),
{
    if es.len() > 0 {
        let pre = es.drop_last();
        assert forall|k: int| 0 <= k < pre.len() implies elem_ok(#[trigger] pre[k]) by {
            assert(pre[k] == es[k]);
        }
        assert forall|k: int| 0 <= k < pre.len() implies elem_height(#[trigger] pre[k]) <= TOP - BOTTOM by {
            assert(pre[k] == es[k]);
        }
        lemma_fitting_groups_stay_above_the_bottom(pre);
        let e = es.last();
        assert(elem_ok(es[es.len() - 1]));
        assert(elem_height(es[es.len() - 1]) <= TOP - BOTTOM);
        let st = paginate_spec(pre);
        if !e.hard_break && !e.soft_break && e.lines.len() > 0 {
            let s1 = if !st.empty && st.y - elem_height(e) < BOTTOM { fresh_page(st) } else { st };
            lemma_drawn_bounds(e, s1.y);
        }
    }
}


// ---------------------------------------------------------------------------
// What the rendered file keeps
// ---------------------------------------------------------------------------

/// In a file over any pages, the page tree's `/Count` is the number of
/// pages, and there is one page dictionary per page, each followed by that
/// page's content.
pub proof fn lemma_page_tree(pages: Seq<Seq<u8>>)
    ensures
        pdf_objects(pages).len() == 5 + 2 * pages.len(),
        pdf_objects(pages)[1] == pages_object(pages.len()),
        forall|k: int|
            0 <= k < pages.len() ==> #[trigger] pdf_objects(pages)[5 + 2 * k] == page_object(k as nat)
                && pdf_objects(pages)[6 + 2 * k] == stream_object(pages[k]),
{
    lemma_page_objects_len(pages);
    assert forall|k: int| 0 <= k < pages.len() implies #[trigger] pdf_objects(pages)[5 + 2 * k] == page_object(k as nat)
        && pdf_objects(pages)[6 + 2 * k] == stream_object(pages[k]) by {
        lemma_page_pair(pages, k);
    }
}

/// A rendered document is the file over its furnished pages, of which there
/// is at least one, even for no blocks; with [`lemma_page_tree`], its
/// `/Count` is that number of pages.
pub proof fn lemma_rendered_pages(bs: Seq<Block>)
    ensures
        render_spec(bs) == pdf_file(pdf_objects(furnish_spec(pages_of(layout_elems(bs))))),
        furnish_spec(pages_of(layout_elems(bs))).len() == pages_of(layout_elems(bs)).len(),
        pages_of(layout_elems(bs)).len() >= 1,
{
    let st = paginate_spec(layout_elems(bs));
    let ps = if !st.empty { st.pages.push(st.stream) } else { st.pages };
    assert(pages_of(layout_elems(bs)).len() >= 1);
}

/// Did some text of some block meet the fate `f`?
pub open spec fn some_block_fate(bs: Seq<Block>, f: CharFate) -> bool {
    exists|i: int| 0 <= i < bs.len() && #[trigger] texts_fate(block_texts(bs[i]), f)
}

proof fn lemma_blocks_fate_exists(bs: Seq<Block>, f: CharFate)
    ensures
        blocks_fate(bs, f) == some_block_fate(bs, f),
    decreases bs.len(),
{
    if bs.len() > 0 {
        let pre = bs.drop_last();
        lemma_blocks_fate_exists(pre, f);
        if some_block_fate(pre, f) {
            let i = choose|i: int| 0 <= i < pre.len() && #[trigger] texts_fate(block_texts(pre[i]), f);
            assert(bs[i] == pre[i]);
        }
        if some_block_fate(bs, f) {
            let i = choose|i: int| 0 <= i < bs.len() && #[trigger] texts_fate(block_texts(bs[i]), f);
            if i < pre.len() {
                assert(bs[i] == pre[i]);
            }
        }
        assert(bs.last() == bs[bs.len() - 1]);
    }
}

/// The renderer discloses exactly what encoding did: after the blocks' own
/// groups come at most two panels, the folding note exactly when some text
/// of some block had a character folded, then the marking note exactly when
/// some character was marked; the two are independent.
pub proof fn lemma_disclosures_exactly_when_they_happened(bs: Seq<Block>)
    ensures
        ({
            let s = some_block_fate(bs, CharFate::Simplified);
            let m = some_block_fate(bs, CharFate::Marked);
            let simplified_note = group(
                lay_spec(NOTE_SIMPLIFIED@, FURNITURE_SIZE as int, FURNITURE_LEADING as int, Face::Regular, 1100, Tint::Muted, 1800, TEXT_W - 2200),
                Decor::Panel,
            );
            let marked_note = group(
                lay_spec(NOTE_MARKED@, FURNITURE_SIZE as int, FURNITURE_LEADING as int, Face::Regular, 1100, Tint::Muted, 800, TEXT_W - 2200),
                Decor::Panel,
            );
            let tail = layout_elems(bs).subrange(body_elems(bs).len() as int, layout_elems(bs).len() as int);
            &&& layout_elems(bs).subrange(0, body_elems(bs).len() as int) == body_elems(bs)
            &&& tail.len() == (if s { 1int } else { 0int }) + (if m { 1int } else { 0int })
            &&& s ==> tail[0] == simplified_note
            &&& m ==> tail[tail.len() - 1] == marked_note
        }),
{
    lemma_blocks_fate_exists(bs, CharFate::Simplified);
    lemma_blocks_fate_exists(bs, CharFate::Marked);
    let b = body_elems(bs);
    let d = disclosure_elems(blocks_fate(bs, CharFate::Simplified), blocks_fate(bs, CharFate::Marked));
    assert(layout_elems(bs).subrange(0, b.len() as int) =~= b);
    assert(layout_elems(bs).subrange(b.len() as int, layout_elems(bs).len() as int) =~= d);
}

} // verus!
