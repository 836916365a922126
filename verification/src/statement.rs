//! Finding a declaration in a manuscript: the sentence in which a statement
//! name (such as "funding" or "data availability") begins a declaration,
//! rather than the first mention of the topic.

use vstd::prelude::*;

use crate::lines::{split_whitespace, tokens, trim_chars};
use crate::text::{
    ascii_digit, all_ascii_digits, chars_of, find_from, occurs_at, opt_view, string_of, trim,
    utf8_len, utf8_len_below, views,
};

verus! {

/// A character that ends a sentence for this search: a full stop or a newline.
pub open spec fn is_stop(c: char) -> bool {
    c == '.' || c == '\n'
}

/// Where the sentence holding position `at` begins: just after the last stop
/// before `at`, or the start of the text.
pub open spec fn sentence_start(s: Seq<char>, at: int) -> int
    decreases at,
{
    if at <= 0 {
        0
    } else if is_stop(s[at - 1]) {
        at
    } else {
        sentence_start(s, at - 1)
    }
}

/// Where that sentence ends (exclusive): just after the first stop at or
/// after `at`, or the end of the text.
pub open spec fn sentence_end(s: Seq<char>, at: int) -> int
    decreases s.len() - at,
{
    if at < 0 || at >= s.len() {
        s.len() as int
    } else if is_stop(s[at]) {
        at + 1
    } else {
        sentence_end(s, at + 1)
    }
}

/// The sentence holding position `at`, trimmed.
pub open spec fn sentence_at(s: Seq<char>, at: int) -> Seq<char> {
    trim(s.subrange(sentence_start(s, at), sentence_end(s, at)))
}

/// A table-of-contents line: its last word is a page number of at most four
/// digits.
pub open spec fn toc_shaped(sentence: Seq<char>) -> bool {
    let t = tokens(sentence);
    t.len() > 0 && t.last().len() <= 4 && all_ascii_digits(t.last())
}

/// A mention at `at` is a declaration when it begins its sentence (fewer than
/// 40 bytes of UTF-8 in) and the sentence is not a contents line.
pub open spec fn declaration_at(s: Seq<char>, at: int) -> bool {
    &&& at <= s.len()
    &&& utf8_len(s.subrange(sentence_start(s, at), at)) < 40
    &&& !toc_shaped(sentence_at(s, at))
}

/// The first declaration among the non-overlapping occurrences of `needle` in
/// `lower` at or after `from`, in order; positions index `orig`.
pub open spec fn declaration_from(
    lower: Seq<char>,
    orig: Seq<char>,
    needle: Seq<char>,
    from: int,
) -> Option<Seq<char>>
    decreases lower.len() - from,
{
    if needle.len() == 0 || from < 0 || from + needle.len() > lower.len() {
        None
    } else if occurs_at(lower, needle, from) {
        if declaration_at(orig, from) {
            Some(sentence_at(orig, from))
        } else {
            declaration_from(lower, orig, needle, from + needle.len())
        }
    } else {
        declaration_from(lower, orig, needle, from + 1)
    }
}

/// The first declaration found trying the names from `k` on, each name's
/// occurrences in order.
pub open spec fn statement_from(
    lower: Seq<char>,
    orig: Seq<char>,
    names: Seq<Seq<char>>,
    k: int,
) -> Option<Seq<char>>
    decreases names.len() - k,
{
    if k < 0 || k >= names.len() {
        None
    } else {
        match declaration_from(lower, orig, names[k], 0) {
            Some(s) => Some(s),
            None => statement_from(lower, orig, names, k + 1),
        }
    }
}

/// The declaration sentence for any of `names`, searched in `lower` (the
/// lowercase text) and quoted from `orig`.
pub open spec fn statement_spec(lower: Seq<char>, orig: Seq<char>, names: Seq<Seq<char>>) -> Option<
    Seq<char>,
> {
    statement_from(lower, orig, names, 0)
}

proof fn lemma_skip_to(lower: Seq<char>, orig: Seq<char>, needle: Seq<char>, from: int, at: int)
    requires
        needle.len() > 0,
        0 <= from <= at,
        occurs_at(lower, needle, at),
        forall|j: int| from <= j < at ==> !occurs_at(lower, needle, j),
    ensures
        declaration_from(lower, orig, needle, from) == declaration_from(lower, orig, needle, at),
    decreases at - from,
{
    if from < at {
        assert(!occurs_at(lower, needle, from));
        lemma_skip_to(lower, orig, needle, from + 1, at);
    }
}

proof fn lemma_none_after(lower: Seq<char>, orig: Seq<char>, needle: Seq<char>, from: int)
    requires
        needle.len() > 0,
        0 <= from,
        forall|j: int| from <= j ==> !occurs_at(lower, needle, j),
    ensures
        declaration_from(lower, orig, needle, from) is None,
    decreases lower.len() - from,
{
    if from + needle.len() <= lower.len() {
        assert(!occurs_at(lower, needle, from));
        lemma_none_after(lower, orig, needle, from + 1);
    }
}

fn start_of_sentence(s: &Vec<char>, at: usize) -> (r: usize)
    requires
        at <= s@.len(),
    ensures
        r == sentence_start(s@, at as int),
        r <= at,
{
    let mut j = at;
    while j > 0 && !(s[j - 1] == '.' || s[j - 1] == '\n')
        invariant
            j <= at,
            at <= s@.len(),
            sentence_start(s@, at as int) == sentence_start(s@, j as int),
        decreases j,
    {
        j -= 1;
    }
    j
}

fn end_of_sentence(s: &Vec<char>, at: usize) -> (r: usize)
    requires
        at <= s@.len(),
    ensures
        r == sentence_end(s@, at as int),
        at <= r <= s@.len(),
{
    let mut j = at;
    while j < s.len() && !(s[j] == '.' || s[j] == '\n')
        invariant
            at <= j <= s@.len(),
            sentence_end(s@, at as int) == sentence_end(s@, j as int),
        decreases s@.len() - j,
    {
        j += 1;
    }
    if j < s.len() {
        j + 1
    } else {
        j
    }
}

/// The characters `s[a..b]`.
pub fn slice_chars(s: &Vec<char>, a: usize, b: usize) -> (r: Vec<char>)
    requires
        a <= b <= s@.len(),
    ensures
        r@ == s@.subrange(a as int, b as int),
{
    let mut out: Vec<char> = Vec::new();
    let mut i = a;
    while i < b
        invariant
            a <= i <= b,
            b <= s@.len(),
            out@ == s@.subrange(a as int, i as int),
        decreases b - i,
    {
        out.push(s[i]);
        i += 1;
        assert(out@ =~= s@.subrange(a as int, i as int));
    }
    out
}

fn is_toc_shaped(sentence: &Vec<char>) -> (r: bool)
    ensures
        r == toc_shaped(sentence@),
{
    let toks = split_whitespace(sentence);
    let ghost tv = toks@.map_values(|t: Vec<char>| t@);
    if toks.len() == 0 {
        return false;
    }
    let last = &toks[toks.len() - 1];
    assert(last@ == tv.last());
    if last.len() > 4 {
        return false;
    }
    let mut i: usize = 0;
    while i < last.len()
        invariant
            i <= last@.len(),
            last@.len() <= 4,
            tv == toks@.map_values(|t: Vec<char>| t@),
            tv == tokens(sentence@),
            tv.len() > 0,
            last@ == tv.last(),
            forall|j: int| 0 <= j < i ==> ascii_digit(last@[j]),
        decreases last@.len() - i,
    {
        let u = last[i] as u32;
        if u < 48 || u > 57 {
            return false;
        }
        i += 1;
    }
    true
}

fn declaration_in(lc: &Vec<char>, oc: &Vec<char>, needle: &Vec<char>) -> (r: Option<String>)
    ensures
        opt_view(r) == declaration_from(lc@, oc@, needle@, 0),
{
    if needle.len() == 0 {
        return None;
    }
    let mut pos: usize = 0;
    loop
        invariant
            needle@.len() > 0,
            pos <= lc@.len(),
            declaration_from(lc@, oc@, needle@, 0) == declaration_from(lc@, oc@, needle@, pos as int),
        decreases lc@.len() - pos,
    {
        match find_from(lc, needle, pos) {
            None => {
                proof {
                    lemma_none_after(lc@, oc@, needle@, pos as int);
                }
                return None;
            },
            Some(at) => {
                proof {
                    lemma_skip_to(lc@, oc@, needle@, pos as int, at as int);
                }
                if at <= oc.len() {
                    let start = start_of_sentence(oc, at);
                    if utf8_len_below(&oc, start, at, 40) {
                        let end = end_of_sentence(oc, at);
                        let raw = slice_chars(oc, start, end);
                        let sentence = trim_chars(&raw);
                        if !is_toc_shaped(&sentence) {
                            return Some(string_of(&sentence));
                        }
                    }
                }
                let lim = lc.len();
                assert(at + needle@.len() <= lim);
                pos = at + needle.len();
            },
        }
    }
}

/// **The sentence a statement occurs in, whole**, or `None` when no name in
/// `names` begins a declaration anywhere. Every occurrence of every name is
/// tried, in order: a mention deep inside a sentence, or one in a contents
/// line ending in a page number, is not a declaration. Positions found in
/// `lower` index `original`.
pub fn statement_in_text(lower: &str, original: &str, names: &Vec<&str>) -> (r: Option<String>)
    ensures
        opt_view(r) == statement_spec(lower@, original@, views(names@)),
{
    let lc = chars_of(lower);
    let oc = chars_of(original);
    let ghost vn = views(names@);
    let mut k: usize = 0;
    while k < names.len()
        invariant
            k <= names@.len(),
            vn == views(names@),
            lc@ == lower@,
            oc@ == original@,
            statement_spec(lower@, original@, vn) == statement_from(lower@, original@, vn, k as int),
        decreases names@.len() - k,
    {
        let needle = chars_of(names[k]);
        assert(needle@ == vn[k as int]);
        match declaration_in(&lc, &oc, &needle) {
            Some(s) => {
                return Some(s);
            },
            None => {},
        }
        k += 1;
    }
    None
}

} // verus!
