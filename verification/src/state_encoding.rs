//! A canonical byte encoding of extracted values, and the lowercase hex of a
//! digest: what the research state's content hash is computed over.
//!
//! Integers are eight bytes big-endian, a character is its four-byte scalar
//! value, a string or list is its length followed by its elements, and an
//! optional value is a tag byte followed by the value.

use vstd::prelude::*;

use crate::extract::{Citation, Location, Reference, SectionKind, Stat, StatClaim, TableRef};

verus! {

/// Eight bytes, big-endian.
pub open spec fn u64_bytes(n: u64) -> Seq<u8> {
    seq![
        (n >> 56u64) as u8,
        (n >> 48u64) as u8,
        (n >> 40u64) as u8,
        (n >> 32u64) as u8,
        (n >> 24u64) as u8,
        (n >> 16u64) as u8,
        (n >> 8u64) as u8,
        n as u8,
    ]
}

/// A character's scalar value, four bytes big-endian.
pub open spec fn char_bytes(c: char) -> Seq<u8> {
    let u = c as u32;
    seq![(u >> 24u32) as u8, (u >> 16u32) as u8, (u >> 8u32) as u8, u as u8]
}

/// The characters of a string, each as four bytes.
pub open spec fn chars_bytes(s: Seq<char>) -> Seq<u8>
    decreases s.len(),
{
    if s.len() == 0 {
        Seq::empty()
    } else {
        chars_bytes(s.drop_last()) + char_bytes(s.last())
    }
}

/// A string: its length, then its characters.
pub open spec fn str_bytes(s: Seq<char>) -> Seq<u8> {
    u64_bytes(s.len() as u64) + chars_bytes(s)
}

/// An optional string.
pub open spec fn opt_str_bytes(o: Option<Seq<char>>) -> Seq<u8> {
    match o {
        None => seq![0u8],
        Some(s) => seq![1u8] + str_bytes(s),
    }
}

/// An optional integer.
pub open spec fn opt_u64_bytes(o: Option<u64>) -> Seq<u8> {
    match o {
        None => seq![0u8],
        Some(n) => seq![1u8] + u64_bytes(n),
    }
}

/// A list: its length, then each element encoded by `f`.
pub open spec fn list_bytes<T>(xs: Seq<T>, f: spec_fn(T) -> Seq<u8>) -> Seq<u8> {
    u64_bytes(xs.len() as u64) + items_bytes(xs, f)
}

/// The elements of a list, each encoded by `f`.
pub open spec fn items_bytes<T>(xs: Seq<T>, f: spec_fn(T) -> Seq<u8>) -> Seq<u8>
    decreases xs.len(),
{
    if xs.len() == 0 {
        Seq::empty()
    } else {
        items_bytes(xs.drop_last(), f) + f(xs.last())
    }
}

/// A section kind's tag.
pub open spec fn kind_tag(k: SectionKind) -> u8 {
    match k {
        SectionKind::Abstract => 0,
        SectionKind::Introduction => 1,
        SectionKind::Methods => 2,
        SectionKind::Results => 3,
        SectionKind::Discussion => 4,
        SectionKind::Conclusion => 5,
        SectionKind::References => 6,
        SectionKind::Other => 7,
    }
}

/// A location.
pub open spec fn location_bytes(l: Location) -> Seq<u8> {
    seq![kind_tag(l.section)] + u64_bytes(l.paragraph as u64) + opt_u64_bytes(
        match l.section_index {
            Some(i) => Some(i as u64),
            None => None,
        },
    )
}

/// A statistic's kind and written value.
pub open spec fn stat_bytes(s: Stat) -> Seq<u8> {
    match s {
        Stat::PValue { text } => seq![0u8] + str_bytes(text@),
        Stat::SampleSize { text } => seq![1u8] + str_bytes(text@),
        Stat::Test { name } => seq![2u8] + str_bytes(name@),
        Stat::TestStatistic { text } => seq![3u8] + str_bytes(text@),
        Stat::EffectSize { text } => seq![4u8] + str_bytes(text@),
        Stat::ConfidenceInterval { text } => seq![5u8] + str_bytes(text@),
    }
}

pub open spec fn stat_claim_bytes(s: StatClaim) -> Seq<u8> {
    stat_bytes(s.stat) + str_bytes(s.raw@) + location_bytes(s.location)
}

pub open spec fn table_bytes(t: TableRef) -> Seq<u8> {
    str_bytes(t.label@) + location_bytes(t.location)
}

pub open spec fn u32_item_bytes(n: u32) -> Seq<u8> {
    u64_bytes(n as u64)
}

pub open spec fn citation_bytes(c: Citation) -> Seq<u8> {
    str_bytes(c.raw@) + list_bytes(c.numbers@, |n: u32| u32_item_bytes(n)) + location_bytes(c.location)
}

pub open spec fn year_bytes(y: Option<i32>) -> Seq<u8> {
    match y {
        None => seq![0u8],
        Some(v) => seq![1u8] + u64_bytes(v as u64),
    }
}

pub open spec fn reference_bytes(r: Reference) -> Seq<u8> {
    str_bytes(r.raw@) + str_bytes(r.authors@) + year_bytes(r.year) + opt_str_bytes(
        crate::text::opt_view(r.title),
    ) + opt_str_bytes(crate::text::opt_view(r.doi))
}

/// Append eight bytes, big-endian.
pub fn push_u64(out: &mut Vec<u8>, n: u64)
    ensures
        final(out)@ == old(out)@ + u64_bytes(n),
{
    out.push((n >> 56u64) as u8);
    out.push((n >> 48u64) as u8);
    out.push((n >> 40u64) as u8);
    out.push((n >> 32u64) as u8);
    out.push((n >> 24u64) as u8);
    out.push((n >> 16u64) as u8);
    out.push((n >> 8u64) as u8);
    out.push(n as u8);
    assert(final(out)@ =~= old(out)@ + u64_bytes(n));
}

/// Append a string.
pub fn push_str_bytes(out: &mut Vec<u8>, s: &str)
    ensures
        final(out)@ == old(out)@ + str_bytes(s@),
{
    let cs = crate::text::chars_of(s);
    let start = Ghost(old(out)@);
    push_u64(out, cs.len() as u64);
    let ghost mid = out@;
    let mut i: usize = 0;
    assert(cs@.subrange(0, 0) =~= Seq::<char>::empty());
    assert(mid =~= mid + chars_bytes(cs@.subrange(0, 0)));
    while i < cs.len()
        invariant
            i <= cs@.len(),
            out@ == mid + chars_bytes(cs@.subrange(0, i as int)),
        decreases cs@.len() - i,
    {
        let u = cs[i] as u32;
        out.push((u >> 24u32) as u8);
        out.push((u >> 16u32) as u8);
        out.push((u >> 8u32) as u8);
        out.push(u as u8);
        assert(cs@.subrange(0, i + 1).drop_last() =~= cs@.subrange(0, i as int));
        i += 1;
        assert(out@ =~= mid + chars_bytes(cs@.subrange(0, i as int)));
    }
    assert(cs@.subrange(0, cs@.len() as int) =~= cs@);
    assert(out@ =~= start@ + str_bytes(s@));
}

/// Append an optional string.
pub fn push_opt_str_bytes(out: &mut Vec<u8>, o: &Option<String>)
    ensures
        final(out)@ == old(out)@ + opt_str_bytes(crate::text::opt_view(*o)),
{
    match o {
        None => {
            out.push(0u8);
            assert(final(out)@ =~= old(out)@ + seq![0u8]);
        },
        Some(s) => {
            out.push(1u8);
            push_str_bytes(out, s.as_str());
            assert(final(out)@ =~= old(out)@ + opt_str_bytes(crate::text::opt_view(*o)));
        },
    }
}

/// Append a location.
pub fn push_location(out: &mut Vec<u8>, l: &Location)
    ensures
        final(out)@ == old(out)@ + location_bytes(*l),
{
    let tag: u8 = match l.section {
        SectionKind::Abstract => 0,
        SectionKind::Introduction => 1,
        SectionKind::Methods => 2,
        SectionKind::Results => 3,
        SectionKind::Discussion => 4,
        SectionKind::Conclusion => 5,
        SectionKind::References => 6,
        SectionKind::Other => 7,
    };
    out.push(tag);
    push_u64(out, l.paragraph as u64);
    match l.section_index {
        None => out.push(0u8),
        Some(i) => {
            out.push(1u8);
            push_u64(out, i as u64);
        },
    }
    assert(final(out)@ =~= old(out)@ + location_bytes(*l));
}

fn push_stat_claim(out: &mut Vec<u8>, s: &StatClaim)
    ensures
        final(out)@ == old(out)@ + stat_claim_bytes(*s),
{
    match &s.stat {
        Stat::PValue { text } => {
            out.push(0u8);
            push_str_bytes(out, text.as_str());
        },
        Stat::SampleSize { text } => {
            out.push(1u8);
            push_str_bytes(out, text.as_str());
        },
        Stat::Test { name } => {
            out.push(2u8);
            push_str_bytes(out, name.as_str());
        },
        Stat::TestStatistic { text } => {
            out.push(3u8);
            push_str_bytes(out, text.as_str());
        },
        Stat::EffectSize { text } => {
            out.push(4u8);
            push_str_bytes(out, text.as_str());
        },
        Stat::ConfidenceInterval { text } => {
            out.push(5u8);
            push_str_bytes(out, text.as_str());
        },
    }
    push_str_bytes(out, s.raw.as_str());
    push_location(out, &s.location);
    assert(final(out)@ =~= old(out)@ + stat_claim_bytes(*s));
}

/// Append a list of statistics.
pub fn push_stat_claims(out: &mut Vec<u8>, xs: &Vec<StatClaim>)
    ensures
        final(out)@ == old(out)@ + list_bytes(xs@, |s: StatClaim| stat_claim_bytes(s)),
{
    let ghost f = |s: StatClaim| stat_claim_bytes(s);
    push_u64(out, xs.len() as u64);
    let ghost mid = out@;
    let mut i: usize = 0;
    assert(mid =~= mid + items_bytes(xs@.subrange(0, 0), f));
    while i < xs.len()
        invariant
            i <= xs@.len(),
            f == |s: StatClaim| stat_claim_bytes(s),
            out@ == mid + items_bytes(xs@.subrange(0, i as int), f),
        decreases xs@.len() - i,
    {
        push_stat_claim(out, &xs[i]);
        assert(xs@.subrange(0, i + 1).drop_last() =~= xs@.subrange(0, i as int));
        i += 1;
        assert(out@ =~= mid + items_bytes(xs@.subrange(0, i as int), f));
    }
    assert(xs@.subrange(0, xs@.len() as int) =~= xs@);
    assert(final(out)@ =~= old(out)@ + list_bytes(xs@, f));
}

/// Append a list of tables.
pub fn push_tables(out: &mut Vec<u8>, xs: &Vec<TableRef>)
    ensures
        final(out)@ == old(out)@ + list_bytes(xs@, |t: TableRef| table_bytes(t)),
{
    let ghost f = |t: TableRef| table_bytes(t);
    push_u64(out, xs.len() as u64);
    let ghost mid = out@;
    let mut i: usize = 0;
    assert(mid =~= mid + items_bytes(xs@.subrange(0, 0), f));
    while i < xs.len()
        invariant
            i <= xs@.len(),
            f == |t: TableRef| table_bytes(t),
            out@ == mid + items_bytes(xs@.subrange(0, i as int), f),
        decreases xs@.len() - i,
    {
        let ghost b = out@;
        push_str_bytes(out, xs[i].label.as_str());
        push_location(out, &xs[i].location);
        assert(out@ =~= b + table_bytes(xs@[i as int]));
        assert(xs@.subrange(0, i + 1).drop_last() =~= xs@.subrange(0, i as int));
        i += 1;
        assert(out@ =~= mid + items_bytes(xs@.subrange(0, i as int), f));
    }
    assert(xs@.subrange(0, xs@.len() as int) =~= xs@);
    assert(final(out)@ =~= old(out)@ + list_bytes(xs@, f));
}

fn push_citation(out: &mut Vec<u8>, c: &Citation)
    ensures
        final(out)@ == old(out)@ + citation_bytes(*c),
{
    push_str_bytes(out, c.raw.as_str());
    let ghost f = |n: u32| u32_item_bytes(n);
    let ghost b = out@;
    push_u64(out, c.numbers.len() as u64);
    let ghost mid = out@;
    let mut i: usize = 0;
    assert(mid =~= mid + items_bytes(c.numbers@.subrange(0, 0), f));
    while i < c.numbers.len()
        invariant
            i <= c.numbers@.len(),
            f == |n: u32| u32_item_bytes(n),
            out@ == mid + items_bytes(c.numbers@.subrange(0, i as int), f),
        decreases c.numbers@.len() - i,
    {
        push_u64(out, c.numbers[i] as u64);
        assert(c.numbers@.subrange(0, i + 1).drop_last() =~= c.numbers@.subrange(0, i as int));
        i += 1;
        assert(out@ =~= mid + items_bytes(c.numbers@.subrange(0, i as int), f));
    }
    assert(c.numbers@.subrange(0, c.numbers@.len() as int) =~= c.numbers@);
    push_location(out, &c.location);
    assert(final(out)@ =~= old(out)@ + citation_bytes(*c));
}

/// Append a list of citations.
pub fn push_citations(out: &mut Vec<u8>, xs: &Vec<Citation>)
    ensures
        final(out)@ == old(out)@ + list_bytes(xs@, |c: Citation| citation_bytes(c)),
{
    let ghost f = |c: Citation| citation_bytes(c);
    push_u64(out, xs.len() as u64);
    let ghost mid = out@;
    let mut i: usize = 0;
    assert(mid =~= mid + items_bytes(xs@.subrange(0, 0), f));
    while i < xs.len()
        invariant
            i <= xs@.len(),
            f == |c: Citation| citation_bytes(c),
            out@ == mid + items_bytes(xs@.subrange(0, i as int), f),
        decreases xs@.len() - i,
    {
        push_citation(out, &xs[i]);
        assert(xs@.subrange(0, i + 1).drop_last() =~= xs@.subrange(0, i as int));
        i += 1;
        assert(out@ =~= mid + items_bytes(xs@.subrange(0, i as int), f));
    }
    assert(xs@.subrange(0, xs@.len() as int) =~= xs@);
    assert(final(out)@ =~= old(out)@ + list_bytes(xs@, f));
}

/// Append a list of references.
pub fn push_references(out: &mut Vec<u8>, xs: &Vec<Reference>)
    ensures
        final(out)@ == old(out)@ + list_bytes(xs@, |r: Reference| reference_bytes(r)),
{
    let ghost f = |r: Reference| reference_bytes(r);
    push_u64(out, xs.len() as u64);
    let ghost mid = out@;
    let mut i: usize = 0;
    assert(mid =~= mid + items_bytes(xs@.subrange(0, 0), f));
    while i < xs.len()
        invariant
            i <= xs@.len(),
            f == |r: Reference| reference_bytes(r),
            out@ == mid + items_bytes(xs@.subrange(0, i as int), f),
        decreases xs@.len() - i,
    {
        let r = &xs[i];
        let ghost b = out@;
        push_str_bytes(out, r.raw.as_str());
        push_str_bytes(out, r.authors.as_str());
        match r.year {
            None => out.push(0u8),
            Some(v) => {
                out.push(1u8);
                push_u64(out, v as u64);
            },
        }
        push_opt_str_bytes(out, &r.title);
        push_opt_str_bytes(out, &r.doi);
        assert(out@ =~= b + reference_bytes(*r));
        assert(xs@.subrange(0, i + 1).drop_last() =~= xs@.subrange(0, i as int));
        i += 1;
        assert(out@ =~= mid + items_bytes(xs@.subrange(0, i as int), f));
    }
    assert(xs@.subrange(0, xs@.len() as int) =~= xs@);
    assert(final(out)@ =~= old(out)@ + list_bytes(xs@, f));
}

/// Append a list of strings.
pub fn push_strings(out: &mut Vec<u8>, xs: &Vec<String>)
    ensures
        final(out)@ == old(out)@ + list_bytes(xs@, |s: String| str_bytes(s@)),
{
    let ghost f = |s: String| str_bytes(s@);
    push_u64(out, xs.len() as u64);
    let ghost mid = out@;
    let mut i: usize = 0;
    assert(mid =~= mid + items_bytes(xs@.subrange(0, 0), f));
    while i < xs.len()
        invariant
            i <= xs@.len(),
            f == |s: String| str_bytes(s@),
            out@ == mid + items_bytes(xs@.subrange(0, i as int), f),
        decreases xs@.len() - i,
    {
        push_str_bytes(out, xs[i].as_str());
        assert(xs@.subrange(0, i + 1).drop_last() =~= xs@.subrange(0, i as int));
        i += 1;
        assert(out@ =~= mid + items_bytes(xs@.subrange(0, i as int), f));
    }
    assert(xs@.subrange(0, xs@.len() as int) =~= xs@);
    assert(final(out)@ =~= old(out)@ + list_bytes(xs@, f));
}

// ---------------------------------------------------------------------------
// Hex
// ---------------------------------------------------------------------------

/// The lowercase hex digit for `d < 16`.
pub open spec fn hex_digit(d: u8) -> char {
    if d < 10 {
        ((48 + d) as u32) as char
    } else {
        ((87 + d) as u32) as char
    }
}

/// Lowercase hex of the bytes, two digits each, as `{:x}` prints a digest.
pub open spec fn hex_spec(bytes: Seq<u8>) -> Seq<char>
    decreases bytes.len(),
{
    if bytes.len() == 0 {
        Seq::empty()
    } else {
        hex_spec(bytes.drop_last()) + seq![hex_digit(bytes.last() / 16), hex_digit(bytes.last() % 16)]
    }
}

/// Two hex digits per byte.
pub proof fn lemma_hex_len(bytes: Seq<u8>)
    ensures
        hex_spec(bytes).len() == 2 * bytes.len(),
    decreases bytes.len(),
{
    if bytes.len() > 0 {
        lemma_hex_len(bytes.drop_last());
    }
}

/// Lists encode alike when their elements encode alike, one for one.
pub proof fn lemma_list_bytes_congruent<T>(x: Seq<T>, y: Seq<T>, f: spec_fn(T) -> Seq<u8>)
    requires
        x.len() == y.len(),
        forall|i: int| 0 <= i < x.len() ==> f(#[trigger] x[i]) == f(y[i]),
    ensures
        list_bytes(x, f) == list_bytes(y, f),
    decreases x.len(),
{
    lemma_items_bytes_congruent(x, y, f);
}

proof fn lemma_items_bytes_congruent<T>(x: Seq<T>, y: Seq<T>, f: spec_fn(T) -> Seq<u8>)
    requires
        x.len() == y.len(),
        forall|i: int| 0 <= i < x.len() ==> f(#[trigger] x[i]) == f(y[i]),
    ensures
        items_bytes(x, f) == items_bytes(y, f),
    decreases x.len(),
{
    if x.len() > 0 {
        assert forall|i: int| 0 <= i < x.drop_last().len() implies f(#[trigger] x.drop_last()[i]) == f(y.drop_last()[i]) by {
            assert(x.drop_last()[i] == x[i]);
            assert(y.drop_last()[i] == y[i]);
        }
        lemma_items_bytes_congruent(x.drop_last(), y.drop_last(), f);
        assert(f(x[x.len() - 1]) == f(y[y.len() - 1]));
    }
}

fn hex_char(d: u8) -> (c: char)
    requires
        d < 16,
    ensures
        c == hex_digit(d),
{
    if d < 10 {
        ((48u8 + d) as char)
    } else {
        ((87u8 + d) as char)
    }
}

/// Lowercase hex of the bytes.
pub fn hex(bytes: &Vec<u8>) -> (r: String)
    ensures
        r@ == hex_spec(bytes@),
{
    let mut s = String::new();
    let mut i: usize = 0;
    while i < bytes.len()
        invariant
            i <= bytes@.len(),
            s@ == hex_spec(bytes@.subrange(0, i as int)),
        decreases bytes@.len() - i,
    {
        let b = bytes[i];
        crate::text::push_char(&mut s, hex_char(b / 16));
        crate::text::push_char(&mut s, hex_char(b % 16));
        assert(bytes@.subrange(0, i + 1).drop_last() =~= bytes@.subrange(0, i as int));
        i += 1;
        assert(s@ =~= hex_spec(bytes@.subrange(0, i as int)));
    }
    assert(bytes@.subrange(0, bytes@.len() as int) =~= bytes@);
    s
}

/// Four bytes per character.
pub proof fn lemma_chars_bytes_len(s: Seq<char>)
    ensures
        chars_bytes(s).len() == 4 * s.len(),
    decreases s.len(),
{
    if s.len() > 0 {
        lemma_chars_bytes_len(s.drop_last());
    }
}

/// Different characters have different encodings.
proof fn lemma_char_bytes_injective(c: char, d: char)
    requires
        char_bytes(c) == char_bytes(d),
    ensures
        c == d,
{
    let u = c as u32;
    let v = d as u32;
    let x = char_bytes(c);
    let y = char_bytes(d);
    assert(x[0] == y[0] && x[1] == y[1] && x[2] == y[2] && x[3] == y[3]);
    assert(((u >> 24u32) as u8 == (v >> 24u32) as u8 && (u >> 16u32) as u8 == (v >> 16u32) as u8 && (u
        >> 8u32) as u8 == (v >> 8u32) as u8 && u as u8 == v as u8) ==> u == v) by (bit_vector);
}

/// Strings of one length with equal encodings are equal.
proof fn lemma_chars_bytes_injective(s: Seq<char>, t: Seq<char>)
    requires
        s.len() == t.len(),
        chars_bytes(s) == chars_bytes(t),
    ensures
        s == t,
    decreases s.len(),
{
    if s.len() > 0 {
        lemma_chars_bytes_len(s.drop_last());
        lemma_chars_bytes_len(t.drop_last());
        let n = chars_bytes(s.drop_last()).len() as int;
        assert(chars_bytes(s).subrange(0, n) =~= chars_bytes(s.drop_last()));
        assert(chars_bytes(t).subrange(0, n) =~= chars_bytes(t.drop_last()));
        assert(chars_bytes(s).subrange(n, n + 4) =~= char_bytes(s.last()));
        assert(chars_bytes(t).subrange(n, n + 4) =~= char_bytes(t.last()));
        lemma_chars_bytes_injective(s.drop_last(), t.drop_last());
        lemma_char_bytes_injective(s.last(), t.last());
        assert(s =~= s.drop_last().push(s.last()));
        assert(t =~= t.drop_last().push(t.last()));
    }
}

/// Different optional strings have different encodings.
pub proof fn lemma_opt_str_bytes_injective(a: Option<Seq<char>>, b: Option<Seq<char>>)
    requires
        opt_str_bytes(a) == opt_str_bytes(b),
    ensures
        a == b,
{
    let x = opt_str_bytes(a);
    let y = opt_str_bytes(b);
    assert(x[0] == y[0]);
    if let (Some(s), Some(t)) = (a, b) {
        lemma_chars_bytes_len(s);
        lemma_chars_bytes_len(t);
        assert(x.len() == 9 + 4 * s.len());
        assert(y.len() == 9 + 4 * t.len());
        assert(x.subrange(9, x.len() as int) =~= chars_bytes(s));
        assert(y.subrange(9, y.len() as int) =~= chars_bytes(t));
        lemma_chars_bytes_injective(s, t);
    }
}

} // verus!
