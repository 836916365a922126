//! Line and token structure of plain text: `str::lines`, `split_whitespace`,
//! `trim`, and trimming non-alphanumeric characters from a token.

use vstd::prelude::*;

use crate::text::{alphanumeric, chars_of, is_alphanumeric, is_white, is_whitespace, trim, trim_end, trim_start};

verus! {

/// One trailing carriage return removed, as `str::lines` does before a `\n`.
pub open spec fn strip_cr(s: Seq<char>) -> Seq<char> {
    if s.len() > 0 && s.last() == '\r' {
        s.drop_last()
    } else {
        s
    }
}

/// `str::lines` from position `i`, with the line `cur` being built.
pub open spec fn split_lines(s: Seq<char>, i: int, cur: Seq<char>, done: Seq<Seq<char>>) -> Seq<
    Seq<char>,
>
    decreases s.len() - i,
{
    if i < 0 || i >= s.len() {
        if cur.len() > 0 {
            done.push(cur)
        } else {
            done
        }
    } else if s[i] == '\n' {
        split_lines(s, i + 1, Seq::empty(), done.push(strip_cr(cur)))
    } else {
        split_lines(s, i + 1, cur.push(s[i]), done)
    }
}

/// The lines of a text, as `str::lines` yields them.
pub open spec fn lines_of(s: Seq<char>) -> Seq<Seq<char>> {
    split_lines(s, 0, Seq::empty(), Seq::empty())
}

/// `split_whitespace` from position `i`.
pub open spec fn split_ws(s: Seq<char>, i: int, cur: Seq<char>, done: Seq<Seq<char>>) -> Seq<
    Seq<char>,
>
    decreases s.len() - i,
{
    if i < 0 || i >= s.len() {
        if cur.len() > 0 {
            done.push(cur)
        } else {
            done
        }
    } else if is_white(s[i]) {
        if cur.len() > 0 {
            split_ws(s, i + 1, Seq::empty(), done.push(cur))
        } else {
            split_ws(s, i + 1, cur, done)
        }
    } else {
        split_ws(s, i + 1, cur.push(s[i]), done)
    }
}

/// The whitespace-separated tokens of a text.
pub open spec fn tokens(s: Seq<char>) -> Seq<Seq<char>> {
    split_ws(s, 0, Seq::empty(), Seq::empty())
}

/// Leading non-alphanumeric characters removed.
pub open spec fn strip_start_non_alnum(s: Seq<char>) -> Seq<char>
    decreases s.len(),
{
    if s.len() > 0 && !alphanumeric(s[0]) {
        strip_start_non_alnum(s.drop_first())
    } else {
        s
    }
}

/// Trailing non-alphanumeric characters removed.
pub open spec fn strip_end_non_alnum(s: Seq<char>) -> Seq<char>
    decreases s.len(),
{
    if s.len() > 0 && !alphanumeric(s.last()) {
        strip_end_non_alnum(s.drop_last())
    } else {
        s
    }
}

/// `trim_matches(|c| !c.is_alphanumeric())`.
pub open spec fn strip_non_alnum(s: Seq<char>) -> Seq<char> {
    strip_end_non_alnum(strip_start_non_alnum(s))
}

/// The lines of a text.
pub fn lines(text: &str) -> (r: Vec<Vec<char>>)
    ensures
        r@.map_values(|l: Vec<char>| l@) == lines_of(text@),
{
    let s = chars_of(text);
    let mut done: Vec<Vec<char>> = Vec::new();
    let mut cur: Vec<char> = Vec::new();
    let mut i: usize = 0;
    assert(done@.map_values(|l: Vec<char>| l@) =~= Seq::<Seq<char>>::empty());
    assert(cur@ =~= Seq::<char>::empty());
    while i < s.len()
        invariant
            s@ == text@,
            i <= s@.len(),
            split_lines(s@, i as int, cur@, done@.map_values(|l: Vec<char>| l@)) == lines_of(
                text@,
            ),
        decreases s@.len() - i,
    {
        if s[i] == '\n' {
            let mut line = cur;
            if line.len() > 0 && line[line.len() - 1] == '\r' {
                line.pop();
            }
            let ghost before = done@.map_values(|l: Vec<char>| l@);
            proof {
                assert(line@ == strip_cr(cur@));
            }
            done.push(line);
            assert(done@.map_values(|l: Vec<char>| l@) =~= before.push(strip_cr(cur@)));
            cur = Vec::new();
            assert(cur@ =~= Seq::<char>::empty());
        } else {
            cur.push(s[i]);
        }
        i += 1;
    }
    if cur.len() > 0 {
        let ghost before = done@.map_values(|l: Vec<char>| l@);
        let ghost c = cur@;
        done.push(cur);
        assert(done@.map_values(|l: Vec<char>| l@) =~= before.push(c));
    }
    done
}

/// The whitespace-separated tokens of a character sequence.
pub fn split_whitespace(s: &[char]) -> (r: Vec<Vec<char>>)
    ensures
        r@.map_values(|l: Vec<char>| l@) == tokens(s@),
{
    let mut done: Vec<Vec<char>> = Vec::new();
    let mut cur: Vec<char> = Vec::new();
    let mut i: usize = 0;
    assert(done@.map_values(|l: Vec<char>| l@) =~= Seq::<Seq<char>>::empty());
    assert(cur@ =~= Seq::<char>::empty());
    while i < s.len()
        invariant
            i <= s@.len(),
            split_ws(s@, i as int, cur@, done@.map_values(|l: Vec<char>| l@)) == tokens(s@),
        decreases s@.len() - i,
    {
        if is_whitespace(s[i]) {
            if cur.len() > 0 {
                let ghost before = done@.map_values(|l: Vec<char>| l@);
                let ghost c = cur@;
                done.push(cur);
                assert(done@.map_values(|l: Vec<char>| l@) =~= before.push(c));
                cur = Vec::new();
                assert(cur@ =~= Seq::<char>::empty());
            }
        } else {
            cur.push(s[i]);
        }
        i += 1;
    }
    if cur.len() > 0 {
        let ghost before = done@.map_values(|l: Vec<char>| l@);
        let ghost c = cur@;
        done.push(cur);
        assert(done@.map_values(|l: Vec<char>| l@) =~= before.push(c));
    }
    done
}

pub(crate) proof fn lemma_trim_start_suffix(s: Seq<char>) -> (k: int)
    ensures
        0 <= k <= s.len(),
        trim_start(s) == s.subrange(k, s.len() as int),
        forall|j: int| 0 <= j < k ==> is_white(s[j]),
        k < s.len() ==> !is_white(s[k]),
    decreases s.len(),
{
    if s.len() > 0 && is_white(s[0]) {
        let k2 = lemma_trim_start_suffix(s.drop_first());
        assert(s.drop_first().subrange(k2, s.drop_first().len() as int) =~= s.subrange(
            k2 + 1,
            s.len() as int,
        ));
        assert forall|j: int| 0 <= j < k2 + 1 implies is_white(s[j]) by {
            if j > 0 {
                assert(s[j] == s.drop_first()[j - 1]);
            }
        }
        k2 + 1
    } else {
        assert(s.subrange(0, s.len() as int) =~= s);
        0
    }
}

pub(crate) proof fn lemma_trim_end_prefix(s: Seq<char>) -> (k: int)
    ensures
        0 <= k <= s.len(),
        trim_end(s) == s.subrange(0, k),
        forall|j: int| k <= j < s.len() ==> is_white(s[j]),
        k > 0 ==> !is_white(s[k - 1]),
    decreases s.len(),
{
    if s.len() > 0 && is_white(s.last()) {
        let k2 = lemma_trim_end_prefix(s.drop_last());
        assert(s.drop_last().subrange(0, k2) =~= s.subrange(0, k2));
        assert forall|j: int| k2 <= j < s.len() implies is_white(s[j]) by {
            if j < s.len() - 1 {
                assert(s[j] == s.drop_last()[j]);
            }
        }
        if k2 > 0 {
            assert(s[k2 - 1] == s.drop_last()[k2 - 1]);
        }
        k2
    } else {
        assert(s.subrange(0, s.len() as int) =~= s);
        s.len() as int
    }
}

/// `str::trim` over characters.
pub fn trim_chars(s: &[char]) -> (r: Vec<char>)
    ensures
        r@ == trim(s@),
{
    let mut a: usize = 0;
    while a < s.len() && is_whitespace(s[a])
        invariant
            a <= s@.len(),
            forall|j: int| 0 <= j < a ==> is_white(s@[j]),
        decreases s@.len() - a,
    {
        a += 1;
    }
    let mut b: usize = s.len();
    while b > a && is_whitespace(s[b - 1])
        invariant
            a <= b <= s@.len(),
            forall|j: int| b <= j < s@.len() ==> is_white(s@[j]),
        decreases b,
    {
        b -= 1;
    }
    let mut out: Vec<char> = Vec::new();
    let mut i = a;
    while i < b
        invariant
            a <= i <= b,
            b <= s@.len(),
            out@ == s@.subrange(a as int, i as int),
        decreases b - i,
    {
        out.push(s[i]);
        i += 1;
        assert(out@ =~= s@.subrange(a as int, i as int));
    }
    proof {
        let k = lemma_trim_start_suffix(s@);
        assert(k == a) by {
            if k < a {
                assert(is_white(s@[k]));
            }
            if a < k {
                assert(is_white(s@[a as int]));
            }
        }
        let t = s@.subrange(a as int, s@.len() as int);
        let k2 = lemma_trim_end_prefix(t);
        assert(k2 == b - a) by {
            if k2 < b - a {
                assert(t[b - a - 1] == s@[b - 1]);
                assert(is_white(t[b - a - 1]));
            }
            if k2 > b - a {
                assert(t[k2 - 1] == s@[a + k2 - 1]);
                assert(is_white(s@[a + k2 - 1]));
            }
        }
        assert(t.subrange(0, k2) =~= s@.subrange(a as int, b as int));
    }
    out
}

/// `trim_matches(|c| !c.is_alphanumeric())` over characters.
pub fn strip_non_alnum_chars(s: &[char]) -> (r: Vec<char>)
    ensures
        r@ == strip_non_alnum(s@),
{
    let mut a: usize = 0;
    assert(s@.subrange(0, s@.len() as int) =~= s@);
    while a < s.len() && !is_alphanumeric(s[a])
        invariant
            a <= s@.len(),
            strip_start_non_alnum(s@) == strip_start_non_alnum(s@.subrange(a as int, s@.len() as int)),
        decreases s@.len() - a,
    {
        proof {
            let t = s@.subrange(a as int, s@.len() as int);
            assert(t.drop_first() =~= s@.subrange(a + 1, s@.len() as int));
        }
        a += 1;
    }
    let ghost mid = s@.subrange(a as int, s@.len() as int);
    proof {
        assert(strip_start_non_alnum(mid) == mid);
    }
    let mut b: usize = s.len();
    while b > a && !is_alphanumeric(s[b - 1])
        invariant
            a <= b <= s@.len(),
            mid == s@.subrange(a as int, s@.len() as int),
            strip_end_non_alnum(mid) == strip_end_non_alnum(s@.subrange(a as int, b as int)),
        decreases b,
    {
        proof {
            let t = s@.subrange(a as int, b as int);
            assert(t.drop_last() =~= s@.subrange(a as int, b - 1));
        }
        b -= 1;
    }
    proof {
        assert(strip_end_non_alnum(s@.subrange(a as int, b as int)) == s@.subrange(a as int, b as int));
    }
    let mut out: Vec<char> = Vec::new();
    let mut i = a;
    while i < b
        invariant
            a <= i <= b,
            b <= s@.len(),
            out@ == s@.subrange(a as int, i as int),
        decreases b - i,
    {
        out.push(s[i]);
        i += 1;
        assert(out@ =~= s@.subrange(a as int, i as int));
    }
    out
}

/// `str::trim_start` over characters.
pub fn trim_start_chars(s: &[char]) -> (r: Vec<char>)
    ensures
        r@ == trim_start(s@),
{
    let mut a: usize = 0;
    while a < s.len() && is_whitespace(s[a])
        invariant
            a <= s@.len(),
            forall|j: int| 0 <= j < a ==> is_white(s@[j]),
        decreases s@.len() - a,
    {
        a += 1;
    }
    let mut out: Vec<char> = Vec::new();
    let mut i = a;
    while i < s.len()
        invariant
            a <= i <= s@.len(),
            out@ == s@.subrange(a as int, i as int),
        decreases s@.len() - i,
    {
        out.push(s[i]);
        i += 1;
        assert(out@ =~= s@.subrange(a as int, i as int));
    }
    proof {
        let k = lemma_trim_start_suffix(s@);
        assert(k == a) by {
            if k < a {
                assert(is_white(s@[k]));
            }
            if a < k {
                assert(is_white(s@[a as int]));
            }
        }
    }
    out
}

} // verus!
