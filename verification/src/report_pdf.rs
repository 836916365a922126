//! Byte-level pieces of the PDF renderer: the base-14 WinAnsi encoding with
//! its fold-or-mark rule, the Helvetica metric tables, literal-string
//! escaping, and the assembly of the object graph with its cross-reference
//! table.
//!
//! Every character is written byte-for-byte when WinAnsi holds it (Latin-1 is
//! never touched), folded to its Latin base letter when one exists, and
//! replaced by a visible `?` otherwise. The [`EncodingOutcome`] records which
//! of the two alterations happened, so the report can disclose each one, and
//! only when it occurred.

use vstd::prelude::*;

use crate::text::{chars_of, decimal, opt_str_view, push_chars};

pub use crate::report_layout::render_pdf;

verus! {

/// Which base-14 face a line is set in. Oblique shares Helvetica's advance
/// widths; only Bold has its own metric table.
#[derive(Debug, Clone, Copy, PartialEq, Eq, Structural)]
pub enum Face {
    Regular,
    Bold,
    Oblique,
}

impl Face {
    /// The font resource name the page dictionary binds this face to.
    pub fn resource(self) -> (r: &'static str)
        ensures
            r@ == face_resource(self),
    {
        match self {
            Face::Regular => "/F1",
            Face::Bold => "/F2",
            Face::Oblique => "/F3",
        }
    }
}

/// The resource name of each face.
pub open spec fn face_resource(f: Face) -> Seq<char> {
    match f {
        Face::Regular => "/F1"@,
        Face::Bold => "/F2"@,
        Face::Oblique => "/F3"@,
    }
}

/// What happened to a character on its way to the page.
#[derive(Debug, Clone, Copy, PartialEq, Eq, Structural)]
pub enum CharFate {
    /// Written byte-for-byte through WinAnsi.
    Intact,
    /// Folded to its Latin base letter because base-14 cannot represent it.
    Simplified,
    /// No Latin base exists; a visible mark stands in its place.
    Marked,
}

/// Which fates occurred across a whole document.
#[derive(Debug, Clone, Copy, PartialEq, Eq, Structural)]
pub struct EncodingOutcome {
    pub any_simplified: bool,
    pub any_marked: bool,
}

impl Default for EncodingOutcome {
    fn default() -> (r: EncodingOutcome)
        ensures
            r == (EncodingOutcome { any_simplified: false, any_marked: false }),
    {
        EncodingOutcome { any_simplified: false, any_marked: false }
    }
}

impl EncodingOutcome {
    /// Note one character's fate: an alteration sets its flag, and nothing
    /// ever clears one.
    pub fn record(&mut self, fate: CharFate)
        ensures
            final(self).any_simplified == (old(self).any_simplified || fate == CharFate::Simplified),
            final(self).any_marked == (old(self).any_marked || fate == CharFate::Marked),
    {
        match fate {
            CharFate::Intact => {},
            CharFate::Simplified => self.any_simplified = true,
            CharFate::Marked => self.any_marked = true,
        }
    }
}

/// The byte written for a character that has no Latin base.
pub const MARK: u8 = 63u8;

/// WinAnsi's `0x80`–`0x9F` block, which is not Latin-1.
pub open spec fn winansi_high(c: char) -> Option<u8> {
    match c {
        '\u{20AC}' => Some(0x80u8),
        '\u{201A}' => Some(0x82u8),
        '\u{0192}' => Some(0x83u8),
        '\u{201E}' => Some(0x84u8),
        '\u{2026}' => Some(0x85u8),
        '\u{2020}' => Some(0x86u8),
        '\u{2021}' => Some(0x87u8),
        '\u{02C6}' => Some(0x88u8),
        '\u{2030}' => Some(0x89u8),
        '\u{0160}' => Some(0x8Au8),
        '\u{2039}' => Some(0x8Bu8),
        '\u{0152}' => Some(0x8Cu8),
        '\u{017D}' => Some(0x8Eu8),
        '\u{2018}' => Some(0x91u8),
        '\u{2019}' => Some(0x92u8),
        '\u{201C}' => Some(0x93u8),
        '\u{201D}' => Some(0x94u8),
        '\u{2022}' => Some(0x95u8),
        '\u{2013}' => Some(0x96u8),
        '\u{2014}' => Some(0x97u8),
        '\u{02DC}' => Some(0x98u8),
        '\u{2122}' => Some(0x99u8),
        '\u{0161}' => Some(0x9Au8),
        '\u{203A}' => Some(0x9Bu8),
        '\u{0153}' => Some(0x9Cu8),
        '\u{017E}' => Some(0x9Eu8),
        '\u{0178}' => Some(0x9Fu8),
        _ => None,
    }
}

/// The WinAnsi byte of a character: printable ASCII and the Latin-1 upper
/// half map to themselves, and the `0x80`–`0x9F` block goes by its table.
pub open spec fn winansi(c: char) -> Option<u8> {
    let n = c as u32;
    if (0x20 <= n && n < 0x7F) || (0xA0 <= n && n <= 0xFF) {
        Some(n as u8)
    } else {
        winansi_high(c)
    }
}

/// The exact WinAnsi byte for a character, or `None` if it has none.
pub fn winansi_byte(ch: char) -> (r: Option<u8>)
    ensures
        r == winansi(ch),
{
    let c = ch as u32;
    if (0x20 <= c && c < 0x7F) || (0xA0 <= c && c <= 0xFF) {
        return Some(c as u8);
    }
    match ch {
        '\u{20AC}' => Some(0x80u8),
        '\u{201A}' => Some(0x82u8),
        '\u{0192}' => Some(0x83u8),
        '\u{201E}' => Some(0x84u8),
        '\u{2026}' => Some(0x85u8),
        '\u{2020}' => Some(0x86u8),
        '\u{2021}' => Some(0x87u8),
        '\u{02C6}' => Some(0x88u8),
        '\u{2030}' => Some(0x89u8),
        '\u{0160}' => Some(0x8Au8),
        '\u{2039}' => Some(0x8Bu8),
        '\u{0152}' => Some(0x8Cu8),
        '\u{017D}' => Some(0x8Eu8),
        '\u{2018}' => Some(0x91u8),
        '\u{2019}' => Some(0x92u8),
        '\u{201C}' => Some(0x93u8),
        '\u{201D}' => Some(0x94u8),
        '\u{2022}' => Some(0x95u8),
        '\u{2013}' => Some(0x96u8),
        '\u{2014}' => Some(0x97u8),
        '\u{02DC}' => Some(0x98u8),
        '\u{2122}' => Some(0x99u8),
        '\u{0161}' => Some(0x9Au8),
        '\u{203A}' => Some(0x9Bu8),
        '\u{0153}' => Some(0x9Cu8),
        '\u{017E}' => Some(0x9Eu8),
        '\u{0178}' => Some(0x9Fu8),
        _ => None,
    }
}


/// The Latin base letter(s) for a character base-14 cannot represent: the
/// ASCII spelling of common mathematical notation, Latin Extended-A, and the
/// four Romanian comma-below letters. Every base is ASCII.
pub open spec fn latin_base_spec(c: char) -> Option<Seq<char>> {
    match c {
        '\u{2264}' => Some(seq!['<', '=']),
        '\u{2265}' => Some(seq!['>', '=']),
        '\u{2260}' => Some(seq!['!', '=']),
        '\u{2212}' => Some(seq!['-']),
        '\u{2032}' => Some(seq!['\'']),
        '\u{2033}' => Some(seq!['"']),
        '\u{2192}' => Some(seq!['-', '>']),
        '\u{2190}' => Some(seq!['<', '-']),
        'Ā' | 'Ă' | 'Ą' => Some(seq!['A']),
        'ā' | 'ă' | 'ą' => Some(seq!['a']),
        'Ć' | 'Ĉ' | 'Ċ' | 'Č' => Some(seq!['C']),
        'ć' | 'ĉ' | 'ċ' | 'č' => Some(seq!['c']),
        'Ď' | 'Đ' => Some(seq!['D']),
        'ď' | 'đ' => Some(seq!['d']),
        'Ē' | 'Ĕ' | 'Ė' | 'Ę' | 'Ě' => Some(seq!['E']),
        'ē' | 'ĕ' | 'ė' | 'ę' | 'ě' => Some(seq!['e']),
        'Ĝ' | 'Ğ' | 'Ġ' | 'Ģ' => Some(seq!['G']),
        'ĝ' | 'ğ' | 'ġ' | 'ģ' => Some(seq!['g']),
        'Ĥ' | 'Ħ' => Some(seq!['H']),
        'ĥ' | 'ħ' => Some(seq!['h']),
        'Ĩ' | 'Ī' | 'Ĭ' | 'Į' | 'İ' => Some(seq!['I']),
        'ĩ' | 'ī' | 'ĭ' | 'į' | 'ı' => Some(seq!['i']),
        'Ĳ' => Some(seq!['I', 'J']),
        'ĳ' => Some(seq!['i', 'j']),
        'Ĵ' => Some(seq!['J']),
        'ĵ' => Some(seq!['j']),
        'Ķ' => Some(seq!['K']),
        'ķ' | 'ĸ' => Some(seq!['k']),
        'Ĺ' | 'Ļ' | 'Ľ' | 'Ŀ' | 'Ł' => Some(seq!['L']),
        'ĺ' | 'ļ' | 'ľ' | 'ŀ' | 'ł' => Some(seq!['l']),
        'Ń' | 'Ņ' | 'Ň' | 'Ŋ' => Some(seq!['N']),
        'ń' | 'ņ' | 'ň' | 'ŉ' | 'ŋ' => Some(seq!['n']),
        'Ō' | 'Ŏ' | 'Ő' => Some(seq!['O']),
        'ō' | 'ŏ' | 'ő' => Some(seq!['o']),
        'Ŕ' | 'Ŗ' | 'Ř' => Some(seq!['R']),
        'ŕ' | 'ŗ' | 'ř' => Some(seq!['r']),
        'Ś' | 'Ŝ' | 'Ş' | 'Ș' => Some(seq!['S']),
        'ś' | 'ŝ' | 'ş' | 'ș' => Some(seq!['s']),
        'Ţ' | 'Ť' | 'Ŧ' | 'Ț' => Some(seq!['T']),
        'ţ' | 'ť' | 'ŧ' | 'ț' => Some(seq!['t']),
        'Ũ' | 'Ū' | 'Ŭ' | 'Ů' | 'Ű' | 'Ų' => Some(seq!['U']),
        'ũ' | 'ū' | 'ŭ' | 'ů' | 'ű' | 'ų' => Some(seq!['u']),
        'Ŵ' => Some(seq!['W']),
        'ŵ' => Some(seq!['w']),
        'Ŷ' => Some(seq!['Y']),
        'ŷ' => Some(seq!['y']),
        'Ź' | 'Ż' => Some(seq!['Z']),
        'ź' | 'ż' => Some(seq!['z']),
        'ſ' => Some(seq!['s']),
        _ => None,
    }
}

/// The Latin base letter(s) for a character base-14 cannot represent: a
/// table, because `Ł` has no decomposition that stripping marks could fold.
pub fn latin_base(ch: char) -> (r: Option<&'static str>)
    ensures
        opt_str_view(r) == latin_base_spec(ch),
{
    proof {
        reveal_strlit("!=");
        reveal_strlit("\"");
        reveal_strlit("'");
        reveal_strlit("-");
        reveal_strlit("->");
        reveal_strlit("<-");
        reveal_strlit("<=");
        reveal_strlit(">=");
        reveal_strlit("A");
        reveal_strlit("C");
        reveal_strlit("D");
        reveal_strlit("E");
        reveal_strlit("G");
        reveal_strlit("H");
        reveal_strlit("I");
        reveal_strlit("IJ");
        reveal_strlit("J");
        reveal_strlit("K");
        reveal_strlit("L");
        reveal_strlit("N");
        reveal_strlit("O");
        reveal_strlit("R");
        reveal_strlit("S");
        reveal_strlit("T");
        reveal_strlit("U");
        reveal_strlit("W");
        reveal_strlit("Y");
        reveal_strlit("Z");
        reveal_strlit("a");
        reveal_strlit("c");
        reveal_strlit("d");
        reveal_strlit("e");
        reveal_strlit("g");
        reveal_strlit("h");
        reveal_strlit("i");
        reveal_strlit("ij");
        reveal_strlit("j");
        reveal_strlit("k");
        reveal_strlit("l");
        reveal_strlit("n");
        reveal_strlit("o");
        reveal_strlit("r");
        reveal_strlit("s");
        reveal_strlit("t");
        reveal_strlit("u");
        reveal_strlit("w");
        reveal_strlit("y");
        reveal_strlit("z");
    }
    match ch {
        '\u{2264}' => Some("<="),
        '\u{2265}' => Some(">="),
        '\u{2260}' => Some("!="),
        '\u{2212}' => Some("-"),
        '\u{2032}' => Some("'"),
        '\u{2033}' => Some("\""),
        '\u{2192}' => Some("->"),
        '\u{2190}' => Some("<-"),
        'Ā' | 'Ă' | 'Ą' => Some("A"),
        'ā' | 'ă' | 'ą' => Some("a"),
        'Ć' | 'Ĉ' | 'Ċ' | 'Č' => Some("C"),
        'ć' | 'ĉ' | 'ċ' | 'č' => Some("c"),
        'Ď' | 'Đ' => Some("D"),
        'ď' | 'đ' => Some("d"),
        'Ē' | 'Ĕ' | 'Ė' | 'Ę' | 'Ě' => Some("E"),
        'ē' | 'ĕ' | 'ė' | 'ę' | 'ě' => Some("e"),
        'Ĝ' | 'Ğ' | 'Ġ' | 'Ģ' => Some("G"),
        'ĝ' | 'ğ' | 'ġ' | 'ģ' => Some("g"),
        'Ĥ' | 'Ħ' => Some("H"),
        'ĥ' | 'ħ' => Some("h"),
        'Ĩ' | 'Ī' | 'Ĭ' | 'Į' | 'İ' => Some("I"),
        'ĩ' | 'ī' | 'ĭ' | 'į' | 'ı' => Some("i"),
        'Ĳ' => Some("IJ"),
        'ĳ' => Some("ij"),
        'Ĵ' => Some("J"),
        'ĵ' => Some("j"),
        'Ķ' => Some("K"),
        'ķ' | 'ĸ' => Some("k"),
        'Ĺ' | 'Ļ' | 'Ľ' | 'Ŀ' | 'Ł' => Some("L"),
        'ĺ' | 'ļ' | 'ľ' | 'ŀ' | 'ł' => Some("l"),
        'Ń' | 'Ņ' | 'Ň' | 'Ŋ' => Some("N"),
        'ń' | 'ņ' | 'ň' | 'ŉ' | 'ŋ' => Some("n"),
        'Ō' | 'Ŏ' | 'Ő' => Some("O"),
        'ō' | 'ŏ' | 'ő' => Some("o"),
        'Ŕ' | 'Ŗ' | 'Ř' => Some("R"),
        'ŕ' | 'ŗ' | 'ř' => Some("r"),
        'Ś' | 'Ŝ' | 'Ş' | 'Ș' => Some("S"),
        'ś' | 'ŝ' | 'ş' | 'ș' => Some("s"),
        'Ţ' | 'Ť' | 'Ŧ' | 'Ț' => Some("T"),
        'ţ' | 'ť' | 'ŧ' | 'ț' => Some("t"),
        'Ũ' | 'Ū' | 'Ŭ' | 'Ů' | 'Ű' | 'Ų' => Some("U"),
        'ũ' | 'ū' | 'ŭ' | 'ů' | 'ű' | 'ų' => Some("u"),
        'Ŵ' => Some("W"),
        'ŵ' => Some("w"),
        'Ŷ' => Some("Y"),
        'ŷ' => Some("y"),
        'Ź' | 'Ż' => Some("Z"),
        'ź' | 'ż' => Some("z"),
        'ſ' => Some("s"),
        _ => None,
    }
}

/// Characters WinAnsi holds at another codepoint: GREEK SMALL LETTER MU is
/// the MICRO SIGN.
pub open spec fn canonical_spec(c: char) -> char {
    if c == '\u{03BC}' {
        '\u{00B5}'
    } else {
        c
    }
}

/// Move a character to the codepoint WinAnsi holds it at, where that differs.
pub fn canonical(ch: char) -> (r: char)
    ensures
        r == canonical_spec(ch),
{
    if ch == '\u{03BC}' {
        '\u{00B5}'
    } else {
        ch
    }
}

/// What happens to one character.
pub open spec fn fate_of(c: char) -> CharFate {
    let k = canonical_spec(c);
    if winansi(k).is_some() {
        CharFate::Intact
    } else if latin_base_spec(k).is_some() {
        CharFate::Simplified
    } else {
        CharFate::Marked
    }
}

/// The bytes one character is written as.
pub open spec fn char_bytes(c: char) -> Seq<u8> {
    let k = canonical_spec(c);
    match winansi(k) {
        Some(b) => seq![b],
        None => match latin_base_spec(k) {
            Some(base) => base.map_values(|x: char| x as u8),
            None => seq![MARK],
        },
    }
}

/// The bytes a string is written as.
pub open spec fn encode_spec(s: Seq<char>) -> Seq<u8>
    decreases s.len(),
{
    if s.len() == 0 {
        Seq::empty()
    } else {
        encode_spec(s.drop_last()) + char_bytes(s.last())
    }
}

/// Did some character of `s` meet the fate `f`?
pub open spec fn some_fate(s: Seq<char>, f: CharFate) -> bool {
    exists|i: int| 0 <= i < s.len() && #[trigger] fate_of(s[i]) == f
}

/// Every Latin base is ASCII, so a fold never writes a multi-byte sequence.
pub proof fn lemma_latin_bases_are_ascii(c: char)
    ensures
        latin_base_spec(c) matches Some(base) ==> (1 <= base.len() <= 2 && forall|i: int|
            0 <= i < base.len() ==> (base[i] as u32) < 0x80),
{
}

/// Encode one string to WinAnsi bytes, folding or marking what it cannot hold.
pub fn encode_winansi(s: &str) -> (r: (Vec<u8>, EncodingOutcome))
    ensures
        r.0@ == encode_spec(s@),
        r.1.any_simplified == some_fate(s@, CharFate::Simplified),
        r.1.any_marked == some_fate(s@, CharFate::Marked),
{
    let cs = chars_of(s);
    let mut bytes: Vec<u8> = Vec::new();
    let mut outcome = EncodingOutcome::default();
    let mut i: usize = 0;
    while i < cs.len()
        invariant
            cs@ == s@,
            i <= cs@.len(),
            bytes@ == encode_spec(cs@.subrange(0, i as int)),
            outcome.any_simplified == some_fate(cs@.subrange(0, i as int), CharFate::Simplified),
            outcome.any_marked == some_fate(cs@.subrange(0, i as int), CharFate::Marked),
        decreases cs@.len() - i,
    {
        let ch = canonical(cs[i]);
        let ghost before = bytes@;
        let fate;
        match winansi_byte(ch) {
            Some(b) => {
                bytes.push(b);
                fate = CharFate::Intact;
            },
            None => match latin_base(ch) {
                Some(base) => {
                    proof {
                        lemma_latin_bases_are_ascii(ch);
                    }
                    let bcs = chars_of(base);
                    let mut j: usize = 0;
                    while j < bcs.len()
                        invariant
                            bcs@ == base@,
                            latin_base_spec(ch) == Some(base@),
                            forall|k: int| 0 <= k < base@.len() ==> (base@[k] as u32) < 0x80,
                            j <= bcs@.len(),
                            bytes@ == before + bcs@.subrange(0, j as int).map_values(|x: char| x as u8),
                        decreases bcs@.len() - j,
                    {
                        let b = bcs[j] as u8;
                        bytes.push(b);
                        j += 1;
                        assert(bytes@ =~= before + bcs@.subrange(0, j as int).map_values(|x: char| x as u8));
                    }
                    assert(bcs@.subrange(0, bcs@.len() as int) =~= bcs@);
                    fate = CharFate::Simplified;
                },
                None => {
                    bytes.push(MARK);
                    fate = CharFate::Marked;
                },
            },
        }
        outcome.record(fate);
        proof {
            let pre = cs@.subrange(0, i as int);
            let post = cs@.subrange(0, i + 1);
            assert(post.drop_last() =~= pre);
            assert(post.last() == cs@[i as int]);
            assert(fate == fate_of(cs@[i as int]));
            assert(bytes@ =~= encode_spec(post));
            if fate == CharFate::Simplified {
                assert(fate_of(post[i as int]) == CharFate::Simplified);
            }
            if fate == CharFate::Marked {
                assert(fate_of(post[i as int]) == CharFate::Marked);
            }
            assert forall|f: CharFate| #![auto] some_fate(post, f) == (some_fate(pre, f) || fate_of(cs@[i as int]) == f) by {
                if some_fate(pre, f) {
                    let k = choose|k: int| 0 <= k < pre.len() && #[trigger] fate_of(pre[k]) == f;
                    assert(post[k] == pre[k]);
                }
                if some_fate(post, f) {
                    let k = choose|k: int| 0 <= k < post.len() && #[trigger] fate_of(post[k]) == f;
                    if k < i {
                        assert(pre[k] == post[k]);
                    }
                }
            }
        }
        i += 1;
    }
    assert(cs@.subrange(0, cs@.len() as int) =~= cs@);
    (bytes, outcome)
}


/// Adobe Helvetica AFM advance widths, in 1/1000 em, indexed by WinAnsi byte.
/// Zero for the byte values WinAnsi leaves undefined.
pub const HELVETICA_WIDTHS: [u16; 256] = [
    0u16, 0u16, 0u16, 0u16, 0u16, 0u16, 0u16, 0u16, 0u16, 0u16, 0u16, 0u16, 0u16, 0u16, 0u16, 0u16,
    0u16, 0u16, 0u16, 0u16, 0u16, 0u16, 0u16, 0u16, 0u16, 0u16, 0u16, 0u16, 0u16, 0u16, 0u16, 0u16,
    278u16, 278u16, 355u16, 556u16, 556u16, 889u16, 667u16, 191u16, 333u16, 333u16, 389u16, 584u16, 278u16, 333u16, 278u16, 278u16,
    556u16, 556u16, 556u16, 556u16, 556u16, 556u16, 556u16, 556u16, 556u16, 556u16, 278u16, 278u16, 584u16, 584u16, 584u16, 556u16,
    1015u16, 667u16, 667u16, 722u16, 722u16, 667u16, 611u16, 778u16, 722u16, 278u16, 500u16, 667u16, 556u16, 833u16, 722u16, 778u16,
    667u16, 778u16, 722u16, 667u16, 611u16, 722u16, 667u16, 944u16, 667u16, 667u16, 611u16, 278u16, 278u16, 278u16, 469u16, 556u16,
    333u16, 556u16, 556u16, 500u16, 556u16, 556u16, 278u16, 556u16, 556u16, 222u16, 222u16, 500u16, 222u16, 833u16, 556u16, 556u16,
    556u16, 556u16, 333u16, 500u16, 278u16, 556u16, 500u16, 722u16, 500u16, 500u16, 500u16, 334u16, 260u16, 334u16, 584u16, 0u16,
    556u16, 0u16, 222u16, 556u16, 333u16, 1000u16, 556u16, 556u16, 333u16, 1000u16, 667u16, 333u16, 1000u16, 0u16, 611u16, 0u16,
    0u16, 222u16, 222u16, 333u16, 333u16, 350u16, 556u16, 1000u16, 333u16, 1000u16, 500u16, 333u16, 944u16, 0u16, 500u16, 667u16,
    278u16, 333u16, 556u16, 556u16, 556u16, 556u16, 260u16, 556u16, 333u16, 737u16, 370u16, 556u16, 584u16, 333u16, 737u16, 333u16,
    400u16, 584u16, 333u16, 333u16, 333u16, 556u16, 537u16, 278u16, 333u16, 333u16, 365u16, 556u16, 834u16, 834u16, 834u16, 611u16,
    667u16, 667u16, 667u16, 667u16, 667u16, 667u16, 1000u16, 722u16, 667u16, 667u16, 667u16, 667u16, 278u16, 278u16, 278u16, 278u16,
    722u16, 722u16, 778u16, 778u16, 778u16, 778u16, 778u16, 584u16, 778u16, 722u16, 722u16, 722u16, 722u16, 667u16, 667u16, 611u16,
    556u16, 556u16, 556u16, 556u16, 556u16, 556u16, 889u16, 500u16, 556u16, 556u16, 556u16, 556u16, 278u16, 278u16, 278u16, 278u16,
    556u16, 556u16, 556u16, 556u16, 556u16, 556u16, 556u16, 584u16, 611u16, 556u16, 556u16, 556u16, 556u16, 500u16, 556u16, 500u16,
];

/// Adobe Helvetica-Bold AFM advance widths, indexed as above.
pub const HELVETICA_BOLD_WIDTHS: [u16; 256] = [
    0u16, 0u16, 0u16, 0u16, 0u16, 0u16, 0u16, 0u16, 0u16, 0u16, 0u16, 0u16, 0u16, 0u16, 0u16, 0u16,
    0u16, 0u16, 0u16, 0u16, 0u16, 0u16, 0u16, 0u16, 0u16, 0u16, 0u16, 0u16, 0u16, 0u16, 0u16, 0u16,
    278u16, 333u16, 474u16, 556u16, 556u16, 889u16, 722u16, 238u16, 333u16, 333u16, 389u16, 584u16, 278u16, 333u16, 278u16, 278u16,
    556u16, 556u16, 556u16, 556u16, 556u16, 556u16, 556u16, 556u16, 556u16, 556u16, 333u16, 333u16, 584u16, 584u16, 584u16, 611u16,
    975u16, 722u16, 722u16, 722u16, 722u16, 667u16, 611u16, 778u16, 722u16, 278u16, 556u16, 722u16, 611u16, 833u16, 722u16, 778u16,
    667u16, 778u16, 722u16, 667u16, 611u16, 722u16, 667u16, 944u16, 667u16, 667u16, 611u16, 333u16, 278u16, 333u16, 584u16, 556u16,
    333u16, 556u16, 611u16, 556u16, 611u16, 556u16, 333u16, 611u16, 611u16, 278u16, 278u16, 556u16, 278u16, 889u16, 611u16, 611u16,
    611u16, 611u16, 389u16, 556u16, 333u16, 611u16, 556u16, 778u16, 556u16, 556u16, 500u16, 389u16, 280u16, 389u16, 584u16, 0u16,
    556u16, 0u16, 278u16, 556u16, 500u16, 1000u16, 556u16, 556u16, 333u16, 1000u16, 667u16, 333u16, 1000u16, 0u16, 611u16, 0u16,
    0u16, 278u16, 278u16, 500u16, 500u16, 350u16, 556u16, 1000u16, 333u16, 1000u16, 556u16, 333u16, 889u16, 0u16, 500u16, 667u16,
    278u16, 333u16, 556u16, 556u16, 556u16, 556u16, 280u16, 556u16, 333u16, 737u16, 370u16, 556u16, 584u16, 333u16, 737u16, 333u16,
    400u16, 584u16, 333u16, 333u16, 333u16, 611u16, 556u16, 278u16, 333u16, 333u16, 365u16, 556u16, 834u16, 834u16, 834u16, 611u16,
    722u16, 722u16, 722u16, 722u16, 722u16, 722u16, 1000u16, 722u16, 667u16, 667u16, 667u16, 667u16, 278u16, 278u16, 278u16, 278u16,
    722u16, 722u16, 778u16, 778u16, 778u16, 778u16, 778u16, 584u16, 778u16, 722u16, 722u16, 722u16, 722u16, 667u16, 667u16, 611u16,
    556u16, 556u16, 556u16, 556u16, 556u16, 556u16, 889u16, 556u16, 556u16, 556u16, 556u16, 556u16, 278u16, 278u16, 278u16, 278u16,
    611u16, 611u16, 611u16, 611u16, 611u16, 611u16, 611u16, 584u16, 611u16, 611u16, 611u16, 611u16, 611u16, 556u16, 611u16, 556u16,
];

/// The metric table a face is measured with: Oblique's advances are
/// Helvetica's.
pub fn widths_for(face: Face) -> (r: &'static [u16; 256])
    ensures
        r@ == (if face == Face::Bold { HELVETICA_BOLD_WIDTHS@ } else { HELVETICA_WIDTHS@ }),
{
    match face {
        Face::Regular | Face::Oblique => &HELVETICA_WIDTHS,
        Face::Bold => &HELVETICA_BOLD_WIDTHS,
    }
}

/// Every byte the Helvetica table gives a width, the bold table gives one
/// too: a hole would measure as zero and overflow the column.
pub proof fn lemma_bold_defines_every_regular_glyph()
    ensures
        forall|b: int| 0 <= b < 256 && HELVETICA_WIDTHS@[b] != 0 ==> HELVETICA_BOLD_WIDTHS@[b] != 0,
{
}

/// Bold is at least as wide as regular for every glyph both tables define,
/// except `@` (0x40) and `œ` (0x9C), which the Adobe metrics make narrower.
pub proof fn lemma_bold_narrower_only_at_two_glyphs()
    ensures
        forall|b: int|
            0 <= b < 256 && HELVETICA_WIDTHS@[b] != 0 && HELVETICA_BOLD_WIDTHS@[b] != 0 ==> (
            HELVETICA_BOLD_WIDTHS@[b] < HELVETICA_WIDTHS@[b] <==> (b == 0x40 || b == 0x9C)),
{
}

/// Latin-1's upper half is written byte-for-byte: `ü` is never folded.
pub proof fn lemma_latin1_is_identity(c: char)
    requires
        0xA0 <= (c as u32) <= 0xFF,
    ensures
        winansi(c) == Some((c as u32) as u8),
        fate_of(c) == CharFate::Intact,
        char_bytes(c) == seq![(c as u32) as u8],
{
}

/// Of Latin Extended-A, WinAnsi holds exactly `Œ œ Š š Ÿ Ž ž`.
pub proof fn lemma_extended_a_in_winansi(c: char)
    requires
        0x100 <= (c as u32) <= 0x17F,
    ensures
        winansi(c).is_some() <==> (c == 'Œ' || c == 'œ' || c == 'Š' || c == 'š' || c == 'Ÿ' || c == 'Ž'
            || c == 'ž'),
{
}

/// A fold writes only ASCII bytes, at least one, and is disclosed as a fold.
pub proof fn lemma_fold_writes_ascii(c: char)
    requires
        fate_of(c) == CharFate::Simplified,
    ensures
        char_bytes(c).len() >= 1,
        forall|i: int| 0 <= i < char_bytes(c).len() ==> char_bytes(c)[i] < 0x80,
{
    lemma_latin_bases_are_ascii(canonical_spec(c));
}

/// A marked character is written as exactly one `?`.
pub proof fn lemma_mark_is_one_question_mark(c: char)
    requires
        fate_of(c) == CharFate::Marked,
    ensures
        char_bytes(c) == seq![MARK],
{
}


// ---------------------------------------------------------------------------
// Literal strings and the object graph
// ---------------------------------------------------------------------------

/// How one byte is written inside a PDF literal string: the three delimiters
/// are backslash-escaped, printable ASCII stands as itself, and anything else
/// becomes a three-digit octal escape.
pub open spec fn escaped_byte(b: u8) -> Seq<u8> {
    if b == 0x5C || b == 0x28 || b == 0x29 {
        seq![0x5Cu8, b]
    } else if 0x20 <= b <= 0x7E {
        seq![b]
    } else {
        seq![0x5Cu8, (0x30 + b / 64) as u8, (0x30 + (b / 8) % 8) as u8, (0x30 + b % 8) as u8]
    }
}

/// A whole byte string, escaped for a PDF literal.
pub open spec fn escape_pdf_spec(s: Seq<u8>) -> Seq<u8>
    decreases s.len(),
{
    if s.len() == 0 {
        Seq::empty()
    } else {
        escape_pdf_spec(s.drop_last()) + escaped_byte(s.last())
    }
}

/// Escape a PDF literal string. Bytes outside printable ASCII are written as
/// octal escapes so no parser has to guess at the encoding of a raw high byte.
pub fn escape_pdf(bytes: &[u8]) -> (out: Vec<u8>)
    ensures
        out@ == escape_pdf_spec(bytes@),
{
    let mut out: Vec<u8> = Vec::new();
    let mut i: usize = 0;
    while i < bytes.len()
        invariant
            i <= bytes@.len(),
            out@ == escape_pdf_spec(bytes@.subrange(0, i as int)),
        decreases bytes@.len() - i,
    {
        let b = bytes[i];
        if b == 0x5C || b == 0x28 || b == 0x29 {
            out.push(0x5C);
            out.push(b);
        } else if 0x20 <= b && b <= 0x7E {
            out.push(b);
        } else {
            out.push(0x5C);
            out.push(0x30 + b / 64);
            out.push(0x30 + (b / 8) % 8);
            out.push(0x30 + b % 8);
        }
        assert(bytes@.subrange(0, i + 1).drop_last() =~= bytes@.subrange(0, i as int));
        i += 1;
        assert(out@ =~= escape_pdf_spec(bytes@.subrange(0, i as int)));
    }
    assert(bytes@.subrange(0, bytes@.len() as int) =~= bytes@);
    out
}

/// Whatever it is handed, an escaped literal holds only printable ASCII, so
/// its parentheses stay balanced and no viewer guesses at an encoding.
pub proof fn lemma_escaped_is_printable(s: Seq<u8>)
    ensures
        forall|i: int| 0 <= i < escape_pdf_spec(s).len() ==> 0x20 <= #[trigger] escape_pdf_spec(s)[i] <= 0x7E,
    decreases s.len(),
{
    if s.len() > 0 {
        lemma_escaped_is_printable(s.drop_last());
        let b = s.last();
        assert(b / 64 <= 3);
        assert forall|i: int| 0 <= i < escape_pdf_spec(s).len() implies 0x20 <= #[trigger] escape_pdf_spec(s)[i] <= 0x7E by {
            let pre = escape_pdf_spec(s.drop_last());
            if i >= pre.len() {
                assert(escape_pdf_spec(s)[i] == escaped_byte(b)[i - pre.len()]);
            } else {
                assert(escape_pdf_spec(s)[i] == pre[i]);
            }
        }
    }
}

/// Characters written one byte each.
pub open spec fn ascii(s: Seq<char>) -> Seq<u8> {
    s.map_values(|c: char| c as u8)
}

/// `{:010}`: a decimal rendering left-padded with zeros to ten places.
pub open spec fn zero_padded(digits: Seq<char>) -> Seq<char> {
    if digits.len() >= 10 {
        digits
    } else {
        Seq::new((10 - digits.len()) as nat, |i: int| '0') + digits
    }
}

/// Append characters, one byte each.
fn push_ascii_chars(out: &mut Vec<u8>, cs: &[char])
    ensures
        final(out)@ == old(out)@ + ascii(cs@),
{
    let ghost start = out@;
    let mut i: usize = 0;
    while i < cs.len()
        invariant
            i <= cs@.len(),
            out@ == start + ascii(cs@.subrange(0, i as int)),
        decreases cs@.len() - i,
    {
        out.push(cs[i] as u8);
        i += 1;
        assert(out@ =~= start + ascii(cs@.subrange(0, i as int)));
    }
    assert(cs@.subrange(0, cs@.len() as int) =~= cs@);
}

/// Append a literal, one byte per character.
fn push_ascii(out: &mut Vec<u8>, s: &str)
    ensures
        final(out)@ == old(out)@ + ascii(s@),
{
    let cs = chars_of(s);
    push_ascii_chars(out, &cs);
}

/// Append a number in decimal.
fn push_decimal(out: &mut Vec<u8>, n: usize)
    ensures
        final(out)@ == old(out)@ + ascii(decimal(n as nat)),
{
    let cs = crate::text::decimal_chars(n as u64);
    push_ascii_chars(out, &cs);
}

/// Append a number in decimal, zero-padded to ten places.
fn push_padded(out: &mut Vec<u8>, n: usize)
    ensures
        final(out)@ == old(out)@ + ascii(zero_padded(decimal(n as nat))),
{
    let cs = crate::text::decimal_chars(n as u64);
    let mut padded: Vec<char> = Vec::new();
    if cs.len() < 10 {
        let mut k: usize = 0;
        while k < 10 - cs.len()
            invariant
                cs@ == decimal(n as nat),
                cs@.len() < 10,
                k <= 10 - cs@.len(),
                padded@ == Seq::new(k as nat, |i: int| '0'),
            decreases 10 - cs@.len() - k,
        {
            padded.push('0');
            k += 1;
            assert(padded@ =~= Seq::new(k as nat, |i: int| '0'));
        }
    }
    let mut j: usize = 0;
    let ghost pad = padded@;
    while j < cs.len()
        invariant
            j <= cs@.len(),
            padded@ == pad + cs@.subrange(0, j as int),
        decreases cs@.len() - j,
    {
        padded.push(cs[j]);
        j += 1;
        assert(padded@ =~= pad + cs@.subrange(0, j as int));
    }
    assert(cs@.subrange(0, cs@.len() as int) =~= cs@);
    assert(padded@ =~= zero_padded(decimal(n as nat)));
    push_ascii_chars(out, &padded);
}

/// The page tree's reference to page `i`.
pub open spec fn kid(i: nat) -> Seq<u8> {
    ascii(decimal(6 + 2 * i)) + ascii(" 0 R"@)
}

/// The references to the first `n` pages, space-separated.
pub open spec fn kids(n: nat) -> Seq<u8>
    decreases n,
{
    if n == 0 {
        Seq::empty()
    } else if n == 1 {
        kid(0)
    } else {
        kids((n - 1) as nat) + ascii(" "@) + kid((n - 1) as nat)
    }
}

/// Object 1: the catalog.
pub open spec fn catalog_object() -> Seq<u8> {
    ascii("<< /Type /Catalog /Pages 2 0 R >>"@)
}

/// Object 2: the page tree over `n` pages.
pub open spec fn pages_object(n: nat) -> Seq<u8> {
    ascii("<< /Type /Pages /Kids ["@) + kids(n) + ascii("] /Count "@) + ascii(decimal(n)) + ascii(" >>"@)
}

/// Objects 3 to 5: the three base-14 faces, in WinAnsi.
pub open spec fn font_object(base: Seq<char>) -> Seq<u8> {
    ascii("<< /Type /Font /Subtype /Type1 /BaseFont /"@) + ascii(base) + ascii(" /Encoding /WinAnsiEncoding >>"@)
}

/// The dictionary of page `i`: an A4 media box, the three faces, and its
/// content stream, which is the object after it.
pub open spec fn page_object(i: nat) -> Seq<u8> {
    ascii("<< /Type /Page /Parent 2 0 R /MediaBox [0 0 595 842] /Resources << /Font << /F1 3 0 R /F2 4 0 R /F3 5 0 R >> >> /Contents "@)
        + ascii(decimal(7 + 2 * i)) + ascii(" 0 R >>"@)
}

/// A content stream, with its exact length.
pub open spec fn stream_object(c: Seq<u8>) -> Seq<u8> {
    ascii("<< /Length "@) + ascii(decimal(c.len())) + ascii(" >>\nstream\n"@) + c + ascii("endstream"@)
}

/// Two objects per page: its dictionary, then its content stream.
pub open spec fn page_objects(pages: Seq<Seq<u8>>) -> Seq<Seq<u8>>
    decreases pages.len(),
{
    if pages.len() == 0 {
        Seq::empty()
    } else {
        page_objects(pages.drop_last()) + seq![
            page_object((pages.len() - 1) as nat),
            stream_object(pages.last()),
        ]
    }
}

/// Two objects per page.
pub proof fn lemma_page_objects_len(pages: Seq<Seq<u8>>)
    ensures
        page_objects(pages).len() == 2 * pages.len(),
    decreases pages.len(),
{
    if pages.len() > 0 {
        lemma_page_objects_len(pages.drop_last());
    }
}

/// Every object of the document, numbered from 1 in this order.
pub open spec fn pdf_objects(pages: Seq<Seq<u8>>) -> Seq<Seq<u8>> {
    seq![
        catalog_object(),
        pages_object(pages.len()),
        font_object("Helvetica"@),
        font_object("Helvetica-Bold"@),
        font_object("Helvetica-Oblique"@),
    ] + page_objects(pages)
}

/// Object `i + 1`, as written.
pub open spec fn object_entry(i: nat, body: Seq<u8>) -> Seq<u8> {
    ascii(decimal(i + 1)) + ascii(" 0 obj\n"@) + body + ascii("\nendobj\n"@)
}

/// The objects written one after another.
pub open spec fn entries(objs: Seq<Seq<u8>>) -> Seq<u8>
    decreases objs.len(),
{
    if objs.len() == 0 {
        Seq::empty()
    } else {
        entries(objs.drop_last()) + object_entry((objs.len() - 1) as nat, objs.last())
    }
}

/// The file header.
pub open spec fn pdf_header() -> Seq<u8> {
    ascii("%PDF-1.4\n"@)
}

/// Where object `i + 1` begins in the file.
pub open spec fn object_offset(objs: Seq<Seq<u8>>, i: int) -> nat {
    pdf_header().len() + entries(objs.take(i)).len()
}

/// The cross-reference rows of the first `k` objects.
pub open spec fn xref_rows(objs: Seq<Seq<u8>>, k: nat) -> Seq<u8>
    decreases k,
{
    if k == 0 {
        Seq::empty()
    } else {
        xref_rows(objs, (k - 1) as nat) + ascii(zero_padded(decimal(object_offset(objs, k - 1))))
            + ascii(" 00000 n \n"@)
    }
}

/// Header and objects: everything before the cross-reference table.
pub open spec fn pdf_body(objs: Seq<Seq<u8>>) -> Seq<u8> {
    pdf_header() + entries(objs)
}

/// A whole file: header, objects, cross-reference table, trailer.
pub open spec fn pdf_file(objs: Seq<Seq<u8>>) -> Seq<u8> {
    pdf_body(objs) + ascii("xref\n0 "@) + ascii(decimal(objs.len() + 1)) + ascii("\n0000000000 65535 f \n"@)
        + xref_rows(objs, objs.len()) + ascii("trailer\n<< /Size "@) + ascii(decimal(objs.len() + 1))
        + ascii(" /Root 1 0 R >>\nstartxref\n"@) + ascii(decimal(pdf_body(objs).len())) + ascii("\n%%EOF\n"@)
}

/// The views of a list of byte buffers.
pub open spec fn byte_views(v: Seq<Vec<u8>>) -> Seq<Seq<u8>> {
    v.map_values(|b: Vec<u8>| b@)
}

/// Assemble the object graph: 1 catalog, 2 pages, 3 to 5 the three faces,
/// then two objects per page (page dictionary, content stream).
pub fn write_pdf(pages: &[Vec<u8>]) -> (out: Vec<u8>)
    requires
        pages@.len() <= (usize::MAX - 7) / 2,
    ensures
        out@ == pdf_file(pdf_objects(byte_views(pages@))),
{
    let n = pages.len();
    let ghost pv = byte_views(pages@);
    let mut objs: Vec<Vec<u8>> = Vec::new();

    let mut catalog: Vec<u8> = Vec::new();
    push_ascii(&mut catalog, "<< /Type /Catalog /Pages 2 0 R >>");
    assert(catalog@ =~= catalog_object());
    objs.push(catalog);

    let mut tree: Vec<u8> = Vec::new();
    push_ascii(&mut tree, "<< /Type /Pages /Kids [");
    let ghost tree_start = tree@;
    let mut k: usize = 0;
    while k < n
        invariant
            n == pages@.len(),
            n <= (usize::MAX - 7) / 2,
            k <= n,
            tree@ == tree_start + kids(k as nat),
        decreases n - k,
    {
        if k > 0 {
            push_ascii(&mut tree, " ");
        }
        push_decimal(&mut tree, 6 + k * 2);
        push_ascii(&mut tree, " 0 R");
        k += 1;
        assert(tree@ =~= tree_start + kids(k as nat));
    }
    push_ascii(&mut tree, "] /Count ");
    push_decimal(&mut tree, n);
    push_ascii(&mut tree, " >>");
    assert(tree@ =~= pages_object(n as nat));
    objs.push(tree);

    let mut f1: Vec<u8> = Vec::new();
    push_ascii(&mut f1, "<< /Type /Font /Subtype /Type1 /BaseFont /");
    push_ascii(&mut f1, "Helvetica");
    push_ascii(&mut f1, " /Encoding /WinAnsiEncoding >>");
    objs.push(f1);
    let mut f2: Vec<u8> = Vec::new();
    push_ascii(&mut f2, "<< /Type /Font /Subtype /Type1 /BaseFont /");
    push_ascii(&mut f2, "Helvetica-Bold");
    push_ascii(&mut f2, " /Encoding /WinAnsiEncoding >>");
    objs.push(f2);
    let mut f3: Vec<u8> = Vec::new();
    push_ascii(&mut f3, "<< /Type /Font /Subtype /Type1 /BaseFont /");
    push_ascii(&mut f3, "Helvetica-Oblique");
    push_ascii(&mut f3, " /Encoding /WinAnsiEncoding >>");
    objs.push(f3);
    let ghost fixed = byte_views(objs@);
    assert(fixed =~= pdf_objects(pv).take(5));
    assert(page_objects(pv.take(0)) =~= Seq::<Seq<u8>>::empty());

    let mut i: usize = 0;
    while i < n
        invariant
            n == pages@.len(),
            n <= (usize::MAX - 7) / 2,
            pv == byte_views(pages@),
            fixed.len() == 5,
            fixed == pdf_objects(pv).take(5),
            i <= n,
            byte_views(objs@) == fixed + page_objects(pv.take(i as int)),
        decreases n - i,
    {
        let content = &pages[i];
        let mut dict: Vec<u8> = Vec::new();
        push_ascii(&mut dict,
            "<< /Type /Page /Parent 2 0 R /MediaBox [0 0 595 842] /Resources << /Font << /F1 3 0 R /F2 4 0 R /F3 5 0 R >> >> /Contents ");
        push_decimal(&mut dict, 7 + i * 2);
        push_ascii(&mut dict, " 0 R >>");
        assert(dict@ =~= page_object(i as nat));
        let mut stream: Vec<u8> = Vec::new();
        push_ascii(&mut stream, "<< /Length ");
        push_decimal(&mut stream, content.len());
        push_ascii(&mut stream, " >>\nstream\n");
        let ghost before = stream@;
        let mut j: usize = 0;
        while j < content.len()
            invariant
                j <= content@.len(),
                stream@ == before + content@.subrange(0, j as int),
            decreases content@.len() - j,
        {
            stream.push(content[j]);
            j += 1;
            assert(stream@ =~= before + content@.subrange(0, j as int));
        }
        assert(content@.subrange(0, content@.len() as int) =~= content@);
        push_ascii(&mut stream, "endstream");
        assert(pv[i as int] == content@);
        assert(stream@ =~= stream_object(content@));
        let ghost prev = byte_views(objs@);
        objs.push(dict);
        objs.push(stream);
        proof {
            let t1 = pv.take(i + 1);
            assert(t1.drop_last() =~= pv.take(i as int));
            assert(t1.last() == pv[i as int]);
            assert(byte_views(objs@) =~= prev + seq![page_object(i as nat), stream_object(content@)]);
        }
        i += 1;
    }
    assert(pv.take(n as int) =~= pv);
    assert(byte_views(objs@) =~= pdf_objects(pv));
    let ghost ov = byte_views(objs@);
    proof {
        lemma_page_objects_len(pv);
    }
    assert(objs@.len() == 5 + 2 * n);

    let mut out: Vec<u8> = Vec::new();
    push_ascii(&mut out, "%PDF-1.4\n");
    let mut offsets: Vec<usize> = Vec::new();
    let mut m: usize = 0;
    assert(ov.take(0) =~= Seq::<Seq<u8>>::empty());
    while m < objs.len()
        invariant
            ov == byte_views(objs@),
            m <= objs@.len(),
            out@ == pdf_header() + entries(ov.take(m as int)),
            offsets@.len() == m,
            forall|q: int| 0 <= q < m ==> offsets@[q] as nat == #[trigger] object_offset(ov, q),
        decreases objs@.len() - m,
    {
        let ghost at = out@.len();
        offsets.push(out.len());
        push_decimal(&mut out, m + 1);
        push_ascii(&mut out, " 0 obj\n");
        let body = &objs[m];
        let ghost before = out@;
        let mut j: usize = 0;
        while j < body.len()
            invariant
                j <= body@.len(),
                out@ == before + body@.subrange(0, j as int),
            decreases body@.len() - j,
        {
            out.push(body[j]);
            j += 1;
            assert(out@ =~= before + body@.subrange(0, j as int));
        }
        assert(body@.subrange(0, body@.len() as int) =~= body@);
        push_ascii(&mut out, "\nendobj\n");
        proof {
            let t1 = ov.take(m + 1);
            assert(t1.drop_last() =~= ov.take(m as int));
            assert(t1.last() == body@);
            assert(out@ =~= pdf_header() + entries(t1));
            assert(object_offset(ov, m as int) == at);
        }
        m += 1;
    }
    assert(ov.take(ov.len() as int) =~= ov);
    let xref_at = out.len();
    assert(out@ == pdf_body(ov));
    push_ascii(&mut out, "xref\n0 ");
    push_decimal(&mut out, objs.len() + 1);
    push_ascii(&mut out, "\n0000000000 65535 f \n");
    let ghost rows_start = out@;
    let mut q: usize = 0;
    while q < offsets.len()
        invariant
            offsets@.len() == ov.len(),
            forall|r: int| 0 <= r < ov.len() ==> offsets@[r] as nat == #[trigger] object_offset(ov, r),
            q <= offsets@.len(),
            out@ == rows_start + xref_rows(ov, q as nat),
        decreases offsets@.len() - q,
    {
        push_padded(&mut out, offsets[q]);
        push_ascii(&mut out, " 00000 n \n");
        assert(offsets@[q as int] as nat == object_offset(ov, q as int));
        q += 1;
        assert(out@ =~= rows_start + xref_rows(ov, q as nat));
    }
    push_ascii(&mut out, "trailer\n<< /Size ");
    push_decimal(&mut out, objs.len() + 1);
    push_ascii(&mut out, " /Root 1 0 R >>\nstartxref\n");
    push_decimal(&mut out, xref_at);
    push_ascii(&mut out, "\n%%EOF\n");
    assert(out@ =~= pdf_file(ov));
    out
}


/// The objects written before object `k + 1` are a prefix of all of them.
proof fn lemma_entries_prefix(objs: Seq<Seq<u8>>, k: int)
    requires
        0 <= k <= objs.len(),
    ensures
        entries(objs.take(k)).len() <= entries(objs).len(),
        entries(objs).subrange(0, entries(objs.take(k)).len() as int) == entries(objs.take(k)),
    decreases objs.len(),
{
    if k == objs.len() {
        assert(objs.take(k) =~= objs);
    } else {
        let d = objs.drop_last();
        assert(d.take(k) =~= objs.take(k));
        lemma_entries_prefix(d, k);
        assert(entries(objs) == entries(d) + object_entry((objs.len() - 1) as nat, objs.last()));
        assert(entries(objs).subrange(0, entries(d).len() as int) =~= entries(d));
        assert(entries(objs).subrange(0, entries(objs.take(k)).len() as int) =~= entries(d).subrange(
            0,
            entries(objs.take(k)).len() as int,
        ));
    }
}

/// The file is framed by its header and its end marker; `startxref` names
/// the byte where the cross-reference table begins; and every row of that
/// table names the byte where its object begins.
pub proof fn lemma_pdf_structure(objs: Seq<Seq<u8>>)
    ensures
        pdf_file(objs).take(9) == pdf_header(),
        pdf_file(objs).subrange(pdf_file(objs).len() - 7, pdf_file(objs).len() as int) == ascii("\n%%EOF\n"@),
        pdf_file(objs).subrange(pdf_body(objs).len() as int, (pdf_body(objs).len() + 4) as int) == ascii("xref"@),
        forall|i: int|
            0 <= i < objs.len() ==> pdf_file(objs).subrange(
                object_offset(objs, i) as int,
                (object_offset(objs, i) + object_entry(i as nat, objs[i]).len()) as int,
            ) == #[trigger] object_entry(i as nat, objs[i]),
{
    reveal_strlit("%PDF-1.4\n");
    reveal_strlit("xref\n0 ");
    reveal_strlit("xref");
    reveal_strlit("\n%%EOF\n");
    let f = pdf_file(objs);
    let b = pdf_body(objs);
    assert(f.subrange(0, b.len() as int) =~= b);
    assert(f.take(9) =~= b.take(9));
    assert(b.take(9) =~= pdf_header());
    assert(f.subrange(b.len() as int, (b.len() + 4) as int) =~= ascii("xref"@));
    assert(f.subrange(f.len() - 7, f.len() as int) =~= ascii("\n%%EOF\n"@));
    assert forall|i: int| 0 <= i < objs.len() implies f.subrange(
        object_offset(objs, i) as int,
        (object_offset(objs, i) + object_entry(i as nat, objs[i]).len()) as int,
    ) == #[trigger] object_entry(i as nat, objs[i]) by {
        lemma_entries_prefix(objs, i + 1);
        let t = objs.take(i + 1);
        assert(t.drop_last() =~= objs.take(i));
        assert(t.last() == objs[i]);
        let e = entries(t);
        let h = pdf_header().len();
        assert(e == entries(objs.take(i)) + object_entry(i as nat, objs[i]));
        assert(f.subrange(h as int, (h + e.len()) as int) =~= e) by {
            assert(f.subrange(h as int, (h + entries(objs).len()) as int) =~= entries(objs));
        }
        assert(f.subrange(object_offset(objs, i) as int, (object_offset(objs, i) + object_entry(
            i as nat,
            objs[i],
        ).len()) as int) =~= e.subrange(entries(objs.take(i)).len() as int, e.len() as int));
    }
}

/// Page `i` is objects `6 + 2i` and `7 + 2i`: its dictionary, whose
/// `/Contents` names the object right after it, then that page's content.
pub proof fn lemma_page_pair(pages: Seq<Seq<u8>>, i: int)
    requires
        0 <= i < pages.len(),
    ensures
        page_objects(pages).len() == 2 * pages.len(),
        page_objects(pages)[2 * i] == page_object(i as nat),
        page_objects(pages)[2 * i + 1] == stream_object(pages[i]),
    decreases pages.len(),
{
    lemma_page_objects_len(pages);
    if i < pages.len() - 1 {
        lemma_page_pair(pages.drop_last(), i);
        lemma_page_objects_len(pages.drop_last());
    }
}


// ---------------------------------------------------------------------------
// The WinAnsi code chart, read by byte
// ---------------------------------------------------------------------------

/// The characters of WinAnsi's `0x80`–`0x9F` block, by byte, as the code
/// chart lists them; `0x81`, `0x8D`, `0x8F`, `0x90` and `0x9D` are unused.
pub open spec fn chart_high(b: u8) -> Option<char> {
    if b == 0x80 { Some('\u{20AC}') }
    else if b == 0x82 { Some('\u{201A}') }
    else if b == 0x83 { Some('\u{0192}') }
    else if b == 0x84 { Some('\u{201E}') }
    else if b == 0x85 { Some('\u{2026}') }
    else if b == 0x86 { Some('\u{2020}') }
    else if b == 0x87 { Some('\u{2021}') }
    else if b == 0x88 { Some('\u{02C6}') }
    else if b == 0x89 { Some('\u{2030}') }
    else if b == 0x8A { Some('\u{0160}') }
    else if b == 0x8B { Some('\u{2039}') }
    else if b == 0x8C { Some('\u{0152}') }
    else if b == 0x8E { Some('\u{017D}') }
    else if b == 0x91 { Some('\u{2018}') }
    else if b == 0x92 { Some('\u{2019}') }
    else if b == 0x93 { Some('\u{201C}') }
    else if b == 0x94 { Some('\u{201D}') }
    else if b == 0x95 { Some('\u{2022}') }
    else if b == 0x96 { Some('\u{2013}') }
    else if b == 0x97 { Some('\u{2014}') }
    else if b == 0x98 { Some('\u{02DC}') }
    else if b == 0x99 { Some('\u{2122}') }
    else if b == 0x9A { Some('\u{0161}') }
    else if b == 0x9B { Some('\u{203A}') }
    else if b == 0x9C { Some('\u{0153}') }
    else if b == 0x9E { Some('\u{017E}') }
    else if b == 0x9F { Some('\u{0178}') }
    else { None }
}

/// A character the WinAnsi chart holds: printable ASCII, the Latin-1 upper
/// half, or a character of the `0x80`–`0x9F` block.
pub open spec fn in_chart(c: char) -> bool {
    let n = c as u32;
    (0x20 <= n && n < 0x7F) || (0xA0 <= n && n <= 0xFF) || exists|b: u8| #[trigger] chart_high(b) == Some(c)
}

/// **The encoder agrees with the code chart, both ways**: every character
/// of the `0x80`–`0x9F` block is written as its own byte, and a character
/// written as a byte of that block is the one the chart lists there.
pub proof fn lemma_encoder_follows_the_chart(b: u8, c: char)
    ensures
        chart_high(b) == Some(c) ==> winansi(c) == Some(b) && fate_of(c) == CharFate::Intact && char_bytes(c) == seq![b],
        winansi(c) == Some(b) && 0x80 <= b <= 0x9F ==> chart_high(b) == Some(c),
{
}

/// **Text made of WinAnsi characters is written intact**: nothing is folded
/// or marked, and each character becomes exactly one byte.
pub proof fn lemma_chart_text_is_intact(s: Seq<char>)
    requires
        forall|i: int| 0 <= i < s.len() ==> in_chart(#[trigger] s[i]),
    ensures
        !some_fate(s, CharFate::Marked),
        !some_fate(s, CharFate::Simplified),
        forall|i: int| 0 <= i < s.len() ==> #[trigger] fate_of(s[i]) == CharFate::Intact && char_bytes(s[i]).len() == 1,
{
    assert forall|i: int| 0 <= i < s.len() implies #[trigger] fate_of(s[i]) == CharFate::Intact && char_bytes(s[i]).len() == 1 by {
        let c = s[i];
        assert(in_chart(c));
        let n = c as u32;
        if !((0x20 <= n && n < 0x7F) || (0xA0 <= n && n <= 0xFF)) {
            let b = choose|b: u8| #[trigger] chart_high(b) == Some(c);
            lemma_encoder_follows_the_chart(b, c);
        }
    }
}

} // verus!
