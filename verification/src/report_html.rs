//! HTML rendering of composed blocks: one self-contained document, every
//! interpolated value escaped, consecutive bullets gathered into one list,
//! and heading levels placed below the cover's `<h1>`.

use vstd::prelude::*;

use crate::report_compose::{Block, Tone};
use crate::text::{chars_of, contains, occurs_at, push_char, push_str};

verus! {

/// What one character becomes when escaped.
pub open spec fn escape_char(c: char) -> Seq<char> {
    if c == '&' {
        "&amp;"@
    } else if c == '<' {
        "&lt;"@
    } else if c == '>' {
        "&gt;"@
    } else if c == '"' {
        "&quot;"@
    } else if c == '\'' {
        "&#39;"@
    } else {
        seq![c]
    }
}

/// A whole string, escaped.
pub open spec fn escape_spec(s: Seq<char>) -> Seq<char>
    decreases s.len(),
{
    if s.len() == 0 {
        Seq::empty()
    } else {
        escape_spec(s.drop_last()) + escape_char(s.last())
    }
}

/// HTML-escape a string. `&` is replaced as a character of its own, so the
/// other replacements are never escaped twice.
pub fn escape(s: &str) -> (out: String)
    ensures
        out@ == escape_spec(s@),
{
    let cs = chars_of(s);
    let mut out = String::new();
    let mut i: usize = 0;
    while i < cs.len()
        invariant
            cs@ == s@,
            i <= cs@.len(),
            out@ == escape_spec(cs@.subrange(0, i as int)),
        decreases cs@.len() - i,
    {
        let c = cs[i];
        if c == '&' {
            push_str(&mut out, "&amp;");
        } else if c == '<' {
            push_str(&mut out, "&lt;");
        } else if c == '>' {
            push_str(&mut out, "&gt;");
        } else if c == '"' {
            push_str(&mut out, "&quot;");
        } else if c == '\'' {
            push_str(&mut out, "&#39;");
        } else {
            push_char(&mut out, c);
        }
        assert(cs@.subrange(0, i + 1).drop_last() =~= cs@.subrange(0, i as int));
        i += 1;
        assert(out@ =~= escape_spec(cs@.subrange(0, i as int)));
    }
    assert(cs@.subrange(0, cs@.len() as int) =~= cs@);
    out
}

/// One left-to-right pass decoding the five entities `escape` writes.
pub open spec fn unescape(t: Seq<char>) -> Seq<char>
    decreases t.len(),
{
    if t.len() == 0 {
        Seq::empty()
    } else if 5 <= t.len() && t.subrange(0, 5) == "&amp;"@ {
        seq!['&'] + unescape(t.subrange(5, t.len() as int))
    } else if 4 <= t.len() && t.subrange(0, 4) == "&lt;"@ {
        seq!['<'] + unescape(t.subrange(4, t.len() as int))
    } else if 4 <= t.len() && t.subrange(0, 4) == "&gt;"@ {
        seq!['>'] + unescape(t.subrange(4, t.len() as int))
    } else if 6 <= t.len() && t.subrange(0, 6) == "&quot;"@ {
        seq!['"'] + unescape(t.subrange(6, t.len() as int))
    } else if 5 <= t.len() && t.subrange(0, 5) == "&#39;"@ {
        seq!['\''] + unescape(t.subrange(5, t.len() as int))
    } else {
        seq![t[0]] + unescape(t.subrange(1, t.len() as int))
    }
}

proof fn lemma_escape_front(c: char, s: Seq<char>)
    ensures
        escape_spec(seq![c] + s) == escape_char(c) + escape_spec(s),
    decreases s.len(),
{
    if s.len() == 0 {
        assert(seq![c] + s =~= seq![c]);
        assert(seq![c].drop_last() =~= Seq::<char>::empty());
        assert(escape_spec(Seq::<char>::empty()) =~= Seq::<char>::empty());
        assert(escape_char(c) + escape_spec(s) =~= escape_char(c));
    } else {
        lemma_escape_front(c, s.drop_last());
        assert((seq![c] + s).drop_last() =~= seq![c] + s.drop_last());
        assert(escape_char(c) + escape_spec(s) =~= escape_char(c) + escape_spec(s.drop_last()) + escape_char(s.last()));
    }
}

proof fn lemma_unescape_one(c: char, rest: Seq<char>)
    ensures
        unescape(escape_char(c) + rest) == seq![c] + unescape(rest),
{
    reveal_strlit("&amp;");
    reveal_strlit("&lt;");
    reveal_strlit("&gt;");
    reveal_strlit("&quot;");
    reveal_strlit("&#39;");
    let t = escape_char(c) + rest;
    let n = escape_char(c).len() as int;
    assert(t.subrange(n, t.len() as int) =~= rest);
    if c != '&' && c != '<' && c != '>' && c != '"' && c != '\'' {
        assert(t[0] == c);
        assert(t.len() >= 4 ==> t.subrange(0, 4)[0] == c);
        assert(t.len() >= 5 ==> t.subrange(0, 5)[0] == c);
        assert(t.len() >= 6 ==> t.subrange(0, 6)[0] == c);
    } else {
        assert(t.subrange(0, n) =~= escape_char(c));
        assert(t.len() >= 4 ==> t.subrange(0, 4)[1] == t[1]);
        assert(t.len() >= 5 ==> t.subrange(0, 5)[1] == t[1]);
        assert(t.len() >= 6 ==> t.subrange(0, 6)[1] == t[1]);
    }
}

/// Escaping loses nothing: decoding the five entities in one left-to-right
/// pass gives back the text exactly.
pub proof fn lemma_escape_round_trips(s: Seq<char>)
    ensures
        unescape(escape_spec(s)) == s,
    decreases s.len(),
{
    if s.len() > 0 {
        let rest = s.subrange(1, s.len() as int);
        assert(s =~= seq![s[0]] + rest);
        lemma_escape_front(s[0], rest);
        lemma_unescape_one(s[0], escape_spec(rest));
        lemma_escape_round_trips(rest);
    } else {
        assert(escape_spec(s) =~= Seq::<char>::empty());
    }
}

/// Escaped text holds no tag delimiter and no quote: whatever a manuscript
/// sentence says, it cannot open an element or leave an attribute.
pub proof fn lemma_escaped_holds_no_markup(s: Seq<char>)
    ensures
        forall|i: int|
            0 <= i < escape_spec(s).len() ==> {
                let c = #[trigger] escape_spec(s)[i];
                c != '<' && c != '>' && c != '"' && c != '\''
            },
    decreases s.len(),
{
    reveal_strlit("&amp;");
    reveal_strlit("&lt;");
    reveal_strlit("&gt;");
    reveal_strlit("&quot;");
    reveal_strlit("&#39;");
    if s.len() > 0 {
        lemma_escaped_holds_no_markup(s.drop_last());
        let pre = escape_spec(s.drop_last());
        let e = escape_char(s.last());
        assert forall|i: int| 0 <= i < escape_spec(s).len() implies {
            let c = #[trigger] escape_spec(s)[i];
            c != '<' && c != '>' && c != '"' && c != '\''
        } by {
            if i < pre.len() {
                assert(escape_spec(s)[i] == pre[i]);
            } else {
                assert(escape_spec(s)[i] == e[i - pre.len()]);
            }
        }
    }
}

/// Print styles live in the document, so the file depends on no stylesheet
/// it cannot reach.
pub const STYLE: &'static str = "body{font:14px/1.6 -apple-system,BlinkMacSystemFont,Segoe UI,Roboto,sans-serif;max-width:46rem;margin:2rem auto;padding:0 1rem;color:#1a1a1a}.cover{border-bottom:2px solid #1a1a1a;padding-bottom:1rem;margin-bottom:2rem}.cover h1{margin:0 0 .25rem;font-size:1.75rem}.cover .sub{color:#555;font-size:1.05rem;margin-bottom:.75rem}.cover dl{display:grid;grid-template-columns:auto 1fr;gap:.15rem .75rem;margin:0;font-size:.9rem}.cover dt{color:#555}.cover dd{margin:0}h2{margin-top:2rem;border-bottom:1px solid #ddd;padding-bottom:.25rem}h3{margin-top:1.5rem;font-size:1.05rem}h4{margin-top:1.25rem;font-size:.95rem;color:#333}.note{background:#f6f6f4;border-left:3px solid #999;padding:.6rem .8rem;margin:1rem 0;color:#444;font-size:.92rem}ul{margin:.4rem 0;padding-left:1.25rem}li{margin:.2rem 0}li.nested{margin-left:1rem}.pagebreak{page-break-after:always;height:0}@media print{body{margin:0;max-width:none}}";

/// The class a badge's tone is rendered with.
pub open spec fn tone_class(t: Tone) -> Seq<char> {
    match t {
        Tone::Good => "good"@,
        Tone::Warn => "warn"@,
        Tone::Bad => "bad"@,
        Tone::Neutral => "neutral"@,
    }
}

fn tone_class_of(t: Tone) -> (r: &'static str)
    ensures
        r@ == tone_class(t),
{
    match t {
        Tone::Good => "good",
        Tone::Warn => "warn",
        Tone::Bad => "bad",
        Tone::Neutral => "neutral",
    }
}

/// The tag a heading level is set in: the cover's `<h1>` is the document
/// title, so sections start at `<h2>`.
pub open spec fn heading_tag(level: u8) -> Seq<char> {
    if level == 1 {
        "h2"@
    } else if level == 2 {
        "h3"@
    } else {
        "h4"@
    }
}

fn heading_tag_of(level: u8) -> (r: &'static str)
    ensures
        r@ == heading_tag(level),
{
    if level == 1 {
        "h2"
    } else if level == 2 {
        "h3"
    } else {
        "h4"
    }
}

/// The cover's label/value pairs as a definition list's rows.
pub open spec fn meta_html(meta: Seq<(String, String)>) -> Seq<char>
    decreases meta.len(),
{
    if meta.len() == 0 {
        Seq::empty()
    } else {
        meta_html(meta.drop_last()) + "<dt>"@ + escape_spec(meta.last().0@) + "</dt><dd>"@ + escape_spec(
            meta.last().1@,
        ) + "</dd>\n"@
    }
}

/// One block's element.
pub open spec fn block_html(b: Block) -> Seq<char> {
    match b {
        Block::Cover { title, subtitle, meta } => "<header class=\"cover\">\n"@ + "<h1>"@ + escape_spec(title@)
            + "</h1>\n"@ + "<div class=\"sub\">"@ + escape_spec(subtitle@) + "</div>\n"@ + "<dl>\n"@
            + meta_html(meta@) + "</dl>\n</header>\n"@,
        Block::Heading { text, level } => "<"@ + heading_tag(level) + ">"@ + escape_spec(text@) + "</"@
            + heading_tag(level) + ">\n"@,
        Block::Paragraph { text } => "<p>"@ + escape_spec(text@) + "</p>\n"@,
        Block::Bullet { text, indent } => "<li"@ + (if indent > 0 {
            " class=\"nested\""@
        } else {
            ""@
        }) + ">"@ + escape_spec(text@) + "</li>\n"@,
        Block::Note { text } => "<div class=\"note\">"@ + escape_spec(text@) + "</div>\n"@,
        Block::Badge { text, tone } => "<p class=\"badge badge-"@ + tone_class(tone) + "\">"@ + escape_spec(
            text@,
        ) + "</p>\n"@,
        Block::PageBreak => "<div class=\"pagebreak\"></div>\n"@,
    }
}

/// The body for a run of blocks, and whether it ends inside an open list: a
/// list opens before the first bullet of a run and closes before the first
/// block after it.
pub open spec fn body_html(bs: Seq<Block>) -> (Seq<char>, bool)
    decreases bs.len(),
{
    if bs.len() == 0 {
        (Seq::empty(), false)
    } else {
        let prev = body_html(bs.drop_last());
        let b = bs.last();
        if b is Bullet {
            (prev.0 + (if prev.1 {
                ""@
            } else {
                "<ul>\n"@
            }) + block_html(b), true)
        } else {
            (prev.0 + (if prev.1 {
                "</ul>\n"@
            } else {
                ""@
            }) + block_html(b), false)
        }
    }
}

/// The opening of every document, up to and including `<body>`.
pub open spec fn html_head(title: Seq<char>) -> Seq<char> {
    "<!doctype html>\n<html lang=\"en\">\n<head>\n<meta charset=\"utf-8\">\n"@ + "<title>"@ + escape_spec(title)
        + "</title>\n"@ + "<style>"@ + STYLE@ + "</style>\n</head>\n<body>\n"@
}

/// A standalone HTML document for `bs`.
pub open spec fn render_html_spec(bs: Seq<Block>, title: Seq<char>) -> Seq<char> {
    let body = body_html(bs);
    html_head(title) + body.0 + (if body.1 {
        "</ul>\n"@
    } else {
        ""@
    }) + "</body>\n</html>\n"@
}

fn push_block(s: &mut String, b: &Block)
    ensures
        final(s)@ == old(s)@ + block_html(*b),
{
    match b {
        Block::Cover { title, subtitle, meta } => {
            push_str(s, "<header class=\"cover\">\n");
            push_str(s, "<h1>");
            push_str(s, &escape(title));
            push_str(s, "</h1>\n");
            push_str(s, "<div class=\"sub\">");
            push_str(s, &escape(subtitle));
            push_str(s, "</div>\n");
            push_str(s, "<dl>\n");
            let ghost start = s@;
            let mut i: usize = 0;
            while i < meta.len()
                invariant
                    i <= meta@.len(),
                    s@ == start + meta_html(meta@.take(i as int)),
                decreases meta@.len() - i,
            {
                let (k, v) = &meta[i];
                push_str(s, "<dt>");
                push_str(s, &escape(k));
                push_str(s, "</dt><dd>");
                push_str(s, &escape(v));
                push_str(s, "</dd>\n");
                assert(meta@.take(i + 1).drop_last() =~= meta@.take(i as int));
                i += 1;
                assert(s@ =~= start + meta_html(meta@.take(i as int)));
            }
            assert(meta@.take(meta@.len() as int) =~= meta@);
            push_str(s, "</dl>\n</header>\n");
        },
        Block::Heading { text, level } => {
            let tag = heading_tag_of(*level);
            push_str(s, "<");
            push_str(s, tag);
            push_str(s, ">");
            push_str(s, &escape(text));
            push_str(s, "</");
            push_str(s, tag);
            push_str(s, ">\n");
        },
        Block::Paragraph { text } => {
            push_str(s, "<p>");
            push_str(s, &escape(text));
            push_str(s, "</p>\n");
        },
        Block::Bullet { text, indent } => {
            push_str(s, "<li");
            let class = if *indent > 0 { " class=\"nested\"" } else { "" };
            push_str(s, class);
            push_str(s, ">");
            push_str(s, &escape(text));
            push_str(s, "</li>\n");
        },
        Block::Note { text } => {
            push_str(s, "<div class=\"note\">");
            push_str(s, &escape(text));
            push_str(s, "</div>\n");
        },
        Block::Badge { text, tone } => {
            push_str(s, "<p class=\"badge badge-");
            push_str(s, tone_class_of(*tone));
            push_str(s, "\">");
            push_str(s, &escape(text));
            push_str(s, "</p>\n");
        },
        Block::PageBreak => {
            push_str(s, "<div class=\"pagebreak\"></div>\n");
        },
    }
    assert(s@ =~= old(s)@ + block_html(*b));
}

/// Render blocks to a standalone HTML document.
pub fn render_html(blocks: &[Block], document_title: &str) -> (s: String)
    ensures
        s@ == render_html_spec(blocks@, document_title@),
{
    let mut s = String::new();
    push_str(&mut s, "<!doctype html>\n<html lang=\"en\">\n<head>\n<meta charset=\"utf-8\">\n");
    push_str(&mut s, "<title>");
    push_str(&mut s, &escape(document_title));
    push_str(&mut s, "</title>\n");
    push_str(&mut s, "<style>");
    push_str(&mut s, STYLE);
    push_str(&mut s, "</style>\n</head>\n<body>\n");
    let ghost head = s@;
    assert(head =~= html_head(document_title@));
    let mut in_list = false;
    let mut i: usize = 0;
    assert(blocks@.take(0) =~= Seq::<Block>::empty());
    while i < blocks.len()
        invariant
            i <= blocks@.len(),
            s@ == head + body_html(blocks@.take(i as int)).0,
            in_list == body_html(blocks@.take(i as int)).1,
        decreases blocks@.len() - i,
    {
        let b = &blocks[i];
        let is_bullet = match b {
            Block::Bullet { .. } => true,
            _ => false,
        };
        if is_bullet {
            if !in_list {
                push_str(&mut s, "<ul>\n");
                in_list = true;
            }
        } else if in_list {
            push_str(&mut s, "</ul>\n");
            in_list = false;
        }
        push_block(&mut s, b);
        proof {
            reveal_strlit("");
            let t = blocks@.take(i + 1);
            assert(t.drop_last() =~= blocks@.take(i as int));
            assert(t.last() == *b);
        }
        i += 1;
        assert(s@ =~= head + body_html(blocks@.take(i as int)).0);
    }
    assert(blocks@.take(blocks@.len() as int) =~= blocks@);
    if in_list {
        push_str(&mut s, "</ul>\n");
    }
    push_str(&mut s, "</body>\n</html>\n");
    proof {
        reveal_strlit("");
    }
    assert(s@ =~= render_html_spec(blocks@, document_title@));
    s
}

/// Every document opens with the doctype and its own style sheet, and closes
/// its body and root element: nothing it shows depends on a file it links.
pub proof fn lemma_document_is_self_contained(bs: Seq<Block>, title: Seq<char>)
    ensures
        render_html_spec(bs, title).take(15) == "<!doctype html>"@,
        render_html_spec(bs, title).subrange(
            render_html_spec(bs, title).len() - 16,
            render_html_spec(bs, title).len() as int,
        ) == "</body>\n</html>\n"@,
{
    reveal_strlit("<!doctype html>\n<html lang=\"en\">\n<head>\n<meta charset=\"utf-8\">\n");
    reveal_strlit("<!doctype html>");
    reveal_strlit("</body>\n</html>\n");
    let r = render_html_spec(bs, title);
    let h = html_head(title);
    assert(r.take(15) =~= h.take(15));
    assert(r.subrange(r.len() - 16, r.len() as int) =~= "</body>\n</html>\n"@);
}


// ---------------------------------------------------------------------------
// What every cover shows
// ---------------------------------------------------------------------------

proof fn lemma_contains_middle(a: Seq<char>, n: Seq<char>, c: Seq<char>)
    ensures
        contains(a + n + c, n),
{
    assert((a + n + c).subrange(a.len() as int, (a.len() + n.len()) as int) =~= n);
    assert(occurs_at(a + n + c, n, a.len() as int));
}

proof fn lemma_contains_within(x: Seq<char>, y: Seq<char>, z: Seq<char>)
    requires
        contains(x, y),
        contains(y, z),
    ensures
        contains(x, z),
{
    let i = choose|i: int| occurs_at(x, y, i);
    let k = choose|k: int| occurs_at(y, z, k);
    assert(x.subrange(i + k, i + k + z.len()) =~= y.subrange(k, k + z.len()));
    assert(occurs_at(x, z, i + k));
}

proof fn lemma_body_holds_each_block(bs: Seq<Block>, i: int)
    requires
        0 <= i < bs.len(),
    ensures
        contains(body_html(bs).0, block_html(bs[i])),
    decreases bs.len(),
{
    let pre = bs.drop_last();
    let prev = body_html(pre);
    let b = bs.last();
    let sep = if b is Bullet {
        if prev.1 { ""@ } else { "<ul>\n"@ }
    } else {
        if prev.1 { "</ul>\n"@ } else { ""@ }
    };
    assert(body_html(bs).0 == prev.0 + sep + block_html(b));
    if i == bs.len() - 1 {
        lemma_contains_middle(prev.0 + sep, block_html(b), Seq::empty());
        assert(prev.0 + sep + block_html(b) + Seq::<char>::empty() =~= body_html(bs).0);
    } else {
        assert(pre[i] == bs[i]);
        lemma_body_holds_each_block(pre, i);
        lemma_contains_middle(Seq::empty(), prev.0, sep + block_html(b));
        assert(Seq::<char>::empty() + prev.0 + (sep + block_html(b)) =~= body_html(bs).0);
        lemma_contains_within(body_html(bs).0, prev.0, block_html(bs[i]));
    }
}

/// **Every cover shows its own title and its own subtitle**: for every
/// cover block of a document, the page holds its title, escaped, as the
/// `<h1>`, and its subtitle, escaped, in the `sub` line.
pub proof fn lemma_cover_shows_title_and_subtitle(bs: Seq<Block>, doc_title: Seq<char>, i: int)
    requires
        0 <= i < bs.len(),
        bs[i] is Cover,
    ensures
        ({
            let page = render_html_spec(bs, doc_title);
            match bs[i] {
                Block::Cover { title: heading, subtitle: tagline, .. } => {
                    &&& contains(page, "<h1>"@ + escape_spec(heading@) + "</h1>\n"@)
                    &&& contains(page, "<div class=\"sub\">"@ + escape_spec(tagline@) + "</div>\n"@)
                },
                _ => true,
            }
        }),
{
    let page = render_html_spec(bs, doc_title);
    let body = body_html(bs);
    let tail = (if body.1 { "</ul>\n"@ } else { ""@ }) + "</body>\n</html>\n"@;
    assert(page =~= html_head(doc_title) + body.0 + tail);
    lemma_contains_middle(html_head(doc_title), body.0, tail);
    lemma_body_holds_each_block(bs, i);
    lemma_contains_within(page, body.0, block_html(bs[i]));
    match bs[i] {
        Block::Cover { title: heading, subtitle: tagline, meta } => {
            let h = "<h1>"@ + escape_spec(heading@) + "</h1>\n"@;
            let sub = "<div class=\"sub\">"@ + escape_spec(tagline@) + "</div>\n"@;
            let open = "<header class=\"cover\">\n"@;
            let rest = "<dl>\n"@ + meta_html(meta@) + "</dl>\n</header>\n"@;
            let html = block_html(bs[i]);
            assert(html =~= open + h + (sub + rest));
            assert(html =~= (open + h) + sub + rest);
            lemma_contains_middle(open, h, sub + rest);
            lemma_contains_middle(open + h, sub, rest);
            lemma_contains_within(page, html, h);
            lemma_contains_within(page, html, sub);
        },
        _ => {},
    }
}

} // verus!
