use gaply_core::extract::{Location, SectionKind};
use gaply_core::report_compose::{shorten, Block, Tone, NOTE_MARKED, NOTE_NO_GUIDELINES, NOTE_SIMPLIFIED};
use gaply_core::report_html::{escape, render_html};
use gaply_core::report_model::{human_paragraph, provenance_location, reported_statistic_location};
use gaply_core::report_layout::{render_pdf, wrap, BODY_SIZE, H1_SIZE, QUOTATION_SIZE, TEXT_W};
use gaply_core::report_pdf::{
    encode_winansi, escape_pdf, latin_base, widths_for, winansi_byte, write_pdf, EncodingOutcome, Face,
    HELVETICA_BOLD_WIDTHS, HELVETICA_WIDTHS,
};

// ---------------------------------------------------------------------------
// HTML
// ---------------------------------------------------------------------------

#[test]
fn escaping_is_applied_to_every_text_bearing_block() {
    let hostile = "<script>alert('x')</script> & \"quoted\"";
    let blocks = vec![
        Block::Cover { title: hostile.into(), subtitle: hostile.into(), meta: vec![(hostile.into(), hostile.into())] },
        Block::Heading { text: hostile.into(), level: 1 },
        Block::Paragraph { text: hostile.into() },
        Block::Bullet { text: hostile.into(), indent: 0 },
        Block::Note { text: hostile.into() },
        Block::Badge { text: hostile.into(), tone: Tone::Bad },
        Block::PageBreak,
    ];
    let html = render_html(&blocks, hostile);
    assert!(!html.contains("<script>"), "unescaped script tag:\n{html}");
    assert!(!html.contains("alert('x')"), "unescaped quote:\n{html}");
    assert!(html.contains("&lt;script&gt;"));
    assert!(html.contains("&amp;"));
    assert!(!html.contains("&amp;amp;"), "double-escaped:\n{html}");
}

#[test]
fn consecutive_bullets_become_one_list() {
    let blocks = vec![
        Block::Bullet { text: "one".into(), indent: 0 },
        Block::Bullet { text: "two".into(), indent: 0 },
        Block::Paragraph { text: "after".into() },
        Block::Bullet { text: "three".into(), indent: 0 },
    ];
    let html = render_html(&blocks, "t");
    assert_eq!(html.matches("<ul>").count(), 2, "{html}");
    assert_eq!(html.matches("</ul>").count(), 2, "{html}");
    let ul_close = html.find("</ul>").unwrap();
    let p = html.find("<p>after</p>").unwrap();
    assert!(ul_close < p, "{html}");
}

#[test]
fn the_document_is_self_contained_and_well_formed() {
    let html = render_html(&[Block::Paragraph { text: "x".into() }], "Report");
    assert!(html.starts_with("<!doctype html>"));
    assert!(html.contains("<style>"));
    assert!(!html.contains("<link"), "external stylesheet: {html}");
    assert!(html.trim_end().ends_with("</html>"));
    assert!(html.contains("<title>Report</title>"));
}

#[test]
fn heading_levels_map_below_the_covers_h1() {
    let blocks = vec![
        Block::Cover { title: "T".into(), subtitle: "S".into(), meta: vec![] },
        Block::Heading { text: "Section".into(), level: 1 },
        Block::Heading { text: "Finding".into(), level: 3 },
    ];
    let html = render_html(&blocks, "t");
    assert_eq!(html.matches("<h1>").count(), 1, "{html}");
    assert!(html.contains("<h2>Section</h2>"), "{html}");
    assert!(html.contains("<h4>Finding</h4>"), "{html}");
}

#[test]
fn escape_replaces_each_markup_character_once() {
    assert_eq!(escape("a & b < c > d \"e\" 'f'"), "a &amp; b &lt; c &gt; d &quot;e&quot; &#39;f&#39;");
    assert_eq!(escape("&amp;"), "&amp;amp;", "escaping is applied to the text as given, once");
    assert_eq!(escape(""), "");
}

#[test]
fn a_list_still_open_at_the_end_is_closed_before_the_body() {
    let html = render_html(&[Block::Bullet { text: "last".into(), indent: 1 }], "t");
    assert!(html.contains("<ul>\n<li class=\"nested\">last</li>\n</ul>\n</body>"), "{html}");
}

#[test]
fn a_badge_carries_its_tone_as_a_class_and_its_text_escaped() {
    let html = render_html(&[Block::Badge { text: "a<b".into(), tone: Tone::Warn }], "t");
    assert!(html.contains("<p class=\"badge badge-warn\">a&lt;b</p>"), "{html}");
}

#[test]
fn the_cover_lists_its_metadata_pairs_in_order() {
    let blocks = vec![Block::Cover {
        title: "T".into(),
        subtitle: "S".into(),
        meta: vec![("Run".into(), "r-1".into()), ("Findings".into(), "3".into())],
    }];
    let html = render_html(&blocks, "t");
    let run = html.find("<dt>Run</dt><dd>r-1</dd>").expect("first pair");
    let findings = html.find("<dt>Findings</dt><dd>3</dd>").expect("second pair");
    assert!(run < findings, "{html}");
}

// ---------------------------------------------------------------------------
// Paragraph numbering
// ---------------------------------------------------------------------------

fn loc(section: SectionKind, paragraph: usize) -> Location {
    Location { section, paragraph, section_index: None }
}

fn printed_ordinal(rendered: &str) -> usize {
    let after = rendered
        .split("paragraph ")
        .nth(1)
        .unwrap_or_else(|| panic!("no paragraph ordinal in {rendered:?}"));
    after
        .chars()
        .take_while(char::is_ascii_digit)
        .collect::<String>()
        .parse()
        .unwrap_or_else(|e| panic!("unparseable ordinal in {rendered:?}: {e}"))
}

#[test]
fn both_surfaces_give_the_same_finding_the_same_paragraph_number() {
    let cases = [
        (SectionKind::Abstract, 0usize, "Abstract"),
        (SectionKind::Methods, 125, "Methods"),
        (SectionKind::Results, 1, "Results"),
        (SectionKind::Other, 7, "Unlabelled section"),
    ];
    for (section, paragraph, name) in cases {
        let l = loc(section, paragraph);
        let inspector = provenance_location(&l);
        let pdf = reported_statistic_location(name, &l);
        let (a, b) = (printed_ordinal(&inspector), printed_ordinal(&pdf));
        assert_eq!(a, b, "the same finding is numbered differently on two surfaces:\n  Inspector: {inspector}\n  PDF:       {pdf}");
        assert_eq!(a, paragraph + 1, "index {paragraph} must print as {}, got {a} in {inspector:?}", paragraph + 1);
    }
}

#[test]
fn the_first_paragraph_of_a_section_is_never_numbered_zero() {
    let l = loc(SectionKind::Abstract, 0);
    assert_eq!(human_paragraph(&l), 1);
    for rendered in [provenance_location(&l), reported_statistic_location("Abstract", &l)] {
        assert!(!rendered.contains("paragraph 0"), "a surface printed a paragraph that does not exist: {rendered}");
    }
}

#[test]
fn the_location_lines_have_their_exact_shape() {
    let l = loc(SectionKind::Methods, 125);
    assert_eq!(provenance_location(&l), "location:Methods paragraph 126");
    assert_eq!(reported_statistic_location("Methods", &l), "Methods, paragraph 126");
}

// ---------------------------------------------------------------------------
// Quotation cuts
// ---------------------------------------------------------------------------

#[test]
fn a_short_quotation_is_returned_trimmed_and_unmarked() {
    assert_eq!(shorten("  A short sentence (p = 0.03).  "), "A short sentence (p = 0.03).");
}

#[test]
fn a_long_quotation_is_cut_at_a_word_boundary_and_marked() {
    let pad = "word ".repeat(69);
    let text = format!("{pad} 0.0125 and more text follows here to force a cut.");
    let shown = shorten(&text);
    assert!(shown.ends_with('…'), "{shown}");
    let inner = shown.trim_end_matches('…');
    assert!(text.starts_with(inner), "the shown prefix must be verbatim: {inner:?}");
    let next = text[inner.len()..].chars().next().unwrap();
    assert!(next.is_whitespace(), "the cut must land on a whitespace boundary: {inner:?}");
    assert!(!shown.contains("0.0…") && !shown.contains("0.01…") && !shown.contains("0.012…"), "a number was split: {shown}");
    assert!(inner.chars().count() <= 350);
}

#[test]
fn a_token_longer_than_the_cap_is_cut_at_the_cap_and_marked() {
    let text = "x".repeat(400);
    let shown = shorten(&text);
    assert_eq!(shown.chars().count(), 351);
    assert!(shown.ends_with('…'));
}

// ---------------------------------------------------------------------------
// PDF encoding
// ---------------------------------------------------------------------------

#[test]
fn the_marked_disclosure_makes_no_length_claim() {
    assert!(
        !NOTE_MARKED.chars().any(|c| c.is_ascii_digit()),
        "the marked disclosure must not state how much is missing"
    );
}

#[test]
fn winansi_covers_latin1_exactly_and_seven_extended_a_characters() {
    for c in '\u{A0}'..='\u{FF}' {
        assert_eq!(winansi_byte(c), Some(c as u8), "Latin-1 must map identically");
    }
    let seven = ['Œ', 'œ', 'Š', 'š', 'Ÿ', 'Ž', 'ž'];
    for c in seven {
        assert!(winansi_byte(c).is_some(), "{c} is one of WinAnsi's seven Extended-A characters");
    }
    let mut found = 0;
    for c in '\u{100}'..='\u{17F}' {
        if winansi_byte(c).is_some() {
            assert!(seven.contains(&c), "unexpected Extended-A character {c} in WinAnsi");
            found += 1;
        }
    }
    assert_eq!(found, 7, "WinAnsi contains exactly seven Latin Extended-A characters");
}

#[test]
fn mathematical_notation_folds_rather_than_marking() {
    for (input, want) in [
        ("p \u{2264} 0.05", "p <= 0.05"),
        ("p \u{2265} 0.05", "p >= 0.05"),
        ("d \u{2260} 0", "d != 0"),
        ("\u{2212}0.092", "-0.092"),
        ("1\u{2032}", "1'"),
        ("2\u{2033}", "2\""),
        ("a \u{2192} b", "a -> b"),
    ] {
        let (bytes, o) = encode_winansi(input);
        assert_eq!(String::from_utf8_lossy(&bytes), want, "{input:?}");
        assert!(!o.any_marked, "{input:?} must not hit the sentinel");
        assert!(o.any_simplified, "{input:?} is a fold, and must be disclosed as one");
        assert!(bytes.iter().all(|b| b.is_ascii()), "a fold must emit ASCII, never UTF-8");
    }
}

#[test]
fn both_mu_codepoints_reach_the_page() {
    for input in ["\u{03BC}g/cm2", "\u{00B5}g/cm2"] {
        let (bytes, o) = encode_winansi(input);
        assert_eq!(bytes[0], 0xB5, "{input:?} must encode as the micro sign");
        assert_eq!(o, EncodingOutcome::default(), "{input:?} is intact, not folded");
    }
}

#[test]
fn plus_minus_is_already_representable() {
    let (bytes, o) = encode_winansi("\u{00B1}0.1");
    assert_eq!(bytes[0], 0xB1);
    assert_eq!(o, EncodingOutcome::default());
}

#[test]
fn superscript_two_and_multiply_still_pass_through_intact() {
    let (bytes, o) = encode_winansi("cm\u{00B2} 3 \u{00D7} 4");
    assert_eq!(bytes[2], 0xB2, "superscript two is WinAnsi 0xB2");
    assert_eq!(bytes[6], 0xD7, "multiplication sign is WinAnsi 0xD7");
    assert_eq!(o, EncodingOutcome::default(), "neither is folded or marked");
}

#[test]
fn bold_is_wider_everywhere_but_two_known_glyphs() {
    let mut narrower: Vec<usize> = Vec::new();
    for b in 0..256usize {
        let (r, bo) = (HELVETICA_WIDTHS[b], HELVETICA_BOLD_WIDTHS[b]);
        if r == 0 || bo == 0 {
            continue;
        }
        if bo < r {
            narrower.push(b);
        }
    }
    assert_eq!(narrower, vec![0x40, 0x9C], "unexpected bold/regular width inversion");
}

#[test]
fn the_bold_table_defines_every_glyph_the_regular_one_does() {
    for b in 0..256usize {
        if HELVETICA_WIDTHS[b] != 0 {
            assert_ne!(HELVETICA_BOLD_WIDTHS[b], 0, "bold width missing for byte {b:#04x}");
        }
    }
}

#[test]
fn a_name_with_extended_latin_folds_and_latin1_stays() {
    let (bytes, o) = encode_winansi("Śarmā and Müller");
    assert_eq!(bytes, b"Sarma and M\xFCller".to_vec());
    assert!(o.any_simplified && !o.any_marked);
    let (bytes2, o2) = encode_winansi("Łukasz");
    assert_eq!(bytes2, b"Lukasz".to_vec(), "a letter with no decomposition still folds");
    assert!(o2.any_simplified && !o2.any_marked);
}

#[test]
fn unrepresentable_text_is_marked_one_question_mark_per_character() {
    let (bytes, o) = encode_winansi("हिन्दी");
    assert_eq!(bytes, vec![b'?'; "हिन्दी".chars().count()]);
    assert!(o.any_marked && !o.any_simplified);
}

#[test]
fn every_latin_base_is_ascii() {
    for c in '\u{100}'..='\u{17F}' {
        if let Some(base) = latin_base(c) {
            assert!(base.is_ascii() && !base.is_empty(), "{c} -> {base:?}");
        }
    }
    assert_eq!(latin_base('\u{2264}'), Some("<="));
    assert_eq!(latin_base('a'), None);
}

#[test]
fn the_disclosures_encode_intact() {
    for note in [NOTE_SIMPLIFIED, NOTE_MARKED, NOTE_NO_GUIDELINES] {
        let (_, o) = encode_winansi(note);
        assert_eq!(o, EncodingOutcome::default(), "{note}");
    }
}

#[test]
fn oblique_measures_with_the_regular_table() {
    assert_eq!(widths_for(Face::Oblique)[b'A' as usize], HELVETICA_WIDTHS[b'A' as usize]);
    assert_eq!(widths_for(Face::Bold)[b'@' as usize], 975);
    assert_eq!(Face::Bold.resource(), "/F2");
}

#[test]
fn pdf_literals_escape_delimiters_and_high_bytes() {
    assert_eq!(escape_pdf(b"a(b)c\\"), b"a\\(b\\)c\\\\".to_vec());
    assert_eq!(escape_pdf(&[0xFC, 0x0A]), b"\\374\\012".to_vec());
    assert!(escape_pdf(&(0u8..=255).collect::<Vec<u8>>()).iter().all(|b| (0x20..=0x7E).contains(b)));
}

#[test]
fn a_written_pdf_has_its_header_trailer_and_a_true_xref_offset() {
    let pages = vec![b"BT (one) Tj ET".to_vec(), b"BT (two) Tj ET".to_vec()];
    let bytes = write_pdf(&pages);
    assert!(bytes.starts_with(b"%PDF-1.4\n"), "missing header");
    assert!(bytes.ends_with(b"%%EOF\n"), "missing trailer");
    let s = String::from_utf8_lossy(&bytes);
    let startxref: usize = s.rsplit("startxref").next().unwrap().trim().lines().next().unwrap().parse().unwrap();
    assert_eq!(&bytes[startxref..startxref + 4], b"xref", "startxref does not point at the xref table");
    assert_eq!(s.matches("/Type /Page ").count(), 2);
    assert!(s.contains("/Kids [6 0 R 8 0 R] /Count 2"), "{s}");
    assert!(s.contains("<< /Length 14 >>\nstream\nBT (one) Tj ET"), "{s}");
    // Every xref row names the byte where its object begins.
    let table = &s[startxref..];
    for (i, row) in table.lines().skip(3).take(9).enumerate() {
        let off: usize = row[..10].parse().unwrap();
        let want = format!("{} 0 obj\n", i + 1);
        assert!(s[off..].starts_with(&want), "row {i} points at {:?}", &s[off..off + 12]);
    }
}

#[test]
fn an_empty_document_still_has_one_structure() {
    let bytes = write_pdf(&[]);
    let s = String::from_utf8_lossy(&bytes);
    assert!(s.contains("/Kids [] /Count 0"), "{s}");
    assert!(s.contains("xref\n0 6\n"), "{s}");
}

// ---------------------------------------------------------------------------
// PDF layout
// ---------------------------------------------------------------------------

fn text_width_in(bytes: &[u8], size: f64, face: Face) -> f64 {
    let w = widths_for(face);
    bytes.iter().map(|b| w[*b as usize] as f64).sum::<f64>() * size / 1000.0
}

/// Every rectangle and every text position drawn, parsed back out of the
/// content streams.
fn ops(pdf: &[u8]) -> (Vec<(f64, f64, f64, f64)>, Vec<(f64, f64)>) {
    let text = String::from_utf8_lossy(pdf);
    let mut rects = Vec::new();
    let mut tms = Vec::new();
    for line in text.lines() {
        if let Some(rest) = line.strip_suffix(" re f") {
            let n: Vec<f64> = rest.split_whitespace().filter_map(|t| t.parse().ok()).collect();
            if n.len() == 4 {
                rects.push((n[0], n[1], n[2], n[3]));
            }
        }
        if line.starts_with("1 0 0 1 ") && line.ends_with(" Tm") {
            let n: Vec<f64> = line.split_whitespace().filter_map(|t| t.parse().ok()).collect();
            if n.len() >= 6 {
                tms.push((n[4], n[5]));
            }
        }
    }
    (rects, tms)
}

fn page_count(pdf: &[u8]) -> usize {
    String::from_utf8_lossy(pdf).matches("/Type /Page ").count()
}

/// Every decorated element: cover, three heading levels, paragraphs, flush
/// and quoted bullets, a note, a badge and page breaks.
fn specimen() -> Vec<Block> {
    vec![
        Block::Cover {
            title: "A Study of Something Measurable".into(),
            subtitle: "Gaply pre-submission review".into(),
            meta: vec![("Journal".into(), "PLOS Medicine".into()), ("Run".into(), "run-1".into())],
        },
        Block::Heading { text: "Summary".into(), level: 1 },
        Block::Paragraph { text: "One issue needs attention before submission; it is listed below with the passage it concerns.".into() },
        Block::Note { text: "Certainty tiers: mathematically certain findings are deterministic.".into() },
        Block::PageBreak,
        Block::Heading { text: "Issues by severity".into(), level: 1 },
        Block::Heading { text: "Major".into(), level: 2 },
        Block::Heading { text: "statistical rule failed: missing effect size".into(), level: 3 },
        Block::Badge { text: "Needs attention".into(), tone: Tone::Warn },
        Block::Paragraph {
            text: "A p-value is reported without an accompanying effect size, so the magnitude of the effect is not stated anywhere in this paragraph.".into(),
        },
        Block::Bullet { text: "Results, paragraph 2".into(), indent: 0 },
        Block::Bullet {
            text: "Recall improved with sleep (95% CI: 1.2 to 3.4; p = 0.03), and the effect persisted at follow-up.".into(),
            indent: 1,
        },
        Block::PageBreak,
        Block::Heading { text: "What was not examined".into(), level: 1 },
        Block::Paragraph { text: "Text similarity was not checked: no corpus was available.".into() },
    ]
}

#[test]
fn a_break_on_a_nearly_empty_page_does_not_start_a_new_one() {
    let blocks = vec![
        Block::Heading { text: "One".into(), level: 1 },
        Block::Paragraph { text: "A short paragraph.".into() },
        Block::PageBreak,
        Block::Heading { text: "Two".into(), level: 1 },
        Block::Paragraph { text: "Another short paragraph.".into() },
    ];
    let pdf = render_pdf(&blocks);
    let pages = String::from_utf8_lossy(&pdf).matches("/Type /Page ").count();
    assert_eq!(pages, 1, "two short sections must share a page");
}

#[test]
fn the_cover_always_stands_alone() {
    let blocks = vec![
        Block::Cover { title: "T".into(), subtitle: "S".into(), meta: vec![] },
        Block::Heading { text: "One".into(), level: 1 },
    ];
    let pdf = render_pdf(&blocks);
    let pages = String::from_utf8_lossy(&pdf).matches("/Type /Page ").count();
    assert_eq!(pages, 2, "the cover never shares a page");
}

#[test]
fn every_wrapped_line_fits_the_column() {
    for face in [Face::Regular, Face::Bold, Face::Oblique] {
        for size in [BODY_SIZE, H1_SIZE, QUOTATION_SIZE] {
            let (bytes, _) = encode_winansi(
                "A reasonably long line of manuscript prose with several polysyllabic                      words in it, long enough to wrap more than once at every size.",
            );
            let lines = wrap(&bytes, size, TEXT_W, face);
            assert!(lines.len() > 1);
            for l in lines {
                assert!(
                    text_width_in(&l, size as f64 / 100.0, face) <= TEXT_W as f64 / 100.0 + 0.01,
                    "line overflows at {size}pt in {face:?}"
                );
            }
        }
    }
}

#[test]
fn wrapping_drops_runs_of_spaces_and_keeps_an_overlong_word_whole() {
    let lines = wrap(b"  a   b  ", BODY_SIZE, TEXT_W, Face::Regular);
    assert_eq!(lines, vec![b"a b".to_vec()]);
    let long = vec![b'W'; 200];
    let lines = wrap(&long, BODY_SIZE, TEXT_W, Face::Regular);
    assert_eq!(lines, vec![long.clone()]);
    assert_eq!(wrap(b"", BODY_SIZE, TEXT_W, Face::Regular), vec![Vec::<u8>::new()]);
}

#[test]
fn every_rule_and_fill_of_the_specimen_sits_inside_the_page() {
    let (rects, _) = ops(&render_pdf(&specimen()));
    assert!(!rects.is_empty(), "rules and fills must be drawn");
    for (x, y, w, h) in rects {
        assert!(x >= 70.87 - 0.01, "rect starts left of the margin: x={x}");
        assert!(x + w <= 595.28 - 70.87 + 0.01, "rect runs past the right margin: {}", x + w);
        assert!(y >= 0.0, "rect below the page: y={y}");
        assert!(y + h <= 841.89 + 0.01, "rect above the page: {}", y + h);
        assert!(w > 0.0 && h > 0.0, "degenerate rect {w}x{h}");
    }
}

#[test]
fn every_baseline_of_the_specimen_is_on_the_page() {
    let (_, tms) = ops(&render_pdf(&specimen()));
    assert!(tms.len() > 20, "the specimen must produce real text");
    for (x, y) in tms {
        assert!(y > 0.0 && y < 841.89, "baseline off the page: y={y}");
        assert!(x >= 70.87 - 0.01 && x < 595.28 - 70.87, "text starts outside the column: x={x}");
    }
}

#[test]
fn the_specimen_paginates_cover_then_sections() {
    let pdf = render_pdf(&specimen());
    assert!(page_count(&pdf) >= 2);
    let s = String::from_utf8_lossy(&pdf);
    // The first content stream, object 7, is the cover's page alone.
    let cover = &s[s.find("\n7 0 obj\n").unwrap()..s.find("\n8 0 obj\n").unwrap()];
    assert!(cover.contains("(JOURNAL) Tj"), "metadata labels are set in capitals");
    assert!(!cover.contains("(Summary) Tj"), "the cover never shares a page");
    assert!(s.contains("(Issues by severity) Tj"));
    assert!(s.contains("(- Results, paragraph 2) Tj"), "a flush bullet carries its dash");
    assert!(s.contains("/F3 9.60 Tf"), "a quotation is set oblique at 9.6pt");
}

#[test]
fn furniture_sits_in_the_margins_with_the_page_number_flush_right() {
    let pdf = render_pdf(&specimen());
    let s = String::from_utf8_lossy(&pdf);
    // The cover's top rule, and the running header's hairline on page two.
    assert!(s.contains("0.078 0.078 0.078 rg\n70.87 773.86 453.54 2.20 re f\n"), "{s}");
    assert!(s.contains("0.910 0.910 0.910 rg\n70.87 758.86 453.54 0.50 re f\n"));
    assert!(s.contains("1 0 0 1 70.87 763.86 Tm\n(PublishReady report) Tj"));
    assert!(s.contains("/F1 7.40 Tf\n1 0 0 1 70.87 68.03 Tm\n(PublishReady) Tj"));
    // "1" is 556/1000 em; at 7.4pt that is 4.1144pt, so it starts at 520.30.
    assert!(s.contains("1 0 0 1 520.30 68.03 Tm\n(1) Tj"), "{s}");
    assert!(s.contains("1 0 0 1 520.30 68.03 Tm\n(2) Tj"));
}

#[test]
fn a_long_document_paginates_and_keeps_every_paragraph() {
    let blocks: Vec<Block> = (0..40)
        .map(|i| Block::Paragraph { text: format!("Distinct issue {i} zzq with a reasonably long title to force wrapping onto a second line of the column") })
        .collect();
    let pdf = render_pdf(&blocks);
    assert!(page_count(&pdf) > 1, "40 paragraphs must paginate");
    let s = String::from_utf8_lossy(&pdf);
    for i in 0..40 {
        assert!(s.contains(&format!("(Distinct issue {i} zzq")), "paragraph {i} was dropped");
    }
    let startxref: usize = s.rsplit("startxref").next().unwrap().trim().lines().next().unwrap().parse().unwrap();
    assert_eq!(&pdf[startxref..startxref + 4], b"xref");
}

#[test]
fn the_renderer_discloses_only_what_happened() {
    let plain = render_pdf(&[Block::Paragraph { text: "Ordinary title".into() }]);
    let s = String::from_utf8_lossy(&plain);
    assert!(!s.contains("(Some characters in this report were"), "simplified note fired with nothing simplified");
    assert!(!s.contains("(Some characters could not be displayed"), "marked note fired with nothing marked");

    let folded = render_pdf(&[Block::Paragraph { text: "Study by \u{141}ukasz".into() }]);
    let s = String::from_utf8_lossy(&folded);
    assert!(s.contains("Lukasz"), "\u{141} must fold to L");
    assert!(s.contains("(Some characters in this report were"));
    assert!(!s.contains("(Some characters could not be displayed"), "nothing was marked");

    let marked = render_pdf(&[Block::Paragraph { text: "\u{939}\u{93f}".into() }]);
    let s = String::from_utf8_lossy(&marked);
    assert!(s.contains("(??) Tj"));
    assert!(s.contains("(Some characters could not be displayed"));
}

#[test]
fn an_empty_document_renders_one_furnished_page() {
    let pdf = render_pdf(&[]);
    assert_eq!(page_count(&pdf), 1);
    assert!(String::from_utf8_lossy(&pdf).contains("(PublishReady) Tj"));
}

#[test]
fn wrapping_keeps_every_word_in_order() {
    let (bytes, _) = encode_winansi("Sample  size was not stated,   and the   primary outcome changed between registration and report.");
    let lines = wrap(&bytes, BODY_SIZE, 10_000, Face::Regular);
    assert!(lines.len() > 2, "a 100pt column must wrap this sentence");
    let words: Vec<&[u8]> = bytes.split(|b| *b == b' ').filter(|w| !w.is_empty()).collect();
    assert_eq!(lines.join(&b' '), words.join(&b' '));
}
