//! Presentation converter: slide XML to Markdown, and Markdown to slides.
use vstd::prelude::*;

use crate::archive::{
    total_text_len, zip_archive_of, zip_entry_names, zip_entry_text, zip_error_text, zip_names_of, zip_package,
    zip_text_of, PackStep,
};
use crate::error::ConversionError;
use crate::text::{
    matches_at,    chars_of, decimal, has_suffix, join, join_with, parse_usize, parse_usize_chars, push_decimal,
    strip_suffixes, strip_suffixes_chars, ends_with, copy_range, has_prefix, is_blank, is_blank_chars, lines, lines_of, pieces,
    push_all, push_str, replace, replace_chars, split_on, starts_with, string_of,
    strip_prefixes, strip_prefixes_chars, trim, trim_chars, views,
};

verus! {

// ---------------------------------------------------------------------------
// Import: text of one slide
/// The entity that stands for a character: `&amp;`, `&lt;`, `&gt;`, `&quot;`
/// and `&apos;`, indexed 0 to 4.
pub open spec fn entity(k: int) -> Seq<char> {
    if k == 0 {
        seq!['&', 'a', 'm', 'p', ';']
    } else if k == 1 {
        seq!['&', 'l', 't', ';']
    } else if k == 2 {
        seq!['&', 'g', 't', ';']
    } else if k == 3 {
        seq!['&', 'q', 'u', 'o', 't', ';']
    } else {
        seq!['&', 'a', 'p', 'o', 's', ';']
    }
}

/// The character that entity `k` stands for.
pub open spec fn entity_char(k: int) -> char {
    if k == 0 {
        '&'
    } else if k == 1 {
        '<'
    } else if k == 2 {
        '>'
    } else if k == 3 {
        '"'
    } else {
        '\''
    }
}

/// The first of the five entities that `s` starts with, if any.
pub open spec fn leading_entity(s: Seq<char>) -> int {
    if has_prefix(s, entity(0)) {
        0
    } else if has_prefix(s, entity(1)) {
        1
    } else if has_prefix(s, entity(2)) {
        2
    } else if has_prefix(s, entity(3)) {
        3
    } else if has_prefix(s, entity(4)) {
        4
    } else {
        -1
    }
}

/// The five standard XML entities decoded in one left-to-right pass: the text
/// a decoded entity yields is never read again.
pub open spec fn decode_entities(s: Seq<char>) -> Seq<char>
    decreases s.len(),
{
    if s.len() == 0 {
        Seq::empty()
    } else {
        let k = leading_entity(s);
        if 0 <= k {
            seq![entity_char(k)] + decode_entities(s.skip(entity(k).len() as int))
        } else {
            seq![s[0]] + decode_entities(s.skip(1))
        }
    }
}

/// The text of what follows one `<a:t>` marker: everything up to the next
/// `</a:t>`, decoded; nothing when no `</a:t>` follows.
pub open spec fn run_piece_text(q: Seq<char>) -> Seq<char> {
    let ps = pieces(q, "</a:t>"@);
    if ps.len() > 1 {
        decode_entities(ps[0])
    } else {
        Seq::empty()
    }
}

pub open spec fn runs_text(qs: Seq<Seq<char>>) -> Seq<char>
    decreases qs.len(),
{
    if qs.len() == 0 {
        Seq::empty()
    } else {
        runs_text(qs.drop_last()) + run_piece_text(qs.last())
    }
}

/// The trimmed text of one paragraph piece of slide XML.
pub open spec fn paragraph_text(p: Seq<char>) -> Seq<char> {
    trim(runs_text(pieces(p, "<a:t>"@)))
}

/// The texts of the paragraphs that are not blank, in order.
pub open spec fn kept_paragraphs(ps: Seq<Seq<char>>) -> Seq<Seq<char>>
    decreases ps.len(),
{
    if ps.len() == 0 {
        Seq::empty()
    } else {
        let rest = kept_paragraphs(ps.drop_last());
        let t = paragraph_text(ps.last());
        if t.len() > 0 {
            rest.push(t)
        } else {
            rest
        }
    }
}

/// The non-blank paragraph texts of a slide, in document order.
pub open spec fn slide_paragraphs(xml: Seq<char>) -> Seq<Seq<char>> {
    kept_paragraphs(pieces(xml, "<a:p>"@))
}

/// The first paragraph as a `# ` heading line, each later one as a line after
/// a blank line; no line break after the last of those.
pub open spec fn slide_lines_text(ps: Seq<Seq<char>>) -> Seq<char>
    decreases ps.len(),
{
    if ps.len() == 0 {
        Seq::empty()
    } else if ps.len() == 1 {
        "# "@ + ps[0] + "\n"@
    } else if ps.len() == 2 {
        slide_lines_text(ps.drop_last()) + "\n"@ + ps.last()
    } else {
        slide_lines_text(ps.drop_last()) + "\n\n"@ + ps.last()
    }
}

/// The Markdown for the XML of one slide.
pub open spec fn slide_text(xml: Seq<char>) -> Seq<char> {
    slide_lines_text(slide_paragraphs(xml))
}

proof fn lemma_literal_lengths()
    ensures
        "&amp;"@.len() == 5,
        "&lt;"@.len() == 4,
        "&gt;"@.len() == 4,
        "&quot;"@.len() == 6,
        "&apos;"@.len() == 6,
        "</a:t>"@.len() == 6,
        "<a:t>"@.len() == 5,
        "<a:p>"@.len() == 5,
        "&"@.len() == 1,
        "<"@.len() == 1,
        ">"@.len() == 1,
        "\""@.len() == 1,
        "'"@.len() == 1,
{
    reveal_strlit("&amp;");
    reveal_strlit("&lt;");
    reveal_strlit("&gt;");
    reveal_strlit("&quot;");
    reveal_strlit("&apos;");
    reveal_strlit("</a:t>");
    reveal_strlit("<a:t>");
    reveal_strlit("<a:p>");
    reveal_strlit("&");
    reveal_strlit("<");
    reveal_strlit(">");
    reveal_strlit("\"");
    reveal_strlit("'");
}

fn replace_literal(s: &Vec<char>, from: &str, to: &str) -> (r: Vec<char>)
    requires
        from@.len() > 0,
    ensures
        r@ == replace(s@, from@, to@),
{
    let f = chars_of(from);
    let t = chars_of(to);
    replace_chars(s, &f, &t)
}

fn entity_chars(k: usize) -> (r: Vec<char>)
    requires
        k < 5,
    ensures
        r@ == entity(k as int),
{
    let r: Vec<char> = if k == 0 {
        vec!['&', 'a', 'm', 'p', ';']
    } else if k == 1 {
        vec!['&', 'l', 't', ';']
    } else if k == 2 {
        vec!['&', 'g', 't', ';']
    } else if k == 3 {
        vec!['&', 'q', 'u', 'o', 't', ';']
    } else {
        vec!['&', 'a', 'p', 'o', 's', ';']
    };
    assert(r@ =~= entity(k as int));
    r
}

fn entity_char_of(k: usize) -> (c: char)
    requires
        k < 5,
    ensures
        c == entity_char(k as int),
{
    if k == 0 {
        '&'
    } else if k == 1 {
        '<'
    } else if k == 2 {
        '>'
    } else if k == 3 {
        '"'
    } else {
        '\''
    }
}

/// Which entity stands at position `i`, as [`leading_entity`] of the rest.
fn entity_at(s: &Vec<char>, i: usize) -> (r: i64)
    requires
        i <= s.len(),
    ensures
        r == leading_entity(s@.skip(i as int)),
{
    let mut k: usize = 0;
    while k < 5
        invariant
            k <= 5,
            i <= s.len(),
            forall|j: int| 0 <= j < k ==> !has_prefix(#[trigger] s@.skip(i as int), entity(j)),
        decreases 5 - k,
    {
        let e = entity_chars(k);
        let ghost rest = s@.skip(i as int);
        if e.len() <= s.len() - i {
            let m = matches_at(s, &e, i);
            assert(rest.take(e@.len() as int) =~= s@.subrange(i as int, i + e@.len()));
            if m {
                return k as i64;
            }
        }
        k = k + 1;
    }
    -1
}

/// Decodes `&amp; &lt; &gt; &quot; &apos;` in one pass.
pub fn decode_entities_chars(s: &Vec<char>) -> (r: Vec<char>)
    ensures
        r@ == decode_entities(s@),
{
    let mut out: Vec<char> = Vec::new();
    let mut i: usize = 0;
    assert(s@.skip(0) =~= s@);
    while i < s.len()
        invariant
            i <= s.len(),
            out@ + decode_entities(s@.skip(i as int)) == decode_entities(s@),
        decreases s.len() - i,
    {
        let rest = Ghost(s@.skip(i as int));
        let k = entity_at(s, i);
        if k >= 0 {
            let e = entity_chars(k as usize);
            out.push(entity_char_of(k as usize));
            assert(rest@.skip(e@.len() as int) =~= s@.skip(i + e@.len()));
            i = i + e.len();
        } else {
            out.push(s[i]);
            assert(rest@.skip(1) =~= s@.skip(i + 1));
            i = i + 1;
        }
        assert(out@ + decode_entities(s@.skip(i as int)) =~= decode_entities(s@));
    }
    assert(s@.skip(i as int) =~= Seq::<char>::empty());
    assert(out@ + Seq::<char>::empty() =~= out@);
    out
}

fn run_piece_text_chars(q: &Vec<char>) -> (r: Vec<char>)
    ensures
        r@ == run_piece_text(q@),
{
    proof {
        lemma_literal_lengths();
    }
    let close = chars_of("</a:t>");
    let ps = split_on(q, &close);
    if ps.len() > 1 {
        assert(views(ps@)[0] == ps@[0]@);
        decode_entities_chars(&ps[0])
    } else {
        Vec::new()
    }
}

fn paragraph_text_chars(p: &Vec<char>) -> (r: Vec<char>)
    ensures
        r@ == paragraph_text(p@),
{
    proof {
        lemma_literal_lengths();
    }
    let open = chars_of("<a:t>");
    let qs = split_on(p, &open);
    let ghost vq = views(qs@);
    let mut acc: Vec<char> = Vec::new();
    let mut i: usize = 0;
    while i < qs.len()
        invariant
            i <= qs.len(),
            vq == views(qs@),
            acc@ == runs_text(vq.take(i as int)),
        decreases qs.len() - i,
    {
        let t = run_piece_text_chars(&qs[i]);
        push_all(&mut acc, &t);
        assert(vq.take(i + 1).drop_last() =~= vq.take(i as int));
        assert(vq[i as int] == qs@[i as int]@);
        i = i + 1;
    }
    assert(vq.take(qs.len() as int) =~= vq);
    trim_chars(&acc)
}

fn render_slide_lines(ps: &Vec<Vec<char>>) -> (r: Vec<char>)
    ensures
        r@ == slide_lines_text(views(ps@)),
{
    let ghost vp = views(ps@);
    let mut out: Vec<char> = Vec::new();
    let mut i: usize = 0;
    while i < ps.len()
        invariant
            i <= ps.len(),
            vp == views(ps@),
            out@ == slide_lines_text(vp.take(i as int)),
        decreases ps.len() - i,
    {
        assert(vp.take(i + 1).drop_last() =~= vp.take(i as int));
        assert(vp[i as int] == ps@[i as int]@);
        if i == 0 {
            push_str(&mut out, "# ");
            push_all(&mut out, &ps[i]);
            push_str(&mut out, "\n");
            assert(vp.take(1)[0] == vp[0]);
        } else if i == 1 {
            push_str(&mut out, "\n");
            push_all(&mut out, &ps[i]);
        } else {
            push_str(&mut out, "\n\n");
            push_all(&mut out, &ps[i]);
        }
        i = i + 1;
    }
    assert(vp.take(ps.len() as int) =~= vp);
    out
}

/// The Markdown for the XML of one slide: the text between each `<a:t>` and the
/// next `</a:t>`, entities decoded, gathered per `<a:p>` paragraph and trimmed;
/// the first non-blank paragraph becomes a `# ` heading line and each later one
/// is a line after a blank line (the heading line ends with a line break, the
/// last body line does not). Empty when the slide has no text.
pub fn extract_text_from_slide_xml(xml: &str) -> (r: String)
    ensures
        r@ == slide_text(xml@),
{
    proof {
        lemma_literal_lengths();
    }
    let x = chars_of(xml);
    let open = chars_of("<a:p>");
    let paras = split_on(&x, &open);
    let ghost vp = views(paras@);
    let mut kept: Vec<Vec<char>> = Vec::new();
    let mut i: usize = 0;
    while i < paras.len()
        invariant
            i <= paras.len(),
            vp == views(paras@),
            views(kept@) == kept_paragraphs(vp.take(i as int)),
        decreases paras.len() - i,
    {
        let t = paragraph_text_chars(&paras[i]);
        assert(vp.take(i + 1).drop_last() =~= vp.take(i as int));
        assert(vp[i as int] == paras@[i as int]@);
        if t.len() > 0 {
            let ghost before = kept@;
            kept.push(t);
            assert(views(kept@) =~= views(before).push(t@));
        }
        i = i + 1;
    }
    assert(vp.take(paras.len() as int) =~= vp);
    let out = render_slide_lines(&kept);
    string_of(&out)
}

// ---------------------------------------------------------------------------
// Export: escaping
/// `&`, `<`, `>`, `"` and `'` replaced by their entities, `&` first.
pub open spec fn xml_escaped(s: Seq<char>) -> Seq<char> {
    replace(
        replace(
            replace(replace(replace(s, "&"@, "&amp;"@), "<"@, "&lt;"@), ">"@, "&gt;"@),
            "\""@,
            "&quot;"@,
        ),
        "'"@,
        "&apos;"@,
    )
}

pub fn xml_escape_chars(s: &Vec<char>) -> (r: Vec<char>)
    ensures
        r@ == xml_escaped(s@),
{
    proof {
        lemma_literal_lengths();
    }
    let a = replace_literal(s, "&", "&amp;");
    let b = replace_literal(&a, "<", "&lt;");
    let c = replace_literal(&b, ">", "&gt;");
    let d = replace_literal(&c, "\"", "&quot;");
    replace_literal(&d, "'", "&apos;")
}

/// Text made safe to stand inside XML character data and attribute values.
pub fn xml_escape(s: &str) -> (r: String)
    ensures
        r@ == xml_escaped(s@),
{
    let c = chars_of(s);
    let e = xml_escape_chars(&c);
    string_of(&e)
}

// ---------------------------------------------------------------------------
// Export: slides from Markdown
/// One slide: a title and its body lines.
pub struct Slide {
    pub title: String,
    pub body: Vec<String>,
}

pub open spec fn string_views(v: Seq<String>) -> Seq<Seq<char>> {
    v.map_values(|s: String| s@)
}

impl View for Slide {
    type V = (Seq<char>, Seq<Seq<char>>);

    open spec fn view(&self) -> (Seq<char>, Seq<Seq<char>>) {
        (self.title@, string_views(self.body@))
    }
}

pub open spec fn slide_views(v: Seq<Slide>) -> Seq<(Seq<char>, Seq<Seq<char>>)> {
    v.map_values(|s: Slide| s@)
}

/// A top-level heading line: `# ` at its start.
pub open spec fn is_slide_heading(line: Seq<char>) -> bool {
    has_prefix(line, "# "@)
}

/// Slides closed so far, the open slide's title, and its body lines.
pub open spec fn split_state(lines: Seq<Seq<char>>) -> (
    Seq<(Seq<char>, Seq<Seq<char>>)>,
    Seq<char>,
    Seq<Seq<char>>,
)
    decreases lines.len(),
{
    if lines.len() == 0 {
        (Seq::empty(), Seq::empty(), Seq::empty())
    } else {
        let (s, t, b) = split_state(lines.drop_last());
        let line = lines.last();
        if is_slide_heading(line) {
            (
                if t.len() > 0 || b.len() > 0 {
                    s.push((t, b))
                } else {
                    s
                },
                strip_prefixes(line, "# "@),
                Seq::empty(),
            )
        } else if !is_blank(line) {
            (s, t, b.push(line))
        } else {
            (s, t, b)
        }
    }
}

/// The slides that the lines split into: one per heading, with the non-blank
/// lines up to the next heading as body; content before the first heading forms
/// a slide with an empty title.
pub open spec fn split_slides(lines: Seq<Seq<char>>) -> Seq<(Seq<char>, Seq<Seq<char>>)> {
    let (s, t, b) = split_state(lines);
    if t.len() > 0 || b.len() > 0 {
        s.push((t, b))
    } else {
        s
    }
}

pub open spec fn nonblank(lines: Seq<Seq<char>>) -> Seq<Seq<char>>
    decreases lines.len(),
{
    if lines.len() == 0 {
        Seq::empty()
    } else if is_blank(lines.last()) {
        nonblank(lines.drop_last())
    } else {
        nonblank(lines.drop_last()).push(lines.last())
    }
}

pub open spec fn any_heading(lines: Seq<Seq<char>>) -> bool {
    exists|i: int| 0 <= i < lines.len() && is_slide_heading(#[trigger] lines[i])
}

/// The slides of a Markdown document. Without any top-level heading (or when
/// the headings give no slide), the whole document is one slide titled
/// `Presentation` whose body is every non-blank line.
pub open spec fn slides_of(md: Seq<char>) -> Seq<(Seq<char>, Seq<Seq<char>>)> {
    let ls = lines(md);
    let s = split_slides(ls);
    if !any_heading(ls) || s.len() == 0 {
        seq![("Presentation"@, nonblank(ls))]
    } else {
        s
    }
}

fn to_string_vec(v: &Vec<Vec<char>>) -> (r: Vec<String>)
    ensures
        string_views(r@) == views(v@),
{
    let mut out: Vec<String> = Vec::new();
    let mut i: usize = 0;
    while i < v.len()
        invariant
            i <= v.len(),
            string_views(out@) == views(v@).take(i as int),
        decreases v.len() - i,
    {
        let s = string_of(&v[i]);
        let ghost before = out@;
        out.push(s);
        assert(string_views(out@) =~= string_views(before).push(s@));
        assert(views(v@)[i as int] == v@[i as int]@);
        assert(string_views(out@) =~= views(v@).take(i + 1));
        i = i + 1;
    }
    assert(views(v@).take(v.len() as int) =~= views(v@));
    out
}

fn make_slide(title: &Vec<char>, body: &Vec<Vec<char>>) -> (r: Slide)
    ensures
        r@ == (title@, views(body@)),
{
    Slide { title: string_of(title), body: to_string_vec(body) }
}

/// Splits Markdown into slides at top-level headings (`# `, not `## `).
pub fn slides_from_markdown(markdown: &str) -> (r: Vec<Slide>)
    ensures
        slide_views(r@) == slides_of(markdown@),
        r@.len() >= 1,
        !any_heading(lines(markdown@)) ==> r@.len() == 1 && r@[0].title@ == "Presentation"@,
{
    let md = chars_of(markdown);
    let ls = lines_of(&md);
    let ghost vl = views(ls@);
    let hash = chars_of("# ");
    let mut slides: Vec<Slide> = Vec::new();
    let mut title: Vec<char> = Vec::new();
    let mut body: Vec<Vec<char>> = Vec::new();
    let mut kept: Vec<Vec<char>> = Vec::new();
    let mut seen: bool = false;
    let mut i: usize = 0;
    while i < ls.len()
        invariant
            i <= ls.len(),
            vl == views(ls@),
            vl == lines(md@),
            hash@ == "# "@,
            split_state(vl.take(i as int)) == (slide_views(slides@), title@, views(body@)),
            views(kept@) == nonblank(vl.take(i as int)),
            seen == any_heading(vl.take(i as int)),
        decreases ls.len() - i,
    {
        let ghost prev = vl.take(i as int);
        let ghost cur = vl.take(i + 1);
        assert(cur.drop_last() =~= prev);
        assert(cur.last() == ls@[i as int]@);
        let line = &ls[i];
        let blank = is_blank_chars(line);
        if !blank {
            let ghost kb = kept@;
            let c = copy_range(line, 0, line.len());
            assert(c@ =~= line@);
            kept.push(c);
            assert(views(kept@) =~= views(kb).push(line@));
        }
        if starts_with(line, &hash) {
            if title.len() > 0 || body.len() > 0 {
                let ghost sb = slides@;
                let s = make_slide(&title, &body);
                slides.push(s);
                assert(slide_views(slides@) =~= slide_views(sb).push((title@, views(body@))));
            }
            title = strip_prefixes_chars(line, &hash);
            body = Vec::new();
            assert(views(body@) =~= Seq::<Seq<char>>::empty());
            proof {
                assert(is_slide_heading(cur[i as int]));
            }
            seen = true;
        } else {
            if !blank {
                let ghost bb = body@;
                let c = copy_range(line, 0, line.len());
                assert(c@ =~= line@);
                body.push(c);
                assert(views(body@) =~= views(bb).push(line@));
            }
            proof {
                if any_heading(cur) {
                    let k = choose|k: int| 0 <= k < cur.len() && is_slide_heading(#[trigger] cur[k]);
                    if k < i {
                        assert(prev[k] == cur[k]);
                    }
                }
                if any_heading(prev) {
                    let k = choose|k: int| 0 <= k < prev.len() && is_slide_heading(#[trigger] prev[k]);
                    assert(prev[k] == cur[k]);
                }
            }
        }
        proof {
            if seen && !any_heading(prev) {
                assert(is_slide_heading(cur[i as int]));
            }
            if any_heading(prev) {
                let k = choose|k: int| 0 <= k < prev.len() && is_slide_heading(#[trigger] prev[k]);
                assert(prev[k] == cur[k]);
            }
        }
        i = i + 1;
    }
    assert(vl.take(ls.len() as int) =~= vl);
    if title.len() > 0 || body.len() > 0 {
        let ghost sb = slides@;
        let s = make_slide(&title, &body);
        slides.push(s);
        assert(slide_views(slides@) =~= slide_views(sb).push((title@, views(body@))));
    }
    if !seen || slides.len() == 0 {
        let t = chars_of("Presentation");
        let s = make_slide(&t, &kept);
        let r = vec![s];
        assert(slide_views(r@) =~= seq![("Presentation"@, nonblank(vl))]);
        r
    } else {
        assert(slide_views(slides@).len() == slides@.len());
        slides
    }
}

// ---------------------------------------------------------------------------
// Export: the package
pub const CONTENT_TYPES_HEAD: &'static str = r#"<?xml version="1.0" encoding="UTF-8" standalone="yes"?>
<Types xmlns="http://schemas.openxmlformats.org/package/2006/content-types">
  <Default Extension="rels" ContentType="application/vnd.openxmlformats-package.relationships+xml"/>
  <Default Extension="xml" ContentType="application/xml"/>
  <Override PartName="/ppt/presentation.xml" ContentType="application/vnd.openxmlformats-officedocument.presentationml.presentation.main+xml"/>
  <Override PartName="/ppt/slideLayouts/slideLayout1.xml" ContentType="application/vnd.openxmlformats-officedocument.presentationml.slideLayout+xml"/>
  <Override PartName="/ppt/slideMasters/slideMaster1.xml" ContentType="application/vnd.openxmlformats-officedocument.presentationml.slideMaster+xml"/>
"#;

pub const CONTENT_TYPE_SLIDE_OPEN: &'static str = r#"  <Override PartName="/ppt/slides/slide"#;

pub const CONTENT_TYPE_SLIDE_CLOSE: &'static str = r#".xml" ContentType="application/vnd.openxmlformats-officedocument.presentationml.slide+xml"/>
"#;

pub const CONTENT_TYPES_END: &'static str = "</Types>";

pub const ROOT_RELS: &'static str = r#"<?xml version="1.0" encoding="UTF-8" standalone="yes"?>
<Relationships xmlns="http://schemas.openxmlformats.org/package/2006/relationships">
  <Relationship Id="rId1" Type="http://schemas.openxmlformats.org/officeDocument/2006/relationships/officeDocument" Target="ppt/presentation.xml"/>
</Relationships>"#;

pub const PRESENTATION_RELS_HEAD: &'static str = r#"<?xml version="1.0" encoding="UTF-8" standalone="yes"?>
<Relationships xmlns="http://schemas.openxmlformats.org/package/2006/relationships">
  <Relationship Id="rId1" Type="http://schemas.openxmlformats.org/officeDocument/2006/relationships/slideMaster" Target="slideMasters/slideMaster1.xml"/>
"#;

pub const SLIDE_REL_OPEN: &'static str = r#"  <Relationship Id="rId"#;

pub const SLIDE_REL_MID: &'static str = r#"" Type="http://schemas.openxmlformats.org/officeDocument/2006/relationships/slide" Target="slides/slide"#;

pub const SLIDE_REL_CLOSE: &'static str = r#".xml"/>
"#;

pub const RELATIONSHIPS_END: &'static str = "</Relationships>";

pub const PRESENTATION_HEAD: &'static str = r#"<?xml version="1.0" encoding="UTF-8" standalone="yes"?>
<p:presentation xmlns:p="http://schemas.openxmlformats.org/presentationml/2006/main"
  xmlns:r="http://schemas.openxmlformats.org/officeDocument/2006/relationships"
  xmlns:a="http://schemas.openxmlformats.org/drawingml/2006/main">
  <p:sldMasterIdLst>
    <p:sldMasterId id="2147483648" r:id="rId1"/>
  </p:sldMasterIdLst>
  <p:sldIdLst>
"#;

pub const SLIDE_ID_OPEN: &'static str = r#"    <p:sldId id=""#;

pub const SLIDE_ID_MID: &'static str = r#"" r:id="rId"#;

pub const SLIDE_ID_CLOSE: &'static str = r#""/>
"#;

pub const PRESENTATION_TAIL: &'static str = r#"  </p:sldIdLst>
  <p:sldSz cx="9144000" cy="6858000"/>
  <p:notesSz cx="6858000" cy="9144000"/>
</p:presentation>"#;

pub const SLIDE_MASTER: &'static str = r#"<?xml version="1.0" encoding="UTF-8" standalone="yes"?>
<p:sldMaster xmlns:p="http://schemas.openxmlformats.org/presentationml/2006/main"
  xmlns:a="http://schemas.openxmlformats.org/drawingml/2006/main"
  xmlns:r="http://schemas.openxmlformats.org/officeDocument/2006/relationships">
  <p:cSld><p:spTree><p:nvGrpSpPr><p:cNvPr id="1" name=""/><p:cNvGrpSpPr/><p:nvPr/></p:nvGrpSpPr><p:grpSpPr/></p:spTree></p:cSld>
  <p:txStyles><p:titleStyle/><p:bodyStyle/><p:otherStyle/></p:txStyles>
  <p:sldLayoutIdLst><p:sldLayoutId id="2147483649" r:id="rId1"/></p:sldLayoutIdLst>
</p:sldMaster>"#;

pub const SLIDE_MASTER_RELS: &'static str = r#"<?xml version="1.0" encoding="UTF-8" standalone="yes"?>
<Relationships xmlns="http://schemas.openxmlformats.org/package/2006/relationships">
  <Relationship Id="rId1" Type="http://schemas.openxmlformats.org/officeDocument/2006/relationships/slideLayout" Target="../slideLayouts/slideLayout1.xml"/>
</Relationships>"#;

pub const SLIDE_LAYOUT: &'static str = r#"<?xml version="1.0" encoding="UTF-8" standalone="yes"?>
<p:sldLayout xmlns:p="http://schemas.openxmlformats.org/presentationml/2006/main"
  xmlns:a="http://schemas.openxmlformats.org/drawingml/2006/main"
  xmlns:r="http://schemas.openxmlformats.org/officeDocument/2006/relationships" type="blank">
  <p:cSld name="Blank"><p:spTree><p:nvGrpSpPr><p:cNvPr id="1" name=""/><p:cNvGrpSpPr/><p:nvPr/></p:nvGrpSpPr><p:grpSpPr/></p:spTree></p:cSld>
</p:sldLayout>"#;

pub const SLIDE_LAYOUT_RELS: &'static str = r#"<?xml version="1.0" encoding="UTF-8" standalone="yes"?>
<Relationships xmlns="http://schemas.openxmlformats.org/package/2006/relationships">
  <Relationship Id="rId1" Type="http://schemas.openxmlformats.org/officeDocument/2006/relationships/slideMaster" Target="../slideMasters/slideMaster1.xml"/>
</Relationships>"#;

/// The relationships of every slide: its layout.
pub const SLIDE_RELS: &'static str = r#"<?xml version="1.0" encoding="UTF-8" standalone="yes"?>
<Relationships xmlns="http://schemas.openxmlformats.org/package/2006/relationships">
  <Relationship Id="rId1" Type="http://schemas.openxmlformats.org/officeDocument/2006/relationships/slideLayout" Target="../slideLayouts/slideLayout1.xml"/>
</Relationships>"#;

pub const SLIDE_OPEN: &'static str = r#"<?xml version="1.0" encoding="UTF-8" standalone="yes"?>
<p:sld xmlns:p="http://schemas.openxmlformats.org/presentationml/2006/main"
  xmlns:a="http://schemas.openxmlformats.org/drawingml/2006/main"
  xmlns:r="http://schemas.openxmlformats.org/officeDocument/2006/relationships">
  <p:cSld>
    <p:spTree>
      <p:nvGrpSpPr><p:cNvPr id="1" name=""/><p:cNvGrpSpPr/><p:nvPr/></p:nvGrpSpPr>
      <p:grpSpPr/>
      <p:sp>
        <p:nvSpPr><p:cNvPr id="2" name="Title"/><p:cNvSpPr><a:spLocks noGrp="1"/></p:cNvSpPr><p:nvPr><p:ph type="title"/></p:nvPr></p:nvSpPr>
        <p:spPr><a:xfrm><a:off x="457200" y="274638"/><a:ext cx="8229600" cy="1143000"/></a:xfrm></p:spPr>
        <p:txBody><a:bodyPr/><a:lstStyle/>
          <a:p><a:r><a:rPr lang="en-US" dirty="0"/><a:t>"#;

pub const SLIDE_MID: &'static str = r#"</a:t></a:r></a:p>
        </p:txBody>
      </p:sp>
      <p:sp>
        <p:nvSpPr><p:cNvPr id="3" name="Body"/><p:cNvSpPr><a:spLocks noGrp="1"/></p:cNvSpPr><p:nvPr><p:ph idx="1"/></p:nvPr></p:nvSpPr>
        <p:spPr><a:xfrm><a:off x="457200" y="1600200"/><a:ext cx="8229600" cy="4525963"/></a:xfrm></p:spPr>
        <p:txBody><a:bodyPr/><a:lstStyle/>
          <a:p><a:r><a:rPr lang="en-US" dirty="0"/><a:t>"#;

pub const SLIDE_CLOSE: &'static str = r#"</a:t></a:r></a:p>
        </p:txBody>
      </p:sp>
    </p:spTree>
  </p:cSld>
</p:sld>"#;

/// First id of the slide list.
pub const FIRST_SLIDE_ID: u64 = 256;

/// Content-type entries of slides `1..=k`.
pub open spec fn content_type_entries(k: nat) -> Seq<char>
    decreases k,
{
    if k == 0 {
        Seq::empty()
    } else {
        content_type_entries((k - 1) as nat) + CONTENT_TYPE_SLIDE_OPEN@ + decimal(k)
            + CONTENT_TYPE_SLIDE_CLOSE@
    }
}

/// Relationship entries of slides `1..=k`: slide `j` has id `rId{j+1}`.
pub open spec fn slide_rel_entries(k: nat) -> Seq<char>
    decreases k,
{
    if k == 0 {
        Seq::empty()
    } else {
        slide_rel_entries((k - 1) as nat) + SLIDE_REL_OPEN@ + decimal(k + 1) + SLIDE_REL_MID@
            + decimal(k) + SLIDE_REL_CLOSE@
    }
}

/// Slide-list entries of slides `1..=k`: slide `j` has id `255 + j`, sequential
/// from the fixed base, and relationship `rId{j+1}`.
pub open spec fn slide_id_entries(k: nat) -> Seq<char>
    decreases k,
{
    if k == 0 {
        Seq::empty()
    } else {
        slide_id_entries((k - 1) as nat) + SLIDE_ID_OPEN@ + decimal(
            (FIRST_SLIDE_ID - 1 + k) as nat,
        ) + SLIDE_ID_MID@ + decimal(k + 1) + SLIDE_ID_CLOSE@
    }
}

/// The XML of one slide: escaped title, and the escaped body lines joined by `\n`.
pub open spec fn slide_xml(s: (Seq<char>, Seq<Seq<char>>)) -> Seq<char> {
    SLIDE_OPEN@ + xml_escaped(s.0) + SLIDE_MID@ + xml_escaped(join(s.1, "\n"@)) + SLIDE_CLOSE@
}

/// The path of slide `k`'s relationship part.
pub open spec fn rels_path(k: nat) -> Seq<char> {
    "ppt/slides/_rels/slide"@ + decimal(k) + ".xml.rels"@
}

/// The path of slide `k`'s part.
pub open spec fn slide_path(k: nat) -> Seq<char> {
    "ppt/slides/slide"@ + decimal(k) + ".xml"@
}

/// The relationship part and the slide part of each slide, numbered from 1.
pub open spec fn slide_parts(s: Seq<(Seq<char>, Seq<Seq<char>>)>) -> Seq<(Seq<char>, Seq<char>)>
    decreases s.len(),
{
    if s.len() == 0 {
        Seq::empty()
    } else {
        let k = s.len();
        slide_parts(s.drop_last()) + seq![
            (rels_path(k), SLIDE_RELS@),
            (slide_path(k), slide_xml(s.last())),
        ]
    }
}

/// Every part of the presentation package, path and content, in writing order.
pub open spec fn package_parts(s: Seq<(Seq<char>, Seq<Seq<char>>)>) -> Seq<(Seq<char>, Seq<char>)> {
    let n = s.len();
    seq![
        ("[Content_Types].xml"@, CONTENT_TYPES_HEAD@ + content_type_entries(n) + CONTENT_TYPES_END@),
        ("_rels/.rels"@, ROOT_RELS@),
        ("ppt/_rels/presentation.xml.rels"@, PRESENTATION_RELS_HEAD@ + slide_rel_entries(n)
            + RELATIONSHIPS_END@),
        ("ppt/presentation.xml"@, PRESENTATION_HEAD@ + slide_id_entries(n) + PRESENTATION_TAIL@),
        ("ppt/slideMasters/slideMaster1.xml"@, SLIDE_MASTER@),
        ("ppt/slideMasters/_rels/slideMaster1.xml.rels"@, SLIDE_MASTER_RELS@),
        ("ppt/slideLayouts/slideLayout1.xml"@, SLIDE_LAYOUT@),
        ("ppt/slideLayouts/_rels/slideLayout1.xml.rels"@, SLIDE_LAYOUT_RELS@),
    ] + slide_parts(s)
}

proof fn lemma_decimal_nonempty(n: nat)
    ensures
        decimal(n).len() >= 1,
    decreases n,
{
    if n >= 10 {
        lemma_decimal_nonempty(n / 10);
    }
}

pub open spec fn pow10(m: nat) -> nat
    decreases m,
{
    if m == 0 {
        1
    } else {
        10 * pow10((m - 1) as nat)
    }
}

proof fn lemma_decimal_short(n: nat, m: nat)
    requires
        1 <= m,
        n < pow10(m),
    ensures
        decimal(n).len() <= m,
    decreases n,
{
    if n >= 10 {
        if m == 1 {
            assert(pow10(1) == 10 * pow10(0));
        }
        let p = pow10((m - 1) as nat);
        assert(pow10(m) == 10 * p);
        assert(n / 10 < p) by (nonlinear_arith)
            requires
                n < 10 * p,
        ;
        lemma_decimal_short(n / 10, (m - 1) as nat);
    }
}

proof fn lemma_digit_injective(a: nat, b: nat)
    requires
        a < 10,
        b < 10,
        crate::text::digit(a) == crate::text::digit(b),
    ensures
        a == b,
{
    assert(a == 0 || a == 1 || a == 2 || a == 3 || a == 4 || a == 5 || a == 6 || a == 7 || a == 8
        || a == 9);
    assert(b == 0 || b == 1 || b == 2 || b == 3 || b == 4 || b == 5 || b == 6 || b == 7 || b == 8
        || b == 9);
}

proof fn lemma_decimal_injective(a: nat, b: nat)
    requires
        decimal(a) == decimal(b),
    ensures
        a == b,
    decreases a,
{
    lemma_decimal_nonempty(a / 10);
    lemma_decimal_nonempty(b / 10);
    if a >= 10 && b >= 10 {
        assert(decimal(a).drop_last() =~= decimal(a / 10));
        assert(decimal(b).drop_last() =~= decimal(b / 10));
        lemma_decimal_injective(a / 10, b / 10);
        assert(decimal(a).last() == crate::text::digit(a % 10));
        assert(decimal(b).last() == crate::text::digit(b % 10));
        lemma_digit_injective(a % 10, b % 10);
        assert(a == 10 * (a / 10) + a % 10);
        assert(b == 10 * (b / 10) + b % 10);
    } else if a < 10 && b < 10 {
        assert(decimal(a)[0] == crate::text::digit(a));
        assert(decimal(b)[0] == crate::text::digit(b));
        lemma_digit_injective(a, b);
    } else if a < 10 {
        assert(decimal(a).len() == 1);
        assert(decimal(b).len() == decimal(b / 10).len() + 1);
    } else {
        assert(decimal(b).len() == 1);
        assert(decimal(a).len() == decimal(a / 10).len() + 1);
    }
}

/// Two names made of the same prefix and suffix around decimals are equal
/// only for equal numbers.
proof fn lemma_numbered_names(p: Seq<char>, x: Seq<char>, a: nat, b: nat)
    requires
        p + decimal(a) + x == p + decimal(b) + x,
    ensures
        a == b,
{
    let da = decimal(a);
    let db = decimal(b);
    assert((p + da + x).len() == (p + db + x).len());
    assert((p + da + x).subrange(p.len() as int, (p.len() + da.len()) as int) =~= da);
    assert((p + db + x).subrange(p.len() as int, (p.len() + db.len()) as int) =~= db);
    lemma_decimal_injective(a, b);
}

proof fn lemma_slide_part_names(s: Seq<(Seq<char>, Seq<Seq<char>>)>)
    ensures
        slide_parts(s).len() == 2 * s.len(),
        forall|i: int|
            0 <= i < 2 * s.len() ==> (#[trigger] slide_parts(s)[i]).0 == if i % 2 == 0 {
                rels_path((i / 2 + 1) as nat)
            } else {
                slide_path((i / 2 + 1) as nat)
            },
    decreases s.len(),
{
    if s.len() > 0 {
        lemma_slide_part_names(s.drop_last());
        let prev = slide_parts(s.drop_last());
        assert forall|i: int| 0 <= i < 2 * s.len() implies (#[trigger] slide_parts(s)[i]).0 == if i
            % 2 == 0 {
            rels_path((i / 2 + 1) as nat)
        } else {
            slide_path((i / 2 + 1) as nat)
        } by {
            if i < 2 * (s.len() - 1) {
                assert(slide_parts(s)[i] == prev[i]);
            }
        }
    }
}

/// The parts of a presentation package have distinct paths of at most 16383
/// characters.
pub proof fn lemma_package_names(s: Seq<(Seq<char>, Seq<Seq<char>>)>)
    requires
        s.len() < 0x1_0000_0000_0000_0000,
    ensures
        crate::archive::distinct_names(package_parts(s)),
        forall|i: int| 0 <= i < package_parts(s).len() ==> (#[trigger] package_parts(s)[i]).0.len() <= 16383,
{
    reveal_strlit("[Content_Types].xml");
    reveal_strlit("_rels/.rels");
    reveal_strlit("ppt/_rels/presentation.xml.rels");
    reveal_strlit("ppt/presentation.xml");
    reveal_strlit("ppt/slideMasters/slideMaster1.xml");
    reveal_strlit("ppt/slideMasters/_rels/slideMaster1.xml.rels");
    reveal_strlit("ppt/slideLayouts/slideLayout1.xml");
    reveal_strlit("ppt/slideLayouts/_rels/slideLayout1.xml.rels");
    reveal_strlit("ppt/slides/_rels/slide");
    reveal_strlit(".xml.rels");
    reveal_strlit("ppt/slides/slide");
    reveal_strlit(".xml");
    let e = package_parts(s);
    lemma_slide_part_names(s);
    assert(e.len() == 8 + 2 * s.len());
    assert forall|i: int| 8 <= i < e.len() implies #[trigger] e[i] == slide_parts(s)[i - 8] by {}
    assert(pow10(20) == 100000000000000000000nat) by {
        reveal_with_fuel(pow10, 21);
    }
    assert forall|i: int| 0 <= i < e.len() implies (#[trigger] e[i]).0.len() <= 16383 by {
        if i >= 8 {
            let k = ((i - 8) / 2 + 1) as nat;
            lemma_decimal_short(k, 20);
        }
    }
    assert forall|i: int, j: int| 0 <= i < j < e.len() implies #[trigger] e[i].0 != #[trigger] e[j].0 by {
        if j < 8 {
            if i == 0 && j == 1 {
                assert(e[0].0 != e[1].0);
            }
            if i == 0 && j == 2 {
                assert(e[0].0 != e[2].0);
            }
            if i == 0 && j == 3 {
                assert(e[0].0 != e[3].0);
            }
            if i == 0 && j == 4 {
                assert(e[0].0 != e[4].0);
            }
            if i == 0 && j == 5 {
                assert(e[0].0 != e[5].0);
            }
            if i == 0 && j == 6 {
                assert(e[0].0 != e[6].0);
            }
            if i == 0 && j == 7 {
                assert(e[0].0 != e[7].0);
            }
            if i == 1 && j == 2 {
                assert(e[1].0 != e[2].0);
            }
            if i == 1 && j == 3 {
                assert(e[1].0 != e[3].0);
            }
            if i == 1 && j == 4 {
                assert(e[1].0 != e[4].0);
            }
            if i == 1 && j == 5 {
                assert(e[1].0 != e[5].0);
            }
            if i == 1 && j == 6 {
                assert(e[1].0 != e[6].0);
            }
            if i == 1 && j == 7 {
                assert(e[1].0 != e[7].0);
            }
            if i == 2 && j == 3 {
                assert(e[2].0 != e[3].0);
            }
            if i == 2 && j == 4 {
                assert(e[2].0 != e[4].0);
            }
            if i == 2 && j == 5 {
                assert(e[2].0 != e[5].0);
            }
            if i == 2 && j == 6 {
                assert(e[2].0 != e[6].0);
            }
            if i == 2 && j == 7 {
                assert(e[2].0 != e[7].0);
            }
            if i == 3 && j == 4 {
                assert(e[3].0 != e[4].0);
            }
            if i == 3 && j == 5 {
                assert(e[3].0 != e[5].0);
            }
            if i == 3 && j == 6 {
                assert(e[3].0 != e[6].0);
            }
            if i == 3 && j == 7 {
                assert(e[3].0 != e[7].0);
            }
            if i == 4 && j == 5 {
                assert(e[4].0 != e[5].0);
            }
            if i == 4 && j == 6 {
                assert(e[4].0[9] != e[6].0[9]);
                assert(e[4].0 != e[6].0);
            }
            if i == 4 && j == 7 {
                assert(e[4].0 != e[7].0);
            }
            if i == 5 && j == 6 {
                assert(e[5].0 != e[6].0);
            }
            if i == 5 && j == 7 {
                assert(e[5].0[9] != e[7].0[9]);
                assert(e[5].0 != e[7].0);
            }
            if i == 6 && j == 7 {
                assert(e[6].0 != e[7].0);
            }
        } else if i < 8 {
            let k = ((j - 8) / 2 + 1) as nat;
            lemma_decimal_nonempty(k);
            if i == 0 {
                assert(e[0].0[0] != e[j].0[0]);
            }
            if i == 1 {
                assert(e[1].0[0] != e[j].0[0]);
            }
            if i == 2 {
                assert(e[2].0[4] != e[j].0[4]);
            }
            if i == 3 {
                assert(e[3].0[4] != e[j].0[4]);
            }
            if i == 4 {
                assert(e[4].0[9] != e[j].0[9]);
            }
            if i == 5 {
                assert(e[5].0[9] != e[j].0[9]);
            }
            if i == 6 {
                assert(e[6].0[9] != e[j].0[9]);
            }
            if i == 7 {
                assert(e[7].0[9] != e[j].0[9]);
            }
        } else {
            let a = ((i - 8) / 2 + 1) as nat;
            let b = ((j - 8) / 2 + 1) as nat;
            lemma_decimal_nonempty(a);
            lemma_decimal_nonempty(b);
            if (i - 8) % 2 == (j - 8) % 2 {
                assert(a != b);
                if e[i].0 == e[j].0 {
                    if (i - 8) % 2 == 0 {
                        lemma_numbered_names("ppt/slides/_rels/slide"@, ".xml.rels"@, a, b);
                    } else {
                        lemma_numbered_names("ppt/slides/slide"@, ".xml"@, a, b);
                    }
                }
            } else {
                assert(e[i].0[11] != e[j].0[11]);
            }
        }
    }
}

pub open spec fn part_views(v: Seq<(String, String)>) -> Seq<(Seq<char>, Seq<char>)> {
    v.map_values(|p: (String, String)| (p.0@, p.1@))
}

fn text_part(path: &str, content: &Vec<char>) -> (r: (String, String))
    ensures
        r.0@ == path@,
        r.1@ == content@,
{
    (string_of(&chars_of(path)), string_of(content))
}

fn literal_part(path: &str, content: &str) -> (r: (String, String))
    ensures
        r.0@ == path@,
        r.1@ == content@,
{
    (string_of(&chars_of(path)), string_of(&chars_of(content)))
}

fn numbered_path(prefix: &str, k: u128, suffix: &str) -> (r: String)
    ensures
        r@ == prefix@ + decimal(k as nat) + suffix@,
{
    let mut p = chars_of(prefix);
    push_decimal(&mut p, k);
    push_str(&mut p, suffix);
    string_of(&p)
}

fn slide_xml_chars(s: &Slide) -> (r: Vec<char>)
    ensures
        r@ == slide_xml(s@),
{
    let mut out = chars_of(SLIDE_OPEN);
    let t = chars_of(s.title.as_str());
    push_all(&mut out, &xml_escape_chars(&t));
    push_str(&mut out, SLIDE_MID);
    let mut lines: Vec<Vec<char>> = Vec::new();
    let mut i: usize = 0;
    while i < s.body.len()
        invariant
            i <= s.body.len(),
            views(lines@) == string_views(s.body@).take(i as int),
        decreases s.body.len() - i,
    {
        let ghost before = lines@;
        lines.push(chars_of(s.body[i].as_str()));
        assert(views(lines@) =~= views(before).push(s.body@[i as int]@));
        assert(views(lines@) =~= string_views(s.body@).take(i + 1));
        i = i + 1;
    }
    assert(string_views(s.body@).take(s.body.len() as int) =~= string_views(s.body@));
    let nl: Vec<char> = vec!['\n'];
    proof {
        reveal_strlit("\n");
    }
    assert(nl@ =~= "\n"@);
    let body = join_with(&lines, &nl);
    push_all(&mut out, &xml_escape_chars(&body));
    push_str(&mut out, SLIDE_CLOSE);
    out
}

/// The parts of the presentation package for the given slides.
#[verifier::spinoff_prover]
#[verifier::rlimit(50)]
pub fn pptx_parts(slides: &Vec<Slide>) -> (r: Vec<(String, String)>)
    ensures
        part_views(r@) == package_parts(slide_views(slides@)),
{
    let n = slides.len();
    let mut ct = chars_of(CONTENT_TYPES_HEAD);
    let mut rels = chars_of(PRESENTATION_RELS_HEAD);
    let mut ids = chars_of(PRESENTATION_HEAD);
    let mut k: usize = 0;
    while k < n
        invariant
            k <= n == slides.len(),
            ct@ == CONTENT_TYPES_HEAD@ + content_type_entries(k as nat),
            rels@ == PRESENTATION_RELS_HEAD@ + slide_rel_entries(k as nat),
            ids@ == PRESENTATION_HEAD@ + slide_id_entries(k as nat),
        decreases n - k,
    {
        let j: u128 = (k as u128) + 1;
        push_str(&mut ct, CONTENT_TYPE_SLIDE_OPEN);
        push_decimal(&mut ct, j);
        push_str(&mut ct, CONTENT_TYPE_SLIDE_CLOSE);
        push_str(&mut rels, SLIDE_REL_OPEN);
        push_decimal(&mut rels, j + 1);
        push_str(&mut rels, SLIDE_REL_MID);
        push_decimal(&mut rels, j);
        push_str(&mut rels, SLIDE_REL_CLOSE);
        push_str(&mut ids, SLIDE_ID_OPEN);
        push_decimal(&mut ids, (FIRST_SLIDE_ID as u128) - 1 + j);
        push_str(&mut ids, SLIDE_ID_MID);
        push_decimal(&mut ids, j + 1);
        push_str(&mut ids, SLIDE_ID_CLOSE);
        k = k + 1;
        assert(ct@ =~= CONTENT_TYPES_HEAD@ + content_type_entries(k as nat));
        assert(rels@ =~= PRESENTATION_RELS_HEAD@ + slide_rel_entries(k as nat));
        assert(ids@ =~= PRESENTATION_HEAD@ + slide_id_entries(k as nat));
    }
    push_str(&mut ct, CONTENT_TYPES_END);
    push_str(&mut rels, RELATIONSHIPS_END);
    push_str(&mut ids, PRESENTATION_TAIL);
    let mut parts: Vec<(String, String)> = Vec::new();
    parts.push(text_part("[Content_Types].xml", &ct));
    parts.push(literal_part("_rels/.rels", ROOT_RELS));
    parts.push(text_part("ppt/_rels/presentation.xml.rels", &rels));
    parts.push(text_part("ppt/presentation.xml", &ids));
    parts.push(literal_part("ppt/slideMasters/slideMaster1.xml", SLIDE_MASTER));
    parts.push(literal_part("ppt/slideMasters/_rels/slideMaster1.xml.rels", SLIDE_MASTER_RELS));
    parts.push(literal_part("ppt/slideLayouts/slideLayout1.xml", SLIDE_LAYOUT));
    parts.push(literal_part("ppt/slideLayouts/_rels/slideLayout1.xml.rels", SLIDE_LAYOUT_RELS));
    let ghost sv = slide_views(slides@);
    assert(sv.len() == n);
    assert(part_views(parts@) =~= package_parts(sv).take(8));
    assert(sv.take(0) =~= Seq::<(Seq<char>, Seq<Seq<char>>)>::empty());
    assert(part_views(parts@) =~= package_parts(sv).take(8) + slide_parts(sv.take(0)));
    let mut i: usize = 0;
    while i < n
        invariant
            i <= n == slides.len(),
            sv == slide_views(slides@),
            part_views(parts@) == package_parts(sv).take(8) + slide_parts(sv.take(i as int)),
        decreases n - i,
    {
        let ghost before = parts@;
        let j: u128 = (i as u128) + 1;
        let rel_path = numbered_path("ppt/slides/_rels/slide", j, ".xml.rels");
        let rels_text = chars_of(SLIDE_RELS);
        parts.push((rel_path, string_of(&rels_text)));
        let part_path = numbered_path("ppt/slides/slide", j, ".xml");
        let xml = slide_xml_chars(&slides[i]);
        parts.push((part_path, string_of(&xml)));
        i = i + 1;
        assert(sv.take(i as int).drop_last() =~= sv.take(i - 1));
        assert(sv.take(i as int).last() == slides@[i - 1]@);
        assert(part_views(parts@) =~= part_views(before) + seq![
            (rels_path(i as nat), SLIDE_RELS@),
            (slide_path(i as nat), slide_xml(slides@[i - 1]@)),
        ]);
        assert(part_views(parts@) =~= package_parts(sv).take(8) + slide_parts(sv.take(i as int)));
    }
    assert(sv.take(n as int) =~= sv);
    assert(package_parts(sv) =~= package_parts(sv).take(8) + slide_parts(sv));
    parts
}

/// The parts of the presentation package for a Markdown document, as
/// `markdown_to_pptx` writes them.
pub fn presentation_parts(markdown: &str) -> (r: Vec<(String, String)>)
    ensures
        part_views(r@) == package_parts(slides_of(markdown@)),
{
    let slides = slides_from_markdown(markdown);
    pptx_parts(&slides)
}

/// The message prefix for a failure at a step of writing the package.
pub open spec fn pack_error_context(step: PackStep) -> Seq<char> {
    match step {
        PackStep::Start => "ZIP error"@,
        PackStep::Write => "ZIP write error"@,
        PackStep::Finish => "Failed to finalize PPTX"@,
    }
}

/// Writes the presentation for a Markdown document: the parts of
/// [`presentation_parts`], deflate-compressed into one ZIP package, whose bytes
/// are returned; the writer takes every package whose parts hold under 2^28
/// characters in all, since their paths are distinct and short
/// ([`lemma_package_names`]). A failure names the step: `ZIP error` (opening a part), `ZIP
/// write error` (writing it) or `Failed to finalize PPTX`.
pub fn markdown_to_pptx(markdown: &str) -> (r: Result<Vec<u8>, ConversionError>)
    ensures
        r matches Ok(b) ==> b@ == zip_archive_of(package_parts(slides_of(markdown@))),
        total_text_len(package_parts(slides_of(markdown@))) < 0x1000_0000 ==> r is Ok,
        r matches Err(e) ==> exists|step: PackStep, cause: Seq<char>|
            e.0@ == pack_error_context(step) + ": "@ + cause,
{
    let parts = presentation_parts(markdown);
    let np = parts.len();
    proof {
        let s = slides_of(markdown@);
        lemma_slide_part_names(s);
        assert(package_parts(s).len() == 8 + 2 * s.len());
        assert(part_views(parts@).len() == np);
        lemma_package_names(s);
    }
    match zip_package(&parts) {
        Ok(bytes) => Ok(bytes),
        Err((step, e)) => {
            let context = match step {
                PackStep::Start => "ZIP error",
                PackStep::Write => "ZIP write error",
                PackStep::Finish => "Failed to finalize PPTX",
            };
            let m = zip_error_text(&e);
            let r = ConversionError::with_cause(context, m.as_str());
            assert(r.0@ == pack_error_context(step) + ": "@ + m@);
            Err(r)
        },
    }
}

// ---------------------------------------------------------------------------
// Import: the package
pub const SLIDE_PATH_PREFIX: &'static str = "ppt/slides/slide";

pub const SLIDE_PATH_SUFFIX: &'static str = ".xml";

/// The slide number of a package entry: `None` for an entry that is not slide
/// XML (`ppt/slides/slide*.xml`); the number in its name, or 0 where that does
/// not read as a number.
pub open spec fn slide_number_of(name: Seq<char>) -> Option<nat> {
    if has_prefix(name, SLIDE_PATH_PREFIX@) && has_suffix(name, SLIDE_PATH_SUFFIX@) {
        Some(
            match parse_usize(
                strip_suffixes(strip_prefixes(name, SLIDE_PATH_PREFIX@), SLIDE_PATH_SUFFIX@),
            ) {
                Some(v) => v,
                None => 0,
            },
        )
    } else {
        None
    }
}

pub fn slide_number(name: &str) -> (r: Option<usize>)
    ensures
        r is None <==> slide_number_of(name@) is None,
        r matches Some(v) ==> slide_number_of(name@) == Some(v as nat),
{
    let n = chars_of(name);
    let pre = chars_of(SLIDE_PATH_PREFIX);
    let suf = chars_of(SLIDE_PATH_SUFFIX);
    if !starts_with(&n, &pre) || !ends_with(&n, &suf) {
        return None;
    }
    let a = strip_prefixes_chars(&n, &pre);
    let b = strip_suffixes_chars(&a, &suf);
    match parse_usize_chars(&b) {
        Some(v) => Some(v),
        None => Some(0),
    }
}

pub open spec fn entry_views(v: Seq<(usize, String)>) -> Seq<(usize, Seq<char>)> {
    v.map_values(|e: (usize, String)| (e.0, e.1@))
}

/// The Markdown of each slide that has text, with its number, in the given order.
pub open spec fn slide_texts(s: Seq<(usize, Seq<char>)>) -> Seq<(usize, Seq<char>)>
    decreases s.len(),
{
    if s.len() == 0 {
        Seq::empty()
    } else {
        let t = slide_text(s.last().1);
        if t.len() > 0 {
            slide_texts(s.drop_last()).push((s.last().0, t))
        } else {
            slide_texts(s.drop_last())
        }
    }
}

/// `x` put after every item whose number is not greater than its own.
pub open spec fn insert_by_number(s: Seq<(usize, Seq<char>)>, x: (usize, Seq<char>)) -> Seq<
    (usize, Seq<char>),
>
    decreases s.len(),
{
    if s.len() == 0 {
        seq![x]
    } else if s.last().0 <= x.0 {
        s.push(x)
    } else {
        insert_by_number(s.drop_last(), x).push(s.last())
    }
}

/// The items ordered by number; items of equal number keep their order.
pub open spec fn sorted_by_number(s: Seq<(usize, Seq<char>)>) -> Seq<(usize, Seq<char>)>
    decreases s.len(),
{
    if s.len() == 0 {
        Seq::empty()
    } else {
        insert_by_number(sorted_by_number(s.drop_last()), s.last())
    }
}

/// Whether the items stand in nondecreasing order of number.
pub open spec fn numbers_ordered(s: Seq<(usize, Seq<char>)>) -> bool {
    forall|i: int, j: int| 0 <= i < j < s.len() ==> #[trigger] s[i].0 <= #[trigger] s[j].0
}

proof fn lemma_insert_bounded(s: Seq<(usize, Seq<char>)>, x: (usize, Seq<char>), b: usize)
    requires
        forall|i: int| 0 <= i < s.len() ==> #[trigger] s[i].0 <= b,
        x.0 <= b,
    ensures
        insert_by_number(s, x).len() == s.len() + 1,
        forall|k: int| 0 <= k < s.len() + 1 ==> #[trigger] insert_by_number(s, x)[k].0 <= b,
    decreases s.len(),
{
    if s.len() > 0 && s.last().0 > x.0 {
        lemma_insert_bounded(s.drop_last(), x, b);
    }
}

proof fn lemma_insert_ordered(s: Seq<(usize, Seq<char>)>, x: (usize, Seq<char>))
    requires
        numbers_ordered(s),
    ensures
        numbers_ordered(insert_by_number(s, x)),
        insert_by_number(s, x).len() == s.len() + 1,
    decreases s.len(),
{
    if s.len() == 0 {
    } else if s.last().0 <= x.0 {
        let r = s.push(x);
        assert forall|i: int, j: int| 0 <= i < j < r.len() implies #[trigger] r[i].0 <= #[trigger] r[j].0 by {
            if j == s.len() {
                assert(s[i].0 <= s.last().0);
            }
        }
    } else {
        let d = s.drop_last();
        lemma_insert_ordered(d, x);
        lemma_insert_bounded(d, x, s.last().0);
        let r = insert_by_number(d, x).push(s.last());
        assert forall|i: int, j: int| 0 <= i < j < r.len() implies #[trigger] r[i].0 <= #[trigger] r[j].0 by {
            if j == d.len() + 1 {
                assert(insert_by_number(d, x)[i].0 <= s.last().0);
            } else {
                assert(r[i] == insert_by_number(d, x)[i]);
                assert(r[j] == insert_by_number(d, x)[j]);
            }
        }
    }
}

/// The slides of a presentation come out in nondecreasing order of their
/// numbers, whatever the order of the package's entries.
pub proof fn lemma_slides_in_number_order(s: Seq<(usize, Seq<char>)>)
    ensures
        numbers_ordered(sorted_by_number(s)),
        sorted_by_number(s).len() == s.len(),
    decreases s.len(),
{
    if s.len() > 0 {
        lemma_slides_in_number_order(s.drop_last());
        lemma_insert_ordered(sorted_by_number(s.drop_last()), s.last());
    }
}

/// A text ended by exactly the line break it may already have.
pub open spec fn line_ended(t: Seq<char>) -> Seq<char> {
    if t.len() > 0 && t.last() == '\n' {
        t
    } else {
        t.push('\n')
    }
}

/// Slide texts, each ended by a line break, with a blank line between two.
pub open spec fn join_slide_texts(s: Seq<(usize, Seq<char>)>) -> Seq<char>
    decreases s.len(),
{
    if s.len() == 0 {
        Seq::empty()
    } else if s.len() == 1 {
        line_ended(s[0].1)
    } else {
        join_slide_texts(s.drop_last()) + "\n"@ + line_ended(s.last().1)
    }
}

/// The Markdown of a presentation from its numbered slide XML parts.
pub open spec fn slides_markdown(s: Seq<(usize, Seq<char>)>) -> Seq<char> {
    join_slide_texts(sorted_by_number(slide_texts(s)))
}

pub open spec fn chars_entries(v: Seq<(usize, Vec<char>)>) -> Seq<(usize, Seq<char>)> {
    v.map_values(|e: (usize, Vec<char>)| (e.0, e.1@))
}

fn insert_sorted(v: &mut Vec<(usize, Vec<char>)>, x: (usize, Vec<char>))
    ensures
        chars_entries(final(v)@) == insert_by_number(chars_entries(old(v)@), (x.0, x.1@)),
{
    let ghost s = chars_entries(v@);
    let ghost xv = (x.0, x.1@);
    let mut p: usize = v.len();
    assert(s.take(p as int) =~= s);
    assert(s.skip(p as int) =~= Seq::<(usize, Seq<char>)>::empty());
    while p > 0 && v[p - 1].0 > x.0
        invariant
            p <= v.len(),
            s == chars_entries(v@),
            xv == (x.0, x.1@),
            insert_by_number(s, xv) == insert_by_number(s.take(p as int), xv) + s.skip(p as int),
        decreases p,
    {
        let ghost t = s.take(p as int);
        assert(t.drop_last() =~= s.take(p - 1));
        assert(t.last() == s[p - 1]);
        assert(s.skip(p - 1) =~= seq![s[p - 1]] + s.skip(p as int));
        assert(insert_by_number(t, xv) == insert_by_number(s.take(p - 1), xv).push(s[p - 1]));
        assert(insert_by_number(s.take(p - 1), xv).push(s[p - 1]) + s.skip(p as int)
            =~= insert_by_number(s.take(p - 1), xv) + s.skip(p - 1));
        p = p - 1;
    }
    proof {
        let t = s.take(p as int);
        if p > 0 {
            assert(t.last() == s[p - 1]);
        } else {
            assert(t =~= Seq::<(usize, Seq<char>)>::empty());
        }
        assert(insert_by_number(t, xv) =~= t.push(xv));
    }
    v.insert(p, x);
    assert(chars_entries(v@) =~= s.take(p as int).push(xv) + s.skip(p as int));
}

/// The Markdown of a presentation from the (number, XML) of each slide part,
/// in any order: each slide's Markdown as [`extract_text_from_slide_xml`] gives
/// it, slides without text left out, ordered by number (parts of equal number
/// keep their order), each ended by a line break and separated by a blank line.
pub fn markdown_from_slides(slides: &Vec<(usize, String)>) -> (r: String)
    ensures
        r@ == slides_markdown(entry_views(slides@)),
{
    let ghost ev = entry_views(slides@);
    let mut sorted: Vec<(usize, Vec<char>)> = Vec::new();
    let mut i: usize = 0;
    while i < slides.len()
        invariant
            i <= slides.len(),
            ev == entry_views(slides@),
            chars_entries(sorted@) == sorted_by_number(slide_texts(ev.take(i as int))),
        decreases slides.len() - i,
    {
        let t = extract_text_from_slide_xml(slides[i].1.as_str());
        let ghost cur = ev.take(i + 1);
        assert(cur.drop_last() =~= ev.take(i as int));
        assert(cur.last() == (slides@[i as int].0, slides@[i as int].1@));
        let tc = chars_of(t.as_str());
        if tc.len() > 0 {
            proof {
                let st = slide_texts(cur);
                assert(st == slide_texts(ev.take(i as int)).push((slides@[i as int].0, t@)));
                assert(st.drop_last() =~= slide_texts(ev.take(i as int)));
                assert(sorted_by_number(st) == insert_by_number(sorted_by_number(st.drop_last()), st.last()));
            }
            insert_sorted(&mut sorted, (slides[i].0, tc));
        } else {
            assert(slide_texts(cur) == slide_texts(ev.take(i as int)));
        }
        i = i + 1;
    }
    assert(ev.take(slides.len() as int) =~= ev);
    let ghost sv = chars_entries(sorted@);
    let mut out: Vec<char> = Vec::new();
    let mut k: usize = 0;
    while k < sorted.len()
        invariant
            k <= sorted.len(),
            sv == chars_entries(sorted@),
            out@ == join_slide_texts(sv.take(k as int)),
        decreases sorted.len() - k,
    {
        assert(sv.take(k + 1).drop_last() =~= sv.take(k as int));
        assert(sv[k as int].1 == sorted@[k as int].1@);
        if k > 0 {
            push_str(&mut out, "\n");
        }
        push_all(&mut out, &sorted[k].1);
        let n = sorted[k].1.len();
        if !(n > 0 && sorted[k].1[n - 1] == '\n') {
            out.push('\n');
        }
        k = k + 1;
    }
    assert(sv.take(sorted.len() as int) =~= sv);
    string_of(&out)
}

/// The numbered slide parts among the first `k` entries: each entry whose name
/// is a slide part's, with its number and its text.
pub open spec fn slide_entries(names: Seq<Seq<char>>, bytes: Seq<u8>, k: int) -> Seq<(usize, Seq<char>)>
    decreases k,
{
    if k <= 0 {
        Seq::empty()
    } else {
        let rest = slide_entries(names, bytes, k - 1);
        match slide_number_of(names[k - 1]) {
            Some(n) => rest.push((n as usize, zip_text_of(bytes, k - 1)->0)),
            None => rest,
        }
    }
}

/// Whether every slide part among the first `k` entries reads as text.
pub open spec fn slides_readable(names: Seq<Seq<char>>, bytes: Seq<u8>, k: int) -> bool {
    forall|i: int|
        0 <= i < k && #[trigger] slide_number_of(names[i]) is Some ==> zip_text_of(bytes, i) is Some
}

/// The Markdown of a presentation package, or `None` where the archive or
/// one of its slide parts does not read.
pub open spec fn pptx_markdown_of(bytes: Seq<u8>) -> Option<Seq<char>> {
    match zip_names_of(bytes) {
        None => None,
        Some(ns) => if slides_readable(ns, bytes, ns.len() as int) {
            Some(slides_markdown(slide_entries(ns, bytes, ns.len() as int)))
        } else {
            None
        },
    }
}

/// The Markdown of a presentation package: every entry named
/// `ppt/slides/slide{N}.xml` is read as slide XML, then
/// [`markdown_from_slides`] renders them. Fails when the bytes are not a ZIP
/// archive or a slide part cannot be read.
pub fn pptx_to_markdown(bytes: Vec<u8>) -> (r: Result<String, ConversionError>)
    ensures
        r is Ok <==> pptx_markdown_of(bytes@) is Some,
        r matches Ok(s) ==> pptx_markdown_of(bytes@) == Some(s@),
{
    let b = bytes.as_slice();
    let names = match zip_entry_names(b) {
        Ok(v) => v,
        Err(e) => {
            return Err(
                ConversionError::with_cause(
                    "Failed to read PPTX archive",
                    zip_error_text(&e).as_str(),
                ),
            );
        },
    };
    let ghost ns = string_views(names@);
    let mut slides: Vec<(usize, String)> = Vec::new();
    let mut i: usize = 0;
    while i < names.len()
        invariant
            i <= names.len(),
            b@ == bytes@,
            ns == string_views(names@),
            zip_names_of(bytes@) == Some(ns),
            entry_views(slides@) == slide_entries(ns, bytes@, i as int),
            slides_readable(ns, bytes@, i as int),
        decreases names.len() - i,
    {
        assert(ns[i as int] == names@[i as int]@);
        match slide_number(names[i].as_str()) {
            Some(k) => {
                let xml = match zip_entry_text(b, i) {
                    Ok(s) => s,
                    Err(e) => {
                        assert(!slides_readable(ns, bytes@, ns.len() as int)) by {
                            assert(slide_number_of(ns[i as int]) is Some);
                        }
                        return Err(
                            ConversionError::with_cause(
                                "Failed to read slide XML",
                                zip_error_text(&e).as_str(),
                            ),
                        );
                    },
                };
                let ghost before = slides@;
                slides.push((k, xml));
                assert(entry_views(slides@) =~= entry_views(before).push((k, xml@)));
            },
            None => {},
        }
        i = i + 1;
        assert(slides_readable(ns, bytes@, i as int)) by {
            assert forall|j: int|
                0 <= j < i && #[trigger] slide_number_of(ns[j]) is Some implies zip_text_of(bytes@, j) is Some by {
                if j < i - 1 {
                }
            }
        }
    }
    let md = markdown_from_slides(&slides);
    Ok(md)
}

} // verus!
