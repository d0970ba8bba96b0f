use docconv::pptx::{
    extract_text_from_slide_xml, markdown_from_slides, markdown_to_pptx, pptx_to_markdown,
    presentation_parts, slide_number, slides_from_markdown, xml_escape,
};

#[test]
fn two_slides_from_headings() {
    let slides = slides_from_markdown("# Slide One\nBody text\n\n# Slide Two\nMore text\n");
    assert_eq!(slides.len(), 2);
    assert_eq!(slides[0].title, "Slide One");
    assert_eq!(slides[0].body, vec!["Body text".to_string()]);
    assert_eq!(slides[1].title, "Slide Two");
    assert_eq!(slides[1].body, vec!["More text".to_string()]);
}

#[test]
fn no_top_level_heading_gives_one_presentation_slide() {
    let slides = slides_from_markdown("## Sub\ntext\n\nmore\n");
    assert_eq!(slides.len(), 1);
    assert_eq!(slides[0].title, "Presentation");
    assert_eq!(slides[0].body, vec!["## Sub".to_string(), "text".to_string(), "more".to_string()]);
    let empty = slides_from_markdown("");
    assert_eq!(empty.len(), 1);
    assert_eq!(empty[0].title, "Presentation");
    assert!(empty[0].body.is_empty());
}

#[test]
fn content_before_first_heading_is_its_own_slide() {
    let slides = slides_from_markdown("intro\n# A\n## sub\n");
    assert_eq!(slides.len(), 2);
    assert_eq!(slides[0].title, "");
    assert_eq!(slides[0].body, vec!["intro".to_string()]);
    assert_eq!(slides[1].title, "A");
    assert_eq!(slides[1].body, vec!["## sub".to_string()]);
}

#[test]
fn package_has_all_parts() {
    let parts = presentation_parts("# One\nx\n# Two & <Three>\n");
    let names: Vec<&str> = parts.iter().map(|p| p.0.as_str()).collect();
    assert_eq!(
        names,
        vec![
            "[Content_Types].xml",
            "_rels/.rels",
            "ppt/_rels/presentation.xml.rels",
            "ppt/presentation.xml",
            "ppt/slideMasters/slideMaster1.xml",
            "ppt/slideMasters/_rels/slideMaster1.xml.rels",
            "ppt/slideLayouts/slideLayout1.xml",
            "ppt/slideLayouts/_rels/slideLayout1.xml.rels",
            "ppt/slides/_rels/slide1.xml.rels",
            "ppt/slides/slide1.xml",
            "ppt/slides/_rels/slide2.xml.rels",
            "ppt/slides/slide2.xml",
        ]
    );
    assert!(parts[3].1.contains("<p:sldId id=\"256\" r:id=\"rId2\"/>\n    <p:sldId id=\"257\" r:id=\"rId3\"/>\n  </p:sldIdLst>"));
    assert!(parts[2].1.contains("Id=\"rId3\" Type=\"http://schemas.openxmlformats.org/officeDocument/2006/relationships/slide\" Target=\"slides/slide2.xml\""));
    assert!(parts[0].1.contains("PartName=\"/ppt/slides/slide2.xml\""));
    assert!(parts[11].1.contains("<a:t>Two &amp; &lt;Three&gt;</a:t>"));
    assert!(parts[0].1.ends_with("</Types>"));
}

#[test]
fn presentation_round_trip() {
    let bytes = markdown_to_pptx("# Slide One\nBody text\n\n# Slide Two\nMore text\n").expect("pptx");
    assert_eq!(&bytes[0..2], b"PK");
    let md = pptx_to_markdown(bytes).expect("read back");
    assert_eq!(md, "# Slide One\n\nBody text\n\n# Slide Two\n\nMore text\n");
}

#[test]
fn slide_text_decodes_entities() {
    let xml = "<p:sld><a:p><a:r><a:t>Q&amp;A</a:t></a:r></a:p><a:p><a:r><a:t> &lt;b&gt; &quot;x&quot; &apos;y&apos; </a:t></a:r></a:p></p:sld>";
    assert_eq!(extract_text_from_slide_xml(xml), "# Q&A\n\n<b> \"x\" 'y'");
}

#[test]
fn slide_text_joins_runs_and_skips_blank_paragraphs() {
    let xml = "<a:p><a:r><a:t>Hel</a:t></a:r><a:r><a:t>lo</a:t></a:r></a:p><a:p><a:r><a:t>  </a:t></a:r></a:p><a:p><a:t>one</a:t></a:p><a:p><a:t>two</a:t></a:p><a:p><a:t>unclosed</a:p>";
    assert_eq!(extract_text_from_slide_xml(xml), "# Hello\n\none\n\ntwo");
    assert_eq!(extract_text_from_slide_xml("<p:sld/>"), "");
}

#[test]
fn one_paragraph_slide_is_a_heading_line() {
    assert_eq!(extract_text_from_slide_xml("<a:p><a:r><a:t>Q&amp;A</a:t></a:r></a:p>"), "# Q&A\n");
}

#[test]
fn later_paragraphs_each_follow_a_blank_line() {
    let xml = "<a:p><a:t>T</a:t></a:p><a:p><a:t>B</a:t></a:p><a:p><a:t>C</a:t></a:p>";
    assert_eq!(extract_text_from_slide_xml(xml), "# T\n\nB\n\nC");
    let slides = vec![(1, xml.to_string()), (2, "<a:p><a:t>D</a:t></a:p>".to_string())];
    assert_eq!(markdown_from_slides(&slides), "# T\n\nB\n\nC\n\n# D\n");
}

#[test]
fn entities_are_decoded_in_one_pass() {
    let s = "a &lt; b & \"c\"";
    let xml = format!("<a:p><a:r><a:t>{}</a:t></a:r></a:p>", xml_escape(s));
    assert_eq!(extract_text_from_slide_xml(&xml), format!("# {}\n", s));
    assert_eq!(extract_text_from_slide_xml("<a:p><a:t>&amp;amp; &unknown; &</a:t></a:p>"), "# &amp; &unknown; &\n");
}

#[test]
fn xml_escape_escapes_all_five() {
    assert_eq!(xml_escape("a&b<c>d\"e'f"), "a&amp;b&lt;c&gt;d&quot;e&apos;f");
    assert_eq!(xml_escape("&amp;"), "&amp;amp;");
}

#[test]
fn slide_numbers_from_entry_names() {
    assert_eq!(slide_number("ppt/slides/slide12.xml"), Some(12));
    assert_eq!(slide_number("ppt/slides/slideX.xml"), Some(0));
    assert_eq!(slide_number("ppt/slides/_rels/slide1.xml.rels"), None);
    assert_eq!(slide_number("ppt/slideLayouts/slideLayout1.xml"), None);
}

#[test]
fn slides_are_ordered_by_number() {
    let slides = vec![
        (10, "<a:p><a:t>Ten</a:t></a:p>".to_string()),
        (2, "<a:p><a:t>Two</a:t></a:p>".to_string()),
        (3, "<p:sld/>".to_string()),
        (2, "<a:p><a:t>Two again</a:t></a:p>".to_string()),
    ];
    assert_eq!(markdown_from_slides(&slides), "# Two\n\n# Two again\n\n# Ten\n");
}

#[test]
fn unreadable_presentation_is_an_error() {
    let err = pptx_to_markdown(b"not a zip".to_vec()).unwrap_err();
    assert!(err.message().starts_with("Failed to read PPTX archive: "));
}
