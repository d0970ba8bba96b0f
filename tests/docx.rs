use docconv::docx::{
    docx_blocks_from_markdown, docx_to_markdown, heading_prefix_for, markdown_to_docx,
    paragraph_to_markdown, run_to_markdown, table_to_markdown, CellContent, DocBlock,
    DocParagraph, DocRun, DocTable, OutBlock, ParagraphChild, RunPiece,
};

fn text_run(text: &str, bold: bool, italic: bool) -> DocRun {
    DocRun { pieces: vec![RunPiece::Text(text.to_string())], bold, italic }
}

fn para(style: Option<&str>, runs: Vec<DocRun>) -> DocParagraph {
    DocParagraph {
        style: style.map(|s| s.to_string()),
        children: runs.into_iter().map(ParagraphChild::Run).collect(),
    }
}

fn cell(text: &str) -> Vec<CellContent> {
    vec![CellContent::Paragraph(para(None, vec![text_run(text, false, false)]))]
}

#[test]
fn test_run_to_markdown_bold() {
    let run = text_run("hello", true, false);
    let result = run_to_markdown(&run);
    assert_eq!(result, "**hello**");
}

#[test]
fn test_run_to_markdown_plain() {
    let run = text_run("hello", false, false);
    let result = run_to_markdown(&run);
    assert_eq!(result, "hello");
}

#[test]
fn run_italic_and_both() {
    assert_eq!(run_to_markdown(&text_run("x", false, true)), "*x*");
    assert_eq!(run_to_markdown(&text_run("x", true, true)), "***x***");
}

#[test]
fn run_keeps_tabs_and_drops_other_content() {
    let run = DocRun {
        pieces: vec![
            RunPiece::Text("a".to_string()),
            RunPiece::Tab,
            RunPiece::Other,
            RunPiece::Text("b".to_string()),
        ],
        bold: false,
        italic: false,
    };
    assert_eq!(run_to_markdown(&run), "a\tb");
}

#[test]
fn empty_run_renders_nothing_even_when_bold() {
    let run = DocRun { pieces: vec![RunPiece::Other], bold: true, italic: false };
    assert_eq!(run_to_markdown(&run), "");
}

#[test]
fn heading2_bold_paragraph() {
    let p = para(Some("Heading2"), vec![text_run("Result", true, false)]);
    assert_eq!(paragraph_to_markdown(&p), "## **Result**");
}

#[test]
fn heading_styles_match_case_and_space_variants() {
    let p = para(Some("Heading 3"), vec![text_run("T", false, false)]);
    assert_eq!(paragraph_to_markdown(&p), "### T");
    let p = para(Some("HEADING6"), vec![text_run("T", false, false)]);
    assert_eq!(paragraph_to_markdown(&p), "###### T");
    let p = para(Some("Title"), vec![text_run("T", false, false)]);
    assert_eq!(paragraph_to_markdown(&p), "T");
    assert_eq!(heading_prefix_for("heading1"), "# ");
    assert_eq!(heading_prefix_for("heading 5"), "##### ");
    assert_eq!(heading_prefix_for("heading7"), "");
}

#[test]
fn runs_with_same_formatting_are_not_merged() {
    let p = para(None, vec![text_run("a", true, false), text_run("b", true, false)]);
    assert_eq!(paragraph_to_markdown(&p), "**a****b**");
}

#[test]
fn ragged_table_is_padded_to_widest_row() {
    let t = DocTable {
        rows: vec![vec![cell("H1"), cell("H2")], vec![cell("a")], vec![cell("b"), cell("c"), cell("d")]],
    };
    assert_eq!(
        table_to_markdown(&t),
        "| H1 | H2 |  |\n| --- | --- | --- |\n| a |  |  |\n| b | c | d |\n"
    );
}

#[test]
fn header_only_table_still_has_separator() {
    let t = DocTable { rows: vec![vec![cell("Only")]] };
    assert_eq!(table_to_markdown(&t), "| Only |\n| --- |\n");
}

#[test]
fn cell_joins_paragraphs_with_spaces() {
    let c = vec![
        CellContent::Paragraph(para(None, vec![text_run(" one ", false, false)])),
        CellContent::Other,
        CellContent::Paragraph(para(None, vec![])),
        CellContent::Paragraph(para(None, vec![text_run("two", false, false)])),
    ];
    let t = DocTable { rows: vec![vec![c]] };
    assert_eq!(table_to_markdown(&t), "| one two |\n| --- |\n");
}

#[test]
fn document_blocks_are_separated_by_blank_lines() {
    let blocks = vec![
        DocBlock::Paragraph(para(None, vec![])),
        DocBlock::Paragraph(para(Some("Heading1"), vec![text_run("Title", false, false)])),
        DocBlock::Other,
        DocBlock::Paragraph(para(None, vec![])),
        DocBlock::Paragraph(para(None, vec![text_run("Body", false, true)])),
        DocBlock::Table(DocTable { rows: vec![vec![cell("A")]] }),
    ];
    assert_eq!(docx_to_markdown(&blocks), "# Title\n\n\n*Body*\n\n| A |\n| --- |\n");
}

fn paragraph_text(b: &OutBlock) -> (Option<u8>, Vec<(String, bool, bool)>) {
    match b {
        OutBlock::Paragraph { heading, runs } => {
            (*heading, runs.iter().map(|r| (r.text.clone(), r.bold, r.italic)).collect())
        }
        OutBlock::Table { .. } => panic!("expected a paragraph"),
    }
}

#[test]
fn one_blank_line_between_table_and_paragraph() {
    let blocks = vec![
        DocBlock::Table(DocTable { rows: vec![vec![cell("A")]] }),
        DocBlock::Paragraph(para(None, vec![text_run("after", false, false)])),
        DocBlock::Table(DocTable { rows: vec![] }),
    ];
    assert_eq!(docx_to_markdown(&blocks), "| A |\n| --- |\n\nafter\n\n\n");
}

#[test]
fn heading_export_keeps_level_and_text() {
    for level in 1..=6u8 {
        let md = format!("{} Title {}\n", "#".repeat(level as usize), level);
        let blocks = docx_blocks_from_markdown(&md);
        assert_eq!(blocks.len(), 2);
        assert_eq!(paragraph_text(&blocks[0]), (None, vec![]));
        assert_eq!(
            paragraph_text(&blocks[1]),
            (Some(level), vec![(format!("Title {}", level), false, false)])
        );
    }
}

#[test]
fn emphasis_splits_runs_and_breaks_become_spaces() {
    let blocks = docx_blocks_from_markdown("plain **bold** *it*\nnext\n");
    assert_eq!(blocks.len(), 1);
    assert_eq!(
        paragraph_text(&blocks[0]),
        (
            None,
            vec![
                ("plain ".to_string(), false, false),
                ("bold".to_string(), true, false),
                (" ".to_string(), false, false),
                ("it".to_string(), false, true),
                (" next".to_string(), false, false),
            ]
        )
    );
}

#[test]
fn exported_table_rows_are_padded() {
    let blocks = docx_blocks_from_markdown("| a | b |\n| --- | --- |\n| c |\n");
    assert_eq!(blocks.len(), 1);
    match &blocks[0] {
        OutBlock::Table { rows } => {
            assert_eq!(rows, &vec![vec!["a".to_string(), "b".to_string()], vec!["c".to_string(), "".to_string()]]);
        }
        OutBlock::Paragraph { .. } => panic!("expected a table"),
    }
}

#[test]
fn markdown_to_docx_writes_a_zip_container() {
    let bytes = markdown_to_docx("# Title\n\nSome **bold** text.\n").expect("docx");
    assert!(bytes.len() > 4);
    assert_eq!(&bytes[0..2], b"PK");
}
