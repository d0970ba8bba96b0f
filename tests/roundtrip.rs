use std::io::Cursor;

use calamine::{open_workbook_auto_from_rs, Data, Reader};
use docconv::docx::{docx_to_markdown, markdown_to_docx, CellContent, DocBlock, DocParagraph, DocRun, DocTable, ParagraphChild, RunPiece};
use docconv::xlsx::{markdown_to_xlsx, xlsx_to_markdown, Cell, Sheet};

fn run_of(run: &docx_rs::Run) -> DocRun {
    DocRun {
        pieces: run
            .children
            .iter()
            .map(|c| match c {
                docx_rs::RunChild::Text(t) => RunPiece::Text(t.text.clone()),
                docx_rs::RunChild::Tab(_) => RunPiece::Tab,
                _ => RunPiece::Other,
            })
            .collect(),
        bold: run.run_property.bold.is_some(),
        italic: run.run_property.italic.is_some(),
    }
}

fn paragraph_of(p: &docx_rs::Paragraph) -> DocParagraph {
    DocParagraph {
        style: p.property.style.as_ref().map(|s| s.val.clone()),
        children: p
            .children
            .iter()
            .map(|c| match c {
                docx_rs::ParagraphChild::Run(r) => ParagraphChild::Run(run_of(r)),
                _ => ParagraphChild::Other,
            })
            .collect(),
    }
}

fn blocks_of(bytes: &[u8]) -> Vec<DocBlock> {
    let docx = docx_rs::read_docx(bytes).expect("readable docx");
    docx.document
        .children
        .iter()
        .map(|child| match child {
            docx_rs::DocumentChild::Paragraph(p) => DocBlock::Paragraph(paragraph_of(p)),
            docx_rs::DocumentChild::Table(t) => DocBlock::Table(DocTable {
                rows: t
                    .rows
                    .iter()
                    .map(|docx_rs::TableChild::TableRow(row)| {
                        row.cells
                            .iter()
                            .map(|docx_rs::TableRowChild::TableCell(cell)| {
                                cell.children
                                    .iter()
                                    .map(|c| match c {
                                        docx_rs::TableCellContent::Paragraph(p) => CellContent::Paragraph(paragraph_of(p)),
                                        _ => CellContent::Other,
                                    })
                                    .collect()
                            })
                            .collect()
                    })
                    .collect(),
            }),
            _ => DocBlock::Other,
        })
        .collect()
}

#[test]
fn heading_round_trips_through_a_document() {
    for level in 1..=6usize {
        let md = format!("{} Chapter {}\n", "#".repeat(level), level);
        let bytes = markdown_to_docx(&md).expect("docx");
        assert_eq!(docx_to_markdown(&blocks_of(&bytes)), md);
    }
}

#[test]
fn emphasis_and_tables_round_trip_through_a_document() {
    let md = "Some **bold** and *italic* text.\n\n| A | B |\n| --- | --- |\n| 1 |\n";
    let bytes = markdown_to_docx(md).expect("docx");
    assert_eq!(
        docx_to_markdown(&blocks_of(&bytes)),
        "Some **bold** and *italic* text.\n\n| A | B |\n| --- | --- |\n| 1 |  |\n"
    );
}

fn cell_of(d: &Data) -> Cell {
    match d {
        Data::Empty => Cell::Empty,
        Data::String(s) => Cell::String(s.clone()),
        Data::Float(f) => Cell::Float {
            whole: if f.fract() == 0.0 && f.abs() < 1e15 { Some(*f as i64) } else { None },
            display: format!("{}", f),
        },
        Data::Int(i) => Cell::Int(*i),
        Data::Bool(b) => Cell::Bool(*b),
        Data::Error(e) => Cell::Error(format!("{:?}", e)),
        Data::DateTime(dt) => Cell::DateTime(format!("{}", dt)),
        Data::DateTimeIso(s) => Cell::DateTimeIso(s.clone()),
        Data::DurationIso(s) => Cell::DurationIso(s.clone()),
    }
}

fn sheets_of(bytes: Vec<u8>) -> Vec<Sheet> {
    let mut wb = open_workbook_auto_from_rs(Cursor::new(bytes)).expect("readable workbook");
    let names: Vec<String> = wb.sheet_names().to_vec();
    names
        .into_iter()
        .map(|name| {
            let range = wb.worksheet_range(&name).expect("sheet");
            let (_, width) = range.get_size();
            let rows = range.rows().map(|r| r.iter().map(cell_of).collect()).collect();
            Sheet { name, width, rows }
        })
        .collect()
}

#[test]
fn gfm_table_round_trips_through_a_workbook() {
    let bytes = markdown_to_xlsx("| Col1 | Col2 |\n| --- | --- |\n| A | B |\n").expect("xlsx");
    let sheets = sheets_of(bytes);
    assert_eq!(sheets.len(), 1);
    assert_eq!(sheets[0].name, "Table1");
    assert_eq!(
        xlsx_to_markdown(&sheets),
        "## Table1\n\n| Col1 | Col2 |\n| --- | --- |\n| A | B |\n"
    );
}

#[test]
fn numbers_stay_text_in_the_workbook() {
    let bytes = markdown_to_xlsx("| n |\n| --- |\n| 42 |\n").expect("xlsx");
    let sheets = sheets_of(bytes);
    assert!(matches!(sheets[0].rows[1][0], Cell::String(ref s) if s == "42"));
}
