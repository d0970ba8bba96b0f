use docconv::xlsx::{
    cell_to_string, extract_tables_from_markdown, markdown_to_xlsx, workbook_plan_of,
    xlsx_to_markdown, Cell, Sheet,
};

fn float_cell(f: f64) -> Cell {
    let whole = if f.fract() == 0.0 && f.abs() < 1e15 { Some(f as i64) } else { None };
    Cell::Float { whole, display: format!("{}", f) }
}

fn text(s: &str) -> Cell {
    Cell::String(s.to_string())
}

#[test]
fn test_cell_to_string_float() {
    assert_eq!(cell_to_string(&float_cell(42.0)), "42");
    assert_eq!(cell_to_string(&float_cell(3.14)), "3.14");
}

#[test]
fn test_cell_to_string_bool() {
    assert_eq!(cell_to_string(&Cell::Bool(true)), "TRUE");
    assert_eq!(cell_to_string(&Cell::Bool(false)), "FALSE");
}

#[test]
fn cell_to_string_other_kinds() {
    assert_eq!(cell_to_string(&Cell::Empty), "");
    assert_eq!(cell_to_string(&Cell::Int(-1205)), "-1205");
    assert_eq!(cell_to_string(&Cell::Int(i64::MIN)), "-9223372036854775808");
    assert_eq!(cell_to_string(&float_cell(-7.0)), "-7");
    assert_eq!(cell_to_string(&Cell::Error("Div0".to_string())), "Div0");
    assert_eq!(cell_to_string(&Cell::DateTimeIso("2024-01-02".to_string())), "2024-01-02");
}

#[test]
fn test_extract_tables_from_markdown() {
    let md = "| Col1 | Col2 |\n| --- | --- |\n| A | B |\n| C | D |\n";
    let tables = extract_tables_from_markdown(md);
    assert_eq!(tables.len(), 1);
    let (header, data) = &tables[0];
    assert_eq!(header, &["Col1", "Col2"]);
    assert_eq!(data.len(), 2);
    assert_eq!(data[0], &["A", "B"]);
}

#[test]
fn test_extract_tables_no_tables() {
    let md = "# Heading\n\nJust a paragraph.\n";
    let tables = extract_tables_from_markdown(md);
    assert!(tables.is_empty());
}

fn sheet(name: &str, rows: usize) -> Sheet {
    let mut all = vec![vec![text("N"), text("Sq")]];
    for i in 0..rows {
        all.push(vec![Cell::Int(i as i64), Cell::Int((i * i) as i64)]);
    }
    Sheet { name: name.to_string(), width: 2, rows: all }
}

#[test]
fn sheet_with_600_data_rows_shows_500_and_a_note() {
    let md = xlsx_to_markdown(&vec![sheet("Big", 600)]);
    let data_lines = md.lines().filter(|l| l.starts_with("| ") && !l.starts_with("| N") && !l.starts_with("| ---")).count();
    assert_eq!(data_lines, 500);
    assert!(md.ends_with("\n> **Note**: 100 rows were omitted (showing first 500 data rows).\n"));
    assert!(md.contains("| 499 | 249001 |\n"));
    assert!(!md.contains("| 500 | 250000 |"));
}

#[test]
fn sheet_with_500_data_rows_has_no_note() {
    let md = xlsx_to_markdown(&vec![sheet("Full", 500)]);
    assert!(!md.contains("Note"));
    assert!(md.ends_with("| 499 | 249001 |\n"));
}

#[test]
fn sheets_render_with_headings_and_separators() {
    let short = Sheet { name: "S".to_string(), width: 3, rows: vec![vec![text("a"), Cell::Bool(true)], vec![float_cell(1.5)]] };
    let empty = Sheet { name: "E".to_string(), width: 1, rows: vec![] };
    let none = Sheet { name: "Skipped".to_string(), width: 0, rows: vec![] };
    let md = xlsx_to_markdown(&vec![short, none, empty]);
    assert_eq!(
        md,
        "## S\n\n| a | TRUE |  |\n| --- | --- | --- |\n| 1.5 |  |  |\n\n## E\n\n*(empty sheet)*\n"
    );
}

#[test]
fn gfm_table_plans_one_sheet() {
    let plan = workbook_plan_of("| Col1 | Col2 |\n| --- | --- |\n| A | B |\n");
    assert_eq!(plan.len(), 1);
    assert_eq!(plan[0].0, "Table1");
    assert_eq!(
        plan[0].1,
        vec![
            (0, 0, "Col1".to_string()),
            (0, 1, "Col2".to_string()),
            (1, 0, "A".to_string()),
            (1, 1, "B".to_string()),
        ]
    );
}

#[test]
fn second_table_gets_second_sheet() {
    let plan = workbook_plan_of("| a |\n| - |\n| 1 |\n\ntext\n\n| b |\n| - |\n");
    assert_eq!(plan.len(), 2);
    assert_eq!(plan[1].0, "Table2");
    assert_eq!(plan[1].1, vec![(0, 0, "b".to_string())]);
}

#[test]
fn document_without_tables_goes_to_column_a() {
    let plan = workbook_plan_of("# Title\n\nline two\r\n");
    assert_eq!(plan.len(), 1);
    assert_eq!(plan[0].0, "Sheet1");
    assert_eq!(
        plan[0].1,
        vec![(0, 0, "# Title".to_string()), (1, 0, "".to_string()), (2, 0, "line two".to_string())]
    );
}

#[test]
fn markdown_to_xlsx_writes_a_workbook() {
    let bytes = markdown_to_xlsx("| Col1 | Col2 |\n| --- | --- |\n| A | B |\n").expect("xlsx");
    assert_eq!(&bytes[0..2], b"PK");
}

#[test]
fn overlong_cell_is_refused_by_the_writer() {
    let long = "x".repeat(40000);
    let md = format!("| {} |\n| --- |\n", long);
    let err = markdown_to_xlsx(&md).unwrap_err();
    assert!(err.message().starts_with("Failed to write cell: "));
}
