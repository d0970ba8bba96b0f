//! Spreadsheet converter: sheets of typed cells to Markdown tables, and the
//! pipe tables of a Markdown document to a workbook.
use vstd::prelude::*;

use rust_xlsxwriter::{Workbook, Worksheet, XlsxError};

use crate::error::ConversionError;
use crate::markdown::{event_views, markdown_events, markdown_to_events, EventView, MdEvent, MdTag, OPT_TABLES};
use crate::pptx::string_views;
use crate::table::{
    column_count, lemma_row_bars, lemma_separator_bars, no_bar, push_separator_row, push_table_row,
    separator_row, table_row,
};
use crate::text::{
    chars_of, decimal, lines, lines_of, push_all, push_decimal, push_signed_decimal, push_str,
    signed_decimal, string_of, views,
};

verus! {

// ---------------------------------------------------------------------------
// Import
/// One cell of a sheet, by type.
pub enum Cell {
    Empty,
    String(String),
    /// A floating-point number: `whole` holds its value when it has no
    /// fractional part and its magnitude is under 10^15; `display` is its
    /// shortest decimal form.
    Float { whole: Option<i64>, display: String },
    Int(i64),
    Bool(bool),
    /// An error value, by its name (`Div0`, `NA`, ...).
    Error(String),
    /// A date or time, in its display form.
    DateTime(String),
    DateTimeIso(String),
    DurationIso(String),
}

/// One sheet: its name, its number of columns, and its rows (the first is the
/// header).
pub struct Sheet {
    pub name: String,
    pub width: usize,
    pub rows: Vec<Vec<Cell>>,
}

/// Data rows shown per sheet at most.
pub const MAX_ROWS_PER_SHEET: usize = 500;

/// The text of a cell: numbers without a fraction print as integers,
/// booleans as `TRUE` / `FALSE`, text as it is, an empty cell as nothing.
pub open spec fn cell_text(c: Cell) -> Seq<char> {
    match c {
        Cell::Empty => Seq::empty(),
        Cell::String(s) => s@,
        Cell::Float { whole, display } => match whole {
            Some(i) => signed_decimal(i as int),
            None => display@,
        },
        Cell::Int(i) => signed_decimal(i as int),
        Cell::Bool(b) => if b {
            "TRUE"@
        } else {
            "FALSE"@
        },
        Cell::Error(e) => e@,
        Cell::DateTime(s) => s@,
        Cell::DateTimeIso(s) => s@,
        Cell::DurationIso(s) => s@,
    }
}

pub open spec fn cell_texts(row: Seq<Cell>) -> Seq<Seq<char>> {
    row.map_values(|c: Cell| cell_text(c))
}

pub open spec fn min_nat(a: nat, b: nat) -> nat {
    if a <= b {
        a
    } else {
        b
    }
}

/// The number of data rows shown for a sheet of `rows` rows, header included.
pub open spec fn shown_data_rows(rows: nat) -> nat {
    if rows == 0 {
        0
    } else {
        min_nat((rows - 1) as nat, MAX_ROWS_PER_SHEET as nat)
    }
}

/// The lines of data rows `1..=k`, `w` cells wide.
pub open spec fn data_lines(rows: Seq<Vec<Cell>>, w: nat, k: nat) -> Seq<char>
    decreases k,
{
    if k == 0 {
        Seq::empty()
    } else {
        data_lines(rows, w, (k - 1) as nat) + table_row(cell_texts(rows[k as int]@), w)
    }
}

/// The note that follows a sheet whose data rows were cut.
pub open spec fn omission_note(omitted: nat) -> Seq<char> {
    "\n> **Note**: "@ + decimal(omitted) + " rows were omitted (showing first "@ + decimal(
        MAX_ROWS_PER_SHEET as nat,
    ) + " data rows).\n"@
}

/// A sheet's table: header, separator, up to 500 data rows, and a note
/// counting the rows left out, if any.
pub open spec fn sheet_body(s: Sheet) -> Seq<char> {
    let n = s.rows@.len();
    let w = s.width as nat;
    if n == 0 {
        "*(empty sheet)*\n"@
    } else {
        table_row(cell_texts(s.rows@[0]@), w) + separator_row(w) + data_lines(
            s.rows@,
            w,
            shown_data_rows(n),
        ) + if n > MAX_ROWS_PER_SHEET + 1 {
            omission_note((n - MAX_ROWS_PER_SHEET - 1) as nat)
        } else {
            Seq::empty()
        }
    }
}

/// A sheet's section: a `## name` heading, a blank line, its table.
pub open spec fn sheet_section(s: Sheet) -> Seq<char> {
    "## "@ + s.name@ + "\n\n"@ + sheet_body(s)
}

/// The Markdown of the sheets so far: sheets without columns left out, one
/// blank line between two sections.
pub open spec fn sheets_markdown(sheets: Seq<Sheet>) -> Seq<char>
    decreases sheets.len(),
{
    if sheets.len() == 0 {
        Seq::empty()
    } else {
        let out = sheets_markdown(sheets.drop_last());
        let s = sheets.last();
        if s.width == 0 {
            out
        } else if out.len() > 0 {
            out + "\n"@ + sheet_section(s)
        } else {
            sheet_section(s)
        }
    }
}

fn push_cell_text(out: &mut Vec<char>, c: &Cell)
    ensures
        final(out)@ == old(out)@ + cell_text(*c),
{
    match c {
        Cell::Empty => {
            assert(out@ =~= old(out)@ + cell_text(*c));
        },
        Cell::String(s) => push_str(out, s.as_str()),
        Cell::Float { whole, display } => match whole {
            Some(i) => push_signed_decimal(out, *i),
            None => push_str(out, display.as_str()),
        },
        Cell::Int(i) => push_signed_decimal(out, *i),
        Cell::Bool(b) => {
            if *b {
                push_str(out, "TRUE");
            } else {
                push_str(out, "FALSE");
            }
        },
        Cell::Error(e) => push_str(out, e.as_str()),
        Cell::DateTime(s) => push_str(out, s.as_str()),
        Cell::DateTimeIso(s) => push_str(out, s.as_str()),
        Cell::DurationIso(s) => push_str(out, s.as_str()),
    }
}

/// The text of one cell.
pub fn cell_to_string(cell: &Cell) -> (r: String)
    ensures
        r@ == cell_text(*cell),
{
    let mut out: Vec<char> = Vec::new();
    push_cell_text(&mut out, cell);
    assert(out@ =~= cell_text(*cell));
    string_of(&out)
}

fn row_chars(row: &Vec<Cell>) -> (r: Vec<Vec<char>>)
    ensures
        views(r@) == cell_texts(row@),
{
    let mut out: Vec<Vec<char>> = Vec::new();
    let mut i: usize = 0;
    while i < row.len()
        invariant
            i <= row.len(),
            views(out@) == cell_texts(row@).take(i as int),
        decreases row.len() - i,
    {
        let mut c: Vec<char> = Vec::new();
        push_cell_text(&mut c, &row[i]);
        assert(c@ =~= cell_text(row@[i as int]));
        let ghost before = out@;
        out.push(c);
        assert(views(out@) =~= views(before).push(c@));
        assert(views(out@) =~= cell_texts(row@).take(i + 1));
        i = i + 1;
    }
    assert(cell_texts(row@).take(row.len() as int) =~= cell_texts(row@));
    out
}

fn push_sheet_body(out: &mut Vec<char>, s: &Sheet)
    ensures
        final(out)@ == old(out)@ + sheet_body(*s),
{
    let n = s.rows.len();
    if n == 0 {
        push_str(out, "*(empty sheet)*\n");
        return;
    }
    let w = s.width;
    let header = row_chars(&s.rows[0]);
    push_table_row(out, &header, w);
    push_separator_row(out, w);
    let ghost start = out@;
    let shown: usize = if n - 1 < MAX_ROWS_PER_SHEET {
        n - 1
    } else {
        MAX_ROWS_PER_SHEET
    };
    assert(shown as nat == shown_data_rows(n as nat));
    let mut k: usize = 0;
    while k < shown
        invariant
            k <= shown < n == s.rows@.len(),
            w == s.width,
            out@ == start + data_lines(s.rows@, w as nat, k as nat),
        decreases shown - k,
    {
        let cells = row_chars(&s.rows[k + 1]);
        push_table_row(out, &cells, w);
        k = k + 1;
        assert(out@ =~= start + data_lines(s.rows@, w as nat, k as nat));
    }
    if n > MAX_ROWS_PER_SHEET + 1 {
        let omitted = n - MAX_ROWS_PER_SHEET - 1;
        push_str(out, "\n> **Note**: ");
        push_decimal(out, omitted as u128);
        push_str(out, " rows were omitted (showing first ");
        push_decimal(out, MAX_ROWS_PER_SHEET as u128);
        push_str(out, " data rows).\n");
    }
    assert(out@ =~= old(out)@ + sheet_body(*s));
}

/// The Markdown of a workbook's sheets, in order: each sheet with columns as a
/// `## name` heading and a GFM table (first row as header, at most 500 data
/// rows, then a note giving how many were left out), one blank line between
/// two sheets; a sheet with no rows shows `*(empty sheet)*`.
pub fn xlsx_to_markdown(sheets: &Vec<Sheet>) -> (r: String)
    ensures
        r@ == sheets_markdown(sheets@),
{
    let mut out: Vec<char> = Vec::new();
    let mut i: usize = 0;
    while i < sheets.len()
        invariant
            i <= sheets.len(),
            out@ == sheets_markdown(sheets@.take(i as int)),
        decreases sheets.len() - i,
    {
        assert(sheets@.take(i + 1).drop_last() =~= sheets@.take(i as int));
        let s = &sheets[i];
        if s.width > 0 {
            if out.len() > 0 {
                push_str(&mut out, "\n");
            }
            push_str(&mut out, "## ");
            push_str(&mut out, s.name.as_str());
            push_str(&mut out, "\n\n");
            push_sheet_body(&mut out, s);
        }
        i = i + 1;
    }
    assert(sheets@.take(sheets.len() as int) =~= sheets@);
    string_of(&out)
}

/// A sheet's data rows are cut at 500: with `d` data rows, `min(d, 500)` are
/// shown, and the note (counting `d - 500` rows left out) comes exactly when
/// `d > 500`.
pub proof fn lemma_row_cap(s: Sheet)
    requires
        s.rows@.len() >= 1,
    ensures
        ({
            let d = (s.rows@.len() - 1) as nat;
            let w = s.width as nat;
            &&& shown_data_rows(s.rows@.len()) == min_nat(d, MAX_ROWS_PER_SHEET as nat)
            &&& d <= MAX_ROWS_PER_SHEET ==> sheet_body(s) == table_row(cell_texts(s.rows@[0]@), w)
                + separator_row(w) + data_lines(s.rows@, w, d)
            &&& d > MAX_ROWS_PER_SHEET ==> sheet_body(s) == table_row(cell_texts(s.rows@[0]@), w)
                + separator_row(w) + data_lines(s.rows@, w, MAX_ROWS_PER_SHEET as nat)
                + omission_note((d - MAX_ROWS_PER_SHEET) as nat)
        }),
{
    let d = (s.rows@.len() - 1) as nat;
    let w = s.width as nat;
    if d <= MAX_ROWS_PER_SHEET {
        assert(sheet_body(s) =~= table_row(cell_texts(s.rows@[0]@), w) + separator_row(w)
            + data_lines(s.rows@, w, d));
    }
}

/// Every line of a sheet's table, the separator included, has exactly the
/// sheet's number of columns, whatever the length of the row (cells holding no
/// `|` of their own).
pub proof fn lemma_sheet_lines_uniform(s: Sheet, k: int)
    requires
        0 <= k < s.rows@.len(),
        forall|c: int| 0 <= c < s.rows@[k]@.len() ==> no_bar(#[trigger] cell_text(s.rows@[k]@[c])),
    ensures
        column_count(table_row(cell_texts(s.rows@[k]@), s.width as nat)) == s.width,
        column_count(separator_row(s.width as nat)) == s.width,
{
    let cells = cell_texts(s.rows@[k]@);
    assert forall|c: int| 0 <= c < cells.len() implies no_bar(#[trigger] cells[c]) by {
        assert(cells[c] == cell_text(s.rows@[k]@[c]));
    }
    lemma_row_bars(cells, s.width as nat);
    lemma_separator_bars(s.width as nat);
}

// ---------------------------------------------------------------------------
// Export: the tables of a Markdown document
/// A table: header cells, then data rows.
pub type TableView = (Seq<Seq<char>>, Seq<Seq<Seq<char>>>);

pub struct ScanState {
    pub tables: Seq<TableView>,
    pub in_table: bool,
    pub header: Seq<Seq<char>>,
    pub data: Seq<Seq<Seq<char>>>,
    pub row: Seq<Seq<char>>,
    pub cell: Seq<char>,
}

pub open spec fn scan_start() -> ScanState {
    ScanState {
        tables: Seq::empty(),
        in_table: false,
        header: Seq::empty(),
        data: Seq::empty(),
        row: Seq::empty(),
        cell: Seq::empty(),
    }
}

/// How one event changes the table scan.
pub open spec fn scan_step(s: ScanState, e: EventView) -> ScanState {
    match e {
        EventView::Start(MdTag::Table) => ScanState {
            in_table: true,
            header: Seq::empty(),
            data: Seq::empty(),
            ..s
        },
        EventView::End(MdTag::Table) => ScanState {
            in_table: false,
            tables: s.tables.push((s.header, s.data)),
            header: Seq::empty(),
            data: Seq::empty(),
            ..s
        },
        EventView::Start(MdTag::TableHead) => ScanState { row: Seq::empty(), ..s },
        EventView::End(MdTag::TableHead) => ScanState { header: s.row, row: Seq::empty(), ..s },
        EventView::Start(MdTag::TableRow) => ScanState { row: Seq::empty(), ..s },
        EventView::End(MdTag::TableRow) => ScanState {
            data: s.data.push(s.row),
            row: Seq::empty(),
            ..s
        },
        EventView::Start(MdTag::TableCell) => ScanState { cell: Seq::empty(), ..s },
        EventView::End(MdTag::TableCell) => ScanState {
            row: s.row.push(s.cell),
            cell: Seq::empty(),
            ..s
        },
        EventView::Text(t) => if s.in_table {
            ScanState { cell: s.cell + t, ..s }
        } else {
            s
        },
        _ => s,
    }
}

pub open spec fn scan_fold(es: Seq<EventView>) -> ScanState
    decreases es.len(),
{
    if es.len() == 0 {
        scan_start()
    } else {
        scan_step(scan_fold(es.drop_last()), es.last())
    }
}

/// The tables found in a stream of events, in order.
pub open spec fn tables_in(es: Seq<EventView>) -> Seq<TableView> {
    scan_fold(es).tables
}

pub open spec fn table_out_views(v: Seq<(Vec<String>, Vec<Vec<String>>)>) -> Seq<TableView> {
    v.map_values(
        |t: (Vec<String>, Vec<Vec<String>>)|
            (string_views(t.0@), t.1@.map_values(|r: Vec<String>| string_views(r@))),
    )
}

fn strings_of(v: &Vec<Vec<char>>) -> (r: Vec<String>)
    ensures
        string_views(r@) == views(v@),
{
    let mut out: Vec<String> = Vec::new();
    let mut i: usize = 0;
    while i < v.len()
        invariant
            i <= v.len(),
            string_views(out@) == views(v@).take(i as int),
        decreases v.len() - i,
    {
        let s = string_of(&v[i]);
        let ghost before = out@;
        out.push(s);
        assert(string_views(out@) =~= string_views(before).push(s@));
        assert(string_views(out@) =~= views(v@).take(i + 1));
        i = i + 1;
    }
    assert(views(v@).take(v.len() as int) =~= views(v@));
    out
}

/// The GFM tables of a stream of events, as (header cells, data rows), in the
/// order they stand; cell text is the text inside each cell.
pub fn tables_from_events(events: &Vec<MdEvent>) -> (r: Vec<(Vec<String>, Vec<Vec<String>>)>)
    ensures
        table_out_views(r@) == tables_in(event_views(events@)),
{
    let ghost ev = event_views(events@);
    let mut tables: Vec<(Vec<String>, Vec<Vec<String>>)> = Vec::new();
    let mut in_table: bool = false;
    let mut header: Vec<String> = Vec::new();
    let mut data: Vec<Vec<String>> = Vec::new();
    let mut row: Vec<Vec<char>> = Vec::new();
    let mut cell: Vec<char> = Vec::new();
    let mut i: usize = 0;
    assert(table_out_views(tables@) =~= Seq::<TableView>::empty());
    assert(string_views(header@) =~= Seq::<Seq<char>>::empty());
    assert(data@.map_values(|r: Vec<String>| string_views(r@)) =~= Seq::<Seq<Seq<char>>>::empty());
    assert(views(row@) =~= Seq::<Seq<char>>::empty());
    assert(cell@ =~= Seq::<char>::empty());
    while i < events.len()
        invariant
            i <= events.len(),
            ev == event_views(events@),
            scan_fold(ev.take(i as int)) == (ScanState {
                tables: table_out_views(tables@),
                in_table,
                header: string_views(header@),
                data: data@.map_values(|r: Vec<String>| string_views(r@)),
                row: views(row@),
                cell: cell@,
            }),
        decreases events.len() - i,
    {
        assert(ev.take(i + 1).drop_last() =~= ev.take(i as int));
        assert(ev.take(i + 1).last() == events@[i as int]@);
        let ghost t0 = tables@;
        let ghost h0 = header@;
        let ghost d0 = data@;
        let ghost r0 = row@;
        let ghost c0 = cell@;
        match &events[i] {
            MdEvent::Start(MdTag::Table) => {
                in_table = true;
                header = Vec::new();
                data = Vec::new();
                assert(string_views(header@) =~= Seq::<Seq<char>>::empty());
                assert(data@.map_values(|r: Vec<String>| string_views(r@)) =~= Seq::<Seq<Seq<char>>>::empty());
            },
            MdEvent::End(MdTag::Table) => {
                in_table = false;
                let mut h: Vec<String> = Vec::new();
                let mut d: Vec<Vec<String>> = Vec::new();
                std::mem::swap(&mut h, &mut header);
                std::mem::swap(&mut d, &mut data);
                tables.push((h, d));
                assert(table_out_views(tables@) =~= table_out_views(t0).push(
                    (string_views(h0), d0.map_values(|r: Vec<String>| string_views(r@))),
                ));
                assert(string_views(header@) =~= Seq::<Seq<char>>::empty());
                assert(data@.map_values(|r: Vec<String>| string_views(r@)) =~= Seq::<Seq<Seq<char>>>::empty());
            },
            MdEvent::Start(MdTag::TableHead) | MdEvent::Start(MdTag::TableRow) => {
                row = Vec::new();
                assert(views(row@) =~= Seq::<Seq<char>>::empty());
            },
            MdEvent::End(MdTag::TableHead) => {
                header = strings_of(&row);
                row = Vec::new();
                assert(views(row@) =~= Seq::<Seq<char>>::empty());
            },
            MdEvent::End(MdTag::TableRow) => {
                let r = strings_of(&row);
                data.push(r);
                assert(data@.map_values(|r: Vec<String>| string_views(r@)) =~= d0.map_values(
                    |r: Vec<String>| string_views(r@),
                ).push(views(r0)));
                row = Vec::new();
                assert(views(row@) =~= Seq::<Seq<char>>::empty());
            },
            MdEvent::Start(MdTag::TableCell) => {
                cell = Vec::new();
            },
            MdEvent::End(MdTag::TableCell) => {
                let mut c: Vec<char> = Vec::new();
                std::mem::swap(&mut c, &mut cell);
                row.push(c);
                assert(views(row@) =~= views(r0).push(c0));
            },
            MdEvent::Text(t) => {
                if in_table {
                    let c = chars_of(t.as_str());
                    push_all(&mut cell, &c);
                }
            },
            _ => {},
        }
        i = i + 1;
    }
    assert(ev.take(events.len() as int) =~= ev);
    tables
}

/// The GFM tables of a Markdown document, as (header cells, data rows).
pub fn extract_tables_from_markdown(markdown: &str) -> (r: Vec<(Vec<String>, Vec<Vec<String>>)>)
    ensures
        table_out_views(r@) == tables_in(markdown_events(markdown@, OPT_TABLES)),
{
    let events = markdown_to_events(markdown, false);
    tables_from_events(&events)
}

// ---------------------------------------------------------------------------
// Export: the workbook
/// A cell write: row, column, text.
pub type CellWrite = (nat, nat, Seq<char>);

/// A sheet to write: its name and its cell writes, in order.
pub type SheetView = (Seq<char>, Seq<CellWrite>);

/// Each line in column A, one row per line.
pub open spec fn line_writes(ls: Seq<Seq<char>>) -> Seq<CellWrite> {
    Seq::new(ls.len(), |i: int| (i as nat, 0nat, ls[i]))
}

/// A row's cells at row `r`, columns from 0.
pub open spec fn row_writes(r: nat, cells: Seq<Seq<char>>) -> Seq<CellWrite> {
    Seq::new(cells.len(), |c: int| (r, c as nat, cells[c]))
}

/// Data rows from spreadsheet row 1 on.
pub open spec fn data_writes(rows: Seq<Seq<Seq<char>>>) -> Seq<CellWrite>
    decreases rows.len(),
{
    if rows.len() == 0 {
        Seq::empty()
    } else {
        data_writes(rows.drop_last()) + row_writes(rows.len() as nat, rows.last())
    }
}

/// The sheet for the `k`th table (from 0): named `Table{k+1}`, the header in
/// row 0 and the data rows after it, all as text.
pub open spec fn table_sheet(k: nat, t: TableView) -> SheetView {
    ("Table"@ + decimal(k + 1), row_writes(0, t.0) + data_writes(t.1))
}

/// What a workbook for a document holds: a sheet per table, or, when there is
/// no table, one sheet `Sheet1` with each line of the document in column A.
pub open spec fn workbook_plan(md: Seq<char>, tables: Seq<TableView>) -> Seq<SheetView> {
    if tables.len() == 0 {
        seq![("Sheet1"@, line_writes(lines(md)))]
    } else {
        Seq::new(tables.len(), |k: int| table_sheet(k as nat, tables[k]))
    }
}

pub open spec fn write_views(v: Seq<(usize, usize, String)>) -> Seq<CellWrite> {
    v.map_values(|w: (usize, usize, String)| (w.0 as nat, w.1 as nat, w.2@))
}

pub open spec fn plan_views(v: Seq<(String, Vec<(usize, usize, String)>)>) -> Seq<SheetView> {
    v.map_values(|s: (String, Vec<(usize, usize, String)>)| (s.0@, write_views(s.1@)))
}

fn push_row_writes(out: &mut Vec<(usize, usize, String)>, r: usize, cells: &Vec<String>)
    ensures
        write_views(final(out)@) == write_views(old(out)@) + row_writes(
            r as nat,
            string_views(cells@),
        ),
{
    let mut c: usize = 0;
    while c < cells.len()
        invariant
            c <= cells.len(),
            write_views(out@) == write_views(old(out)@) + row_writes(
                r as nat,
                string_views(cells@),
            ).take(c as int),
        decreases cells.len() - c,
    {
        let ghost before = out@;
        let text = string_of(&chars_of(cells[c].as_str()));
        out.push((r, c, text));
        assert(write_views(out@) =~= write_views(before).push((r as nat, c as nat, cells@[c as int]@)));
        c = c + 1;
        assert(write_views(out@) =~= write_views(old(out)@) + row_writes(
            r as nat,
            string_views(cells@),
        ).take(c as int));
    }
    assert(row_writes(r as nat, string_views(cells@)).take(cells.len() as int) =~= row_writes(
        r as nat,
        string_views(cells@),
    ));
}

/// What the workbook for a document holds, given the document's tables (as
/// [`extract_tables_from_markdown`] gives them).
pub fn workbook_plan_for(markdown: &str, tables: &Vec<(Vec<String>, Vec<Vec<String>>)>) -> (r: Vec<
    (String, Vec<(usize, usize, String)>),
>)
    ensures
        plan_views(r@) == workbook_plan(markdown@, table_out_views(tables@)),
{
    let ghost tv = table_out_views(tables@);
    let mut plan: Vec<(String, Vec<(usize, usize, String)>)> = Vec::new();
    if tables.len() == 0 {
        let md = chars_of(markdown);
        let ls = lines_of(&md);
        let mut writes: Vec<(usize, usize, String)> = Vec::new();
        let mut i: usize = 0;
        while i < ls.len()
            invariant
                i <= ls.len(),
                views(ls@) == lines(markdown@),
                write_views(writes@) == line_writes(views(ls@)).take(i as int),
            decreases ls.len() - i,
        {
            let ghost before = writes@;
            let text = string_of(&ls[i]);
            writes.push((i, 0, text));
            assert(write_views(writes@) =~= write_views(before).push((i as nat, 0nat, ls@[i as int]@)));
            i = i + 1;
            assert(write_views(writes@) =~= line_writes(views(ls@)).take(i as int));
        }
        assert(line_writes(views(ls@)).take(ls.len() as int) =~= line_writes(views(ls@)));
        let name = string_of(&chars_of("Sheet1"));
        plan.push((name, writes));
        assert(plan_views(plan@) =~= workbook_plan(markdown@, tv));
        return plan;
    }
    let mut k: usize = 0;
    while k < tables.len()
        invariant
            k <= tables.len(),
            tv == table_out_views(tables@),
            tv.len() > 0,
            plan_views(plan@) == workbook_plan(markdown@, tv).take(k as int),
        decreases tables.len() - k,
    {
        let t = &tables[k];
        let mut name = chars_of("Table");
        push_decimal(&mut name, (k as u128) + 1);
        let mut writes: Vec<(usize, usize, String)> = Vec::new();
        push_row_writes(&mut writes, 0, &t.0);
        let ghost dv = t.1@.map_values(|r: Vec<String>| string_views(r@));
        let mut r: usize = 0;
        assert(write_views(writes@) =~= row_writes(0, string_views(t.0@)) + data_writes(dv.take(0)));
        while r < t.1.len()
            invariant
                r <= t.1.len(),
                dv == t.1@.map_values(|r: Vec<String>| string_views(r@)),
                write_views(writes@) == row_writes(0, string_views(t.0@)) + data_writes(dv.take(r as int)),
            decreases t.1.len() - r,
        {
            push_row_writes(&mut writes, r + 1, &t.1[r]);
            assert(dv.take(r + 1).drop_last() =~= dv.take(r as int));
            assert(dv[r as int] == string_views(t.1@[r as int]@));
            r = r + 1;
            assert(write_views(writes@) =~= row_writes(0, string_views(t.0@)) + data_writes(dv.take(r as int)));
        }
        assert(dv.take(t.1.len() as int) =~= dv);
        let ghost before = plan@;
        let name_s = string_of(&name);
        plan.push((name_s, writes));
        assert(tv[k as int] == (string_views(t.0@), dv));
        assert(plan_views(plan@) =~= plan_views(before).push(table_sheet(k as nat, tv[k as int])));
        k = k + 1;
        assert(plan_views(plan@) =~= workbook_plan(markdown@, tv).take(k as int));
    }
    assert(workbook_plan(markdown@, tv).take(tables.len() as int) =~= workbook_plan(markdown@, tv));
    plan
}

/// What the workbook for a document holds: one sheet per pipe table, or the
/// lines of the document when it has none.
pub fn workbook_plan_of(markdown: &str) -> (r: Vec<(String, Vec<(usize, usize, String)>)>)
    ensures
        plan_views(r@) == workbook_plan(markdown@, tables_in(markdown_events(markdown@, OPT_TABLES))),
{
    let tables = extract_tables_from_markdown(markdown);
    workbook_plan_for(markdown, &tables)
}

#[verifier::external_type_specification]
#[verifier::external_body]
pub struct ExWorkbook(Workbook);

#[verifier::external_type_specification]
#[verifier::external_body]
pub struct ExWorksheet(Worksheet);

#[verifier::external_type_specification]
#[verifier::external_body]
pub struct ExXlsxError(XlsxError);

/// The name of a rust_xlsxwriter worksheet.
pub uninterp spec fn xlsx_sheet_name_of(ws: Worksheet) -> Seq<char>;

/// The text cells stored in a rust_xlsxwriter worksheet, by (row, column).
pub uninterp spec fn xlsx_cells_of(ws: Worksheet) -> Map<(nat, nat), Seq<char>>;

/// A sheet as a workbook holds it: its name and its text cells.
pub type StoredSheet = (Seq<char>, Map<(nat, nat), Seq<char>>);

/// The sheets of a rust_xlsxwriter workbook, in order.
pub uninterp spec fn xlsx_sheets_of(wb: Workbook) -> Seq<StoredSheet>;

/// A sheet without cells.
pub open spec fn no_cells() -> Map<(nat, nat), Seq<char>> {
    Map::empty()
}

/// A name that Excel accepts for a sheet: not blank, at most 31 characters,
/// none of `* ? : [ ] \ /`, and no apostrophe first or last.
pub open spec fn valid_sheet_name(name: Seq<char>) -> bool {
    &&& 0 < name.len() <= 31
    &&& forall|i: int|
        0 <= i < name.len() ==> !(#[trigger] name[i] == '*' || name[i] == '?' || name[i] == ':'
            || name[i] == '[' || name[i] == ']' || name[i] == '\\' || name[i] == '/')
    &&& name[0] != '\''
    &&& name.last() != '\''
}

/// Largest row, column and text length that a string cell can have.
pub const ROW_LIMIT: u64 = 1048576;

pub const COLUMN_LIMIT: u64 = 16384;

pub const TEXT_LIMIT: u64 = 32767;

/// Whether writing text at a position succeeds: empty text always (nothing
/// is stored), other text inside the sheet and within the length limit.
pub open spec fn cell_writable(row: nat, col: nat, text: Seq<char>) -> bool {
    text.len() == 0 || (row < ROW_LIMIT && col < COLUMN_LIMIT && text.len() <= TEXT_LIMIT)
}

/// Relies on `rust_xlsxwriter::Workbook::new`: a workbook without sheets.
pub assume_specification[ Workbook::new ]() -> (r: Workbook)
    ensures
        xlsx_sheets_of(r) == Seq::<StoredSheet>::empty(),
;

/// Relies on `rust_xlsxwriter::Workbook::push_worksheet`: the sheet appended
/// (a sheet without a name would be renamed `Sheet{n}`, hence the requirement).
pub assume_specification[ Workbook::push_worksheet ](wb: &mut Workbook, ws: Worksheet)
    requires
        xlsx_sheet_name_of(ws).len() > 0,
    ensures
        xlsx_sheets_of(*final(wb)) == xlsx_sheets_of(*old(wb)).push(
            (xlsx_sheet_name_of(ws), xlsx_cells_of(ws)),
        ),
;

/// Relies on `rust_xlsxwriter::Workbook::save_to_buffer`: the workbook as
/// XLSX bytes, stamped with the time of saving.
pub assume_specification[ Workbook::save_to_buffer ](wb: &mut Workbook) -> Result<Vec<u8>, XlsxError>;

/// Relies on `rust_xlsxwriter::Worksheet::new` and `Worksheet::set_name`: an
/// empty sheet with that name, or the error for a name Excel refuses
/// (`utility::validate_sheetname`).
#[verifier::external_body]
fn named_sheet(name: &str) -> (r: Result<Worksheet, XlsxError>)
    ensures
        r is Ok <==> valid_sheet_name(name@),
        r matches Ok(ws) ==> xlsx_sheet_name_of(ws) == name@ && xlsx_cells_of(ws) == no_cells(),
{
    let mut ws = Worksheet::new();
    ws.set_name(name)?;
    Ok(ws)
}

/// Relies on `rust_xlsxwriter::Worksheet::write_string` (`store_string`): empty
/// text is ignored; other text is stored at the cell, replacing what was
/// there, or refused when the cell is out of range or the text too long.
#[verifier::external_body]
fn write_text(ws: &mut Worksheet, row: u32, col: u16, text: &str) -> (r: Result<(), XlsxError>)
    ensures
        r is Ok <==> cell_writable(row as nat, col as nat, text@),
        xlsx_sheet_name_of(*final(ws)) == xlsx_sheet_name_of(*old(ws)),
        xlsx_cells_of(*final(ws)) == if r is Ok && text@.len() > 0 {
            xlsx_cells_of(*old(ws)).insert((row as nat, col as nat), text@)
        } else {
            xlsx_cells_of(*old(ws))
        },
{
    ws.write_string(row, col, text)?;
    Ok(())
}

/// Relies on `Display for rust_xlsxwriter::XlsxError`: the error's message.
#[verifier::external_body]
fn xlsx_error_text(e: &XlsxError) -> (r: String) {
    e.to_string()
}

fn xlsx_failure(context: &str, e: &XlsxError) -> (r: ConversionError)
    ensures
        exists|cause: Seq<char>| r.0@ == context@ + ": "@ + cause,
{
    let m = xlsx_error_text(e);
    let r = ConversionError::with_cause(context, m.as_str());
    assert(r.0@ == context@ + ": "@ + m@);
    r
}

/// The cells that a plan's writes leave in a sheet: each write with text
/// stores it at its cell, a later write replacing an earlier one.
pub open spec fn stored_cells(ws: Seq<CellWrite>) -> Map<(nat, nat), Seq<char>>
    decreases ws.len(),
{
    if ws.len() == 0 {
        Map::empty()
    } else if ws.last().2.len() == 0 {
        stored_cells(ws.drop_last())
    } else {
        stored_cells(ws.drop_last()).insert((ws.last().0, ws.last().1), ws.last().2)
    }
}

/// Whether a sheet's name and every one of its cell writes succeed.
pub open spec fn sheet_writable(s: SheetView) -> bool {
    valid_sheet_name(s.0) && forall|i: int|
        0 <= i < s.1.len() ==> cell_writable(#[trigger] s.1[i].0, s.1[i].1, s.1[i].2)
}

/// Whether every sheet name and every cell write of a plan succeeds.
pub open spec fn plan_writable(plan: Seq<SheetView>) -> bool {
    forall|k: int| 0 <= k < plan.len() ==> sheet_writable(#[trigger] plan[k])
}

/// The sheets a workbook holds once the plan is written.
pub open spec fn written_sheets(plan: Seq<SheetView>) -> Seq<StoredSheet> {
    plan.map_values(|s: SheetView| (s.0, stored_cells(s.1)))
}

/// The plan of the workbook for a Markdown document.
pub open spec fn plan_of(md: Seq<char>) -> Seq<SheetView> {
    workbook_plan(md, tables_in(markdown_events(md, OPT_TABLES)))
}

/// The workbook for a Markdown document, every cell as text: it holds the
/// sheets of [`workbook_plan_of`], and is built exactly when every sheet name
/// and cell is one the writer accepts.
#[verifier::spinoff_prover]
#[verifier::rlimit(60)]
pub fn workbook_for_markdown(markdown: &str) -> (r: Result<Workbook, ConversionError>)
    ensures
        r is Ok <==> plan_writable(plan_of(markdown@)),
        r matches Ok(wb) ==> xlsx_sheets_of(wb) == written_sheets(plan_of(markdown@)),
        r matches Err(e) ==> exists|context: Seq<char>, cause: Seq<char>|
            e.0@ == context + ": "@ + cause && (context == "Failed to create sheet"@ || context
                == "Failed to write cell"@),
{
    let plan = workbook_plan_of(markdown);
    let ghost pv = plan_views(plan@);
    let mut wb = Workbook::new();
    let mut k: usize = 0;
    while k < plan.len()
        invariant
            k <= plan.len(),
            pv == plan_views(plan@),
            pv == plan_of(markdown@),
            forall|j: int| 0 <= j < k ==> sheet_writable(#[trigger] pv[j]),
            xlsx_sheets_of(wb) == written_sheets(pv).take(k as int),
        decreases plan.len() - k,
    {
        let sheet = &plan[k];
        let ghost sv = pv[k as int];
        assert(sv == (sheet.0@, write_views(sheet.1@)));
        let mut ws = match named_sheet(sheet.0.as_str()) {
            Ok(ws) => ws,
            Err(e) => {
                assert(!sheet_writable(pv[k as int]));
                assert(!plan_writable(pv));
                return Err(xlsx_failure("Failed to create sheet", &e));
            },
        };
        let writes = &sheet.1;
        let mut i: usize = 0;
        while i < writes.len()
            invariant
                i <= writes.len(),
                k < pv.len(),
                pv == plan_of(markdown@),
                sv == pv[k as int],
                sv == (sheet.0@, write_views(writes@)),
                xlsx_sheet_name_of(ws) == sv.0,
                xlsx_cells_of(ws) == stored_cells(sv.1.take(i as int)),
                forall|j: int| 0 <= j < i ==> cell_writable(#[trigger] sv.1[j].0, sv.1[j].1, sv.1[j].2),
            decreases writes.len() - i,
        {
            let w = &writes[i];
            // a position past what the index types hold goes over as the
            // largest one, which the writer refuses as out of range
            let row: u32 = if w.0 > u32::MAX as usize {
                u32::MAX
            } else {
                w.0 as u32
            };
            let col: u16 = if w.1 > u16::MAX as usize {
                u16::MAX
            } else {
                w.1 as u16
            };
            assert(sv.1[i as int] == (w.0 as nat, w.1 as nat, w.2@));
            assert(sv.1.take(i + 1).drop_last() =~= sv.1.take(i as int));
            assert(cell_writable(row as nat, col as nat, w.2@) == cell_writable(
                w.0 as nat,
                w.1 as nat,
                w.2@,
            ));
            match write_text(&mut ws, row, col, w.2.as_str()) {
                Ok(()) => {},
                Err(e) => {
                    assert(!cell_writable(sv.1[i as int].0, sv.1[i as int].1, sv.1[i as int].2));
                    assert(!sheet_writable(pv[k as int]));
                    assert(!plan_writable(pv));
                    return Err(xlsx_failure("Failed to write cell", &e));
                },
            }
            i = i + 1;
        }
        assert(sv.1.take(writes.len() as int) =~= sv.1);
        assert(sheet_writable(pv[k as int]));
        let ghost before = xlsx_sheets_of(wb);
        wb.push_worksheet(ws);
        k = k + 1;
        assert(written_sheets(pv).take(k as int) =~= before.push((sv.0, stored_cells(sv.1))));
    }
    assert(written_sheets(pv).take(plan.len() as int) =~= written_sheets(pv));
    Ok(wb)
}

/// Writes a workbook for a Markdown document, as [`workbook_for_markdown`]
/// builds it, and returns its bytes. Fails when the writer refuses a sheet
/// name or a cell, or cannot save.
pub fn markdown_to_xlsx(markdown: &str) -> (r: Result<Vec<u8>, ConversionError>)
    ensures
        r matches Err(e) ==> exists|context: Seq<char>, cause: Seq<char>|
            e.0@ == context + ": "@ + cause && (context == "Failed to create sheet"@ || context
                == "Failed to write cell"@ || context == "Failed to save workbook"@),
        r is Err && plan_writable(plan_of(markdown@)) ==> exists|cause: Seq<char>|
            r->Err_0.0@ == "Failed to save workbook"@ + ": "@ + cause,
        !plan_writable(plan_of(markdown@)) ==> r is Err && exists|context: Seq<char>, cause: Seq<char>|
            r->Err_0.0@ == context + ": "@ + cause && (context == "Failed to create sheet"@
                || context == "Failed to write cell"@),
{
    let mut wb = workbook_for_markdown(markdown)?;
    match wb.save_to_buffer() {
        Ok(bytes) => Ok(bytes),
        Err(e) => Err(xlsx_failure("Failed to save workbook", &e)),
    }
}

} // verus!
