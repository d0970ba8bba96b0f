//! Word-processing converter.
//!
//! Import renders a document's top-level blocks (paragraphs with styled runs,
//! tables) as Markdown. Export turns Markdown events into paragraphs and tables
//! and builds the document with docx-rs.
use vstd::prelude::*;

use std::io::Cursor;


use crate::error::ConversionError;
use crate::markdown::{event_views, markdown_events, markdown_to_events, EventView, MdEvent, MdTag, OPT_STRIKETHROUGH, OPT_TABLES};
use crate::table::{cell_at, markdown_table, max_row_width, max_width, render_markdown_table, table_views};
use crate::text::{
    chars_of, decimal, is_blank, is_blank_chars, lower_of, lowercase, push_all, push_decimal,
    push_str, same_chars, string_of, trim, trim_chars, views,
};
use crate::pptx::string_views;

verus! {

// ---------------------------------------------------------------------------
// The document as read
/// A piece of a run's content.
pub enum RunPiece {
    Text(String),
    Tab,
    /// Anything else a run holds (drawings, fields, ...): dropped.
    Other,
}

/// A run: content sharing one formatting.
pub struct DocRun {
    pub pieces: Vec<RunPiece>,
    pub bold: bool,
    pub italic: bool,
}

/// A child of a paragraph.
pub enum ParagraphChild {
    Run(DocRun),
    /// Anything but a run (hyperlinks, bookmarks, ...): dropped.
    Other,
}

/// A paragraph with its style id, if it has one.
pub struct DocParagraph {
    pub style: Option<String>,
    pub children: Vec<ParagraphChild>,
}

/// A child of a table cell.
pub enum CellContent {
    Paragraph(DocParagraph),
    Other,
}

/// A table: rows of cells, each cell a list of contents.
pub struct DocTable {
    pub rows: Vec<Vec<Vec<CellContent>>>,
}

/// A top-level child of the document body.
pub enum DocBlock {
    Paragraph(DocParagraph),
    Table(DocTable),
    /// Section properties, structured tags, ...: skipped.
    Other,
}

pub open spec fn piece_text(p: RunPiece) -> Seq<char> {
    match p {
        RunPiece::Text(s) => s@,
        RunPiece::Tab => seq!['\t'],
        RunPiece::Other => Seq::empty(),
    }
}

pub open spec fn pieces_text(ps: Seq<RunPiece>) -> Seq<char>
    decreases ps.len(),
{
    if ps.len() == 0 {
        Seq::empty()
    } else {
        pieces_text(ps.drop_last()) + piece_text(ps.last())
    }
}

/// Text wrapped in `***`, `**` or `*` as it is bold and italic, bold, or italic.
pub open spec fn emphasized(t: Seq<char>, bold: bool, italic: bool) -> Seq<char> {
    if bold && italic {
        "***"@ + t + "***"@
    } else if bold {
        "**"@ + t + "**"@
    } else if italic {
        "*"@ + t + "*"@
    } else {
        t
    }
}

/// The Markdown of a run: its text and tabs, emphasized; nothing when empty.
pub open spec fn run_markdown(r: DocRun) -> Seq<char> {
    let t = pieces_text(r.pieces@);
    if t.len() == 0 {
        Seq::empty()
    } else {
        emphasized(t, r.bold, r.italic)
    }
}

pub open spec fn children_markdown(cs: Seq<ParagraphChild>) -> Seq<char>
    decreases cs.len(),
{
    if cs.len() == 0 {
        Seq::empty()
    } else {
        children_markdown(cs.drop_last()) + match cs.last() {
            ParagraphChild::Run(r) => run_markdown(r),
            ParagraphChild::Other => Seq::empty(),
        }
    }
}

/// `level` number signs and a space.
pub open spec fn hashes(level: nat) -> Seq<char>
    decreases level,
{
    if level == 0 {
        " "@
    } else {
        seq!['#'] + hashes((level - 1) as nat)
    }
}

/// The heading level that a lower-cased style id names (`heading1` or
/// `heading 1`, up to 6), or 0.
pub open spec fn heading_level_of(lowered: Seq<char>) -> nat {
    if lowered == "heading1"@ || lowered == "heading 1"@ {
        1
    } else if lowered == "heading2"@ || lowered == "heading 2"@ {
        2
    } else if lowered == "heading3"@ || lowered == "heading 3"@ {
        3
    } else if lowered == "heading4"@ || lowered == "heading 4"@ {
        4
    } else if lowered == "heading5"@ || lowered == "heading 5"@ {
        5
    } else if lowered == "heading6"@ || lowered == "heading 6"@ {
        6
    } else {
        0
    }
}

/// The Markdown heading marker for a lower-cased style id: `# ` to `###### `,
/// or nothing for a style that is not a heading.
pub open spec fn heading_prefix(lowered: Seq<char>) -> Seq<char> {
    let l = heading_level_of(lowered);
    if l == 0 {
        Seq::empty()
    } else {
        hashes(l)
    }
}

pub open spec fn style_prefix(style: Option<String>) -> Seq<char> {
    match style {
        Some(s) => heading_prefix(lower_of(s@)),
        None => Seq::empty(),
    }
}

/// The Markdown of a paragraph: heading marker and runs; nothing when the
/// runs render to nothing.
pub open spec fn paragraph_markdown(p: DocParagraph) -> Seq<char> {
    let t = children_markdown(p.children@);
    if t.len() == 0 {
        Seq::empty()
    } else {
        style_prefix(p.style) + t
    }
}

/// The text of a table cell: its non-empty paragraphs, each trimmed, joined by
/// single spaces.
pub open spec fn cell_text(cs: Seq<CellContent>) -> Seq<char>
    decreases cs.len(),
{
    if cs.len() == 0 {
        Seq::empty()
    } else {
        let acc = cell_text(cs.drop_last());
        match cs.last() {
            CellContent::Paragraph(p) => {
                let m = paragraph_markdown(p);
                if m.len() > 0 {
                    (if acc.len() > 0 {
                        acc + " "@
                    } else {
                        acc
                    }) + trim(m)
                } else {
                    acc
                }
            },
            CellContent::Other => acc,
        }
    }
}

pub open spec fn row_texts(row: Seq<Vec<CellContent>>) -> Seq<Seq<char>> {
    row.map_values(|c: Vec<CellContent>| cell_text(c@))
}

/// The cell texts of the rows that have cells.
pub open spec fn table_text_rows(rows: Seq<Vec<Vec<CellContent>>>) -> Seq<Seq<Seq<char>>>
    decreases rows.len(),
{
    if rows.len() == 0 {
        Seq::empty()
    } else if rows.last()@.len() > 0 {
        table_text_rows(rows.drop_last()).push(row_texts(rows.last()@))
    } else {
        table_text_rows(rows.drop_last())
    }
}

/// The Markdown of a table: a GFM table, the first row as header.
pub open spec fn table_markdown(t: DocTable) -> Seq<char> {
    markdown_table(table_text_rows(t.rows@))
}

/// The Markdown rendered so far, and whether no block has been rendered yet.
pub open spec fn document_state(blocks: Seq<DocBlock>) -> (Seq<char>, bool)
    decreases blocks.len(),
{
    if blocks.len() == 0 {
        (Seq::empty(), true)
    } else {
        let (out, first) = document_state(blocks.drop_last());
        let gap = if first {
            out
        } else {
            out + "\n"@
        };
        match blocks.last() {
            DocBlock::Paragraph(p) => {
                let m = paragraph_markdown(p);
                if is_blank(m) {
                    (gap, first)
                } else {
                    (gap + m + "\n"@, false)
                }
            },
            DocBlock::Table(t) => {
                let m = table_markdown(t);
                if m.len() == 0 {
                    (gap + "\n"@, false)
                } else {
                    (gap + m, false)
                }
            },
            DocBlock::Other => (out, first),
        }
    }
}

/// The Markdown of a document: its blocks, each ended by a line break, with a
/// blank line between two; a blank paragraph still adds a blank line after
/// the first block, and a table without cells renders as an empty line.
pub open spec fn document_markdown(blocks: Seq<DocBlock>) -> Seq<char> {
    document_state(blocks).0
}

fn eq_literal(a: &Vec<char>, lit: &str) -> (r: bool)
    ensures
        r == (a@ == lit@),
{
    let b = chars_of(lit);
    same_chars(a, &b)
}

fn push_hashes(out: &mut Vec<char>, level: usize)
    ensures
        final(out)@ == old(out)@ + hashes(level as nat),
    decreases level,
{
    if level == 0 {
        push_str(out, " ");
    } else {
        out.push('#');
        let ghost mid = out@;
        push_hashes(out, level - 1);
        assert(out@ =~= old(out)@ + hashes(level as nat));
    }
}

fn heading_level_chars(lowered: &Vec<char>) -> (r: usize)
    ensures
        r as nat == heading_level_of(lowered@),
{
    if eq_literal(lowered, "heading1") || eq_literal(lowered, "heading 1") {
        1
    } else if eq_literal(lowered, "heading2") || eq_literal(lowered, "heading 2") {
        2
    } else if eq_literal(lowered, "heading3") || eq_literal(lowered, "heading 3") {
        3
    } else if eq_literal(lowered, "heading4") || eq_literal(lowered, "heading 4") {
        4
    } else if eq_literal(lowered, "heading5") || eq_literal(lowered, "heading 5") {
        5
    } else if eq_literal(lowered, "heading6") || eq_literal(lowered, "heading 6") {
        6
    } else {
        0
    }
}

fn heading_prefix_chars(lowered: &Vec<char>) -> (r: Vec<char>)
    ensures
        r@ == heading_prefix(lowered@),
{
    let l = heading_level_chars(lowered);
    let mut out: Vec<char> = Vec::new();
    if l > 0 {
        push_hashes(&mut out, l);
    }
    assert(out@ =~= heading_prefix(lowered@));
    out
}

/// The heading marker for a style id already lower-cased.
pub fn heading_prefix_for(lowered: &str) -> (r: String)
    ensures
        r@ == heading_prefix(lowered@),
{
    string_of(&heading_prefix_chars(&chars_of(lowered)))
}

fn run_chars(run: &DocRun) -> (r: Vec<char>)
    ensures
        r@ == run_markdown(*run),
{
    let mut t: Vec<char> = Vec::new();
    let mut i: usize = 0;
    while i < run.pieces.len()
        invariant
            i <= run.pieces.len(),
            t@ == pieces_text(run.pieces@.take(i as int)),
        decreases run.pieces.len() - i,
    {
        assert(run.pieces@.take(i + 1).drop_last() =~= run.pieces@.take(i as int));
        match &run.pieces[i] {
            RunPiece::Text(s) => {
                let c = chars_of(s.as_str());
                push_all(&mut t, &c);
            },
            RunPiece::Tab => {
                t.push('\t');
                assert(t@ =~= pieces_text(run.pieces@.take(i + 1)));
            },
            RunPiece::Other => {
                assert(t@ =~= pieces_text(run.pieces@.take(i + 1)));
            },
        }
        i = i + 1;
    }
    assert(run.pieces@.take(run.pieces.len() as int) =~= run.pieces@);
    if t.len() == 0 {
        return Vec::new();
    }
    let mut out: Vec<char> = Vec::new();
    if run.bold && run.italic {
        push_str(&mut out, "***");
        push_all(&mut out, &t);
        push_str(&mut out, "***");
    } else if run.bold {
        push_str(&mut out, "**");
        push_all(&mut out, &t);
        push_str(&mut out, "**");
    } else if run.italic {
        push_str(&mut out, "*");
        push_all(&mut out, &t);
        push_str(&mut out, "*");
    } else {
        push_all(&mut out, &t);
    }
    out
}

/// The Markdown of one run: `***text***` when bold and italic, `**text**` when
/// bold, `*text*` when italic, else the text; only text and tabs count, and a
/// run without them renders to nothing.
pub fn run_to_markdown(run: &DocRun) -> (r: String)
    ensures
        r@ == run_markdown(*run),
{
    string_of(&run_chars(run))
}

fn paragraph_chars(p: &DocParagraph) -> (r: Vec<char>)
    ensures
        r@ == paragraph_markdown(*p),
{
    let mut t: Vec<char> = Vec::new();
    let mut i: usize = 0;
    while i < p.children.len()
        invariant
            i <= p.children.len(),
            t@ == children_markdown(p.children@.take(i as int)),
        decreases p.children.len() - i,
    {
        assert(p.children@.take(i + 1).drop_last() =~= p.children@.take(i as int));
        match &p.children[i] {
            ParagraphChild::Run(r) => {
                let c = run_chars(r);
                push_all(&mut t, &c);
            },
            ParagraphChild::Other => {
                assert(t@ =~= children_markdown(p.children@.take(i + 1)));
            },
        }
        i = i + 1;
    }
    assert(p.children@.take(p.children.len() as int) =~= p.children@);
    if t.len() == 0 {
        return Vec::new();
    }
    let mut out: Vec<char> = match &p.style {
        Some(s) => {
            let lowered = lowercase(s.as_str());
            heading_prefix_chars(&chars_of(lowered.as_str()))
        },
        None => Vec::new(),
    };
    push_all(&mut out, &t);
    out
}

/// The Markdown of one paragraph: a `#` marker for a `Heading1`..`Heading6`
/// style (matched case-insensitively, with or without a space before the
/// digit), then its runs; nothing when the runs render to nothing.
pub fn paragraph_to_markdown(p: &DocParagraph) -> (r: String)
    ensures
        r@ == paragraph_markdown(*p),
{
    string_of(&paragraph_chars(p))
}

fn cell_chars(cs: &Vec<CellContent>) -> (r: Vec<char>)
    ensures
        r@ == cell_text(cs@),
{
    let mut acc: Vec<char> = Vec::new();
    let mut i: usize = 0;
    while i < cs.len()
        invariant
            i <= cs.len(),
            acc@ == cell_text(cs@.take(i as int)),
        decreases cs.len() - i,
    {
        assert(cs@.take(i + 1).drop_last() =~= cs@.take(i as int));
        match &cs[i] {
            CellContent::Paragraph(p) => {
                let m = paragraph_chars(p);
                if m.len() > 0 {
                    if acc.len() > 0 {
                        push_str(&mut acc, " ");
                    }
                    let tm = trim_chars(&m);
                    push_all(&mut acc, &tm);
                }
            },
            CellContent::Other => {},
        }
        i = i + 1;
    }
    assert(cs@.take(cs.len() as int) =~= cs@);
    acc
}

fn table_chars(t: &DocTable) -> (r: Vec<char>)
    ensures
        r@ == table_markdown(*t),
{
    let mut rows: Vec<Vec<Vec<char>>> = Vec::new();
    let mut i: usize = 0;
    while i < t.rows.len()
        invariant
            i <= t.rows.len(),
            table_views(rows@) == table_text_rows(t.rows@.take(i as int)),
        decreases t.rows.len() - i,
    {
        assert(t.rows@.take(i + 1).drop_last() =~= t.rows@.take(i as int));
        let row = &t.rows[i];
        if row.len() > 0 {
            let mut cells: Vec<Vec<char>> = Vec::new();
            let mut j: usize = 0;
            while j < row.len()
                invariant
                    j <= row.len(),
                    views(cells@) == row_texts(row@).take(j as int),
                decreases row.len() - j,
            {
                let c = cell_chars(&row[j]);
                let ghost before = cells@;
                cells.push(c);
                assert(views(cells@) =~= views(before).push(c@));
                assert(views(cells@) =~= row_texts(row@).take(j + 1));
                j = j + 1;
            }
            assert(row_texts(row@).take(row.len() as int) =~= row_texts(row@));
            let ghost before = rows@;
            rows.push(cells);
            assert(table_views(rows@) =~= table_views(before).push(row_texts(row@)));
        }
        i = i + 1;
    }
    assert(t.rows@.take(t.rows.len() as int) =~= t.rows@);
    render_markdown_table(&rows)
}

/// The Markdown of a table: the first row as header, a `---` separator, the
/// other rows as data, every line as wide as the longest row; rows without
/// cells are left out, and a table without cells renders to nothing.
pub fn table_to_markdown(t: &DocTable) -> (r: String)
    ensures
        r@ == table_markdown(*t),
{
    string_of(&table_chars(t))
}

/// The Markdown of a word-processing document from its top-level blocks:
/// paragraphs and tables in order, each ended by a line break and separated
/// from the one before by a blank line; a paragraph that renders blank adds only
/// the blank line (none before the first block); other blocks are skipped.
pub fn docx_to_markdown(blocks: &Vec<DocBlock>) -> (r: String)
    ensures
        r@ == document_markdown(blocks@),
{
    let mut out: Vec<char> = Vec::new();
    let mut first: bool = true;
    let mut i: usize = 0;
    while i < blocks.len()
        invariant
            i <= blocks.len(),
            document_state(blocks@.take(i as int)) == (out@, first),
        decreases blocks.len() - i,
    {
        assert(blocks@.take(i + 1).drop_last() =~= blocks@.take(i as int));
        match &blocks[i] {
            DocBlock::Paragraph(p) => {
                let m = paragraph_chars(p);
                if !first {
                    push_str(&mut out, "\n");
                }
                if !is_blank_chars(&m) {
                    push_all(&mut out, &m);
                    push_str(&mut out, "\n");
                    first = false;
                }
            },
            DocBlock::Table(t) => {
                if !first {
                    push_str(&mut out, "\n");
                }
                let m = table_chars(t);
                if m.len() > 0 {
                    push_all(&mut out, &m);
                } else {
                    push_str(&mut out, "\n");
                }
                first = false;
            },
            DocBlock::Other => {},
        }
        i = i + 1;
    }
    assert(blocks@.take(blocks.len() as int) =~= blocks@);
    string_of(&out)
}

// ---------------------------------------------------------------------------
// Export
/// A run to write: text with its formatting.
pub struct OutRun {
    pub text: String,
    pub bold: bool,
    pub italic: bool,
}

/// A block to write.
pub enum OutBlock {
    /// A paragraph, styled `Heading{level}` when it is a heading.
    Paragraph { heading: Option<u8>, runs: Vec<OutRun> },
    /// A table whose rows all have the same number of cells.
    Table { rows: Vec<Vec<String>> },
}

pub type RunView = (Seq<char>, bool, bool);

pub enum BlockView {
    Paragraph(Option<u8>, Seq<RunView>),
    Table(Seq<Seq<Seq<char>>>),
}

pub open spec fn run_views(v: Seq<OutRun>) -> Seq<RunView> {
    v.map_values(|r: OutRun| (r.text@, r.bold, r.italic))
}

pub open spec fn row_views(v: Seq<Vec<String>>) -> Seq<Seq<Seq<char>>> {
    v.map_values(|r: Vec<String>| string_views(r@))
}

impl View for OutBlock {
    type V = BlockView;

    open spec fn view(&self) -> BlockView {
        match self {
            OutBlock::Paragraph { heading, runs } => BlockView::Paragraph(*heading, run_views(runs@)),
            OutBlock::Table { rows } => BlockView::Table(row_views(rows@)),
        }
    }
}

pub open spec fn block_views(v: Seq<OutBlock>) -> Seq<BlockView> {
    v.map_values(|b: OutBlock| b@)
}

/// The state of the export while events stream through it.
pub struct ExportState {
    /// Blocks finished so far.
    pub blocks: Seq<BlockView>,
    /// Runs of the open paragraph.
    pub pending: Seq<RunView>,
    /// Text not yet closed into a run.
    pub text: Seq<char>,
    pub bold: bool,
    pub italic: bool,
    /// Level of the open heading.
    pub heading: Option<u8>,
    pub in_table: bool,
    pub rows: Seq<Seq<Seq<char>>>,
    pub row: Seq<Seq<char>>,
    pub cell: Seq<char>,
}

pub open spec fn initial_state() -> ExportState {
    ExportState {
        blocks: Seq::empty(),
        pending: Seq::empty(),
        text: Seq::empty(),
        bold: false,
        italic: false,
        heading: None,
        in_table: false,
        rows: Seq::empty(),
        row: Seq::empty(),
        cell: Seq::empty(),
    }
}

/// The open paragraph's runs, the open text closed into one more run.
pub open spec fn closed_runs(s: ExportState) -> Seq<RunView> {
    if s.text.len() > 0 {
        s.pending.push((s.text, s.bold, s.italic))
    } else {
        s.pending
    }
}

/// The open paragraph written out as a block, and a fresh one opened.
pub open spec fn flush(s: ExportState, heading: Option<u8>) -> ExportState {
    ExportState {
        blocks: s.blocks.push(BlockView::Paragraph(heading, closed_runs(s))),
        pending: Seq::empty(),
        text: Seq::empty(),
        ..s
    }
}

/// The open text closed into a run, before the formatting changes.
pub open spec fn close_text(s: ExportState) -> ExportState {
    ExportState { pending: closed_runs(s), text: Seq::empty(), ..s }
}

/// A row padded with empty cells to `w` cells.
pub open spec fn pad_row(row: Seq<Seq<char>>, w: nat) -> Seq<Seq<char>> {
    Seq::new(w, |i: int| cell_at(row, i))
}

pub open spec fn padded_rows(rows: Seq<Seq<Seq<char>>>) -> Seq<Seq<Seq<char>>> {
    rows.map_values(|r: Seq<Seq<char>>| pad_row(r, max_width(rows)))
}

/// How one event changes the export state.
pub open spec fn export_step(s: ExportState, e: EventView) -> ExportState {
    match e {
        EventView::Start(MdTag::Heading(l)) => ExportState { heading: Some(l), ..flush(s, None) },
        EventView::End(MdTag::Heading(_)) => ExportState {
            heading: None,
            ..flush(
                s,
                Some(
                    match s.heading {
                        Some(l) => l,
                        None => 1u8,
                    },
                ),
            )
        },
        EventView::End(MdTag::Paragraph) => flush(s, None),
        EventView::Start(MdTag::Strong) => ExportState { bold: true, ..close_text(s) },
        EventView::End(MdTag::Strong) => ExportState { bold: false, ..close_text(s) },
        EventView::Start(MdTag::Emphasis) => ExportState { italic: true, ..close_text(s) },
        EventView::End(MdTag::Emphasis) => ExportState { italic: false, ..close_text(s) },
        EventView::Start(MdTag::Table) => ExportState { in_table: true, rows: Seq::empty(), ..s },
        EventView::End(MdTag::Table) => ExportState {
            in_table: false,
            rows: Seq::empty(),
            blocks: if s.rows.len() > 0 {
                s.blocks.push(BlockView::Table(padded_rows(s.rows)))
            } else {
                s.blocks
            },
            ..s
        },
        EventView::Start(MdTag::TableHead) => ExportState { row: Seq::empty(), ..s },
        EventView::Start(MdTag::TableRow) => ExportState { row: Seq::empty(), ..s },
        EventView::End(MdTag::TableHead) => ExportState {
            rows: s.rows.push(s.row),
            row: Seq::empty(),
            ..s
        },
        EventView::End(MdTag::TableRow) => ExportState {
            rows: s.rows.push(s.row),
            row: Seq::empty(),
            ..s
        },
        EventView::Start(MdTag::TableCell) => ExportState { cell: Seq::empty(), ..s },
        EventView::End(MdTag::TableCell) => ExportState {
            row: s.row.push(s.cell),
            cell: Seq::empty(),
            ..s
        },
        EventView::Text(t) => if s.in_table {
            ExportState { cell: s.cell + t, ..s }
        } else {
            ExportState { text: s.text + t, ..s }
        },
        EventView::Break => if s.in_table {
            s
        } else {
            ExportState { text: s.text.push(' '), ..s }
        },
        _ => s,
    }
}

pub open spec fn export_fold(es: Seq<EventView>) -> ExportState
    decreases es.len(),
{
    if es.len() == 0 {
        initial_state()
    } else {
        export_step(export_fold(es.drop_last()), es.last())
    }
}

/// The blocks that a stream of events exports to: the state machine run over
/// every event, and what is left open written out as a last paragraph.
pub open spec fn export_blocks(es: Seq<EventView>) -> Seq<BlockView> {
    let s = export_fold(es);
    if s.text.len() > 0 || s.pending.len() > 0 {
        flush(s, None).blocks
    } else {
        s.blocks
    }
}

struct Exporter {
    blocks: Vec<OutBlock>,
    pending: Vec<OutRun>,
    text: Vec<char>,
    bold: bool,
    italic: bool,
    heading: Option<u8>,
    in_table: bool,
    rows: Vec<Vec<Vec<char>>>,
    row: Vec<Vec<char>>,
    cell: Vec<char>,
}

impl View for Exporter {
    type V = ExportState;

    closed spec fn view(&self) -> ExportState {
        ExportState {
            blocks: block_views(self.blocks@),
            pending: run_views(self.pending@),
            text: self.text@,
            bold: self.bold,
            italic: self.italic,
            heading: self.heading,
            in_table: self.in_table,
            rows: table_views(self.rows@),
            row: views(self.row@),
            cell: self.cell@,
        }
    }
}

impl Exporter {
    fn new() -> (r: Exporter)
        ensures
            r@ == initial_state(),
    {
        let r = Exporter {
            blocks: Vec::new(),
            pending: Vec::new(),
            text: Vec::new(),
            bold: false,
            italic: false,
            heading: None,
            in_table: false,
            rows: Vec::new(),
            row: Vec::new(),
            cell: Vec::new(),
        };
        assert(block_views(r.blocks@) =~= Seq::<BlockView>::empty());
        assert(run_views(r.pending@) =~= Seq::<RunView>::empty());
        assert(table_views(r.rows@) =~= Seq::<Seq<Seq<char>>>::empty());
        assert(views(r.row@) =~= Seq::<Seq<char>>::empty());
        assert(r.text@ =~= Seq::<char>::empty());
        assert(r.cell@ =~= Seq::<char>::empty());
        assert(r@ =~~= initial_state());
        r
    }

    fn close_text(&mut self)
        ensures
            final(self)@ == close_text(old(self)@),
    {
        if self.text.len() > 0 {
            let run = OutRun { text: string_of(&self.text), bold: self.bold, italic: self.italic };
            let ghost before = self.pending@;
            self.pending.push(run);
            assert(run_views(self.pending@) =~= run_views(before).push(
                (old(self).text@, self.bold, self.italic),
            ));
            self.text = Vec::new();
        } else {
            assert(old(self).text@ =~= Seq::<char>::empty());
        }
        assert(self.text@ =~= Seq::<char>::empty());
        assert(run_views(self.pending@) == closed_runs(old(self)@));
        assert(self@ =~~= close_text(old(self)@));
    }

    fn flush(&mut self, heading: Option<u8>)
        ensures
            final(self)@ == flush(old(self)@, heading),
    {
        self.close_text();
        let mut runs: Vec<OutRun> = Vec::new();
        std::mem::swap(&mut runs, &mut self.pending);
        let ghost before = self.blocks@;
        let b = OutBlock::Paragraph { heading, runs };
        self.blocks.push(b);
        assert(run_views(runs@) == closed_runs(old(self)@));
        assert(block_views(self.blocks@) =~= block_views(before).push(
            BlockView::Paragraph(heading, closed_runs(old(self)@)),
        ));
        assert(run_views(self.pending@) =~= Seq::<RunView>::empty());
        assert(self.text@ =~= Seq::<char>::empty());
        assert(self@ =~~= flush(old(self)@, heading));
    }

    fn end_table(&mut self)
        ensures
            final(self)@ == (ExportState {
                in_table: false,
                rows: Seq::empty(),
                blocks: if old(self)@.rows.len() > 0 {
                    old(self)@.blocks.push(BlockView::Table(padded_rows(old(self)@.rows)))
                } else {
                    old(self)@.blocks
                },
                ..old(self)@
            }),
    {
        self.in_table = false;
        if self.rows.len() > 0 {
            let ghost tv = table_views(self.rows@);
            let w = max_row_width(&self.rows);
            let mut out_rows: Vec<Vec<String>> = Vec::new();
            let mut i: usize = 0;
            while i < self.rows.len()
                invariant
                    i <= self.rows.len(),
                    tv == table_views(self.rows@),
                    w as nat == max_width(tv),
                    row_views(out_rows@) == padded_rows(tv).take(i as int),
                decreases self.rows.len() - i,
            {
                let r = &self.rows[i];
                let mut cells: Vec<String> = Vec::new();
                let mut j: usize = 0;
                while j < w
                    invariant
                        j <= w,
                        string_views(cells@) == pad_row(views(r@), w as nat).take(j as int),
                    decreases w - j,
                {
                    let c = if j < r.len() {
                        string_of(&r[j])
                    } else {
                        string_of(&Vec::new())
                    };
                    let ghost before = cells@;
                    cells.push(c);
                    assert(string_views(cells@) =~= string_views(before).push(c@));
                    assert(string_views(cells@) =~= pad_row(views(r@), w as nat).take(j + 1));
                    j = j + 1;
                }
                assert(pad_row(views(r@), w as nat).take(w as int) =~= pad_row(views(r@), w as nat));
                let ghost before = out_rows@;
                out_rows.push(cells);
                assert(tv[i as int] == views(r@));
                assert(row_views(out_rows@) =~= row_views(before).push(string_views(cells@)));
                assert(padded_rows(tv)[i as int] == pad_row(tv[i as int], max_width(tv)));
                assert(row_views(out_rows@) =~= padded_rows(tv).take(i + 1));
                i = i + 1;
            }
            assert(padded_rows(tv).take(self.rows.len() as int) =~= padded_rows(tv));
            let ghost before = self.blocks@;
            self.blocks.push(OutBlock::Table { rows: out_rows });
            assert(block_views(self.blocks@) =~= block_views(before).push(
                BlockView::Table(padded_rows(tv)),
            ));
        }
        self.rows = Vec::new();
        assert(table_views(self.rows@) =~= Seq::<Seq<Seq<char>>>::empty());
        assert(self@ =~~= (ExportState {
            in_table: false,
            rows: Seq::empty(),
            blocks: if old(self)@.rows.len() > 0 {
                old(self)@.blocks.push(BlockView::Table(padded_rows(old(self)@.rows)))
            } else {
                old(self)@.blocks
            },
            ..old(self)@
        }));
    }

    fn end_row(&mut self)
        ensures
            final(self)@ == (ExportState {
                rows: old(self)@.rows.push(old(self)@.row),
                row: Seq::empty(),
                ..old(self)@
            }),
    {
        let mut row: Vec<Vec<char>> = Vec::new();
        std::mem::swap(&mut row, &mut self.row);
        let ghost before = self.rows@;
        self.rows.push(row);
        assert(table_views(self.rows@) =~= table_views(before).push(views(old(self).row@)));
        assert(views(self.row@) =~= Seq::<Seq<char>>::empty());
        assert(self@ =~~= (ExportState {
            rows: old(self)@.rows.push(old(self)@.row),
            row: Seq::empty(),
            ..old(self)@
        }));
    }

    fn step(&mut self, e: &MdEvent)
        ensures
            final(self)@ == export_step(old(self)@, e@),
    {
        match e {
            MdEvent::Start(MdTag::Heading(l)) => {
                self.flush(None);
                self.heading = Some(*l);
            },
            MdEvent::End(MdTag::Heading(_)) => {
                let level: u8 = match self.heading {
                    Some(l) => l,
                    None => 1,
                };
                self.flush(Some(level));
                self.heading = None;
            },
            MdEvent::End(MdTag::Paragraph) => {
                self.flush(None);
            },
            MdEvent::Start(MdTag::Strong) => {
                self.close_text();
                self.bold = true;
            },
            MdEvent::End(MdTag::Strong) => {
                self.close_text();
                self.bold = false;
            },
            MdEvent::Start(MdTag::Emphasis) => {
                self.close_text();
                self.italic = true;
            },
            MdEvent::End(MdTag::Emphasis) => {
                self.close_text();
                self.italic = false;
            },
            MdEvent::Start(MdTag::Table) => {
                self.in_table = true;
                self.rows = Vec::new();
                assert(table_views(self.rows@) =~= Seq::<Seq<Seq<char>>>::empty());
            },
            MdEvent::End(MdTag::Table) => {
                self.end_table();
            },
            MdEvent::Start(MdTag::TableHead) | MdEvent::Start(MdTag::TableRow) => {
                self.row = Vec::new();
                assert(views(self.row@) =~= Seq::<Seq<char>>::empty());
            },
            MdEvent::End(MdTag::TableHead) | MdEvent::End(MdTag::TableRow) => {
                self.end_row();
            },
            MdEvent::Start(MdTag::TableCell) => {
                self.cell = Vec::new();
            },
            MdEvent::End(MdTag::TableCell) => {
                let mut cell: Vec<char> = Vec::new();
                std::mem::swap(&mut cell, &mut self.cell);
                let ghost before = self.row@;
                self.row.push(cell);
                assert(views(self.row@) =~= views(before).push(old(self).cell@));
            },
            MdEvent::Text(t) => {
                let c = chars_of(t.as_str());
                if self.in_table {
                    push_all(&mut self.cell, &c);
                } else {
                    push_all(&mut self.text, &c);
                }
            },
            MdEvent::Break => {
                if !self.in_table {
                    self.text.push(' ');
                }
            },
            _ => {},
        }
        assert(self@ =~~= export_step(old(self)@, e@));
    }
}

/// The paragraphs and tables that a stream of Markdown events exports to.
///
/// Text gathers into runs; entering or leaving strong or emphasis closes the
/// run so far and flips bold or italic. A heading's start writes out the open
/// paragraph and its end writes a paragraph styled with its level; a
/// paragraph's end writes an unstyled one. Table cells gather into rows (the
/// header row first), and the table's end writes a table padded to its widest
/// row. Line breaks outside tables become spaces. What is left open at the end
/// is written out as a last paragraph.
pub fn docx_blocks_from_events(events: &Vec<MdEvent>) -> (r: Vec<OutBlock>)
    ensures
        block_views(r@) == export_blocks(event_views(events@)),
{
    let ghost ev = event_views(events@);
    let mut x = Exporter::new();
    let mut i: usize = 0;
    while i < events.len()
        invariant
            i <= events.len(),
            ev == event_views(events@),
            x@ == export_fold(ev.take(i as int)),
        decreases events.len() - i,
    {
        assert(ev.take(i + 1).drop_last() =~= ev.take(i as int));
        x.step(&events[i]);
        i = i + 1;
    }
    assert(ev.take(events.len() as int) =~= ev);
    if x.text.len() > 0 || x.pending.len() > 0 {
        x.flush(None);
    }
    x.blocks
}

/// The blocks that a Markdown document exports to (pipe tables and
/// strikethrough recognised).
pub fn docx_blocks_from_markdown(markdown: &str) -> (r: Vec<OutBlock>)
    ensures
        block_views(r@) == export_blocks(
            markdown_events(markdown@, (OPT_TABLES | OPT_STRIKETHROUGH) as u32),
        ),
{
    let events = markdown_to_events(markdown, true);
    docx_blocks_from_events(&events)
}

// ---------------------------------------------------------------------------
// Export: the document
#[verifier::external_type_specification]
#[verifier::external_body]
pub struct ExDocx(docx_rs::Docx);

#[verifier::external_type_specification]
#[verifier::external_body]
pub struct ExParagraph(docx_rs::Paragraph);

#[verifier::external_type_specification]
#[verifier::external_body]
pub struct ExRun(docx_rs::Run);

#[verifier::external_type_specification]
#[verifier::external_body]
pub struct ExTable(docx_rs::Table);

#[verifier::external_type_specification]
#[verifier::external_body]
pub struct ExTableRow(docx_rs::TableRow);

#[verifier::external_type_specification]
#[verifier::external_body]
pub struct ExTableCell(docx_rs::TableCell);

/// A paragraph as docx-rs holds it: its style id, if any, and its runs.
pub type DocxParagraphView = (Option<Seq<char>>, Seq<RunView>);

/// A child of a docx-rs document body.
pub enum DocxItem {
    BodyParagraph(DocxParagraphView),
    /// Rows of cells, each cell a list of paragraphs.
    BodyTable(Seq<Seq<Seq<DocxParagraphView>>>),
}

/// What a docx-rs run holds: its text, and whether it is bold and italic.
pub uninterp spec fn docx_run_of(r: docx_rs::Run) -> RunView;

/// What a docx-rs paragraph holds.
pub uninterp spec fn docx_paragraph_of(p: docx_rs::Paragraph) -> DocxParagraphView;

/// The paragraphs of a docx-rs table cell.
pub uninterp spec fn docx_cell_of(c: docx_rs::TableCell) -> Seq<DocxParagraphView>;

/// The cells of a docx-rs table row.
pub uninterp spec fn docx_row_of(r: docx_rs::TableRow) -> Seq<Seq<DocxParagraphView>>;

/// The rows of a docx-rs table.
pub uninterp spec fn docx_table_of(t: docx_rs::Table) -> Seq<Seq<Seq<DocxParagraphView>>>;

/// The body of a docx-rs document, in order.
pub uninterp spec fn docx_body_of(d: docx_rs::Docx) -> Seq<DocxItem>;

/// Relies on `docx_rs::Docx::new`: a document with an empty body.
pub assume_specification[ docx_rs::Docx::new ]() -> (r: docx_rs::Docx)
    ensures
        docx_body_of(r) == Seq::<DocxItem>::empty(),
;

/// Relies on `docx_rs::Docx::add_paragraph`: the paragraph appended to the body.
pub assume_specification[ docx_rs::Docx::add_paragraph ](d: docx_rs::Docx, p: docx_rs::Paragraph) -> (r: docx_rs::Docx)
    ensures
        docx_body_of(r) == docx_body_of(d).push(DocxItem::BodyParagraph(docx_paragraph_of(p))),
;

/// Relies on `docx_rs::Docx::add_table`: the table appended to the body.
pub assume_specification[ docx_rs::Docx::add_table ](d: docx_rs::Docx, t: docx_rs::Table) -> (r: docx_rs::Docx)
    ensures
        docx_body_of(r) == docx_body_of(d).push(DocxItem::BodyTable(docx_table_of(t))),
;

/// Relies on `docx_rs::Paragraph::new`: an unstyled paragraph without runs.
pub assume_specification[ docx_rs::Paragraph::new ]() -> (r: docx_rs::Paragraph)
    ensures
        docx_paragraph_of(r) == (None::<Seq<char>>, Seq::<RunView>::empty()),
;

/// Relies on `docx_rs::Paragraph::style`: the paragraph with that style id.
pub assume_specification[ docx_rs::Paragraph::style ](p: docx_rs::Paragraph, style_id: &str) -> (r: docx_rs::Paragraph)
    ensures
        docx_paragraph_of(r) == (Some(style_id@), docx_paragraph_of(p).1),
;

/// Relies on `docx_rs::Paragraph::add_run`: the run appended to the paragraph.
pub assume_specification[ docx_rs::Paragraph::add_run ](p: docx_rs::Paragraph, run: docx_rs::Run) -> (r: docx_rs::Paragraph)
    ensures
        docx_paragraph_of(r) == (docx_paragraph_of(p).0, docx_paragraph_of(p).1.push(docx_run_of(run))),
;

/// Relies on `docx_rs::Run::bold`: the run set bold.
pub assume_specification[ docx_rs::Run::bold ](x: docx_rs::Run) -> (r: docx_rs::Run)
    ensures
        docx_run_of(r) == (docx_run_of(x).0, true, docx_run_of(x).2),
;

/// Relies on `docx_rs::Run::italic`: the run set italic.
pub assume_specification[ docx_rs::Run::italic ](x: docx_rs::Run) -> (r: docx_rs::Run)
    ensures
        docx_run_of(r) == (docx_run_of(x).0, docx_run_of(x).1, true),
;

/// Relies on `docx_rs::Table::new`: a table of these rows.
pub assume_specification[ docx_rs::Table::new ](rows: Vec<docx_rs::TableRow>) -> (r: docx_rs::Table)
    ensures
        docx_table_of(r) == rows@.map_values(|x: docx_rs::TableRow| docx_row_of(x)),
;

/// Relies on `docx_rs::TableRow::new`: a row of these cells.
pub assume_specification[ docx_rs::TableRow::new ](cells: Vec<docx_rs::TableCell>) -> (r: docx_rs::TableRow)
    ensures
        docx_row_of(r) == cells@.map_values(|x: docx_rs::TableCell| docx_cell_of(x)),
;

/// Relies on `docx_rs::TableCell::new`: a cell without content.
pub assume_specification[ docx_rs::TableCell::new ]() -> (r: docx_rs::TableCell)
    ensures
        docx_cell_of(r) == Seq::<DocxParagraphView>::empty(),
;

/// Relies on `docx_rs::TableCell::add_paragraph`: the paragraph appended to the cell.
pub assume_specification[ docx_rs::TableCell::add_paragraph ](c: docx_rs::TableCell, p: docx_rs::Paragraph) -> (r: docx_rs::TableCell)
    ensures
        docx_cell_of(r) == docx_cell_of(c).push(docx_paragraph_of(p)),
;

/// `s` without its line feeds.
pub open spec fn without_line_feeds(s: Seq<char>) -> Seq<char>
    decreases s.len(),
{
    if s.len() == 0 {
        Seq::empty()
    } else if s.last() == '\n' {
        without_line_feeds(s.drop_last())
    } else {
        without_line_feeds(s.drop_last()).push(s.last())
    }
}

/// Relies on `docx_rs::Run::new` and `docx_rs::Run::add_text`: a plain run
/// holding the text, its line feeds removed (`add_text` drops them).
#[verifier::external_body]
fn text_run(text: &str) -> (r: docx_rs::Run)
    ensures
        docx_run_of(r) == (without_line_feeds(text@), false, false),
{
    docx_rs::Run::new().add_text(text)
}

/// Relies on `docx_rs::Docx::build` and `XMLDocx::pack`: the document packed
/// as a ZIP container in memory; the error is the packer's message.
#[verifier::external_body]
fn pack_docx(d: docx_rs::Docx) -> (r: Result<Vec<u8>, String>) {
    let mut buf = Cursor::new(Vec::new());
    d.build().pack(&mut buf).map_err(|e| e.to_string())?;
    Ok(buf.into_inner())
}

/// The style id of a heading of level `level`: `Heading{level}`.
pub open spec fn heading_style(level: u8) -> Seq<char> {
    "Heading"@ + decimal(level as nat)
}

/// A run as the document holds it.
pub open spec fn written_run(r: RunView) -> RunView {
    (without_line_feeds(r.0), r.1, r.2)
}

/// A paragraph as the document holds it: styled `Heading{level}` for a heading.
pub open spec fn written_paragraph(heading: Option<u8>, runs: Seq<RunView>) -> DocxParagraphView {
    (
        match heading {
            Some(l) => Some(heading_style(l)),
            None => None,
        },
        runs.map_values(|r: RunView| written_run(r)),
    )
}

/// A table cell as the document holds it: one paragraph with one plain run.
pub open spec fn written_cell(text: Seq<char>) -> Seq<DocxParagraphView> {
    seq![(None, seq![written_run((text, false, false))])]
}

pub open spec fn written_rows(rows: Seq<Seq<Seq<char>>>) -> Seq<Seq<Seq<DocxParagraphView>>> {
    rows.map_values(|row: Seq<Seq<char>>| row.map_values(|c: Seq<char>| written_cell(c)))
}

/// A block as the document holds it.
pub open spec fn written_item(b: BlockView) -> DocxItem {
    match b {
        BlockView::Paragraph(h, runs) => DocxItem::BodyParagraph(written_paragraph(h, runs)),
        BlockView::Table(rows) => DocxItem::BodyTable(written_rows(rows)),
    }
}

/// The body of the document written for these blocks.
pub open spec fn written_body(bs: Seq<BlockView>) -> Seq<DocxItem> {
    bs.map_values(|b: BlockView| written_item(b))
}

fn heading_style_string(level: u8) -> (r: String)
    ensures
        r@ == heading_style(level),
{
    let mut s = chars_of("Heading");
    push_decimal(&mut s, level as u128);
    string_of(&s)
}

fn run_of(r: &OutRun) -> (x: docx_rs::Run)
    ensures
        docx_run_of(x) == written_run((r.text@, r.bold, r.italic)),
{
    let mut run = text_run(r.text.as_str());
    if r.bold {
        run = run.bold();
    }
    if r.italic {
        run = run.italic();
    }
    run
}

fn paragraph_of(heading: Option<u8>, runs: &Vec<OutRun>) -> (p: docx_rs::Paragraph)
    ensures
        docx_paragraph_of(p) == written_paragraph(heading, run_views(runs@)),
{
    let mut p = docx_rs::Paragraph::new();
    match heading {
        Some(l) => {
            let style = heading_style_string(l);
            p = p.style(style.as_str());
        },
        None => {},
    }
    let ghost target = written_paragraph(heading, run_views(runs@));
    let mut i: usize = 0;
    assert(docx_paragraph_of(p).1 =~= target.1.take(0));
    while i < runs.len()
        invariant
            i <= runs.len(),
            target == written_paragraph(heading, run_views(runs@)),
            docx_paragraph_of(p).0 == target.0,
            docx_paragraph_of(p).1 == target.1.take(i as int),
        decreases runs.len() - i,
    {
        p = p.add_run(run_of(&runs[i]));
        i = i + 1;
        assert(docx_paragraph_of(p).1 =~= target.1.take(i as int));
    }
    assert(target.1.take(runs.len() as int) =~= target.1);
    p
}

fn table_of(rows: &Vec<Vec<String>>) -> (t: docx_rs::Table)
    ensures
        docx_table_of(t) == written_rows(row_views(rows@)),
{
    let ghost target = written_rows(row_views(rows@));
    let mut out_rows: Vec<docx_rs::TableRow> = Vec::new();
    let mut i: usize = 0;
    while i < rows.len()
        invariant
            i <= rows.len(),
            target == written_rows(row_views(rows@)),
            out_rows@.map_values(|x: docx_rs::TableRow| docx_row_of(x)) == target.take(i as int),
        decreases rows.len() - i,
    {
        let row = &rows[i];
        let ghost rt = target[i as int];
        assert(rt == string_views(row@).map_values(|c: Seq<char>| written_cell(c)));
        let mut cells: Vec<docx_rs::TableCell> = Vec::new();
        let mut j: usize = 0;
        while j < row.len()
            invariant
                j <= row.len(),
                rt == string_views(row@).map_values(|c: Seq<char>| written_cell(c)),
                cells@.map_values(|x: docx_rs::TableCell| docx_cell_of(x)) == rt.take(j as int),
            decreases row.len() - j,
        {
            let p = docx_rs::Paragraph::new().add_run(text_run(row[j].as_str()));
            let c = docx_rs::TableCell::new().add_paragraph(p);
            assert(docx_cell_of(c) =~= written_cell(row@[j as int]@));
            let ghost before = cells@;
            cells.push(c);
            assert(cells@.map_values(|x: docx_rs::TableCell| docx_cell_of(x)) =~= before.map_values(
                |x: docx_rs::TableCell| docx_cell_of(x),
            ).push(docx_cell_of(c)));
            j = j + 1;
            assert(cells@.map_values(|x: docx_rs::TableCell| docx_cell_of(x)) =~= rt.take(j as int));
        }
        assert(rt.take(row.len() as int) =~= rt);
        let r = docx_rs::TableRow::new(cells);
        let ghost before = out_rows@;
        out_rows.push(r);
        assert(out_rows@.map_values(|x: docx_rs::TableRow| docx_row_of(x)) =~= before.map_values(
            |x: docx_rs::TableRow| docx_row_of(x),
        ).push(docx_row_of(r)));
        i = i + 1;
        assert(out_rows@.map_values(|x: docx_rs::TableRow| docx_row_of(x)) =~= target.take(i as int));
    }
    assert(target.take(rows.len() as int) =~= target);
    docx_rs::Table::new(out_rows)
}

/// The word-processing document for Markdown: the blocks of
/// [`docx_blocks_from_markdown`] in order, a heading paragraph styled
/// `Heading{level}`, each table cell one paragraph with one plain run.
pub fn docx_from_markdown(markdown: &str) -> (d: docx_rs::Docx)
    ensures
        docx_body_of(d) == written_body(
            export_blocks(markdown_events(markdown@, (OPT_TABLES | OPT_STRIKETHROUGH) as u32)),
        ),
{
    let blocks = docx_blocks_from_markdown(markdown);
    let ghost target = written_body(block_views(blocks@));
    let mut d = docx_rs::Docx::new();
    let mut i: usize = 0;
    while i < blocks.len()
        invariant
            i <= blocks.len(),
            target == written_body(block_views(blocks@)),
            docx_body_of(d) == target.take(i as int),
        decreases blocks.len() - i,
    {
        match &blocks[i] {
            OutBlock::Paragraph { heading, runs } => {
                d = d.add_paragraph(paragraph_of(*heading, runs));
            },
            OutBlock::Table { rows } => {
                d = d.add_table(table_of(rows));
            },
        }
        i = i + 1;
        assert(docx_body_of(d) =~= target.take(i as int));
    }
    assert(target.take(blocks.len() as int) =~= target);
    d
}

/// Writes a word-processing document for Markdown: the document of
/// [`docx_from_markdown`], packed into a container whose bytes are returned.
pub fn markdown_to_docx(markdown: &str) -> (r: Result<Vec<u8>, ConversionError>)
    ensures
        r matches Err(e) ==> exists|cause: Seq<char>| e.0@ == "Failed to write DOCX"@ + ": "@ + cause,
{
    let d = docx_from_markdown(markdown);
    match pack_docx(d) {
        Ok(bytes) => Ok(bytes),
        Err(m) => {
            let e = ConversionError::with_cause("Failed to write DOCX", m.as_str());
            assert(e.0@ == "Failed to write DOCX"@ + ": "@ + m@);
            Err(e)
        },
    }
}

/// A heading of any level from 1 to 6 goes through both directions unchanged.
///
/// Export: the events of a Markdown heading (its start, its text, its end)
/// yield an empty paragraph (the one open before the heading) and then a
/// paragraph styled `Heading{level}` holding the text as one plain run.
/// Import: a paragraph whose lower-cased style is that style id, holding the
/// text as one plain run, renders as `level` number signs, a space and the text.
pub proof fn lemma_heading_round_trip(level: u8, t: Seq<char>, run: DocRun, lowered: Seq<char>)
    requires
        1 <= level <= 6,
        t.len() > 0,
        pieces_text(run.pieces@) == t,
        !run.bold,
        !run.italic,
        lowered == "heading"@ + decimal(level as nat),
    ensures
        export_blocks(
            seq![
                EventView::Start(MdTag::Heading(level)),
                EventView::Text(t),
                EventView::End(MdTag::Heading(level)),
            ],
        ) == seq![
            BlockView::Paragraph(None, Seq::empty()),
            BlockView::Paragraph(Some(level), seq![(t, false, false)]),
        ],
        heading_prefix(lowered) + run_markdown(run) == hashes(level as nat) + t,
{
    let es = seq![
        EventView::Start(MdTag::Heading(level)),
        EventView::Text(t),
        EventView::End(MdTag::Heading(level)),
    ];
    assert(es.drop_last().drop_last().drop_last() =~= Seq::<EventView>::empty());
    assert(es.drop_last().drop_last().last() == EventView::Start(MdTag::Heading(level)));
    assert(es.drop_last().last() == EventView::Text(t));
    let s0 = initial_state();
    assert(closed_runs(s0) =~= Seq::<RunView>::empty());
    let s1 = export_step(s0, EventView::Start(MdTag::Heading(level)));
    let es1 = es.drop_last().drop_last();
    assert(es1.len() == 1);
    assert(es1.drop_last() =~= Seq::<EventView>::empty());
    assert(export_fold(es1.drop_last()) == s0);
    assert(export_fold(es1) == s1);
    assert(s1.text =~= Seq::<char>::empty());
    let s2 = export_step(s1, EventView::Text(t));
    assert(s2.text =~= t);
    assert(export_fold(es.drop_last()) == s2);
    let s3 = export_step(s2, EventView::End(MdTag::Heading(level)));
    assert(export_fold(es) == s3);
    assert(closed_runs(s2) =~= seq![(t, false, false)]);
    assert(s3.text =~= Seq::<char>::empty());
    assert(s3.pending =~= Seq::<RunView>::empty());
    assert(export_blocks(es) =~= s3.blocks);
    assert(s3.blocks =~= seq![
        BlockView::Paragraph(None, Seq::empty()),
        BlockView::Paragraph(Some(level), seq![(t, false, false)]),
    ]);
    reveal_strlit("heading");
    reveal_strlit("heading1");
    reveal_strlit("heading2");
    reveal_strlit("heading3");
    reveal_strlit("heading4");
    reveal_strlit("heading5");
    reveal_strlit("heading6");
    reveal_strlit("heading 1");
    reveal_strlit("heading 2");
    reveal_strlit("heading 3");
    reveal_strlit("heading 4");
    reveal_strlit("heading 5");
    reveal_strlit("heading 6");
    let d = decimal(level as nat);
    assert(d == seq![crate::text::digit(level as nat)]);
    assert(lowered.len() == 8);
    if level == 1 {
        assert(lowered =~= "heading1"@);
    } else if level == 2 {
        assert(lowered =~= "heading2"@);
        assert(lowered[7] != "heading1"@[7]);
        assert(lowered.len() != "heading 1"@.len());
    } else if level == 3 {
        assert(lowered =~= "heading3"@);
        assert(lowered[7] != "heading1"@[7]);
        assert(lowered.len() != "heading 1"@.len());
        assert(lowered[7] != "heading2"@[7]);
        assert(lowered.len() != "heading 2"@.len());
    } else if level == 4 {
        assert(lowered =~= "heading4"@);
        assert(lowered[7] != "heading1"@[7]);
        assert(lowered.len() != "heading 1"@.len());
        assert(lowered[7] != "heading2"@[7]);
        assert(lowered.len() != "heading 2"@.len());
        assert(lowered[7] != "heading3"@[7]);
        assert(lowered.len() != "heading 3"@.len());
    } else if level == 5 {
        assert(lowered =~= "heading5"@);
        assert(lowered[7] != "heading1"@[7]);
        assert(lowered.len() != "heading 1"@.len());
        assert(lowered[7] != "heading2"@[7]);
        assert(lowered.len() != "heading 2"@.len());
        assert(lowered[7] != "heading3"@[7]);
        assert(lowered.len() != "heading 3"@.len());
        assert(lowered[7] != "heading4"@[7]);
        assert(lowered.len() != "heading 4"@.len());
    } else {
        assert(lowered =~= "heading6"@);
        assert(lowered[7] != "heading1"@[7]);
        assert(lowered.len() != "heading 1"@.len());
        assert(lowered[7] != "heading2"@[7]);
        assert(lowered.len() != "heading 2"@.len());
        assert(lowered[7] != "heading3"@[7]);
        assert(lowered.len() != "heading 3"@.len());
        assert(lowered[7] != "heading4"@[7]);
        assert(lowered.len() != "heading 4"@.len());
        assert(lowered[7] != "heading5"@[7]);
        assert(lowered.len() != "heading 5"@.len());
    }
    assert(heading_level_of(lowered) == level as nat);
}

} // verus!
