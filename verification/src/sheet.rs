//! The sheet model shared by the writer and the reader: one cell as the
//! column contract sees it, the rows of one sheet, and the shape of a sheet
//! the writer lays out.

use crate::ids::id_text;
use crate::records::RecordV;
use crate::text::dec_str;
use vstd::prelude::*;

verus! {

/// One cell of a sheet, as the column contract models it.
#[derive(Debug, Clone, PartialEq)]
pub enum Cell {
    /// An absent or blank cell.
    Empty,
    /// A text cell.
    Text(String),
    /// A numeric cell, already truncated to an unsigned integer.
    Number(u32),
    /// A cell of any other kind, carried as its display text.
    Other(String),
}

/// The mathematical view of a cell.
pub enum CellV {
    Empty,
    Text(Seq<char>),
    Number(u32),
    Other(Seq<char>),
}

impl View for Cell {
    type V = CellV;

    open spec fn view(&self) -> CellV {
        match self {
            Cell::Empty => CellV::Empty,
            Cell::Text(s) => CellV::Text(s@),
            Cell::Number(n) => CellV::Number(*n),
            Cell::Other(s) => CellV::Other(s@),
        }
    }
}

/// The views of the cells of one row, in order.
pub open spec fn row_view(r: Seq<Cell>) -> Seq<CellV> {
    r.map_values(|c: Cell| c@)
}

/// The rows of one sheet, header row included, in sheet order.
#[derive(Debug, Clone, PartialEq)]
pub struct SheetData {
    pub rows: Vec<Vec<Cell>>,
}

impl View for SheetData {
    type V = Seq<Seq<CellV>>;

    open spec fn view(&self) -> Seq<Seq<CellV>> {
        self.rows@.map_values(|r: Vec<Cell>| row_view(r@))
    }
}

/// The views of a sequence of sheets, in order.
pub open spec fn sheets_view(s: Seq<SheetData>) -> Seq<Seq<Seq<CellV>>> {
    s.map_values(|sd: SheetData| sd@)
}

/// The display text of a cell: a text cell's own text, the decimal text of a
/// numeric cell, empty for a blank cell.
pub open spec fn cell_text(c: CellV) -> Seq<char> {
    match c {
        CellV::Empty => Seq::<char>::empty(),
        CellV::Text(s) => s,
        CellV::Number(n) => dec_str(n as nat),
        CellV::Other(s) => s,
    }
}

/// The fixed header texts of the eight columns, in column order.
pub open spec fn header_texts() -> Seq<Seq<char>> {
    seq![
        "ID"@,
        "Region"@,
        "Municipality"@,
        "Company"@,
        "Phone"@,
        "Contact"@,
        "TotalOrder"@,
        "RecentOrder"@,
    ]
}

/// The header row of a written sheet, as cells.
pub open spec fn header_row_cells() -> Seq<CellV> {
    header_texts().map_values(|t: Seq<char>| CellV::Text(t))
}

/// The cells of the row the writer lays out for one record: six text cells
/// and the two order counters as numeric cells.
pub open spec fn written_row(r: RecordV) -> Seq<CellV> {
    seq![
        CellV::Text(id_text(r.id)),
        CellV::Text(r.region),
        CellV::Text(r.municipality),
        CellV::Text(r.company),
        CellV::Text(r.phone),
        CellV::Text(r.contact),
        CellV::Number(r.total_order),
        CellV::Number(r.recent_order),
    ]
}

/// The rows of the sheet the writer lays out: the header row, then one row
/// per record, in order.
pub open spec fn written_sheet(recs: Seq<RecordV>) -> Seq<Seq<CellV>> {
    seq![header_row_cells()] + recs.map_values(|r: RecordV| written_row(r))
}

} // verus!
