//! Trusted surface over umya's in-memory workbook: the declared type, names
//! for what a workbook holds, and one wrapper for each method the writer
//! calls. Persisting the workbook to disk is input/output and stays with
//! the caller.

use vstd::prelude::*;

verus! {

/// umya's in-memory workbook, carried opaquely.
#[verifier::external_type_specification]
#[verifier::external_body]
pub struct ExWorkbook(umya_spreadsheet::Workbook);

/// umya's error type for workbook and codec faults, carried opaquely.
#[verifier::external_type_specification]
#[verifier::external_body]
pub struct ExXlsxError(umya_spreadsheet::XlsxError);

/// The names of the sheets of a workbook, in workbook order.
pub uninterp spec fn wb_sheet_names(wb: umya_spreadsheet::Workbook) -> Seq<Seq<char>>;

/// The display texts of the populated cells of the sheet with the given
/// name, by one-based (column, row) coordinates; empty for an absent sheet.
pub uninterp spec fn wb_cell_text(wb: umya_spreadsheet::Workbook, sheet: Seq<char>) -> Map<
    (u32, u32),
    Seq<char>,
>;

/// The empty cell map.
pub open spec fn no_cells() -> Map<(u32, u32), Seq<char>> {
    Map::empty()
}

/// Relies on umya's new_file: a fresh workbook holds exactly one sheet,
/// named "Sheet1", and no populated cell on any sheet.
#[verifier::external_body]
pub(crate) fn new_workbook() -> (wb: umya_spreadsheet::Workbook)
    ensures
        wb_sheet_names(wb) =~= seq!["Sheet1"@],
        forall|s: Seq<char>| #[trigger] wb_cell_text(wb, s) =~= no_cells(),
{
    umya_spreadsheet::new_file()
}

/// Relies on umya's Workbook::new_sheet: adding a sheet fails exactly when
/// the name is already in use; on success the sheet is appended with no
/// populated cell, and nothing else changes; on failure the workbook is
/// untouched.
#[verifier::external_body]
pub(crate) fn add_sheet(wb: &mut umya_spreadsheet::Workbook, name: &str) -> (r: Result<
    (),
    umya_spreadsheet::XlsxError,
>)
    ensures
        r is Ok <==> !wb_sheet_names(*old(wb)).contains(name@),
        r is Ok ==> wb_sheet_names(*final(wb)) =~= wb_sheet_names(*old(wb)).push(name@),
        r is Ok ==> (forall|s: Seq<char>|
            #[trigger] wb_cell_text(*final(wb), s) == wb_cell_text(*old(wb), s)),
        r is Err ==> *final(wb) == *old(wb),
{
    match wb.new_sheet(name) {
        Ok(_) => Ok(()),
        Err(e) => Err(e),
    }
}

/// Relies on umya's Workbook::sheet_by_name_mut, Worksheet::cell_mut and
/// Cell::set_value_string: stores the exact text at the one-based
/// coordinates of the named sheet, and changes nothing else.
#[verifier::external_body]
pub(crate) fn set_cell_text(
    wb: &mut umya_spreadsheet::Workbook,
    sheet: &str,
    col: u32,
    row: u32,
    v: &str,
)
    requires
        wb_sheet_names(*old(wb)).contains(sheet@),
        1 <= col,
        1 <= row,
    ensures
        wb_sheet_names(*final(wb)) == wb_sheet_names(*old(wb)),
        wb_cell_text(*final(wb), sheet@) == wb_cell_text(*old(wb), sheet@).insert((col, row), v@),
        forall|s: Seq<char>|
            s != sheet@ ==> #[trigger] wb_cell_text(*final(wb), s) == wb_cell_text(*old(wb), s),
{
    if let Ok(ws) = wb.sheet_by_name_mut(sheet) {
        ws.cell_mut((col, row)).set_value_string(v);
    }
}

/// Relies on umya's Workbook::sheet_by_name_mut, Worksheet::cell_mut and
/// Cell::set_value_number: stores the number at the one-based coordinates
/// of the named sheet and changes nothing else. The stored cell's display
/// text is the plain decimal digits: an f64 made from a u32 is integral,
/// and Rust's f64 display prints such a value without fraction or exponent.
#[verifier::external_body]
pub(crate) fn set_cell_number(
    wb: &mut umya_spreadsheet::Workbook,
    sheet: &str,
    col: u32,
    row: u32,
    v: u32,
)
    requires
        wb_sheet_names(*old(wb)).contains(sheet@),
        1 <= col,
        1 <= row,
    ensures
        wb_sheet_names(*final(wb)) == wb_sheet_names(*old(wb)),
        wb_cell_text(*final(wb), sheet@) == wb_cell_text(*old(wb), sheet@).insert(
            (col, row),
            crate::text::dec_str(v as nat),
        ),
        forall|s: Seq<char>|
            s != sheet@ ==> #[trigger] wb_cell_text(*final(wb), s) == wb_cell_text(*old(wb), s),
{
    if let Ok(ws) = wb.sheet_by_name_mut(sheet) {
        ws.cell_mut((col, row)).set_value_number(v);
    }
}

} // verus!
