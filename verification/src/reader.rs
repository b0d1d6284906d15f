//! The reader: reconstructs typed records from sheet rows, strictly
//! validating the identifier column, reading the five text columns lossily,
//! and defaulting a missing or non-numeric order cell to zero (the lenient
//! numeric policy, applied to both order columns).

use crate::ids::{parse_id_text, RecordId};
use crate::records::{Record, RecordV};
use crate::sheet::{
    cell_text, row_view, sheets_view, written_row, written_sheet, Cell, CellV,
    SheetData,
};
use vstd::prelude::*;

verus! {

/// calamine's error type, carried opaquely when the workbook codec fails.
#[verifier::external_type_specification]
#[verifier::external_body]
pub struct ExCalamineError(calamine::Error);

/// Why a read failed: the workbook codec could not open or parse the file,
/// or the identifier cell of some row was missing or malformed.
#[derive(Debug)]
pub enum ExcelReaderError {
    /// An input/output or format fault reported by the workbook codec.
    Calamine(calamine::Error),
    /// The identifier cell did not hold a valid identifier text; carries the
    /// raw cell text, or the fixed missing-cell marker.
    UuidParse(String),
}

/// The text of the identifier cell of a row, if that cell is a text cell.
pub open spec fn id_cell_text(row: Seq<CellV>) -> Option<Seq<char>> {
    if row.len() > 0 {
        match row[0] {
            CellV::Text(s) => Some(s),
            _ => None,
        }
    } else {
        None
    }
}

/// Whether a row's identifier cell holds a valid identifier text.
pub open spec fn row_ok(row: Seq<CellV>) -> bool {
    match id_cell_text(row) {
        Some(t) => parse_id_text(t) is Some,
        None => false,
    }
}

/// The payload of the identifier error for a bad row: the raw cell text, or
/// the fixed marker when the cell is absent or not text.
pub open spec fn row_err_text(row: Seq<CellV>) -> Seq<char> {
    match id_cell_text(row) {
        Some(t) => t,
        None => "<missing>"@,
    }
}

/// The lossy text of a column: the cell's display text, empty when absent.
pub open spec fn text_col(row: Seq<CellV>, i: int) -> Seq<char> {
    if 0 <= i < row.len() {
        cell_text(row[i])
    } else {
        Seq::<char>::empty()
    }
}

/// The lenient value of an order column: the numeric cell's truncated value,
/// zero when the cell is absent or not numeric.
pub open spec fn num_col(row: Seq<CellV>, i: int) -> u32 {
    if 0 <= i < row.len() {
        match row[i] {
            CellV::Number(n) => n,
            _ => 0u32,
        }
    } else {
        0u32
    }
}

/// The record a row with a valid identifier cell denotes.
pub open spec fn row_record(row: Seq<CellV>) -> RecordV {
    RecordV {
        id: match id_cell_text(row) {
            Some(t) => match parse_id_text(t) {
                Some(n) => n,
                None => 0u128,
            },
            None => 0u128,
        },
        region: text_col(row, 1),
        municipality: text_col(row, 2),
        company: text_col(row, 3),
        phone: text_col(row, 4),
        contact: text_col(row, 5),
        total_order: num_col(row, 6),
        recent_order: num_col(row, 7),
    }
}

/// The data rows of one sheet: every row after the header row.
pub open spec fn sheet_data_rows(sheet: Seq<Seq<CellV>>) -> Seq<Seq<CellV>> {
    if sheet.len() <= 1 {
        Seq::<Seq<CellV>>::empty()
    } else {
        sheet.skip(1)
    }
}

/// The data rows of a workbook: each sheet's data rows, concatenated in
/// sheet order.
pub open spec fn all_data_rows(sheets: Seq<Seq<Seq<CellV>>>) -> Seq<Seq<CellV>>
    decreases sheets.len(),
{
    if sheets.len() == 0 {
        Seq::<Seq<CellV>>::empty()
    } else {
        all_data_rows(sheets.drop_last()) + sheet_data_rows(sheets.last())
    }
}

proof fn lemma_all_data_rows_split(sv: Seq<Seq<Seq<CellV>>>, m: int)
    requires
        0 <= m <= sv.len(),
    ensures
        all_data_rows(sv) == all_data_rows(sv.take(m)) + all_data_rows(sv.skip(m)),
    decreases sv.len(),
{
    if m == sv.len() {
        assert(sv.take(m) =~= sv);
        assert(sv.skip(m) =~= Seq::<Seq<Seq<CellV>>>::empty());
        assert(all_data_rows(sv.take(m)) + all_data_rows(sv.skip(m)) =~= all_data_rows(sv));
    } else {
        let dl = sv.drop_last();
        lemma_all_data_rows_split(dl, m);
        assert(dl.take(m) =~= sv.take(m));
        assert(sv.skip(m).len() > 0);
        assert(sv.skip(m).drop_last() =~= dl.skip(m));
        assert(sv.skip(m).last() == sv.last());
        assert(all_data_rows(sv.take(m)) + all_data_rows(sv.skip(m)) =~= all_data_rows(sv));
    }
}

/// Parses one data row positionally against the fixed eight-column order.
/// Strict on the identifier column; lossy on the five text columns; lenient
/// on the two order columns, which default to zero.
pub fn parse_row(row: &Vec<Cell>) -> (r: Result<Record, ExcelReaderError>)
    ensures
        match r {
            Ok(rec) => row_ok(row_view(row@)) && rec@ == row_record(row_view(row@)),
            Err(e) => !row_ok(row_view(row@)) && (e matches ExcelReaderError::UuidParse(t)
                && t@ == row_err_text(row_view(row@))),
        },
{
    proof {
        assert(row_view(row@).len() == row@.len());
    }
    if row.len() == 0 {
        return Err(ExcelReaderError::UuidParse("<missing>".to_owned()));
    }
    let id = match &row[0] {
        Cell::Text(s) => {
            match RecordId::from_text(s.as_str()) {
                Some(id) => id,
                None => {
                    return Err(ExcelReaderError::UuidParse(s.clone()));
                },
            }
        },
        _ => {
            return Err(ExcelReaderError::UuidParse("<missing>".to_owned()));
        },
    };
    let rec = Record {
        id,
        region: col_text(row, 1),
        municipality: col_text(row, 2),
        company: col_text(row, 3),
        phone: col_text(row, 4),
        contact: col_text(row, 5),
        total_order: col_num(row, 6),
        recent_order: col_num(row, 7),
    };
    proof {
        assert(rec@ =~= row_record(row_view(row@)));
    }
    Ok(rec)
}

/// The lossy text of one column of a row.
fn col_text(row: &Vec<Cell>, i: usize) -> (r: String)
    ensures
        r@ == text_col(row_view(row@), i as int),
{
    if i < row.len() {
        match &row[i] {
            Cell::Empty => String::new(),
            Cell::Text(s) => s.clone(),
            Cell::Number(n) => crate::text::u32_to_text(*n),
            Cell::Other(s) => s.clone(),
        }
    } else {
        String::new()
    }
}

/// The lenient value of one order column of a row.
fn col_num(row: &Vec<Cell>, i: usize) -> (r: u32)
    ensures
        r == num_col(row_view(row@), i as int),
{
    if i < row.len() {
        match &row[i] {
            Cell::Number(n) => *n,
            _ => 0,
        }
    } else {
        0
    }
}

/// Reader for sheet data holding records: parses every data row of every
/// sheet, in sheet-then-row order, aborting on the first bad identifier.
pub struct ExcelReader {
    pub records: Vec<Record>,
}

/// Parses the data rows of one sheet in order, appending the records.
fn parse_sheet(sheet: &SheetData, records: &mut Vec<Record>) -> (r: Result<
    (),
    ExcelReaderError,
>)
    ensures
        match r {
            Ok(_) => {
                let rows = sheet_data_rows(sheet@);
                &&& final(records)@.len() == old(records)@.len() + rows.len()
                &&& final(records)@.take(old(records)@.len() as int) == old(records)@
                &&& forall|k: int|
                    0 <= k < rows.len() ==> row_ok(#[trigger] rows[k]) && final(records)@[old(
                        records,
                    )@.len() + k]@ == row_record(rows[k])
            },
            Err(e) => {
                let rows = sheet_data_rows(sheet@);
                e matches ExcelReaderError::UuidParse(t) && exists|k: int|
                    0 <= k < rows.len() && !row_ok(#[trigger] rows[k]) && (forall|j: int|
                        0 <= j < k ==> row_ok(#[trigger] rows[j])) && t@ == row_err_text(rows[k])
            },
        },
{
    let ghost old_len = records@.len() as int;
    let ghost sv = sheet@;
    proof {
        assert(sv.len() == sheet.rows@.len());
    }
    if sheet.rows.len() <= 1 {
        assert(records@.take(old_len) =~= records@);
        return Ok(());
    }
    let mut ri: usize = 1;
    while ri < sheet.rows.len()
        invariant
            1 <= ri <= sheet.rows@.len(),
            sheet.rows@.len() > 1,
            sv == sheet@,
            sv.len() == sheet.rows@.len(),
            old_len == old(records)@.len(),
            records@.len() == old_len + ri - 1,
            records@.take(old_len) == old(records)@,
            forall|k: int|
                0 <= k < ri - 1 ==> row_ok(#[trigger] sv[k + 1]) && records@[old_len + k]@
                    == row_record(sv[k + 1]),
        decreases sheet.rows@.len() - ri,
    {
        proof {
            assert(sv[ri as int] == row_view(sheet.rows@[ri as int]@));
        }
        match parse_row(&sheet.rows[ri]) {
            Ok(rec) => {
                records.push(rec);
                proof {
                    assert(records@.take(old_len) =~= records@.drop_last().take(old_len));
                }
            },
            Err(e) => {
                proof {
                    let rows = sheet_data_rows(sv);
                    assert(rows =~= sv.skip(1));
                    let k = ri - 1;
                    assert(rows[k] == sv[ri as int]);
                    assert(!row_ok(rows[k]));
                    assert(forall|j: int| 0 <= j < k ==> row_ok(#[trigger] rows[j]));
                }
                return Err(e);
            },
        }
        ri = ri + 1;
    }
    proof {
        let rows = sheet_data_rows(sv);
        assert(rows =~= sv.skip(1));
        assert forall|k: int| 0 <= k < rows.len() implies row_ok(#[trigger] rows[k]) && records@[
            old_len + k
        ]@ == row_record(rows[k]) by {
            assert(rows[k] == sv[k + 1]);
        }
    }
    Ok(())
}

impl ExcelReader {
    /// Loads every record of the given sheets: skips each sheet's header
    /// row, parses every data row positionally, and concatenates the results
    /// in sheet-then-row order. Fails on the first row whose identifier cell
    /// is missing or malformed, with that row's raw identifier text.
    pub fn new(sheets: &Vec<SheetData>) -> (r: Result<ExcelReader, ExcelReaderError>)
        ensures
            match r {
                Ok(rd) => {
                    let rows = all_data_rows(sheets_view(sheets@));
                    &&& rd.records@.len() == rows.len()
                    &&& forall|k: int|
                        0 <= k < rows.len() ==> row_ok(#[trigger] rows[k]) && rd.records@[k]@
                            == row_record(rows[k])
                },
                Err(e) => {
                    let rows = all_data_rows(sheets_view(sheets@));
                    e matches ExcelReaderError::UuidParse(t) && exists|k: int|
                        0 <= k < rows.len() && !row_ok(#[trigger] rows[k]) && (forall|j: int|
                            0 <= j < k ==> row_ok(#[trigger] rows[j])) && t@ == row_err_text(
                            rows[k],
                        )
                },
            },
    {
        let ghost sv = sheets_view(sheets@);
        let mut records: Vec<Record> = Vec::new();
        let mut si: usize = 0;
        while si < sheets.len()
            invariant
                si <= sheets@.len(),
                sv == sheets_view(sheets@),
                sv.len() == sheets@.len(),
                records@.len() == all_data_rows(sv.take(si as int)).len(),
                forall|k: int|
                    0 <= k < records@.len() ==> row_ok(
                        #[trigger] all_data_rows(sv.take(si as int))[k],
                    ) && records@[k]@ == row_record(all_data_rows(sv.take(si as int))[k]),
            decreases sheets@.len() - si,
        {
            let ghost done = all_data_rows(sv.take(si as int));
            let ghost prev = records@;
            proof {
                assert(sv[si as int] == sheets@[si as int]@);
                assert(sv.take(si + 1).drop_last() =~= sv.take(si as int));
                assert(sv.take(si + 1).last() == sv[si as int]);
                assert(all_data_rows(sv.take(si + 1)) == done + sheet_data_rows(sv[si as int]));
            }
            let res = parse_sheet(&sheets[si], &mut records);
            match res {
                Ok(_) => {
                    proof {
                        let srows = sheet_data_rows(sv[si as int]);
                        let next = all_data_rows(sv.take(si + 1));
                        assert forall|k: int| 0 <= k < records@.len() implies row_ok(
                            #[trigger] next[k],
                        ) && records@[k]@ == row_record(next[k]) by {
                            if k < done.len() {
                                assert(next[k] == done[k]);
                                assert(records@.take(prev.len() as int)[k] == records@[k]);
                                assert(records@[k] == prev[k]);
                            } else {
                                assert(next[k] == srows[k - done.len()]);
                            }
                        }
                    }
                },
                Err(e) => {
                    proof {
                        let srows = sheet_data_rows(sv[si as int]);
                        let rows = all_data_rows(sv);
                        lemma_all_data_rows_split(sv, si + 1);
                        assert(rows == all_data_rows(sv.take(si + 1)) + all_data_rows(
                            sv.skip(si + 1),
                        ));
                        let k = choose|k: int|
                            0 <= k < srows.len() && !row_ok(#[trigger] srows[k]) && (forall|j: int|
                                0 <= j < k ==> row_ok(#[trigger] srows[j])) && e->UuidParse_0@
                                == row_err_text(srows[k]);
                        let kk = done.len() + k;
                        assert(rows[kk] == srows[k]);
                        assert forall|j: int| 0 <= j < kk implies row_ok(#[trigger] rows[j]) by {
                            if j < done.len() {
                                assert(rows[j] == done[j]);
                            } else {
                                assert(rows[j] == srows[j - done.len()]);
                            }
                        }
                        assert(!row_ok(rows[kk]) && e->UuidParse_0@ == row_err_text(rows[kk]));
                    }
                    return Err(e);
                },
            }
            si = si + 1;
        }
        proof {
            assert(sv.take(sheets@.len() as int) =~= sv);
        }
        Ok(ExcelReader { records })
    }
}

/// Law: the rows the writer lays out for any records, read back as one
/// sheet, parse without error to exactly those records, in order. Text
/// fields survive exactly; the order counters survive through the numeric
/// cells exactly.
pub proof fn lemma_write_read_round_trip(recs: Seq<RecordV>)
    ensures
        ({
            let rows = all_data_rows(seq![written_sheet(recs)]);
            &&& rows.len() == recs.len()
            &&& forall|k: int|
                0 <= k < recs.len() ==> row_ok(#[trigger] rows[k]) && row_record(rows[k])
                    == recs[k]
        }),
{
    let ws = written_sheet(recs);
    let one = seq![ws];
    assert(one.drop_last() =~= Seq::<Seq<Seq<CellV>>>::empty());
    assert(one.last() == ws);
    let rows = all_data_rows(one);
    assert(ws.len() == recs.len() + 1);
    assert(all_data_rows(Seq::<Seq<Seq<CellV>>>::empty()) =~= Seq::<Seq<CellV>>::empty());
    assert(rows == all_data_rows(one.drop_last()) + sheet_data_rows(one.last()));
    assert(rows =~= sheet_data_rows(ws));
    assert(rows =~= ws.skip(1));
    assert forall|k: int| 0 <= k < recs.len() implies row_ok(#[trigger] rows[k]) && row_record(
        rows[k],
    ) == recs[k] by {
        assert(rows[k] == ws[k + 1]);
        assert(ws[k + 1] == recs.map_values(|r: RecordV| written_row(r))[k]);
        let row = written_row(recs[k]);
        crate::ids::lemma_id_round_trip(recs[k].id);
        assert(row[0] == CellV::Text(crate::ids::id_text(recs[k].id)));
        assert(row_ok(row));
        assert(row_record(row) =~= recs[k]);
    }
}

} // verus!
