//! Generation and writing: the generator draws records from the fixed
//! region lookup table with bounded, ordered counters; the writer lays the
//! records out on one fresh sheet, a fixed header row and one row per
//! record, and hands the workbook back for the caller to persist.

use crate::providers::{
    fake_company, fake_contact, fake_phone, mint_id, new_rng, rand_u32_inclusive,
};
use crate::records::{
    generated_valid, muni_text, municipality_name, records_view, region_name, region_text, Record,
    RecordV,
};
use crate::sheet::{cell_text, header_texts, written_row};
use crate::workbook::{
    add_sheet, new_workbook, set_cell_number, set_cell_text, wb_cell_text, wb_sheet_names,
};
use vstd::prelude::*;

verus! {

/// quick_xml's error type, carried opaquely in `WriteError`.
#[verifier::external_type_specification]
#[verifier::external_body]
pub struct ExXmlError(quick_xml::Error);

/// Why a write failed: a codec-level fault while serializing or persisting,
/// or the data sheet could not be created inside the workbook.
#[derive(Debug)]
pub enum WriteError {
    /// An XML-level fault of the codec layer.
    Xml(quick_xml::Error),
    /// umya's codec fault while serializing or persisting the workbook.
    Xlsx(umya_spreadsheet::XlsxError),
    /// The data sheet could not be created inside the workbook.
    Sheet(&'static str),
}

impl From<umya_spreadsheet::XlsxError> for WriteError {
    fn from(e: umya_spreadsheet::XlsxError) -> (r: WriteError) {
        WriteError::Xlsx(e)
    }
}

impl vstd::std_specs::convert::FromSpecImpl<umya_spreadsheet::XlsxError> for WriteError {
    open spec fn obeys_from_spec() -> bool {
        true
    }

    open spec fn from_spec(e: umya_spreadsheet::XlsxError) -> WriteError {
        WriteError::Xlsx(e)
    }
}

/// Generates `count` synthetic records: for each, one region and one of its
/// municipalities drawn uniformly from the fixed lookup table, a total
/// order in 0..=1000, a recent order in 0..=total, non-empty fake company,
/// phone and contact texts, and a freshly minted identifier. Generation is
/// total: it cannot fail.
pub fn generate_records(count: usize) -> (r: Vec<Record>)
    ensures
        r@.len() == count,
        forall|k: int| 0 <= k < count ==> generated_valid(#[trigger] records_view(r@)[k]),
{
    let mut rng = new_rng();
    let mut out: Vec<Record> = Vec::new();
    let mut i: usize = 0;
    while i < count
        invariant
            i <= count,
            out@.len() == i,
            forall|k: int| 0 <= k < i ==> generated_valid(#[trigger] records_view(out@)[k]),
        decreases count - i,
    {
        let ri = rand_u32_inclusive(&mut rng, 0, 3) as usize;
        let mi = rand_u32_inclusive(&mut rng, 0, 2) as usize;
        let total_order = rand_u32_inclusive(&mut rng, 0, 1000);
        let recent_order = rand_u32_inclusive(&mut rng, 0, total_order);
        let rec = Record {
            id: mint_id(),
            region: region_name(ri).to_owned(),
            municipality: municipality_name(ri, mi).to_owned(),
            company: fake_company(),
            phone: fake_phone(),
            contact: fake_contact(),
            total_order,
            recent_order,
        };
        let ghost prev = out@;
        proof {
            assert(rec@.region == region_text(ri as int) && rec@.municipality == muni_text(
                ri as int,
                mi as int,
            ));
            assert(generated_valid(rec@));
        }
        out.push(rec);
        proof {
            assert(records_view(out@) =~= records_view(prev).push(rec@));
        }
        i = i + 1;
    }
    out
}

/// The exact populated coordinates of the data sheet after writing n
/// records: eight columns, the header row and one row per record.
pub open spec fn written_dom(n: int) -> Set<(u32, u32)> {
    Set::new(|p: (u32, u32)| 1 <= p.0 <= 8 && 1 <= p.1 <= n + 1)
}

/// The text the writer puts at a one-based coordinate of the data sheet:
/// the fixed header at row 1, the record's row cells below it.
pub open spec fn written_cell(recs: Seq<RecordV>, col: int, row: int) -> Seq<char> {
    if row == 1 {
        header_texts()[col - 1]
    } else {
        cell_text(written_row(recs[row - 2])[col - 1])
    }
}

/// Lays the records out on a fresh workbook: a new sheet named "Eu_Data"
/// holds the fixed eight-column header at row 1 and one row per record
/// from row 2, in the fixed column order; the six text columns hold their
/// exact texts, the two order columns numeric cells whose display text is
/// the decimal counter. The workbook is returned for the caller to
/// persist; creating the sheet in a fresh workbook cannot fail.
pub fn write_records(records: &Vec<Record>) -> (r: Result<
    umya_spreadsheet::Workbook,
    WriteError,
>)
    requires
        records@.len() + 2 <= u32::MAX,
    ensures
        r is Ok,
        ({
            let cells = wb_cell_text(r->Ok_0, "Eu_Data"@);
            let rv = records_view(records@);
            &&& wb_sheet_names(r->Ok_0) =~= seq!["Sheet1"@, "Eu_Data"@]
            &&& cells.dom() =~= written_dom(records@.len() as int)
            &&& forall|p: (u32, u32)|
                written_dom(records@.len() as int).contains(p) ==> #[trigger] cells[p]
                    == written_cell(rv, p.0 as int, p.1 as int)
        }),
{
    let ghost rv = records_view(records@);
    let mut wb = new_workbook();
    proof {
        reveal_strlit("Sheet1");
        reveal_strlit("Eu_Data");
        assert("Sheet1"@.len() == 6);
        assert("Eu_Data"@.len() == 7);
        assert("Sheet1"@ != "Eu_Data"@);
        assert(forall|k: int|
            0 <= k < wb_sheet_names(wb).len() ==> #[trigger] wb_sheet_names(wb)[k] == "Sheet1"@);
        assert(!wb_sheet_names(wb).contains("Eu_Data"@));
    }
    match add_sheet(&mut wb, "Eu_Data") {
        Ok(_) => {},
        Err(_) => {
            return Err(WriteError::Sheet("worksheet name is already in use"));
        },
    }
    proof {
        assert(wb_sheet_names(wb) =~= seq!["Sheet1"@, "Eu_Data"@]);
        assert(wb_sheet_names(wb).contains("Eu_Data"@)) by {
            assert(wb_sheet_names(wb)[1] == "Eu_Data"@);
        }
    }
    set_cell_text(&mut wb, "Eu_Data", 1, 1, "ID");
    set_cell_text(&mut wb, "Eu_Data", 2, 1, "Region");
    set_cell_text(&mut wb, "Eu_Data", 3, 1, "Municipality");
    set_cell_text(&mut wb, "Eu_Data", 4, 1, "Company");
    set_cell_text(&mut wb, "Eu_Data", 5, 1, "Phone");
    set_cell_text(&mut wb, "Eu_Data", 6, 1, "Contact");
    set_cell_text(&mut wb, "Eu_Data", 7, 1, "TotalOrder");
    set_cell_text(&mut wb, "Eu_Data", 8, 1, "RecentOrder");
    proof {
        assert(wb_cell_text(wb, "Eu_Data"@).dom() =~= written_dom(0));
        assert forall|p: (u32, u32)| written_dom(0).contains(p) implies #[trigger] wb_cell_text(
            wb,
            "Eu_Data"@,
        )[p] == written_cell(rv, p.0 as int, p.1 as int) by {
            assert(p.1 == 1 && 1 <= p.0 <= 8);
        }
    }
    let mut i: usize = 0;
    while i < records.len()
        invariant
            i <= records@.len(),
            records@.len() + 2 <= u32::MAX,
            rv == records_view(records@),
            wb_sheet_names(wb) =~= seq!["Sheet1"@, "Eu_Data"@],
            wb_sheet_names(wb).contains("Eu_Data"@),
            wb_cell_text(wb, "Eu_Data"@).dom() =~= written_dom(i as int),
            forall|p: (u32, u32)|
                written_dom(i as int).contains(p) ==> #[trigger] wb_cell_text(wb, "Eu_Data"@)[p]
                    == written_cell(rv, p.0 as int, p.1 as int),
        decreases records@.len() - i,
    {
        let rec = &records[i];
        let rowno: u32 = (i as u32) + 2;
        let idt = rec.id.to_text();
        set_cell_text(&mut wb, "Eu_Data", 1, rowno, idt.as_str());
        set_cell_text(&mut wb, "Eu_Data", 2, rowno, rec.region.as_str());
        set_cell_text(&mut wb, "Eu_Data", 3, rowno, rec.municipality.as_str());
        set_cell_text(&mut wb, "Eu_Data", 4, rowno, rec.company.as_str());
        set_cell_text(&mut wb, "Eu_Data", 5, rowno, rec.phone.as_str());
        set_cell_text(&mut wb, "Eu_Data", 6, rowno, rec.contact.as_str());
        set_cell_number(&mut wb, "Eu_Data", 7, rowno, rec.total_order);
        set_cell_number(&mut wb, "Eu_Data", 8, rowno, rec.recent_order);
        proof {
            assert(rv[i as int] == records@[i as int]@);
            assert(wb_cell_text(wb, "Eu_Data"@).dom() =~= written_dom(i + 1));
            assert forall|p: (u32, u32)| written_dom(i + 1).contains(p) implies #[trigger] wb_cell_text(
                wb,
                "Eu_Data"@,
            )[p] == written_cell(rv, p.0 as int, p.1 as int) by {
                if p.1 == i + 2 {
                    assert(1 <= p.0 <= 8);
                } else {
                    assert(written_dom(i as int).contains(p));
                }
            }
        }
        i = i + 1;
    }
    proof {
        assert(written_dom(records@.len() as int) =~= written_dom(i as int));
    }
    Ok(wb)
}

} // verus!
