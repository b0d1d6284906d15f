//! Whole-file round trips: records written through the workbook codec and
//! read back through the spreadsheet parser come back exactly.

use calamine::{open_workbook_auto, Data, Reader};
use record_gen::data_gen::{generate_records, write_records};
use record_gen::ids::RecordId;
use record_gen::reader::ExcelReader;
use record_gen::records::Record;
use record_gen::sheet::{Cell, SheetData};

fn to_cell(d: &Data) -> Cell {
    match d {
        Data::Empty => Cell::Empty,
        Data::String(s) => Cell::Text(s.clone()),
        Data::Float(f) => Cell::Number(*f as u32),
        Data::Int(i) => Cell::Number(*i as u32),
        other => Cell::Other(other.to_string()),
    }
}

fn load_sheets(path: &str) -> Vec<SheetData> {
    let mut wb = open_workbook_auto(path).expect("workbook must open");
    let mut sheets = Vec::new();
    for name in wb.sheet_names().to_owned() {
        let range = wb.worksheet_range(&name).expect("sheet must be readable");
        let mut rows = Vec::new();
        for row in range.rows() {
            let mut cells = Vec::new();
            for c in row {
                cells.push(to_cell(c));
            }
            rows.push(cells);
        }
        sheets.push(SheetData { rows });
    }
    sheets
}

fn fixed_records() -> Vec<Record> {
    vec![
        Record {
            id: RecordId { bits: 0x00112233445566778899aabbccddeeffu128 },
            region: "Bavaria (DE)".to_string(),
            municipality: "Munich".to_string(),
            company: "Acme Gmbh".to_string(),
            phone: "089-1234-567".to_string(),
            contact: "Erika Musterfrau".to_string(),
            total_order: 1000,
            recent_order: 373,
        },
        Record {
            id: RecordId { bits: 1u128 },
            region: "Île-de-France (FR)".to_string(),
            municipality: "Paris".to_string(),
            company: "Société Exemple".to_string(),
            phone: "+33 1 23 45 67 89".to_string(),
            contact: "Jean Dupont".to_string(),
            total_order: 0,
            recent_order: 0,
        },
    ]
}

#[test]
fn fixed_records_survive_the_file_round_trip() {
    let records = fixed_records();
    let wb = write_records(&records).unwrap();
    let path = "/tmp/record_gen_round_trip_fixed.xlsx";
    umya_spreadsheet::writer::xlsx::write(&wb, path).expect("workbook must persist");
    let reader = ExcelReader::new(&load_sheets(path)).unwrap();
    assert_eq!(reader.records, records);
}

#[test]
fn generated_records_survive_the_file_round_trip() {
    let records = generate_records(25);
    let wb = write_records(&records).unwrap();
    let path = "/tmp/record_gen_round_trip_generated.xlsx";
    umya_spreadsheet::writer::xlsx::write(&wb, path).expect("workbook must persist");
    let reader = ExcelReader::new(&load_sheets(path)).unwrap();
    assert_eq!(reader.records.len(), 25);
    assert_eq!(reader.records, records);
}

#[test]
fn empty_write_yields_header_only_file() {
    let records: Vec<Record> = Vec::new();
    let wb = write_records(&records).unwrap();
    let path = "/tmp/record_gen_round_trip_empty.xlsx";
    umya_spreadsheet::writer::xlsx::write(&wb, path).expect("workbook must persist");
    let sheets = load_sheets(path);
    let reader = ExcelReader::new(&sheets).unwrap();
    assert_eq!(reader.records.len(), 0);
    let header: Vec<Cell> = [
        "ID",
        "Region",
        "Municipality",
        "Company",
        "Phone",
        "Contact",
        "TotalOrder",
        "RecentOrder",
    ]
    .iter()
    .map(|t| Cell::Text(t.to_string()))
    .collect();
    let with_rows: Vec<&SheetData> = sheets.iter().filter(|s| !s.rows.is_empty()).collect();
    assert_eq!(with_rows.len(), 1);
    assert_eq!(with_rows[0].rows.len(), 1);
    assert_eq!(with_rows[0].rows[0], header);
}

#[test]
fn order_counters_survive_numeric_cells_exactly() {
    let mut records = fixed_records();
    records[0].total_order = 999;
    records[0].recent_order = 1;
    let wb = write_records(&records).unwrap();
    let path = "/tmp/record_gen_round_trip_orders.xlsx";
    umya_spreadsheet::writer::xlsx::write(&wb, path).expect("workbook must persist");
    let reader = ExcelReader::new(&load_sheets(path)).unwrap();
    assert_eq!(reader.records[0].total_order, 999);
    assert_eq!(reader.records[0].recent_order, 1);
    assert_eq!(reader.records[1].total_order, 0);
}
