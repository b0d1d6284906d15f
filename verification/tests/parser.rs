//! Row parsing policy: strict identifier column, lossy text columns,
//! lenient numeric columns, multi-sheet concatenation, exact errors.

use record_gen::ids::RecordId;
use record_gen::reader::{parse_row, ExcelReader, ExcelReaderError};
use record_gen::records::Record;
use record_gen::sheet::{Cell, SheetData};

const ID_A: &str = "00112233-4455-6677-8899-aabbccddeeff";

fn data_row(id: &str, seed: u32) -> Vec<Cell> {
    vec![
        Cell::Text(id.to_string()),
        Cell::Text(format!("Region{seed}")),
        Cell::Text(format!("Town{seed}")),
        Cell::Text(format!("Company{seed}")),
        Cell::Text(format!("Phone{seed}")),
        Cell::Text(format!("Contact{seed}")),
        Cell::Number(seed + 10),
        Cell::Number(seed),
    ]
}

fn header_row() -> Vec<Cell> {
    vec![
        Cell::Text("ID".to_string()),
        Cell::Text("Region".to_string()),
        Cell::Text("Municipality".to_string()),
        Cell::Text("Company".to_string()),
        Cell::Text("Phone".to_string()),
        Cell::Text("Contact".to_string()),
        Cell::Text("TotalOrder".to_string()),
        Cell::Text("RecentOrder".to_string()),
    ]
}

#[test]
fn parse_row_reconstructs_every_field() {
    let rec = parse_row(&data_row(ID_A, 3)).unwrap();
    let expected = Record {
        id: RecordId { bits: 0x00112233445566778899aabbccddeeffu128 },
        region: "Region3".to_string(),
        municipality: "Town3".to_string(),
        company: "Company3".to_string(),
        phone: "Phone3".to_string(),
        contact: "Contact3".to_string(),
        total_order: 13,
        recent_order: 3,
    };
    assert_eq!(rec, expected);
}

#[test]
fn parse_row_rejects_malformed_identifier() {
    let mut row = data_row(ID_A, 1);
    row[0] = Cell::Text("not-a-uuid".to_string());
    match parse_row(&row) {
        Err(ExcelReaderError::UuidParse(raw)) => assert_eq!(raw, "not-a-uuid"),
        _ => panic!("a malformed identifier must fail with its raw text"),
    }
}

#[test]
fn parse_row_rejects_missing_identifier_cell() {
    let mut row = data_row(ID_A, 1);
    row[0] = Cell::Empty;
    match parse_row(&row) {
        Err(ExcelReaderError::UuidParse(raw)) => assert_eq!(raw, "<missing>"),
        _ => panic!("a missing identifier cell must fail with the marker"),
    }
    match parse_row(&Vec::new()) {
        Err(ExcelReaderError::UuidParse(raw)) => assert_eq!(raw, "<missing>"),
        _ => panic!("an empty row must fail with the marker"),
    }
}

#[test]
fn parse_row_numeric_identifier_cell_is_missing() {
    let mut row = data_row(ID_A, 1);
    row[0] = Cell::Number(5);
    match parse_row(&row) {
        Err(ExcelReaderError::UuidParse(raw)) => assert_eq!(raw, "<missing>"),
        _ => panic!("a non-text identifier cell must fail with the marker"),
    }
}

#[test]
fn parse_row_empty_order_cell_defaults_to_zero() {
    let mut row = data_row(ID_A, 4);
    row[6] = Cell::Empty;
    let rec = parse_row(&row).unwrap();
    assert_eq!(rec.total_order, 0);
    assert_eq!(rec.recent_order, 4);
    let mut row2 = data_row(ID_A, 4);
    row2[7] = Cell::Text("nonsense".to_string());
    let rec2 = parse_row(&row2).unwrap();
    assert_eq!(rec2.total_order, 14);
    assert_eq!(rec2.recent_order, 0);
}

#[test]
fn parse_row_short_row_yields_empty_texts_and_zero_orders() {
    let row = vec![Cell::Text(ID_A.to_string())];
    let rec = parse_row(&row).unwrap();
    assert_eq!(rec.region, "");
    assert_eq!(rec.municipality, "");
    assert_eq!(rec.company, "");
    assert_eq!(rec.phone, "");
    assert_eq!(rec.contact, "");
    assert_eq!(rec.total_order, 0);
    assert_eq!(rec.recent_order, 0);
}

#[test]
fn reader_merges_two_sheets_in_order() {
    let ids = [
        "00000000-0000-0000-0000-000000000001",
        "00000000-0000-0000-0000-000000000002",
        "00000000-0000-0000-0000-000000000003",
        "00000000-0000-0000-0000-000000000004",
        "00000000-0000-0000-0000-000000000005",
        "00000000-0000-0000-0000-000000000006",
    ];
    let sheet1 = SheetData {
        rows: vec![
            header_row(),
            data_row(ids[0], 1),
            data_row(ids[1], 2),
            data_row(ids[2], 3),
        ],
    };
    let sheet2 = SheetData {
        rows: vec![
            header_row(),
            data_row(ids[3], 4),
            data_row(ids[4], 5),
            data_row(ids[5], 6),
        ],
    };
    let reader = ExcelReader::new(&vec![sheet1, sheet2]).unwrap();
    assert_eq!(reader.records.len(), 6);
    for (k, rec) in reader.records.iter().enumerate() {
        assert_eq!(rec.id.to_text(), ids[k]);
        assert_eq!(rec.recent_order, (k + 1) as u32);
    }
}

#[test]
fn reader_empty_and_header_only_sheets_yield_nothing() {
    let sheets = vec![
        SheetData { rows: Vec::new() },
        SheetData { rows: vec![header_row()] },
    ];
    let reader = ExcelReader::new(&sheets).unwrap();
    assert_eq!(reader.records.len(), 0);
}

#[test]
fn reader_fails_on_first_bad_row() {
    let sheet = SheetData {
        rows: vec![
            header_row(),
            data_row(ID_A, 1),
            {
                let mut bad = data_row(ID_A, 2);
                bad[0] = Cell::Text("bad-one".to_string());
                bad
            },
            {
                let mut bad = data_row(ID_A, 3);
                bad[0] = Cell::Text("bad-two".to_string());
                bad
            },
        ],
    };
    match ExcelReader::new(&vec![sheet]) {
        Err(ExcelReaderError::UuidParse(raw)) => assert_eq!(raw, "bad-one"),
        _ => panic!("the first bad row must abort the read"),
    }
}
