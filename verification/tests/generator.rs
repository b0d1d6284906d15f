//! Generation policy: counts, counter bounds and ordering, lookup-table
//! consistency, identifier distinctness.

use record_gen::data_gen::generate_records;
use std::collections::HashSet;

fn lookup_table() -> Vec<(&'static str, Vec<&'static str>)> {
    vec![
        ("Bavaria (DE)", vec!["Munich", "Nuremberg", "Augsburg"]),
        ("Île-de-France (FR)", vec!["Paris", "Boulogne-Billancourt", "Saint-Denis"]),
        ("Lombardy (IT)", vec!["Milan", "Bergamo", "Brescia"]),
        ("Andalusia (ES)", vec!["Seville", "Málaga", "Granada"]),
    ]
}

#[test]
fn generate_yields_requested_count() {
    assert_eq!(generate_records(5).len(), 5);
    assert_eq!(generate_records(1).len(), 1);
}

#[test]
fn generate_zero_yields_empty() {
    assert_eq!(generate_records(0).len(), 0);
}

#[test]
fn generated_orders_are_bounded_and_ordered() {
    for rec in generate_records(200) {
        assert!(rec.total_order <= 1000);
        assert!(rec.recent_order <= rec.total_order);
    }
}

#[test]
fn generated_municipality_matches_region() {
    let table = lookup_table();
    for rec in generate_records(200) {
        let entry = table.iter().find(|(r, _)| *r == rec.region.as_str());
        let (_, munis) = entry.expect("region must come from the fixed table");
        assert!(munis.iter().any(|m| *m == rec.municipality.as_str()));
    }
}

#[test]
fn generated_texts_are_non_empty() {
    for rec in generate_records(50) {
        assert!(!rec.company.is_empty());
        assert!(!rec.phone.is_empty());
        assert!(!rec.contact.is_empty());
    }
}

#[test]
fn ten_thousand_identifiers_are_distinct() {
    let records = generate_records(10000);
    let ids: HashSet<u128> = records.iter().map(|r| r.id.bits).collect();
    assert_eq!(ids.len(), 10000);
}
