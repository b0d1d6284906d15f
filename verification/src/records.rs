//! The record data model: one synthetic business-contact entry, its
//! mathematical view, the fixed region lookup table, and the mapping of a
//! record onto the eight cell texts of a sheet row.

use crate::ids::{id_text, RecordId};
use crate::text::dec_str;
use vstd::prelude::*;

verus! {

/// One synthetic business-contact entry. Constructed whole, either freshly
/// generated or reconstructed from one sheet row, and immutable afterwards.
#[derive(Debug, Clone, PartialEq)]
pub struct Record {
    pub id: RecordId,
    pub region: String,
    pub municipality: String,
    pub company: String,
    pub phone: String,
    pub contact: String,
    pub total_order: u32,
    pub recent_order: u32,
}

/// The mathematical view of a record: the identifier's bits, the texts of
/// the five free-form fields, and the two order counters.
#[verifier::ext_equal]
pub struct RecordV {
    pub id: u128,
    pub region: Seq<char>,
    pub municipality: Seq<char>,
    pub company: Seq<char>,
    pub phone: Seq<char>,
    pub contact: Seq<char>,
    pub total_order: u32,
    pub recent_order: u32,
}

impl View for Record {
    type V = RecordV;

    open spec fn view(&self) -> RecordV {
        RecordV {
            id: self.id.bits,
            region: self.region@,
            municipality: self.municipality@,
            company: self.company@,
            phone: self.phone@,
            contact: self.contact@,
            total_order: self.total_order,
            recent_order: self.recent_order,
        }
    }
}

/// The views of a sequence of records, in order.
pub open spec fn records_view(s: Seq<Record>) -> Seq<RecordV> {
    s.map_values(|r: Record| r@)
}

/// Number of regions in the fixed lookup table.
pub const REGION_COUNT: usize = 4;

/// Number of municipalities listed for each region.
pub const MUNICIPALITY_COUNT: usize = 3;

/// The fixed region names, by table index.
pub open spec fn region_text(i: int) -> Seq<char> {
    if i == 0 {
        "Bavaria (DE)"@
    } else if i == 1 {
        "Île-de-France (FR)"@
    } else if i == 2 {
        "Lombardy (IT)"@
    } else {
        "Andalusia (ES)"@
    }
}

/// The fixed municipality names, by region index and list position.
pub open spec fn muni_text(i: int, j: int) -> Seq<char> {
    if i == 0 {
        if j == 0 {
            "Munich"@
        } else if j == 1 {
            "Nuremberg"@
        } else {
            "Augsburg"@
        }
    } else if i == 1 {
        if j == 0 {
            "Paris"@
        } else if j == 1 {
            "Boulogne-Billancourt"@
        } else {
            "Saint-Denis"@
        }
    } else if i == 2 {
        if j == 0 {
            "Milan"@
        } else if j == 1 {
            "Bergamo"@
        } else {
            "Brescia"@
        }
    } else {
        if j == 0 {
            "Seville"@
        } else if j == 1 {
            "Málaga"@
        } else {
            "Granada"@
        }
    }
}

/// The name of the region at a table index.
pub fn region_name(i: usize) -> (r: &'static str)
    requires
        i < REGION_COUNT,
    ensures
        r@ == region_text(i as int),
{
    match i {
        0 => "Bavaria (DE)",
        1 => "Île-de-France (FR)",
        2 => "Lombardy (IT)",
        _ => "Andalusia (ES)",
    }
}

/// The name of a municipality of the region at a table index.
pub fn municipality_name(i: usize, j: usize) -> (r: &'static str)
    requires
        i < REGION_COUNT,
        j < MUNICIPALITY_COUNT,
    ensures
        r@ == muni_text(i as int, j as int),
{
    match i {
        0 => match j {
            0 => "Munich",
            1 => "Nuremberg",
            _ => "Augsburg",
        },
        1 => match j {
            0 => "Paris",
            1 => "Boulogne-Billancourt",
            _ => "Saint-Denis",
        },
        2 => match j {
            0 => "Milan",
            1 => "Bergamo",
            _ => "Brescia",
        },
        _ => match j {
            0 => "Seville",
            1 => "Málaga",
            _ => "Granada",
        },
    }
}

/// The generation-policy invariant: the order counters are bounded and
/// ordered, the region and municipality come from one entry of the fixed
/// lookup table, and the three free-form texts are non-empty.
pub open spec fn generated_valid(r: RecordV) -> bool {
    &&& r.total_order <= 1000
    &&& r.recent_order <= r.total_order
    &&& exists|i: int, j: int|
        0 <= i < REGION_COUNT && 0 <= j < MUNICIPALITY_COUNT && r.region == #[trigger] region_text(
            i,
        ) && r.municipality == #[trigger] muni_text(i, j)
    &&& r.company.len() > 0
    &&& r.phone.len() > 0
    &&& r.contact.len() > 0
}

/// The eight cell texts of one record, in the fixed column order of the
/// sheet: identifier, region, municipality, company, phone, contact, and the
/// two order counters in decimal text.
pub fn record_row(rec: &Record) -> (r: Vec<String>)
    ensures
        r@.len() == 8,
        r@[0]@ == id_text(rec@.id),
        r@[1]@ == rec@.region,
        r@[2]@ == rec@.municipality,
        r@[3]@ == rec@.company,
        r@[4]@ == rec@.phone,
        r@[5]@ == rec@.contact,
        r@[6]@ == dec_str(rec@.total_order as nat),
        r@[7]@ == dec_str(rec@.recent_order as nat),
{
    let mut v: Vec<String> = Vec::new();
    v.push(rec.id.to_text());
    v.push(rec.region.clone());
    v.push(rec.municipality.clone());
    v.push(rec.company.clone());
    v.push(rec.phone.clone());
    v.push(rec.contact.clone());
    v.push(crate::text::u32_to_text(rec.total_order));
    v.push(crate::text::u32_to_text(rec.recent_order));
    v
}

} // verus!
