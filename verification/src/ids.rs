//! Record identifiers: 128-bit values stored and parsed in their canonical
//! hyphenated lowercase hexadecimal text form (8-4-4-4-12 digits).

use vstd::prelude::*;
use vstd::arithmetic::div_mod::{
    lemma_basic_div, lemma_div_denominator, lemma_div_basics, lemma_fundamental_div_mod,
};
use vstd::arithmetic::power::{lemma_pow0, lemma_pow1, lemma_pow_adds, lemma_pow_positive, pow};
use vstd::string::StringExecFns;

verus! {

/// A 128-bit record identifier, minted once per record and immutable.
#[derive(Clone, Copy, Debug, PartialEq, Eq, Hash, Structural)]
pub struct RecordId {
    pub bits: u128,
}

/// The lowercase hexadecimal digit character for a value below sixteen.
pub open spec fn hex_digit(d: nat) -> char {
    if d == 0 {
        '0'
    } else if d == 1 {
        '1'
    } else if d == 2 {
        '2'
    } else if d == 3 {
        '3'
    } else if d == 4 {
        '4'
    } else if d == 5 {
        '5'
    } else if d == 6 {
        '6'
    } else if d == 7 {
        '7'
    } else if d == 8 {
        '8'
    } else if d == 9 {
        '9'
    } else if d == 10 {
        'a'
    } else if d == 11 {
        'b'
    } else if d == 12 {
        'c'
    } else if d == 13 {
        'd'
    } else if d == 14 {
        'e'
    } else {
        'f'
    }
}

/// The value of a hexadecimal digit character, either case, or -1 for any
/// other character.
pub open spec fn hex_val(c: char) -> int {
    let u = c as u32;
    if 48 <= u && u <= 57 {
        u - 48
    } else if 97 <= u && u <= 102 {
        u - 87
    } else if 65 <= u && u <= 70 {
        u - 55
    } else {
        -1
    }
}

pub open spec fn is_hex_char(c: char) -> bool {
    hex_val(c) >= 0
}

/// The i-th hexadecimal digit value of an identifier, most significant first.
pub open spec fn nib(n: u128, i: int) -> int {
    (n as int / pow(16, (31 - i) as nat)) % 16
}

/// The 32 hexadecimal digits of an identifier, most significant first.
pub open spec fn id_hex(n: u128) -> Seq<char> {
    Seq::new(32, |i: int| hex_digit(nib(n, i) as nat))
}

/// The canonical text of an identifier: the 32 lowercase hexadecimal digits
/// in groups of 8, 4, 4, 4 and 12, separated by hyphens.
pub open spec fn id_text(n: u128) -> Seq<char> {
    id_hex(n).subrange(0, 8) + seq!['-'] + id_hex(n).subrange(8, 12) + seq!['-'] + id_hex(
        n,
    ).subrange(12, 16) + seq!['-'] + id_hex(n).subrange(16, 20) + seq!['-'] + id_hex(n).subrange(
        20,
        32,
    )
}

/// Whether a text is a syntactically valid identifier: 36 characters, hyphens
/// at positions 8, 13, 18 and 23, hexadecimal digits (either case) elsewhere.
pub open spec fn is_id_text(s: Seq<char>) -> bool {
    &&& s.len() == 36
    &&& s[8] == '-'
    &&& s[13] == '-'
    &&& s[18] == '-'
    &&& s[23] == '-'
    &&& forall|i: int|
        0 <= i < 36 && i != 8 && i != 13 && i != 18 && i != 23 ==> is_hex_char(#[trigger] s[i])
}

/// The 32 digit characters of a well-formed identifier text, hyphens removed.
pub open spec fn id_text_digits(s: Seq<char>) -> Seq<char> {
    s.subrange(0, 8) + s.subrange(9, 13) + s.subrange(14, 18) + s.subrange(19, 23) + s.subrange(
        24,
        36,
    )
}

/// The value of a sequence of hexadecimal digit characters, most significant
/// first.
pub open spec fn hex_seq_val(ds: Seq<char>) -> int
    decreases ds.len(),
{
    if ds.len() == 0 {
        0
    } else {
        hex_seq_val(ds.drop_last()) * 16 + hex_val(ds.last())
    }
}

/// What parsing an identifier text yields: the digits' value for a
/// well-formed text, nothing otherwise.
pub open spec fn parse_id_text(s: Seq<char>) -> Option<u128> {
    if is_id_text(s) {
        Some(hex_seq_val(id_text_digits(s)) as u128)
    } else {
        None
    }
}

proof fn lemma_hex_digit_val(d: nat)
    requires
        d < 16,
    ensures
        hex_val(hex_digit(d)) == d,
{
}

proof fn lemma_pow16_32()
    ensures
        pow(16, 32) == 0x100000000000000000000000000000000,
{
    reveal_with_fuel(pow, 33);
}

proof fn lemma_fold_nibs(n: u128, k: int)
    requires
        0 <= k <= 32,
    ensures
        hex_seq_val(id_hex(n).take(k)) == n as int / pow(16, (32 - k) as nat),
    decreases k,
{
    lemma_pow_positive(16, (32 - k) as nat);
    if k == 0 {
        assert(id_hex(n).take(0) =~= Seq::<char>::empty());
        lemma_pow16_32();
        lemma_basic_div(n as int, pow(16, 32));
    } else {
        lemma_fold_nibs(n, k - 1);
        lemma_pow_positive(16, (32 - k + 1) as nat);
        let t = id_hex(n).take(k);
        assert(t.drop_last() =~= id_hex(n).take(k - 1));
        assert(t.last() == hex_digit(nib(n, k - 1) as nat));
        let q = n as int / pow(16, (32 - k) as nat);
        lemma_hex_digit_val(nib(n, k - 1) as nat);
        assert(hex_val(t.last()) == nib(n, k - 1));
        assert(nib(n, k - 1) == q % 16);
        // n / 16^(33-k) equals (n / 16^(32-k)) / 16
        lemma_pow_adds(16, (32 - k) as nat, 1);
        lemma_pow1(16);
        lemma_div_denominator(n as int, pow(16, (32 - k) as nat), 16);
        lemma_fundamental_div_mod(q, 16);
        assert(hex_seq_val(t) == hex_seq_val(t.drop_last()) * 16 + hex_val(t.last()));
    }
}

/// Law: parsing the canonical text of any identifier yields that identifier
/// back, unchanged.
pub proof fn lemma_id_round_trip(n: u128)
    ensures
        parse_id_text(id_text(n)) == Some(n),
{
    let s = id_text(n);
    assert forall|i: int| 0 <= i < 36 && i != 8 && i != 13 && i != 18 && i != 23 implies is_hex_char(
        #[trigger] s[i],
    ) by {
        let d = if i < 8 {
            i
        } else if i < 13 {
            i - 1
        } else if i < 18 {
            i - 2
        } else if i < 23 {
            i - 3
        } else {
            i - 4
        };
        assert(s[i] == id_hex(n)[d]);
        lemma_hex_digit_val(nib(n, d) as nat);
    }
    assert(is_id_text(s));
    assert(id_text_digits(s) =~= id_hex(n));
    lemma_fold_nibs(n, 32);
    assert(id_hex(n).take(32) =~= id_hex(n));
    lemma_pow0(16);
    lemma_div_basics(n as int);
    assert(hex_seq_val(id_hex(n)) == n as int);
}

fn hex_char_str(d: u8) -> (r: &'static str)
    requires
        d < 16,
    ensures
        r@ =~= seq![hex_digit(d as nat)],
{
    proof {
        reveal_strlit("0");
        reveal_strlit("1");
        reveal_strlit("2");
        reveal_strlit("3");
        reveal_strlit("4");
        reveal_strlit("5");
        reveal_strlit("6");
        reveal_strlit("7");
        reveal_strlit("8");
        reveal_strlit("9");
        reveal_strlit("a");
        reveal_strlit("b");
        reveal_strlit("c");
        reveal_strlit("d");
        reveal_strlit("e");
        reveal_strlit("f");
    }
    match d {
        0 => "0",
        1 => "1",
        2 => "2",
        3 => "3",
        4 => "4",
        5 => "5",
        6 => "6",
        7 => "7",
        8 => "8",
        9 => "9",
        10 => "a",
        11 => "b",
        12 => "c",
        13 => "d",
        14 => "e",
        _ => "f",
    }
}

/// The 32 hexadecimal digit values of an identifier, least significant first.
fn hex_digits_lsb(n: u128) -> (ds: Vec<u8>)
    ensures
        ds@.len() == 32,
        forall|j: int| 0 <= j < 32 ==> #[trigger] ds@[j] < 16 && ds@[j] as int == nib(n, 31 - j),
{
    let mut ds: Vec<u8> = Vec::new();
    let mut rest: u128 = n;
    let mut i: usize = 0;
    proof {
        lemma_pow0(16);
        lemma_div_basics(n as int);
    }
    while i < 32
        invariant
            i <= 32,
            ds@.len() == i,
            rest as int == n as int / pow(16, i as nat),
            forall|j: int|
                0 <= j < i ==> #[trigger] ds@[j] < 16 && ds@[j] as int == (n as int / pow(
                    16,
                    j as nat,
                )) % 16,
        decreases 32 - i,
    {
        let d: u8 = (rest % 16) as u8;
        ds.push(d);
        proof {
            lemma_pow_positive(16, i as nat);
            lemma_pow_adds(16, i as nat, 1);
            lemma_pow1(16);
            lemma_div_denominator(n as int, pow(16, i as nat), 16);
        }
        rest = rest / 16;
        i = i + 1;
    }
    assert forall|j: int| 0 <= j < 32 implies #[trigger] ds@[j] < 16 && ds@[j] as int == nib(
        n,
        31 - j,
    ) by {
        assert(ds@[j] as int == (n as int / pow(16, j as nat)) % 16);
    }
    ds
}

/// The digits at positions `lo..hi` of the canonical text, rendered most
/// significant first from the least-significant-first digit vector.
fn hex_piece(ds: &Vec<u8>, lo: usize, hi: usize, Ghost(n): Ghost<u128>) -> (r: String)
    requires
        lo <= hi <= 32,
        ds@.len() == 32,
        forall|j: int| 0 <= j < 32 ==> #[trigger] ds@[j] < 16 && ds@[j] as int == nib(n, 31 - j),
    ensures
        r@ =~= id_hex(n).subrange(lo as int, hi as int),
{
    let mut r = String::new();
    let mut k: usize = lo;
    while k < hi
        invariant
            lo <= k <= hi <= 32,
            ds@.len() == 32,
            forall|j: int|
                0 <= j < 32 ==> #[trigger] ds@[j] < 16 && ds@[j] as int == nib(n, 31 - j),
            r@ =~= id_hex(n).subrange(lo as int, k as int),
        decreases hi - k,
    {
        r.append(hex_char_str(ds[31 - k]));
        proof {
            assert(ds@[31 - k as int] as int == nib(n, k as int));
            assert(id_hex(n)[k as int] == hex_digit(nib(n, k as int) as nat));
            assert(r@ =~= id_hex(n).subrange(lo as int, k + 1));
        }
        k = k + 1;
    }
    r
}

fn hyphen_str() -> (r: &'static str)
    ensures
        r@ =~= seq!['-'],
{
    proof {
        reveal_strlit("-");
    }
    "-"
}

impl RecordId {
    /// Renders the identifier as its canonical hyphenated lowercase
    /// hexadecimal text.
    pub fn to_text(&self) -> (r: String)
        ensures
            r@ == id_text(self.bits),
    {
        let n = self.bits;
        let ds = hex_digits_lsb(n);
        let mut r = hex_piece(&ds, 0, 8, Ghost(n));
        r.append(hyphen_str());
        let p2 = hex_piece(&ds, 8, 12, Ghost(n));
        r.append(p2.as_str());
        r.append(hyphen_str());
        let p3 = hex_piece(&ds, 12, 16, Ghost(n));
        r.append(p3.as_str());
        r.append(hyphen_str());
        let p4 = hex_piece(&ds, 16, 20, Ghost(n));
        r.append(p4.as_str());
        r.append(hyphen_str());
        let p5 = hex_piece(&ds, 20, 32, Ghost(n));
        r.append(p5.as_str());
        assert(r@ =~= id_text(n));
        r
    }

    /// Parses an identifier from its canonical hyphenated hexadecimal text,
    /// accepting digits of either case; yields nothing on any other text.
    pub fn from_text(s: &str) -> (r: Option<RecordId>)
        ensures
            match r {
                Some(id) => parse_id_text(s@) == Some(id.bits),
                None => parse_id_text(s@) is None,
            },
    {
        let v = crate::text::str_chars(s);
        if v.len() != 36 {
            return None;
        }
        if !(v[8] == '-' && v[13] == '-' && v[18] == '-' && v[23] == '-') {
            return None;
        }
        proof {
            lemma_pow0(16);
        }
        let a1 = match hex_group(&v, 0, 8, 0, Ghost(Seq::empty())) {
            Some(a) => a,
            None => {
                return None;
            },
        };
        let ghost d1 = v@.subrange(0, 8);
        proof {
            assert(Seq::empty() + d1 =~= d1);
        }
        let a2 = match hex_group(&v, 9, 13, a1, Ghost(d1)) {
            Some(a) => a,
            None => {
                return None;
            },
        };
        let ghost d2 = d1 + v@.subrange(9, 13);
        let a3 = match hex_group(&v, 14, 18, a2, Ghost(d2)) {
            Some(a) => a,
            None => {
                return None;
            },
        };
        let ghost d3 = d2 + v@.subrange(14, 18);
        let a4 = match hex_group(&v, 19, 23, a3, Ghost(d3)) {
            Some(a) => a,
            None => {
                return None;
            },
        };
        let ghost d4 = d3 + v@.subrange(19, 23);
        let a5 = match hex_group(&v, 24, 36, a4, Ghost(d4)) {
            Some(a) => a,
            None => {
                return None;
            },
        };
        proof {
            assert(is_id_text(s@));
            assert(d4 + v@.subrange(24, 36) =~= id_text_digits(s@));
        }
        Some(RecordId { bits: a5 })
    }
}

/// Accumulates the value of the hexadecimal digits at positions `lo..hi`,
/// extending an accumulator that already holds the value of `done`.
fn hex_group(v: &Vec<char>, lo: usize, hi: usize, acc0: u128, Ghost(done): Ghost<Seq<char>>) -> (r:
    Option<u128>)
    requires
        lo <= hi <= v@.len(),
        done.len() + (hi - lo) <= 32,
        acc0 as int == hex_seq_val(done),
        0 <= hex_seq_val(done) < pow(16, done.len()),
    ensures
        match r {
            Some(acc) => {
                &&& forall|i: int| lo <= i < hi ==> is_hex_char(#[trigger] v@[i])
                &&& acc as int == hex_seq_val(done + v@.subrange(lo as int, hi as int))
                &&& 0 <= hex_seq_val(done + v@.subrange(lo as int, hi as int)) < pow(
                    16,
                    (done.len() + (hi - lo)) as nat,
                )
            },
            None => exists|i: int| lo <= i < hi && !is_hex_char(#[trigger] v@[i]),
        },
{
    let mut acc = acc0;
    let mut p: usize = lo;
    while p < hi
        invariant
            lo <= p <= hi <= v@.len(),
            done.len() + (hi - lo) <= 32,
            forall|i: int| lo <= i < p ==> is_hex_char(#[trigger] v@[i]),
            acc as int == hex_seq_val(done + v@.subrange(lo as int, p as int)),
            0 <= hex_seq_val(done + v@.subrange(lo as int, p as int)) < pow(
                16,
                (done.len() + (p - lo)) as nat,
            ),
        decreases hi - p,
    {
        let hv = match hex_val_of(v[p]) {
            Some(d) => d,
            None => {
                return None;
            },
        };
        let ghost prev = done + v@.subrange(lo as int, p as int);
        proof {
            lemma_pow_positive(16, (done.len() + (p - lo)) as nat);
            lemma_pow_adds(16, (done.len() + (p - lo)) as nat, 1);
            lemma_pow1(16);
            lemma_pow16_32();
            vstd::arithmetic::power::lemma_pow_increases(
                16,
                (done.len() + (p - lo) + 1) as nat,
                32,
            );
            assert((acc as int) * 16 + (hv as int) < pow(16, (done.len() + (p - lo) + 1) as nat));
        }
        acc = acc * 16 + (hv as u128);
        proof {
            let cur = done + v@.subrange(lo as int, p + 1);
            assert(cur.drop_last() =~= prev);
            assert(cur.last() == v@[p as int]);
        }
        p = p + 1;
    }
    Some(acc)
}

/// The hexadecimal value of one character, either case, if it has one.
fn hex_val_of(c: char) -> (r: Option<u8>)
    ensures
        match r {
            Some(d) => d < 16 && hex_val(c) == d as int,
            None => !is_hex_char(c),
        },
{
    let u = c as u32;
    if 48 <= u && u <= 57 {
        Some((u - 48) as u8)
    } else if 97 <= u && u <= 102 {
        Some((u - 87) as u8)
    } else if 65 <= u && u <= 70 {
        Some((u - 55) as u8)
    } else {
        None
    }
}

} // verus!
