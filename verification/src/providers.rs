//! Outside providers for the generation policy: randomness, the pluggable
//! fake-text capability, and fresh identifier minting. Each item wraps one
//! call of an outside crate and states only what holds of every outcome.

use crate::ids::RecordId;
use fake::Fake;
use vstd::prelude::*;

verus! {

/// rand's thread-local random number generator, carried opaquely.
#[verifier::external_type_specification]
#[verifier::external_body]
pub struct ExThreadRng(rand::rngs::ThreadRng);

/// Relies on rand::thread_rng to obtain the thread-local generator;
/// nothing is promised of its state.
#[verifier::external_body]
pub(crate) fn new_rng() -> rand::rngs::ThreadRng {
    rand::thread_rng()
}

/// Relies on rand's Rng::gen_range over an inclusive range: the result lies
/// within the bounds; which value comes back is random.
#[verifier::external_body]
pub(crate) fn rand_u32_inclusive(rng: &mut rand::rngs::ThreadRng, lo: u32, hi: u32) -> (r: u32)
    requires
        lo <= hi,
    ensures
        lo <= r <= hi,
{
    rand::Rng::gen_range(rng, lo..=hi)
}

/// Relies on fake's faker::company::en::CompanyName: every company-name
/// template keeps at least one literal character, so the text is non-empty.
#[verifier::external_body]
pub(crate) fn fake_company() -> (r: String)
    ensures
        r@.len() > 0,
{
    fake::faker::company::en::CompanyName().fake()
}

/// Relies on fake's faker::phone_number::en::PhoneNumber: every phone
/// format string is non-empty and is mapped character for character.
#[verifier::external_body]
pub(crate) fn fake_phone() -> (r: String)
    ensures
        r@.len() > 0,
{
    fake::faker::phone_number::en::PhoneNumber().fake()
}

/// Relies on fake's faker::name::en::Name: the name template keeps a
/// literal space between the two parts, so the text is non-empty.
#[verifier::external_body]
pub(crate) fn fake_contact() -> (r: String)
    ensures
        r@.len() > 0,
{
    fake::faker::name::en::Name().fake()
}

/// Relies on uuid::Uuid::new_v4 and Uuid::as_u128 to mint a fresh random
/// identifier; nothing is promised of the value, and distinct calls may
/// not be assumed distinct (collisions are negligible, not impossible).
#[verifier::external_body]
pub(crate) fn mint_id() -> RecordId {
    RecordId { bits: uuid::Uuid::new_v4().as_u128() }
}

} // verus!
