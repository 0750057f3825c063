use crate::board::Card;
use rand::seq::SliceRandom;
use rand::{Rng, SeedableRng};
use rand_chacha::ChaCha20Rng;
use uuid::Uuid;
use vstd::prelude::*;

verus! {

#[verifier::external_type_specification]
#[verifier::external_body]
pub struct ExChaCha20Rng(ChaCha20Rng);

/// Relies on `rand_chacha::ChaCha20Rng::from_seed`: a generator keyed by the 32-byte seed.
#[verifier::external_body]
pub(crate) fn generator_from_seed(seed: [u8; 32]) -> ChaCha20Rng {
    ChaCha20Rng::from_seed(seed)
}

/// Relies on `rand::Rng::gen_range` over `0..bound`: a value below `bound`; it
/// panics on an empty range, hence the precondition.
#[verifier::external_body]
pub(crate) fn draw_below(rng: &mut ChaCha20Rng, bound: u32) -> (r: u32)
    requires
        0 < bound,
    ensures
        r < bound,
{
    rng.gen_range(0..bound)
}

/// Relies on `rand::seq::SliceRandom::shuffle`: it only swaps elements, so the
/// result is a permutation of the input.
#[verifier::external_body]
pub(crate) fn shuffle_cards(rng: &mut ChaCha20Rng, cards: &mut Vec<Card>)
    ensures
        final(cards)@.len() == old(cards)@.len(),
        final(cards)@.to_multiset() == old(cards)@.to_multiset(),
{
    cards.shuffle(rng)
}

/// Relies on `rand::Rng::fill` on a 16-byte array: it overwrites all of it.
#[verifier::external_body]
pub(crate) fn draw_id_bytes(rng: &mut ChaCha20Rng) -> [u8; 16] {
    let mut buf = [0u8; 16];
    rng.fill(&mut buf);
    buf
}

/// A lowercase hexadecimal digit.
pub open spec fn hex_digit(n: int) -> char {
    seq!['0', '1', '2', '3', '4', '5', '6', '7', '8', '9', 'a', 'b', 'c', 'd', 'e', 'f'][n]
}

/// Each byte as two lowercase hexadecimal digits, high nibble first, no separators.
pub open spec fn simple_hex(b: Seq<u8>) -> Seq<char>
    decreases b.len(),
{
    if b.len() == 0 {
        Seq::empty()
    } else {
        seq![hex_digit(b[0] as int / 16), hex_digit(b[0] as int % 16)] + simple_hex(b.drop_first())
    }
}

/// Relies on `uuid::Uuid::simple` and its `Display`: the 16 bytes as 32
/// lowercase hexadecimal digits.
#[verifier::external_body]
pub(crate) fn format_simple(bytes: [u8; 16]) -> (r: String)
    ensures
        r@ == simple_hex(bytes@),
{
    Uuid::from_bytes(bytes).simple().to_string()
}

} // verus!
