use sha2::{Digest, Sha256};
use vstd::prelude::*;

verus! {

/// What SHA-256 returns on the given bytes.
pub uninterp spec fn sha256_of(data: Seq<u8>) -> Seq<u8>;

/// Relies on `sha2::Sha256::digest`: a 32-byte digest that depends on the input bytes alone.
#[verifier::external_body]
fn sha256_digest(data: &Vec<u8>) -> (r: [u8; 32])
    ensures
        r@ == sha256_of(data@),
{
    Sha256::digest(data.as_slice()).into()
}

/// Big-endian bytes of a 64-bit value.
pub open spec fn be_bytes_u64(x: u64) -> Seq<u8> {
    seq![
        (x >> 56u64) as u8,
        (x >> 48u64) as u8,
        (x >> 40u64) as u8,
        (x >> 32u64) as u8,
        (x >> 24u64) as u8,
        (x >> 16u64) as u8,
        (x >> 8u64) as u8,
        x as u8,
    ]
}

/// Big-endian bytes of a 32-bit value.
pub open spec fn be_bytes_u32(x: u32) -> Seq<u8> {
    seq![(x >> 24u32) as u8, (x >> 16u32) as u8, (x >> 8u32) as u8, x as u8]
}

/// The bytes hashed into the next seed: current seed, caller entropy, caller
/// identity, block height and counter, in this order.
pub open spec fn preimage(
    seed: Seq<u8>,
    input: u64,
    sender: Seq<u8>,
    block_height: u64,
    counter: u32,
) -> Seq<u8> {
    seed + be_bytes_u64(input) + sender + be_bytes_u64(block_height) + be_bytes_u32(counter)
}

/// The counter after one more action; it wraps at the top of its range.
pub open spec fn next_counter(counter: u32) -> u32 {
    if counter == u32::MAX {
        0
    } else {
        (counter + 1) as u32
    }
}

fn push_be_u64(buf: &mut Vec<u8>, x: u64)
    ensures
        final(buf)@ == old(buf)@ + be_bytes_u64(x),
{
    buf.push((x >> 56u64) as u8);
    buf.push((x >> 48u64) as u8);
    buf.push((x >> 40u64) as u8);
    buf.push((x >> 32u64) as u8);
    buf.push((x >> 24u64) as u8);
    buf.push((x >> 16u64) as u8);
    buf.push((x >> 8u64) as u8);
    buf.push(x as u8);
    assert(buf@ =~= old(buf)@ + be_bytes_u64(x));
}

fn push_be_u32(buf: &mut Vec<u8>, x: u32)
    ensures
        final(buf)@ == old(buf)@ + be_bytes_u32(x),
{
    buf.push((x >> 24u32) as u8);
    buf.push((x >> 16u32) as u8);
    buf.push((x >> 8u32) as u8);
    buf.push(x as u8);
    assert(buf@ =~= old(buf)@ + be_bytes_u32(x));
}

fn push_all(buf: &mut Vec<u8>, bytes: &[u8])
    ensures
        final(buf)@ == old(buf)@ + bytes@,
{
    let mut i: usize = 0;
    while i < bytes.len()
        invariant
            i <= bytes@.len(),
            buf@ == old(buf)@ + bytes@.subrange(0, i as int),
        decreases bytes@.len() - i,
    {
        buf.push(bytes[i]);
        i += 1;
        assert(buf@ =~= old(buf)@ + bytes@.subrange(0, i as int));
    }
    assert(bytes@.subrange(0, i as int) =~= bytes@);
}

/// State of the entropy accumulator: a running 256-bit seed and a counter of
/// the actions folded into it.
#[derive(Clone, Copy, Debug, PartialEq, Eq)]
pub struct Random {
    pub seed: [u8; 32],
    pub counter: u32,
}

/// The accumulator after folding in one action.
pub open spec fn reseeded(r: Random, input: u64, sender: Seq<u8>, block_height: u64) -> (Seq<u8>, u32) {
    (sha256_of(preimage(r.seed@, input, sender, block_height, r.counter)), next_counter(r.counter))
}

impl Random {
    /// The accumulator of a fresh deployment: zero seed, zero counter.
    pub fn empty() -> (r: Self)
        ensures
            r.seed@ == Seq::new(32, |i: int| 0u8),
            r.counter == 0,
    {
        let r = Random { seed: [0u8; 32], counter: 0 };
        assert(r.seed@ =~= Seq::new(32, |i: int| 0u8));
        r
    }

    /// Folds the caller's entropy, identity and the block height into the seed
    /// and advances the counter.
    pub fn input_entropy(&mut self, input: u64, sender: &[u8], block_height: u64)
        ensures
            (final(self).seed@, final(self).counter) == reseeded(*old(self), input, sender@, block_height),
    {
        let mut buf: Vec<u8> = Vec::new();
        push_all(&mut buf, self.seed.as_slice());
        push_be_u64(&mut buf, input);
        push_all(&mut buf, sender);
        push_be_u64(&mut buf, block_height);
        push_be_u32(&mut buf, self.counter);
        assert(buf@ =~= preimage(old(self).seed@, input, sender@, block_height, old(self).counter));
        self.seed = sha256_digest(&buf);
        self.counter = if self.counter == u32::MAX { 0 } else { self.counter + 1 };
    }
}

/// Replaying the same action on the same accumulator state yields the same state.
pub proof fn lemma_reseed_deterministic(
    a: Random,
    b: Random,
    input: u64,
    sender: Seq<u8>,
    block_height: u64,
)
    requires
        a.seed@ == b.seed@,
        a.counter == b.counter,
    ensures
        reseeded(a, input, sender, block_height) == reseeded(b, input, sender, block_height),
{
}

} // verus!
