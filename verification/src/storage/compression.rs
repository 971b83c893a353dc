//! Block compression of integer columns (bit packing) and delta encoding.
use bitpacking::{BitPacker, BitPacker4x};
use vstd::prelude::*;
use vstd::wrapping::u32_specs;

verus! {

/// A bit packer for blocks of 128 integers (the `bitpacking` crate's SIMD
/// implementation, chosen for the CPU at hand).
#[verifier::external_type_specification]
#[verifier::external_body]
pub struct ExBitPacker4x(bitpacking::BitPacker4x);

/// Integers per compressed block.
pub const BLOCK_LEN: usize = 128;

/// Every value of `s` is below `2^bits`.
pub open spec fn spec_fits(s: Seq<u32>, bits: nat) -> bool {
    forall|i: int| 0 <= i < s.len() ==> (#[trigger] s[i]) < vstd::arithmetic::power2::pow2(bits)
}

/// The bytes `bitpacking` produces for a block packed with `num_bits` bits
/// per value.
pub uninterp spec fn bitpacked_block(values: Seq<u32>, num_bits: u8) -> Seq<u8>;

/// The block `bitpacking` unpacks from `bytes` read with `num_bits` bits per
/// value.
pub uninterp spec fn unpacked_block(bytes: Seq<u8>, num_bits: u8) -> Seq<u32>;

/// `BitPacker4x::new()`: the packer for this CPU.
#[verifier::external_body]
fn new_packer() -> BitPacker4x {
    BitPacker4x::new()
}

/// `BitPacker::num_bits`: the number of bits of the largest value of the
/// block (the bit width of the OR of all values), which is the least width
/// every value fits in.
#[verifier::external_body]
fn packed_width(packer: &BitPacker4x, data: &[u32]) -> (b: u8)
    requires
        data@.len() == BLOCK_LEN,
    ensures
        b <= 32,
        spec_fits(data@, b as nat),
        b > 0 ==> !spec_fits(data@, (b - 1) as nat),
{
    packer.num_bits(data)
}

/// `BitPacker::compress` into a buffer of `4 * BLOCK_LEN` bytes, cut to the
/// length it reports. As the crate documents, the output takes
/// `num_bits * BLOCK_LEN / 8` bytes and `decompress` gives the block back.
#[verifier::external_body]
fn pack(packer: &BitPacker4x, data: &[u32], num_bits: u8) -> (out: Vec<u8>)
    requires
        data@.len() == BLOCK_LEN,
        num_bits <= 32,
        spec_fits(data@, num_bits as nat),
    ensures
        out@ == bitpacked_block(data@, num_bits),
        out@.len() == 16 * num_bits,
        unpacked_block(out@, num_bits) == data@,
{
    let mut compressed = vec![0u8; 4 * BitPacker4x::BLOCK_LEN];
    let len = packer.compress(data, &mut compressed, num_bits);
    compressed.truncate(len);
    compressed
}

/// `BitPacker::decompress` of one block into `BLOCK_LEN` integers.
#[verifier::external_body]
fn unpack(packer: &BitPacker4x, compressed: &[u8], num_bits: u8) -> (out: Vec<u32>)
    requires
        num_bits <= 32,
        compressed@.len() >= 16 * num_bits,
    ensures
        out@ == unpacked_block(compressed@, num_bits),
        out@.len() == BLOCK_LEN,
{
    let mut decompressed = vec![0u32; BitPacker4x::BLOCK_LEN];
    packer.decompress(compressed, &mut decompressed, num_bits);
    decompressed
}

/// Block compressor for integer columns.
pub struct TurboCompressor {
    packer: BitPacker4x,
}

impl TurboCompressor {
    /// A compressor using the best bit packer for this CPU.
    pub fn new() -> Self {
        TurboCompressor { packer: new_packer() }
    }

    /// Compresses a block of 128 integers with the least bit width that holds
    /// them all; returns the bytes and that width. The bytes decompress back
    /// to the block.
    pub fn compress_u32_block(&self, data: &[u32]) -> (r: (Vec<u8>, u8))
        requires
            data@.len() == BLOCK_LEN,
        ensures
            r.1 <= 32,
            spec_fits(data@, r.1 as nat),
            r.1 > 0 ==> !spec_fits(data@, (r.1 - 1) as nat),
            r.0@ == bitpacked_block(data@, r.1),
            r.0@.len() == 16 * r.1,
            unpacked_block(r.0@, r.1) == data@,
    {
        let num_bits = packed_width(&self.packer, data);
        let compressed = pack(&self.packer, data, num_bits);
        (compressed, num_bits)
    }

    /// Decompresses one block of 128 integers packed with `num_bits` bits.
    pub fn decompress_u32_block(&self, compressed: &[u8], num_bits: u8) -> (out: Vec<u32>)
        requires
            num_bits <= 32,
            compressed@.len() >= 16 * num_bits,
        ensures
            out@ == unpacked_block(compressed@, num_bits),
            out@.len() == BLOCK_LEN,
    {
        unpack(&self.packer, compressed, num_bits)
    }
}

/// Delta encoding: the first value, then the wrapping difference of each
/// value and the one before it.
pub open spec fn spec_delta_encoded(s: Seq<u32>) -> Seq<u32> {
    Seq::new(s.len(), |i: int| if i == 0 { s[0] } else { u32_specs::wrapping_sub(s[i], s[i - 1]) })
}

/// Running wrapping sum of the first `i + 1` values.
pub open spec fn spec_prefix_sum(s: Seq<u32>, i: int) -> u32
    decreases i,
{
    if i <= 0 { s[0] } else { u32_specs::wrapping_add(s[i], spec_prefix_sum(s, i - 1)) }
}

/// Reverting delta encoding: the running wrapping sums.
pub open spec fn spec_delta_decoded(s: Seq<u32>) -> Seq<u32> {
    Seq::new(s.len(), |i: int| spec_prefix_sum(s, i))
}

/// Replaces each value (but the first) with its wrapping difference from the
/// previous one.
pub fn apply_delta_encoding(data: &mut [u32])
    ensures
        final(data)@ == spec_delta_encoded(old(data)@),
{
    let n: usize = data.len();
    if n == 0 {
        assert(data@ =~= spec_delta_encoded(old(data)@));
        return;
    }
    let ghost orig = data@;
    let mut i: usize = n - 1;
    while i >= 1
        invariant
            n == orig.len(),
            data@.len() == n,
            0 <= i < n,
            forall|j: int| 0 <= j <= i ==> data@[j] == orig[j],
            forall|j: int| i < j < n ==> data@[j] == spec_delta_encoded(orig)[j],
        decreases i,
    {
        let cur: u32 = data[i];
        let prev: u32 = data[i - 1];
        data[i] = cur.wrapping_sub(prev);
        i = i - 1;
    }
    assert(data@ =~= spec_delta_encoded(orig));
}

/// Replaces each value with the wrapping sum of it and all values before it,
/// undoing `apply_delta_encoding`.
pub fn revert_delta_encoding(data: &mut [u32])
    ensures
        final(data)@ == spec_delta_decoded(old(data)@),
{
    let n: usize = data.len();
    let ghost orig = data@;
    if n == 0 {
        assert(data@ =~= spec_delta_decoded(orig));
        return;
    }
    let mut i: usize = 1;
    while i < n
        invariant
            n == orig.len(),
            data@.len() == n,
            1 <= i <= n,
            forall|j: int| 0 <= j < i ==> data@[j] == spec_prefix_sum(orig, j),
            forall|j: int| i <= j < n ==> data@[j] == orig[j],
        decreases n - i,
    {
        let cur: u32 = data[i];
        let prev: u32 = data[i - 1];
        data[i] = cur.wrapping_add(prev);
        assert(spec_prefix_sum(orig, i as int) == u32_specs::wrapping_add(orig[i as int], spec_prefix_sum(orig, i - 1)));
        i = i + 1;
    }
    assert(data@ =~= spec_delta_decoded(orig));
}

/// Reverting delta encoding gives back the values that were encoded.
pub proof fn lemma_delta_roundtrip(s: Seq<u32>)
    ensures
        spec_delta_decoded(spec_delta_encoded(s)) == s,
{
    let e = spec_delta_encoded(s);
    assert forall|i: int| 0 <= i < s.len() implies #[trigger] spec_prefix_sum(e, i) == s[i] by {
        lemma_prefix_of_deltas(s, i);
    }
    assert(spec_delta_decoded(e) =~= s);
}

proof fn lemma_prefix_of_deltas(s: Seq<u32>, i: int)
    requires
        0 <= i < s.len(),
    ensures
        spec_prefix_sum(spec_delta_encoded(s), i) == s[i],
    decreases i,
{
    if i > 0 {
        lemma_prefix_of_deltas(s, i - 1);
    }
}

} // verus!
