//! Length-prefixed record framing of the write-ahead log.
//!
//! Every record is written as a 4-byte little-endian length followed by the
//! record's bytes. Replay reads records until fewer than four bytes remain.
use vstd::bytes::*;
use vstd::prelude::*;

verus! {

/// Number of bytes of the length prefix written before each record.
pub const FRAME_HEADER_LEN: usize = 4;

/// The bytes written to the log for one record.
pub open spec fn spec_frame(payload: Seq<u8>) -> Seq<u8> {
    spec_u32_to_le_bytes(payload.len() as u32) + payload
}

/// The bytes written to the log for a sequence of records, in order.
pub open spec fn spec_frames(payloads: Seq<Seq<u8>>) -> Seq<u8>
    decreases payloads.len(),
{
    if payloads.len() == 0 {
        Seq::empty()
    } else {
        spec_frame(payloads[0]) + spec_frames(payloads.drop_first())
    }
}

/// What replay reads back from a log image: the records in order, or `None`
/// when a length prefix announces more bytes than the log holds. Trailing
/// bytes shorter than a length prefix are ignored.
pub open spec fn spec_decode_frames(data: Seq<u8>) -> Option<Seq<Seq<u8>>>
    decreases data.len(),
{
    if data.len() < 4 {
        Some(Seq::empty())
    } else {
        let len = spec_u32_from_le_bytes(data.subrange(0, 4)) as int;
        if data.len() - 4 < len {
            None
        } else {
            match spec_decode_frames(data.subrange(4 + len, data.len() as int)) {
                Some(rest) => Some(seq![data.subrange(4, 4 + len)] + rest),
                None => None,
            }
        }
    }
}

/// Every record fits the 32-bit length prefix.
pub open spec fn all_fit_u32(payloads: Seq<Seq<u8>>) -> bool {
    forall|i: int| 0 <= i < payloads.len() ==> #[trigger] payloads[i].len() <= u32::MAX
}

/// Error raised when a log image ends inside a record.
#[derive(Debug, Clone, Copy, PartialEq, Eq)]
pub enum FrameError {
    /// The record starting at `offset` announces `declared_len` bytes but the
    /// log ends before them.
    TruncatedRecord { offset: usize, declared_len: u32 },
}

/// Number of bytes one record of `payload_len` bytes takes in the log (the
/// value the log's `append` reports).
pub fn frame_size(payload_len: usize) -> (size: u64)
    requires
        payload_len + 4 <= u32::MAX,
    ensures
        size == payload_len + 4,
{
    (payload_len as u64) + 4
}

/// Encodes one record: its 32-bit little-endian length, then its bytes.
pub fn encode_frame(payload: &[u8]) -> (out: Vec<u8>)
    requires
        payload@.len() <= u32::MAX,
    ensures
        out@ == spec_frame(payload@),
{
    let len: u32 = payload.len() as u32;
    let mut out = u32_to_le_bytes(len);
    let ghost prefix = out@;
    let mut i: usize = 0;
    while i < payload.len()
        invariant
            i <= payload@.len(),
            prefix == spec_u32_to_le_bytes(payload@.len() as u32),
            out@ == prefix + payload@.subrange(0, i as int),
        decreases payload@.len() - i,
    {
        out.push(payload[i]);
        i = i + 1;
        assert(payload@.subrange(0, i as int) =~= payload@.subrange(0, i - 1).push(payload@[i - 1]));
    }
    assert(payload@.subrange(0, payload@.len() as int) =~= payload@);
    out
}

proof fn lemma_decode_step(data: Seq<u8>, pos: int)
    requires
        0 <= pos,
        pos + 4 <= data.len(),
    ensures
        ({
            let sub = data.subrange(pos, data.len() as int);
            let len = spec_u32_from_le_bytes(data.subrange(pos, pos + 4)) as int;
            &&& sub.subrange(0, 4) == data.subrange(pos, pos + 4)
            &&& (sub.len() - 4 >= len ==> sub.subrange(4, 4 + len) == data.subrange(pos + 4, pos + 4 + len))
            &&& (sub.len() - 4 >= len ==> sub.subrange(4 + len, sub.len() as int) == data.subrange(pos + 4 + len, data.len() as int))
        }),
{
    let sub = data.subrange(pos, data.len() as int);
    let len = spec_u32_from_le_bytes(data.subrange(pos, pos + 4)) as int;
    assert(sub.subrange(0, 4) =~= data.subrange(pos, pos + 4));
    if sub.len() - 4 >= len {
        assert(sub.subrange(4, 4 + len) =~= data.subrange(pos + 4, pos + 4 + len));
        assert(sub.subrange(4 + len, sub.len() as int) =~= data.subrange(pos + 4 + len, data.len() as int));
    }
}

fn copy_range(data: &[u8], start: usize, end: usize) -> (out: Vec<u8>)
    requires
        start <= end <= data@.len(),
    ensures
        out@ == data@.subrange(start as int, end as int),
{
    let mut out: Vec<u8> = Vec::new();
    let mut i: usize = start;
    while i < end
        invariant
            start <= i <= end <= data@.len(),
            out@ == data@.subrange(start as int, i as int),
        decreases end - i,
    {
        out.push(data[i]);
        i = i + 1;
        assert(data@.subrange(start as int, i as int) =~= data@.subrange(start as int, i - 1).push(data@[i - 1]));
    }
    out
}

/// Splits a log image into its records, as replay reads them.
pub fn decode_frames(data: &[u8]) -> (res: Result<Vec<Vec<u8>>, FrameError>)
    ensures
        match res {
            Ok(records) => spec_decode_frames(data@) == Some(records.deep_view()),
            Err(FrameError::TruncatedRecord { offset, declared_len }) => {
                &&& spec_decode_frames(data@) is None
                &&& offset + 4 <= data@.len()
                &&& declared_len == spec_u32_from_le_bytes(data@.subrange(offset as int, offset + 4))
                &&& data@.len() - offset - 4 < declared_len
            },
        },
{
    let mut out: Vec<Vec<u8>> = Vec::new();
    let mut pos: usize = 0;
    let n: usize = data.len();
    assert(data@.subrange(0, n as int) =~= data@);
    while n - pos >= 4
        invariant
            n == data@.len(),
            pos <= n,
            match spec_decode_frames(data@.subrange(pos as int, n as int)) {
                Some(rest) => spec_decode_frames(data@) == Some(out.deep_view() + rest),
                None => spec_decode_frames(data@) is None,
            },
        decreases n - pos,
    {
        proof {
            lemma_decode_step(data@, pos as int);
        }
        let header = &data[pos..pos + 4];
        let len: u32 = u32_from_le_bytes(header);
        if ((n - pos - 4) as u64) < (len as u64) {
            return Err(FrameError::TruncatedRecord { offset: pos, declared_len: len });
        }
        let len_us: usize = len as usize;
        let payload = copy_range(data, pos + 4, pos + 4 + len_us);
        let ghost old_out = out.deep_view();
        let ghost old_vec = out@;
        out.push(payload);
        proof {
            assert(payload.deep_view() =~= payload@);
            assert(out@ == old_vec.push(payload));
            assert(out.deep_view() =~= old_out.push(payload@));
            let next = data@.subrange(pos + 4 + len_us, n as int);
            match spec_decode_frames(next) {
                Some(rest) => {
                    assert(old_out + (seq![payload@] + rest) =~= old_out.push(payload@) + rest);
                },
                None => {},
            }
        }
        pos = pos + 4 + len_us;
    }
    proof {
        let rest = data@.subrange(pos as int, n as int);
        assert(spec_decode_frames(rest) == Some(Seq::<Seq<u8>>::empty()));
        assert(out.deep_view() + Seq::<Seq<u8>>::empty() =~= out.deep_view());
    }
    Ok(out)
}

/// Replaying a log written record by record gives back exactly the records
/// that were appended, in order.
pub proof fn lemma_replay_returns_appended(payloads: Seq<Seq<u8>>)
    requires
        all_fit_u32(payloads),
    ensures
        spec_decode_frames(spec_frames(payloads)) == Some(payloads),
    decreases payloads.len(),
{
    if payloads.len() == 0 {
        assert(spec_frames(payloads).len() == 0);
        assert(payloads =~= Seq::<Seq<u8>>::empty());
    } else {
        let p = payloads[0];
        let rest = payloads.drop_first();
        assert(all_fit_u32(rest)) by {
            assert forall|i: int| 0 <= i < rest.len() implies #[trigger] rest[i].len() <= u32::MAX by {
                assert(rest[i] == payloads[i + 1]);
            }
        }
        lemma_replay_returns_appended(rest);
        lemma_auto_spec_u32_to_from_le_bytes();
        let data = spec_frames(payloads);
        let hdr = spec_u32_to_le_bytes(p.len() as u32);
        assert(hdr.len() == 4);
        assert(data == hdr + p + spec_frames(rest)) by {
            assert(hdr + p + spec_frames(rest) =~= (hdr + p) + spec_frames(rest));
        }
        assert(data.subrange(0, 4) =~= hdr);
        assert(spec_u32_from_le_bytes(hdr) == p.len() as u32);
        assert((p.len() as u32) as int == p.len());
        let len = p.len() as int;
        assert(data.subrange(4, 4 + len) =~= p);
        assert(data.subrange(4 + len, data.len() as int) =~= spec_frames(rest));
        assert(seq![p] + rest =~= payloads);
    }
}

} // verus!
