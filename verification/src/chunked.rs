//! Offset-addressed partial reads and writes.
//!
//! A characteristic value may be larger than one transport packet, so a
//! client reads and writes it in pieces, each addressed by an offset. A
//! fixed value keeps its length under every write. A variable value is
//! bounded by a capacity, is started afresh by a write at offset zero and
//! grows as later pieces are appended.

use vstd::prelude::*;
use vstd::slice::slice_subrange;
use vstd::slice::slice_to_vec;
use crate::error::ReqError;

verus! {

/// The piece of `buf` that a read at `offset` of at most `max_len` bytes
/// returns.
pub open spec fn chunk(buf: Seq<u8>, offset: int, max_len: int) -> Seq<u8>
    recommends
        0 <= offset <= buf.len(),
        0 <= max_len,
{
    let rest = buf.len() - offset;
    buf.subrange(offset, offset + if max_len < rest { max_len } else { rest })
}

/// `buf` with `bytes` laid over it from `offset` on. Where the bytes reach
/// past the end of `buf` the result is longer than `buf`.
pub open spec fn spliced(buf: Seq<u8>, offset: int, bytes: Seq<u8>) -> Seq<u8>
    recommends
        0 <= offset <= buf.len(),
{
    let end = offset + bytes.len();
    buf.subrange(0, offset) + bytes + if end < buf.len() {
        buf.subrange(end, buf.len() as int)
    } else {
        Seq::empty()
    }
}

/// Whether a write of `len` bytes at `offset` stays within `capacity`.
pub open spec fn fits(capacity: int, offset: int, len: int) -> bool {
    offset + len <= capacity
}

/// What a write at `offset` leaves in a variable value that held `buf`,
/// provided the write is accepted.
pub open spec fn rewritten(buf: Seq<u8>, offset: int, bytes: Seq<u8>) -> Seq<u8> {
    if offset == 0 {
        bytes
    } else {
        spliced(buf, offset, bytes)
    }
}

/// Reads at most `max_len` bytes of `buf`, starting at `offset`.
pub fn read(buf: &Vec<u8>, offset: usize, max_len: usize) -> (res: Result<Vec<u8>, ReqError>)
    ensures
        match res {
            Ok(out) => offset <= buf@.len() && out@ == chunk(buf@, offset as int, max_len as int),
            Err(e) => offset > buf@.len() && e == ReqError::InvalidOffset,
        },
{
    if offset > buf.len() {
        return Err(ReqError::InvalidOffset);
    }
    let mut size: usize = buf.len() - offset;
    if size > max_len {
        size = max_len;
    }
    Ok(slice_to_vec(slice_subrange(buf.as_slice(), offset, offset + size)))
}

/// Writes `bytes` into the fixed value `buf` at `offset`. The length of
/// `buf` is its capacity.
pub fn write_fixed(buf: &mut Vec<u8>, offset: usize, bytes: &[u8]) -> (res: Result<(), ReqError>)
    ensures
        match res {
            Ok(_) => fits(old(buf)@.len() as int, offset as int, bytes@.len() as int)
                && final(buf)@ == spliced(old(buf)@, offset as int, bytes@),
            Err(e) => !fits(old(buf)@.len() as int, offset as int, bytes@.len() as int)
                && e == ReqError::InvalidLength && final(buf)@ == old(buf)@,
        },
        final(buf)@.len() == old(buf)@.len(),
{
    let len: usize = bytes.len();
    if offset > buf.len() || len > buf.len() - offset {
        return Err(ReqError::InvalidLength);
    }
    let ghost before = buf@;
    let mut i: usize = 0;
    while i < len
        invariant
            i <= len,
            len == bytes@.len(),
            offset + len <= buf.len(),
            buf@.len() == before.len(),
            forall|k: int| 0 <= k < buf@.len() ==> buf@[k] == if offset <= k < offset + i {
                bytes@[k - offset]
            } else {
                before[k]
            },
        decreases len - i,
    {
        buf.set(offset + i, bytes[i]);
        i = i + 1;
    }
    assert(buf@ =~= spliced(before, offset as int, bytes@));
    Ok(())
}

/// Writes `bytes` into the variable value `buf` at `offset`. A write at
/// offset zero drops what `buf` held. A later write lays its bytes over the
/// value from `offset` on and lengthens it where they reach past its end; it
/// may start at the end of the value but not beyond it.
pub fn write_variable(buf: &mut Vec<u8>, capacity: usize, offset: usize, bytes: &[u8]) -> (res:
    Result<(), ReqError>)
    ensures
        match res {
            Ok(_) => fits(capacity as int, offset as int, bytes@.len() as int) && offset <= old(
                buf,
            )@.len() && final(buf)@ == rewritten(old(buf)@, offset as int, bytes@),
            Err(e) => final(buf)@ == old(buf)@ && e == if !fits(
                capacity as int,
                offset as int,
                bytes@.len() as int,
            ) {
                ReqError::InvalidLength
            } else {
                ReqError::InvalidOffset
            } && (fits(capacity as int, offset as int, bytes@.len() as int) ==> offset > old(
                buf,
            )@.len()),
        },
        old(buf)@.len() <= capacity ==> final(buf)@.len() <= capacity,
{
    let len: usize = bytes.len();
    if offset > capacity || len > capacity - offset {
        return Err(ReqError::InvalidLength);
    }
    if offset > buf.len() {
        return Err(ReqError::InvalidOffset);
    }
    let ghost before = buf@;
    if offset == 0 {
        buf.clear();
    }
    let mut tail: Vec<u8> = Vec::new();
    if offset + len < buf.len() {
        tail = buf.split_off(offset + len);
    }
    buf.truncate(offset);
    let ghost head = buf@;
    buf.extend_from_slice(bytes);
    assert(buf@ =~= head + bytes@);
    buf.append(&mut tail);
    assert(buf@ =~= rewritten(before, offset as int, bytes@));
    Ok(())
}

/// A write to a fixed value that fits shows up in a full read exactly where
/// it was addressed and leaves every other byte as it was.
pub proof fn lemma_write_then_read(buf: Seq<u8>, offset: int, bytes: Seq<u8>)
    requires
        0 <= offset,
    ensures
        fits(buf.len() as int, offset, bytes.len() as int) ==> {
            let all = chunk(spliced(buf, offset, bytes), 0, buf.len() as int);
            &&& all.len() == buf.len()
            &&& all.subrange(offset, offset + bytes.len()) == bytes
            &&& forall|k: int|
                0 <= k < buf.len() && !(offset <= k < offset + bytes.len()) ==> all[k] == buf[k]
        },
{
    if fits(buf.len() as int, offset, bytes.len() as int) {
        let all = chunk(spliced(buf, offset, bytes), 0, buf.len() as int);
        assert(all =~= spliced(buf, offset, bytes));
        assert(all.subrange(offset, offset + bytes.len()) =~= bytes);
    }
}

/// A write to a variable value at offset zero leaves the bytes written
/// and nothing else. A write that continues the value shows up in a full
/// read where it was addressed, leaves the bytes before it as they were, and
/// leaves the bytes behind it as they were where it ends within the value;
/// where it reaches the end or beyond, the value ends with it.
pub proof fn lemma_rewrite_then_read(buf: Seq<u8>, capacity: int, offset: int, bytes: Seq<u8>)
    requires
        0 <= offset <= buf.len() <= capacity,
        fits(capacity, offset, bytes.len() as int),
    ensures
        ({
            let all = chunk(rewritten(buf, offset, bytes), 0, capacity);
            &&& all == rewritten(buf, offset, bytes)
            &&& offset == 0 ==> all == bytes
            &&& all.len() == if offset == 0 || offset + bytes.len() > buf.len() {
                offset + bytes.len()
            } else {
                buf.len() as int
            }
            &&& all.subrange(offset, offset + bytes.len()) == bytes
            &&& offset > 0 ==> forall|k: int|
                0 <= k < buf.len() && !(offset <= k < offset + bytes.len()) ==> all[k] == buf[k]
        }),
{
    let all = chunk(rewritten(buf, offset, bytes), 0, capacity);
    assert(all =~= rewritten(buf, offset, bytes));
    assert(all.subrange(offset, offset + bytes.len()) =~= bytes);
}

} // verus!
