//! Guest-memory marshalling: reading NUL-terminated strings and sized byte
//! windows out of a view of the guest's linear memory, with bounds checks.
//!
//! The host hands these helpers a borrowed byte view of guest memory; the
//! view never outlives one host call, so decoded strings are copied out.

use vstd::prelude::*;

verus! {

/// A guest-memory access failure: the requested span is out of range.
#[derive(Clone, Copy, Debug, PartialEq, Eq, Structural)]
pub enum GuestMemError {
    OutOfBounds,
}

/// What UTF-8 decoding returns for a byte sequence: the character sequence
/// for valid UTF-8, nothing otherwise.
pub uninterp spec fn utf8_decode(bytes: Seq<u8>) -> Option<Seq<char>>;

/// Relies on `String::from_utf8`: decoding depends on the bytes alone, and
/// ASCII bytes decode to themselves.
#[verifier::external_body]
fn decode_utf8(bytes: Vec<u8>) -> (r: Option<String>)
    ensures
        match r {
            Some(s) => utf8_decode(bytes@) == Some(s@),
            None => utf8_decode(bytes@) is None,
        },
        (forall|i: int| 0 <= i < bytes@.len() ==> bytes@[i] < 0x80) ==> (r is Some && r->0@.len()
            == bytes@.len() && (forall|i: int|
            0 <= i < bytes@.len() ==> (r->0@[i] as u32) == (bytes@[i] as u32))),
{
    String::from_utf8(bytes).ok()
}

/// Byte `n` is the first NUL at or after `offset`.
pub open spec fn nul_at(mem: Seq<u8>, offset: int, n: int) -> bool {
    &&& offset <= n < mem.len()
    &&& mem[n] == 0
    &&& forall|j: int| offset <= j < n ==> mem[j] != 0
}

/// Reads the NUL-terminated string starting at `offset`: the bytes up to
/// (not including) the first NUL, decoded as UTF-8. Returns nothing when
/// no NUL exists in range or the bytes are not valid UTF-8.
pub fn read_c_string(memory: &[u8], offset: usize) -> (r: Option<String>)
    ensures
        match r {
            Some(s) => exists|n: int|
                #[trigger] nul_at(memory@, offset as int, n) && utf8_decode(
                    memory@.subrange(offset as int, n),
                ) == Some(s@),
            None => forall|n: int|
                #[trigger] nul_at(memory@, offset as int, n) ==> utf8_decode(
                    memory@.subrange(offset as int, n),
                ) is None,
        },
{
    let len = memory.len();
    if offset >= len {
        return None;
    }
    let mut i: usize = offset;
    while i < len && memory[i] != 0
        invariant
            offset <= i <= len,
            len == memory@.len(),
            forall|j: int| offset <= j < i ==> memory@[j] != 0,
        decreases len - i,
    {
        i += 1;
    }
    if i >= len {
        return None;
    }
    let ghost n = i as int;
    proof {
        assert(nul_at(memory@, offset as int, n));
    }
    let mut bytes: Vec<u8> = Vec::new();
    let mut j: usize = offset;
    while j < i
        invariant
            offset <= j <= i,
            i < memory@.len(),
            bytes@.len() == j - offset,
            forall|k: int| 0 <= k < bytes@.len() ==> bytes@[k] == memory@[offset + k],
        decreases i - j,
    {
        bytes.push(memory[j]);
        j += 1;
    }
    proof {
        assert(bytes@ =~= memory@.subrange(offset as int, n));
    }
    let decoded = decode_utf8(bytes);
    proof {
        if decoded is None {
            assert forall|m: int| #[trigger] nul_at(memory@, offset as int, m) implies utf8_decode(
                memory@.subrange(offset as int, m),
            ) is None by {
                assert(m == n);
            }
        }
    }
    decoded
}

/// Copies the `len` bytes starting at `offset` out of the memory view;
/// spans past the end fail with a memory-access error.
pub fn read_bytes(memory: &[u8], offset: usize, len: usize) -> (r: Result<Vec<u8>, GuestMemError>)
    ensures
        match r {
            Ok(bytes) => offset + len <= memory@.len() && bytes@ == memory@.subrange(
                offset as int,
                offset as int + len as int,
            ),
            Err(e) => offset + len > memory@.len() && e == GuestMemError::OutOfBounds,
        },
{
    let total = memory.len();
    if offset > total || len > total - offset {
        return Err(GuestMemError::OutOfBounds);
    }
    let mut bytes: Vec<u8> = Vec::new();
    let mut j: usize = 0;
    while j < len
        invariant
            j <= len,
            total == memory@.len(),
            offset + len <= total,
            bytes@.len() == j,
            forall|k: int| 0 <= k < j ==> bytes@[k] == memory@[offset + k],
        decreases len - j,
    {
        bytes.push(memory[offset + j]);
        j += 1;
    }
    proof {
        assert(bytes@ =~= memory@.subrange(offset as int, offset as int + len as int));
    }
    Ok(bytes)
}

/// The compute half of the SDK serial-write entry point: on channel 1 the
/// bytes are decoded as UTF-8 for the host console (an invalid sequence
/// yields nothing and is the caller's error to raise); other channels
/// produce no console output.
pub fn decode_serial_output(channel: i32, data: Vec<u8>) -> (r: Option<String>)
    ensures
        channel == 1 ==> match r {
            Some(s) => utf8_decode(data@) == Some(s@),
            None => utf8_decode(data@) is None,
        },
        channel != 1 ==> r is None,
{
    if channel == 1 {
        decode_utf8(data)
    } else {
        None
    }
}

} // verus!
