//! Reading numbers and byte strings at a position of a byte slice, as a
//! seekable stream would give them: what lies past the end is an error.

use crate::byte_order::{
    be_value, le_value, read_u16_be, read_u16_le, read_u24_be, read_u32_be, read_u32_le,
    read_u64_be, read_u64_le,
};
use crate::error::Error;
use vstd::prelude::*;
use vstd::slice::slice_subrange;

verus! {

/// Whether `data` has `n` bytes from position `pos` on.
pub open spec fn in_bounds(data: Seq<u8>, pos: int, n: int) -> bool {
    0 <= pos && 0 <= n && pos + n <= data.len()
}

/// The `n` bytes of `data` from position `pos` on.
pub open spec fn bytes_at(data: Seq<u8>, pos: int, n: int) -> Seq<u8> {
    data.subrange(pos, pos + n)
}

/// The little-endian number in the `width` bytes at `pos`, where `data` has
/// them.
pub open spec fn le_at(data: Seq<u8>, pos: int, width: int) -> Result<nat, Error> {
    if in_bounds(data, pos, width) {
        Ok(le_value(bytes_at(data, pos, width)))
    } else {
        Err(Error::UnexpectedEof)
    }
}

/// The big-endian number in the `width` bytes at `pos`, where `data` has
/// them.
pub open spec fn be_at(data: Seq<u8>, pos: int, width: int) -> Result<nat, Error> {
    if in_bounds(data, pos, width) {
        Ok(be_value(bytes_at(data, pos, width)))
    } else {
        Err(Error::UnexpectedEof)
    }
}

/// What a read of `n` bytes at `pos` gives.
pub open spec fn bytes_read(data: Seq<u8>, pos: int, n: int) -> Result<Seq<u8>, Error> {
    if in_bounds(data, pos, n) {
        Ok(bytes_at(data, pos, n))
    } else {
        Err(Error::UnexpectedEof)
    }
}

/// Whether two byte strings are the same.
pub fn bytes_equal(a: &[u8], b: &[u8]) -> (equal: bool)
    ensures
        equal == (a@ == b@),
{
    if a.len() != b.len() {
        return false;
    }
    let n: usize = a.len();
    let mut i: usize = 0;
    while i < n
        invariant
            i <= n,
            n == a@.len(),
            n == b@.len(),
            forall|j: int| 0 <= j < i ==> a@[j] == b@[j],
        decreases n - i,
    {
        if a[i] != b[i] {
            return false;
        }
        i += 1;
    }
    assert(a@ =~= b@);
    true
}

/// Whether `data` has `n` bytes from position `pos` on.
pub fn has_bytes(data: &[u8], pos: u64, n: u64) -> (has: bool)
    ensures
        has == in_bounds(data@, pos as int, n as int),
{
    let len: usize = data.len();
    if pos > len as u64 {
        return false;
    }
    len as u64 - pos >= n
}

/// The `n` bytes at `pos`.
pub fn read_bytes<'a>(data: &'a [u8], pos: u64, n: usize) -> (result: Result<&'a [u8], Error>)
    ensures
        match result {
            Ok(bytes) => bytes_read(data@, pos as int, n as int) == Ok::<Seq<u8>, Error>(bytes@),
            Err(e) => bytes_read(data@, pos as int, n as int) == Err::<Seq<u8>, Error>(e),
        },
{
    let len: usize = data.len();
    if pos > len as u64 {
        return Err(Error::UnexpectedEof);
    }
    let start: usize = pos as usize;
    if len - start < n {
        return Err(Error::UnexpectedEof);
    }
    Ok(slice_subrange(data, start, start + n))
}

/// The byte at `pos`.
pub fn read_u8(data: &[u8], pos: u64) -> (result: Result<u8, Error>)
    ensures
        match result {
            Ok(v) => le_at(data@, pos as int, 1) == Ok::<nat, Error>(v as nat) && v
                == data@[pos as int],
            Err(e) => le_at(data@, pos as int, 1) == Err::<nat, Error>(e),
        },
{
    match read_bytes(data, pos, 1) {
        Ok(bytes) => {
            reveal_with_fuel(le_value, 2);
            Ok(bytes[0])
        },
        Err(e) => Err(e),
    }
}

/// The little-endian 16-bit number at `pos`.
pub fn read_u16_le_at(data: &[u8], pos: u64) -> (result: Result<u16, Error>)
    ensures
        match result {
            Ok(v) => le_at(data@, pos as int, 2) == Ok::<nat, Error>(v as nat),
            Err(e) => le_at(data@, pos as int, 2) == Err::<nat, Error>(e),
        },
{
    match read_bytes(data, pos, 2) {
        Ok(bytes) => {
            assert(bytes@.take(2) =~= bytes@);
            Ok(read_u16_le(bytes))
        },
        Err(e) => Err(e),
    }
}

/// The little-endian 32-bit number at `pos`.
pub fn read_u32_le_at(data: &[u8], pos: u64) -> (result: Result<u32, Error>)
    ensures
        match result {
            Ok(v) => le_at(data@, pos as int, 4) == Ok::<nat, Error>(v as nat),
            Err(e) => le_at(data@, pos as int, 4) == Err::<nat, Error>(e),
        },
{
    match read_bytes(data, pos, 4) {
        Ok(bytes) => {
            assert(bytes@.take(4) =~= bytes@);
            Ok(read_u32_le(bytes))
        },
        Err(e) => Err(e),
    }
}

/// The little-endian 64-bit number at `pos`.
pub fn read_u64_le_at(data: &[u8], pos: u64) -> (result: Result<u64, Error>)
    ensures
        match result {
            Ok(v) => le_at(data@, pos as int, 8) == Ok::<nat, Error>(v as nat),
            Err(e) => le_at(data@, pos as int, 8) == Err::<nat, Error>(e),
        },
{
    match read_bytes(data, pos, 8) {
        Ok(bytes) => {
            assert(bytes@.take(8) =~= bytes@);
            Ok(read_u64_le(bytes))
        },
        Err(e) => Err(e),
    }
}

/// The big-endian 16-bit number at `pos`.
pub fn read_u16_be_at(data: &[u8], pos: u64) -> (result: Result<u16, Error>)
    ensures
        match result {
            Ok(v) => be_at(data@, pos as int, 2) == Ok::<nat, Error>(v as nat),
            Err(e) => be_at(data@, pos as int, 2) == Err::<nat, Error>(e),
        },
{
    match read_bytes(data, pos, 2) {
        Ok(bytes) => {
            assert(bytes@.take(2) =~= bytes@);
            Ok(read_u16_be(bytes))
        },
        Err(e) => Err(e),
    }
}

/// The big-endian 24-bit number at `pos`.
pub fn read_u24_be_at(data: &[u8], pos: u64) -> (result: Result<u32, Error>)
    ensures
        match result {
            Ok(v) => be_at(data@, pos as int, 3) == Ok::<nat, Error>(v as nat),
            Err(e) => be_at(data@, pos as int, 3) == Err::<nat, Error>(e),
        },
{
    match read_bytes(data, pos, 3) {
        Ok(bytes) => {
            assert(bytes@.take(3) =~= bytes@);
            Ok(read_u24_be(bytes))
        },
        Err(e) => Err(e),
    }
}

/// The big-endian 32-bit number at `pos`.
pub fn read_u32_be_at(data: &[u8], pos: u64) -> (result: Result<u32, Error>)
    ensures
        match result {
            Ok(v) => be_at(data@, pos as int, 4) == Ok::<nat, Error>(v as nat),
            Err(e) => be_at(data@, pos as int, 4) == Err::<nat, Error>(e),
        },
{
    match read_bytes(data, pos, 4) {
        Ok(bytes) => {
            assert(bytes@.take(4) =~= bytes@);
            Ok(read_u32_be(bytes))
        },
        Err(e) => Err(e),
    }
}

/// The big-endian 64-bit number at `pos`.
pub fn read_u64_be_at(data: &[u8], pos: u64) -> (result: Result<u64, Error>)
    ensures
        match result {
            Ok(v) => be_at(data@, pos as int, 8) == Ok::<nat, Error>(v as nat),
            Err(e) => be_at(data@, pos as int, 8) == Err::<nat, Error>(e),
        },
{
    match read_bytes(data, pos, 8) {
        Ok(bytes) => {
            assert(bytes@.take(8) =~= bytes@);
            Ok(read_u64_be(bytes))
        },
        Err(e) => Err(e),
    }
}

/// Copies `N` bytes into an array.
pub fn array_of<const N: usize>(bytes: &[u8]) -> (array: [u8; N])
    requires
        bytes@.len() == N,
    ensures
        array@ == bytes@,
{
    let mut array: [u8; N] = [0u8;N];
    let mut i: usize = 0;
    while i < N
        invariant
            i <= N,
            bytes@.len() == N,
            forall|k: int| 0 <= k < i ==> array@[k] == bytes@[k],
        decreases N - i,
    {
        array[i] = bytes[i];
        i += 1;
    }
    assert(array@ =~= bytes@);
    array
}

/// The `n` bytes at `off + k`. A position that 64 bits cannot hold lies
/// behind the end of any input.
pub fn read_bytes_rel<'a>(data: &'a [u8], off: u64, k: u64, n: usize) -> (result: Result<
    &'a [u8],
    Error,
>)
    ensures
        match result {
            Ok(bytes) => bytes_read(data@, off + k, n as int) == Ok::<Seq<u8>, Error>(bytes@),
            Err(e) => bytes_read(data@, off + k, n as int) == Err::<Seq<u8>, Error>(e),
        },
{
    let len: usize = data.len();
    match off.checked_add(k) {
        Some(pos) => read_bytes(data, pos, n),
        None => Err(Error::UnexpectedEof),
    }
}

/// The byte at `off + k`.
pub fn read_u8_rel(data: &[u8], off: u64, k: u64) -> (result: Result<u8, Error>)
    ensures
        match result {
            Ok(v) => in_bounds(data@, off + k, 1) && v == data@[off + k],
            Err(e) => !in_bounds(data@, off + k, 1) && e == Error::UnexpectedEof,
        },
{
    match read_bytes_rel(data, off, k, 1) {
        Ok(bytes) => Ok(bytes[0]),
        Err(e) => Err(e),
    }
}

/// The big-endian 16-bit number at `off + k`.
pub fn read_u16_be_rel(data: &[u8], off: u64, k: u64) -> (result: Result<u16, Error>)
    ensures
        match result {
            Ok(v) => be_at(data@, off + k, 2) == Ok::<nat, Error>(v as nat),
            Err(e) => be_at(data@, off + k, 2) == Err::<nat, Error>(e),
        },
{
    let len: usize = data.len();
    match off.checked_add(k) {
        Some(pos) => read_u16_be_at(data, pos),
        None => Err(Error::UnexpectedEof),
    }
}

/// The big-endian 24-bit number at `off + k`.
pub fn read_u24_be_rel(data: &[u8], off: u64, k: u64) -> (result: Result<u32, Error>)
    ensures
        match result {
            Ok(v) => be_at(data@, off + k, 3) == Ok::<nat, Error>(v as nat),
            Err(e) => be_at(data@, off + k, 3) == Err::<nat, Error>(e),
        },
{
    let len: usize = data.len();
    match off.checked_add(k) {
        Some(pos) => read_u24_be_at(data, pos),
        None => Err(Error::UnexpectedEof),
    }
}

/// The big-endian 32-bit number at `off + k`.
pub fn read_u32_be_rel(data: &[u8], off: u64, k: u64) -> (result: Result<u32, Error>)
    ensures
        match result {
            Ok(v) => be_at(data@, off + k, 4) == Ok::<nat, Error>(v as nat),
            Err(e) => be_at(data@, off + k, 4) == Err::<nat, Error>(e),
        },
{
    let len: usize = data.len();
    match off.checked_add(k) {
        Some(pos) => read_u32_be_at(data, pos),
        None => Err(Error::UnexpectedEof),
    }
}

/// The big-endian 64-bit number at `off + k`.
pub fn read_u64_be_rel(data: &[u8], off: u64, k: u64) -> (result: Result<u64, Error>)
    ensures
        match result {
            Ok(v) => be_at(data@, off + k, 8) == Ok::<nat, Error>(v as nat),
            Err(e) => be_at(data@, off + k, 8) == Err::<nat, Error>(e),
        },
{
    let len: usize = data.len();
    match off.checked_add(k) {
        Some(pos) => read_u64_be_at(data, pos),
        None => Err(Error::UnexpectedEof),
    }
}

/// `data` from position `pos` on: what a stream that stands at `pos` has
/// left to give.
pub open spec fn suffix(data: Seq<u8>, pos: int) -> Seq<u8> {
    if 0 <= pos <= data.len() {
        data.subrange(pos, data.len() as int)
    } else {
        Seq::empty()
    }
}

/// `data` from position `pos` on.
pub fn slice_from<'a>(data: &'a [u8], pos: u64) -> (rest: &'a [u8])
    ensures
        rest@ == suffix(data@, pos as int),
{
    let len: usize = data.len();
    if pos <= len as u64 {
        slice_subrange(data, pos as usize, len)
    } else {
        slice_subrange(data, len, len)
    }
}

/// `data` from position `off + k` on.
pub fn slice_from_rel<'a>(data: &'a [u8], off: u64, k: u64) -> (rest: &'a [u8])
    ensures
        rest@ == suffix(data@, off + k),
{
    let len: usize = data.len();
    match off.checked_add(k) {
        Some(pos) => slice_from(data, pos),
        None => {
            let rest = slice_subrange(data, len, len);
            assert(rest@ =~= Seq::<u8>::empty());
            rest
        },
    }
}

} // verus!
