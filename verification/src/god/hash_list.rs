//! A block of 4096 bytes that holds SHA-1 digests back to back.

use crate::byte_order::splice;
use crate::error::Error;
use crate::sha::{sha1, sha1_digest};
use vstd::prelude::*;

verus! {

/// Bytes in a hash list.
pub const HASH_LIST_SIZE: usize = 4096;

/// Bytes in one digest.
pub const HASH_SIZE: usize = 20;

/// Whole digests that fit in a hash list.
pub const HASHES_PER_LIST: usize = 204;

/// Whether entry `p` of `buffer` is twenty zero bytes.
pub open spec fn is_zero_entry(buffer: Seq<u8>, p: int) -> bool {
    forall|j: int| 0 <= j < 20 ==> #[trigger] buffer[20 * p + j] == 0
}

/// The index of the first all-zero entry of `buffer` at or after `from`, or
/// 204 where every entry from there on holds a non-zero byte.
pub open spec fn first_zero_entry(buffer: Seq<u8>, from: int) -> int
    decreases 204 - from,
{
    if from >= 204 {
        204
    } else if is_zero_entry(buffer, from) {
        from
    } else {
        first_zero_entry(buffer, from + 1)
    }
}

/// The number of bytes in use that a stored hash list is taken to have: it
/// ends before its first all-zero entry, and is full where it has none.
pub open spec fn stored_len(buffer: Seq<u8>) -> nat {
    let p = first_zero_entry(buffer, 0);
    if p < 204 {
        (20 * p) as nat
    } else {
        4096
    }
}

/// What a hash list is: its 4096 bytes and how many of them are in use.
pub ghost struct HashListView {
    pub bytes: Seq<u8>,
    pub len: nat,
}

impl HashListView {
    /// The digest of the whole list, padding included.
    pub open spec fn digest(self) -> [u8; 20] {
        sha1(self.bytes)
    }

    /// The list with `hash` stored behind the bytes in use.
    pub open spec fn with_hash(self, hash: Seq<u8>) -> HashListView {
        HashListView { bytes: splice(self.bytes, self.len as int, hash), len: self.len + 20 }
    }
    /// The list with `hash` stored as entry `index`, whatever stood there.
    /// The bytes in use reach to the end of that entry at least.
    pub open spec fn with_entry(self, index: int, hash: Seq<u8>) -> HashListView {
        HashListView {
            bytes: splice(self.bytes, 20 * index, hash),
            len: if self.len > 20 * index + 20 {
                self.len
            } else {
                (20 * index + 20) as nat
            },
        }
    }
}

/// Digests back to back in 4096 bytes, zero where none was stored.
pub struct HashList {
    buffer: [u8; 4096],
    len: usize,
}

impl View for HashList {
    type V = HashListView;

    closed spec fn view(&self) -> HashListView {
        HashListView { bytes: self.buffer@, len: self.len as nat }
    }
}

impl HashList {
    /// What `read` makes of a byte string.
    pub open spec fn spec_read(reader: Seq<u8>) -> Result<HashListView, Error> {
        if reader.len() < 4096 {
            Err(Error::UnexpectedEof)
        } else {
            Ok(HashListView { bytes: reader.take(4096), len: stored_len(reader.take(4096)) })
        }
    }

    /// A list always has 4096 bytes.
    pub proof fn lemma_bytes_len(&self)
        ensures
            self@.bytes.len() == 4096,
    {
    }

    /// A list that is written out and read back has the bytes that it had,
    /// and so the digest that it had.
    pub proof fn lemma_write_read_round_trip(&self)
        ensures
            Self::spec_read(Seq::<u8>::empty() + self@.bytes) is Ok,
            Self::spec_read(Seq::<u8>::empty() + self@.bytes)->Ok_0.bytes == self@.bytes,
            Self::spec_read(Seq::<u8>::empty() + self@.bytes)->Ok_0.digest() == self@.digest(),
    {
        let written = Seq::<u8>::empty() + self@.bytes;
        assert(written =~= self@.bytes);
        assert(written.take(4096) =~= self@.bytes);
    }

    /// The 4096 bytes of the list.
    pub fn bytes(&self) -> (buffer: &[u8; 4096])
        ensures
            buffer@ == self@.bytes,
    {
        &self.buffer
    }

    /// The number of bytes in use.
    pub fn len(&self) -> (len: usize)
        ensures
            len == self@.len,
    {
        self.len
    }

    /// The empty list: 4096 zero bytes, none in use.
    pub fn new() -> (list: HashList)
        ensures
            list@.bytes == Seq::new(4096, |i: int| 0u8),
            list@.len == 0,
    {
        let list = HashList { buffer: [0u8;4096], len: 0 };
        assert(list.buffer@ =~= Seq::new(4096, |i: int| 0u8));
        list
    }

    /// Takes the first 4096 bytes of `reader` as a stored list. Fewer bytes
    /// are an error.
    pub fn read(reader: &[u8]) -> (result: Result<HashList, Error>)
        ensures
            match result {
                Ok(list) => Self::spec_read(reader@) == Ok::<HashListView, Error>(list@),
                Err(e) => Self::spec_read(reader@) == Err::<HashListView, Error>(e),
            },
    {
        if reader.len() < 4096 {
            return Err(Error::UnexpectedEof);
        }
        let mut buffer: [u8; 4096] = [0u8;4096];
        let mut i: usize = 0;
        while i < 4096
            invariant
                i <= 4096,
                reader@.len() >= 4096,
                forall|k: int| 0 <= k < i ==> buffer@[k] == reader@[k],
            decreases 4096 - i,
        {
            buffer[i] = reader[i];
            i += 1;
        }
        assert(buffer@ =~= reader@.take(4096));
        let mut p: usize = 0;
        let mut len: usize = 4096;
        while p < 204
            invariant
                p <= 204,
                len == 4096,
                reader@.len() >= 4096,
                buffer@ == reader@.take(4096),
                first_zero_entry(buffer@, 0) == first_zero_entry(buffer@, p as int),
            decreases 204 - p,
        {
            let mut j: usize = 0;
            while j < 20 && buffer[20 * p + j] == 0
                invariant
                    p < 204,
                    j <= 20,
                    forall|k: int| 0 <= k < j ==> #[trigger] buffer@[20 * p + k] == 0,
                decreases 20 - j,
            {
                j += 1;
            }
            if j == 20 {
                assert(is_zero_entry(buffer@, p as int));
                return Ok(HashList { buffer, len: 20 * p });
            }
            assert(!is_zero_entry(buffer@, p as int)) by {
                assert(buffer@[20 * p + j] != 0);
            }
            p += 1;
        }
        Ok(HashList { buffer, len })
    }

    /// Stores `hash` behind the bytes in use.
    pub fn add_hash(&mut self, hash: &[u8; 20])
        requires
            old(self)@.len + 20 <= 4096,
        ensures
            final(self)@ == old(self)@.with_hash(hash@),
    {
        let start: usize = self.len;
        let mut i: usize = 0;
        while i < 20
            invariant
                i <= 20,
                start + 20 <= 4096,
                self.len == start,
                start == old(self).len,
                forall|k: int|
                    0 <= k < 4096 ==> self.buffer@[k] == if start <= k < start + i {
                        hash@[k - start]
                    } else {
                        old(self).buffer@[k]
                    },
            decreases 20 - i,
        {
            self.buffer[start + i] = hash[i];
            i += 1;
        }
        self.len = start + 20;
        assert(self.buffer@ =~= splice(old(self).buffer@, start as int, hash@));
    }

    /// Stores `hash` as entry `index` of the list, over what stands there.
    pub fn set_hash(&mut self, index: usize, hash: &[u8; 20])
        requires
            index < 204,
        ensures
            final(self)@ == old(self)@.with_entry(index as int, hash@),
    {
        let start: usize = 20 * index;
        let mut i: usize = 0;
        while i < 20
            invariant
                i <= 20,
                start + 20 <= 4096,
                self.len == old(self).len,
                forall|k: int|
                    0 <= k < 4096 ==> self.buffer@[k] == if start <= k < start + i {
                        hash@[k - start]
                    } else {
                        old(self).buffer@[k]
                    },
            decreases 20 - i,
        {
            self.buffer[start + i] = hash[i];
            i += 1;
        }
        if self.len < start + 20 {
            self.len = start + 20;
        }
        assert(self.buffer@ =~= splice(old(self).buffer@, start as int, hash@));
    }

    /// Stores the SHA-1 digest of `block` behind the bytes in use.
    pub fn add_block_hash(&mut self, block: &[u8])
        requires
            old(self)@.len + 20 <= 4096,
        ensures
            final(self)@ == old(self)@.with_hash(sha1(block@)@),
    {
        let hash: [u8; 20] = sha1_digest(block);
        self.add_hash(&hash)
    }

    /// The SHA-1 digest of all 4096 bytes, padding included.
    pub fn digest(&self) -> (digest: [u8; 20])
        ensures
            digest == self@.digest(),
    {
        sha1_digest(self.buffer.as_slice())
    }

    /// Appends the 4096 bytes of the list to `writer`.
    pub fn write(&self, writer: &mut Vec<u8>)
        ensures
            final(writer)@ == old(writer)@ + self@.bytes,
    {
        writer.extend_from_slice(self.buffer.as_slice());
        assert(writer@ =~= old(writer)@ + self.buffer@);
    }
}

} // verus!
