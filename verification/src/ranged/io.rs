//! Ranges of bytes, each marked with the type of what it holds.

use crate::error::Error;
use core::marker::PhantomData;
use core::ops::Range;
use vstd::prelude::*;

verus! {

/// A type that can be read from a range of bytes of an input.
pub trait ReadFromRange: Sized {
    /// Whether `result` is what reading the range of `len` bytes at `off`
    /// of `r` gives.
    spec fn parsed(r: Seq<u8>, off: u64, len: u64, result: Result<Self, Error>) -> bool;

    /// Reads a value from the range of `len` bytes at `off` of `r`.
    fn read_from_range(r: &[u8], off: u64, len: u64) -> (result: Result<Self, Error>)
        ensures
            Self::parsed(r@, off, len, result),
    ;
}

/// The range of bytes that holds a `T`: where it starts and how long it is.
/// A range ends within what 64 bits can address.
pub struct RangeRef<T> {
    _value: PhantomData<T>,
    offset: u64,
    length: u64,
}

impl<T> Clone for RangeRef<T> {
    fn clone(&self) -> (copy: Self)
        ensures
            copy == *self,
    {
        proof {
            use_type_invariant(self);
        }
        Self { _value: PhantomData, offset: self.offset, length: self.length }
    }
}

impl<T> Copy for RangeRef<T> {

}

impl<T> RangeRef<T> {
    #[verifier::type_invariant]
    spec fn well_formed(self) -> bool {
        self.offset + self.length <= u64::MAX
    }

    /// Where the range starts.
    pub closed spec fn spec_offset(self) -> u64 {
        self.offset
    }

    /// How many bytes the range has.
    pub closed spec fn spec_length(self) -> u64 {
        self.length
    }

    /// Where the range starts.
    pub fn offset(&self) -> (offset: u64)
        ensures
            offset == self.spec_offset(),
            self.spec_offset() + self.spec_length() <= u64::MAX,
    {
        proof {
            use_type_invariant(self);
        }
        self.offset
    }

    /// How many bytes the range has.
    pub fn length(&self) -> (length: u64)
        ensures
            length == self.spec_length(),
            self.spec_offset() + self.spec_length() <= u64::MAX,
    {
        proof {
            use_type_invariant(self);
        }
        self.length
    }

    /// The range of all of `r`.
    pub fn whole(r: &[u8]) -> (range: RangeRef<T>)
        ensures
            range.spec_offset() == 0,
            range.spec_length() == r@.len(),
    {
        let length: usize = r.len();
        Self { _value: PhantomData, offset: 0, length: length as u64 }
    }

    /// The part of the range from `range.start` up to `range.end`, both
    /// counted from the start of this range, as the range of a `T2`.
    pub fn slice<T2>(&self, range: Range<u64>) -> (part: RangeRef<T2>)
        requires
            range.start <= range.end,
            self.spec_offset() + range.end <= u64::MAX,
        ensures
            part.spec_offset() == self.spec_offset() + range.start,
            part.spec_length() == range.end - range.start,
    {
        let offset: u64 = self.offset + range.start;
        let end: u64 = self.offset + range.end;
        RangeRef { _value: PhantomData, offset, length: end - offset }
    }

    /// The part of the range from `start` on, counted from the start of
    /// this range, as the range of a `T2`.
    pub fn slice_from<T2>(&self, start: u64) -> (part: RangeRef<T2>)
        requires
            start <= self.spec_length(),
        ensures
            part.spec_offset() == self.spec_offset() + start,
            part.spec_length() == self.spec_length() - start,
    {
        proof {
            use_type_invariant(self);
        }
        RangeRef { _value: PhantomData, offset: self.offset + start, length: self.length - start }
    }
}

impl<T: ReadFromRange> RangeRef<T> {
    /// Reads a value from the range of all of `r`, and gives that range
    /// with the value.
    pub fn read_whole(r: &[u8]) -> (result: Result<(RangeRef<T>, T), Error>)
        ensures
            match result {
                Ok((range, value)) => range.spec_offset() == 0 && range.spec_length() == r@.len()
                    && T::parsed(r@, 0, r@.len() as u64, Ok(value)),
                Err(e) => T::parsed(r@, 0, r@.len() as u64, Err(e)),
            },
    {
        let range: RangeRef<T> = RangeRef::whole(r);
        match T::read_from_range(r, 0, range.length) {
            Ok(value) => Ok((range, value)),
            Err(e) => Err(e),
        }
    }

    /// Reads from `r` the value that the range holds.
    pub fn read(&self, r: &[u8]) -> (result: Result<T, Error>)
        ensures
            T::parsed(r@, self.spec_offset(), self.spec_length(), result),
    {
        T::read_from_range(r, self.offset, self.length)
    }
}

} // verus!
