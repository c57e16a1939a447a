//! A positional cursor over an immutable byte buffer, with big-endian decoding.

use crate::errors::{DviousError, DviousResult, Failure};
use crate::util::big_endian::{
    be_signed, be_unsigned, lemma_be_signed_range, lemma_be_signed_sign,
    lemma_be_unsigned_bound, lemma_be_unsigned_fixed, lemma_radix_powers,
};
use crate::util::num::{i24, u24};
use vstd::prelude::*;
use vstd::slice::slice_subrange;

verus! {

/// A value that is laid out in a fixed number of bytes, most significant first.
pub trait Readable: Sized {
    /// How many bytes one value occupies.
    spec fn width() -> nat;

    /// The value that exactly `width()` bytes spell out.
    spec fn decode(bytes: Seq<u8>) -> Self;

    /// Decodes the first `width()` bytes of `b`.
    fn from_u8_be(b: &[u8]) -> (value: Self)
        requires
            b@.len() >= Self::width(),
        ensures
            value == Self::decode(b@.subrange(0, Self::width() as int)),
    ;

    /// How many bytes one value occupies.
    fn size_in_bytes() -> (n: usize)
        ensures
            n == Self::width(),
    ;
}

/// What a `ByteReader` is to its contracts: the buffer, and how many bytes of
/// it have been consumed.
pub struct Cursor {
    pub bytes: Seq<u8>,
    pub at: nat,
}

impl Cursor {
    /// Whether `n` more bytes can be consumed.
    pub open spec fn fits(self, n: nat) -> bool {
        self.at + n <= self.bytes.len()
    }

    /// The next `n` bytes.
    pub open spec fn upcoming(self, n: nat) -> Seq<u8> {
        self.bytes.subrange(self.at as int, (self.at + n) as int)
    }

    /// The same buffer with `n` more bytes consumed.
    pub open spec fn advance(self, n: nat) -> Cursor {
        Cursor { bytes: self.bytes, at: self.at + n }
    }

    /// The value of type `T` that the next bytes spell out.
    pub open spec fn value<T: Readable>(self) -> T {
        T::decode(self.upcoming(T::width()))
    }

    /// The `k` values of type `T` that the next bytes spell out, one after another.
    pub open spec fn values<T: Readable>(self, k: nat) -> Seq<T> {
        Seq::new(k, |i: int| self.advance((i * T::width()) as nat).value::<T>())
    }
}

/// Read one by one as `u8`, the next `k` bytes are those bytes themselves.
pub proof fn lemma_byte_values(cursor: Cursor, k: nat)
    requires
        cursor.fits(k),
    ensures
        cursor.values::<u8>(k) == cursor.upcoming(k),
{
    assert forall|i: int| 0 <= i < k implies cursor.values::<u8>(k)[i] == cursor.upcoming(k)[i] by {
        let byte = cursor.advance((i * 1) as nat).upcoming(1);
        lemma_be_unsigned_fixed(byte);
        assert(byte[0] == cursor.bytes[cursor.at + i]);
    }
    assert(cursor.values::<u8>(k) =~= cursor.upcoming(k));
}

/// The next byte, read as `u8`, is that byte itself.
pub proof fn lemma_byte_value(cursor: Cursor)
    requires
        cursor.fits(1),
    ensures
        cursor.value::<u8>() == cursor.bytes[cursor.at as int],
{
    lemma_be_unsigned_fixed(cursor.upcoming(1));
}

/// The values of the eight fixed-width types are the big-endian readings of
/// their bytes, unsigned or in two's complement, without loss.
pub proof fn lemma_values_are_big_endian(bytes: Seq<u8>)
    ensures
        bytes.len() == 1 ==> <u8 as Readable>::decode(bytes) == be_unsigned(bytes)
            && <i8 as Readable>::decode(bytes) == be_signed(bytes),
        bytes.len() == 2 ==> <u16 as Readable>::decode(bytes) == be_unsigned(bytes)
            && <i16 as Readable>::decode(bytes) == be_signed(bytes),
        bytes.len() == 3 ==> <u24 as Readable>::decode(bytes).0 == be_unsigned(bytes)
            && <i24 as Readable>::decode(bytes).0 == be_signed(bytes),
        bytes.len() == 4 ==> <u32 as Readable>::decode(bytes) == be_unsigned(bytes)
            && <i32 as Readable>::decode(bytes) == be_signed(bytes),
{
    lemma_radix_powers();
    lemma_be_unsigned_bound(bytes);
    if bytes.len() > 0 {
        lemma_be_signed_range(bytes);
    }
}

/// A signed value of one to four bytes is negative exactly where the top bit
/// of its first byte is set.
pub proof fn lemma_signed_values_carry_sign(bytes: Seq<u8>)
    ensures
        bytes.len() == 1 ==> (<i8 as Readable>::decode(bytes) < 0 <==> bytes[0] >= 128),
        bytes.len() == 2 ==> (<i16 as Readable>::decode(bytes) < 0 <==> bytes[0] >= 128),
        bytes.len() == 3 ==> (<i24 as Readable>::decode(bytes).0 < 0 <==> bytes[0] >= 128),
        bytes.len() == 4 ==> (<i32 as Readable>::decode(bytes) < 0 <==> bytes[0] >= 128),
{
    lemma_radix_powers();
    if bytes.len() > 0 {
        lemma_be_signed_range(bytes);
        lemma_be_signed_sign(bytes);
    }
}

/// A cursor over a byte buffer that it owns: reading moves it forward,
/// nothing moves it back, and it never leaves the buffer.
pub struct ByteReader {
    position: usize,
    bytes: Vec<u8>,
}

/// A reader stands within its buffer, and the buffer is one that a machine holds.
pub broadcast proof fn lemma_reader_within_buffer(reader: ByteReader)
    ensures
        #![trigger reader@]
        reader@.at <= reader@.bytes.len() <= usize::MAX,
{
    assert(reader.bytes.len() == reader.bytes@.len());
}

impl View for ByteReader {
    type V = Cursor;

    closed spec fn view(&self) -> Cursor {
        Cursor {
            bytes: self.bytes@,
            at: if self.position <= self.bytes.len() {
                self.position as nat
            } else {
                self.bytes@.len()
            },
        }
    }
}

impl ByteReader {
    #[verifier::type_invariant]
    spec fn within_buffer(self) -> bool {
        self.position <= self.bytes.len()
    }

    pub fn new(bytes: Vec<u8>) -> (reader: ByteReader)
        ensures
            reader@ == (Cursor { bytes: bytes@, at: 0 }),
    {
        ByteReader { position: 0, bytes: bytes }
    }

    /// Decodes the next value without consuming it.
    pub fn peek_be<T: Readable>(&self) -> (result: DviousResult<T>)
        ensures
            match result {
                Ok(value) => self@.fits(T::width()) && value == self@.value::<T>(),
                Err(error) => !self@.fits(T::width()) && error@ == Failure::IndexOutOfBounds,
            },
    {
        let number_of_bytes = T::size_in_bytes();
        let buffer = self.peek_slice(number_of_bytes)?;
        let result = T::from_u8_be(buffer);
        assert(buffer@.subrange(0, T::width() as int) == buffer@);
        Ok(result)
    }

    /// Decodes the next value, the one that `peek_be` gives, and consumes its
    /// bytes; a failing read consumes nothing.
    pub fn read_be<T: Readable>(&mut self) -> (result: DviousResult<T>)
        ensures
            match result {
                Ok(value) => {
                    &&& old(self)@.fits(T::width())
                    &&& value == old(self)@.value::<T>()
                    &&& final(self)@ == old(self)@.advance(T::width())
                },
                Err(error) => {
                    &&& !old(self)@.fits(T::width())
                    &&& error@ == Failure::IndexOutOfBounds
                    &&& final(self)@ == old(self)@
                },
            },
    {
        let number_of_bytes = T::size_in_bytes();
        let buffer = self.read_slice(number_of_bytes)?;
        let result = T::from_u8_be(buffer);
        assert(buffer@.subrange(0, T::width() as int) == buffer@);
        Ok(result)
    }

    /// Decodes `k` values one after another; a failing read consumes nothing.
    pub fn read_vector_be<T: Readable>(&mut self, k: usize) -> (result: DviousResult<Vec<T>>)
        ensures
            match result {
                Ok(values) => {
                    &&& old(self)@.fits((k * T::width()) as nat)
                    &&& values@ == old(self)@.values::<T>(k as nat)
                    &&& final(self)@ == old(self)@.advance((k * T::width()) as nat)
                },
                Err(error) => {
                    &&& !old(self)@.fits((k * T::width()) as nat)
                    &&& error@ == Failure::IndexOutOfBounds
                    &&& final(self)@ == old(self)@
                },
            },
    {
        proof {
            use_type_invariant(&*self);
        }
        let number_of_bytes = T::size_in_bytes();
        let remaining = self.bytes.len() - self.position;
        let fits = match k.checked_mul(number_of_bytes) {
            Some(total) => total <= remaining,
            None => false,
        };
        if !fits {
            return Err(DviousError::IndexOutOfBoundsError);
        }
        let ghost start = self@;
        let mut result: Vec<T> = Vec::new();
        assert(0 * T::width() == 0) by (nonlinear_arith);
        for i in 0..k
            invariant
                number_of_bytes == T::width(),
                start.fits((k * T::width()) as nat),
                self@ == start.advance((i * T::width()) as nat),
                result@ == start.values::<T>(i as nat),
        {
            assert((i + 1) * T::width() <= k * T::width()) by (nonlinear_arith)
                requires
                    i < k,
            ;
            assert((i + 1) * T::width() == i * T::width() + T::width()) by (nonlinear_arith);
            let buffer = self.read_slice(number_of_bytes)?;
            let x = T::from_u8_be(buffer);
            assert(buffer@.subrange(0, T::width() as int) == buffer@);
            result.push(x);
            assert(result@ == start.values::<T>((i + 1) as nat));
        }
        Ok(result)
    }

    /// Consumes `k` bytes; a failing skip consumes nothing.
    pub fn skip_bytes(&mut self, k: u32) -> (result: DviousResult<()>)
        ensures
            match result {
                Ok(()) => {
                    &&& old(self)@.fits(k as nat)
                    &&& final(self)@ == old(self)@.advance(k as nat)
                },
                Err(error) => {
                    &&& !old(self)@.fits(k as nat)
                    &&& error@ == Failure::IndexOutOfBounds
                    &&& final(self)@ == old(self)@
                },
            },
    {
        proof {
            use_type_invariant(&*self);
        }
        let n = k as usize;
        if n <= self.bytes.len() - self.position {
            self.position = self.position + n;
            Ok(())
        } else {
            Err(DviousError::IndexOutOfBoundsError)
        }
    }

    fn peek_slice(&self, n: usize) -> (result: DviousResult<&[u8]>)
        ensures
            match result {
                Ok(slice) => self@.fits(n as nat) && slice@ == self@.upcoming(n as nat),
                Err(error) => !self@.fits(n as nat) && error@ == Failure::IndexOutOfBounds,
            },
    {
        proof {
            use_type_invariant(self);
        }
        let start = self.position;
        if n <= self.bytes.len() - start {
            let end = start + n;
            let result = slice_subrange(self.bytes.as_slice(), start, end);
            Ok(result)
        } else {
            Err(DviousError::IndexOutOfBoundsError)
        }
    }

    fn read_slice(&mut self, n: usize) -> (result: DviousResult<&[u8]>)
        ensures
            match result {
                Ok(slice) => {
                    &&& old(self)@.fits(n as nat)
                    &&& slice@ == old(self)@.upcoming(n as nat)
                    &&& final(self)@ == old(self)@.advance(n as nat)
                },
                Err(error) => {
                    &&& !old(self)@.fits(n as nat)
                    &&& error@ == Failure::IndexOutOfBounds
                    &&& final(self)@ == old(self)@
                },
            },
    {
        proof {
            use_type_invariant(&*self);
        }
        let start = self.position;
        if n <= self.bytes.len() - start {
            let end = start + n;
            self.position = end;
            let result = slice_subrange(self.bytes.as_slice(), start, end);
            Ok(result)
        } else {
            Err(DviousError::IndexOutOfBoundsError)
        }
    }

    /// Whether any byte is left to read.
    pub fn has_more(&self) -> (more: bool)
        ensures
            more == (self@.at < self@.bytes.len()),
            self@.at <= self@.bytes.len(),
    {
        proof {
            use_type_invariant(self);
        }
        self.position < self.bytes.len()
    }

    /// The length of the whole buffer.
    pub fn len(&self) -> (length: usize)
        ensures
            length == self@.bytes.len(),
    {
        self.bytes.len()
    }

    /// How many bytes have been consumed.
    pub fn position(&self) -> (position: usize)
        ensures
            position == self@.at,
            position <= self@.bytes.len(),
    {
        proof {
            use_type_invariant(self);
        }
        self.position
    }
}

// Unsigned

impl Readable for u8 {
    open spec fn width() -> nat {
        1
    }

    open spec fn decode(bytes: Seq<u8>) -> u8 {
        be_unsigned(bytes) as u8
    }

    fn from_u8_be(b: &[u8]) -> (value: u8) {
        proof {
            lemma_be_unsigned_fixed(b@.subrange(0, 1));
        }
        b[0]
    }

    fn size_in_bytes() -> (n: usize) {
        1
    }
}

impl Readable for u16 {
    open spec fn width() -> nat {
        2
    }

    open spec fn decode(bytes: Seq<u8>) -> u16 {
        be_unsigned(bytes) as u16
    }

    fn from_u8_be(b: &[u8]) -> (value: u16) {
        proof {
            lemma_be_unsigned_fixed(b@.subrange(0, 2));
        }
        b[0] as u16 * 0x100 + b[1] as u16
    }

    fn size_in_bytes() -> (n: usize) {
        2
    }
}

impl Readable for u24 {
    open spec fn width() -> nat {
        3
    }

    open spec fn decode(bytes: Seq<u8>) -> u24 {
        u24(be_unsigned(bytes) as u32)
    }

    fn from_u8_be(b: &[u8]) -> (value: u24) {
        proof {
            lemma_be_unsigned_fixed(b@.subrange(0, 3));
        }
        let result = b[0] as u32 * 0x1_0000 + b[1] as u32 * 0x100 + b[2] as u32;
        u24::from(result)
    }

    fn size_in_bytes() -> (n: usize) {
        3
    }
}

impl Readable for u32 {
    open spec fn width() -> nat {
        4
    }

    open spec fn decode(bytes: Seq<u8>) -> u32 {
        be_unsigned(bytes) as u32
    }

    fn from_u8_be(b: &[u8]) -> (value: u32) {
        proof {
            lemma_be_unsigned_fixed(b@.subrange(0, 4));
        }
        b[0] as u32 * 0x100_0000 + b[1] as u32 * 0x1_0000 + b[2] as u32 * 0x100 + b[3] as u32
    }

    fn size_in_bytes() -> (n: usize) {
        4
    }
}

// Signed

impl Readable for i8 {
    open spec fn width() -> nat {
        1
    }

    open spec fn decode(bytes: Seq<u8>) -> i8 {
        be_signed(bytes) as i8
    }

    fn from_u8_be(b: &[u8]) -> (value: i8) {
        proof {
            lemma_be_unsigned_fixed(b@.subrange(0, 1));
            lemma_radix_powers();
        }
        let raw = b[0] as i16;
        if raw >= 0x80 {
            (raw - 0x100) as i8
        } else {
            raw as i8
        }
    }

    fn size_in_bytes() -> (n: usize) {
        1
    }
}

impl Readable for i16 {
    open spec fn width() -> nat {
        2
    }

    open spec fn decode(bytes: Seq<u8>) -> i16 {
        be_signed(bytes) as i16
    }

    fn from_u8_be(b: &[u8]) -> (value: i16) {
        proof {
            lemma_be_unsigned_fixed(b@.subrange(0, 2));
            lemma_radix_powers();
        }
        let raw = b[0] as i32 * 0x100 + b[1] as i32;
        if b[0] >= 0x80 {
            (raw - 0x1_0000) as i16
        } else {
            raw as i16
        }
    }

    fn size_in_bytes() -> (n: usize) {
        2
    }
}

impl Readable for i24 {
    open spec fn width() -> nat {
        3
    }

    open spec fn decode(bytes: Seq<u8>) -> i24 {
        i24(be_signed(bytes) as i32)
    }

    fn from_u8_be(b: &[u8]) -> (value: i24) {
        proof {
            lemma_be_unsigned_fixed(b@.subrange(0, 3));
            lemma_radix_powers();
        }
        let raw = b[0] as i32 * 0x1_0000 + b[1] as i32 * 0x100 + b[2] as i32;
        let result = if b[0] >= 0x80 {
            raw - 0x100_0000
        } else {
            raw
        };
        i24::from(result)
    }

    fn size_in_bytes() -> (n: usize) {
        3
    }
}

impl Readable for i32 {
    open spec fn width() -> nat {
        4
    }

    open spec fn decode(bytes: Seq<u8>) -> i32 {
        be_signed(bytes) as i32
    }

    fn from_u8_be(b: &[u8]) -> (value: i32) {
        proof {
            lemma_be_unsigned_fixed(b@.subrange(0, 4));
            lemma_radix_powers();
        }
        let raw = b[0] as i64 * 0x100_0000 + b[1] as i64 * 0x1_0000 + b[2] as i64 * 0x100
            + b[3] as i64;
        if b[0] >= 0x80 {
            (raw - 0x1_0000_0000) as i32
        } else {
            raw as i32
        }
    }

    fn size_in_bytes() -> (n: usize) {
        4
    }
}

} // verus!
