use crate::error::VadError;
use vstd::prelude::*;
use vstd::slice::slice_subrange;

verus! {

/// Where a sequential read stands: at a byte offset, or failed for good.
pub type ReadState = Result<int, VadError>;

/// The state after asking for `n` more bytes of a stream of `len` bytes.
///
/// A read that fits moves the offset on by `n`. One that does not fails with
/// `TruncatedInput`, naming the offset at which it began and the bytes it wanted.
/// Once failed, the state stays failed.
pub open spec fn take(len: int, at: ReadState, n: int) -> ReadState {
    match at {
        Ok(p) => if p + n <= len {
            Ok(p + n)
        } else {
            Err(VadError::TruncatedInput { offset: p as usize, needed: n as usize })
        },
        Err(e) => Err(e),
    }
}

/// The byte at offset `p` as an unsigned integer.
pub open spec fn u8_at(bytes: Seq<u8>, p: int) -> u8 {
    bytes[p]
}

/// The byte at offset `p` as a two's-complement integer.
pub open spec fn i8_at(bytes: Seq<u8>, p: int) -> i8 {
    if bytes[p] >= 0x80 {
        (bytes[p] - 0x100) as i8
    } else {
        bytes[p] as i8
    }
}

/// The big-endian unsigned value of the two bytes at offset `p`.
pub open spec fn u16_at(bytes: Seq<u8>, p: int) -> int {
    bytes[p] * 0x100 + bytes[p + 1]
}

/// The big-endian two's-complement value of the two bytes at offset `p`.
pub open spec fn i16_at(bytes: Seq<u8>, p: int) -> i16 {
    let v = u16_at(bytes, p);
    if v >= 0x8000 {
        (v - 0x1_0000) as i16
    } else {
        v as i16
    }
}

/// The big-endian unsigned value of the four bytes at offset `p`.
pub open spec fn u32_at(bytes: Seq<u8>, p: int) -> int {
    bytes[p] * 0x100_0000 + bytes[p + 1] * 0x1_0000 + bytes[p + 2] * 0x100 + bytes[p + 3]
}

/// The big-endian two's-complement value of the four bytes at offset `p`.
pub open spec fn i32_at(bytes: Seq<u8>, p: int) -> i32 {
    let v = u32_at(bytes, p);
    if v >= 0x8000_0000 {
        (v - 0x1_0000_0000) as i32
    } else {
        v as i32
    }
}

/// `n` consecutive big-endian 16-bit values starting at offset `p`.
pub open spec fn i16s_at(bytes: Seq<u8>, p: int, n: int) -> Seq<i16> {
    Seq::new(n as nat, |i: int| i16_at(bytes, p + 2 * i))
}

/// `n` bytes starting at offset `p`, each taken as the character with that code point.
pub open spec fn text_at(bytes: Seq<u8>, p: int, n: int) -> Seq<char> {
    Seq::new(n as nat, |i: int| bytes[p + i] as char)
}

/// What a read of `n` bytes leaves behind: the bytes are untouched, the offset
/// moves on by `n` when the read fits and stays put when it does not.
pub open spec fn reads<T>(
    before: ByteCursor,
    after: ByteCursor,
    n: int,
    r: Result<T, VadError>,
) -> bool {
    &&& after.bytes() == before.bytes()
    &&& 0 <= after.offset() <= after.bytes().len() <= usize::MAX
    &&& match r {
        Ok(_) => take(before.bytes().len() as int, Ok(before.offset()), n) == Ok::<int, VadError>(
            after.offset(),
        ),
        Err(e) => take(before.bytes().len() as int, Ok(before.offset()), n) == Err::<int, VadError>(e)
            && after.offset() == before.offset(),
    }
}

/// A forward-only reader of big-endian values over a byte slice.
pub struct ByteCursor<'a> {
    data: &'a [u8],
    pos: usize,
}

impl<'a> ByteCursor<'a> {
    #[verifier::type_invariant]
    spec fn in_bounds(self) -> bool {
        self.pos <= self.data@.len()
    }

    /// The whole stream, read and unread.
    pub closed spec fn bytes(self) -> Seq<u8> {
        self.data@
    }

    /// How many bytes have been consumed.
    pub closed spec fn offset(self) -> int {
        self.pos as int
    }

    /// A cursor at the start of `data`.
    pub fn new(data: &'a [u8]) -> (c: Self)
        ensures
            c.bytes() == data@,
            c.offset() == 0,
    {
        ByteCursor { data, pos: 0 }
    }

    /// The number of bytes consumed so far.
    pub fn position(&self) -> (p: usize)
        ensures
            p == self.offset(),
            p <= self.bytes().len(),
    {
        proof {
            use_type_invariant(self);
        }
        self.pos
    }

    /// The number of bytes not yet consumed.
    pub fn remaining(&self) -> (n: usize)
        ensures
            n == self.bytes().len() - self.offset(),
    {
        proof {
            use_type_invariant(self);
        }
        self.data.len() - self.pos
    }

    /// Passes over `n` bytes.
    pub fn skip(&mut self, n: usize) -> (r: Result<(), VadError>)
        ensures
            reads(*old(self), *final(self), n as int, r),
    {
        proof {
            use_type_invariant(&*self);
        }
        if n > self.data.len() - self.pos {
            return Err(VadError::TruncatedInput { offset: self.pos, needed: n });
        }
        self.pos = self.pos + n;
        Ok(())
    }

    /// Reads one unsigned byte.
    pub fn read_u8(&mut self) -> (r: Result<u8, VadError>)
        ensures
            reads(*old(self), *final(self), 1, r),
            r matches Ok(v) ==> v == u8_at(old(self).bytes(), old(self).offset()),
    {
        let start = self.pos;
        self.skip(1)?;
        Ok(self.data[start])
    }

    /// Reads one signed byte.
    pub fn read_i8(&mut self) -> (r: Result<i8, VadError>)
        ensures
            reads(*old(self), *final(self), 1, r),
            r matches Ok(v) ==> v == i8_at(old(self).bytes(), old(self).offset()),
    {
        let start = self.pos;
        self.skip(1)?;
        let b: i16 = self.data[start] as i16;
        if b >= 0x80 {
            Ok((b - 0x100) as i8)
        } else {
            Ok(b as i8)
        }
    }

    /// Reads a big-endian signed 16-bit value.
    pub fn read_i16(&mut self) -> (r: Result<i16, VadError>)
        ensures
            reads(*old(self), *final(self), 2, r),
            r matches Ok(v) ==> v == i16_at(old(self).bytes(), old(self).offset()),
    {
        let start = self.pos;
        self.skip(2)?;
        Ok(i16_from(self.data, start))
    }

    /// Reads a big-endian signed 32-bit value.
    pub fn read_i32(&mut self) -> (r: Result<i32, VadError>)
        ensures
            reads(*old(self), *final(self), 4, r),
            r matches Ok(v) ==> v == i32_at(old(self).bytes(), old(self).offset()),
    {
        let start = self.pos;
        self.skip(4)?;
        let b0: i64 = self.data[start] as i64;
        let b1: i64 = self.data[start + 1] as i64;
        let b2: i64 = self.data[start + 2] as i64;
        let b3: i64 = self.data[start + 3] as i64;
        let v: i64 = b0 * 0x100_0000 + b1 * 0x1_0000 + b2 * 0x100 + b3;
        if v >= 0x8000_0000 {
            Ok((v - 0x1_0000_0000) as i32)
        } else {
            Ok(v as i32)
        }
    }

    /// Reads exactly `n` bytes.
    pub fn read_bytes(&mut self, n: usize) -> (r: Result<Vec<u8>, VadError>)
        ensures
            reads(*old(self), *final(self), n as int, r),
            r matches Ok(v) ==> v@ == old(self).bytes().subrange(
                old(self).offset(),
                old(self).offset() + n,
            ),
    {
        let start = self.pos;
        self.skip(n)?;
        let part = slice_subrange(self.data, start, start + n);
        Ok(vstd::slice::slice_to_vec(part))
    }

    /// Reads `n` big-endian signed 16-bit values.
    pub fn read_i16_array(&mut self, n: usize) -> (r: Result<Vec<i16>, VadError>)
        requires
            2 * n <= usize::MAX,
        ensures
            reads(*old(self), *final(self), 2 * n, r),
            r matches Ok(v) ==> v@ == i16s_at(old(self).bytes(), old(self).offset(), n as int),
    {
        let start = self.pos;
        self.skip(2 * n)?;
        let mut out: Vec<i16> = Vec::new();
        let mut i: usize = 0;
        while i < n
            invariant
                i <= n,
                start + 2 * n <= self.data.len(),
                out@ == i16s_at(self.data@, start as int, i as int),
            decreases n - i,
        {
            out.push(i16_from(self.data, start + 2 * i));
            i += 1;
            assert(out@ =~= i16s_at(self.data@, start as int, i as int));
        }
        Ok(out)
    }

    /// Reads `n` bytes as text, each byte giving the character with that code point.
    pub fn read_string(&mut self, n: usize) -> (r: Result<String, VadError>)
        ensures
            reads(*old(self), *final(self), n as int, r),
            r matches Ok(s) ==> s@ == text_at(old(self).bytes(), old(self).offset(), n as int),
    {
        let start = self.pos;
        self.skip(n)?;
        let mut out = String::new();
        let mut i: usize = 0;
        while i < n
            invariant
                i <= n,
                start + n <= self.data.len(),
                out@ == text_at(self.data@, start as int, i as int),
            decreases n - i,
        {
            push_char(&mut out, self.data[start + i] as char);
            i += 1;
            assert(out@ =~= text_at(self.data@, start as int, i as int));
        }
        Ok(out)
    }
}

/// The big-endian signed 16-bit value at `data[p..p + 2]`.
fn i16_from(data: &[u8], p: usize) -> (v: i16)
    requires
        p + 2 <= data@.len(),
    ensures
        v == i16_at(data@, p as int),
{
    let hi: i32 = data[p] as i32;
    let lo: i32 = data[p + 1] as i32;
    let v: i32 = hi * 0x100 + lo;
    if v >= 0x8000 {
        (v - 0x1_0000) as i16
    } else {
        v as i16
    }
}

/// `String::push` of std: the text grows by exactly the character given, at its end.
#[verifier::external_body]
pub(crate) fn push_char(s: &mut String, c: char)
    ensures
        final(s)@ == old(s)@.push(c),
{
    s.push(c)
}

} // verus!
