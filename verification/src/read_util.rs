//! Reading little-endian numbers, raw bytes and null-terminated strings
//! from bytes in memory.

use vstd::prelude::*;
use vstd::utf8::{decode_utf8, valid_utf8};

verus! {

/// Why bytes could not be read.
#[derive(Clone, Copy, Debug, PartialEq, Eq, Structural)]
pub enum IOError {
    /// The bytes ended before the value was complete.
    UnexpectedEof,
    /// What was to be read is not there.
    NotFound,
}

/// Why a string could not be read.
#[derive(Debug)]
pub enum StringReadError {
    /// The bytes could not be read.
    IOError(IOError),
    /// The bytes before the terminator are not UTF-8; they are handed back.
    StringConstructionError(Vec<u8>),
}

/// Reading a string that ends with a zero byte.
pub trait StringRead {
    /// Reads bytes up to the next zero byte, which is consumed, and makes a
    /// string of them.
    fn read_null_terminated_string(&mut self) -> Result<String, StringReadError>;
}

/// Reading bytes as they are.
pub trait RawDataRead {
    /// Reads `len` bytes.
    fn read_data(&mut self, len: usize) -> Result<Vec<u8>, IOError>;
}

/// Reading numbers in little-endian byte order.
pub trait PrimitiveRead {
    fn read_u8(&mut self) -> Result<u8, IOError>;

    fn read_u16(&mut self) -> Result<u16, IOError>;

    fn read_u32(&mut self) -> Result<u32, IOError>;

    fn read_u64(&mut self) -> Result<u64, IOError>;

    fn read_i8(&mut self) -> Result<i8, IOError>;

    fn read_i16(&mut self) -> Result<i16, IOError>;

    fn read_i32(&mut self) -> Result<i32, IOError>;

    fn read_i64(&mut self) -> Result<i64, IOError>;
}

/// The number that the bytes of `bytes` spell, least significant byte
/// first.
pub open spec fn le_value(bytes: Seq<u8>) -> nat
    decreases bytes.len(),
{
    if bytes.len() == 0 {
        0
    } else {
        bytes[0] as nat + 256 * le_value(bytes.skip(1))
    }
}

/// The number that `value` stands for as a two's complement number of
/// `bits` bits.
pub open spec fn signed(value: nat, bits: nat) -> int {
    if value >= vstd::arithmetic::power2::pow2((bits - 1) as nat) {
        value - vstd::arithmetic::power2::pow2(bits)
    } else {
        value as int
    }
}

/// The index of the first zero byte of `bytes` at or after `from`, or the
/// length of `bytes` if there is none.
pub open spec fn terminator(bytes: Seq<u8>, from: int) -> int
    decreases bytes.len() - from,
{
    if from < 0 || from >= bytes.len() {
        bytes.len() as int
    } else if bytes[from] == 0 {
        from
    } else {
        terminator(bytes, from + 1)
    }
}

/// Whether a zero byte stands in `bytes` at or after `from`.
pub open spec fn has_terminator(bytes: Seq<u8>, from: int) -> bool {
    terminator(bytes, from) < bytes.len()
}

/// The bytes of `bytes` from `from` up to the next zero byte.
pub open spec fn terminated(bytes: Seq<u8>, from: int) -> Seq<u8> {
    bytes.subrange(from, terminator(bytes, from))
}

/// `String::from_utf8`, with the bytes of a failed conversion taken out of
/// its error: the string that the bytes spell if they are UTF-8, else the
/// bytes.
#[verifier::external_body]
fn string_from_utf8(bytes: Vec<u8>) -> (result: Result<String, Vec<u8>>)
    ensures
        result is Ok <==> valid_utf8(bytes@),
        result matches Ok(s) ==> s@ == decode_utf8(bytes@),
        result matches Err(b) ==> b@ == bytes@,
{
    String::from_utf8(bytes).map_err(|e| e.into_bytes())
}

/// Bytes in memory and a position among them.
#[derive(Debug)]
pub struct ByteReader {
    data: Vec<u8>,
    position: usize,
}

impl ByteReader {
    /// All the bytes.
    pub closed spec fn bytes(&self) -> Seq<u8> {
        self.data@
    }

    /// The position of the next byte to read.
    pub closed spec fn pos(&self) -> int {
        self.position as int
    }

    /// The position lies among the bytes or right behind them.
    #[verifier::type_invariant]
    spec fn inv(self) -> bool {
        self.position <= self.data@.len()
    }

    /// The bytes that are left to read.
    pub open spec fn rest(&self) -> Seq<u8> {
        self.bytes().skip(self.pos())
    }

    /// Whether a zero byte is left to read.
    pub open spec fn has_string(&self) -> bool {
        has_terminator(self.bytes(), self.pos())
    }

    /// The position of the next zero byte.
    pub open spec fn string_end(&self) -> int {
        terminator(self.bytes(), self.pos())
    }

    /// The bytes from the position up to the next zero byte.
    pub open spec fn string_bytes(&self) -> Seq<u8> {
        terminated(self.bytes(), self.pos())
    }

    /// A reader at the start of `data`.
    pub fn new(data: Vec<u8>) -> (reader: ByteReader)
        ensures
            reader.bytes() == data@,
            reader.pos() == 0,
            reader.pos() <= reader.bytes().len(),
    {
        ByteReader { data, position: 0 }
    }

    /// The position of the next byte to read.
    pub fn position(&self) -> (position: usize)
        ensures
            position == self.pos(),
            position <= self.bytes().len(),
    {
        proof {
            use_type_invariant(self);
        }
        self.position
    }

    /// All the bytes.
    pub fn bytes_ref(&self) -> (data: &Vec<u8>)
        ensures
            data@ == self.bytes(),
    {
        &self.data
    }

    /// The number of bytes in all.
    pub fn len(&self) -> (len: usize)
        ensures
            len == self.bytes().len(),
    {
        self.data.len()
    }

    /// The number of bytes that are left to read.
    pub fn remaining(&self) -> (left: usize)
        ensures
            left == self.bytes().len() - self.pos(),
    {
        proof {
            use_type_invariant(self);
        }
        self.data.len() - self.position
    }

    /// Moves to `position`, or to the end if `position` lies behind it.
    pub fn seek(&mut self, position: usize)
        ensures
            final(self).bytes() == old(self).bytes(),
            final(self).pos() == if position <= old(self).bytes().len() {
                position as int
            } else {
                old(self).bytes().len() as int
            },
            final(self).pos() <= final(self).bytes().len(),
    {
        if position <= self.data.len() {
            self.position = position;
        } else {
            self.position = self.data.len();
        }
    }

    /// Skips `count` bytes, or what is left of them.
    pub fn skip(&mut self, count: usize)
        ensures
            final(self).bytes() == old(self).bytes(),
            final(self).pos() == if count <= old(self).bytes().len() - old(self).pos() {
                old(self).pos() + count
            } else {
                old(self).bytes().len() as int
            },
            final(self).pos() <= final(self).bytes().len(),
    {
        proof {
            use_type_invariant(&*self);
        }
        if count <= self.data.len() - self.position {
            self.position = self.position + count;
        } else {
            self.position = self.data.len();
        }
    }

    /// Fills a buffer of `len` zero bytes with the bytes that come next, as
    /// far as there are any, and moves behind them. Where fewer than `len`
    /// bytes are left, the rest of the buffer stays zero.
    pub fn read(&mut self, len: usize) -> (buffer: Vec<u8>)
        ensures
            final(self).bytes() == old(self).bytes(),
            final(self).pos() <= final(self).bytes().len(),
            buffer@.len() == len,
            final(self).pos() == if len <= old(self).rest().len() {
                old(self).pos() + len
            } else {
                old(self).bytes().len() as int
            },
            forall|i: int|
                0 <= i < len ==> buffer@[i] == if i < old(self).rest().len() {
                    old(self).rest()[i]
                } else {
                    0u8
                },
    {
        proof {
            use_type_invariant(&*self);
        }
        let ghost rest = self.rest();
        let mut buffer: Vec<u8> = Vec::new();
        let mut i: usize = 0;
        while i < len
            invariant
                i <= len,
                self.position <= self.data@.len(),
                old(self).position <= old(self).data@.len(),
                self.bytes() == old(self).bytes(),
                rest == old(self).rest(),
                buffer@.len() == i,
                self.pos() == if i <= rest.len() {
                    old(self).pos() + i
                } else {
                    old(self).bytes().len() as int
                },
                forall|k: int|
                    0 <= k < i ==> buffer@[k] == if k < rest.len() {
                        rest[k]
                    } else {
                        0u8
                    },
            decreases len - i,
        {
            if self.position < self.data.len() {
                buffer.push(self.data[self.position]);
                self.position = self.position + 1;
            } else {
                buffer.push(0);
            }
            i = i + 1;
        }
        buffer
    }

    /// Reads exactly `len` bytes. If fewer are left, the reader moves to the
    /// end and the read fails.
    pub fn read_exact(&mut self, len: usize) -> (result: Result<Vec<u8>, IOError>)
        ensures
            final(self).bytes() == old(self).bytes(),
            final(self).pos() <= final(self).bytes().len(),
            result is Ok <==> len <= old(self).rest().len(),
            result matches Ok(bytes) ==> bytes@ == old(self).rest().take(len as int)
                && final(self).pos() == old(self).pos() + len,
            result matches Err(e) ==> e == IOError::UnexpectedEof && final(self).pos()
                == old(self).bytes().len(),
    {
        proof {
            use_type_invariant(&*self);
        }
        if len > self.data.len() - self.position {
            self.position = self.data.len();
            return Err(IOError::UnexpectedEof);
        }
        let ghost rest = self.rest();
        let mut bytes: Vec<u8> = Vec::with_capacity(len);
        let start = self.position;
        let total = self.data.len();
        let mut i: usize = 0;
        while i < len
            invariant
                i <= len,
                start + len <= self.data@.len(),
                total == self.data@.len(),
                bytes@.len() == i,
                forall|k: int| 0 <= k < i ==> bytes@[k] == self.data@[start + k],
            decreases len - i,
        {
            bytes.push(self.data[start + i]);
            i = i + 1;
        }
        self.position = start + len;
        proof {
            assert(bytes@ =~= rest.take(len as int));
        }
        Ok(bytes)
    }
}

/// The number that four bytes spell.
pub proof fn lemma_le_value_4(b: Seq<u8>)
    requires
        b.len() == 4,
    ensures
        le_value(b) == b[0] + 256 * b[1] + 65536 * b[2] + 16777216 * b[3],
        le_value(b) <= u32::MAX,
{
    reveal_with_fuel(le_value, 5);
    assert(b.skip(1).skip(1) =~= b.skip(2));
    assert(b.skip(2).skip(1) =~= b.skip(3));
    assert(b.skip(3).skip(1) =~= b.skip(4));
}

/// The number that two bytes spell.
pub proof fn lemma_le_value_2(b: Seq<u8>)
    requires
        b.len() == 2,
    ensures
        le_value(b) == b[0] + 256 * b[1],
        le_value(b) <= u16::MAX,
{
    reveal_with_fuel(le_value, 3);
    assert(b.skip(1).skip(1) =~= b.skip(2));
}

/// The number that one byte spells.
pub proof fn lemma_le_value_1(b: Seq<u8>)
    requires
        b.len() == 1,
    ensures
        le_value(b) == b[0],
{
    reveal_with_fuel(le_value, 2);
}

/// The number that eight bytes spell.
pub proof fn lemma_le_value_8(b: Seq<u8>)
    requires
        b.len() == 8,
    ensures
        le_value(b) == le_value(b.take(4)) + 4294967296 * le_value(b.skip(4)),
        le_value(b) <= u64::MAX,
{
    reveal_with_fuel(le_value, 9);
    let lo = b.take(4);
    let hi = b.skip(4);
    lemma_le_value_4(lo);
    lemma_le_value_4(hi);
    assert(b.skip(1).skip(1) =~= b.skip(2));
    assert(b.skip(2).skip(1) =~= b.skip(3));
    assert(b.skip(3).skip(1) =~= b.skip(4));
    assert(b.skip(4).skip(1) =~= b.skip(5));
    assert(b.skip(5).skip(1) =~= b.skip(6));
    assert(b.skip(6).skip(1) =~= b.skip(7));
    assert(b.skip(7).skip(1) =~= b.skip(8));
}

impl PrimitiveRead for ByteReader {
    /// Reads one byte.
    fn read_u8(&mut self) -> (result: Result<u8, IOError>)
        ensures
            final(self).bytes() == old(self).bytes(),
            final(self).pos() <= final(self).bytes().len(),
            (result is Ok <==> 1 <= old(self).rest().len()),
            (result matches Ok(v) ==> v == le_value(old(self).rest().take(1))
                && v == old(self).rest()[0] && final(self).pos() == old(self).pos() + 1),
            (result matches Err(e) ==> e == IOError::UnexpectedEof && final(self).pos()
                == old(self).bytes().len()),
    {
        let ghost rest = self.rest();
        match self.read_exact(1) {
            Ok(b) => {
                proof {
                    lemma_le_value_1(rest.take(1));
                }
                Ok(b[0])
            },
            Err(e) => Err(e),
        }
    }

    /// Reads a number of two bytes.
    fn read_u16(&mut self) -> (result: Result<u16, IOError>)
        ensures
            final(self).bytes() == old(self).bytes(),
            final(self).pos() <= final(self).bytes().len(),
            (result is Ok <==> 2 <= old(self).rest().len()),
            (result matches Ok(v) ==> v == le_value(old(self).rest().take(2))
                && final(self).pos() == old(self).pos() + 2),
            (result matches Err(e) ==> e == IOError::UnexpectedEof && final(self).pos()
                == old(self).bytes().len()),
    {
        let ghost rest = self.rest();
        match self.read_exact(2) {
            Ok(b) => {
                proof {
                    lemma_le_value_2(rest.take(2));
                }
                Ok(b[0] as u16 + 256 * (b[1] as u16))
            },
            Err(e) => Err(e),
        }
    }

    /// Reads a number of four bytes.
    fn read_u32(&mut self) -> (result: Result<u32, IOError>)
        ensures
            final(self).bytes() == old(self).bytes(),
            final(self).pos() <= final(self).bytes().len(),
            (result is Ok <==> 4 <= old(self).rest().len()),
            (result matches Ok(v) ==> v == le_value(old(self).rest().take(4))
                && final(self).pos() == old(self).pos() + 4),
            (result matches Err(e) ==> e == IOError::UnexpectedEof && final(self).pos()
                == old(self).bytes().len()),
    {
        let ghost rest = self.rest();
        match self.read_exact(4) {
            Ok(b) => {
                proof {
                    lemma_le_value_4(rest.take(4));
                }
                Ok(le_u32(b[0], b[1], b[2], b[3]))
            },
            Err(e) => Err(e),
        }
    }

    /// Reads a number of eight bytes.
    fn read_u64(&mut self) -> (result: Result<u64, IOError>)
        ensures
            final(self).bytes() == old(self).bytes(),
            final(self).pos() <= final(self).bytes().len(),
            (result is Ok <==> 8 <= old(self).rest().len()),
            (result matches Ok(v) ==> v == le_value(old(self).rest().take(8))
                && final(self).pos() == old(self).pos() + 8),
            (result matches Err(e) ==> e == IOError::UnexpectedEof && final(self).pos()
                == old(self).bytes().len()),
    {
        let ghost rest = self.rest();
        match self.read_exact(8) {
            Ok(b) => {
                proof {
                    lemma_le_value_8(rest.take(8));
                    lemma_le_value_4(b@.take(4));
                    lemma_le_value_4(b@.skip(4));
                }
                let lo = le_u32(b[0], b[1], b[2], b[3]);
                let hi = le_u32(b[4], b[5], b[6], b[7]);
                Ok(lo as u64 + 4294967296 * (hi as u64))
            },
            Err(e) => Err(e),
        }
    }

    /// Reads a signed number of one byte.
    fn read_i8(&mut self) -> (result: Result<i8, IOError>)
        ensures
            final(self).bytes() == old(self).bytes(),
            final(self).pos() <= final(self).bytes().len(),
            (result is Ok <==> 1 <= old(self).rest().len()),
            (result matches Ok(v) ==> v == signed(
                le_value(old(self).rest().take(1)),
                8,
            ) && final(self).pos() == old(self).pos() + 1),
            (result matches Err(e) ==> e == IOError::UnexpectedEof && final(self).pos()
                == old(self).bytes().len()),
    {
        proof {
            vstd::arithmetic::power2::lemma2_to64();
        }
        match self.read_u8() {
            Ok(v) => {
                if v >= 0x80 {
                    Ok(((v - 0x80) as i8) + i8::MIN)
                } else {
                    Ok(v as i8)
                }
            },
            Err(e) => Err(e),
        }
    }

    /// Reads a signed number of two bytes.
    fn read_i16(&mut self) -> (result: Result<i16, IOError>)
        ensures
            final(self).bytes() == old(self).bytes(),
            final(self).pos() <= final(self).bytes().len(),
            (result is Ok <==> 2 <= old(self).rest().len()),
            (result matches Ok(v) ==> v == signed(
                le_value(old(self).rest().take(2)),
                16,
            ) && final(self).pos() == old(self).pos() + 2),
            (result matches Err(e) ==> e == IOError::UnexpectedEof && final(self).pos()
                == old(self).bytes().len()),
    {
        proof {
            vstd::arithmetic::power2::lemma2_to64();
        }
        match self.read_u16() {
            Ok(v) => {
                if v >= 0x8000 {
                    Ok(((v - 0x8000) as i16) + i16::MIN)
                } else {
                    Ok(v as i16)
                }
            },
            Err(e) => Err(e),
        }
    }

    /// Reads a signed number of four bytes.
    fn read_i32(&mut self) -> (result: Result<i32, IOError>)
        ensures
            final(self).bytes() == old(self).bytes(),
            final(self).pos() <= final(self).bytes().len(),
            (result is Ok <==> 4 <= old(self).rest().len()),
            (result matches Ok(v) ==> v == signed(
                le_value(old(self).rest().take(4)),
                32,
            ) && final(self).pos() == old(self).pos() + 4),
            (result matches Err(e) ==> e == IOError::UnexpectedEof && final(self).pos()
                == old(self).bytes().len()),
    {
        proof {
            vstd::arithmetic::power2::lemma2_to64();
        }
        match self.read_u32() {
            Ok(v) => {
                if v >= 0x8000_0000 {
                    Ok(((v - 0x8000_0000) as i32) + i32::MIN)
                } else {
                    Ok(v as i32)
                }
            },
            Err(e) => Err(e),
        }
    }

    /// Reads a signed number of eight bytes.
    fn read_i64(&mut self) -> (result: Result<i64, IOError>)
        ensures
            final(self).bytes() == old(self).bytes(),
            final(self).pos() <= final(self).bytes().len(),
            (result is Ok <==> 8 <= old(self).rest().len()),
            (result matches Ok(v) ==> v == signed(
                le_value(old(self).rest().take(8)),
                64,
            ) && final(self).pos() == old(self).pos() + 8),
            (result matches Err(e) ==> e == IOError::UnexpectedEof && final(self).pos()
                == old(self).bytes().len()),
    {
        proof {
            vstd::arithmetic::power2::lemma2_to64();
            vstd::arithmetic::power2::lemma2_to64_rest();
        }
        match self.read_u64() {
            Ok(v) => {
                if v >= 0x8000_0000_0000_0000 {
                    Ok(((v - 0x8000_0000_0000_0000) as i64) + i64::MIN)
                } else {
                    Ok(v as i64)
                }
            },
            Err(e) => Err(e),
        }
    }
}

/// The number that four bytes spell, least significant byte first.
fn le_u32(b0: u8, b1: u8, b2: u8, b3: u8) -> (v: u32)
    ensures
        v == b0 + 256 * b1 + 65536 * b2 + 16777216 * b3,
{
    b0 as u32 + 256 * (b1 as u32) + 65536 * (b2 as u32) + 16777216 * (b3 as u32)
}

impl RawDataRead for ByteReader {
    /// Reads exactly `len` bytes.
    fn read_data(&mut self, len: usize) -> (result: Result<Vec<u8>, IOError>)
        ensures
            final(self).bytes() == old(self).bytes(),
            final(self).pos() <= final(self).bytes().len(),
            (result is Ok <==> len <= old(self).rest().len()),
            (result matches Ok(bytes) ==> bytes@ == old(self).rest().take(
                len as int,
            ) && final(self).pos() == old(self).pos() + len),
            (result matches Err(e) ==> e == IOError::UnexpectedEof && final(self).pos()
                == old(self).bytes().len()),
    {
        self.read_exact(len)
    }
}

impl StringRead for ByteReader {
    /// Reads the bytes up to the next zero byte and makes a string of them;
    /// the reader moves behind the zero byte. Without a zero byte the read
    /// fails at the end of the bytes. Bytes that are not UTF-8 are handed
    /// back in the error.
    fn read_null_terminated_string(&mut self) -> (result: Result<String, StringReadError>)
        ensures
            final(self).bytes() == old(self).bytes(),
            final(self).pos() <= final(self).bytes().len(),
            !old(self).has_string() ==> (result matches Err(StringReadError::IOError(e)) && e
                == IOError::UnexpectedEof && final(self).pos() == old(self).bytes().len()),
            old(self).has_string() ==> final(self).pos() == old(self).string_end()
                + 1,
            old(self).has_string() && valid_utf8(old(self).string_bytes()) ==> (
            result matches Ok(s) && s@ == decode_utf8(old(self).string_bytes())),
            old(self).has_string() && !valid_utf8(old(self).string_bytes()) ==> (
            result matches Err(StringReadError::StringConstructionError(b)) && b@
                == old(self).string_bytes()),
    {
        proof {
            use_type_invariant(&*self);
        }
        let start = self.position;
        let mut buffer: Vec<u8> = Vec::new();
        while self.position < self.data.len() && self.data[self.position] != 0
            invariant
                start <= self.position <= self.data@.len(),
                self.data@ == old(self).data@,
                terminator(self.data@, start as int) == terminator(self.data@, self.position as int),
                buffer@ == self.data@.subrange(start as int, self.position as int),
            decreases self.data@.len() - self.position,
        {
            buffer.push(self.data[self.position]);
            self.position = self.position + 1;
            proof {
                assert(buffer@ =~= self.data@.subrange(start as int, self.position as int));
            }
        }
        if self.position >= self.data.len() {
            return Err(StringReadError::IOError(IOError::UnexpectedEof));
        }
        self.position = self.position + 1;
        match string_from_utf8(buffer) {
            Ok(s) => Ok(s),
            Err(b) => Err(StringReadError::StringConstructionError(b)),
        }
    }
}

} // verus!
