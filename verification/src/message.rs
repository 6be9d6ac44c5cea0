//! The typed message codec.
//!
//! A message is a growing byte string with a read cursor. Values are appended
//! in little-endian order and read back from the cursor on; nothing in the
//! bytes tells one type from another, so a reader names the same types in the
//! same order as the writer did.

use vstd::prelude::*;
use vstd::slice::{slice_subrange, slice_to_vec};
use crate::endian::{
    le_bytes, le_value, lemma_le_bytes_len, lemma_le_value_bound, lemma_le_value_of_le_bytes,
    lemma_pow256_values, lemma_signed_round_trip, pow256, push_le, read_le, to_signed,
    to_unsigned,
};

verus! {

/// Why a read from a message failed.
#[derive(Debug, Clone, Copy, PartialEq, Eq, Structural)]
pub enum MessageError {
    /// Fewer bytes are left after the cursor than the read asked for.
    UnexpectedEnd,
}

impl MessageError {
    /// A sentence that says what went wrong.
    pub fn describe(&self) -> (text: String)
        ensures
            text@ == "Message has ended unexpectedly."@,
    {
        "Message has ended unexpectedly.".to_owned()
    }
}

/// What a message is: the bytes written so far and the number of them already read.
pub struct MessageView {
    pub bytes: Seq<u8>,
    pub cursor: nat,
}

impl MessageView {
    /// The message that nothing was written to.
    pub open spec fn empty() -> MessageView {
        MessageView { bytes: Seq::empty(), cursor: 0 }
    }

    /// The number of bytes after the cursor.
    pub open spec fn remaining(self) -> nat {
        (self.bytes.len() - self.cursor) as nat
    }

    /// The message after `data` was appended.
    pub open spec fn append(self, data: Seq<u8>) -> MessageView {
        MessageView { bytes: self.bytes + data, cursor: self.cursor }
    }

    /// The `width` bytes that start `skip` bytes after the cursor.
    pub open spec fn field(self, skip: nat, width: nat) -> Seq<u8> {
        self.bytes.subrange((self.cursor + skip) as int, (self.cursor + skip + width) as int)
    }

    /// The message after the cursor moved over `width` bytes.
    pub open spec fn advance(self, width: nat) -> MessageView {
        MessageView { bytes: self.bytes, cursor: self.cursor + width }
    }

    /// What reading an unsigned number of `width` bytes returns.
    pub open spec fn read_unsigned(self, width: nat) -> Result<nat, MessageError> {
        if self.remaining() < width {
            Err(MessageError::UnexpectedEnd)
        } else {
            Ok(le_value(self.field(0, width)))
        }
    }

    /// What reading a signed number of `width` bytes returns.
    pub open spec fn read_signed(self, width: nat) -> Result<int, MessageError> {
        if self.remaining() < width {
            Err(MessageError::UnexpectedEnd)
        } else {
            Ok(to_signed(le_value(self.field(0, width)), width))
        }
    }

    /// The message after a read of `width` bytes: the cursor moves only if the read succeeds.
    pub open spec fn after_read(self, width: nat) -> MessageView {
        if self.remaining() < width {
            self
        } else {
            self.advance(width)
        }
    }

    /// The length that the length prefix at the cursor declares.
    pub open spec fn declared_len(self) -> nat {
        le_value(self.field(0, 4))
    }

    /// What reading a length-prefixed byte string returns.
    pub open spec fn read_buffer(self) -> Result<Seq<u8>, MessageError> {
        if self.remaining() < 4 || self.remaining() - 4 < self.declared_len() {
            Err(MessageError::UnexpectedEnd)
        } else {
            Ok(self.field(4, self.declared_len()))
        }
    }

    /// The message after reading a length-prefixed byte string.
    pub open spec fn after_read_buffer(self) -> MessageView {
        if self.read_buffer() is Err {
            self
        } else {
            self.advance(4 + self.declared_len())
        }
    }
}

/// A message: typed fields in the order in which they were written.
pub struct Message {
    buffer: Vec<u8>,
    read_pos: usize,
}

impl View for Message {
    type V = MessageView;

    closed spec fn view(&self) -> MessageView {
        MessageView { bytes: self.buffer@, cursor: self.read_pos as nat }
    }
}

impl Message {
    /// The cursor never passes the end of the bytes.
    pub open spec fn wf(&self) -> bool {
        self@.cursor <= self@.bytes.len()
    }

    /// Creates a new empty message.
    pub fn new() -> (msg: Message)
        ensures
            msg.wf(),
            msg@ == MessageView::empty(),
    {
        Message { buffer: Vec::new(), read_pos: 0 }
    }

    /// A message that holds `buffer`, with the cursor at its start.
    pub fn from_buffer(buffer: Vec<u8>) -> (msg: Message)
        ensures
            msg.wf(),
            msg@ == (MessageView { bytes: buffer@, cursor: 0 }),
    {
        Message { buffer, read_pos: 0 }
    }

    /// All the bytes of the message, read or not.
    pub fn as_bytes(&self) -> (bytes: &Vec<u8>)
        ensures
            bytes@ == self@.bytes,
    {
        &self.buffer
    }

    /// Appends the `width` low-order bytes of `value`.
    fn put(&mut self, value: u128, width: usize)
        requires
            old(self).wf(),
        ensures
            final(self).wf(),
            final(self)@ == old(self)@.append(le_bytes(value as nat, width as nat)),
    {
        push_le(&mut self.buffer, value, width);
    }

    /// Reads an unsigned number of `width` bytes and moves the cursor over it.
    fn take(&mut self, width: usize) -> (r: Result<u128, MessageError>)
        requires
            old(self).wf(),
            width <= 16,
        ensures
            final(self).wf(),
            final(self)@ == old(self)@.after_read(width as nat),
            match r {
                Ok(value) => value < pow256(width as nat) && old(self)@.read_unsigned(width as nat)
                    == Ok::<nat, MessageError>(value as nat),
                Err(e) => old(self)@.read_unsigned(width as nat) == Err::<nat, MessageError>(e),
            },
    {
        if self.buffer.len() - self.read_pos < width {
            return Err(MessageError::UnexpectedEnd);
        }
        let value: u128 = read_le(&self.buffer, self.read_pos, width);
        proof {
            lemma_le_value_bound(self@.field(0, width as nat));
        }
        self.read_pos = self.read_pos + width;
        Ok(value)
    }

    /// Appends an 8-bit unsigned integer to the message.
    pub fn write_u8(&mut self, n: u8)
        requires
            old(self).wf(),
        ensures
            final(self).wf(),
            final(self)@ == old(self)@.append(le_bytes(n as nat, 1)),
    {
        self.put(n as u128, 1);
    }

    /// Appends an 8-bit signed integer to the message, in two's complement.
    pub fn write_i8(&mut self, n: i8)
        requires
            old(self).wf(),
        ensures
            final(self).wf(),
            final(self)@ == old(self)@.append(le_bytes(to_unsigned(n as int, 1), 1)),
    {
        proof {
            lemma_pow256_values();
        }
        let u: u8 = if n >= 0 {
            n as u8
        } else {
            (n - i8::MIN) as u8 + 0x80
        };
        self.put(u as u128, 1);
    }

    /// Appends a 16-bit unsigned integer to the message.
    pub fn write_u16(&mut self, n: u16)
        requires
            old(self).wf(),
        ensures
            final(self).wf(),
            final(self)@ == old(self)@.append(le_bytes(n as nat, 2)),
    {
        self.put(n as u128, 2);
    }

    /// Appends a 16-bit signed integer to the message, in two's complement.
    pub fn write_i16(&mut self, n: i16)
        requires
            old(self).wf(),
        ensures
            final(self).wf(),
            final(self)@ == old(self)@.append(le_bytes(to_unsigned(n as int, 2), 2)),
    {
        proof {
            lemma_pow256_values();
        }
        let u: u16 = if n >= 0 {
            n as u16
        } else {
            (n - i16::MIN) as u16 + 0x8000
        };
        self.put(u as u128, 2);
    }

    /// Appends a 32-bit unsigned integer to the message.
    pub fn write_u32(&mut self, n: u32)
        requires
            old(self).wf(),
        ensures
            final(self).wf(),
            final(self)@ == old(self)@.append(le_bytes(n as nat, 4)),
    {
        self.put(n as u128, 4);
    }

    /// Appends a 32-bit signed integer to the message, in two's complement.
    pub fn write_i32(&mut self, n: i32)
        requires
            old(self).wf(),
        ensures
            final(self).wf(),
            final(self)@ == old(self)@.append(le_bytes(to_unsigned(n as int, 4), 4)),
    {
        proof {
            lemma_pow256_values();
        }
        let u: u32 = if n >= 0 {
            n as u32
        } else {
            (n - i32::MIN) as u32 + 0x8000_0000
        };
        self.put(u as u128, 4);
    }

    /// Appends a 64-bit unsigned integer to the message.
    pub fn write_u64(&mut self, n: u64)
        requires
            old(self).wf(),
        ensures
            final(self).wf(),
            final(self)@ == old(self)@.append(le_bytes(n as nat, 8)),
    {
        self.put(n as u128, 8);
    }

    /// Appends a 64-bit signed integer to the message, in two's complement.
    pub fn write_i64(&mut self, n: i64)
        requires
            old(self).wf(),
        ensures
            final(self).wf(),
            final(self)@ == old(self)@.append(le_bytes(to_unsigned(n as int, 8), 8)),
    {
        proof {
            lemma_pow256_values();
        }
        let u: u64 = if n >= 0 {
            n as u64
        } else {
            (n - i64::MIN) as u64 + 0x8000_0000_0000_0000
        };
        self.put(u as u128, 8);
    }

    /// Appends a 128-bit unsigned integer to the message.
    pub fn write_u128(&mut self, n: u128)
        requires
            old(self).wf(),
        ensures
            final(self).wf(),
            final(self)@ == old(self)@.append(le_bytes(n as nat, 16)),
    {
        self.put(n as u128, 16);
    }

    /// Appends a 128-bit signed integer to the message, in two's complement.
    pub fn write_i128(&mut self, n: i128)
        requires
            old(self).wf(),
        ensures
            final(self).wf(),
            final(self)@ == old(self)@.append(le_bytes(to_unsigned(n as int, 16), 16)),
    {
        proof {
            lemma_pow256_values();
        }
        let u: u128 = if n >= 0 {
            n as u128
        } else {
            (n - i128::MIN) as u128 + 0x8000_0000_0000_0000_0000_0000_0000_0000
        };
        self.put(u as u128, 16);
    }

    /// Appends a byte string to the message: its length in four bytes, then its bytes.
    ///
    /// The length field holds the length modulo 2^32.
    pub fn write_buffer(&mut self, buf: &[u8])
        requires
            old(self).wf(),
        ensures
            final(self).wf(),
            final(self)@ == old(self)@.append(le_bytes(buf@.len(), 4) + buf@),
    {
        self.put(buf.len() as u128, 4);
        self.buffer.extend_from_slice(buf);
        assert(self.buffer@ =~= old(self).buffer@ + (le_bytes(buf@.len(), 4) + buf@));
    }

    /// Reads an 8-bit unsigned integer and moves the cursor over it.
    ///
    /// Fails, and changes nothing, if fewer than 1 byte are left.
    pub fn read_u8(&mut self) -> (r: Result<u8, MessageError>)
        requires
            old(self).wf(),
        ensures
            final(self).wf(),
            final(self)@ == old(self)@.after_read(1),
            match r {
                Ok(n) => old(self)@.read_unsigned(1) == Ok::<nat, MessageError>(n as nat),
                Err(e) => old(self)@.read_unsigned(1) == Err::<nat, MessageError>(e),
            },
    {
        proof {
            lemma_pow256_values();
        }
        match self.take(1) {
            Ok(value) => Ok(value as u8),
            Err(e) => Err(e),
        }
    }

    /// Reads an 8-bit signed integer and moves the cursor over it.
    ///
    /// Fails, and changes nothing, if fewer than 1 byte are left.
    pub fn read_i8(&mut self) -> (r: Result<i8, MessageError>)
        requires
            old(self).wf(),
        ensures
            final(self).wf(),
            final(self)@ == old(self)@.after_read(1),
            match r {
                Ok(n) => old(self)@.read_signed(1) == Ok::<int, MessageError>(n as int),
                Err(e) => old(self)@.read_signed(1) == Err::<int, MessageError>(e),
            },
    {
        proof {
            lemma_pow256_values();
        }
        match self.take(1) {
            Ok(value) => {
                let u: u8 = value as u8;
                if u < 0x80 {
                    Ok(u as i8)
                } else {
                    Ok((u - 0x80) as i8 + i8::MIN)
                }
            },
            Err(e) => Err(e),
        }
    }

    /// Reads a 16-bit unsigned integer and moves the cursor over it.
    ///
    /// Fails, and changes nothing, if fewer than 2 bytes are left.
    pub fn read_u16(&mut self) -> (r: Result<u16, MessageError>)
        requires
            old(self).wf(),
        ensures
            final(self).wf(),
            final(self)@ == old(self)@.after_read(2),
            match r {
                Ok(n) => old(self)@.read_unsigned(2) == Ok::<nat, MessageError>(n as nat),
                Err(e) => old(self)@.read_unsigned(2) == Err::<nat, MessageError>(e),
            },
    {
        proof {
            lemma_pow256_values();
        }
        match self.take(2) {
            Ok(value) => Ok(value as u16),
            Err(e) => Err(e),
        }
    }

    /// Reads a 16-bit signed integer and moves the cursor over it.
    ///
    /// Fails, and changes nothing, if fewer than 2 bytes are left.
    pub fn read_i16(&mut self) -> (r: Result<i16, MessageError>)
        requires
            old(self).wf(),
        ensures
            final(self).wf(),
            final(self)@ == old(self)@.after_read(2),
            match r {
                Ok(n) => old(self)@.read_signed(2) == Ok::<int, MessageError>(n as int),
                Err(e) => old(self)@.read_signed(2) == Err::<int, MessageError>(e),
            },
    {
        proof {
            lemma_pow256_values();
        }
        match self.take(2) {
            Ok(value) => {
                let u: u16 = value as u16;
                if u < 0x8000 {
                    Ok(u as i16)
                } else {
                    Ok((u - 0x8000) as i16 + i16::MIN)
                }
            },
            Err(e) => Err(e),
        }
    }

    /// Reads a 32-bit unsigned integer and moves the cursor over it.
    ///
    /// Fails, and changes nothing, if fewer than 4 bytes are left.
    pub fn read_u32(&mut self) -> (r: Result<u32, MessageError>)
        requires
            old(self).wf(),
        ensures
            final(self).wf(),
            final(self)@ == old(self)@.after_read(4),
            match r {
                Ok(n) => old(self)@.read_unsigned(4) == Ok::<nat, MessageError>(n as nat),
                Err(e) => old(self)@.read_unsigned(4) == Err::<nat, MessageError>(e),
            },
    {
        proof {
            lemma_pow256_values();
        }
        match self.take(4) {
            Ok(value) => Ok(value as u32),
            Err(e) => Err(e),
        }
    }

    /// Reads a 32-bit signed integer and moves the cursor over it.
    ///
    /// Fails, and changes nothing, if fewer than 4 bytes are left.
    pub fn read_i32(&mut self) -> (r: Result<i32, MessageError>)
        requires
            old(self).wf(),
        ensures
            final(self).wf(),
            final(self)@ == old(self)@.after_read(4),
            match r {
                Ok(n) => old(self)@.read_signed(4) == Ok::<int, MessageError>(n as int),
                Err(e) => old(self)@.read_signed(4) == Err::<int, MessageError>(e),
            },
    {
        proof {
            lemma_pow256_values();
        }
        match self.take(4) {
            Ok(value) => {
                let u: u32 = value as u32;
                if u < 0x8000_0000 {
                    Ok(u as i32)
                } else {
                    Ok((u - 0x8000_0000) as i32 + i32::MIN)
                }
            },
            Err(e) => Err(e),
        }
    }

    /// Reads a 64-bit unsigned integer and moves the cursor over it.
    ///
    /// Fails, and changes nothing, if fewer than 8 bytes are left.
    pub fn read_u64(&mut self) -> (r: Result<u64, MessageError>)
        requires
            old(self).wf(),
        ensures
            final(self).wf(),
            final(self)@ == old(self)@.after_read(8),
            match r {
                Ok(n) => old(self)@.read_unsigned(8) == Ok::<nat, MessageError>(n as nat),
                Err(e) => old(self)@.read_unsigned(8) == Err::<nat, MessageError>(e),
            },
    {
        proof {
            lemma_pow256_values();
        }
        match self.take(8) {
            Ok(value) => Ok(value as u64),
            Err(e) => Err(e),
        }
    }

    /// Reads a 64-bit signed integer and moves the cursor over it.
    ///
    /// Fails, and changes nothing, if fewer than 8 bytes are left.
    pub fn read_i64(&mut self) -> (r: Result<i64, MessageError>)
        requires
            old(self).wf(),
        ensures
            final(self).wf(),
            final(self)@ == old(self)@.after_read(8),
            match r {
                Ok(n) => old(self)@.read_signed(8) == Ok::<int, MessageError>(n as int),
                Err(e) => old(self)@.read_signed(8) == Err::<int, MessageError>(e),
            },
    {
        proof {
            lemma_pow256_values();
        }
        match self.take(8) {
            Ok(value) => {
                let u: u64 = value as u64;
                if u < 0x8000_0000_0000_0000 {
                    Ok(u as i64)
                } else {
                    Ok((u - 0x8000_0000_0000_0000) as i64 + i64::MIN)
                }
            },
            Err(e) => Err(e),
        }
    }

    /// Reads a 128-bit unsigned integer and moves the cursor over it.
    ///
    /// Fails, and changes nothing, if fewer than 16 bytes are left.
    pub fn read_u128(&mut self) -> (r: Result<u128, MessageError>)
        requires
            old(self).wf(),
        ensures
            final(self).wf(),
            final(self)@ == old(self)@.after_read(16),
            match r {
                Ok(n) => old(self)@.read_unsigned(16) == Ok::<nat, MessageError>(n as nat),
                Err(e) => old(self)@.read_unsigned(16) == Err::<nat, MessageError>(e),
            },
    {
        proof {
            lemma_pow256_values();
        }
        match self.take(16) {
            Ok(value) => Ok(value as u128),
            Err(e) => Err(e),
        }
    }

    /// Reads a 128-bit signed integer and moves the cursor over it.
    ///
    /// Fails, and changes nothing, if fewer than 16 bytes are left.
    pub fn read_i128(&mut self) -> (r: Result<i128, MessageError>)
        requires
            old(self).wf(),
        ensures
            final(self).wf(),
            final(self)@ == old(self)@.after_read(16),
            match r {
                Ok(n) => old(self)@.read_signed(16) == Ok::<int, MessageError>(n as int),
                Err(e) => old(self)@.read_signed(16) == Err::<int, MessageError>(e),
            },
    {
        proof {
            lemma_pow256_values();
        }
        match self.take(16) {
            Ok(value) => {
                let u: u128 = value as u128;
                if u < 0x8000_0000_0000_0000_0000_0000_0000_0000 {
                    Ok(u as i128)
                } else {
                    Ok((u - 0x8000_0000_0000_0000_0000_0000_0000_0000) as i128 + i128::MIN)
                }
            },
            Err(e) => Err(e),
        }
    }

    /// Reads a byte string written by `write_buffer` and moves the cursor over it.
    ///
    /// Fails, and changes nothing, if the length prefix or the bytes that it
    /// declares are not all there.
    pub fn read_buffer(&mut self) -> (r: Result<Vec<u8>, MessageError>)
        requires
            old(self).wf(),
        ensures
            final(self).wf(),
            final(self)@ == old(self)@.after_read_buffer(),
            match r {
                Ok(bytes) => old(self)@.read_buffer() == Ok::<Seq<u8>, MessageError>(bytes@),
                Err(e) => old(self)@.read_buffer() == Err::<Seq<u8>, MessageError>(e),
            },
    {
        let left: usize = self.buffer.len() - self.read_pos;
        if left < 4 {
            return Err(MessageError::UnexpectedEnd);
        }
        let declared: u128 = read_le(&self.buffer, self.read_pos, 4);
        if ((left - 4) as u128) < declared {
            return Err(MessageError::UnexpectedEnd);
        }
        let len: usize = declared as usize;
        let start: usize = self.read_pos + 4;
        let bytes = slice_to_vec(slice_subrange(self.buffer.as_slice(), start, start + len));
        self.read_pos = start + len;
        Ok(bytes)
    }
}

/// An unsigned number that fits in `width` bytes, written at the end of a
/// message whose earlier fields were all read, is the next value read, and
/// the read leaves nothing behind.
pub proof fn lemma_write_then_read_unsigned(m: MessageView, value: nat, width: nat)
    requires
        m.cursor == m.bytes.len(),
        value < pow256(width),
    ensures
        m.append(le_bytes(value, width)).read_unsigned(width) == Ok::<nat, MessageError>(value),
        m.append(le_bytes(value, width)).after_read(width).remaining() == 0,
        m.append(le_bytes(value, width)).after_read(width).bytes == m.bytes + le_bytes(
            value,
            width,
        ),
{
    let written = m.append(le_bytes(value, width));
    lemma_le_bytes_len(value, width);
    assert(written.field(0, width) =~= le_bytes(value, width));
    lemma_le_value_of_le_bytes(value, width);
}

/// A signed number in the range of `width` bytes, written at the end of a
/// message whose earlier fields were all read, is the next value read.
pub proof fn lemma_write_then_read_signed(m: MessageView, value: int, width: nat)
    requires
        m.cursor == m.bytes.len(),
        -(pow256(width) as int) <= 2 * value < pow256(width),
    ensures
        m.append(le_bytes(to_unsigned(value, width), width)).read_signed(width) == Ok::<
            int,
            MessageError,
        >(value),
        m.append(le_bytes(to_unsigned(value, width), width)).after_read(width).remaining() == 0,
{
    lemma_signed_round_trip(value, width);
    lemma_write_then_read_unsigned(m, to_unsigned(value, width), width);
}

/// A byte string shorter than 2^32 bytes, written at the end of a message
/// whose earlier fields were all read, is the next byte string read.
pub proof fn lemma_write_then_read_buffer(m: MessageView, data: Seq<u8>)
    requires
        m.cursor == m.bytes.len(),
        data.len() < pow256(4),
    ensures
        m.append(le_bytes(data.len(), 4) + data).read_buffer() == Ok::<Seq<u8>, MessageError>(
            data,
        ),
        m.append(le_bytes(data.len(), 4) + data).after_read_buffer().remaining() == 0,
{
    let written = m.append(le_bytes(data.len(), 4) + data);
    lemma_le_bytes_len(data.len(), 4);
    assert(written.field(0, 4) =~= le_bytes(data.len(), 4));
    lemma_le_value_of_le_bytes(data.len(), 4);
    assert(written.field(4, data.len()) =~= data);
}

/// A read that asks for more bytes than are left fails and leaves the bytes
/// and the cursor as they were.
pub proof fn lemma_read_past_end(m: MessageView, width: nat)
    requires
        m.remaining() < width,
    ensures
        m.read_unsigned(width) == Err::<nat, MessageError>(MessageError::UnexpectedEnd),
        m.read_signed(width) == Err::<int, MessageError>(MessageError::UnexpectedEnd),
        m.after_read(width) == m,
{
}

/// A read of a byte string whose prefix or bytes are not all there fails and
/// leaves the bytes and the cursor as they were.
pub proof fn lemma_read_buffer_past_end(m: MessageView)
    requires
        m.remaining() < 4 || m.remaining() - 4 < m.declared_len(),
    ensures
        m.read_buffer() == Err::<Seq<u8>, MessageError>(MessageError::UnexpectedEnd),
        m.after_read_buffer() == m,
{
}

} // verus!
