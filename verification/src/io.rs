use vstd::prelude::*;

use crate::bytes::{le16_val, le32_val, le64_val, u16_bytes, u32_bytes, u64_bytes};
use crate::error::NexError;
use vstd::string::StringExecFns;

verus! {

/// Width settings shared by the byte streams: the size of a string length
/// prefix (2 or 4 bytes), the size of a principal id (4 or 8 bytes), and
/// whether structures carry a version header.
#[derive(Debug, Clone, Copy)]
pub struct ByteStreamSettings {
    pub string_length_size: usize,
    pub pid_size: usize,
    pub use_structure_header: bool,
}

/// Placeholder for the per-protocol library version table.
#[derive(Debug, Clone, Copy)]
pub struct LibraryVersions;

/// A positional reader over a byte buffer. All multi-byte integers are
/// little-endian; an out-of-bounds read fails with a `Parse` error and
/// leaves the cursor where it was.
#[derive(Debug, Clone)]
pub struct ByteStreamIn {
    data: Vec<u8>,
    pos: usize,
    pub library_versions: Option<LibraryVersions>,
    pub settings: Option<ByteStreamSettings>,
}

impl ByteStreamIn {
    /// The underlying buffer.
    pub closed spec fn data_seq(&self) -> Seq<u8> {
        self.data@
    }

    /// The cursor position.
    pub closed spec fn position(&self) -> int {
        self.pos as int
    }

    /// The cursor never runs past the end of the buffer.
    pub open spec fn wf(&self) -> bool {
        0 <= self.position() <= self.data_seq().len()
    }

    /// How many bytes are left to read.
    pub open spec fn remaining_spec(&self) -> int {
        self.data_seq().len() - self.position()
    }

    /// The attached settings.
    pub closed spec fn settings_spec(&self) -> Option<ByteStreamSettings> {
        self.settings
    }

    /// The string length prefix width: the settings' choice, 2 by default.
    pub open spec fn string_length_size_spec(&self) -> usize {
        match self.settings_spec() {
            Some(s) => s.string_length_size,
            None => 2,
        }
    }

    /// The principal id width: the settings' choice, 4 by default.
    pub open spec fn pid_size_spec(&self) -> usize {
        match self.settings_spec() {
            Some(s) => s.pid_size,
            None => 4,
        }
    }

    /// Whether structures carry a version header: false by default.
    pub open spec fn use_structure_header_spec(&self) -> bool {
        match self.settings_spec() {
            Some(s) => s.use_structure_header,
            None => false,
        }
    }

    /// The settings and the position of the buffer are unchanged.
    pub open spec fn same_stream(&self, other: &Self) -> bool {
        &&& self.data_seq() == other.data_seq()
        &&& self.settings_spec() == other.settings_spec()
    }

    pub fn new(
        data: Vec<u8>,
        library_versions: Option<LibraryVersions>,
        settings: Option<ByteStreamSettings>,
    ) -> (r: Self)
        ensures
            r.wf(),
            r.data_seq() == data@,
            r.position() == 0,
            r.settings_spec() == settings,
    {
        Self { data, pos: 0, library_versions, settings }
    }

    pub fn string_length_size(&self) -> (r: usize)
        ensures
            r == self.string_length_size_spec(),
    {
        match &self.settings {
            Some(s) => s.string_length_size,
            None => 2,
        }
    }

    pub fn pid_size(&self) -> (r: usize)
        ensures
            r == self.pid_size_spec(),
    {
        match &self.settings {
            Some(s) => s.pid_size,
            None => 4,
        }
    }

    pub fn use_structure_header(&self) -> (r: bool)
        ensures
            r == self.use_structure_header_spec(),
    {
        match &self.settings {
            Some(s) => s.use_structure_header,
            None => false,
        }
    }

    pub fn remaining(&self) -> (r: usize)
        requires
            self.wf(),
        ensures
            r == self.remaining_spec(),
    {
        self.data.len() - self.pos
    }

    /// Reads everything that is left and moves the cursor to the end.
    pub fn read_remaining(&mut self) -> (r: Vec<u8>)
        requires
            old(self).wf(),
        ensures
            final(self).wf(),
            final(self).same_stream(old(self)),
            r@ == old(self).data_seq().subrange(old(self).position(), old(self).data_seq().len() as int),
            final(self).position() == final(self).data_seq().len(),
    {
        let len = self.remaining();
        match self.read(len as u64) {
            Ok(v) => v,
            Err(_) => Vec::new(),
        }
    }

    /// Reads exactly `length` bytes; fails with `Parse` when fewer are left,
    /// leaving the cursor in place.
    pub fn read(&mut self, length: u64) -> (r: Result<Vec<u8>, NexError>)
        requires
            old(self).wf(),
        ensures
            final(self).wf(),
            final(self).same_stream(old(self)),
            old(self).remaining_spec() >= length ==> {
                &&& r matches Ok(v) && v@ == old(self).data_seq().subrange(
                    old(self).position(),
                    old(self).position() + length,
                )
                &&& final(self).position() == old(self).position() + length
            },
            old(self).remaining_spec() < length ==> {
                &&& r matches Err(e) && e is Parse
                &&& final(self).position() == old(self).position()
            },
    {
        let rem = self.data.len() - self.pos;
        if (rem as u64) < length {
            // The error carries the attempted length.
            let mut message = "read of ".to_owned();
            message.append(length.to_string().as_str());
            message.append(" bytes overruns the buffer");
            return Err(NexError::Parse(message));
        }
        let length: usize = length as usize;
        let mut out: Vec<u8> = Vec::new();
        let start = self.pos;
        let end = start + length;
        let mut idx = start;
        while idx < end
            invariant
                self.wf(),
                start == self.pos,
                start <= idx <= end,
                end <= self.data@.len(),
                out@ == self.data@.subrange(start as int, idx as int),
            decreases end - idx,
        {
            let b = self.data[idx];
            out.push(b);
            proof {
                assert(out@ =~= self.data@.subrange(start as int, idx + 1));
            }
            idx += 1;
        }
        self.pos = end;
        Ok(out)
    }

    pub fn read_u8(&mut self) -> (r: Result<u8, NexError>)
        requires
            old(self).wf(),
        ensures
            final(self).wf(),
            final(self).same_stream(old(self)),
            old(self).remaining_spec() >= 1 ==> {
                &&& r matches Ok(v) && v == old(self).data_seq()[old(self).position()]
                &&& final(self).position() == old(self).position() + 1
            },
            old(self).remaining_spec() < 1 ==> {
                &&& r matches Err(e) && e is Parse
                &&& final(self).position() == old(self).position()
            },
    {
        if self.pos >= self.data.len() {
            return Err(NexError::Parse("Not enough data to read u8".to_owned()));
        }
        let v = self.data[self.pos];
        self.pos = self.pos + 1;
        Ok(v)
    }

    pub fn read_u16_le(&mut self) -> (r: Result<u16, NexError>)
        requires
            old(self).wf(),
        ensures
            final(self).wf(),
            final(self).same_stream(old(self)),
            old(self).remaining_spec() >= 2 ==> {
                &&& r matches Ok(v) && v == le16_val(
                    old(self).data_seq().subrange(old(self).position(), old(self).position() + 2),
                )
                &&& final(self).position() == old(self).position() + 2
            },
            old(self).remaining_spec() < 2 ==> {
                &&& r matches Err(e) && e is Parse
                &&& final(self).position() == old(self).position()
            },
    {
        if self.data.len() - self.pos < 2 {
            return Err(NexError::Parse("Not enough data to read u16".to_owned()));
        }
        let b0 = self.data[self.pos];
        let b1 = self.data[self.pos + 1];
        self.pos = self.pos + 2;
        Ok(b0 as u16 + b1 as u16 * 0x100)
    }

    pub fn read_u32_le(&mut self) -> (r: Result<u32, NexError>)
        requires
            old(self).wf(),
        ensures
            final(self).wf(),
            final(self).same_stream(old(self)),
            old(self).remaining_spec() >= 4 ==> {
                &&& r matches Ok(v) && v == le32_val(
                    old(self).data_seq().subrange(old(self).position(), old(self).position() + 4),
                )
                &&& final(self).position() == old(self).position() + 4
            },
            old(self).remaining_spec() < 4 ==> {
                &&& r matches Err(e) && e is Parse
                &&& final(self).position() == old(self).position()
            },
    {
        if self.data.len() - self.pos < 4 {
            return Err(NexError::Parse("Not enough data to read u32".to_owned()));
        }
        let b0 = self.data[self.pos];
        let b1 = self.data[self.pos + 1];
        let b2 = self.data[self.pos + 2];
        let b3 = self.data[self.pos + 3];
        self.pos = self.pos + 4;
        Ok(b0 as u32 + b1 as u32 * 0x100 + b2 as u32 * 0x10000 + b3 as u32 * 0x1000000)
    }

    pub fn read_u64_le(&mut self) -> (r: Result<u64, NexError>)
        requires
            old(self).wf(),
        ensures
            final(self).wf(),
            final(self).same_stream(old(self)),
            old(self).remaining_spec() >= 8 ==> {
                &&& r matches Ok(v) && v == le64_val(
                    old(self).data_seq().subrange(old(self).position(), old(self).position() + 8),
                )
                &&& final(self).position() == old(self).position() + 8
            },
            old(self).remaining_spec() < 8 ==> {
                &&& r matches Err(e) && e is Parse
                &&& final(self).position() == old(self).position()
            },
    {
        if self.data.len() - self.pos < 8 {
            return Err(NexError::Parse("Not enough data to read u64".to_owned()));
        }
        let b0 = self.data[self.pos];
        let b1 = self.data[self.pos + 1];
        let b2 = self.data[self.pos + 2];
        let b3 = self.data[self.pos + 3];
        let b4 = self.data[self.pos + 4];
        let b5 = self.data[self.pos + 5];
        let b6 = self.data[self.pos + 6];
        let b7 = self.data[self.pos + 7];
        self.pos = self.pos + 8;
        Ok(
            b0 as u64 + b1 as u64 * 0x100 + b2 as u64 * 0x10000 + b3 as u64 * 0x1000000
                + b4 as u64 * 0x100000000 + b5 as u64 * 0x10000000000 + b6 as u64
                * 0x1000000000000 + b7 as u64 * 0x100000000000000,
        )
    }

    /// Reads one byte and reinterprets it as signed.
    pub fn read_i8(&mut self) -> (r: Result<i8, NexError>)
        requires
            old(self).wf(),
        ensures
            final(self).wf(),
            final(self).same_stream(old(self)),
            old(self).remaining_spec() >= 1 ==> {
                &&& r matches Ok(v) && v == old(self).data_seq()[old(self).position()] as i8
                &&& final(self).position() == old(self).position() + 1
            },
            old(self).remaining_spec() < 1 ==> {
                &&& r matches Err(e) && e is Parse
                &&& final(self).position() == old(self).position()
            },
    {
        match self.read_u8() {
            Ok(v) => Ok(v as i8),
            Err(e) => Err(e),
        }
    }

    /// Reads two little-endian bytes and reinterprets them as signed.
    pub fn read_i16_le(&mut self) -> (r: Result<i16, NexError>)
        requires
            old(self).wf(),
        ensures
            final(self).wf(),
            final(self).same_stream(old(self)),
            old(self).remaining_spec() >= 2 ==> {
                &&& r matches Ok(v) && v == le16_val(
                    old(self).data_seq().subrange(old(self).position(), old(self).position() + 2),
                ) as u16 as i16
                &&& final(self).position() == old(self).position() + 2
            },
            old(self).remaining_spec() < 2 ==> {
                &&& r matches Err(e) && e is Parse
                &&& final(self).position() == old(self).position()
            },
    {
        match self.read_u16_le() {
            Ok(v) => Ok(v as i16),
            Err(e) => Err(e),
        }
    }

    /// Reads four little-endian bytes and reinterprets them as signed.
    pub fn read_i32_le(&mut self) -> (r: Result<i32, NexError>)
        requires
            old(self).wf(),
        ensures
            final(self).wf(),
            final(self).same_stream(old(self)),
            old(self).remaining_spec() >= 4 ==> {
                &&& r matches Ok(v) && v == le32_val(
                    old(self).data_seq().subrange(old(self).position(), old(self).position() + 4),
                ) as u32 as i32
                &&& final(self).position() == old(self).position() + 4
            },
            old(self).remaining_spec() < 4 ==> {
                &&& r matches Err(e) && e is Parse
                &&& final(self).position() == old(self).position()
            },
    {
        match self.read_u32_le() {
            Ok(v) => Ok(v as i32),
            Err(e) => Err(e),
        }
    }

    /// Reads eight little-endian bytes and reinterprets them as signed.
    pub fn read_i64_le(&mut self) -> (r: Result<i64, NexError>)
        requires
            old(self).wf(),
        ensures
            final(self).wf(),
            final(self).same_stream(old(self)),
            old(self).remaining_spec() >= 8 ==> {
                &&& r matches Ok(v) && v == le64_val(
                    old(self).data_seq().subrange(old(self).position(), old(self).position() + 8),
                ) as u64 as i64
                &&& final(self).position() == old(self).position() + 8
            },
            old(self).remaining_spec() < 8 ==> {
                &&& r matches Err(e) && e is Parse
                &&& final(self).position() == old(self).position()
            },
    {
        match self.read_u64_le() {
            Ok(v) => Ok(v as i64),
            Err(e) => Err(e),
        }
    }

    /// Reads one byte; the value is true exactly when the byte is 1.
    pub fn read_bool(&mut self) -> (r: Result<bool, NexError>)
        requires
            old(self).wf(),
        ensures
            final(self).wf(),
            final(self).same_stream(old(self)),
            old(self).remaining_spec() >= 1 ==> {
                &&& r matches Ok(v) && v == (old(self).data_seq()[old(self).position()] == 1)
                &&& final(self).position() == old(self).position() + 1
            },
            old(self).remaining_spec() < 1 ==> {
                &&& r matches Err(e) && e is Parse
                &&& final(self).position() == old(self).position()
            },
    {
        match self.read_u8() {
            Ok(v) => Ok(v == 1),
            Err(e) => Err(e),
        }
    }
}

/// A positional writer into an unbounded byte buffer. Writes always succeed;
/// all multi-byte integers are little-endian.
#[derive(Debug, Clone)]
pub struct ByteStreamOut {
    buf: Vec<u8>,
    pub library_versions: Option<LibraryVersions>,
    pub settings: Option<ByteStreamSettings>,
}

impl ByteStreamOut {
    /// The bytes written so far.
    pub closed spec fn out(&self) -> Seq<u8> {
        self.buf@
    }

    /// The attached settings.
    pub closed spec fn settings_spec(&self) -> Option<ByteStreamSettings> {
        self.settings
    }

    /// The string length prefix width: the settings' choice, 2 by default.
    pub open spec fn string_length_size_spec(&self) -> usize {
        match self.settings_spec() {
            Some(s) => s.string_length_size,
            None => 2,
        }
    }

    /// The principal id width: the settings' choice, 4 by default.
    pub open spec fn pid_size_spec(&self) -> usize {
        match self.settings_spec() {
            Some(s) => s.pid_size,
            None => 4,
        }
    }

    /// Whether structures carry a version header: false by default.
    pub open spec fn use_structure_header_spec(&self) -> bool {
        match self.settings_spec() {
            Some(s) => s.use_structure_header,
            None => false,
        }
    }

    /// The stream settings are unchanged.
    pub open spec fn same_settings(&self, other: &Self) -> bool {
        self.settings_spec() == other.settings_spec()
    }

    pub fn new(
        library_versions: Option<LibraryVersions>,
        settings: Option<ByteStreamSettings>,
    ) -> (r: Self)
        ensures
            r.out() == Seq::<u8>::empty(),
            r.settings_spec() == settings,
    {
        let r = Self { buf: Vec::new(), library_versions, settings };
        proof {
            assert(r.out() =~= Seq::<u8>::empty());
        }
        r
    }

    pub fn string_length_size(&self) -> (r: usize)
        ensures
            r == self.string_length_size_spec(),
    {
        match &self.settings {
            Some(s) => s.string_length_size,
            None => 2,
        }
    }

    pub fn pid_size(&self) -> (r: usize)
        ensures
            r == self.pid_size_spec(),
    {
        match &self.settings {
            Some(s) => s.pid_size,
            None => 4,
        }
    }

    pub fn use_structure_header(&self) -> (r: bool)
        ensures
            r == self.use_structure_header_spec(),
    {
        match &self.settings {
            Some(s) => s.use_structure_header,
            None => false,
        }
    }

    /// A fresh, empty stream with the same settings.
    pub fn copy_new(&self) -> (r: Self)
        ensures
            r.out() == Seq::<u8>::empty(),
            r.settings_spec() == self.settings_spec(),
    {
        let r = Self {
            buf: Vec::new(),
            library_versions: self.library_versions,
            settings: self.settings,
        };
        proof {
            assert(r.out() =~= Seq::<u8>::empty());
        }
        r
    }

    pub fn write(&mut self, data: &[u8])
        ensures
            final(self).same_settings(old(self)),
            final(self).out() == old(self).out() + data@,
    {
        self.buf.extend_from_slice(data);
    }

    pub fn write_u8(&mut self, v: u8)
        ensures
            final(self).same_settings(old(self)),
            final(self).out() == old(self).out().push(v),
    {
        self.buf.push(v);
    }

    pub fn write_u16_le(&mut self, v: u16)
        ensures
            final(self).same_settings(old(self)),
            final(self).out() == old(self).out() + u16_bytes(v),
    {
        self.buf.push((v % 0x100) as u8);
        self.buf.push(((v / 0x100) % 0x100) as u8);
        proof {
            assert(self.out() =~= old(self).out() + u16_bytes(v));
        }
    }

    pub fn write_u32_le(&mut self, v: u32)
        ensures
            final(self).same_settings(old(self)),
            final(self).out() == old(self).out() + u32_bytes(v),
    {
        self.buf.push((v % 0x100) as u8);
        self.buf.push(((v / 0x100) % 0x100) as u8);
        self.buf.push(((v / 0x10000) % 0x100) as u8);
        self.buf.push(((v / 0x1000000) % 0x100) as u8);
        proof {
            assert(self.out() =~= old(self).out() + u32_bytes(v));
        }
    }

    pub fn write_u64_le(&mut self, v: u64)
        ensures
            final(self).same_settings(old(self)),
            final(self).out() == old(self).out() + u64_bytes(v),
    {
        self.buf.push((v % 0x100) as u8);
        self.buf.push(((v / 0x100) % 0x100) as u8);
        self.buf.push(((v / 0x10000) % 0x100) as u8);
        self.buf.push(((v / 0x1000000) % 0x100) as u8);
        self.buf.push(((v / 0x100000000) % 0x100) as u8);
        self.buf.push(((v / 0x10000000000) % 0x100) as u8);
        self.buf.push(((v / 0x1000000000000) % 0x100) as u8);
        self.buf.push(((v / 0x100000000000000) % 0x100) as u8);
        proof {
            assert(self.out() =~= old(self).out() + u64_bytes(v));
        }
    }

    /// Writes one byte, the signed value reinterpreted.
    pub fn write_i8(&mut self, v: i8)
        ensures
            final(self).same_settings(old(self)),
            final(self).out() == old(self).out().push(v as u8),
    {
        self.buf.push(v as u8);
    }

    /// Writes two little-endian bytes, the signed value reinterpreted.
    pub fn write_i16_le(&mut self, v: i16)
        ensures
            final(self).same_settings(old(self)),
            final(self).out() == old(self).out() + u16_bytes(v as u16),
    {
        self.write_u16_le(v as u16);
    }

    /// Writes four little-endian bytes, the signed value reinterpreted.
    pub fn write_i32_le(&mut self, v: i32)
        ensures
            final(self).same_settings(old(self)),
            final(self).out() == old(self).out() + u32_bytes(v as u32),
    {
        self.write_u32_le(v as u32);
    }

    /// Writes eight little-endian bytes, the signed value reinterpreted.
    pub fn write_i64_le(&mut self, v: i64)
        ensures
            final(self).same_settings(old(self)),
            final(self).out() == old(self).out() + u64_bytes(v as u64),
    {
        self.write_u64_le(v as u64);
    }

    /// Writes 1 for true and 0 for false.
    pub fn write_bool(&mut self, v: bool)
        ensures
            final(self).same_settings(old(self)),
            final(self).out() == old(self).out().push(if v { 1u8 } else { 0u8 }),
    {
        self.buf.push(if v { 1 } else { 0 });
    }

    /// The bytes written so far.
    pub fn bytes(&self) -> (r: &[u8])
        ensures
            r@ == self.out(),
    {
        self.buf.as_slice()
    }

    /// The bytes written so far, as an owned buffer; the stream is consumed.
    pub fn into_bytes(self) -> (r: Vec<u8>)
        ensures
            r@ == self.out(),
    {
        self.buf
    }
}

} // verus!
