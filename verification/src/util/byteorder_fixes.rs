//! A read cursor over the bytes of a file, and the fixed-width, pointer-sized
//! and string reads that the container formats are made of.

use crate::base::ig_core_platform::{is_64bit, spec_is_64bit, Endian, IG_CORE_PLATFORM};
use vstd::prelude::*;

verus! {

/// Why a read did not produce a value.
#[derive(Clone, Copy, Debug, PartialEq, Eq, Structural)]
pub enum ReadError {
    /// Fewer bytes are left than the value takes.
    UnexpectedEof,
    /// No zero byte ends the string.
    MissingTerminator,
}

/// The bytes of a file together with a read position.
///
/// The position is free: it may lie beyond the end, in which case every read
/// fails.
#[derive(Debug)]
pub struct ByteCursor {
    pub data: Vec<u8>,
    pub position: u64,
}

/// The value of `width` bytes at `at`, first byte least significant.
pub open spec fn spec_le(bytes: Seq<u8>, at: int, width: nat) -> nat
    decreases width,
{
    if width == 0 {
        0
    } else {
        bytes[at] as nat + 256 * spec_le(bytes, at + 1, (width - 1) as nat)
    }
}

/// The value of `width` bytes at `at`, first byte most significant.
pub open spec fn spec_be(bytes: Seq<u8>, at: int, width: nat) -> nat
    decreases width,
{
    if width == 0 {
        0
    } else {
        256 * spec_be(bytes, at, (width - 1) as nat) + bytes[at + width - 1] as nat
    }
}

/// The unsigned integer that `width` bytes at `at` encode in byte order
/// `endian`. Only `Big` selects the big-endian reading.
pub open spec fn spec_uint(bytes: Seq<u8>, at: int, width: nat, endian: Endian) -> nat {
    if endian == Endian::Big {
        spec_be(bytes, at, width)
    } else {
        spec_le(bytes, at, width)
    }
}

/// Number of bytes that a pointer or a size takes on `platform`.
pub open spec fn spec_ptr_width(platform: IG_CORE_PLATFORM) -> nat {
    if spec_is_64bit(platform) {
        8
    } else {
        4
    }
}

/// Position of the first zero byte at or after `at`, or `bytes.len()` when
/// there is none.
pub open spec fn spec_terminator(bytes: Seq<u8>, at: int) -> int
    decreases bytes.len() - at,
{
    if at < 0 || at >= bytes.len() {
        bytes.len() as int
    } else if bytes[at] == 0 {
        at
    } else {
        spec_terminator(bytes, at + 1)
    }
}

/// The text that the bytes `[from, to)` spell, one character per byte.
pub open spec fn spec_text(bytes: Seq<u8>, from: int, to: int) -> Seq<char> {
    Seq::new((to - from) as nat, |i: int| bytes[from + i] as char)
}

/// A value of `width` bytes is below `256^width`.
pub proof fn lemma_uint_bound(bytes: Seq<u8>, at: int, width: nat, endian: Endian)
    ensures
        width == 1 ==> spec_uint(bytes, at, width, endian) < 0x100,
        width == 2 ==> spec_uint(bytes, at, width, endian) < 0x1_0000,
        width == 4 ==> spec_uint(bytes, at, width, endian) < 0x1_0000_0000,
        width == 8 ==> spec_uint(bytes, at, width, endian) < 0x1_0000_0000_0000_0000,
{
    reveal_with_fuel(spec_le, 9);
    reveal_with_fuel(spec_be, 9);
}

/// The terminator lies between the start and the end, no zero byte comes
/// before it, and it is a zero byte unless it is the end.
pub proof fn lemma_terminator(bytes: Seq<u8>, at: int)
    requires
        0 <= at <= bytes.len(),
    ensures
        at <= spec_terminator(bytes, at) <= bytes.len(),
        spec_terminator(bytes, at) < bytes.len() ==> bytes[spec_terminator(bytes, at)] == 0,
        forall|j: int| at <= j < spec_terminator(bytes, at) ==> bytes[j] != 0,
    decreases bytes.len() - at,
{
    if at < bytes.len() && bytes[at] != 0 {
        lemma_terminator(bytes, at + 1);
    }
}

impl ByteCursor {
    /// A cursor at the start of `data`.
    pub fn new(data: Vec<u8>) -> (cursor: ByteCursor)
        ensures
            cursor.data == data,
            cursor.position == 0,
    {
        ByteCursor { data, position: 0 }
    }

    /// The read position.
    pub fn position(&self) -> (pos: u64)
        ensures
            pos == self.position,
    {
        self.position
    }

    /// Moves the read position to `pos`, counted from the start.
    pub fn set_position(&mut self, pos: u64)
        ensures
            final(self).position == pos,
            final(self).data == old(self).data,
    {
        self.position = pos;
    }

    /// Number of bytes in the file.
    pub fn len(&self) -> (n: usize)
        ensures
            n == self.data.len(),
    {
        self.data.len()
    }

    /// Number of bytes between the read position and the end.
    pub open spec fn spec_remaining(&self) -> int {
        if self.position <= self.data.len() {
            self.data.len() - self.position
        } else {
            0
        }
    }

    /// Number of bytes between the read position and the end.
    pub fn remaining(&self) -> (n: usize)
        ensures
            n == self.spec_remaining(),
    {
        if self.position <= self.data.len() as u64 {
            self.data.len() - self.position as usize
        } else {
            0
        }
    }
}

/// Reads one byte.
pub fn read_u8(handle: &mut ByteCursor) -> (r: Result<u8, ReadError>)
    ensures
        final(handle).data == old(handle).data,
        old(handle).spec_remaining() >= 1 ==> r == Ok::<u8, ReadError>(
            old(handle).data[old(handle).position as int],
        ) && final(handle).position == old(handle).position + 1,
        old(handle).spec_remaining() < 1 ==> r == Err::<u8, ReadError>(ReadError::UnexpectedEof)
            && final(handle).position == old(handle).position,
{
    if handle.remaining() < 1 {
        return Err(ReadError::UnexpectedEof);
    }
    let b = handle.data[handle.position as usize];
    handle.position = handle.position + 1;
    Ok(b)
}

/// Reads a two-byte unsigned integer.
pub fn read_u16(handle: &mut ByteCursor, endian: Endian) -> (r: Result<u16, ReadError>)
    ensures
        final(handle).data == old(handle).data,
        old(handle).spec_remaining() >= 2 ==> r == Ok::<u16, ReadError>(
            spec_uint(old(handle).data@, old(handle).position as int, 2, endian) as u16,
        ) && final(handle).position == old(handle).position + 2,
        old(handle).spec_remaining() < 2 ==> r == Err::<u16, ReadError>(ReadError::UnexpectedEof)
            && final(handle).position == old(handle).position,
{
    if handle.remaining() < 2 {
        return Err(ReadError::UnexpectedEof);
    }
    let at: usize = handle.position as usize;
    let b0: u16 = handle.data[at] as u16;
    let b1: u16 = handle.data[at + 1] as u16;
    proof {
        reveal_with_fuel(spec_le, 3);
        reveal_with_fuel(spec_be, 3);
    }
    handle.position = handle.position + 2;
    match endian {
        Endian::Big => Ok(b0 * 256 + b1),
        _ => Ok(b0 + b1 * 256),
    }
}

/// Reads a four-byte unsigned integer.
pub fn read_u32(handle: &mut ByteCursor, endian: Endian) -> (r: Result<u32, ReadError>)
    ensures
        final(handle).data == old(handle).data,
        old(handle).spec_remaining() >= 4 ==> r == Ok::<u32, ReadError>(
            spec_uint(old(handle).data@, old(handle).position as int, 4, endian) as u32,
        ) && final(handle).position == old(handle).position + 4,
        old(handle).spec_remaining() < 4 ==> r == Err::<u32, ReadError>(ReadError::UnexpectedEof)
            && final(handle).position == old(handle).position,
{
    if handle.remaining() < 4 {
        return Err(ReadError::UnexpectedEof);
    }
    let at: usize = handle.position as usize;
    let b0: u32 = handle.data[at] as u32;
    let b1: u32 = handle.data[at + 1] as u32;
    let b2: u32 = handle.data[at + 2] as u32;
    let b3: u32 = handle.data[at + 3] as u32;
    proof {
        reveal_with_fuel(spec_le, 5);
        reveal_with_fuel(spec_be, 5);
    }
    handle.position = handle.position + 4;
    match endian {
        Endian::Big => Ok(((b0 * 256 + b1) * 256 + b2) * 256 + b3),
        _ => Ok(b0 + 256 * (b1 + 256 * (b2 + 256 * b3))),
    }
}

/// Reads an eight-byte unsigned integer.
pub fn read_u64(handle: &mut ByteCursor, endian: Endian) -> (r: Result<u64, ReadError>)
    ensures
        final(handle).data == old(handle).data,
        old(handle).spec_remaining() >= 8 ==> r == Ok::<u64, ReadError>(
            spec_uint(old(handle).data@, old(handle).position as int, 8, endian) as u64,
        ) && final(handle).position == old(handle).position + 8,
        old(handle).spec_remaining() < 8 ==> r == Err::<u64, ReadError>(ReadError::UnexpectedEof)
            && final(handle).position == old(handle).position,
{
    if handle.remaining() < 8 {
        return Err(ReadError::UnexpectedEof);
    }
    let at: usize = handle.position as usize;
    let b0: u64 = handle.data[at] as u64;
    let b1: u64 = handle.data[at + 1] as u64;
    let b2: u64 = handle.data[at + 2] as u64;
    let b3: u64 = handle.data[at + 3] as u64;
    let b4: u64 = handle.data[at + 4] as u64;
    let b5: u64 = handle.data[at + 5] as u64;
    let b6: u64 = handle.data[at + 6] as u64;
    let b7: u64 = handle.data[at + 7] as u64;
    proof {
        reveal_with_fuel(spec_le, 9);
        reveal_with_fuel(spec_be, 9);
    }
    handle.position = handle.position + 8;
    match endian {
        Endian::Big => Ok(
            ((((((b0 * 256 + b1) * 256 + b2) * 256 + b3) * 256 + b4) * 256 + b5) * 256 + b6) * 256
                + b7,
        ),
        _ => Ok(
            b0 + 256 * (b1 + 256 * (b2 + 256 * (b3 + 256 * (b4 + 256 * (b5 + 256 * (b6 + 256
                * b7)))))),
        ),
    }
}

/// Reads a pointer or a size: eight bytes on a 64-bit platform, four
/// otherwise.
pub fn read_ptr(handle: &mut ByteCursor, platform: IG_CORE_PLATFORM, endian: Endian) -> (r: Result<
    u64,
    ReadError,
>)
    ensures
        final(handle).data == old(handle).data,
        old(handle).spec_remaining() >= spec_ptr_width(platform) ==> r == Ok::<u64, ReadError>(
            spec_uint(
                old(handle).data@,
                old(handle).position as int,
                spec_ptr_width(platform),
                endian,
            ) as u64,
        ) && final(handle).position == old(handle).position + spec_ptr_width(platform),
        old(handle).spec_remaining() < spec_ptr_width(platform) ==> r == Err::<u64, ReadError>(
            ReadError::UnexpectedEof,
        ) && final(handle).position == old(handle).position,
{
    if is_64bit(platform) {
        read_u64(handle, endian)
    } else {
        proof {
            lemma_uint_bound(handle.data@, handle.position as int, 4, endian);
        }
        match read_u32(handle, endian) {
            Ok(v) => Ok(v as u64),
            Err(e) => Err(e),
        }
    }
}

/// Reads a zero-terminated string, one character per byte, and leaves the
/// cursor behind the terminator.
pub fn read_string(handle: &mut ByteCursor) -> (r: Result<String, ReadError>)
    ensures
        final(handle).data == old(handle).data,
        match r {
            Ok(s) => {
                &&& old(handle).position < old(handle).data.len()
                &&& spec_terminator(
                    old(handle).data@,
                    old(handle).position as int,
                ) < old(handle).data.len()
                &&& s@ == spec_text(
                    old(handle).data@,
                    old(handle).position as int,
                    spec_terminator(old(handle).data@, old(handle).position as int),
                )
                &&& final(handle).position == spec_terminator(
                    old(handle).data@,
                    old(handle).position as int,
                ) + 1
            },
            Err(e) => {
                &&& e == ReadError::MissingTerminator
                &&& final(handle).position == old(handle).position
                &&& (old(handle).position >= old(handle).data.len() || spec_terminator(
                    old(handle).data@,
                    old(handle).position as int,
                ) == old(handle).data.len())
            },
        },
{
    if handle.remaining() < 1 {
        return Err(ReadError::MissingTerminator);
    }
    let start: usize = handle.position as usize;
    let mut s = String::new();
    let mut i: usize = start;
    while i < handle.data.len()
        invariant
            *handle == *old(handle),
            start == handle.position,
            start <= i <= handle.data.len(),
            spec_terminator(handle.data@, start as int) == spec_terminator(handle.data@, i as int),
            s@ == spec_text(handle.data@, start as int, i as int),
        decreases handle.data.len() - i,
    {
        let b = handle.data[i];
        if b == 0 {
            handle.position = (i + 1) as u64;
            return Ok(s);
        }
        crate::util::text::push_char(&mut s, b as char);
        assert(spec_text(handle.data@, start as int, i + 1) =~= spec_text(
            handle.data@,
            start as int,
            i as int,
        ).push(b as char));
        i = i + 1;
    }
    Err(ReadError::MissingTerminator)
}

/// Reads `len` bytes.
pub fn read_struct_array_u8(handle: &mut ByteCursor, endian: Endian, len: usize) -> (r: Result<
    Vec<u8>,
    ReadError,
>)
    ensures
        final(handle).data == old(handle).data,
        match r {
            Ok(bytes) => {
                &&& old(handle).position + len <= old(handle).data.len()
                &&& bytes@ == old(handle).data@.subrange(
                    old(handle).position as int,
                    old(handle).position + len,
                )
                &&& final(handle).position == old(handle).position + len
            },
            Err(e) => {
                &&& e == ReadError::UnexpectedEof
                &&& old(handle).position + len > old(handle).data.len()
                &&& final(handle).position == old(handle).position
            },
        },
{
    if handle.position > handle.data.len() as u64 || handle.remaining() < len {
        return Err(ReadError::UnexpectedEof);
    }
    let start: usize = handle.position as usize;
    let mut out: Vec<u8> = Vec::new();
    let mut i: usize = 0;
    while i < len
        invariant
            *handle == *old(handle),
            start == handle.position,
            start + len <= handle.data.len(),
            i <= len,
            out@ == handle.data@.subrange(start as int, start + i),
        decreases len - i,
    {
        out.push(handle.data[start + i]);
        i = i + 1;
        assert(handle.data@.subrange(start as int, start + i) =~= handle.data@.subrange(
            start as int,
            start + i - 1,
        ).push(handle.data@[start + i - 1]));
    }
    handle.position = (start + len) as u64;
    Ok(out)
}

} // verus!
