//! Bounds-checked access to a guest's linear memory.
//!
//! Offsets and lengths come from guest code and are never trusted: every
//! access first checks the region against the size of the memory and yields
//! either the bytes or a failure. A frame without memory is passed as `None`.

use crate::error::RuntimeError;
use vstd::prelude::*;
use vstd::slice::slice_subrange;
use vstd::utf8::{decode_utf8, valid_utf8};

verus! {

/// Whether `length` bytes starting at `offset` lie inside a memory of `size`
/// bytes.
pub open spec fn in_bounds(size: nat, offset: u32, length: u32) -> bool {
    offset + length <= size
}

/// The bytes of the region `[offset, offset + length)`.
pub open spec fn region(memory: Seq<u8>, offset: u32, length: u32) -> Seq<u8>
    recommends
        in_bounds(memory.len(), offset, length),
{
    memory.subrange(offset as int, offset + length)
}

/// Whether a region can be read: memory is attached and the region lies
/// inside it.
pub open spec fn readable(memory: Option<Seq<u8>>, offset: u32, length: u32) -> bool {
    match memory {
        Some(bytes) => in_bounds(bytes.len(), offset, length),
        None => false,
    }
}

/// What reading a region as bytes yields.
pub open spec fn read_bytes_spec(memory: Option<Seq<u8>>, offset: u32, length: u32) -> Result<
    Seq<u8>,
    RuntimeError,
> {
    if readable(memory, offset, length) {
        Ok(region(memory->0, offset, length))
    } else {
        Err(RuntimeError::MemoryNotFound)
    }
}

/// What reading a region as text yields.
pub open spec fn read_text_spec(memory: Option<Seq<u8>>, offset: u32, length: u32) -> Result<
    Seq<char>,
    RuntimeError,
> {
    match read_bytes_spec(memory, offset, length) {
        Ok(bytes) => if valid_utf8(bytes) {
            Ok(decode_utf8(bytes))
        } else {
            Err(RuntimeError::Utf8Error)
        },
        Err(error) => Err(error),
    }
}

/// The contents of a memory after `data` has been copied to address `at`.
pub open spec fn written(memory: Seq<u8>, at: int, data: Seq<u8>) -> Seq<u8>
    recommends
        0 <= at,
        at + data.len() <= memory.len(),
{
    memory.subrange(0, at) + data + memory.subrange(at + data.len(), memory.len() as int)
}

/// Whether `length` bytes can be stored at address `at`: they must fit the
/// memory, and the address just past them must still be a 32-bit address.
pub open spec fn writable(size: nat, at: u32, length: nat) -> bool {
    at + length <= size && at + length <= u32::MAX
}

/// The view of an optional memory.
pub open spec fn contents(memory: Option<&[u8]>) -> Option<Seq<u8>> {
    match memory {
        Some(bytes) => Some(bytes@),
        None => None,
    }
}

/// `core::str::from_utf8`: the bytes as text when they are well-formed
/// UTF-8, and nothing otherwise. The text has exactly the characters that the
/// bytes encode.
#[verifier::external_body]
pub(crate) fn utf8_text<'a>(bytes: &'a [u8]) -> (text: Option<&'a str>)
    ensures
        text is Some <==> valid_utf8(bytes@),
        text matches Some(s) ==> s@ == decode_utf8(bytes@),
{
    core::str::from_utf8(bytes).ok()
}

/// Tells whether a region lies inside a memory of `size` bytes.
pub fn check_bounds(size: usize, offset: u32, length: u32) -> (inside: bool)
    ensures
        inside == in_bounds(size as nat, offset, length),
{
    let end: u64 = offset as u64 + length as u64;
    end <= size as u64
}

/// Borrows the bytes of a region of guest memory.
pub fn read_bytes<'a>(memory: Option<&'a [u8]>, offset: u32, length: u32) -> (result: Result<
    &'a [u8],
    RuntimeError,
>)
    ensures
        match result {
            Ok(bytes) => read_bytes_spec(contents(memory), offset, length) == Ok::<
                Seq<u8>,
                RuntimeError,
            >(bytes@),
            Err(error) => read_bytes_spec(contents(memory), offset, length) == Err::<
                Seq<u8>,
                RuntimeError,
            >(error),
        },
{
    match memory {
        Some(bytes) => {
            if check_bounds(bytes.len(), offset, length) {
                let start: usize = offset as usize;
                let end: usize = start + length as usize;
                Ok(slice_subrange(bytes, start, end))
            } else {
                Err(RuntimeError::MemoryNotFound)
            }
        },
        None => Err(RuntimeError::MemoryNotFound),
    }
}

/// Borrows a region of guest memory as text.
pub fn read_text<'a>(memory: Option<&'a [u8]>, offset: u32, length: u32) -> (result: Result<
    &'a str,
    RuntimeError,
>)
    ensures
        match result {
            Ok(text) => read_text_spec(contents(memory), offset, length) == Ok::<
                Seq<char>,
                RuntimeError,
            >(text@),
            Err(error) => read_text_spec(contents(memory), offset, length) == Err::<
                Seq<char>,
                RuntimeError,
            >(error),
        },
{
    match read_bytes(memory, offset, length) {
        Ok(bytes) => match utf8_text(bytes) {
            Some(text) => Ok(text),
            None => Err(RuntimeError::Utf8Error),
        },
        Err(error) => Err(error),
    }
}

/// Tells whether `length` bytes can be stored at address `at` of a memory of
/// `size` bytes.
pub fn check_writable(size: usize, at: u32, length: usize) -> (fits: bool)
    ensures
        fits == writable(size as nat, at, length as nat),
{
    length <= size && at as u64 <= (size - length) as u64 && length as u64 <= (u32::MAX - at) as u64
}

/// Stores `data` at address `at` of guest memory and reports where it went.
///
/// On success the answer is `(0, at, data.len())` and the memory holds `data`
/// at `at`, every other byte unchanged. When the bytes do not fit, the answer
/// is the `MemoryNotFound` sentinel with zero offset and length, and the
/// memory is untouched.
pub fn write_memory(memory: &mut [u8], at: u32, data: &[u8]) -> (answer: (i32, u32, u32))
    ensures
        final(memory)@.len() == old(memory)@.len(),
        writable(old(memory)@.len(), at, data@.len()) ==> {
            &&& answer == (0i32, at, data@.len() as u32)
            &&& final(memory)@ == written(old(memory)@, at as int, data@)
        },
        !writable(old(memory)@.len(), at, data@.len()) ==> {
            &&& answer == (RuntimeError::MemoryNotFound.code(), 0u32, 0u32)
            &&& final(memory)@ == old(memory)@
        },
{
    let size: usize = memory.len();
    if !check_writable(size, at, data.len()) {
        return (RuntimeError::MemoryNotFound.as_i32(), 0, 0);
    }
    let base: usize = at as usize;
    let mut i: usize = 0;
    while i < data.len()
        invariant
            i <= data@.len(),
            size == memory@.len(),
            size == old(memory)@.len(),
            base == at,
            base + data@.len() <= size,
            forall|k: int|
                0 <= k < size ==> memory@[k] == (if base <= k < base + i {
                    data@[k - base]
                } else {
                    old(memory)@[k]
                }),
        decreases data@.len() - i,
    {
        memory[base + i] = data[i];
        i += 1;
    }
    assert(memory@ =~= written(old(memory)@, at as int, data@));
    (0, at, data.len() as u32)
}

/// Reading back what was just written returns it.
pub proof fn lemma_written_region(memory: Seq<u8>, at: u32, data: Seq<u8>)
    requires
        writable(memory.len(), at, data.len()),
    ensures
        written(memory, at as int, data).len() == memory.len(),
        region(written(memory, at as int, data), at, data.len() as u32) == data,
{
    assert(region(written(memory, at as int, data), at, data.len() as u32) =~= data);
}

/// Writing changes no byte outside the written region.
pub proof fn lemma_written_elsewhere(memory: Seq<u8>, at: u32, data: Seq<u8>, k: int)
    requires
        writable(memory.len(), at, data.len()),
        0 <= k < memory.len(),
        k < at || k >= at + data.len(),
    ensures
        written(memory, at as int, data)[k] == memory[k],
{
}

} // verus!
