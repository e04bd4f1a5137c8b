//! Three imports with which an embedding can be exercised.
//!
//! Each stands for one direction of the boundary: a value passed in, a value
//! passed out, and a region of guest memory read by the host. They expect
//! fixed values, so a guest that calls them shows whether its embedding
//! carries values across unharmed.

use crate::bytes::same_text;
use crate::memory::{contents, read_text, read_text_spec};
use crate::error::RuntimeError;
use vstd::prelude::*;

verus! {

/// The value that the probes pass in and out.
pub const PROBE_VALUE: u32 = 42;

/// `TestSetValue`: takes the probe value from the guest. Any other value
/// means that the embedding is broken, and may not be passed.
pub fn test_set_value(value: u32)
    requires
        value == PROBE_VALUE,
{
}

/// `TestGetValue`: hands the probe value to the guest.
pub fn test_get_value() -> (value: u32)
    ensures
        value == PROBE_VALUE,
{
    PROBE_VALUE
}

/// `TestMemory`: reads a region of guest memory that holds the text `Hi`.
/// A frame without memory, a region outside it, or any other content means
/// that the embedding is broken, and may not be passed.
pub fn test_memory(memory: Option<&[u8]>, offset: u32, length: u32)
    requires
        read_text_spec(contents(memory), offset, length) == Ok::<Seq<char>, RuntimeError>("Hi"@),
{
    match read_text(memory, offset, length) {
        Ok(result) => {
            let same = same_text("Hi", result);
            assert(same);
        },
        Err(_) => {},
    }
}

} // verus!
