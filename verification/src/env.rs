//! The functions that guest code imports.
//!
//! Each takes the guest's linear memory, borrowed for this one call, and the
//! execution context of the running frame. None of them can fail the host:
//! whatever the guest passes, the answer is a status for the guest to branch
//! on. Status `0` is success and anything else is the sentinel of a
//! [`RuntimeError`].
//!
//! A function that produces bytes stores them in guest memory at the heap
//! base and answers `(0, offset, length)`; the heap base then moves past what
//! was stored. On failure the answer is `(sentinel, 0, 0)` and neither memory
//! nor heap base changes.

use crate::bytes;
use crate::codec;
use crate::context::{ContextState, ExecutionContext};
use crate::data_entry::{DataEntry, EntryValue};
use crate::error::{lemma_code_is_negative, RuntimeError};
use crate::memory::{
    contents, in_bounds, lemma_written_region, read_bytes, read_bytes_spec, read_text_spec,
    readable, region, utf8_text, writable, write_memory, written,
};
use crate::payments::{amount_of, declared, distinct, lemma_declarations_accumulate};
use crate::stack::{CallStack, StackState};
use vstd::prelude::*;
use vstd::utf8::{decode_utf8_encode_utf8, valid_utf8};

verus! {

/// What a function that produces bytes leaves behind.
pub ghost struct Output {
    /// The answer to the guest: status, offset, length.
    pub answer: (i32, u32, u32),
    /// The guest memory afterwards.
    pub memory: Seq<u8>,
    /// The heap base afterwards.
    pub heap_base: u32,
}

/// The outcome of a failure: its sentinel, and nothing changed.
pub open spec fn failed(memory: Seq<u8>, heap_base: u32, error: RuntimeError) -> Output {
    Output { answer: (error.code(), 0u32, 0u32), memory, heap_base }
}

/// The outcome of storing `data` at the heap base.
pub open spec fn produced(memory: Seq<u8>, heap_base: u32, data: Seq<u8>) -> Output {
    if writable(memory.len(), heap_base, data.len()) {
        Output {
            answer: (0i32, heap_base, data.len() as u32),
            memory: written(memory, heap_base as int, data),
            heap_base: (heap_base + data.len()) as u32,
        }
    } else {
        failed(memory, heap_base, RuntimeError::MemoryNotFound)
    }
}

/// The outcome of a computation that yields bytes or fails.
pub open spec fn answered(memory: Seq<u8>, heap_base: u32, value: Result<Seq<u8>, RuntimeError>)
    -> Output {
    match value {
        Ok(data) => produced(memory, heap_base, data),
        Err(error) => failed(memory, heap_base, error),
    }
}

/// Whether `ctx` went from `before` to the state that `output` describes,
/// its staged arguments and payments untouched.
pub open spec fn moved_heap(before: ContextState, after: ContextState, output: Output) -> bool {
    after == (ContextState { heap_base: output.heap_base, ..before })
}

/// Stores a produced value at the heap base and moves the heap base past it.
pub fn write_result(memory: &mut [u8], ctx: &mut ExecutionContext, data: &[u8]) -> (answer: (
    i32,
    u32,
    u32,
))
    ensures
        answer == produced(old(memory)@, old(ctx)@.heap_base, data@).answer,
        final(memory)@ == produced(old(memory)@, old(ctx)@.heap_base, data@).memory,
        moved_heap(old(ctx)@, final(ctx)@, produced(old(memory)@, old(ctx)@.heap_base, data@)),
{
    let base: u32 = ctx.heap_base();
    let answer = write_memory(memory, base, data);
    if answer.0 == 0 {
        ctx.set_heap_base(base + answer.2);
    }
    answer
}

/// Answers a failure.
pub fn fail(error: RuntimeError) -> (answer: (i32, u32, u32))
    ensures
        answer == (error.code(), 0u32, 0u32),
{
    (error.as_i32(), 0, 0)
}

/// `CallArgInt`: stages an integer argument for the next call.
pub fn call_arg_int(ctx: &mut ExecutionContext, value: i64)
    ensures
        final(ctx)@ == (ContextState {
            args: old(ctx)@.args.push(EntryValue::Integer(value)),
            ..old(ctx)@
        }),
{
    ctx.push_arg(DataEntry::Integer(value));
}

/// `CallArgBool`: stages a boolean argument for the next call.
pub fn call_arg_bool(ctx: &mut ExecutionContext, value: i32)
    ensures
        final(ctx)@ == (ContextState {
            args: old(ctx)@.args.push(EntryValue::Boolean(value)),
            ..old(ctx)@
        }),
{
    ctx.push_arg(DataEntry::Boolean(value));
}

/// What `CallArgBinary` does to a context and answers.
pub open spec fn call_arg_binary_spec(
    memory: Option<Seq<u8>>,
    before: ContextState,
    offset_value: u32,
    length_value: u32,
) -> (i32, ContextState) {
    match read_bytes_spec(memory, offset_value, length_value) {
        Ok(bytes) => (
            0i32,
            ContextState { args: before.args.push(EntryValue::Binary(bytes)), ..before },
        ),
        Err(error) => (error.code(), before),
    }
}

/// `CallArgBinary`: stages the bytes of a memory region as a binary
/// argument.
///
/// Appends exactly one entry holding the bytes of the region and answers
/// `0`. Without memory, or where the region leaves it, answers
/// `MemoryNotFound` and appends nothing.
pub fn call_arg_binary(
    memory: Option<&[u8]>,
    ctx: &mut ExecutionContext,
    offset_value: u32,
    length_value: u32,
) -> (status: i32)
    ensures
        (status, final(ctx)@) == call_arg_binary_spec(
            contents(memory),
            old(ctx)@,
            offset_value,
            length_value,
        ),
{
    match read_bytes(memory, offset_value, length_value) {
        Ok(value) => {
            ctx.push_arg(DataEntry::Binary(bytes::to_vec(value)));
            0
        },
        Err(error) => error.as_i32(),
    }
}

/// What `CallArgString` does to a context and answers.
pub open spec fn call_arg_string_spec(
    memory: Option<Seq<u8>>,
    before: ContextState,
    offset_value: u32,
    length_value: u32,
) -> (i32, ContextState) {
    match read_bytes_spec(memory, offset_value, length_value) {
        Ok(bytes) => if valid_utf8(bytes) {
            (0i32, ContextState { args: before.args.push(EntryValue::String(bytes)), ..before })
        } else {
            (RuntimeError::Utf8Error.code(), before)
        },
        Err(error) => (error.code(), before),
    }
}

/// `CallArgString`: stages the text of a memory region as a string
/// argument.
///
/// Appends exactly one entry holding the bytes of the region and answers
/// `0`. Without memory, or where the region leaves it, answers
/// `MemoryNotFound`; where the bytes are not well-formed UTF-8, answers
/// `Utf8Error`. Either way nothing is appended.
pub fn call_arg_string(
    memory: Option<&[u8]>,
    ctx: &mut ExecutionContext,
    offset_value: u32,
    length_value: u32,
) -> (status: i32)
    ensures
        (status, final(ctx)@) == call_arg_string_spec(
            contents(memory),
            old(ctx)@,
            offset_value,
            length_value,
        ),
{
    match read_bytes(memory, offset_value, length_value) {
        Ok(value) => {
            if utf8_text(value).is_some() {
                ctx.push_arg(DataEntry::String(bytes::to_vec(value)));
                0
            } else {
                RuntimeError::Utf8Error.as_i32()
            }
        },
        Err(error) => error.as_i32(),
    }
}

/// What `CallPayment` does to a context and answers.
pub open spec fn call_payment_spec(
    memory: Option<Seq<u8>>,
    before: ContextState,
    offset_asset_id: u32,
    length_asset_id: u32,
    amount: i64,
) -> (i32, ContextState) {
    match read_bytes_spec(memory, offset_asset_id, length_asset_id) {
        Ok(asset) => (
            0i32,
            ContextState { payments: declared(before.payments, asset, amount), ..before },
        ),
        Err(error) => (error.code(), before),
    }
}

/// `CallPayment`: declares a payment to go with the next call.
///
/// The asset identifier is read from memory. The amount is added to what is
/// already declared for that asset.
pub fn call_payment(
    memory: Option<&[u8]>,
    ctx: &mut ExecutionContext,
    offset_asset_id: u32,
    length_asset_id: u32,
    amount: i64,
) -> (status: i32)
    ensures
        (status, final(ctx)@) == call_payment_spec(
            contents(memory),
            old(ctx)@,
            offset_asset_id,
            length_asset_id,
            amount,
        ),
{
    match read_bytes(memory, offset_asset_id, length_asset_id) {
        Ok(asset_id) => {
            ctx.add_payment(asset_id, amount);
            0
        },
        Err(error) => error.as_i32(),
    }
}

/// What `Base58` leaves behind in a frame with memory.
pub open spec fn base58_spec(memory: Seq<u8>, heap_base: u32, offset_bytes: u32, length_bytes: u32)
    -> Output {
    answered(
        memory,
        heap_base,
        match read_bytes_spec(Some(memory), offset_bytes, length_bytes) {
            Ok(text) => codec::from_base58_spec(text),
            Err(error) => Err(error),
        },
    )
}

/// `Base58`: decodes the base58 text of a memory region and stores the
/// bytes it stands for.
///
/// Answers `MemoryNotFound` without memory or where a region leaves it, and
/// `Base58Error` where the region does not hold base58 text, bytes that are
/// not well-formed UTF-8 included.
pub fn base58(
    offset_bytes: u32,
    length_bytes: u32,
    memory: Option<&mut [u8]>,
    ctx: &mut ExecutionContext,
) -> (answer: (i32, u32, u32))
    ensures
        match memory {
            Some(bytes) => {
                let output = base58_spec(bytes@, old(ctx)@.heap_base, offset_bytes, length_bytes);
                &&& answer == output.answer
                &&& final(bytes)@ == output.memory
                &&& moved_heap(old(ctx)@, final(ctx)@, output)
                &&& in_bounds(bytes@.len(), offset_bytes, length_bytes) && !codec::is_base58(
                    region(bytes@, offset_bytes, length_bytes),
                ) ==> answer == (RuntimeError::Base58Error.code(), 0u32, 0u32)
            },
            None => answer == (RuntimeError::MemoryNotFound.code(), 0u32, 0u32) && final(ctx)@
                == old(ctx)@,
        },
{
    match memory {
        Some(bytes) => {
            let decoded = match read_bytes(Some(&*bytes), offset_bytes, length_bytes) {
                Ok(text) => codec::from_base58(text),
                Err(error) => Err(error),
            };
            match decoded {
                Ok(result) => write_result(bytes, ctx, result.as_slice()),
                Err(error) => fail(error),
            }
        },
        None => fail(RuntimeError::MemoryNotFound),
    }
}

/// What `ToBase58String` leaves behind in a frame with memory.
pub open spec fn to_base58_string_spec(
    memory: Seq<u8>,
    heap_base: u32,
    offset_bytes: u32,
    length_bytes: u32,
) -> Output {
    answered(
        memory,
        heap_base,
        match read_bytes_spec(Some(memory), offset_bytes, length_bytes) {
            Ok(bytes) => if codec::encodable(bytes.len()) {
                Ok(codec::to_base58_spec(bytes))
            } else {
                Err(RuntimeError::MemoryNotFound)
            },
            Err(error) => Err(error),
        },
    )
}

/// `ToBase58String`: encodes the bytes of a memory region as base58 text
/// and stores the text.
///
/// Answers `MemoryNotFound` without memory, where a region leaves it, or
/// where the region is too long for the encoder on this machine. The text
/// that is stored is made of the 58 digits only and begins with one `1` for
/// each zero byte that the region begins with.
pub fn to_base58_string(
    offset_bytes: u32,
    length_bytes: u32,
    memory: Option<&mut [u8]>,
    ctx: &mut ExecutionContext,
) -> (answer: (i32, u32, u32))
    ensures
        match memory {
            Some(bytes) => {
                let output = to_base58_string_spec(
                    bytes@,
                    old(ctx)@.heap_base,
                    offset_bytes,
                    length_bytes,
                );
                &&& answer == output.answer
                &&& final(bytes)@ == output.memory
                &&& moved_heap(old(ctx)@, final(ctx)@, output)
                &&& answer.0 == 0 ==> {
                    let text = final(bytes)@.subrange(answer.1 as int, answer.1 + answer.2);
                    &&& codec::is_base58(text)
                    &&& codec::leading_ones(text) == codec::leading_zeros(
                        region(bytes@, offset_bytes, length_bytes),
                    )
                }
            },
            None => answer == (RuntimeError::MemoryNotFound.code(), 0u32, 0u32) && final(ctx)@
                == old(ctx)@,
        },
{
    match memory {
        Some(bytes) => {
            let encoded = match read_bytes(Some(&*bytes), offset_bytes, length_bytes) {
                Ok(value) => {
                    if value.len() <= usize::MAX / 138 {
                        Ok(codec::to_base58(value))
                    } else {
                        Err(RuntimeError::MemoryNotFound)
                    }
                },
                Err(error) => Err(error),
            };
            match encoded {
                Ok(result) => {
                    proof {
                        if writable(bytes@.len(), ctx@.heap_base, result@.len()) {
                            lemma_written_region(bytes@, ctx@.heap_base, result@);
                        } else {
                            lemma_code_is_negative(RuntimeError::MemoryNotFound);
                        }
                    }
                    write_result(bytes, ctx, result.as_slice())
                },
                Err(error) => {
                    proof {
                        lemma_code_is_negative(error);
                    }
                    fail(error)
                },
            }
        },
        None => fail(RuntimeError::MemoryNotFound),
    }
}

/// What `ToLeBytes` leaves behind in a frame with memory.
pub open spec fn to_le_bytes_spec(
    memory: Seq<u8>,
    heap_base: u32,
    offset_bytes: u32,
    length_bytes: u32,
) -> Output {
    answered(
        memory,
        heap_base,
        match read_bytes_spec(Some(memory), offset_bytes, length_bytes) {
            Ok(bytes) => Ok(bytes.reverse()),
            Err(error) => Err(error),
        },
    )
}

/// `ToLeBytes`: stores the bytes of a memory region in the opposite order,
/// which turns a big-endian number into a little-endian one.
pub fn to_le_bytes(
    offset_bytes: u32,
    length_bytes: u32,
    memory: Option<&mut [u8]>,
    ctx: &mut ExecutionContext,
) -> (answer: (i32, u32, u32))
    ensures
        match memory {
            Some(bytes) => {
                let output = to_le_bytes_spec(
                    bytes@,
                    old(ctx)@.heap_base,
                    offset_bytes,
                    length_bytes,
                );
                &&& answer == output.answer
                &&& final(bytes)@ == output.memory
                &&& moved_heap(old(ctx)@, final(ctx)@, output)
            },
            None => answer == (RuntimeError::MemoryNotFound.code(), 0u32, 0u32) && final(ctx)@
                == old(ctx)@,
        },
{
    match memory {
        Some(bytes) => {
            let turned = match read_bytes(Some(&*bytes), offset_bytes, length_bytes) {
                Ok(value) => Ok(bytes::reversed(value)),
                Err(error) => Err(error),
            };
            match turned {
                Ok(result) => write_result(bytes, ctx, result.as_slice()),
                Err(error) => fail(error),
            }
        },
        None => fail(RuntimeError::MemoryNotFound),
    }
}

/// What `Concat` leaves behind in a frame with memory.
pub open spec fn concat_spec(
    memory: Seq<u8>,
    heap_base: u32,
    offset_left: u32,
    length_left: u32,
    offset_right: u32,
    length_right: u32,
) -> Output {
    answered(
        memory,
        heap_base,
        match read_bytes_spec(Some(memory), offset_left, length_left) {
            Ok(left) => match read_bytes_spec(Some(memory), offset_right, length_right) {
                Ok(right) => Ok(left + right),
                Err(error) => Err(error),
            },
            Err(error) => Err(error),
        },
    )
}

/// `Concat`: stores the bytes of the left region followed by the bytes of
/// the right region.
pub fn concat(
    offset_left: u32,
    length_left: u32,
    offset_right: u32,
    length_right: u32,
    memory: Option<&mut [u8]>,
    ctx: &mut ExecutionContext,
) -> (answer: (i32, u32, u32))
    ensures
        match memory {
            Some(bytes) => {
                let output = concat_spec(
                    bytes@,
                    old(ctx)@.heap_base,
                    offset_left,
                    length_left,
                    offset_right,
                    length_right,
                );
                &&& answer == output.answer
                &&& final(bytes)@ == output.memory
                &&& moved_heap(old(ctx)@, final(ctx)@, output)
            },
            None => answer == (RuntimeError::MemoryNotFound.code(), 0u32, 0u32) && final(ctx)@
                == old(ctx)@,
        },
{
    match memory {
        Some(bytes) => {
            let joined = match read_bytes(Some(&*bytes), offset_left, length_left) {
                Ok(left) => match read_bytes(Some(&*bytes), offset_right, length_right) {
                    Ok(right) => Ok(bytes::concat(left, right)),
                    Err(error) => Err(error),
                },
                Err(error) => Err(error),
            };
            match joined {
                Ok(result) => write_result(bytes, ctx, result.as_slice()),
                Err(error) => fail(error),
            }
        },
        None => fail(RuntimeError::MemoryNotFound),
    }
}

/// The answer of a comparison: status and, on success, `1` for equal and
/// `0` for different.
pub open spec fn compared(outcome: Result<bool, RuntimeError>) -> (i32, i32) {
    match outcome {
        Ok(same) => (0i32, if same { 1i32 } else { 0i32 }),
        Err(error) => (error.code(), 0i32),
    }
}

/// What `BytesEquals` answers.
pub open spec fn bytes_equals_spec(
    memory: Option<Seq<u8>>,
    offset_left: u32,
    length_left: u32,
    offset_right: u32,
    length_right: u32,
) -> (i32, i32) {
    compared(
        match read_bytes_spec(memory, offset_left, length_left) {
            Ok(left) => match read_bytes_spec(memory, offset_right, length_right) {
                Ok(right) => Ok(left == right),
                Err(error) => Err(error),
            },
            Err(error) => Err(error),
        },
    )
}

/// `BytesEquals`: tells whether two memory regions hold the same bytes.
///
/// Regions of different length are different. The only failure is
/// `MemoryNotFound`.
pub fn bytes_equals(
    memory: Option<&[u8]>,
    offset_left: u32,
    length_left: u32,
    offset_right: u32,
    length_right: u32,
) -> (answer: (i32, i32))
    ensures
        answer == bytes_equals_spec(
            contents(memory),
            offset_left,
            length_left,
            offset_right,
            length_right,
        ),
{
    match read_bytes(memory, offset_left, length_left) {
        Ok(left) => match read_bytes(memory, offset_right, length_right) {
            Ok(right) => {
                if bytes::equal(left, right) {
                    (0, 1)
                } else {
                    (0, 0)
                }
            },
            Err(error) => (error.as_i32(), 0),
        },
        Err(error) => (error.as_i32(), 0),
    }
}

/// What `StringEquals` answers.
pub open spec fn string_equals_spec(
    memory: Option<Seq<u8>>,
    offset_left: u32,
    length_left: u32,
    offset_right: u32,
    length_right: u32,
) -> (i32, i32) {
    compared(
        match read_text_spec(memory, offset_left, length_left) {
            Ok(left) => match read_text_spec(memory, offset_right, length_right) {
                Ok(right) => Ok(left == right),
                Err(error) => Err(error),
            },
            Err(error) => Err(error),
        },
    )
}

/// `StringEquals`: tells whether two memory regions hold the same text.
///
/// Fails with `MemoryNotFound` like `BytesEquals`, and with `Utf8Error`
/// where a region is not well-formed UTF-8. The left region is judged
/// first.
pub fn string_equals(
    memory: Option<&[u8]>,
    offset_left: u32,
    length_left: u32,
    offset_right: u32,
    length_right: u32,
) -> (answer: (i32, i32))
    ensures
        answer == string_equals_spec(
            contents(memory),
            offset_left,
            length_left,
            offset_right,
            length_right,
        ),
{
    let left = match read_bytes(memory, offset_left, length_left) {
        Ok(bytes) => bytes,
        Err(error) => {
            return (error.as_i32(), 0);
        },
    };
    if utf8_text(left).is_none() {
        return (RuntimeError::Utf8Error.as_i32(), 0);
    }
    let right = match read_bytes(memory, offset_right, length_right) {
        Ok(bytes) => bytes,
        Err(error) => {
            return (error.as_i32(), 0);
        },
    };
    if utf8_text(right).is_none() {
        return (RuntimeError::Utf8Error.as_i32(), 0);
    }
    proof {
        decode_utf8_encode_utf8(left@);
        decode_utf8_encode_utf8(right@);
    }
    if bytes::equal(left, right) {
        (0, 1)
    } else {
        (0, 0)
    }
}

/// Staging a region as a binary argument appends exactly one entry, which
/// holds the bytes of the region, whenever the region lies inside memory.
/// Otherwise the answer is `MemoryNotFound` and nothing is appended.
pub proof fn lemma_call_arg_binary_appends_region(
    memory: Option<Seq<u8>>,
    before: ContextState,
    offset_value: u32,
    length_value: u32,
)
    ensures
        readable(memory, offset_value, length_value) ==> call_arg_binary_spec(
            memory,
            before,
            offset_value,
            length_value,
        ) == (
            0i32,
            ContextState {
                args: before.args.push(
                    EntryValue::Binary(region(memory->0, offset_value, length_value)),
                ),
                ..before
            },
        ),
        !readable(memory, offset_value, length_value) ==> call_arg_binary_spec(
            memory,
            before,
            offset_value,
            length_value,
        ) == (RuntimeError::MemoryNotFound.code(), before),
{
}

/// Staging a region as a string argument appends exactly one entry, which
/// holds the bytes of the region, whenever the region lies inside memory and
/// is well-formed UTF-8. A region outside memory gives `MemoryNotFound`, and
/// nothing is appended.
pub proof fn lemma_call_arg_string_appends_region(
    memory: Option<Seq<u8>>,
    before: ContextState,
    offset_value: u32,
    length_value: u32,
)
    ensures
        readable(memory, offset_value, length_value) && valid_utf8(
            region(memory->0, offset_value, length_value),
        ) ==> call_arg_string_spec(memory, before, offset_value, length_value) == (
            0i32,
            ContextState {
                args: before.args.push(
                    EntryValue::String(region(memory->0, offset_value, length_value)),
                ),
                ..before
            },
        ),
        !readable(memory, offset_value, length_value) ==> call_arg_string_spec(
            memory,
            before,
            offset_value,
            length_value,
        ) == (RuntimeError::MemoryNotFound.code(), before),
{
}

/// Comparing bytes does not depend on the order of the two regions.
pub proof fn lemma_bytes_equals_symmetric(
    memory: Option<Seq<u8>>,
    offset_a: u32,
    length_a: u32,
    offset_b: u32,
    length_b: u32,
)
    ensures
        bytes_equals_spec(memory, offset_a, length_a, offset_b, length_b) == bytes_equals_spec(
            memory,
            offset_b,
            length_b,
            offset_a,
            length_a,
        ),
{
}

/// A region that can be read equals itself.
pub proof fn lemma_bytes_equals_reflexive(memory: Option<Seq<u8>>, offset: u32, length: u32)
    requires
        readable(memory, offset, length),
    ensures
        bytes_equals_spec(memory, offset, length, offset, length) == (0i32, 1i32),
{
}

/// Two readable regions of different length are different, and comparing
/// them is no failure.
pub proof fn lemma_bytes_equals_lengths_differ(
    memory: Option<Seq<u8>>,
    offset_a: u32,
    length_a: u32,
    offset_b: u32,
    length_b: u32,
)
    requires
        readable(memory, offset_a, length_a),
        readable(memory, offset_b, length_b),
        length_a != length_b,
    ensures
        bytes_equals_spec(memory, offset_a, length_a, offset_b, length_b) == (0i32, 0i32),
{
    let left = region(memory->0, offset_a, length_a);
    let right = region(memory->0, offset_b, length_b);
    assert(left.len() != right.len());
}

/// Two regions of well-formed text hold the same text exactly when they
/// hold the same bytes.
pub proof fn lemma_string_equals_is_bytes_equals(
    memory: Option<Seq<u8>>,
    offset_a: u32,
    length_a: u32,
    offset_b: u32,
    length_b: u32,
)
    requires
        readable(memory, offset_a, length_a),
        readable(memory, offset_b, length_b),
        valid_utf8(region(memory->0, offset_a, length_a)),
        valid_utf8(region(memory->0, offset_b, length_b)),
    ensures
        string_equals_spec(memory, offset_a, length_a, offset_b, length_b) == bytes_equals_spec(
            memory,
            offset_a,
            length_a,
            offset_b,
            length_b,
        ),
{
    decode_utf8_encode_utf8(region(memory->0, offset_a, length_a));
    decode_utf8_encode_utf8(region(memory->0, offset_b, length_b));
}

/// After a successful `Concat` the stored bytes begin with the left region
/// and go on with the right region: the first `length_left` bytes at the
/// answered offset are the left region as it was, and the bytes after them
/// are the right region as it was.
pub proof fn lemma_concat_stores_both(
    memory: Seq<u8>,
    heap_base: u32,
    offset_left: u32,
    length_left: u32,
    offset_right: u32,
    length_right: u32,
)
    requires
        concat_spec(
            memory,
            heap_base,
            offset_left,
            length_left,
            offset_right,
            length_right,
        ).answer.0 == 0,
    ensures
        ({
            let output = concat_spec(
                memory,
                heap_base,
                offset_left,
                length_left,
                offset_right,
                length_right,
            );
            let at = output.answer.1;
            &&& at == heap_base
            &&& output.answer.2 == length_left + length_right
            &&& output.memory.len() == memory.len()
            &&& output.memory.subrange(at as int, at + length_left) == region(
                memory,
                offset_left,
                length_left,
            )
            &&& output.memory.subrange(at + length_left, at + length_left + length_right)
                == region(memory, offset_right, length_right)
        }),
{
    lemma_code_is_negative(RuntimeError::MemoryNotFound);
    let left = region(memory, offset_left, length_left);
    let right = region(memory, offset_right, length_right);
    let output = produced(memory, heap_base, left + right);
    assert(output.memory.subrange(heap_base as int, heap_base + length_left) =~= left);
    assert(output.memory.subrange(
        heap_base + length_left,
        heap_base + length_left + length_right,
    ) =~= right);
}

/// Two payments declared one after the other in the same asset add up:
/// while the sums stay in the 64-bit range, the asset's entry holds what it
/// held before plus both amounts.
pub proof fn lemma_call_payment_accumulates(
    memory: Option<Seq<u8>>,
    before: ContextState,
    offset_asset_id: u32,
    length_asset_id: u32,
    first: i64,
    second: i64,
)
    requires
        readable(memory, offset_asset_id, length_asset_id),
        distinct(before.payments),
        ({
            let held = amount_of(
                before.payments,
                region(memory->0, offset_asset_id, length_asset_id),
            );
            &&& i64::MIN <= held + first <= i64::MAX
            &&& i64::MIN <= held + first + second <= i64::MAX
        }),
    ensures
        ({
            let asset = region(memory->0, offset_asset_id, length_asset_id);
            let once = call_payment_spec(memory, before, offset_asset_id, length_asset_id, first);
            let twice = call_payment_spec(
                memory,
                once.1,
                offset_asset_id,
                length_asset_id,
                second,
            );
            &&& once.0 == 0
            &&& twice.0 == 0
            &&& twice.1.args == before.args
            &&& amount_of(twice.1.payments, asset) == amount_of(before.payments, asset) + first
                + second
        }),
{
    let asset = region(memory->0, offset_asset_id, length_asset_id);
    lemma_declarations_accumulate(before.payments, asset, first, second);
}

/// What `Caller` leaves behind in a frame with memory.
pub open spec fn caller_spec(memory: Seq<u8>, stack: StackState) -> Output {
    produced(memory, stack.top().context.heap_base, stack.caller())
}

/// `Caller`: stores the identifier of the contract that called the running
/// one. For the contract that the embedder started, the identifier is empty.
pub fn caller(memory: Option<&mut [u8]>, stack: &mut CallStack) -> (answer: (i32, u32, u32))
    ensures
        match memory {
            Some(bytes) => {
                let output = caller_spec(bytes@, old(stack)@);
                &&& answer == output.answer
                &&& final(bytes)@ == output.memory
                &&& final(stack)@ == old(stack)@.with_context(
                    ContextState { heap_base: output.heap_base, ..old(stack)@.top().context },
                )
            },
            None => answer == (RuntimeError::MemoryNotFound.code(), 0u32, 0u32) && final(stack)@
                == old(stack)@,
        },
{
    match memory {
        Some(bytes) => {
            let result = stack.get_caller_current_frame();
            write_result(bytes, stack.context_mut(), result.as_slice())
        },
        None => fail(RuntimeError::MemoryNotFound),
    }
}

} // verus!
