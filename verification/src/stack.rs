//! The chain of running contracts, and the protocol by which one contract
//! calls another.
//!
//! A [`CallStack`] holds one [`Frame`] per running contract, the caller
//! below the callee. The bottom frame is the contract that the embedder
//! started; it stays for as long as the stack lives. Every other frame is
//! pushed when a call is dispatched and popped when that call returns.
//!
//! The stack does not fetch bytecode, settle payments or run code. It decides
//! and the embedder acts, in turn:
//!
//! 1. [`call_contract`] reads what the guest asks for.
//!    The embedder then asks its registry for the callee's bytecode.
//! 2. [`CallStack::stage_call`] takes the registry's answer, guards the
//!    depth of the stack, and drains the caller's staged arguments and
//!    payments.
//!    The embedder then has the payments settled.
//! 3. [`CallStack::enter`] takes the settlement's answer and the fuel
//!    that the caller has left, and pushes the callee's frame.
//!    The embedder then runs the callee against that fuel, with the
//!    parameters that [`marshal`] makes of the arguments.
//! 4. [`CallStack::leave`] takes what the callee returned and the fuel that
//!    it has left, pops its frame, and says how the caller goes on. Where
//!    the run was cut short, [`classify`] says which failure that was.
//!
//! Every step answers either with what the embedder is to do next or with a
//! [`Completion`]: the status with which the caller resumes, or the resource
//! fault that ends the whole chain. One fuel budget bounds the chain: the
//! stack hands each callee what is left of it and never takes it to have
//! grown.

use crate::bytes::to_vec;
use crate::catalog::ValueType;
use crate::context::{ContextState, ExecutionContext};
use crate::data_entry::{
    all_wf, arguments_of, decoding_of, deserialize, encoding_of, entries_of,
    lemma_decoding_of_encoding, Argument, DataEntry, EntryValue, MAX_COUNT,
};
use crate::error::{lemma_code_is_negative, RuntimeError};
use crate::memory::{
    contents, lemma_written_region, read_bytes, read_bytes_spec, read_text_spec, region,
    utf8_text, writable, write_memory, written,
};
use crate::number::{from_bits32, signed};
use crate::payments::{distinct, Entries, Payment};
use vstd::prelude::*;

verus! {

/// A value that a guest function returns.
#[derive(Clone, Copy, Debug, PartialEq, Eq, Structural)]
pub enum Value {
    /// A 32-bit integer.
    I32(i32),
    /// A 64-bit integer.
    I64(i64),
    /// A 32-bit float, as its bits.
    F32(u32),
    /// A 64-bit float, as its bits.
    F64(u64),
    /// A reference to a function.
    FuncRef,
    /// A reference to a host object.
    ExternRef,
}

/// How the run of a guest function ended.
#[derive(Debug)]
pub enum Outcome {
    /// The function returned these values.
    Returned(Vec<Value>),
    /// The function could not be run, or its run was cut short.
    Failed(RuntimeError),
}

/// How a caller goes on after a call.
#[derive(Clone, Copy, Debug, PartialEq, Eq, Structural)]
pub enum Completion {
    /// The caller's instruction stream resumes with this status.
    Resume(i32),
    /// A resource fault: the caller ends with the same fault, and so does
    /// every frame below it.
    Abort(RuntimeError),
}

/// What the guest asked for: whom to call, and which function.
#[derive(Debug)]
pub struct CallRequest {
    /// The identifier of the callee.
    pub contract_id: Vec<u8>,
    /// The name of the function, or why it could not be read. A failure
    /// here is reported only once the callee's bytecode is found.
    pub func_name: Result<String, RuntimeError>,
}

/// A call whose bytecode is found and whose arguments and payments are
/// drained from the caller.
#[derive(Debug)]
pub struct StagedCall {
    /// The identifier of the callee.
    pub contract_id: Vec<u8>,
    /// The bytecode of the callee.
    pub bytecode: Vec<u8>,
    /// The name of the function to run.
    pub func_name: String,
    /// The arguments in wire form.
    pub input_data: Vec<u8>,
    /// The payments to settle, oldest asset first.
    pub payments: Vec<Payment>,
}

/// What the embedder is to run in the frame that was just pushed.
#[derive(Debug)]
pub struct Invocation {
    /// The name of the function to run.
    pub func_name: String,
    /// The arguments in wire form.
    pub input_data: Vec<u8>,
    /// The fuel to run it against: what is left of the chain's budget.
    pub fuel_limit: u64,
}

/// One running contract.
#[derive(Debug)]
pub struct Frame {
    contract_id: Vec<u8>,
    bytecode: Vec<u8>,
    context: ExecutionContext,
}

/// The mathematical value of a [`Frame`].
pub ghost struct FrameState {
    /// The identifier of the contract.
    pub contract_id: Seq<u8>,
    /// Its bytecode.
    pub bytecode: Seq<u8>,
    /// What it has staged.
    pub context: ContextState,
}

/// The mathematical value of a [`CallStack`].
pub ghost struct StackState {
    /// The frames, the started contract first and the running one last.
    pub frames: Seq<FrameState>,
    /// The greatest number of frames the stack may hold.
    pub max_depth: nat,
    /// The fuel budget that the whole chain is held to.
    pub fuel_limit: u64,
    /// What is left of the budget, as far as the stack has been told.
    pub fuel: u64,
}

/// The context of a frame that has just been pushed.
pub open spec fn fresh_context() -> ContextState {
    ContextState { args: Seq::empty(), payments: Seq::empty(), heap_base: 0 }
}

impl StackState {
    /// The number of frames.
    pub open spec fn depth(self) -> nat {
        self.frames.len()
    }

    /// Whether the stack holds its bottom frame and respects its limit.
    pub open spec fn wf(self) -> bool {
        1 <= self.frames.len() <= self.max_depth && self.fuel <= self.fuel_limit
    }

    /// The running frame.
    pub open spec fn top(self) -> FrameState
        recommends
            self.wf(),
    {
        self.frames.last()
    }

    /// The stack with the running frame's context replaced.
    pub open spec fn with_context(self, context: ContextState) -> StackState
        recommends
            self.wf(),
    {
        StackState {
            frames: self.frames.update(
                self.frames.len() - 1,
                FrameState { context, ..self.frames.last() },
            ),
            ..self
        }
    }

    /// The stack once it has been told that `fuel_left` is left of the
    /// budget. The stack never takes the budget to have grown.
    pub open spec fn charged(self, fuel_left: u64) -> StackState {
        StackState { fuel: if fuel_left < self.fuel { fuel_left } else { self.fuel }, ..self }
    }

    /// The stack with a frame for `contract_id` on top.
    pub open spec fn pushed(self, contract_id: Seq<u8>, bytecode: Seq<u8>) -> StackState {
        StackState {
            frames: self.frames.push(
                FrameState { contract_id, bytecode, context: fresh_context() },
            ),
            ..self
        }
    }

    /// The stack without its running frame. The bottom frame stays.
    pub open spec fn popped(self) -> StackState {
        if self.frames.len() > 1 {
            StackState { frames: self.frames.drop_last(), ..self }
        } else {
            self
        }
    }

    /// The identifier of the contract that called the running one: that of
    /// the frame below it, and empty for the bottom frame.
    pub open spec fn caller(self) -> Seq<u8> {
        if self.frames.len() > 1 {
            self.frames[self.frames.len() - 2].contract_id
        } else {
            Seq::empty()
        }
    }
}

/// How a caller goes on after a failure: a resource fault ends the chain,
/// any other failure is the status it resumes with.
pub open spec fn completion_of(error: RuntimeError) -> Completion {
    if error.is_resource() {
        Completion::Abort(error)
    } else {
        Completion::Resume(error.code())
    }
}

/// How a caller goes on after its callee ended with `outcome`. A callee
/// reports through exactly one 32-bit integer; anything else is an invalid
/// result.
pub open spec fn judged(outcome: Result<Seq<Value>, RuntimeError>) -> Completion {
    match outcome {
        Ok(values) => if values.len() == 1 && values[0] is I32 {
            Completion::Resume(values[0]->I32_0)
        } else {
            Completion::Resume(RuntimeError::InvalidResult.code())
        },
        Err(error) => completion_of(error),
    }
}

/// The view of an [`Outcome`].
pub open spec fn outcome_of(outcome: Outcome) -> Result<Seq<Value>, RuntimeError> {
    match outcome {
        Outcome::Returned(values) => Ok(values@),
        Outcome::Failed(error) => Err(error),
    }
}

/// Says how a caller goes on after a failure.
pub fn complete(error: RuntimeError) -> (completion: Completion)
    ensures
        completion == completion_of(error),
{
    if error.unwinds_chain() {
        Completion::Abort(error)
    } else {
        Completion::Resume(error.as_i32())
    }
}

/// Says how a caller goes on after its callee ended.
pub fn judge(outcome: &Outcome) -> (completion: Completion)
    ensures
        completion == judged(outcome_of(*outcome)),
{
    match outcome {
        Outcome::Returned(values) => {
            if values.len() != 1 {
                return Completion::Resume(RuntimeError::InvalidResult.as_i32());
            }
            match values[0] {
                Value::I32(status) => Completion::Resume(status),
                _ => Completion::Resume(RuntimeError::InvalidResult.as_i32()),
            }
        },
        Outcome::Failed(error) => complete(*error),
    }
}

/// What placing arguments in a callee has come to: the parameters so far,
/// or the failure that stopped it, and the callee's memory and heap base.
pub ghost struct Marshalled {
    pub values: Result<Seq<Value>, RuntimeError>,
    pub memory: Seq<u8>,
    pub heap_base: u32,
}

/// What placing one argument comes to: the parameters it fills, how many
/// parameter types it takes up, and the callee's memory and heap base.
pub ghost struct Placed {
    pub values: Seq<Value>,
    pub used: nat,
    pub memory: Seq<u8>,
    pub heap_base: u32,
}

/// The 32-bit integer that carries an address or a length to the guest.
pub open spec fn address(value: int) -> Value {
    Value::I32(signed(value, 4) as i32)
}

/// Places one argument.
///
/// An integer fills a 64-bit parameter, or a 32-bit one where it is small
/// enough. A boolean fills a 32-bit parameter. A binary or a string fills
/// two 32-bit parameters, offset and length: its bytes are stored in the
/// callee's memory at the heap base, which then moves past them. An
/// argument that meets other parameter types is an `InvalidBytecode`; bytes
/// for which the callee has no memory, or no room, are a `MemoryNotFound`.
pub open spec fn placed(
    entry: EntryValue,
    params: Seq<ValueType>,
    attached: bool,
    memory: Seq<u8>,
    heap_base: u32,
) -> Result<Placed, RuntimeError> {
    match entry {
        EntryValue::Integer(value) => if params.len() >= 1 && params[0] == ValueType::I64 {
            Ok(Placed { values: seq![Value::I64(value)], used: 1, memory, heap_base })
        } else if params.len() >= 1 && params[0] == ValueType::I32 && i32::MIN <= value
            <= i32::MAX {
            Ok(Placed { values: seq![Value::I32(value as i32)], used: 1, memory, heap_base })
        } else {
            Err(RuntimeError::InvalidBytecode)
        },
        EntryValue::Boolean(value) => if params.len() >= 1 && params[0] == ValueType::I32 {
            Ok(Placed { values: seq![Value::I32(value)], used: 1, memory, heap_base })
        } else {
            Err(RuntimeError::InvalidBytecode)
        },
        EntryValue::Binary(bytes) => stored(bytes, params, attached, memory, heap_base),
        EntryValue::String(bytes) => stored(bytes, params, attached, memory, heap_base),
    }
}

/// Places the bytes of a binary or a string.
pub open spec fn stored(
    bytes: Seq<u8>,
    params: Seq<ValueType>,
    attached: bool,
    memory: Seq<u8>,
    heap_base: u32,
) -> Result<Placed, RuntimeError> {
    if !(params.len() >= 2 && params[0] == ValueType::I32 && params[1] == ValueType::I32) {
        Err(RuntimeError::InvalidBytecode)
    } else if !(attached && writable(memory.len(), heap_base, bytes.len())) {
        Err(RuntimeError::MemoryNotFound)
    } else {
        Ok(
            Placed {
                values: seq![address(heap_base as int), address(bytes.len() as int)],
                used: 2,
                memory: written(memory, heap_base as int, bytes),
                heap_base: (heap_base + bytes.len()) as u32,
            },
        )
    }
}

/// The bytes of a binary or a string that was placed can be read where its
/// two parameters say: at the old heap base, in their full length.
pub proof fn lemma_stored_can_be_read(
    bytes: Seq<u8>,
    params: Seq<ValueType>,
    attached: bool,
    memory: Seq<u8>,
    heap_base: u32,
)
    requires
        stored(bytes, params, attached, memory, heap_base) is Ok,
    ensures
        ({
            let step = stored(bytes, params, attached, memory, heap_base)->Ok_0;
            &&& step.values == seq![address(heap_base as int), address(bytes.len() as int)]
            &&& step.memory.len() == memory.len()
            &&& region(step.memory, heap_base, bytes.len() as u32) == bytes
            &&& step.heap_base == heap_base + bytes.len()
        }),
{
    lemma_written_region(memory, heap_base, bytes);
}

/// The parameters that went before, followed by what placing the rest
/// comes to.
pub open spec fn after(front: Seq<Value>, rest: Marshalled) -> Marshalled {
    Marshalled {
        values: match rest.values {
            Ok(values) => Ok(front + values),
            Err(error) => Err(error),
        },
        ..rest
    }
}

/// Places a list of arguments, in order, each where the one before it left
/// off. Every parameter type must be taken up: a function that declares
/// more parameters than the arguments fill is an `InvalidBytecode`. Placing
/// stops at the first failure, with memory and heap base as they then are.
pub open spec fn marshalled(
    entries: Seq<EntryValue>,
    params: Seq<ValueType>,
    attached: bool,
    memory: Seq<u8>,
    heap_base: u32,
) -> Marshalled
    decreases entries.len(),
{
    if entries.len() == 0 {
        Marshalled {
            values: if params.len() == 0 {
                Ok(Seq::empty())
            } else {
                Err(RuntimeError::InvalidBytecode)
            },
            memory,
            heap_base,
        }
    } else {
        match placed(entries[0], params, attached, memory, heap_base) {
            Ok(step) => after(
                step.values,
                marshalled(
                    entries.drop_first(),
                    params.skip(step.used as int),
                    attached,
                    step.memory,
                    step.heap_base,
                ),
            ),
            Err(error) => Marshalled { values: Err(error), memory, heap_base },
        }
    }
}

/// What [`marshal`] answers and leaves behind. A frame without memory is
/// one to which nothing can be stored.
pub open spec fn marshal_spec(
    input_data: Seq<u8>,
    params: Seq<ValueType>,
    memory: Option<Seq<u8>>,
    heap_base: u32,
) -> Marshalled {
    let attached = memory is Some;
    let bytes = match memory {
        Some(bytes) => bytes,
        None => Seq::empty(),
    };
    match decoding_of(input_data) {
        Some(arguments) => marshalled(entries_of(arguments), params, attached, bytes, heap_base),
        None => Marshalled {
            values: Err(RuntimeError::InvalidBytecode),
            memory: bytes,
            heap_base,
        },
    }
}

/// What a caller stages is what its callee is handed: the wire form of a
/// list of staged entries is marshalled as that list, entry by entry, in the
/// order in which the entries were staged.
pub proof fn lemma_staged_entries_are_marshalled(
    entries: Seq<EntryValue>,
    params: Seq<ValueType>,
    memory: Seq<u8>,
    heap_base: u32,
)
    requires
        all_wf(entries),
        entries.len() <= MAX_COUNT,
    ensures
        marshal_spec(encoding_of(entries), params, Some(memory), heap_base) == marshalled(
            entries,
            params,
            true,
            memory,
            heap_base,
        ),
{
    lemma_decoding_of_encoding(entries);
}

/// The view of the answer of [`marshal`].
pub open spec fn values_of(result: Result<Vec<Value>, RuntimeError>) -> Result<
    Seq<Value>,
    RuntimeError,
> {
    match result {
        Ok(values) => Ok(values@),
        Err(error) => Err(error),
    }
}

/// Places the arguments that were read off the wire.
fn place(
    arguments: &Vec<Argument>,
    params: &[ValueType],
    bytes: &mut [u8],
    attached: bool,
    ctx: &mut ExecutionContext,
) -> (result: Result<Vec<Value>, RuntimeError>)
    ensures
        ({
            let whole = marshalled(
                entries_of(arguments_of(arguments@)),
                params@,
                attached,
                old(bytes)@,
                old(ctx)@.heap_base,
            );
            &&& values_of(result) == whole.values
            &&& final(bytes)@ == whole.memory
            &&& final(ctx)@ == (ContextState { heap_base: whole.heap_base, ..old(ctx)@ })
        }),
{
    let ghost entries = entries_of(arguments_of(arguments@));
    let ghost whole = marshalled(entries, params@, attached, bytes@, ctx@.heap_base);
    let mut values: Vec<Value> = Vec::new();
    let mut i: usize = 0;
    let mut j: usize = 0;
    proof {
        assert(entries.skip(0) =~= entries);
        assert(params@.skip(0) =~= params@);
        lemma_after_nothing(whole);
    }
    while i < arguments.len()
        invariant
            i <= arguments@.len(),
            j <= params@.len(),
            entries == entries_of(arguments_of(arguments@)),
            whole == marshalled(entries, params@, attached, old(bytes)@, old(ctx)@.heap_base),
            ctx@ == (ContextState { heap_base: ctx@.heap_base, ..old(ctx)@ }),
            whole == after(
                values@,
                marshalled(entries.skip(i as int), params@.skip(j as int), attached, bytes@, ctx@.heap_base),
            ),
        decreases arguments@.len() - i,
    {
        let ghost rest = entries.skip(i as int);
        let ghost left = params@.skip(j as int);
        let ghost front = values@;
        let ghost memory = bytes@;
        let ghost heap_base = ctx@.heap_base;
        let room: usize = params.len() - j;
        proof {
            assert(rest[0] == arguments@[i as int]@.entry);
            assert(rest.drop_first() =~= entries.skip(i + 1));
            assert(left.len() == room);
            if room >= 1 {
                assert(left[0] == params@[j as int]);
            }
            if room >= 2 {
                assert(left[1] == params@[j + 1]);
            }
        }
        match &arguments[i].entry {
            DataEntry::Integer(value) => {
                if room >= 1 && params[j] == ValueType::I64 {
                    values.push(Value::I64(*value));
                } else if room >= 1 && params[j] == ValueType::I32 && *value >= i32::MIN as i64
                    && *value <= i32::MAX as i64 {
                    values.push(Value::I32(*value as i32));
                } else {
                    return Err(RuntimeError::InvalidBytecode);
                }
                j += 1;
            },
            DataEntry::Boolean(value) => {
                if room >= 1 && params[j] == ValueType::I32 {
                    values.push(Value::I32(*value));
                } else {
                    return Err(RuntimeError::InvalidBytecode);
                }
                j += 1;
            },
            DataEntry::Binary(payload) => {
                if !(room >= 2 && params[j] == ValueType::I32 && params[j + 1]
                    == ValueType::I32) {
                    return Err(RuntimeError::InvalidBytecode);
                }
                if !attached {
                    return Err(RuntimeError::MemoryNotFound);
                }
                let base: u32 = ctx.heap_base();
                let answer = write_memory(bytes, base, payload.as_slice());
                if answer.0 != 0 {
                    proof {
                        lemma_code_is_negative(RuntimeError::MemoryNotFound);
                    }
                    return Err(RuntimeError::MemoryNotFound);
                }
                ctx.set_heap_base(base + answer.2);
                values.push(Value::I32(from_bits32(answer.1)));
                values.push(Value::I32(from_bits32(answer.2)));
                j += 2;
            },
            DataEntry::String(payload) => {
                if !(room >= 2 && params[j] == ValueType::I32 && params[j + 1]
                    == ValueType::I32) {
                    return Err(RuntimeError::InvalidBytecode);
                }
                if !attached {
                    return Err(RuntimeError::MemoryNotFound);
                }
                let base: u32 = ctx.heap_base();
                let answer = write_memory(bytes, base, payload.as_slice());
                if answer.0 != 0 {
                    proof {
                        lemma_code_is_negative(RuntimeError::MemoryNotFound);
                    }
                    return Err(RuntimeError::MemoryNotFound);
                }
                ctx.set_heap_base(base + answer.2);
                values.push(Value::I32(from_bits32(answer.1)));
                values.push(Value::I32(from_bits32(answer.2)));
                j += 2;
            },
        }
        i += 1;
        proof {
            let step = placed(rest[0], left, attached, memory, heap_base)->Ok_0;
            assert(left.skip(step.used as int) =~= params@.skip(j as int));
            assert(values@ =~= front + step.values);
            let next = marshalled(
                entries.skip(i as int),
                params@.skip(j as int),
                attached,
                bytes@,
                ctx@.heap_base,
            );
            lemma_after_after(front, step.values, next);
        }
    }
    proof {
        assert(entries.skip(i as int).len() == 0);
        assert(params@.skip(j as int).len() == params@.len() - j);
    }
    if j != params.len() {
        return Err(RuntimeError::InvalidBytecode);
    }
    proof {
        assert(values@ + Seq::<Value>::empty() =~= values@);
    }
    Ok(values)
}

/// Nothing before is no change.
proof fn lemma_after_nothing(rest: Marshalled)
    ensures
        after(Seq::empty(), rest) == rest,
{
    if rest.values is Ok {
        assert(Seq::<Value>::empty() + rest.values->Ok_0 =~= rest.values->Ok_0);
    }
}

/// Parameters before parameters before the rest are all of them before
/// the rest.
proof fn lemma_after_after(front: Seq<Value>, middle: Seq<Value>, rest: Marshalled)
    ensures
        after(front, after(middle, rest)) == after(front + middle, rest),
{
    if rest.values is Ok {
        assert(front + (middle + rest.values->Ok_0) =~= (front + middle) + rest.values->Ok_0);
    }
}

/// Turns the arguments of a call, as they come off the wire, into the
/// parameters of the function that is to run in the frame that was just
/// pushed, whose memory and context are handed in.
///
/// Arguments that are no wire form, or that the function cannot take, are
/// an `InvalidBytecode`. The bytes of binaries and strings are stored in the
/// callee's memory; where it has none, or too little, that is a
/// `MemoryNotFound`.
pub fn marshal(
    input_data: &[u8],
    params: &[ValueType],
    memory: Option<&mut [u8]>,
    ctx: &mut ExecutionContext,
) -> (result: Result<Vec<Value>, RuntimeError>)
    ensures
        match memory {
            Some(bytes) => {
                let whole = marshal_spec(
                    input_data@,
                    params@,
                    Some(bytes@),
                    old(ctx)@.heap_base,
                );
                &&& values_of(result) == whole.values
                &&& final(bytes)@ == whole.memory
                &&& final(ctx)@ == (ContextState { heap_base: whole.heap_base, ..old(ctx)@ })
            },
            None => {
                let whole = marshal_spec(input_data@, params@, None, old(ctx)@.heap_base);
                &&& values_of(result) == whole.values
                &&& final(ctx)@ == (ContextState { heap_base: whole.heap_base, ..old(ctx)@ })
            },
        },
{
    let arguments = match deserialize(input_data) {
        Some(arguments) => arguments,
        None => {
            return Err(RuntimeError::InvalidBytecode);
        },
    };
    match memory {
        Some(bytes) => place(&arguments, params, bytes, true, ctx),
        None => {
            let mut nothing: Vec<u8> = Vec::new();
            place(&arguments, params, nothing.as_mut_slice(), false, ctx)
        },
    }
}

/// The failure that the cut-short run of a guest function stands for. A run
/// that ended with an exit status ended with the fault that the status is
/// the sentinel of, which is how a resource fault travels up through the
/// frames of a chain; a run that the engine stopped for want of fuel ended
/// with `FuelExhausted`; any other run that did not return could not be run.
pub open spec fn classified(exit_status: Option<i32>, out_of_fuel: bool) -> RuntimeError {
    match exit_status {
        Some(code) => match RuntimeError::of_code(code) {
            Some(error) => error,
            None => RuntimeError::InvalidBytecode,
        },
        None => if out_of_fuel {
            RuntimeError::FuelExhausted
        } else {
            RuntimeError::InvalidBytecode
        },
    }
}

/// Tells which failure the cut-short run of a guest function stands for.
pub fn classify(exit_status: Option<i32>, out_of_fuel: bool) -> (error: RuntimeError)
    ensures
        error == classified(exit_status, out_of_fuel),
{
    match exit_status {
        Some(code) => match RuntimeError::from_i32(code) {
            Some(error) => error,
            None => RuntimeError::InvalidBytecode,
        },
        None => if out_of_fuel {
            RuntimeError::FuelExhausted
        } else {
            RuntimeError::InvalidBytecode
        },
    }
}

/// The exit status with which the caller's run is cut short when a call
/// ends the chain: the sentinel of the fault.
pub fn exit_status(error: RuntimeError) -> (status: i32)
    ensures
        status == error.code(),
{
    error.as_i32()
}

/// A fault that cuts a run short by its exit status is the fault that the
/// frame below classifies the run as: on its way up through the chain a
/// fault stays what it is.
pub proof fn lemma_fault_survives_exit(error: RuntimeError, out_of_fuel: bool)
    ensures
        classified(Some(error.code()), out_of_fuel) == error,
{
}

/// What [`call_contract`] answers.
pub open spec fn call_contract_spec(
    memory: Option<Seq<u8>>,
    offset_contract_id: u32,
    length_contract_id: u32,
    offset_func_name: u32,
    length_func_name: u32,
) -> Result<(Seq<u8>, Result<Seq<char>, RuntimeError>), Completion> {
    match read_bytes_spec(memory, offset_contract_id, length_contract_id) {
        Ok(contract_id) => Ok(
            (contract_id, read_text_spec(memory, offset_func_name, length_func_name)),
        ),
        Err(error) => Err(Completion::Resume(error.code())),
    }
}

/// The view of a function name that was read, or not.
pub open spec fn name_of(func_name: Result<String, RuntimeError>) -> Result<
    Seq<char>,
    RuntimeError,
> {
    match func_name {
        Ok(name) => Ok(name@),
        Err(error) => Err(error),
    }
}

/// `CallContract`, first step: reads from guest memory whom the guest wants
/// to call and which function.
///
/// Without memory, or where the identifier's region leaves it, the call is
/// over and the caller resumes with `MemoryNotFound`. A function name that
/// cannot be read does not end the call yet: the failure is kept in the
/// request and reported by [`CallStack::stage_call`].
pub fn call_contract(
    memory: Option<&[u8]>,
    offset_contract_id: u32,
    length_contract_id: u32,
    offset_func_name: u32,
    length_func_name: u32,
) -> (result: Result<CallRequest, Completion>)
    ensures
        match result {
            Ok(request) => call_contract_spec(
                contents(memory),
                offset_contract_id,
                length_contract_id,
                offset_func_name,
                length_func_name,
            ) == Ok::<(Seq<u8>, Result<Seq<char>, RuntimeError>), Completion>(
                (request.contract_id@, name_of(request.func_name)),
            ),
            Err(completion) => call_contract_spec(
                contents(memory),
                offset_contract_id,
                length_contract_id,
                offset_func_name,
                length_func_name,
            ) == Err::<(Seq<u8>, Result<Seq<char>, RuntimeError>), Completion>(completion),
        },
{
    let contract_id = match read_bytes(memory, offset_contract_id, length_contract_id) {
        Ok(bytes) => to_vec(bytes),
        Err(error) => {
            return Err(Completion::Resume(error.as_i32()));
        },
    };
    let func_name = match read_bytes(memory, offset_func_name, length_func_name) {
        Ok(bytes) => match utf8_text(bytes) {
            Some(text) => Ok(text.to_owned()),
            None => Err(RuntimeError::Utf8Error),
        },
        Err(error) => Err(error),
    };
    Ok(CallRequest { contract_id, func_name })
}

/// The mathematical value of a [`StagedCall`].
pub ghost struct StagedState {
    pub contract_id: Seq<u8>,
    pub bytecode: Seq<u8>,
    pub func_name: Seq<char>,
    pub input_data: Seq<u8>,
    pub payments: Entries,
}

/// The mathematical value of an [`Invocation`].
pub ghost struct InvocationState {
    pub func_name: Seq<char>,
    pub input_data: Seq<u8>,
    pub fuel_limit: u64,
}

impl View for StagedCall {
    type V = StagedState;

    open spec fn view(&self) -> StagedState {
        StagedState {
            contract_id: self.contract_id@,
            bytecode: self.bytecode@,
            func_name: self.func_name@,
            input_data: self.input_data@,
            payments: crate::payments::entries_of(self.payments@),
        }
    }
}

impl View for Invocation {
    type V = InvocationState;

    open spec fn view(&self) -> InvocationState {
        InvocationState {
            func_name: self.func_name@,
            input_data: self.input_data@,
            fuel_limit: self.fuel_limit,
        }
    }
}

/// What [`CallStack::stage_call`] does to a stack and answers.
///
/// A failure of the registry comes first, then a function name that could
/// not be read, then a stack that is already as deep as it may be, which
/// ends the whole chain with `CallDepthExceeded`. In all three cases nothing
/// is drained. Otherwise the running frame's staged arguments and payments
/// leave its context and go with the call.
pub open spec fn stage_call_spec(
    before: StackState,
    contract_id: Seq<u8>,
    func_name: Result<Seq<char>, RuntimeError>,
    resolved: Result<Seq<u8>, RuntimeError>,
) -> (StackState, Result<StagedState, Completion>) {
    match resolved {
        Err(error) => (before, Err(completion_of(error))),
        Ok(bytecode) => match func_name {
            Err(error) => (before, Err(completion_of(error))),
            Ok(name) => if before.depth() >= before.max_depth {
                (before, Err(Completion::Abort(RuntimeError::CallDepthExceeded)))
            } else {
                (
                    before.with_context(before.top().context.cleared()),
                    Ok(
                        StagedState {
                            contract_id,
                            bytecode,
                            func_name: name,
                            input_data: encoding_of(before.top().context.args),
                            payments: before.top().context.payments,
                        },
                    ),
                )
            },
        },
    }
}

/// What [`CallStack::enter`] does to a stack and answers.
///
/// The stack first takes note of the fuel that the caller has left. A
/// failed settlement ends the call. A stack that is as deep as it may be
/// ends the whole chain with `CallDepthExceeded`; a call that went through
/// [`CallStack::stage_call`] on this stack does not get here in that state.
/// Otherwise the callee's frame is pushed, and the callee is to run against
/// the fuel that is left.
pub open spec fn enter_spec(
    before: StackState,
    call: StagedState,
    settled: Result<(), RuntimeError>,
    fuel_left: u64,
) -> (StackState, Result<InvocationState, Completion>) {
    let noted = before.charged(fuel_left);
    match settled {
        Err(error) => (noted, Err(completion_of(error))),
        Ok(_) => if noted.depth() >= noted.max_depth {
            (noted, Err(Completion::Abort(RuntimeError::CallDepthExceeded)))
        } else {
            (
                noted.pushed(call.contract_id, call.bytecode),
                Ok(
                    InvocationState {
                        func_name: call.func_name,
                        input_data: call.input_data,
                        fuel_limit: noted.fuel,
                    },
                ),
            )
        },
    }
}

/// What [`CallStack::leave`] does to a stack and answers: the stack takes
/// note of the fuel that the callee has left, and the callee's frame is
/// popped whatever the outcome.
pub open spec fn leave_spec(
    before: StackState,
    outcome: Result<Seq<Value>, RuntimeError>,
    fuel_left: u64,
) -> (StackState, Completion) {
    (before.charged(fuel_left).popped(), judged(outcome))
}

/// What becomes of a stack once the run of its top frame has ended with
/// `outcome` and `fuel_left` of the budget, and the embedder has let every
/// frame that a resource fault reaches end with that fault in turn.
pub open spec fn unwind(
    before: StackState,
    outcome: Result<Seq<Value>, RuntimeError>,
    fuel_left: u64,
) -> (StackState, Completion)
    decreases before.frames.len(),
{
    let (after, completion) = leave_spec(before, outcome, fuel_left);
    match completion {
        Completion::Abort(error) => if after.frames.len() < before.frames.len() {
            unwind(after, Err(error), fuel_left)
        } else {
            (after, completion)
        },
        Completion::Resume(_) => (after, completion),
    }
}

/// The stack with nothing but its bottom frame.
pub open spec fn bottom(stack: StackState) -> StackState {
    StackState { frames: stack.frames.take(1), ..stack }
}

/// A resource fault, whichever frame it strikes and however deep the stack
/// is, ends every call of the chain with that same fault: the stack is
/// unwound to its bottom frame and the embedder is left with the fault.
pub proof fn lemma_resource_fault_ends_chain(
    stack: StackState,
    error: RuntimeError,
    fuel_left: u64,
)
    requires
        stack.wf(),
        error.is_resource(),
    ensures
        unwind(stack, Err(error), fuel_left) == (
            bottom(stack.charged(fuel_left)),
            Completion::Abort(error),
        ),
    decreases stack.frames.len(),
{
    let (after, completion) = leave_spec(stack, Err(error), fuel_left);
    assert(completion == Completion::Abort(error));
    if stack.frames.len() > 1 {
        lemma_resource_fault_ends_chain(after, error, fuel_left);
        assert(after.frames.take(1) =~= stack.frames.take(1));
        assert(after.charged(fuel_left) == after);
    } else {
        assert(stack.frames.take(1) =~= stack.frames);
    }
}

/// Any other failure of a callee is reported to its caller alone: the
/// callee's frame is popped and the caller resumes with the sentinel.
pub proof fn lemma_plain_failure_stops_at_caller(
    stack: StackState,
    error: RuntimeError,
    fuel_left: u64,
)
    requires
        stack.wf(),
        !error.is_resource(),
    ensures
        unwind(stack, Err(error), fuel_left) == (
            stack.charged(fuel_left).popped(),
            Completion::Resume(error.code()),
        ),
{
}

/// A callee's self-reported status reaches its caller unchanged, whatever
/// the status is.
pub proof fn lemma_status_is_surfaced(stack: StackState, status: i32, fuel_left: u64)
    ensures
        leave_spec(stack, Ok(seq![Value::I32(status)]), fuel_left) == (
            stack.charged(fuel_left).popped(),
            Completion::Resume(status),
        ),
{
}

/// A call that the registry cannot resolve resumes the caller with the
/// registry's own sentinel, or ends the chain where the registry reports a
/// resource fault. Either way the stack is as it was: no frame was pushed
/// and nothing staged was drained.
pub proof fn lemma_unresolved_call_changes_nothing(
    stack: StackState,
    contract_id: Seq<u8>,
    func_name: Result<Seq<char>, RuntimeError>,
    error: RuntimeError,
)
    ensures
        stage_call_spec(stack, contract_id, func_name, Err(error)) == (
            stack,
            Err::<StagedState, Completion>(completion_of(error)),
        ),
        !error.is_resource() ==> completion_of(error) == Completion::Resume(error.code()),
{
}

/// A call that goes through all its steps, and whose callee returns one
/// 32-bit integer, resumes the caller with that integer. Afterwards the
/// stack is as deep as before, every frame is as it was, and the caller has
/// nothing staged. What the callee staged in its own frame meanwhile, here
/// `callee_context`, is gone with its frame. The callee is handed no more
/// fuel than the caller had left, and the chain has no more fuel afterwards
/// than the callee had left.
pub proof fn lemma_completed_call(
    stack: StackState,
    contract_id: Seq<u8>,
    func_name: Seq<char>,
    bytecode: Seq<u8>,
    callee_context: ContextState,
    status: i32,
    caller_left: u64,
    callee_left: u64,
)
    requires
        stack.wf(),
        stack.depth() < stack.max_depth,
    ensures
        ({
            let staged = stage_call_spec(stack, contract_id, Ok(func_name), Ok(bytecode));
            let entered = enter_spec(staged.0, staged.1->Ok_0, Ok(()), caller_left);
            let busy = entered.0.with_context(callee_context);
            let left = leave_spec(busy, Ok(seq![Value::I32(status)]), callee_left);
            &&& staged.1 is Ok
            &&& staged.1->Ok_0.input_data == encoding_of(stack.top().context.args)
            &&& staged.1->Ok_0.payments == stack.top().context.payments
            &&& entered.1 is Ok
            &&& entered.1->Ok_0.fuel_limit <= caller_left
            &&& entered.1->Ok_0.fuel_limit <= stack.fuel
            &&& entered.0.depth() == stack.depth() + 1
            &&& entered.0.top().context == fresh_context()
            &&& left.1 == Completion::Resume(status)
            &&& left.0.frames == stack.with_context(stack.top().context.cleared()).frames
            &&& left.0.depth() == stack.depth()
            &&& left.0.top().context.is_clear()
            &&& left.0.fuel <= callee_left
            &&& left.0.fuel <= entered.1->Ok_0.fuel_limit
        }),
{
    let staged = stage_call_spec(stack, contract_id, Ok(func_name), Ok(bytecode));
    let entered = enter_spec(staged.0, staged.1->Ok_0, Ok(()), caller_left);
    let busy = entered.0.with_context(callee_context);
    let left = leave_spec(busy, Ok(seq![Value::I32(status)]), callee_left);
    assert(left.0.frames =~= staged.0.frames);
}

/// One thing that can happen to a stack while guest code runs.
pub ghost enum Activity {
    /// A host function acted on the running frame and left its context in
    /// this state.
    Act(ContextState),
    /// [`CallStack::stage_call`] was given this request and answer.
    Stage {
        contract_id: Seq<u8>,
        func_name: Result<Seq<char>, RuntimeError>,
        resolved: Result<Seq<u8>, RuntimeError>,
    },
    /// [`CallStack::enter`] was given this call, answer and fuel.
    Enter { call: StagedState, settled: Result<(), RuntimeError>, fuel_left: u64 },
    /// [`CallStack::leave`] was given this outcome and fuel.
    Leave { outcome: Result<Seq<Value>, RuntimeError>, fuel_left: u64 },
}

/// The stack after one activity.
pub open spec fn apply(before: StackState, activity: Activity) -> StackState {
    match activity {
        Activity::Act(context) => before.with_context(context),
        Activity::Stage { contract_id, func_name, resolved } => stage_call_spec(
            before,
            contract_id,
            func_name,
            resolved,
        ).0,
        Activity::Enter { call, settled, fuel_left } => enter_spec(
            before,
            call,
            settled,
            fuel_left,
        ).0,
        Activity::Leave { outcome, fuel_left } => leave_spec(before, outcome, fuel_left).0,
    }
}

/// The stack after a sequence of activities.
pub open spec fn run(before: StackState, activities: Seq<Activity>) -> StackState
    decreases activities.len(),
{
    if activities.len() == 0 {
        before
    } else {
        apply(run(before, activities.drop_last()), activities.last())
    }
}

/// Whether the stack is at least `floor` frames deep before and after every
/// activity of the sequence.
pub open spec fn stays_above(before: StackState, activities: Seq<Activity>, floor: nat) -> bool {
    forall|k: int|
        0 <= k <= activities.len() ==> (#[trigger] run(before, activities.take(k))).depth()
            >= floor
}

/// No activity can break a stack: it keeps its bottom frame, its limits,
/// and stays within its maximum depth. And no activity adds fuel: what is
/// left of the budget can only shrink.
pub proof fn lemma_apply_keeps_wf(before: StackState, activity: Activity)
    requires
        before.wf(),
    ensures
        apply(before, activity).wf(),
        apply(before, activity).max_depth == before.max_depth,
        apply(before, activity).fuel_limit == before.fuel_limit,
        apply(before, activity).fuel <= before.fuel,
        apply(before, activity).frames[0].contract_id == before.frames[0].contract_id,
        apply(before, activity).frames[0].bytecode == before.frames[0].bytecode,
{
}

/// A running contract, and whatever it calls, cannot reach the frames
/// below its own. As long as the callee's frame has not been popped, every
/// frame below it is exactly as it was when the callee was entered: its
/// identifier, its bytecode, and what it has staged. Whatever they do, the
/// chain has no more fuel afterwards than before: one budget bounds them all.
pub proof fn lemma_callers_are_out_of_reach(before: StackState, activities: Seq<Activity>)
    requires
        before.wf(),
        stays_above(before, activities, before.depth()),
    ensures
        run(before, activities).wf(),
        run(before, activities).fuel <= before.fuel,
        run(before, activities).frames.take(before.depth() - 1) == before.frames.take(
            before.depth() - 1,
        ),
    decreases activities.len(),
{
    let floor = before.depth();
    if activities.len() == 0 {
    } else {
        let earlier = activities.drop_last();
        assert forall|k: int| 0 <= k <= earlier.len() implies (#[trigger] run(
            before,
            earlier.take(k),
        )).depth() >= floor by {
            assert(earlier.take(k) =~= activities.take(k));
        }
        lemma_callers_are_out_of_reach(before, earlier);
        let middle = run(before, earlier);
        let after = apply(middle, activities.last());
        lemma_apply_keeps_wf(middle, activities.last());
        assert(activities.take(activities.len() as int) =~= activities);
        assert(earlier.take(earlier.len() as int) =~= earlier);
        assert(run(before, activities.take(activities.len() as int)).depth() >= floor);
        assert(run(before, earlier.take(earlier.len() as int)).depth() >= floor);
        assert(after.frames.take(floor - 1) =~= middle.frames.take(floor - 1));
    }
}

/// The chain of running contracts.
#[derive(Debug)]
pub struct CallStack {
    root: Frame,
    callees: Vec<Frame>,
    max_depth: usize,
    fuel_limit: u64,
    fuel: u64,
}

/// The value of a frame.
pub closed spec fn frame_state(frame: Frame) -> FrameState {
    FrameState {
        contract_id: frame.contract_id@,
        bytecode: frame.bytecode@,
        context: frame.context@,
    }
}

/// The context of a frame, to act on.
fn context_of(frame: &mut Frame) -> (ctx: &mut ExecutionContext)
    ensures
        ctx@ == old(frame).context@,
        final(frame).context@ == final(ctx)@,
        final(frame).contract_id == old(frame).contract_id,
        final(frame).bytecode == old(frame).bytecode,
    no_unwind
{
    &mut frame.context
}

impl CallStack {
    #[verifier::type_invariant]
    spec fn inv(self) -> bool {
        1 + self.callees@.len() <= self.max_depth && self.fuel <= self.fuel_limit
    }

    /// The state of the stack.
    pub closed spec fn view(&self) -> StackState {
        StackState {
            frames: seq![frame_state(self.root)] + self.callees@.map_values(
                |frame: Frame| frame_state(frame),
            ),
            max_depth: self.max_depth as nat,
            fuel_limit: self.fuel_limit,
            fuel: self.fuel,
        }
    }

    /// A stack that holds the contract the embedder starts.
    ///
    /// A stack needs room for that one frame: with a `max_depth` of zero
    /// there is none, and the answer is `CallDepthExceeded`.
    pub fn new(contract_id: Vec<u8>, bytecode: Vec<u8>, fuel_limit: u64, max_depth: usize) -> (result:
        Result<CallStack, RuntimeError>)
        ensures
            match result {
                Ok(stack) => {
                    &&& max_depth >= 1
                    &&& stack@ == (StackState {
                        frames: seq![
                            FrameState {
                                contract_id: contract_id@,
                                bytecode: bytecode@,
                                context: fresh_context(),
                            },
                        ],
                        max_depth: max_depth as nat,
                        fuel_limit,
                        fuel: fuel_limit,
                    })
                },
                Err(error) => max_depth == 0 && error == RuntimeError::CallDepthExceeded,
            },
    {
        if max_depth == 0 {
            return Err(RuntimeError::CallDepthExceeded);
        }
        let root = Frame { contract_id, bytecode, context: ExecutionContext::new(0) };
        let stack = CallStack {
            root,
            callees: Vec::new(),
            max_depth,
            fuel_limit,
            fuel: fuel_limit,
        };
        assert(stack@.frames =~= seq![
            FrameState {
                contract_id: contract_id@,
                bytecode: bytecode@,
                context: fresh_context(),
            },
        ]);
        Ok(stack)
    }

    /// The number of frames.
    pub fn depth(&self) -> (depth: usize)
        ensures
            depth == self@.depth(),
            self@.wf(),
    {
        proof {
            use_type_invariant(self);
        }
        self.callees.len() + 1
    }

    /// The greatest number of frames the stack may hold.
    pub fn max_depth(&self) -> (limit: usize)
        ensures
            limit == self@.max_depth,
    {
        self.max_depth
    }

    /// The fuel budget that the whole chain is held to.
    pub fn fuel_limit(&self) -> (fuel: u64)
        ensures
            fuel == self@.fuel_limit,
    {
        self.fuel_limit
    }

    /// What is left of the budget, as far as the stack has been told.
    pub fn fuel(&self) -> (fuel: u64)
        ensures
            fuel == self@.fuel,
            fuel <= self@.fuel_limit,
    {
        proof {
            use_type_invariant(self);
        }
        self.fuel
    }

    /// Takes note that `fuel_left` is left of the budget.
    pub fn charge(&mut self, fuel_left: u64)
        ensures
            final(self)@ == old(self)@.charged(fuel_left),
    {
        proof {
            use_type_invariant(&*self);
        }
        if fuel_left < self.fuel {
            self.fuel = fuel_left;
        }
    }

    /// The identifier of the running contract.
    pub fn contract_id(&self) -> (id: &[u8])
        ensures
            id@ == self@.top().contract_id,
    {
        let count: usize = self.callees.len();
        if count == 0 {
            self.root.contract_id.as_slice()
        } else {
            self.callees[count - 1].contract_id.as_slice()
        }
    }

    /// The bytecode of the running contract.
    pub fn bytecode(&self) -> (code: &[u8])
        ensures
            code@ == self@.top().bytecode,
    {
        let count: usize = self.callees.len();
        if count == 0 {
            self.root.bytecode.as_slice()
        } else {
            self.callees[count - 1].bytecode.as_slice()
        }
    }

    /// The identifier of the contract that called the running one; empty
    /// for the contract that the embedder started.
    pub fn get_caller_current_frame(&self) -> (id: Vec<u8>)
        ensures
            id@ == self@.caller(),
    {
        let count: usize = self.callees.len();
        if count == 0 {
            Vec::new()
        } else if count == 1 {
            to_vec(self.root.contract_id.as_slice())
        } else {
            to_vec(self.callees[count - 2].contract_id.as_slice())
        }
    }

    /// The execution context of the running contract.
    pub fn context(&self) -> (ctx: &ExecutionContext)
        ensures
            ctx@ == self@.top().context,
    {
        let count: usize = self.callees.len();
        if count == 0 {
            &self.root.context
        } else {
            &self.callees[count - 1].context
        }
    }

    /// The execution context of the running contract, to act on. Nothing
    /// else of the stack can change through it.
    pub fn context_mut(&mut self) -> (ctx: &mut ExecutionContext)
        ensures
            old(self)@.wf(),
            ctx@ == old(self)@.top().context,
            final(self)@ == old(self)@.with_context(final(ctx)@),
    {
        proof {
            use_type_invariant(&*self);
        }
        let count: usize = self.callees.len();
        if count == 0 {
            let ctx = context_of(&mut self.root);
            proof {
                assert(old(self)@.with_context(final(ctx)@).frames =~= after_borrow(
                    self,
                )@.frames);
            }
            ctx
        } else {
            let ctx = &mut self.callees[count - 1].context;
            proof {
                assert(old(self)@.with_context(final(ctx)@).frames =~= after_borrow(
                    self,
                )@.frames);
            }
            ctx
        }
    }

    /// `CallContract`, second step: takes the registry's answer to the
    /// request and, where the call can go on, drains the running frame's
    /// staged arguments and payments into it.
    pub fn stage_call(&mut self, request: CallRequest, resolved: Result<Vec<u8>, RuntimeError>) -> (result:
        Result<StagedCall, Completion>)
        ensures
            old(self)@.wf(),
            final(self)@ == stage_call_spec(
                old(self)@,
                request.contract_id@,
                name_of(request.func_name),
                resolved_of(resolved),
            ).0,
            match result {
                Ok(call) => stage_call_spec(
                    old(self)@,
                    request.contract_id@,
                    name_of(request.func_name),
                    resolved_of(resolved),
                ).1 == Ok::<StagedState, Completion>(call@) && distinct(call@.payments),
                Err(completion) => stage_call_spec(
                    old(self)@,
                    request.contract_id@,
                    name_of(request.func_name),
                    resolved_of(resolved),
                ).1 == Err::<StagedState, Completion>(completion),
            },
    {
        proof {
            use_type_invariant(&*self);
        }
        let bytecode = match resolved {
            Ok(bytecode) => bytecode,
            Err(error) => {
                return Err(complete(error));
            },
        };
        let func_name = match request.func_name {
            Ok(name) => name,
            Err(error) => {
                return Err(complete(error));
            },
        };
        if self.callees.len() + 1 >= self.max_depth {
            return Err(Completion::Abort(RuntimeError::CallDepthExceeded));
        }
        let staged = self.context_mut().args_and_payments();
        Ok(
            StagedCall {
                contract_id: request.contract_id,
                bytecode,
                func_name,
                input_data: staged.input_data,
                payments: staged.payments,
            },
        )
    }

    /// `CallContract`, third step: takes the settlement's answer and the
    /// fuel that the caller has left and, where the call can go on, pushes
    /// the callee's frame.
    pub fn enter(
        &mut self,
        call: StagedCall,
        settled: Result<(), RuntimeError>,
        fuel_left: u64,
    ) -> (result: Result<Invocation, Completion>)
        ensures
            old(self)@.wf(),
            final(self)@ == enter_spec(old(self)@, call@, settled, fuel_left).0,
            match result {
                Ok(invocation) => enter_spec(old(self)@, call@, settled, fuel_left).1 == Ok::<
                    InvocationState,
                    Completion,
                >(invocation@),
                Err(completion) => enter_spec(old(self)@, call@, settled, fuel_left).1 == Err::<
                    InvocationState,
                    Completion,
                >(completion),
            },
    {
        proof {
            use_type_invariant(&*self);
        }
        self.charge(fuel_left);
        let ghost noted = self@;
        match settled {
            Ok(_) => {},
            Err(error) => {
                return Err(complete(error));
            },
        }
        if self.callees.len() + 1 >= self.max_depth {
            return Err(Completion::Abort(RuntimeError::CallDepthExceeded));
        }
        let frame = Frame {
            contract_id: call.contract_id,
            bytecode: call.bytecode,
            context: ExecutionContext::new(0),
        };
        let mut callees: Vec<Frame> = Vec::new();
        core::mem::swap(&mut self.callees, &mut callees);
        callees.push(frame);
        self.callees = callees;
        proof {
            assert(self@.frames =~= noted.pushed(call@.contract_id, call@.bytecode).frames);
        }
        Ok(
            Invocation {
                func_name: call.func_name,
                input_data: call.input_data,
                fuel_limit: self.fuel,
            },
        )
    }

    /// `CallContract`, last step: takes what the callee's run ended with and
    /// the fuel that it has left, pops the callee's frame, and says how the
    /// caller goes on. The caller goes on with the fuel that [`Self::fuel`]
    /// then tells.
    pub fn leave(&mut self, outcome: Outcome, fuel_left: u64) -> (completion: Completion)
        ensures
            old(self)@.wf(),
            final(self)@ == leave_spec(old(self)@, outcome_of(outcome), fuel_left).0,
            completion == leave_spec(old(self)@, outcome_of(outcome), fuel_left).1,
    {
        proof {
            use_type_invariant(&*self);
        }
        self.charge(fuel_left);
        let ghost noted = self@;
        if self.callees.len() > 0 {
            let mut callees: Vec<Frame> = Vec::new();
            core::mem::swap(&mut self.callees, &mut callees);
            callees.pop();
            self.callees = callees;
            proof {
                assert(self@.frames =~= noted.popped().frames);
            }
        }
        judge(&outcome)
    }
}

/// The view of a registry's answer.
pub open spec fn resolved_of(resolved: Result<Vec<u8>, RuntimeError>) -> Result<
    Seq<u8>,
    RuntimeError,
> {
    match resolved {
        Ok(bytecode) => Ok(bytecode@),
        Err(error) => Err(error),
    }
}

} // verus!