use wevm_core::context::ExecutionContext;
use wevm_core::env::{call_arg_int, call_payment, caller};
use wevm_core::error::RuntimeError;
use wevm_core::catalog::ValueType;
use wevm_core::stack::{
    call_contract, classify, complete, exit_status, judge, marshal, CallRequest, CallStack,
    Completion, Outcome, StagedCall, Value,
};

fn memory() -> Vec<u8> {
    let mut bytes = vec![0u8; 64];
    bytes[2..5].copy_from_slice(b"two");
    bytes[5..8].copy_from_slice(b"sum");
    bytes[8] = 0xff;
    bytes[10] = b'X';
    bytes
}

fn root() -> CallStack {
    CallStack::new(b"one".to_vec(), vec![0, 97, 115, 109], 1024, 4).unwrap()
}

fn request(memory: &[u8]) -> CallRequest {
    call_contract(Some(memory), 2, 3, 5, 3).unwrap()
}

fn staged(stack: &mut CallStack, memory: &[u8], bytecode: Vec<u8>) -> StagedCall {
    stack.stage_call(request(memory), Ok(bytecode)).unwrap()
}

#[test]
fn a_new_stack_holds_the_started_contract() {
    let stack = root();
    assert_eq!(stack.depth(), 1);
    assert_eq!(stack.max_depth(), 4);
    assert_eq!(stack.fuel_limit(), 1024);
    assert_eq!(stack.contract_id(), b"one");
    assert_eq!(stack.bytecode(), &[0, 97, 115, 109]);
    assert_eq!(stack.get_caller_current_frame(), Vec::<u8>::new());
    assert_eq!(stack.context().args_len(), 0);
    assert_eq!(stack.context().heap_base(), 0);
}

#[test]
fn a_stack_needs_room_for_one_frame() {
    let result = CallStack::new(vec![], vec![], 1, 0);
    assert!(matches!(result, Err(RuntimeError::CallDepthExceeded)));
    assert!(CallStack::new(vec![], vec![], 0, 1).is_ok());
}

#[test]
fn call_contract_reads_the_request() {
    let memory = memory();
    let request = call_contract(Some(&memory), 2, 3, 5, 3).unwrap();
    assert_eq!(request.contract_id, b"two".to_vec());
    assert_eq!(request.func_name, Ok("sum".to_string()));
}

#[test]
fn call_contract_without_the_identifier_is_over() {
    let memory = memory();
    assert_eq!(
        call_contract(Some(&memory), 62, 3, 5, 3).unwrap_err(),
        Completion::Resume(-1)
    );
    assert_eq!(call_contract(None, 2, 3, 5, 3).unwrap_err(), Completion::Resume(-1));
}

#[test]
fn a_bad_function_name_waits_for_the_registry() {
    let memory = memory();
    let request = call_contract(Some(&memory), 2, 3, 8, 1).unwrap();
    assert_eq!(request.func_name, Err(RuntimeError::Utf8Error));
    let request = call_contract(Some(&memory), 2, 3, 63, 2).unwrap();
    assert_eq!(request.func_name, Err(RuntimeError::MemoryNotFound));

    let mut stack = root();
    call_arg_int(stack.context_mut(), 2);
    let request = call_contract(Some(&memory), 2, 3, 8, 1).unwrap();
    let answer = stack.stage_call(request, Err(RuntimeError::ContractNotFound));
    assert_eq!(answer.unwrap_err(), Completion::Resume(-6));
    let request = call_contract(Some(&memory), 2, 3, 8, 1).unwrap();
    let answer = stack.stage_call(request, Ok(vec![1]));
    assert_eq!(answer.unwrap_err(), Completion::Resume(-2));
    assert_eq!(stack.context().args_len(), 1);
    assert_eq!(stack.depth(), 1);
}

#[test]
fn an_unknown_contract_leaves_no_frame_behind() {
    let memory = memory();
    let mut stack = root();
    call_arg_int(stack.context_mut(), 2);
    assert_eq!(call_payment(Some(&memory), stack.context_mut(), 10, 1, 3), 0);
    let answer = stack.stage_call(request(&memory), Err(RuntimeError::ContractNotFound));
    assert_eq!(
        answer.unwrap_err(),
        Completion::Resume(RuntimeError::ContractNotFound.as_i32())
    );
    assert_eq!(stack.depth(), 1);
    assert_eq!(stack.contract_id(), b"one");
    assert_eq!(stack.context().args_len(), 1);
    assert_eq!(stack.context().payments().amount(b"X"), 3);
    let answer = stack.stage_call(request(&memory), Err(RuntimeError::InvalidBytecode));
    assert_eq!(answer.unwrap_err(), Completion::Resume(-5));
    assert_eq!(stack.depth(), 1);
}

#[test]
fn sum_of_two_and_two_surfaces_the_callee_status() {
    let memory = memory();
    let mut stack = root();
    call_arg_int(stack.context_mut(), 2);
    let call = staged(&mut stack, &memory, vec![9, 9]);
    assert_eq!(call.contract_id, b"two".to_vec());
    assert_eq!(call.bytecode, vec![9, 9]);
    assert_eq!(call.func_name, "sum");
    assert_eq!(call.input_data, vec![0, 1, 0, 0, 0, 0, 0, 0, 0, 0, 0, 0, 2]);
    assert!(call.payments.is_empty());
    assert_eq!(stack.context().args_len(), 0);

    let invocation = stack.enter(call, Ok(()), 1024).unwrap();
    assert_eq!(invocation.func_name, "sum");
    assert_eq!(invocation.input_data, vec![0, 1, 0, 0, 0, 0, 0, 0, 0, 0, 0, 0, 2]);
    assert_eq!(invocation.fuel_limit, 1024);
    assert_eq!(stack.depth(), 2);
    assert_eq!(stack.contract_id(), b"two");
    assert_eq!(stack.bytecode(), &[9, 9]);
    assert_eq!(stack.get_caller_current_frame(), b"one".to_vec());
    assert_eq!(stack.context().args_len(), 0);

    let status = stack.leave(Outcome::Returned(vec![Value::I32(0)]), 1024);
    assert_eq!(status, Completion::Resume(0));
    assert_eq!(stack.depth(), 1);
    assert_eq!(stack.contract_id(), b"one");
    assert_eq!(stack.context().args_len(), 0);
    assert!(stack.context().payments().is_empty());
}

#[test]
fn staged_payments_go_with_the_call() {
    let memory = memory();
    let mut stack = root();
    assert_eq!(call_payment(Some(&memory), stack.context_mut(), 10, 1, 3), 0);
    assert_eq!(call_payment(Some(&memory), stack.context_mut(), 10, 1, 4), 0);
    let call = staged(&mut stack, &memory, vec![]);
    assert_eq!(call.payments.len(), 1);
    assert_eq!(call.payments[0].asset_id, b"X".to_vec());
    assert_eq!(call.payments[0].amount, 7);
    assert_eq!(call.input_data, vec![0, 0]);
    assert!(stack.context().payments().is_empty());
}

#[test]
fn a_failed_settlement_ends_the_call() {
    let memory = memory();
    let mut stack = root();
    call_arg_int(stack.context_mut(), 2);
    let call = staged(&mut stack, &memory, vec![]);
    let answer = stack.enter(call, Err(RuntimeError::SettlementFailed), 1024);
    assert_eq!(answer.unwrap_err(), Completion::Resume(-7));
    assert_eq!(stack.depth(), 1);
    assert_eq!(stack.context().args_len(), 0);
}

#[test]
fn the_callee_status_is_surfaced_verbatim() {
    let memory = memory();
    for status in [0, 1, -1, 300, i32::MAX, i32::MIN] {
        let mut stack = root();
        let call = staged(&mut stack, &memory, vec![]);
        stack.enter(call, Ok(()), 1024).unwrap();
        assert_eq!(
            stack.leave(Outcome::Returned(vec![Value::I32(status)]), 1024),
            Completion::Resume(status)
        );
        assert_eq!(stack.depth(), 1);
    }
}

#[test]
fn anything_but_one_i32_is_an_invalid_result() {
    let outcomes = vec![
        vec![],
        vec![Value::I64(0)],
        vec![Value::F32(0)],
        vec![Value::F64(0)],
        vec![Value::FuncRef],
        vec![Value::ExternRef],
        vec![Value::I32(0), Value::I32(0)],
    ];
    let memory = memory();
    for values in outcomes {
        assert_eq!(judge(&Outcome::Returned(values.clone())), Completion::Resume(-4));
        let mut stack = root();
        let call = staged(&mut stack, &memory, vec![]);
        stack.enter(call, Ok(()), 1024).unwrap();
        assert_eq!(stack.leave(Outcome::Returned(values), 1024), Completion::Resume(-4));
        assert_eq!(stack.depth(), 1);
    }
}

#[test]
fn a_failed_run_pops_the_frame_too() {
    let memory = memory();
    let mut stack = root();
    let call = staged(&mut stack, &memory, vec![]);
    stack.enter(call, Ok(()), 1024).unwrap();
    assert_eq!(
        stack.leave(Outcome::Failed(RuntimeError::InvalidBytecode), 1024),
        Completion::Resume(-5)
    );
    assert_eq!(stack.depth(), 1);
}

#[test]
fn the_depth_guard_ends_the_chain() {
    let memory = memory();
    let mut stack = root();
    for depth in 1..4 {
        assert_eq!(stack.depth(), depth);
        let call = staged(&mut stack, &memory, vec![]);
        assert!(stack.enter(call, Ok(()), 1024).is_ok());
    }
    assert_eq!(stack.depth(), 4);
    call_arg_int(stack.context_mut(), 2);
    let answer = stack.stage_call(request(&memory), Ok(vec![]));
    assert_eq!(
        answer.unwrap_err(),
        Completion::Abort(RuntimeError::CallDepthExceeded)
    );
    assert_eq!(stack.depth(), 4);
    assert_eq!(stack.context().args_len(), 1);
}

#[test]
fn the_depth_guard_holds_at_the_push_too() {
    let memory = memory();
    let mut shallow = CallStack::new(vec![], vec![], 1024, 2).unwrap();
    let first = staged(&mut shallow, &memory, vec![]);
    let second = staged(&mut shallow, &memory, vec![]);
    assert!(shallow.enter(first, Ok(()), 1024).is_ok());
    assert_eq!(shallow.depth(), 2);
    assert_eq!(
        shallow.enter(second, Ok(()), 1024).unwrap_err(),
        Completion::Abort(RuntimeError::CallDepthExceeded)
    );
    assert_eq!(shallow.depth(), 2);
}

#[test]
fn fuel_exhaustion_ends_every_frame_with_the_same_fault() {
    let memory = memory();
    for depth in 1..=4usize {
        let mut stack = root();
        for _ in 1..depth {
            let call = staged(&mut stack, &memory, vec![]);
            stack.enter(call, Ok(()), 1024).unwrap();
        }
        assert_eq!(stack.depth(), depth);
        let mut fault = RuntimeError::FuelExhausted;
        while stack.depth() > 1 {
            match stack.leave(Outcome::Failed(fault), 1024) {
                Completion::Abort(error) => {
                    assert_eq!(error, RuntimeError::FuelExhausted);
                    fault = error;
                }
                Completion::Resume(status) => panic!("resumed with {}", status),
            }
        }
        assert_eq!(
            stack.leave(Outcome::Failed(fault), 1024),
            Completion::Abort(RuntimeError::FuelExhausted)
        );
        assert_eq!(stack.depth(), 1);
        assert_eq!(fault.as_i32(), -8);
    }
}

#[test]
fn the_bottom_frame_is_never_popped() {
    let mut stack = root();
    assert_eq!(stack.leave(Outcome::Returned(vec![Value::I32(4)]), 1024), Completion::Resume(4));
    assert_eq!(stack.depth(), 1);
    assert_eq!(stack.contract_id(), b"one");
}

#[test]
fn failures_complete_by_their_kind() {
    assert_eq!(complete(RuntimeError::MemoryNotFound), Completion::Resume(-1));
    assert_eq!(complete(RuntimeError::ContractNotFound), Completion::Resume(-6));
    assert_eq!(
        complete(RuntimeError::FuelExhausted),
        Completion::Abort(RuntimeError::FuelExhausted)
    );
    assert_eq!(
        complete(RuntimeError::CallDepthExceeded),
        Completion::Abort(RuntimeError::CallDepthExceeded)
    );
    assert_eq!(
        judge(&Outcome::Failed(RuntimeError::FuelExhausted)),
        Completion::Abort(RuntimeError::FuelExhausted)
    );
}

#[test]
fn a_callee_stages_in_its_own_frame() {
    let memory = memory();
    let mut stack = root();
    call_arg_int(stack.context_mut(), 1);
    call_arg_int(stack.context_mut(), 2);
    let call = staged(&mut stack, &memory, vec![]);
    call_arg_int(stack.context_mut(), 3);
    stack.enter(call, Ok(()), 1024).unwrap();
    assert_eq!(stack.context().args_len(), 0);
    call_arg_int(stack.context_mut(), 9);
    call_arg_int(stack.context_mut(), 9);
    assert_eq!(stack.context().args_len(), 2);
    stack.leave(Outcome::Returned(vec![Value::I32(0)]), 1024);
    assert_eq!(stack.context().args_len(), 1);
}

#[test]
fn caller_stores_who_called() {
    let mut memory = memory();
    let mut stack = root();
    stack.context_mut().set_heap_base(32);
    assert_eq!(caller(Some(&mut memory), &mut stack), (0, 32, 0));
    assert_eq!(stack.context().heap_base(), 32);

    let call = staged(&mut stack, &memory.clone(), vec![]);
    stack.enter(call, Ok(()), 1024).unwrap();
    stack.context_mut().set_heap_base(40);
    assert_eq!(caller(Some(&mut memory), &mut stack), (0, 40, 3));
    assert_eq!(&memory[40..43], b"one");
    assert_eq!(stack.context().heap_base(), 43);

    let call = staged(&mut stack, &memory.clone(), vec![]);
    stack.enter(call, Ok(()), 1024).unwrap();
    stack.context_mut().set_heap_base(62);
    assert_eq!(caller(Some(&mut memory), &mut stack), (-1, 0, 0));
    assert_eq!(stack.context().heap_base(), 62);
    stack.context_mut().set_heap_base(50);
    assert_eq!(caller(Some(&mut memory), &mut stack), (0, 50, 3));
    assert_eq!(&memory[50..53], b"two");
    assert_eq!(caller(None, &mut stack), (-1, 0, 0));
    assert_eq!(stack.context().heap_base(), 53);
}

#[test]
fn a_context_alone_can_be_driven_too() {
    let mut ctx = ExecutionContext::new(0);
    call_arg_int(&mut ctx, 5);
    assert_eq!(ctx.args_and_payments().input_data, vec![0, 1, 0, 0, 0, 0, 0, 0, 0, 0, 0, 0, 5]);
}

fn wire(entries: &[&[u8]]) -> Vec<u8> {
    let mut bytes = vec![0, entries.len() as u8];
    for entry in entries {
        bytes.extend_from_slice(&[0, 0]);
        bytes.extend_from_slice(entry);
    }
    bytes
}

fn scalars(input: &[u8], params: &[ValueType]) -> Result<Vec<Value>, RuntimeError> {
    let mut ctx = ExecutionContext::new(0);
    marshal(input, params, None, &mut ctx)
}

#[test]
fn arguments_become_parameters_in_order() {
    let input = wire(&[
        &[0, 0, 0, 0, 0, 0, 0, 0, 2],
        &[1, 0, 0, 0, 1],
        &[0, 255, 255, 255, 255, 255, 255, 255, 255],
    ]);
    assert_eq!(
        scalars(&input, &[ValueType::I64, ValueType::I32, ValueType::I32]),
        Ok(vec![Value::I64(2), Value::I32(1), Value::I32(-1)])
    );
    assert_eq!(scalars(&[], &[]), Ok(vec![]));
    assert_eq!(scalars(&[0, 0], &[]), Ok(vec![]));
    assert_eq!(
        scalars(&wire(&[&[0, 0, 0, 0, 0, 127, 255, 255, 255]]), &[ValueType::I32]),
        Ok(vec![Value::I32(i32::MAX)])
    );
    assert_eq!(
        scalars(&wire(&[&[0, 255, 255, 255, 255, 128, 0, 0, 0]]), &[ValueType::I32]),
        Ok(vec![Value::I32(i32::MIN)])
    );
}

#[test]
fn a_keyed_integer_becomes_a_parameter() {
    let input = [
        0, 1, 0, 8, 116, 101, 115, 116, 95, 107, 101, 121, 0, 0, 0, 0, 0, 0, 0, 0, 1,
    ];
    assert_eq!(scalars(&input, &[ValueType::I32]), Ok(vec![Value::I32(1)]));
    assert_eq!(scalars(&input, &[ValueType::I64]), Ok(vec![Value::I64(1)]));
    assert_eq!(scalars(&input, &[ValueType::F32]), Err(RuntimeError::InvalidBytecode));
}

#[test]
fn arguments_that_do_not_fit_are_refused() {
    let two = wire(&[&[0, 0, 0, 0, 0, 0, 0, 0, 2]]);
    let refused = Err(RuntimeError::InvalidBytecode);
    assert_eq!(scalars(&two, &[]), refused);
    assert_eq!(scalars(&two, &[ValueType::I64, ValueType::I64]), refused);
    assert_eq!(scalars(&two, &[ValueType::F32]), refused);
    assert_eq!(scalars(&two, &[ValueType::F64]), refused);
    assert_eq!(scalars(&two, &[ValueType::FuncRef]), refused);
    assert_eq!(scalars(&two, &[ValueType::ExternRef]), refused);
    assert_eq!(scalars(&[], &[ValueType::I32]), refused);
    assert_eq!(scalars(&wire(&[&[1, 0, 0, 0, 1]]), &[ValueType::I64]), refused);
    assert_eq!(scalars(&wire(&[&[2, 0, 0, 0, 1, 7]]), &[ValueType::I32]), refused);
    assert_eq!(scalars(&wire(&[&[3, 0, 0, 0, 1, 65]]), &[ValueType::I64, ValueType::I32]), refused);
    assert_eq!(scalars(&wire(&[&[0, 0, 0, 0, 0, 128, 0, 0, 0]]), &[ValueType::I32]), refused);
    assert_eq!(
        scalars(&wire(&[&[0, 255, 255, 255, 255, 127, 255, 255, 255]]), &[ValueType::I32]),
        refused
    );
    assert_eq!(scalars(&[9], &[ValueType::I32]), refused);
    assert_eq!(scalars(&[0, 1, 0, 0, 0, 1], &[ValueType::I64]), refused);
    assert_eq!(scalars(&[0, 0, 0, 0, 0, 0, 0, 0, 2], &[ValueType::I64]), refused);
}

#[test]
fn binaries_and_strings_are_stored_for_the_callee() {
    let input = wire(&[&[2, 0, 0, 0, 3, 9, 8, 7], &[0, 0, 0, 0, 0, 0, 0, 0, 5], &[3, 0, 0, 0, 2, b'H', b'i']]);
    let params = [ValueType::I32, ValueType::I32, ValueType::I64, ValueType::I32, ValueType::I32];
    let mut memory = vec![0u8; 32];
    let mut ctx = ExecutionContext::new(10);
    let values = marshal(&input, &params, Some(&mut memory), &mut ctx).unwrap();
    assert_eq!(
        values,
        vec![Value::I32(10), Value::I32(3), Value::I64(5), Value::I32(13), Value::I32(2)]
    );
    assert_eq!(&memory[10..15], &[9, 8, 7, b'H', b'i']);
    assert_eq!(&memory[..10], &[0; 10]);
    assert_eq!(ctx.heap_base(), 15);
}

#[test]
fn bytes_without_room_are_a_memory_failure() {
    let input = wire(&[&[2, 0, 0, 0, 3, 9, 8, 7]]);
    let params = [ValueType::I32, ValueType::I32];
    let mut ctx = ExecutionContext::new(0);
    assert_eq!(marshal(&input, &params, None, &mut ctx), Err(RuntimeError::MemoryNotFound));
    let mut memory = vec![0u8; 4];
    let mut ctx = ExecutionContext::new(2);
    assert_eq!(
        marshal(&input, &params, Some(&mut memory), &mut ctx),
        Err(RuntimeError::MemoryNotFound)
    );
    assert_eq!(memory, vec![0; 4]);
    assert_eq!(ctx.heap_base(), 2);
    assert_eq!(
        marshal(&input, &[ValueType::I32], Some(&mut memory), &mut ctx),
        Err(RuntimeError::InvalidBytecode)
    );
    let two = wire(&[&[2, 0, 0, 0, 1, 1], &[2, 0, 0, 0, 3, 9, 8, 7]]);
    let four = [ValueType::I32; 4];
    assert_eq!(
        marshal(&two, &four, Some(&mut memory), &mut ctx),
        Err(RuntimeError::MemoryNotFound)
    );
    assert_eq!(memory, vec![0, 0, 1, 0]);
    assert_eq!(ctx.heap_base(), 3);
}

#[test]
fn a_cut_short_run_is_classified() {
    assert_eq!(classify(None, true), RuntimeError::FuelExhausted);
    assert_eq!(classify(None, false), RuntimeError::InvalidBytecode);
    assert_eq!(classify(Some(-8), false), RuntimeError::FuelExhausted);
    assert_eq!(classify(Some(-9), true), RuntimeError::CallDepthExceeded);
    assert_eq!(classify(Some(-1), false), RuntimeError::MemoryNotFound);
    assert_eq!(classify(Some(0), false), RuntimeError::InvalidBytecode);
    assert_eq!(classify(Some(7), true), RuntimeError::InvalidBytecode);
    for error in [
        RuntimeError::MemoryNotFound,
        RuntimeError::FuelExhausted,
        RuntimeError::CallDepthExceeded,
        RuntimeError::SettlementFailed,
    ] {
        assert_eq!(exit_status(error), error.as_i32());
        assert_eq!(classify(Some(exit_status(error)), false), error);
    }
}

#[test]
fn fuel_only_shrinks() {
    let memory = memory();
    let mut stack = root();
    assert_eq!(stack.fuel(), 1024);
    let call = staged(&mut stack, &memory, vec![]);
    let invocation = stack.enter(call, Ok(()), 1000).unwrap();
    assert_eq!(invocation.fuel_limit, 1000);
    assert_eq!(stack.fuel(), 1000);
    assert_eq!(stack.leave(Outcome::Returned(vec![Value::I32(0)]), 2000), Completion::Resume(0));
    assert_eq!(stack.fuel(), 1000);
    let call = staged(&mut stack, &memory, vec![]);
    let invocation = stack.enter(call, Ok(()), 5000).unwrap();
    assert_eq!(invocation.fuel_limit, 1000);
    assert_eq!(stack.leave(Outcome::Failed(RuntimeError::FuelExhausted), 0),
        Completion::Abort(RuntimeError::FuelExhausted));
    assert_eq!(stack.fuel(), 0);
    assert_eq!(stack.fuel_limit(), 1024);
    stack.charge(7);
    assert_eq!(stack.fuel(), 0);
}
