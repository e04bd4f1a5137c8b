use wevm_core::context::ExecutionContext;
use wevm_core::data_entry::DataEntry;
use wevm_core::env::{call_arg_binary, call_arg_bool, call_arg_int, call_arg_string, call_payment};
use wevm_core::payments::{saturating_sum, Payments};

fn memory() -> Vec<u8> {
    let mut bytes = vec![0u8; 32];
    bytes[0..2].copy_from_slice(b"Hi");
    bytes[2] = 0xff;
    bytes[8] = b'X';
    bytes[9] = b'Y';
    bytes
}

fn binary_at(ctx: &ExecutionContext, index: usize) -> Vec<u8> {
    match ctx.arg(index) {
        Some(DataEntry::Binary(bytes)) => bytes.clone(),
        _ => panic!("no binary entry at {}", index),
    }
}

fn string_at(ctx: &ExecutionContext, index: usize) -> Vec<u8> {
    match ctx.arg(index) {
        Some(DataEntry::String(bytes)) => bytes.clone(),
        _ => panic!("no string entry at {}", index),
    }
}

#[test]
fn arguments_are_staged_in_call_order() {
    let mut ctx = ExecutionContext::new(0);
    call_arg_int(&mut ctx, 7);
    call_arg_bool(&mut ctx, 1);
    call_arg_int(&mut ctx, -3);
    assert_eq!(ctx.args_len(), 3);
    assert!(matches!(ctx.arg(0), Some(DataEntry::Integer(7))));
    assert!(matches!(ctx.arg(1), Some(DataEntry::Boolean(1))));
    assert!(matches!(ctx.arg(2), Some(DataEntry::Integer(-3))));
    assert!(ctx.arg(3).is_none());
}

#[test]
fn call_arg_binary_appends_the_region() {
    let memory = memory();
    let mut ctx = ExecutionContext::new(0);
    assert_eq!(call_arg_binary(Some(&memory), &mut ctx, 0, 3), 0);
    assert_eq!(ctx.args_len(), 1);
    assert_eq!(binary_at(&ctx, 0), vec![b'H', b'i', 0xff]);
    assert_eq!(call_arg_binary(Some(&memory), &mut ctx, 32, 0), 0);
    assert_eq!(ctx.args_len(), 2);
    assert_eq!(binary_at(&ctx, 1), Vec::<u8>::new());
}

#[test]
fn call_arg_binary_out_of_bounds_appends_nothing() {
    let memory = memory();
    let mut ctx = ExecutionContext::new(0);
    assert_eq!(call_arg_binary(Some(&memory), &mut ctx, 30, 3), -1);
    assert_eq!(call_arg_binary(Some(&memory), &mut ctx, 33, 0), -1);
    assert_eq!(call_arg_binary(Some(&memory), &mut ctx, u32::MAX, u32::MAX), -1);
    assert_eq!(call_arg_binary(None, &mut ctx, 0, 1), -1);
    assert_eq!(ctx.args_len(), 0);
}

#[test]
fn call_arg_string_appends_valid_text_only() {
    let memory = memory();
    let mut ctx = ExecutionContext::new(0);
    assert_eq!(call_arg_string(Some(&memory), &mut ctx, 0, 2), 0);
    assert_eq!(ctx.args_len(), 1);
    assert_eq!(string_at(&ctx, 0), b"Hi".to_vec());
    assert_eq!(call_arg_string(Some(&memory), &mut ctx, 0, 3), -2);
    assert_eq!(call_arg_string(Some(&memory), &mut ctx, 31, 2), -1);
    assert_eq!(call_arg_string(None, &mut ctx, 0, 2), -1);
    assert_eq!(ctx.args_len(), 1);
}

#[test]
fn payments_for_one_asset_accumulate() {
    let memory = memory();
    let mut ctx = ExecutionContext::new(0);
    assert_eq!(call_payment(Some(&memory), &mut ctx, 8, 1, 3), 0);
    assert_eq!(call_payment(Some(&memory), &mut ctx, 8, 1, 4), 0);
    assert_eq!(ctx.payments().len(), 1);
    assert_eq!(ctx.payments().amount(b"X"), 7);
    let staged = ctx.args_and_payments();
    assert_eq!(staged.payments.len(), 1);
    assert_eq!(staged.payments[0].asset_id, b"X".to_vec());
    assert_eq!(staged.payments[0].amount, 7);
    assert!(ctx.payments().is_empty());
}

#[test]
fn payments_keep_assets_apart_and_in_order() {
    let memory = memory();
    let mut ctx = ExecutionContext::new(0);
    assert_eq!(call_payment(Some(&memory), &mut ctx, 9, 1, 10), 0);
    assert_eq!(call_payment(Some(&memory), &mut ctx, 8, 1, -5), 0);
    assert_eq!(call_payment(Some(&memory), &mut ctx, 9, 1, 1), 0);
    assert_eq!(call_payment(Some(&memory), &mut ctx, 8, 2, 0), 0);
    let ledger = ctx.payments();
    assert_eq!(ledger.len(), 3);
    assert_eq!(ledger.get(0).unwrap().asset_id, b"Y".to_vec());
    assert_eq!(ledger.get(0).unwrap().amount, 11);
    assert_eq!(ledger.get(1).unwrap().asset_id, b"X".to_vec());
    assert_eq!(ledger.get(1).unwrap().amount, -5);
    assert_eq!(ledger.get(2).unwrap().asset_id, b"XY".to_vec());
    assert_eq!(ledger.get(2).unwrap().amount, 0);
    assert!(ledger.get(3).is_none());
    assert_eq!(ledger.amount(b"Z"), 0);
}

#[test]
fn call_payment_without_memory_declares_nothing() {
    let memory = memory();
    let mut ctx = ExecutionContext::new(0);
    assert_eq!(call_payment(None, &mut ctx, 8, 1, 3), -1);
    assert_eq!(call_payment(Some(&memory), &mut ctx, 32, 1, 3), -1);
    assert!(ctx.payments().is_empty());
}

#[test]
fn sums_stay_at_the_bound_they_cross() {
    assert_eq!(saturating_sum(3, 4), 7);
    assert_eq!(saturating_sum(i64::MAX, 1), i64::MAX);
    assert_eq!(saturating_sum(i64::MIN, -1), i64::MIN);
    assert_eq!(saturating_sum(i64::MAX, i64::MIN), -1);
    assert_eq!(saturating_sum(i64::MIN, i64::MIN), i64::MIN);
    let mut ledger = Payments::new();
    ledger.push(b"A", i64::MAX);
    ledger.push(b"A", 5);
    assert_eq!(ledger.amount(b"A"), i64::MAX);
    ledger.push(b"A", -5);
    assert_eq!(ledger.amount(b"A"), i64::MAX - 5);
}

#[test]
fn staged_state_is_drained_together_and_once() {
    let memory = memory();
    let mut ctx = ExecutionContext::new(16);
    call_arg_int(&mut ctx, 2);
    assert_eq!(call_arg_string(Some(&memory), &mut ctx, 0, 2), 0);
    assert_eq!(call_payment(Some(&memory), &mut ctx, 8, 1, 3), 0);
    let staged = ctx.args_and_payments();
    assert_eq!(
        staged.input_data,
        vec![0, 2, 0, 0, 0, 0, 0, 0, 0, 0, 0, 0, 2, 0, 0, 3, 0, 0, 0, 2, b'H', b'i']
    );
    assert_eq!(staged.payments.len(), 1);
    assert_eq!(ctx.args_len(), 0);
    assert!(ctx.payments().is_empty());
    assert_eq!(ctx.heap_base(), 16);
    let again = ctx.args_and_payments();
    assert_eq!(again.input_data, vec![0, 0]);
    assert!(again.payments.is_empty());
}

#[test]
fn heap_base_can_be_moved() {
    let mut ctx = ExecutionContext::new(5);
    assert_eq!(ctx.heap_base(), 5);
    ctx.set_heap_base(1024);
    assert_eq!(ctx.heap_base(), 1024);
    ctx.push_arg(DataEntry::Binary(vec![1]));
    assert_eq!(ctx.args_len(), 1);
    assert_eq!(ctx.heap_base(), 1024);
}
