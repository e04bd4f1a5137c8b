use wevm_core::bytes::{equal, reversed, same_text, to_vec};
use wevm_core::codec::{from_base58, to_base58};
use wevm_core::context::ExecutionContext;
use wevm_core::env::{base58, bytes_equals, string_equals, to_base58_string, to_le_bytes};
use wevm_core::error::RuntimeError;

fn memory_with(at: usize, data: &[u8], size: usize) -> Vec<u8> {
    let mut memory = vec![0u8; size];
    memory[at..at + data.len()].copy_from_slice(data);
    memory
}

#[test]
fn base58_encodes_known_values() {
    assert_eq!(to_base58(b""), b"".to_vec());
    assert_eq!(to_base58(&[32]), b"Z".to_vec());
    assert_eq!(to_base58(&[45, 49]), b"4SU".to_vec());
    assert_eq!(to_base58(b"abc"), b"ZiCa".to_vec());
    assert_eq!(to_base58(b"1234598760"), b"3mJr7AoUXx2Wqd".to_vec());
    assert_eq!(to_base58(b"\0\0abc"), b"11ZiCa".to_vec());
    assert_eq!(to_base58(&[0, 0, 0]), b"111".to_vec());
    assert_eq!(to_base58(&[0]), b"1".to_vec());
}

#[test]
fn base58_decodes_known_values() {
    assert_eq!(from_base58(b""), Ok(vec![]));
    assert_eq!(from_base58(b"Z"), Ok(vec![32]));
    assert_eq!(from_base58(b"4SU"), Ok(vec![45, 49]));
    assert_eq!(from_base58(b"ZiCa"), Ok(b"abc".to_vec()));
    assert_eq!(from_base58(b"3mJr7AoUXx2Wqd"), Ok(b"1234598760".to_vec()));
    assert_eq!(from_base58(b"1ZiCa"), Ok(b"\0abc".to_vec()));
    assert_eq!(from_base58(b"1111ZiCa"), Ok(b"\0\0\0\0abc".to_vec()));
    assert_eq!(from_base58(b"1"), Ok(vec![0]));
}

#[test]
fn base58_rejects_what_is_not_base58() {
    for text in ["0", "O", "I", "l", "3mJr0", "O3yxU", "3sNI", "4kl8", "s!5<", "1 "] {
        assert_eq!(from_base58(text.as_bytes()), Err(RuntimeError::Base58Error));
    }
    assert_eq!(from_base58("\u{e9}".as_bytes()), Err(RuntimeError::Base58Error));
    assert_eq!(from_base58(&[0xff]), Err(RuntimeError::Base58Error));
    assert_eq!(from_base58(&[0xff, 0xfe]), Err(RuntimeError::Base58Error));
    assert_eq!(from_base58(&[b'1', 0xc3]), Err(RuntimeError::Base58Error));
}

#[test]
fn base58_round_trips() {
    let samples: Vec<Vec<u8>> = vec![
        vec![],
        vec![0],
        vec![0, 0, 0],
        vec![255],
        vec![0, 255, 0],
        b"hello world".to_vec(),
        (0u8..100).collect(),
        vec![255; 64],
    ];
    for bytes in samples {
        let text = to_base58(&bytes);
        assert_eq!(from_base58(&text), Ok(bytes));
    }
    for text in ["ZiCa", "11ZiCa", "3yxU3u1igY8WkgtjK92fbJQCd4BZiiT1v25f", "1", ""] {
        let bytes = from_base58(text.as_bytes()).unwrap();
        assert_eq!(to_base58(&bytes), text.as_bytes().to_vec());
    }
}

#[test]
fn base58_takes_any_number_of_leading_ones() {
    let text = vec![b'1'; 200];
    assert_eq!(from_base58(&text), Ok(vec![0u8; 200]));
    let mut text = vec![b'1'; 150];
    text.extend_from_slice(b"ZiCa");
    let mut expected = vec![0u8; 150];
    expected.extend_from_slice(b"abc");
    assert_eq!(from_base58(&text), Ok(expected));
}

#[test]
fn base58_host_function_stores_the_bytes() {
    let mut memory = memory_with(4, b"ZiCa", 64);
    let mut ctx = ExecutionContext::new(32);
    let answer = base58(4, 4, Some(&mut memory), &mut ctx);
    assert_eq!(answer, (0, 32, 3));
    assert_eq!(&memory[32..35], b"abc");
    assert_eq!(&memory[4..8], b"ZiCa");
    assert_eq!(ctx.heap_base(), 35);
    let answer = base58(4, 4, Some(&mut memory), &mut ctx);
    assert_eq!(answer, (0, 35, 3));
    assert_eq!(&memory[35..38], b"abc");
    assert_eq!(ctx.heap_base(), 38);
}

#[test]
fn base58_host_function_reports_each_failure() {
    let mut memory = memory_with(4, b"Zi0a", 16);
    memory[10] = 0xff;
    let before = memory.clone();
    let mut ctx = ExecutionContext::new(12);
    assert_eq!(base58(4, 4, Some(&mut memory), &mut ctx), (-3, 0, 0));
    assert_eq!(base58(10, 1, Some(&mut memory), &mut ctx), (-3, 0, 0));
    assert_eq!(base58(14, 4, Some(&mut memory), &mut ctx), (-1, 0, 0));
    assert_eq!(base58(4, 4, None, &mut ctx), (-1, 0, 0));
    assert_eq!(memory, before);
    assert_eq!(ctx.heap_base(), 12);
    let mut ctx = ExecutionContext::new(15);
    let mut memory = memory_with(4, b"ZiCa", 16);
    assert_eq!(base58(4, 4, Some(&mut memory), &mut ctx), (-1, 0, 0));
    assert_eq!(ctx.heap_base(), 15);
}

#[test]
fn to_base58_string_stores_the_text() {
    let mut memory = memory_with(0, b"abc", 32);
    let mut ctx = ExecutionContext::new(8);
    let answer = to_base58_string(0, 3, Some(&mut memory), &mut ctx);
    assert_eq!(answer, (0, 8, 4));
    assert_eq!(&memory[8..12], b"ZiCa");
    assert_eq!(ctx.heap_base(), 12);
    assert_eq!(to_base58_string(30, 3, Some(&mut memory), &mut ctx), (-1, 0, 0));
    assert_eq!(to_base58_string(0, 3, None, &mut ctx), (-1, 0, 0));
    assert_eq!(ctx.heap_base(), 12);
}

#[test]
fn base58_host_functions_undo_each_other() {
    let mut memory = memory_with(0, &[0, 1, 2, 3, 250], 128);
    let mut ctx = ExecutionContext::new(16);
    let (status, offset, length) = to_base58_string(0, 5, Some(&mut memory), &mut ctx);
    assert_eq!(status, 0);
    let (status, back, size) = base58(offset, length, Some(&mut memory), &mut ctx);
    assert_eq!(status, 0);
    assert_eq!(size, 5);
    assert_eq!(&memory[back as usize..(back + size) as usize], &[0, 1, 2, 3, 250]);
}

#[test]
fn to_le_bytes_turns_the_region_around() {
    let mut memory = memory_with(0, &[1, 2, 3, 4], 16);
    let mut ctx = ExecutionContext::new(8);
    assert_eq!(to_le_bytes(0, 4, Some(&mut memory), &mut ctx), (0, 8, 4));
    assert_eq!(&memory[8..12], &[4, 3, 2, 1]);
    assert_eq!(&memory[0..4], &[1, 2, 3, 4]);
    assert_eq!(ctx.heap_base(), 12);
    assert_eq!(to_le_bytes(0, 0, Some(&mut memory), &mut ctx), (0, 12, 0));
    assert_eq!(to_le_bytes(15, 4, Some(&mut memory), &mut ctx), (-1, 0, 0));
    assert_eq!(to_le_bytes(0, 4, None, &mut ctx), (-1, 0, 0));
    assert_eq!(ctx.heap_base(), 12);
}

#[test]
fn concat_stores_left_then_right() {
    let mut memory = memory_with(0, b"leftRIGHT", 64);
    let mut ctx = ExecutionContext::new(20);
    let (status, offset, length) = wevm_core::env::concat(0, 4, 4, 5, Some(&mut memory), &mut ctx);
    assert_eq!((status, offset, length), (0, 20, 9));
    let at = offset as usize;
    assert_eq!(&memory[at..at + 4], b"left");
    assert_eq!(&memory[at + 4..at + 9], b"RIGHT");
    assert_eq!(ctx.heap_base(), 29);
    let (status, offset, length) = wevm_core::env::concat(4, 5, 0, 4, Some(&mut memory), &mut ctx);
    assert_eq!((status, offset, length), (0, 29, 9));
    assert_eq!(&memory[29..38], b"RIGHTleft");
}

#[test]
fn concat_reports_each_failure() {
    let mut memory = memory_with(0, b"leftRIGHT", 16);
    let before = memory.clone();
    let mut ctx = ExecutionContext::new(10);
    assert_eq!(wevm_core::env::concat(0, 4, 4, 5, Some(&mut memory), &mut ctx), (-1, 0, 0));
    assert_eq!(wevm_core::env::concat(14, 4, 4, 5, Some(&mut memory), &mut ctx), (-1, 0, 0));
    assert_eq!(wevm_core::env::concat(0, 4, 14, 5, Some(&mut memory), &mut ctx), (-1, 0, 0));
    assert_eq!(wevm_core::env::concat(0, 4, 4, 5, None, &mut ctx), (-1, 0, 0));
    assert_eq!(memory, before);
    assert_eq!(ctx.heap_base(), 10);
}

#[test]
fn bytes_equals_compares_byte_for_byte() {
    let memory = memory_with(0, b"abcabcabd", 16);
    assert_eq!(bytes_equals(Some(&memory), 0, 3, 3, 3), (0, 1));
    assert_eq!(bytes_equals(Some(&memory), 3, 3, 0, 3), (0, 1));
    assert_eq!(bytes_equals(Some(&memory), 0, 3, 6, 3), (0, 0));
    assert_eq!(bytes_equals(Some(&memory), 6, 3, 0, 3), (0, 0));
    assert_eq!(bytes_equals(Some(&memory), 0, 9, 0, 9), (0, 1));
    assert_eq!(bytes_equals(Some(&memory), 0, 0, 5, 0), (0, 1));
}

#[test]
fn bytes_equals_of_different_lengths_is_no_failure() {
    let memory = memory_with(0, b"abcabcabd", 16);
    assert_eq!(bytes_equals(Some(&memory), 0, 3, 0, 4), (0, 0));
    assert_eq!(bytes_equals(Some(&memory), 0, 4, 0, 3), (0, 0));
    assert_eq!(bytes_equals(Some(&memory), 0, 0, 0, 1), (0, 0));
}

#[test]
fn bytes_equals_fails_on_memory_only() {
    let mut memory = memory_with(0, b"abc", 8);
    memory[4] = 0xff;
    assert_eq!(bytes_equals(Some(&memory), 4, 1, 4, 1), (0, 1));
    assert_eq!(bytes_equals(Some(&memory), 6, 3, 0, 3), (-1, 0));
    assert_eq!(bytes_equals(Some(&memory), 0, 3, 6, 3), (-1, 0));
    assert_eq!(bytes_equals(None, 0, 3, 0, 3), (-1, 0));
}

#[test]
fn string_equals_compares_text() {
    let mut memory = memory_with(0, b"abcabcabd", 16);
    memory[12] = 0xff;
    assert_eq!(string_equals(Some(&memory), 0, 3, 3, 3), (0, 1));
    assert_eq!(string_equals(Some(&memory), 0, 3, 6, 3), (0, 0));
    assert_eq!(string_equals(Some(&memory), 0, 3, 0, 4), (0, 0));
    assert_eq!(string_equals(Some(&memory), 12, 1, 0, 3), (-2, 0));
    assert_eq!(string_equals(Some(&memory), 0, 3, 12, 1), (-2, 0));
    assert_eq!(string_equals(Some(&memory), 12, 1, 15, 3), (-2, 0));
    assert_eq!(string_equals(Some(&memory), 15, 3, 12, 1), (-1, 0));
    assert_eq!(string_equals(None, 0, 3, 3, 3), (-1, 0));
}

#[test]
fn byte_helpers_do_what_they_say() {
    assert_eq!(to_vec(&[1, 2, 3]), vec![1, 2, 3]);
    assert_eq!(wevm_core::bytes::concat(&[1, 2], &[3]), vec![1, 2, 3]);
    assert_eq!(wevm_core::bytes::concat(&[], &[]), Vec::<u8>::new());
    assert_eq!(reversed(&[1, 2, 3]), vec![3, 2, 1]);
    assert!(equal(&[1, 2], &[1, 2]));
    assert!(!equal(&[1, 2], &[1, 3]));
    assert!(!equal(&[1, 2], &[1]));
    assert!(same_text("env0", "env0"));
    assert!(!same_text("env0", "env1"));
}
