use wevm_core::error::{RuntimeError, STATUS_OK};
use wevm_core::memory::{check_bounds, check_writable, read_bytes, read_text, write_memory};

fn all_errors() -> Vec<RuntimeError> {
    vec![
        RuntimeError::MemoryNotFound,
        RuntimeError::Utf8Error,
        RuntimeError::Base58Error,
        RuntimeError::InvalidResult,
        RuntimeError::InvalidBytecode,
        RuntimeError::ContractNotFound,
        RuntimeError::SettlementFailed,
        RuntimeError::FuelExhausted,
        RuntimeError::CallDepthExceeded,
    ]
}

#[test]
fn sentinels_have_their_fixed_values() {
    assert_eq!(STATUS_OK, 0);
    assert_eq!(RuntimeError::MemoryNotFound.as_i32(), -1);
    assert_eq!(RuntimeError::Utf8Error.as_i32(), -2);
    assert_eq!(RuntimeError::Base58Error.as_i32(), -3);
    assert_eq!(RuntimeError::InvalidResult.as_i32(), -4);
    assert_eq!(RuntimeError::InvalidBytecode.as_i32(), -5);
    assert_eq!(RuntimeError::ContractNotFound.as_i32(), -6);
    assert_eq!(RuntimeError::SettlementFailed.as_i32(), -7);
    assert_eq!(RuntimeError::FuelExhausted.as_i32(), -8);
    assert_eq!(RuntimeError::CallDepthExceeded.as_i32(), -9);
}

#[test]
fn sentinels_are_negative_and_distinct() {
    let errors = all_errors();
    for (i, a) in errors.iter().enumerate() {
        assert!(a.as_i32() < 0);
        for (j, b) in errors.iter().enumerate() {
            assert_eq!(a.as_i32() == b.as_i32(), i == j);
        }
    }
}

#[test]
fn sentinels_convert_back() {
    for error in all_errors() {
        assert_eq!(RuntimeError::from_i32(error.as_i32()), Some(error));
    }
    assert_eq!(RuntimeError::from_i32(0), None);
    assert_eq!(RuntimeError::from_i32(1), None);
    assert_eq!(RuntimeError::from_i32(-10), None);
    assert_eq!(RuntimeError::from_i32(i32::MIN), None);
}

#[test]
fn only_resource_faults_unwind_the_chain() {
    for error in all_errors() {
        let expected =
            error == RuntimeError::FuelExhausted || error == RuntimeError::CallDepthExceeded;
        assert_eq!(error.unwinds_chain(), expected);
    }
}

#[test]
fn bounds_are_checked_without_overflow() {
    assert!(check_bounds(10, 0, 10));
    assert!(check_bounds(10, 10, 0));
    assert!(!check_bounds(10, 10, 1));
    assert!(!check_bounds(10, 1, 10));
    assert!(!check_bounds(10, u32::MAX, u32::MAX));
    assert!(check_bounds(0, 0, 0));
}

#[test]
fn read_bytes_returns_the_region() {
    let memory: Vec<u8> = vec![10, 11, 12, 13, 14];
    assert_eq!(read_bytes(Some(&memory), 1, 3), Ok(&[11u8, 12, 13][..]));
    assert_eq!(read_bytes(Some(&memory), 0, 5), Ok(&memory[..]));
    assert_eq!(read_bytes(Some(&memory), 5, 0), Ok(&[][..]));
}

#[test]
fn read_bytes_rejects_what_leaves_memory() {
    let memory: Vec<u8> = vec![10, 11, 12, 13, 14];
    assert_eq!(read_bytes(Some(&memory), 3, 3), Err(RuntimeError::MemoryNotFound));
    assert_eq!(read_bytes(Some(&memory), 6, 0), Err(RuntimeError::MemoryNotFound));
    assert_eq!(
        read_bytes(Some(&memory), u32::MAX, u32::MAX),
        Err(RuntimeError::MemoryNotFound)
    );
    assert_eq!(read_bytes(None, 0, 0), Err(RuntimeError::MemoryNotFound));
}

#[test]
fn read_text_validates_utf8() {
    let memory: Vec<u8> = vec![b'H', b'i', 0xff, 0xc3, 0xa9];
    assert_eq!(read_text(Some(&memory), 0, 2), Ok("Hi"));
    assert_eq!(read_text(Some(&memory), 3, 2), Ok("\u{e9}"));
    assert_eq!(read_text(Some(&memory), 0, 3), Err(RuntimeError::Utf8Error));
    assert_eq!(read_text(Some(&memory), 3, 1), Err(RuntimeError::Utf8Error));
    assert_eq!(read_text(Some(&memory), 4, 2), Err(RuntimeError::MemoryNotFound));
    assert_eq!(read_text(None, 0, 2), Err(RuntimeError::MemoryNotFound));
}

#[test]
fn write_memory_stores_and_reports() {
    let mut memory: Vec<u8> = vec![0; 8];
    let answer = write_memory(&mut memory, 2, &[7, 8, 9]);
    assert_eq!(answer, (0, 2, 3));
    assert_eq!(memory, vec![0, 0, 7, 8, 9, 0, 0, 0]);
    let answer = write_memory(&mut memory, 8, &[]);
    assert_eq!(answer, (0, 8, 0));
    assert_eq!(memory, vec![0, 0, 7, 8, 9, 0, 0, 0]);
}

#[test]
fn write_memory_refuses_what_does_not_fit() {
    let mut memory: Vec<u8> = vec![1; 4];
    assert_eq!(write_memory(&mut memory, 2, &[7, 8, 9]), (-1, 0, 0));
    assert_eq!(write_memory(&mut memory, 5, &[]), (-1, 0, 0));
    assert_eq!(write_memory(&mut memory, u32::MAX, &[1]), (-1, 0, 0));
    assert_eq!(memory, vec![1, 1, 1, 1]);
}

#[test]
fn writable_needs_room_and_a_32_bit_end() {
    assert!(check_writable(10, 4, 6));
    assert!(!check_writable(10, 4, 7));
    assert!(!check_writable(10, 11, 0));
    assert!(!check_writable(usize::MAX, u32::MAX, 1));
    assert!(check_writable(usize::MAX, u32::MAX, 0));
}
