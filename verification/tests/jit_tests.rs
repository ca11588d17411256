use coki::jit::{
    JitError, JitMemory, OUTPUT_OFFSET, RET_OPCODE, VARIABLE_MEMORY_SIZE, VARIABLE_OFFSET,
};
use coki::printer::{format_output, strip_sentinel, to_bits};
use coki::PAGE_SIZE;

#[test]
fn fresh_buffer_is_a_safe_immediate_return() {
    let jit = JitMemory::new(1);
    assert_eq!(jit.size(), PAGE_SIZE);
    assert_eq!(jit.loaded(), 0);
    // The entry byte, and everything up to the variable region, is the
    // return opcode, so invoking the unloaded buffer returns at once.
    assert_eq!(jit.read(0), RET_OPCODE);
    assert_eq!(jit.read(VARIABLE_OFFSET - 1), RET_OPCODE);
    // The reserved variable and output-staging regions are zero-filled.
    assert_eq!(jit.read(VARIABLE_OFFSET), 0);
    assert_eq!(jit.read(VARIABLE_OFFSET + VARIABLE_MEMORY_SIZE - 1), 0);
    assert_eq!(jit.read(OUTPUT_OFFSET), 0);
    assert_eq!(jit.read(OUTPUT_OFFSET + 7), 0);
    // Past the staging slot the pre-fill resumes.
    assert_eq!(jit.read(OUTPUT_OFFSET + 8), RET_OPCODE);
    assert_eq!(jit.read(PAGE_SIZE - 1), RET_OPCODE);
}

#[test]
fn multi_page_buffers_are_page_multiples() {
    let jit = JitMemory::new(3);
    assert_eq!(jit.size(), 3 * PAGE_SIZE);
}

#[test]
fn add_writes_at_the_cursor_and_advances() {
    let mut jit = JitMemory::new(1);
    assert_eq!(jit.add(0x48), Ok(()));
    assert_eq!(jit.add(0xc7), Ok(()));
    assert_eq!(jit.loaded(), 2);
    assert_eq!(jit.read(0), 0x48);
    assert_eq!(jit.read(1), 0xc7);
    assert_eq!(jit.read(2), RET_OPCODE);
}

#[test]
fn append_loads_bytes_in_order() {
    let mut jit = JitMemory::new(1);
    assert_eq!(jit.append(&[1, 2, 3]), Ok(()));
    assert_eq!(jit.loaded(), 3);
    assert_eq!(jit.read(0), 1);
    assert_eq!(jit.read(1), 2);
    assert_eq!(jit.read(2), 3);
    assert_eq!(jit.bytes()[0], 1);
}

#[test]
fn overfull_append_fails_without_writing() {
    let mut jit = JitMemory::new(1);
    let exact = vec![7u8; PAGE_SIZE];
    assert_eq!(jit.append(&exact), Ok(()));
    assert_eq!(jit.loaded(), PAGE_SIZE);
    // The buffer is full: one more byte is rejected, deterministically.
    assert_eq!(jit.add(9), Err(JitError::BufferFull));
    assert_eq!(jit.append(&[9]), Err(JitError::BufferFull));
    assert_eq!(jit.loaded(), PAGE_SIZE);
    assert_eq!(jit.read(PAGE_SIZE - 1), 7);
}

#[test]
fn append_past_the_end_is_rejected_whole() {
    let mut jit = JitMemory::new(1);
    let too_long = vec![5u8; PAGE_SIZE + 1];
    assert_eq!(jit.append(&too_long), Err(JitError::BufferFull));
    assert_eq!(jit.loaded(), 0);
    assert_eq!(jit.read(0), RET_OPCODE);
}

#[test]
fn print_formatting_strips_sentinels_and_appends_crlf() {
    assert_eq!(format_output(7), b"7\r\n".to_vec());
    assert_eq!(format_output(0), b"0\r\n".to_vec());
    assert_eq!(format_output(18446744073709551615), b"18446744073709551615\r\n".to_vec());
    // 0xcc bytes are sentinel padding and are cleared before formatting.
    assert_eq!(strip_sentinel(0xcc), 0);
    assert_eq!(strip_sentinel(0x11cc), 0x1100);
    assert_eq!(strip_sentinel(0x2211), 0x2211);
    assert_eq!(format_output(0xcc), b"0\r\n".to_vec());
}

#[test]
fn to_bits_is_twos_complement() {
    assert_eq!(to_bits(7), 7);
    assert_eq!(to_bits(-1), u64::MAX);
    assert_eq!(to_bits(i64::MIN), 0x8000_0000_0000_0000);
}
