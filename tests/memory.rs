use chip8::memory::MEMORY_SIZE;
use chip8::{read_from, write_into, Memory, MemoryError};

#[test]
fn new_memory_is_zeroed() {
    let m = Memory::new();
    assert_eq!(m.as_slice().len(), MEMORY_SIZE);
    assert!(m.as_slice().iter().all(|b| *b == 0));
}

#[test]
fn read_and_write_in_range() {
    let mut m = Memory::new();
    assert_eq!(m.write(4095, 7), Ok(()));
    assert_eq!(m.read(4095), Ok(7));
    assert_eq!(m.read(0), Ok(0));
}

#[test]
fn read_out_of_range_fails() {
    let m = Memory::new();
    assert_eq!(m.read(4096), Err(MemoryError::OutOfBounds));
    assert_eq!(read_from(&m, 5000), Err(MemoryError::OutOfBounds));
}

#[test]
fn write_out_of_range_fails_and_changes_nothing() {
    let mut m = Memory::new();
    assert_eq!(m.write(4096, 1), Err(MemoryError::OutOfBounds));
    assert!(m.as_slice().iter().all(|b| *b == 0));
}

#[test]
fn copy_in_fits_exactly_at_the_end() {
    let mut m = Memory::new();
    assert_eq!(m.copy_in(4093, &[1, 2, 3]), Ok(()));
    assert_eq!(&m.as_slice()[4093..], &[1, 2, 3]);
    assert_eq!(m.read(4092), Ok(0));
}

#[test]
fn copy_in_past_the_end_fails_and_changes_nothing() {
    let mut m = Memory::new();
    assert_eq!(m.copy_in(4094, &[1, 2, 3]), Err(MemoryError::OutOfBounds));
    assert!(m.as_slice().iter().all(|b| *b == 0));
}

#[test]
fn copy_in_empty_run_at_capacity() {
    let mut m = Memory::new();
    assert_eq!(m.copy_in(4096, &[]), Ok(()));
}

#[test]
fn write_into_then_read_from() {
    let mut m = Memory::new();
    assert_eq!(write_into(&[0xAB, 0xCD], &mut m, 0x200), Ok(()));
    assert_eq!(read_from(&m, 0x200), Ok(0xAB));
    assert_eq!(read_from(&m, 0x201), Ok(0xCD));
    assert_eq!(write_into(&[1, 2], &mut m, 4095), Err(MemoryError::OutOfBounds));
    assert_eq!(read_from(&m, 4095), Ok(0));
}
