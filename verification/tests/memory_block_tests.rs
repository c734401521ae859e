use namco163::memory_block::{zeroed_bytes, MemoryBlock, MemoryType};

#[test]
fn banked_read_resolves_bank_and_offset() {
    let mut data = vec![0u8; 0x40];
    for (i, b) in data.iter_mut().enumerate() {
        *b = i as u8;
    }
    let block = MemoryBlock::new(data, MemoryType::Rom);
    // 4 banks of 0x10 bytes: bank 2, offset 3 -> byte 0x23.
    assert_eq!(block.banked_read(0x10, 2, 3), Some(0x23));
    // The address wraps within the bank.
    assert_eq!(block.banked_read(0x10, 2, 0x13), Some(0x23));
}

#[test]
fn banked_read_masks_bank_index_into_range() {
    let mut data = vec![0u8; 0x40];
    for (i, b) in data.iter_mut().enumerate() {
        *b = i as u8;
    }
    let block = MemoryBlock::new(data, MemoryType::Rom);
    // 4 banks: bank index 0xFF reduces to 0xFF % 4 == 3, the last bank.
    assert_eq!(block.banked_read(0x10, 0xFF, 0), Some(0x30));
}

#[test]
fn banked_read_fails_only_without_a_complete_bank() {
    let empty = MemoryBlock::new(Vec::new(), MemoryType::Rom);
    assert_eq!(empty.banked_read(0x10, 0, 0), None);
    let short = MemoryBlock::new(vec![1u8, 2, 3], MemoryType::Rom);
    assert_eq!(short.banked_read(0x10, 0, 0), None);
}

#[test]
fn banked_write_is_a_no_op_on_rom() {
    let mut rom = MemoryBlock::new(vec![7u8; 0x20], MemoryType::Rom);
    rom.banked_write(0x10, 0, 0, 42);
    assert_eq!(rom.banked_read(0x10, 0, 0), Some(7));

    let mut ram = MemoryBlock::new(vec![7u8; 0x20], MemoryType::Ram);
    ram.banked_write(0x10, 0, 0, 42);
    assert_eq!(ram.banked_read(0x10, 0, 0), Some(42));
}

#[test]
fn wrapping_access_is_modulo_block_length() {
    let mut block = MemoryBlock::new(vec![0u8; 8], MemoryType::Ram);
    block.wrapping_write(10, 99);
    assert_eq!(block.wrapping_read(2), Some(99));
    assert_eq!(block.wrapping_read(10), Some(99));

    let empty = MemoryBlock::new(Vec::new(), MemoryType::Ram);
    assert_eq!(empty.wrapping_read(0), None);
}

#[test]
fn zeroed_bytes_builds_a_zero_block() {
    let z = zeroed_bytes(5);
    assert_eq!(z, vec![0u8; 5]);
}
