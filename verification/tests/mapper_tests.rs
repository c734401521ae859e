use namco163::mapper::{CartridgeError, CartridgeImage, Mirroring, Namco163};
use namco163::memory_block::{MemoryBlock, MemoryType};

fn image() -> CartridgeImage {
    // 32KB PRG ROM (4 banks of 8KB), each byte marked with its bank number.
    let mut prg_rom = vec![0u8; 0x8000];
    for (i, b) in prg_rom.iter_mut().enumerate() {
        *b = (i / 0x2000) as u8;
    }
    // 8KB CHR ROM, each byte marked with its 1KB bank number.
    let mut chr = vec![0u8; 0x2000];
    for (i, b) in chr.iter_mut().enumerate() {
        *b = 0x10 + (i / 0x400) as u8;
    }
    CartridgeImage {
        prg_rom,
        prg_ram: Some(vec![0u8; 0x2000]),
        chr: Some(MemoryBlock::new(chr, MemoryType::Rom)),
    }
}

fn mapper() -> Namco163 {
    Namco163::from_ines(image()).unwrap()
}

#[test]
fn construction_requires_prg_ram_and_chr() {
    assert!(Namco163::from_ines(image()).is_ok());

    let mut no_ram = image();
    no_ram.prg_ram = None;
    assert!(matches!(
        Namco163::from_ines(no_ram),
        Err(CartridgeError::MissingPrgRam)
    ));

    let mut no_chr = image();
    no_chr.chr = None;
    assert!(matches!(
        Namco163::from_ines(no_chr),
        Err(CartridgeError::MissingChr)
    ));
    assert_eq!(
        CartridgeError::MissingChr.message(),
        "Cartridge image has no CHR block"
    );
}

#[test]
fn mirroring_is_fixed_horizontal() {
    assert_eq!(mapper().mirroring(), Mirroring::Horizontal);
}

#[test]
fn prg_decode_uses_three_banks_and_a_fixed_final_bank() {
    let mut m = mapper();
    m.write_cpu(0xE000, 3); // bank select for 0x8000
    m.write_cpu(0xE800, 2); // bank select for 0xA000
    m.write_cpu(0xF000, 1); // bank select for 0xC000
    assert_eq!(m.debug_read_cpu(0x8000), Some(3));
    assert_eq!(m.debug_read_cpu(0xA123), Some(2));
    assert_eq!(m.debug_read_cpu(0xCFFF), Some(1));
    // 0xE000-0xFFFF is hardwired to the last bank regardless of registers.
    assert_eq!(m.debug_read_cpu(0xE000), Some(3));
    assert_eq!(m.debug_read_cpu(0xFFFF), Some(3));
    // Bank numbers only take their low 6 bits.
    m.write_cpu(0xE000, 0b0100_0001);
    assert_eq!(m.debug_read_cpu(0x8000), Some(1));
    // Unmapped low addresses read as no value.
    assert_eq!(m.debug_read_cpu(0x4000), None);
}

#[test]
fn register_file_pointer_and_auto_increment() {
    let mut m = mapper();
    // Pointer to 0x40 with auto-increment set.
    m.write_cpu(0xF800, 0x80 | 0x40);
    m.write_cpu(0x4800, 0xAA); // lands at 0x40, pointer moves to 0x41
    m.write_cpu(0x4800, 0xBB); // lands at 0x41
    m.write_cpu(0xF800, 0x40); // back to 0x40, no auto-increment
    assert_eq!(m.read_cpu(0x4800), Some(0xAA));
    assert_eq!(m.read_cpu(0x4800), Some(0xAA)); // pointer did not move
    // The debug path never advances the pointer.
    m.write_cpu(0xF800, 0x80 | 0x41);
    assert_eq!(m.debug_read_cpu(0x4800), Some(0xBB));
    assert_eq!(m.debug_read_cpu(0x4800), Some(0xBB));
    // The mutating path does.
    assert_eq!(m.read_cpu(0x4800), Some(0xBB));
    assert_eq!(m.read_cpu(0x4800), Some(0x00)); // 0x42 is still zero
}

#[test]
fn register_file_pointer_wraps_at_128() {
    let mut m = mapper();
    m.write_cpu(0xF800, 0x80 | 0x7F);
    m.write_cpu(0x4800, 0x11); // lands at 0x7F, pointer wraps to 0x00
    m.write_cpu(0x4800, 0x22); // lands at 0x00
    m.write_cpu(0xF800, 0x00);
    assert_eq!(m.read_cpu(0x4800), Some(0x22));
    m.write_cpu(0xF800, 0x7F);
    assert_eq!(m.read_cpu(0x4800), Some(0x11));
}

#[test]
fn irq_pending_rises_exactly_at_terminal_count() {
    let mut m = mapper();
    // Counter := 0x7FFD, enabled.
    m.write_cpu(0x5000, 0xFD);
    m.write_cpu(0x5800, 0x80 | 0x7F);
    assert!(!m.irq_flag());
    m.clock_cpu(); // 0x7FFE
    assert!(!m.irq_flag());
    m.clock_cpu(); // 0x7FFF: the transition raises pending
    assert!(m.irq_flag());
    // The counter saturates: reads stay at 0x7FFF, pending stays up.
    m.clock_cpu();
    assert!(m.irq_flag());
    assert_eq!(m.debug_read_cpu(0x5000), Some(0xFF));
    assert_eq!(m.debug_read_cpu(0x5800), Some(0x80 | 0x7F));
}

#[test]
fn irq_counter_does_not_count_while_disabled() {
    let mut m = mapper();
    m.write_cpu(0x5000, 0xFE);
    m.write_cpu(0x5800, 0x7F); // high bits set but enable bit clear
    for _ in 0..10 {
        m.clock_cpu();
    }
    assert!(!m.irq_flag());
    assert_eq!(m.debug_read_cpu(0x5000), Some(0xFE));
}

#[test]
fn any_irq_register_write_clears_pending() {
    let mut m = mapper();
    m.write_cpu(0x5000, 0xFE);
    m.write_cpu(0x5800, 0x80 | 0x7F);
    m.clock_cpu();
    assert!(m.irq_flag());
    // A low-byte write clears pending at once.
    m.write_cpu(0x5000, 0xFE);
    assert!(!m.irq_flag());
    m.clock_cpu();
    assert!(m.irq_flag());
    // A high-byte write that also disables the counter still clears it.
    m.write_cpu(0x5800, 0x00);
    assert!(!m.irq_flag());
    // And it stays clear while disabled.
    for _ in 0..5 {
        m.clock_cpu();
    }
    assert!(!m.irq_flag());
}

#[test]
fn prg_ram_write_protect_scheme() {
    let mut m = mapper();
    // Pointer 0x40: unlock pattern, all four sub-windows enabled.
    m.write_cpu(0xF800, 0x40);
    assert!(m.prg_ram_write_enabled(0x6000));
    assert!(m.prg_ram_write_enabled(0x7800));
    m.write_cpu(0x6000, 0x11);
    m.write_cpu(0x7800, 0x22);
    assert_eq!(m.debug_read_cpu(0x6000), Some(0x11));
    assert_eq!(m.debug_read_cpu(0x7800), Some(0x22));

    // Pointer 0x41: bit 0 set blocks 0x6000-0x67FF only.
    m.write_cpu(0xF800, 0x41);
    assert!(!m.prg_ram_write_enabled(0x6000));
    assert!(m.prg_ram_write_enabled(0x6800));
    assert!(m.prg_ram_write_enabled(0x7000));
    assert!(m.prg_ram_write_enabled(0x7800));
    m.write_cpu(0x6000, 0x99);
    assert_eq!(m.debug_read_cpu(0x6000), Some(0x11)); // blocked
    m.write_cpu(0x6800, 0x33);
    assert_eq!(m.debug_read_cpu(0x6800), Some(0x33));

    // A pointer without the unlock pattern blocks everything.
    m.write_cpu(0xF800, 0x50);
    assert!(!m.prg_ram_write_enabled(0x6000));
    assert!(!m.prg_ram_write_enabled(0x7800));
    m.write_cpu(0x7800, 0x77);
    assert_eq!(m.debug_read_cpu(0x7800), Some(0x22));
}

#[test]
fn prg_ram_reads_are_never_protected() {
    let mut m = mapper();
    m.write_cpu(0xF800, 0x40);
    m.write_cpu(0x6123, 0x5A);
    m.write_cpu(0xF800, 0x00); // lock everything
    assert_eq!(m.debug_read_cpu(0x6123), Some(0x5A));
    assert_eq!(m.read_cpu(0x6123), Some(0x5A));
}

#[test]
fn sram_round_trip_is_a_no_op() {
    let mut m = mapper();
    m.write_cpu(0xF800, 0x40);
    for (addr, v) in [(0x6000u16, 1u8), (0x6FFF, 2), (0x7ABC, 3)] {
        m.write_cpu(addr, v);
    }
    assert!(m.has_sram());
    let saved = m.get_sram();
    assert_eq!(saved.len(), 0x2000);
    let before = m.get_sram();
    m.load_sram(saved);
    assert_eq!(m.get_sram(), before);
    assert_eq!(m.debug_read_cpu(0x7ABC), Some(3));
}

#[test]
fn load_sram_replaces_prg_ram_wholesale() {
    let mut m = mapper();
    // Protection applies only to live bus writes, never to load.
    m.write_cpu(0xF800, 0x00);
    let mut data = vec![0u8; 0x2000];
    data[0x0123] = 0xEE;
    m.load_sram(data);
    assert_eq!(m.debug_read_cpu(0x6123), Some(0xEE));
}

#[test]
fn chr_decode_banks_and_vram_redirection() {
    let mut m = mapper();
    m.write_cpu(0x8000, 5); // CHR slot 0 -> 1KB bank 5
    m.write_cpu(0x9800, 0); // CHR slot 3 -> bank 0
    // By default the redirection flags are on (bits clear means redirect),
    // because 0xE800 was never written; write it to use CHR ROM.
    m.write_cpu(0xE800, 0b1100_0000); // both halves use CHR ROM
    assert_eq!(m.debug_read_ppu(0x0000), Some(0x15));
    assert_eq!(m.debug_read_ppu(0x0C00), Some(0x10));
    // Writes to CHR ROM are dropped.
    m.write_ppu(0x0000, 0x77);
    assert_eq!(m.debug_read_ppu(0x0000), Some(0x15));

    // Redirect the low half to the 2KB VRAM block.
    m.write_cpu(0xE800, 0b1000_0000);
    m.write_cpu(0x8000, 0); // VRAM page 0
    m.write_cpu(0x8800, 1); // VRAM page 1
    m.write_ppu(0x0010, 0xAB);
    assert_eq!(m.debug_read_ppu(0x0010), Some(0xAB));
    assert_eq!(m.debug_read_ppu(0x0410), Some(0x00));
    // The bank index is masked to the two 1KB pages: bank 3 -> page 1.
    m.write_ppu(0x0410, 0xCD);
    m.write_cpu(0x8800, 3);
    assert_eq!(m.debug_read_ppu(0x0410), Some(0xCD));
    // The high half still resolves through CHR ROM.
    assert_eq!(m.debug_read_ppu(0x1000), Some(0x10));
}

#[test]
fn nametable_slots_always_resolve_through_vram_banking() {
    let mut m = mapper();
    m.write_cpu(0xC000, 0); // nametable slot 0 -> VRAM page 0
    m.write_cpu(0xC800, 1); // nametable slot 1 -> VRAM page 1
    m.write_ppu(0x2005, 0x42);
    assert_eq!(m.debug_read_ppu(0x2005), Some(0x42));
    assert_eq!(m.debug_read_ppu(0x2405), Some(0x00));
    m.write_ppu(0x2405, 0x43);
    assert_eq!(m.debug_read_ppu(0x2405), Some(0x43));
    // Even bank indices land on page 0, odd on page 1.
    m.write_cpu(0xD000, 2);
    assert_eq!(m.debug_read_ppu(0x2805), Some(0x42));
    // Addresses past the nametable space read as no value.
    assert_eq!(m.debug_read_ppu(0x3000), None);
}

#[test]
fn end_to_end_channel_zero_synthesis() {
    let mut m = mapper();
    // Program channel 0 (the highest slot, 0x78) through the bus:
    // frequency 0x10000, length 64, volume 15, wave base 0; the volume
    // byte at 0x7F also encodes one enabled channel.
    m.write_cpu(0xF800, 0x80 | 0x78); // pointer 0x78, auto-increment
    for value in [
        0x00u8, // freq low
        0x00, // phase low
        0x00, // freq mid
        0x00, // phase mid
        0b1100_0001, // freq high 1 -> 0x10000; length bits 192 -> 64
        0x00, // phase high
        0x00, // wave base address
        0x0F, // volume 15; enabled-count bits zero -> 1 channel
    ] {
        m.write_cpu(0x4800, value);
    }

    // 15 clocks complete exactly one service of channel 0.
    for _ in 0..15 {
        m.clock_cpu();
    }
    let phase = m.expansion_audio_chip.channels[0].phase(&m.expansion_audio_chip.internal_ram);
    assert_eq!(phase, 0x10000);
    // Sample index 1 is the high nibble of byte 0 (frequency low = 0),
    // so the sample is 0 and the output is (0 - 8) * 15.
    assert_eq!(m.audio_output(), -120);

    // Each further 15 clocks advances the phase by exactly 0x10000 and
    // emits one non-zero sample.
    for step in 2..=5u32 {
        for _ in 0..15 {
            m.clock_cpu();
        }
        let phase = m.expansion_audio_chip.channels[0].phase(&m.expansion_audio_chip.internal_ram);
        assert_eq!(phase as u64, (step as u64 * 0x10000) % (64 << 16));
        assert!(m.audio_output() != 0);
    }
}

#[test]
fn channels_exposes_all_eight_handles() {
    let mut m = mapper();
    assert_eq!(m.channels().len(), 8);
    assert_eq!(m.channels()[0].name(), "WAVE 8");
    m.record_expansion_audio_output();
    assert_eq!(m.channels()[0].sample_buffer().buffer()[0], 0);
}
