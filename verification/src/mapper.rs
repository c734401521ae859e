//! The per-cartridge controller: PRG/CHR/VRAM blocks, bank-select and IRQ
//! registers, the pointer into the audio register file, and the expansion
//! audio chip. It decodes every bus address the processor or video unit can
//! present; unmapped ranges read as no value and ignore writes.

use vstd::prelude::*;

use crate::audio::{
    chip_after_clock, chip_recorded, AudioView, Namco163Audio, Namco163AudioChannel,
};
use crate::memory_block::{
    banked_byte, banked_written, wrapped_byte, wrapped_written, zeroed_bytes, MemView, MemoryBlock,
    MemoryType,
};

verus! {

/// Nametable arrangement the cartridge requests from the video unit.
#[derive(Clone, Copy, PartialEq, Eq, Structural, Debug)]
pub enum Mirroring {
    Horizontal,
    Vertical,
    OneScreenLower,
    OneScreenUpper,
    FourScreen,
}

/// Construction failure: a required cartridge resource block is absent from
/// the image. Fatal to loading that cartridge; the host keeps its prior
/// state.
#[derive(Clone, Copy, PartialEq, Eq, Structural, Debug)]
pub enum CartridgeError {
    /// The image carries no PRG RAM block.
    MissingPrgRam,
    /// The image carries neither CHR ROM nor CHR RAM.
    MissingChr,
}

impl CartridgeError {
    /// A short description of the failure.
    pub fn message(&self) -> (r: &'static str)
        ensures
            self is MissingPrgRam ==> r@ == "Cartridge image has no PRG RAM block"@,
            self is MissingChr ==> r@ == "Cartridge image has no CHR block"@,
    {
        match self {
            CartridgeError::MissingPrgRam => "Cartridge image has no PRG RAM block",
            CartridgeError::MissingChr => "Cartridge image has no CHR block",
        }
    }
}

/// A parsed cartridge image, delivered already validated: the raw byte
/// blocks the mapper is built from.
pub struct CartridgeImage {
    /// PRG ROM; every image carries one.
    pub prg_rom: Vec<u8>,
    /// PRG RAM, the battery-backed save memory; absent from some images.
    pub prg_ram: Option<Vec<u8>>,
    /// CHR memory, read-only or writable depending on the cartridge; absent
    /// from some images.
    pub chr: Option<MemoryBlock>,
}

/// Abstract value of the mapper.
#[verifier::ext_equal]
pub ghost struct MapperView {
    pub prg_rom: MemView,
    pub prg_ram: MemView,
    pub chr: MemView,
    pub vram: MemView,
    pub audio: AudioView,
    pub irq_enabled: bool,
    pub irq_pending: bool,
    pub irq_counter: u16,
    pub chr_banks: Seq<u8>,
    pub nt_banks: Seq<u8>,
    pub prg_banks: Seq<u8>,
    /// The auto-increment pointer into the audio register file.
    pub ram_addr: u8,
    pub ram_auto_increment: bool,
    pub sound_enabled: bool,
    pub nt_ram_at_0000: bool,
    pub nt_ram_at_1000: bool,
}

impl MapperView {
    pub open spec fn wf(self) -> bool {
        &&& self.audio.wf()
        &&& !self.prg_rom.writable
        &&& self.prg_ram.writable
        &&& self.vram.writable
        &&& self.vram.data.len() == 0x800
        &&& self.irq_counter <= 0x7FFF
        &&& self.chr_banks.len() == 8
        &&& self.nt_banks.len() == 4
        &&& self.prg_banks.len() == 3
        &&& self.ram_addr < 0x80
    }
}

/// Whether a CPU write into 0x6000-0x7FFF lands: the pointer register's
/// upper nibble must hold the unlock pattern 0100, and the bit for the
/// targeted 2KB sub-window (bit 0 for 0x6000, up to bit 3 for 0x7800) must
/// be clear.
pub open spec fn prg_ram_write_allowed(ptr: u8, address: u16) -> bool {
    &&& ptr & 0xF0 == 0x40
    &&& if 0x6000 <= address < 0x6800 {
        ptr & 0x01 == 0
    } else if 0x6800 <= address < 0x7000 {
        ptr & 0x02 == 0
    } else if 0x7000 <= address < 0x7800 {
        ptr & 0x04 == 0
    } else if 0x7800 <= address < 0x8000 {
        ptr & 0x08 == 0
    } else {
        false
    }
}

/// What a CPU-side read returns, without side effects: the register file
/// byte under the pointer, the IRQ counter halves, PRG RAM, or one of the
/// four 8KB PRG ROM windows (the last hardwired to the final bank).
pub open spec fn cpu_read_result(m: MapperView, address: u16) -> Option<u8> {
    if 0x4800 <= address <= 0x4FFF {
        Some(m.audio.ram[m.ram_addr as int])
    } else if 0x5000 <= address <= 0x57FF {
        Some((m.irq_counter % 0x100) as u8)
    } else if 0x5800 <= address <= 0x5FFF {
        Some(
            (m.irq_counter / 0x100 + if m.irq_enabled {
                0x80int
            } else {
                0int
            }) as u8,
        )
    } else if 0x6000 <= address <= 0x7FFF {
        wrapped_byte(m.prg_ram.data, address - 0x6000)
    } else if 0x8000 <= address <= 0x9FFF {
        banked_byte(m.prg_rom.data, 0x2000, m.prg_banks[0] as int, address as int)
    } else if 0xA000 <= address <= 0xBFFF {
        banked_byte(m.prg_rom.data, 0x2000, m.prg_banks[1] as int, address as int)
    } else if 0xC000 <= address <= 0xDFFF {
        banked_byte(m.prg_rom.data, 0x2000, m.prg_banks[2] as int, address as int)
    } else if 0xE000 <= address {
        banked_byte(m.prg_rom.data, 0x2000, 0xFF, address as int)
    } else {
        None
    }
}

/// The pointer advance a mutating register-file read performs: only inside
/// 0x4800-0x4FFF, and only with auto-increment set.
pub open spec fn cpu_read_effect(m: MapperView, address: u16) -> MapperView {
    if 0x4800 <= address <= 0x4FFF && m.ram_auto_increment {
        MapperView { ram_addr: (((m.ram_addr + 1) % 0x80) as u8), ..m }
    } else {
        m
    }
}

/// The mapper after a CPU-side write, decoded from bits 11-15 of the
/// address: register file (with pointer advance), the two IRQ registers
/// (either write clears pending), write-protected PRG RAM, and the
/// 0x800-aligned bank-select registers, two of which carry flag bits in
/// their high bits.
pub open spec fn cpu_written(m: MapperView, address: u16, data: u8) -> MapperView {
    if 0x4800 <= address < 0x5000 {
        MapperView {
            audio: AudioView { ram: m.audio.ram.update(m.ram_addr as int, data), ..m.audio },
            ram_addr: if m.ram_auto_increment {
                ((m.ram_addr + 1) % 0x80) as u8
            } else {
                m.ram_addr
            },
            ..m
        }
    } else if 0x5000 <= address < 0x5800 {
        MapperView {
            irq_counter: ((m.irq_counter / 0x100) * 0x100 + data) as u16,
            irq_pending: false,
            ..m
        }
    } else if 0x5800 <= address < 0x6000 {
        MapperView {
            irq_counter: (m.irq_counter % 0x100 + (data & 0x7F) * 0x100) as u16,
            irq_enabled: (data & 0x80) != 0,
            irq_pending: false,
            ..m
        }
    } else if 0x6000 <= address < 0x8000 {
        if prg_ram_write_allowed(m.ram_addr, address) {
            MapperView { prg_ram: wrapped_written(m.prg_ram, address - 0x6000, data), ..m }
        } else {
            m
        }
    } else if 0x8000 <= address < 0xC000 {
        MapperView { chr_banks: m.chr_banks.update((address - 0x8000) as int / 0x800, data), ..m }
    } else if 0xC000 <= address < 0xE000 {
        MapperView { nt_banks: m.nt_banks.update((address - 0xC000) as int / 0x800, data), ..m }
    } else if 0xE000 <= address < 0xE800 {
        MapperView {
            prg_banks: m.prg_banks.update(0, data & 0x3F),
            sound_enabled: (data & 0x40) == 0,
            ..m
        }
    } else if 0xE800 <= address < 0xF000 {
        MapperView {
            prg_banks: m.prg_banks.update(1, data & 0x3F),
            nt_ram_at_0000: (data & 0x40) == 0,
            nt_ram_at_1000: (data & 0x80) == 0,
            ..m
        }
    } else if 0xF000 <= address < 0xF800 {
        MapperView { prg_banks: m.prg_banks.update(2, data & 0x3F), ..m }
    } else if 0xF800 <= address {
        MapperView { ram_addr: data & 0x7F, ram_auto_increment: (data & 0x80) != 0, ..m }
    } else {
        m
    }
}

/// What one 1KB CHR slot resolves to: the VRAM block masked to one of its
/// two 1KB pages when the slot is redirected to nametable RAM, else the CHR
/// block under the full bank index.
pub open spec fn chr_bank_read(m: MapperView, bank: u8, use_nt: bool, address: u16) -> Option<u8> {
    if use_nt {
        banked_byte(m.vram.data, 0x400, (bank & 0x01) as int, address as int)
    } else {
        banked_byte(m.chr.data, 0x400, bank as int, address as int)
    }
}

/// The mapper after a write through one 1KB CHR slot.
pub open spec fn chr_bank_written(m: MapperView, bank: u8, use_nt: bool, address: u16, data: u8) -> MapperView {
    if use_nt {
        MapperView { vram: banked_written(m.vram, 0x400, (bank & 0x01) as int, address as int, data), ..m }
    } else {
        MapperView { chr: banked_written(m.chr, 0x400, bank as int, address as int, data), ..m }
    }
}

/// What a video-side read returns, decoded in 1KB granularity from bits
/// 10-15 of the address: eight CHR slots (the first four share the low-half
/// redirection flag, the next four the high-half flag) and four
/// nametable-space slots that always resolve through VRAM-style banking.
pub open spec fn ppu_read_result(m: MapperView, address: u16) -> Option<u8> {
    if address < 0x1000 {
        chr_bank_read(m, m.chr_banks[address as int / 0x400], m.nt_ram_at_0000, address)
    } else if address < 0x2000 {
        chr_bank_read(m, m.chr_banks[address as int / 0x400], m.nt_ram_at_1000, address)
    } else if address < 0x3000 {
        chr_bank_read(m, m.nt_banks[(address - 0x2000) as int / 0x400], true, address)
    } else {
        None
    }
}

/// The mapper after a video-side write, decoded as [`ppu_read_result`].
pub open spec fn ppu_written(m: MapperView, address: u16, data: u8) -> MapperView {
    if address < 0x1000 {
        chr_bank_written(m, m.chr_banks[address as int / 0x400], m.nt_ram_at_0000, address, data)
    } else if address < 0x2000 {
        chr_bank_written(m, m.chr_banks[address as int / 0x400], m.nt_ram_at_1000, address, data)
    } else if address < 0x3000 {
        chr_bank_written(m, m.nt_banks[(address - 0x2000) as int / 0x400], true, address, data)
    } else {
        m
    }
}

/// The mapper after one processor cycle: while enabled and below the
/// terminal value 0x7FFF the IRQ counter increments, raising pending
/// exactly on reaching 0x7FFF (it saturates there, never wraps); then the
/// audio chip is clocked once.
pub open spec fn clocked(m: MapperView) -> MapperView {
    let counting = m.irq_enabled && m.irq_counter < 0x7FFF;
    let counted = if counting {
        (m.irq_counter + 1) as u16
    } else {
        m.irq_counter
    };
    MapperView {
        irq_counter: counted,
        irq_pending: m.irq_pending || (counting && counted == 0x7FFF),
        audio: chip_after_clock(m.audio),
        ..m
    }
}

proof fn lemma_u16_split(x: u16)
    by (bit_vector)
    requires
        x <= 0x7FFF,
    ensures
        (x & 0x00FF) == x % 0x100,
        ((x & 0xFF00) >> 8) == x / 0x100,
        ((x & 0xFF00) >> 8) | 0x00 == x / 0x100,
        x / 0x100 <= 0x7F,
        (((x & 0xFF00) >> 8) | 0x80) == x / 0x100 + 0x80,
{
}

proof fn lemma_irq_low_write(x: u16, d: u8)
    by (bit_vector)
    requires
        x <= 0x7FFF,
    ensures
        ((x & 0xFF00) | (d as u16)) == (x / 0x100) * 0x100 + d,
        ((x & 0xFF00) | (d as u16)) <= 0x7FFF,
{
}

proof fn lemma_irq_high_write(x: u16, d: u8)
    by (bit_vector)
    ensures
        ((x & 0x00FF) | (((d as u16) & 0x7F) << 8)) == x % 0x100 + ((d & 0x7F) as int) * 0x100,
        ((x & 0x00FF) | (((d as u16) & 0x7F) << 8)) <= 0x7FFF,
{
}

proof fn lemma_ptr_advance(p: u8)
    by (bit_vector)
    requires
        p < 0x80,
    ensures
        (((p + 1) as u8) & 0x7F) == (p + 1) % 0x80,
        (((p + 1) as u8) & 0x7F) < 0x80,
{
}

proof fn lemma_u8_masks(d: u8)
    by (bit_vector)
    ensures
        (d & 0x7F) < 0x80,
        (d & 0x3F) < 0x40,
{
}

proof fn lemma_reg_select(x: u16)
    by (bit_vector)
    ensures
        (x & 0xF800) <= x,
        x < (x & 0xF800) + 0x800,
        (x & 0xF800) % 0x800 == 0,
        (x & 0xFC00) <= x,
        x < (x & 0xFC00) + 0x400,
        (x & 0xFC00) % 0x400 == 0,
{
}

/// The example chip: the Namco 163 cartridge controller.
pub struct Namco163 {
    pub prg_rom: MemoryBlock,
    pub prg_ram: MemoryBlock,
    pub chr: MemoryBlock,
    pub vram: MemoryBlock,
    pub expansion_audio_chip: Namco163Audio,
    pub irq_enabled: bool,
    pub irq_pending: bool,
    /// 15-bit counter; saturates at 0x7FFF.
    pub irq_counter: u16,
    pub chr_banks: Vec<u8>,
    pub nt_banks: Vec<u8>,
    pub prg_banks: Vec<u8>,
    pub internal_ram_addr: u8,
    pub internal_ram_auto_increment: bool,
    pub sound_enabled: bool,
    pub nt_ram_at_0000: bool,
    pub nt_ram_at_1000: bool,
}

impl View for Namco163 {
    type V = MapperView;

    open spec fn view(&self) -> MapperView {
        MapperView {
            prg_rom: self.prg_rom@,
            prg_ram: self.prg_ram@,
            chr: self.chr@,
            vram: self.vram@,
            audio: self.expansion_audio_chip@,
            irq_enabled: self.irq_enabled,
            irq_pending: self.irq_pending,
            irq_counter: self.irq_counter,
            chr_banks: self.chr_banks@,
            nt_banks: self.nt_banks@,
            prg_banks: self.prg_banks@,
            ram_addr: self.internal_ram_addr,
            ram_auto_increment: self.internal_ram_auto_increment,
            sound_enabled: self.sound_enabled,
            nt_ram_at_0000: self.nt_ram_at_0000,
            nt_ram_at_1000: self.nt_ram_at_1000,
        }
    }
}

impl Namco163 {
    pub open spec fn wf(&self) -> bool {
        self@.wf()
    }

    /// Builds the mapper from a parsed cartridge image. Fails, keeping
    /// nothing, when the image lacks the PRG RAM or the CHR block.
    pub fn from_ines(ines: CartridgeImage) -> (r: Result<Namco163, CartridgeError>)
        ensures
            (r is Ok) == (ines.prg_ram is Some && ines.chr is Some),
            ines.prg_ram is None ==> r == Err::<Namco163, CartridgeError>(CartridgeError::MissingPrgRam),
            ines.prg_ram is Some && ines.chr is None ==> r == Err::<Namco163, CartridgeError>(
                CartridgeError::MissingChr,
            ),
            r matches Ok(m) ==> {
                &&& m.wf()
                &&& m@.prg_rom.data == ines.prg_rom@
                &&& !m@.prg_rom.writable
                &&& m@.prg_ram.data == ines.prg_ram.unwrap()@
                &&& m@.prg_ram.writable
                &&& m@.chr == ines.chr.unwrap()@
                &&& m@.vram.data == Seq::new(0x800, |i: int| 0u8)
                &&& m@.irq_counter == 0
                &&& !m@.irq_enabled
                &&& !m@.irq_pending
                &&& m@.chr_banks == Seq::new(8, |i: int| 0u8)
                &&& m@.nt_banks == Seq::new(4, |i: int| 0u8)
                &&& m@.prg_banks == Seq::new(3, |i: int| 0u8)
                &&& m@.ram_addr == 0
                &&& !m@.ram_auto_increment
                &&& !m@.sound_enabled
                &&& !m@.nt_ram_at_0000
                &&& !m@.nt_ram_at_1000
                &&& m@.audio.ram == Seq::new(0x80, |i: int| 0u8)
                &&& m@.audio.delay == 0
                &&& m@.audio.cursor == 0
                &&& m@.audio.output == 0
                &&& forall|i: int| 0 <= i < 8 ==> {
                    let c = #[trigger] m@.audio.channels[i];
                    c.muted == false && c.output == 0 && c.tracked_volume == 0
                }
            },
    {
        let CartridgeImage { prg_rom, prg_ram, chr } = ines;
        let prg_ram_block = match prg_ram {
            Some(bytes) => MemoryBlock::new(bytes, MemoryType::Ram),
            None => {
                return Err(CartridgeError::MissingPrgRam);
            },
        };
        let chr_block = match chr {
            Some(block) => block,
            None => {
                return Err(CartridgeError::MissingChr);
            },
        };
        Ok(
            Namco163 {
                prg_rom: MemoryBlock::new(prg_rom, MemoryType::Rom),
                prg_ram: prg_ram_block,
                chr: chr_block,
                vram: MemoryBlock::new(zeroed_bytes(0x800), MemoryType::Ram),
                expansion_audio_chip: Namco163Audio::new(),
                irq_enabled: false,
                irq_pending: false,
                irq_counter: 0,
                chr_banks: zeroed_bytes(8),
                nt_banks: zeroed_bytes(4),
                prg_banks: zeroed_bytes(3),
                internal_ram_addr: 0,
                internal_ram_auto_increment: false,
                sound_enabled: false,
                nt_ram_at_0000: false,
                nt_ram_at_1000: false,
            },
        )
    }

    /// This chip requests horizontal mirroring, fixed.
    pub fn mirroring(&self) -> (r: Mirroring)
        ensures
            r == Mirroring::Horizontal,
    {
        Mirroring::Horizontal
    }

    /// Resolves one 1KB CHR slot: through the VRAM block (masked to one of
    /// its two 1KB pages) when the slot is redirected to nametable RAM, else
    /// through the CHR block.
    pub fn read_banked_chr(&self, address: u16, bank_index: u8, use_nt: bool) -> (r: Option<u8>)
        ensures
            r == chr_bank_read(self@, bank_index, use_nt, address),
    {
        if use_nt {
            let effective_bank_index = bank_index & 0x1;
            self.vram.banked_read(0x400, effective_bank_index as usize, address as usize)
        } else {
            self.chr.banked_read(0x400, bank_index as usize, address as usize)
        }
    }

    /// Writes through one 1KB CHR slot, with the same resolution as
    /// [`Self::read_banked_chr`].
    pub fn write_banked_chr(&mut self, address: u16, bank_index: u8, use_nt: bool, data: u8)
        ensures
            final(self)@ == chr_bank_written(old(self)@, bank_index, use_nt, address, data),
    {
        if use_nt {
            let effective_bank_index = bank_index & 0x1;
            self.vram.banked_write(0x400, effective_bank_index as usize, address as usize, data);
        } else {
            self.chr.banked_write(0x400, bank_index as usize, address as usize, data);
        }
        proof {
            assert(self@ =~~= chr_bank_written(old(self)@, bank_index, use_nt, address, data));
        }
    }

    /// Whether a CPU write to `address` in 0x6000-0x7FFF would land, under
    /// the pointer-register write-protect scheme.
    pub fn prg_ram_write_enabled(&self, address: u16) -> (r: bool)
        ensures
            r == prg_ram_write_allowed(self@.ram_addr, address),
    {
        proof {
            lemma_reg_select(address);
        }
        if self.internal_ram_addr & 0xF0 != 0b0100_0000 {
            return false;
        }
        let masked_address = address & 0xF800;
        match masked_address {
            0x6000 => (self.internal_ram_addr & 0b0000_0001) == 0,
            0x6800 => (self.internal_ram_addr & 0b0000_0010) == 0,
            0x7000 => (self.internal_ram_addr & 0b0000_0100) == 0,
            0x7800 => (self.internal_ram_addr & 0b0000_1000) == 0,
            _ => false,
        }
    }

    /// A CPU-side read with no side effects: the inspection path.
    pub fn debug_read_cpu(&self, address: u16) -> (r: Option<u8>)
        requires
            self.wf(),
        ensures
            r == cpu_read_result(self@, address),
    {
        proof {
            lemma_u16_split(self.irq_counter);
        }
        match address {
            0x4800..=0x4FFF => Some(
                self.expansion_audio_chip.internal_ram[self.internal_ram_addr as usize],
            ),
            0x5000..=0x57FF => {
                let irq_low = (self.irq_counter & 0x00FF) as u8;
                Some(irq_low)
            },
            0x5800..=0x5FFF => {
                let irq_high = ((self.irq_counter & 0xFF00) >> 8) as u8;
                let irq_enabled: u8 = if self.irq_enabled {
                    0x80
                } else {
                    0x00
                };
                Some(irq_high | irq_enabled)
            },
            0x6000..=0x7FFF => self.prg_ram.wrapping_read((address - 0x6000) as usize),
            0x8000..=0x9FFF => self.prg_rom.banked_read(0x2000, self.prg_banks[0] as usize, address as usize),
            0xA000..=0xBFFF => self.prg_rom.banked_read(0x2000, self.prg_banks[1] as usize, address as usize),
            0xC000..=0xDFFF => self.prg_rom.banked_read(0x2000, self.prg_banks[2] as usize, address as usize),
            0xE000..=0xFFFF => self.prg_rom.banked_read(0x2000, 0xFF, address as usize),
            _ => None,
        }
    }

    /// The mutating CPU-side read: what the inspection path returns, plus
    /// the pointer advance on the register-file window when auto-increment
    /// is set.
    pub fn read_cpu(&mut self, address: u16) -> (r: Option<u8>)
        requires
            old(self).wf(),
        ensures
            final(self).wf(),
            r == cpu_read_result(old(self)@, address),
            final(self)@ == cpu_read_effect(old(self)@, address),
    {
        let data = self.debug_read_cpu(address);
        if 0x4800 <= address && address <= 0x4FFF {
            if self.internal_ram_auto_increment {
                proof {
                    lemma_ptr_advance(self.internal_ram_addr);
                }
                self.internal_ram_addr = (self.internal_ram_addr + 1) & 0x7F;
            }
        }
        proof {
            assert(self@ =~~= cpu_read_effect(old(self)@, address));
        }
        data
    }

    /// A video-side read with no side effects.
    pub fn debug_read_ppu(&self, address: u16) -> (r: Option<u8>)
        requires
            self.wf(),
        ensures
            r == ppu_read_result(self@, address),
    {
        proof {
            lemma_reg_select(address);
        }
        let masked_address = address & 0xFC00;
        match masked_address {
            0x0000 => self.read_banked_chr(address, self.chr_banks[0], self.nt_ram_at_0000),
            0x0400 => self.read_banked_chr(address, self.chr_banks[1], self.nt_ram_at_0000),
            0x0800 => self.read_banked_chr(address, self.chr_banks[2], self.nt_ram_at_0000),
            0x0C00 => self.read_banked_chr(address, self.chr_banks[3], self.nt_ram_at_0000),
            0x1000 => self.read_banked_chr(address, self.chr_banks[4], self.nt_ram_at_1000),
            0x1400 => self.read_banked_chr(address, self.chr_banks[5], self.nt_ram_at_1000),
            0x1800 => self.read_banked_chr(address, self.chr_banks[6], self.nt_ram_at_1000),
            0x1C00 => self.read_banked_chr(address, self.chr_banks[7], self.nt_ram_at_1000),
            0x2000 => self.read_banked_chr(address, self.nt_banks[0], true),
            0x2400 => self.read_banked_chr(address, self.nt_banks[1], true),
            0x2800 => self.read_banked_chr(address, self.nt_banks[2], true),
            0x2C00 => self.read_banked_chr(address, self.nt_banks[3], true),
            _ => None,
        }
    }

    /// A video-side write, decoded exactly as the read path.
    pub fn write_ppu(&mut self, address: u16, data: u8)
        requires
            old(self).wf(),
        ensures
            final(self).wf(),
            final(self)@ == ppu_written(old(self)@, address, data),
    {
        proof {
            lemma_reg_select(address);
        }
        let masked_address = address & 0xFC00;
        match masked_address {
            0x0000 => self.write_banked_chr(address, self.chr_banks[0], self.nt_ram_at_0000, data),
            0x0400 => self.write_banked_chr(address, self.chr_banks[1], self.nt_ram_at_0000, data),
            0x0800 => self.write_banked_chr(address, self.chr_banks[2], self.nt_ram_at_0000, data),
            0x0C00 => self.write_banked_chr(address, self.chr_banks[3], self.nt_ram_at_0000, data),
            0x1000 => self.write_banked_chr(address, self.chr_banks[4], self.nt_ram_at_1000, data),
            0x1400 => self.write_banked_chr(address, self.chr_banks[5], self.nt_ram_at_1000, data),
            0x1800 => self.write_banked_chr(address, self.chr_banks[6], self.nt_ram_at_1000, data),
            0x1C00 => self.write_banked_chr(address, self.chr_banks[7], self.nt_ram_at_1000, data),
            0x2000 => self.write_banked_chr(address, self.nt_banks[0], true, data),
            0x2400 => self.write_banked_chr(address, self.nt_banks[1], true, data),
            0x2800 => self.write_banked_chr(address, self.nt_banks[2], true, data),
            0x2C00 => self.write_banked_chr(address, self.nt_banks[3], true, data),
            _ => {},
        }
    }

    /// A CPU-side write, decoded from bits 11-15 of the address.
    pub fn write_cpu(&mut self, address: u16, data: u8)
        requires
            old(self).wf(),
        ensures
            final(self).wf(),
            final(self)@ == cpu_written(old(self)@, address, data),
    {
        proof {
            lemma_reg_select(address);
            lemma_u8_masks(data);
        }
        let masked_address = address & 0xF800;
        match masked_address {
            0x4800 => {
                self.expansion_audio_chip.internal_ram.set(self.internal_ram_addr as usize, data);
                if self.internal_ram_auto_increment {
                    proof {
                        lemma_ptr_advance(self.internal_ram_addr);
                    }
                    self.internal_ram_addr = (self.internal_ram_addr + 1) & 0x7F;
                }
            },
            0x5000 => {
                proof {
                    lemma_irq_low_write(self.irq_counter, data);
                }
                let irq_low = data as u16;
                self.irq_counter = (self.irq_counter & 0xFF00) | irq_low;
                self.irq_pending = false;
            },
            0x5800 => {
                proof {
                    lemma_irq_high_write(self.irq_counter, data);
                }
                let irq_high = ((data as u16) & 0x7F) << 8;
                self.irq_counter = (self.irq_counter & 0x00FF) | irq_high;
                self.irq_enabled = (data & 0x80) != 0;
                self.irq_pending = false;
            },
            0x6000..=0x7FFF => {
                if self.prg_ram_write_enabled(address) {
                    self.prg_ram.wrapping_write((address - 0x6000) as usize, data);
                }
            },
            0x8000 => self.chr_banks.set(0, data),
            0x8800 => self.chr_banks.set(1, data),
            0x9000 => self.chr_banks.set(2, data),
            0x9800 => self.chr_banks.set(3, data),
            0xA000 => self.chr_banks.set(4, data),
            0xA800 => self.chr_banks.set(5, data),
            0xB000 => self.chr_banks.set(6, data),
            0xB800 => self.chr_banks.set(7, data),
            0xC000 => self.nt_banks.set(0, data),
            0xC800 => self.nt_banks.set(1, data),
            0xD000 => self.nt_banks.set(2, data),
            0xD800 => self.nt_banks.set(3, data),
            0xE000 => {
                self.prg_banks.set(0, data & 0b0011_1111);
                self.sound_enabled = (data & 0b0100_0000) == 0;
            },
            0xE800 => {
                self.prg_banks.set(1, data & 0b0011_1111);
                self.nt_ram_at_0000 = (data & 0b0100_0000) == 0;
                self.nt_ram_at_1000 = (data & 0b1000_0000) == 0;
            },
            0xF000 => self.prg_banks.set(2, data & 0b0011_1111),
            0xF800 => {
                self.internal_ram_addr = data & 0x7F;
                self.internal_ram_auto_increment = (data & 0b1000_0000) != 0;
            },
            _ => {},
        }
        proof {
            assert(self@ =~~= cpu_written(old(self)@, address, data));
        }
    }

    /// One processor cycle: the IRQ counter first (while enabled, saturating
    /// at 0x7FFF and raising pending exactly there), then one clock of the
    /// expansion audio chip.
    pub fn clock_cpu(&mut self)
        requires
            old(self).wf(),
        ensures
            final(self).wf(),
            final(self)@ == clocked(old(self)@),
    {
        if self.irq_enabled && self.irq_counter < 0x7FFF {
            self.irq_counter = self.irq_counter + 1;
            if self.irq_counter == 0x7FFF {
                self.irq_pending = true;
            }
        }
        self.expansion_audio_chip.clock();
        proof {
            assert(self@ =~~= clocked(old(self)@));
        }
    }

    /// The expansion chip's current mixed output sample; presentation
    /// layers attenuate it by a fixed divisor and add the console's own
    /// sample, point in time.
    pub fn audio_output(&self) -> (r: i16)
        ensures
            r == self@.audio.output,
    {
        self.expansion_audio_chip.current_output
    }

    /// Pushes every channel's output into its inspection ring; once per
    /// host audio sample tick.
    pub fn record_expansion_audio_output(&mut self)
        requires
            old(self).wf(),
        ensures
            final(self).wf(),
            final(self)@ == (MapperView { audio: chip_recorded(old(self)@.audio), ..old(self)@ }),
    {
        self.expansion_audio_chip.record_output();
        proof {
            assert(self@ =~~= (MapperView { audio: chip_recorded(old(self)@.audio), ..old(self)@ }));
        }
    }

    /// The inspectable channel handles, channel 0 first.
    pub fn channels(&self) -> (r: &Vec<Namco163AudioChannel>)
        ensures
            r@.map_values(|c: Namco163AudioChannel| c@) == self@.audio.channels,
    {
        &self.expansion_audio_chip.channels
    }

    pub fn irq_flag(&self) -> (r: bool)
        ensures
            r == self@.irq_pending,
    {
        self.irq_pending
    }

    pub fn has_sram(&self) -> (r: bool)
        ensures
            r == true,
    {
        true
    }

    /// The save data: the raw PRG RAM byte sequence, no header, independent
    /// of the write-protect logic.
    pub fn get_sram(&self) -> (r: Vec<u8>)
        ensures
            r@ == self@.prg_ram.data,
    {
        let src = self.prg_ram.as_vec();
        let mut out: Vec<u8> = Vec::new();
        let mut i: usize = 0;
        while i < src.len()
            invariant
                i <= src@.len(),
                out@ == src@.subrange(0, i as int),
            decreases src@.len() - i,
        {
            out.push(src[i]);
            proof {
                assert(out@ =~= src@.subrange(0, i + 1));
            }
            i = i + 1;
        }
        proof {
            assert(out@ =~= src@);
        }
        out
    }

    /// Replaces PRG RAM wholesale with the given byte sequence, independent
    /// of the write-protect logic.
    pub fn load_sram(&mut self, sram_data: Vec<u8>)
        requires
            old(self).wf(),
        ensures
            final(self).wf(),
            final(self)@ == (MapperView {
                prg_ram: MemView { data: sram_data@, writable: old(self)@.prg_ram.writable },
                ..old(self)@
            }),
    {
        self.prg_ram.replace(sram_data);
        proof {
            assert(self@ =~~= (MapperView {
                prg_ram: MemView { data: sram_data@, writable: old(self)@.prg_ram.writable },
                ..old(self)@
            }));
        }
    }
}

/// IRQ edge law: over one cycle, pending rises exactly on the transition
/// of the counter to 0x7FFF — that is, when the counter is enabled and
/// stood at 0x7FFE — and on no earlier tick; and the counter never leaves
/// its 15-bit range.
pub proof fn lemma_irq_pending_edge(m: MapperView)
    requires
        m.wf(),
    ensures
        clocked(m).irq_counter <= 0x7FFF,
        !m.irq_pending ==> (clocked(m).irq_pending <==> m.irq_enabled && m.irq_counter == 0x7FFE),
        !m.irq_pending && clocked(m).irq_pending ==> clocked(m).irq_counter == 0x7FFF,
        m.irq_counter < 0x7FFE ==> clocked(m).irq_pending == m.irq_pending,
{
}

/// Any write to either IRQ register clears pending immediately, even while
/// the counter is disabled.
pub proof fn lemma_irq_write_clears_pending(m: MapperView, address: u16, data: u8)
    requires
        0x5000 <= address <= 0x5FFF,
    ensures
        cpu_written(m, address, data).irq_pending == false,
{
}

/// PRG RAM write protection: a CPU write into 0x6000-0x7FFF lands exactly
/// when the pointer register unlocks it — high nibble 0100 and the bit for
/// the 2KB sub-window clear — and otherwise changes nothing at all.
pub proof fn lemma_prg_ram_write_protect(m: MapperView, address: u16, data: u8)
    requires
        0x6000 <= address <= 0x7FFF,
    ensures
        prg_ram_write_allowed(m.ram_addr, address) ==> cpu_written(m, address, data)
            == (MapperView { prg_ram: wrapped_written(m.prg_ram, address - 0x6000, data), ..m }),
        !prg_ram_write_allowed(m.ram_addr, address) ==> cpu_written(m, address, data) == m,
{
}

/// Save/load round trip: restoring the save data just taken puts back the
/// very bytes PRG RAM already holds, so the mapper state is unchanged.
pub proof fn lemma_sram_round_trip(m: MapperView)
    ensures
        (MapperView {
            prg_ram: MemView { data: m.prg_ram.data, writable: m.prg_ram.writable },
            ..m
        }) == m,
{
    assert((MapperView {
        prg_ram: MemView { data: m.prg_ram.data, writable: m.prg_ram.writable },
        ..m
    }) =~~= m);
}

} // verus!
