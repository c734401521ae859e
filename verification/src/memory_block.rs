//! Fixed-size byte stores with bank-indexed and flat wrap-around addressing.

use vstd::prelude::*;

verus! {

/// Tag for a memory block: read-only (ROM) or mutable (RAM).
#[derive(Clone, Copy, PartialEq, Eq, Structural, Debug)]
pub enum MemoryType {
    Rom,
    Ram,
}

/// Abstract value of a [`MemoryBlock`]: its bytes, and whether writes land.
#[verifier::ext_equal]
pub ghost struct MemView {
    pub data: Seq<u8>,
    pub writable: bool,
}

/// The flat index a banked access resolves to: the bank index is reduced
/// modulo the number of whole banks the block holds, and the address modulo
/// the bank size selects the byte within the bank.
pub open spec fn banked_index(mem_len: int, bank_size: int, bank: int, addr: int) -> int {
    (bank % (mem_len / bank_size)) * bank_size + addr % bank_size
}

/// What a banked read returns: `None` only when the block holds no complete
/// bank (in particular, when it is empty).
pub open spec fn banked_byte(mem: Seq<u8>, bank_size: int, bank: int, addr: int) -> Option<u8>
    recommends
        bank_size > 0,
{
    if mem.len() < bank_size {
        None
    } else {
        Some(mem[banked_index(mem.len() as int, bank_size, bank, addr)])
    }
}

/// The block value after a banked write: unchanged when the block is
/// read-only or holds no complete bank, else one byte updated.
pub open spec fn banked_written(m: MemView, bank_size: int, bank: int, addr: int, value: u8) -> MemView
    recommends
        bank_size > 0,
{
    if !m.writable || m.data.len() < bank_size {
        m
    } else {
        MemView { data: m.data.update(banked_index(m.data.len() as int, bank_size, bank, addr), value), ..m }
    }
}

/// What a flat wrap-around read returns: `None` only on an empty block.
pub open spec fn wrapped_byte(mem: Seq<u8>, addr: int) -> Option<u8> {
    if mem.len() == 0 {
        None
    } else {
        Some(mem[addr % mem.len() as int])
    }
}

/// The block value after a flat wrap-around write.
pub open spec fn wrapped_written(m: MemView, addr: int, value: u8) -> MemView {
    if !m.writable || m.data.len() == 0 {
        m
    } else {
        MemView { data: m.data.update(addr % m.data.len() as int, value), ..m }
    }
}

/// A banked access always lands inside the block when the block holds at
/// least one complete bank.
pub proof fn lemma_banked_index_in_range(mem_len: int, bank_size: int, bank: int, addr: int)
    requires
        bank_size > 0,
        bank_size <= mem_len,
        0 <= bank,
        0 <= addr,
    ensures
        0 <= banked_index(mem_len, bank_size, bank, addr) < mem_len,
{
    let bc = mem_len / bank_size;
    assert(bc >= 1 && bc * bank_size <= mem_len) by (nonlinear_arith)
        requires
            bank_size > 0,
            bank_size <= mem_len,
            bc == mem_len / bank_size,
    ;
    let b = bank % bc;
    let o = addr % bank_size;
    assert(0 <= b < bc);
    assert(0 <= o < bank_size);
    assert(b * bank_size + o < bc * bank_size) by (nonlinear_arith)
        requires
            0 <= b < bc,
            0 <= o < bank_size,
    ;
}

/// A zero-filled byte vector of the given length.
pub fn zeroed_bytes(len: usize) -> (r: Vec<u8>)
    ensures
        r@ == Seq::new(len as nat, |i: int| 0u8),
{
    let mut v: Vec<u8> = Vec::new();
    let mut i: usize = 0;
    while i < len
        invariant
            i <= len,
            v@.len() == i,
            forall|j: int| 0 <= j < i ==> v@[j] == 0u8,
        decreases len - i,
    {
        v.push(0);
        i = i + 1;
    }
    proof {
        assert(v@ =~= Seq::new(len as nat, |i: int| 0u8));
    }
    v
}

/// A byte array of fixed length tagged as read-only or mutable. All
/// addressing wraps: a bank index beyond the available banks is reduced
/// modulo the bank count, and flat access is modulo the block length.
pub struct MemoryBlock {
    data: Vec<u8>,
    memory_type: MemoryType,
}

impl View for MemoryBlock {
    type V = MemView;

    closed spec fn view(&self) -> MemView {
        MemView { data: self.data@, writable: self.memory_type is Ram }
    }
}

impl MemoryBlock {
    pub fn new(data: Vec<u8>, memory_type: MemoryType) -> (r: MemoryBlock)
        ensures
            r@.data == data@,
            r@.writable == (memory_type is Ram),
    {
        MemoryBlock { data, memory_type }
    }

    pub fn len(&self) -> (r: usize)
        ensures
            r == self@.data.len(),
    {
        self.data.len()
    }

    pub fn memory_type(&self) -> (r: MemoryType)
        ensures
            (r is Ram) == self@.writable,
    {
        self.memory_type
    }

    /// The whole store, for save-data export.
    pub fn as_vec(&self) -> (r: &Vec<u8>)
        ensures
            r@ == self@.data,
    {
        &self.data
    }

    /// Replaces the whole store, for save-data import; the read-only tag is
    /// kept.
    pub fn replace(&mut self, data: Vec<u8>)
        ensures
            final(self)@.data == data@,
            final(self)@.writable == old(self)@.writable,
    {
        self.data = data;
    }

    /// Reads the byte at `(bank_index * bank_size) + (address mod bank_size)`,
    /// with the bank index reduced modulo the bank count; fails only when the
    /// block holds no complete bank.
    pub fn banked_read(&self, bank_size: usize, bank_index: usize, address: usize) -> (r: Option<u8>)
        requires
            bank_size > 0,
        ensures
            r == banked_byte(self@.data, bank_size as int, bank_index as int, address as int),
    {
        if self.data.len() < bank_size {
            return None;
        }
        let bank_count = self.data.len() / bank_size;
        assert(bank_count >= 1) by (nonlinear_arith)
            requires
                bank_size > 0,
                self.data.len() >= bank_size,
                bank_count == self.data.len() / bank_size,
        ;
        let bank = bank_index % bank_count;
        let offset = address % bank_size;
        proof {
            lemma_banked_index_in_range(
                self@.data.len() as int,
                bank_size as int,
                bank_index as int,
                address as int,
            );
        }
        Some(self.data[bank * bank_size + offset])
    }

    /// Writes with the same addressing as [`Self::banked_read`]; a no-op when
    /// the block is read-only or holds no complete bank.
    pub fn banked_write(&mut self, bank_size: usize, bank_index: usize, address: usize, value: u8)
        requires
            bank_size > 0,
        ensures
            final(self)@ == banked_written(old(self)@, bank_size as int, bank_index as int, address as int, value),
    {
        if matches!(self.memory_type, MemoryType::Rom) {
            return;
        }
        if self.data.len() < bank_size {
            return;
        }
        let bank_count = self.data.len() / bank_size;
        assert(bank_count >= 1) by (nonlinear_arith)
            requires
                bank_size > 0,
                self.data.len() >= bank_size,
                bank_count == self.data.len() / bank_size,
        ;
        let bank = bank_index % bank_count;
        let offset = address % bank_size;
        proof {
            lemma_banked_index_in_range(
                self@.data.len() as int,
                bank_size as int,
                bank_index as int,
                address as int,
            );
        }
        self.data.set(bank * bank_size + offset, value);
    }

    /// Flat access modulo the block length; fails only on an empty block.
    pub fn wrapping_read(&self, address: usize) -> (r: Option<u8>)
        ensures
            r == wrapped_byte(self@.data, address as int),
    {
        if self.data.len() == 0 {
            return None;
        }
        Some(self.data[address % self.data.len()])
    }

    /// Flat write modulo the block length; a no-op when the block is
    /// read-only or empty.
    pub fn wrapping_write(&mut self, address: usize, value: u8)
        ensures
            final(self)@ == wrapped_written(old(self)@, address as int, value),
    {
        if matches!(self.memory_type, MemoryType::Rom) {
            return;
        }
        if self.data.len() == 0 {
            return;
        }
        let index = address % self.data.len();
        self.data.set(index, value);
    }
}

} // verus!
