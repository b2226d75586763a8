//! The address space: a 4096-byte linear store, seeded with the built-in
//! glyph font at the low addresses and the program image at the reserved
//! offset.

use vstd::prelude::*;

verus! {

/// First address of program memory; everything below it is reserved,
/// and the font table sits at the bottom of the reserved region.
pub const END_RESERVED: usize = 0x200;

/// Number of addressable bytes.
pub const MEMORY_SIZE: usize = 4096;

/// Number of bytes in the built-in font table: 16 glyphs of 5 bytes each.
pub const FONTSET_SIZE: usize = 80;

/// The built-in font: glyph `d` (0-15) occupies bytes `5*d .. 5*d + 5`.
pub open spec fn spec_fontset() -> Seq<u8> {
    seq![
        0xF0u8, 0x90, 0x90, 0x90, 0xF0, // 0
        0x20, 0x60, 0x20, 0x20, 0x70, // 1
        0xF0, 0x10, 0xF0, 0x80, 0xF0, // 2
        0xF0, 0x10, 0xF0, 0x10, 0xF0, // 3
        0x90, 0x90, 0xF0, 0x10, 0x10, // 4
        0xF0, 0x80, 0xF0, 0x10, 0xF0, // 5
        0xF0, 0x80, 0xF0, 0x90, 0xF0, // 6
        0xF0, 0x10, 0x20, 0x40, 0x40, // 7
        0xF0, 0x90, 0xF0, 0x90, 0xF0, // 8
        0xF0, 0x90, 0xF0, 0x10, 0xF0, // 9
        0xF0, 0x90, 0xF0, 0x90, 0x90, // A
        0xE0, 0x90, 0xE0, 0x90, 0xE0, // B
        0xF0, 0x80, 0x80, 0x80, 0xF0, // C
        0xE0, 0x90, 0x90, 0x90, 0xE0, // D
        0xF0, 0x80, 0xF0, 0x80, 0xF0, // E
        0xF0, 0x80, 0xF0, 0x80, 0x80, // F
    ]
}

/// The font table as runtime data.
fn fontset() -> (r: Vec<u8>)
    ensures
        r@ == spec_fontset(),
{
    let r: Vec<u8> = vec![
        0xF0u8, 0x90, 0x90, 0x90, 0xF0, // 0
        0x20, 0x60, 0x20, 0x20, 0x70, // 1
        0xF0, 0x10, 0xF0, 0x80, 0xF0, // 2
        0xF0, 0x10, 0xF0, 0x10, 0xF0, // 3
        0x90, 0x90, 0xF0, 0x10, 0x10, // 4
        0xF0, 0x80, 0xF0, 0x10, 0xF0, // 5
        0xF0, 0x80, 0xF0, 0x90, 0xF0, // 6
        0xF0, 0x10, 0x20, 0x40, 0x40, // 7
        0xF0, 0x90, 0xF0, 0x90, 0xF0, // 8
        0xF0, 0x90, 0xF0, 0x10, 0xF0, // 9
        0xF0, 0x90, 0xF0, 0x90, 0x90, // A
        0xE0, 0x90, 0xE0, 0x90, 0xE0, // B
        0xF0, 0x80, 0x80, 0x80, 0xF0, // C
        0xE0, 0x90, 0x90, 0x90, 0xE0, // D
        0xF0, 0x80, 0xF0, 0x80, 0xF0, // E
        0xF0, 0x80, 0xF0, 0x80, 0x80, // F
    ];
    proof {
        assert(r@ =~= spec_fontset());
    }
    r
}

/// The big-endian 16-bit word formed from the bytes at `addr` and `addr + 1`.
pub open spec fn spec_word(mem: Seq<u8>, addr: int) -> u16 {
    (mem[addr] as u16) << 8u16 | (mem[addr + 1] as u16)
}

/// What a freshly built address space holds: the font at the bottom, the
/// program image at the reserved offset, zero everywhere else.
pub open spec fn spec_initial_memory(mem: Seq<u8>, rom: Seq<u8>) -> bool {
    &&& mem.len() == 4096
    &&& forall|a: int| 0 <= a < 80 ==> mem[a] == spec_fontset()[a]
    &&& forall|a: int| 80 <= a < 512 ==> mem[a] == 0
    &&& forall|a: int| 0 <= a < rom.len() ==> mem[512 + a] == rom[a]
    &&& forall|a: int| 512 + rom.len() <= a < 4096 ==> mem[a] == 0
}

/// The memory of the machine: a fixed linear byte store.
pub struct Memory {
    ram: [u8; 4096],
}

impl View for Memory {
    type V = Seq<u8>;

    closed spec fn view(&self) -> Seq<u8> {
        self.ram@
    }
}

impl Memory {
    /// Build the address space: the font at address 0, the program image at
    /// `END_RESERVED`, zero everywhere else.
    pub fn new(rom: Vec<u8>) -> (m: Memory)
        requires
            rom@.len() + 512 <= 4096,
        ensures
            spec_initial_memory(m@, rom@),
    {
        let mut memory = [0u8; 4096];
        Memory::dump_fontset(&mut memory);
        Memory::dump_program(&mut memory, rom);
        Memory { ram: memory }
    }

    /// Read the byte at address `addr`.
    pub fn read(&self, addr: usize) -> (b: u8)
        requires
            addr < 4096,
        ensures
            b == self@[addr as int],
    {
        self.ram[addr]
    }

    /// Write a byte at address `addr`.
    pub fn write(&mut self, addr: usize, byte: u8)
        requires
            addr < 4096,
        ensures
            final(self)@ == old(self)@.update(addr as int, byte),
    {
        self.ram[addr] = byte;
    }

    /// Read the big-endian word whose high byte sits at address `addr`.
    pub fn read_word(&self, addr: usize) -> (w: u16)
        requires
            addr + 1 < 4096,
        ensures
            w == spec_word(self@, addr as int),
    {
        (self.ram[addr] as u16) << 8 | (self.ram[addr + 1] as u16)
    }

    /// Borrow `length` bytes starting at address `addr`.
    pub fn get_slice(&self, addr: usize, length: u8) -> (r: &[u8])
        requires
            addr + length <= 4096,
        ensures
            r@ == self@.subrange(addr as int, addr + length),
    {
        &self.ram[addr..(addr + length as usize)]
    }

    /// Mutably borrow `length` bytes starting at address `addr`; the rest of
    /// the space is unchanged whatever the caller writes through the borrow.
    pub fn get_slice_mut(&mut self, addr: usize, length: u8) -> (r: &mut [u8])
        requires
            addr + length <= 4096,
        ensures
            r@ == old(self)@.subrange(addr as int, addr + length),
            final(self)@ == old(self)@.subrange(0, addr as int) + final(r)@ + old(self)@.subrange(
                addr + length,
                4096,
            ),
    {
        let ram: &mut [u8] = &mut self.ram;
        let (head, rest) = ram.split_at_mut(addr);
        let (mid, _tail) = rest.split_at_mut(length as usize);
        proof {
            assert(final(head)@ == head@);
            assert(final(_tail)@ == _tail@);
        }
        mid
    }

    /// Copy the program image to the reserved offset, leaving all other bytes
    /// as they were.
    fn dump_program(memory: &mut [u8; 4096], rom: Vec<u8>)
        requires
            rom@.len() + 512 <= 4096,
        ensures
            forall|a: int| 0 <= a < rom@.len() ==> final(memory)@[512 + a] == rom@[a],
            forall|a: int|
                (0 <= a < 512 || 512 + rom@.len() <= a < 4096) ==> final(memory)@[a] == old(
                    memory,
                )@[a],
    {
        let mut idx: usize = 0;
        while idx < rom.len()
            invariant
                rom@.len() + 512 <= 4096,
                idx <= rom@.len(),
                forall|a: int| 0 <= a < idx ==> memory@[512 + a] == rom@[a],
                forall|a: int|
                    (0 <= a < 512 || 512 + idx <= a < 4096) ==> memory@[a] == old(memory)@[a],
            decreases rom@.len() - idx,
        {
            memory[idx + END_RESERVED] = rom[idx];
            idx = idx + 1;
        }
    }

    /// Copy the font table to the bottom of memory, leaving all other bytes
    /// as they were.
    fn dump_fontset(memory: &mut [u8; 4096])
        ensures
            forall|a: int| 0 <= a < 80 ==> final(memory)@[a] == spec_fontset()[a],
            forall|a: int| 80 <= a < 4096 ==> final(memory)@[a] == old(memory)@[a],
    {
        let font = fontset();
        let mut idx: usize = 0;
        while idx < FONTSET_SIZE
            invariant
                font@ == spec_fontset(),
                idx <= 80,
                forall|a: int| 0 <= a < idx ==> memory@[a] == spec_fontset()[a],
                forall|a: int| idx <= a < 4096 ==> memory@[a] == old(memory)@[a],
            decreases 80 - idx,
        {
            memory[idx] = font[idx];
            idx = idx + 1;
        }
    }
}

} // verus!
