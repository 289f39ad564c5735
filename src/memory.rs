use vstd::prelude::*;
use crate::error::Chip8Error;

verus! {

/// Number of addressable bytes.
pub const MEMORY_SIZE: usize = 4096;

/// Address at which the hexadecimal font glyphs are stored.
pub const FONT_START: u16 = 0x50;

/// Number of bytes of the font table: sixteen glyphs of five bytes each.
pub const FONT_LEN: usize = 80;

/// Address at which programs are loaded and execution begins.
pub const PROGRAM_START: u16 = 0x200;

/// The canonical hexadecimal glyphs 0 to F, five rows of one byte each.
pub open spec fn font_table() -> Seq<u8> {
    seq![
        0xF0u8, 0x90, 0x90, 0x90, 0xF0, // 0
        0x20, 0x60, 0x20, 0x20, 0x70, // 1
        0xF0, 0x10, 0xF0, 0x80, 0xF0, // 2
        0xF0, 0x10, 0xF0, 0x10, 0xF0, // 3
        0x90, 0x90, 0xF0, 0x10, 0x10, // 4
        0xF0, 0x80, 0xF0, 0x10, 0xF0, // 5
        0xF0, 0x80, 0xF0, 0x90, 0xF0, // 6
        0xF0, 0x10, 0x20, 0x40, 0x40, // 7
        0xF0, 0x90, 0xF0, 0x90, 0xF0, // 8
        0xF0, 0x90, 0xF0, 0x10, 0xF0, // 9
        0xF0, 0x90, 0xF0, 0x90, 0x90, // A
        0xE0, 0x90, 0xE0, 0x90, 0xE0, // B
        0xF0, 0x80, 0x80, 0x80, 0xF0, // C
        0xE0, 0x90, 0x90, 0x90, 0xE0, // D
        0xF0, 0x80, 0xF0, 0x80, 0xF0, // E
        0xF0, 0x80, 0xF0, 0x80, 0x80, // F
    ]
}

/// The font table as bytes to be loaded.
pub fn font_bytes() -> (r: Vec<u8>)
    ensures
        r@ == font_table(),
{
    let r: Vec<u8> = vec![
        0xF0u8, 0x90, 0x90, 0x90, 0xF0, // 0
        0x20, 0x60, 0x20, 0x20, 0x70, // 1
        0xF0, 0x10, 0xF0, 0x80, 0xF0, // 2
        0xF0, 0x10, 0xF0, 0x10, 0xF0, // 3
        0x90, 0x90, 0xF0, 0x10, 0x10, // 4
        0xF0, 0x80, 0xF0, 0x10, 0xF0, // 5
        0xF0, 0x80, 0xF0, 0x90, 0xF0, // 6
        0xF0, 0x10, 0x20, 0x40, 0x40, // 7
        0xF0, 0x90, 0xF0, 0x90, 0xF0, // 8
        0xF0, 0x90, 0xF0, 0x10, 0xF0, // 9
        0xF0, 0x90, 0xF0, 0x90, 0x90, // A
        0xE0, 0x90, 0xE0, 0x90, 0xE0, // B
        0xF0, 0x80, 0x80, 0x80, 0xF0, // C
        0xE0, 0x90, 0x90, 0x90, 0xE0, // D
        0xF0, 0x80, 0xF0, 0x80, 0xF0, // E
        0xF0, 0x80, 0xF0, 0x80, 0x80, // F
    ];
    assert(r@ =~= font_table());
    r
}

/// What a bulk write of `bytes` at `offset` does to the contents `mem`:
/// the bytes are copied in order, or, where they would not fit, the write
/// is refused and nothing changes.
pub open spec fn write_spec(mem: Seq<u8>, bytes: Seq<u8>, offset: int) -> Result<Seq<u8>, Chip8Error> {
    if offset + bytes.len() > MEMORY_SIZE {
        Err(Chip8Error::MemoryOverflow)
    } else {
        Ok(Seq::new(mem.len(), |a: int|
            if offset <= a < offset + bytes.len() { bytes[a - offset] } else { mem[a] }))
    }
}

/// Flat byte-addressable storage of 4096 bytes.
#[derive(Debug)]
pub struct Memory {
    bytes: Vec<u8>,
}

impl View for Memory {
    type V = Seq<u8>;

    closed spec fn view(&self) -> Seq<u8> {
        self.bytes@
    }
}

impl Memory {
    /// Every address in `[0, 4096)` holds a byte.
    pub open spec fn wf(&self) -> bool {
        self@.len() == MEMORY_SIZE
    }

    /// Memory with every byte zero.
    pub fn new() -> (r: Memory)
        ensures
            r.wf(),
            r@ == Seq::new(MEMORY_SIZE as nat, |a: int| 0u8),
    {
        let mut bytes: Vec<u8> = Vec::new();
        let mut i: usize = 0;
        while i < MEMORY_SIZE
            invariant
                i <= MEMORY_SIZE,
                bytes@ == Seq::new(i as nat, |a: int| 0u8),
            decreases MEMORY_SIZE - i,
        {
            bytes.push(0u8);
            i = i + 1;
            assert(bytes@ =~= Seq::new(i as nat, |a: int| 0u8));
        }
        Memory { bytes }
    }

    /// Copies `bytes` in order to the addresses from `offset` on. Fails
    /// with `MemoryOverflow`, changing nothing, where they would run past
    /// the last address.
    pub fn write(&mut self, bytes: &Vec<u8>, offset: u16) -> (r: Result<(), Chip8Error>)
        requires
            old(self).wf(),
        ensures
            final(self).wf(),
            write_spec(old(self)@, bytes@, offset as int) matches Ok(m) ==> r == Ok::<(), Chip8Error>(()) && final(self)@ == m,
            write_spec(old(self)@, bytes@, offset as int) matches Err(e) ==> r == Err::<(), Chip8Error>(e) && final(self)@ == old(self)@,
    {
        if offset as usize > MEMORY_SIZE || bytes.len() > MEMORY_SIZE - offset as usize {
            return Err(Chip8Error::MemoryOverflow);
        }
        let ghost before = self@;
        let start: usize = offset as usize;
        let mut i: usize = 0;
        while i < bytes.len()
            invariant
                i <= bytes@.len(),
                start + bytes@.len() <= MEMORY_SIZE,
                self.wf(),
                before.len() == MEMORY_SIZE,
                forall|a: int| 0 <= a < MEMORY_SIZE ==> #[trigger] self@[a] ==
                    if start <= a < start + i { bytes@[a - start] } else { before[a] },
            decreases bytes@.len() - i,
        {
            self.bytes[start + i] = bytes[i];
            i = i + 1;
        }
        assert(self@ =~= write_spec(before, bytes@, offset as int)->Ok_0);
        Ok(())
    }

    /// The `len` bytes from `start` on.
    pub fn read_range(&self, start: u16, len: u16) -> (r: Vec<u8>)
        requires
            self.wf(),
            start + len <= MEMORY_SIZE,
        ensures
            r@ == self@.subrange(start as int, start + len),
    {
        let mut r: Vec<u8> = Vec::new();
        let mut i: u16 = 0;
        while i < len
            invariant
                i <= len,
                start + len <= MEMORY_SIZE,
                self.wf(),
                r@ == self@.subrange(start as int, start + i),
            decreases len - i,
        {
            r.push(self.bytes[(start + i) as usize]);
            i = i + 1;
            assert(r@ =~= self@.subrange(start as int, start + i));
        }
        r
    }

    /// The byte at `addr`, or `OutOfBounds` past the last address.
    pub fn read_byte(&self, addr: u16) -> (r: Result<u8, Chip8Error>)
        requires
            self.wf(),
        ensures
            addr < MEMORY_SIZE ==> r == Ok::<u8, Chip8Error>(self@[addr as int]),
            addr >= MEMORY_SIZE ==> r == Err::<u8, Chip8Error>(Chip8Error::OutOfBounds(addr)),
    {
        if (addr as usize) < MEMORY_SIZE {
            Ok(self.bytes[addr as usize])
        } else {
            Err(Chip8Error::OutOfBounds(addr))
        }
    }

    /// Stores `value` at `addr`, or fails with `OutOfBounds`, changing
    /// nothing, past the last address.
    pub fn write_byte(&mut self, addr: u16, value: u8) -> (r: Result<(), Chip8Error>)
        requires
            old(self).wf(),
        ensures
            final(self).wf(),
            addr < MEMORY_SIZE ==> r == Ok::<(), Chip8Error>(()) && final(self)@ == old(self)@.update(addr as int, value),
            addr >= MEMORY_SIZE ==> r == Err::<(), Chip8Error>(Chip8Error::OutOfBounds(addr)) && final(self)@ == old(self)@,
    {
        if (addr as usize) < MEMORY_SIZE {
            self.bytes[addr as usize] = value;
            Ok(())
        } else {
            Err(Chip8Error::OutOfBounds(addr))
        }
    }
}

} // verus!
