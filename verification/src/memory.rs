use vstd::prelude::*;

use crate::error::Error;

verus! {

/// Size of the address space in bytes.
pub const MEMORY_SIZE: u16 = 0x1000;

/// Address at which a program image is loaded and execution starts.
pub const PROGRAM_START: u16 = 0x200;

/// The fixed 4096-byte addressable store.  Addresses 0x000..0x050 are
/// pre-seeded at construction with sixteen 5-byte glyph sprites, one per
/// hexadecimal digit; the glyph for digit `d` starts at address `5 * d`.
/// Program code and data share the region from 0x200 upward with no write
/// protection.
pub struct Memory {
    bytes: Vec<u8>,
}

impl View for Memory {
    type V = Seq<u8>;

    closed spec fn view(&self) -> Seq<u8> {
        self.bytes@
    }
}

impl Memory {
    pub open spec fn wf(&self) -> bool {
        self@.len() == 4096
    }

    /// The eighty bytes of the glyph table: sixteen sprites of five bytes
    /// each, digit `d` at offset `5 * d`.
    pub open spec fn font_table() -> Seq<u8> {
        seq![
            0xF0u8, 0x90, 0x90, 0x90, 0xF0, // 0
            0x20, 0x60, 0x20, 0x20, 0x70, // 1
            0xF0, 0x10, 0xF0, 0x80, 0xF0, // 2
            0xF0, 0x10, 0xF0, 0x10, 0xF0, // 3
            0x90, 0x90, 0xF0, 0x10, 0x10, // 4
            0xF0, 0x80, 0xF0, 0x10, 0xF0, // 5
            0xF0, 0x80, 0xF0, 0x90, 0xF0, // 6
            0xF0, 0x10, 0x20, 0x40, 0x40, // 7
            0xF0, 0x90, 0xF0, 0x90, 0xF0, // 8
            0xF0, 0x90, 0xF0, 0x10, 0xF0, // 9
            0xF0, 0x90, 0xF0, 0x90, 0x90, // A
            0xE0, 0x90, 0xE0, 0x90, 0xE0, // B
            0xF0, 0x80, 0x80, 0x80, 0xF0, // C
            0xE0, 0x90, 0x90, 0x90, 0xE0, // D
            0xF0, 0x80, 0xF0, 0x80, 0xF0, // E
            0xF0, 0x80, 0xF0, 0x80, 0x80, // F
        ]
    }

    /// Memory as constructed: the glyph table followed by zeroes.
    pub open spec fn initial_contents() -> Seq<u8> {
        Self::font_table() + seq![0u8; 4016]
    }

    /// Build the store: 4096 bytes, the glyph table at the bottom, all
    /// other cells zero.
    pub fn new() -> (m: Memory)
        ensures
            m.wf(),
            m@ == Self::initial_contents(),
    {
        let font: [u8; 80] = [
            0xF0, 0x90, 0x90, 0x90, 0xF0, // 0
            0x20, 0x60, 0x20, 0x20, 0x70, // 1
            0xF0, 0x10, 0xF0, 0x80, 0xF0, // 2
            0xF0, 0x10, 0xF0, 0x10, 0xF0, // 3
            0x90, 0x90, 0xF0, 0x10, 0x10, // 4
            0xF0, 0x80, 0xF0, 0x10, 0xF0, // 5
            0xF0, 0x80, 0xF0, 0x90, 0xF0, // 6
            0xF0, 0x10, 0x20, 0x40, 0x40, // 7
            0xF0, 0x90, 0xF0, 0x90, 0xF0, // 8
            0xF0, 0x90, 0xF0, 0x10, 0xF0, // 9
            0xF0, 0x90, 0xF0, 0x90, 0x90, // A
            0xE0, 0x90, 0xE0, 0x90, 0xE0, // B
            0xF0, 0x80, 0x80, 0x80, 0xF0, // C
            0xE0, 0x90, 0x90, 0x90, 0xE0, // D
            0xF0, 0x80, 0xF0, 0x80, 0xF0, // E
            0xF0, 0x80, 0xF0, 0x80, 0x80, // F
        ];
        let mut bytes: Vec<u8> = Vec::new();
        let mut i: usize = 0;
        while i < 80
            invariant
                i <= 80,
                bytes@.len() == i,
                forall|k: int| 0 <= k < i ==> bytes@[k] == font@[k],
            decreases 80 - i,
        {
            bytes.push(font[i]);
            i += 1;
        }
        while i < 4096
            invariant
                80 <= i <= 4096,
                bytes@.len() == i,
                forall|k: int| 0 <= k < 80 ==> bytes@[k] == font@[k],
                forall|k: int| 80 <= k < i ==> bytes@[k] == 0u8,
            decreases 4096 - i,
        {
            bytes.push(0u8);
            i += 1;
        }
        proof {
            assert(font@ =~= Self::font_table());
            assert(bytes@ =~= Self::initial_contents());
        }
        Memory { bytes }
    }

    /// Write one byte.  Addresses at or beyond 4096 are a fatal
    /// programming error and are excluded by precondition.
    pub fn store(&mut self, addr: u16, value: u8)
        requires
            old(self).wf(),
            addr < 0x1000,
        ensures
            final(self).wf(),
            final(self)@ == old(self)@.update(addr as int, value),
    {
        self.bytes[addr as usize] = value;
    }

    /// Read one byte.  Addresses at or beyond 4096 are excluded by
    /// precondition.
    pub fn get(&self, addr: u16) -> (b: u8)
        requires
            self.wf(),
            addr < 0x1000,
        ensures
            b == self@[addr as int],
    {
        self.bytes[addr as usize]
    }

    /// Read-only snapshot of the whole store, for the debug views.
    pub fn get_memory(&self) -> (s: &[u8])
        ensures
            s@ == self@,
    {
        self.bytes.as_slice()
    }

    /// Base address of the glyph sprite for a hexadecimal digit.
    pub fn get_sprite_location(&self, value: u8) -> (addr: u16)
        requires
            value <= 0xF,
        ensures
            addr == 5 * value,
    {
        (value as u16) * 5
    }

    /// Copy a program image into memory starting at 0x200.  Fails, leaving
    /// memory untouched, exactly when the image would run past the end of
    /// the address space.
    pub fn load_program(&mut self, program: &[u8]) -> (r: Result<(), Error>)
        requires
            old(self).wf(),
        ensures
            final(self).wf(),
            r is Ok <==> program@.len() <= 4096 - 0x200,
            r is Ok ==> final(self)@ == Seq::new(
                4096,
                |a: int|
                    if 0x200 <= a < 0x200 + program@.len() {
                        program@[a - 0x200]
                    } else {
                        old(self)@[a]
                    },
            ),
            r is Err ==> *final(self) == *old(self) && r == Err::<(), Error>(
                Error::ProgramTooLarge { len: program@.len() as usize },
            ),
    {
        if program.len() > (MEMORY_SIZE - PROGRAM_START) as usize {
            return Err(Error::ProgramTooLarge { len: program.len() });
        }
        let mut i: usize = 0;
        while i < program.len()
            invariant
                old(self).wf(),
                self.wf(),
                i <= program@.len(),
                program@.len() <= 4096 - 0x200,
                forall|a: int|
                    0 <= a < 4096 ==> self@[a] == if 0x200 <= a < 0x200 + i {
                        program@[a - 0x200]
                    } else {
                        old(self)@[a]
                    },
            decreases program@.len() - i,
        {
            self.bytes[0x200 + i] = program[i];
            i += 1;
        }
        proof {
            assert(self@ =~= Seq::new(
                4096,
                |a: int|
                    if 0x200 <= a < 0x200 + program@.len() {
                        program@[a - 0x200]
                    } else {
                        old(self)@[a]
                    },
            ));
        }
        Ok(())
    }
}

} // verus!
