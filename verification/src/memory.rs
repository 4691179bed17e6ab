//! The memory map: 4096 addressable bytes with the font installed in the
//! reserved low region, plus the 64x32 framebuffer and its dirty flag.

use vstd::prelude::*;

verus! {

use bitmatrix::BitMatrix;
use crate::framebuffer::fb_clone;
use crate::framebuffer::fb_get;
use crate::framebuffer::fb_new;
use crate::framebuffer::fb_set;
use crate::framebuffer::fb_set_all;
use crate::framebuffer::grid_of;
use crate::machine::blank_grid;
use crate::machine::font_seq;
use crate::machine::grid_wf;
use crate::machine::initial_mem;

/// The byte-addressable memory, the framebuffer and the dirty flag.
///
/// Addresses `0x000..0x200` are reserved: the font glyphs sit in the low
/// 80 bytes. Programs are loaded from `0x200` up.
pub struct MemoryMap {
    /// The 4096 addressable bytes.
    pub memory: Vec<u8>,
    /// The 64x32 framebuffer, indexed `(x, y)`.
    pub vram: BitMatrix,
    /// Whether the framebuffer changed since the consumer last read it.
    pub vram_changed: bool,
}

impl MemoryMap {
    /// The full address space is present and the framebuffer is 64x32.
    pub open spec fn wf(self) -> bool {
        &&& self.memory@.len() == 4096
        &&& grid_wf(grid_of(self.vram))
    }

    /// Memory at startup: zeroed, the font installed, the screen blank.
    pub fn new() -> (m: MemoryMap)
        ensures
            m.wf(),
            m.memory@ == initial_mem(),
            grid_of(m.vram) == blank_grid(),
            !m.vram_changed,
    {
        let mut memory: Vec<u8> = Vec::new();
        for a in 0..4096
            invariant
                memory@.len() == a,
                forall|j: int| 0 <= j < a ==> memory@[j] == 0u8,
        {
            memory.push(0);
        }
        let vram = fb_new(64, 32);
        proof {
            assert(grid_of(vram) =~~= blank_grid());
        }
        let mut m = MemoryMap { memory, vram, vram_changed: false };
        m.init_font();
        proof {
            assert(m.memory@ =~= initial_mem());
        }
        m
    }

    /// Install the 80-byte font into the reserved low region.
    fn init_font(&mut self)
        requires
            old(self).memory@.len() == 4096,
        ensures
            final(self).memory@.len() == 4096,
            forall|a: int| 0 <= a < 80 ==> final(self).memory@[a] == font_seq()[a],
            forall|a: int| 80 <= a < 4096 ==> final(self).memory@[a] == old(self).memory@[a],
            final(self).vram == old(self).vram,
            final(self).vram_changed == old(self).vram_changed,
    {
        let mut font: Vec<u8> = Vec::new();
        font.push(0xF0);
        font.push(0x90);
        font.push(0x90);
        font.push(0x90);
        font.push(0xF0);
        font.push(0x20);
        font.push(0x60);
        font.push(0x20);
        font.push(0x20);
        font.push(0x70);
        font.push(0xF0);
        font.push(0x10);
        font.push(0xF0);
        font.push(0x80);
        font.push(0xF0);
        font.push(0xF0);
        font.push(0x10);
        font.push(0xF0);
        font.push(0x10);
        font.push(0xF0);
        font.push(0x90);
        font.push(0x90);
        font.push(0xF0);
        font.push(0x10);
        font.push(0x10);
        font.push(0xF0);
        font.push(0x80);
        font.push(0xF0);
        font.push(0x10);
        font.push(0xF0);
        font.push(0xF0);
        font.push(0x80);
        font.push(0xF0);
        font.push(0x90);
        font.push(0xF0);
        font.push(0xF0);
        font.push(0x10);
        font.push(0x20);
        font.push(0x40);
        font.push(0x40);
        font.push(0xF0);
        font.push(0x90);
        font.push(0xF0);
        font.push(0x90);
        font.push(0xF0);
        font.push(0xF0);
        font.push(0x90);
        font.push(0xF0);
        font.push(0x10);
        font.push(0xF0);
        font.push(0xF0);
        font.push(0x90);
        font.push(0xF0);
        font.push(0x90);
        font.push(0x90);
        font.push(0xE0);
        font.push(0x90);
        font.push(0xE0);
        font.push(0x90);
        font.push(0xE0);
        font.push(0xF0);
        font.push(0x80);
        font.push(0x80);
        font.push(0x80);
        font.push(0xF0);
        font.push(0xE0);
        font.push(0x90);
        font.push(0x90);
        font.push(0x90);
        font.push(0xE0);
        font.push(0xF0);
        font.push(0x80);
        font.push(0xF0);
        font.push(0x80);
        font.push(0xF0);
        font.push(0xF0);
        font.push(0x80);
        font.push(0xF0);
        font.push(0x80);
        font.push(0x80);
        proof {
            assert(font@ =~= font_seq());
        }
        for idx in 0..80
            invariant
                font@ == font_seq(),
                self.memory@.len() == 4096,
                forall|a: int| 0 <= a < idx ==> self.memory@[a] == font_seq()[a],
                forall|a: int| idx <= a < 4096 ==> self.memory@[a] == old(self).memory@[a],
                self.vram == old(self).vram,
                self.vram_changed == old(self).vram_changed,
        {
            let b = font[idx];
            self.memory.set(idx, b);
        }
    }

    /// Copy a ROM image into memory starting at `0x200`. The loader that
    /// produces the bytes is an external collaborator.
    pub fn load_rom(&mut self, rom: &Vec<u8>)
        requires
            old(self).wf(),
            rom@.len() <= 4096 - 0x200,
        ensures
            final(self).wf(),
            forall|a: int|
                0x200 <= a < 0x200 + rom@.len() ==> final(self).memory@[a] == rom@[a - 0x200],
            forall|a: int|
                (0 <= a < 0x200 || 0x200 + rom@.len() <= a < 4096) ==> final(self).memory@[a]
                    == old(self).memory@[a],
            final(self).vram == old(self).vram,
            final(self).vram_changed == old(self).vram_changed,
    {
        let len = rom.len();
        for k in 0..len
            invariant
                len == rom@.len(),
                len <= 4096 - 0x200,
                self.memory@.len() == 4096,
                forall|a: int| 0x200 <= a < 0x200 + k ==> self.memory@[a] == rom@[a - 0x200],
                forall|a: int|
                    (0 <= a < 0x200 || 0x200 + k <= a < 4096) ==> self.memory@[a] == old(
                        self,
                    ).memory@[a],
                self.vram == old(self).vram,
                self.vram_changed == old(self).vram_changed,
        {
            let b = rom[k];
            self.memory.set(0x200 + k, b);
        }
    }

    /// The byte at `addr`.
    pub fn read(&self, addr: u16) -> (b: u8)
        requires
            self.wf(),
            addr < 4096,
        ensures
            b == self.memory@[addr as int],
    {
        self.memory[addr as usize]
    }

    /// Write the byte at `addr`.
    pub fn write(&mut self, addr: u16, val: u8)
        requires
            old(self).wf(),
            addr < 4096,
        ensures
            final(self).wf(),
            final(self).memory@ == old(self).memory@.update(addr as int, val),
            final(self).vram == old(self).vram,
            final(self).vram_changed == old(self).vram_changed,
    {
        self.memory.set(addr as usize, val);
    }

    /// The pixel at `(x, y)`.
    pub fn get_vram(&mut self, x: usize, y: usize) -> (b: bool)
        requires
            old(self).wf(),
            x < 64,
            y < 32,
        ensures
            *final(self) == *old(self),
            b == grid_of(old(self).vram)[x as int][y as int],
    {
        fb_get(&self.vram, x, y)
    }

    /// A copy of the whole framebuffer, for the display collaborator.
    pub fn get_full_vram(&self) -> (m: BitMatrix)
        ensures
            grid_of(m) == grid_of(self.vram),
    {
        fb_clone(&self.vram)
    }

    /// Write the pixel at `(x, y)`.
    pub fn set_vram(&mut self, x: usize, y: usize, set: bool)
        requires
            old(self).wf(),
            x < 64,
            y < 32,
        ensures
            final(self).wf(),
            grid_of(final(self).vram) == grid_of(old(self).vram).update(
                x as int,
                grid_of(old(self).vram)[x as int].update(y as int, set),
            ),
            final(self).memory == old(self).memory,
            final(self).vram_changed == old(self).vram_changed,
    {
        fb_set(&mut self.vram, x, y, set);
    }

    /// Set or clear the dirty flag.
    pub fn pending_screen_update(&mut self, updated: bool)
        ensures
            final(self).memory == old(self).memory,
            final(self).vram == old(self).vram,
            final(self).vram_changed == updated,
    {
        self.vram_changed = updated;
    }

    /// Whether the framebuffer changed since the last call; reading
    /// clears the flag (single-consumer contract).
    pub fn was_screen_updated(&mut self) -> (r: bool)
        ensures
            r == old(self).vram_changed,
            final(self).memory == old(self).memory,
            final(self).vram == old(self).vram,
            !final(self).vram_changed,
    {
        let r = self.vram_changed;
        self.vram_changed = false;
        r
    }

    /// Turn every pixel off and mark the framebuffer dirty.
    pub fn clear_vram(&mut self)
        requires
            old(self).wf(),
        ensures
            final(self).wf(),
            grid_of(final(self).vram) == blank_grid(),
            final(self).memory == old(self).memory,
            final(self).vram_changed,
    {
        fb_set_all(&mut self.vram, false);
        self.vram_changed = true;
        proof {
            assert(grid_of(self.vram) =~~= blank_grid());
        }
    }
}

} // verus!
