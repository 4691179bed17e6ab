//! The bus: owns the CPU, memory, keyboard and shared state, and exposes
//! the two tick entry points the external drive loop calls.

use vstd::prelude::*;

verus! {

use bitmatrix::BitMatrix;
use crate::busstate::BusState;
use crate::cpu::CPU;
use crate::framebuffer::grid_of;
use crate::keyboard::Keyboard;
use crate::machine::Chip8Error;
use crate::machine::Chip8State;
use crate::machine::frame_step;
use crate::machine::initial_state;
use crate::machine::machine_step;
use crate::machine::tick_down;
use crate::machine::unlock_effect;
use crate::machine::view_of;
use crate::memory::MemoryMap;

/// The whole machine. The memory, keyboard and shared state are public
/// so the display and input collaborators can reach them directly.
pub struct Bus {
    /// The CPU core; only the bus ticks it.
    pub cpu: CPU,
    /// Memory and framebuffer.
    pub memory: MemoryMap,
    /// The 16-key keyboard.
    pub keyboard: Keyboard,
    /// Timers and the key-wait latch.
    pub state: BusState,
}

impl Bus {
    /// Every component is well formed.
    pub open spec fn wf(self) -> bool {
        &&& self.cpu.wf()
        &&& self.memory.wf()
        &&& self.keyboard.wf()
        &&& self.state.wf()
    }

    /// The abstract machine state this bus stands for.
    pub open spec fn model(self) -> Chip8State {
        view_of(self.cpu, self.memory, self.keyboard, self.state)
    }

    /// A machine at startup: registers zeroed, `PC = 0x200`, font
    /// loaded, screen blank, timers zero. The ROM is loaded afterwards
    /// through [`MemoryMap::load_rom`].
    pub fn new() -> (b: Bus)
        ensures
            b.wf(),
            b.model() == initial_state(),
    {
        let b = Bus {
            cpu: CPU::new(),
            memory: MemoryMap::new(),
            keyboard: Keyboard::new(),
            state: BusState { delay: 0, sound: 0, lock_until_pressed: false, write_to: 0x0 },
        };
        proof {
            assert(b.model() =~= initial_state());
        }
        b
    }

    /// Whether the framebuffer changed since the last call; reading
    /// clears the flag.
    pub fn was_screen_updated(&mut self) -> (r: bool)
        ensures
            r == old(self).model().changed,
            *final(self) == (Bus {
                memory: MemoryMap { vram_changed: false, ..old(self).memory },
                ..*old(self)
            }),
    {
        self.memory.was_screen_updated()
    }

    /// A copy of the framebuffer for the display collaborator.
    pub fn get_vram(&self) -> (m: BitMatrix)
        ensures
            grid_of(m) == self.model().grid,
    {
        self.memory.get_full_vram()
    }

    /// One 60Hz timer tick: both timers decrement, with a floor at zero.
    /// Nothing else changes.
    pub fn tick_frame_timer(&mut self)
        ensures
            final(self).model() == (Chip8State {
                delay: tick_down(old(self).model().delay),
                sound: tick_down(old(self).model().sound),
                ..old(self).model()
            }),
            final(self).wf() == old(self).wf(),
    {
        if self.state.delay > 0 {
            self.state.delay = self.state.delay - 1;
        }
        if self.state.sound > 0 {
            self.state.sound = self.state.sound - 1;
        }
    }

    /// One instruction tick: resolve the key-wait block, then either
    /// stay blocked (a no-op) or execute one instruction.
    ///
    /// Implements exactly one [`frame_step`]; an error reports an
    /// invalid opcode or a stack fault to the driver and leaves the
    /// machine otherwise unchanged.
    pub fn tick_frame_cpu(&mut self) -> (r: Result<(), Chip8Error>)
        requires
            old(self).wf(),
        ensures
            final(self).wf(),
            ({
                let pre = old(self).model();
                let post = final(self).model();
                match r {
                    Ok(_) => exists|rb: u8|
                        frame_step(pre, rb) == Ok::<Chip8State, Chip8Error>(post),
                    Err(e) => frame_step(pre, 0) == Err::<Chip8State, Chip8Error>(e) && post
                        == unlock_effect(pre),
                }
            }),
    {
        let ghost pre = self.model();
        if self.keyboard.was_any_key_pressed() && self.state.lock_until_pressed {
            self.state.lock_until_pressed = false;
            let last_key_pressed = self.keyboard.get_last_pressed_key();
            self.cpu.write_key_to(self.state.write_to as usize, last_key_pressed);
        }
        proof {
            assert(self.model() == unlock_effect(pre));
        }
        if self.state.lock_until_pressed {
            proof {
                assert(frame_step(pre, 0) == Ok::<Chip8State, Chip8Error>(self.model()));
            }
            return Ok(());
        }
        let ghost mid = self.model();
        let r = self.cpu.execute_next_instruction(
            &mut self.memory,
            &mut self.keyboard,
            &mut self.state,
        );
        proof {
            let post = self.model();
            match r {
                Ok(_) => {
                    let rbw = choose|rb: u8|
                        machine_step(mid, rb) == Ok::<Chip8State, Chip8Error>(post);
                    assert(frame_step(pre, rbw) == Ok::<Chip8State, Chip8Error>(post));
                },
                Err(e) => {
                    assert(frame_step(pre, 0) == Err::<Chip8State, Chip8Error>(e));
                },
            }
        }
        r
    }
}

} // verus!
