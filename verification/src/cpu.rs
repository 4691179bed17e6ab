//! The CPU core: registers, program counter and call stack, and the
//! fetch-decode-execute step, proved to implement [`crate::machine::step`].

use vstd::prelude::*;

verus! {

use crate::busstate::BusState;
use crate::decoder::Instruction;
use crate::decoder::decode;
use crate::decoder::fields_bounded;
use crate::framebuffer::grid_of;
use crate::keyboard::Keyboard;
use crate::machine::Chip8Error;
use crate::machine::alu_result;
use crate::machine::collision_before;
use crate::machine::draw_collision;
use crate::machine::draw_row_bits;
use crate::machine::draw_rows;
use crate::machine::draw_touches;
use crate::machine::fetch16;
use crate::machine::hit_cell;
use crate::machine::key_skip;
use crate::machine::lemma_draw_row_bits_frame;
use crate::machine::lemma_draw_row_bits_oob;
use crate::machine::lemma_draw_rows_frame;
use crate::machine::lemma_progress_cell;
use crate::machine::lemma_progress_row;
use crate::machine::lemma_skip_row;
use crate::machine::lit_before;
use crate::machine::lit_cell;
use crate::machine::machine_step;
use crate::machine::misc_effect;
use crate::machine::sprite_bit;
use crate::machine::step;
use crate::machine::view_of;
use crate::machine::Chip8State;
use crate::memory::MemoryMap;

/// Relies on `rand::random`: a byte from the thread-local random number
/// generator. Nothing can be promised of its value.
#[verifier::external_body]
fn random_byte() -> u8 {
    rand::random()
}

/// Relies on `bit_vec::BitVec::from_bytes`: each byte becomes eight
/// bits, most significant first.
#[verifier::external_body]
fn sprite_row_bits(byte: u8) -> (bits: Vec<bool>)
    ensures
        bits@.len() == 8,
        forall|k: int| 0 <= k < 8 ==> bits@[k] == sprite_bit(byte, k),
{
    let v = bit_vec::BitVec::from_bytes(&[byte]);
    v.iter().collect()
}

/// How the program counter advances after the current instruction.
enum PcIncrement {
    SINGLE,
    SKIP,
    NONE,
}

/// Registers, program counter and the 16-entry call stack.
pub struct CPU {
    /// Stack pointer: number of call-stack slots in use.
    pub sp: u16,
    /// Program counter.
    pub pc: u16,
    /// The 16 general registers `V0..=VF`. `VF` doubles as the
    /// carry/borrow/shift-out/collision flag.
    pub v: Vec<u8>,
    /// The index register `I`.
    pub i: u16,
    /// The call stack.
    pub stack: Vec<u16>,
}

impl CPU {
    /// Register file and stack have their fixed sizes, and the stack
    /// pointer and program counter are in range.
    pub open spec fn wf(self) -> bool {
        &&& self.v@.len() == 16
        &&& self.stack@.len() == 16
        &&& self.sp <= 16
        &&& self.pc < 4096
    }

    /// Registers zeroed and `PC` at the program start address `0x200`.
    pub fn new() -> (cpu: CPU)
        ensures
            cpu.wf(),
            cpu.sp == 0,
            cpu.pc == 0x200,
            cpu.i == 0,
            cpu.v@ == Seq::new(16, |j: int| 0u8),
            cpu.stack@ == Seq::new(16, |j: int| 0u16),
    {
        let mut v: Vec<u8> = Vec::new();
        let mut stack: Vec<u16> = Vec::new();
        for k in 0..16
            invariant
                v@.len() == k,
                stack@.len() == k,
                forall|j: int| 0 <= j < k ==> v@[j] == 0u8,
                forall|j: int| 0 <= j < k ==> stack@[j] == 0u16,
        {
            v.push(0);
            stack.push(0);
        }
        proof {
            assert(v@ =~= Seq::new(16, |j: int| 0u8));
            assert(stack@ =~= Seq::new(16, |j: int| 0u16));
        }
        CPU { sp: 0, pc: 0x200, v, i: 0, stack }
    }

    /// The nibble of `opcode` at position `pos`, counted from the low
    /// end.
    pub fn get_val_from_opcode(opcode: u16, pos: u8) -> (r: usize)
        requires
            pos <= 3,
        ensures
            r == ((opcode >> (pos * 4)) & 0xF) as usize,
            r < 16,
    {
        proof {
            assert((opcode >> (pos * 4)) & 0xF < 16) by (bit_vector);
        }
        ((opcode >> (pos * 4)) & 0xF) as usize
    }

    /// Push the current `PC` onto the call stack.
    fn push_pc_to_stack(&mut self)
        requires
            old(self).wf(),
            old(self).sp < 16,
        ensures
            final(self).wf(),
            final(self).stack@ == old(self).stack@.update(old(self).sp as int, old(self).pc),
            final(self).sp == old(self).sp + 1,
            final(self).pc == old(self).pc,
            final(self).v == old(self).v,
            final(self).i == old(self).i,
    {
        self.stack.set(self.sp as usize, self.pc);
        self.sp = self.sp + 1;
    }

    /// Pop the `PC` stored by the matching call.
    fn pop_pc_from_stack(&mut self)
        requires
            old(self).wf(),
            old(self).sp >= 1,
        ensures
            final(self).sp == old(self).sp - 1,
            final(self).pc == old(self).stack@[old(self).sp - 1],
            final(self).stack == old(self).stack,
            final(self).v == old(self).v,
            final(self).i == old(self).i,
    {
        self.sp = self.sp - 1;
        self.pc = self.stack[self.sp as usize];
    }

    /// Store the awaited key into the key-wait target register; called by
    /// the bus when the key-wait block clears.
    pub fn write_key_to(&mut self, reg: usize, key: u8)
        requires
            old(self).wf(),
            reg < 16,
        ensures
            final(self).wf(),
            final(self).v@ == old(self).v@.update(reg as int, key),
            final(self).sp == old(self).sp,
            final(self).pc == old(self).pc,
            final(self).i == old(self).i,
            final(self).stack == old(self).stack,
    {
        self.v.set(reg, key);
    }

    /// Execute an `8xyN` arithmetic/logic instruction against the
    /// register file. Instructions outside that family leave it alone.
    fn execute_instr_op_8(v: &mut Vec<u8>, instr: Instruction)
        requires
            old(v)@.len() == 16,
            fields_bounded(instr),
        ensures
            final(v)@ == alu_result(old(v)@, instr),
    {
        match instr {
            Instruction::Assign { x, y } => {
                let vy = v[y as usize];
                v.set(x as usize, vy);
            },
            Instruction::Or { x, y } => {
                let r = v[x as usize] | v[y as usize];
                v.set(x as usize, r);
            },
            Instruction::And { x, y } => {
                let r = v[x as usize] & v[y as usize];
                v.set(x as usize, r);
            },
            Instruction::Xor { x, y } => {
                let r = v[x as usize] ^ v[y as usize];
                v.set(x as usize, r);
            },
            Instruction::AddReg { x, y } => {
                let sum: u16 = v[x as usize] as u16 + v[y as usize] as u16;
                let flag: u8 = if sum > 0xFF {
                    1
                } else {
                    0
                };
                v.set(x as usize, (sum % 256) as u8);
                v.set(15, flag);
            },
            Instruction::SubReg { x, y } => {
                let a: u16 = v[x as usize] as u16;
                let b: u16 = v[y as usize] as u16;
                let flag: u8 = if a >= b {
                    1
                } else {
                    0
                };
                v.set(x as usize, ((a + 256 - b) % 256) as u8);
                v.set(15, flag);
            },
            Instruction::ShiftRight { x } => {
                let vx = v[x as usize];
                let flag: u8 = vx & 1;
                v.set(x as usize, vx >> 1);
                v.set(15, flag);
            },
            Instruction::SubFrom { x, y } => {
                let a: u16 = v[x as usize] as u16;
                let b: u16 = v[y as usize] as u16;
                let flag: u8 = if b >= a {
                    1
                } else {
                    0
                };
                v.set(x as usize, ((b + 256 - a) % 256) as u8);
                v.set(15, flag);
            },
            Instruction::ShiftLeft { x } => {
                let vx = v[x as usize];
                let flag: u8 = (vx >> 7) & 1;
                v.set(x as usize, vx << 1);
                v.set(15, flag);
            },
            _ => {},
        }
    }

    /// Evaluate an `Ex9E`/`ExA1` key-skip condition. The key index is
    /// `Vx` masked to the legal range.
    fn execute_instr_op_e(&mut self, instr: Instruction, keyboard: &mut Keyboard) -> (skip: bool)
        requires
            old(self).wf(),
            old(keyboard).wf(),
            fields_bounded(instr),
        ensures
            *final(self) == *old(self),
            *final(keyboard) == *old(keyboard),
            skip == key_skip(old(keyboard).keys@, old(self).v@, instr),
    {
        match instr {
            Instruction::SkipKeyPressed { x } => {
                let vx = self.v[x as usize];
                proof {
                    assert(vx & 0xF < 16) by (bit_vector);
                }
                let key = (vx & 0xF) as usize;
                keyboard.is_key_pressed(key)
            },
            Instruction::SkipKeyNotPressed { x } => {
                let vx = self.v[x as usize];
                proof {
                    assert(vx & 0xF < 16) by (bit_vector);
                }
                let key = (vx & 0xF) as usize;
                !keyboard.is_key_pressed(key)
            },
            _ => false,
        }
    }

    /// Execute an `Fx..` miscellaneous instruction: timers, the key-wait
    /// latch, index arithmetic, font lookup, BCD and register block
    /// copies. Instructions outside that family change nothing.
    fn execute_instr_op_f(&mut self, instr: Instruction, memory: &mut MemoryMap, state: &mut BusState)
        requires
            old(self).wf(),
            old(memory).wf(),
            old(state).wf(),
            fields_bounded(instr),
        ensures
            final(self).wf(),
            final(memory).wf(),
            final(state).wf(),
            forall|kb: Keyboard|
                #[trigger] view_of(*final(self), *final(memory), kb, *final(state)) == misc_effect(
                    view_of(*old(self), *old(memory), kb, *old(state)),
                    instr,
                ),
    {
        match instr {
            Instruction::ReadDelay { x } => {
                self.v.set(x as usize, state.delay);
            },
            Instruction::WaitKey { x } => {
                state.lock_until_pressed = true;
                state.write_to = x;
            },
            Instruction::SetDelay { x } => {
                state.delay = self.v[x as usize];
            },
            Instruction::SetSound { x } => {
                state.sound = self.v[x as usize];
            },
            Instruction::AddIndex { x } => {
                let sum: u32 = self.i as u32 + self.v[x as usize] as u32;
                let flag: u8 = if sum > 0xFFF {
                    1
                } else {
                    0
                };
                self.v.set(15, flag);
                self.i = (sum % 0x10000) as u16;
            },
            Instruction::FontChar { x } => {
                self.i = self.v[x as usize] as u16 * 5;
            },
            Instruction::StoreBcd { x } => {
                let val = self.v[x as usize];
                let a0: u16 = ((self.i as usize) % 4096) as u16;
                let a1: u16 = ((self.i as usize + 1) % 4096) as u16;
                let a2: u16 = ((self.i as usize + 2) % 4096) as u16;
                memory.write(a0, val / 100);
                memory.write(a1, (val / 10) % 10);
                memory.write(a2, val % 10);
            },
            Instruction::StoreRegs { x } => {
                let count: usize = x as usize + 1;
                for k in 0..count
                    invariant
                        self.wf(),
                        memory.wf(),
                        count <= 16,
                        memory.memory@ == crate::machine::store_regs(
                            old(memory).memory@,
                            old(self).v@,
                            old(self).i as int,
                            k as int,
                        ),
                        *self == *old(self),
                        memory.vram == old(memory).vram,
                        memory.vram_changed == old(memory).vram_changed,
                {
                    let addr: u16 = ((self.i as usize + k) % 4096) as u16;
                    let b = self.v[k];
                    memory.write(addr, b);
                }
            },
            Instruction::LoadRegs { x } => {
                let count: usize = x as usize + 1;
                for k in 0..count
                    invariant
                        self.wf(),
                        memory.wf(),
                        count <= 16,
                        self.v@ == crate::machine::load_regs(
                            old(self).v@,
                            old(memory).memory@,
                            old(self).i as int,
                            k as int,
                        ),
                        self.sp == old(self).sp,
                        self.pc == old(self).pc,
                        self.i == old(self).i,
                        self.stack == old(self).stack,
                        *memory == *old(memory),
                {
                    let addr: u16 = ((self.i as usize + k) % 4096) as u16;
                    let b = memory.read(addr);
                    self.v.set(k, b);
                }
            },
            _ => {},
        }
    }

    /// Draw the `n`-byte sprite stored at `I` at screen position
    /// `(Vx mod 64, Vy mod 32)`. Pixels are XORed in; `VF` reports
    /// whether any pixel was turned off. Sprite bits past the right edge
    /// and rows past the bottom edge are not drawn.
    #[verifier::loop_isolation(false)]
    fn render_sprites_x_y(&mut self, x: usize, y: usize, n: usize, memory: &mut MemoryMap)
        requires
            old(self).wf(),
            old(memory).wf(),
            x < 16,
            y < 16,
            n < 16,
        ensures
            final(self).wf(),
            final(memory).wf(),
            ({
                let grid0 = grid_of(old(memory).vram);
                let mem0 = old(memory).memory@;
                let i0 = old(self).i as int;
                let xp = old(self).v@[x as int] % 64;
                let yp = old(self).v@[y as int] % 32;
                &&& grid_of(final(memory).vram) == draw_rows(grid0, mem0, i0, xp as int, yp as int, n as int)
                &&& final(self).v@ == old(self).v@.update(
                    15,
                    if draw_collision(grid0, mem0, i0, xp as int, yp as int, n as int) {
                        1u8
                    } else {
                        0u8
                    },
                )
                &&& final(memory).vram_changed == (old(memory).vram_changed || draw_touches(
                    mem0,
                    i0,
                    xp as int,
                    yp as int,
                    n as int,
                ))
            }),
            final(memory).memory == old(memory).memory,
            final(self).pc == old(self).pc,
            final(self).sp == old(self).sp,
            final(self).i == old(self).i,
            final(self).stack == old(self).stack,
    {
        let x_pos: usize = (self.v[x] % 64) as usize;
        let y_pos: usize = (self.v[y] % 32) as usize;
        self.v.set(0xF, 0);
        let ghost grid0 = grid_of(memory.vram);
        let ghost mem0 = memory.memory@;
        let ghost changed0 = memory.vram_changed;
        let ghost i0 = self.i as int;
        let ghost xpi = x_pos as int;
        let ghost ypi = y_pos as int;
        for r in 0..n
            invariant
                self.wf(),
                memory.wf(),
                grid_of(memory.vram) == draw_rows(grid0, mem0, i0, xpi, ypi, r as int),
                self.v@ == old(self).v@.update(
                    15,
                    if collision_before(grid0, mem0, i0, xpi, ypi, r as int, 0) {
                        1u8
                    } else {
                        0u8
                    },
                ),
                memory.vram_changed == (changed0 || lit_before(mem0, i0, xpi, ypi, r as int, 0)),
                memory.memory == old(memory).memory,
                self.pc == old(self).pc,
                self.sp == old(self).sp,
                self.i == old(self).i,
                self.stack == old(self).stack,
        {
            let addr: u16 = ((self.i as usize + r) % 4096) as u16;
            let byte = memory.read(addr);
            let target_y = r + y_pos;
            let ghost g_r = grid_of(memory.vram);
            let ghost tyi = ypi + r as int;
            if target_y < 32 {
                let bits = sprite_row_bits(byte);
                for k in 0..8
                    invariant
                        self.wf(),
                        memory.wf(),
                        grid_of(memory.vram) == draw_row_bits(g_r, byte, xpi, tyi, k as int),
                        self.v@ == old(self).v@.update(
                            15,
                            if collision_before(grid0, mem0, i0, xpi, ypi, r as int, k as int) {
                                1u8
                            } else {
                                0u8
                            },
                        ),
                        memory.vram_changed == (changed0 || lit_before(
                            mem0,
                            i0,
                            xpi,
                            ypi,
                            r as int,
                            k as int,
                        )),
                        memory.memory == old(memory).memory,
                        self.pc == old(self).pc,
                        self.sp == old(self).sp,
                        self.i == old(self).i,
                        self.stack == old(self).stack,
                {
                    let target_x = k + x_pos;
                    if target_x < 64 {
                        let pixel = bits[k];
                        let is_set = memory.get_vram(target_x, target_y);
                        proof {
                            lemma_draw_rows_frame(grid0, mem0, i0, xpi, ypi, r as int);
                            lemma_draw_row_bits_frame(g_r, byte, xpi, tyi, k as int);
                            assert(is_set == grid0[target_x as int][target_y as int]);
                        }
                        let mut bit_goal = false;
                        if pixel {
                            if is_set {
                                self.v.set(0xF, 1);
                            } else {
                                bit_goal = true;
                            }
                        } else if is_set {
                            bit_goal = true;
                        }
                        if bit_goal != is_set {
                            memory.pending_screen_update(true);
                        }
                        memory.set_vram(target_x, target_y, bit_goal);
                        proof {
                            lemma_progress_cell(grid0, mem0, i0, xpi, ypi, r as int, k as int);
                            if pixel && is_set {
                                assert(hit_cell(grid0, mem0, i0, xpi, ypi, r as int, k as int));
                                assert(old(self).v@.update(15, 0u8).update(15, 1u8) =~= old(
                                    self,
                                ).v@.update(15, 1u8));
                                assert(old(self).v@.update(15, 1u8).update(15, 1u8) =~= old(
                                    self,
                                ).v@.update(15, 1u8));
                            } else {
                                assert(!hit_cell(grid0, mem0, i0, xpi, ypi, r as int, k as int));
                            }
                        }
                    } else {
                        proof {
                            lemma_progress_cell(grid0, mem0, i0, xpi, ypi, r as int, k as int);
                            assert(!lit_cell(mem0, i0, xpi, ypi, r as int, k as int));
                        }
                    }
                }
                proof {
                    lemma_progress_row(grid0, mem0, i0, xpi, ypi, r as int);
                }
            } else {
                proof {
                    lemma_draw_row_bits_oob(g_r, byte, xpi, tyi, 8);
                    lemma_skip_row(grid0, mem0, i0, xpi, ypi, r as int);
                    lemma_progress_row(grid0, mem0, i0, xpi, ypi, r as int);
                }
            }
        }
    }

    /// Fetch the opcode at `PC`, decode it, execute it and advance `PC`.
    ///
    /// Implements exactly one [`machine_step`]: on success there is a
    /// random byte (the one `Cxkk` read) under which the machine moved to
    /// the new state; on an error the machine is unchanged.
    #[verifier::rlimit(100)]
    #[verifier::spinoff_prover]
    pub fn execute_next_instruction(
        &mut self,
        memory: &mut MemoryMap,
        keyboard: &mut Keyboard,
        state: &mut BusState,
    ) -> (r: Result<(), Chip8Error>)
        requires
            old(self).wf(),
            old(memory).wf(),
            old(keyboard).wf(),
            old(state).wf(),
        ensures
            final(self).wf(),
            final(memory).wf(),
            final(state).wf(),
            *final(keyboard) == *old(keyboard),
            ({
                let pre = view_of(*old(self), *old(memory), *old(keyboard), *old(state));
                let post = view_of(*final(self), *final(memory), *final(keyboard), *final(state));
                match r {
                    Ok(_) => exists|rb: u8|
                        machine_step(pre, rb) == Ok::<Chip8State, Chip8Error>(post),
                    Err(e) => machine_step(pre, 0) == Err::<Chip8State, Chip8Error>(e) && post
                        == pre,
                }
            }),
    {
        let ghost pre = view_of(*old(self), *old(memory), *old(keyboard), *old(state));
        let b0 = memory.read(self.pc);
        let pc1: u16 = if self.pc == 4095 {
            0
        } else {
            self.pc + 1
        };
        let b1 = memory.read(pc1);
        let opcode: u16 = ((b0 as u16) << 8) | (b1 as u16);
        proof {
            assert(opcode == fetch16(pre.mem, pre.pc as int));
        }
        let instr = decode(opcode);
        let ghost mut rb_used: u8 = 0;
        let mut increment_type = PcIncrement::SINGLE;
        match instr {
            Instruction::ClearScreen => {
                memory.clear_vram();
            },
            Instruction::Return => {
                if self.sp == 0 {
                    return Err(Chip8Error::StackUnderflow);
                }
                self.pop_pc_from_stack();
            },
            Instruction::Jump { nnn } => {
                self.pc = nnn;
                increment_type = PcIncrement::NONE;
            },
            Instruction::Call { nnn } => {
                if self.sp >= 16 {
                    return Err(Chip8Error::StackOverflow);
                }
                self.push_pc_to_stack();
                self.pc = nnn;
                increment_type = PcIncrement::NONE;
            },
            Instruction::SkipEqImm { x, kk } => {
                if self.v[x as usize] == kk {
                    increment_type = PcIncrement::SKIP;
                }
            },
            Instruction::SkipNeImm { x, kk } => {
                if self.v[x as usize] != kk {
                    increment_type = PcIncrement::SKIP;
                }
            },
            Instruction::SkipEqReg { x, y } => {
                if self.v[x as usize] == self.v[y as usize] {
                    increment_type = PcIncrement::SKIP;
                }
            },
            Instruction::SetImm { x, kk } => {
                self.v.set(x as usize, kk);
            },
            Instruction::AddImm { x, kk } => {
                let sum: u16 = self.v[x as usize] as u16 + kk as u16;
                self.v.set(x as usize, (sum % 256) as u8);
            },
            Instruction::Assign { .. } => {
                CPU::execute_instr_op_8(&mut self.v, instr);
            },
            Instruction::Or { .. } => {
                CPU::execute_instr_op_8(&mut self.v, instr);
            },
            Instruction::And { .. } => {
                CPU::execute_instr_op_8(&mut self.v, instr);
            },
            Instruction::Xor { .. } => {
                CPU::execute_instr_op_8(&mut self.v, instr);
            },
            Instruction::AddReg { .. } => {
                CPU::execute_instr_op_8(&mut self.v, instr);
            },
            Instruction::SubReg { .. } => {
                CPU::execute_instr_op_8(&mut self.v, instr);
            },
            Instruction::ShiftRight { .. } => {
                CPU::execute_instr_op_8(&mut self.v, instr);
            },
            Instruction::SubFrom { .. } => {
                CPU::execute_instr_op_8(&mut self.v, instr);
            },
            Instruction::ShiftLeft { .. } => {
                CPU::execute_instr_op_8(&mut self.v, instr);
            },
            Instruction::SkipNeReg { x, y } => {
                if self.v[x as usize] != self.v[y as usize] {
                    increment_type = PcIncrement::SKIP;
                }
            },
            Instruction::SetIndex { nnn } => {
                self.i = nnn;
            },
            Instruction::JumpV0 { nnn } => {
                self.pc = ((self.v[0] as usize + nnn as usize) % 4096) as u16;
                increment_type = PcIncrement::NONE;
            },
            Instruction::Random { x, kk } => {
                let rb = random_byte();
                proof {
                    rb_used = rb;
                }
                self.v.set(x as usize, rb & kk);
            },
            Instruction::Draw { x, y, n } => {
                self.render_sprites_x_y(x as usize, y as usize, n as usize, memory);
            },
            Instruction::SkipKeyPressed { .. } => {
                if self.execute_instr_op_e(instr, keyboard) {
                    increment_type = PcIncrement::SKIP;
                }
            },
            Instruction::SkipKeyNotPressed { .. } => {
                if self.execute_instr_op_e(instr, keyboard) {
                    increment_type = PcIncrement::SKIP;
                }
            },
            Instruction::ReadDelay { .. } => {
                self.execute_instr_op_f(instr, memory, state);
                proof {
                    assert(view_of(*self, *memory, *keyboard, *state) == misc_effect(pre, instr));
                }
            },
            Instruction::WaitKey { .. } => {
                self.execute_instr_op_f(instr, memory, state);
                proof {
                    assert(view_of(*self, *memory, *keyboard, *state) == misc_effect(pre, instr));
                }
            },
            Instruction::SetDelay { .. } => {
                self.execute_instr_op_f(instr, memory, state);
                proof {
                    assert(view_of(*self, *memory, *keyboard, *state) == misc_effect(pre, instr));
                }
            },
            Instruction::SetSound { .. } => {
                self.execute_instr_op_f(instr, memory, state);
                proof {
                    assert(view_of(*self, *memory, *keyboard, *state) == misc_effect(pre, instr));
                }
            },
            Instruction::AddIndex { .. } => {
                self.execute_instr_op_f(instr, memory, state);
                proof {
                    assert(view_of(*self, *memory, *keyboard, *state) == misc_effect(pre, instr));
                }
            },
            Instruction::FontChar { .. } => {
                self.execute_instr_op_f(instr, memory, state);
                proof {
                    assert(view_of(*self, *memory, *keyboard, *state) == misc_effect(pre, instr));
                }
            },
            Instruction::StoreBcd { .. } => {
                self.execute_instr_op_f(instr, memory, state);
                proof {
                    assert(view_of(*self, *memory, *keyboard, *state) == misc_effect(pre, instr));
                }
            },
            Instruction::StoreRegs { .. } => {
                self.execute_instr_op_f(instr, memory, state);
                proof {
                    assert(view_of(*self, *memory, *keyboard, *state) == misc_effect(pre, instr));
                }
            },
            Instruction::LoadRegs { .. } => {
                self.execute_instr_op_f(instr, memory, state);
                proof {
                    assert(view_of(*self, *memory, *keyboard, *state) == misc_effect(pre, instr));
                }
            },
            Instruction::Invalid { .. } => {
                return Err(Chip8Error::InvalidOpcode(opcode));
            },
        }
        match increment_type {
            PcIncrement::SINGLE => {
                self.pc = ((self.pc as usize + 2) % 4096) as u16;
            },
            PcIncrement::SKIP => {
                self.pc = ((self.pc as usize + 4) % 4096) as u16;
            },
            PcIncrement::NONE => {},
        }
        proof {
            let post = view_of(*self, *memory, *keyboard, *state);
            let res = Ok::<Chip8State, Chip8Error>(post);
            // One assert per variant keeps each proof obligation small.
            match instr {
                Instruction::ClearScreen => assert(step(pre, instr, rb_used) == res),
                Instruction::Return => assert(step(pre, instr, rb_used) == res),
                Instruction::Jump { .. } => assert(step(pre, instr, rb_used) == res),
                Instruction::Call { .. } => assert(step(pre, instr, rb_used) == res),
                Instruction::SkipEqImm { .. } => assert(step(pre, instr, rb_used) == res),
                Instruction::SkipNeImm { .. } => assert(step(pre, instr, rb_used) == res),
                Instruction::SkipEqReg { .. } => assert(step(pre, instr, rb_used) == res),
                Instruction::SetImm { .. } => assert(step(pre, instr, rb_used) == res),
                Instruction::AddImm { .. } => assert(step(pre, instr, rb_used) == res),
                Instruction::Assign { .. } => assert(step(pre, instr, rb_used) == res),
                Instruction::Or { .. } => assert(step(pre, instr, rb_used) == res),
                Instruction::And { .. } => assert(step(pre, instr, rb_used) == res),
                Instruction::Xor { .. } => assert(step(pre, instr, rb_used) == res),
                Instruction::AddReg { .. } => assert(step(pre, instr, rb_used) == res),
                Instruction::SubReg { .. } => assert(step(pre, instr, rb_used) == res),
                Instruction::ShiftRight { .. } => assert(step(pre, instr, rb_used) == res),
                Instruction::SubFrom { .. } => assert(step(pre, instr, rb_used) == res),
                Instruction::ShiftLeft { .. } => assert(step(pre, instr, rb_used) == res),
                Instruction::SkipNeReg { .. } => assert(step(pre, instr, rb_used) == res),
                Instruction::SetIndex { .. } => assert(step(pre, instr, rb_used) == res),
                Instruction::JumpV0 { .. } => assert(step(pre, instr, rb_used) == res),
                Instruction::Random { .. } => assert(step(pre, instr, rb_used) == res),
                Instruction::Draw { .. } => assert(step(pre, instr, rb_used) == res),
                Instruction::SkipKeyPressed { .. } => assert(step(pre, instr, rb_used) == res),
                Instruction::SkipKeyNotPressed { .. } => assert(step(pre, instr, rb_used) == res),
                Instruction::ReadDelay { .. } => assert(step(pre, instr, rb_used) == res),
                Instruction::WaitKey { .. } => assert(step(pre, instr, rb_used) == res),
                Instruction::SetDelay { .. } => assert(step(pre, instr, rb_used) == res),
                Instruction::SetSound { .. } => assert(step(pre, instr, rb_used) == res),
                Instruction::AddIndex { .. } => assert(step(pre, instr, rb_used) == res),
                Instruction::FontChar { .. } => assert(step(pre, instr, rb_used) == res),
                Instruction::StoreBcd { .. } => assert(step(pre, instr, rb_used) == res),
                Instruction::StoreRegs { .. } => assert(step(pre, instr, rb_used) == res),
                Instruction::LoadRegs { .. } => assert(step(pre, instr, rb_used) == res),
                Instruction::Invalid { .. } => {},
            }
            assert(machine_step(pre, rb_used) == Ok::<Chip8State, Chip8Error>(post));
        }
        Ok(())
    }
}

} // verus!
