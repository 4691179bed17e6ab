//! The mathematical model of the machine: an abstract state, the
//! transition function executed by one instruction tick, and the laws the
//! interpreter obeys.
//!
//! The executable interpreter ([`crate::cpu`], [`crate::bus`]) is proved
//! to implement [`step`] and [`frame_step`] exactly.

use vstd::prelude::*;

verus! {

use crate::busstate::BusState;
use crate::cpu::CPU;
use crate::decoder::Instruction;
use crate::decoder::spec_decode;
use crate::framebuffer::grid_of;
use crate::keyboard::Keyboard;
use crate::keyboard::State;
use crate::memory::MemoryMap;

/// A ROM-integrity error surfaced to the driver: an opcode that matches
/// no defined case, or a call/return that exceeds the 16-entry stack.
#[derive(Clone, Copy, PartialEq, Eq, Structural, Debug)]
pub enum Chip8Error {
    /// The fetched opcode matches no defined instruction.
    InvalidOpcode(u16),
    /// A call was executed with all 16 stack slots in use.
    StackOverflow,
    /// A return was executed with an empty call stack.
    StackUnderflow,
}

/// The abstract state of the whole machine: CPU registers, memory,
/// framebuffer, keyboard and timers, as one mathematical value.
#[verifier::ext_equal]
pub struct Chip8State {
    /// Program counter.
    pub pc: u16,
    /// Stack pointer: number of call-stack slots in use.
    pub sp: u16,
    /// The 16 general registers `V0..=VF`.
    pub v: Seq<u8>,
    /// The index register `I`.
    pub i: u16,
    /// The 16-entry call stack.
    pub stack: Seq<u16>,
    /// The 4096 addressable bytes.
    pub mem: Seq<u8>,
    /// The 64x32 framebuffer, indexed `grid[x][y]`.
    pub grid: Seq<Seq<bool>>,
    /// Whether the framebuffer changed since the consumer last read it.
    pub changed: bool,
    /// The debounced state of the 16 keys.
    pub keys: Seq<State>,
    /// Whether any key produced a press event this frame.
    pub any_pressed: bool,
    /// The key index of the most recent press event.
    pub last_key: u8,
    /// Delay timer, decremented at 60Hz down to 0.
    pub delay: u8,
    /// Sound timer, decremented at 60Hz down to 0.
    pub sound: u8,
    /// Whether the machine is blocked waiting for a key press.
    pub locked: bool,
    /// The register a key-wait stores the pressed key into.
    pub write_to: u8,
}

/// A 64x32 grid of rows of the right length.
pub open spec fn grid_wf(g: Seq<Seq<bool>>) -> bool {
    &&& g.len() == 64
    &&& forall|x: int| 0 <= x < 64 ==> (#[trigger] g[x]).len() == 32
}

impl Chip8State {
    /// Structural validity: all the fixed sizes, and every index field in
    /// its legal range.
    pub open spec fn wf(self) -> bool {
        &&& self.v.len() == 16
        &&& self.stack.len() == 16
        &&& self.mem.len() == 4096
        &&& grid_wf(self.grid)
        &&& self.keys.len() == 16
        &&& self.sp <= 16
        &&& self.pc < 4096
        &&& self.last_key < 16
        &&& self.write_to < 16
    }
}

/// The program counter after advancing `k` bytes, wrapped to the 4096-byte
/// address space.
pub open spec fn pc_after(pc: u16, k: int) -> u16 {
    ((pc + k) % 4096) as u16
}

/// The big-endian 16-bit opcode at `pc`; the second byte wraps around the
/// end of the address space.
pub open spec fn fetch16(mem: Seq<u8>, pc: int) -> u16
    recommends
        mem.len() == 4096,
        0 <= pc < 4096,
{
    (((mem[pc] as u16) << 8) | (mem[(pc + 1) % 4096] as u16)) as u16
}

/// The 80-byte font: one fixed 5-byte glyph per hexadecimal digit.
pub open spec fn font_seq() -> Seq<u8> {
    seq![
        0xF0u8, 0x90, 0x90, 0x90, 0xF0,  // 0
        0x20, 0x60, 0x20, 0x20, 0x70,  // 1
        0xF0, 0x10, 0xF0, 0x80, 0xF0,  // 2
        0xF0, 0x10, 0xF0, 0x10, 0xF0,  // 3
        0x90, 0x90, 0xF0, 0x10, 0x10,  // 4
        0xF0, 0x80, 0xF0, 0x10, 0xF0,  // 5
        0xF0, 0x80, 0xF0, 0x90, 0xF0,  // 6
        0xF0, 0x10, 0x20, 0x40, 0x40,  // 7
        0xF0, 0x90, 0xF0, 0x90, 0xF0,  // 8
        0xF0, 0x90, 0xF0, 0x10, 0xF0,  // 9
        0xF0, 0x90, 0xF0, 0x90, 0x90,  // A
        0xE0, 0x90, 0xE0, 0x90, 0xE0,  // B
        0xF0, 0x80, 0x80, 0x80, 0xF0,  // C
        0xE0, 0x90, 0x90, 0x90, 0xE0,  // D
        0xF0, 0x80, 0xF0, 0x80, 0xF0,  // E
        0xF0, 0x80, 0xF0, 0x80, 0x80,  // F
    ]
}

/// Memory at startup: the font in the low 80 bytes, zero elsewhere.
pub open spec fn initial_mem() -> Seq<u8> {
    Seq::new(4096, |a: int| if a < 80 { font_seq()[a] } else { 0u8 })
}

/// The all-off framebuffer.
pub open spec fn blank_grid() -> Seq<Seq<bool>> {
    Seq::new(64, |x: int| Seq::new(32, |y: int| false))
}

/// The machine at startup: registers zeroed, `PC = 0x200`, font loaded,
/// screen blank, keys untouched, timers zero, not blocked.
pub open spec fn initial_state() -> Chip8State {
    Chip8State {
        pc: 0x200,
        sp: 0,
        v: Seq::new(16, |j: int| 0u8),
        i: 0,
        stack: Seq::new(16, |j: int| 0u16),
        mem: initial_mem(),
        grid: blank_grid(),
        changed: false,
        keys: Seq::new(16, |j: int| State::NOTPRESSED),
        any_pressed: false,
        last_key: 0,
        delay: 0,
        sound: 0,
        locked: false,
        write_to: 0,
    }
}

/// One 60Hz tick of a timer: decrement, with a floor at zero.
pub open spec fn tick_down(t: u8) -> u8 {
    if t > 0 {
        (t - 1) as u8
    } else {
        0
    }
}

/// The register file after an `8xyN` arithmetic/logic instruction.
///
/// Where the instruction also writes the flag, the flag write comes last,
/// so that a flag-producing instruction whose destination is `VF` leaves
/// the flag there.
pub open spec fn alu_result(v: Seq<u8>, instr: Instruction) -> Seq<u8>
    recommends
        v.len() == 16,
        crate::decoder::fields_bounded(instr),
{
    match instr {
        Instruction::Assign { x, y } => v.update(x as int, v[y as int]),
        Instruction::Or { x, y } => v.update(x as int, v[x as int] | v[y as int]),
        Instruction::And { x, y } => v.update(x as int, v[x as int] & v[y as int]),
        Instruction::Xor { x, y } => v.update(x as int, v[x as int] ^ v[y as int]),
        Instruction::AddReg { x, y } => {
            let sum = v[x as int] + v[y as int];
            v.update(x as int, (sum % 256) as u8).update(
                15,
                if sum > 255 {
                    1u8
                } else {
                    0u8
                },
            )
        },
        Instruction::SubReg { x, y } => {
            let flag: u8 = if v[x as int] >= v[y as int] {
                1u8
            } else {
                0u8
            };
            v.update(x as int, ((v[x as int] + 256 - v[y as int]) % 256) as u8).update(15, flag)
        },
        Instruction::ShiftRight { x } => {
            let flag: u8 = v[x as int] & 1;
            v.update(x as int, v[x as int] >> 1).update(15, flag)
        },
        Instruction::SubFrom { x, y } => {
            let flag: u8 = if v[y as int] >= v[x as int] {
                1u8
            } else {
                0u8
            };
            v.update(x as int, ((v[y as int] + 256 - v[x as int]) % 256) as u8).update(15, flag)
        },
        Instruction::ShiftLeft { x } => {
            let flag: u8 = (v[x as int] >> 7) & 1;
            v.update(x as int, v[x as int] << 1).update(15, flag)
        },
        _ => v,
    }
}

/// Whether an `Ex9E`/`ExA1` key skip takes its skip branch. The key index
/// is `Vx` masked to the legal range.
pub open spec fn key_skip(keys: Seq<State>, v: Seq<u8>, instr: Instruction) -> bool
    recommends
        keys.len() == 16,
        v.len() == 16,
{
    match instr {
        Instruction::SkipKeyPressed { x } => keys[(v[x as int] & 0xF) as int] is PRESSED,
        Instruction::SkipKeyNotPressed { x } => !(keys[(v[x as int] & 0xF) as int] is PRESSED),
        _ => false,
    }
}

/// Memory after copying `V0..V(count-1)` to addresses `i..`, each address
/// wrapped to the 4096-byte space, in ascending register order.
pub open spec fn store_regs(mem: Seq<u8>, v: Seq<u8>, i: int, count: int) -> Seq<u8>
    decreases count,
{
    if count <= 0 {
        mem
    } else {
        store_regs(mem, v, i, count - 1).update((i + count - 1) % 4096, v[count - 1])
    }
}

/// Registers after loading `V0..V(count-1)` from addresses `i..`, each
/// address wrapped to the 4096-byte space, in ascending register order.
pub open spec fn load_regs(v: Seq<u8>, mem: Seq<u8>, i: int, count: int) -> Seq<u8>
    decreases count,
{
    if count <= 0 {
        v
    } else {
        load_regs(v, mem, i, count - 1).update(count - 1, mem[(i + count - 1) % 4096])
    }
}

/// The effect of an `Fx..` miscellaneous instruction on everything but
/// the program counter.
pub open spec fn misc_effect(s: Chip8State, instr: Instruction) -> Chip8State
    recommends
        s.wf(),
        crate::decoder::fields_bounded(instr),
{
    match instr {
        Instruction::ReadDelay { x } => Chip8State { v: s.v.update(x as int, s.delay), ..s },
        Instruction::WaitKey { x } => Chip8State { locked: true, write_to: x, ..s },
        Instruction::SetDelay { x } => Chip8State { delay: s.v[x as int], ..s },
        Instruction::SetSound { x } => Chip8State { sound: s.v[x as int], ..s },
        Instruction::AddIndex { x } => {
            let sum = s.i + s.v[x as int];
            Chip8State {
                i: (sum % 0x10000) as u16,
                v: s.v.update(
                    15,
                    if sum > 0xFFF {
                        1u8
                    } else {
                        0u8
                    },
                ),
                ..s
            }
        },
        Instruction::FontChar { x } => Chip8State { i: (s.v[x as int] * 5) as u16, ..s },
        Instruction::StoreBcd { x } => {
            let val = s.v[x as int];
            Chip8State {
                mem: s.mem.update(s.i as int % 4096, (val / 100) as u8).update(
                    (s.i + 1) % 4096,
                    ((val / 10) % 10) as u8,
                ).update((s.i + 2) % 4096, (val % 10) as u8),
                ..s
            }
        },
        Instruction::StoreRegs { x } => Chip8State {
            mem: store_regs(s.mem, s.v, s.i as int, x as int + 1),
            ..s
        },
        Instruction::LoadRegs { x } => Chip8State {
            v: load_regs(s.v, s.mem, s.i as int, x as int + 1),
            ..s
        },
        _ => s,
    }
}

/// Bit `k` (most significant first) of one sprite row byte.
pub open spec fn sprite_bit(byte: u8, k: int) -> bool
    recommends
        0 <= k < 8,
{
    (byte >> ((7 - k) as u8)) & 1 == 1
}

/// The framebuffer after drawing the first `kbits` bits of one sprite row
/// byte at row `ty`, starting at column `xp`. Bits that fall off the right
/// edge or on an off-screen row are not drawn.
pub open spec fn draw_row_bits(grid: Seq<Seq<bool>>, byte: u8, xp: int, ty: int, kbits: int) -> Seq<
    Seq<bool>,
>
    decreases kbits,
{
    if kbits <= 0 {
        grid
    } else {
        let g = draw_row_bits(grid, byte, xp, ty, kbits - 1);
        let tx = xp + kbits - 1;
        if 0 <= ty < 32 && 0 <= tx < 64 {
            g.update(tx, g[tx].update(ty, g[tx][ty] != sprite_bit(byte, kbits - 1)))
        } else {
            g
        }
    }
}

/// The framebuffer after drawing the first `rows` rows of the `n`-byte
/// sprite stored at memory address `i`, at screen position `(xp, yp)`.
pub open spec fn draw_rows(
    grid: Seq<Seq<bool>>,
    mem: Seq<u8>,
    i: int,
    xp: int,
    yp: int,
    rows: int,
) -> Seq<Seq<bool>>
    decreases rows,
{
    if rows <= 0 {
        grid
    } else {
        let g = draw_rows(grid, mem, i, xp, yp, rows - 1);
        draw_row_bits(g, mem[(i + rows - 1) % 4096], xp, yp + rows - 1, 8)
    }
}

/// Sprite cell `(r, k)` lands on screen and its sprite bit is on.
pub open spec fn lit_cell(mem: Seq<u8>, i: int, xp: int, yp: int, r: int, k: int) -> bool {
    &&& 0 <= yp + r < 32
    &&& 0 <= xp + k < 64
    &&& sprite_bit(mem[(i + r) % 4096], k)
}

/// Sprite cell `(r, k)` lands on an on pixel of `grid` with its sprite
/// bit on: drawing it turns the pixel off.
pub open spec fn hit_cell(
    grid: Seq<Seq<bool>>,
    mem: Seq<u8>,
    i: int,
    xp: int,
    yp: int,
    r: int,
    k: int,
) -> bool {
    &&& lit_cell(mem, i, xp, yp, r, k)
    &&& grid[xp + k][yp + r]
}

/// Some sprite cell strictly before row `r`, bit `k` (in drawing order)
/// collides with an on pixel of `grid`.
pub open spec fn collision_before(
    grid: Seq<Seq<bool>>,
    mem: Seq<u8>,
    i: int,
    xp: int,
    yp: int,
    r: int,
    k: int,
) -> bool {
    exists|a: int, b: int|
        0 <= a && 0 <= b < 8 && (a < r || (a == r && b < k)) && hit_cell(grid, mem, i, xp, yp, a, b)
}

/// Some sprite cell strictly before row `r`, bit `k` lands on screen with
/// its sprite bit on: drawing it toggles a pixel.
pub open spec fn lit_before(mem: Seq<u8>, i: int, xp: int, yp: int, r: int, k: int) -> bool {
    exists|a: int, b: int|
        0 <= a && 0 <= b < 8 && (a < r || (a == r && b < k)) && lit_cell(mem, i, xp, yp, a, b)
}

/// The draw turns some on pixel off (the collision flag).
pub open spec fn draw_collision(
    grid: Seq<Seq<bool>>,
    mem: Seq<u8>,
    i: int,
    xp: int,
    yp: int,
    n: int,
) -> bool {
    collision_before(grid, mem, i, xp, yp, n, 0)
}

/// The draw toggles some pixel (the dirty flag is raised).
pub open spec fn draw_touches(mem: Seq<u8>, i: int, xp: int, yp: int, n: int) -> bool {
    lit_before(mem, i, xp, yp, n, 0)
}

/// Executing one decoded instruction against state `s`. `rb` is the byte
/// the random source produced, read only by `Cxkk`.
///
/// Errors leave the state unchanged so the driver can inspect it.
pub open spec fn step(s: Chip8State, instr: Instruction, rb: u8) -> Result<Chip8State, Chip8Error>
    recommends
        s.wf(),
        crate::decoder::fields_bounded(instr),
{
    match instr {
        Instruction::ClearScreen => Ok(
            Chip8State { grid: blank_grid(), changed: true, pc: pc_after(s.pc, 2), ..s },
        ),
        Instruction::Return => if s.sp == 0 {
            Err(Chip8Error::StackUnderflow)
        } else {
            Ok(
                Chip8State {
                    sp: (s.sp - 1) as u16,
                    pc: pc_after(s.stack[s.sp - 1], 2),
                    ..s
                },
            )
        },
        Instruction::Jump { nnn } => Ok(Chip8State { pc: nnn, ..s }),
        Instruction::Call { nnn } => if s.sp >= 16 {
            Err(Chip8Error::StackOverflow)
        } else {
            Ok(
                Chip8State {
                    stack: s.stack.update(s.sp as int, s.pc),
                    sp: (s.sp + 1) as u16,
                    pc: nnn,
                    ..s
                },
            )
        },
        Instruction::SkipEqImm { x, kk } => Ok(
            Chip8State {
                pc: pc_after(
                    s.pc,
                    if s.v[x as int] == kk {
                        4
                    } else {
                        2
                    },
                ),
                ..s
            },
        ),
        Instruction::SkipNeImm { x, kk } => Ok(
            Chip8State {
                pc: pc_after(
                    s.pc,
                    if s.v[x as int] != kk {
                        4
                    } else {
                        2
                    },
                ),
                ..s
            },
        ),
        Instruction::SkipEqReg { x, y } => Ok(
            Chip8State {
                pc: pc_after(
                    s.pc,
                    if s.v[x as int] == s.v[y as int] {
                        4
                    } else {
                        2
                    },
                ),
                ..s
            },
        ),
        Instruction::SetImm { x, kk } => Ok(
            Chip8State { v: s.v.update(x as int, kk), pc: pc_after(s.pc, 2), ..s },
        ),
        Instruction::AddImm { x, kk } => Ok(
            Chip8State {
                v: s.v.update(x as int, ((s.v[x as int] + kk) % 256) as u8),
                pc: pc_after(s.pc, 2),
                ..s
            },
        ),
        Instruction::Assign { .. } => Ok(
            Chip8State { v: alu_result(s.v, instr), pc: pc_after(s.pc, 2), ..s },
        ),
        Instruction::Or { .. } => Ok(
            Chip8State { v: alu_result(s.v, instr), pc: pc_after(s.pc, 2), ..s },
        ),
        Instruction::And { .. } => Ok(
            Chip8State { v: alu_result(s.v, instr), pc: pc_after(s.pc, 2), ..s },
        ),
        Instruction::Xor { .. } => Ok(
            Chip8State { v: alu_result(s.v, instr), pc: pc_after(s.pc, 2), ..s },
        ),
        Instruction::AddReg { .. } => Ok(
            Chip8State { v: alu_result(s.v, instr), pc: pc_after(s.pc, 2), ..s },
        ),
        Instruction::SubReg { .. } => Ok(
            Chip8State { v: alu_result(s.v, instr), pc: pc_after(s.pc, 2), ..s },
        ),
        Instruction::ShiftRight { .. } => Ok(
            Chip8State { v: alu_result(s.v, instr), pc: pc_after(s.pc, 2), ..s },
        ),
        Instruction::SubFrom { .. } => Ok(
            Chip8State { v: alu_result(s.v, instr), pc: pc_after(s.pc, 2), ..s },
        ),
        Instruction::ShiftLeft { .. } => Ok(
            Chip8State { v: alu_result(s.v, instr), pc: pc_after(s.pc, 2), ..s },
        ),
        Instruction::SkipNeReg { x, y } => Ok(
            Chip8State {
                pc: pc_after(
                    s.pc,
                    if s.v[x as int] != s.v[y as int] {
                        4
                    } else {
                        2
                    },
                ),
                ..s
            },
        ),
        Instruction::SetIndex { nnn } => Ok(
            Chip8State { i: nnn, pc: pc_after(s.pc, 2), ..s },
        ),
        Instruction::JumpV0 { nnn } => Ok(
            Chip8State { pc: ((s.v[0] + nnn) % 4096) as u16, ..s },
        ),
        Instruction::Random { x, kk } => Ok(
            Chip8State { v: s.v.update(x as int, rb & kk), pc: pc_after(s.pc, 2), ..s },
        ),
        Instruction::Draw { x, y, n } => {
            let xp = (s.v[x as int] % 64) as int;
            let yp = (s.v[y as int] % 32) as int;
            let i = s.i as int;
            Ok(
                Chip8State {
                    grid: draw_rows(s.grid, s.mem, i, xp, yp, n as int),
                    v: s.v.update(
                        15,
                        if draw_collision(s.grid, s.mem, i, xp, yp, n as int) {
                            1u8
                        } else {
                            0u8
                        },
                    ),
                    changed: s.changed || draw_touches(s.mem, i, xp, yp, n as int),
                    pc: pc_after(s.pc, 2),
                    ..s
                },
            )
        },
        Instruction::SkipKeyPressed { .. } => Ok(
            Chip8State {
                pc: pc_after(
                    s.pc,
                    if key_skip(s.keys, s.v, instr) {
                        4
                    } else {
                        2
                    },
                ),
                ..s
            },
        ),
        Instruction::SkipKeyNotPressed { .. } => Ok(
            Chip8State {
                pc: pc_after(
                    s.pc,
                    if key_skip(s.keys, s.v, instr) {
                        4
                    } else {
                        2
                    },
                ),
                ..s
            },
        ),
        Instruction::ReadDelay { .. } => Ok(
            Chip8State { pc: pc_after(s.pc, 2), ..misc_effect(s, instr) },
        ),
        Instruction::WaitKey { .. } => Ok(
            Chip8State { pc: pc_after(s.pc, 2), ..misc_effect(s, instr) },
        ),
        Instruction::SetDelay { .. } => Ok(
            Chip8State { pc: pc_after(s.pc, 2), ..misc_effect(s, instr) },
        ),
        Instruction::SetSound { .. } => Ok(
            Chip8State { pc: pc_after(s.pc, 2), ..misc_effect(s, instr) },
        ),
        Instruction::AddIndex { .. } => Ok(
            Chip8State { pc: pc_after(s.pc, 2), ..misc_effect(s, instr) },
        ),
        Instruction::FontChar { .. } => Ok(
            Chip8State { pc: pc_after(s.pc, 2), ..misc_effect(s, instr) },
        ),
        Instruction::StoreBcd { .. } => Ok(
            Chip8State { pc: pc_after(s.pc, 2), ..misc_effect(s, instr) },
        ),
        Instruction::StoreRegs { .. } => Ok(
            Chip8State { pc: pc_after(s.pc, 2), ..misc_effect(s, instr) },
        ),
        Instruction::LoadRegs { .. } => Ok(
            Chip8State { pc: pc_after(s.pc, 2), ..misc_effect(s, instr) },
        ),
        Instruction::Invalid { opcode } => Err(Chip8Error::InvalidOpcode(opcode)),
    }
}

/// Drawing a partial sprite row preserves the grid's shape and touches
/// only the processed span of row `ty`.
pub proof fn lemma_draw_row_bits_frame(grid: Seq<Seq<bool>>, byte: u8, xp: int, ty: int, k: int)
    requires
        grid_wf(grid),
    ensures
        grid_wf(draw_row_bits(grid, byte, xp, ty, k)),
        forall|cx: int, cy: int|
            0 <= cx < 64 && 0 <= cy < 32 && !(cy == ty && xp <= cx < xp + k)
                ==> #[trigger] draw_row_bits(grid, byte, xp, ty, k)[cx][cy] == grid[cx][cy],
    decreases k,
{
    if k > 0 {
        lemma_draw_row_bits_frame(grid, byte, xp, ty, k - 1);
    }
}

/// Drawing the first `rows` sprite rows preserves the grid's shape and
/// touches only the covered rectangle.
pub proof fn lemma_draw_rows_frame(
    grid: Seq<Seq<bool>>,
    mem: Seq<u8>,
    i: int,
    xp: int,
    yp: int,
    rows: int,
)
    requires
        grid_wf(grid),
    ensures
        grid_wf(draw_rows(grid, mem, i, xp, yp, rows)),
        forall|cx: int, cy: int|
            0 <= cx < 64 && 0 <= cy < 32 && !(yp <= cy < yp + rows && xp <= cx < xp + 8)
                ==> #[trigger] draw_rows(grid, mem, i, xp, yp, rows)[cx][cy] == grid[cx][cy],
    decreases rows,
{
    if rows > 0 {
        lemma_draw_rows_frame(grid, mem, i, xp, yp, rows - 1);
        lemma_draw_row_bits_frame(
            draw_rows(grid, mem, i, xp, yp, rows - 1),
            mem[(i + rows - 1) % 4096],
            xp,
            yp + rows - 1,
            8,
        );
    }
}

/// A sprite row at an off-screen `ty` draws nothing.
pub proof fn lemma_draw_row_bits_oob(grid: Seq<Seq<bool>>, byte: u8, xp: int, ty: int, k: int)
    requires
        !(0 <= ty < 32),
    ensures
        draw_row_bits(grid, byte, xp, ty, k) == grid,
    decreases k,
{
    if k > 0 {
        lemma_draw_row_bits_oob(grid, byte, xp, ty, k - 1);
    }
}

/// Moving the drawing cursor one bit forward adds exactly the cell
/// `(r, k)` to the collision and toggle predicates.
pub proof fn lemma_progress_cell(
    grid: Seq<Seq<bool>>,
    mem: Seq<u8>,
    i: int,
    xp: int,
    yp: int,
    r: int,
    k: int,
)
    requires
        0 <= r,
        0 <= k < 8,
    ensures
        collision_before(grid, mem, i, xp, yp, r, k + 1) == (collision_before(
            grid,
            mem,
            i,
            xp,
            yp,
            r,
            k,
        ) || hit_cell(grid, mem, i, xp, yp, r, k)),
        lit_before(mem, i, xp, yp, r, k + 1) == (lit_before(mem, i, xp, yp, r, k) || lit_cell(
            mem,
            i,
            xp,
            yp,
            r,
            k,
        )),
{
    if collision_before(grid, mem, i, xp, yp, r, k + 1) {
        let (a, b) = choose|a: int, b: int|
            0 <= a && 0 <= b < 8 && (a < r || (a == r && b < k + 1)) && hit_cell(
                grid,
                mem,
                i,
                xp,
                yp,
                a,
                b,
            );
        if a < r || (a == r && b < k) {
            assert(collision_before(grid, mem, i, xp, yp, r, k));
        } else {
            assert(a == r && b == k);
        }
    }
    if lit_before(mem, i, xp, yp, r, k + 1) {
        let (a, b) = choose|a: int, b: int|
            0 <= a && 0 <= b < 8 && (a < r || (a == r && b < k + 1)) && lit_cell(
                mem,
                i,
                xp,
                yp,
                a,
                b,
            );
        if a < r || (a == r && b < k) {
            assert(lit_before(mem, i, xp, yp, r, k));
        } else {
            assert(a == r && b == k);
        }
    }
    if collision_before(grid, mem, i, xp, yp, r, k) {
        let (a, b) = choose|a: int, b: int|
            0 <= a && 0 <= b < 8 && (a < r || (a == r && b < k)) && hit_cell(
                grid,
                mem,
                i,
                xp,
                yp,
                a,
                b,
            );
        assert(collision_before(grid, mem, i, xp, yp, r, k + 1));
    }
    if lit_before(mem, i, xp, yp, r, k) {
        let (a, b) = choose|a: int, b: int|
            0 <= a && 0 <= b < 8 && (a < r || (a == r && b < k)) && lit_cell(mem, i, xp, yp, a, b);
        assert(lit_before(mem, i, xp, yp, r, k + 1));
    }
    if hit_cell(grid, mem, i, xp, yp, r, k) {
        assert(collision_before(grid, mem, i, xp, yp, r, k + 1));
    }
    if lit_cell(mem, i, xp, yp, r, k) {
        assert(lit_before(mem, i, xp, yp, r, k + 1));
    }
}

/// Finishing a row is the same as standing at the start of the next one.
pub proof fn lemma_progress_row(
    grid: Seq<Seq<bool>>,
    mem: Seq<u8>,
    i: int,
    xp: int,
    yp: int,
    r: int,
)
    requires
        0 <= r,
    ensures
        collision_before(grid, mem, i, xp, yp, r, 8) == collision_before(
            grid,
            mem,
            i,
            xp,
            yp,
            r + 1,
            0,
        ),
        lit_before(mem, i, xp, yp, r, 8) == lit_before(mem, i, xp, yp, r + 1, 0),
{
    if collision_before(grid, mem, i, xp, yp, r, 8) {
        let (a, b) = choose|a: int, b: int|
            0 <= a && 0 <= b < 8 && (a < r || (a == r && b < 8)) && hit_cell(
                grid,
                mem,
                i,
                xp,
                yp,
                a,
                b,
            );
        assert(a < r + 1);
        assert(collision_before(grid, mem, i, xp, yp, r + 1, 0));
    }
    if collision_before(grid, mem, i, xp, yp, r + 1, 0) {
        let (a, b) = choose|a: int, b: int|
            0 <= a && 0 <= b < 8 && (a < r + 1 || (a == r + 1 && b < 0)) && hit_cell(
                grid,
                mem,
                i,
                xp,
                yp,
                a,
                b,
            );
        assert(a < r || (a == r && b < 8));
        assert(collision_before(grid, mem, i, xp, yp, r, 8));
    }
    if lit_before(mem, i, xp, yp, r, 8) {
        let (a, b) = choose|a: int, b: int|
            0 <= a && 0 <= b < 8 && (a < r || (a == r && b < 8)) && lit_cell(mem, i, xp, yp, a, b);
        assert(a < r + 1);
        assert(lit_before(mem, i, xp, yp, r + 1, 0));
    }
    if lit_before(mem, i, xp, yp, r + 1, 0) {
        let (a, b) = choose|a: int, b: int|
            0 <= a && 0 <= b < 8 && (a < r + 1 || (a == r + 1 && b < 0)) && lit_cell(
                mem,
                i,
                xp,
                yp,
                a,
                b,
            );
        assert(a < r || (a == r && b < 8));
        assert(lit_before(mem, i, xp, yp, r, 8));
    }
}

/// A row that falls below the bottom edge contributes no collision and
/// toggles no pixel.
pub proof fn lemma_skip_row(
    grid: Seq<Seq<bool>>,
    mem: Seq<u8>,
    i: int,
    xp: int,
    yp: int,
    r: int,
)
    requires
        0 <= r,
        !(0 <= yp + r < 32),
    ensures
        collision_before(grid, mem, i, xp, yp, r, 8) == collision_before(
            grid,
            mem,
            i,
            xp,
            yp,
            r,
            0,
        ),
        lit_before(mem, i, xp, yp, r, 8) == lit_before(mem, i, xp, yp, r, 0),
{
    if collision_before(grid, mem, i, xp, yp, r, 8) {
        let (a, b) = choose|a: int, b: int|
            0 <= a && 0 <= b < 8 && (a < r || (a == r && b < 8)) && hit_cell(
                grid,
                mem,
                i,
                xp,
                yp,
                a,
                b,
            );
        assert(a < r);
        assert(collision_before(grid, mem, i, xp, yp, r, 0));
    }
    if collision_before(grid, mem, i, xp, yp, r, 0) {
        let (a, b) = choose|a: int, b: int|
            0 <= a && 0 <= b < 8 && (a < r || (a == r && b < 0)) && hit_cell(
                grid,
                mem,
                i,
                xp,
                yp,
                a,
                b,
            );
        assert(collision_before(grid, mem, i, xp, yp, r, 8));
    }
    if lit_before(mem, i, xp, yp, r, 8) {
        let (a, b) = choose|a: int, b: int|
            0 <= a && 0 <= b < 8 && (a < r || (a == r && b < 8)) && lit_cell(mem, i, xp, yp, a, b);
        assert(a < r);
        assert(lit_before(mem, i, xp, yp, r, 0));
    }
    if lit_before(mem, i, xp, yp, r, 0) {
        let (a, b) = choose|a: int, b: int|
            0 <= a && 0 <= b < 8 && (a < r || (a == r && b < 0)) && lit_cell(mem, i, xp, yp, a, b);
        assert(lit_before(mem, i, xp, yp, r, 8));
    }
}

/// One instruction tick of an unblocked machine: fetch at `PC`, decode,
/// execute.
pub open spec fn machine_step(s: Chip8State, rb: u8) -> Result<Chip8State, Chip8Error>
    recommends
        s.wf(),
{
    step(s, spec_decode(fetch16(s.mem, s.pc as int)), rb)
}

/// Resolution of the key-wait block at the start of an instruction tick:
/// if the machine is blocked and a key press arrived this frame, the key
/// is stored in the target register and the block clears.
pub open spec fn unlock_effect(s: Chip8State) -> Chip8State {
    if s.locked && s.any_pressed {
        Chip8State { locked: false, v: s.v.update(s.write_to as int, s.last_key), ..s }
    } else {
        s
    }
}

/// One full instruction tick as driven by the host loop: resolve the
/// key-wait block, then either stay blocked (a no-op) or fetch, decode
/// and execute one instruction.
pub open spec fn frame_step(s: Chip8State, rb: u8) -> Result<Chip8State, Chip8Error>
    recommends
        s.wf(),
{
    let s1 = unlock_effect(s);
    if s1.locked {
        Ok(s1)
    } else {
        machine_step(s1, rb)
    }
}

/// Law: for every `kk`, executing `6xkk` loads exactly `kk` into `Vx`,
/// and the program counter advances by two (wrapping only at the very
/// end of the address space).
pub proof fn lemma_set_imm_loads_register(s: Chip8State, x: u8, kk: u8, rb: u8)
    requires
        s.wf(),
        x < 16,
    ensures
        ({
            let op = (0x6000 | ((x as u16) << 8) | (kk as u16)) as u16;
            let r = step(s, spec_decode(op), rb);
            &&& spec_decode(op) == (Instruction::SetImm { x, kk })
            &&& r matches Ok(s2) && s2.v[x as int] == kk && s2.pc == pc_after(s.pc, 2) && (s.pc + 2
                < 4096 ==> s2.pc == s.pc + 2)
        }),
{
    let op = (0x6000 | ((x as u16) << 8) | (kk as u16)) as u16;
    assert(op >> 12 == 0x6 && ((op >> 8) & 0xF) == x as u16 && ((op >> 4) & 0xF) < 16 && (op & 0xFF)
        == kk as u16 && op != 0x00E0 && op != 0x00EE) by (bit_vector)
        requires
            op == (0x6000 | ((x as u16) << 8) | (kk as u16)) as u16 && x < 16,
    ;
}

/// Law: executing `3xkk` advances the program counter by four when
/// `Vx == kk` and by two when `Vx != kk` (wrapping only at the very end
/// of the address space); nothing else changes.
pub proof fn lemma_skip_eq_imm_pc(s: Chip8State, x: u8, kk: u8, rb: u8)
    requires
        s.wf(),
        x < 16,
    ensures
        ({
            let op = (0x3000 | ((x as u16) << 8) | (kk as u16)) as u16;
            let r = step(s, spec_decode(op), rb);
            &&& spec_decode(op) == (Instruction::SkipEqImm { x, kk })
            &&& r matches Ok(s2) && (s.v[x as int] == kk ==> s2.pc == pc_after(s.pc, 4)) && (s.v[x as int]
                != kk ==> s2.pc == pc_after(s.pc, 2)) && (s.v[x as int] == kk && s.pc + 4 < 4096
                ==> s2.pc == s.pc + 4) && (s.v[x as int] != kk && s.pc + 2 < 4096 ==> s2.pc == s.pc
                + 2) && s2 == (Chip8State { pc: s2.pc, ..s })
        }),
{
    let op = (0x3000 | ((x as u16) << 8) | (kk as u16)) as u16;
    assert(op >> 12 == 0x3 && ((op >> 8) & 0xF) == x as u16 && ((op >> 4) & 0xF) < 16 && (op & 0xFF)
        == kk as u16 && op != 0x00E0 && op != 0x00EE) by (bit_vector)
        requires
            op == (0x3000 | ((x as u16) << 8) | (kk as u16)) as u16 && x < 16,
    ;
}

/// The abstract state that the four concrete components stand for.
pub open spec fn view_of(cpu: CPU, mem: MemoryMap, kb: Keyboard, st: BusState) -> Chip8State {
    Chip8State {
        pc: cpu.pc,
        sp: cpu.sp,
        v: cpu.v@,
        i: cpu.i,
        stack: cpu.stack@,
        mem: mem.memory@,
        grid: grid_of(mem.vram),
        changed: mem.vram_changed,
        keys: kb.keys@,
        any_pressed: kb.key_pressed,
        last_key: kb.last_key_pressed,
        delay: st.delay,
        sound: st.sound,
        locked: st.lock_until_pressed,
        write_to: st.write_to,
    }
}

} // verus!
