//! Mathematical model of the CHIP-8 machine: the machine state as ghost
//! data, the decoded instruction set, and a transition function that gives
//! every instruction its exact meaning. The executable interpreter in
//! `emulator` is proved to implement `step_spec`.

use vstd::prelude::*;
use vstd::arithmetic::div_mod::lemma_div_is_ordered;
use vstd::arithmetic::div_mod::lemma_div_pos_is_pos;
use vstd::arithmetic::div_mod::lemma_fundamental_div_mod;
use vstd::arithmetic::div_mod::lemma_fundamental_div_mod_converse_div;
use vstd::arithmetic::div_mod::lemma_fundamental_div_mod_converse_mod;
use vstd::arithmetic::div_mod::lemma_mod_division_less_than_divisor;
use vstd::arithmetic::div_mod::lemma_mod_multiples_vanish;
use vstd::arithmetic::div_mod::lemma_small_mod;

use crate::screen::ScreenView;

verus! {

/// Bytes of addressable memory.
pub const MEM_SIZE: usize = 4096;

/// Highest valid memory address.
pub const MEM_LAST: usize = 4095;

/// Number of general-purpose registers.
pub const NUM_REGS: usize = 16;

/// Capacity of the return-address stack.
pub const STACK_SIZE: usize = 16;

/// Number of keypad keys.
pub const NUM_KEYS: usize = 16;

/// Framebuffer width in pixels.
pub const SCREEN_W: u8 = 64;

/// Framebuffer height in pixels.
pub const SCREEN_H: u8 = 32;

/// Address at which loaded programs begin.
pub const ROM_BASE: usize = 512;

/// Largest program that fits between `ROM_BASE` and the end of memory.
pub const MAX_ROM: usize = 3584;

/// The fatal (and one load-time) failure conditions of the machine.
#[derive(Clone, Copy, PartialEq, Eq, Structural, Debug)]
pub enum Fault {
    /// The fetched opcode matches no instruction pattern.
    UnknownOpcode,
    /// A call was made with all stack slots in use.
    StackOverflow,
    /// A return was made with no active frame.
    StackUnderflow,
    /// The program counter, the index register, or a key number taken from
    /// a register would address outside its valid range.
    OutOfBoundsAccess,
    /// A program image too large to fit above `ROM_BASE`.
    RomTooLarge,
}

/// One decoded instruction. Field `x` and `y` name general registers
/// (always below 16 after decoding), `kk` an 8-bit immediate, `nnn` a
/// 12-bit address, `n` a 4-bit immediate.
#[derive(Clone, Copy, PartialEq, Eq, Structural, Debug)]
pub enum Instr {
    /// 00E0: clear the screen.
    Cls,
    /// 00EE: pop the stack into the program counter.
    Ret,
    /// 1nnn: jump to `nnn`.
    Jump { nnn: u16 },
    /// 2nnn: push the return address, jump to `nnn`.
    Call { nnn: u16 },
    /// 3xkk: skip the next instruction if `V[x] == kk`.
    SkipEqImm { x: u8, kk: u8 },
    /// 4xkk: skip the next instruction if `V[x] != kk`.
    SkipNeImm { x: u8, kk: u8 },
    /// 5xyn: skip the next instruction if `V[x] == V[y]`.
    SkipEqReg { x: u8, y: u8 },
    /// 6xkk: `V[x] = kk`.
    LoadImm { x: u8, kk: u8 },
    /// 7xkk: `V[x] += kk`, wrapping, no flag.
    AddImm { x: u8, kk: u8 },
    /// 8xy0: `V[x] = V[y]`.
    Move { x: u8, y: u8 },
    /// 8xy1: `V[x] |= V[y]`.
    OrReg { x: u8, y: u8 },
    /// 8xy2: `V[x] &= V[y]`.
    AndReg { x: u8, y: u8 },
    /// 8xy3: `V[x] ^= V[y]`.
    XorReg { x: u8, y: u8 },
    /// 8xy4: `V[x] += V[y]` wrapping, `VF = 1` iff the sum exceeds 255.
    AddReg { x: u8, y: u8 },
    /// 8xy5: `V[x] -= V[y]` wrapping, `VF = 1` iff `V[x] > V[y]`.
    SubReg { x: u8, y: u8 },
    /// 8xy6: `VF = V[y] & 1`, `V[x] = V[y] >> 1`. This machine's shift
    /// variant reads the second operand register.
    ShrReg { x: u8, y: u8 },
    /// 8xy7: `V[x] = V[y] - V[x]` wrapping, `VF = 1` iff `V[y] > V[x]`.
    SubRev { x: u8, y: u8 },
    /// 8xyE: `VF = V[y] & 1`, then `V[y] <<= 1` wrapping and `V[x] = V[y]`.
    /// This machine's shift variant reads and mutates the second operand
    /// register, and reports its low bit, not its high bit, in `VF`.
    ShlReg { x: u8, y: u8 },
    /// 9xyn: skip the next instruction if `V[x] != V[y]`.
    SkipNeReg { x: u8, y: u8 },
    /// Annn: `I = nnn`.
    LoadIndex { nnn: u16 },
    /// Bnnn: jump to `V[0] + nnn`.
    JumpV0 { nnn: u16 },
    /// Cxkk: `V[x] = random byte & kk`.
    Rnd { x: u8, kk: u8 },
    /// Dxyn: XOR-blit an 8-wide, `n`-tall sprite from memory at `I` to
    /// `(V[x], V[y])`, wrapping; `VF = 1` iff a set pixel was unset.
    Draw { x: u8, y: u8, n: u8 },
    /// Ex9E: skip the next instruction if key `V[x]` is pressed.
    SkipKey { x: u8 },
    /// ExA1: skip the next instruction if key `V[x]` is not pressed.
    SkipNoKey { x: u8 },
    /// Fx07: `V[x] = delay timer`.
    ReadDelay { x: u8 },
    /// Fx15: `delay timer = V[x]`.
    SetDelay { x: u8 },
    /// Fx18: `sound timer = V[x]`.
    SetSound { x: u8 },
    /// Fx1E: `I += V[x]`.
    AddIndex { x: u8 },
    /// Fx29: `I = V[x] * 5`, the address of the glyph for digit `V[x]`.
    FontAddr { x: u8 },
    /// Fx33: store the decimal digits of `V[x]` at `I`, `I+1`, `I+2`.
    StoreBcd { x: u8 },
    /// Fx55: store `V[0]..=V[x]` at `I..`, then `I += x + 1`.
    StoreRegs { x: u8 },
    /// Fx65: load `V[0]..=V[x]` from `I..`, then `I += x + 1`.
    LoadRegs { x: u8 },
}

/// Mathematical model of the whole machine state.
#[verifier::ext_equal]
pub ghost struct MachineView {
    pub mem: Seq<u8>,
    pub regs: Seq<u8>,
    pub index: int,
    pub pc: int,
    pub delay: u8,
    pub sound: u8,
    pub stack: Seq<u16>,
    pub sp: int,
    pub keys: Seq<u8>,
    pub screen: ScreenView,
    /// Whether the display collaborator has been asked to repaint since it
    /// last did so.
    pub repaint: bool,
}

impl MachineView {
    /// Structural well-formedness: fixed sizes, stack pointer and the two
    /// 16-bit registers in range, 64 x 32 screen.
    pub open spec fn wf(self) -> bool {
        &&& self.mem.len() == MEM_SIZE
        &&& self.regs.len() == NUM_REGS
        &&& self.stack.len() == STACK_SIZE
        &&& self.keys.len() == NUM_KEYS
        &&& 0 <= self.sp <= STACK_SIZE
        &&& 0 <= self.pc <= 0xFFFF
        &&& 0 <= self.index <= 0xFFFF
        &&& self.screen.wf()
        &&& self.screen.width == SCREEN_W
        &&& self.screen.height == SCREEN_H
    }
}

/// The outcome of one instruction cycle: the next state, or a fatal fault
/// that leaves the state untouched.
pub ghost enum Outcome {
    Next(MachineView),
    Halt(Fault),
}

/// Top nibble of an opcode.
pub open spec fn op_family(op: u16) -> int {
    op as int / 0x1000
}

/// The `x` register field, bits 8..=11.
pub open spec fn op_x(op: u16) -> int {
    (op as int / 0x100) % 16
}

/// The `y` register field, bits 4..=7.
pub open spec fn op_y(op: u16) -> int {
    (op as int / 16) % 16
}

/// The low nibble `n`.
pub open spec fn op_n(op: u16) -> int {
    op as int % 16
}

/// The low byte `kk`.
pub open spec fn op_kk(op: u16) -> int {
    op as int % 256
}

/// The low 12 bits `nnn`.
pub open spec fn op_nnn(op: u16) -> int {
    op as int % 0x1000
}

/// Decode a 16-bit opcode into an instruction, or nothing if it matches no
/// pattern. Dispatch is on the top nibble, then on `n` or `kk`.
pub open spec fn decode_spec(op: u16) -> Option<Instr> {
    let x = op_x(op) as u8;
    let y = op_y(op) as u8;
    let kk = op_kk(op) as u8;
    let nnn = op_nnn(op) as u16;
    if op_family(op) == 0x0 {
        if op_kk(op) == 0xE0 {
            Some(Instr::Cls)
        } else if op_kk(op) == 0xEE {
            Some(Instr::Ret)
        } else {
            None
        }
    } else if op_family(op) == 0x1 {
        Some(Instr::Jump { nnn })
    } else if op_family(op) == 0x2 {
        Some(Instr::Call { nnn })
    } else if op_family(op) == 0x3 {
        Some(Instr::SkipEqImm { x, kk })
    } else if op_family(op) == 0x4 {
        Some(Instr::SkipNeImm { x, kk })
    } else if op_family(op) == 0x5 {
        Some(Instr::SkipEqReg { x, y })
    } else if op_family(op) == 0x6 {
        Some(Instr::LoadImm { x, kk })
    } else if op_family(op) == 0x7 {
        Some(Instr::AddImm { x, kk })
    } else if op_family(op) == 0x8 {
        if op_n(op) == 0x0 {
            Some(Instr::Move { x, y })
        } else if op_n(op) == 0x1 {
            Some(Instr::OrReg { x, y })
        } else if op_n(op) == 0x2 {
            Some(Instr::AndReg { x, y })
        } else if op_n(op) == 0x3 {
            Some(Instr::XorReg { x, y })
        } else if op_n(op) == 0x4 {
            Some(Instr::AddReg { x, y })
        } else if op_n(op) == 0x5 {
            Some(Instr::SubReg { x, y })
        } else if op_n(op) == 0x6 {
            Some(Instr::ShrReg { x, y })
        } else if op_n(op) == 0x7 {
            Some(Instr::SubRev { x, y })
        } else if op_n(op) == 0xE {
            Some(Instr::ShlReg { x, y })
        } else {
            None
        }
    } else if op_family(op) == 0x9 {
        Some(Instr::SkipNeReg { x, y })
    } else if op_family(op) == 0xA {
        Some(Instr::LoadIndex { nnn })
    } else if op_family(op) == 0xB {
        Some(Instr::JumpV0 { nnn })
    } else if op_family(op) == 0xC {
        Some(Instr::Rnd { x, kk })
    } else if op_family(op) == 0xD {
        Some(Instr::Draw { x, y, n: op_n(op) as u8 })
    } else if op_family(op) == 0xE {
        if op_kk(op) == 0x9E {
            Some(Instr::SkipKey { x })
        } else if op_kk(op) == 0xA1 {
            Some(Instr::SkipNoKey { x })
        } else {
            None
        }
    } else {
        if op_kk(op) == 0x07 {
            Some(Instr::ReadDelay { x })
        } else if op_kk(op) == 0x15 {
            Some(Instr::SetDelay { x })
        } else if op_kk(op) == 0x18 {
            Some(Instr::SetSound { x })
        } else if op_kk(op) == 0x1E {
            Some(Instr::AddIndex { x })
        } else if op_kk(op) == 0x29 {
            Some(Instr::FontAddr { x })
        } else if op_kk(op) == 0x33 {
            Some(Instr::StoreBcd { x })
        } else if op_kk(op) == 0x55 {
            Some(Instr::StoreRegs { x })
        } else if op_kk(op) == 0x65 {
            Some(Instr::LoadRegs { x })
        } else {
            None
        }
    }
}

/// Field bounds every decoded instruction satisfies: register numbers
/// below 16, `n` a nibble, `nnn` twelve bits.
pub open spec fn instr_wf(instr: Instr) -> bool {
    match instr {
        Instr::Cls => true,
        Instr::Ret => true,
        Instr::Jump { nnn } => nnn < 0x1000,
        Instr::Call { nnn } => nnn < 0x1000,
        Instr::SkipEqImm { x, kk } => x < 16,
        Instr::SkipNeImm { x, kk } => x < 16,
        Instr::SkipEqReg { x, y } => x < 16 && y < 16,
        Instr::LoadImm { x, kk } => x < 16,
        Instr::AddImm { x, kk } => x < 16,
        Instr::Move { x, y } => x < 16 && y < 16,
        Instr::OrReg { x, y } => x < 16 && y < 16,
        Instr::AndReg { x, y } => x < 16 && y < 16,
        Instr::XorReg { x, y } => x < 16 && y < 16,
        Instr::AddReg { x, y } => x < 16 && y < 16,
        Instr::SubReg { x, y } => x < 16 && y < 16,
        Instr::ShrReg { x, y } => x < 16 && y < 16,
        Instr::SubRev { x, y } => x < 16 && y < 16,
        Instr::ShlReg { x, y } => x < 16 && y < 16,
        Instr::SkipNeReg { x, y } => x < 16 && y < 16,
        Instr::LoadIndex { nnn } => nnn < 0x1000,
        Instr::JumpV0 { nnn } => nnn < 0x1000,
        Instr::Rnd { x, kk } => x < 16,
        Instr::Draw { x, y, n } => x < 16 && y < 16 && n < 16,
        Instr::SkipKey { x } => x < 16,
        Instr::SkipNoKey { x } => x < 16,
        Instr::ReadDelay { x } => x < 16,
        Instr::SetDelay { x } => x < 16,
        Instr::SetSound { x } => x < 16,
        Instr::AddIndex { x } => x < 16,
        Instr::FontAddr { x } => x < 16,
        Instr::StoreBcd { x } => x < 16,
        Instr::StoreRegs { x } => x < 16,
        Instr::LoadRegs { x } => x < 16,
    }
}

/// Decoding only ever produces instructions with in-range fields.
pub proof fn lemma_decode_wf(op: u16)
    ensures
        (decode_spec(op) matches Some(instr) ==> instr_wf(instr)),
{
    lemma_mod_division_less_than_divisor(op as int / 0x100, 16);
    lemma_mod_division_less_than_divisor(op as int / 16, 16);
    lemma_mod_division_less_than_divisor(op as int, 16);
    lemma_mod_division_less_than_divisor(op as int, 256);
    lemma_mod_division_less_than_divisor(op as int, 0x1000);
}

/// Place value of sprite column `c`: column 0 is the most significant bit
/// of a sprite row byte.
pub open spec fn col_weight(c: int) -> int {
    if c == 0 {
        128
    } else if c == 1 {
        64
    } else if c == 2 {
        32
    } else if c == 3 {
        16
    } else if c == 4 {
        8
    } else if c == 5 {
        4
    } else if c == 6 {
        2
    } else {
        1
    }
}

/// Whether sprite column `c` (0 = leftmost) of row byte `b` is set.
pub open spec fn sprite_bit(b: u8, c: int) -> bool {
    (b as int / col_weight(c)) % 2 == 1
}

/// Horizontal sprite offset that targets screen column `px` when the
/// sprite is drawn at column `x0`; in `[0, 64)`.
pub open spec fn col_off(px: int, x0: int) -> int {
    (px - x0) % (SCREEN_W as int)
}

/// Vertical sprite offset that targets screen row `py` when the sprite is
/// drawn at row `y0`; in `[0, 32)`.
pub open spec fn row_off(py: int, y0: int) -> int {
    (py - y0) % (SCREEN_H as int)
}

/// Whether the draw of an `n`-row sprite at `(x0, y0)` covers grid cell
/// `k` (row-major on the 64 x 32 screen).
pub open spec fn draw_covers(x0: int, y0: int, n: int, k: int) -> bool {
    row_off(k / 64, y0) < n && col_off(k % 64, x0) < 8
}

/// The sprite bit that a draw from memory `mem` at index `i` lands on grid
/// cell `k` (meaningful only when `draw_covers` holds).
pub open spec fn draw_bit(mem: Seq<u8>, i: int, x0: int, y0: int, k: int) -> bool {
    sprite_bit(mem[i + row_off(k / 64, y0)], col_off(k % 64, x0))
}

/// The framebuffer after XOR-blitting an `n`-row sprite read from `mem` at
/// `i` onto `grid` at `(x0, y0)`, all coordinates wrapping.
pub open spec fn draw_grid(grid: Seq<bool>, mem: Seq<u8>, i: int, x0: int, y0: int, n: int) -> Seq<
    bool,
> {
    Seq::new(
        grid.len(),
        |k: int|
            if draw_covers(x0, y0, n, k) {
                grid[k] != draw_bit(mem, i, x0, y0, k)
            } else {
                grid[k]
            },
    )
}

/// Whether the blit unsets at least one previously set pixel: some covered
/// cell holds a set pixel and receives a set sprite bit.
pub open spec fn draw_collides(grid: Seq<bool>, mem: Seq<u8>, i: int, x0: int, y0: int, n: int) -> bool {
    exists|k: int|
        0 <= k < grid.len() && #[trigger] draw_covers(x0, y0, n, k) && draw_bit(mem, i, x0, y0, k)
            && grid[k]
}

/// Cells already composited when the blit has finished the first `r` full
/// sprite rows and, within row `r`, the first `c` columns.
pub open spec fn draw_covers_partial(x0: int, y0: int, r: int, c: int, k: int) -> bool {
    (row_off(k / 64, y0) < r && col_off(k % 64, x0) < 8) || (row_off(k / 64, y0) == r && col_off(
        k % 64,
        x0,
    ) < c)
}

/// The framebuffer part-way through a blit: rows before `r` and columns
/// before `c` of row `r` are composited, the rest untouched.
pub open spec fn partial_grid(
    grid: Seq<bool>,
    mem: Seq<u8>,
    i: int,
    x0: int,
    y0: int,
    r: int,
    c: int,
) -> Seq<bool> {
    Seq::new(
        grid.len(),
        |k: int|
            if draw_covers_partial(x0, y0, r, c, k) {
                grid[k] != draw_bit(mem, i, x0, y0, k)
            } else {
                grid[k]
            },
    )
}

/// Whether a collision has already happened part-way through a blit.
pub open spec fn partial_collides(
    grid: Seq<bool>,
    mem: Seq<u8>,
    i: int,
    x0: int,
    y0: int,
    r: int,
    c: int,
) -> bool {
    exists|k: int|
        0 <= k < grid.len() && #[trigger] draw_covers_partial(x0, y0, r, c, k) && draw_bit(
            mem,
            i,
            x0,
            y0,
            k,
        ) && grid[k]
}

/// Offsetting by `d` and wrapping, then asking which offset reached the
/// wrapped position, gives `d` back.
pub proof fn lemma_wrap_off(a: int, d: int, m: int)
    requires
        0 < m,
        0 <= d < m,
    ensures
        ((a + d) % m - a) % m == d,
{
    let q = (a + d) / m;
    let t = (a + d) % m;
    lemma_fundamental_div_mod(a + d, m);
    assert(t - a == d - m * q);
    assert(m * (-q) == -(m * q)) by (nonlinear_arith);
    assert(t - a == m * (-q) + d);
    lemma_mod_multiples_vanish(-q, d, m);
    lemma_small_mod(d as nat, m as nat);
}

/// A wrapped position is recovered from its wrap offset: the only cell of
/// one wrapped row or column with a given offset is the one the blit wrote.
pub proof fn lemma_wrap_unique(a: int, p: int, m: int)
    requires
        0 < m,
        0 <= p < m,
    ensures
        (a + (p - a) % m) % m == p,
{
    let q = (p - a) / m;
    let d = (p - a) % m;
    lemma_fundamental_div_mod(p - a, m);
    assert(a + d == p - m * q);
    assert(m * (-q) == -(m * q)) by (nonlinear_arith);
    assert(a + d == m * (-q) + p);
    lemma_mod_multiples_vanish(-q, p, m);
    lemma_small_mod(p as nat, m as nat);
}

/// The grid cell a blit of sprite row `r`, column `c` writes: its
/// coordinates wrap, it lies in the grid, and its wrap offsets are exactly
/// `(r, c)`.
pub proof fn lemma_draw_target(x0: int, y0: int, r: int, c: int)
    requires
        0 <= x0,
        0 <= y0,
        0 <= r < 32,
        0 <= c < 8,
    ensures
        0 <= (y0 + r) % 32 < 32,
        0 <= (x0 + c) % 64 < 64,
        0 <= ((y0 + r) % 32) * 64 + (x0 + c) % 64 < 2048,
        (((y0 + r) % 32) * 64 + (x0 + c) % 64) % 64 == (x0 + c) % 64,
        (((y0 + r) % 32) * 64 + (x0 + c) % 64) / 64 == (y0 + r) % 32,
        row_off((y0 + r) % 32, y0) == r,
        col_off((x0 + c) % 64, x0) == c,
{
    let py = (y0 + r) % 32;
    let px = (x0 + c) % 64;
    lemma_mod_division_less_than_divisor(y0 + r, 32);
    lemma_mod_division_less_than_divisor(x0 + c, 64);
    let k = py * 64 + px;
    lemma_fundamental_div_mod_converse_mod(k, 64, py, px);
    lemma_fundamental_div_mod_converse_div(k, 64, py, px);
    lemma_wrap_off(y0, r, 32);
    lemma_wrap_off(x0, c, 64);
}

/// Conversely, any grid cell whose wrap offsets are `(r, c)` is that one
/// written cell: each (row, column) pair of a sprite lands on exactly one
/// pixel of the 64 x 32 screen.
pub proof fn lemma_draw_target_unique(x0: int, y0: int, r: int, c: int, k2: int)
    requires
        0 <= x0,
        0 <= y0,
        0 <= r < 32,
        0 <= c < 8,
        0 <= k2 < 2048,
        row_off(k2 / 64, y0) == r,
        col_off(k2 % 64, x0) == c,
    ensures
        k2 == ((y0 + r) % 32) * 64 + (x0 + c) % 64,
{
    let py2 = k2 / 64;
    let px2 = k2 % 64;
    lemma_mod_division_less_than_divisor(k2, 64);
    lemma_div_pos_is_pos(k2, 64);
    lemma_div_is_ordered(k2, 2047, 64);
    assert(2047int / 64 == 31);
    lemma_wrap_unique(y0, py2, 32);
    lemma_wrap_unique(x0, px2, 64);
    lemma_fundamental_div_mod(k2, 64);
}

/// Before any row is composited the grid is untouched and no collision
/// has happened.
pub proof fn lemma_partial_zero(grid: Seq<bool>, mem: Seq<u8>, i: int, x0: int, y0: int)
    ensures
        partial_grid(grid, mem, i, x0, y0, 0, 0) == grid,
        !partial_collides(grid, mem, i, x0, y0, 0, 0),
{
    assert forall|k: int| !draw_covers_partial(x0, y0, 0, 0, k) by {
        lemma_mod_division_less_than_divisor(k / 64 - y0, 32);
        lemma_mod_division_less_than_divisor(k % 64 - x0, 64);
    }
    assert(partial_grid(grid, mem, i, x0, y0, 0, 0) =~= grid);
}

/// Finishing the eighth column of a row is the same point as standing at
/// the start of the next row.
pub proof fn lemma_partial_row_done(grid: Seq<bool>, mem: Seq<u8>, i: int, x0: int, y0: int, r: int)
    requires
        0 <= r,
    ensures
        partial_grid(grid, mem, i, x0, y0, r, 8) == partial_grid(grid, mem, i, x0, y0, r + 1, 0),
        partial_collides(grid, mem, i, x0, y0, r, 8) == partial_collides(
            grid,
            mem,
            i,
            x0,
            y0,
            r + 1,
            0,
        ),
{
    assert forall|k: int|
        draw_covers_partial(x0, y0, r, 8, k) == draw_covers_partial(x0, y0, r + 1, 0, k) by {
        lemma_mod_division_less_than_divisor(k % 64 - x0, 64);
    }
    assert(partial_grid(grid, mem, i, x0, y0, r, 8) =~= partial_grid(
        grid,
        mem,
        i,
        x0,
        y0,
        r + 1,
        0,
    ));
    if partial_collides(grid, mem, i, x0, y0, r, 8) {
        let k = choose|k: int|
            0 <= k < grid.len() && #[trigger] draw_covers_partial(x0, y0, r, 8, k) && draw_bit(
                mem,
                i,
                x0,
                y0,
                k,
            ) && grid[k];
        assert(draw_covers_partial(x0, y0, r + 1, 0, k));
        assert(partial_collides(grid, mem, i, x0, y0, r + 1, 0));
    }
    if partial_collides(grid, mem, i, x0, y0, r + 1, 0) {
        let k = choose|k: int|
            0 <= k < grid.len() && #[trigger] draw_covers_partial(x0, y0, r + 1, 0, k) && draw_bit(
                mem,
                i,
                x0,
                y0,
                k,
            ) && grid[k];
        assert(draw_covers_partial(x0, y0, r, 8, k));
        assert(partial_collides(grid, mem, i, x0, y0, r, 8));
    }
}

/// Standing at the start of row `n` after `n` rows is the finished blit.
pub proof fn lemma_partial_done(grid: Seq<bool>, mem: Seq<u8>, i: int, x0: int, y0: int, n: int)
    requires
        0 <= n,
    ensures
        partial_grid(grid, mem, i, x0, y0, n, 0) == draw_grid(grid, mem, i, x0, y0, n),
        partial_collides(grid, mem, i, x0, y0, n, 0) == draw_collides(grid, mem, i, x0, y0, n),
{
    assert forall|k: int|
        draw_covers_partial(x0, y0, n, 0, k) == draw_covers(x0, y0, n, k) by {
        lemma_mod_division_less_than_divisor(k % 64 - x0, 64);
    }
    assert(partial_grid(grid, mem, i, x0, y0, n, 0) =~= draw_grid(grid, mem, i, x0, y0, n));
    if partial_collides(grid, mem, i, x0, y0, n, 0) {
        let k = choose|k: int|
            0 <= k < grid.len() && #[trigger] draw_covers_partial(x0, y0, n, 0, k) && draw_bit(
                mem,
                i,
                x0,
                y0,
                k,
            ) && grid[k];
        assert(draw_covers(x0, y0, n, k));
        assert(draw_collides(grid, mem, i, x0, y0, n));
    }
    if draw_collides(grid, mem, i, x0, y0, n) {
        let k = choose|k: int|
            0 <= k < grid.len() && #[trigger] draw_covers(x0, y0, n, k) && draw_bit(
                mem,
                i,
                x0,
                y0,
                k,
            ) && grid[k];
        assert(draw_covers_partial(x0, y0, n, 0, k));
        assert(partial_collides(grid, mem, i, x0, y0, n, 0));
    }
}

/// An all-unset grid of the same size.
pub open spec fn cleared_grid(grid: Seq<bool>) -> Seq<bool> {
    Seq::new(grid.len(), |k: int| false)
}

/// Memory after the bulk register store of Fx55: registers `0..=x` placed
/// at `i..`, everything else untouched.
pub open spec fn stored_mem(mem: Seq<u8>, regs: Seq<u8>, i: int, x: int) -> Seq<u8> {
    Seq::new(
        mem.len(),
        |k: int|
            if i <= k <= i + x {
                regs[k - i]
            } else {
                mem[k]
            },
    )
}

/// Registers after the bulk register load of Fx65: registers `0..=x` taken
/// from memory at `i..`, the rest untouched.
pub open spec fn loaded_regs(regs: Seq<u8>, mem: Seq<u8>, i: int, x: int) -> Seq<u8> {
    Seq::new(
        regs.len(),
        |r: int|
            if r <= x {
                mem[i + r]
            } else {
                regs[r]
            },
    )
}

/// The meaning of one decoded instruction: the next machine state, or a
/// fault, from state `s`. `rnd` is the byte the random source supplied for
/// this cycle; only `Rnd` reads it. Every non-fault outcome advances `pc`
/// to the address of the next instruction to execute: sequential flow adds
/// 2, a taken skip adds 4, jumps, calls and returns land on their target.
/// A fault leaves the state unchanged.
pub open spec fn apply_spec(s: MachineView, instr: Instr, rnd: u8) -> Outcome {
    match instr {
        Instr::Cls => Outcome::Next(
            MachineView {
                screen: ScreenView { grid: cleared_grid(s.screen.grid), ..s.screen },
                repaint: true,
                pc: s.pc + 2,
                ..s
            },
        ),
        Instr::Ret => if s.sp == 0 {
            Outcome::Halt(Fault::StackUnderflow)
        } else {
            Outcome::Next(MachineView { sp: s.sp - 1, pc: s.stack[s.sp - 1] as int, ..s })
        },
        Instr::Jump { nnn } => Outcome::Next(MachineView { pc: nnn as int, ..s }),
        Instr::Call { nnn } => if s.sp >= STACK_SIZE {
            Outcome::Halt(Fault::StackOverflow)
        } else {
            Outcome::Next(
                MachineView {
                    stack: s.stack.update(s.sp, (s.pc + 2) as u16),
                    sp: s.sp + 1,
                    pc: nnn as int,
                    ..s
                },
            )
        },
        Instr::SkipEqImm { x, kk } => Outcome::Next(
            MachineView { pc: if s.regs[x as int] == kk { s.pc + 4 } else { s.pc + 2 }, ..s },
        ),
        Instr::SkipNeImm { x, kk } => Outcome::Next(
            MachineView { pc: if s.regs[x as int] != kk { s.pc + 4 } else { s.pc + 2 }, ..s },
        ),
        Instr::SkipEqReg { x, y } => Outcome::Next(
            MachineView {
                pc: if s.regs[x as int] == s.regs[y as int] {
                    s.pc + 4
                } else {
                    s.pc + 2
                },
                ..s
            },
        ),
        Instr::LoadImm { x, kk } => Outcome::Next(
            MachineView { regs: s.regs.update(x as int, kk), pc: s.pc + 2, ..s },
        ),
        Instr::AddImm { x, kk } => Outcome::Next(
            MachineView {
                regs: s.regs.update(
                    x as int,
                    ((s.regs[x as int] as int + kk as int) % 256) as u8,
                ),
                pc: s.pc + 2,
                ..s
            },
        ),
        Instr::Move { x, y } => Outcome::Next(
            MachineView { regs: s.regs.update(x as int, s.regs[y as int]), pc: s.pc + 2, ..s },
        ),
        Instr::OrReg { x, y } => Outcome::Next(
            MachineView {
                regs: s.regs.update(x as int, s.regs[x as int] | s.regs[y as int]),
                pc: s.pc + 2,
                ..s
            },
        ),
        Instr::AndReg { x, y } => Outcome::Next(
            MachineView {
                regs: s.regs.update(x as int, s.regs[x as int] & s.regs[y as int]),
                pc: s.pc + 2,
                ..s
            },
        ),
        Instr::XorReg { x, y } => Outcome::Next(
            MachineView {
                regs: s.regs.update(x as int, s.regs[x as int] ^ s.regs[y as int]),
                pc: s.pc + 2,
                ..s
            },
        ),
        Instr::AddReg { x, y } => {
            let sum = s.regs[x as int] as int + s.regs[y as int] as int;
            Outcome::Next(
                MachineView {
                    regs: s.regs.update(15, if sum > 255 { 1u8 } else { 0u8 }).update(
                        x as int,
                        (sum % 256) as u8,
                    ),
                    pc: s.pc + 2,
                    ..s
                },
            )
        },
        Instr::SubReg { x, y } => {
            let vx = s.regs[x as int];
            let vy = s.regs[y as int];
            Outcome::Next(
                MachineView {
                    regs: s.regs.update(15, if vx > vy { 1u8 } else { 0u8 }).update(
                        x as int,
                        ((vx as int - vy as int) % 256) as u8,
                    ),
                    pc: s.pc + 2,
                    ..s
                },
            )
        },
        Instr::ShrReg { x, y } => {
            let vy = s.regs[y as int];
            Outcome::Next(
                MachineView {
                    regs: s.regs.update(15, (vy as int % 2) as u8).update(
                        x as int,
                        (vy as int / 2) as u8,
                    ),
                    pc: s.pc + 2,
                    ..s
                },
            )
        },
        Instr::SubRev { x, y } => {
            let vx = s.regs[x as int];
            let vy = s.regs[y as int];
            Outcome::Next(
                MachineView {
                    regs: s.regs.update(15, if vy > vx { 1u8 } else { 0u8 }).update(
                        x as int,
                        ((vy as int - vx as int) % 256) as u8,
                    ),
                    pc: s.pc + 2,
                    ..s
                },
            )
        },
        Instr::ShlReg { x, y } => {
            let vy = s.regs[y as int];
            let sh = ((vy as int * 2) % 256) as u8;
            Outcome::Next(
                MachineView {
                    regs: s.regs.update(15, (vy as int % 2) as u8).update(y as int, sh).update(
                        x as int,
                        sh,
                    ),
                    pc: s.pc + 2,
                    ..s
                },
            )
        },
        Instr::SkipNeReg { x, y } => Outcome::Next(
            MachineView {
                pc: if s.regs[x as int] != s.regs[y as int] {
                    s.pc + 4
                } else {
                    s.pc + 2
                },
                ..s
            },
        ),
        Instr::LoadIndex { nnn } => Outcome::Next(
            MachineView { index: nnn as int, pc: s.pc + 2, ..s },
        ),
        Instr::JumpV0 { nnn } => Outcome::Next(
            MachineView { pc: s.regs[0] as int + nnn as int, ..s },
        ),
        Instr::Rnd { x, kk } => Outcome::Next(
            MachineView { regs: s.regs.update(x as int, rnd & kk), pc: s.pc + 2, ..s },
        ),
        Instr::Draw { x, y, n } => {
            let x0 = s.regs[x as int] as int;
            let y0 = s.regs[y as int] as int;
            if n > 0 && s.index + n as int - 1 > MEM_LAST as int {
                Outcome::Halt(Fault::OutOfBoundsAccess)
            } else {
                let collided = draw_collides(s.screen.grid, s.mem, s.index, x0, y0, n as int);
                Outcome::Next(
                    MachineView {
                        regs: s.regs.update(15, if collided { 1u8 } else { 0u8 }),
                        screen: ScreenView {
                            grid: draw_grid(s.screen.grid, s.mem, s.index, x0, y0, n as int),
                            ..s.screen
                        },
                        repaint: true,
                        pc: s.pc + 2,
                        ..s
                    },
                )
            }
        },
        Instr::SkipKey { x } => {
            let vx = s.regs[x as int];
            if vx as int >= NUM_KEYS as int {
                Outcome::Halt(Fault::OutOfBoundsAccess)
            } else {
                Outcome::Next(
                    MachineView { pc: if s.keys[vx as int] > 0 { s.pc + 4 } else { s.pc + 2 }, ..s },
                )
            }
        },
        Instr::SkipNoKey { x } => {
            let vx = s.regs[x as int];
            if vx as int >= NUM_KEYS as int {
                Outcome::Halt(Fault::OutOfBoundsAccess)
            } else {
                Outcome::Next(
                    MachineView {
                        pc: if s.keys[vx as int] == 0 {
                            s.pc + 4
                        } else {
                            s.pc + 2
                        },
                        ..s
                    },
                )
            }
        },
        Instr::ReadDelay { x } => Outcome::Next(
            MachineView { regs: s.regs.update(x as int, s.delay), pc: s.pc + 2, ..s },
        ),
        Instr::SetDelay { x } => Outcome::Next(
            MachineView { delay: s.regs[x as int], pc: s.pc + 2, ..s },
        ),
        Instr::SetSound { x } => Outcome::Next(
            MachineView { sound: s.regs[x as int], pc: s.pc + 2, ..s },
        ),
        Instr::AddIndex { x } => {
            let ni = s.index + s.regs[x as int] as int;
            if ni > 0xFFFF {
                Outcome::Halt(Fault::OutOfBoundsAccess)
            } else {
                Outcome::Next(MachineView { index: ni, pc: s.pc + 2, ..s })
            }
        },
        Instr::FontAddr { x } => Outcome::Next(
            MachineView { index: s.regs[x as int] as int * 5, pc: s.pc + 2, ..s },
        ),
        Instr::StoreBcd { x } => {
            let vx = s.regs[x as int] as int;
            if s.index + 2 > MEM_LAST as int {
                Outcome::Halt(Fault::OutOfBoundsAccess)
            } else {
                Outcome::Next(
                    MachineView {
                        mem: s.mem.update(s.index, (vx / 100) as u8).update(
                            s.index + 1,
                            ((vx / 10) % 10) as u8,
                        ).update(s.index + 2, (vx % 10) as u8),
                        pc: s.pc + 2,
                        ..s
                    },
                )
            }
        },
        Instr::StoreRegs { x } => if s.index + x as int > MEM_LAST as int {
            Outcome::Halt(Fault::OutOfBoundsAccess)
        } else {
            Outcome::Next(
                MachineView {
                    mem: stored_mem(s.mem, s.regs, s.index, x as int),
                    index: s.index + x as int + 1,
                    pc: s.pc + 2,
                    ..s
                },
            )
        },
        Instr::LoadRegs { x } => if s.index + x as int > MEM_LAST as int {
            Outcome::Halt(Fault::OutOfBoundsAccess)
        } else {
            Outcome::Next(
                MachineView {
                    regs: loaded_regs(s.regs, s.mem, s.index, x as int),
                    index: s.index + x as int + 1,
                    pc: s.pc + 2,
                    ..s
                },
            )
        },
    }
}

/// One full cycle from state `s`: fetch the big-endian opcode at `pc`,
/// decode it, and apply it. Fetching outside memory or decoding no known
/// pattern is a fault; a fault changes nothing.
pub open spec fn step_spec(s: MachineView, rnd: u8) -> Outcome {
    if s.pc + 1 > MEM_LAST as int {
        Outcome::Halt(Fault::OutOfBoundsAccess)
    } else {
        let op = (s.mem[s.pc] as int * 256 + s.mem[s.pc + 1] as int) as u16;
        match decode_spec(op) {
            None => Outcome::Halt(Fault::UnknownOpcode),
            Some(instr) => apply_spec(s, instr, rnd),
        }
    }
}

} // verus!
