//! Laws of the instruction set, stated over the transition function and
//! proved once for all machine states.

use vstd::prelude::*;
use vstd::arithmetic::div_mod::lemma_fundamental_div_mod_converse_mod;

use crate::isa::apply_spec;
use crate::isa::col_off;
use crate::isa::draw_bit;
use crate::isa::draw_covers;
use crate::isa::draw_collides;
use crate::isa::draw_grid;
use crate::isa::Instr;
use crate::isa::MachineView;
use crate::isa::Outcome;

verus! {

/// Load immediate: for any register `x` and immediate `kk`, the
/// instruction sets `V[x]` to `kk`, advances the program counter by
/// exactly 2, and changes nothing else.
pub proof fn lemma_load_imm(s: MachineView, x: u8, kk: u8, rnd: u8)
    requires
        x < 16,
        s.regs.len() == 16,
    ensures
        (apply_spec(s, Instr::LoadImm { x, kk }, rnd) matches Outcome::Next(t)
            && t.regs[x as int] == kk
            && t.pc == s.pc + 2
            && (forall|r: int| 0 <= r < 16 && r != x ==> t.regs[r] == s.regs[r])
            && t == (MachineView { regs: t.regs, pc: t.pc, ..s })),
{
}

/// Call/return pairing: a call pushes the address of the instruction
/// after itself and jumps; any later return that finds that frame intact
/// (same stack slot, stack pointer one above it) lands the program
/// counter exactly on that pushed address.
pub proof fn lemma_call_ret_pairing(s: MachineView, nnn: u16, t: MachineView, rnd1: u8, rnd2: u8)
    requires
        0 <= s.sp < 16,
        0 <= s.pc <= 4094,
        s.stack.len() == 16,
        t.sp == s.sp + 1,
        t.stack.len() == 16,
        t.stack[s.sp as int] == ((s.pc + 2) as u16),
    ensures
        (apply_spec(s, Instr::Call { nnn }, rnd1) matches Outcome::Next(c)
            && c.pc == nnn as int
            && c.sp == s.sp + 1
            && c.stack == s.stack.update(s.sp, (s.pc + 2) as u16)
            && c.stack[s.sp as int] == ((s.pc + 2) as u16)),
        (apply_spec(t, Instr::Ret, rnd2) matches Outcome::Next(u)
            && u.pc == s.pc + 2
            && u.sp == s.sp
            && u == (MachineView { pc: u.pc, sp: u.sp, ..t })),
{
}

/// Clear screen: afterwards every framebuffer cell is unset, whatever it
/// held before, a repaint is requested, and the program counter advances
/// by 2.
pub proof fn lemma_cls(s: MachineView, rnd: u8)
    ensures
        (apply_spec(s, Instr::Cls, rnd) matches Outcome::Next(t)
            && t.screen.grid.len() == s.screen.grid.len()
            && (forall|k: int| 0 <= k < t.screen.grid.len() ==> !t.screen.grid[k])
            && t.repaint
            && t.pc == s.pc + 2
            && t.regs == s.regs
            && t.mem == s.mem),
{
}

/// Sprite XOR involution: drawing the same sprite twice at the same
/// coordinates restores every pixel to its pre-draw value; and the second
/// draw reports a collision whenever some set sprite bit had landed on an
/// initially unset pixel (it is set after the first draw, and the second
/// unsets it).
pub proof fn lemma_draw_twice_restores(s: MachineView, x: u8, y: u8, n: u8, rnd1: u8, rnd2: u8)
    requires
        s.wf(),
        x < 16,
        y < 16,
        x != 15,
        y != 15,
        n <= 15,
        n == 0 || s.index + n - 1 <= 4095,
    ensures
        (apply_spec(s, Instr::Draw { x, y, n }, rnd1) matches Outcome::Next(t)
            && (apply_spec(t, Instr::Draw { x, y, n }, rnd2) matches Outcome::Next(u)
            && u.screen.grid == s.screen.grid
            && ((exists|k: int|
                0 <= k < s.screen.grid.len()
                    && #[trigger] draw_covers(s.regs[x as int] as int, s.regs[y as int] as int, n as int, k)
                    && draw_bit(s.mem, s.index, s.regs[x as int] as int, s.regs[y as int] as int, k)
                    && !s.screen.grid[k]) ==> u.regs[15] == 1))),
{
    let x0 = s.regs[x as int] as int;
    let y0 = s.regs[y as int] as int;
    let g = s.screen.grid;
    let g1 = draw_grid(g, s.mem, s.index, x0, y0, n as int);
    let t = (apply_spec(s, Instr::Draw { x, y, n }, rnd1))->Next_0;
    assert(t.screen.grid == g1);
    assert(t.regs[x as int] == s.regs[x as int] && t.regs[y as int] == s.regs[y as int]);
    let g2 = draw_grid(g1, t.mem, t.index, x0, y0, n as int);
    assert forall|k: int| 0 <= k < g.len() implies g2[k] == g[k] by {}
    assert(g2 =~= g);
    if exists|k: int|
        0 <= k < g.len() && #[trigger] draw_covers(x0, y0, n as int, k) && draw_bit(
            s.mem,
            s.index,
            x0,
            y0,
            k,
        ) && !g[k] {
        let k = choose|k: int|
            0 <= k < g.len() && #[trigger] draw_covers(x0, y0, n as int, k) && draw_bit(
                s.mem,
                s.index,
                x0,
                y0,
                k,
            ) && !g[k];
        assert(g1[k]);
        assert(draw_collides(g1, t.mem, t.index, x0, y0, n as int));
    }
}

/// Horizontal wraparound: an 8-pixel-wide sprite drawn at column
/// `width - 4` covers exactly the four rightmost columns and, wrapped,
/// columns 0 through 3; sprite column `c` lands on screen column
/// `60 + c` for `c < 4` and on `c - 4` beyond.
pub proof fn lemma_draw_wraps_right_edge()
    ensures
        forall|c: int| 0 <= c < 8 ==> #[trigger] ((60 + c) % 64) == if c < 4 { 60 + c } else { c - 4 },
        forall|px: int|
            0 <= px < 64 ==> (#[trigger] col_off(px, 60) < 8 <==> (60 <= px || px < 4)),
{
    assert forall|c: int| 0 <= c < 8 implies #[trigger] ((60 + c) % 64) == if c < 4 {
        60 + c
    } else {
        c - 4
    } by {
        if c < 4 {
            lemma_fundamental_div_mod_converse_mod(60 + c, 64, 0, 60 + c);
        } else {
            lemma_fundamental_div_mod_converse_mod(60 + c, 64, 1, c - 4);
        }
    }
    assert forall|px: int| 0 <= px < 64 implies (#[trigger] col_off(px, 60) < 8 <==> (60 <= px
        || px < 4)) by {
        if px >= 60 {
            lemma_fundamental_div_mod_converse_mod(px - 60, 64, 0, px - 60);
        } else {
            lemma_fundamental_div_mod_converse_mod(px - 60, 64, -1, px + 4);
        }
    }
}

/// Register dump/load round trip: storing `V[0]..=V[x]` at `I`, pointing
/// `I` back at the same base, and loading the same range returns every
/// register to its original value, and each of the two operations
/// advances `I` by exactly `x + 1`.
pub proof fn lemma_store_load_round_trip(s: MachineView, x: u8, rnd1: u8, rnd2: u8)
    requires
        s.wf(),
        x < 16,
        s.index + x <= 4095,
    ensures
        (apply_spec(s, Instr::StoreRegs { x }, rnd1) matches Outcome::Next(t)
            && t.index == s.index + x + 1
            && t.regs == s.regs
            && (forall|j: int| 0 <= j <= x ==> t.mem[s.index + j] == s.regs[j])
            && (apply_spec(
            MachineView { index: s.index, ..t },
            Instr::LoadRegs { x },
            rnd2,
        ) matches Outcome::Next(u)
            && u.regs == s.regs
            && u.index == s.index + x + 1)),
{
    let t = (apply_spec(s, Instr::StoreRegs { x }, rnd1))->Next_0;
    let t2 = MachineView { index: s.index, ..t };
    let u = (apply_spec(t2, Instr::LoadRegs { x }, rnd2))->Next_0;
    assert forall|r: int| 0 <= r < 16 implies u.regs[r] == s.regs[r] by {}
    assert(u.regs =~= s.regs);
}

} // verus!
