//! The interpreter: machine state, fetch-decode-execute, and the sprite
//! compositor. Every mutation of the state is specified against the
//! transition function `isa::step_spec`.

use vstd::prelude::*;

use crate::font;
use crate::isa;
use crate::isa::Fault;
use crate::isa::Instr;
use crate::isa::MachineView;
use crate::isa::Outcome;
use crate::screen::ScreenView;
use crate::window::Window;

verus! {

/// The glyph table stands at the bottom of memory: one five-byte glyph
/// per hexadecimal digit, eighty bytes in all.
pub open spec fn fontset_loaded(mem: Seq<u8>) -> bool {
    forall|j: int| 0 <= j < 80 ==> mem[j] == font::glyph_row(j / 5, j % 5)
}

/// The CHIP-8 machine: memory, register file, call stack, timers, keypad
/// snapshot, and the display surface.
pub struct Emulator {
    pub window: Window,
    pub memory: Vec<u8>,
    pub registers: Vec<u8>,
    pub index: u16,
    pub program_counter: u16,
    pub delay_timer: u8,
    pub sound_timer: u8,
    pub stack: Vec<u16>,
    pub stack_pointer: u16,
    pub keypad: Vec<u8>,
}

impl View for Emulator {
    type V = MachineView;

    open spec fn view(&self) -> MachineView {
        MachineView {
            mem: self.memory@,
            regs: self.registers@,
            index: self.index as int,
            pc: self.program_counter as int,
            delay: self.delay_timer,
            sound: self.sound_timer,
            stack: self.stack@,
            sp: self.stack_pointer as int,
            keys: self.keypad@,
            screen: self.window.screen@,
            repaint: self.window.needs_repaint,
        }
    }
}

impl Emulator {
    /// The machine invariant every public operation preserves.
    pub open spec fn wf(self) -> bool {
        self@.wf()
    }

    /// Build a machine ready to run: blank 64 x 32 screen at the given
    /// display scale, memory holding only the glyph table, every register
    /// and timer zero, and the program counter at the program base.
    pub fn new(window_scale: u32) -> (e: Emulator)
        ensures
            e.wf(),
            e@.pc == isa::ROM_BASE,
            e@.index == 0,
            e@.sp == 0,
            e@.delay == 0,
            e@.sound == 0,
            forall|r: int| 0 <= r < 16 ==> e@.regs[r] == 0,
            forall|k: int| 0 <= k < 16 ==> e@.keys[k] == 0,
            fontset_loaded(e@.mem),
            forall|j: int| 80 <= j < 4096 ==> e@.mem[j] == 0,
            forall|k: int| 0 <= k < e@.screen.grid.len() ==> !e@.screen.grid[k],
            !e@.repaint,
            e.window.screen.scale == window_scale,
    {
        let mut e = Emulator {
            window: Window::new(isa::SCREEN_W, isa::SCREEN_H, window_scale),
            memory: zero_bytes(isa::MEM_SIZE),
            registers: zero_bytes(isa::NUM_REGS),
            index: 0,
            program_counter: 0x200,
            delay_timer: 0,
            sound_timer: 0,
            stack: zero_words(isa::STACK_SIZE),
            stack_pointer: 0,
            keypad: zero_bytes(isa::NUM_KEYS),
        };
        e.load_fontset();
        e
    }

    /// Write the glyph table into the first eighty bytes of memory,
    /// leaving the rest untouched.
    pub fn load_fontset(&mut self)
        requires
            old(self).wf(),
        ensures
            final(self).wf(),
            fontset_loaded(final(self)@.mem),
            forall|j: int| 80 <= j < 4096 ==> final(self)@.mem[j] == old(self)@.mem[j],
            final(self)@ == (MachineView { mem: final(self)@.mem, ..old(self)@ }),
            final(self).window == old(self).window,
    {
        let mut k: usize = 0;
        while k < 80
            invariant
                self.memory@.len() == 4096,
                k <= 80,
                forall|j: int| 0 <= j < k ==> self.memory@[j] == font::glyph_row(j / 5, j % 5),
                forall|j: int| k <= j < 4096 ==> self.memory@[j] == old(self).memory@[j],
                self.window == old(self).window,
                self.registers == old(self).registers,
                self.index == old(self).index,
                self.program_counter == old(self).program_counter,
                self.delay_timer == old(self).delay_timer,
                self.sound_timer == old(self).sound_timer,
                self.stack == old(self).stack,
                self.stack_pointer == old(self).stack_pointer,
                self.keypad == old(self).keypad,
            decreases 80 - k,
        {
            let d: u8 = (k / 5) as u8;
            let r: u8 = (k % 5) as u8;
            let b = font::glyph_byte(d, r);
            self.memory.set(k, b);
            k += 1;
        }
    }

    /// Copy a program image into memory starting at the program base. An
    /// image longer than the space above the base is rejected whole:
    /// nothing is copied and the machine is unchanged.
    pub fn load_rom(&mut self, rom: &Vec<u8>) -> (r: Result<(), Fault>)
        requires
            old(self).wf(),
        ensures
            final(self).wf(),
            r == Ok::<(), Fault>(()) <==> rom@.len() <= isa::MAX_ROM,
            r is Err ==> r == Err::<(), Fault>(Fault::RomTooLarge) && final(self)@ == old(self)@,
            r is Ok ==> {
                &&& forall|j: int|
                    0 <= j < 4096 && !(isa::ROM_BASE <= j < isa::ROM_BASE + rom@.len())
                        ==> final(self)@.mem[j] == old(self)@.mem[j]
                &&& forall|j: int|
                    0 <= j < rom@.len() ==> final(self)@.mem[isa::ROM_BASE + j] == rom@[j]
                &&& final(self)@ == (MachineView { mem: final(self)@.mem, ..old(self)@ })
            },
    {
        if rom.len() > isa::MAX_ROM {
            return Err(Fault::RomTooLarge);
        }
        let n = rom.len();
        let mut k: usize = 0;
        while k < n
            invariant
                self.memory@.len() == 4096,
                n == rom@.len() <= isa::MAX_ROM,
                k <= n,
                forall|j: int| 0 <= j < k ==> self.memory@[512 + j] == rom@[j],
                forall|j: int|
                    0 <= j < 4096 && !(512 <= j < 512 + k) ==> self.memory@[j] == old(
                        self,
                    ).memory@[j],
                self.window == old(self).window,
                self.registers == old(self).registers,
                self.index == old(self).index,
                self.program_counter == old(self).program_counter,
                self.delay_timer == old(self).delay_timer,
                self.sound_timer == old(self).sound_timer,
                self.stack == old(self).stack,
                self.stack_pointer == old(self).stack_pointer,
                self.keypad == old(self).keypad,
            decreases n - k,
        {
            self.memory.set(512 + k, rom[k]);
            k += 1;
        }
        Ok(())
    }
}

impl Emulator {
    /// Composite one eight-pixel sprite row onto the screen: XOR the bits
    /// of `byte`, most significant first, into the wrapped row `y0 + r`,
    /// starting at wrapped column `x0`. Returns whether a collision has
    /// happened up to and including this row. `g0` is the framebuffer as
    /// it stood before the first row of the blit.
    fn draw_row(&mut self, byte: u8, x0: u8, y0: u8, r: u8, collided: bool, Ghost(g0): Ghost<
        Seq<bool>,
    >) -> (nc: bool)
        requires
            old(self).wf(),
            r < 32,
            g0.len() == 2048,
            byte == old(self)@.mem[old(self)@.index + r as int],
            old(self)@.screen.grid == isa::partial_grid(
                g0,
                old(self)@.mem,
                old(self)@.index,
                x0 as int,
                y0 as int,
                r as int,
                0,
            ),
            collided == isa::partial_collides(
                g0,
                old(self)@.mem,
                old(self)@.index,
                x0 as int,
                y0 as int,
                r as int,
                0,
            ),
        ensures
            final(self).wf(),
            final(self)@.screen.grid == isa::partial_grid(
                g0,
                old(self)@.mem,
                old(self)@.index,
                x0 as int,
                y0 as int,
                r as int + 1,
                0,
            ),
            nc == isa::partial_collides(
                g0,
                old(self)@.mem,
                old(self)@.index,
                x0 as int,
                y0 as int,
                r as int + 1,
                0,
            ),
            final(self)@ == (MachineView { screen: final(self)@.screen, ..old(self)@ }),
            final(self)@.screen == (ScreenView {
                grid: final(self)@.screen.grid,
                ..old(self)@.screen
            }),
    {
        let ghost m = old(self)@.mem;
        let ghost i = old(self)@.index;
        let mut c: u8 = 0;
        let mut col = collided;
        while c < 8
            invariant
                self.wf(),
                c <= 8,
                r < 32,
                g0.len() == 2048,
                byte == m[i + r as int],
                m == old(self)@.mem,
                i == old(self)@.index,
                self@.screen.grid == isa::partial_grid(
                    g0,
                    m,
                    i,
                    x0 as int,
                    y0 as int,
                    r as int,
                    c as int,
                ),
                col == isa::partial_collides(g0, m, i, x0 as int, y0 as int, r as int, c as int),
                self@ == (MachineView { screen: self@.screen, ..old(self)@ }),
                self@.screen == (ScreenView { grid: self@.screen.grid, ..old(self)@.screen }),
            decreases 8 - c,
        {
            let weight: u8 = match c {
                0 => 128,
                1 => 64,
                2 => 32,
                3 => 16,
                4 => 8,
                5 => 4,
                6 => 2,
                _ => 1,
            };
            let on = (byte / weight) % 2 == 1;
            let px: u8 = ((x0 as u16 + c as u16) % 64) as u8;
            let py: u8 = ((y0 as u16 + r as u16) % 32) as u8;
            let ghost tcell = (py as int) * 64 + px as int;
            proof {
                isa::lemma_draw_target(x0 as int, y0 as int, r as int, c as int);
                assert(weight == isa::col_weight(c as int));
                assert(on == isa::sprite_bit(byte, c as int));
                assert(isa::row_off(tcell / 64, y0 as int) == r as int);
                assert(isa::col_off(tcell % 64, x0 as int) == c as int);
                assert(isa::draw_bit(m, i, x0 as int, y0 as int, tcell) == on);
                assert(!isa::draw_covers_partial(x0 as int, y0 as int, r as int, c as int, tcell));
                assert(self.window.screen.width == 64 && self.window.screen.height == 32);
            }
            let existing = self.window.get_pixel(px, py);
            proof {
                assert(self@.screen.idx(px as int, py as int) == tcell);
                assert(existing == g0[tcell]);
            }
            if existing && on {
                col = true;
            }
            let ghost pre = self@.screen.grid;
            self.window.set_pixel(px, py, existing != on);
            proof {
                let x0i = x0 as int;
                let y0i = y0 as int;
                let ri = r as int;
                let ci = c as int;
                assert(self@.screen.grid == pre.update(tcell, existing != on));
                assert forall|k: int| 0 <= k < 2048 implies self@.screen.grid[k]
                    == isa::partial_grid(g0, m, i, x0i, y0i, ri, ci + 1)[k] by {
                    if k == tcell {
                        assert(isa::draw_covers_partial(x0i, y0i, ri, ci + 1, tcell));
                    } else {
                        if isa::draw_covers_partial(x0i, y0i, ri, ci + 1, k)
                            != isa::draw_covers_partial(x0i, y0i, ri, ci, k) {
                            assert(isa::row_off(k / 64, y0i) == ri && isa::col_off(k % 64, x0i)
                                == ci);
                            isa::lemma_draw_target_unique(x0i, y0i, ri, ci, k);
                            assert(false);
                        }
                    }
                }
                assert(self@.screen.grid =~= isa::partial_grid(g0, m, i, x0i, y0i, ri, ci + 1));
                if col {
                    if isa::partial_collides(g0, m, i, x0i, y0i, ri, ci) {
                        let k = choose|k: int|
                            0 <= k < g0.len() && #[trigger] isa::draw_covers_partial(
                                x0i,
                                y0i,
                                ri,
                                ci,
                                k,
                            ) && isa::draw_bit(m, i, x0i, y0i, k) && g0[k];
                        assert(isa::draw_covers_partial(x0i, y0i, ri, ci + 1, k));
                        assert(isa::partial_collides(g0, m, i, x0i, y0i, ri, ci + 1));
                    } else {
                        assert(existing && on);
                        assert(isa::draw_covers_partial(x0i, y0i, ri, ci + 1, tcell));
                        assert(isa::partial_collides(g0, m, i, x0i, y0i, ri, ci + 1));
                    }
                }
                if isa::partial_collides(g0, m, i, x0i, y0i, ri, ci + 1) {
                    let k = choose|k: int|
                        0 <= k < g0.len() && #[trigger] isa::draw_covers_partial(
                            x0i,
                            y0i,
                            ri,
                            ci + 1,
                            k,
                        ) && isa::draw_bit(m, i, x0i, y0i, k) && g0[k];
                    if isa::draw_covers_partial(x0i, y0i, ri, ci, k) {
                        assert(isa::partial_collides(g0, m, i, x0i, y0i, ri, ci));
                        assert(col);
                    } else {
                        assert(isa::row_off(k / 64, y0i) == ri && isa::col_off(k % 64, x0i) == ci);
                        isa::lemma_draw_target_unique(x0i, y0i, ri, ci, k);
                        assert(k == tcell);
                        assert(col);
                    }
                }
            }
            c += 1;
        }
        proof {
            isa::lemma_partial_row_done(g0, m, i, x0 as int, y0 as int, r as int);
        }
        col
    }

    /// XOR-blit an 8-pixel-wide, `height`-row sprite read from memory at
    /// the index register onto the screen at `(x, y)`. Coordinates wrap,
    /// never clip. `VF` becomes 1 exactly when some set pixel was unset,
    /// and the display is asked to repaint. Reading sprite rows from
    /// beyond memory is a fault that leaves the machine unchanged.
    pub fn draw_sprite(&mut self, x: u8, y: u8, height: u8) -> (r: Result<(), Fault>)
        requires
            old(self).wf(),
            height <= 32,
        ensures
            final(self).wf(),
            (r is Ok) <==> (height == 0 || old(self)@.index + height as int - 1
                <= isa::MEM_LAST as int),
            r is Err ==> r == Err::<(), Fault>(Fault::OutOfBoundsAccess) && final(self)@ == old(
                self,
            )@,
            r is Ok ==> final(self)@ == (MachineView {
                regs: old(self)@.regs.update(
                    15,
                    if isa::draw_collides(
                        old(self)@.screen.grid,
                        old(self)@.mem,
                        old(self)@.index,
                        x as int,
                        y as int,
                        height as int,
                    ) {
                        1u8
                    } else {
                        0u8
                    },
                ),
                screen: (ScreenView {
                    grid: isa::draw_grid(
                        old(self)@.screen.grid,
                        old(self)@.mem,
                        old(self)@.index,
                        x as int,
                        y as int,
                        height as int,
                    ),
                    ..old(self)@.screen
                }),
                repaint: true,
                ..old(self)@
            }),
    {
        if height > 0 && self.index as usize + height as usize - 1 > 4095 {
            return Err(Fault::OutOfBoundsAccess);
        }
        let ghost g0 = self@.screen.grid;
        let ghost m = self@.mem;
        let ghost i = self@.index as int;
        proof {
            assert(g0.len() == 2048) by {
                assert(self@.screen.wf() && self@.screen.width == 64 && self@.screen.height == 32);
            }
            isa::lemma_partial_zero(g0, m, i, x as int, y as int);
        }
        let mut collided = false;
        let mut r: u8 = 0;
        while r < height
            invariant
                self.wf(),
                r <= height <= 32,
                g0.len() == 2048,
                height > 0 ==> i + height as int - 1 <= 4095,
                m == old(self)@.mem,
                i == old(self)@.index,
                self@.screen.grid == isa::partial_grid(g0, m, i, x as int, y as int, r as int, 0),
                collided == isa::partial_collides(g0, m, i, x as int, y as int, r as int, 0),
                self@ == (MachineView { screen: self@.screen, ..old(self)@ }),
                self@.screen == (ScreenView { grid: self@.screen.grid, ..old(self)@.screen }),
            decreases height - r,
        {
            let byte = self.memory[self.index as usize + r as usize];
            collided = self.draw_row(byte, x, y, r, collided, Ghost(g0));
            r += 1;
        }
        proof {
            isa::lemma_partial_done(g0, m, i, x as int, y as int, height as int);
        }
        self.registers.set(15, if collided { 1 } else { 0 });
        self.window.invalidate();
        proof {
            assert(self@ =~= (MachineView {
                regs: old(self)@.regs.update(
                    15,
                    if isa::draw_collides(g0, m, i, x as int, y as int, height as int) {
                        1u8
                    } else {
                        0u8
                    },
                ),
                screen: (ScreenView {
                    grid: isa::draw_grid(g0, m, i, x as int, y as int, height as int),
                    ..old(self)@.screen
                }),
                repaint: true,
                ..old(self)@
            }));
        }
        Ok(())
    }
}

impl Emulator {
    /// Execute one decoded instruction: the apply half of the cycle. The
    /// program counter must still point at the instruction (so at most
    /// 4094, as any fetchable address is); on success it is left on the
    /// address of the next instruction to run. A fault leaves the machine
    /// exactly as it was.
    pub fn execute(&mut self, instr: Instr, rnd: u8) -> (r: Result<(), Fault>)
        requires
            old(self).wf(),
            isa::instr_wf(instr),
            old(self)@.pc <= 4094,
        ensures
            final(self).wf(),
            (match r {
                Ok(()) => isa::apply_spec(old(self)@, instr, rnd) == Outcome::Next(final(self)@),
                Err(f) => isa::apply_spec(old(self)@, instr, rnd) == Outcome::Halt(f)
                    && final(self)@ == old(self)@,
            }),
    {
        match instr {
            Instr::Cls => {
                self.window.clear();
                self.program_counter = self.program_counter + 2;
                proof {
                    assert(self@.screen.grid =~= isa::cleared_grid(old(self)@.screen.grid));
                    assert(self@.screen =~= (ScreenView {
                        grid: isa::cleared_grid(old(self)@.screen.grid),
                        ..old(self)@.screen
                    }));
                }
                Ok(())
            },
            Instr::Ret => {
                if self.stack_pointer == 0 {
                    return Err(Fault::StackUnderflow);
                }
                self.stack_pointer = self.stack_pointer - 1;
                self.program_counter = self.stack[self.stack_pointer as usize];
                Ok(())
            },
            Instr::Jump { nnn } => {
                self.program_counter = nnn;
                Ok(())
            },
            Instr::Call { nnn } => {
                if self.stack_pointer >= 16 {
                    return Err(Fault::StackOverflow);
                }
                let ret = self.program_counter + 2;
                self.stack.set(self.stack_pointer as usize, ret);
                self.stack_pointer = self.stack_pointer + 1;
                self.program_counter = nnn;
                Ok(())
            },
            Instr::SkipEqImm { x, kk } => {
                if self.registers[x as usize] == kk {
                    self.program_counter = self.program_counter + 4;
                } else {
                    self.program_counter = self.program_counter + 2;
                }
                Ok(())
            },
            Instr::SkipNeImm { x, kk } => {
                if self.registers[x as usize] != kk {
                    self.program_counter = self.program_counter + 4;
                } else {
                    self.program_counter = self.program_counter + 2;
                }
                Ok(())
            },
            Instr::SkipEqReg { x, y } => {
                if self.registers[x as usize] == self.registers[y as usize] {
                    self.program_counter = self.program_counter + 4;
                } else {
                    self.program_counter = self.program_counter + 2;
                }
                Ok(())
            },
            Instr::LoadImm { x, kk } => {
                self.registers.set(x as usize, kk);
                self.program_counter = self.program_counter + 2;
                Ok(())
            },
            Instr::AddImm { x, kk } => {
                let vx = self.registers[x as usize];
                let nv = ((vx as u16 + kk as u16) % 256) as u8;
                self.registers.set(x as usize, nv);
                self.program_counter = self.program_counter + 2;
                Ok(())
            },
            Instr::Move { x, y } => {
                let vy = self.registers[y as usize];
                self.registers.set(x as usize, vy);
                self.program_counter = self.program_counter + 2;
                Ok(())
            },
            Instr::OrReg { x, y } => {
                let v = self.registers[x as usize] | self.registers[y as usize];
                self.registers.set(x as usize, v);
                self.program_counter = self.program_counter + 2;
                Ok(())
            },
            Instr::AndReg { x, y } => {
                let v = self.registers[x as usize] & self.registers[y as usize];
                self.registers.set(x as usize, v);
                self.program_counter = self.program_counter + 2;
                Ok(())
            },
            Instr::XorReg { x, y } => {
                let v = self.registers[x as usize] ^ self.registers[y as usize];
                self.registers.set(x as usize, v);
                self.program_counter = self.program_counter + 2;
                Ok(())
            },
            Instr::AddReg { x, y } => {
                let vx = self.registers[x as usize];
                let vy = self.registers[y as usize];
                let sum = vx as u16 + vy as u16;
                self.registers.set(15, if sum > 255 { 1 } else { 0 });
                self.registers.set(x as usize, (sum % 256) as u8);
                self.program_counter = self.program_counter + 2;
                Ok(())
            },
            Instr::SubReg { x, y } => {
                let vx = self.registers[x as usize];
                let vy = self.registers[y as usize];
                self.registers.set(15, if vx > vy { 1 } else { 0 });
                let diff = ((vx as u16 + 256 - vy as u16) % 256) as u8;
                proof {
                    vstd::arithmetic::div_mod::lemma_mod_multiples_vanish(
                        1,
                        vx as int - vy as int,
                        256,
                    );
                }
                self.registers.set(x as usize, diff);
                self.program_counter = self.program_counter + 2;
                Ok(())
            },
            Instr::ShrReg { x, y } => {
                let vy = self.registers[y as usize];
                self.registers.set(15, vy % 2);
                self.registers.set(x as usize, vy / 2);
                self.program_counter = self.program_counter + 2;
                Ok(())
            },
            Instr::SubRev { x, y } => {
                let vx = self.registers[x as usize];
                let vy = self.registers[y as usize];
                self.registers.set(15, if vy > vx { 1 } else { 0 });
                let diff = ((vy as u16 + 256 - vx as u16) % 256) as u8;
                proof {
                    vstd::arithmetic::div_mod::lemma_mod_multiples_vanish(
                        1,
                        vy as int - vx as int,
                        256,
                    );
                }
                self.registers.set(x as usize, diff);
                self.program_counter = self.program_counter + 2;
                Ok(())
            },
            Instr::ShlReg { x, y } => {
                let vy = self.registers[y as usize];
                let sh = ((vy as u16 * 2) % 256) as u8;
                self.registers.set(15, vy % 2);
                self.registers.set(y as usize, sh);
                self.registers.set(x as usize, sh);
                self.program_counter = self.program_counter + 2;
                Ok(())
            },
            Instr::SkipNeReg { x, y } => {
                if self.registers[x as usize] != self.registers[y as usize] {
                    self.program_counter = self.program_counter + 4;
                } else {
                    self.program_counter = self.program_counter + 2;
                }
                Ok(())
            },
            Instr::LoadIndex { nnn } => {
                self.index = nnn;
                self.program_counter = self.program_counter + 2;
                Ok(())
            },
            Instr::JumpV0 { nnn } => {
                self.program_counter = self.registers[0] as u16 + nnn;
                Ok(())
            },
            Instr::Rnd { x, kk } => {
                self.registers.set(x as usize, rnd & kk);
                self.program_counter = self.program_counter + 2;
                Ok(())
            },
            Instr::Draw { x, y, n } => {
                let vx = self.registers[x as usize];
                let vy = self.registers[y as usize];
                match self.draw_sprite(vx, vy, n) {
                    Ok(()) => {
                        self.program_counter = self.program_counter + 2;
                        Ok(())
                    },
                    Err(f) => Err(f),
                }
            },
            Instr::SkipKey { x } => {
                let vx = self.registers[x as usize];
                if vx >= 16 {
                    return Err(Fault::OutOfBoundsAccess);
                }
                if self.keypad[vx as usize] > 0 {
                    self.program_counter = self.program_counter + 4;
                } else {
                    self.program_counter = self.program_counter + 2;
                }
                Ok(())
            },
            Instr::SkipNoKey { x } => {
                let vx = self.registers[x as usize];
                if vx >= 16 {
                    return Err(Fault::OutOfBoundsAccess);
                }
                if self.keypad[vx as usize] == 0 {
                    self.program_counter = self.program_counter + 4;
                } else {
                    self.program_counter = self.program_counter + 2;
                }
                Ok(())
            },
            Instr::ReadDelay { x } => {
                let d = self.delay_timer;
                self.registers.set(x as usize, d);
                self.program_counter = self.program_counter + 2;
                Ok(())
            },
            Instr::SetDelay { x } => {
                self.delay_timer = self.registers[x as usize];
                self.program_counter = self.program_counter + 2;
                Ok(())
            },
            Instr::SetSound { x } => {
                self.sound_timer = self.registers[x as usize];
                self.program_counter = self.program_counter + 2;
                Ok(())
            },
            Instr::AddIndex { x } => {
                let vx = self.registers[x as usize];
                let ni: u32 = self.index as u32 + vx as u32;
                if ni > 0xFFFF {
                    return Err(Fault::OutOfBoundsAccess);
                }
                self.index = ni as u16;
                self.program_counter = self.program_counter + 2;
                Ok(())
            },
            Instr::FontAddr { x } => {
                let vx = self.registers[x as usize];
                self.index = vx as u16 * 5;
                self.program_counter = self.program_counter + 2;
                Ok(())
            },
            Instr::StoreBcd { x } => {
                if self.index > 4093 {
                    return Err(Fault::OutOfBoundsAccess);
                }
                let vx = self.registers[x as usize];
                let i = self.index as usize;
                self.memory.set(i, vx / 100);
                self.memory.set(i + 1, (vx / 10) % 10);
                self.memory.set(i + 2, vx % 10);
                self.program_counter = self.program_counter + 2;
                Ok(())
            },
            Instr::StoreRegs { x } => {
                if self.index as usize + x as usize > 4095 {
                    return Err(Fault::OutOfBoundsAccess);
                }
                let i = self.index as usize;
                let mut j: usize = 0;
                while j <= x as usize
                    invariant
                        old(self).wf(),
                        x < 16,
                        j <= x as usize + 1,
                        i == old(self)@.index,
                        i + x as int <= 4095,
                        self.memory@.len() == 4096,
                        forall|k: int|
                            0 <= k < 4096 && !(i <= k < i + j) ==> self.memory@[k] == old(
                                self,
                            ).memory@[k],
                        forall|k: int|
                            i <= k < i + j ==> self.memory@[k] == old(self).registers@[k - i],
                        self.registers == old(self).registers,
                        self.window == old(self).window,
                        self.index == old(self).index,
                        self.program_counter == old(self).program_counter,
                        self.delay_timer == old(self).delay_timer,
                        self.sound_timer == old(self).sound_timer,
                        self.stack == old(self).stack,
                        self.stack_pointer == old(self).stack_pointer,
                        self.keypad == old(self).keypad,
                    decreases x as int + 1 - j,
                {
                    let v = self.registers[j];
                    self.memory.set(i + j, v);
                    j += 1;
                }
                self.index = self.index + x as u16 + 1;
                self.program_counter = self.program_counter + 2;
                proof {
                    assert(self.memory@ =~= isa::stored_mem(
                        old(self)@.mem,
                        old(self)@.regs,
                        old(self)@.index,
                        x as int,
                    ));
                }
                Ok(())
            },
            Instr::LoadRegs { x } => {
                if self.index as usize + x as usize > 4095 {
                    return Err(Fault::OutOfBoundsAccess);
                }
                let i = self.index as usize;
                let mut j: usize = 0;
                while j <= x as usize
                    invariant
                        old(self).wf(),
                        x < 16,
                        j <= x as usize + 1,
                        i == old(self)@.index,
                        i + x as int <= 4095,
                        self.registers@.len() == 16,
                        forall|k: int|
                            0 <= k < 16 && !(k < j) ==> self.registers@[k] == old(
                                self,
                            ).registers@[k],
                        forall|k: int|
                            0 <= k < j ==> self.registers@[k] == old(self).memory@[i + k],
                        self.memory == old(self).memory,
                        self.window == old(self).window,
                        self.index == old(self).index,
                        self.program_counter == old(self).program_counter,
                        self.delay_timer == old(self).delay_timer,
                        self.sound_timer == old(self).sound_timer,
                        self.stack == old(self).stack,
                        self.stack_pointer == old(self).stack_pointer,
                        self.keypad == old(self).keypad,
                    decreases x as int + 1 - j,
                {
                    let v = self.memory[i + j];
                    self.registers.set(j, v);
                    j += 1;
                }
                self.index = self.index + x as u16 + 1;
                self.program_counter = self.program_counter + 2;
                proof {
                    assert(self.registers@ =~= isa::loaded_regs(
                        old(self)@.regs,
                        old(self)@.mem,
                        old(self)@.index,
                        x as int,
                    ));
                }
                Ok(())
            },
        }
    }

    /// Run one full cycle with a caller-supplied random byte: fetch the
    /// big-endian opcode at the program counter, decode it, execute it.
    /// Supplying the byte makes a cycle a pure function of the machine
    /// state, so a deterministic source can stand in for the random one.
    pub fn step(&mut self, rnd: u8) -> (r: Result<(), Fault>)
        requires
            old(self).wf(),
        ensures
            final(self).wf(),
            (match r {
                Ok(()) => isa::step_spec(old(self)@, rnd) == Outcome::Next(final(self)@),
                Err(f) => isa::step_spec(old(self)@, rnd) == Outcome::Halt(f) && final(self)@
                    == old(self)@,
            }),
    {
        if self.program_counter > 4094 {
            return Err(Fault::OutOfBoundsAccess);
        }
        let hi = self.memory[self.program_counter as usize];
        let lo = self.memory[self.program_counter as usize + 1];
        let op: u16 = (hi as u16) * 256 + (lo as u16);
        match decode(op) {
            None => Err(Fault::UnknownOpcode),
            Some(instr) => {
                proof {
                    isa::lemma_decode_wf(op);
                }
                self.execute(instr, rnd)
            },
        }
    }

    /// Record one key's state, as the external input collaborator reports
    /// it: nonzero is pressed. The interpreter itself only ever reads the
    /// keypad.
    pub fn set_key(&mut self, key: u8, state: u8)
        requires
            old(self).wf(),
            key < 16,
        ensures
            final(self).wf(),
            final(self)@ == (MachineView {
                keys: old(self)@.keys.update(key as int, state),
                ..old(self)@
            }),
    {
        self.keypad.set(key as usize, state);
    }

    /// One tick of the external 60 Hz clock: each timer counts down by
    /// one until it reaches zero. The cycle engine never calls this; the
    /// embedding driver does, on its own schedule.
    pub fn tick_timers(&mut self)
        requires
            old(self).wf(),
        ensures
            final(self).wf(),
            final(self)@.delay == if old(self)@.delay > 0 {
                (old(self)@.delay - 1) as u8
            } else {
                0u8
            },
            final(self)@.sound == if old(self)@.sound > 0 {
                (old(self)@.sound - 1) as u8
            } else {
                0u8
            },
            final(self)@ == (MachineView {
                delay: final(self)@.delay,
                sound: final(self)@.sound,
                ..old(self)@
            }),
    {
        if self.delay_timer > 0 {
            self.delay_timer = self.delay_timer - 1;
        }
        if self.sound_timer > 0 {
            self.sound_timer = self.sound_timer - 1;
        }
    }

    /// Run one full cycle, drawing the random byte from the system's
    /// random source.
    pub fn cycle(&mut self) -> (r: Result<(), Fault>)
        requires
            old(self).wf(),
        ensures
            final(self).wf(),
            (match r {
                Ok(()) => exists|b: u8|
                    #[trigger] isa::step_spec(old(self)@, b) == Outcome::Next(final(self)@),
                Err(f) => (exists|b: u8|
                    #[trigger] isa::step_spec(old(self)@, b) == Outcome::Halt(f)) && final(self)@
                    == old(self)@,
            }),
    {
        let b = random_byte();
        self.step(b)
    }
}

/// Relies on `rand::random`: one byte drawn from the thread-local
/// generator, uniformly distributed. Nothing is promised of its value.
#[verifier::external_body]
fn random_byte() -> u8 {
    rand::random::<u8>()
}

/// Decode a 16-bit opcode into an instruction, or nothing if it matches
/// no pattern.
pub fn decode(op: u16) -> (r: Option<Instr>)
    ensures
        r == isa::decode_spec(op),
{
    let x = ((op / 0x100) % 16) as u8;
    let y = ((op / 16) % 16) as u8;
    let n = (op % 16) as u8;
    let kk = (op % 256) as u8;
    let nnn = op % 0x1000;
    match op / 0x1000 {
        0x0 => match kk {
            0xE0 => Some(Instr::Cls),
            0xEE => Some(Instr::Ret),
            _ => None,
        },
        0x1 => Some(Instr::Jump { nnn }),
        0x2 => Some(Instr::Call { nnn }),
        0x3 => Some(Instr::SkipEqImm { x, kk }),
        0x4 => Some(Instr::SkipNeImm { x, kk }),
        0x5 => Some(Instr::SkipEqReg { x, y }),
        0x6 => Some(Instr::LoadImm { x, kk }),
        0x7 => Some(Instr::AddImm { x, kk }),
        0x8 => match n {
            0x0 => Some(Instr::Move { x, y }),
            0x1 => Some(Instr::OrReg { x, y }),
            0x2 => Some(Instr::AndReg { x, y }),
            0x3 => Some(Instr::XorReg { x, y }),
            0x4 => Some(Instr::AddReg { x, y }),
            0x5 => Some(Instr::SubReg { x, y }),
            0x6 => Some(Instr::ShrReg { x, y }),
            0x7 => Some(Instr::SubRev { x, y }),
            0xE => Some(Instr::ShlReg { x, y }),
            _ => None,
        },
        0x9 => Some(Instr::SkipNeReg { x, y }),
        0xA => Some(Instr::LoadIndex { nnn }),
        0xB => Some(Instr::JumpV0 { nnn }),
        0xC => Some(Instr::Rnd { x, kk }),
        0xD => Some(Instr::Draw { x, y, n }),
        0xE => match kk {
            0x9E => Some(Instr::SkipKey { x }),
            0xA1 => Some(Instr::SkipNoKey { x }),
            _ => None,
        },
        _ => match kk {
            0x07 => Some(Instr::ReadDelay { x }),
            0x15 => Some(Instr::SetDelay { x }),
            0x18 => Some(Instr::SetSound { x }),
            0x1E => Some(Instr::AddIndex { x }),
            0x29 => Some(Instr::FontAddr { x }),
            0x33 => Some(Instr::StoreBcd { x }),
            0x55 => Some(Instr::StoreRegs { x }),
            0x65 => Some(Instr::LoadRegs { x }),
            _ => None,
        },
    }
}

/// A vector of `n` zero bytes.
fn zero_bytes(n: usize) -> (v: Vec<u8>)
    ensures
        v@.len() == n,
        forall|j: int| 0 <= j < n ==> v@[j] == 0,
{
    let mut v: Vec<u8> = Vec::new();
    let mut k: usize = 0;
    while k < n
        invariant
            v@.len() == k,
            k <= n,
            forall|j: int| 0 <= j < k ==> v@[j] == 0,
        decreases n - k,
    {
        v.push(0);
        k += 1;
    }
    v
}

/// A vector of `n` zero 16-bit words.
fn zero_words(n: usize) -> (v: Vec<u16>)
    ensures
        v@.len() == n,
        forall|j: int| 0 <= j < n ==> v@[j] == 0,
{
    let mut v: Vec<u16> = Vec::new();
    let mut k: usize = 0;
    while k < n
        invariant
            v@.len() == k,
            k <= n,
            forall|j: int| 0 <= j < k ==> v@[j] == 0,
        decreases n - k,
    {
        v.push(0);
        k += 1;
    }
    v
}

} // verus!
