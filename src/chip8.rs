//! The executable machine.

use vstd::prelude::*;
use crate::error::Chip8Error;
use crate::model::{
    cell_of, col_offset, collides, draw, drawn_cell, exec_alu, exec_key_skip, exec_misc, execute,
    fault, font, initial, initial_memory, lemma_cell_of_offsets, lemma_cell_offsets, n_of, nn_of,
    op_of, row_offset, sprite_pixel, step_result, tick, word_at, x_of, Machine, DISPLAY_SIZE, FLAG,
    FONT_START, MAX_PROGRAM_LEN, MEMORY_SIZE, PROGRAM_START,
};

verus! {

/// A CHIP-8 machine: memory, display, registers, call stack, timers and keypad.
pub struct Chip8 {
    ram: Vec<u8>,
    vram: Vec<bool>,
    stack: Vec<u16>,
    keys: Vec<bool>,
    just_released_key: Option<u8>,
    speed: u32,
    cycles_count: u32,
    pc: usize,
    i: usize,
    delay_timer: u8,
    sound_timer: u8,
    v: Vec<u8>,
}

impl View for Chip8 {
    type V = Machine;

    closed spec fn view(&self) -> Machine {
        Machine {
            ram: self.ram@,
            vram: self.vram@,
            stack: self.stack@,
            keys: self.keys@,
            released: self.just_released_key,
            speed: self.speed,
            cycles: self.cycles_count,
            pc: self.pc,
            index: self.i,
            delay_timer: self.delay_timer,
            sound_timer: self.sound_timer,
            v: self.v@,
        }
    }
}

/// The digit glyphs as bytes.
fn font_bytes() -> (r: Vec<u8>)
    ensures
        r@ == font(),
{
    let r = vec![
        0xF0u8, 0x90, 0x90, 0x90, 0xF0, 0x20, 0x60, 0x20, 0x20, 0x70,
        0xF0, 0x10, 0xF0, 0x80, 0xF0, 0xF0, 0x10, 0xF0, 0x10, 0xF0,
        0x90, 0x90, 0xF0, 0x10, 0x10, 0xF0, 0x80, 0xF0, 0x10, 0xF0,
        0xF0, 0x80, 0xF0, 0x90, 0xF0, 0xF0, 0x10, 0x20, 0x40, 0x40,
        0xF0, 0x90, 0xF0, 0x90, 0xF0, 0xF0, 0x90, 0xF0, 0x10, 0xF0,
        0xF0, 0x90, 0xF0, 0x90, 0x90, 0xE0, 0x90, 0xE0, 0x90, 0xE0,
        0xF0, 0x80, 0x80, 0x80, 0xF0, 0xE0, 0x90, 0x90, 0x90, 0xE0,
        0xF0, 0x80, 0xF0, 0x80, 0xF0, 0xF0, 0x80, 0xF0, 0x80, 0x80,
    ];
    assert(r@ =~= font());
    r
}

/// Cell `k` lies on a sprite position visited before row `r`, column `c`.
spec fn visited(x0: int, y0: int, r: int, c: int, k: int) -> bool {
    let ro = row_offset(y0, k);
    let co = col_offset(x0, k);
    co < 8 && (ro < r || (ro == r && co < c))
}

/// A set sprite pixel visited before row `r`, column `c` met a set cell.
spec fn hit_before(m: Machine, x0: int, y0: int, r: int, c: int) -> bool {
    exists|r1: int, c1: int|
        0 <= r1 && 0 <= c1 < 8 && (r1 < r || (r1 == r && c1 < c)) && #[trigger] sprite_pixel(m, r1, c1)
            && m.vram[cell_of(x0, y0, r1, c1)]
}

impl Chip8 {
    /// The well-formedness every machine keeps.
    pub open spec fn wf(&self) -> bool {
        self@.wf()
    }

    /// Builds a machine with `bin` loaded at `PROGRAM_START` and the digit
    /// glyphs at `FONT_START`, running `speed` instructions per emulated second.
    /// A program longer than `MAX_PROGRAM_LEN` bytes is refused.
    pub fn new(bin: &Vec<u8>, speed: u32) -> (r: Result<Chip8, Chip8Error>)
        ensures
            bin@.len() <= MAX_PROGRAM_LEN ==> (r matches Ok(c) && c.wf() && c@ == initial(bin@, speed)),
            bin@.len() > MAX_PROGRAM_LEN ==> r == Err::<Chip8, Chip8Error>(
                Chip8Error::ProgramTooLarge { len: bin.len() },
            ),
    {
        if bin.len() > MAX_PROGRAM_LEN {
            return Err(Chip8Error::ProgramTooLarge { len: bin.len() });
        }
        let glyphs = font_bytes();
        let mut ram: Vec<u8> = Vec::new();
        let mut a: usize = 0;
        while a < MEMORY_SIZE
            invariant
                a <= MEMORY_SIZE,
                bin@.len() <= MAX_PROGRAM_LEN,
                glyphs@ == font(),
                ram@.len() == a,
                forall|b: int| 0 <= b < a ==> ram@[b] == #[trigger] initial_memory(bin@)[b],
            decreases MEMORY_SIZE - a,
        {
            let byte: u8 = if FONT_START <= a && a < FONT_START + 80 {
                glyphs[a - FONT_START]
            } else if PROGRAM_START <= a && a < PROGRAM_START + bin.len() {
                bin[a - PROGRAM_START]
            } else {
                0
            };
            ram.push(byte);
            a = a + 1;
        }
        assert(ram@ =~= initial_memory(bin@));
        let mut v: Vec<u8> = Vec::new();
        let mut keys: Vec<bool> = Vec::new();
        let mut r: usize = 0;
        while r < 16
            invariant
                r <= 16,
                v@ =~= Seq::new(r as nat, |k: int| 0u8),
                keys@ =~= Seq::new(r as nat, |k: int| false),
            decreases 16 - r,
        {
            v.push(0);
            keys.push(false);
            r = r + 1;
        }
        let mut vram: Vec<bool> = Vec::new();
        let mut k: usize = 0;
        while k < DISPLAY_SIZE
            invariant
                k <= DISPLAY_SIZE,
                vram@ =~= Seq::new(k as nat, |j: int| false),
            decreases DISPLAY_SIZE - k,
        {
            vram.push(false);
            k = k + 1;
        }
        let c = Chip8 {
            ram,
            vram,
            stack: Vec::new(),
            keys,
            just_released_key: None,
            speed,
            cycles_count: 0,
            pc: PROGRAM_START,
            i: 0,
            delay_timer: 0,
            sound_timer: 0,
            v,
        };
        assert(c@ =~= initial(bin@, speed));
        Ok(c)
    }

    /// Marks `key` as held down.
    pub fn key_press(&mut self, key: usize)
        requires
            old(self).wf(),
            key < 16,
        ensures
            final(self).wf(),
            final(self)@ == (Machine { keys: old(self)@.keys.update(key as int, true), ..old(self)@ }),
    {
        self.keys.set(key, true);
    }

    /// Marks `key` as let go and latches it as the key released last, replacing
    /// any earlier latched key.
    pub fn key_release(&mut self, key: usize)
        requires
            old(self).wf(),
            key < 16,
        ensures
            final(self).wf(),
            final(self)@ == (Machine {
                keys: old(self)@.keys.update(key as int, false),
                released: Some(key as u8),
                ..old(self)@
            }),
    {
        self.just_released_key = Some(key as u8);
        self.keys.set(key, false);
    }

    /// Whether the sound timer is running, which is when the buzzer sounds.
    pub fn is_sound_playing(&self) -> (r: bool)
        ensures
            r == (self@.sound_timer > 0),
    {
        self.sound_timer > 0
    }

    /// The display, 64 cells per row, 32 rows, top row first.
    pub fn vram(&self) -> (r: &Vec<bool>)
        ensures
            r@ == self@.vram,
    {
        &self.vram
    }

    /// General register `r`; register `FLAG` is the flag register.
    pub fn register(&self, r: usize) -> (val: u8)
        requires
            self.wf(),
            r < 16,
        ensures
            val == self@.v[r as int],
    {
        self.v[r]
    }

    /// The byte of memory at `addr`.
    pub fn memory(&self, addr: usize) -> (val: u8)
        requires
            self.wf(),
            addr < MEMORY_SIZE,
        ensures
            val == self@.ram[addr as int],
    {
        self.ram[addr]
    }

    /// The address of the next instruction.
    pub fn pc(&self) -> (r: usize)
        ensures
            r == self@.pc,
    {
        self.pc
    }

    /// The index register.
    pub fn index(&self) -> (r: usize)
        ensures
            r == self@.index,
    {
        self.i
    }

    /// The delay timer.
    pub fn delay_timer(&self) -> (r: u8)
        ensures
            r == self@.delay_timer,
    {
        self.delay_timer
    }

    /// The sound timer.
    pub fn sound_timer(&self) -> (r: u8)
        ensures
            r == self@.sound_timer,
    {
        self.sound_timer
    }

    /// How many return addresses the call stack holds.
    pub fn stack_depth(&self) -> (r: usize)
        ensures
            r == self@.stack.len(),
    {
        self.stack.len()
    }

    /// The instruction word at the program counter.
    fn fetch(&self) -> (r: u16)
        requires
            self.wf(),
            self@.pc + 1 < MEMORY_SIZE,
        ensures
            r == word_at(self@.ram, self@.pc as int),
    {
        let hi = self.ram[self.pc] as u16;
        let lo = self.ram[self.pc + 1] as u16;
        hi * 256 + lo
    }

    /// The fault that executing `instr` now would raise, if any.
    fn check(&self, instr: u16) -> (r: Option<Chip8Error>)
        requires
            self.wf(),
        ensures
            r == fault(self@, instr),
    {
        let op = instr / 0x1000;
        let x = ((instr / 0x100) % 16) as usize;
        let n = (instr % 16) as usize;
        let nn = instr % 0x100;
        let nnn = instr % 0x1000;
        let pc = self.pc;
        if op == 0 {
            if nnn == 0x0E0 {
                None
            } else if nnn == 0x0EE {
                if self.stack.len() == 0 {
                    Some(Chip8Error::StackUnderflow { instr, pc })
                } else {
                    None
                }
            } else {
                Some(Chip8Error::UnimplementedOpcode { instr, pc })
            }
        } else if op == 8 {
            if n <= 7 || n == 0xE {
                None
            } else {
                Some(Chip8Error::UnimplementedOpcode { instr, pc })
            }
        } else if op == 0xD {
            if self.i + n <= MEMORY_SIZE {
                None
            } else {
                Some(Chip8Error::MemoryOutOfRange { instr, pc })
            }
        } else if op == 0xE {
            if nn == 0x9E || nn == 0xA1 {
                if self.v[x] < 16 {
                    None
                } else {
                    Some(Chip8Error::KeyOutOfRange { instr, pc })
                }
            } else {
                Some(Chip8Error::UnimplementedOpcode { instr, pc })
            }
        } else if op == 0xF {
            if nn == 0x07 || nn == 0x0A || nn == 0x15 || nn == 0x18 || nn == 0x1E || nn == 0x29 {
                None
            } else if nn == 0x33 {
                if self.i + 2 < MEMORY_SIZE {
                    None
                } else {
                    Some(Chip8Error::MemoryOutOfRange { instr, pc })
                }
            } else if nn == 0x55 || nn == 0x65 {
                if self.i + x < MEMORY_SIZE {
                    None
                } else {
                    Some(Chip8Error::MemoryOutOfRange { instr, pc })
                }
            } else {
                Some(Chip8Error::UnimplementedOpcode { instr, pc })
            }
        } else {
            None
        }
    }

    /// Counts one step and, once more than `speed / 60` have been counted,
    /// restarts the count and lets both timers count down.
    fn tick(&mut self)
        requires
            old(self).wf(),
        ensures
            final(self).wf(),
            final(self)@ == tick(old(self)@),
    {
        self.cycles_count = self.cycles_count + 1;
        if self.cycles_count > self.speed / 60 {
            self.cycles_count = 0;
            if self.delay_timer > 0 {
                self.delay_timer = self.delay_timer - 1;
            }
            if self.sound_timer > 0 {
                self.sound_timer = self.sound_timer - 1;
            }
        }
        assert(self@ =~= tick(old(self)@));
    }

    /// XORs the `n`-row sprite at memory `i` onto the display with its corner
    /// at (`v[x]`, `v[y]`), and sets the flag register to whether a set cell
    /// was cleared.
    fn draw(&mut self, x: usize, y: usize, n: usize)
        requires
            old(self).wf(),
            x < 16,
            y < 16,
            n < 16,
            old(self)@.index + n <= MEMORY_SIZE,
        ensures
            final(self).wf(),
            final(self)@ == draw(old(self)@, x as int, y as int, n as int),
    {
        let ghost m = self@;
        let x0 = (self.v[x] % 64) as usize;
        let y0 = (self.v[y] % 32) as usize;
        let mut collided = false;
        let mut r: usize = 0;
        while r < n
            invariant
                self.wf(),
                r <= n,
                n < 16,
                x0 < 64,
                y0 < 32,
                m.wf(),
                self@.index + n <= MEMORY_SIZE,
                self@ == (Machine { vram: self@.vram, ..m }),
                forall|k: int|
                    0 <= k < DISPLAY_SIZE ==> #[trigger] self@.vram[k] == if visited(
                        x0 as int,
                        y0 as int,
                        r as int,
                        0,
                        k,
                    ) {
                        m.vram[k] != sprite_pixel(m, row_offset(y0 as int, k), col_offset(x0 as int, k))
                    } else {
                        m.vram[k]
                    },
                collided == hit_before(m, x0 as int, y0 as int, r as int, 0),
            decreases n - r,
        {
            let byte = self.ram[self.i + r];
            let mut c: usize = 0;
            while c < 8
                invariant
                    self.wf(),
                    r < n,
                    n < 16,
                    c <= 8,
                    x0 < 64,
                    y0 < 32,
                    m.wf(),
                    self@.index + n <= MEMORY_SIZE,
                    byte == m.ram[m.index + r],
                    self@ == (Machine { vram: self@.vram, ..m }),
                    forall|k: int|
                        0 <= k < DISPLAY_SIZE ==> #[trigger] self@.vram[k] == if visited(
                            x0 as int,
                            y0 as int,
                            r as int,
                            c as int,
                            k,
                        ) {
                            m.vram[k] != sprite_pixel(
                                m,
                                row_offset(y0 as int, k),
                                col_offset(x0 as int, k),
                            )
                        } else {
                            m.vram[k]
                        },
                    collided == hit_before(m, x0 as int, y0 as int, r as int, c as int),
                decreases 8 - c,
            {
                let offset = ((y0 + r) % 32) * 64 + (x0 + c) % 64;
                proof {
                    lemma_cell_offsets(x0 as int, y0 as int, r as int, c as int);
                }
                let bit = (byte >> (7 - c as u8)) & 1 == 1;
                let old_pixel = self.vram[offset];
                assert(old_pixel == m.vram[offset as int]);
                self.vram.set(offset, old_pixel != bit);
                if old_pixel && bit {
                    collided = true;
                }
                proof {
                    let ghost (xi, yi, ri, ci) = (x0 as int, y0 as int, r as int, c as int);
                    assert(bit == sprite_pixel(m, ri, ci));
                    assert forall|k: int| 0 <= k < DISPLAY_SIZE implies #[trigger] self@.vram[k]
                        == if visited(xi, yi, ri, ci + 1, k) {
                        m.vram[k] != sprite_pixel(m, row_offset(yi, k), col_offset(xi, k))
                    } else {
                        m.vram[k]
                    } by {
                        lemma_cell_of_offsets(xi, yi, k);
                    }
                    if old_pixel && bit {
                        assert(hit_before(m, xi, yi, ri, ci + 1));
                    } else {
                        if hit_before(m, xi, yi, ri, ci + 1) {
                            let (r1, c1) = choose|r1: int, c1: int|
                                0 <= r1 && 0 <= c1 < 8 && (r1 < ri || (r1 == ri && c1 < ci + 1))
                                    && #[trigger] sprite_pixel(m, r1, c1) && m.vram[cell_of(
                                    xi,
                                    yi,
                                    r1,
                                    c1,
                                )];
                            if r1 == ri && c1 == ci {
                                assert(false);
                            }
                            assert(hit_before(m, xi, yi, ri, ci));
                        }
                    }
                }
                c = c + 1;
            }
            proof {
                let ghost (xi, yi, ri) = (x0 as int, y0 as int, r as int);
                assert forall|k: int| 0 <= k < DISPLAY_SIZE implies visited(xi, yi, ri, 8, k)
                    == visited(xi, yi, ri + 1, 0, k) by {}
                if hit_before(m, xi, yi, ri + 1, 0) {
                    let (r1, c1) = choose|r1: int, c1: int|
                        0 <= r1 && 0 <= c1 < 8 && (r1 < ri + 1 || (r1 == ri + 1 && c1 < 0))
                            && #[trigger] sprite_pixel(m, r1, c1) && m.vram[cell_of(xi, yi, r1, c1)];
                    assert(hit_before(m, xi, yi, ri, 8));
                }
                if hit_before(m, xi, yi, ri, 8) {
                    let (r1, c1) = choose|r1: int, c1: int|
                        0 <= r1 && 0 <= c1 < 8 && (r1 < ri || (r1 == ri && c1 < 8))
                            && #[trigger] sprite_pixel(m, r1, c1) && m.vram[cell_of(xi, yi, r1, c1)];
                    assert(hit_before(m, xi, yi, ri + 1, 0));
                }
            }
            r = r + 1;
        }
        self.v.set(FLAG, if collided { 1 } else { 0 });
        proof {
            let ghost (xi, yi, ni) = (x0 as int, y0 as int, n as int);
            assert(self@.vram =~= Seq::new(DISPLAY_SIZE as nat, |k: int| drawn_cell(m, xi, yi, ni, k)));
            if collides(m, xi, yi, ni) {
                let (r1, c1) = choose|r1: int, c1: int|
                    0 <= r1 < ni && 0 <= c1 < 8 && #[trigger] sprite_pixel(m, r1, c1)
                        && m.vram[cell_of(xi, yi, r1, c1)];
                assert(hit_before(m, xi, yi, ni, 0));
            }
            if hit_before(m, xi, yi, ni, 0) {
                let (r1, c1) = choose|r1: int, c1: int|
                    0 <= r1 && 0 <= c1 < 8 && (r1 < ni || (r1 == ni && c1 < 0))
                        && #[trigger] sprite_pixel(m, r1, c1) && m.vram[cell_of(xi, yi, r1, c1)];
                assert(collides(m, xi, yi, ni));
            }
            assert(self@ =~= draw(m, x as int, y as int, n as int));
        }
    }

    /// The register-to-register group: assignment, OR, AND, XOR, add with
    /// carry, the two subtractions with borrow, and the two shifts of `v[y]`.
    #[verifier::rlimit(40)]
    fn exec_alu(&mut self, instr: u16)
        requires
            old(self).wf(),
            op_of(instr) == 8,
            n_of(instr) <= 7 || n_of(instr) == 0xE,
        ensures
            final(self).wf(),
            final(self)@ == exec_alu(old(self)@, instr),
    {
        let x = ((instr / 0x100) % 16) as usize;
        let y = ((instr / 16) % 16) as usize;
        let sel = instr % 16;
        let vx = self.v[x];
        let vy = self.v[y];
        if sel == 0 {
            self.v.set(x, vy);
        } else if sel == 1 {
            self.v.set(x, vx | vy);
        } else if sel == 2 {
            self.v.set(x, vx & vy);
        } else if sel == 3 {
            self.v.set(x, vx ^ vy);
        } else if sel == 4 {
            self.v.set(x, vx.wrapping_add(vy));
            self.v.set(FLAG, if vx as u16 + vy as u16 > 255 { 1 } else { 0 });
        } else if sel == 5 {
            self.v.set(x, vx.wrapping_sub(vy));
            self.v.set(FLAG, if vx >= vy { 1 } else { 0 });
        } else if sel == 6 {
            self.v.set(x, vy >> 1);
            self.v.set(FLAG, vy & 1);
        } else if sel == 7 {
            self.v.set(x, vy.wrapping_sub(vx));
            self.v.set(FLAG, if vy >= vx { 1 } else { 0 });
        } else {
            self.v.set(x, ((vy as u16 * 2) % 256) as u8);
            self.v.set(FLAG, vy / 128);
        }
        proof {
            if sel == 6 {
                assert(vy >> 1 == vy / 2) by (bit_vector);
                assert(vy & 1 == vy % 2) by (bit_vector);
            }
        }
        assert(self@ =~= exec_alu(old(self)@, instr));
    }

    /// The key-skip group: skip the next instruction when key `v[x]` is held
    /// down, or when it is not.
    fn exec_key_skip(&mut self, instr: u16)
        requires
            old(self).wf(),
            old(self)@.pc <= MEMORY_SIZE,
            op_of(instr) == 0xE,
            nn_of(instr) == 0x9E || nn_of(instr) == 0xA1,
            old(self)@.v[x_of(instr)] < 16,
        ensures
            final(self).wf(),
            final(self)@ == exec_key_skip(old(self)@, instr),
    {
        let x = ((instr / 0x100) % 16) as usize;
        let pressed = self.keys[self.v[x] as usize];
        if instr % 0x100 == 0x9E {
            if pressed {
                self.pc = self.pc + 2;
            }
        } else {
            if !pressed {
                self.pc = self.pc + 2;
            }
        }
    }

    /// The timer, index and memory group.
    fn exec_misc(&mut self, instr: u16)
        requires
            old(self).wf(),
            2 <= old(self)@.pc <= MEMORY_SIZE,
            op_of(instr) == 0xF,
            fault(old(self)@, instr) is None,
        ensures
            final(self).wf(),
            final(self)@ == exec_misc(old(self)@, instr),
    {
        let ghost m = self@;
        let x = ((instr / 0x100) % 16) as usize;
        let sel = instr % 0x100;
        let vx = self.v[x];
        if sel == 0x07 {
            self.v.set(x, self.delay_timer);
        } else if sel == 0x0A {
            match self.just_released_key {
                Some(k) => self.v.set(x, k),
                None => self.pc = self.pc - 2,
            }
        } else if sel == 0x15 {
            self.delay_timer = vx;
        } else if sel == 0x18 {
            self.sound_timer = vx;
        } else if sel == 0x1E {
            let sum = self.i + vx as usize;
            if sum > 0xFFF {
                self.i = sum - 0x1000;
                self.v.set(FLAG, 1);
            } else {
                self.i = sum;
            }
        } else if sel == 0x29 {
            self.i = FONT_START + 5 * vx as usize;
        } else if sel == 0x33 {
            let i = self.i;
            self.ram.set(i, vx / 100);
            self.ram.set(i + 1, (vx / 10) % 10);
            self.ram.set(i + 2, vx % 10);
        } else if sel == 0x55 {
            let i = self.i;
            let mut off: usize = 0;
            while off <= x
                invariant
                    self.wf(),
                    x < 16,
                    off <= x + 1,
                    i == m.index,
                    i + x < MEMORY_SIZE,
                    self@ == (Machine { ram: self@.ram, ..m }),
                    self@.ram =~= Seq::new(
                        MEMORY_SIZE as nat,
                        |a: int| if i <= a < i + off { m.v[a - i] } else { m.ram[a] },
                    ),
                decreases x + 1 - off,
            {
                let val = self.v[off];
                self.ram.set(i + off, val);
                off = off + 1;
            }
        } else {
            let i = self.i;
            let mut off: usize = 0;
            while off <= x
                invariant
                    self.wf(),
                    x < 16,
                    off <= x + 1,
                    i == m.index,
                    i + x < MEMORY_SIZE,
                    self@ == (Machine { v: self@.v, ..m }),
                    self@.v =~= Seq::new(16, |r: int| if r < off { m.ram[i + r] } else { m.v[r] }),
                decreases x + 1 - off,
            {
                let val = self.ram[i + off];
                self.v.set(off, val);
                off = off + 1;
            }
        }
        assert(self@ =~= exec_misc(m, instr));
    }

    /// Executes `instr`, whose fault check has passed, with the program counter
    /// already past it.
    #[verifier::rlimit(50)]
    fn execute(&mut self, instr: u16, random: u8)
        requires
            old(self).wf(),
            2 <= old(self)@.pc <= MEMORY_SIZE,
            fault(old(self)@, instr) is None,
        ensures
            final(self).wf(),
            final(self)@ == execute(old(self)@, instr, random),
    {
        let ghost m = self@;
        let op = instr / 0x1000;
        let x = ((instr / 0x100) % 16) as usize;
        let y = ((instr / 16) % 16) as usize;
        let nn = (instr % 0x100) as u8;
        let nnn = (instr % 0x1000) as usize;
        if op == 0 {
            if nnn == 0x0E0 {
                let mut k: usize = 0;
                while k < DISPLAY_SIZE
                    invariant
                        self.wf(),
                        k <= DISPLAY_SIZE,
                        self@ == (Machine { vram: self@.vram, ..m }),
                        self@.vram =~= Seq::new(
                            DISPLAY_SIZE as nat,
                            |j: int| if j < k { false } else { m.vram[j] },
                        ),
                    decreases DISPLAY_SIZE - k,
                {
                    self.vram.set(k, false);
                    k = k + 1;
                }
            } else {
                if let Some(addr) = self.stack.pop() {
                    self.pc = addr as usize;
                }
            }
        } else if op == 1 {
            self.pc = nnn;
        } else if op == 2 {
            self.stack.push(self.pc as u16);
            self.pc = nnn;
        } else if op == 3 {
            if self.v[x] == nn {
                self.pc = self.pc + 2;
            }
        } else if op == 4 {
            if self.v[x] != nn {
                self.pc = self.pc + 2;
            }
        } else if op == 5 {
            if self.v[x] == self.v[y] {
                self.pc = self.pc + 2;
            }
        } else if op == 6 {
            self.v.set(x, nn);
        } else if op == 7 {
            let vx = self.v[x];
            self.v.set(x, vx.wrapping_add(nn));
        } else if op == 8 {
            self.exec_alu(instr);
        } else if op == 9 {
            if self.v[x] != self.v[y] {
                self.pc = self.pc + 2;
            }
        } else if op == 0xA {
            self.i = nnn;
        } else if op == 0xB {
            self.pc = nnn + self.v[0] as usize;
        } else if op == 0xC {
            self.v.set(x, random & nn);
        } else if op == 0xD {
            self.draw(x, y, (instr % 16) as usize);
        } else if op == 0xE {
            self.exec_key_skip(instr);
        } else {
            self.exec_misc(instr);
        }
        assert(self@ =~= execute(m, instr, random));
    }

    /// Executes one instruction, with `random` as the byte that the random
    /// instruction draws. Returns whether the display was drawn on, or the
    /// fault that stopped the machine; a fault leaves the machine unchanged.
    pub fn step_with_random(&mut self, random: u8) -> (r: Result<bool, Chip8Error>)
        requires
            old(self).wf(),
        ensures
            final(self).wf(),
            (final(self)@, r) == step_result(old(self)@, random),
    {
        let ghost m = self@;
        if self.pc >= MEMORY_SIZE - 1 {
            return Err(Chip8Error::PcOutOfRange { pc: self.pc });
        }
        let instr = self.fetch();
        if let Some(e) = self.check(instr) {
            return Err(e);
        }
        self.tick();
        self.pc = self.pc + 2;
        self.execute(instr, random);
        self.just_released_key = None;
        assert(self@ =~= step_result(m, random).0);
        Ok(instr / 0x1000 == 0xD)
    }

    /// Executes one instruction, drawing a fresh random byte for the random
    /// instruction. Returns whether the display was drawn on, or the fault
    /// that stopped the machine; a fault leaves the machine unchanged.
    pub fn step(&mut self) -> (r: Result<bool, Chip8Error>)
        requires
            old(self).wf(),
        ensures
            final(self).wf(),
            exists|random: u8| (final(self)@, r) == #[trigger] step_result(old(self)@, random),
    {
        let random = random_byte();
        let r = self.step_with_random(random);
        assert((self@, r) == step_result(old(self)@, random));
        r
    }
}

/// Relies on rand::random::<u8>, which draws a byte from the thread-local
/// generator; nothing is known of its value.
#[verifier::external_body]
fn random_byte() -> (r: u8) {
    rand::random::<u8>()
}

} // verus!
