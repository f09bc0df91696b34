//! The mathematical model of the machine and of one instruction step.

use vstd::prelude::*;
use crate::error::Chip8Error;
use vstd::arithmetic::div_mod::lemma_fundamental_div_mod_converse;

verus! {

/// Bytes of addressable memory.
pub const MEMORY_SIZE: usize = 4096;

/// Cells of the display, 64 wide and 32 tall, stored row by row.
pub const DISPLAY_SIZE: usize = 2048;

/// Address of the first byte of the digit glyphs.
pub const FONT_START: usize = 0x50;

/// Address at which programs are loaded and execution begins.
pub const PROGRAM_START: usize = 0x200;

/// The longest program that fits between `PROGRAM_START` and the end of memory.
pub const MAX_PROGRAM_LEN: usize = 0xE00;

/// The register that receives carry, borrow, shifted-out bit and collision.
pub const FLAG: usize = 0xF;

/// The glyphs of the hexadecimal digits 0 to F, five rows of one byte each.
pub open spec fn font() -> Seq<u8> {
    seq![
        0xF0u8, 0x90, 0x90, 0x90, 0xF0, 0x20, 0x60, 0x20, 0x20, 0x70,
        0xF0, 0x10, 0xF0, 0x80, 0xF0, 0xF0, 0x10, 0xF0, 0x10, 0xF0,
        0x90, 0x90, 0xF0, 0x10, 0x10, 0xF0, 0x80, 0xF0, 0x10, 0xF0,
        0xF0, 0x80, 0xF0, 0x90, 0xF0, 0xF0, 0x10, 0x20, 0x40, 0x40,
        0xF0, 0x90, 0xF0, 0x90, 0xF0, 0xF0, 0x90, 0xF0, 0x10, 0xF0,
        0xF0, 0x90, 0xF0, 0x90, 0x90, 0xE0, 0x90, 0xE0, 0x90, 0xE0,
        0xF0, 0x80, 0x80, 0x80, 0xF0, 0xE0, 0x90, 0x90, 0x90, 0xE0,
        0xF0, 0x80, 0xF0, 0x80, 0xF0, 0xF0, 0x80, 0xF0, 0x80, 0x80,
    ]
}

/// The abstract state of a machine.
#[verifier::ext_equal]
pub struct Machine {
    pub ram: Seq<u8>,
    pub vram: Seq<bool>,
    pub stack: Seq<u16>,
    pub keys: Seq<bool>,
    pub released: Option<u8>,
    pub speed: u32,
    pub cycles: u32,
    pub pc: usize,
    pub index: usize,
    pub delay_timer: u8,
    pub sound_timer: u8,
    pub v: Seq<u8>,
}

impl Machine {
    /// The shape every reachable state has.
    pub open spec fn wf(self) -> bool {
        &&& self.ram.len() == MEMORY_SIZE
        &&& self.vram.len() == DISPLAY_SIZE
        &&& self.keys.len() == 16
        &&& self.v.len() == 16
        &&& self.index < MEMORY_SIZE
        &&& self.cycles <= self.speed / 60
        &&& (self.released matches Some(k) ==> k < 16)
    }
}

/// Memory right after loading `bin`: glyphs, then the program, zero elsewhere.
pub open spec fn initial_memory(bin: Seq<u8>) -> Seq<u8> {
    Seq::new(
        MEMORY_SIZE as nat,
        |a: int|
            if FONT_START <= a < FONT_START + 80 {
                font()[a - FONT_START]
            } else if PROGRAM_START <= a < PROGRAM_START + bin.len() {
                bin[a - PROGRAM_START]
            } else {
                0u8
            },
    )
}

/// A freshly loaded machine.
pub open spec fn initial(bin: Seq<u8>, speed: u32) -> Machine {
    Machine {
        ram: initial_memory(bin),
        vram: Seq::new(DISPLAY_SIZE as nat, |k: int| false),
        stack: Seq::empty(),
        keys: Seq::new(16, |k: int| false),
        released: None,
        speed,
        cycles: 0,
        pc: PROGRAM_START,
        index: 0,
        delay_timer: 0,
        sound_timer: 0,
        v: Seq::new(16, |r: int| 0u8),
    }
}

/// The big-endian instruction word stored at `addr` and `addr + 1`.
pub open spec fn word_at(ram: Seq<u8>, addr: int) -> u16 {
    (ram[addr] as int * 256 + ram[addr + 1] as int) as u16
}

/// Bits 12 to 15 of an instruction word.
pub open spec fn op_of(w: u16) -> int {
    w as int / 0x1000
}

/// Bits 8 to 11 of an instruction word.
pub open spec fn x_of(w: u16) -> int {
    (w as int / 0x100) % 16
}

/// Bits 4 to 7 of an instruction word.
pub open spec fn y_of(w: u16) -> int {
    (w as int / 16) % 16
}

/// Bits 0 to 3 of an instruction word.
pub open spec fn n_of(w: u16) -> int {
    w as int % 16
}

/// Bits 0 to 7 of an instruction word.
pub open spec fn nn_of(w: u16) -> int {
    w as int % 0x100
}

/// Bits 0 to 11 of an instruction word.
pub open spec fn nnn_of(w: u16) -> int {
    w as int % 0x1000
}

/// The fault that executing `w` in state `m` raises, if any.
pub open spec fn fault(m: Machine, w: u16) -> Option<Chip8Error> {
    let op = op_of(w);
    let x = x_of(w);
    let nn = nn_of(w);
    let unimplemented = Some(Chip8Error::UnimplementedOpcode { instr: w, pc: m.pc });
    let out_of_memory = Some(Chip8Error::MemoryOutOfRange { instr: w, pc: m.pc });
    if op == 0 {
        if nnn_of(w) == 0x0E0 {
            None
        } else if nnn_of(w) == 0x0EE {
            if m.stack.len() == 0 {
                Some(Chip8Error::StackUnderflow { instr: w, pc: m.pc })
            } else {
                None
            }
        } else {
            unimplemented
        }
    } else if op == 8 {
        if n_of(w) <= 7 || n_of(w) == 0xE {
            None
        } else {
            unimplemented
        }
    } else if op == 0xD {
        if m.index + n_of(w) <= MEMORY_SIZE {
            None
        } else {
            out_of_memory
        }
    } else if op == 0xE {
        if nn == 0x9E || nn == 0xA1 {
            if m.v[x] < 16 {
                None
            } else {
                Some(Chip8Error::KeyOutOfRange { instr: w, pc: m.pc })
            }
        } else {
            unimplemented
        }
    } else if op == 0xF {
        if nn == 0x07 || nn == 0x0A || nn == 0x15 || nn == 0x18 || nn == 0x1E || nn == 0x29 {
            None
        } else if nn == 0x33 {
            if m.index + 2 < MEMORY_SIZE {
                None
            } else {
                out_of_memory
            }
        } else if nn == 0x55 || nn == 0x65 {
            if m.index + x < MEMORY_SIZE {
                None
            } else {
                out_of_memory
            }
        } else {
            unimplemented
        }
    } else {
        None
    }
}

/// A timer counts down by one and stops at zero.
pub open spec fn count_down(t: u8) -> u8 {
    if t > 0 {
        (t - 1) as u8
    } else {
        0
    }
}

/// The timer bookkeeping that opens every step: once more than `speed / 60`
/// steps have been counted, the counter restarts and both timers count down.
pub open spec fn tick(m: Machine) -> Machine {
    if m.cycles + 1 > m.speed / 60 {
        Machine {
            cycles: 0,
            delay_timer: count_down(m.delay_timer),
            sound_timer: count_down(m.sound_timer),
            ..m
        }
    } else {
        Machine { cycles: (m.cycles + 1) as u32, ..m }
    }
}

/// Advance past the next instruction when `cond` holds.
pub open spec fn skip_if(m: Machine, cond: bool) -> Machine {
    if cond {
        Machine { pc: (m.pc + 2) as usize, ..m }
    } else {
        m
    }
}

/// Register `r` takes `val`.
pub open spec fn set_reg(m: Machine, r: int, val: u8) -> Machine {
    Machine { v: m.v.update(r, val), ..m }
}

/// Register `r` takes `val`, then the flag register takes `flag`.
pub open spec fn set_flagged(m: Machine, r: int, val: int, flag: int) -> Machine {
    Machine { v: m.v.update(r, val as u8).update(FLAG as int, flag as u8), ..m }
}

/// The register-to-register group, selected by the low nibble.
pub open spec fn exec_alu(m: Machine, w: u16) -> Machine {
    let x = x_of(w);
    let vx = m.v[x] as int;
    let vy = m.v[y_of(w)] as int;
    let sel = n_of(w);
    if sel == 0 {
        set_reg(m, x, vy as u8)
    } else if sel == 1 {
        set_reg(m, x, m.v[x] | m.v[y_of(w)])
    } else if sel == 2 {
        set_reg(m, x, m.v[x] & m.v[y_of(w)])
    } else if sel == 3 {
        set_reg(m, x, m.v[x] ^ m.v[y_of(w)])
    } else if sel == 4 {
        set_flagged(m, x, (vx + vy) % 256, if vx + vy > 255 { 1 } else { 0 })
    } else if sel == 5 {
        set_flagged(m, x, (vx - vy + 256) % 256, if vx >= vy { 1 } else { 0 })
    } else if sel == 6 {
        set_flagged(m, x, vy / 2, vy % 2)
    } else if sel == 7 {
        set_flagged(m, x, (vy - vx + 256) % 256, if vy >= vx { 1 } else { 0 })
    } else {
        set_flagged(m, x, (vy * 2) % 256, vy / 128)
    }
}

/// Column `c` of sprite row `r`, read from memory at `index + r`, most
/// significant bit leftmost.
pub open spec fn sprite_pixel(m: Machine, r: int, c: int) -> bool {
    (m.ram[m.index + r] >> ((7 - c) as u8)) & 1u8 == 1u8
}

/// The display cell that sprite row `r`, column `c` lands on when the sprite's
/// corner is at (`x0`, `y0`), wrapping at the edges.
pub open spec fn cell_of(x0: int, y0: int, r: int, c: int) -> int {
    ((y0 + r) % 32) * 64 + (x0 + c) % 64
}

/// How many rows below `y0` cell `k` lies, counting with wraparound.
pub open spec fn row_offset(y0: int, k: int) -> int {
    (k / 64 - y0 + 32) % 32
}

/// How many columns right of `x0` cell `k` lies, counting with wraparound.
pub open spec fn col_offset(x0: int, k: int) -> int {
    (k % 64 - x0 + 64) % 64
}

/// Cell `k` after XOR-ing an `n`-row sprite at (`x0`, `y0`) onto the display.
pub open spec fn drawn_cell(m: Machine, x0: int, y0: int, n: int, k: int) -> bool {
    let r = row_offset(y0, k);
    let c = col_offset(x0, k);
    if r < n && c < 8 {
        m.vram[k] != sprite_pixel(m, r, c)
    } else {
        m.vram[k]
    }
}

/// Some set sprite pixel lands on a set cell, which the XOR then clears.
pub open spec fn collides(m: Machine, x0: int, y0: int, n: int) -> bool {
    exists|r: int, c: int|
        0 <= r < n && 0 <= c < 8 && #[trigger] sprite_pixel(m, r, c) && m.vram[cell_of(x0, y0, r, c)]
}

/// The sprite-draw instruction.
pub open spec fn draw(m: Machine, x: int, y: int, n: int) -> Machine {
    let x0 = m.v[x] as int % 64;
    let y0 = m.v[y] as int % 32;
    Machine {
        vram: Seq::new(DISPLAY_SIZE as nat, |k: int| drawn_cell(m, x0, y0, n, k)),
        v: m.v.update(FLAG as int, if collides(m, x0, y0, n) { 1u8 } else { 0u8 }),
        ..m
    }
}

/// The key-skip group.
pub open spec fn exec_key_skip(m: Machine, w: u16) -> Machine {
    let pressed = m.keys[m.v[x_of(w)] as int];
    if nn_of(w) == 0x9E {
        skip_if(m, pressed)
    } else {
        skip_if(m, !pressed)
    }
}

/// The timer, index and memory group, selected by the low byte.
pub open spec fn exec_misc(m: Machine, w: u16) -> Machine {
    let x = x_of(w);
    let vx = m.v[x];
    let sel = nn_of(w);
    if sel == 0x07 {
        set_reg(m, x, m.delay_timer)
    } else if sel == 0x0A {
        match m.released {
            Some(k) => set_reg(m, x, k),
            None => Machine { pc: (m.pc - 2) as usize, ..m },
        }
    } else if sel == 0x15 {
        Machine { delay_timer: vx, ..m }
    } else if sel == 0x18 {
        Machine { sound_timer: vx, ..m }
    } else if sel == 0x1E {
        if m.index + vx > 0xFFF {
            Machine {
                index: (m.index + vx - 0x1000) as usize,
                v: m.v.update(FLAG as int, 1u8),
                ..m
            }
        } else {
            Machine { index: (m.index + vx) as usize, ..m }
        }
    } else if sel == 0x29 {
        Machine { index: (FONT_START + 5 * vx) as usize, ..m }
    } else if sel == 0x33 {
        Machine {
            ram: m.ram.update(m.index as int, vx / 100).update(m.index + 1, (vx / 10) % 10).update(
                m.index + 2,
                vx % 10,
            ),
            ..m
        }
    } else if sel == 0x55 {
        Machine {
            ram: Seq::new(
                MEMORY_SIZE as nat,
                |a: int| if m.index <= a <= m.index + x { m.v[a - m.index] } else { m.ram[a] },
            ),
            ..m
        }
    } else {
        Machine { v: Seq::new(16, |r: int| if r <= x { m.ram[m.index + r] } else { m.v[r] }), ..m }
    }
}

/// What instruction `w` does to `m`, whose program counter already points
/// past `w`; `random` is the byte that the random instruction draws.
pub open spec fn execute(m: Machine, w: u16, random: u8) -> Machine {
    let op = op_of(w);
    let x = x_of(w);
    let y = y_of(w);
    let nn = nn_of(w);
    let nnn = nnn_of(w);
    if op == 0 {
        if nnn == 0x0E0 {
            Machine { vram: Seq::new(DISPLAY_SIZE as nat, |k: int| false), ..m }
        } else {
            Machine { pc: m.stack.last() as usize, stack: m.stack.drop_last(), ..m }
        }
    } else if op == 1 {
        Machine { pc: nnn as usize, ..m }
    } else if op == 2 {
        Machine { stack: m.stack.push(m.pc as u16), pc: nnn as usize, ..m }
    } else if op == 3 {
        skip_if(m, m.v[x] == nn)
    } else if op == 4 {
        skip_if(m, m.v[x] != nn)
    } else if op == 5 {
        skip_if(m, m.v[x] == m.v[y])
    } else if op == 6 {
        set_reg(m, x, nn as u8)
    } else if op == 7 {
        set_reg(m, x, ((m.v[x] + nn) % 256) as u8)
    } else if op == 8 {
        exec_alu(m, w)
    } else if op == 9 {
        skip_if(m, m.v[x] != m.v[y])
    } else if op == 0xA {
        Machine { index: nnn as usize, ..m }
    } else if op == 0xB {
        Machine { pc: (nnn + m.v[0]) as usize, ..m }
    } else if op == 0xC {
        set_reg(m, x, random & (nn as u8))
    } else if op == 0xD {
        draw(m, x, y, n_of(w))
    } else if op == 0xE {
        exec_key_skip(m, w)
    } else {
        exec_misc(m, w)
    }
}

/// One full step from `m`: fetch, fault check, timer bookkeeping, execution,
/// and clearing of the released-key latch. A fault leaves the state as it was.
/// On success the result says whether the display was drawn on.
pub open spec fn step_result(m: Machine, random: u8) -> (Machine, Result<bool, Chip8Error>) {
    if m.pc + 1 >= MEMORY_SIZE {
        (m, Err(Chip8Error::PcOutOfRange { pc: m.pc }))
    } else {
        let w = word_at(m.ram, m.pc as int);
        match fault(m, w) {
            Some(e) => (m, Err(e)),
            None => {
                let t = tick(m);
                let e = execute(Machine { pc: (t.pc + 2) as usize, ..t }, w, random);
                (Machine { released: None, ..e }, Ok(op_of(w) == 0xD))
            },
        }
    }
}

/// The display cell of sprite row `r`, column `c` lies `r` rows below and `c`
/// columns right of the sprite's corner.
pub proof fn lemma_cell_offsets(x0: int, y0: int, r: int, c: int)
    requires
        0 <= x0 < 64,
        0 <= y0 < 32,
        0 <= r < 32,
        0 <= c < 64,
    ensures
        0 <= cell_of(x0, y0, r, c) < DISPLAY_SIZE,
        row_offset(y0, cell_of(x0, y0, r, c)) == r,
        col_offset(x0, cell_of(x0, y0, r, c)) == c,
{
    let row = (y0 + r) % 32;
    let col = (x0 + c) % 64;
    let k = cell_of(x0, y0, r, c);
    assert(row == if y0 + r < 32 { y0 + r } else { y0 + r - 32 });
    assert(col == if x0 + c < 64 { x0 + c } else { x0 + c - 64 });
    lemma_fundamental_div_mod_converse(k, 64, row, col);
    assert(k / 64 == row && k % 64 == col);
}

/// Every display cell is the cell of the sprite position given by its offsets.
pub proof fn lemma_cell_of_offsets(x0: int, y0: int, k: int)
    requires
        0 <= x0 < 64,
        0 <= y0 < 32,
        0 <= k < DISPLAY_SIZE,
    ensures
        0 <= row_offset(y0, k) < 32,
        0 <= col_offset(x0, k) < 64,
        cell_of(x0, y0, row_offset(y0, k), col_offset(x0, k)) == k,
{
    let row = k / 64;
    let col = k % 64;
    vstd::arithmetic::div_mod::lemma_fundamental_div_mod(k, 64);
    assert(0 <= row < 32) by (nonlinear_arith)
        requires
            0 <= k < 2048,
            row == k / 64,
    ;
    let r = row_offset(y0, k);
    let c = col_offset(x0, k);
    assert(r == if row >= y0 { row - y0 } else { row - y0 + 32 });
    assert(c == if col >= x0 { col - x0 } else { col - x0 + 64 });
    assert((y0 + r) % 32 == row);
    assert((x0 + c) % 64 == col);
}

/// The fields of an instruction word assembled from four nibbles.
pub proof fn lemma_decode(w: u16, op: int, x: int, y: int, n: int)
    requires
        0 <= op < 16,
        0 <= x < 16,
        0 <= y < 16,
        0 <= n < 16,
        w as int == op * 0x1000 + x * 0x100 + y * 0x10 + n,
    ensures
        op_of(w) == op,
        x_of(w) == x,
        y_of(w) == y,
        n_of(w) == n,
        nn_of(w) == y * 0x10 + n,
        nnn_of(w) == x * 0x100 + y * 0x10 + n,
{
    let wi = w as int;
    lemma_fundamental_div_mod_converse(wi, 0x1000, op, x * 0x100 + y * 0x10 + n);
    lemma_fundamental_div_mod_converse(wi, 0x100, op * 16 + x, y * 0x10 + n);
    lemma_fundamental_div_mod_converse(op * 16 + x, 16, op, x);
    lemma_fundamental_div_mod_converse(wi, 16, op * 0x100 + x * 16 + y, n);
    lemma_fundamental_div_mod_converse(op * 0x100 + x * 16 + y, 16, op * 16 + x, y);
}

} // verus!
