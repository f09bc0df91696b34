//! Properties of whole instruction steps, proved over the model.

use vstd::prelude::*;
use vstd::arithmetic::div_mod::lemma_fundamental_div_mod_converse;
use crate::model::{
    cell_of, col_offset, collides, count_down, draw, drawn_cell, fault, lemma_cell_offsets,
    lemma_decode, nn_of, row_offset, sprite_pixel, nnn_of, op_of, step_result, tick, word_at, Machine, DISPLAY_SIZE, FLAG,
    MEMORY_SIZE,
};

verus! {

/// Loading `a` into a register and then adding `b` to it leaves the register
/// holding `(a + b) mod 256`, whatever the register held before.
pub proof fn law_load_then_add(m: Machine, x: int, a: u8, b: u8, random1: u8, random2: u8)
    requires
        m.wf(),
        0 <= x < 16,
        m.pc + 3 < MEMORY_SIZE,
        word_at(m.ram, m.pc as int) as int == 0x6000 + x * 0x100 + a as int,
        word_at(m.ram, m.pc + 2) as int == 0x7000 + x * 0x100 + b as int,
    ensures
        ({
            let (m1, r1) = step_result(m, random1);
            let (m2, r2) = step_result(m1, random2);
            &&& r1 == Ok::<bool, crate::Chip8Error>(false)
            &&& r2 == Ok::<bool, crate::Chip8Error>(false)
            &&& m2.v[x] as int == (a as int + b as int) % 256
            &&& m2.pc == m.pc + 4
        }),
{
    lemma_decode(word_at(m.ram, m.pc as int), 6, x, a as int / 16, a as int % 16);
    lemma_decode(word_at(m.ram, m.pc + 2), 7, x, b as int / 16, b as int % 16);
}

/// Clearing the display leaves every cell unset, whatever it showed before.
pub proof fn law_clear_display(m: Machine, random: u8)
    requires
        m.wf(),
        m.pc + 1 < MEMORY_SIZE,
        word_at(m.ram, m.pc as int) == 0x00E0,
    ensures
        ({
            let (m1, r) = step_result(m, random);
            &&& r == Ok::<bool, crate::Chip8Error>(false)
            &&& m1.vram.len() == DISPLAY_SIZE
            &&& forall|k: int| 0 <= k < DISPLAY_SIZE ==> !#[trigger] m1.vram[k]
        }),
{
    lemma_decode(0x00E0, 0, 0, 0xE, 0);
}

/// A call followed by a return at its target resumes at the instruction
/// right after the call, with the call stack as it was.
pub proof fn law_call_then_return(m: Machine, target: int, random1: u8, random2: u8)
    requires
        m.wf(),
        m.pc + 1 < MEMORY_SIZE,
        0 <= target && target + 1 < MEMORY_SIZE,
        word_at(m.ram, m.pc as int) as int == 0x2000 + target,
        word_at(m.ram, target) == 0x00EE,
    ensures
        ({
            let (m1, r1) = step_result(m, random1);
            let (m2, r2) = step_result(m1, random2);
            &&& r1 == Ok::<bool, crate::Chip8Error>(false)
            &&& r2 == Ok::<bool, crate::Chip8Error>(false)
            &&& m1.pc == target
            &&& m2.pc == m.pc + 2
            &&& m2.stack == m.stack
        }),
{
    let w = word_at(m.ram, m.pc as int);
    lemma_fundamental_div_mod_converse(w as int, 0x1000, 2, target);
    assert(op_of(w) == 2 && nnn_of(w) == target);
    lemma_decode(0x00EE, 0, 0, 0xE, 0xE);
    assert(fault(m, w) is None);
    let (m1, r1) = step_result(m, random1);
    assert(m1.pc == target);
    assert(m1.stack == m.stack.push((m.pc + 2) as u16));
    assert(m1.ram == m.ram);
    assert(word_at(m1.ram, m1.pc as int) == 0x00EE);
    assert(fault(m1, 0x00EE) is None);
    assert(m1.stack.drop_last() =~= m.stack);
}

/// Add with carry sets the flag register to 1 exactly when the unsigned sum
/// of the two operands exceeds 255, and to 0 otherwise.
pub proof fn law_add_carry(m: Machine, x: int, y: int, random: u8)
    requires
        m.wf(),
        m.pc + 1 < MEMORY_SIZE,
        0 <= x < 16,
        0 <= y < 16,
        word_at(m.ram, m.pc as int) as int == 0x8004 + x * 0x100 + y * 0x10,
    ensures
        ({
            let (m1, r) = step_result(m, random);
            &&& r == Ok::<bool, crate::Chip8Error>(false)
            &&& m1.v[FLAG as int] == if m.v[x] as int + m.v[y] as int > 255 { 1u8 } else { 0u8 }
            &&& m1.v[FLAG as int] == 0 || m1.v[FLAG as int] == 1
        }),
{
    lemma_decode(word_at(m.ram, m.pc as int), 8, x, y, 4);
}

/// Subtract with borrow sets the flag register to 0 exactly when the minuend
/// is less than the subtrahend, and to 1 otherwise.
pub proof fn law_sub_borrow(m: Machine, x: int, y: int, random: u8)
    requires
        m.wf(),
        m.pc + 1 < MEMORY_SIZE,
        0 <= x < 16,
        0 <= y < 16,
        word_at(m.ram, m.pc as int) as int == 0x8005 + x * 0x100 + y * 0x10,
    ensures
        ({
            let (m1, r) = step_result(m, random);
            &&& r == Ok::<bool, crate::Chip8Error>(false)
            &&& m1.v[FLAG as int] == if m.v[x] < m.v[y] { 0u8 } else { 1u8 }
        }),
{
    lemma_decode(word_at(m.ram, m.pc as int), 8, x, y, 5);
}

/// A nonzero byte has a set bit, counted from the most significant end.
proof fn lemma_nonzero_has_bit(byte: u8) -> (c: int)
    requires
        byte != 0,
    ensures
        0 <= c < 8,
        (byte >> ((7 - c) as u8)) & 1u8 == 1u8,
{
    assert(((byte >> 7u8) & 1u8 == 1u8) || ((byte >> 6u8) & 1u8 == 1u8) || ((byte >> 5u8) & 1u8
        == 1u8) || ((byte >> 4u8) & 1u8 == 1u8) || ((byte >> 3u8) & 1u8 == 1u8) || ((byte >> 2u8)
        & 1u8 == 1u8) || ((byte >> 1u8) & 1u8 == 1u8) || ((byte >> 0u8) & 1u8 == 1u8))
        by (bit_vector)
        requires
            byte != 0,
    ;
    if (byte >> 7u8) & 1u8 == 1u8 {
        0
    } else if (byte >> 6u8) & 1u8 == 1u8 {
        1
    } else if (byte >> 5u8) & 1u8 == 1u8 {
        2
    } else if (byte >> 4u8) & 1u8 == 1u8 {
        3
    } else if (byte >> 3u8) & 1u8 == 1u8 {
        4
    } else if (byte >> 2u8) & 1u8 == 1u8 {
        5
    } else if (byte >> 1u8) & 1u8 == 1u8 {
        6
    } else {
        7
    }
}

/// Drawing the same sprite twice at the same place on a clear display leaves
/// the display clear again, and the second draw reports a collision whenever
/// the sprite has a set pixel. (The coordinate registers must not be the
/// flag register, which the first draw overwrites.)
pub proof fn law_draw_twice(m: Machine, x: int, y: int, n: int, random1: u8, random2: u8)
    requires
        m.wf(),
        m.pc + 3 < MEMORY_SIZE,
        0 <= x < 16 && x != FLAG,
        0 <= y < 16 && y != FLAG,
        0 <= n < 16,
        m.index + n <= MEMORY_SIZE,
        word_at(m.ram, m.pc as int) as int == 0xD000 + x * 0x100 + y * 0x10 + n,
        word_at(m.ram, m.pc + 2) as int == 0xD000 + x * 0x100 + y * 0x10 + n,
        forall|k: int| 0 <= k < DISPLAY_SIZE ==> !#[trigger] m.vram[k],
    ensures
        ({
            let (m1, r1) = step_result(m, random1);
            let (m2, r2) = step_result(m1, random2);
            &&& r1 == Ok::<bool, crate::Chip8Error>(true)
            &&& r2 == Ok::<bool, crate::Chip8Error>(true)
            &&& m2.vram == m.vram
            &&& (exists|r: int| 0 <= r < n && #[trigger] m.ram[m.index + r] != 0) ==> m2.v[FLAG as int]
                == 1
        }),
{
    let w = word_at(m.ram, m.pc as int);
    lemma_decode(w, 0xD, x, y, n);
    let (m1, r1) = step_result(m, random1);
    let (m2, r2) = step_result(m1, random2);
    let x0 = m.v[x] as int % 64;
    let y0 = m.v[y] as int % 32;
    let t1 = Machine { pc: (tick(m).pc + 2) as usize, ..tick(m) };
    assert(m1 == Machine { released: None, ..draw(t1, x, y, n) });
    assert(m1.v[x] == m.v[x] && m1.v[y] == m.v[y]);
    assert(word_at(m1.ram, m1.pc as int) == w);
    let t2 = Machine { pc: (tick(m1).pc + 2) as usize, ..tick(m1) };
    assert(m2 == Machine { released: None, ..draw(t2, x, y, n) });
    assert forall|k: int| 0 <= k < DISPLAY_SIZE implies m2.vram[k] == m.vram[k] by {
        assert(m1.vram[k] == drawn_cell(t1, x0, y0, n, k));
        assert(m2.vram[k] == drawn_cell(t2, x0, y0, n, k));
        let r = row_offset(y0, k);
        let c = col_offset(x0, k);
        assert(sprite_pixel(t1, r, c) == sprite_pixel(t2, r, c));
    }
    assert(m2.vram =~= m.vram);
    if exists|r: int| 0 <= r < n && #[trigger] m.ram[m.index + r] != 0 {
        let r = choose|r: int| 0 <= r < n && #[trigger] m.ram[m.index + r] != 0;
        let c = lemma_nonzero_has_bit(m.ram[m.index + r]);
        lemma_cell_offsets(x0, y0, r, c);
        let k = cell_of(x0, y0, r, c);
        assert(sprite_pixel(t1, r, c));
        assert(m1.vram[k] == drawn_cell(t1, x0, y0, n, k));
        assert(m1.vram[k]);
        assert(sprite_pixel(t2, r, c));
        assert(collides(t2, x0, y0, n));
    }
}

/// The wait-for-release instruction holds the program counter where it is
/// until a key release has been latched; then it stores that key in `v[x]`
/// and moves on. Either way the latch is clear afterwards.
pub proof fn law_wait_for_release(m: Machine, x: int, random: u8)
    requires
        m.wf(),
        m.pc + 1 < MEMORY_SIZE,
        0 <= x < 16,
        word_at(m.ram, m.pc as int) as int == 0xF00A + x * 0x100,
    ensures
        ({
            let (m1, r) = step_result(m, random);
            &&& r == Ok::<bool, crate::Chip8Error>(false)
            &&& m1.wf()
            &&& m1.released is None
            &&& m1.ram == m.ram
            &&& (m.released is None ==> m1.pc == m.pc && m1.v == m.v)
            &&& (m.released matches Some(k) ==> m1.pc == m.pc + 2 && m1.v[x] == k)
        }),
{
    lemma_decode(word_at(m.ram, m.pc as int), 0xF, x, 0, 0xA);
}

/// `j` rounds of timer bookkeeping.
pub open spec fn ticks(m: Machine, j: nat) -> Machine
    decreases j,
{
    if j == 0 {
        m
    } else {
        tick(ticks(m, (j - 1) as nat))
    }
}

/// From a fresh count, the first `speed / 60` steps leave both timers alone
/// and the next one counts each down by one and restarts the count: timers
/// never move more than once per `speed / 60 + 1` steps.
pub proof fn law_timer_cadence(m: Machine, j: nat)
    requires
        m.wf(),
        m.cycles == 0,
        j <= m.speed / 60,
    ensures
        ticks(m, j).cycles == j,
        ticks(m, j).delay_timer == m.delay_timer,
        ticks(m, j).sound_timer == m.sound_timer,
        ticks(m, j).speed == m.speed,
        j == m.speed / 60 ==> ticks(m, j + 1).delay_timer == count_down(m.delay_timer)
            && ticks(m, j + 1).sound_timer == count_down(m.sound_timer) && ticks(m, j + 1).cycles
            == 0,
        j < m.speed / 60 ==> ticks(m, j + 1).delay_timer == m.delay_timer,
    decreases j,
{
    if j > 0 {
        law_timer_cadence(m, (j - 1) as nat);
    }
    assert(ticks(m, j + 1) == tick(ticks(m, j)));
}

/// Every successful step does exactly one round of timer bookkeeping: the
/// step counter and, unless the instruction writes the delay timer, that
/// timer end as one round of `tick` leaves them.
pub proof fn law_step_ticks_once(m: Machine, random: u8)
    requires
        m.wf(),
        step_result(m, random).1 is Ok,
        !(op_of(word_at(m.ram, m.pc as int)) == 0xF && nn_of(word_at(m.ram, m.pc as int)) == 0x15),
    ensures
        step_result(m, random).0.cycles == tick(m).cycles,
        step_result(m, random).0.speed == m.speed,
        step_result(m, random).0.delay_timer == tick(m).delay_timer,
{
}

} // verus!
