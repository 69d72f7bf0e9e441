//! Properties of the machine that span several instructions or cycles,
//! proved over the model in `machine`.
use vstd::prelude::*;
use crate::machine::{
    blank_screen, count_down, first_pressed, group, nibble_n, nibble_x, nibble_y, wrap16, Machine,
};

verus! {

/// Whether `op` is one of the six conditional-skip instructions.
pub open spec fn is_skip(op: u16) -> bool {
    let g = group(op);
    let y = nibble_y(op);
    let n = nibble_n(op);
    ||| g == 0x3
    ||| g == 0x4
    ||| (g == 0x5 && n == 0x0)
    ||| (g == 0x9 && n == 0x0)
    ||| (g == 0xE && y == 0x9 && n == 0xE)
    ||| (g == 0xE && y == 0xA && n == 0x1)
}

/// The condition under which the conditional-skip instruction `op` skips.
pub open spec fn skip_condition(m: Machine, op: u16) -> bool {
    let g = group(op);
    let vx = m.v[nibble_x(op)];
    let vy = m.v[nibble_y(op)];
    let kk = op as int % 0x100;
    let key_down = vx < 16 && m.keypad[vx as int];
    if g == 0x3 {
        vx == kk
    } else if g == 0x4 {
        vx != kk
    } else if g == 0x5 {
        vx == vy
    } else if g == 0x9 {
        vx != vy
    } else if nibble_y(op) == 0x9 {
        key_down
    } else {
        !key_down
    }
}

/// Whether `op` loads the delay or the sound timer from a register.
pub open spec fn writes_timers(op: u16) -> bool {
    group(op) == 0xF && nibble_y(op) == 0x1 && (nibble_n(op) == 0x5 || nibble_n(op) == 0x8)
}

/// A conditional skip advances the program counter by exactly four bytes
/// when its condition holds and by exactly two otherwise, counted from the
/// program counter at the start of the instruction, and changes nothing else.
pub proof fn skip_advance(m: Machine, op: u16, rnd: u8)
    requires
        m.wf(),
        is_skip(op),
    ensures
        m.execute(op, rnd).pc == wrap16(m.pc + if skip_condition(m, op) { 4int } else { 2int }),
        m.execute(op, rnd) == (Machine { pc: m.execute(op, rnd).pc, ..m }),
{
}

proof fn lemma_xor_twice(a: u8, b: u8)
    ensures
        (a ^ b) ^ b == a,
{
    assert((a ^ b) ^ b == a) by (bit_vector);
}

/// Drawing the same sprite at the same place twice in a row restores every
/// cell of the framebuffer, and the second draw's collision flag reports
/// only whether the sprite overlaps lit cells of the intermediate picture.
/// The coordinates stay the same only when neither is read from VF, which
/// the first draw overwrites.
pub proof fn draw_twice_restores(m: Machine, op: u16, rnd1: u8, rnd2: u8)
    requires
        m.wf(),
        group(op) == 0xD,
        nibble_x(op) != 0xF,
        nibble_y(op) != 0xF,
    ensures
        ({
            let first = m.execute(op, rnd1);
            let second = first.execute(op, rnd2);
            let vx = m.v[nibble_x(op)];
            let vy = m.v[nibble_y(op)];
            &&& second.vram == m.vram
            &&& second.v[15] == if first.collides(vx, vy, nibble_n(op)) { 1u8 } else { 0u8 }
        }),
{
    let first = m.execute(op, rnd1);
    let second = first.execute(op, rnd2);
    let vx = m.v[nibble_x(op)];
    let vy = m.v[nibble_y(op)];
    let n = nibble_n(op);
    assert(first.v[nibble_x(op)] == vx && first.v[nibble_y(op)] == vy);
    assert forall|r: int| 0 <= r < 32 implies #[trigger] second.vram[r] =~= m.vram[r] by {
        assert forall|c: int| 0 <= c < 64 implies second.vram[r][c] == m.vram[r][c] by {
            assert(first.sprite_pixel(vx, vy, n, r, c) == m.sprite_pixel(vx, vy, n, r, c));
            lemma_xor_twice(m.vram[r][c], m.sprite_pixel(vx, vy, n, r, c));
        }
    }
    assert(second.vram =~= m.vram);
}

proof fn lemma_zero_xor(a: u8)
    ensures
        0u8 ^ a == a,
{
    assert(0u8 ^ a == a) by (bit_vector);
}

proof fn lemma_full_row_bit(b: u8)
    requires
        b < 8,
    ensures
        (0xFFu8 >> ((7 - b) as u8)) & 1u8 == 1,
{
    assert(b < 8 ==> (0xFFu8 >> ((7 - b) as u8)) & 1u8 == 1) by (bit_vector);
}

/// On a blank screen, a one-row sprite of eight lit pixels drawn with its
/// left edge four columns before the right border lights the last four
/// columns of its row and, wrapping, the first four, and nothing else; no
/// pixel is erased.
pub proof fn draw_wraps_horizontally(m: Machine, op: u16, rnd: u8)
    requires
        m.wf(),
        group(op) == 0xD,
        nibble_n(op) == 1,
        m.v[nibble_x(op)] == 64 - 4,
        m.ram[m.i as int % 4096] == 0xFF,
        m.vram == blank_screen(),
    ensures
        ({
            let after = m.execute(op, rnd);
            let row = m.v[nibble_y(op)] as int % 32;
            &&& forall|c: int| 0 <= c < 64 ==> #[trigger] after.vram[row][c] == if 4 <= c < 60 {
                0u8
            } else {
                1u8
            }
            &&& forall|r: int, c: int| 0 <= r < 32 && r != row && 0 <= c < 64 ==> #[trigger] after.vram[r][c] == 0
            &&& after.v[15] == 0
        }),
{
    let vx = m.v[nibble_x(op)];
    let vy = m.v[nibble_y(op)];
    let row = vy as int % 32;
    assert forall|r: int, c: int| 0 <= r < 32 && 0 <= c < 64 implies #[trigger] m.sprite_pixel(vx, vy, 1, r, c)
        == if r == row && !(4 <= c < 60) { 1u8 } else { 0u8 } by {
        if r == row && !(4 <= c < 60) {
            let bit = (c - vx) % 64;
            assert(0 <= bit < 8);
            lemma_full_row_bit(bit as u8);
        }
    }
    assert(!m.collides(vx, vy, 1));
    let after = m.execute(op, rnd);
    assert(after.vram == m.drawn(vx, vy, 1));
    assert forall|r: int, c: int| 0 <= r < 32 && 0 <= c < 64 implies #[trigger] after.vram[r][c]
        == m.sprite_pixel(vx, vy, 1, r, c) by {
        assert(m.vram[r][c] == 0);
        lemma_zero_xor(m.sprite_pixel(vx, vy, 1, r, c));
    }
}

/// `first_pressed` finds a pressed key with no pressed key below it, and
/// finds none only when no key from `from` on is pressed.
pub proof fn lemma_first_pressed(keys: Seq<bool>, from: int)
    requires
        0 <= from,
    ensures
        first_pressed(keys, from) matches Some(k) ==> from <= k < keys.len() && keys[k] && forall|
            j: int,
        |
            from <= j < k ==> !#[trigger] keys[j],
        first_pressed(keys, from) is None ==> forall|j: int| from <= j < keys.len() ==> !#[trigger] keys[j],
    decreases keys.len() - from,
{
    if from < keys.len() && !keys[from] {
        lemma_first_pressed(keys, from + 1);
    }
}

/// The wait-for-key instruction enters the wait mode for its register and
/// leaves the registers as they were.
pub proof fn wait_instruction(m: Machine, op: u16, rnd: u8)
    requires
        m.wf(),
        group(op) == 0xF,
        nibble_y(op) == 0x0,
        nibble_n(op) == 0xA,
    ensures
        m.execute(op, rnd).keypad_waiting,
        m.execute(op, rnd).keypad_register == nibble_x(op),
        m.execute(op, rnd).v == m.v,
{
}

/// A cycle of a waiting machine fetches nothing, runs nothing and leaves the
/// timers alone. With no key pressed the machine keeps waiting and its
/// registers stay as they were; with a key pressed the wait ends and the
/// lowest pressed key's index goes to the target register.
pub proof fn waiting_cycle(m: Machine, keys: Seq<bool>, rnd: u8)
    requires
        m.wf(),
        m.keypad_waiting,
        keys.len() == 16,
    ensures
        m.cycle(keys, rnd) is Ok,
        ({
            let after = m.cycle(keys, rnd)->Ok_0;
            &&& after.pc == m.pc
            &&& after.delay_timer == m.delay_timer
            &&& after.sound_timer == m.sound_timer
            &&& after.ram == m.ram
            &&& after.vram == m.vram
            &&& (forall|k: int| 0 <= k < 16 ==> !#[trigger] keys[k]) ==> after.keypad_waiting
                && after.v == m.v
            &&& forall|k: int|
                0 <= k < 16 && keys[k] && (forall|j: int| 0 <= j < k ==> !#[trigger] keys[j])
                    ==> !after.keypad_waiting && after.v == m.v.update(m.keypad_register, k as u8)
        }),
{
    lemma_first_pressed(keys, 0);
    let after = m.cycle(keys, rnd)->Ok_0;
    assert forall|k: int|
        0 <= k < 16 && keys[k] && (forall|j: int| 0 <= j < k ==> !#[trigger] keys[j])
            implies !after.keypad_waiting && after.v == m.v.update(m.keypad_register, k as u8) by {
        let f = first_pressed(keys, 0)->Some_0;
        assert(keys[k]);
        assert(first_pressed(keys, 0) is Some);
        if f < k {
            assert(!keys[f]);
        }
        if k < f {
            assert(!keys[k]);
        }
    }
}

/// A cycle that runs an instruction other than the two timer loads counts
/// each timer down by exactly one, or leaves it at zero.
pub proof fn timers_count_down(m: Machine, keys: Seq<bool>, rnd: u8)
    requires
        m.wf(),
        !m.keypad_waiting,
        m.cycle(keys, rnd) is Ok,
        !writes_timers(m.fetch()),
    ensures
        m.cycle(keys, rnd)->Ok_0.delay_timer == count_down(m.delay_timer),
        m.cycle(keys, rnd)->Ok_0.sound_timer == count_down(m.sound_timer),
        m.delay_timer > 0 ==> m.cycle(keys, rnd)->Ok_0.delay_timer == m.delay_timer - 1,
        m.sound_timer > 0 ==> m.cycle(keys, rnd)->Ok_0.sound_timer == m.sound_timer - 1,
{
}

} // verus!
