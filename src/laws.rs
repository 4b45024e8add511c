//! Properties of the instruction engine that relate several steps or hold
//! for every input, stated over the step semantics that the engine meets.

use vstd::prelude::*;

use crate::chip8::{
    cell_dx, cell_dy, collides, first_pressed, sprite_bit, sprite_covers, step, well_formed,
    Fault, MachineState, MEMORY_SIZE, SCREEN_CELLS,
};
use crate::instruction::{decode_spec, word_of};

verus! {

/// Loading the byte `b` into Vx and then copying Vx into Vy leaves `b` in Vy.
pub proof fn load_then_copy(s: MachineState, x: u8, y: u8, b: u8, r1: u8, r2: u8)
    requires
        well_formed(s),
        x < 16,
        y < 16,
        s.pc + 3 < MEMORY_SIZE,
        s.memory[s.pc as int] == 0x60 + x,
        s.memory[s.pc + 1] == b,
        s.memory[s.pc + 2] == 0x80 + y,
        s.memory[s.pc + 3] == x * 16,
    ensures
        step(s, r1) is Ok,
        step(step(s, r1)->Ok_0, r2) is Ok,
        (step(step(s, r1)->Ok_0, r2)->Ok_0).v[y as int] == b,
{
}

/// Adding Vy to Vx (x other than the flag register) stores the sum modulo
/// 256 in Vx and sets the flag to 1 exactly when the sum exceeds 255.
pub proof fn add_sets_carry(s: MachineState, x: u8, y: u8, rnd: u8)
    requires
        well_formed(s),
        x < 15,
        y < 16,
        s.pc + 1 < MEMORY_SIZE,
        s.memory[s.pc as int] == 0x80 + x,
        s.memory[s.pc + 1] == y * 16 + 4,
    ensures
        step(s, rnd) is Ok,
        ({
            let (t, sum) = (step(s, rnd)->Ok_0, s.v[x as int] + s.v[y as int]);
            &&& t.v[x as int] == sum % 256
            &&& t.v[15] == if sum > 255 { 1u8 } else { 0u8 }
        }),
{
}

/// Subtracting Vy from Vx (x other than the flag register) stores the
/// difference modulo 256 in Vx and sets the flag to 1 exactly when Vx >= Vy.
pub proof fn sub_sets_no_borrow(s: MachineState, x: u8, y: u8, rnd: u8)
    requires
        well_formed(s),
        x < 15,
        y < 16,
        s.pc + 1 < MEMORY_SIZE,
        s.memory[s.pc as int] == 0x80 + x,
        s.memory[s.pc + 1] == y * 16 + 5,
    ensures
        step(s, rnd) is Ok,
        ({
            let t = step(s, rnd)->Ok_0;
            &&& t.v[x as int] == (s.v[x as int] - s.v[y as int]) % 256
            &&& t.v[15] == if s.v[x as int] >= s.v[y as int] { 1u8 } else { 0u8 }
        }),
{
}

/// A sprite row that is not blank has a set bit.
proof fn lemma_row_has_bit(row: u8)
    requires
        row != 0,
    ensures
        exists|dx: int| 0 <= dx < 8 && #[trigger] sprite_bit(row, dx),
{
    assert(row & (0x80u8 >> 0u8) != 0 || row & (0x80u8 >> 1u8) != 0 || row & (0x80u8 >> 2u8) != 0
        || row & (0x80u8 >> 3u8) != 0 || row & (0x80u8 >> 4u8) != 0 || row & (0x80u8 >> 5u8) != 0
        || row & (0x80u8 >> 6u8) != 0 || row & (0x80u8 >> 7u8) != 0) by (bit_vector)
        requires
            row != 0,
    ;
    if sprite_bit(row, 0) {
    } else if sprite_bit(row, 1) {
    } else if sprite_bit(row, 2) {
    } else if sprite_bit(row, 3) {
    } else if sprite_bit(row, 4) {
    } else if sprite_bit(row, 5) {
    } else if sprite_bit(row, 6) {
    } else {
        assert(sprite_bit(row, 7));
    }
}

/// Drawing the same sprite twice in a row at the same place (neither
/// coordinate in the flag register) restores the framebuffer. The second draw
/// reports a collision exactly when the sprite covers a pixel that was off
/// before the first; so on a blank screen, a sprite with a set bit collides.
pub proof fn draw_twice_restores(s: MachineState, x: u8, y: u8, n: u8, r1: u8, r2: u8)
    requires
        well_formed(s),
        x < 15,
        y < 15,
        n < 16,
        s.i + n <= MEMORY_SIZE,
        s.pc + 3 < MEMORY_SIZE,
        s.memory[s.pc as int] == 0xD0 + x,
        s.memory[s.pc + 1] == y * 16 + n,
        s.memory[s.pc + 2] == s.memory[s.pc as int],
        s.memory[s.pc + 3] == s.memory[s.pc + 1],
    ensures
        step(s, r1) is Ok,
        step(step(s, r1)->Ok_0, r2) is Ok,
        ({
            let u = step(step(s, r1)->Ok_0, r2)->Ok_0;
            let (x0, y0) = (s.v[x as int], s.v[y as int]);
            &&& u.gfx == s.gfx
            &&& u.v[15] == if exists|p: int|
                0 <= p < SCREEN_CELLS && #[trigger] sprite_covers(s.memory, s.i, x0, y0, n, p)
                    && !s.gfx[p] {
                1u8
            } else {
                0u8
            }
            &&& (forall|p: int| 0 <= p < SCREEN_CELLS ==> !#[trigger] s.gfx[p]) && (exists|yl: int|
                0 <= yl < n && #[trigger] s.memory[s.i + yl] != 0) ==> u.v[15] == 1
        }),
{
    let (x0, y0) = (s.v[x as int], s.v[y as int]);
    let t = step(s, r1)->Ok_0;
    assert(t.v[x as int] == x0 && t.v[y as int] == y0);
    let u = step(t, r2)->Ok_0;
    assert(u.gfx =~= s.gfx);
    let covered_off = exists|p: int|
        0 <= p < SCREEN_CELLS && #[trigger] sprite_covers(s.memory, s.i, x0, y0, n, p) && !s.gfx[p];
    assert(collides(t, x0, y0, n) == covered_off) by {
        if covered_off {
            let p = choose|p: int|
                0 <= p < SCREEN_CELLS && #[trigger] sprite_covers(s.memory, s.i, x0, y0, n, p)
                    && !s.gfx[p];
            assert(t.gfx[p]);
        }
        if collides(t, x0, y0, n) {
            let p = choose|p: int|
                0 <= p < t.gfx.len() && #[trigger] sprite_covers(t.memory, t.i, x0, y0, n, p)
                    && t.gfx[p];
            assert(!s.gfx[p]);
        }
    }
    if (forall|p: int| 0 <= p < SCREEN_CELLS ==> !#[trigger] s.gfx[p]) && (exists|yl: int|
        0 <= yl < n && #[trigger] s.memory[s.i + yl] != 0) {
        let yl = choose|yl: int| 0 <= yl < n && #[trigger] s.memory[s.i + yl] != 0;
        let row = s.memory[s.i + yl];
        lemma_row_has_bit(row);
        let dx = choose|dx: int| 0 <= dx < 8 && #[trigger] sprite_bit(row, dx);
        let p = ((y0 + yl) % 32) * 64 + (x0 + dx) % 64;
        crate::chip8::lemma_cell(x0, y0, dx, yl, p);
        assert(cell_dx(x0, p) == dx && cell_dy(y0, p) == yl);
        assert(sprite_covers(s.memory, s.i, x0, y0, n, p) && !s.gfx[p]);
    }
}

/// Storing or loading V0..=Vx at the index register advances it by exactly
/// x + 1, and faults without any change where the block would pass the end
/// of memory.
pub proof fn block_transfer_advances_index(s: MachineState, x: u8, rnd: u8)
    requires
        well_formed(s),
        x < 16,
        s.pc + 1 < MEMORY_SIZE,
        s.memory[s.pc as int] == 0xF0 + x,
        s.memory[s.pc + 1] == 0x55 || s.memory[s.pc + 1] == 0x65,
    ensures
        s.i + x + 1 <= MEMORY_SIZE ==> step(s, rnd) is Ok && (step(s, rnd)->Ok_0).i == s.i + x + 1,
        s.i + x + 1 > MEMORY_SIZE ==> step(s, rnd) == Err::<MachineState, Fault>(
            Fault::MemoryOutOfRange { address: s.pc },
        ),
{
}

/// Storing the decimal form of Vx writes its hundreds, tens and ones digits
/// at I, I+1 and I+2, which read back as the value of Vx.
pub proof fn bcd_writes_decimal_digits(s: MachineState, x: u8, rnd: u8)
    requires
        well_formed(s),
        x < 16,
        s.pc + 1 < MEMORY_SIZE,
        s.i + 3 <= MEMORY_SIZE,
        s.memory[s.pc as int] == 0xF0 + x,
        s.memory[s.pc + 1] == 0x33,
    ensures
        step(s, rnd) is Ok,
        ({
            let m = (step(s, rnd)->Ok_0).memory;
            let (h, t, o) = (m[s.i as int], m[s.i + 1], m[s.i + 2]);
            &&& h < 10 && t < 10 && o < 10
            &&& h * 100 + t * 10 + o == s.v[x as int]
        }),
{
}

proof fn lemma_none_pressed(keys: Seq<bool>, k: int)
    requires
        0 <= k <= 16,
        keys.len() == 16,
        forall|j: int| 0 <= j < 16 ==> !#[trigger] keys[j],
    ensures
        first_pressed(keys, k) is None,
    decreases 16 - k,
{
    if k < 16 {
        lemma_none_pressed(keys, k + 1);
    }
}

proof fn lemma_lowest_pressed(keys: Seq<bool>, j: int, k: int)
    requires
        0 <= j <= k < 16,
        keys.len() == 16,
        keys[k],
        forall|i: int| j <= i < k ==> !#[trigger] keys[i],
    ensures
        first_pressed(keys, j) == Some(k),
    decreases k - j,
{
    if j < k {
        lemma_lowest_pressed(keys, j + 1, k);
    }
}

/// Waiting for a key while none is pressed leaves the whole machine as it
/// was, program counter included, so the wait repeats on every invocation.
pub proof fn wait_key_stalls(s: MachineState, x: u8, rnd: u8)
    requires
        well_formed(s),
        x < 16,
        s.pc + 1 < MEMORY_SIZE,
        s.memory[s.pc as int] == 0xF0 + x,
        s.memory[s.pc + 1] == 0x0A,
        forall|k: int| 0 <= k < 16 ==> !#[trigger] s.keys[k],
    ensures
        step(s, rnd) == Ok::<MachineState, Fault>(s),
{
    lemma_none_pressed(s.keys, 0);
}

/// Waiting for a key while key `k` is the lowest pressed one stores `k` in Vx
/// and moves on to the next instruction.
pub proof fn wait_key_takes_lowest(s: MachineState, x: u8, k: int, rnd: u8)
    requires
        well_formed(s),
        x < 16,
        s.pc + 1 < MEMORY_SIZE,
        s.memory[s.pc as int] == 0xF0 + x,
        s.memory[s.pc + 1] == 0x0A,
        0 <= k < 16,
        s.keys[k],
        forall|j: int| 0 <= j < k ==> !#[trigger] s.keys[j],
    ensures
        step(s, rnd) is Ok,
        (step(s, rnd)->Ok_0).pc == s.pc + 2,
        (step(s, rnd)->Ok_0).v[x as int] == k,
{
    lemma_lowest_pressed(s.keys, 0, k);
}

/// A word outside the instruction set is a fault that names its address and
/// the word, whatever the random source would give.
pub proof fn unknown_instruction_faults(s: MachineState, rnd: u8)
    requires
        well_formed(s),
        s.pc + 1 < MEMORY_SIZE,
        decode_spec(s.memory[s.pc as int], s.memory[s.pc + 1]) is None,
    ensures
        step(s, rnd) == Err::<MachineState, Fault>(
            Fault::UnknownInstruction {
                address: s.pc,
                word: word_of(s.memory[s.pc as int], s.memory[s.pc + 1]),
            },
        ),
{
}

} // verus!
