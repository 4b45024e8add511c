//! The machine state and the instruction engine.

use vstd::prelude::*;

use crate::instruction::{decode, decode_spec, operands_in_range, word_of, Instruction};
use crate::disasm::{disassemble, disassembly};
use crate::io::Random;

verus! {

pub const SCREEN_WIDTH: usize = 64;

pub const SCREEN_HEIGHT: usize = 32;

/// Number of framebuffer cells.
pub const SCREEN_CELLS: usize = 2048;

/// Number of addressable bytes.
pub const MEMORY_SIZE: usize = 4096;

/// Where a program image is loaded, and where execution starts.
pub const GAME_ROM_OFFSET: usize = 0x200;

/// The longest program image that fits in memory.
pub const MAX_GAME_SIZE: usize = 3584;

/// Depth of the call stack.
pub const STACK_DEPTH: usize = 16;

/// Number of bytes the glyph table takes, at address 0.
pub const FONT_SIZE: usize = 80;

/// Index of the flag register.
pub const FLAG: usize = 15;

/// The glyphs of the hexadecimal digits, five bytes each.
pub open spec fn font() -> Seq<u8> {
    seq![
        0xF0u8, 0x90, 0x90, 0x90, 0xF0, // 0
        0x20, 0x60, 0x20, 0x20, 0x70, // 1
        0xF0, 0x10, 0xF0, 0x80, 0xF0, // 2
        0xF0, 0x10, 0xF0, 0x10, 0xF0, // 3
        0x90, 0x90, 0xF0, 0x10, 0x10, // 4
        0xF0, 0x80, 0xF0, 0x10, 0xF0, // 5
        0xF0, 0x80, 0xF0, 0x90, 0xF0, // 6
        0xF0, 0x10, 0x20, 0x40, 0x40, // 7
        0xF0, 0x90, 0xF0, 0x90, 0xF0, // 8
        0xF0, 0x90, 0xF0, 0x10, 0xF0, // 9
        0xF0, 0x90, 0xF0, 0x90, 0x90, // A
        0xE0, 0x90, 0xE0, 0x90, 0xE0, // B
        0xF0, 0x80, 0x80, 0x80, 0xF0, // C
        0xE0, 0x90, 0x90, 0x90, 0xE0, // D
        0xF0, 0x80, 0xF0, 0x80, 0xF0, // E
        0xF0, 0x80, 0xF0, 0x80, 0x80, // F
    ]
}

fn fontset() -> (r: [u8; 80])
    ensures
        r@ == font(),
{
    let r: [u8; 80] = [
        0xF0, 0x90, 0x90, 0x90, 0xF0,
        0x20, 0x60, 0x20, 0x20, 0x70,
        0xF0, 0x10, 0xF0, 0x80, 0xF0,
        0xF0, 0x10, 0xF0, 0x10, 0xF0,
        0x90, 0x90, 0xF0, 0x10, 0x10,
        0xF0, 0x80, 0xF0, 0x10, 0xF0,
        0xF0, 0x80, 0xF0, 0x90, 0xF0,
        0xF0, 0x10, 0x20, 0x40, 0x40,
        0xF0, 0x90, 0xF0, 0x90, 0xF0,
        0xF0, 0x90, 0xF0, 0x10, 0xF0,
        0xF0, 0x90, 0xF0, 0x90, 0x90,
        0xE0, 0x90, 0xE0, 0x90, 0xE0,
        0xF0, 0x80, 0x80, 0x80, 0xF0,
        0xE0, 0x90, 0x90, 0x90, 0xE0,
        0xF0, 0x80, 0xF0, 0x80, 0xF0,
        0xF0, 0x80, 0xF0, 0x80, 0x80,
    ];
    assert(r@ =~= font());
    r
}

/// Why an instruction could not be executed. A faulting instruction leaves the
/// machine as it was; `address` is where that instruction stands.
#[derive(Clone, Copy, Debug, PartialEq, Eq, Structural)]
pub enum Fault {
    /// The word at `address` is no instruction; its four hexadecimal digits are
    /// the offending nibbles.
    UnknownInstruction { address: u16, word: u16 },
    /// The instruction at `address` (or its fetch) reaches past the end of memory.
    MemoryOutOfRange { address: u16 },
    /// A call at `address` with all stack slots in use.
    StackOverflow { address: u16 },
    /// A return at `address` with an empty stack.
    StackUnderflow { address: u16 },
    /// A key test at `address` on a register holding `key`, which names no key.
    KeyOutOfRange { address: u16, key: u8 },
}

/// The whole observable state of a machine.
pub struct MachineState {
    pub memory: Seq<u8>,
    /// General registers V0..VF.
    pub v: Seq<u8>,
    /// Index register.
    pub i: u16,
    /// Program counter.
    pub pc: u16,
    pub delay: u8,
    pub sound: u8,
    /// Return addresses, the most recent last.
    pub stack: Seq<u16>,
    /// Framebuffer, row by row; `true` is a lit pixel.
    pub gfx: Seq<bool>,
    /// Key matrix; `true` is a pressed key.
    pub keys: Seq<bool>,
}

pub open spec fn well_formed(s: MachineState) -> bool {
    &&& s.memory.len() == MEMORY_SIZE
    &&& s.v.len() == 16
    &&& s.stack.len() <= STACK_DEPTH
    &&& s.gfx.len() == SCREEN_CELLS
    &&& s.keys.len() == 16
}

/// The state of a machine freshly loaded with the program `game`.
pub open spec fn initial_state(game: Seq<u8>) -> MachineState {
    MachineState {
        memory: Seq::new(
            MEMORY_SIZE as nat,
            |a: int|
                if a < FONT_SIZE {
                    font()[a]
                } else if GAME_ROM_OFFSET <= a < GAME_ROM_OFFSET + game.len() {
                    game[a - GAME_ROM_OFFSET]
                } else {
                    0u8
                },
        ),
        v: Seq::new(16, |r: int| 0u8),
        i: 0,
        pc: GAME_ROM_OFFSET as u16,
        delay: 0,
        sound: 0,
        stack: Seq::empty(),
        gfx: Seq::new(SCREEN_CELLS as nat, |p: int| false),
        keys: Seq::new(16, |k: int| false),
    }
}

pub open spec fn set_reg(s: MachineState, x: int, val: u8) -> MachineState {
    MachineState { v: s.v.update(x, val), ..s }
}

/// Sets the flag register to 1 if `b`, else to 0.
pub open spec fn set_flag(s: MachineState, b: bool) -> MachineState {
    set_reg(s, FLAG as int, if b { 1u8 } else { 0u8 })
}

/// Skips the next instruction if `b`.
pub open spec fn skip_if(s: MachineState, b: bool) -> MachineState {
    if b {
        MachineState { pc: (s.pc + 2) as u16, ..s }
    } else {
        s
    }
}

/// Whether bit `dx` of a sprite row, counted from the most significant, is set.
pub open spec fn sprite_bit(row: u8, dx: int) -> bool {
    row & (0x80u8 >> (dx as u8)) != 0
}

/// Column offset of framebuffer cell `p` from origin column `x0`, wrapping.
pub open spec fn cell_dx(x0: u8, p: int) -> int {
    (p % 64 - x0) % 64
}

/// Row offset of framebuffer cell `p` from origin row `y0`, wrapping.
pub open spec fn cell_dy(y0: u8, p: int) -> int {
    (p / 64 - y0) % 32
}

/// Whether the sprite of `n` rows read from `memory` at `i`, drawn at
/// (`x0`, `y0`) with wrapping on both axes, flips framebuffer cell `p`.
pub open spec fn sprite_covers(memory: Seq<u8>, i: u16, x0: u8, y0: u8, n: u8, p: int) -> bool {
    let dx = cell_dx(x0, p);
    let dy = cell_dy(y0, p);
    dx < 8 && dy < n && sprite_bit(memory[i + dy], dx)
}

/// The framebuffer after XOR-drawing that sprite.
pub open spec fn drawn(s: MachineState, x0: u8, y0: u8, n: u8) -> Seq<bool> {
    Seq::new(
        s.gfx.len(),
        |p: int| if sprite_covers(s.memory, s.i, x0, y0, n, p) { !s.gfx[p] } else { s.gfx[p] },
    )
}

/// Whether drawing that sprite turns some lit pixel off.
pub open spec fn collides(s: MachineState, x0: u8, y0: u8, n: u8) -> bool {
    exists|p: int|
        0 <= p < s.gfx.len() && #[trigger] sprite_covers(s.memory, s.i, x0, y0, n, p) && s.gfx[p]
}

/// The lowest pressed key at or above `k`.
pub open spec fn first_pressed(keys: Seq<bool>, k: int) -> Option<int>
    decreases 16 - k,
{
    if k >= 16 || k < 0 {
        None
    } else if keys[k] {
        Some(k)
    } else {
        first_pressed(keys, k + 1)
    }
}

/// What executing `ins`, fetched from address `at`, does to `t`, the state
/// whose program counter has already moved past it. `rnd` is the byte that
/// the random source hands to the random-number instruction.
pub open spec fn apply(t: MachineState, at: u16, ins: Instruction, rnd: u8) -> Result<MachineState, Fault> {
    match ins {
        Instruction::Cls => Ok(MachineState { gfx: Seq::new(t.gfx.len(), |p: int| false), ..t }),
        Instruction::Ret => if t.stack.len() == 0 {
            Err(Fault::StackUnderflow { address: at })
        } else {
            Ok(MachineState { pc: t.stack.last(), stack: t.stack.drop_last(), ..t })
        },
        Instruction::Jump(a) => Ok(MachineState { pc: a, ..t }),
        Instruction::Call(a) => if t.stack.len() >= STACK_DEPTH {
            Err(Fault::StackOverflow { address: at })
        } else {
            Ok(MachineState { pc: a, stack: t.stack.push(t.pc), ..t })
        },
        Instruction::SkipEqByte(x, kk) => Ok(skip_if(t, t.v[x as int] == kk)),
        Instruction::SkipNeByte(x, kk) => Ok(skip_if(t, t.v[x as int] != kk)),
        Instruction::SkipEqReg(x, y) => Ok(skip_if(t, t.v[x as int] == t.v[y as int])),
        Instruction::LoadByte(x, kk) => Ok(set_reg(t, x as int, kk)),
        Instruction::AddByte(x, kk) => Ok(set_reg(t, x as int, ((t.v[x as int] + kk) % 256) as u8)),
        Instruction::Copy(x, y) => Ok(set_reg(t, x as int, t.v[y as int])),
        Instruction::Or(x, y) => Ok(set_reg(t, x as int, t.v[x as int] | t.v[y as int])),
        Instruction::And(x, y) => Ok(set_reg(t, x as int, t.v[x as int] & t.v[y as int])),
        Instruction::Xor(x, y) => Ok(set_reg(t, x as int, t.v[x as int] ^ t.v[y as int])),
        Instruction::Add(x, y) => {
            let sum = t.v[x as int] + t.v[y as int];
            Ok(set_flag(set_reg(t, x as int, (sum % 256) as u8), sum > 255))
        },
        Instruction::Sub(x, y) => {
            let (a, b) = (t.v[x as int], t.v[y as int]);
            Ok(set_flag(set_reg(t, x as int, ((a - b) % 256) as u8), a >= b))
        },
        Instruction::Shr(x, y) => {
            let b = t.v[y as int];
            Ok(set_flag(set_reg(t, x as int, b / 2), b % 2 == 1))
        },
        Instruction::SubN(x, y) => {
            let (a, b) = (t.v[x as int], t.v[y as int]);
            Ok(set_flag(set_reg(t, x as int, ((b - a) % 256) as u8), b >= a))
        },
        Instruction::Shl(x, y) => {
            let b = t.v[y as int];
            Ok(set_flag(set_reg(t, x as int, ((b * 2) % 256) as u8), b >= 128))
        },
        Instruction::SkipNeReg(x, y) => Ok(skip_if(t, t.v[x as int] != t.v[y as int])),
        Instruction::LoadIndex(a) => Ok(MachineState { i: a, ..t }),
        Instruction::JumpOffset(a) => Ok(MachineState { pc: (a + t.v[0]) as u16, ..t }),
        Instruction::Rand(x, kk) => Ok(set_reg(t, x as int, kk & rnd)),
        Instruction::Draw(x, y, n) => if t.i + n > MEMORY_SIZE {
            Err(Fault::MemoryOutOfRange { address: at })
        } else {
            let (x0, y0) = (t.v[x as int], t.v[y as int]);
            Ok(set_flag(MachineState { gfx: drawn(t, x0, y0, n), ..t }, collides(t, x0, y0, n)))
        },
        Instruction::SkipKey(x) => if t.v[x as int] >= 16 {
            Err(Fault::KeyOutOfRange { address: at, key: t.v[x as int] })
        } else {
            Ok(skip_if(t, t.keys[t.v[x as int] as int]))
        },
        Instruction::SkipNoKey(x) => if t.v[x as int] >= 16 {
            Err(Fault::KeyOutOfRange { address: at, key: t.v[x as int] })
        } else {
            Ok(skip_if(t, !t.keys[t.v[x as int] as int]))
        },
        Instruction::LoadDelay(x) => Ok(set_reg(t, x as int, t.delay)),
        Instruction::WaitKey(x) => match first_pressed(t.keys, 0) {
            None => Ok(MachineState { pc: at, ..t }),
            Some(k) => Ok(set_reg(t, x as int, k as u8)),
        },
        Instruction::SetDelay(x) => Ok(MachineState { delay: t.v[x as int], ..t }),
        Instruction::SetSound(x) => Ok(MachineState { sound: t.v[x as int], ..t }),
        Instruction::AddIndex(x) => {
            let sum = t.i + t.v[x as int];
            Ok(set_flag(MachineState { i: (sum % 0x10000) as u16, ..t }, sum > 0xFFFF))
        },
        Instruction::FontChar(x) => Ok(MachineState { i: (t.v[x as int] * 5) as u16, ..t }),
        Instruction::Bcd(x) => if t.i + 3 > MEMORY_SIZE {
            Err(Fault::MemoryOutOfRange { address: at })
        } else {
            let b = t.v[x as int];
            Ok(MachineState {
                memory: t.memory.update(t.i as int, b / 100).update(t.i + 1, (b / 10) % 10).update(
                    t.i + 2,
                    b % 10,
                ),
                ..t
            })
        },
        Instruction::StoreRegs(x) => if t.i + x + 1 > MEMORY_SIZE {
            Err(Fault::MemoryOutOfRange { address: at })
        } else {
            Ok(MachineState {
                memory: Seq::new(
                    t.memory.len(),
                    |a: int| if t.i <= a <= t.i + x { t.v[a - t.i] } else { t.memory[a] },
                ),
                i: (t.i + x + 1) as u16,
                ..t
            })
        },
        Instruction::LoadRegs(x) => if t.i + x + 1 > MEMORY_SIZE {
            Err(Fault::MemoryOutOfRange { address: at })
        } else {
            Ok(MachineState {
                v: Seq::new(16, |r: int| if r <= x { t.memory[t.i + r] } else { t.v[r] }),
                i: (t.i + x + 1) as u16,
                ..t
            })
        },
    }
}

/// The two bytes of the instruction at the program counter.
pub open spec fn fetch(s: MachineState) -> (u8, u8) {
    (s.memory[s.pc as int], s.memory[s.pc + 1])
}

/// One fetch-decode-execute cycle on `s`, where `rnd` is what the random source
/// would hand out. Faults name the address of the instruction.
pub open spec fn step(s: MachineState, rnd: u8) -> Result<MachineState, Fault> {
    if s.pc + 1 >= MEMORY_SIZE {
        Err(Fault::MemoryOutOfRange { address: s.pc })
    } else {
        let (hi, lo) = fetch(s);
        match decode_spec(hi, lo) {
            None => Err(Fault::UnknownInstruction { address: s.pc, word: word_of(hi, lo) }),
            Some(ins) => apply(MachineState { pc: (s.pc + 2) as u16, ..s }, s.pc, ins, rnd),
        }
    }
}

/// Whether a call that returned `r` and took the machine from `before` to
/// `after` did what `expected` says: on success the new state is the expected
/// one, and a fault is the expected one and leaves the machine unchanged.
pub open spec fn outcome(
    before: MachineState,
    after: MachineState,
    r: Result<(), Fault>,
    expected: Result<MachineState, Fault>,
) -> bool {
    match r {
        Ok(_) => expected == Ok::<MachineState, Fault>(after),
        Err(f) => expected == Err::<MachineState, Fault>(f) && after == before,
    }
}

/// The cells that the sprite flips at the first `k` of its `n * 8` positions,
/// taken row by row.
pub open spec fn covered_before(memory: Seq<u8>, i: u16, x0: u8, y0: u8, n: u8, p: int, k: int) -> bool {
    sprite_covers(memory, i, x0, y0, n, p) && cell_dy(y0, p) * 8 + cell_dx(x0, p) < k
}

/// The cell at sprite position (`xl`, `yl`) from origin (`x0`, `y0`) is `p`,
/// and no other cell lies at that position.
pub proof fn lemma_cell(x0: u8, y0: u8, xl: int, yl: int, p: int)
    requires
        0 <= xl < 8,
        0 <= yl < 16,
        p == ((y0 + yl) % 32) * 64 + (x0 + xl) % 64,
    ensures
        0 <= p < SCREEN_CELLS,
        cell_dx(x0, p) == xl,
        cell_dy(y0, p) == yl,
        forall|q: int|
            0 <= q < SCREEN_CELLS && cell_dx(x0, q) == xl && cell_dy(y0, q) == yl ==> q == p,
{
    let r = (y0 + yl) % 32;
    let c = (x0 + xl) % 64;
    vstd::arithmetic::div_mod::lemma_fundamental_div_mod_converse(p, 64, r, c);
    assert(cell_dx(x0, p) == xl) by {
        vstd::arithmetic::div_mod::lemma_fundamental_div_mod(x0 + xl, 64);
        vstd::arithmetic::div_mod::lemma_fundamental_div_mod_converse(
            c - x0,
            64,
            -((x0 + xl) / 64),
            xl,
        );
    }
    assert(cell_dy(y0, p) == yl) by {
        vstd::arithmetic::div_mod::lemma_fundamental_div_mod(y0 + yl, 32);
        vstd::arithmetic::div_mod::lemma_fundamental_div_mod_converse(
            r - y0,
            32,
            -((y0 + yl) / 32),
            yl,
        );
    }
    assert forall|q: int|
        0 <= q < SCREEN_CELLS && cell_dx(x0, q) == xl && cell_dy(y0, q) == yl implies q == p by {
        vstd::arithmetic::div_mod::lemma_fundamental_div_mod(q, 64);
    }
}

/// How the cells covered so far grow when the sprite position `k` is drawn.
proof fn lemma_cover_step(memory: Seq<u8>, i: u16, x0: u8, y0: u8, n: u8, k: int)
    requires
        0 <= k < n * 8,
        n < 16,
        i + n <= memory.len(),
    ensures
        ({
            let (xl, yl) = (k % 8, k / 8);
            let p = ((y0 + yl) % 32) * 64 + (x0 + xl) % 64;
            let hit = sprite_bit(memory[i + yl], xl);
            &&& 0 <= yl < n
            &&& 0 <= p < SCREEN_CELLS
            &&& !covered_before(memory, i, x0, y0, n, p, k)
            &&& forall|q: int|
                0 <= q < SCREEN_CELLS ==> #[trigger] covered_before(memory, i, x0, y0, n, q, k + 1)
                    == (covered_before(memory, i, x0, y0, n, q, k) || (hit && q == p))
        }),
{
    let (xl, yl) = (k % 8, k / 8);
    assert(0 <= yl < n) by (nonlinear_arith)
        requires
            0 <= k < n * 8,
            yl == k / 8,
    ;
    let p = ((y0 + yl) % 32) * 64 + (x0 + xl) % 64;
    lemma_cell(x0, y0, xl, yl, p);
    assert forall|q: int| 0 <= q < SCREEN_CELLS implies #[trigger] covered_before(
        memory,
        i,
        x0,
        y0,
        n,
        q,
        k + 1,
    ) == (covered_before(memory, i, x0, y0, n, q, k) || (sprite_bit(memory[i + yl], xl) && q
        == p)) by {
        let (dx, dy) = (cell_dx(x0, q), cell_dy(y0, q));
        if dx < 8 && dy * 8 + dx == k {
            assert(dx == xl && dy == yl);
        }
        if q == p {
            assert(dy * 8 + dx == k);
        }
    }
}

/// A virtual machine: memory, registers, stack, timers, framebuffer and keys,
/// with a random source of type `R`.
pub struct Chip8<R: Random> {
    memory: Vec<u8>,
    registers: Vec<u8>,
    index: u16,
    pc: u16,
    delay: u8,
    sound: u8,
    sp: u8,
    stack: Vec<u16>,
    rand: R,
    gfx: Vec<bool>,
    keyboard: Vec<bool>,
}

impl<R: Random> View for Chip8<R> {
    type V = MachineState;

    closed spec fn view(&self) -> MachineState {
        MachineState {
            memory: self.memory@,
            v: self.registers@,
            i: self.index,
            pc: self.pc,
            delay: self.delay,
            sound: self.sound,
            stack: self.stack@.subrange(0, self.sp as int),
            gfx: self.gfx@,
            keys: self.keyboard@,
        }
    }
}

impl<R: Random> Chip8<R> {
    /// The internal representation is consistent; its view is then well formed.
    pub closed spec fn wf(&self) -> bool {
        &&& self.memory@.len() == MEMORY_SIZE
        &&& self.registers@.len() == 16
        &&& self.stack@.len() == STACK_DEPTH
        &&& self.sp <= STACK_DEPTH
        &&& self.gfx@.len() == SCREEN_CELLS
        &&& self.keyboard@.len() == 16
    }

    /// A consistent machine has a well-formed view, the states that the
    /// laws speak of.
    pub proof fn lemma_wf(&self)
        requires
            self.wf(),
        ensures
            well_formed(self@),
    {
    }

    /// A machine with the glyph table and the program `game` in memory.
    pub fn new(game: &[u8], rand: R) -> (r: Self)
        requires
            game@.len() <= MAX_GAME_SIZE,
        ensures
            r.wf(),
            r@ == initial_state(game@),
    {
        let mut memory: Vec<u8> = vec![0u8; MEMORY_SIZE];
        let glyphs = fontset();
        let mut a: usize = 0;
        while a < FONT_SIZE
            invariant
                a <= FONT_SIZE,
                glyphs@ == font(),
                memory@.len() == MEMORY_SIZE,
                forall|b: int| 0 <= b < a ==> memory@[b] == font()[b],
                forall|b: int| a <= b < MEMORY_SIZE ==> memory@[b] == 0,
            decreases FONT_SIZE - a,
        {
            memory.set(a, glyphs[a]);
            a += 1;
        }
        let mut k: usize = 0;
        while k < game.len()
            invariant
                k <= game@.len() <= MAX_GAME_SIZE,
                memory@.len() == MEMORY_SIZE,
                forall|b: int| 0 <= b < FONT_SIZE ==> memory@[b] == font()[b],
                forall|b: int|
                    GAME_ROM_OFFSET <= b < GAME_ROM_OFFSET + k ==> memory@[b] == game@[b
                        - GAME_ROM_OFFSET],
                forall|b: int|
                    FONT_SIZE <= b < MEMORY_SIZE && !(GAME_ROM_OFFSET <= b < GAME_ROM_OFFSET + k)
                        ==> memory@[b] == 0,
            decreases game@.len() - k,
        {
            memory.set(GAME_ROM_OFFSET + k, game[k]);
            k += 1;
        }
        let r = Chip8 {
            memory,
            registers: vec![0u8; 16],
            index: 0,
            pc: GAME_ROM_OFFSET as u16,
            delay: 0,
            sound: 0,
            sp: 0,
            stack: vec![0u16; STACK_DEPTH],
            rand,
            gfx: vec![false; SCREEN_CELLS],
            keyboard: vec![false; 16],
        };
        assert(r@.memory =~= initial_state(game@).memory);
        assert(r@.v =~= initial_state(game@).v);
        assert(r@.stack =~= initial_state(game@).stack);
        assert(r@.gfx =~= initial_state(game@).gfx);
        assert(r@.keys =~= initial_state(game@).keys);
        r
    }

    /// Executes the instruction at the program counter, with `random` as the
    /// byte the random-number instruction draws.
    pub fn execute_with(&mut self, random: u8) -> (r: Result<(), Fault>)
        requires
            old(self).wf(),
        ensures
            final(self).wf(),
            outcome(old(self)@, final(self)@, r, step(old(self)@, random)),
    {
        let at = self.pc;
        if at as usize + 1 >= MEMORY_SIZE {
            return Err(Fault::MemoryOutOfRange { address: at });
        }
        let hi = self.memory[at as usize];
        let lo = self.memory[at as usize + 1];
        match decode(hi, lo) {
            None => Err(Fault::UnknownInstruction { address: at, word: hi as u16 * 256 + lo as u16 }),
            Some(ins) => self.run(ins, random),
        }
    }

    /// Executes the instruction at the program counter. Only the
    /// random-number instruction draws a byte from the random source.
    pub fn execute_instruction(&mut self) -> (r: Result<(), Fault>)
        requires
            old(self).wf(),
        ensures
            final(self).wf(),
            exists|random: u8| outcome(old(self)@, final(self)@, r, step(old(self)@, random)),
    {
        let at = self.pc as usize;
        let mut random: u8 = 0;
        if at + 1 < MEMORY_SIZE && self.memory[at] / 16 == 0xC {
            random = self.rand.randint();
        }
        assert(self@ == old(self)@);
        let r = self.execute_with(random);
        assert(outcome(old(self)@, self@, r, step(old(self)@, random)));
        r
    }

    /// Marks `key` as pressed or released; keys above 15 are ignored.
    pub fn set_key(&mut self, key: u8, state: bool)
        requires
            old(self).wf(),
        ensures
            final(self).wf(),
            final(self)@ == if key < 16 {
                MachineState { keys: old(self)@.keys.update(key as int, state), ..old(self)@ }
            } else {
                old(self)@
            },
    {
        if key < 16 {
            self.keyboard.set(key as usize, state);
        }
    }

    /// Whether the pixel at column `x`, row `y` is lit.
    pub fn get_pixel(&self, x: usize, y: usize) -> (r: bool)
        requires
            self.wf(),
            x < SCREEN_WIDTH,
            y < SCREEN_HEIGHT,
        ensures
            r == self@.gfx[y * 64 + x],
    {
        self.gfx[y * SCREEN_WIDTH + x]
    }

    /// Counts the delay timer down by one, stopping at zero.
    pub fn decrement_delay(&mut self)
        requires
            old(self).wf(),
        ensures
            final(self).wf(),
            final(self)@ == (MachineState {
                delay: if old(self)@.delay > 0 { (old(self)@.delay - 1) as u8 } else { 0 },
                ..old(self)@
            }),
    {
        if self.delay > 0 {
            self.delay = self.delay - 1;
        }
    }

    /// Whether a tone should play now, that is whether the sound timer is
    /// running; counts it down by one, stopping at zero.
    pub fn sound_tick(&mut self) -> (r: bool)
        requires
            old(self).wf(),
        ensures
            final(self).wf(),
            r == (old(self)@.sound > 0),
            final(self)@ == (MachineState {
                sound: if old(self)@.sound > 0 { (old(self)@.sound - 1) as u8 } else { 0 },
                ..old(self)@
            }),
    {
        if self.sound > 0 {
            self.sound = self.sound - 1;
            return true;
        }
        false
    }

    /// The program counter.
    pub fn pc(&self) -> (r: u16)
        ensures
            r == self@.pc,
    {
        self.pc
    }

    /// The index register.
    pub fn index(&self) -> (r: u16)
        ensures
            r == self@.i,
    {
        self.index
    }

    /// The general register `x`.
    pub fn register(&self, x: usize) -> (r: u8)
        requires
            self.wf(),
            x < 16,
        ensures
            r == self@.v[x as int],
    {
        self.registers[x]
    }

    /// The byte at `address`.
    pub fn memory_at(&self, address: usize) -> (r: u8)
        requires
            self.wf(),
            address < MEMORY_SIZE,
        ensures
            r == self@.memory[address as int],
    {
        self.memory[address]
    }

    /// The delay timer.
    pub fn delay(&self) -> (r: u8)
        ensures
            r == self@.delay,
    {
        self.delay
    }

    /// The sound timer.
    pub fn sound(&self) -> (r: u8)
        ensures
            r == self@.sound,
    {
        self.sound
    }

    /// Number of return addresses on the call stack.
    pub fn stack_depth(&self) -> (r: usize)
        requires
            self.wf(),
        ensures
            r == self@.stack.len(),
    {
        self.sp as usize
    }

    /// The two bytes of the instruction at the program counter, high byte
    /// first, or `None` where they would lie past the end of memory.
    pub fn current_instruction(&self) -> (r: Option<(u8, u8)>)
        requires
            self.wf(),
        ensures
            r == if self@.pc + 1 < MEMORY_SIZE {
                Some(fetch(self@))
            } else {
                None::<(u8, u8)>
            },
    {
        let at = self.pc as usize;
        if at + 1 < MEMORY_SIZE {
            Some((self.memory[at], self.memory[at + 1]))
        } else {
            None
        }
    }

    /// The assembly text of `instruction`, or "Invalid instruction".
    pub fn print_instruction(&self, instruction: u16) -> (r: String)
        ensures
            r@ == disassembly(instruction),
    {
        disassemble(instruction)
    }

    /// The lowest pressed key, if any.
    fn lowest_pressed_key(&self) -> (r: Option<u8>)
        requires
            self.wf(),
        ensures
            match first_pressed(self@.keys, 0) {
                None => r is None,
                Some(k) => r == Some(k as u8),
            },
    {
        let mut k: u8 = 0;
        while k < 16
            invariant
                self.wf(),
                k <= 16,
                first_pressed(self@.keys, 0) == first_pressed(self@.keys, k as int),
            decreases 16 - k,
        {
            if self.keyboard[k as usize] {
                return Some(k);
            }
            k += 1;
        }
        None
    }

    /// Stores V0..=Vx at the index register and advances it past them.
    fn store_registers(&mut self, x: u8)
        requires
            old(self).wf(),
            x < 16,
            old(self).index + x + 1 <= MEMORY_SIZE,
        ensures
            final(self).wf(),
            ({
                let t = old(self)@;
                final(self)@ == (MachineState {
                    memory: Seq::new(
                        t.memory.len(),
                        |a: int| if t.i <= a <= t.i + x { t.v[a - t.i] } else { t.memory[a] },
                    ),
                    i: (t.i + x + 1) as u16,
                    ..t
                })
            }),
    {
        let ghost t = self@;
        let base = self.index as usize;
        let mut r: usize = 0;
        while r <= x as usize
            invariant
                self.wf(),
                r <= x + 1,
                x < 16,
                base == t.i,
                base + x + 1 <= MEMORY_SIZE,
                self@ == (MachineState { memory: self@.memory, ..t }),
                forall|a: int|
                    0 <= a < MEMORY_SIZE ==> #[trigger] self.memory@[a] == if base <= a < base + r {
                        t.v[a - base]
                    } else {
                        t.memory[a]
                    },
            decreases x + 1 - r,
        {
            let val = self.registers[r];
            self.memory.set(base + r, val);
            r += 1;
        }
        self.index = self.index + x as u16 + 1;
        assert(self.memory@ =~= Seq::new(
            t.memory.len(),
            |a: int| if t.i <= a <= t.i + x { t.v[a - t.i] } else { t.memory[a] },
        ));
    }

    /// Loads V0..=Vx from the index register and advances it past them.
    fn load_registers(&mut self, x: u8)
        requires
            old(self).wf(),
            x < 16,
            old(self).index + x + 1 <= MEMORY_SIZE,
        ensures
            final(self).wf(),
            ({
                let t = old(self)@;
                final(self)@ == (MachineState {
                    v: Seq::new(16, |r: int| if r <= x { t.memory[t.i + r] } else { t.v[r] }),
                    i: (t.i + x + 1) as u16,
                    ..t
                })
            }),
    {
        let ghost t = self@;
        let base = self.index as usize;
        let mut r: usize = 0;
        while r <= x as usize
            invariant
                self.wf(),
                r <= x + 1,
                x < 16,
                base == t.i,
                base + x + 1 <= MEMORY_SIZE,
                self@ == (MachineState { v: self@.v, ..t }),
                forall|q: int|
                    0 <= q < 16 ==> #[trigger] self.registers@[q] == if q < r {
                        t.memory[base + q]
                    } else {
                        t.v[q]
                    },
            decreases x + 1 - r,
        {
            let val = self.memory[base + r];
            self.registers.set(r, val);
            r += 1;
        }
        self.index = self.index + x as u16 + 1;
        assert(self.registers@ =~= Seq::new(
            16,
            |q: int| if q <= x { t.memory[t.i + q] } else { t.v[q] },
        ));
    }

    fn set_register(&mut self, x: u8, val: u8)
        requires
            old(self).wf(),
            x < 16,
        ensures
            final(self).wf(),
            final(self)@ == set_reg(old(self)@, x as int, val),
    {
        self.registers.set(x as usize, val);
    }

    fn set_flag_register(&mut self, b: bool)
        requires
            old(self).wf(),
        ensures
            final(self).wf(),
            final(self)@ == set_flag(old(self)@, b),
    {
        self.registers.set(FLAG, if b { 1 } else { 0 });
    }

    fn skip_when(&mut self, b: bool)
        requires
            old(self).wf(),
            old(self).pc <= MEMORY_SIZE,
        ensures
            final(self).wf(),
            final(self)@ == skip_if(old(self)@, b),
    {
        if b {
            self.pc = self.pc + 2;
        }
    }

    /// Executes `ins`, fetched at the program counter, which it first moves
    /// past the instruction.
    fn run(&mut self, ins: Instruction, random: u8) -> (r: Result<(), Fault>)
        requires
            old(self).wf(),
            old(self).pc + 1 < MEMORY_SIZE,
            operands_in_range(ins),
        ensures
            final(self).wf(),
            outcome(
                old(self)@,
                final(self)@,
                r,
                apply(
                    MachineState { pc: (old(self)@.pc + 2) as u16, ..old(self)@ },
                    old(self)@.pc,
                    ins,
                    random,
                ),
            ),
    {
        let at = self.pc;
        // Faults are detected before anything changes.
        match ins {
            Instruction::Ret => {
                if self.sp == 0 {
                    return Err(Fault::StackUnderflow { address: at });
                }
            },
            Instruction::Call(_) => {
                if self.sp as usize >= STACK_DEPTH {
                    return Err(Fault::StackOverflow { address: at });
                }
            },
            Instruction::Draw(_, _, n) => {
                if self.index as usize + n as usize > MEMORY_SIZE {
                    return Err(Fault::MemoryOutOfRange { address: at });
                }
            },
            Instruction::SkipKey(x) | Instruction::SkipNoKey(x) => {
                let key = self.registers[x as usize];
                if key >= 16 {
                    return Err(Fault::KeyOutOfRange { address: at, key });
                }
            },
            Instruction::Bcd(_) => {
                if self.index as usize + 3 > MEMORY_SIZE {
                    return Err(Fault::MemoryOutOfRange { address: at });
                }
            },
            Instruction::StoreRegs(x) | Instruction::LoadRegs(x) => {
                if self.index as usize + x as usize + 1 > MEMORY_SIZE {
                    return Err(Fault::MemoryOutOfRange { address: at });
                }
            },
            _ => {},
        }
        self.pc = at + 2;
        match ins {
            Instruction::Cls => {
                let mut p: usize = 0;
                while p < SCREEN_CELLS
                    invariant
                        self.wf(),
                        p <= SCREEN_CELLS,
                        self@ == (MachineState { gfx: self@.gfx, pc: (at + 2) as u16, ..old(self)@ }),
                        forall|q: int| 0 <= q < p ==> !#[trigger] self.gfx@[q],
                    decreases SCREEN_CELLS - p,
                {
                    self.gfx.set(p, false);
                    p += 1;
                }
                assert(self.gfx@ =~= Seq::new(SCREEN_CELLS as nat, |q: int| false));
            },
            Instruction::Ret => {
                self.sp = self.sp - 1;
                self.pc = self.stack[self.sp as usize];
                assert(self.stack@.subrange(0, self.sp as int) =~= old(self)@.stack.drop_last());
            },
            Instruction::Jump(a) => {
                self.pc = a;
            },
            Instruction::Call(a) => {
                self.stack.set(self.sp as usize, self.pc);
                self.sp = self.sp + 1;
                self.pc = a;
                assert(self.stack@.subrange(0, self.sp as int) =~= old(self)@.stack.push(
                    (at + 2) as u16,
                ));
            },
            Instruction::SkipEqByte(x, kk) => {
                let b = self.registers[x as usize] == kk;
                self.skip_when(b);
            },
            Instruction::SkipNeByte(x, kk) => {
                let b = self.registers[x as usize] != kk;
                self.skip_when(b);
            },
            Instruction::SkipEqReg(x, y) => {
                let b = self.registers[x as usize] == self.registers[y as usize];
                self.skip_when(b);
            },
            Instruction::LoadByte(x, kk) => {
                self.set_register(x, kk);
            },
            Instruction::AddByte(x, kk) => {
                let val = ((self.registers[x as usize] as u16 + kk as u16) % 256) as u8;
                self.set_register(x, val);
            },
            Instruction::Copy(x, y) => {
                let val = self.registers[y as usize];
                self.set_register(x, val);
            },
            Instruction::Or(x, y) => {
                let val = self.registers[x as usize] | self.registers[y as usize];
                self.set_register(x, val);
            },
            Instruction::And(x, y) => {
                let val = self.registers[x as usize] & self.registers[y as usize];
                self.set_register(x, val);
            },
            Instruction::Xor(x, y) => {
                let val = self.registers[x as usize] ^ self.registers[y as usize];
                self.set_register(x, val);
            },
            Instruction::Add(x, y) => {
                let sum = self.registers[x as usize] as u16 + self.registers[y as usize] as u16;
                self.set_register(x, (sum % 256) as u8);
                self.set_flag_register(sum > 255);
            },
            Instruction::Sub(x, y) => {
                let (a, b) = (self.registers[x as usize], self.registers[y as usize]);
                let val = if a >= b { a - b } else { (256 + a as u16 - b as u16) as u8 };
                self.set_register(x, val);
                self.set_flag_register(a >= b);
            },
            Instruction::Shr(x, y) => {
                let b = self.registers[y as usize];
                self.set_register(x, b / 2);
                self.set_flag_register(b % 2 == 1);
            },
            Instruction::SubN(x, y) => {
                let (a, b) = (self.registers[x as usize], self.registers[y as usize]);
                let val = if b >= a { b - a } else { (256 + b as u16 - a as u16) as u8 };
                self.set_register(x, val);
                self.set_flag_register(b >= a);
            },
            Instruction::Shl(x, y) => {
                let b = self.registers[y as usize];
                self.set_register(x, ((b as u16 * 2) % 256) as u8);
                self.set_flag_register(b >= 128);
            },
            Instruction::SkipNeReg(x, y) => {
                let b = self.registers[x as usize] != self.registers[y as usize];
                self.skip_when(b);
            },
            Instruction::LoadIndex(a) => {
                self.index = a;
            },
            Instruction::JumpOffset(a) => {
                self.pc = a + self.registers[0] as u16;
            },
            Instruction::Rand(x, kk) => {
                self.set_register(x, kk & random);
            },
            Instruction::Draw(x, y, n) => {
                self.draw(x, y, n);
            },
            Instruction::SkipKey(x) => {
                let b = self.keyboard[self.registers[x as usize] as usize];
                self.skip_when(b);
            },
            Instruction::SkipNoKey(x) => {
                let b = !self.keyboard[self.registers[x as usize] as usize];
                self.skip_when(b);
            },
            Instruction::LoadDelay(x) => {
                let d = self.delay;
                self.set_register(x, d);
            },
            Instruction::WaitKey(x) => {
                match self.lowest_pressed_key() {
                    Some(k) => self.set_register(x, k),
                    None => self.pc = at,
                }
            },
            Instruction::SetDelay(x) => {
                self.delay = self.registers[x as usize];
            },
            Instruction::SetSound(x) => {
                self.sound = self.registers[x as usize];
            },
            Instruction::AddIndex(x) => {
                let sum = self.index as u32 + self.registers[x as usize] as u32;
                self.index = (sum % 0x10000) as u16;
                self.set_flag_register(sum > 0xFFFF);
            },
            Instruction::FontChar(x) => {
                self.index = self.registers[x as usize] as u16 * 5;
            },
            Instruction::Bcd(x) => {
                let b = self.registers[x as usize];
                let base = self.index as usize;
                self.memory.set(base, b / 100);
                self.memory.set(base + 1, (b / 10) % 10);
                self.memory.set(base + 2, b % 10);
            },
            Instruction::StoreRegs(x) => {
                self.store_registers(x);
            },
            Instruction::LoadRegs(x) => {
                self.load_registers(x);
            },
        }
        Ok(())
    }

    /// XORs the `n`-row sprite at the index register into the framebuffer at
    /// (Vx, Vy), wrapping on both axes, and sets the flag register to whether a
    /// lit pixel was turned off.
    fn draw(&mut self, x: u8, y: u8, n: u8)
        requires
            old(self).wf(),
            x < 16,
            y < 16,
            n < 16,
            old(self).index + n <= MEMORY_SIZE,
        ensures
            final(self).wf(),
            ({
                let s = old(self)@;
                let (x0, y0) = (s.v[x as int], s.v[y as int]);
                final(self)@ == set_flag(
                    MachineState { gfx: drawn(s, x0, y0, n), ..s },
                    collides(s, x0, y0, n),
                )
            }),
    {
        let ghost s = self@;
        let x0 = self.registers[x as usize];
        let y0 = self.registers[y as usize];
        let total: usize = n as usize * 8;
        let mut collision = false;
        let mut k: usize = 0;
        while k < total
            invariant
                self.wf(),
                k <= total,
                total == n * 8,
                n < 16,
                well_formed(s),
                s.i + n <= MEMORY_SIZE,
                x0 == s.v[x as int],
                y0 == s.v[y as int],
                self@ == (MachineState { gfx: self@.gfx, ..s }),
                forall|p: int|
                    0 <= p < SCREEN_CELLS ==> #[trigger] self.gfx@[p] == if covered_before(
                        s.memory,
                        s.i,
                        x0,
                        y0,
                        n,
                        p,
                        k as int,
                    ) {
                        !s.gfx[p]
                    } else {
                        s.gfx[p]
                    },
                collision == exists|p: int|
                    0 <= p < SCREEN_CELLS && #[trigger] covered_before(
                        s.memory,
                        s.i,
                        x0,
                        y0,
                        n,
                        p,
                        k as int,
                    ) && s.gfx[p],
            decreases total - k,
        {
            let yl = k / 8;
            let xl = k % 8;
            proof {
                lemma_cover_step(s.memory, s.i, x0, y0, n, k as int);
            }
            let ghost was = collision;
            let ghost cell = ((y0 + yl) % 32) * 64 + (x0 + xl) % 64;
            let row = self.memory[self.index as usize + yl];
            if row & (0x80u8 >> (xl as u8)) != 0 {
                let p = ((y0 as usize + yl) % 32) * 64 + (x0 as usize + xl) % 64;
                let cur = self.gfx[p];
                assert(cur == s.gfx[p as int]);
                if cur {
                    collision = true;
                }
                self.gfx.set(p, !cur);
            }
            proof {
                let hit = sprite_bit(s.memory[s.i + yl], xl as int);
                assert(collision == (was || (hit && s.gfx[cell])));
                if collision {
                    if was {
                        let q = choose|q: int|
                            0 <= q < SCREEN_CELLS && #[trigger] covered_before(
                                s.memory,
                                s.i,
                                x0,
                                y0,
                                n,
                                q,
                                k as int,
                            ) && s.gfx[q];
                        assert(covered_before(s.memory, s.i, x0, y0, n, q, k + 1));
                    } else {
                        assert(covered_before(s.memory, s.i, x0, y0, n, cell, k + 1));
                    }
                }
                if !collision {
                    assert forall|q: int| 0 <= q < SCREEN_CELLS implies !(#[trigger] covered_before(
                        s.memory,
                        s.i,
                        x0,
                        y0,
                        n,
                        q,
                        k + 1,
                    ) && s.gfx[q]) by {
                        if covered_before(s.memory, s.i, x0, y0, n, q, k as int) {
                            assert(!s.gfx[q]);
                        }
                    }
                }
            }
            k += 1;
        }
        self.registers.set(FLAG, if collision { 1 } else { 0 });
        proof {
            assert forall|p: int| 0 <= p < SCREEN_CELLS implies covered_before(
                s.memory,
                s.i,
                x0,
                y0,
                n,
                p,
                total as int,
            ) == sprite_covers(s.memory, s.i, x0, y0, n, p) by {}
            assert(self.gfx@ =~= drawn(s, x0, y0, n));
        }
    }
}

} // verus!
