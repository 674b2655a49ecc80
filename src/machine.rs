//! The mathematical model of the interpreter: its state, its faults, and what
//! one instruction and one cycle do to the state.
use vstd::prelude::*;
use vstd::arithmetic::div_mod::{
    lemma_fundamental_div_mod,
    lemma_fundamental_div_mod_converse,
    lemma_mod_multiples_vanish,
};

verus! {

/// Number of general-purpose registers; the last one is the flag register.
pub const REGISTER_COUNT: usize = 16;

/// Depth of the call stack.
pub const STACK_SIZE: usize = 16;

/// Display width in cells.
pub const DISPLAY_WIDTH: usize = 64;

/// Display height in cells.
pub const DISPLAY_HEIGHT: usize = 32;

/// Number of display cells.
pub const DISPLAY_SIZE: usize = 2048;

/// Number of keys on the key pad.
pub const KEY_COUNT: usize = 16;

/// Where programs are loaded and where execution starts.
pub const PROGRAM_START: u16 = 0x200;

/// The flag register: carry, borrow and collision output.
pub const FLAG: usize = 15;

/// What made an instruction fail.
#[derive(Clone, Copy, Debug, PartialEq, Eq, Structural)]
pub enum FaultKind {
    /// A memory access reached past the last address.
    OutOfBounds,
    /// A call found the call stack full.
    StackOverflow,
    /// A return found the call stack empty.
    StackUnderflow,
    /// The instruction word matches no instruction.
    UnknownInstruction,
}

/// A failed cycle: what went wrong, where the failing instruction stands, and
/// its word (zero when the word itself could not be fetched).
#[derive(Clone, Copy, Debug, PartialEq, Eq, Structural)]
pub struct CpuError {
    pub kind: FaultKind,
    pub program_counter: u16,
    pub opcode: u16,
}

/// The whole state of the machine as mathematical values.
pub struct CpuState {
    pub memory: Seq<u8>,
    pub registers: Seq<u8>,
    /// Live return addresses, oldest first.
    pub stack: Seq<u16>,
    /// Row-major cells, `true` for on.
    pub display: Seq<bool>,
    pub keys: Seq<bool>,
    pub index: u16,
    pub program_counter: u16,
    pub delay_timer: u8,
    pub sound_timer: u8,
}

/// The shape every reachable state has.
pub open spec fn wf_state(s: CpuState) -> bool {
    &&& s.memory.len() == 4096
    &&& s.registers.len() == REGISTER_COUNT
    &&& s.stack.len() <= STACK_SIZE
    &&& s.display.len() == DISPLAY_SIZE
    &&& s.keys.len() == KEY_COUNT
    &&& s.index <= 0xFFF
}

// ---------------------------------------------------------------------------
// Decoding

/// The operation nibble (bits 12 to 15).
pub open spec fn op_of(w: u16) -> u16 {
    w >> 12
}

/// The first register field (bits 8 to 11).
pub open spec fn x_of(w: u16) -> u16 {
    (w >> 8) & 0xF
}

/// The second register field (bits 4 to 7).
pub open spec fn y_of(w: u16) -> u16 {
    (w >> 4) & 0xF
}

/// The low nibble (bits 0 to 3).
pub open spec fn n_of(w: u16) -> u16 {
    w & 0xF
}

/// The address field (low 12 bits).
pub open spec fn addr_of(w: u16) -> u16 {
    w & 0xFFF
}

/// The immediate byte (low 8 bits).
pub open spec fn imm_of(w: u16) -> u8 {
    (w & 0xFF) as u8
}

pub proof fn lemma_fields_bounded(w: u16)
    ensures
        op_of(w) < 16,
        x_of(w) < 16,
        y_of(w) < 16,
        n_of(w) < 16,
        addr_of(w) <= 0xFFF,
        imm_of(w) == (w & 0xFF),
{
    assert(w >> 12 < 16) by (bit_vector);
    assert((w >> 8) & 0xF < 16) by (bit_vector);
    assert((w >> 4) & 0xF < 16) by (bit_vector);
    assert(w & 0xF < 16) by (bit_vector);
    assert(w & 0xFFF <= 0xFFF) by (bit_vector);
    assert(w & 0xFF <= 0xFF) by (bit_vector);
}

/// The big-endian word at `addr` and `addr + 1`.
pub open spec fn word_at(mem: Seq<u8>, addr: int) -> u16 {
    (mem[addr] as int * 256 + mem[addr + 1] as int) as u16
}

// ---------------------------------------------------------------------------
// Small state updates

pub open spec fn set_register(s: CpuState, x: int, v: u8) -> CpuState {
    CpuState { registers: s.registers.update(x, v), ..s }
}

pub open spec fn set_flag(s: CpuState, f: u8) -> CpuState {
    set_register(s, FLAG as int, f)
}

pub open spec fn jump_to(s: CpuState, target: u16) -> CpuState {
    CpuState { program_counter: target, ..s }
}

/// Steps over the next instruction when `cond` holds.
pub open spec fn skip_if(s: CpuState, cond: bool) -> CpuState {
    if cond {
        jump_to(s, (s.program_counter + 2) as u16)
    } else {
        s
    }
}

pub open spec fn bit_of(b: bool) -> u8 {
    if b {
        1
    } else {
        0
    }
}

// ---------------------------------------------------------------------------
// Instruction semantics. Each takes the state after the program counter has
// moved past the instruction.

/// Every display cell off.
pub open spec fn clear_screen(s: CpuState) -> CpuState {
    CpuState { display: Seq::new(DISPLAY_SIZE as nat, |k: int| false), ..s }
}

/// Pops the newest return address into the program counter.
pub open spec fn ret(s: CpuState) -> Result<CpuState, FaultKind> {
    if s.stack.len() == 0 {
        Err(FaultKind::StackUnderflow)
    } else {
        Ok(
            CpuState {
                program_counter: s.stack.last(),
                stack: s.stack.drop_last(),
                ..s
            },
        )
    }
}

/// Pushes the program counter and jumps to `addr`.
pub open spec fn call(s: CpuState, addr: u16) -> Result<CpuState, FaultKind> {
    if s.stack.len() >= STACK_SIZE {
        Err(FaultKind::StackOverflow)
    } else {
        Ok(CpuState { stack: s.stack.push(s.program_counter), program_counter: addr, ..s })
    }
}

/// The register-to-register operations of the `8xyn` group. The flag is
/// written after the result, so it wins when `x` is the flag register.
pub open spec fn arithmetic(s: CpuState, x: int, y: int, n: u16) -> Result<CpuState, FaultKind> {
    let vx = s.registers[x];
    let vy = s.registers[y];
    if n == 0 {
        Ok(set_register(s, x, vy))
    } else if n == 1 {
        Ok(set_register(s, x, vx | vy))
    } else if n == 2 {
        Ok(set_register(s, x, vx & vy))
    } else if n == 3 {
        Ok(set_register(s, x, vx ^ vy))
    } else if n == 4 {
        Ok(set_flag(set_register(s, x, ((vx + vy) % 256) as u8), bit_of(vx + vy > 255)))
    } else if n == 5 {
        Ok(set_flag(set_register(s, x, ((vx - vy) % 256) as u8), bit_of(vx >= vy)))
    } else if n == 6 {
        Ok(set_flag(set_register(s, x, vy / 2), vy % 2))
    } else if n == 7 {
        Ok(set_flag(set_register(s, x, ((vy - vx) % 256) as u8), bit_of(vy >= vx)))
    } else if n == 0xE {
        Ok(set_flag(set_register(s, x, ((vy * 2) % 256) as u8), vy / 128))
    } else {
        Err(FaultKind::UnknownInstruction)
    }
}

/// Whether bit `i` of a sprite row, counted from the most significant bit, is set.
pub open spec fn sprite_bit(row: u8, i: int) -> bool {
    row & (0x80u8 >> (i as u8)) != 0
}

/// The cell that column `i` of sprite row `j` lands on, when the sprite is
/// drawn at `(vx, vy)`: both coordinates wrap around the screen.
pub open spec fn cell_of(vx: u8, vy: u8, j: int, i: int) -> int {
    ((vy + j) % 32) * 64 + (vx + i) % 64
}

/// The sprite row that reaches cell `k`, for a sprite drawn at row `vy`.
pub open spec fn row_offset(vy: u8, k: int) -> int {
    (k / 64 - vy) % 32
}

/// The sprite column that reaches cell `k`, for a sprite drawn at column `vx`.
pub open spec fn column_offset(vx: u8, k: int) -> int {
    (k % 64 - vx) % 64
}

/// Whether a set sprite bit lands on cell `k`, for an `n`-row sprite read from
/// `mem` at `at` and drawn at `(vx, vy)`.
pub open spec fn sprite_covers(mem: Seq<u8>, at: int, n: int, vx: u8, vy: u8, k: int) -> bool {
    let j = row_offset(vy, k);
    let i = column_offset(vx, k);
    j < n && i < 8 && sprite_bit(mem[at + j], i)
}

/// Whether drawing bit `(j, i)` of the sprite turns an on cell off.
pub open spec fn turns_off(s: CpuState, vx: u8, vy: u8, j: int, i: int) -> bool {
    sprite_bit(s.memory[s.index + j], i) && s.display[cell_of(vx, vy, j, i)]
}

/// Whether drawing an `n`-row sprite at `(vx, vy)` turns any on cell off.
pub open spec fn collides(s: CpuState, vx: u8, vy: u8, n: int) -> bool {
    exists|j: int, i: int| 0 <= j < n && 0 <= i < 8 && #[trigger] turns_off(s, vx, vy, j, i)
}

/// The display after toggling every cell that a set sprite bit lands on.
pub open spec fn drawn(s: CpuState, vx: u8, vy: u8, n: int) -> Seq<bool> {
    Seq::new(
        DISPLAY_SIZE as nat,
        |k: int| s.display[k] != sprite_covers(s.memory, s.index as int, n, vx, vy, k),
    )
}

/// Draws the `n`-row sprite at `index` at `(Vx, Vy)`, toggling cells, with the
/// flag telling whether any cell went from on to off.
pub open spec fn draw(s: CpuState, x: int, y: int, n: int) -> Result<CpuState, FaultKind> {
    let vx = s.registers[x];
    let vy = s.registers[y];
    if s.index + n > 4096 {
        Err(FaultKind::OutOfBounds)
    } else {
        Ok(
            set_flag(
                CpuState { display: drawn(s, vx, vy, n), ..s },
                bit_of(collides(s, vx, vy, n)),
            ),
        )
    }
}

/// Whether `k` is the lowest pressed key.
pub open spec fn is_first_pressed(keys: Seq<bool>, k: int) -> bool {
    0 <= k < KEY_COUNT && keys[k] && forall|j: int| 0 <= j < k ==> !keys[j]
}

/// Waits for a key: with none pressed the instruction runs again; otherwise
/// `Vx` takes the lowest pressed key.
pub open spec fn get_key(s: CpuState, x: int) -> CpuState {
    if exists|k: int| 0 <= k < KEY_COUNT && s.keys[k] {
        let k = choose|k: int| is_first_pressed(s.keys, k);
        set_register(s, x, k as u8)
    } else {
        jump_to(s, (s.program_counter - 2) as u16)
    }
}

/// Adds eight to the index; past `0xFFF` it wraps to twelve bits and sets the flag.
pub open spec fn add_to_index(s: CpuState) -> CpuState {
    if s.index + 8 > 0xFFF {
        set_flag(CpuState { index: ((s.index + 8) % 0x1000) as u16, ..s }, 1)
    } else {
        CpuState { index: (s.index + 8) as u16, ..s }
    }
}

/// Writes the hundreds, tens and ones of `Vx` at `index`, `index + 1`, `index + 2`.
pub open spec fn bcd(s: CpuState, x: int) -> Result<CpuState, FaultKind> {
    let v = s.registers[x];
    let i = s.index as int;
    if i + 3 > 4096 {
        Err(FaultKind::OutOfBounds)
    } else {
        Ok(
            CpuState {
                memory: s.memory.update(i, v / 100).update(i + 1, (v / 10) % 10).update(
                    i + 2,
                    v % 10,
                ),
                ..s
            },
        )
    }
}

/// Copies `V0..=Vx` to memory from `index` on.
pub open spec fn store_registers(s: CpuState, x: int) -> Result<CpuState, FaultKind> {
    let i = s.index as int;
    if i + x + 1 > 4096 {
        Err(FaultKind::OutOfBounds)
    } else {
        Ok(
            CpuState {
                memory: Seq::new(
                    s.memory.len(),
                    |a: int|
                        if i <= a <= i + x {
                            s.registers[a - i]
                        } else {
                            s.memory[a]
                        },
                ),
                ..s
            },
        )
    }
}

/// Copies memory from `index` on into `V0..=Vx`.
pub open spec fn load_registers(s: CpuState, x: int) -> Result<CpuState, FaultKind> {
    let i = s.index as int;
    if i + x + 1 > 4096 {
        Err(FaultKind::OutOfBounds)
    } else {
        Ok(
            CpuState {
                registers: Seq::new(
                    s.registers.len(),
                    |r: int|
                        if r <= x {
                            s.memory[i + r]
                        } else {
                            s.registers[r]
                        },
                ),
                ..s
            },
        )
    }
}

/// The `Exnn` group: skips on the state of key `Vx & 0xF`.
pub open spec fn key_skip(s: CpuState, x: int, imm: u8) -> Result<CpuState, FaultKind> {
    let key = (s.registers[x] & 0xF) as int;
    if imm == 0x9E {
        Ok(skip_if(s, s.keys[key]))
    } else if imm == 0xA1 {
        Ok(skip_if(s, !s.keys[key]))
    } else {
        Err(FaultKind::UnknownInstruction)
    }
}

/// The `Fxnn` group: timers, key wait, index and memory transfers.
pub open spec fn misc(s: CpuState, x: int, imm: u8) -> Result<CpuState, FaultKind> {
    let vx = s.registers[x];
    if imm == 0x07 {
        Ok(set_register(s, x, s.delay_timer))
    } else if imm == 0x15 {
        Ok(CpuState { delay_timer: vx, ..s })
    } else if imm == 0x18 {
        Ok(CpuState { sound_timer: vx, ..s })
    } else if imm == 0x1E {
        Ok(add_to_index(s))
    } else if imm == 0x0A {
        Ok(get_key(s, x))
    } else if imm == 0x29 {
        Ok(CpuState { index: ((vx % 16) * 5) as u16, ..s })
    } else if imm == 0x33 {
        bcd(s, x)
    } else if imm == 0x55 {
        store_registers(s, x)
    } else if imm == 0x65 {
        load_registers(s, x)
    } else {
        Err(FaultKind::UnknownInstruction)
    }
}

/// What instruction word `w` does to `s` (whose program counter already
/// points past it); `rnd` is the random byte the random instruction masks.
///
/// `Bnnn` jumps to `nnn + V0` (the program counter, not the index, takes the
/// target), and `Fx1E` adds a fixed eight to the index rather than `Vx`.
pub open spec fn execute(s: CpuState, w: u16, rnd: u8) -> Result<CpuState, FaultKind> {
    let op = op_of(w);
    let x = x_of(w) as int;
    let y = y_of(w) as int;
    let n = n_of(w);
    let addr = addr_of(w);
    let imm = imm_of(w);
    let vx = s.registers[x];
    let vy = s.registers[y];
    if w == 0x00E0 {
        Ok(clear_screen(s))
    } else if w == 0x00EE {
        ret(s)
    } else if op == 1 {
        Ok(jump_to(s, addr))
    } else if op == 2 {
        call(s, addr)
    } else if op == 3 {
        Ok(skip_if(s, vx == imm))
    } else if op == 4 {
        Ok(skip_if(s, vx != imm))
    } else if op == 5 && n == 0 {
        Ok(skip_if(s, vx == vy))
    } else if op == 6 {
        Ok(set_register(s, x, imm))
    } else if op == 7 {
        Ok(set_register(s, x, ((vx + imm) % 256) as u8))
    } else if op == 8 {
        arithmetic(s, x, y, n)
    } else if op == 9 && n == 0 {
        Ok(skip_if(s, vx != vy))
    } else if op == 0xA {
        Ok(CpuState { index: addr, ..s })
    } else if op == 0xB {
        Ok(jump_to(s, (addr + s.registers[0]) as u16))
    } else if op == 0xC {
        Ok(set_register(s, x, rnd & imm))
    } else if op == 0xD {
        draw(s, x, y, n as int)
    } else if op == 0xE {
        key_skip(s, x, imm)
    } else if op == 0xF {
        misc(s, x, imm)
    } else {
        Err(FaultKind::UnknownInstruction)
    }
}

/// One cycle: fetch the word at the program counter, move past it, execute
/// it. A failure leaves the state as it was and reports the instruction.
pub open spec fn step(s: CpuState, rnd: u8) -> Result<CpuState, CpuError> {
    let pc = s.program_counter;
    if pc + 1 >= 4096 {
        Err(CpuError { kind: FaultKind::OutOfBounds, program_counter: pc, opcode: 0 })
    } else {
        let w = word_at(s.memory, pc as int);
        match execute(jump_to(s, (pc + 2) as u16), w, rnd) {
            Ok(t) => Ok(t),
            Err(kind) => Err(CpuError { kind, program_counter: pc, opcode: w }),
        }
    }
}

// ---------------------------------------------------------------------------
// Facts about screen coordinates

/// The cell that sprite bit `(j, i)` lands on is on the screen, and it is
/// reached from row `j` and column `i` of the sprite and from no other bit.
pub proof fn lemma_cell_of(vx: u8, vy: u8, j: int, i: int)
    requires
        0 <= j < 32,
        0 <= i < 64,
    ensures
        0 <= cell_of(vx, vy, j, i) < DISPLAY_SIZE,
        cell_of(vx, vy, j, i) / 64 == (vy + j) % 32,
        cell_of(vx, vy, j, i) % 64 == (vx + i) % 64,
        row_offset(vy, cell_of(vx, vy, j, i)) == j,
        column_offset(vx, cell_of(vx, vy, j, i)) == i,
{
    let r = (vy + j) % 32;
    let c = (vx + i) % 64;
    lemma_fundamental_div_mod(vy + j, 32);
    lemma_fundamental_div_mod(vx + i, 64);
    assert(0 <= r < 32 && 0 <= c < 64);
    let k = r * 64 + c;
    assert(0 <= k < DISPLAY_SIZE) by (nonlinear_arith)
        requires
            0 <= r < 32,
            0 <= c < 64,
            k == r * 64 + c,
    ;
    lemma_fundamental_div_mod_converse(k, 64, r, c);
    let a = (vy + j) / 32;
    assert(r - vy == 32 * (-a) + j);
    lemma_mod_multiples_vanish(-a, j, 32);
    lemma_fundamental_div_mod_converse(j, 32, 0, j);
    let b = (vx + i) / 64;
    assert(c - vx == 64 * (-b) + i);
    lemma_mod_multiples_vanish(-b, i, 64);
    lemma_fundamental_div_mod_converse(i, 64, 0, i);
}

/// Every cell is reached from exactly the sprite bit its offsets name.
pub proof fn lemma_offsets_locate(vx: u8, vy: u8, k: int)
    requires
        0 <= k < DISPLAY_SIZE,
    ensures
        0 <= row_offset(vy, k) < 32,
        0 <= column_offset(vx, k) < 64,
        cell_of(vx, vy, row_offset(vy, k), column_offset(vx, k)) == k,
{
    let j = row_offset(vy, k);
    let i = column_offset(vx, k);
    lemma_fundamental_div_mod(k, 64);
    lemma_fundamental_div_mod(k / 64 - vy, 32);
    lemma_fundamental_div_mod(k % 64 - vx, 64);
    assert(0 <= k / 64 < 32) by {
        lemma_fundamental_div_mod_converse(k, 64, k / 64, k % 64);
        assert(k / 64 < 32) by (nonlinear_arith)
            requires
                0 <= k < 2048,
                k == 64 * (k / 64) + k % 64,
                0 <= k % 64 < 64,
        ;
        assert(k / 64 >= 0) by (nonlinear_arith)
            requires
                0 <= k < 2048,
                k == 64 * (k / 64) + k % 64,
                0 <= k % 64 < 64,
        ;
    }
    // vy + j == k / 64 + 32 * m for some m, so (vy + j) % 32 == k / 64
    let m = -((k / 64 - vy) / 32);
    assert(vy + j == 32 * m + k / 64);
    lemma_mod_multiples_vanish(m, k / 64, 32);
    lemma_fundamental_div_mod_converse(k / 64, 32, 0, k / 64);
    let m2 = -((k % 64 - vx) / 64);
    assert(vx + i == 64 * m2 + k % 64);
    lemma_mod_multiples_vanish(m2, k % 64, 64);
    lemma_fundamental_div_mod_converse(k % 64, 64, 0, k % 64);
}

} // verus!
