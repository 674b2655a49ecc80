//! General facts about the instruction semantics, proved over the model.
use vstd::prelude::*;
use crate::machine::{
    addr_of, bit_of, cell_of, draw, execute, imm_of, is_first_pressed, jump_to, lemma_cell_of,
    lemma_fields_bounded, n_of, op_of, sprite_bit, step, word_at, wf_state, x_of, y_of, CpuError,
    CpuState, FaultKind, FLAG, STACK_SIZE,
};

verus! {

/// A word whose operation nibble is not zero is neither clear-screen nor return.
proof fn lemma_not_system(w: u16)
    requires
        op_of(w) != 0,
    ensures
        w != 0x00E0,
        w != 0x00EE,
{
    assert(w >> 12 != 0 ==> w != 0x00E0 && w != 0x00EE) by (bit_vector);
}

/// Subtraction `Vx - Vy` sets the flag exactly when `Vx >= Vy`, and, unless
/// `Vx` is the flag register itself, leaves the difference modulo 256 in `Vx`
/// (so `1 - 2` gives 255).
pub proof fn lemma_sub_borrow_flag(s: CpuState, w: u16, rnd: u8)
    requires
        wf_state(s),
        op_of(w) == 8,
        n_of(w) == 5,
    ensures
        ({
            let x = x_of(w) as int;
            let y = y_of(w) as int;
            let vx = s.registers[x];
            let vy = s.registers[y];
            &&& execute(s, w, rnd) is Ok
            &&& execute(s, w, rnd)->Ok_0.registers[FLAG as int] == bit_of(vx >= vy)
            &&& x != FLAG ==> execute(s, w, rnd)->Ok_0.registers[x] == ((vx - vy) % 256) as u8
        }),
{
    lemma_not_system(w);
    lemma_fields_bounded(w);
}

/// Drawing the same sprite at the same place twice gives back the display as
/// it was, provided neither coordinate register is the flag register (which
/// the first draw overwrites).
pub proof fn lemma_draw_twice_restores(s: CpuState, x: int, y: int, n: int)
    requires
        wf_state(s),
        0 <= x < 16,
        0 <= y < 16,
        x != FLAG,
        y != FLAG,
        0 <= n < 16,
        s.index + n <= 4096,
    ensures
        draw(s, x, y, n) is Ok,
        draw(draw(s, x, y, n)->Ok_0, x, y, n) is Ok,
        draw(draw(s, x, y, n)->Ok_0, x, y, n)->Ok_0.display == s.display,
{
    let t = draw(s, x, y, n)->Ok_0;
    let u = draw(t, x, y, n)->Ok_0;
    assert(t.registers[x] == s.registers[x]);
    assert(t.registers[y] == s.registers[y]);
    assert(u.display =~= s.display);
}

/// Bit `i` of sprite row `j` toggles the cell at column `(Vx + i) mod 64` and
/// row `(Vy + j) mod 32`: a sprite that runs off an edge comes back at the
/// opposite edge.
pub proof fn lemma_draw_wraps(s: CpuState, x: int, y: int, n: int, j: int, i: int)
    requires
        wf_state(s),
        0 <= x < 16,
        0 <= y < 16,
        0 <= n < 16,
        s.index + n <= 4096,
        0 <= j < n,
        0 <= i < 8,
    ensures
        ({
            let vx = s.registers[x];
            let vy = s.registers[y];
            let k = cell_of(vx, vy, j, i);
            &&& k == ((vy + j) % 32) * 64 + (vx + i) % 64
            &&& 0 <= k < 2048
            &&& draw(s, x, y, n) is Ok
            &&& draw(s, x, y, n)->Ok_0.display[k] == (s.display[k] != sprite_bit(
                s.memory[s.index + j],
                i,
            ))
        }),
{
    lemma_cell_of(s.registers[x], s.registers[y], j, i);
}

/// A call followed by a return comes back to the instruction after the call,
/// with the call stack as it was.
pub proof fn lemma_call_then_return(s: CpuState, rnd1: u8, rnd2: u8)
    requires
        wf_state(s),
        s.stack.len() < STACK_SIZE,
        s.program_counter + 1 < 4096,
        op_of(word_at(s.memory, s.program_counter as int)) == 2,
        addr_of(word_at(s.memory, s.program_counter as int)) + 1 < 4096,
        word_at(s.memory, addr_of(word_at(s.memory, s.program_counter as int)) as int) == 0x00EE,
    ensures
        step(s, rnd1) is Ok,
        step(step(s, rnd1)->Ok_0, rnd2) is Ok,
        step(step(s, rnd1)->Ok_0, rnd2)->Ok_0 == jump_to(s, (s.program_counter + 2) as u16),
{
    let w = word_at(s.memory, s.program_counter as int);
    lemma_not_system(w);
    lemma_fields_bounded(w);
    let t = step(s, rnd1)->Ok_0;
    assert(t.stack.drop_last() =~= s.stack);
}

/// A call succeeds, pushing one return address, while the call stack has
/// room, and fails with a stack overflow once it holds `STACK_SIZE` addresses.
pub proof fn lemma_call_stack_bound(s: CpuState, rnd: u8)
    requires
        wf_state(s),
        s.program_counter + 1 < 4096,
        op_of(word_at(s.memory, s.program_counter as int)) == 2,
    ensures
        s.stack.len() < STACK_SIZE ==> step(s, rnd) is Ok && step(s, rnd)->Ok_0.stack.len()
            == s.stack.len() + 1,
        s.stack.len() == STACK_SIZE ==> step(s, rnd) == Err::<CpuState, CpuError>(
            CpuError {
                kind: FaultKind::StackOverflow,
                program_counter: s.program_counter,
                opcode: word_at(s.memory, s.program_counter as int),
            },
        ),
{
    lemma_not_system(word_at(s.memory, s.program_counter as int));
}

/// Waiting for a key: with no key pressed a cycle leaves the machine exactly
/// as it was, program counter included; with a key pressed it moves on to
/// the next instruction and stores the lowest pressed key in `Vx`.
pub proof fn lemma_get_key_waits(s: CpuState, rnd: u8)
    requires
        wf_state(s),
        s.program_counter + 1 < 4096,
        op_of(word_at(s.memory, s.program_counter as int)) == 0xF,
        imm_of(word_at(s.memory, s.program_counter as int)) == 0x0A,
    ensures
        (forall|k: int| 0 <= k < 16 ==> !s.keys[k]) ==> step(s, rnd) == Ok::<
            CpuState,
            CpuError,
        >(s),
        (exists|k: int| 0 <= k < 16 && s.keys[k]) ==> {
            &&& step(s, rnd) is Ok
            &&& step(s, rnd)->Ok_0.program_counter == s.program_counter + 2
            &&& is_first_pressed(
                s.keys,
                step(s, rnd)->Ok_0.registers[x_of(word_at(s.memory, s.program_counter as int)) as int]
                    as int,
            )
        },
{
    let w = word_at(s.memory, s.program_counter as int);
    lemma_not_system(w);
    lemma_fields_bounded(w);
    if exists|k: int| 0 <= k < 16 && s.keys[k] {
        let k0 = choose|k: int| 0 <= k < 16 && s.keys[k];
        lemma_first_pressed_exists(s.keys, k0);
        let c = choose|c: int| is_first_pressed(s.keys, c);
        let t = step(s, rnd)->Ok_0;
        assert(t.registers[x_of(w) as int] == c as u8);
    }
}

/// When some key is pressed there is a lowest one.
proof fn lemma_first_pressed_exists(keys: Seq<bool>, k: int)
    requires
        0 <= k < 16,
        keys[k],
    ensures
        exists|c: int| is_first_pressed(keys, c),
    decreases k,
{
    if forall|j: int| 0 <= j < k ==> !keys[j] {
        assert(is_first_pressed(keys, k));
    } else {
        let j = choose|j: int| 0 <= j < k && keys[j];
        lemma_first_pressed_exists(keys, j);
    }
}

} // verus!
