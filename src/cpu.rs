//! The interpreter itself: the machine state and the execution of one
//! instruction per cycle.
use vstd::prelude::*;
use rand::Rng;
use crate::machine::{
    add_to_index, arithmetic, bcd, call, cell_of, clear_screen, collides, column_offset, draw, drawn,
    execute, get_key, is_first_pressed, jump_to, key_skip, lemma_cell_of, lemma_fields_bounded,
    lemma_offsets_locate, load_registers, misc, ret, row_offset, set_register, skip_if,
    sprite_bit, sprite_covers, step, store_registers, turns_off, wf_state, CpuError, CpuState,
    FaultKind, DISPLAY_HEIGHT, DISPLAY_SIZE, DISPLAY_WIDTH, FLAG, KEY_COUNT, PROGRAM_START, REGISTER_COUNT, STACK_SIZE,
};
use crate::memory::{copied_in, Memory, MemoryError, MEMORY_SIZE};
use crate::rom::{font_glyphs, font_set, ibm_logo, ibm_program};

verus! {

/// Whether `r` and `after` are what `expected` asks for: on success the new
/// state, on failure the fault and the state left as `before`.
pub open spec fn outcome<E>(
    r: Result<(), E>,
    before: CpuState,
    after: CpuState,
    expected: Result<CpuState, E>,
) -> bool {
    match expected {
        Ok(t) => r is Ok && after == t,
        Err(e) => r == Err::<(), E>(e) && after == before,
    }
}

/// Whether cell `k` has been toggled once the draw has gone through every
/// sprite row before `j` and the columns before `i` of row `j`.
spec fn drawn_before(s: CpuState, vx: u8, vy: u8, n: int, j: int, i: int, k: int) -> bool {
    &&& sprite_covers(s.memory, s.index as int, n, vx, vy, k)
    &&& (row_offset(vy, k) < j || (row_offset(vy, k) == j && column_offset(vx, k) < i))
}

/// Whether a sprite bit among those the draw has gone through turns an on
/// cell off.
spec fn collided_before(s: CpuState, vx: u8, vy: u8, j: int, i: int) -> bool {
    exists|jj: int, ii: int|
        ((0 <= jj < j && 0 <= ii < 8) || (jj == j && 0 <= ii < i)) && #[trigger] turns_off(
            s,
            vx,
            vy,
            jj,
            ii,
        )
}

/// Relies on `rand::thread_rng` and `Rng::gen`: some byte, drawn uniformly.
#[verifier::external_body]
fn random_byte() -> (r: u8) {
    rand::thread_rng().gen::<u8>()
}

/// The interpreter: memory, registers, call stack, timers, key pad and display.
pub struct Cpu {
    memory: Memory,
    registers: Vec<u8>,
    stack: Vec<u16>,
    display: Vec<bool>,
    keys: Vec<bool>,
    index: u16,
    program_counter: u16,
    delay_timer: u8,
    sound_timer: u8,
}

impl View for Cpu {
    type V = CpuState;

    closed spec fn view(&self) -> CpuState {
        CpuState {
            memory: self.memory@,
            registers: self.registers@,
            stack: self.stack@,
            display: self.display@,
            keys: self.keys@,
            index: self.index,
            program_counter: self.program_counter,
            delay_timer: self.delay_timer,
            sound_timer: self.sound_timer,
        }
    }
}

/// The state of a fresh machine: font glyphs at the bottom of memory, the
/// rest zero, everything else cleared, execution at `PROGRAM_START`.
pub open spec fn initial_state() -> CpuState {
    CpuState {
        memory: Seq::new(
            MEMORY_SIZE as nat,
            |a: int|
                if a < 80 {
                    font_glyphs()[a]
                } else {
                    0u8
                },
        ),
        registers: Seq::new(REGISTER_COUNT as nat, |r: int| 0u8),
        stack: Seq::empty(),
        display: Seq::new(DISPLAY_SIZE as nat, |k: int| false),
        keys: Seq::new(KEY_COUNT as nat, |k: int| false),
        index: 0,
        program_counter: PROGRAM_START,
        delay_timer: 0,
        sound_timer: 0,
    }
}

impl Cpu {
    /// Well-formedness: every part has its fixed size and the index fits in
    /// twelve bits.
    pub open spec fn wf(&self) -> bool {
        wf_state(self@)
    }

    /// A fresh machine with the font glyphs loaded at addresses 0 to 79.
    pub fn new() -> (r: Cpu)
        ensures
            r.wf(),
            r@ == initial_state(),
    {
        let mut memory = Memory::new();
        let font = font_set();
        let _ = memory.copy_in(0, font.as_slice());
        let cpu = Cpu {
            memory,
            registers: vec![0u8; REGISTER_COUNT],
            stack: Vec::new(),
            display: vec![false; DISPLAY_SIZE],
            keys: vec![false; KEY_COUNT],
            index: 0,
            program_counter: PROGRAM_START,
            delay_timer: 0,
            sound_timer: 0,
        };
        assert(cpu@.memory =~= initial_state().memory);
        assert(cpu@.registers =~= initial_state().registers);
        assert(cpu@.stack =~= initial_state().stack);
        assert(cpu@.display =~= initial_state().display);
        assert(cpu@.keys =~= initial_state().keys);
        cpu
    }

    /// Copies `program` into memory from `start` on (conventionally
    /// `PROGRAM_START`); fails with `OutOfBounds`, changing nothing, when it
    /// would reach past the last address.
    pub fn load_program(&mut self, program: &[u8], start: u16) -> (r: Result<(), MemoryError>)
        requires
            old(self).wf(),
        ensures
            final(self).wf(),
            start + program@.len() <= MEMORY_SIZE ==> r is Ok && final(self)@ == (CpuState {
                memory: copied_in(old(self)@.memory, start as int, program@),
                ..old(self)@
            }),
            start + program@.len() > MEMORY_SIZE ==> r == Err::<(), MemoryError>(
                MemoryError::OutOfBounds,
            ) && final(self)@ == old(self)@,
    {
        self.memory.copy_in(start as usize, program)
    }

    /// Loads the IBM logo demonstration program at `PROGRAM_START`.
    pub fn load_ibm(&mut self)
        requires
            old(self).wf(),
        ensures
            final(self).wf(),
            final(self)@ == (CpuState {
                memory: copied_in(old(self)@.memory, PROGRAM_START as int, ibm_logo()),
                ..old(self)@
            }),
    {
        let logo = ibm_program();
        let _ = self.memory.copy_in(PROGRAM_START as usize, logo.as_slice());
    }

    /// The memory.
    pub fn memory(&self) -> (r: &Memory)
        requires
            self.wf(),
        ensures
            r.wf(),
            r@ == self@.memory,
    {
        &self.memory
    }

    /// The registers `V0` to `VF`.
    pub fn registers(&self) -> (r: &[u8])
        ensures
            r@ == self@.registers,
    {
        self.registers.as_slice()
    }

    /// The display cells, row-major, `true` for on.
    pub fn display(&self) -> (r: &[bool])
        ensures
            r@ == self@.display,
    {
        self.display.as_slice()
    }

    /// Whether the cell at column `x` and row `y` is on.
    pub fn pixel(&self, x: usize, y: usize) -> (r: bool)
        requires
            self.wf(),
            x < DISPLAY_WIDTH,
            y < DISPLAY_HEIGHT,
        ensures
            r == self@.display[y * DISPLAY_WIDTH + x],
    {
        self.display[y * DISPLAY_WIDTH + x]
    }

    pub fn index(&self) -> (r: u16)
        ensures
            r == self@.index,
    {
        self.index
    }

    pub fn program_counter(&self) -> (r: u16)
        ensures
            r == self@.program_counter,
    {
        self.program_counter
    }

    /// The number of return addresses on the call stack.
    pub fn stack_pointer(&self) -> (r: u8)
        requires
            self.wf(),
        ensures
            r == self@.stack.len(),
    {
        self.stack.len() as u8
    }

    pub fn delay_timer(&self) -> (r: u8)
        ensures
            r == self@.delay_timer,
    {
        self.delay_timer
    }

    pub fn sound_timer(&self) -> (r: u8)
        ensures
            r == self@.sound_timer,
    {
        self.sound_timer
    }

    /// Whether sound should be playing: the sound timer is not zero.
    pub fn sound_active(&self) -> (r: bool)
        ensures
            r == (self@.sound_timer != 0),
    {
        self.sound_timer != 0
    }

    pub fn set_delay_timer(&mut self, value: u8)
        requires
            old(self).wf(),
        ensures
            final(self).wf(),
            final(self)@ == (CpuState { delay_timer: value, ..old(self)@ }),
    {
        self.delay_timer = value;
    }

    pub fn set_sound_timer(&mut self, value: u8)
        requires
            old(self).wf(),
        ensures
            final(self).wf(),
            final(self)@ == (CpuState { sound_timer: value, ..old(self)@ }),
    {
        self.sound_timer = value;
    }

    /// One timer tick: each timer that is not zero goes down by one.
    pub fn decrement_timers(&mut self)
        requires
            old(self).wf(),
        ensures
            final(self).wf(),
            final(self)@ == (CpuState {
                delay_timer: if old(self)@.delay_timer > 0 {
                    (old(self)@.delay_timer - 1) as u8
                } else {
                    0
                },
                sound_timer: if old(self)@.sound_timer > 0 {
                    (old(self)@.sound_timer - 1) as u8
                } else {
                    0
                },
                ..old(self)@
            }),
    {
        if self.delay_timer > 0 {
            self.delay_timer = self.delay_timer - 1;
        }
        if self.sound_timer > 0 {
            self.sound_timer = self.sound_timer - 1;
        }
    }

    /// Whether `key` is held down.
    pub fn is_key_pressed(&self, key: usize) -> (r: bool)
        requires
            self.wf(),
            key < KEY_COUNT,
        ensures
            r == self@.keys[key as int],
    {
        self.keys[key]
    }

    /// Records whether `key` is held down.
    pub fn set_key(&mut self, key: usize, pressed: bool)
        requires
            old(self).wf(),
            key < KEY_COUNT,
        ensures
            final(self).wf(),
            final(self)@ == (CpuState {
                keys: old(self)@.keys.update(key as int, pressed),
                ..old(self)@
            }),
    {
        self.keys.set(key, pressed);
    }

    /// Runs one cycle with a freshly drawn random byte for the random
    /// instruction: the outcome is that of `step` for some byte.
    pub fn cycle(&mut self) -> (r: Result<(), CpuError>)
        requires
            old(self).wf(),
        ensures
            final(self).wf(),
            exists|rnd: u8| outcome(r, old(self)@, final(self)@, step(old(self)@, rnd)),
    {
        let rnd = random_byte();
        self.step(rnd)
    }

    /// Runs one cycle: fetches the word at the program counter, moves past
    /// it and executes it, with `random` as the byte the random instruction
    /// masks. On failure the machine is left as it was.
    pub fn step(&mut self, random: u8) -> (r: Result<(), CpuError>)
        requires
            old(self).wf(),
        ensures
            final(self).wf(),
            outcome(r, old(self)@, final(self)@, step(old(self)@, random)),
    {
        let pc = self.program_counter;
        if pc as usize + 1 >= MEMORY_SIZE {
            return Err(CpuError { kind: FaultKind::OutOfBounds, program_counter: pc, opcode: 0 });
        }
        let bytes = self.memory.as_slice();
        let word: u16 = bytes[pc as usize] as u16 * 256 + bytes[pc as usize + 1] as u16;
        self.program_counter = pc + 2;
        match self.execute(word, random) {
            Ok(()) => Ok(()),
            Err(kind) => {
                self.program_counter = pc;
                Err(CpuError { kind, program_counter: pc, opcode: word })
            },
        }
    }

    /// Decodes `word` and runs the matching instruction.
    fn execute(&mut self, word: u16, random: u8) -> (r: Result<(), FaultKind>)
        requires
            old(self).wf(),
            2 <= old(self).program_counter <= 4096,
        ensures
            final(self).wf(),
            outcome(r, old(self)@, final(self)@, execute(old(self)@, word, random)),
    {
        proof {
            lemma_fields_bounded(word);
        }
        let op: u16 = word >> 12;
        let x: usize = ((word >> 8) & 0xF) as usize;
        let y: usize = ((word >> 4) & 0xF) as usize;
        let n: u16 = word & 0xF;
        let nnn: u16 = word & 0xFFF;
        let nn: u8 = (word & 0xFF) as u8;
        if word == 0x00E0 {
            self.clear_screen();
            Ok(())
        } else if word == 0x00EE {
            self.ret()
        } else if op == 1 {
            self.jump(nnn);
            Ok(())
        } else if op == 2 {
            self.call(nnn)
        } else if op == 3 {
            self.skip_if_equal(x, nn);
            Ok(())
        } else if op == 4 {
            self.skip_if_not_equal(x, nn);
            Ok(())
        } else if op == 5 && n == 0 {
            self.skip_if_registers_equal(x, y);
            Ok(())
        } else if op == 6 {
            self.store(x, nn);
            Ok(())
        } else if op == 7 {
            self.add_to_register(x, nn);
            Ok(())
        } else if op == 8 {
            self.arithmetic(x, y, n)
        } else if op == 9 && n == 0 {
            self.skip_if_registers_not_equal(x, y);
            Ok(())
        } else if op == 0xA {
            self.set_index_register(nnn);
            Ok(())
        } else if op == 0xB {
            self.jump_with_offset(nnn);
            Ok(())
        } else if op == 0xC {
            self.randomize_register(x, nn, random);
            Ok(())
        } else if op == 0xD {
            self.draw(x, y, n as usize)
        } else if op == 0xE {
            self.skip_on_key(x, nn)
        } else if op == 0xF {
            self.misc(x, nn)
        } else {
            Err(FaultKind::UnknownInstruction)
        }
    }

    fn clear_screen(&mut self)
        requires
            old(self).wf(),
        ensures
            final(self).wf(),
            final(self)@ == clear_screen(old(self)@),
    {
        let mut k: usize = 0;
        while k < DISPLAY_SIZE
            invariant
                self.wf(),
                k <= DISPLAY_SIZE,
                self@ == (CpuState { display: self@.display, ..old(self)@ }),
                forall|c: int| 0 <= c < k ==> !self.display@[c],
            decreases DISPLAY_SIZE - k,
        {
            self.display.set(k, false);
            k = k + 1;
        }
        assert(self@.display =~= clear_screen(old(self)@).display);
    }

    fn jump(&mut self, nnn: u16)
        requires
            old(self).wf(),
        ensures
            final(self).wf(),
            final(self)@ == jump_to(old(self)@, nnn),
    {
        self.program_counter = nnn;
    }

    /// Pushes the program counter onto the call stack and jumps to `nnn`;
    /// fails with `StackOverflow`, changing nothing, when the stack is full.
    pub fn call(&mut self, nnn: u16) -> (r: Result<(), FaultKind>)
        requires
            old(self).wf(),
        ensures
            final(self).wf(),
            outcome(r, old(self)@, final(self)@, call(old(self)@, nnn)),
    {
        if self.stack.len() >= STACK_SIZE {
            return Err(FaultKind::StackOverflow);
        }
        self.stack.push(self.program_counter);
        self.program_counter = nnn;
        Ok(())
    }

    /// Pops the newest return address into the program counter; fails with
    /// `StackUnderflow`, changing nothing, when the stack is empty.
    pub fn ret(&mut self) -> (r: Result<(), FaultKind>)
        requires
            old(self).wf(),
        ensures
            final(self).wf(),
            outcome(r, old(self)@, final(self)@, ret(old(self)@)),
    {
        match self.stack.pop() {
            Some(address) => {
                self.program_counter = address;
                Ok(())
            },
            None => Err(FaultKind::StackUnderflow),
        }
    }

    fn skip_if_equal(&mut self, x: usize, nn: u8)
        requires
            old(self).wf(),
            x < REGISTER_COUNT,
            old(self).program_counter <= 0xFFFD,
        ensures
            final(self).wf(),
            final(self)@ == skip_if(old(self)@, old(self)@.registers[x as int] == nn),
    {
        if self.registers[x] == nn {
            self.program_counter = self.program_counter + 2;
        }
    }

    fn skip_if_not_equal(&mut self, x: usize, nn: u8)
        requires
            old(self).wf(),
            x < REGISTER_COUNT,
            old(self).program_counter <= 0xFFFD,
        ensures
            final(self).wf(),
            final(self)@ == skip_if(old(self)@, old(self)@.registers[x as int] != nn),
    {
        if self.registers[x] != nn {
            self.program_counter = self.program_counter + 2;
        }
    }

    fn skip_if_registers_equal(&mut self, x: usize, y: usize)
        requires
            old(self).wf(),
            x < REGISTER_COUNT,
            y < REGISTER_COUNT,
            old(self).program_counter <= 0xFFFD,
        ensures
            final(self).wf(),
            final(self)@ == skip_if(
                old(self)@,
                old(self)@.registers[x as int] == old(self)@.registers[y as int],
            ),
    {
        if self.registers[x] == self.registers[y] {
            self.program_counter = self.program_counter + 2;
        }
    }

    fn skip_if_registers_not_equal(&mut self, x: usize, y: usize)
        requires
            old(self).wf(),
            x < REGISTER_COUNT,
            y < REGISTER_COUNT,
            old(self).program_counter <= 0xFFFD,
        ensures
            final(self).wf(),
            final(self)@ == skip_if(
                old(self)@,
                old(self)@.registers[x as int] != old(self)@.registers[y as int],
            ),
    {
        if self.registers[x] != self.registers[y] {
            self.program_counter = self.program_counter + 2;
        }
    }

    fn store(&mut self, x: usize, nn: u8)
        requires
            old(self).wf(),
            x < REGISTER_COUNT,
        ensures
            final(self).wf(),
            final(self)@ == set_register(old(self)@, x as int, nn),
    {
        self.registers.set(x, nn);
    }

    fn add_to_register(&mut self, x: usize, nn: u8)
        requires
            old(self).wf(),
            x < REGISTER_COUNT,
        ensures
            final(self).wf(),
            final(self)@ == set_register(
                old(self)@,
                x as int,
                ((old(self)@.registers[x as int] + nn) % 256) as u8,
            ),
    {
        let v = self.registers[x].wrapping_add(nn);
        self.registers.set(x, v);
    }

    /// The `8xyn` group; the flag is written last.
    fn arithmetic(&mut self, x: usize, y: usize, n: u16) -> (r: Result<(), FaultKind>)
        requires
            old(self).wf(),
            x < REGISTER_COUNT,
            y < REGISTER_COUNT,
        ensures
            final(self).wf(),
            outcome(r, old(self)@, final(self)@, arithmetic(old(self)@, x as int, y as int, n)),
    {
        let vx = self.registers[x];
        let vy = self.registers[y];
        if n == 0 {
            self.registers.set(x, vy);
        } else if n == 1 {
            self.registers.set(x, vx | vy);
        } else if n == 2 {
            self.registers.set(x, vx & vy);
        } else if n == 3 {
            self.registers.set(x, vx ^ vy);
        } else if n == 4 {
            let sum: u16 = vx as u16 + vy as u16;
            self.registers.set(x, (sum % 256) as u8);
            self.registers.set(FLAG, if sum > 255 { 1 } else { 0 });
        } else if n == 5 {
            self.registers.set(x, vx.wrapping_sub(vy));
            self.registers.set(FLAG, if vx >= vy { 1 } else { 0 });
        } else if n == 6 {
            self.registers.set(x, vy >> 1);
            self.registers.set(FLAG, vy & 1);
            assert(vy >> 1 == vy / 2) by (bit_vector);
            assert(vy & 1 == vy % 2) by (bit_vector);
        } else if n == 7 {
            self.registers.set(x, vy.wrapping_sub(vx));
            self.registers.set(FLAG, if vy >= vx { 1 } else { 0 });
        } else if n == 0xE {
            self.registers.set(x, vy << 1);
            self.registers.set(FLAG, vy >> 7);
            assert(vy << 1 == (vy * 2) % 256) by (bit_vector);
            assert(vy >> 7 == vy / 128) by (bit_vector);
        } else {
            return Err(FaultKind::UnknownInstruction);
        }
        Ok(())
    }

    fn set_index_register(&mut self, nnn: u16)
        requires
            old(self).wf(),
            nnn <= 0xFFF,
        ensures
            final(self).wf(),
            final(self)@ == (CpuState { index: nnn, ..old(self)@ }),
    {
        self.index = nnn;
    }

    /// Jumps to `nnn + V0`.
    fn jump_with_offset(&mut self, nnn: u16)
        requires
            old(self).wf(),
            nnn <= 0xFFF,
        ensures
            final(self).wf(),
            final(self)@ == jump_to(old(self)@, (nnn + old(self)@.registers[0]) as u16),
    {
        self.program_counter = nnn + self.registers[0] as u16;
    }

    /// Sets `Vx` to `random & nn`.
    fn randomize_register(&mut self, x: usize, nn: u8, random: u8)
        requires
            old(self).wf(),
            x < REGISTER_COUNT,
        ensures
            final(self).wf(),
            final(self)@ == set_register(old(self)@, x as int, random & nn),
    {
        self.registers.set(x, random & nn);
    }

    /// Draws the `n`-row sprite at `index` at `(Vx, Vy)` by toggling cells,
    /// setting the flag when a cell goes from on to off; fails with
    /// `OutOfBounds`, changing nothing, when the sprite reaches past memory.
    pub fn draw(&mut self, x: usize, y: usize, n: usize) -> (r: Result<(), FaultKind>)
        requires
            old(self).wf(),
            x < REGISTER_COUNT,
            y < REGISTER_COUNT,
            n < 16,
        ensures
            final(self).wf(),
            outcome(r, old(self)@, final(self)@, draw(old(self)@, x as int, y as int, n as int)),
    {
        let index = self.index as usize;
        if index + n > MEMORY_SIZE {
            return Err(FaultKind::OutOfBounds);
        }
        let vx = self.registers[x];
        let vy = self.registers[y];
        let ghost s0 = self@;
        let mut collided = false;
        let mut j: usize = 0;
        while j < n
            invariant
                self.wf(),
                n < 16,
                j <= n,
                index == s0.index,
                index + n <= MEMORY_SIZE,
                self@ == (CpuState { display: self@.display, ..s0 }),
                forall|k: int|
                    0 <= k < DISPLAY_SIZE ==> #[trigger] self@.display[k] == (s0.display[k]
                        != drawn_before(s0, vx, vy, n as int, j as int, 0, k)),
                collided == collided_before(s0, vx, vy, j as int, 0),
            decreases n - j,
        {
            let row = self.memory.as_slice()[index + j];
            let mut i: usize = 0;
            while i < 8
                invariant
                    self.wf(),
                    n < 16,
                    j < n,
                    i <= 8,
                    index == s0.index,
                    index + n <= MEMORY_SIZE,
                    row == s0.memory[index + j],
                    self@ == (CpuState { display: self@.display, ..s0 }),
                    forall|k: int|
                        0 <= k < DISPLAY_SIZE ==> #[trigger] self@.display[k] == (s0.display[k]
                            != drawn_before(s0, vx, vy, n as int, j as int, i as int, k)),
                    collided == collided_before(s0, vx, vy, j as int, i as int),
                decreases 8 - i,
            {
                let ghost before = self@.display;
                let ghost was = collided;
                let cell = ((vy as usize + j) % 32) * 64 + (vx as usize + i) % 64;
                proof {
                    lemma_cell_of(vx, vy, j as int, i as int);
                }
                let set = row & (0x80u8 >> (i as u8)) != 0;
                if set {
                    let on = self.display[cell];
                    if on {
                        collided = true;
                    }
                    self.display.set(cell, !on);
                }
                proof {
                    assert(cell == cell_of(vx, vy, j as int, i as int));
                    assert(set == sprite_bit(row, i as int));
                    assert forall|k: int| 0 <= k < DISPLAY_SIZE implies #[trigger] self@.display[k]
                        == (s0.display[k] != drawn_before(
                        s0,
                        vx,
                        vy,
                        n as int,
                        j as int,
                        i + 1,
                        k,
                    )) by {
                        lemma_offsets_locate(vx, vy, k);
                        if k != cell {
                            assert(before[k] == self@.display[k]);
                        }
                    }
                    assert(turns_off(s0, vx, vy, j as int, i as int) == (set && s0.display[cell as int]));
                    if collided {
                        if !was {
                            assert(turns_off(s0, vx, vy, j as int, i as int));
                        }
                    } else {
                        assert forall|jj: int, ii: int|
                            ((0 <= jj < j && 0 <= ii < 8) || (jj == j && 0 <= ii < i + 1))
                            implies !#[trigger] turns_off(s0, vx, vy, jj, ii) by {
                            if jj == j && ii == i {
                            } else {
                                assert(!collided_before(s0, vx, vy, j as int, i as int));
                            }
                        }
                    }
                }
                i = i + 1;
            }
            proof {
                assert forall|k: int| 0 <= k < DISPLAY_SIZE implies drawn_before(s0, vx, vy, n as int, j as int, 8, k)
                    == drawn_before(s0, vx, vy, n as int, j + 1, 0, k) by {}
                if !collided {
                    assert forall|jj: int, ii: int|
                        0 <= jj < j + 1 && 0 <= ii < 8 implies !#[trigger] turns_off(s0, vx, vy, jj, ii) by {
                        assert(!collided_before(s0, vx, vy, j as int, 8));
                    }
                }
            }
            j = j + 1;
        }
        proof {
            assert forall|k: int| 0 <= k < DISPLAY_SIZE implies drawn_before(s0, vx, vy, n as int, n as int, 0, k)
                == sprite_covers(s0.memory, s0.index as int, n as int, vx, vy, k) by {}
            assert(self@.display =~= drawn(s0, vx, vy, n as int));
            if collided {
                let (jj, ii) = choose|jj: int, ii: int| ((0 <= jj < j && 0 <= ii < 8) || (jj == j && 0 <= ii < 0)) && #[trigger] turns_off(s0, vx, vy, jj, ii);
                assert(turns_off(s0, vx, vy, jj, ii));
            }
            assert(collided == collides(s0, vx, vy, n as int));
        }
        self.registers.set(FLAG, if collided { 1 } else { 0 });
        Ok(())
    }

    /// The `Exnn` group.
    fn skip_on_key(&mut self, x: usize, nn: u8) -> (r: Result<(), FaultKind>)
        requires
            old(self).wf(),
            x < REGISTER_COUNT,
            old(self).program_counter <= 0xFFFD,
        ensures
            final(self).wf(),
            outcome(r, old(self)@, final(self)@, key_skip(old(self)@, x as int, nn)),
    {
        let vx = self.registers[x];
        assert(vx & 0xF < 16) by (bit_vector);
        let key = (vx & 0xF) as usize;
        if nn == 0x9E {
            if self.keys[key] {
                self.program_counter = self.program_counter + 2;
            }
            Ok(())
        } else if nn == 0xA1 {
            if !self.keys[key] {
                self.program_counter = self.program_counter + 2;
            }
            Ok(())
        } else {
            Err(FaultKind::UnknownInstruction)
        }
    }

    /// The `Fxnn` group.
    fn misc(&mut self, x: usize, nn: u8) -> (r: Result<(), FaultKind>)
        requires
            old(self).wf(),
            x < REGISTER_COUNT,
            2 <= old(self).program_counter,
        ensures
            final(self).wf(),
            outcome(r, old(self)@, final(self)@, misc(old(self)@, x as int, nn)),
    {
        if nn == 0x07 {
            self.set_register_to_delay_timer(x);
        } else if nn == 0x15 {
            self.set_delay_timer_to_register(x);
        } else if nn == 0x18 {
            self.set_sound_timer_to_register(x);
        } else if nn == 0x1E {
            self.add_to_index();
        } else if nn == 0x0A {
            self.get_key(x);
        } else if nn == 0x29 {
            self.get_font_character(x);
        } else if nn == 0x33 {
            return self.binary_coded_decimal_conversion(x);
        } else if nn == 0x55 {
            return self.store_registers(x);
        } else if nn == 0x65 {
            return self.load_registers(x);
        } else {
            return Err(FaultKind::UnknownInstruction);
        }
        Ok(())
    }

    fn set_register_to_delay_timer(&mut self, x: usize)
        requires
            old(self).wf(),
            x < REGISTER_COUNT,
        ensures
            final(self).wf(),
            final(self)@ == set_register(old(self)@, x as int, old(self)@.delay_timer),
    {
        let t = self.delay_timer;
        self.registers.set(x, t);
    }

    fn set_delay_timer_to_register(&mut self, x: usize)
        requires
            old(self).wf(),
            x < REGISTER_COUNT,
        ensures
            final(self).wf(),
            final(self)@ == (CpuState {
                delay_timer: old(self)@.registers[x as int],
                ..old(self)@
            }),
    {
        self.delay_timer = self.registers[x];
    }

    fn set_sound_timer_to_register(&mut self, x: usize)
        requires
            old(self).wf(),
            x < REGISTER_COUNT,
        ensures
            final(self).wf(),
            final(self)@ == (CpuState {
                sound_timer: old(self)@.registers[x as int],
                ..old(self)@
            }),
    {
        self.sound_timer = self.registers[x];
    }

    /// Adds eight to the index, wrapping to twelve bits with the flag set.
    fn add_to_index(&mut self)
        requires
            old(self).wf(),
        ensures
            final(self).wf(),
            final(self)@ == add_to_index(old(self)@),
    {
        let i = self.index + 8;
        if i > 0x0FFF {
            self.index = i & 0x0FFF;
            self.registers.set(FLAG, 1);
            assert(i & 0x0FFF == i % 0x1000) by (bit_vector);
        } else {
            self.index = i;
        }
    }

    /// Stores the lowest pressed key in `Vx`, or, with none pressed, moves the
    /// program counter back so that the instruction runs again.
    fn get_key(&mut self, x: usize)
        requires
            old(self).wf(),
            x < REGISTER_COUNT,
            2 <= old(self).program_counter,
        ensures
            final(self).wf(),
            final(self)@ == get_key(old(self)@, x as int),
    {
        let mut k: usize = 0;
        while k < KEY_COUNT
            invariant
                self@ == old(self)@,
                self.wf(),
                x < REGISTER_COUNT,
                2 <= self.program_counter,
                k <= KEY_COUNT,
                forall|j: int| 0 <= j < k ==> !self.keys@[j],
            decreases KEY_COUNT - k,
        {
            if self.keys[k] {
                proof {
                    let keys = self.keys@;
                    assert(is_first_pressed(keys, k as int));
                    let c = choose|c: int| is_first_pressed(keys, c);
                    assert(c == k) by {
                        if c < k {
                            assert(!keys[c]);
                        } else if c > k {
                            assert(!keys[k as int]);
                        }
                    }
                }
                self.registers.set(x, k as u8);
                return;
            }
            k = k + 1;
        }
        self.program_counter = self.program_counter - 2;
    }

    /// Points the index at the glyph of the low nibble of `Vx`.
    fn get_font_character(&mut self, x: usize)
        requires
            old(self).wf(),
            x < REGISTER_COUNT,
        ensures
            final(self).wf(),
            final(self)@ == (CpuState {
                index: ((old(self)@.registers[x as int] % 16) * 5) as u16,
                ..old(self)@
            }),
    {
        let vx = self.registers[x];
        self.index = ((vx & 0x0F) as u16) * 5;
        assert(vx & 0x0F == vx % 16) by (bit_vector);
    }

    fn binary_coded_decimal_conversion(&mut self, x: usize) -> (r: Result<(), FaultKind>)
        requires
            old(self).wf(),
            x < REGISTER_COUNT,
        ensures
            final(self).wf(),
            outcome(r, old(self)@, final(self)@, bcd(old(self)@, x as int)),
    {
        let index = self.index as usize;
        if index + 3 > MEMORY_SIZE {
            return Err(FaultKind::OutOfBounds);
        }
        let vx = self.registers[x];
        let _ = self.memory.write(index, vx / 100);
        let _ = self.memory.write(index + 1, (vx / 10) % 10);
        let _ = self.memory.write(index + 2, vx % 10);
        Ok(())
    }

    fn store_registers(&mut self, x: usize) -> (r: Result<(), FaultKind>)
        requires
            old(self).wf(),
            x < REGISTER_COUNT,
        ensures
            final(self).wf(),
            outcome(r, old(self)@, final(self)@, store_registers(old(self)@, x as int)),
    {
        let index = self.index as usize;
        if index + x + 1 > MEMORY_SIZE {
            return Err(FaultKind::OutOfBounds);
        }
        let ghost s0 = self@;
        let mut r: usize = 0;
        while r <= x
            invariant
                self.wf(),
                x < REGISTER_COUNT,
                index == s0.index,
                index + x + 1 <= MEMORY_SIZE,
                r <= x + 1,
                self@ == (CpuState { memory: self@.memory, ..s0 }),
                forall|a: int|
                    0 <= a < MEMORY_SIZE ==> #[trigger] self@.memory[a] == if index <= a < index
                        + r {
                        s0.registers[a - index]
                    } else {
                        s0.memory[a]
                    },
            decreases x + 1 - r,
        {
            let v = self.registers[r];
            let _ = self.memory.write(index + r, v);
            r = r + 1;
        }
        assert(self@.memory =~= store_registers(s0, x as int)->Ok_0.memory);
        Ok(())
    }

    fn load_registers(&mut self, x: usize) -> (r: Result<(), FaultKind>)
        requires
            old(self).wf(),
            x < REGISTER_COUNT,
        ensures
            final(self).wf(),
            outcome(r, old(self)@, final(self)@, load_registers(old(self)@, x as int)),
    {
        let index = self.index as usize;
        if index + x + 1 > MEMORY_SIZE {
            return Err(FaultKind::OutOfBounds);
        }
        let ghost s0 = self@;
        let mut r: usize = 0;
        while r <= x
            invariant
                self.wf(),
                x < REGISTER_COUNT,
                index == s0.index,
                index + x + 1 <= MEMORY_SIZE,
                r <= x + 1,
                self@ == (CpuState { registers: self@.registers, ..s0 }),
                forall|q: int|
                    0 <= q < REGISTER_COUNT ==> #[trigger] self@.registers[q] == if q < r {
                        s0.memory[index + q]
                    } else {
                        s0.registers[q]
                    },
            decreases x + 1 - r,
        {
            let v = self.memory.as_slice()[index + r];
            self.registers.set(r, v);
            r = r + 1;
        }
        assert(self@.registers =~= load_registers(s0, x as int)->Ok_0.registers);
        Ok(())
    }
}

} // verus!
