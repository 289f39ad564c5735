use vstd::prelude::*;
use crate::display::{blank, collides, drawn, Display, CELLS, HEIGHT, WIDTH};
use crate::error::Chip8Error;
use crate::instruction::{decode, decode_spec, Instruction};
use crate::memory::{font_bytes, font_table, write_spec, Memory, FONT_LEN, FONT_START, MEMORY_SIZE, PROGRAM_START};
use crate::stack::{pop_spec, push_spec, CallStack, STACK_DEPTH};

verus! {

/// Number of general-purpose registers; the last one is the flag register.
pub const NUM_REGISTERS: usize = 16;

/// Index of the flag register VF.
pub const FLAG: u8 = 15;

/// Number of keys on the keypad.
pub const NUM_KEYS: usize = 16;

/// The whole observable state of an interpreter.
pub struct Machine {
    /// The 4096 bytes of memory.
    pub memory: Seq<u8>,
    /// The sixteen general registers V0 to VF.
    pub v: Seq<u8>,
    /// The index register I.
    pub index: u16,
    /// The program counter.
    pub pc: u16,
    /// The return addresses, oldest first.
    pub stack: Seq<u16>,
    /// The delay timer.
    pub delay: u8,
    /// The sound timer.
    pub sound: u8,
    /// The 64 x 32 pixels, row after row.
    pub display: Seq<bool>,
    /// Which of the sixteen keys are down.
    pub keys: Seq<bool>,
    /// The register awaiting a key press, while one is awaited.
    pub waiting: Option<u8>,
    /// The error that halted the interpreter, once it has halted.
    pub halted: Option<Chip8Error>,
    /// The state of the random generator.
    pub rng: u32,
}

impl Machine {
    /// The sizes of the parts, and the ranges of the index register and of
    /// the register awaiting a key.
    pub open spec fn wf(&self) -> bool {
        &&& self.memory.len() == MEMORY_SIZE
        &&& self.v.len() == NUM_REGISTERS
        &&& self.index < MEMORY_SIZE
        &&& self.stack.len() <= STACK_DEPTH
        &&& self.display.len() == CELLS
        &&& self.keys.len() == NUM_KEYS
        &&& self.waiting matches Some(x) ==> x < NUM_REGISTERS
    }
}

/// `m` with register `x` set to `val`.
pub open spec fn set_reg(m: Machine, x: u8, val: u8) -> Machine {
    Machine { v: m.v.update(x as int, val), ..m }
}

/// `m` with register `x` set to `val`, then the flag register to `flag`.
pub open spec fn with_flag(m: Machine, x: u8, val: u8, flag: bool) -> Machine {
    set_reg(set_reg(m, x, val), FLAG, if flag { 1u8 } else { 0u8 })
}

/// `m` with the next instruction skipped where `cond` holds.
pub open spec fn skip_if(m: Machine, cond: bool) -> Machine {
    if cond { Machine { pc: (m.pc + 2) as u16, ..m } } else { m }
}

/// The next state of the linear congruential random generator.
pub open spec fn lcg_next(s: u32) -> u32 {
    ((s as int * 1103515245 + 12345) % 0x1_0000_0000) as u32
}

/// The random byte that generator state `s` yields.
pub open spec fn random_byte(s: u32) -> u8 {
    ((s / 65536) % 256) as u8
}

/// The decimal digits of `b`: hundreds, tens, ones.
pub open spec fn decimal_digits(b: u8) -> Seq<u8> {
    seq![b / 100, (b / 10) % 10, b % 10]
}

/// `m` with `bytes` written from the index register on, as `write_spec`
/// says; a write past the last address is an access out of bounds,
/// reported at 4096, the first address past the end (the index register
/// never exceeds 4095).
pub open spec fn store(m: Machine, bytes: Seq<u8>) -> Result<Machine, Chip8Error> {
    match write_spec(m.memory, bytes, m.index as int) {
        Ok(mem) => Ok(Machine { memory: mem, ..m }),
        Err(_) => Err(Chip8Error::OutOfBounds(MEMORY_SIZE as u16)),
    }
}

/// The effect of executing `ins` on `m`, whose program counter already
/// points past the instruction.
pub open spec fn exec_spec(m: Machine, ins: Instruction) -> Result<Machine, Chip8Error> {
    match ins {
        Instruction::Cls => Ok(Machine { display: blank(), ..m }),
        Instruction::Ret => match pop_spec(m.stack) {
            Ok((s, a)) => Ok(Machine { stack: s, pc: a, ..m }),
            Err(e) => Err(e),
        },
        Instruction::Jp { nnn } => Ok(Machine { pc: nnn, ..m }),
        Instruction::Call { nnn } => match push_spec(m.stack, m.pc) {
            Ok(s) => Ok(Machine { stack: s, pc: nnn, ..m }),
            Err(e) => Err(e),
        },
        Instruction::SeImm { x, nn } => Ok(skip_if(m, m.v[x as int] == nn)),
        Instruction::SneImm { x, nn } => Ok(skip_if(m, m.v[x as int] != nn)),
        Instruction::SeReg { x, y } => Ok(skip_if(m, m.v[x as int] == m.v[y as int])),
        Instruction::SneReg { x, y } => Ok(skip_if(m, m.v[x as int] != m.v[y as int])),
        Instruction::LdImm { x, nn } => Ok(set_reg(m, x, nn)),
        Instruction::AddImm { x, nn } => Ok(set_reg(m, x, ((m.v[x as int] + nn) % 256) as u8)),
        Instruction::LdReg { x, y } => Ok(set_reg(m, x, m.v[y as int])),
        Instruction::Or { x, y } => Ok(set_reg(m, x, m.v[x as int] | m.v[y as int])),
        Instruction::And { x, y } => Ok(set_reg(m, x, m.v[x as int] & m.v[y as int])),
        Instruction::Xor { x, y } => Ok(set_reg(m, x, m.v[x as int] ^ m.v[y as int])),
        Instruction::AddReg { x, y } => {
            let sum = m.v[x as int] + m.v[y as int];
            Ok(with_flag(m, x, (sum % 256) as u8, sum > 255))
        },
        Instruction::Sub { x, y } => {
            let (a, b) = (m.v[x as int], m.v[y as int]);
            Ok(with_flag(m, x, ((a - b) % 256) as u8, a >= b))
        },
        Instruction::Subn { x, y } => {
            let (a, b) = (m.v[x as int], m.v[y as int]);
            Ok(with_flag(m, x, ((b - a) % 256) as u8, b >= a))
        },
        Instruction::Shr { x, .. } => {
            let a = m.v[x as int];
            Ok(with_flag(m, x, a / 2, a % 2 == 1))
        },
        Instruction::Shl { x, .. } => {
            let a = m.v[x as int];
            Ok(with_flag(m, x, ((a * 2) % 256) as u8, a >= 128))
        },
        Instruction::LdI { nnn } => Ok(Machine { index: nnn, ..m }),
        Instruction::JpV0 { nnn } => Ok(Machine { pc: (nnn + m.v[0]) as u16, ..m }),
        Instruction::Rnd { x, nn } => {
            let s = lcg_next(m.rng);
            Ok(set_reg(Machine { rng: s, ..m }, x, random_byte(s) & nn))
        },
        Instruction::Drw { x, y, n } => {
            if m.index + n > MEMORY_SIZE {
                Err(Chip8Error::OutOfBounds(MEMORY_SIZE as u16))
            } else {
                let sprite = m.memory.subrange(m.index as int, m.index + n);
                let (px, py) = (m.v[x as int] as int, m.v[y as int] as int);
                let hit = collides(m.display, px, py, sprite);
                Ok(set_reg(Machine { display: drawn(m.display, px, py, sprite), ..m }, FLAG,
                    if hit { 1u8 } else { 0u8 }))
            }
        },
        Instruction::Skp { x } => Ok(skip_if(m, m.keys[(m.v[x as int] % 16) as int])),
        Instruction::Sknp { x } => Ok(skip_if(m, !m.keys[(m.v[x as int] % 16) as int])),
        Instruction::LdVxDt { x } => Ok(set_reg(m, x, m.delay)),
        Instruction::LdKey { x } => Ok(Machine { waiting: Some(x), ..m }),
        Instruction::LdDtVx { x } => Ok(Machine { delay: m.v[x as int], ..m }),
        Instruction::LdStVx { x } => Ok(Machine { sound: m.v[x as int], ..m }),
        Instruction::AddI { x } => Ok(Machine { index: ((m.index + m.v[x as int]) % 4096) as u16, ..m }),
        Instruction::LdF { x } => Ok(Machine { index: (FONT_START + (m.v[x as int] % 16) * 5) as u16, ..m }),
        Instruction::LdB { x } => store(m, decimal_digits(m.v[x as int])),
        Instruction::StoreRegs { x } => store(m, m.v.take(x + 1)),
        Instruction::LoadRegs { x } => {
            if m.index + x + 1 > MEMORY_SIZE {
                Err(Chip8Error::OutOfBounds(MEMORY_SIZE as u16))
            } else {
                Ok(Machine {
                    v: Seq::new(NUM_REGISTERS as nat, |r: int|
                        if r <= x { m.memory[m.index + r] } else { m.v[r] }),
                    ..m
                })
            }
        },
    }
}

/// `m` halted by `e`.
pub open spec fn halt(m: Machine, e: Chip8Error) -> Machine {
    Machine { halted: Some(e), ..m }
}

/// The big-endian word at the program counter.
pub open spec fn fetch_word(m: Machine) -> u16 {
    (m.memory[m.pc as int] * 256 + m.memory[m.pc + 1]) as u16
}

/// One step of the interpreter on `m`: the next state and the outcome.
/// A halted interpreter reports its error again; one awaiting a key does
/// nothing; otherwise the word at the program counter is fetched, the
/// counter advanced by two, and the instruction decoded and executed. Every
/// failure halts.
pub open spec fn step_spec(m: Machine) -> (Machine, Result<(), Chip8Error>) {
    match m.halted {
        Some(e) => (m, Err(e)),
        None => {
            if m.waiting is Some {
                (m, Ok(()))
            } else if m.pc + 1 >= MEMORY_SIZE {
                let e = Chip8Error::OutOfBounds(
                    if m.pc >= MEMORY_SIZE { m.pc } else { (m.pc + 1) as u16 });
                (halt(m, e), Err(e))
            } else {
                let w = fetch_word(m);
                let m1 = Machine { pc: (m.pc + 2) as u16, ..m };
                match decode_spec(w) {
                    None => {
                        let e = Chip8Error::UnknownOpcode(w, m.pc);
                        (halt(m1, e), Err(e))
                    },
                    Some(ins) => match exec_spec(m1, ins) {
                        Ok(m2) => (m2, Ok(())),
                        Err(e) => (halt(m1, e), Err(e)),
                    },
                }
            }
        },
    }
}

/// The state of a fresh interpreter: zeroed memory with the font table at
/// its reserved address, everything else zero, blank and empty, and the
/// program counter at the program start.
pub open spec fn initial_machine() -> Machine {
    Machine {
        memory: write_spec(Seq::new(MEMORY_SIZE as nat, |a: int| 0u8), font_table(), FONT_START as int)->Ok_0,
        v: Seq::new(NUM_REGISTERS as nat, |r: int| 0u8),
        index: 0,
        pc: PROGRAM_START,
        stack: Seq::empty(),
        delay: 0,
        sound: 0,
        display: blank(),
        keys: Seq::new(NUM_KEYS as nat, |k: int| false),
        waiting: None,
        halted: None,
        rng: 0,
    }
}

/// A CHIP-8 interpreter instance.
#[derive(Debug)]
pub struct Emulator {
    memory: Memory,
    display: Display,
    stack: CallStack,
    registers: Vec<u8>,
    index_register: u16,
    program_counter: u16,
    delay_timer: u8,
    sound_timer: u8,
    keys: Vec<bool>,
    waiting: Option<u8>,
    halted: Option<Chip8Error>,
    rng: u32,
}

impl View for Emulator {
    type V = Machine;

    closed spec fn view(&self) -> Machine {
        Machine {
            memory: self.memory@,
            v: self.registers@,
            index: self.index_register,
            pc: self.program_counter,
            stack: self.stack@,
            delay: self.delay_timer,
            sound: self.sound_timer,
            display: self.display@,
            keys: self.keys@,
            waiting: self.waiting,
            halted: self.halted,
            rng: self.rng,
        }
    }
}

proof fn lemma_wrapping_difference(a: u8, b: u8)
    ensures
        (a + 256 - b) % 256 == (a - b) % 256,
{
    if a >= b {
        assert((a + 256 - b) % 256 == a - b);
    } else {
        assert((a - b) % 256 == a + 256 - b);
    }
}

/// Adding register `y` to register `x` leaves `(Vx + Vy) mod 256` in `x`
/// and 1 in the flag register exactly when `Vx + Vy > 255`, else 0; no
/// other register changes. (With `x` the flag register itself, the flag
/// overwrites the sum.)
pub proof fn lemma_add_carry(m: Machine, x: u8, y: u8)
    requires
        m.wf(),
        x < FLAG,
        y < NUM_REGISTERS,
    ensures
        exec_spec(m, Instruction::AddReg { x, y }) matches Ok(m2) && {
            &&& m2.v[x as int] == (m.v[x as int] + m.v[y as int]) % 256
            &&& m2.v[FLAG as int] == if m.v[x as int] + m.v[y as int] > 255 { 1u8 } else { 0u8 }
            &&& forall|r: int| 0 <= r < NUM_REGISTERS && r != x && r != FLAG ==> m2.v[r] == m.v[r]
        },
{
}

/// Subtracting register `y` from register `x` leaves `(Vx - Vy) mod 256`
/// in `x` and 1 in the flag register exactly when `Vx >= Vy`, else 0; no
/// other register changes. (With `x` the flag register itself, the flag
/// overwrites the difference.)
pub proof fn lemma_sub_borrow(m: Machine, x: u8, y: u8)
    requires
        m.wf(),
        x < FLAG,
        y < NUM_REGISTERS,
    ensures
        exec_spec(m, Instruction::Sub { x, y }) matches Ok(m2) && {
            &&& m2.v[x as int] == (m.v[x as int] - m.v[y as int]) % 256
            &&& m2.v[FLAG as int] == if m.v[x as int] >= m.v[y as int] { 1u8 } else { 0u8 }
            &&& forall|r: int| 0 <= r < NUM_REGISTERS && r != x && r != FLAG ==> m2.v[r] == m.v[r]
        },
{
}

/// A step that runs `CALL addr` (word `2nnn`) pushes the address of the
/// next instruction and jumps to `addr`; a later step that runs `RET` on
/// the stack as the call left it returns to that address and pops it.
pub proof fn lemma_call_return(m: Machine, addr: u16, later: Machine)
    requires
        m.wf(),
        m.halted is None,
        m.waiting is None,
        m.pc + 1 < MEMORY_SIZE,
        addr < 4096,
        fetch_word(m) == 0x2000 + addr,
        m.stack.len() < STACK_DEPTH,
        later.wf(),
        later.halted is None,
        later.waiting is None,
        later.pc + 1 < MEMORY_SIZE,
        fetch_word(later) == 0x00EE,
        later.stack == m.stack.push((m.pc + 2) as u16),
    ensures
        step_spec(m) == (Machine { pc: addr, stack: m.stack.push((m.pc + 2) as u16), ..m }, Ok::<(), Chip8Error>(())),
        step_spec(later) == (Machine { pc: (m.pc + 2) as u16, stack: m.stack, ..later }, Ok::<(), Chip8Error>(())),
{
    let w = fetch_word(m);
    assert(decode_spec(w) == Some(Instruction::Call { nnn: addr }));
    assert(later.stack.drop_last() =~= m.stack);
}

/// A step that runs a jump to its own address (word `1nnn` at `nnn`)
/// changes nothing: repeated steps keep the program counter where it is.
pub proof fn lemma_jump_to_self(m: Machine)
    requires
        m.wf(),
        m.halted is None,
        m.waiting is None,
        m.pc + 1 < MEMORY_SIZE,
        fetch_word(m) == 0x1000 + m.pc,
    ensures
        step_spec(m) == (m, Ok::<(), Chip8Error>(())),
{
    assert(decode_spec(fetch_word(m)) == Some(Instruction::Jp { nnn: m.pc }));
}

/// Sixteen zero bytes.
fn zeroed_registers() -> (r: Vec<u8>)
    ensures
        r@ == Seq::new(NUM_REGISTERS as nat, |i: int| 0u8),
{
    let mut r: Vec<u8> = Vec::new();
    let mut i: usize = 0;
    while i < NUM_REGISTERS
        invariant
            i <= NUM_REGISTERS,
            r@ == Seq::new(i as nat, |j: int| 0u8),
        decreases NUM_REGISTERS - i,
    {
        r.push(0u8);
        i = i + 1;
        assert(r@ =~= Seq::new(i as nat, |j: int| 0u8));
    }
    r
}

/// Sixteen keys, all up.
fn released_keys() -> (r: Vec<bool>)
    ensures
        r@ == Seq::new(NUM_KEYS as nat, |i: int| false),
{
    let mut r: Vec<bool> = Vec::new();
    let mut i: usize = 0;
    while i < NUM_KEYS
        invariant
            i <= NUM_KEYS,
            r@ == Seq::new(i as nat, |j: int| false),
        decreases NUM_KEYS - i,
    {
        r.push(false);
        i = i + 1;
        assert(r@ =~= Seq::new(i as nat, |j: int| false));
    }
    r
}

impl Emulator {
    /// The components are well formed and the state satisfies `Machine::wf`.
    pub closed spec fn wf(&self) -> bool {
        &&& self.memory.wf()
        &&& self.display.wf()
        &&& self.stack.wf()
        &&& self@.wf()
    }

    /// A fresh interpreter, running, with the font table loaded and the
    /// program counter at the program start.
    pub fn new() -> (r: Self)
        ensures
            r.wf(),
            r@ == initial_machine(),
            r@.memory.subrange(FONT_START as int, FONT_START + FONT_LEN) == font_table(),
    {
        let mut emulator = Emulator {
            memory: Memory::new(),
            display: Display::new(),
            stack: CallStack::new(),
            registers: zeroed_registers(),
            index_register: 0,
            program_counter: PROGRAM_START,
            delay_timer: 0,
            sound_timer: 0,
            keys: released_keys(),
            waiting: None,
            halted: None,
            rng: 0,
        };
        emulator.init();
        emulator
    }

    /// Writes the font table to its reserved region.
    pub fn init(&mut self)
        requires
            old(self).wf(),
        ensures
            final(self).wf(),
            final(self)@ == (Machine {
                memory: write_spec(old(self)@.memory, font_table(), FONT_START as int)->Ok_0,
                ..old(self)@
            }),
            final(self)@.memory.subrange(FONT_START as int, FONT_START + FONT_LEN) == font_table(),
    {
        let font = font_bytes();
        let loaded = self.memory.write(&font, FONT_START);
        assert(loaded is Ok);
        assert(self@.memory.subrange(FONT_START as int, FONT_START + FONT_LEN) =~= font_table());
    }

    /// Copies `bytes` in order to the addresses from `offset` on. Fails
    /// with `MemoryOverflow`, changing nothing, where
    /// `offset + bytes.len() > 4096`.
    pub fn write(&mut self, bytes: Vec<u8>, offset: u16) -> (r: Result<(), Chip8Error>)
        requires
            old(self).wf(),
        ensures
            final(self).wf(),
            write_spec(old(self)@.memory, bytes@, offset as int) matches Ok(mem) ==>
                r == Ok::<(), Chip8Error>(()) && final(self)@ == (Machine { memory: mem, ..old(self)@ }),
            write_spec(old(self)@.memory, bytes@, offset as int) matches Err(e) ==>
                r == Err::<(), Chip8Error>(e) && final(self)@ == old(self)@,
    {
        self.memory.write(&bytes, offset)
    }

    /// The byte at `addr`, or `OutOfBounds` where `addr >= 4096`.
    pub fn read_byte(&self, addr: u16) -> (r: Result<u8, Chip8Error>)
        requires
            self.wf(),
        ensures
            addr < MEMORY_SIZE ==> r == Ok::<u8, Chip8Error>(self@.memory[addr as int]),
            addr >= MEMORY_SIZE ==> r == Err::<u8, Chip8Error>(Chip8Error::OutOfBounds(addr)),
    {
        self.memory.read_byte(addr)
    }

    /// Stores `value` at `addr`, or fails with `OutOfBounds`, changing
    /// nothing, where `addr >= 4096`.
    pub fn write_byte(&mut self, addr: u16, value: u8) -> (r: Result<(), Chip8Error>)
        requires
            old(self).wf(),
        ensures
            final(self).wf(),
            addr < MEMORY_SIZE ==> r == Ok::<(), Chip8Error>(())
                && final(self)@ == (Machine { memory: old(self)@.memory.update(addr as int, value), ..old(self)@ }),
            addr >= MEMORY_SIZE ==> r == Err::<(), Chip8Error>(Chip8Error::OutOfBounds(addr))
                && final(self)@ == old(self)@,
    {
        self.memory.write_byte(addr, value)
    }

    /// Runs one fetch-decode-execute cycle, as `step_spec` says: a halted
    /// interpreter reports its error again and changes nothing; one
    /// awaiting a key changes nothing; every failure halts it.
    pub fn step(&mut self) -> (r: Result<(), Chip8Error>)
        requires
            old(self).wf(),
        ensures
            final(self).wf(),
            (final(self)@, r) == step_spec(old(self)@),
    {
        if let Some(e) = self.halted {
            return Err(e);
        }
        if let Some(_) = self.waiting {
            return Ok(());
        }
        let pc: u16 = self.program_counter;
        if pc as usize + 1 >= MEMORY_SIZE {
            let e = Chip8Error::OutOfBounds(if pc as usize >= MEMORY_SIZE { pc } else { pc + 1 });
            self.halted = Some(e);
            return Err(e);
        }
        let code = self.memory.read_range(pc, 2);
        let word: u16 = code[0] as u16 * 256 + code[1] as u16;
        self.program_counter = pc + 2;
        let r = match decode(word, pc) {
            Ok(ins) => self.execute(ins),
            Err(e) => Err(e),
        };
        if let Err(e) = r {
            self.halted = Some(e);
        }
        r
    }

    /// One tick of the 60 Hz clock: each timer above zero goes down by one.
    pub fn timer_tick(&mut self)
        requires
            old(self).wf(),
        ensures
            final(self).wf(),
            final(self)@ == (Machine {
                delay: if old(self)@.delay > 0 { (old(self)@.delay - 1) as u8 } else { 0u8 },
                sound: if old(self)@.sound > 0 { (old(self)@.sound - 1) as u8 } else { 0u8 },
                ..old(self)@
            }),
    {
        if self.delay_timer > 0 {
            self.delay_timer = self.delay_timer - 1;
        }
        if self.sound_timer > 0 {
            self.sound_timer = self.sound_timer - 1;
        }
    }

    /// Replaces the state of the sixteen keys: `keys[k]` is whether key `k`
    /// is down.
    pub fn set_keys(&mut self, keys: [bool; 16])
        requires
            old(self).wf(),
        ensures
            final(self).wf(),
            final(self)@ == (Machine { keys: keys@, ..old(self)@ }),
    {
        let mut state: Vec<bool> = Vec::new();
        let mut i: usize = 0;
        while i < NUM_KEYS
            invariant
                i <= NUM_KEYS,
                state@ == keys@.take(i as int),
            decreases NUM_KEYS - i,
        {
            state.push(keys[i]);
            i = i + 1;
            assert(state@ =~= keys@.take(i as int));
        }
        assert(state@ =~= keys@);
        self.keys = state;
    }

    /// Reports a press of key `key`. Where the interpreter awaits a key, the
    /// awaiting register receives it and execution resumes; otherwise
    /// nothing changes.
    pub fn press_key(&mut self, key: u8)
        requires
            old(self).wf(),
            key < NUM_KEYS,
        ensures
            final(self).wf(),
            old(self)@.waiting matches Some(x) ==> final(self)@ == (Machine {
                v: old(self)@.v.update(x as int, key),
                waiting: None,
                ..old(self)@
            }),
            old(self)@.waiting is None ==> final(self)@ == old(self)@,
    {
        if let Some(x) = self.waiting {
            self.registers[x as usize] = key;
            self.waiting = None;
        }
    }

    /// Sets the state of the random generator.
    pub fn seed_random(&mut self, seed: u32)
        requires
            old(self).wf(),
        ensures
            final(self).wf(),
            final(self)@ == (Machine { rng: seed, ..old(self)@ }),
    {
        self.rng = seed;
    }

    /// The program counter.
    pub fn pc(&self) -> (r: u16)
        ensures
            r == self@.pc,
    {
        self.program_counter
    }

    /// Sets the program counter.
    pub fn set_pc(&mut self, pc: u16)
        requires
            old(self).wf(),
        ensures
            final(self).wf(),
            final(self)@ == (Machine { pc, ..old(self)@ }),
    {
        self.program_counter = pc;
    }

    /// The index register.
    pub fn index(&self) -> (r: u16)
        ensures
            r == self@.index,
    {
        self.index_register
    }

    /// Sets the index register to `value`, masked to twelve bits.
    pub fn set_index(&mut self, value: u16)
        requires
            old(self).wf(),
        ensures
            final(self).wf(),
            final(self)@ == (Machine { index: value % 4096, ..old(self)@ }),
    {
        self.index_register = value % 4096;
    }

    /// General register `x`.
    pub fn register(&self, x: u8) -> (r: u8)
        requires
            self.wf(),
            x < NUM_REGISTERS,
        ensures
            r == self@.v[x as int],
    {
        self.registers[x as usize]
    }

    /// Sets general register `x` to `value`.
    pub fn set_register(&mut self, x: u8, value: u8)
        requires
            old(self).wf(),
            x < NUM_REGISTERS,
        ensures
            final(self).wf(),
            final(self)@ == set_reg(old(self)@, x, value),
    {
        self.registers[x as usize] = value;
    }

    /// The delay timer.
    pub fn delay(&self) -> (r: u8)
        ensures
            r == self@.delay,
    {
        self.delay_timer
    }

    /// Sets the delay timer.
    pub fn set_delay(&mut self, value: u8)
        requires
            old(self).wf(),
        ensures
            final(self).wf(),
            final(self)@ == (Machine { delay: value, ..old(self)@ }),
    {
        self.delay_timer = value;
    }

    /// The sound timer; a tone plays while it is above zero.
    pub fn sound(&self) -> (r: u8)
        ensures
            r == self@.sound,
    {
        self.sound_timer
    }

    /// Sets the sound timer.
    pub fn set_sound(&mut self, value: u8)
        requires
            old(self).wf(),
        ensures
            final(self).wf(),
            final(self)@ == (Machine { sound: value, ..old(self)@ }),
    {
        self.sound_timer = value;
    }

    /// Number of return addresses on the call stack.
    pub fn stack_depth(&self) -> (r: usize)
        requires
            self.wf(),
        ensures
            r == self@.stack.len(),
    {
        self.stack.depth()
    }

    /// The error that halted the interpreter, if it has halted.
    pub fn halted(&self) -> (r: Option<Chip8Error>)
        ensures
            r == self@.halted,
    {
        self.halted
    }

    /// The register that awaits a key press, if one is awaited.
    pub fn awaiting_key(&self) -> (r: Option<u8>)
        ensures
            r == self@.waiting,
    {
        self.waiting
    }

    /// Whether the pixel at column `x`, row `y` is on.
    pub fn pixel(&self, x: usize, y: usize) -> (r: bool)
        requires
            self.wf(),
            x < WIDTH,
            y < HEIGHT,
        ensures
            r == self@.display[(y * WIDTH + x) as int],
    {
        self.display.pixel(x, y)
    }

    /// The 64 pixels of row `y`, left to right.
    pub fn display_row(&self, y: usize) -> (r: Vec<bool>)
        requires
            self.wf(),
            y < HEIGHT,
        ensures
            r@ == self@.display.subrange((y * WIDTH) as int, (y * WIDTH + WIDTH) as int),
    {
        self.display.row(y)
    }

    /// Executes `ins`, the program counter already pointing past it.
    /// Failures are detected before anything changes.
    fn execute(&mut self, ins: Instruction) -> (r: Result<(), Chip8Error>)
        requires
            old(self).wf(),
            ins.wf(),
            old(self)@.pc <= MEMORY_SIZE,
        ensures
            final(self).wf(),
            exec_spec(old(self)@, ins) matches Ok(m) ==> r == Ok::<(), Chip8Error>(()) && final(self)@ == m,
            exec_spec(old(self)@, ins) matches Err(e) ==> r == Err::<(), Chip8Error>(e) && final(self)@ == old(self)@,
    {
        match ins {
            Instruction::Cls | Instruction::Ret | Instruction::Jp { .. } | Instruction::Call { .. } | Instruction::SeImm { .. } | Instruction::SneImm { .. } | Instruction::SeReg { .. } | Instruction::SneReg { .. } | Instruction::JpV0 { .. } | Instruction::Skp { .. } | Instruction::Sknp { .. } => self.execute_flow(ins),
            Instruction::LdImm { .. } | Instruction::AddImm { .. } | Instruction::LdReg { .. } | Instruction::Or { .. } | Instruction::And { .. } | Instruction::Xor { .. } => self.execute_alu(ins),
            Instruction::AddReg { .. } | Instruction::Sub { .. } | Instruction::Subn { .. } => self.execute_flagged(ins),
            Instruction::Shr { .. } | Instruction::Shl { .. } => self.execute_shift(ins),
            Instruction::Rnd { .. } => self.execute_rnd(ins),
            Instruction::LdI { .. } | Instruction::Drw { .. } | Instruction::LdVxDt { .. } | Instruction::LdKey { .. } | Instruction::LdDtVx { .. } | Instruction::LdStVx { .. } | Instruction::AddI { .. } | Instruction::LdF { .. } => self.execute_misc(ins),
            Instruction::LdB { .. } => self.execute_digits(ins),
            Instruction::StoreRegs { .. } => self.execute_store_regs(ins),
            Instruction::LoadRegs { .. } => self.execute_load_regs(ins),
        }
    }

    /// Executes one of the control flow instructions.
    fn execute_flow(&mut self, ins: Instruction) -> (r: Result<(), Chip8Error>)
        requires
            old(self).wf(),
            ins.wf(),
            old(self)@.pc <= MEMORY_SIZE,
            ins is Cls || ins is Ret || ins is Jp || ins is Call || ins is SeImm || ins is SneImm || ins is SeReg || ins is SneReg || ins is JpV0 || ins is Skp || ins is Sknp,
        ensures
            final(self).wf(),
            exec_spec(old(self)@, ins) matches Ok(m) ==> r == Ok::<(), Chip8Error>(()) && final(self)@ == m,
            exec_spec(old(self)@, ins) matches Err(e) ==> r == Err::<(), Chip8Error>(e) && final(self)@ == old(self)@,
    {
        match ins {
            Instruction::Cls => {
                self.display.clear();
                Ok(())
            },
            Instruction::Ret => {
                let a = self.stack.pop()?;
                self.program_counter = a;
                Ok(())
            },
            Instruction::Jp { nnn } => {
                self.program_counter = nnn;
                Ok(())
            },
            Instruction::Call { nnn } => {
                self.stack.push(self.program_counter)?;
                self.program_counter = nnn;
                Ok(())
            },
            Instruction::SeImm { x, nn } => {
                if self.registers[x as usize] == nn {
                    self.program_counter = self.program_counter + 2;
                }
                Ok(())
            },
            Instruction::SneImm { x, nn } => {
                if self.registers[x as usize] != nn {
                    self.program_counter = self.program_counter + 2;
                }
                Ok(())
            },
            Instruction::SeReg { x, y } => {
                if self.registers[x as usize] == self.registers[y as usize] {
                    self.program_counter = self.program_counter + 2;
                }
                Ok(())
            },
            Instruction::SneReg { x, y } => {
                if self.registers[x as usize] != self.registers[y as usize] {
                    self.program_counter = self.program_counter + 2;
                }
                Ok(())
            },
            Instruction::JpV0 { nnn } => {
                self.program_counter = nnn + self.registers[0] as u16;
                Ok(())
            },
            Instruction::Skp { x } => {
                if self.keys[(self.registers[x as usize] % 16) as usize] {
                    self.program_counter = self.program_counter + 2;
                }
                Ok(())
            },
            Instruction::Sknp { x } => {
                if !self.keys[(self.registers[x as usize] % 16) as usize] {
                    self.program_counter = self.program_counter + 2;
                }
                Ok(())
            },
            _ => Ok(()),
        }
    }

    /// Executes one of the register load and logic instructions.
    fn execute_alu(&mut self, ins: Instruction) -> (r: Result<(), Chip8Error>)
        requires
            old(self).wf(),
            ins.wf(),
            old(self)@.pc <= MEMORY_SIZE,
            ins is LdImm || ins is AddImm || ins is LdReg || ins is Or || ins is And || ins is Xor,
        ensures
            final(self).wf(),
            exec_spec(old(self)@, ins) matches Ok(m) ==> r == Ok::<(), Chip8Error>(()) && final(self)@ == m,
            exec_spec(old(self)@, ins) matches Err(e) ==> r == Err::<(), Chip8Error>(e) && final(self)@ == old(self)@,
    {
        match ins {
            Instruction::LdImm { x, nn } => {
                self.registers[x as usize] = nn;
                Ok(())
            },
            Instruction::AddImm { x, nn } => {
                let vx: u8 = self.registers[x as usize];
                self.registers[x as usize] = ((vx as u16 + nn as u16) % 256) as u8;
                Ok(())
            },
            Instruction::LdReg { x, y } => {
                self.registers[x as usize] = self.registers[y as usize];
                Ok(())
            },
            Instruction::Or { x, y } => {
                self.registers[x as usize] = self.registers[x as usize] | self.registers[y as usize];
                Ok(())
            },
            Instruction::And { x, y } => {
                self.registers[x as usize] = self.registers[x as usize] & self.registers[y as usize];
                Ok(())
            },
            Instruction::Xor { x, y } => {
                self.registers[x as usize] = self.registers[x as usize] ^ self.registers[y as usize];
                Ok(())
            },
            _ => Ok(()),
        }
    }

    /// Executes one of the arithmetic instructions that set the flag register.
    fn execute_flagged(&mut self, ins: Instruction) -> (r: Result<(), Chip8Error>)
        requires
            old(self).wf(),
            ins.wf(),
            old(self)@.pc <= MEMORY_SIZE,
            ins is AddReg || ins is Sub || ins is Subn,
        ensures
            final(self).wf(),
            exec_spec(old(self)@, ins) matches Ok(m) ==> r == Ok::<(), Chip8Error>(()) && final(self)@ == m,
            exec_spec(old(self)@, ins) matches Err(e) ==> r == Err::<(), Chip8Error>(e) && final(self)@ == old(self)@,
    {
        match ins {
            Instruction::AddReg { x, y } => {
                let sum: u16 = self.registers[x as usize] as u16 + self.registers[y as usize] as u16;
                assert(sum == old(self)@.v[x as int] + old(self)@.v[y as int]);
                self.registers[x as usize] = (sum % 256) as u8;
                self.registers[FLAG as usize] = if sum > 255 { 1 } else { 0 };
                Ok(())
            },
            Instruction::Sub { x, y } => {
                let a: u8 = self.registers[x as usize];
                let b: u8 = self.registers[y as usize];
                proof { lemma_wrapping_difference(a, b); }
                self.registers[x as usize] = ((a as u16 + 256 - b as u16) % 256) as u8;
                self.registers[FLAG as usize] = if a >= b { 1 } else { 0 };
                Ok(())
            },
            Instruction::Subn { x, y } => {
                let a: u8 = self.registers[x as usize];
                let b: u8 = self.registers[y as usize];
                proof { lemma_wrapping_difference(b, a); }
                self.registers[x as usize] = ((b as u16 + 256 - a as u16) % 256) as u8;
                self.registers[FLAG as usize] = if b >= a { 1 } else { 0 };
                Ok(())
            },
            _ => Ok(()),
        }
    }

    /// Executes one of the shift instructions.
    fn execute_shift(&mut self, ins: Instruction) -> (r: Result<(), Chip8Error>)
        requires
            old(self).wf(),
            ins.wf(),
            old(self)@.pc <= MEMORY_SIZE,
            ins is Shr || ins is Shl,
        ensures
            final(self).wf(),
            exec_spec(old(self)@, ins) matches Ok(m) ==> r == Ok::<(), Chip8Error>(()) && final(self)@ == m,
            exec_spec(old(self)@, ins) matches Err(e) ==> r == Err::<(), Chip8Error>(e) && final(self)@ == old(self)@,
    {
        match ins {
            Instruction::Shr { x, .. } => {
                let a: u8 = self.registers[x as usize];
                self.registers[x as usize] = a / 2;
                self.registers[FLAG as usize] = a % 2;
                Ok(())
            },
            Instruction::Shl { x, .. } => {
                let a: u8 = self.registers[x as usize];
                self.registers[x as usize] = ((a as u16 * 2) % 256) as u8;
                self.registers[FLAG as usize] = if a >= 128 { 1 } else { 0 };
                Ok(())
            },
            _ => Ok(()),
        }
    }

    /// Executes the random byte instruction.
    fn execute_rnd(&mut self, ins: Instruction) -> (r: Result<(), Chip8Error>)
        requires
            old(self).wf(),
            ins.wf(),
            old(self)@.pc <= MEMORY_SIZE,
            ins is Rnd,
        ensures
            final(self).wf(),
            exec_spec(old(self)@, ins) matches Ok(m) ==> r == Ok::<(), Chip8Error>(()) && final(self)@ == m,
            exec_spec(old(self)@, ins) matches Err(e) ==> r == Err::<(), Chip8Error>(e) && final(self)@ == old(self)@,
    {
        match ins {
            Instruction::Rnd { x, nn } => {
                let s: u32 = ((self.rng as u64 * 1103515245u64 + 12345u64) % 0x1_0000_0000u64) as u32;
                self.rng = s;
                self.registers[x as usize] = ((s / 65536) % 256) as u8 & nn;
                Ok(())
            },
            _ => Ok(()),
        }
    }

    /// Executes one of the index, memory, display, timer and key instructions.
    fn execute_misc(&mut self, ins: Instruction) -> (r: Result<(), Chip8Error>)
        requires
            old(self).wf(),
            ins.wf(),
            old(self)@.pc <= MEMORY_SIZE,
            ins is LdI || ins is Drw || ins is LdVxDt || ins is LdKey || ins is LdDtVx || ins is LdStVx || ins is AddI || ins is LdF,
        ensures
            final(self).wf(),
            exec_spec(old(self)@, ins) matches Ok(m) ==> r == Ok::<(), Chip8Error>(()) && final(self)@ == m,
            exec_spec(old(self)@, ins) matches Err(e) ==> r == Err::<(), Chip8Error>(e) && final(self)@ == old(self)@,
    {
        match ins {
            Instruction::LdI { nnn } => {
                self.index_register = nnn;
                Ok(())
            },
            Instruction::Drw { x, y, n } => {
                if self.index_register as usize + n as usize > MEMORY_SIZE {
                    return Err(Chip8Error::OutOfBounds(MEMORY_SIZE as u16));
                }
                let sprite = self.memory.read_range(self.index_register, n as u16);
                let px: u8 = self.registers[x as usize];
                let py: u8 = self.registers[y as usize];
                let hit = self.display.draw_sprite(px, py, &sprite);
                self.registers[FLAG as usize] = if hit { 1 } else { 0 };
                Ok(())
            },
            Instruction::LdVxDt { x } => {
                self.registers[x as usize] = self.delay_timer;
                Ok(())
            },
            Instruction::LdKey { x } => {
                self.waiting = Some(x);
                Ok(())
            },
            Instruction::LdDtVx { x } => {
                self.delay_timer = self.registers[x as usize];
                Ok(())
            },
            Instruction::LdStVx { x } => {
                self.sound_timer = self.registers[x as usize];
                Ok(())
            },
            Instruction::AddI { x } => {
                self.index_register = (self.index_register + self.registers[x as usize] as u16) % 4096;
                Ok(())
            },
            Instruction::LdF { x } => {
                self.index_register = FONT_START + (self.registers[x as usize] % 16) as u16 * 5;
                Ok(())
            },
            _ => Ok(()),
        }
    }

    /// Executes the decimal digits instruction.
    fn execute_digits(&mut self, ins: Instruction) -> (r: Result<(), Chip8Error>)
        requires
            old(self).wf(),
            ins.wf(),
            old(self)@.pc <= MEMORY_SIZE,
            ins is LdB,
        ensures
            final(self).wf(),
            exec_spec(old(self)@, ins) matches Ok(m) ==> r == Ok::<(), Chip8Error>(()) && final(self)@ == m,
            exec_spec(old(self)@, ins) matches Err(e) ==> r == Err::<(), Chip8Error>(e) && final(self)@ == old(self)@,
    {
        match ins {
            Instruction::LdB { x } => {
                let a: u8 = self.registers[x as usize];
                let digits: Vec<u8> = vec![a / 100, (a / 10) % 10, a % 10];
                assert(digits@ =~= decimal_digits(a));
                self.store(&digits)
            },
            _ => Ok(()),
        }
    }

    /// Executes the register store instruction.
    fn execute_store_regs(&mut self, ins: Instruction) -> (r: Result<(), Chip8Error>)
        requires
            old(self).wf(),
            ins.wf(),
            old(self)@.pc <= MEMORY_SIZE,
            ins is StoreRegs,
        ensures
            final(self).wf(),
            exec_spec(old(self)@, ins) matches Ok(m) ==> r == Ok::<(), Chip8Error>(()) && final(self)@ == m,
            exec_spec(old(self)@, ins) matches Err(e) ==> r == Err::<(), Chip8Error>(e) && final(self)@ == old(self)@,
    {
        match ins {
            Instruction::StoreRegs { x } => {
                let mut values: Vec<u8> = Vec::new();
                let mut r: usize = 0;
                while r <= x as usize
                    invariant
                        r <= x + 1,
                        x < NUM_REGISTERS,
                        self.wf(),
                        values@ == self@.v.take(r as int),
                    decreases x + 1 - r,
                {
                    values.push(self.registers[r]);
                    r = r + 1;
                    assert(values@ =~= self@.v.take(r as int));
                }
                self.store(&values)
            },
            _ => Ok(()),
        }
    }

    /// Executes the register load instruction.
    fn execute_load_regs(&mut self, ins: Instruction) -> (r: Result<(), Chip8Error>)
        requires
            old(self).wf(),
            ins.wf(),
            old(self)@.pc <= MEMORY_SIZE,
            ins is LoadRegs,
        ensures
            final(self).wf(),
            exec_spec(old(self)@, ins) matches Ok(m) ==> r == Ok::<(), Chip8Error>(()) && final(self)@ == m,
            exec_spec(old(self)@, ins) matches Err(e) ==> r == Err::<(), Chip8Error>(e) && final(self)@ == old(self)@,
    {
        match ins {
            Instruction::LoadRegs { x } => {
                if self.index_register as usize + x as usize + 1 > MEMORY_SIZE {
                    return Err(Chip8Error::OutOfBounds(MEMORY_SIZE as u16));
                }
                let values = self.memory.read_range(self.index_register, x as u16 + 1);
                let mut regs: Vec<u8> = Vec::new();
                let mut r: usize = 0;
                while r < NUM_REGISTERS
                    invariant
                        r <= NUM_REGISTERS,
                        x < NUM_REGISTERS,
                        values@.len() == x + 1,
                        self.wf(),
                        regs@ == Seq::new(r as nat, |j: int| if j <= x { values@[j] } else { self@.v[j] }),
                    decreases NUM_REGISTERS - r,
                {
                    if r <= x as usize {
                        regs.push(values[r]);
                    } else {
                        regs.push(self.registers[r]);
                    }
                    r = r + 1;
                    assert(regs@ =~= Seq::new(r as nat, |j: int| if j <= x { values@[j] } else { self@.v[j] }));
                }
                self.registers = regs;
                assert(self.registers@ =~= exec_spec(old(self)@, ins)->Ok_0.v);
                Ok(())
            },
            _ => Ok(()),
        }
    }

    /// Writes `bytes` at the index register, or fails with `OutOfBounds`,
    /// changing nothing, where they would run past the last address.
    fn store(&mut self, bytes: &Vec<u8>) -> (r: Result<(), Chip8Error>)
        requires
            old(self).wf(),
        ensures
            final(self).wf(),
            store(old(self)@, bytes@) matches Ok(m) ==> r == Ok::<(), Chip8Error>(()) && final(self)@ == m,
            store(old(self)@, bytes@) matches Err(e) ==> r == Err::<(), Chip8Error>(e) && final(self)@ == old(self)@,
    {
        match self.memory.write(bytes, self.index_register) {
            Ok(()) => Ok(()),
            Err(_) => Err(Chip8Error::OutOfBounds(MEMORY_SIZE as u16)),
        }
    }
}

} // verus!
