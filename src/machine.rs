use vstd::prelude::*;
use rand::Rng;
use vstd::arithmetic::div_mod::{lemma_fundamental_div_mod, lemma_fundamental_div_mod_converse};
use crate::instruction::{decode, decode_spec, join_bytes, word_of, Instruction, operands_in_range, lemma_decode_in_range};

verus! {

/// Size of the address space in bytes.
pub const MEMORY_SIZE: usize = 4096;

/// Address at which programs are loaded and execution starts.
pub const PROGRAM_START: usize = 0x200;

/// Number of general-purpose registers; the last one doubles as the flag.
pub const NUM_REGISTERS: usize = 16;

/// Maximum nesting of subroutine calls.
pub const STACK_DEPTH: usize = 12;

/// Display width in pixels.
pub const SCREEN_WIDTH: usize = 64;

/// Display height in pixels.
pub const SCREEN_HEIGHT: usize = 32;

/// Number of pixels on the display.
pub const SCREEN_SIZE: usize = 2048;

/// Size of the built-in hexadecimal font: sixteen glyphs of five rows.
pub const FONT_SIZE: usize = 80;

/// Whether the machine executes instructions or waits for a key press
/// that is to be stored in the given register.
#[derive(Clone, Copy, Debug, PartialEq, Eq, Structural)]
pub enum Status {
    Running,
    WaitingForKey(u8),
}

/// Why an instruction could not be executed. The machine is left unchanged.
#[derive(Clone, Copy, Debug, PartialEq, Eq, Structural)]
pub enum StepError {
    /// A call with all stack levels in use.
    StackOverflow,
    /// A return with an empty stack.
    StackUnderflow,
    /// An instruction word outside the instruction set, in strict mode.
    UnknownOpcode(u16),
}

/// Why a program image could not be loaded.
#[derive(Clone, Copy, Debug, PartialEq, Eq, Structural)]
pub enum LoadError {
    /// The image does not fit between the program start and the end of memory.
    LoadTooLarge,
}

/// The abstract state of the machine.
pub struct MachineView {
    pub memory: Seq<u8>,
    pub registers: Seq<u8>,
    pub address_register: u16,
    pub pc: u16,
    /// Return addresses, innermost call last.
    pub stack: Seq<u16>,
    pub delay_timer: u8,
    pub sound_timer: u8,
    /// Row-major, `true` for a lit pixel.
    pub pixels: Seq<bool>,
    pub pending_key: Option<u8>,
    pub redraw: bool,
    pub status: Status,
    /// Unknown instruction words are errors rather than no-ops.
    pub strict: bool,
}

impl MachineView {
    /// Sizes of the fixed parts, and every address and index in range.
    pub open spec fn wf(&self) -> bool {
        &&& self.memory.len() == MEMORY_SIZE
        &&& self.registers.len() == NUM_REGISTERS
        &&& self.pixels.len() == SCREEN_SIZE
        &&& self.stack.len() <= STACK_DEPTH
        &&& forall|i: int| 0 <= i < self.stack.len() ==> self.stack[i] < MEMORY_SIZE
        &&& self.pc < MEMORY_SIZE
        &&& self.address_register < MEMORY_SIZE
        &&& (self.pending_key matches Some(k) ==> k < 16)
        &&& (self.status matches Status::WaitingForKey(r) ==> r < 16)
    }
}

/// An address `k` bytes past `a`, wrapping around the end of memory.
pub open spec fn wrap(a: int, k: int) -> u16 {
    ((a + k) % (MEMORY_SIZE as int)) as u16
}

/// The instruction after the one at `pc`.
pub open spec fn advance(pc: u16) -> u16 {
    wrap(pc as int, 2)
}

/// Skips the next instruction when `cond` holds.
pub open spec fn skip_if(pc: u16, cond: bool) -> u16 {
    if cond {
        wrap(pc as int, 4)
    } else {
        wrap(pc as int, 2)
    }
}

pub open spec fn with_reg(s: MachineView, x: int, v: u8) -> MachineView {
    MachineView { registers: s.registers.update(x, v), ..s }
}

/// Sets register `x` to a result and then the flag register to `flag`,
/// so that the flag wins when `x` is the flag register.
pub open spec fn with_result_and_flag(s: MachineView, x: int, v: u8, flag: bool) -> MachineView {
    with_reg(with_reg(s, x, v), 15, if flag { 1u8 } else { 0u8 })
}

/// How far below row `vy` pixel `p` lies, wrapping: the sprite row that
/// would cover `p` when the sprite is drawn at row `vy`.
pub open spec fn sprite_row(vy: u8, p: int) -> int {
    (p / (SCREEN_WIDTH as int) - vy as int) % (SCREEN_HEIGHT as int)
}

/// How far right of column `vx` pixel `p` lies, wrapping.
pub open spec fn sprite_col(vx: u8, p: int) -> int {
    (p % (SCREEN_WIDTH as int) - vx as int) % (SCREEN_WIDTH as int)
}

/// Bit `col` (most significant first) of the sprite byte at `addr`.
pub open spec fn sprite_bit(memory: Seq<u8>, addr: int, col: int) -> bool {
    (memory[addr % (MEMORY_SIZE as int)] >> ((7 - col) as u8)) & 1u8 == 1u8
}

/// Whether drawing an `n`-row sprite from address `i` at (`vx`, `vy`) flips pixel `p`.
pub open spec fn flips(memory: Seq<u8>, i: u16, vx: u8, vy: u8, n: int, p: int) -> bool {
    let row = sprite_row(vy, p);
    let col = sprite_col(vx, p);
    row < n && col < 8 && sprite_bit(memory, i + row, col)
}

/// Whether sprite cell (`row`, `col`) comes before cell (`r`, `c`) in drawing order.
pub open spec fn drawn_before(row: int, col: int, r: int, c: int) -> bool {
    row < r || (row == r && col < c)
}

/// Whether pixel `p` has been flipped once the sprite cells before (`r`, `c`) are drawn.
pub open spec fn flipped_before(memory: Seq<u8>, i: u16, vx: u8, vy: u8, n: int, p: int, r: int, c: int) -> bool {
    flips(memory, i, vx, vy, n, p) && drawn_before(sprite_row(vy, p), sprite_col(vx, p), r, c)
}

/// The display index of sprite cell (`row`, `col`) drawn at (`vx`, `vy`).
pub open spec fn cell_index(vx: u8, vy: u8, row: int, col: int) -> int {
    ((vy + row) % (SCREEN_HEIGHT as int)) * (SCREEN_WIDTH as int) + (vx + col) % (SCREEN_WIDTH as int)
}

/// Sprite cells map to display pixels one to one.
proof fn lemma_cell_index(vx: u8, vy: u8, row: int, col: int)
    requires
        0 <= row < SCREEN_HEIGHT,
        0 <= col < SCREEN_WIDTH,
    ensures
        0 <= cell_index(vx, vy, row, col) < SCREEN_SIZE,
        sprite_row(vy, cell_index(vx, vy, row, col)) == row,
        sprite_col(vx, cell_index(vx, vy, row, col)) == col,
        forall|p: int|
            0 <= p < SCREEN_SIZE && sprite_row(vy, p) == row && sprite_col(vx, p) == col ==> p
                == cell_index(vx, vy, row, col),
{
    let r = (vy + row) % 32;
    let c = (vx + col) % 64;
    let idx = cell_index(vx, vy, row, col);
    lemma_fundamental_div_mod(vy + row, 32);
    lemma_fundamental_div_mod(vx + col, 64);
    let k = (vy + row) / 32;
    let j = (vx + col) / 64;
    assert(0 <= r < 32 && 0 <= c < 64);
    assert(idx == r * 64 + c);
    lemma_fundamental_div_mod_converse(idx, 64, r, c);
    lemma_fundamental_div_mod_converse(r - vy, 32, -k, row);
    lemma_fundamental_div_mod_converse(c - vx, 64, -j, col);
    assert forall|p: int|
        0 <= p < SCREEN_SIZE && sprite_row(vy, p) == row && sprite_col(vx, p) == col implies p == idx by {
        lemma_fundamental_div_mod(p, 64);
        let a = p / 64;
        let b = p % 64;
        assert(0 <= a < 32) by {
            lemma_fundamental_div_mod_converse(p, 64, p / 64, p % 64);
        }
        lemma_fundamental_div_mod(a - vy, 32);
        lemma_fundamental_div_mod(b - vx, 64);
        assert(a == r);
        assert(b == c);
    }
}

/// The binary-coded decimal digit of `v` in position `k`: hundreds, tens, ones.
pub open spec fn bcd_digit(v: u8, k: int) -> u8 {
    if k == 0 {
        v / 100
    } else if k == 1 {
        (v % 100) / 10
    } else {
        v % 10
    }
}

/// The effect of one instruction on the machine: the new state, with the
/// program counter left as it was, and the address of the next instruction.
/// `rnd` is the random byte that `Cxnn` uses.
pub open spec fn effect(s: MachineView, i: Instruction, rnd: u8) -> Result<(MachineView, u16), StepError> {
    let next = advance(s.pc);
    match i {
        Instruction::ClearScreen => Ok(
            (MachineView { pixels: Seq::new(SCREEN_SIZE as nat, |p: int| false), redraw: true, ..s }, next),
        ),
        Instruction::Return => if s.stack.len() == 0 {
            Err(StepError::StackUnderflow)
        } else {
            Ok((MachineView { stack: s.stack.drop_last(), ..s }, s.stack.last()))
        },
        Instruction::Jump(nnn) => Ok((s, nnn as u16)),
        Instruction::Call(nnn) => if s.stack.len() >= STACK_DEPTH {
            Err(StepError::StackOverflow)
        } else {
            Ok((MachineView { stack: s.stack.push(next), ..s }, nnn as u16))
        },
        Instruction::SkipEqImm(x, nn) => Ok((s, skip_if(s.pc, s.registers[x as int] == nn))),
        Instruction::SkipNeImm(x, nn) => Ok((s, skip_if(s.pc, s.registers[x as int] != nn))),
        Instruction::SkipEqReg(x, y) => Ok(
            (s, skip_if(s.pc, s.registers[x as int] == s.registers[y as int])),
        ),
        Instruction::SetImm(x, nn) => Ok((with_reg(s, x as int, nn as u8), next)),
        Instruction::AddImm(x, nn) => Ok(
            (with_reg(s, x as int, ((s.registers[x as int] + nn) % 256) as u8), next),
        ),
        Instruction::Move(x, y) => Ok((with_reg(s, x as int, s.registers[y as int]), next)),
        Instruction::Or(x, y) => Ok(
            (with_reg(s, x as int, s.registers[x as int] | s.registers[y as int]), next),
        ),
        Instruction::And(x, y) => Ok(
            (with_reg(s, x as int, s.registers[x as int] & s.registers[y as int]), next),
        ),
        Instruction::Xor(x, y) => Ok(
            (with_reg(s, x as int, s.registers[x as int] ^ s.registers[y as int]), next),
        ),
        Instruction::AddCarry(x, y) => {
            let sum = s.registers[x as int] + s.registers[y as int];
            Ok((with_result_and_flag(s, x as int, (sum % 256) as u8, sum > 255), next))
        },
        Instruction::Sub(x, y) => {
            let a = s.registers[x as int];
            let b = s.registers[y as int];
            Ok((with_result_and_flag(s, x as int, ((a - b + 256) % 256) as u8, a >= b), next))
        },
        Instruction::ShiftRight(x) => {
            let a = s.registers[x as int];
            Ok((with_result_and_flag(s, x as int, a / 2, a % 2 == 1), next))
        },
        Instruction::SubReverse(x, y) => {
            let a = s.registers[x as int];
            let b = s.registers[y as int];
            Ok((with_result_and_flag(s, x as int, ((b - a + 256) % 256) as u8, b >= a), next))
        },
        Instruction::ShiftLeft(x) => {
            let a = s.registers[x as int];
            Ok((with_result_and_flag(s, x as int, ((a * 2) % 256) as u8, a >= 128), next))
        },
        Instruction::SkipNeReg(x, y) => Ok(
            (s, skip_if(s.pc, s.registers[x as int] != s.registers[y as int])),
        ),
        Instruction::SetIndex(nnn) => Ok((MachineView { address_register: nnn as u16, ..s }, next)),
        Instruction::JumpOffset(nnn) => Ok((s, wrap(s.registers[0] as int, nnn as int))),
        Instruction::Random(x, nn) => Ok((with_reg(s, x as int, rnd & (nn as u8)), next)),
        Instruction::Draw(x, y, n) => {
            let vx = s.registers[x as int];
            let vy = s.registers[y as int];
            let i = s.address_register;
            let pixels = Seq::new(
                SCREEN_SIZE as nat,
                |p: int| s.pixels[p] != flips(s.memory, i, vx, vy, n as int, p),
            );
            let collision = exists|p: int|
                0 <= p < SCREEN_SIZE && s.pixels[p] && #[trigger] flips(s.memory, i, vx, vy, n as int, p);
            Ok(
                (
                    MachineView {
                        pixels,
                        redraw: true,
                        registers: s.registers.update(15, if collision { 1u8 } else { 0u8 }),
                        ..s
                    },
                    next,
                ),
            )
        },
        Instruction::SkipKey(x) => Ok((s, skip_if(s.pc, s.pending_key == Some(s.registers[x as int])))),
        Instruction::SkipNotKey(x) => Ok(
            (s, skip_if(s.pc, s.pending_key != Some(s.registers[x as int]))),
        ),
        Instruction::GetDelay(x) => Ok((with_reg(s, x as int, s.delay_timer), next)),
        Instruction::WaitKey(x) => Ok((MachineView { status: Status::WaitingForKey(x as u8), ..s }, next)),
        Instruction::SetDelay(x) => Ok((MachineView { delay_timer: s.registers[x as int], ..s }, next)),
        Instruction::SetSound(x) => Ok((MachineView { sound_timer: s.registers[x as int], ..s }, next)),
        Instruction::AddIndex(x) => Ok(
            (MachineView { address_register: wrap(s.address_register as int, s.registers[x as int] as int), ..s }, next),
        ),
        Instruction::FontGlyph(x) => Ok(
            (MachineView { address_register: ((s.registers[x as int] % 16) * 5) as u16, ..s }, next),
        ),
        Instruction::Bcd(x) => {
            let i = s.address_register as int;
            let v = s.registers[x as int];
            Ok(
                (
                    MachineView {
                        memory: s.memory.update(i, bcd_digit(v, 0)).update(wrap(i, 1) as int, bcd_digit(v, 1)).update(
                            wrap(i, 2) as int,
                            bcd_digit(v, 2),
                        ),
                        ..s
                    },
                    next,
                ),
            )
        },
        Instruction::StoreRegs(x) => {
            let i = s.address_register as int;
            Ok(
                (
                    MachineView {
                        memory: Seq::new(
                            MEMORY_SIZE as nat,
                            |a: int|
                                if (a - i) % (MEMORY_SIZE as int) <= x {
                                    s.registers[(a - i) % (MEMORY_SIZE as int)]
                                } else {
                                    s.memory[a]
                                },
                        ),
                        ..s
                    },
                    next,
                ),
            )
        },
        Instruction::LoadRegs(x) => {
            let i = s.address_register as int;
            Ok(
                (
                    MachineView {
                        registers: Seq::new(
                            NUM_REGISTERS as nat,
                            |r: int| if r <= x { s.memory[wrap(i, r) as int] } else { s.registers[r] },
                        ),
                        ..s
                    },
                    next,
                ),
            )
        },
        Instruction::Unknown(w) => if s.strict {
            Err(StepError::UnknownOpcode(w))
        } else {
            Ok((s, next))
        },
    }
}

/// Executing instruction `i` in state `s` (with random byte `rnd`) gives
/// state `t` and next instruction address `next`.
pub open spec fn executes_as(s: MachineView, i: Instruction, rnd: u8, t: MachineView, next: u16) -> bool {
    effect(s, i, rnd) == Ok::<(MachineView, u16), StepError>((t, next))
}

/// Executing instruction `i` with random byte `rnd`, the program counter
/// moved on to the next instruction.
pub open spec fn run(s: MachineView, i: Instruction, rnd: u8) -> Result<MachineView, StepError> {
    match effect(s, i, rnd) {
        Ok((t, next)) => Ok(MachineView { pc: next, ..t }),
        Err(e) => Err(e),
    }
}

/// One execution step: a no-op while waiting for a key; otherwise the
/// instruction at the program counter is fetched, decoded and executed.
pub open spec fn step_spec(s: MachineView, rnd: u8) -> Result<MachineView, StepError> {
    if s.status != Status::Running {
        Ok(s)
    } else {
        let w = word_of(s.memory[s.pc as int], s.memory[wrap(s.pc as int, 1) as int]);
        run(s, decode_spec(w), rnd)
    }
}

/// What `exec_opcode` reports and leaves behind: on success the stepped
/// state; on failure the error, with the machine unchanged.
pub open spec fn step_outcome(s: MachineView, rnd: u8, t: MachineView, r: Result<(), StepError>) -> bool {
    match step_spec(s, rnd) {
        Ok(u) => r is Ok && t == u,
        Err(e) => r == Err::<(), StepError>(e) && t == s,
    }
}

/// The state after the input source reports `key` (or no key): the latch
/// holds it, and a pending wait for a key stores it and resumes execution.
pub open spec fn input_spec(s: MachineView, key: Option<u8>) -> MachineView {
    match (s.status, key) {
        (Status::WaitingForKey(r), Some(k)) => MachineView {
            pending_key: key,
            status: Status::Running,
            registers: s.registers.update(r as int, k),
            ..s
        },
        _ => MachineView { pending_key: key, ..s },
    }
}

/// Whole sixtieths of a second in `elapsed_micros` microseconds.
pub open spec fn timer_steps_spec(elapsed_micros: u64) -> int {
    elapsed_micros * 60 / 1_000_000
}

/// A timer counted down by `steps`, stopping at zero.
pub open spec fn countdown(t: u8, steps: int) -> u8 {
    if steps >= t {
        0
    } else {
        (t - steps) as u8
    }
}

/// Both timers counted down for `elapsed_micros` microseconds.
pub open spec fn timers_spec(s: MachineView, elapsed_micros: u64) -> MachineView {
    let k = timer_steps_spec(elapsed_micros);
    MachineView { delay_timer: countdown(s.delay_timer, k), sound_timer: countdown(s.sound_timer, k), ..s }
}

/// The hexadecimal font: glyph `g` is the five rows at `5 * g`.
pub open spec fn font_table() -> Seq<u8> {
    seq![
        0xF0u8, 0x90, 0x90, 0x90, 0xF0, 0x20, 0x60, 0x20, 0x20, 0x70,
        0xF0, 0x10, 0xF0, 0x80, 0xF0, 0xF0, 0x10, 0xF0, 0x10, 0xF0,
        0x90, 0x90, 0xF0, 0x10, 0x10, 0xF0, 0x80, 0xF0, 0x10, 0xF0,
        0xF0, 0x80, 0xF0, 0x90, 0xF0, 0xF0, 0x10, 0x20, 0x40, 0x40,
        0xF0, 0x90, 0xF0, 0x90, 0xF0, 0xF0, 0x90, 0xF0, 0x10, 0xF0,
        0xF0, 0x90, 0xF0, 0x90, 0x90, 0xE0, 0x90, 0xE0, 0x90, 0xE0,
        0xF0, 0x80, 0x80, 0x80, 0xF0, 0xE0, 0x90, 0x90, 0x90, 0xE0,
        0xF0, 0x80, 0xF0, 0x80, 0xF0, 0xF0, 0x80, 0xF0, 0x80, 0x80,
    ]
}

/// Memory `mem` with `bytes` copied in from address `start`.
pub open spec fn copied_in(mem: Seq<u8>, start: int, bytes: Seq<u8>) -> Seq<u8> {
    Seq::new(mem.len(), |a: int| if start <= a < start + bytes.len() { bytes[a - start] } else { mem[a] })
}

/// Relies on rand::thread_rng and rand::Rng::gen: a byte drawn from the
/// thread's generator; nothing is known of its value.
#[verifier::external_body]
fn random_byte() -> u8 {
    let mut rng = rand::thread_rng();
    rng.gen()
}

/// Whole sixtieths of a second in `elapsed_micros` microseconds.
pub fn timer_steps(elapsed_micros: u64) -> (r: u64)
    ensures
        r == timer_steps_spec(elapsed_micros),
{
    ((elapsed_micros as u128 * 60) / 1_000_000) as u64
}

/// The machine: memory, registers, stack, timers, display and input latch.
pub struct Chip8 {
    status: Status,
    pc: u16,
    sp: usize,
    memory: Vec<u8>,
    registers: Vec<u8>,
    address_reg: u16,
    stack: Vec<u16>,
    delay_timer: u8,
    sound_timer: u8,
    input: Option<u8>,
    video_buffer: Vec<bool>,
    redraw: bool,
    strict: bool,
}

impl View for Chip8 {
    type V = MachineView;

    closed spec fn view(&self) -> MachineView {
        MachineView {
            memory: self.memory@,
            registers: self.registers@,
            address_register: self.address_reg,
            pc: self.pc,
            stack: self.stack@.subrange(0, self.sp as int),
            delay_timer: self.delay_timer,
            sound_timer: self.sound_timer,
            pixels: self.video_buffer@,
            pending_key: self.input,
            redraw: self.redraw,
            status: self.status,
            strict: self.strict,
        }
    }
}

impl Chip8 {
    /// The backing vectors have their fixed sizes and the state is well formed.
    pub closed spec fn wf(&self) -> bool {
        &&& self.stack@.len() == STACK_DEPTH
        &&& self.sp <= STACK_DEPTH
        &&& self@.wf()
    }

    /// A machine with everything zeroed, the program counter at the program
    /// start and the status running. `strict` makes unknown instruction
    /// words errors instead of no-ops.
    pub fn new(strict: bool) -> (m: Chip8)
        ensures
            m.wf(),
            m@.memory == Seq::new(MEMORY_SIZE as nat, |a: int| 0u8),
            m@.registers == Seq::new(NUM_REGISTERS as nat, |r: int| 0u8),
            m@.address_register == 0,
            m@.pc == PROGRAM_START,
            m@.stack.len() == 0,
            m@.delay_timer == 0,
            m@.sound_timer == 0,
            m@.pixels == Seq::new(SCREEN_SIZE as nat, |p: int| false),
            m@.pending_key is None,
            !m@.redraw,
            m@.status == Status::Running,
            m@.strict == strict,
    {
        let m = Chip8 {
            status: Status::Running,
            pc: PROGRAM_START as u16,
            sp: 0,
            memory: vec![0u8; MEMORY_SIZE],
            registers: vec![0u8; NUM_REGISTERS],
            address_reg: 0,
            stack: vec![0u16; STACK_DEPTH],
            delay_timer: 0,
            sound_timer: 0,
            input: None,
            video_buffer: vec![false; SCREEN_SIZE],
            redraw: false,
            strict,
        };
        assert(m@.memory =~= Seq::new(MEMORY_SIZE as nat, |a: int| 0u8));
        assert(m@.registers =~= Seq::new(NUM_REGISTERS as nat, |r: int| 0u8));
        assert(m@.pixels =~= Seq::new(SCREEN_SIZE as nat, |p: int| false));
        m
    }

    fn next_pc(&self) -> (r: u16)
        requires
            self.wf(),
        ensures
            r == advance(self@.pc),
    {
        (self.pc + 2) % (MEMORY_SIZE as u16)
    }

    fn skip_pc(&self, cond: bool) -> (r: u16)
        requires
            self.wf(),
        ensures
            r == skip_if(self@.pc, cond),
    {
        if cond {
            (self.pc + 4) % (MEMORY_SIZE as u16)
        } else {
            (self.pc + 2) % (MEMORY_SIZE as u16)
        }
    }

    fn set_register(&mut self, x: usize, v: u8)
        requires
            old(self).wf(),
            x < NUM_REGISTERS,
        ensures
            final(self).wf(),
            final(self)@ == with_reg(old(self)@, x as int, v),
    {
        self.registers.set(x, v);
        assert(self@ =~= with_reg(old(self)@, x as int, v));
    }

    /// Clear screen.
    pub fn opcode_00e0(&mut self) -> (next: u16)
        requires
            old(self).wf(),
        ensures
            final(self).wf(),
            executes_as(old(self)@, Instruction::ClearScreen, 0, final(self)@, next),
    {
        let mut i: usize = 0;
        while i < SCREEN_SIZE
            invariant
                self.wf(),
                i <= SCREEN_SIZE,
                self@ == (MachineView { pixels: self@.pixels, ..old(self)@ }),
                forall|p: int| 0 <= p < i ==> !self@.pixels[p],
            decreases SCREEN_SIZE - i,
        {
            self.video_buffer.set(i, false);
            i += 1;
        }
        self.redraw = true;
        assert(self@.pixels =~= Seq::new(SCREEN_SIZE as nat, |p: int| false));
        self.next_pc()
    }
    /// Return from a subroutine to the innermost return address.
    pub fn opcode_00ee(&mut self) -> (r: Result<u16, StepError>)
        requires
            old(self).wf(),
        ensures
            final(self).wf(),
            match r {
                Ok(next) => executes_as(old(self)@, Instruction::Return, 0, final(self)@, next),
                Err(e) => effect(old(self)@, Instruction::Return, 0) == Err::<(MachineView, u16), StepError>(e)
                    && final(self)@ == old(self)@,
            },
    {
        if self.sp == 0 {
            return Err(StepError::StackUnderflow);
        }
        let pc = self.stack[self.sp - 1];
        self.sp -= 1;
        assert(self@.stack =~= old(self)@.stack.drop_last());
        Ok(pc)
    }

    /// Jump to `nnn`.
    pub fn opcode_1nnn(&mut self, nnn: usize) -> (next: u16)
        requires
            old(self).wf(),
            nnn < MEMORY_SIZE,
        ensures
            final(self).wf(),
            executes_as(old(self)@, Instruction::Jump(nnn), 0, final(self)@, next),
    {
        nnn as u16
    }

    /// Call the subroutine at `nnn`, pushing the address of the next instruction.
    pub fn opcode_2nnn(&mut self, nnn: usize) -> (r: Result<u16, StepError>)
        requires
            old(self).wf(),
            nnn < MEMORY_SIZE,
        ensures
            final(self).wf(),
            match r {
                Ok(next) => executes_as(old(self)@, Instruction::Call(nnn), 0, final(self)@, next),
                Err(e) => effect(old(self)@, Instruction::Call(nnn), 0) == Err::<(MachineView, u16), StepError>(e)
                    && final(self)@ == old(self)@,
            },
    {
        if self.sp >= STACK_DEPTH {
            return Err(StepError::StackOverflow);
        }
        let ret = self.next_pc();
        self.stack.set(self.sp, ret);
        self.sp += 1;
        assert(self@.stack =~= old(self)@.stack.push(ret));
        Ok(nnn as u16)
    }

    /// Skip the next instruction if `Vx == nn`.
    pub fn opcode_3xnn(&mut self, x: usize, nn: usize) -> (next: u16)
        requires
            old(self).wf(),
            x < 16,
            nn < 256,
        ensures
            final(self).wf(),
            executes_as(old(self)@, Instruction::SkipEqImm(x, nn), 0, final(self)@, next),
    {
        self.skip_pc(self.registers[x] as usize == nn)
    }

    /// Skip the next instruction if `Vx != nn`.
    pub fn opcode_4xnn(&mut self, x: usize, nn: usize) -> (next: u16)
        requires
            old(self).wf(),
            x < 16,
            nn < 256,
        ensures
            final(self).wf(),
            executes_as(old(self)@, Instruction::SkipNeImm(x, nn), 0, final(self)@, next),
    {
        self.skip_pc(self.registers[x] as usize != nn)
    }

    /// Skip the next instruction if `Vx == Vy`.
    pub fn opcode_5xnn(&mut self, x: usize, y: usize) -> (next: u16)
        requires
            old(self).wf(),
            x < 16,
            y < 16,
        ensures
            final(self).wf(),
            executes_as(old(self)@, Instruction::SkipEqReg(x, y), 0, final(self)@, next),
    {
        self.skip_pc(self.registers[x] == self.registers[y])
    }

    /// `Vx = nn`.
    pub fn opcode_6xnn(&mut self, x: usize, nn: usize) -> (next: u16)
        requires
            old(self).wf(),
            x < 16,
            nn < 256,
        ensures
            final(self).wf(),
            executes_as(old(self)@, Instruction::SetImm(x, nn), 0, final(self)@, next),
    {
        self.set_register(x, nn as u8);
        self.next_pc()
    }

    /// `Vx += nn`, wrapping, flag untouched.
    pub fn opcode_7xnn(&mut self, x: usize, nn: usize) -> (next: u16)
        requires
            old(self).wf(),
            x < 16,
            nn < 256,
        ensures
            final(self).wf(),
            executes_as(old(self)@, Instruction::AddImm(x, nn), 0, final(self)@, next),
    {
        let sum = ((self.registers[x] as u16 + nn as u16) % 256) as u8;
        self.set_register(x, sum);
        self.next_pc()
    }

    /// `Vx = Vy`.
    pub fn opcode_8xy0(&mut self, x: usize, y: usize) -> (next: u16)
        requires
            old(self).wf(),
            x < 16,
            y < 16,
        ensures
            final(self).wf(),
            executes_as(old(self)@, Instruction::Move(x, y), 0, final(self)@, next),
    {
        let v = self.registers[y];
        self.set_register(x, v);
        self.next_pc()
    }

    /// `Vx |= Vy`.
    pub fn opcode_8xy1(&mut self, x: usize, y: usize) -> (next: u16)
        requires
            old(self).wf(),
            x < 16,
            y < 16,
        ensures
            final(self).wf(),
            executes_as(old(self)@, Instruction::Or(x, y), 0, final(self)@, next),
    {
        let v = self.registers[x] | self.registers[y];
        self.set_register(x, v);
        self.next_pc()
    }

    /// `Vx &= Vy`.
    pub fn opcode_8xy2(&mut self, x: usize, y: usize) -> (next: u16)
        requires
            old(self).wf(),
            x < 16,
            y < 16,
        ensures
            final(self).wf(),
            executes_as(old(self)@, Instruction::And(x, y), 0, final(self)@, next),
    {
        let v = self.registers[x] & self.registers[y];
        self.set_register(x, v);
        self.next_pc()
    }

    /// `Vx ^= Vy`.
    pub fn opcode_8xy3(&mut self, x: usize, y: usize) -> (next: u16)
        requires
            old(self).wf(),
            x < 16,
            y < 16,
        ensures
            final(self).wf(),
            executes_as(old(self)@, Instruction::Xor(x, y), 0, final(self)@, next),
    {
        let v = self.registers[x] ^ self.registers[y];
        self.set_register(x, v);
        self.next_pc()
    }

    /// Writes an arithmetic result to `Vx`, then the flag to `VF`.
    fn set_result_and_flag(&mut self, x: usize, v: u8, flag: bool)
        requires
            old(self).wf(),
            x < 16,
        ensures
            final(self).wf(),
            final(self)@ == with_result_and_flag(old(self)@, x as int, v, flag),
    {
        self.set_register(x, v);
        self.set_register(15, if flag { 1 } else { 0 });
    }

    /// `Vx += Vy`; `VF` = 1 on carry, 0 otherwise.
    pub fn opcode_8xy4(&mut self, x: usize, y: usize) -> (next: u16)
        requires
            old(self).wf(),
            x < 16,
            y < 16,
        ensures
            final(self).wf(),
            executes_as(old(self)@, Instruction::AddCarry(x, y), 0, final(self)@, next),
    {
        let sum: u16 = self.registers[x] as u16 + self.registers[y] as u16;
        self.set_result_and_flag(x, (sum % 256) as u8, sum > 255);
        self.next_pc()
    }

    /// `Vx -= Vy`; `VF` = 1 when no borrow occurs (`Vx >= Vy`), 0 otherwise.
    pub fn opcode_8xy5(&mut self, x: usize, y: usize) -> (next: u16)
        requires
            old(self).wf(),
            x < 16,
            y < 16,
        ensures
            final(self).wf(),
            executes_as(old(self)@, Instruction::Sub(x, y), 0, final(self)@, next),
    {
        let a = self.registers[x];
        let b = self.registers[y];
        let d = ((a as u16 + 256 - b as u16) % 256) as u8;
        self.set_result_and_flag(x, d, a >= b);
        self.next_pc()
    }

    /// `Vx >>= 1`; `VF` = the bit shifted out.
    pub fn opcode_8xy6(&mut self, x: usize) -> (next: u16)
        requires
            old(self).wf(),
            x < 16,
        ensures
            final(self).wf(),
            executes_as(old(self)@, Instruction::ShiftRight(x), 0, final(self)@, next),
    {
        let a = self.registers[x];
        self.set_result_and_flag(x, a / 2, a % 2 == 1);
        self.next_pc()
    }

    /// `Vx = Vy - Vx`; `VF` = 1 when no borrow occurs (`Vy >= Vx`), 0 otherwise.
    pub fn opcode_8xy7(&mut self, x: usize, y: usize) -> (next: u16)
        requires
            old(self).wf(),
            x < 16,
            y < 16,
        ensures
            final(self).wf(),
            executes_as(old(self)@, Instruction::SubReverse(x, y), 0, final(self)@, next),
    {
        let a = self.registers[x];
        let b = self.registers[y];
        let d = ((b as u16 + 256 - a as u16) % 256) as u8;
        self.set_result_and_flag(x, d, b >= a);
        self.next_pc()
    }

    /// `Vx <<= 1`; `VF` = the bit shifted out, as 0 or 1.
    pub fn opcode_8xye(&mut self, x: usize) -> (next: u16)
        requires
            old(self).wf(),
            x < 16,
        ensures
            final(self).wf(),
            executes_as(old(self)@, Instruction::ShiftLeft(x), 0, final(self)@, next),
    {
        let a = self.registers[x];
        self.set_result_and_flag(x, ((a as u16 * 2) % 256) as u8, a >= 128);
        self.next_pc()
    }

    /// Skip the next instruction if `Vx != Vy`.
    pub fn opcode_9xy0(&mut self, x: usize, y: usize) -> (next: u16)
        requires
            old(self).wf(),
            x < 16,
            y < 16,
        ensures
            final(self).wf(),
            executes_as(old(self)@, Instruction::SkipNeReg(x, y), 0, final(self)@, next),
    {
        self.skip_pc(self.registers[x] != self.registers[y])
    }

    /// `I = nnn`.
    pub fn opcode_annn(&mut self, nnn: usize) -> (next: u16)
        requires
            old(self).wf(),
            nnn < MEMORY_SIZE,
        ensures
            final(self).wf(),
            executes_as(old(self)@, Instruction::SetIndex(nnn), 0, final(self)@, next),
    {
        self.address_reg = nnn as u16;
        self.next_pc()
    }

    /// Jump to `V0 + nnn`, wrapping around the end of memory.
    pub fn opcode_bnnn(&mut self, nnn: usize) -> (next: u16)
        requires
            old(self).wf(),
            nnn < MEMORY_SIZE,
        ensures
            final(self).wf(),
            executes_as(old(self)@, Instruction::JumpOffset(nnn), 0, final(self)@, next),
    {
        (self.registers[0] as u16 + nnn as u16) % (MEMORY_SIZE as u16)
    }

    /// `Vx = rnd & nn`, where `rnd` is a random byte drawn by the caller.
    pub fn opcode_cxnn(&mut self, x: usize, nn: usize, rnd: u8) -> (next: u16)
        requires
            old(self).wf(),
            x < 16,
            nn < 256,
        ensures
            final(self).wf(),
            executes_as(old(self)@, Instruction::Random(x, nn), rnd, final(self)@, next),
    {
        self.set_register(x, rnd & (nn as u8));
        self.next_pc()
    }

    /// Skip the next instruction if the pressed key is `Vx`.
    pub fn opcode_ex9e(&mut self, x: usize) -> (next: u16)
        requires
            old(self).wf(),
            x < 16,
        ensures
            final(self).wf(),
            executes_as(old(self)@, Instruction::SkipKey(x), 0, final(self)@, next),
    {
        let pressed = match self.input {
            Some(k) => k == self.registers[x],
            None => false,
        };
        self.skip_pc(pressed)
    }

    /// Skip the next instruction if the pressed key is not `Vx`.
    pub fn opcode_exa1(&mut self, x: usize) -> (next: u16)
        requires
            old(self).wf(),
            x < 16,
        ensures
            final(self).wf(),
            executes_as(old(self)@, Instruction::SkipNotKey(x), 0, final(self)@, next),
    {
        let pressed = match self.input {
            Some(k) => k == self.registers[x],
            None => false,
        };
        self.skip_pc(!pressed)
    }

    /// `Vx = delay timer`.
    pub fn opcode_fx07(&mut self, x: usize) -> (next: u16)
        requires
            old(self).wf(),
            x < 16,
        ensures
            final(self).wf(),
            executes_as(old(self)@, Instruction::GetDelay(x), 0, final(self)@, next),
    {
        let v = self.delay_timer;
        self.set_register(x, v);
        self.next_pc()
    }

    /// Wait for a key press and store it in `Vx`: the machine stops executing
    /// until `set_input` reports a key.
    pub fn opcode_fx0a(&mut self, x: usize) -> (next: u16)
        requires
            old(self).wf(),
            x < 16,
        ensures
            final(self).wf(),
            executes_as(old(self)@, Instruction::WaitKey(x), 0, final(self)@, next),
    {
        self.status = Status::WaitingForKey(x as u8);
        self.next_pc()
    }

    /// `delay timer = Vx`.
    pub fn opcode_fx15(&mut self, x: usize) -> (next: u16)
        requires
            old(self).wf(),
            x < 16,
        ensures
            final(self).wf(),
            executes_as(old(self)@, Instruction::SetDelay(x), 0, final(self)@, next),
    {
        self.delay_timer = self.registers[x];
        self.next_pc()
    }

    /// `sound timer = Vx`.
    pub fn opcode_fx18(&mut self, x: usize) -> (next: u16)
        requires
            old(self).wf(),
            x < 16,
        ensures
            final(self).wf(),
            executes_as(old(self)@, Instruction::SetSound(x), 0, final(self)@, next),
    {
        self.sound_timer = self.registers[x];
        self.next_pc()
    }

    /// `I += Vx`, wrapping around the end of memory; no flag.
    pub fn opcode_fx1e(&mut self, x: usize) -> (next: u16)
        requires
            old(self).wf(),
            x < 16,
        ensures
            final(self).wf(),
            executes_as(old(self)@, Instruction::AddIndex(x), 0, final(self)@, next),
    {
        self.address_reg = (self.address_reg + self.registers[x] as u16) % (MEMORY_SIZE as u16);
        self.next_pc()
    }

    /// `I` = address of the font glyph for the low nibble of `Vx`.
    pub fn opcode_fx29(&mut self, x: usize) -> (next: u16)
        requires
            old(self).wf(),
            x < 16,
        ensures
            final(self).wf(),
            executes_as(old(self)@, Instruction::FontGlyph(x), 0, final(self)@, next),
    {
        self.address_reg = (self.registers[x] % 16) as u16 * 5;
        self.next_pc()
    }

    /// Store the decimal digits of `Vx` at `I`, `I + 1`, `I + 2`.
    pub fn opcode_fx33(&mut self, x: usize) -> (next: u16)
        requires
            old(self).wf(),
            x < 16,
        ensures
            final(self).wf(),
            executes_as(old(self)@, Instruction::Bcd(x), 0, final(self)@, next),
    {
        let v = self.registers[x];
        let i = self.address_reg as usize;
        self.memory.set(i, v / 100);
        self.memory.set((i + 1) % MEMORY_SIZE, (v % 100) / 10);
        self.memory.set((i + 2) % MEMORY_SIZE, v % 10);
        proof {
            let o = old(self)@;
            let t = MachineView {
                memory: o.memory.update(i as int, bcd_digit(v, 0)).update(wrap(i as int, 1) as int, bcd_digit(v, 1)).update(
                    wrap(i as int, 2) as int,
                    bcd_digit(v, 2),
                ),
                ..o
            };
            assert(self@ =~= t);
        }
        self.next_pc()
    }

    /// Store `V0` to `Vx` (inclusive) in memory starting at `I`.
    pub fn opcode_fx55(&mut self, x: usize) -> (next: u16)
        requires
            old(self).wf(),
            x < 16,
        ensures
            final(self).wf(),
            executes_as(old(self)@, Instruction::StoreRegs(x), 0, final(self)@, next),
    {
        let base = self.address_reg as usize;
        let ghost o = old(self)@;
        let mut k: usize = 0;
        while k <= x
            invariant
                self.wf(),
                k <= x + 1,
                x < 16,
                base == o.address_register,
                o.wf(),
                self@ == (MachineView { memory: self@.memory, ..o }),
                forall|a: int|
                    0 <= a < MEMORY_SIZE ==> #[trigger] self@.memory[a] == if (a - base) % (MEMORY_SIZE as int) < k {
                        o.registers[(a - base) % (MEMORY_SIZE as int)]
                    } else {
                        o.memory[a]
                    },
            decreases x + 1 - k,
        {
            let a = (base + k) % MEMORY_SIZE;
            let v = self.registers[k];
            self.memory.set(a, v);
            assert forall|b: int| 0 <= b < MEMORY_SIZE implies #[trigger] self@.memory[b] == if (b - base) % (MEMORY_SIZE as int) < k + 1 {
                o.registers[(b - base) % (MEMORY_SIZE as int)]
            } else {
                o.memory[b]
            } by {
                if b == a {
                    assert((b - base) % (MEMORY_SIZE as int) == k);
                } else {
                    assert((b - base) % (MEMORY_SIZE as int) != k);
                }
            }
            k += 1;
        }
        proof {
            let t = MachineView {
                memory: Seq::new(
                    MEMORY_SIZE as nat,
                    |a: int|
                        if (a - base) % (MEMORY_SIZE as int) <= x {
                            o.registers[(a - base) % (MEMORY_SIZE as int)]
                        } else {
                            o.memory[a]
                        },
                ),
                ..o
            };
            assert(self@.memory =~= t.memory);
            assert(self@ =~= t);
        }
        self.next_pc()
    }

    /// Load `V0` to `Vx` (inclusive) from memory starting at `I`.
    pub fn opcode_fx65(&mut self, x: usize) -> (next: u16)
        requires
            old(self).wf(),
            x < 16,
        ensures
            final(self).wf(),
            executes_as(old(self)@, Instruction::LoadRegs(x), 0, final(self)@, next),
    {
        let base = self.address_reg as usize;
        let ghost o = old(self)@;
        let mut k: usize = 0;
        while k <= x
            invariant
                self.wf(),
                k <= x + 1,
                x < 16,
                base == o.address_register,
                o.wf(),
                self@ == (MachineView { registers: self@.registers, ..o }),
                forall|r: int|
                    0 <= r < NUM_REGISTERS ==> #[trigger] self@.registers[r] == if r < k {
                        o.memory[wrap(base as int, r) as int]
                    } else {
                        o.registers[r]
                    },
            decreases x + 1 - k,
        {
            let v = self.memory[(base + k) % MEMORY_SIZE];
            self.registers.set(k, v);
            k += 1;
        }
        proof {
            let t = MachineView {
                registers: Seq::new(
                    NUM_REGISTERS as nat,
                    |r: int| if r <= x { o.memory[wrap(base as int, r) as int] } else { o.registers[r] },
                ),
                ..o
            };
            assert(self@.registers =~= t.registers);
            assert(self@ =~= t);
        }
        self.next_pc()
    }
    /// Draw an `n`-row sprite read from `I` at (`Vx`, `Vy`), wrapping at the
    /// display edges: each set sprite bit flips its pixel. `VF` becomes 1 if
    /// any lit pixel was turned off, else 0. The coordinates are read before
    /// `VF` is written.
    #[verifier::rlimit(40)]
    pub fn opcode_dxyn(&mut self, x: usize, y: usize, n: usize) -> (next: u16)
        requires
            old(self).wf(),
            x < 16,
            y < 16,
            n < 16,
        ensures
            final(self).wf(),
            executes_as(old(self)@, Instruction::Draw(x, y, n), 0, final(self)@, next),
    {
        let vx = self.registers[x];
        let vy = self.registers[y];
        let base = self.address_reg;
        let ghost o = old(self)@;
        let ghost nn = n as int;
        let mut collision = false;
        let mut row: usize = 0;
        while row < n
            invariant
                self.wf(),
                o.wf(),
                n < 16,
                nn == n,
                row <= n,
                vx == o.registers[x as int],
                vy == o.registers[y as int],
                base == o.address_register,
                self@ == (MachineView { pixels: self@.pixels, ..o }),
                forall|p: int|
                    0 <= p < SCREEN_SIZE ==> self@.pixels[p] == (o.pixels[p] != #[trigger] flipped_before(
                        o.memory,
                        base,
                        vx,
                        vy,
                        nn,
                        p,
                        row as int,
                        0,
                    )),
                collision == exists|p: int|
                    0 <= p < SCREEN_SIZE && o.pixels[p] && #[trigger] flipped_before(
                        o.memory,
                        base,
                        vx,
                        vy,
                        nn,
                        p,
                        row as int,
                        0,
                    ),
            decreases n - row,
        {
            let byte = self.memory[(base as usize + row) % MEMORY_SIZE];
            let mut col: usize = 0;
            while col < 8
                invariant
                    self.wf(),
                    o.wf(),
                    n < 16,
                    nn == n,
                    row < n,
                    col <= 8,
                    vx == o.registers[x as int],
                    vy == o.registers[y as int],
                    base == o.address_register,
                    byte == o.memory[(base + row) % (MEMORY_SIZE as int)],
                    self@ == (MachineView { pixels: self@.pixels, ..o }),
                    forall|p: int|
                        0 <= p < SCREEN_SIZE ==> self@.pixels[p] == (o.pixels[p] != #[trigger] flipped_before(
                            o.memory,
                            base,
                            vx,
                            vy,
                            nn,
                            p,
                            row as int,
                            col as int,
                        )),
                    collision == exists|p: int|
                        0 <= p < SCREEN_SIZE && o.pixels[p] && #[trigger] flipped_before(
                            o.memory,
                            base,
                            vx,
                            vy,
                            nn,
                            p,
                            row as int,
                            col as int,
                        ),
                decreases 8 - col,
            {
                let idx = ((vy as usize + row) % SCREEN_HEIGHT) * SCREEN_WIDTH + (vx as usize + col)
                    % SCREEN_WIDTH;
                let bit = (byte >> (7 - col as u8)) & 1 == 1;
                let ghost before = self@.pixels;
                let ghost had = collision;
                proof {
                    lemma_cell_index(vx, vy, row as int, col as int);
                    assert(idx == cell_index(vx, vy, row as int, col as int));
                    assert(sprite_row(vy, idx as int) == row);
                    assert(sprite_col(vx, idx as int) == col);
                    assert(((7 - col) as u8) == 7 - col as u8);
                    assert(sprite_bit(o.memory, base + (row as int), col as int) == bit);
                    assert(flips(o.memory, base, vx, vy, nn, idx as int) == bit);
                }
                if bit {
                    let lit = self.video_buffer[idx];
                    if lit {
                        collision = true;
                    }
                    self.video_buffer.set(idx, !lit);
                }
                proof {
                    let r = row as int;
                    let c = col as int;
                    assert forall|p: int| 0 <= p < SCREEN_SIZE implies #[trigger] flipped_before(
                        o.memory,
                        base,
                        vx,
                        vy,
                        nn,
                        p,
                        r,
                        c + 1,
                    ) == (flipped_before(o.memory, base, vx, vy, nn, p, r, c) || (p == idx && bit)) by {
                        if p != idx {
                            assert(!(sprite_row(vy, p) == r && sprite_col(vx, p) == c));
                        }
                    }
                    assert forall|p: int| 0 <= p < SCREEN_SIZE implies self@.pixels[p] == (o.pixels[p]
                        != #[trigger] flipped_before(o.memory, base, vx, vy, nn, p, r, c + 1)) by {
                        assert(flipped_before(o.memory, base, vx, vy, nn, p, r, c + 1) == (flipped_before(
                            o.memory,
                            base,
                            vx,
                            vy,
                            nn,
                            p,
                            r,
                            c,
                        ) || (p == idx && bit)));
                        if p == idx {
                            assert(!flipped_before(o.memory, base, vx, vy, nn, p, r, c));
                        }
                    }
                    let now = exists|p: int|
                        0 <= p < SCREEN_SIZE && o.pixels[p] && #[trigger] flipped_before(
                            o.memory,
                            base,
                            vx,
                            vy,
                            nn,
                            p,
                            r,
                            c + 1,
                        );
                    if collision {
                        if had {
                            let w = choose|p: int|
                                0 <= p < SCREEN_SIZE && o.pixels[p] && #[trigger] flipped_before(
                                    o.memory,
                                    base,
                                    vx,
                                    vy,
                                    nn,
                                    p,
                                    r,
                                    c,
                                );
                            assert(flipped_before(o.memory, base, vx, vy, nn, w, r, c + 1));
                        } else {
                            assert(!flipped_before(o.memory, base, vx, vy, nn, idx as int, r, c));
                            assert(before[idx as int] == o.pixels[idx as int]);
                            assert(flipped_before(o.memory, base, vx, vy, nn, idx as int, r, c + 1));
                        }
                        assert(now);
                    } else {
                        assert forall|p: int|
                            0 <= p < SCREEN_SIZE && o.pixels[p] implies !#[trigger] flipped_before(
                            o.memory,
                            base,
                            vx,
                            vy,
                            nn,
                            p,
                            r,
                            c + 1,
                        ) by {
                            if p == idx {
                                assert(!flipped_before(o.memory, base, vx, vy, nn, p, r, c));
                            }
                        }
                    }
                }
                col += 1;
            }
            proof {
                assert forall|p: int| 0 <= p < SCREEN_SIZE implies self@.pixels[p] == (o.pixels[p]
                    != #[trigger] flipped_before(o.memory, base, vx, vy, nn, p, row + 1, 0)) by {
                    assert(flipped_before(o.memory, base, vx, vy, nn, p, row as int, 8)
                        == flipped_before(o.memory, base, vx, vy, nn, p, row + 1, 0));
                }
                if collision {
                    let w = choose|p: int|
                        0 <= p < SCREEN_SIZE && o.pixels[p] && #[trigger] flipped_before(
                            o.memory,
                            base,
                            vx,
                            vy,
                            nn,
                            p,
                            row as int,
                            8,
                        );
                    assert(flipped_before(o.memory, base, vx, vy, nn, w, row + 1, 0));
                } else {
                    assert forall|p: int| 0 <= p < SCREEN_SIZE && o.pixels[p] implies !#[trigger] flipped_before(
                        o.memory,
                        base,
                        vx,
                        vy,
                        nn,
                        p,
                        row + 1,
                        0,
                    ) by {
                        assert(!flipped_before(o.memory, base, vx, vy, nn, p, row as int, 8));
                    }
                }
            }
            row += 1;
        }
        proof {
            assert forall|p: int| 0 <= p < SCREEN_SIZE implies self@.pixels[p] == (o.pixels[p]
                != #[trigger] flips(o.memory, base, vx, vy, nn, p)) by {
                assert(flipped_before(o.memory, base, vx, vy, nn, p, nn, 0) == flips(
                    o.memory,
                    base,
                    vx,
                    vy,
                    nn,
                    p,
                ));
            }
        }
        self.set_register(15, if collision { 1 } else { 0 });
        self.redraw = true;
        proof {
            let pixels = Seq::new(
                SCREEN_SIZE as nat,
                |p: int| o.pixels[p] != flips(o.memory, base, vx, vy, nn, p),
            );
            assert(self@.pixels =~= pixels);
            let hit = exists|p: int|
                0 <= p < SCREEN_SIZE && o.pixels[p] && #[trigger] flips(o.memory, base, vx, vy, nn, p);
            if collision {
                let w = choose|p: int|
                    0 <= p < SCREEN_SIZE && o.pixels[p] && #[trigger] flipped_before(
                        o.memory,
                        base,
                        vx,
                        vy,
                        nn,
                        p,
                        nn,
                        0,
                    );
                assert(flips(o.memory, base, vx, vy, nn, w));
                assert(hit);
            } else {
                assert forall|p: int| 0 <= p < SCREEN_SIZE && o.pixels[p] implies !#[trigger] flips(
                    o.memory,
                    base,
                    vx,
                    vy,
                    nn,
                    p,
                ) by {
                    assert(!flipped_before(o.memory, base, vx, vy, nn, p, nn, 0));
                }
                assert(!hit);
            }
            let t = MachineView {
                pixels,
                redraw: true,
                registers: o.registers.update(15, if hit { 1u8 } else { 0u8 }),
                ..o
            };
            assert(self@ =~= t);
        }
        self.next_pc()
    }
    /// Executes one instruction, using `rnd` as the random byte should it
    /// be `Cxnn`. Does nothing while waiting for a key.
    #[verifier::rlimit(60)]
    pub fn exec_opcode(&mut self, rnd: u8) -> (r: Result<(), StepError>)
        requires
            old(self).wf(),
        ensures
            final(self).wf(),
            step_outcome(old(self)@, rnd, final(self)@, r),
    {
        if self.status != Status::Running {
            return Ok(());
        }
        let pc = self.pc as usize;
        let w = join_bytes(self.memory[pc], self.memory[(pc + 1) % MEMORY_SIZE]);
        let ins = decode(w);
        proof {
            lemma_decode_in_range(w);
        }
        let next = match ins {
            Instruction::ClearScreen => self.opcode_00e0(),
            Instruction::Return => match self.opcode_00ee() {
                Ok(n) => n,
                Err(e) => return Err(e),
            },
            Instruction::Jump(nnn) => self.opcode_1nnn(nnn),
            Instruction::Call(nnn) => match self.opcode_2nnn(nnn) {
                Ok(n) => n,
                Err(e) => return Err(e),
            },
            Instruction::SkipEqImm(x, nn) => self.opcode_3xnn(x, nn),
            Instruction::SkipNeImm(x, nn) => self.opcode_4xnn(x, nn),
            Instruction::SkipEqReg(x, y) => self.opcode_5xnn(x, y),
            Instruction::SetImm(x, nn) => self.opcode_6xnn(x, nn),
            Instruction::AddImm(x, nn) => self.opcode_7xnn(x, nn),
            Instruction::Move(x, y) => self.opcode_8xy0(x, y),
            Instruction::Or(x, y) => self.opcode_8xy1(x, y),
            Instruction::And(x, y) => self.opcode_8xy2(x, y),
            Instruction::Xor(x, y) => self.opcode_8xy3(x, y),
            Instruction::AddCarry(x, y) => self.opcode_8xy4(x, y),
            Instruction::Sub(x, y) => self.opcode_8xy5(x, y),
            Instruction::ShiftRight(x) => self.opcode_8xy6(x),
            Instruction::SubReverse(x, y) => self.opcode_8xy7(x, y),
            Instruction::ShiftLeft(x) => self.opcode_8xye(x),
            Instruction::SkipNeReg(x, y) => self.opcode_9xy0(x, y),
            Instruction::SetIndex(nnn) => self.opcode_annn(nnn),
            Instruction::JumpOffset(nnn) => self.opcode_bnnn(nnn),
            Instruction::Random(x, nn) => self.opcode_cxnn(x, nn, rnd),
            Instruction::Draw(x, y, n) => self.opcode_dxyn(x, y, n),
            Instruction::SkipKey(x) => self.opcode_ex9e(x),
            Instruction::SkipNotKey(x) => self.opcode_exa1(x),
            Instruction::GetDelay(x) => self.opcode_fx07(x),
            Instruction::WaitKey(x) => self.opcode_fx0a(x),
            Instruction::SetDelay(x) => self.opcode_fx15(x),
            Instruction::SetSound(x) => self.opcode_fx18(x),
            Instruction::AddIndex(x) => self.opcode_fx1e(x),
            Instruction::FontGlyph(x) => self.opcode_fx29(x),
            Instruction::Bcd(x) => self.opcode_fx33(x),
            Instruction::StoreRegs(x) => self.opcode_fx55(x),
            Instruction::LoadRegs(x) => self.opcode_fx65(x),
            Instruction::Unknown(w) => if self.strict {
                return Err(StepError::UnknownOpcode(w));
            } else {
                self.next_pc()
            },
        };
        self.pc = next;
        Ok(())
    }

    /// Executes one instruction, drawing a random byte for `Cxnn`.
    pub fn tick(&mut self) -> (r: Result<(), StepError>)
        requires
            old(self).wf(),
        ensures
            final(self).wf(),
            exists|rnd: u8| step_outcome(old(self)@, rnd, final(self)@, r),
    {
        let rnd = random_byte();
        self.exec_opcode(rnd)
    }

    /// Reports the key the input source sees held (`None` for no key).
    pub fn set_input(&mut self, key: Option<u8>)
        requires
            old(self).wf(),
            key matches Some(k) ==> k < 16,
        ensures
            final(self).wf(),
            final(self)@ == input_spec(old(self)@, key),
    {
        self.input = key;
        match (self.status, key) {
            (Status::WaitingForKey(r), Some(k)) => {
                self.registers.set(r as usize, k);
                self.status = Status::Running;
            },
            _ => {},
        }
        assert(self@ =~= input_spec(old(self)@, key));
    }

    /// Counts both timers down by one for each whole sixtieth of a second
    /// in `elapsed_micros`, stopping at zero.
    pub fn tick_timers(&mut self, elapsed_micros: u64)
        requires
            old(self).wf(),
        ensures
            final(self).wf(),
            final(self)@ == timers_spec(old(self)@, elapsed_micros),
    {
        let steps = timer_steps(elapsed_micros);
        self.delay_timer = if steps >= self.delay_timer as u64 {
            0
        } else {
            self.delay_timer - steps as u8
        };
        self.sound_timer = if steps >= self.sound_timer as u64 {
            0
        } else {
            self.sound_timer - steps as u8
        };
    }

    /// Whether the sound timer is running.
    pub fn sound_active(&self) -> (r: bool)
        requires
            self.wf(),
        ensures
            r == (self@.sound_timer > 0),
    {
        self.sound_timer > 0
    }

    /// A copy of the display and whether it changed since the last call;
    /// clears the change flag.
    pub fn export_frame(&mut self) -> (r: (Vec<bool>, bool))
        requires
            old(self).wf(),
        ensures
            final(self).wf(),
            r.0@ == old(self)@.pixels,
            r.1 == old(self)@.redraw,
            final(self)@ == (MachineView { redraw: false, ..old(self)@ }),
    {
        let mut frame: Vec<bool> = Vec::with_capacity(SCREEN_SIZE);
        let mut i: usize = 0;
        while i < SCREEN_SIZE
            invariant
                self.wf(),
                i <= SCREEN_SIZE,
                frame@ == self@.pixels.subrange(0, i as int),
            decreases SCREEN_SIZE - i,
        {
            frame.push(self.video_buffer[i]);
            i += 1;
        }
        assert(frame@ =~= self@.pixels);
        let changed = self.redraw;
        self.redraw = false;
        (frame, changed)
    }

    /// Copies the hexadecimal font to the start of memory.
    pub fn load_font(&mut self)
        requires
            old(self).wf(),
        ensures
            final(self).wf(),
            final(self)@ == (MachineView { memory: copied_in(old(self)@.memory, 0, font_table()), ..old(self)@ }),
    {
        let font: Vec<u8> = vec![
            0xF0, 0x90, 0x90, 0x90, 0xF0, 0x20, 0x60, 0x20, 0x20, 0x70,
            0xF0, 0x10, 0xF0, 0x80, 0xF0, 0xF0, 0x10, 0xF0, 0x10, 0xF0,
            0x90, 0x90, 0xF0, 0x10, 0x10, 0xF0, 0x80, 0xF0, 0x10, 0xF0,
            0xF0, 0x80, 0xF0, 0x90, 0xF0, 0xF0, 0x10, 0x20, 0x40, 0x40,
            0xF0, 0x90, 0xF0, 0x90, 0xF0, 0xF0, 0x90, 0xF0, 0x10, 0xF0,
            0xF0, 0x90, 0xF0, 0x90, 0x90, 0xE0, 0x90, 0xE0, 0x90, 0xE0,
            0xF0, 0x80, 0x80, 0x80, 0xF0, 0xE0, 0x90, 0x90, 0x90, 0xE0,
            0xF0, 0x80, 0xF0, 0x80, 0xF0, 0xF0, 0x80, 0xF0, 0x80, 0x80,
        ];
        assert(font@ =~= font_table());
        self.copy_to_memory(0, &font);
    }

    /// Copies `bytes` into memory from address `start`.
    fn copy_to_memory(&mut self, start: usize, bytes: &Vec<u8>)
        requires
            old(self).wf(),
            start + bytes@.len() <= MEMORY_SIZE,
        ensures
            final(self).wf(),
            final(self)@ == (MachineView { memory: copied_in(old(self)@.memory, start as int, bytes@), ..old(self)@ }),
    {
        let ghost o = old(self)@;
        let mut i: usize = 0;
        while i < bytes.len()
            invariant
                self.wf(),
                i <= bytes@.len(),
                start + bytes@.len() <= MEMORY_SIZE,
                self@ == (MachineView { memory: self@.memory, ..o }),
                self@.memory =~= copied_in(o.memory, start as int, bytes@.subrange(0, i as int)),
            decreases bytes@.len() - i,
        {
            self.memory.set(start + i, bytes[i]);
            i += 1;
            assert(self@.memory =~= copied_in(o.memory, start as int, bytes@.subrange(0, i as int)));
        }
        assert(bytes@.subrange(0, i as int) =~= bytes@);
        assert(self@ =~= (MachineView { memory: copied_in(o.memory, start as int, bytes@), ..o }));
    }

    /// Copies a program image into memory at the program start. Fails,
    /// changing nothing, when it does not fit before the end of memory.
    pub fn load_rom(&mut self, bytes: &Vec<u8>) -> (r: Result<(), LoadError>)
        requires
            old(self).wf(),
        ensures
            final(self).wf(),
            bytes@.len() > MEMORY_SIZE - PROGRAM_START <==> r == Err::<(), LoadError>(LoadError::LoadTooLarge),
            r is Ok ==> final(self)@ == (MachineView {
                memory: copied_in(old(self)@.memory, PROGRAM_START as int, bytes@),
                ..old(self)@
            }),
            r is Err ==> final(self)@ == old(self)@,
    {
        if bytes.len() > MEMORY_SIZE - PROGRAM_START {
            return Err(LoadError::LoadTooLarge);
        }
        self.copy_to_memory(PROGRAM_START, bytes);
        Ok(())
    }
    /// Register `Vi`.
    pub fn register(&self, i: usize) -> (r: u8)
        requires
            self.wf(),
            i < NUM_REGISTERS,
        ensures
            r == self@.registers[i as int],
    {
        self.registers[i]
    }

    /// The byte at address `a`.
    pub fn memory_at(&self, a: usize) -> (r: u8)
        requires
            self.wf(),
            a < MEMORY_SIZE,
        ensures
            r == self@.memory[a as int],
    {
        self.memory[a]
    }

    /// The address register `I`.
    pub fn address_register(&self) -> (r: u16)
        requires
            self.wf(),
        ensures
            r == self@.address_register,
    {
        self.address_reg
    }

    /// The address of the next instruction.
    pub fn program_counter(&self) -> (r: u16)
        requires
            self.wf(),
        ensures
            r == self@.pc,
    {
        self.pc
    }

    /// Number of return addresses on the stack.
    pub fn stack_depth(&self) -> (r: usize)
        requires
            self.wf(),
        ensures
            r == self@.stack.len(),
    {
        self.sp
    }

    pub fn delay_timer(&self) -> (r: u8)
        requires
            self.wf(),
        ensures
            r == self@.delay_timer,
    {
        self.delay_timer
    }

    pub fn sound_timer(&self) -> (r: u8)
        requires
            self.wf(),
        ensures
            r == self@.sound_timer,
    {
        self.sound_timer
    }

    pub fn status(&self) -> (r: Status)
        requires
            self.wf(),
        ensures
            r == self@.status,
    {
        self.status
    }
}

} // verus!
