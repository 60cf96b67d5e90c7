use vstd::prelude::*;

use crate::instr::{decode, decoded, Instr};

verus! {

/// Bytes of addressable memory.
pub const MEMORY_SIZE: usize = 4096;

/// Where a program is loaded, and where execution starts.
pub const PROGRAM_START: usize = 0x200;

/// Display width and height in pixels, and the number of pixels.
pub const SCREEN_WIDTH: usize = 64;
pub const SCREEN_HEIGHT: usize = 32;
pub const SCREEN_CELLS: usize = 2048;

/// The mathematical picture of a machine: every part of its state, with the
/// display flattened row by row (pixel `(x, y)` at `y * 64 + x`).
pub struct State {
    pub memory: Seq<u8>,
    pub pc: u16,
    pub v: Seq<u8>,
    pub i: u16,
    pub stack: Seq<u16>,
    pub screen: Seq<bool>,
    pub delay: u8,
    pub sound: u8,
    pub sound_start: u64,
    pub keys: Seq<bool>,
}

/// What the caller is to do after one instruction.
#[derive(Clone, Copy, Debug, PartialEq, Eq, Structural)]
pub enum Flow {
    /// Go on with the next cycle.
    Continue,
    /// A return found the call stack empty: the program has finished.
    Halt,
    /// The instruction waits for a key press whose key goes to register `x`;
    /// feed events to `Vm::wait_event` until it reports the press.
    AwaitKey { x: u8 },
    /// The word `hi lo` at the program counter encodes no instruction.
    Illegal { hi: u8, lo: u8 },
}

/// The machine: registers, memory, display, call stack, timers and keypad.
/// Its invariant is `wf`; every method keeps it.
pub struct Vm {
    /// 4096 bytes; addresses wrap at 12 bits.
    pub memory: Vec<u8>,
    /// Address of the next instruction word.
    pub pc: u16,
    /// Registers `V0` to `VF`; `VF` doubles as the flag register.
    pub v: Vec<u8>,
    /// The index register, a pointer into memory.
    pub i: u16,
    /// Return addresses of the calls in progress, innermost last.
    pub stack: Vec<u16>,
    /// 64 by 32 pixels, row by row.
    pub screen: Vec<bool>,
    pub delay_timer: u8,
    pub sound_timer: u8,
    /// When the sound timer was last set, in milliseconds of the caller's clock.
    pub sound_start: u64,
    /// Whether each of the 16 keypad keys is down.
    pub keys: Vec<bool>,
}

impl View for Vm {
    type V = State;

    open spec fn view(&self) -> State {
        State {
            memory: self.memory@,
            pc: self.pc,
            v: self.v@,
            i: self.i,
            stack: self.stack@,
            screen: self.screen@,
            delay: self.delay_timer,
            sound: self.sound_timer,
            sound_start: self.sound_start,
            keys: self.keys@,
        }
    }
}

impl State {
    /// Sizes are fixed, and the program counter and saved return addresses
    /// are 12-bit addresses.
    pub open spec fn wf(self) -> bool {
        &&& self.memory.len() == 4096
        &&& self.v.len() == 16
        &&& self.screen.len() == 2048
        &&& self.keys.len() == 16
        &&& self.pc < 4096
        &&& addresses(self.stack)
    }
}

/// Every entry is a 12-bit address.
pub open spec fn addresses(s: Seq<u16>) -> bool {
    forall|k: int| 0 <= k < s.len() ==> s[k] < 4096
}

/// The 16 digit sprites, five bytes each, stored from address 0.
pub open spec fn font() -> Seq<u8> {
    seq![
        0xf0, 0x90, 0x90, 0x90, 0xf0, 0x20, 0x60, 0x20, 0x20, 0x70, 0xf0, 0x10, 0xf0, 0x80, 0xf0,
        0xf0, 0x10, 0xf0, 0x10, 0xf0, 0x90, 0x90, 0xf0, 0x10, 0x10, 0xf0, 0x80, 0xf0, 0x10, 0xf0,
        0xf0, 0x80, 0xf0, 0x90, 0xf0, 0xf0, 0x10, 0x20, 0x40, 0x40, 0xf0, 0x90, 0xf0, 0x90, 0xf0,
        0xf0, 0x90, 0xf0, 0x10, 0xf0, 0xf0, 0x90, 0xf0, 0x90, 0x90, 0xe0, 0x90, 0xe0, 0x90, 0xe0,
        0xf0, 0x80, 0x80, 0x80, 0xf0, 0xe0, 0x90, 0x90, 0x90, 0xe0, 0xf0, 0x80, 0xf0, 0x80, 0xf0,
        0xf0, 0x80, 0xf0, 0x80, 0x80,
    ]
}

/// Memory at start: the font, zeros up to the program, the program cut to
/// what fits, zeros after it.
pub open spec fn initial_memory(program: Seq<u8>) -> Seq<u8> {
    Seq::new(
        4096,
        |a: int|
            if a < 80 {
                font()[a]
            } else if a < 0x200 || a - 0x200 >= program.len() {
                0u8
            } else {
                program[a - 0x200]
            },
    )
}

/// The machine as it starts on `program`.
pub open spec fn initial_state(program: Seq<u8>) -> State {
    State {
        memory: initial_memory(program),
        pc: 0x200,
        v: Seq::new(16, |k: int| 0u8),
        i: 0,
        stack: Seq::empty(),
        screen: Seq::new(2048, |k: int| false),
        delay: 0,
        sound: 0,
        sound_start: 0,
        keys: Seq::new(16, |k: int| false),
    }
}

/// The address of the next instruction word, wrapping at 12 bits.
pub open spec fn next_pc(pc: u16) -> u16 {
    ((pc + 2) % 4096) as u16
}

/// The program counter after a conditional skip.
pub open spec fn skip_pc(pc: u16, skip: bool) -> u16 {
    if skip {
        ((pc + 4) % 4096) as u16
    } else {
        next_pc(pc)
    }
}

/// A timer one tick later: down by one, stopping at zero.
pub open spec fn tick(t: u8) -> u8 {
    if t == 0 {
        0
    } else {
        (t - 1) as u8
    }
}

/// Whether key `k` is down; a value that names no key is never down.
pub open spec fn key_down(s: State, k: u8) -> bool {
    k < 16 && s.keys[k as int]
}

/// Bit `c` of a sprite row, counted from the most significant bit.
pub open spec fn bit_at(b: u8, c: u8) -> bool {
    (b >> ((7 - c) as u8)) & 1 == 1
}

/// Whether sprite pixel `(c, r)` is set, the sprite starting at address `i`.
pub open spec fn sprite_bit(memory: Seq<u8>, i: u16, r: int, c: int) -> bool {
    bit_at(memory[(i + r) % 4096], c as u8)
}

/// The display cell that sprite pixel `(c, r)` lands on when drawn at
/// `(vx, vy)`, wrapping in both directions.
pub open spec fn cell(r: int, c: int, vx: u8, vy: u8) -> int {
    ((r + vy) % 32) * 64 + (c + vx) % 64
}

/// The sprite row that lands on display cell `k` when drawn at row `vy`.
pub open spec fn row_at(k: int, vy: u8) -> int {
    (k / 64 + 32 - vy % 32) % 32
}

/// The sprite column that lands on display cell `k` when drawn at column `vx`.
pub open spec fn col_at(k: int, vx: u8) -> int {
    (k % 64 + 64 - vx % 64) % 64
}

/// Whether drawing an `n`-row sprite at `(vx, vy)` flips display cell `k`.
pub open spec fn flips(s: State, vx: u8, vy: u8, n: u8, k: int) -> bool {
    &&& row_at(k, vy) < n
    &&& col_at(k, vx) < 8
    &&& sprite_bit(s.memory, s.i, row_at(k, vy), col_at(k, vx))
}

/// The display after XOR-drawing an `n`-row sprite from `s.i` at `(vx, vy)`.
pub open spec fn drawn(s: State, vx: u8, vy: u8, n: u8) -> Seq<bool> {
    Seq::new(2048, |k: int| if flips(s, vx, vy, n, k) { !s.screen[k] } else { s.screen[k] })
}

/// Whether that draw turns off a pixel that was on.
pub open spec fn collides(s: State, vx: u8, vy: u8, n: u8) -> bool {
    exists|r: int, c: int|
        0 <= r < n && 0 <= c < 8 && #[trigger] sprite_bit(s.memory, s.i, r, c) && s.screen[cell(
            r,
            c,
            vx,
            vy,
        )]
}

/// The offset from the index register that memory address `a` stands at.
pub open spec fn offset_from(i: u16, a: int) -> int {
    (a + 4096 - i % 4096) % 4096
}

/// Memory after storing registers `V0..=Vx` from the index register on.
pub open spec fn stored(s: State, x: u8) -> Seq<u8> {
    Seq::new(
        4096,
        |a: int| if offset_from(s.i, a) <= x { s.v[offset_from(s.i, a)] } else { s.memory[a] },
    )
}

/// Registers after loading `V0..=Vx` from memory at the index register on.
pub open spec fn loaded(s: State, x: u8) -> Seq<u8> {
    Seq::new(16, |k: int| if k <= x { s.memory[(s.i + k) % 4096] } else { s.v[k] })
}

/// `s` with register `x` set to `val` and the program counter moved on.
pub open spec fn set_reg(s: State, x: u8, val: u8) -> State {
    State { v: s.v.update(x as int, val), pc: next_pc(s.pc), ..s }
}

/// `s` with register `x` set to `val`, then the flag register to `flag`, and the
/// program counter moved on.
pub open spec fn set_reg_flag(s: State, x: u8, val: u8, flag: u8) -> State {
    State { v: s.v.update(x as int, val).update(15, flag), pc: next_pc(s.pc), ..s }
}

/// `s` with the flag register set to `flag`, then register `x` to `val`, and the
/// program counter moved on.
pub open spec fn set_flag_reg(s: State, x: u8, val: u8, flag: u8) -> State {
    State { v: s.v.update(15, flag).update(x as int, val), pc: next_pc(s.pc), ..s }
}

/// `s` with the program counter past the next word when `c` holds.
pub open spec fn skip_when(s: State, c: bool) -> State {
    State { pc: skip_pc(s.pc, c), ..s }
}

/// What the audio output should do.
#[derive(Clone, Copy, Debug, PartialEq, Eq, Structural)]
pub enum AudioCommand {
    Play,
    Pause,
    Keep,
}

/// How long a tone is held at least, in milliseconds.
pub const MIN_TONE_MS: u64 = 50;

/// The audio rule: a running sound timer wants the tone playing; a stopped one
/// pauses it, but only once it has sounded for `MIN_TONE_MS` since it was set.
pub open spec fn audio_rule(sound: u8, sound_start: u64, paused: bool, now: u64) -> AudioCommand {
    if sound > 0 {
        if paused {
            AudioCommand::Play
        } else {
            AudioCommand::Keep
        }
    } else if !paused && now >= sound_start && now - sound_start >= MIN_TONE_MS {
        AudioCommand::Pause
    } else {
        AudioCommand::Keep
    }
}

/// The keypad after an event for key `key`: pressed or released; an index
/// that names no key changes nothing.
pub open spec fn keys_after(keys: Seq<bool>, key: usize, pressed: bool) -> Seq<bool> {
    if key < 16 {
        keys.update(key as int, pressed)
    } else {
        keys
    }
}

/// The instruction word at the program counter.
pub open spec fn fetched(s: State) -> (u8, u8) {
    (s.memory[s.pc as int], s.memory[(s.pc + 1) % 4096])
}

/// Relies on rand::random (thread_rng().gen()) for the byte that a random
/// instruction masks: nothing is known of it.
pub assume_specification<T>[ rand::random::<T> ]() -> (r: T)
    where
        rand::distributions::Standard: rand::distributions::Distribution<T>,
;

/// The effect of executing `ins` on `s`: the next state, and what the caller
/// is to do. `random` is the byte that a random instruction draws, `now` the
/// caller's clock in milliseconds.
pub open spec fn step(s: State, ins: Instr, random: u8, now: u64) -> (State, Flow) {
    match ins {
        Instr::Clear => (
            State { screen: Seq::new(2048, |k: int| false), pc: next_pc(s.pc), ..s },
            Flow::Continue,
        ),
        Instr::Return => if s.stack.len() == 0 {
            (s, Flow::Halt)
        } else {
            (
                State { pc: next_pc(s.stack.last()), stack: s.stack.drop_last(), ..s },
                Flow::Continue,
            )
        },
        Instr::Jump { addr } => (State { pc: addr, ..s }, Flow::Continue),
        Instr::Call { addr } => (State { pc: addr, stack: s.stack.push(s.pc), ..s }, Flow::Continue),
        Instr::SkipEqImm { x, nn } => (skip_when(s, s.v[x as int] == nn), Flow::Continue),
        Instr::SkipNeImm { x, nn } => (skip_when(s, s.v[x as int] != nn), Flow::Continue),
        Instr::SkipEqReg { x, y } => (skip_when(s, s.v[x as int] == s.v[y as int]), Flow::Continue),
        Instr::SkipNeReg { x, y } => (skip_when(s, s.v[x as int] != s.v[y as int]), Flow::Continue),
        Instr::LoadImm { x, nn } => (set_reg(s, x, nn), Flow::Continue),
        Instr::AddImm { x, nn } => (
            set_reg(s, x, ((s.v[x as int] + nn) % 256) as u8),
            Flow::Continue,
        ),
        Instr::Move { x, y } => (set_reg(s, x, s.v[y as int]), Flow::Continue),
        Instr::Or { x, y } => (set_reg(s, x, s.v[x as int] | s.v[y as int]), Flow::Continue),
        Instr::And { x, y } => (set_reg(s, x, s.v[x as int] & s.v[y as int]), Flow::Continue),
        Instr::Xor { x, y } => (set_reg(s, x, s.v[x as int] ^ s.v[y as int]), Flow::Continue),
        Instr::AddReg { x, y } => {
            let sum = s.v[x as int] + s.v[y as int];
            (set_reg_flag(s, x, (sum % 256) as u8, if sum >= 256 { 1 } else { 0 }), Flow::Continue)
        },
        Instr::SubReg { x, y } => {
            let (a, b) = (s.v[x as int], s.v[y as int]);
            (set_flag_reg(s, x, ((a - b + 256) % 256) as u8, if a > b { 1 } else { 0 }), Flow::Continue)
        },
        Instr::ShiftRight { x } => {
            let a = s.v[x as int];
            (set_flag_reg(s, x, a / 2, a % 2), Flow::Continue)
        },
        Instr::SubRev { x, y } => {
            let (a, b) = (s.v[x as int], s.v[y as int]);
            (set_flag_reg(s, x, ((b - a + 256) % 256) as u8, if b > a { 1 } else { 0 }), Flow::Continue)
        },
        Instr::ShiftLeft { x } => {
            let a = s.v[x as int];
            (set_flag_reg(s, x, ((a * 2) % 256) as u8, a / 128), Flow::Continue)
        },
        Instr::SetIndex { addr } => (State { i: addr, pc: next_pc(s.pc), ..s }, Flow::Continue),
        Instr::JumpOffset { addr } => (
            State { pc: ((addr + s.v[0]) % 4096) as u16, ..s },
            Flow::Continue,
        ),
        Instr::Random { x, nn } => (set_reg(s, x, random & nn), Flow::Continue),
        Instr::Draw { x, y, n } => {
            let (vx, vy) = (s.v[x as int], s.v[y as int]);
            (
                State {
                    screen: drawn(s, vx, vy, n),
                    v: s.v.update(15, if collides(s, vx, vy, n) { 1u8 } else { 0u8 }),
                    pc: next_pc(s.pc),
                    ..s
                },
                Flow::Continue,
            )
        },
        Instr::SkipKey { x } => (skip_when(s, key_down(s, s.v[x as int])), Flow::Continue),
        Instr::SkipNoKey { x } => (skip_when(s, !key_down(s, s.v[x as int])), Flow::Continue),
        Instr::GetDelay { x } => (set_reg(s, x, s.delay), Flow::Continue),
        Instr::WaitKey { x } => (s, Flow::AwaitKey { x }),
        Instr::SetDelay { x } => (
            State { delay: s.v[x as int], pc: next_pc(s.pc), ..s },
            Flow::Continue,
        ),
        Instr::SetSound { x } => (
            State { sound: s.v[x as int], sound_start: now, pc: next_pc(s.pc), ..s },
            Flow::Continue,
        ),
        Instr::AddIndex { x } => (
            State { i: ((s.i + s.v[x as int]) % 65536) as u16, pc: next_pc(s.pc), ..s },
            Flow::Continue,
        ),
        Instr::FontChar { x } => (
            State { i: (s.v[x as int] * 5) as u16, pc: next_pc(s.pc), ..s },
            Flow::Continue,
        ),
        Instr::Bcd { x } => {
            let a = s.v[x as int];
            (
                State {
                    memory: s.memory.update(s.i as int % 4096, a / 100).update(
                        (s.i + 1) % 4096,
                        (a / 10) % 10,
                    ).update((s.i + 2) % 4096, a % 10),
                    pc: next_pc(s.pc),
                    ..s
                },
                Flow::Continue,
            )
        },
        Instr::StoreRegs { x } => (
            State { memory: stored(s, x), pc: next_pc(s.pc), ..s },
            Flow::Continue,
        ),
        Instr::LoadRegs { x } => (
            State { v: loaded(s, x), pc: next_pc(s.pc), ..s },
            Flow::Continue,
        ),
    }
}

/// A vector of `n` pixels, all off.
fn blank(n: usize) -> (r: Vec<bool>)
    ensures
        r@ == Seq::new(n as nat, |k: int| false),
{
    let mut r: Vec<bool> = Vec::new();
    while r.len() < n
        invariant
            r.len() <= n,
            forall|k: int| 0 <= k < r.len() ==> r@[k] == false,
        decreases n - r.len(),
    {
        r.push(false);
    }
    assert(r@ =~= Seq::new(n as nat, |k: int| false));
    r
}

/// Bit `c` of a sprite row, counted from the most significant bit.
fn pixel_bit(b: u8, c: u8) -> (r: bool)
    requires
        c < 8,
    ensures
        r == bit_at(b, c),
{
    (b >> (7 - c)) & 1 == 1
}

/// Stepping back by `t` and forward by `t` on a circle of `m` cells.
pub(crate) proof fn lemma_wrap(q: int, t: int, r: int, m: int)
    requires
        0 <= q < m,
        0 <= t < m,
        0 <= r < m,
    ensures
        (q + m - t) % m == r <==> q == (r + t) % m,
{
    if q >= t {
        assert((q + m - t) % m == q - t) by {
            vstd::arithmetic::div_mod::lemma_mod_add_multiples_vanish(q - t, m);
            vstd::arithmetic::div_mod::lemma_small_mod((q - t) as nat, m as nat);
        }
    } else {
        vstd::arithmetic::div_mod::lemma_small_mod((q + m - t) as nat, m as nat);
    }
    if r + t >= m {
        vstd::arithmetic::div_mod::lemma_mod_sub_multiples_vanish(r + t, m);
        vstd::arithmetic::div_mod::lemma_small_mod((r + t - m) as nat, m as nat);
    } else {
        vstd::arithmetic::div_mod::lemma_small_mod((r + t) as nat, m as nat);
    }
}

/// Where sprite pixel `(c, r)` lands, and that no other cell maps back to it.
pub(crate) proof fn lemma_cell(r: int, c: int, vx: u8, vy: u8)
    requires
        0 <= r < 32,
        0 <= c < 64,
    ensures
        0 <= cell(r, c, vx, vy) < 2048,
        row_at(cell(r, c, vx, vy), vy) == r,
        col_at(cell(r, c, vx, vy), vx) == c,
        forall|k: int|
            0 <= k < 2048 && row_at(k, vy) == r && col_at(k, vx) == c ==> k == cell(r, c, vx, vy),
{
    let py = (r + vy) % 32;
    let px = (c + vx) % 64;
    let ty = vy as int % 32;
    let tx = vx as int % 64;
    vstd::arithmetic::div_mod::lemma_add_mod_noop(r, vy as int, 32);
    vstd::arithmetic::div_mod::lemma_add_mod_noop(c, vx as int, 64);
    vstd::arithmetic::div_mod::lemma_small_mod(r as nat, 32);
    vstd::arithmetic::div_mod::lemma_small_mod(c as nat, 64);
    assert(py == (r + ty) % 32);
    assert(px == (c + tx) % 64);
    assert(0 <= py * 64 + px < 2048) by (nonlinear_arith)
        requires
            0 <= py < 32,
            0 <= px < 64,
    ;
    assert((py * 64 + px) / 64 == py && (py * 64 + px) % 64 == px) by (nonlinear_arith)
        requires
            0 <= py < 32,
            0 <= px < 64,
    ;
    lemma_wrap(py, ty, r, 32);
    lemma_wrap(px, tx, c, 64);
    assert forall|k: int|
        0 <= k < 2048 && row_at(k, vy) == r && col_at(k, vx) == c implies k == cell(
            r,
            c,
            vx,
            vy,
        ) by {
        assert(k == (k / 64) * 64 + k % 64) by (nonlinear_arith);
        assert(0 <= k / 64 < 32);
        lemma_wrap(k / 64, ty, r, 32);
        lemma_wrap(k % 64, tx, c, 64);
    }
}

impl Vm {
    /// The machine's invariant.
    pub open spec fn wf(&self) -> bool {
        self@.wf()
    }

    /// A machine ready to run `program`: registers, stack, display, timers and
    /// keypad cleared, the font at address 0, the program from 0x200 on (cut
    /// at the end of memory), and the program counter at 0x200.
    pub fn new(program: &Vec<u8>) -> (vm: Vm)
        ensures
            vm.wf(),
            vm@ == initial_state(program@),
    {
        let font_set: Vec<u8> = vec![
            0xf0, 0x90, 0x90, 0x90, 0xf0, 0x20, 0x60, 0x20, 0x20, 0x70, 0xf0, 0x10, 0xf0, 0x80,
            0xf0, 0xf0, 0x10, 0xf0, 0x10, 0xf0, 0x90, 0x90, 0xf0, 0x10, 0x10, 0xf0, 0x80, 0xf0,
            0x10, 0xf0, 0xf0, 0x80, 0xf0, 0x90, 0xf0, 0xf0, 0x10, 0x20, 0x40, 0x40, 0xf0, 0x90,
            0xf0, 0x90, 0xf0, 0xf0, 0x90, 0xf0, 0x10, 0xf0, 0xf0, 0x90, 0xf0, 0x90, 0x90, 0xe0,
            0x90, 0xe0, 0x90, 0xe0, 0xf0, 0x80, 0x80, 0x80, 0xf0, 0xe0, 0x90, 0x90, 0x90, 0xe0,
            0xf0, 0x80, 0xf0, 0x80, 0xf0, 0xf0, 0x80, 0xf0, 0x80, 0x80,
        ];
        assert(font_set@ =~= font());
        let mut memory: Vec<u8> = Vec::new();
        while memory.len() < MEMORY_SIZE
            invariant
                memory.len() <= 4096,
                font_set@ == font(),
                forall|a: int| 0 <= a < memory.len() ==> memory@[a] == initial_memory(program@)[a],
            decreases 4096 - memory.len(),
        {
            let a = memory.len();
            let byte = if a < 80 {
                font_set[a]
            } else if a < PROGRAM_START || a - PROGRAM_START >= program.len() {
                0
            } else {
                program[a - PROGRAM_START]
            };
            memory.push(byte);
        }
        assert(memory@ =~= initial_memory(program@));
        let mut v: Vec<u8> = Vec::new();
        while v.len() < 16
            invariant
                v.len() <= 16,
                forall|k: int| 0 <= k < v.len() ==> v@[k] == 0,
            decreases 16 - v.len(),
        {
            v.push(0);
        }
        assert(v@ =~= Seq::new(16, |k: int| 0u8));
        let vm = Vm {
            memory,
            pc: PROGRAM_START as u16,
            v,
            i: 0,
            stack: Vec::new(),
            screen: blank(SCREEN_CELLS),
            delay_timer: 0,
            sound_timer: 0,
            sound_start: 0,
            keys: blank(16),
        };
        assert(vm@.stack =~= Seq::<u16>::empty());
        vm
    }

    /// Puts the machine back to its start on `program`, as `new` builds it.
    pub fn reset(&mut self, program: &Vec<u8>)
        ensures
            final(self).wf(),
            final(self)@ == initial_state(program@),
    {
        *self = Vm::new(program);
    }

    /// Moves the program counter to the next word.
    fn advance(&mut self)
        requires
            old(self).wf(),
        ensures
            final(self)@ == (State { pc: next_pc(old(self).pc), ..old(self)@ }),
    {
        self.pc = (self.pc + 2) % 4096;
    }

    /// Moves the program counter past the next word when `skip` holds, else to it.
    fn skip_if(&mut self, skip: bool)
        requires
            old(self).wf(),
        ensures
            final(self)@ == skip_when(old(self)@, skip),
    {
        if skip {
            self.pc = (self.pc + 4) % 4096;
        } else {
            self.pc = (self.pc + 2) % 4096;
        }
    }

    /// XOR-draws the `n`-row sprite at the index register onto the display at
    /// `(vx, vy)`, and says whether it turned off a pixel that was on.
    fn draw(&mut self, vx: u8, vy: u8, n: u8) -> (hit: bool)
        requires
            old(self).wf(),
            n < 16,
        ensures
            final(self)@ == (State { screen: drawn(old(self)@, vx, vy, n), ..old(self)@ }),
            hit == collides(old(self)@, vx, vy, n),
    {
        let ghost s0 = self@;
        let mut hit = false;
        let mut row: u8 = 0;
        while row < n
            invariant
                self@ == (State { screen: self@.screen, ..s0 }),
                s0.wf(),
                self.screen@.len() == 2048,
                row <= n,
                n < 16,
                forall|k: int|
                    0 <= k < 2048 ==> #[trigger] self.screen@[k] == if row_at(k, vy) < row && flips(
                        s0,
                        vx,
                        vy,
                        n,
                        k,
                    ) {
                        !s0.screen[k]
                    } else {
                        s0.screen[k]
                    },
                hit == exists|r: int, c: int|
                    0 <= r < row && 0 <= c < 8 && #[trigger] sprite_bit(s0.memory, s0.i, r, c)
                        && s0.screen[cell(r, c, vx, vy)],
            decreases n - row,
        {
            let mut col: u8 = 0;
            let byte = self.memory[(self.i as usize + row as usize) % MEMORY_SIZE];
            while col < 8
                invariant
                    self@ == (State { screen: self@.screen, ..s0 }),
                    s0.wf(),
                    self.screen@.len() == 2048,
                    row < n,
                    n < 16,
                    col <= 8,
                    byte == s0.memory[(s0.i + row) % 4096],
                    forall|k: int|
                        0 <= k < 2048 ==> #[trigger] self.screen@[k] == if (row_at(k, vy) < row || (
                        row_at(k, vy) == row && col_at(k, vx) < col)) && flips(s0, vx, vy, n, k) {
                            !s0.screen[k]
                        } else {
                            s0.screen[k]
                        },
                    hit == exists|r: int, c: int|
                        0 <= r < n && 0 <= c < 8 && (r < row || (r == row && c < col))
                            && #[trigger] sprite_bit(s0.memory, s0.i, r, c) && s0.screen[cell(
                            r,
                            c,
                            vx,
                            vy,
                        )],
                decreases 8 - col,
            {
                let k = ((row as usize + vy as usize) % SCREEN_HEIGHT) * SCREEN_WIDTH + (col as usize
                    + vx as usize) % SCREEN_WIDTH;
                proof {
                    lemma_cell(row as int, col as int, vx, vy);
                    assert(k == cell(row as int, col as int, vx, vy));
                }
                let bit = pixel_bit(byte, col);
                assert(bit == sprite_bit(s0.memory, s0.i, row as int, col as int));
                let was_on = self.screen[k];
                assert(was_on == s0.screen[k as int]);
                if bit && was_on {
                    hit = true;
                }
                if bit {
                    self.screen.set(k, !was_on);
                }
                proof {
                    assert forall|k2: int| 0 <= k2 < 2048 && k2 != k implies !(row_at(k2, vy)
                        == row && col_at(k2, vx) == col) by {}
                    if !(bit && was_on) {
                        assert forall|r: int, c: int|
                            0 <= r < n && 0 <= c < 8 && (r < row || (r == row && c < col + 1))
                                && #[trigger] sprite_bit(s0.memory, s0.i, r, c) && s0.screen[cell(
                                r,
                                c,
                                vx,
                                vy,
                            )] implies (r < row || (r == row && c < col)) by {}
                    }
                }
                col += 1;
            }
            row += 1;
        }
        proof {
            assert(self.screen@ =~= drawn(s0, vx, vy, n));
            assert(self@ =~= (State { screen: drawn(s0, vx, vy, n), ..s0 }));
        }
        hit
    }
    /// Stores registers `V0..=Vx` into memory from the index register on.
    fn store_regs(&mut self, x: u8)
        requires
            old(self).wf(),
            x < 16,
        ensures
            final(self)@ == (State { memory: stored(old(self)@, x), ..old(self)@ }),
    {
        let ghost s0 = self@;
        let mut k: usize = 0;
        while k <= x as usize
            invariant
                self@ == (State { memory: self@.memory, ..s0 }),
                s0.wf(),
                self.memory@.len() == 4096,
                k <= x + 1,
                x < 16,
                forall|a: int|
                    0 <= a < 4096 ==> #[trigger] self.memory@[a] == if offset_from(s0.i, a) < k {
                        s0.v[offset_from(s0.i, a)]
                    } else {
                        s0.memory[a]
                    },
            decreases x + 1 - k,
        {
            let a = (self.i as usize + k) % MEMORY_SIZE;
            assert(offset_from(s0.i, a as int) == k) by {
                vstd::arithmetic::div_mod::lemma_add_mod_noop(s0.i as int, k as int, 4096);
                vstd::arithmetic::div_mod::lemma_small_mod(k as nat, 4096);
                lemma_wrap(a as int, s0.i as int % 4096, k as int, 4096);
            }
            assert forall|b: int| 0 <= b < 4096 && b != a implies offset_from(s0.i, b) != k by {
                lemma_wrap(b, s0.i as int % 4096, k as int, 4096);
            }
            let val = self.v[k];
            self.memory.set(a, val);
            k += 1;
        }
        proof {
            assert(self.memory@ =~= stored(s0, x));
            assert(self@ =~= (State { memory: stored(s0, x), ..s0 }));
        }
    }

    /// Loads registers `V0..=Vx` from memory at the index register on.
    fn load_regs(&mut self, x: u8)
        requires
            old(self).wf(),
            x < 16,
        ensures
            final(self)@ == (State { v: loaded(old(self)@, x), ..old(self)@ }),
    {
        let ghost s0 = self@;
        let mut k: usize = 0;
        while k <= x as usize
            invariant
                self@ == (State { v: self@.v, ..s0 }),
                s0.wf(),
                self.v@.len() == 16,
                k <= x + 1,
                x < 16,
                forall|j: int|
                    0 <= j < 16 ==> #[trigger] self.v@[j] == if j < k {
                        s0.memory[(s0.i + j) % 4096]
                    } else {
                        s0.v[j]
                    },
            decreases x + 1 - k,
        {
            let val = self.memory[(self.i as usize + k) % MEMORY_SIZE];
            self.v.set(k, val);
            k += 1;
        }
        proof {
            assert(self.v@ =~= loaded(s0, x));
            assert(self@ =~= (State { v: loaded(s0, x), ..s0 }));
        }
    }

    /// Executes one decoded instruction. `random` is the byte that a random
    /// instruction uses; `now` is the caller's clock in milliseconds, recorded
    /// when the sound timer is set. A return on an empty stack halts, and a
    /// wait for a key leaves the machine as it is (see `wait_event`).
    pub fn execute(&mut self, ins: Instr, random: u8, now: u64) -> (flow: Flow)
        requires
            old(self).wf(),
            ins.wf(),
        ensures
            final(self).wf(),
            (final(self)@, flow) == step(old(self)@, ins, random, now),
    {
        match ins {
            Instr::Clear => {
                self.screen = blank(SCREEN_CELLS);
                self.advance();
                Flow::Continue
            },
            Instr::Return => {
                match self.stack.pop() {
                    Some(addr) => {
                        assert(self@.stack =~= old(self)@.stack.drop_last());
                        assert(addr == old(self)@.stack.last());
                        self.pc = addr;
                        self.advance();
                        Flow::Continue
                    },
                    None => Flow::Halt,
                }
            },
            Instr::Jump { addr } => {
                self.pc = addr;
                Flow::Continue
            },
            Instr::Call { addr } => {
                self.stack.push(self.pc);
                self.pc = addr;
                Flow::Continue
            },
            Instr::SkipEqImm { x, nn } => {
                let a = self.v[x as usize];
                self.skip_if(a == nn);
                Flow::Continue
            },
            Instr::SkipNeImm { x, nn } => {
                let a = self.v[x as usize];
                self.skip_if(a != nn);
                Flow::Continue
            },
            Instr::SkipEqReg { x, y } => {
                let (a, b) = (self.v[x as usize], self.v[y as usize]);
                self.skip_if(a == b);
                Flow::Continue
            },
            Instr::SkipNeReg { x, y } => {
                let (a, b) = (self.v[x as usize], self.v[y as usize]);
                self.skip_if(a != b);
                Flow::Continue
            },
            Instr::LoadImm { x, nn } => {
                self.v.set(x as usize, nn);
                self.advance();
                Flow::Continue
            },
            Instr::AddImm { x, nn } => {
                let a = self.v[x as usize];
                self.v.set(x as usize, ((a as u16 + nn as u16) % 256) as u8);
                self.advance();
                Flow::Continue
            },
            Instr::Move { x, y } => {
                let b = self.v[y as usize];
                self.v.set(x as usize, b);
                self.advance();
                Flow::Continue
            },
            Instr::Or { x, y } => {
                let (a, b) = (self.v[x as usize], self.v[y as usize]);
                self.v.set(x as usize, a | b);
                self.advance();
                Flow::Continue
            },
            Instr::And { x, y } => {
                let (a, b) = (self.v[x as usize], self.v[y as usize]);
                self.v.set(x as usize, a & b);
                self.advance();
                Flow::Continue
            },
            Instr::Xor { x, y } => {
                let (a, b) = (self.v[x as usize], self.v[y as usize]);
                self.v.set(x as usize, a ^ b);
                self.advance();
                Flow::Continue
            },
            Instr::AddReg { x, y } => {
                let (a, b) = (self.v[x as usize], self.v[y as usize]);
                let sum: u16 = a as u16 + b as u16;
                self.v.set(x as usize, (sum % 256) as u8);
                self.v.set(15, if sum >= 256 { 1 } else { 0 });
                self.advance();
                Flow::Continue
            },
            Instr::SubReg { x, y } => {
                let (a, b) = (self.v[x as usize], self.v[y as usize]);
                self.v.set(15, if a > b { 1 } else { 0 });
                self.v.set(x as usize, ((a as u16 + 256 - b as u16) % 256) as u8);
                self.advance();
                Flow::Continue
            },
            Instr::ShiftRight { x } => {
                let a = self.v[x as usize];
                self.v.set(15, a % 2);
                self.v.set(x as usize, a / 2);
                self.advance();
                Flow::Continue
            },
            Instr::SubRev { x, y } => {
                let (a, b) = (self.v[x as usize], self.v[y as usize]);
                self.v.set(15, if b > a { 1 } else { 0 });
                self.v.set(x as usize, ((b as u16 + 256 - a as u16) % 256) as u8);
                self.advance();
                Flow::Continue
            },
            Instr::ShiftLeft { x } => {
                let a = self.v[x as usize];
                self.v.set(15, a / 128);
                self.v.set(x as usize, ((a as u16 * 2) % 256) as u8);
                self.advance();
                Flow::Continue
            },
            Instr::SetIndex { addr } => {
                self.i = addr;
                self.advance();
                Flow::Continue
            },
            Instr::JumpOffset { addr } => {
                let base = self.v[0];
                self.pc = ((addr + base as u16) % 4096) as u16;
                Flow::Continue
            },
            Instr::Random { x, nn } => {
                self.v.set(x as usize, random & nn);
                self.advance();
                Flow::Continue
            },
            Instr::Draw { x, y, n } => {
                let (vx, vy) = (self.v[x as usize], self.v[y as usize]);
                let hit = self.draw(vx, vy, n);
                self.v.set(15, if hit { 1 } else { 0 });
                self.advance();
                Flow::Continue
            },
            Instr::SkipKey { x } => {
                let k = self.v[x as usize];
                let down = k < 16 && self.keys[k as usize];
                self.skip_if(down);
                Flow::Continue
            },
            Instr::SkipNoKey { x } => {
                let k = self.v[x as usize];
                let down = k < 16 && self.keys[k as usize];
                self.skip_if(!down);
                Flow::Continue
            },
            Instr::GetDelay { x } => {
                self.v.set(x as usize, self.delay_timer);
                self.advance();
                Flow::Continue
            },
            Instr::WaitKey { x } => Flow::AwaitKey { x },
            Instr::SetDelay { x } => {
                self.delay_timer = self.v[x as usize];
                self.advance();
                Flow::Continue
            },
            Instr::SetSound { x } => {
                self.sound_timer = self.v[x as usize];
                self.sound_start = now;
                self.advance();
                Flow::Continue
            },
            Instr::AddIndex { x } => {
                let a = self.v[x as usize];
                self.i = ((self.i as u32 + a as u32) % 65536) as u16;
                self.advance();
                Flow::Continue
            },
            Instr::FontChar { x } => {
                let a = self.v[x as usize];
                self.i = a as u16 * 5;
                self.advance();
                Flow::Continue
            },
            Instr::Bcd { x } => {
                let a = self.v[x as usize];
                let base = self.i as usize;
                self.memory.set(base % MEMORY_SIZE, a / 100);
                self.memory.set((base + 1) % MEMORY_SIZE, (a / 10) % 10);
                self.memory.set((base + 2) % MEMORY_SIZE, a % 10);
                self.advance();
                Flow::Continue
            },
            Instr::StoreRegs { x } => {
                self.store_regs(x);
                self.advance();
                Flow::Continue
            },
            Instr::LoadRegs { x } => {
                self.load_regs(x);
                self.advance();
                Flow::Continue
            },
        }
    }

    /// Pixel `(x, y)` of the display.
    pub fn pixel(&self, x: usize, y: usize) -> (on: bool)
        requires
            self.wf(),
            x < 64,
            y < 32,
        ensures
            on == self@.screen[y * 64 + x],
    {
        self.screen[y * SCREEN_WIDTH + x]
    }

    /// One tick of both timers: each goes down by one and stops at zero.
    pub fn tick_timers(&mut self)
        requires
            old(self).wf(),
        ensures
            final(self).wf(),
            final(self)@ == (State {
                delay: tick(old(self)@.delay),
                sound: tick(old(self)@.sound),
                ..old(self)@
            }),
    {
        if self.delay_timer > 0 {
            self.delay_timer = self.delay_timer - 1;
        }
        if self.sound_timer > 0 {
            self.sound_timer = self.sound_timer - 1;
        }
    }

    /// What the audio output should do, given whether it is paused now and the
    /// caller's clock in milliseconds.
    pub fn audio_command(&self, paused: bool, now: u64) -> (cmd: AudioCommand)
        ensures
            cmd == audio_rule(self.sound_timer, self.sound_start, paused, now),
    {
        if self.sound_timer > 0 {
            if paused {
                AudioCommand::Play
            } else {
                AudioCommand::Keep
            }
        } else if !paused && now >= self.sound_start && now - self.sound_start >= MIN_TONE_MS {
            AudioCommand::Pause
        } else {
            AudioCommand::Keep
        }
    }

    /// Applies one key event: key `key` (0 to 15) pressed or released. An
    /// index past the keypad is ignored.
    pub fn key_event(&mut self, key: usize, pressed: bool)
        requires
            old(self).wf(),
        ensures
            final(self).wf(),
            final(self)@ == (State { keys: keys_after(old(self)@.keys, key, pressed), ..old(self)@ }),
    {
        if key < 16 {
            self.keys.set(key, pressed);
        }
    }

    /// Feeds one key event to a wait for a key (a `Flow::AwaitKey { x }`): the
    /// event is applied to the keypad, and a press of a key ends the wait,
    /// storing the key in register `x` and moving on. Returns whether the wait
    /// has ended.
    pub fn wait_event(&mut self, x: u8, key: usize, pressed: bool) -> (done: bool)
        requires
            old(self).wf(),
            x < 16,
        ensures
            final(self).wf(),
            done == (key < 16 && pressed),
            done ==> final(self)@ == (State {
                keys: keys_after(old(self)@.keys, key, pressed),
                v: old(self)@.v.update(x as int, key as u8),
                pc: next_pc(old(self)@.pc),
                ..old(self)@
            }),
            !done ==> final(self)@ == (State {
                keys: keys_after(old(self)@.keys, key, pressed),
                ..old(self)@
            }),
    {
        self.key_event(key, pressed);
        if key < 16 && pressed {
            self.v.set(x as usize, key as u8);
            self.advance();
            true
        } else {
            false
        }
    }

    /// Runs one cycle: fetches the word at the program counter, decodes it and
    /// executes it, drawing a random byte where the instruction needs one. A
    /// word that encodes no instruction leaves the machine as it is.
    pub fn cycle(&mut self, now: u64) -> (flow: Flow)
        requires
            old(self).wf(),
        ensures
            final(self).wf(),
            ({
                let (hi, lo) = fetched(old(self)@);
                match decoded(hi, lo) {
                    None => final(self)@ == old(self)@ && flow == Flow::Illegal { hi, lo },
                    Some(ins) => {
                        &&& exists|r: u8| (final(self)@, flow) == step(old(self)@, ins, r, now)
                        &&& !(ins is Random) ==> (final(self)@, flow) == step(
                            old(self)@,
                            ins,
                            0,
                            now,
                        )
                    },
                }
            }),
    {
        let hi = self.memory[self.pc as usize];
        let lo = self.memory[(self.pc as usize + 1) % MEMORY_SIZE];
        match decode(hi, lo) {
            None => Flow::Illegal { hi, lo },
            Some(ins) => {
                let random: u8 = match ins {
                    Instr::Random { .. } => rand::random::<u8>(),
                    _ => 0,
                };
                let ghost s0 = self@;
                let flow = self.execute(ins, random, now);
                assert((self@, flow) == step(s0, ins, random, now));
                flow
            },
        }
    }
}

} // verus!
