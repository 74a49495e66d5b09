//! The architectural state as a mathematical value, and what each instruction
//! does to it.
use vstd::prelude::*;

verus! {

/// Bytes of addressable memory.
pub const MEM_SIZE: usize = 4096;

/// Where a program image is loaded and where execution starts.
pub const PROGRAM_START: u16 = 0x200;

/// Number of cells of the framebuffer (64 columns by 32 rows).
pub const SCREEN_CELLS: usize = 2048;

/// Number of general registers, of stack slots and of keys.
pub const REG_COUNT: usize = 16;

/// The register that reports carry, borrow, shifted-out bits and collisions.
pub const FLAG_REG: usize = 15;

/// Whether a step completed an instruction or is blocked on a key press.
#[derive(Clone, Copy, Debug, PartialEq, Eq, Structural)]
pub enum ExecState {
    Running,
    AwaitingKeyInput,
}

/// A fault reported by `load` or by a step; the state is left untouched.
#[derive(Clone, Copy, Debug, PartialEq, Eq, Structural)]
pub enum VmError {
    /// The word fetched at `pc` is no instruction.
    InvalidOpcode { opcode: u16, pc: u16 },
    /// The instruction at `pc` reaches memory past its end, starting at `addr`.
    MemoryFault { pc: u16, addr: u16 },
    /// The sprite drawn by the instruction at `pc` leaves the framebuffer.
    DisplayFault { pc: u16 },
    /// A call at `pc` with all stack slots in use.
    StackOverflow { pc: u16 },
    /// A return at `pc` with an empty stack.
    StackUnderflow { pc: u16 },
    /// A key instruction at `pc` names a key past the last one.
    InvalidKey { pc: u16, key: u8 },
    /// A program image of `len` bytes does not fit after the entry offset.
    ProgramTooLarge { len: usize },
}

/// The glyphs of the hexadecimal digits, five rows each, held at the start of memory.
pub open spec fn font() -> Seq<u8> {
    seq![
        0xF0u8, 0x90, 0x90, 0x90, 0xF0,
        0x20, 0x60, 0x20, 0x20, 0x70,
        0xF0, 0x10, 0xF0, 0x80, 0xF0,
        0xF0, 0x10, 0xF0, 0x10, 0xF0,
        0x90, 0x90, 0xF0, 0x10, 0x10,
        0xF0, 0x80, 0xF0, 0x10, 0xF0,
        0xF0, 0x80, 0xF0, 0x90, 0xF0,
        0xF0, 0x10, 0x20, 0x40, 0x40,
        0xF0, 0x90, 0xF0, 0x90, 0xF0,
        0xF0, 0x90, 0xF0, 0x10, 0xF0,
        0xF0, 0x90, 0xF0, 0x90, 0x90,
        0xE0, 0x90, 0xE0, 0x90, 0xE0,
        0xF0, 0x80, 0x80, 0x80, 0xF0,
        0xE0, 0x90, 0x90, 0x90, 0xE0,
        0xF0, 0x80, 0xF0, 0x80, 0xF0,
        0xF0, 0x80, 0xF0, 0x80, 0x80,
    ]
}

/// Whether bit `col` of a sprite row is set, counting from the most significant bit.
pub open spec fn sprite_bit(row: u8, col: u8) -> bool {
    (0x80u8 >> col) & row != 0
}

/// The framebuffer cell that sprite pixel (`row`, `col`) lands on when drawn at (`cx`, `ry`).
pub open spec fn cell_of(cx: int, ry: int, row: int, col: int) -> int {
    (ry + row) * 64 + (cx + col)
}

/// The lowest index at or after `k` of a pressed key, or 16 if there is none.
pub open spec fn lowest_pressed(keys: Seq<bool>, k: int) -> int
    decreases 16 - k,
{
    if k >= 16 {
        16
    } else if keys[k] {
        k
    } else {
        lowest_pressed(keys, k + 1)
    }
}

/// The whole architectural state.
pub struct VmView {
    pub memory: Seq<u8>,
    pub v: Seq<u8>,
    pub i: u16,
    pub pc: u16,
    pub gfx: Seq<u8>,
    pub delay_timer: u8,
    pub sound_timer: u8,
    pub stack: Seq<u16>,
    pub sp: u16,
    pub keys: Seq<bool>,
    pub draw_flag: bool,
}

impl VmView {
    /// Sizes of the parts, the stack pointer in range, every cell 0 or 1.
    pub open spec fn wf(self) -> bool {
        &&& self.memory.len() == MEM_SIZE
        &&& self.v.len() == REG_COUNT
        &&& self.gfx.len() == SCREEN_CELLS
        &&& forall|k: int| 0 <= k < SCREEN_CELLS ==> #[trigger] self.gfx[k] <= 1
        &&& self.stack.len() == REG_COUNT
        &&& self.sp <= 16
        &&& self.keys.len() == REG_COUNT
    }

    /// The state right after construction.
    pub open spec fn initial() -> VmView {
        VmView {
            memory: Seq::new(MEM_SIZE as nat, |a: int| if a < 80 { font()[a] } else { 0u8 }),
            v: Seq::new(16, |r: int| 0u8),
            i: 0,
            pc: PROGRAM_START,
            gfx: Seq::new(SCREEN_CELLS as nat, |k: int| 0u8),
            delay_timer: 0,
            sound_timer: 0,
            stack: Seq::new(16, |r: int| 0u16),
            sp: 0,
            keys: Seq::new(16, |k: int| false),
            draw_flag: true,
        }
    }

    /// Whether a program image of `len` bytes fits after the entry offset.
    pub open spec fn fits(len: int) -> bool {
        PROGRAM_START + len <= MEM_SIZE
    }

    /// The state with `program` copied into memory from the entry offset.
    pub open spec fn loaded(self, program: Seq<u8>) -> VmView {
        VmView {
            memory: Seq::new(
                self.memory.len(),
                |a: int|
                    if PROGRAM_START <= a < PROGRAM_START + program.len() {
                        program[a - PROGRAM_START]
                    } else {
                        self.memory[a]
                    },
            ),
            ..self
        }
    }

    /// Both timers one lower, neither below zero.
    pub open spec fn timers_stepped(self) -> VmView {
        VmView {
            delay_timer: if self.delay_timer > 0 { (self.delay_timer - 1) as u8 } else { 0 },
            sound_timer: if self.sound_timer > 0 { (self.sound_timer - 1) as u8 } else { 0 },
            ..self
        }
    }

    pub open spec fn with_key(self, idx: int, pressed: bool) -> VmView {
        VmView { keys: self.keys.update(idx, pressed), ..self }
    }

    pub open spec fn with_reg(self, x: int, val: u8) -> VmView {
        VmView { v: self.v.update(x, val), ..self }
    }

    pub open spec fn with_flag(self, val: u8) -> VmView {
        self.with_reg(FLAG_REG as int, val)
    }

    pub open spec fn advance(self, n: int) -> VmView {
        VmView { pc: (self.pc + n) as u16, ..self }
    }

    /// Past the next instruction when `cond` holds, else to the next one.
    pub open spec fn skip_if(self, cond: bool) -> VmView {
        self.advance(if cond { 4 } else { 2 })
    }

    pub open spec fn cleared(self) -> VmView {
        VmView { gfx: Seq::new(SCREEN_CELLS as nat, |k: int| 0u8), draw_flag: true, ..self }.advance(2)
    }

    pub open spec fn returned(self) -> VmView {
        VmView { sp: (self.sp - 1) as u16, pc: self.stack[self.sp - 1], ..self }
    }

    pub open spec fn called(self, addr: u16) -> VmView {
        VmView {
            stack: self.stack.update(self.sp as int, (self.pc + 2) as u16),
            sp: (self.sp + 1) as u16,
            pc: addr,
            ..self
        }
    }

    pub open spec fn jumped(self, addr: u16) -> VmView {
        VmView { pc: addr, ..self }
    }

    pub open spec fn jumped_offset(self, addr: u16) -> VmView {
        VmView { pc: (addr + self.v[0]) as u16, ..self }
    }

    pub open spec fn set_imm(self, x: int, val: u8) -> VmView {
        self.with_reg(x, val).advance(2)
    }

    pub open spec fn add_imm(self, x: int, val: u8) -> VmView {
        self.with_reg(x, ((self.v[x] + val) % 256) as u8).advance(2)
    }

    pub open spec fn copied(self, x: int, y: int) -> VmView {
        self.with_reg(x, self.v[y]).advance(2)
    }

    pub open spec fn or_reg(self, x: int, y: int) -> VmView {
        self.with_reg(x, self.v[x] | self.v[y]).advance(2)
    }

    pub open spec fn and_reg(self, x: int, y: int) -> VmView {
        self.with_reg(x, self.v[x] & self.v[y]).advance(2)
    }

    pub open spec fn xor_reg(self, x: int, y: int) -> VmView {
        self.with_reg(x, self.v[x] ^ self.v[y]).advance(2)
    }

    /// `x += y`: the flag is 1 on carry, else 0; then the wrapped sum is stored.
    pub open spec fn add_reg(self, x: int, y: int) -> VmView {
        let sum = self.v[x] + self.v[y];
        self.with_flag(if sum > 255 { 1 } else { 0 }).with_reg(x, (sum % 256) as u8).advance(2)
    }

    /// `x -= y`: the flag is 0 on borrow, else 1; then the wrapped difference is stored.
    pub open spec fn sub_reg(self, x: int, y: int) -> VmView {
        let diff = self.v[x] - self.v[y];
        self.with_flag(if diff < 0 { 0 } else { 1 }).with_reg(x, ((diff + 256) % 256) as u8).advance(2)
    }

    /// `x = y - x`, with the flag as for `sub_reg`.
    pub open spec fn inv_sub_reg(self, x: int, y: int) -> VmView {
        let diff = self.v[y] - self.v[x];
        self.with_flag(if diff < 0 { 0 } else { 1 }).with_reg(x, ((diff + 256) % 256) as u8).advance(2)
    }

    /// The low bit goes to the flag, then `x` is halved.
    pub open spec fn shifted_right(self, x: int) -> VmView {
        let val = self.v[x];
        self.with_flag(val % 2).with_reg(x, val / 2).advance(2)
    }

    /// The high bit goes to the flag, then `x` is doubled, wrapping.
    pub open spec fn shifted_left(self, x: int) -> VmView {
        let val = self.v[x];
        self.with_flag(val / 128).with_reg(x, ((val * 2) % 256) as u8).advance(2)
    }

    pub open spec fn index_set(self, addr: u16) -> VmView {
        VmView { i: addr, ..self }.advance(2)
    }

    pub open spec fn randomized(self, x: int, mask: u8, rnd: u8) -> VmView {
        self.with_reg(x, mask & rnd).advance(2)
    }

    /// Whether pixel (`row`, `col`) of the `n`-row sprite at the index register is set.
    pub open spec fn pixel_set(self, n: int, row: int, col: int) -> bool {
        &&& 0 <= row < n
        &&& 0 <= col < 8
        &&& sprite_bit(self.memory[self.i + row], col as u8)
    }

    /// Whether some set pixel of the sprite lands outside the framebuffer.
    pub open spec fn sprite_off_screen(self, cx: int, ry: int, n: int) -> bool {
        exists|row: int, col: int|
            #[trigger] self.pixel_set(n, row, col) && cell_of(cx, ry, row, col) >= SCREEN_CELLS
    }

    /// Whether a set pixel of the sprite lands on cell `k`.
    pub open spec fn covers(self, cx: int, ry: int, n: int, k: int) -> bool {
        let d = k - (ry * 64 + cx);
        0 <= d && self.pixel_set(n, d / 64, d % 64)
    }

    /// The framebuffer with every cell that the sprite covers flipped.
    pub open spec fn gfx_drawn(self, cx: int, ry: int, n: int) -> Seq<u8> {
        Seq::new(
            SCREEN_CELLS as nat,
            |k: int| if self.covers(cx, ry, n, k) { (1 - self.gfx[k]) as u8 } else { self.gfx[k] },
        )
    }

    /// Whether the sprite covers a cell that is set.
    pub open spec fn collides(self, cx: int, ry: int, n: int) -> bool {
        exists|k: int| 0 <= k < SCREEN_CELLS && #[trigger] self.covers(cx, ry, n, k) && self.gfx[k] == 1
    }

    /// Draws the `n`-row sprite at the index register, at (V[x], V[y]).
    pub open spec fn drawn(self, x: int, y: int, n: int) -> VmView {
        let cx = self.v[x] as int;
        let ry = self.v[y] as int;
        VmView {
            gfx: self.gfx_drawn(cx, ry, n),
            draw_flag: true,
            ..self
        }.with_flag(if self.collides(cx, ry, n) { 1 } else { 0 }).advance(2)
    }

    pub open spec fn delay_read(self, x: int) -> VmView {
        self.with_reg(x, self.delay_timer).advance(2)
    }

    /// With no key pressed nothing changes; else the lowest pressed key goes to `x`.
    pub open spec fn key_awaited(self, x: int) -> VmView {
        let k = lowest_pressed(self.keys, 0);
        if k < 16 {
            self.with_reg(x, k as u8).advance(2)
        } else {
            self
        }
    }

    pub open spec fn delay_set(self, x: int) -> VmView {
        VmView { delay_timer: self.v[x], ..self }.advance(2)
    }

    pub open spec fn sound_set(self, x: int) -> VmView {
        VmView { sound_timer: self.v[x], ..self }.advance(2)
    }

    /// `I += x`, wrapping at 16 bits; the flag is 1 when the sum passes 0xFFF.
    pub open spec fn index_added(self, x: int) -> VmView {
        let sum = self.i + self.v[x];
        VmView { i: (sum % 65536) as u16, ..self }.with_flag(if sum > 0xFFF { 1 } else { 0 }).advance(2)
    }

    /// `I` at the glyph of the low nibble of `x`.
    pub open spec fn font_indexed(self, x: int) -> VmView {
        VmView { i: ((self.v[x] % 16) * 5) as u16, ..self }.advance(2)
    }

    /// The three decimal digits of `x` at `I`, `I + 1`, `I + 2`.
    pub open spec fn bcd_stored(self, x: int) -> VmView {
        let val = self.v[x];
        VmView {
            memory: self.memory.update(self.i as int, val / 100).update(
                self.i + 1,
                (val / 10) % 10,
            ).update(self.i + 2, val % 10),
            ..self
        }.advance(2)
    }

    /// V[0..=x] copied to memory from `I`; then `I` moves past them.
    pub open spec fn dumped(self, x: int) -> VmView {
        VmView {
            memory: Seq::new(
                self.memory.len(),
                |a: int| if self.i <= a <= self.i + x { self.v[a - self.i] } else { self.memory[a] },
            ),
            i: (self.i + x + 1) as u16,
            ..self
        }.advance(2)
    }

    /// V[0..=x] filled from memory from `I`; then `I` moves past them.
    pub open spec fn reg_loaded(self, x: int) -> VmView {
        VmView {
            v: Seq::new(
                self.v.len(),
                |r: int| if r <= x { self.memory[self.i + r] } else { self.v[r] },
            ),
            i: (self.i + x + 1) as u16,
            ..self
        }.advance(2)
    }

    /// Whether `len` bytes from `I` stay in memory.
    pub open spec fn index_span_ok(self, len: int) -> bool {
        self.i + len <= MEM_SIZE
    }

    /// The instruction word at the program counter, high byte first.
    pub open spec fn fetch(self) -> u16 {
        (self.memory[self.pc as int] * 256 + self.memory[self.pc + 1]) as u16
    }
}

pub open spec fn op_x(op: u16) -> int {
    (op / 256 % 16) as int
}

pub open spec fn op_y(op: u16) -> int {
    (op / 16 % 16) as int
}

pub open spec fn op_n(op: u16) -> int {
    (op % 16) as int
}

pub open spec fn op_nn(op: u16) -> u8 {
    (op % 256) as u8
}

pub open spec fn op_nnn(op: u16) -> u16 {
    op % 4096
}

pub open spec fn running(s: VmView) -> Result<(VmView, ExecState), VmError> {
    Ok((s, ExecState::Running))
}

/// What instruction word `op` does to `s`, given `rnd` as the random byte.
pub open spec fn execute(s: VmView, op: u16, rnd: u8) -> Result<(VmView, ExecState), VmError> {
    let x = op_x(op);
    let y = op_y(op);
    let n = op_n(op);
    let nn = op_nn(op);
    let nnn = op_nnn(op);
    let invalid = Err(VmError::InvalidOpcode { opcode: op, pc: s.pc });
    let mem_fault = Err(VmError::MemoryFault { pc: s.pc, addr: s.i });
    let hi = op / 4096;
    if hi == 0 {
        if n == 0 {
            running(s.cleared())
        } else if n == 0xE {
            if s.sp == 0 {
                Err(VmError::StackUnderflow { pc: s.pc })
            } else {
                running(s.returned())
            }
        } else {
            invalid
        }
    } else if hi == 1 {
        running(s.jumped(nnn))
    } else if hi == 2 {
        if s.sp >= 16 {
            Err(VmError::StackOverflow { pc: s.pc })
        } else {
            running(s.called(nnn))
        }
    } else if hi == 3 {
        running(s.skip_if(s.v[x] == nn))
    } else if hi == 4 {
        running(s.skip_if(s.v[x] != nn))
    } else if hi == 5 {
        running(s.skip_if(s.v[x] == s.v[y]))
    } else if hi == 6 {
        running(s.set_imm(x, nn))
    } else if hi == 7 {
        running(s.add_imm(x, nn))
    } else if hi == 8 {
        if n == 0 {
            running(s.copied(x, y))
        } else if n == 1 {
            running(s.or_reg(x, y))
        } else if n == 2 {
            running(s.and_reg(x, y))
        } else if n == 3 {
            running(s.xor_reg(x, y))
        } else if n == 4 {
            running(s.add_reg(x, y))
        } else if n == 5 {
            running(s.sub_reg(x, y))
        } else if n == 6 {
            running(s.shifted_right(x))
        } else if n == 7 {
            running(s.inv_sub_reg(x, y))
        } else if n == 0xE {
            running(s.shifted_left(x))
        } else {
            invalid
        }
    } else if hi == 9 {
        running(s.skip_if(s.v[x] != s.v[y]))
    } else if hi == 0xA {
        running(s.index_set(nnn))
    } else if hi == 0xB {
        running(s.jumped_offset(nnn))
    } else if hi == 0xC {
        running(s.randomized(x, nn, rnd))
    } else if hi == 0xD {
        if !s.index_span_ok(n) {
            mem_fault
        } else if s.sprite_off_screen(s.v[x] as int, s.v[y] as int, n) {
            Err(VmError::DisplayFault { pc: s.pc })
        } else {
            running(s.drawn(x, y, n))
        }
    } else if hi == 0xE {
        if nn == 0x9E || nn == 0xA1 {
            if s.v[x] >= 16 {
                Err(VmError::InvalidKey { pc: s.pc, key: s.v[x] })
            } else if nn == 0x9E {
                running(s.skip_if(s.keys[s.v[x] as int]))
            } else {
                running(s.skip_if(!s.keys[s.v[x] as int]))
            }
        } else {
            invalid
        }
    } else {
        if nn == 0x07 {
            running(s.delay_read(x))
        } else if nn == 0x0A {
            if lowest_pressed(s.keys, 0) < 16 {
                running(s.key_awaited(x))
            } else {
                Ok((s, ExecState::AwaitingKeyInput))
            }
        } else if nn == 0x15 {
            running(s.delay_set(x))
        } else if nn == 0x18 {
            running(s.sound_set(x))
        } else if nn == 0x1E {
            running(s.index_added(x))
        } else if nn == 0x29 {
            running(s.font_indexed(x))
        } else if nn == 0x33 {
            if !s.index_span_ok(3) {
                mem_fault
            } else {
                running(s.bcd_stored(x))
            }
        } else if nn == 0x55 {
            if !s.index_span_ok(x + 1) {
                mem_fault
            } else {
                running(s.dumped(x))
            }
        } else if nn == 0x65 {
            if !s.index_span_ok(x + 1) {
                mem_fault
            } else {
                running(s.reg_loaded(x))
            }
        } else {
            invalid
        }
    }
}

/// Whether a call that returned `r` and left `post` behind did what `res` says
/// of state `pre`: on success the new state, on a fault the old state.
pub open spec fn outcome_is(
    res: Result<(VmView, ExecState), VmError>,
    pre: VmView,
    post: VmView,
    r: Result<ExecState, VmError>,
) -> bool {
    match res {
        Ok((s, st)) => r == Ok::<ExecState, VmError>(st) && post == s,
        Err(e) => r == Err::<ExecState, VmError>(e) && post == pre,
    }
}

/// One step: fetch at the program counter, clear the redraw flag, execute.
/// On any fault the state is left as it was.
pub open spec fn step(s: VmView, rnd: u8) -> Result<(VmView, ExecState), VmError> {
    if s.pc + 1 >= MEM_SIZE {
        Err(VmError::MemoryFault { pc: s.pc, addr: s.pc })
    } else {
        execute(VmView { draw_flag: false, ..s }, s.fetch(), rnd)
    }
}

} // verus!
