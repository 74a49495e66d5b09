//! The executable machine.
use vstd::prelude::*;
use vstd::arithmetic::div_mod::{lemma_fundamental_div_mod, lemma_fundamental_div_mod_converse};
use crate::state::{cell_of, execute, font, outcome_is, step, ExecState, VmError, VmView, lowest_pressed, MEM_SIZE, PROGRAM_START, SCREEN_CELLS};

verus! {

/// A CHIP-8 machine: memory, registers, stack, timers, framebuffer and keys.
pub struct Vm {
    memory: Vec<u8>,
    v: Vec<u8>,
    i: u16,
    pc: u16,
    gfx: Vec<u8>,
    delay_timer: u8,
    sound_timer: u8,
    stack: Vec<u16>,
    sp: u16,
    keys: Vec<bool>,
    draw_flag: bool,
}

/// Relies on rand::random for one byte from the thread-local generator;
/// nothing is promised of its value.
pub assume_specification<T>[ rand::random::<T> ]() -> (r: T)
    where
        rand::distributions::Standard: rand::distributions::Distribution<T>,
;

impl View for Vm {
    type V = VmView;

    closed spec fn view(&self) -> VmView {
        VmView {
            memory: self.memory@,
            v: self.v@,
            i: self.i,
            pc: self.pc,
            gfx: self.gfx@,
            delay_timer: self.delay_timer,
            sound_timer: self.sound_timer,
            stack: self.stack@,
            sp: self.sp,
            keys: self.keys@,
            draw_flag: self.draw_flag,
        }
    }
}

/// Whether sprite pixel (`row`, `col`) has been drawn by the time the
/// drawing loop reaches pixel (`done_row`, `done_col`), and lands on cell `k`.
spec fn drawn_before(s: VmView, cx: int, ry: int, n: int, k: int, done_row: int, done_col: int) -> bool {
    let d = k - (ry * 64 + cx);
    s.covers(cx, ry, n, k) && (d / 64 < done_row || (d / 64 == done_row && d % 64 < done_col))
}

/// The cell of sprite pixel (`row`, `col`) is the one whose offset from the
/// sprite's origin splits into `row` and `col`.
proof fn lemma_cell_split(cx: int, ry: int, row: int, col: int, k: int)
    requires
        0 <= row,
        0 <= col < 8,
    ensures
        (k == cell_of(cx, ry, row, col)) <==> {
            let d = k - (ry * 64 + cx);
            0 <= d && d / 64 == row && d % 64 == col
        },
{
    let d = k - (ry * 64 + cx);
    if k == cell_of(cx, ry, row, col) {
        assert(d == row * 64 + col);
        lemma_fundamental_div_mod_converse(d, 64, row, col);
    }
    lemma_fundamental_div_mod(d, 64);
}

impl Vm {
    pub open spec fn wf(&self) -> bool {
        self@.wf()
    }

    /// A machine with the font loaded, everything else zeroed, and the
    /// program counter at the entry offset.
    pub fn new() -> (r: Vm)
        ensures
            r.wf(),
            r@ == VmView::initial(),
    {
        let mut memory: Vec<u8> = vec![
            0xF0, 0x90, 0x90, 0x90, 0xF0,
            0x20, 0x60, 0x20, 0x20, 0x70,
            0xF0, 0x10, 0xF0, 0x80, 0xF0,
            0xF0, 0x10, 0xF0, 0x10, 0xF0,
            0x90, 0x90, 0xF0, 0x10, 0x10,
            0xF0, 0x80, 0xF0, 0x10, 0xF0,
            0xF0, 0x80, 0xF0, 0x90, 0xF0,
            0xF0, 0x10, 0x20, 0x40, 0x40,
            0xF0, 0x90, 0xF0, 0x90, 0xF0,
            0xF0, 0x90, 0xF0, 0x10, 0xF0,
            0xF0, 0x90, 0xF0, 0x90, 0x90,
            0xE0, 0x90, 0xE0, 0x90, 0xE0,
            0xF0, 0x80, 0x80, 0x80, 0xF0,
            0xE0, 0x90, 0x90, 0x90, 0xE0,
            0xF0, 0x80, 0xF0, 0x80, 0xF0,
            0xF0, 0x80, 0xF0, 0x80, 0x80,
        ];
        assert(memory@ =~= font());
        while memory.len() < MEM_SIZE
            invariant
                80 <= memory.len() <= MEM_SIZE,
                forall|a: int| 0 <= a < memory.len() ==> #[trigger] memory@[a] == (if a < 80 { font()[a] } else { 0u8 }),
            decreases MEM_SIZE - memory.len(),
        {
            memory.push(0);
        }
        let r = Vm {
            memory,
            v: vec![0u8; 16],
            i: 0,
            pc: PROGRAM_START,
            gfx: vec![0u8; SCREEN_CELLS],
            delay_timer: 0,
            sound_timer: 0,
            stack: vec![0u16; 16],
            sp: 0,
            keys: vec![false; 16],
            draw_flag: true,
        };
        assert(r@.memory =~= VmView::initial().memory);
        assert(r@.v =~= VmView::initial().v);
        assert(r@.gfx =~= VmView::initial().gfx);
        assert(r@.stack =~= VmView::initial().stack);
        assert(r@.keys =~= VmView::initial().keys);
        r
    }

    /// Copies `program` into memory from the entry offset; a program that
    /// does not fit is refused and nothing changes.
    pub fn load(&mut self, program: Vec<u8>) -> (r: Result<(), VmError>)
        requires
            old(self).wf(),
        ensures
            final(self).wf(),
            VmView::fits(program@.len() as int) ==> r is Ok && final(self)@ == old(self)@.loaded(program@),
            !VmView::fits(program@.len() as int) ==> r == Err::<(), VmError>(VmError::ProgramTooLarge { len: program.len() })
                && final(self)@ == old(self)@,
    {
        let offset = PROGRAM_START as usize;
        if program.len() > MEM_SIZE - offset {
            return Err(VmError::ProgramTooLarge { len: program.len() });
        }
        let ghost old_view = self@;
        let mut k: usize = 0;
        while k < program.len()
            invariant
                self.wf(),
                offset == PROGRAM_START,
                offset + program@.len() <= MEM_SIZE,
                k <= program@.len(),
                self@ == (VmView { memory: self@.memory, ..old_view }),
                forall|a: int| 0 <= a < MEM_SIZE ==> #[trigger] self@.memory[a] == (
                    if offset <= a < offset + k { program@[a - offset] } else { old_view.memory[a] }),
            decreases program@.len() - k,
        {
            self.memory.set(offset + k, program[k]);
            k = k + 1;
        }
        assert(self@.memory =~= old_view.loaded(program@).memory);
        Ok(())
    }

    /// Decrements both timers by one, stopping at zero.
    pub fn update_timers(&mut self)
        requires
            old(self).wf(),
        ensures
            final(self).wf(),
            final(self)@ == old(self)@.timers_stepped(),
    {
        if self.delay_timer > 0 {
            self.delay_timer -= 1;
        }
        if self.sound_timer > 0 {
            self.sound_timer -= 1;
        }
    }

    /// Marks key `idx` pressed.
    pub fn key_down(&mut self, idx: usize)
        requires
            old(self).wf(),
            idx < 16,
        ensures
            final(self).wf(),
            final(self)@ == old(self)@.with_key(idx as int, true),
    {
        self.keys.set(idx, true);
    }

    /// Marks key `idx` released.
    pub fn key_up(&mut self, idx: usize)
        requires
            old(self).wf(),
            idx < 16,
        ensures
            final(self).wf(),
            final(self)@ == old(self)@.with_key(idx as int, false),
    {
        self.keys.set(idx, false);
    }

    /// The framebuffer, row by row, one byte per cell, each 0 or 1.
    pub fn screen(&self) -> (r: &[u8])
        ensures
            r@ == self@.gfx,
    {
        self.gfx.as_slice()
    }

    /// Whether the framebuffer may have changed during the last step.
    pub fn draw_flag(&self) -> (r: bool)
        ensures
            r == self@.draw_flag,
    {
        self.draw_flag
    }

    /// The value of register `x`.
    pub fn reg(&self, x: usize) -> (r: u8)
        requires
            self.wf(),
            x < 16,
        ensures
            r == self@.v[x as int],
    {
        self.v[x]
    }

    /// The program counter.
    pub fn pc(&self) -> (r: u16)
        ensures
            r == self@.pc,
    {
        self.pc
    }

    /// The index register.
    pub fn index(&self) -> (r: u16)
        ensures
            r == self@.i,
    {
        self.i
    }

    /// The delay timer.
    pub fn delay_timer(&self) -> (r: u8)
        ensures
            r == self@.delay_timer,
    {
        self.delay_timer
    }

    /// The sound timer.
    pub fn sound_timer(&self) -> (r: u8)
        ensures
            r == self@.sound_timer,
    {
        self.sound_timer
    }

    /// The byte at memory address `addr`.
    pub fn mem(&self, addr: usize) -> (r: u8)
        requires
            self.wf(),
            addr < MEM_SIZE,
        ensures
            r == self@.memory[addr as int],
    {
        self.memory[addr]
    }

    /// `00E0`: clears the framebuffer.
    fn clear_screen(&mut self)
        requires
            old(self).wf(),
            old(self)@.pc <= 4094,
        ensures
            final(self).wf(),
            final(self)@ == old(self)@.cleared(),
    {
        self.gfx = vec![0u8; SCREEN_CELLS];
        self.draw_flag = true;
        self.pc = self.pc + 2;
        assert(self@.gfx =~= old(self)@.cleared().gfx);
    }

    /// `00EE`: returns to the address on top of the stack.
    fn subroutine_ret(&mut self)
        requires
            old(self).wf(),
            old(self)@.sp > 0,
        ensures
            final(self).wf(),
            final(self)@ == old(self)@.returned(),
    {
        self.sp = self.sp - 1;
        self.pc = self.stack[self.sp as usize];
    }

    /// `2NNN`: pushes the address of the next instruction and jumps to NNN.
    fn subroutine_call(&mut self, addr: u16)
        requires
            old(self).wf(),
            old(self)@.sp < 16,
            old(self)@.pc <= 4094,
        ensures
            final(self).wf(),
            final(self)@ == old(self)@.called(addr),
    {
        let sp = self.sp as usize;
        self.stack.set(sp, self.pc + 2);
        self.sp = self.sp + 1;
        self.pc = addr;
    }

    /// The conditional skips `3XNN`, `4XNN`, `5XY0`, `9XY0`, `EX9E`, `EXA1`.
    fn skip_if(&mut self, cond: bool)
        requires
            old(self).wf(),
            old(self)@.pc <= 4094,
        ensures
            final(self).wf(),
            final(self)@ == old(self)@.skip_if(cond),
    {
        self.pc = self.pc + if cond { 4 } else { 2 };
    }

    /// `6XNN`: sets X to NN.
    fn set_reg(&mut self, x: usize, val: u8)
        requires
            old(self).wf(),
            x < 16,
            old(self)@.pc <= 4094,
        ensures
            final(self).wf(),
            final(self)@ == old(self)@.set_imm(x as int, val),
    {
        self.v.set(x, val);
        self.pc = self.pc + 2;
    }

    /// `7XNN`: adds NN to X, wrapping; the flag is untouched.
    fn add_imm(&mut self, x: usize, val: u8)
        requires
            old(self).wf(),
            x < 16,
            old(self)@.pc <= 4094,
        ensures
            final(self).wf(),
            final(self)@ == old(self)@.add_imm(x as int, val),
    {
        let sum: u16 = self.v[x] as u16 + val as u16;
        self.v.set(x, (sum % 256) as u8);
        self.pc = self.pc + 2;
    }

    /// `8XY4`: adds Y to X; the flag reports the carry.
    fn add(&mut self, x: usize, y: usize)
        requires
            old(self).wf(),
            x < 16,
            y < 16,
            old(self)@.pc <= 4094,
        ensures
            final(self).wf(),
            final(self)@ == old(self)@.add_reg(x as int, y as int),
    {
        let sum: u16 = self.v[x] as u16 + self.v[y] as u16;
        self.v.set(15, if sum > 255 { 1 } else { 0 });
        self.v.set(x, (sum % 256) as u8);
        self.pc = self.pc + 2;
    }

    /// `8XY5`: subtracts Y from X; the flag is 0 on borrow.
    fn sub(&mut self, x: usize, y: usize)
        requires
            old(self).wf(),
            x < 16,
            y < 16,
            old(self)@.pc <= 4094,
        ensures
            final(self).wf(),
            final(self)@ == old(self)@.sub_reg(x as int, y as int),
    {
        let a = self.v[x];
        let b = self.v[y];
        self.v.set(15, if a < b { 0 } else { 1 });
        self.v.set(x, ((a as u16 + 256 - b as u16) % 256) as u8);
        self.pc = self.pc + 2;
    }

    /// `8XY7`: sets X to Y minus X; the flag is 0 on borrow.
    fn inv_sub(&mut self, x: usize, y: usize)
        requires
            old(self).wf(),
            x < 16,
            y < 16,
            old(self)@.pc <= 4094,
        ensures
            final(self).wf(),
            final(self)@ == old(self)@.inv_sub_reg(x as int, y as int),
    {
        let a = self.v[y];
        let b = self.v[x];
        self.v.set(15, if a < b { 0 } else { 1 });
        self.v.set(x, ((a as u16 + 256 - b as u16) % 256) as u8);
        self.pc = self.pc + 2;
    }

    /// `8XY6`: shifts X right; the flag takes the bit shifted out.
    fn rshift(&mut self, x: usize)
        requires
            old(self).wf(),
            x < 16,
            old(self)@.pc <= 4094,
        ensures
            final(self).wf(),
            final(self)@ == old(self)@.shifted_right(x as int),
    {
        let val = self.v[x];
        self.v.set(15, val % 2);
        self.v.set(x, val / 2);
        self.pc = self.pc + 2;
    }

    /// `8XYE`: shifts X left; the flag takes the bit shifted out.
    fn lshift(&mut self, x: usize)
        requires
            old(self).wf(),
            x < 16,
            old(self)@.pc <= 4094,
        ensures
            final(self).wf(),
            final(self)@ == old(self)@.shifted_left(x as int),
    {
        let val = self.v[x];
        self.v.set(15, val / 128);
        self.v.set(x, ((val as u16 * 2) % 256) as u8);
        self.pc = self.pc + 2;
    }

    /// `BNNN`: jumps to NNN plus V0.
    fn jmp_offset(&mut self, addr: u16)
        requires
            old(self).wf(),
            addr < 4096,
        ensures
            final(self).wf(),
            final(self)@ == old(self)@.jumped_offset(addr),
    {
        self.pc = addr + self.v[0] as u16;
    }

    /// `FX1E`: adds X to the index register; the flag reports a sum past 0xFFF.
    fn iadd(&mut self, x: usize)
        requires
            old(self).wf(),
            x < 16,
            old(self)@.pc <= 4094,
        ensures
            final(self).wf(),
            final(self)@ == old(self)@.index_added(x as int),
    {
        let sum: u32 = self.i as u32 + self.v[x] as u32;
        self.i = (sum % 65536) as u16;
        self.v.set(15, if sum > 0xFFF { 1 } else { 0 });
        self.pc = self.pc + 2;
    }

    /// `FX29`: points the index register at the glyph of the low nibble of X.
    fn iset_sprite(&mut self, x: usize)
        requires
            old(self).wf(),
            x < 16,
            old(self)@.pc <= 4094,
        ensures
            final(self).wf(),
            final(self)@ == old(self)@.font_indexed(x as int),
    {
        self.i = (self.v[x] % 16) as u16 * 5;
        self.pc = self.pc + 2;
    }

    /// `FX33`: stores the decimal digits of X from the index register on.
    fn set_bcd(&mut self, x: usize)
        requires
            old(self).wf(),
            x < 16,
            old(self)@.pc <= 4094,
            old(self)@.index_span_ok(3),
        ensures
            final(self).wf(),
            final(self)@ == old(self)@.bcd_stored(x as int),
    {
        let i = self.i as usize;
        let val = self.v[x];
        self.memory.set(i, val / 100);
        self.memory.set(i + 1, (val / 10) % 10);
        self.memory.set(i + 2, val % 10);
        self.pc = self.pc + 2;
    }

    /// `FX55`: stores V0 to X from the index register on.
    fn reg_dump(&mut self, x: usize)
        requires
            old(self).wf(),
            x < 16,
            old(self)@.pc <= 4094,
            old(self)@.index_span_ok(x + 1),
        ensures
            final(self).wf(),
            final(self)@ == old(self)@.dumped(x as int),
    {
        let ghost old_view = self@;
        let i = self.i as usize;
        let mut idx: usize = 0;
        while idx <= x
            invariant
                self.wf(),
                i == old_view.i,
                i + x < MEM_SIZE,
                x < 16,
                idx <= x + 1,
                self@ == (VmView { memory: self@.memory, ..old_view }),
                forall|a: int| 0 <= a < MEM_SIZE ==> #[trigger] self@.memory[a] == (
                    if i <= a < i + idx { old_view.v[a - i] } else { old_view.memory[a] }),
            decreases x + 1 - idx,
        {
            let val = self.v[idx];
            self.memory.set(i + idx, val);
            idx = idx + 1;
        }
        self.i = (i + x) as u16 + 1;
        self.pc = self.pc + 2;
        assert(self@.memory =~= old_view.dumped(x as int).memory);
    }

    /// `FX65`: fills V0 to X from the index register on.
    fn reg_load(&mut self, x: usize)
        requires
            old(self).wf(),
            x < 16,
            old(self)@.pc <= 4094,
            old(self)@.index_span_ok(x + 1),
        ensures
            final(self).wf(),
            final(self)@ == old(self)@.reg_loaded(x as int),
    {
        let ghost old_view = self@;
        let i = self.i as usize;
        let mut idx: usize = 0;
        while idx <= x
            invariant
                self.wf(),
                i == old_view.i,
                i + x < MEM_SIZE,
                x < 16,
                idx <= x + 1,
                self@ == (VmView { v: self@.v, ..old_view }),
                forall|r: int| 0 <= r < 16 ==> #[trigger] self@.v[r] == (
                    if r < idx { old_view.memory[i + r] } else { old_view.v[r] }),
            decreases x + 1 - idx,
        {
            let val = self.memory[i + idx];
            self.v.set(idx, val);
            idx = idx + 1;
        }
        self.i = (i + x) as u16 + 1;
        self.pc = self.pc + 2;
        assert(self@.v =~= old_view.reg_loaded(x as int).v);
    }

    /// Whether every set pixel of the `n`-row sprite at the index register
    /// lands inside the framebuffer when drawn at (`cx`, `ry`).
    fn sprite_on_screen(&self, cx: usize, ry: usize, n: usize) -> (r: bool)
        requires
            self.wf(),
            cx < 256,
            ry < 256,
            n < 16,
            self@.index_span_ok(n as int),
        ensures
            r == !self@.sprite_off_screen(cx as int, ry as int, n as int),
    {
        let base = self.i as usize;
        let mut row: usize = 0;
        while row < n
            invariant
                self.wf(),
                base == self@.i,
                base + n <= MEM_SIZE,
                row <= n,
                n < 16,
                cx < 256,
                ry < 256,
                forall|r: int, c: int| 0 <= r < row && #[trigger] self@.pixel_set(n as int, r, c)
                    ==> cell_of(cx as int, ry as int, r, c) < SCREEN_CELLS,
            decreases n - row,
        {
            let pixel = self.memory[base + row];
            let mut col: u8 = 0;
            while col < 8
                invariant
                    self.wf(),
                    base == self@.i,
                    base + n <= MEM_SIZE,
                    row < n,
                    n < 16,
                    cx < 256,
                    ry < 256,
                    col <= 8,
                    pixel == self@.memory[base + row],
                    forall|r: int, c: int| 0 <= r < row && #[trigger] self@.pixel_set(n as int, r, c)
                        ==> cell_of(cx as int, ry as int, r, c) < SCREEN_CELLS,
                    forall|c: int| 0 <= c < col && #[trigger] self@.pixel_set(n as int, row as int, c)
                        ==> cell_of(cx as int, ry as int, row as int, c) < SCREEN_CELLS,
                decreases 8 - col,
            {
                if (0x80u8 >> col) & pixel != 0 {
                    if (ry + row) * 64 + cx + col as usize >= SCREEN_CELLS {
                        assert(self@.pixel_set(n as int, row as int, col as int));
                        return false;
                    }
                }
                col = col + 1;
            }
            row = row + 1;
        }
        true
    }

    /// `DXYN`: XORs the N-row sprite at the index register onto the
    /// framebuffer at (X, Y); the flag reports whether a set cell was cleared.
    fn draw_sprite(&mut self, x: usize, y: usize, n: usize)
        requires
            old(self).wf(),
            x < 16,
            y < 16,
            n < 16,
            old(self)@.pc <= 4094,
            old(self)@.index_span_ok(n as int),
            !old(self)@.sprite_off_screen(old(self)@.v[x as int] as int, old(self)@.v[y as int] as int, n as int),
        ensures
            final(self).wf(),
            final(self)@ == old(self)@.drawn(x as int, y as int, n as int),
    {
        let ghost s0 = self@;
        let cx = self.v[x] as usize;
        let ry = self.v[y] as usize;
        let base = self.i as usize;
        let mut collision = false;
        let mut row: usize = 0;
        while row < n
            invariant
                self.wf(),
                self@ == (VmView { gfx: self@.gfx, ..s0 }),
                s0.wf(),
                base == s0.i,
                base + n <= MEM_SIZE,
                row <= n,
                n < 16,
                cx < 256,
                ry < 256,
                !s0.sprite_off_screen(cx as int, ry as int, n as int),
                forall|k: int| 0 <= k < SCREEN_CELLS ==> #[trigger] self@.gfx[k] == (
                    if drawn_before(s0, cx as int, ry as int, n as int, k, row as int, 0) {
                        (1 - s0.gfx[k]) as u8
                    } else {
                        s0.gfx[k]
                    }),
                collision == exists|k: int| 0 <= k < SCREEN_CELLS
                    && #[trigger] drawn_before(s0, cx as int, ry as int, n as int, k, row as int, 0)
                    && s0.gfx[k] == 1,
            decreases n - row,
        {
            let pixel = self.memory[base + row];
            let mut col: u8 = 0;
            while col < 8
                invariant
                    self.wf(),
                    self@ == (VmView { gfx: self@.gfx, ..s0 }),
                    s0.wf(),
                    base == s0.i,
                    base + n <= MEM_SIZE,
                    row < n,
                    n < 16,
                    cx < 256,
                    ry < 256,
                    col <= 8,
                    pixel == s0.memory[base + row],
                    !s0.sprite_off_screen(cx as int, ry as int, n as int),
                    forall|k: int| 0 <= k < SCREEN_CELLS ==> #[trigger] self@.gfx[k] == (
                        if drawn_before(s0, cx as int, ry as int, n as int, k, row as int, col as int) {
                            (1 - s0.gfx[k]) as u8
                        } else {
                            s0.gfx[k]
                        }),
                    collision == exists|k: int| 0 <= k < SCREEN_CELLS
                        && #[trigger] drawn_before(s0, cx as int, ry as int, n as int, k, row as int, col as int)
                        && s0.gfx[k] == 1,
                decreases 8 - col,
            {
                let ghost g = self@.gfx;
                let ghost was = collision;
                let set = (0x80u8 >> col) & pixel != 0;
                let ghost idx_spec = cell_of(cx as int, ry as int, row as int, col as int);
                if set {
                    assert(s0.pixel_set(n as int, row as int, col as int));
                    let idx = (ry + row) * 64 + cx + col as usize;
                    assert(idx == idx_spec);
                    let cell = self.gfx[idx];
                    if cell == 1 {
                        collision = true;
                    }
                    self.gfx.set(idx, 1 - cell);
                }
                assert forall|k: int| 0 <= k < SCREEN_CELLS implies
                    #[trigger] drawn_before(s0, cx as int, ry as int, n as int, k, row as int, col + 1)
                    == (drawn_before(s0, cx as int, ry as int, n as int, k, row as int, col as int)
                        || (set && k == idx_spec)) by {
                    lemma_cell_split(cx as int, ry as int, row as int, col as int, k);
                }
                assert(!drawn_before(s0, cx as int, ry as int, n as int, idx_spec, row as int, col as int)) by {
                    lemma_cell_split(cx as int, ry as int, row as int, col as int, idx_spec);
                }
                if set {
                    assert(s0.covers(cx as int, ry as int, n as int, idx_spec)) by {
                        lemma_cell_split(cx as int, ry as int, row as int, col as int, idx_spec);
                    }
                }
                proof {
                    if was {
                        let k0 = choose|k: int| 0 <= k < SCREEN_CELLS
                            && #[trigger] drawn_before(s0, cx as int, ry as int, n as int, k, row as int, col as int)
                            && s0.gfx[k] == 1;
                        assert(drawn_before(s0, cx as int, ry as int, n as int, k0, row as int, col + 1));
                    } else if collision {
                        assert(drawn_before(s0, cx as int, ry as int, n as int, idx_spec, row as int, col + 1));
                    } else {
                        assert forall|k: int| 0 <= k < SCREEN_CELLS
                            && #[trigger] drawn_before(s0, cx as int, ry as int, n as int, k, row as int, col + 1)
                            implies s0.gfx[k] != 1 by {
                            if k == idx_spec {
                                assert(g[k] == s0.gfx[k]);
                            }
                        }
                    }
                }
                col = col + 1;
            }
            assert forall|k: int| 0 <= k < SCREEN_CELLS implies
                #[trigger] drawn_before(s0, cx as int, ry as int, n as int, k, row as int, 8)
                == drawn_before(s0, cx as int, ry as int, n as int, k, row + 1, 0) by {
            }
            proof {
                if collision {
                    let k0 = choose|k: int| 0 <= k < SCREEN_CELLS
                        && #[trigger] drawn_before(s0, cx as int, ry as int, n as int, k, row as int, 8)
                        && s0.gfx[k] == 1;
                    assert(drawn_before(s0, cx as int, ry as int, n as int, k0, row + 1, 0));
                } else {
                    assert forall|k: int| 0 <= k < SCREEN_CELLS
                        && #[trigger] drawn_before(s0, cx as int, ry as int, n as int, k, row + 1, 0)
                        implies s0.gfx[k] != 1 by {
                        assert(drawn_before(s0, cx as int, ry as int, n as int, k, row as int, 8));
                    }
                }
            }
            row = row + 1;
        }
        assert forall|k: int| 0 <= k < SCREEN_CELLS implies
            #[trigger] drawn_before(s0, cx as int, ry as int, n as int, k, n as int, 0)
            == s0.covers(cx as int, ry as int, n as int, k) by {
        }
        proof {
            if collision {
                let k0 = choose|k: int| 0 <= k < SCREEN_CELLS
                    && #[trigger] drawn_before(s0, cx as int, ry as int, n as int, k, n as int, 0)
                    && s0.gfx[k] == 1;
                assert(s0.covers(cx as int, ry as int, n as int, k0));
            } else {
                assert forall|k: int| 0 <= k < SCREEN_CELLS
                    && #[trigger] s0.covers(cx as int, ry as int, n as int, k)
                    implies s0.gfx[k] != 1 by {
                    assert(drawn_before(s0, cx as int, ry as int, n as int, k, n as int, 0));
                }
            }
        }
        self.v.set(15, if collision { 1 } else { 0 });
        self.draw_flag = true;
        self.pc = self.pc + 2;
        assert(self@.gfx =~= s0.gfx_drawn(cx as int, ry as int, n as int));
        assert(collision == s0.collides(cx as int, ry as int, n as int));
    }

    /// `8XY0`: copies Y into X.
    fn set(&mut self, x: usize, y: usize)
        requires
            old(self).wf(),
            x < 16,
            y < 16,
            old(self)@.pc <= 4094,
        ensures
            final(self).wf(),
            final(self)@ == old(self)@.copied(x as int, y as int),
    {
        let val = self.v[y];
        self.v.set(x, val);
        self.pc = self.pc + 2;
    }

    /// `8XY1`: ORs Y into X.
    fn orr(&mut self, x: usize, y: usize)
        requires
            old(self).wf(),
            x < 16,
            y < 16,
            old(self)@.pc <= 4094,
        ensures
            final(self).wf(),
            final(self)@ == old(self)@.or_reg(x as int, y as int),
    {
        let val = self.v[x] | self.v[y];
        self.v.set(x, val);
        self.pc = self.pc + 2;
    }

    /// `8XY2`: ANDs Y into X.
    fn and(&mut self, x: usize, y: usize)
        requires
            old(self).wf(),
            x < 16,
            y < 16,
            old(self)@.pc <= 4094,
        ensures
            final(self).wf(),
            final(self)@ == old(self)@.and_reg(x as int, y as int),
    {
        let val = self.v[x] & self.v[y];
        self.v.set(x, val);
        self.pc = self.pc + 2;
    }

    /// `8XY3`: XORs Y into X.
    fn xor(&mut self, x: usize, y: usize)
        requires
            old(self).wf(),
            x < 16,
            y < 16,
            old(self)@.pc <= 4094,
        ensures
            final(self).wf(),
            final(self)@ == old(self)@.xor_reg(x as int, y as int),
    {
        let val = self.v[x] ^ self.v[y];
        self.v.set(x, val);
        self.pc = self.pc + 2;
    }

    /// `ANNN`: sets the index register to NNN.
    fn iset(&mut self, addr: u16)
        requires
            old(self).wf(),
            old(self)@.pc <= 4094,
        ensures
            final(self).wf(),
            final(self)@ == old(self)@.index_set(addr),
    {
        self.i = addr;
        self.pc = self.pc + 2;
    }

    /// `CXNN`: sets X to NN masking the random byte `rnd`.
    fn rand_imm(&mut self, x: usize, mask: u8, rnd: u8)
        requires
            old(self).wf(),
            x < 16,
            old(self)@.pc <= 4094,
        ensures
            final(self).wf(),
            final(self)@ == old(self)@.randomized(x as int, mask, rnd),
    {
        self.v.set(x, mask & rnd);
        self.pc = self.pc + 2;
    }

    /// `FX07`: copies the delay timer into X.
    fn get_delay(&mut self, x: usize)
        requires
            old(self).wf(),
            x < 16,
            old(self)@.pc <= 4094,
        ensures
            final(self).wf(),
            final(self)@ == old(self)@.delay_read(x as int),
    {
        let val = self.delay_timer;
        self.v.set(x, val);
        self.pc = self.pc + 2;
    }

    /// `FX15`: sets the delay timer from X.
    fn set_delay(&mut self, x: usize)
        requires
            old(self).wf(),
            x < 16,
            old(self)@.pc <= 4094,
        ensures
            final(self).wf(),
            final(self)@ == old(self)@.delay_set(x as int),
    {
        self.delay_timer = self.v[x];
        self.pc = self.pc + 2;
    }

    /// `FX18`: sets the sound timer from X.
    fn set_sound(&mut self, x: usize)
        requires
            old(self).wf(),
            x < 16,
            old(self)@.pc <= 4094,
        ensures
            final(self).wf(),
            final(self)@ == old(self)@.sound_set(x as int),
    {
        self.sound_timer = self.v[x];
        self.pc = self.pc + 2;
    }
    /// Decodes and executes instruction word `op`, with `rnd` as the byte
    /// that the random instruction uses.
    fn execute(&mut self, op: u16, rnd: u8) -> (r: Result<ExecState, VmError>)
        requires
            old(self).wf(),
            old(self)@.pc <= 4094,
        ensures
            final(self).wf(),
            outcome_is(execute(old(self)@, op, rnd), old(self)@, final(self)@, r),
    {
        let pc = self.pc;
        let x = ((op / 256) % 16) as usize;
        let y = ((op / 16) % 16) as usize;
        let n = (op % 16) as usize;
        let nn = (op % 256) as u8;
        let nnn = op % 4096;
        let invalid = Err(VmError::InvalidOpcode { opcode: op, pc });
        let mem_fault = Err(VmError::MemoryFault { pc, addr: self.i });
        match op / 4096 {
            0x0 => {
                if n == 0 {
                    self.clear_screen();
                } else if n == 0xE {
                    if self.sp == 0 {
                        return Err(VmError::StackUnderflow { pc });
                    }
                    self.subroutine_ret();
                } else {
                    return invalid;
                }
            },
            0x1 => self.pc = nnn,
            0x2 => {
                if self.sp >= 16 {
                    return Err(VmError::StackOverflow { pc });
                }
                self.subroutine_call(nnn);
            },
            0x3 => {
                let cond = self.v[x] == nn;
                self.skip_if(cond);
            },
            0x4 => {
                let cond = self.v[x] != nn;
                self.skip_if(cond);
            },
            0x5 => {
                let cond = self.v[x] == self.v[y];
                self.skip_if(cond);
            },
            0x6 => self.set_reg(x, nn),
            0x7 => self.add_imm(x, nn),
            0x8 => {
                match n {
                    0x0 => self.set(x, y),
                    0x1 => self.orr(x, y),
                    0x2 => self.and(x, y),
                    0x3 => self.xor(x, y),
                    0x4 => self.add(x, y),
                    0x5 => self.sub(x, y),
                    0x6 => self.rshift(x),
                    0x7 => self.inv_sub(x, y),
                    0xE => self.lshift(x),
                    _ => return invalid,
                }
            },
            0x9 => {
                let cond = self.v[x] != self.v[y];
                self.skip_if(cond);
            },
            0xA => self.iset(nnn),
            0xB => self.jmp_offset(nnn),
            0xC => self.rand_imm(x, nn, rnd),
            0xD => {
                if self.i as usize + n > MEM_SIZE {
                    return mem_fault;
                }
                let cx = self.v[x] as usize;
                let ry = self.v[y] as usize;
                if !self.sprite_on_screen(cx, ry, n) {
                    return Err(VmError::DisplayFault { pc });
                }
                self.draw_sprite(x, y, n);
            },
            0xE => {
                if nn != 0x9E && nn != 0xA1 {
                    return invalid;
                }
                let key = self.v[x];
                if key >= 16 {
                    return Err(VmError::InvalidKey { pc, key });
                }
                let pressed = self.keys[key as usize];
                self.skip_if(if nn == 0x9E { pressed } else { !pressed });
            },
            _ => {
                match nn {
                    0x07 => self.get_delay(x),
                    0x0A => {
                        if self.get_key(x) {
                            return Ok(ExecState::AwaitingKeyInput);
                        }
                    },
                    0x15 => self.set_delay(x),
                    0x18 => self.set_sound(x),
                    0x1E => self.iadd(x),
                    0x29 => self.iset_sprite(x),
                    0x33 => {
                        if self.i as usize + 3 > MEM_SIZE {
                            return mem_fault;
                        }
                        self.set_bcd(x);
                    },
                    0x55 => {
                        if self.i as usize + x + 1 > MEM_SIZE {
                            return mem_fault;
                        }
                        self.reg_dump(x);
                    },
                    0x65 => {
                        if self.i as usize + x + 1 > MEM_SIZE {
                            return mem_fault;
                        }
                        self.reg_load(x);
                    },
                    _ => return invalid,
                }
            },
        }
        Ok(ExecState::Running)
    }

    /// Executes one instruction, with `rnd` as the byte that the random
    /// instruction uses. The redraw flag is cleared first; on a fault the
    /// state is left as it was.
    pub fn tick_with(&mut self, rnd: u8) -> (r: Result<ExecState, VmError>)
        requires
            old(self).wf(),
        ensures
            final(self).wf(),
            outcome_is(step(old(self)@, rnd), old(self)@, final(self)@, r),
    {
        let pc = self.pc as usize;
        if pc + 1 >= MEM_SIZE {
            return Err(VmError::MemoryFault { pc: self.pc, addr: self.pc });
        }
        let opcode: u16 = self.memory[pc] as u16 * 256 + self.memory[pc + 1] as u16;
        let saved = self.draw_flag;
        self.draw_flag = false;
        let r = self.execute(opcode, rnd);
        if r.is_err() {
            self.draw_flag = saved;
        }
        r
    }

    /// Executes one instruction; the random instruction draws its byte from
    /// the thread's generator.
    pub fn tick(&mut self) -> (r: Result<ExecState, VmError>)
        requires
            old(self).wf(),
        ensures
            final(self).wf(),
            exists|rnd: u8| outcome_is(#[trigger] step(old(self)@, rnd), old(self)@, final(self)@, r),
    {
        let rnd = rand::random::<u8>();
        let r = self.tick_with(rnd);
        assert(outcome_is(step(old(self)@, rnd), old(self)@, self@, r));
        r
    }

    /// Scans the keys in ascending order; the first pressed one goes to `x`.
    /// Returns whether the machine is still waiting for a key.
    fn get_key(&mut self, x: usize) -> (waiting: bool)
        requires
            old(self).wf(),
            x < 16,
            old(self)@.pc <= 4094,
        ensures
            final(self).wf(),
            final(self)@ == old(self)@.key_awaited(x as int),
            waiting == (lowest_pressed(old(self)@.keys, 0) >= 16),
    {
        let ghost old_view = self@;
        let mut idx: usize = 0;
        while idx < 16
            invariant
                self.wf(),
                self@ == old_view,
                old_view == old(self)@,
                old_view.pc <= 4094,
                x < 16,
                idx <= 16,
                lowest_pressed(self@.keys, 0) == lowest_pressed(self@.keys, idx as int),
            decreases 16 - idx,
        {
            if self.keys[idx] {
                assert(lowest_pressed(old_view.keys, idx as int) == idx as int);
                self.v.set(x, idx as u8);
                self.pc = self.pc + 2;
                return false;
            }
            idx = idx + 1;
        }
        true
    }
}

} // verus!
