//! Properties of the machine that relate several instructions or steps,
//! proved over the semantics that the executable machine is held to.
use vstd::prelude::*;
use crate::state::{lowest_pressed, step, ExecState, VmView, FLAG_REG, MEM_SIZE};

verus! {

/// Executing a set-immediate word `6XNN` stores NN in register X and moves
/// the program counter on by exactly 2.
pub proof fn law_set_imm_reads_back(s: VmView, x: int, val: u8, rnd: u8)
    requires
        s.wf(),
        0 <= x < 16,
        s.pc + 1 < MEM_SIZE,
        s.fetch() == 0x6000 + x * 256 + val,
    ensures
        ({
            let res = step(s, rnd);
            &&& res is Ok
            &&& res->Ok_0.1 == ExecState::Running
            &&& res->Ok_0.0.v[x] == val
            &&& res->Ok_0.0.pc == s.pc + 2
        }),
{
}

/// Adding 1 to a register holding 0xFF wraps it to 0 and sets the flag to 1.
pub proof fn law_add_overflow(s: VmView, x: int, y: int)
    requires
        s.wf(),
        0 <= x < 15,
        0 <= y < 16,
        x != y,
        s.v[x] == 0xFF,
        s.v[y] == 0x01,
    ensures
        s.add_reg(x, y).v[x] == 0,
        s.add_reg(x, y).v[FLAG_REG as int] == 1,
{
}

/// Subtracting 2 from a register holding 1 wraps it to 0xFF and, as a
/// borrow occurred, sets the flag to 0.
pub proof fn law_sub_borrow(s: VmView, x: int, y: int)
    requires
        s.wf(),
        0 <= x < 15,
        0 <= y < 16,
        x != y,
        s.v[x] == 0x01,
        s.v[y] == 0x02,
    ensures
        s.sub_reg(x, y).v[x] == 0xFF,
        s.sub_reg(x, y).v[FLAG_REG as int] == 0,
{
}

/// Drawing the same sprite at the same place twice leaves the framebuffer
/// as it was, and the second draw reports a collision exactly when the
/// sprite covers a cell that was clear before the first. The coordinates
/// must not come from the flag register, which the first draw overwrites.
pub proof fn law_draw_twice_restores(s: VmView, x: int, y: int, n: int)
    requires
        s.wf(),
        0 <= x < 15,
        0 <= y < 15,
        0 <= n < 16,
        s.index_span_ok(n),
        !s.sprite_off_screen(s.v[x] as int, s.v[y] as int, n),
    ensures
        ({
            let t = s.drawn(x, y, n);
            let u = t.drawn(x, y, n);
            let cx = s.v[x] as int;
            let ry = s.v[y] as int;
            &&& !t.sprite_off_screen(t.v[x] as int, t.v[y] as int, n)
            &&& u.gfx == s.gfx
            &&& (u.v[FLAG_REG as int] == 1) == (exists|k: int|
                0 <= k < 2048 && #[trigger] s.covers(cx, ry, n, k) && s.gfx[k] == 0)
        }),
{
    let t = s.drawn(x, y, n);
    let u = t.drawn(x, y, n);
    let cx = s.v[x] as int;
    let ry = s.v[y] as int;
    assert(t.v[x] == s.v[x] && t.v[y] == s.v[y]);
    assert forall|k: int| #[trigger] t.covers(cx, ry, n, k) == s.covers(cx, ry, n, k) by {
        let d = k - (ry * 64 + cx);
        assert(t.pixel_set(n, d / 64, d % 64) == s.pixel_set(n, d / 64, d % 64));
    }
    assert forall|row: int, col: int| #[trigger] t.pixel_set(n, row, col) == s.pixel_set(n, row, col) by {}
    assert(u.gfx =~= s.gfx);
    if exists|k: int| 0 <= k < 2048 && #[trigger] s.covers(cx, ry, n, k) && s.gfx[k] == 0 {
        let k = choose|k: int| 0 <= k < 2048 && #[trigger] s.covers(cx, ry, n, k) && s.gfx[k] == 0;
        assert(t.covers(cx, ry, n, k) && t.gfx[k] == 1);
    } else {
        assert forall|k: int| 0 <= k < 2048 && #[trigger] t.covers(cx, ry, n, k) implies t.gfx[k] != 1 by {
            assert(s.covers(cx, ry, n, k));
            assert(s.gfx[k] <= 1);
        }
    }
}

/// A register dump leaves the index register X+1 past where it started; a
/// register load from that same starting address gives registers 0 to X
/// back, and again leaves the index register X+1 past that address.
pub proof fn law_dump_load_round_trip(s: VmView, x: int)
    requires
        s.wf(),
        0 <= x < 16,
        s.index_span_ok(x + 1),
    ensures
        s.dumped(x).i == s.i + x + 1,
        ({
            let t = s.dumped(x).index_set(s.i).reg_loaded(x);
            &&& t.i == s.i + x + 1
            &&& forall|r: int| 0 <= r <= x ==> #[trigger] t.v[r] == s.v[r]
        }),
{
}

/// The state after `k` timer steps.
pub open spec fn timers_stepped_times(s: VmView, k: nat) -> VmView
    decreases k,
{
    if k == 0 {
        s
    } else {
        timers_stepped_times(s, (k - 1) as nat).timers_stepped()
    }
}

/// A timer at zero stays at zero however many timer steps follow.
pub proof fn law_timer_floor(s: VmView, k: nat)
    ensures
        s.delay_timer == 0 ==> timers_stepped_times(s, k).delay_timer == 0,
        s.sound_timer == 0 ==> timers_stepped_times(s, k).sound_timer == 0,
    decreases k,
{
    if k > 0 {
        law_timer_floor(s, (k - 1) as nat);
    }
}

proof fn lemma_only_key_pressed(keys: Seq<bool>, key: int, j: int)
    requires
        keys.len() == 16,
        0 <= j <= key < 16,
        keys[key],
        forall|k: int| 0 <= k < 16 && k != key ==> !#[trigger] keys[k],
    ensures
        lowest_pressed(keys, j) == key,
    decreases key - j,
{
    if j < key {
        lemma_only_key_pressed(keys, key, j + 1);
    }
}

proof fn lemma_none_pressed(keys: Seq<bool>, j: int)
    requires
        keys.len() == 16,
        0 <= j <= 16,
        forall|k: int| 0 <= k < 16 ==> !#[trigger] keys[k],
    ensures
        lowest_pressed(keys, j) == 16,
    decreases 16 - j,
{
    if j < 16 {
        lemma_none_pressed(keys, j + 1);
    }
}

/// With no key pressed, a key-wait word `FX0A` reports that it waits and
/// leaves the program counter where it is; once key `key` alone is pressed,
/// the next step stores `key` in register X and moves on by 2.
pub proof fn law_key_wait_blocks(s: VmView, x: int, key: int, rnd: u8)
    requires
        s.wf(),
        0 <= x < 16,
        0 <= key < 16,
        s.pc + 1 < MEM_SIZE,
        s.fetch() == 0xF00A + x * 256,
        forall|k: int| 0 <= k < 16 ==> !#[trigger] s.keys[k],
    ensures
        ({
            let res = step(s, rnd);
            &&& res is Ok
            &&& res->Ok_0.1 == ExecState::AwaitingKeyInput
            &&& res->Ok_0.0.pc == s.pc
            &&& {
                let t = res->Ok_0.0.with_key(key, true);
                let res2 = step(t, rnd);
                &&& res2 is Ok
                &&& res2->Ok_0.1 == ExecState::Running
                &&& res2->Ok_0.0.pc == s.pc + 2
                &&& res2->Ok_0.0.v[x] == key
            }
        }),
{
    lemma_none_pressed(s.keys, 0);
    let t = step(s, rnd)->Ok_0.0.with_key(key, true);
    assert(t.fetch() == s.fetch());
    lemma_only_key_pressed(t.keys, key, 0);
}

} // verus!
