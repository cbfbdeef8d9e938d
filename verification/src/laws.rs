//! Properties of the machine that relate several operations or hold of every state.
use vstd::prelude::*;
use crate::decode::{address_of, bit_of, constant_of, nibble_of, op_code_of, x_of, y_of};
use crate::input::some_pressed;
use crate::machine::{
    can_execute, executed, fetched, jump_of, machine_wf, stepped, with_memory, written, Machine,
};
use crate::memory::MEMORY_SIZE;
use crate::screen::{
    all_changed, blank, drawn, pixel_index, SCREEN_HEIGHT, SCREEN_PIXELS, SCREEN_WIDTH,
};

verus! {

/// Drawing keeps the number of pixels.
pub proof fn lemma_drawn_len(s: Seq<bool>, sprite: Seq<u8>, x: int, y: int)
    ensures
        drawn(s, sprite, x, y).len() == s.len(),
    decreases sprite.len(),
{
    if sprite.len() > 0 {
        lemma_drawn_len(s, sprite.drop_last(), x, y);
    }
}

/// Pixel `p` lies in the span that row `r` of a sprite drawn at `(x, y)` covers.
pub open spec fn covered_by_row(p: int, x: int, y: int, r: int) -> bool {
    pixel_index(x + 1, y + r) <= p <= pixel_index(x + 8, y + r)
}

/// Pixel `p` lies under one of the rows of a sprite of `n` rows drawn at `(x, y)`.
pub open spec fn covered(p: int, x: int, y: int, n: int) -> bool {
    exists|r: int| 0 <= r < n && #[trigger] covered_by_row(p, x, y, r)
}

/// The row of a sprite of `n` rows at `(x, y)` that covers pixel `p`.
pub open spec fn covering_row(p: int, x: int, y: int, n: int) -> int {
    choose|r: int| 0 <= r < n && #[trigger] covered_by_row(p, x, y, r)
}

/// After drawing a sprite that lies within the display, each pixel under the
/// sprite shows the bit of the sprite row that covers it (bit `i` in column
/// `x + 8 - i`), and every other pixel is as before.
pub proof fn lemma_drawn_pixel(s: Seq<bool>, sprite: Seq<u8>, x: int, y: int, p: int)
    requires
        s.len() == SCREEN_PIXELS,
        0 <= x,
        x + 8 < SCREEN_WIDTH,
        0 <= y,
        y + sprite.len() <= SCREEN_HEIGHT,
        0 <= p < SCREEN_PIXELS,
    ensures
        covered(p, x, y, sprite.len() as int) ==> {
            let r = covering_row(p, x, y, sprite.len() as int);
            drawn(s, sprite, x, y)[p] == bit_of(sprite[r], pixel_index(x + 8, y + r) - p)
        },
        !covered(p, x, y, sprite.len() as int) ==> drawn(s, sprite, x, y)[p] == s[p],
    decreases sprite.len(),
{
    let n = sprite.len() as int;
    if n > 0 {
        let front = sprite.drop_last();
        lemma_drawn_pixel(s, front, x, y, p);
        lemma_drawn_len(s, front, x, y);
        if covered(p, x, y, n) {
            let r = covering_row(p, x, y, n);
            if r == n - 1 {
                assert(!covered(p, x, y, n - 1)) by {
                    if covered(p, x, y, n - 1) {
                        let r2 = covering_row(p, x, y, n - 1);
                        assert(covered_by_row(p, x, y, r2));
                    }
                }
            } else {
                assert(covered_by_row(p, x, y, r));
                assert(covered(p, x, y, n - 1));
                let r2 = covering_row(p, x, y, n - 1);
                assert(r2 == r) by {
                    assert(covered_by_row(p, x, y, r2));
                }
            }
        } else {
            assert(!covered_by_row(p, x, y, n - 1));
            assert(!covered(p, x, y, n - 1)) by {
                if covered(p, x, y, n - 1) {
                    let r2 = covering_row(p, x, y, n - 1);
                    assert(covered_by_row(p, x, y, r2));
                }
            }
        }
    }
}

/// Drawing a sprite a second time at the same place changes nothing, and,
/// where the sprite has a row, reports that not every pixel changed.
pub proof fn law_redraw_is_idempotent(s: Seq<bool>, sprite: Seq<u8>, x: int, y: int)
    requires
        s.len() == SCREEN_PIXELS,
        0 <= x,
        x + 8 < SCREEN_WIDTH,
        0 <= y,
        y + sprite.len() <= SCREEN_HEIGHT,
    ensures
        drawn(drawn(s, sprite, x, y), sprite, x, y) == drawn(s, sprite, x, y),
        sprite.len() > 0 ==> !all_changed(drawn(s, sprite, x, y), sprite, x, y),
{
    let once = drawn(s, sprite, x, y);
    let twice = drawn(once, sprite, x, y);
    lemma_drawn_len(s, sprite, x, y);
    lemma_drawn_len(once, sprite, x, y);
    assert forall|p: int| 0 <= p < SCREEN_PIXELS implies #[trigger] twice[p] == once[p] by {
        lemma_drawn_pixel(s, sprite, x, y, p);
        lemma_drawn_pixel(once, sprite, x, y, p);
    }
    assert(twice =~= once);
    if sprite.len() > 0 {
        let n = sprite.len() as int;
        let front = sprite.drop_last();
        let p = pixel_index(x + 8, y + n - 1);
        lemma_drawn_pixel(once, front, x, y, p);
        lemma_drawn_pixel(s, sprite, x, y, p);
        assert(covered_by_row(p, x, y, n - 1));
        assert(!covered(p, x, y, n - 1)) by {
            if covered(p, x, y, n - 1) {
                let r2 = covering_row(p, x, y, n - 1);
                assert(covered_by_row(p, x, y, r2));
            }
        }
        let r = covering_row(p, x, y, n);
        assert(covered_by_row(p, x, y, r));
        assert(r == n - 1);
        assert(drawn(once, front, x, y)[p] == once[p]);
        assert(once[pixel_index(x + 8 - 0, y + n - 1)] == bit_of(sprite.last(), 0));
    }
}

/// Every instruction that can be executed keeps the size of every part of the
/// machine, and leaves the program counter to the cycle that runs it.
pub proof fn law_execute_preserves_wf(m: Machine, op: u16)
    requires
        machine_wf(m),
        can_execute(m, op),
    ensures
        machine_wf(executed(m, op)),
        executed(m, op).pc == m.pc,
{
    if op_code_of(op) == 13 {
        let n = nibble_of(op) as int;
        lemma_drawn_len(m.pixels, m.memory.subrange(m.index as int, m.index + n),
            m.registers[x_of(op) as int] as int, m.registers[y_of(op) as int] as int);
    }
}

/// Every cycle that can be run keeps the size of every part of the machine.
pub proof fn law_step_preserves_wf(m: Machine)
    requires
        machine_wf(m),
        m.pc + 1 < MEMORY_SIZE,
        can_execute(m, fetched(m)),
    ensures
        machine_wf(stepped(m)),
{
    law_execute_preserves_wf(m, fetched(m));
}

/// `1NNN` sends execution to `NNN`.
pub proof fn law_jump(m: Machine)
    requires
        op_code_of(fetched(m)) == 1,
    ensures
        stepped(m).pc == address_of(fetched(m)),
{
}

/// `00E0` turns every pixel off.
pub proof fn law_clear(m: Machine)
    ensures
        executed(m, 0x00E0).pixels == blank(),
{
    assert(op_code_of(0x00E0) == 0);
}

/// Storing the registers with `FX55` and loading them back from the same
/// address with `FY65` gives every register its value again and leaves
/// memory as the store left it.
pub proof fn law_store_then_load(m: Machine, store: u16, load: u16)
    requires
        machine_wf(m),
        op_code_of(store) == 15,
        constant_of(store) == 85,
        op_code_of(load) == 15,
        constant_of(load) == 101,
        can_execute(m, store),
    ensures
        can_execute(executed(m, store), load),
        executed(executed(m, store), load).registers == m.registers,
        executed(executed(m, store), load).memory == executed(m, store).memory,
{
    let m1 = executed(m, store);
    let m2 = executed(m1, load);
    assert(m2.registers =~= m.registers);
}

/// `FX33` writes the three decimal digits of `VX` at `I`, `I + 1` and `I + 2`,
/// hundreds first, and no other byte.
pub proof fn law_decimal_digits(m: Machine, op: u16)
    requires
        machine_wf(m),
        op_code_of(op) == 15,
        constant_of(op) == 51,
        can_execute(m, op),
    ensures
        ({
            let mem = executed(m, op).memory;
            let i = m.index as int;
            &&& mem[i] < 10 && mem[i + 1] < 10 && mem[i + 2] < 10
            &&& mem[i] * 100 + mem[i + 1] * 10 + mem[i + 2] == m.registers[x_of(op) as int]
            &&& forall|p: int| 0 <= p < MEMORY_SIZE && (p < i || p > i + 2) ==> #[trigger] mem[p] == m.memory[p]
        }),
{
}

/// After `6XKK` loads `KK` into `VX`, `3XKK` skips the next instruction and
/// `4XKK` does not.
pub proof fn law_skip_after_load(m: Machine, load: u16, test: u16)
    requires
        machine_wf(m),
        m.pc + 4 <= usize::MAX,
        op_code_of(load) == 6,
        op_code_of(test) == 3 || op_code_of(test) == 4,
        x_of(test) == x_of(load),
        constant_of(test) == constant_of(load),
    ensures
        op_code_of(test) == 3 ==> jump_of(executed(m, load), test) == Some((m.pc + 4) as usize),
        op_code_of(test) == 4 ==> jump_of(executed(m, load), test) == None::<usize>,
{
}

/// `FX0A` with no key pressed keeps execution on itself and changes no register.
pub proof fn law_wait_for_key(m: Machine)
    requires
        machine_wf(m),
        op_code_of(fetched(m)) == 15,
        constant_of(fetched(m)) == 10,
        !some_pressed(m.keys),
    ensures
        stepped(m).pc == m.pc,
        stepped(m).registers == m.registers,
        stepped(m).memory == m.memory,
{
}

/// A program loaded at the program counter is what the next fetch reads: its
/// first two bytes, high byte first.
pub proof fn law_load_then_fetch(m: Machine, program: Seq<u8>)
    requires
        machine_wf(m),
        m.pc + program.len() <= MEMORY_SIZE,
        program.len() >= 2,
    ensures
        fetched(with_memory(m, written(m.memory, m.pc as int, program))) == (program[0] as int * 256
            + program[1] as int) as u16,
{
}

/// `8XY4` (with `X` other than `F`) adds with carry: the new `VX` plus 256 times
/// the flag is the sum of the old `VX` and `VY`; `8XY5` subtracts with borrow:
/// the new `VX` is the old `VX` minus `VY` plus 256 exactly when the flag is 0.
pub proof fn law_add_sub_with_carry(m: Machine, op: u16)
    requires
        machine_wf(m),
        op_code_of(op) == 8,
        nibble_of(op) == 4 || nibble_of(op) == 5,
        x_of(op) != 15,
    ensures
        ({
            let r = executed(m, op).registers;
            let vx = m.registers[x_of(op) as int] as int;
            let vy = m.registers[y_of(op) as int] as int;
            &&& nibble_of(op) == 4 ==> r[x_of(op) as int] + 256 * r[15] == vx + vy
            &&& nibble_of(op) == 5 ==> r[x_of(op) as int] == vx - vy + 256 * (1 - r[15])
            &&& r[15] <= 1
        }),
{
}

} // verus!
