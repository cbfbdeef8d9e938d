//! What each instruction does, stated directly in terms of the registers,
//! memory, display and keypad before it, independently of how `executed`
//! and `jump_of` are written.
use vstd::prelude::*;
use crate::decode::{
    address_of, bit_of, constant_of, lemma_bit_ops, lsfr_next, nibble_of, op_code_of, x_of, y_of,
};
use crate::input::{lemma_first_pressed_from, some_pressed};
use crate::laws::{lemma_drawn_len, lemma_drawn_pixel, covered, covered_by_row, covering_row};
use crate::machine::{
    can_execute, can_step, executed, fetched, initial_machine, jump_of, machine_wf, stepped, written, Machine,
};
use crate::memory::MEMORY_SIZE;
use crate::screen::{all_changed, drawn, line_all_changed, pixel_index, SCREEN_HEIGHT, SCREEN_PIXELS, SCREEN_WIDTH};

verus! {

/// `b` agrees with `a` in everything but the registers.
pub open spec fn same_but_registers(a: Machine, b: Machine) -> bool {
    &&& b.index == a.index
    &&& b.pc == a.pc
    &&& b.memory == a.memory
    &&& b.delay == a.delay
    &&& b.sound == a.sound
    &&& b.pixels == a.pixels
    &&& b.cycle == a.cycle
    &&& b.keys == a.keys
}

/// `b` has the registers of `a`, but for registers `i` and `j`.
pub open spec fn registers_kept_but(a: Machine, b: Machine, i: int, j: int) -> bool {
    &&& b.registers.len() == a.registers.len()
    &&& forall|k: int| 0 <= k < a.registers.len() && k != i && k != j ==> #[trigger] b.registers[k] == a.registers[k]
}

/// `8XY0` to `8XY3` copy, or, and, exclusive-or `VY` into `VX`, bit by bit,
/// touching no other register and nothing else.
pub proof fn law_register_logic(m: Machine, op: u16)
    requires
        machine_wf(m),
        op_code_of(op) == 8,
        nibble_of(op) <= 3,
    ensures
        ({
            let x = x_of(op) as int;
            let y = y_of(op) as int;
            let vx = m.registers[x];
            let vy = m.registers[y];
            let r = executed(m, op).registers;
            &&& nibble_of(op) == 0 ==> r[x] == vy
            &&& nibble_of(op) == 1 ==> forall|i: int| 0 <= i < 8 ==> #[trigger] bit_of(r[x], i) == (bit_of(vx, i) || bit_of(vy, i))
            &&& nibble_of(op) == 2 ==> forall|i: int| 0 <= i < 8 ==> #[trigger] bit_of(r[x], i) == (bit_of(vx, i) && bit_of(vy, i))
            &&& nibble_of(op) == 3 ==> forall|i: int| 0 <= i < 8 ==> #[trigger] bit_of(r[x], i) == (bit_of(vx, i) != bit_of(vy, i))
            &&& registers_kept_but(m, executed(m, op), x, x)
            &&& same_but_registers(m, executed(m, op))
            &&& jump_of(m, op) == None::<usize>
        }),
{
    let x = x_of(op) as int;
    let y = y_of(op) as int;
    let vx = m.registers[x];
    let vy = m.registers[y];
    assert forall|i: int| 0 <= i < 8 implies {
        &&& bit_of(vx | vy, i) == (bit_of(vx, i) || bit_of(vy, i))
        &&& bit_of(vx & vy, i) == (bit_of(vx, i) && bit_of(vy, i))
        &&& bit_of(vx ^ vy, i) == (bit_of(vx, i) != bit_of(vy, i))
    } by {
        lemma_bit_ops(vx, vy, i);
    }
}

/// `8XY4` adds with carry into `VF`, `8XY5` and `8XY7` subtract with `VF` set
/// when there is no borrow, `8XY6` halves with the dropped bit in `VF`, `8XY8`
/// doubles with the dropped top bit (as 128) in `VF`. The result register is
/// `VX` (`VY` for `8XY7`); where it is `VF`, the flag wins. No other register
/// and nothing else changes; `8XY9` to `8XYF` change nothing.
pub proof fn law_register_arith(m: Machine, op: u16)
    requires
        machine_wf(m),
        op_code_of(op) == 8,
        nibble_of(op) >= 4,
    ensures
        ({
            let x = x_of(op) as int;
            let y = y_of(op) as int;
            let n = nibble_of(op);
            let vx = m.registers[x] as int;
            let vy = m.registers[y] as int;
            let r = executed(m, op).registers;
            let f = r[15] as int;
            &&& n == 4 ==> f <= 1 && (f == 1) == (vx + vy > 255) && (x != 15 ==> r[x] + 256 * f == vx + vy)
            &&& n == 5 ==> f <= 1 && (f == 1) == (vx >= vy) && (x != 15 ==> r[x] + vy == vx + 256 * (1 - f))
            &&& n == 6 ==> f <= 1 && (f == 1) == bit_of(vx as u8, 0) && (x != 15 ==> 2 * r[x] + f == vx)
            &&& n == 7 ==> f <= 1 && (f == 1) == (vy >= vx) && (y != 15 ==> r[y] + vx == vy + 256 * (1 - f))
            &&& n == 8 ==> (f == 0 || f == 128) && (f == 128) == (vx >= 128) && (x != 15 ==> r[x] + 2 * f == 2 * vx)
            &&& (n == 4 || n == 5 || n == 6 || n == 8) ==> registers_kept_but(m, executed(m, op), x, 15)
            &&& n == 7 ==> registers_kept_but(m, executed(m, op), y, 15)
            &&& n >= 9 ==> executed(m, op) == m
            &&& same_but_registers(m, executed(m, op))
            &&& jump_of(m, op) == None::<usize>
        }),
{
}

/// The skipping instructions change nothing but where execution goes: two
/// instructions on (the next one skipped) exactly when their test holds —
/// `3XKK`: `VX == KK`; `4XKK`: `VX != KK`; `5XY0`: `VX == VY`; `9XY0`:
/// `VX != VY`; `EX9E`: key `VX` pressed; `EXA1`: key `VX` not pressed — and
/// otherwise on to the next one.
pub proof fn law_skips(m: Machine, op: u16)
    requires
        machine_wf(m),
        op_code_of(op) == 3 || op_code_of(op) == 4 || op_code_of(op) == 5 || op_code_of(op) == 9
            || op_code_of(op) == 14,
    ensures
        ({
            let x = x_of(op) as int;
            let y = y_of(op) as int;
            let vx = m.registers[x];
            let vy = m.registers[y];
            let kk = constant_of(op);
            let skip = Some((m.pc + 4) as usize);
            let next = None::<usize>;
            &&& executed(m, op) == m
            &&& op_code_of(op) == 3 ==> jump_of(m, op) == if vx == kk { skip } else { next }
            &&& op_code_of(op) == 4 ==> jump_of(m, op) == if vx != kk { skip } else { next }
            &&& op_code_of(op) == 5 ==> jump_of(m, op) == if vx == vy { skip } else { next }
            &&& op_code_of(op) == 9 ==> jump_of(m, op) == if vx != vy { skip } else { next }
            &&& (op_code_of(op) == 14 && nibble_of(op) == 14) ==> jump_of(m, op) == if m.keys[vx as int] { skip } else { next }
            &&& (op_code_of(op) == 14 && nibble_of(op) == 1) ==> jump_of(m, op) == if !m.keys[vx as int] { skip } else { next }
            &&& (op_code_of(op) == 14 && nibble_of(op) != 1 && nibble_of(op) != 14) ==> jump_of(m, op) == next
        }),
{
}

/// `6XKK` loads `KK` into `VX`; `7XKK` adds `KK` to `VX`; `ANNN` loads `NNN`
/// into `I`; `1NNN` jumps to `NNN`; `BNNN` jumps to `I + V0`. Nothing else changes.
pub proof fn law_loads_and_jumps(m: Machine, op: u16)
    requires
        machine_wf(m),
        can_execute(m, op),
    ensures
        ({
            let x = x_of(op) as int;
            let kk = constant_of(op);
            let e = executed(m, op);
            &&& op_code_of(op) == 6 ==> e.registers[x] == kk && registers_kept_but(m, e, x, x)
                && same_but_registers(m, e) && jump_of(m, op) == None::<usize>
            &&& op_code_of(op) == 7 ==> e.registers[x] == m.registers[x] + kk && registers_kept_but(m, e, x, x)
                && same_but_registers(m, e) && jump_of(m, op) == None::<usize>
            &&& op_code_of(op) == 10 ==> e.index == address_of(op) && e.registers == m.registers
                && e.memory == m.memory && e.pixels == m.pixels && jump_of(m, op) == None::<usize>
            &&& op_code_of(op) == 1 ==> e == m && jump_of(m, op) == Some(address_of(op) as usize)
            &&& op_code_of(op) == 11 ==> e == m && jump_of(m, op) == Some((m.index + m.registers[0]) as usize)
                && m.index + m.registers[0] <= u16::MAX
        }),
{
}

/// `CXKK` puts in `VX` the next value of the shift register seeded with the
/// cycle count, masked by `KK`: each bit of `VX` is set exactly when it is
/// set both in `KK` and in that value. Nothing else changes.
pub proof fn law_random(m: Machine, op: u16)
    requires
        machine_wf(m),
        op_code_of(op) == 12,
    ensures
        ({
            let x = x_of(op) as int;
            let e = executed(m, op);
            &&& forall|i: int| 0 <= i < 8 ==> #[trigger] bit_of(e.registers[x], i) == (bit_of(constant_of(op), i) && bit_of(lsfr_next(m.cycle), i))
            &&& registers_kept_but(m, e, x, x)
            &&& same_but_registers(m, e)
            &&& jump_of(m, op) == None::<usize>
        }),
{
    let x = x_of(op) as int;
    assert forall|i: int| 0 <= i < 8 implies #[trigger] bit_of(executed(m, op).registers[x], i) == (bit_of(constant_of(op), i) && bit_of(lsfr_next(m.cycle), i)) by {
        lemma_bit_ops(lsfr_next(m.cycle), constant_of(op), i);
    }
}

/// Drawing the rows of `front` leaves the row just below them untouched.
proof fn lemma_below_rows_untouched(s: Seq<bool>, front: Seq<u8>, x: int, y: int, i: int)
    requires
        s.len() == SCREEN_PIXELS,
        0 <= x,
        x + 8 < SCREEN_WIDTH,
        0 <= y,
        y + front.len() < SCREEN_HEIGHT,
        0 <= i < 8,
    ensures
        drawn(s, front, x, y)[pixel_index(x + 8 - i, y + front.len())] == s[pixel_index(x + 8 - i, y + front.len())],
{
    let n = front.len() as int;
    let p = pixel_index(x + 8 - i, y + n);
    lemma_drawn_pixel(s, front, x, y, p);
    assert(!covered(p, x, y, n)) by {
        if covered(p, x, y, n) {
            let r2 = covering_row(p, x, y, n);
            assert(covered_by_row(p, x, y, r2));
        }
    }
}

/// A sprite that lies within the display changes every pixel it covers
/// exactly when, before drawing, each of its pixels differs from the sprite
/// bit drawn there (bit `i` of row `r` at `(x + 8 - i, y + r)`).
pub proof fn law_all_changed(s: Seq<bool>, sprite: Seq<u8>, x: int, y: int)
    requires
        s.len() == SCREEN_PIXELS,
        0 <= x,
        x + 8 < SCREEN_WIDTH,
        0 <= y,
        y + sprite.len() <= SCREEN_HEIGHT,
    ensures
        all_changed(s, sprite, x, y) == (forall|r: int, i: int|
            0 <= r < sprite.len() && 0 <= i < 8 ==> s[pixel_index(x + 8 - i, y + r)] != #[trigger] bit_of(sprite[r], i)),
    decreases sprite.len(),
{
    let n = sprite.len() as int;
    if n > 0 {
        let front = sprite.drop_last();
        law_all_changed(s, front, x, y);
        lemma_drawn_len(s, front, x, y);
        let lhs = all_changed(s, sprite, x, y);
        let rhs = forall|r: int, i: int|
            0 <= r < sprite.len() && 0 <= i < 8 ==> s[pixel_index(x + 8 - i, y + r)] != #[trigger] bit_of(sprite[r], i);
        if rhs {
            assert forall|r: int, i: int|
                0 <= r < front.len() && 0 <= i < 8 implies s[pixel_index(x + 8 - i, y + r)] != #[trigger] bit_of(front[r], i) by {
                assert(front[r] == sprite[r]);
                assert(s[pixel_index(x + 8 - i, y + r)] != bit_of(sprite[r], i));
            }
            assert forall|i: int| 0 <= i < 8 implies drawn(s, front, x, y)[pixel_index(x + 8 - i, y + n - 1)] != #[trigger] bit_of(sprite.last(), i) by {
                lemma_below_rows_untouched(s, front, x, y, i);
                assert(s[pixel_index(x + 8 - i, y + (n - 1))] != bit_of(sprite[n - 1], i));
            }
            assert(line_all_changed(drawn(s, front, x, y), sprite.last(), x, y + n - 1));
        }
        if lhs {
            assert forall|r: int, i: int|
                0 <= r < sprite.len() && 0 <= i < 8 implies s[pixel_index(x + 8 - i, y + r)] != #[trigger] bit_of(sprite[r], i) by {
                if r < n - 1 {
                    assert(front[r] == sprite[r]);
                    assert(s[pixel_index(x + 8 - i, y + r)] != bit_of(front[r], i));
                } else {
                    lemma_below_rows_untouched(s, front, x, y, i);
                    assert(drawn(s, front, x, y)[pixel_index(x + 8 - i, y + n - 1)] != bit_of(sprite.last(), i));
                }
            }
        }
    }
}

/// `DXYN` with `N > 0` draws the `N` bytes at `I` at `(VX, VY)`: bit `i` of
/// byte `r` shows at `(VX + 8 - i, VY + r)`, every other pixel stays as it
/// was, and `VF` is 1 exactly when every one of those pixels changed, else
/// 0. `DXY0` draws nothing and sets `VF` to 1. No other register changes.
pub proof fn law_draw(m: Machine, op: u16)
    requires
        machine_wf(m),
        op_code_of(op) == 13,
        can_execute(m, op),
    ensures
        ({
            let vx = m.registers[x_of(op) as int] as int;
            let vy = m.registers[y_of(op) as int] as int;
            let n = nibble_of(op) as int;
            let i0 = m.index as int;
            let e = executed(m, op);
            &&& forall|r: int, i: int| 0 <= r < n && 0 <= i < 8 ==>
                e.pixels[pixel_index(vx + 8 - i, vy + r)] == #[trigger] bit_of(m.memory[i0 + r], i)
            &&& forall|p: int| 0 <= p < SCREEN_PIXELS && !covered(p, vx, vy, n) ==> #[trigger] e.pixels[p] == m.pixels[p]
            &&& e.pixels.len() == SCREEN_PIXELS
            &&& (e.registers[15] == 1) == (forall|r: int, i: int| 0 <= r < n && 0 <= i < 8 ==>
                m.pixels[pixel_index(vx + 8 - i, vy + r)] != #[trigger] bit_of(m.memory[i0 + r], i))
            &&& e.registers[15] <= 1
            &&& registers_kept_but(m, e, 15, 15)
            &&& e.memory == m.memory && e.index == m.index && e.keys == m.keys && e.cycle == m.cycle
            &&& jump_of(m, op) == None::<usize>
        }),
{
    let vx = m.registers[x_of(op) as int] as int;
    let vy = m.registers[y_of(op) as int] as int;
    let n = nibble_of(op) as int;
    let i0 = m.index as int;
    let sprite = m.memory.subrange(i0, i0 + n);
    lemma_drawn_len(m.pixels, sprite, vx, vy);
    if n > 0 {
        law_all_changed(m.pixels, sprite, vx, vy);
        assert forall|r: int, i: int| 0 <= r < n && 0 <= i < 8 implies
            executed(m, op).pixels[pixel_index(vx + 8 - i, vy + r)] == #[trigger] bit_of(m.memory[i0 + r], i) by {
            let p = pixel_index(vx + 8 - i, vy + r);
            lemma_drawn_pixel(m.pixels, sprite, vx, vy, p);
            assert(covered_by_row(p, vx, vy, r));
            let r2 = covering_row(p, vx, vy, n);
            assert(covered_by_row(p, vx, vy, r2));
            assert(r2 == r);
            assert(sprite[r] == m.memory[i0 + r]);
        }
        assert forall|p: int| 0 <= p < SCREEN_PIXELS && !covered(p, vx, vy, n) implies #[trigger] executed(m, op).pixels[p] == m.pixels[p] by {
            lemma_drawn_pixel(m.pixels, sprite, vx, vy, p);
        }
        let all = forall|r: int, i: int| 0 <= r < n && 0 <= i < 8 ==>
            m.pixels[pixel_index(vx + 8 - i, vy + r)] != #[trigger] bit_of(m.memory[i0 + r], i);
        let all2 = forall|r: int, i: int| 0 <= r < sprite.len() && 0 <= i < 8 ==>
            m.pixels[pixel_index(vx + 8 - i, vy + r)] != #[trigger] bit_of(sprite[r], i);
        assert(all == all2) by {
            if all {
                assert forall|r: int, i: int| 0 <= r < sprite.len() && 0 <= i < 8 implies
                    m.pixels[pixel_index(vx + 8 - i, vy + r)] != #[trigger] bit_of(sprite[r], i) by {
                    assert(sprite[r] == m.memory[i0 + r]);
                    assert(m.pixels[pixel_index(vx + 8 - i, vy + r)] != bit_of(m.memory[i0 + r], i));
                }
            }
            if all2 {
                assert forall|r: int, i: int| 0 <= r < n && 0 <= i < 8 implies
                    m.pixels[pixel_index(vx + 8 - i, vy + r)] != #[trigger] bit_of(m.memory[i0 + r], i) by {
                    assert(sprite[r] == m.memory[i0 + r]);
                    assert(m.pixels[pixel_index(vx + 8 - i, vy + r)] != bit_of(sprite[r], i));
                }
            }
        }
    } else {
        assert(sprite.len() == 0);
        assert forall|p: int| 0 <= p < SCREEN_PIXELS && !covered(p, vx, vy, n) implies #[trigger] executed(m, op).pixels[p] == m.pixels[p] by {}
    }
}

/// The `FXKK` instructions: `FX07` reads the delay timer into `VX`; `FX0A`
/// waits for a key, then puts the lowest pressed key in `VX`; `FX15` and
/// `FX18` set the delay and sound timers to `X`; `FX1E` adds `X` to `I`;
/// `FX29` sets `I` to the low nibble of `VX`; `FX55` stores `V0` to `VF` at
/// `I`; `FX65` loads them from `I`. Each leaves everything else as it was.
pub proof fn law_misc(m: Machine, op: u16)
    requires
        machine_wf(m),
        op_code_of(op) == 15,
        can_execute(m, op),
    ensures
        ({
            let x = x_of(op) as int;
            let kk = constant_of(op);
            let vx = m.registers[x];
            let e = executed(m, op);
            let i0 = m.index as int;
            &&& kk == 7 ==> e.registers[x] == m.delay && registers_kept_but(m, e, x, x) && same_but_registers(m, e)
                && jump_of(m, op) == None::<usize>
            &&& (kk == 10 && some_pressed(m.keys)) ==> {
                let k = e.registers[x] as int;
                &&& 0 <= k < m.keys.len() && m.keys[k]
                &&& forall|j: int| 0 <= j < k ==> !#[trigger] m.keys[j]
                &&& registers_kept_but(m, e, x, x) && same_but_registers(m, e)
                &&& jump_of(m, op) == None::<usize>
            }
            &&& (kk == 10 && !some_pressed(m.keys)) ==> e == m && jump_of(m, op) == Some(m.pc)
            &&& kk == 21 ==> e.delay == x && e.registers == m.registers && e.memory == m.memory
                && e.index == m.index && e.sound == m.sound
            &&& kk == 24 ==> e.sound == x && e.registers == m.registers && e.memory == m.memory
                && e.index == m.index && e.delay == m.delay
            &&& kk == 30 ==> e.index == m.index + x && e.registers == m.registers && e.memory == m.memory
            &&& kk == 41 ==> e.index < 16 && e.index + 16 * (vx / 16) == vx && e.registers == m.registers
                && e.memory == m.memory
            &&& kk == 85 ==> e.registers == m.registers && e.index == m.index
                && e.memory.len() == m.memory.len()
                && (forall|j: int| 0 <= j < 16 ==> #[trigger] e.memory[i0 + j] == m.registers[j])
                && (forall|p: int| 0 <= p < MEMORY_SIZE && (p < i0 || p >= i0 + 16) ==> #[trigger] e.memory[p] == m.memory[p])
            &&& kk == 101 ==> e.memory == m.memory && e.index == m.index && e.registers.len() == 16
                && (forall|j: int| 0 <= j < 16 ==> #[trigger] e.registers[j] == m.memory[i0 + j])
            &&& kk != 10 ==> jump_of(m, op) == None::<usize>
            &&& e.pc == m.pc && e.pixels == m.pixels && e.keys == m.keys && e.cycle == m.cycle
        }),
{
    lemma_first_pressed_from(m.keys, 0);
}

/// `00E0` turns every pixel off and changes nothing else; `00EE` and the other
/// `0NNN` change nothing. `2NNN` acts as the instruction `0NNN`.
pub proof fn law_system(m: Machine, op: u16)
    requires
        machine_wf(m),
        op_code_of(op) == 0 || op_code_of(op) == 2,
    ensures
        ({
            let e = executed(m, op);
            let clears = address_of(op) == 0x0E0;
            &&& clears ==> e.pixels.len() == SCREEN_PIXELS && (forall|p: int| 0 <= p < SCREEN_PIXELS ==> !#[trigger] e.pixels[p])
                && e.registers == m.registers && e.memory == m.memory && e.index == m.index
                && e.keys == m.keys && e.delay == m.delay && e.sound == m.sound && e.cycle == m.cycle && e.pc == m.pc
            &&& !clears ==> e == m
            &&& jump_of(m, op) == None::<usize>
        }),
{
    assert(op_code_of(op) == 0 ==> op == address_of(op));
}

/// A cycle runs the fetched instruction, then goes on to the next instruction,
/// two bytes on, unless the instruction sends execution elsewhere, and counts
/// itself modulo 256.
pub proof fn law_step_advances(m: Machine)
    requires
        machine_wf(m),
        can_step(m),
    ensures
        jump_of(m, fetched(m)) is None ==> stepped(m).pc == m.pc + 2,
        jump_of(m, fetched(m)) matches Some(t) ==> stepped(m).pc == t,
        stepped(m).cycle == if m.cycle == 255 { 0 } else { m.cycle + 1 },
        stepped(m).registers == executed(m, fetched(m)).registers,
        stepped(m).memory == executed(m, fetched(m)).memory,
        stepped(m).pixels == executed(m, fetched(m)).pixels,
        stepped(m).index == executed(m, fetched(m)).index,
{
}

/// A new machine starts at address `0x200` with every register, the address
/// register, both timers and the cycle count zero, 4096 bytes of the given
/// memory, a dark display of 64 x 32 pixels and sixteen keys, none pressed.
pub proof fn law_initial(memory: Seq<u8>)
    requires
        memory.len() == 4096,
    ensures
        ({
            let m = initial_machine(memory);
            &&& machine_wf(m)
            &&& m.pc == 0x200
            &&& m.index == 0 && m.delay == 0 && m.sound == 0 && m.cycle == 0
            &&& m.registers.len() == 16 && forall|i: int| 0 <= i < 16 ==> #[trigger] m.registers[i] == 0
            &&& m.memory == memory
            &&& m.pixels.len() == 64 * 32 && forall|p: int| 0 <= p < 64 * 32 ==> !#[trigger] m.pixels[p]
            &&& m.keys.len() == 16 && !some_pressed(m.keys)
        }),
{
}

/// The instructions without a hazard can always be executed: `0NNN`, `1NNN`,
/// `2NNN`, `6XKK`, `8XYN`, `ANNN`, `CXKK`, and the skipping `3XKK`, `4XKK`,
/// `5XY0`, `9XY0` where the program counter leaves room for a skip; `7XKK`
/// can be executed exactly when `VX + KK` fits in a byte.
pub proof fn law_always_executable(m: Machine, op: u16)
    requires
        machine_wf(m),
        m.pc + 4 <= usize::MAX,
    ensures
        (op_code_of(op) <= 6 || op_code_of(op) == 8 || op_code_of(op) == 9 || op_code_of(op) == 10
            || op_code_of(op) == 12) ==> can_execute(m, op),
        op_code_of(op) == 7 ==> (can_execute(m, op) <==> m.registers[x_of(op) as int] + constant_of(op) <= 255),
{
}

/// Writing `bytes` at `at` puts byte `j` at `at + j` and keeps every other byte.
pub proof fn law_written(memory: Seq<u8>, at: int, bytes: Seq<u8>)
    requires
        0 <= at,
        at + bytes.len() <= memory.len(),
    ensures
        written(memory, at, bytes).len() == memory.len(),
        forall|j: int| 0 <= j < bytes.len() ==> #[trigger] written(memory, at, bytes)[at + j] == bytes[j],
        forall|p: int| 0 <= p < memory.len() && (p < at || p >= at + bytes.len()) ==> #[trigger] written(memory, at, bytes)[p] == memory[p],
{
}

/// Exactly when the instructions with a hazard can be executed: `BNNN` when
/// `I + V0` fits in 16 bits; `DXYN` when the `N` bytes from `I` lie in memory
/// and, for `N > 0`, the sprite lies within the display; `EX9E` and `EXA1`
/// when key `VX` exists (and a skip leaves room); `FX1E` when `I + X` fits
/// in 16 bits; `FX33` when `I + 2`, and `FX55`, `FX65` when `I + 15`, lie in memory.
pub proof fn law_executable_exactly(m: Machine, op: u16)
    requires
        machine_wf(m),
        m.pc + 4 <= usize::MAX,
    ensures
        ({
            let vx = m.registers[x_of(op) as int] as int;
            let vy = m.registers[y_of(op) as int] as int;
            let n = nibble_of(op) as int;
            let kk = constant_of(op);
            let i0 = m.index as int;
            &&& op_code_of(op) == 11 ==> (can_execute(m, op) <==> i0 + m.registers[0] < 65536)
            &&& op_code_of(op) == 13 ==> (can_execute(m, op) <==> (i0 + n <= 4096 && (n > 0 ==> vx + 8 <= 63 && vy + n <= 32)))
            &&& (op_code_of(op) == 14 && (n == 1 || n == 14)) ==> (can_execute(m, op) <==> vx < 16)
            &&& (op_code_of(op) == 14 && n != 1 && n != 14) ==> can_execute(m, op)
            &&& (op_code_of(op) == 15 && kk == 30) ==> (can_execute(m, op) <==> i0 + x_of(op) < 65536)
            &&& (op_code_of(op) == 15 && kk == 51) ==> (can_execute(m, op) <==> i0 + 2 <= 4095)
            &&& (op_code_of(op) == 15 && (kk == 85 || kk == 101)) ==> (can_execute(m, op) <==> i0 + 15 <= 4095)
            &&& (op_code_of(op) == 15 && kk != 30 && kk != 51 && kk != 85 && kk != 101) ==> can_execute(m, op)
        }),
{
}

} // verus!
