//! The mathematical model of the machine and of what each instruction does to it.
use vstd::prelude::*;
use crate::decode::{address_of, constant_of, lsfr_next, nibble_of, op_code_of, x_of, y_of};
use crate::input::{first_pressed, some_pressed, KEY_COUNT};
use crate::memory::MEMORY_SIZE;
use crate::screen::{all_changed, blank, drawn, SCREEN_HEIGHT, SCREEN_PIXELS, SCREEN_WIDTH};

verus! {

/// Number of general registers `V0` to `VF`.
pub const REGISTER_COUNT: usize = 16;

/// Where programs are loaded, and where execution starts.
pub const PROGRAM_COUNTER_START_POS: usize = 0x200;

/// The state of the machine.
pub struct Machine {
    /// The registers `V0` to `VF`; `VF` is the flag register.
    pub registers: Seq<u8>,
    /// The address register `I`.
    pub index: u16,
    /// The address of the next instruction.
    pub pc: usize,
    /// The bytes of memory.
    pub memory: Seq<u8>,
    /// The delay timer.
    pub delay: u8,
    /// The sound timer.
    pub sound: u8,
    /// The pixels of the display, row by row.
    pub pixels: Seq<bool>,
    /// The number of cycles run, modulo 256; the seed of the random source.
    pub cycle: u8,
    /// Which keys of the keypad are pressed.
    pub keys: Seq<bool>,
}

/// Every part of the machine has its fixed size.
pub open spec fn machine_wf(m: Machine) -> bool {
    &&& m.registers.len() == REGISTER_COUNT
    &&& m.memory.len() == MEMORY_SIZE
    &&& m.pixels.len() == SCREEN_PIXELS
    &&& m.keys.len() == KEY_COUNT
}

/// The machine as it starts with the memory `memory`: registers, address
/// register, timers and cycle count zero, execution at `0x200`, a blank
/// display and no key pressed.
pub open spec fn initial_machine(memory: Seq<u8>) -> Machine {
    Machine {
        registers: Seq::new(REGISTER_COUNT as nat, |i: int| 0u8),
        index: 0,
        pc: PROGRAM_COUNTER_START_POS,
        memory,
        delay: 0,
        sound: 0,
        pixels: blank(),
        cycle: 0,
        keys: Seq::new(KEY_COUNT as nat, |i: int| false),
    }
}

/// `memory` with `bytes` written from address `at` on.
pub open spec fn written(memory: Seq<u8>, at: int, bytes: Seq<u8>) -> Seq<u8> {
    Seq::new(
        memory.len(),
        |p: int|
            if at <= p < at + bytes.len() {
                bytes[p - at]
            } else {
                memory[p]
            },
    )
}

/// The instruction stored at `at`: the byte there is its high byte, the next its low byte.
pub open spec fn instruction_at(memory: Seq<u8>, at: int) -> u16 {
    (memory[at] as int * 256 + memory[at + 1] as int) as u16
}

/// The machine with the memory `memory`.
pub open spec fn with_memory(m: Machine, memory: Seq<u8>) -> Machine {
    Machine { memory, ..m }
}

/// Where the program counter goes from `m`: to `target` where there is one,
/// else to the next instruction.
pub open spec fn next_pc(m: Machine, target: Option<usize>) -> usize {
    match target {
        Some(t) => t,
        None => (m.pc + 2) as usize,
    }
}

/// The machine with the registers `registers`.
pub open spec fn with_registers(m: Machine, registers: Seq<u8>) -> Machine {
    Machine { registers, ..m }
}

/// The machine with the program counter at `pc`.
pub open spec fn with_pc(m: Machine, pc: usize) -> Machine {
    Machine { pc, ..m }
}

/// The machine with register `i` set to `v`.
pub open spec fn with_reg(m: Machine, i: int, v: u8) -> Machine {
    Machine { registers: m.registers.update(i, v), ..m }
}

/// The test of a skipping instruction holds: `3XKK` (`VX == KK`), `4XKK`
/// (`VX != KK`), `5XY0` (`VX == VY`), `9XY0` (`VX != VY`), `EX9E` (key `VX`
/// pressed), `EXA1` (key `VX` not pressed).
pub open spec fn skip_taken(m: Machine, op: u16) -> bool {
    let x = x_of(op) as int;
    let y = y_of(op) as int;
    let n = nibble_of(op) as int;
    let kk = constant_of(op);
    let code = op_code_of(op);
    if code == 3 {
        m.registers[x] == kk
    } else if code == 4 {
        m.registers[x] != kk
    } else if code == 5 {
        m.registers[x] == m.registers[y]
    } else if code == 9 {
        m.registers[x] != m.registers[y]
    } else if code == 14 {
        (n == 1 && !m.keys[m.registers[x] as int]) || (n == 14 && m.keys[m.registers[x] as int])
    } else {
        false
    }
}

/// What the instruction does not panic on: the instructions that add to a
/// register or to the address register stay within their width, the memory
/// that an instruction reads or writes lies within memory, a sprite lies
/// within the display, and a key that is tested exists. A skip must leave the
/// program counter within the machine's word.
pub open spec fn can_execute(m: Machine, op: u16) -> bool {
    let x = x_of(op) as int;
    let y = y_of(op) as int;
    let n = nibble_of(op) as int;
    let kk = constant_of(op) as int;
    &&& skip_taken(m, op) ==> m.pc + 4 <= usize::MAX
    &&& if op_code_of(op) == 7 {
        m.registers[x] + kk <= u8::MAX
    } else if op_code_of(op) == 11 {
        m.index + m.registers[0] <= u16::MAX
    } else if op_code_of(op) == 13 {
        &&& m.index + n <= MEMORY_SIZE
        &&& n > 0 ==> m.registers[x] + 8 < SCREEN_WIDTH && m.registers[y] + n <= SCREEN_HEIGHT
    } else if op_code_of(op) == 14 {
        (n == 1 || n == 14) ==> m.registers[x] < KEY_COUNT
    } else if op_code_of(op) == 15 {
        if kk == 30 {
            m.index + x <= u16::MAX
        } else if kk == 51 {
            m.index + 2 < MEMORY_SIZE
        } else if kk == 85 || kk == 101 {
            m.index + 15 < MEMORY_SIZE
        } else {
            true
        }
    } else {
        true
    }
}

/// Where the instruction sends execution, if it does not simply go on to the
/// next one: `1NNN` jumps to `NNN`; `3XKK`, `4XKK`, `5XY0`, `9XY0`, `EX9E`, `EXA1`
/// skip the next instruction when their test holds; `BNNN` jumps to `I + V0`
/// (it takes `I`, not `NNN`); `FX0A` stays on itself while no key is pressed.
pub open spec fn jump_of(m: Machine, op: u16) -> Option<usize> {
    if op_code_of(op) == 1 {
        Some(address_of(op) as usize)
    } else if skip_taken(m, op) {
        Some((m.pc + 4) as usize)
    } else if op_code_of(op) == 11 {
        Some((m.index + m.registers[0]) as usize)
    } else if op_code_of(op) == 15 && constant_of(op) == 10 && !some_pressed(m.keys) {
        Some(m.pc)
    } else {
        None
    }
}

/// The instruction of the `0NNN` family that the machine does not know, which
/// it reports: an `0NNN` other than `00E0` and `00EE`, or the address of a
/// `2NNN` (which runs its address as an instruction) other than `0E0` and `0EE`.
pub open spec fn notice_of(op: u16) -> Option<u16> {
    if op_code_of(op) == 0 && op != 0x00E0 && op != 0x00EE {
        Some(op)
    } else if op_code_of(op) == 2 && address_of(op) != 0x0E0 && address_of(op) != 0x0EE {
        Some(address_of(op))
    } else {
        None
    }
}

/// `8XYN`: register to register arithmetic and logic, with `VF` as the flag.
pub open spec fn arith_result(m: Machine, x: int, y: int, n: int) -> Machine {
    let vx = m.registers[x];
    let vy = m.registers[y];
    if n == 0 {
        with_reg(m, x, vy)
    } else if n == 1 {
        with_reg(m, x, vx | vy)
    } else if n == 2 {
        with_reg(m, x, vx & vy)
    } else if n == 3 {
        with_reg(m, x, vx ^ vy)
    } else if n == 4 {
        with_reg(
            with_reg(m, x, ((vx + vy) % 256) as u8),
            15,
            if vx + vy > 255 { 1 } else { 0 },
        )
    } else if n == 5 {
        with_reg(
            with_reg(m, x, ((vx - vy + 256) % 256) as u8),
            15,
            if vx >= vy { 1 } else { 0 },
        )
    } else if n == 6 {
        with_reg(with_reg(m, x, vx / 2), 15, vx % 2)
    } else if n == 7 {
        with_reg(
            with_reg(m, y, ((vy - vx + 256) % 256) as u8),
            15,
            if vy >= vx { 1 } else { 0 },
        )
    } else if n == 8 {
        with_reg(
            with_reg(m, x, ((vx * 2) % 256) as u8),
            15,
            if vx >= 128 { 128 } else { 0 },
        )
    } else {
        m
    }
}

/// The `N` bytes from `I` on: the sprite that `DXYN` draws.
pub open spec fn sprite_of(m: Machine, n: int) -> Seq<u8> {
    m.memory.subrange(m.index as int, m.index + n)
}

/// `DXYN`: draws the sprite at `(VX, VY)`; `VF` tells whether every pixel drawn changed.
pub open spec fn sprite_result(m: Machine, x: int, y: int, n: int) -> Machine {
    let vx = m.registers[x] as int;
    let vy = m.registers[y] as int;
    let sprite = sprite_of(m, n);
    with_reg(
        Machine { pixels: drawn(m.pixels, sprite, vx, vy), ..m },
        15,
        if all_changed(m.pixels, sprite, vx, vy) { 1 } else { 0 },
    )
}

/// `FXKK`: timers, keypad, the address register and transfers between
/// registers and memory. `FX15`, `FX18` and `FX1E` take the index `X` itself.
pub open spec fn misc_result(m: Machine, x: int, kk: int) -> Machine {
    let vx = m.registers[x];
    let i = m.index as int;
    if kk == 7 {
        with_reg(m, x, m.delay)
    } else if kk == 10 {
        if some_pressed(m.keys) { with_reg(m, x, first_pressed(m.keys) as u8) } else { m }
    } else if kk == 21 {
        Machine { delay: x as u8, ..m }
    } else if kk == 24 {
        Machine { sound: x as u8, ..m }
    } else if kk == 30 {
        Machine { index: (i + x) as u16, ..m }
    } else if kk == 41 {
        Machine { index: (vx % 16) as u16, ..m }
    } else if kk == 51 {
        Machine { memory: written(m.memory, i, seq![vx / 100, (vx % 100) / 10, vx % 10]), ..m }
    } else if kk == 85 {
        Machine { memory: written(m.memory, i, m.registers), ..m }
    } else if kk == 101 {
        Machine { registers: m.memory.subrange(i, i + REGISTER_COUNT), ..m }
    } else {
        m
    }
}

/// The machine after the instruction `op`, before the program counter moves.
pub open spec fn executed(m: Machine, op: u16) -> Machine {
    let x = x_of(op) as int;
    let y = y_of(op) as int;
    let n = nibble_of(op) as int;
    let kk = constant_of(op);
    let code = op_code_of(op);
    if code == 0 {
        if op == 0x00E0 { Machine { pixels: blank(), ..m } } else { m }
    } else if code == 2 {
        if address_of(op) == 0x0E0 { Machine { pixels: blank(), ..m } } else { m }
    } else if code == 6 {
        with_reg(m, x, kk)
    } else if code == 7 {
        with_reg(m, x, (m.registers[x] + kk) as u8)
    } else if code == 8 {
        arith_result(m, x, y, n)
    } else if code == 10 {
        Machine { index: address_of(op), ..m }
    } else if code == 12 {
        with_reg(m, x, lsfr_next(m.cycle) & kk)
    } else if code == 13 {
        sprite_result(m, x, y, n)
    } else if code == 15 {
        misc_result(m, x, kk as int)
    } else {
        m
    }
}

/// The instruction at the program counter.
pub open spec fn fetched(m: Machine) -> u16 {
    instruction_at(m.memory, m.pc as int)
}

/// A cycle does not panic: the instruction lies within memory and can be executed.
pub open spec fn can_step(m: Machine) -> bool {
    &&& m.pc + 1 < MEMORY_SIZE
    &&& can_execute(m, fetched(m))
}

/// The machine after one cycle: the fetched instruction executed, the program
/// counter moved to where the instruction sends it or else to the next
/// instruction, and the cycle count advanced modulo 256.
pub open spec fn stepped(m: Machine) -> Machine {
    let op = fetched(m);
    let e = executed(m, op);
    Machine {
        pc: next_pc(m, jump_of(m, op)),
        cycle: ((m.cycle + 1) % 256) as u8,
        ..e
    }
}

} // verus!
