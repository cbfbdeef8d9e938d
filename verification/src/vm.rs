//! The virtual machine: its state and the interpreter of its instructions.
use vstd::prelude::*;
use crate::decode::{
    constant_of, get_4_bit_constant, get_address, get_constant, get_op_code, get_x, get_y, lsfr,
    op_code_of, x_of,
};
use crate::input::{Input, KEY_COUNT};
use crate::machine::{
    arith_result, can_execute, can_step, executed, fetched, initial_machine, instruction_at,
    jump_of, machine_wf, misc_result, next_pc, notice_of, sprite_result, stepped, with_memory,
    with_pc, with_reg, with_registers, written, Machine, PROGRAM_COUNTER_START_POS, REGISTER_COUNT,
};
use crate::memory::{Memory, MEMORY_SIZE};
use crate::screen::{Screen, SCREEN_HEIGHT, SCREEN_WIDTH};

verus! {

/// The virtual machine.
pub struct Vm {
    registers: Vec<u8>,
    address_register: u16,
    program_counter: usize,
    memory: Memory,
    delay_timer: u8,
    sound_timer: u8,
    display: Screen,
    cycle_count: u8,
    input: Input,
}

impl View for Vm {
    type V = Machine;

    closed spec fn view(&self) -> Machine {
        Machine {
            registers: self.registers@,
            index: self.address_register,
            pc: self.program_counter,
            memory: self.memory@,
            delay: self.delay_timer,
            sound: self.sound_timer,
            pixels: self.display@,
            cycle: self.cycle_count,
            keys: self.input@,
        }
    }
}

impl Vm {
    /// Every part of the machine has its fixed size.
    pub open spec fn wf(&self) -> bool {
        machine_wf(self@)
    }

    /// A machine with zeroed memory, ready to run from `0x200`.
    pub fn new() -> (vm: Vm)
        ensures
            vm.wf(),
            vm@ == initial_machine(Seq::new(MEMORY_SIZE as nat, |i: int| 0u8)),
    {
        let mem = Memory::new();
        assert(mem@ =~= Seq::new(MEMORY_SIZE as nat, |i: int| 0u8));
        Self::vm(mem)
    }

    /// A machine with the memory `mem`, ready to run from `0x200`.
    pub fn new_with_memory(mem: Memory) -> (vm: Vm)
        requires
            mem.wf(),
        ensures
            vm.wf(),
            vm@ == initial_machine(mem@),
    {
        Self::vm(mem)
    }

    fn vm(mem: Memory) -> (vm: Vm)
        requires
            mem.wf(),
        ensures
            vm.wf(),
            vm@ == initial_machine(mem@),
    {
        let mut registers: Vec<u8> = Vec::new();
        let mut i: usize = 0;
        while i < REGISTER_COUNT
            invariant
                i <= REGISTER_COUNT,
                registers@.len() == i,
                forall|j: int| 0 <= j < i ==> #[trigger] registers@[j] == 0,
            decreases REGISTER_COUNT - i,
        {
            registers.push(0);
            i = i + 1;
        }
        let input = Input::new();
        let vm = Vm {
            registers,
            address_register: 0x000,
            program_counter: PROGRAM_COUNTER_START_POS,
            memory: mem,
            delay_timer: 0,
            sound_timer: 0,
            display: Screen::new(),
            cycle_count: 0,
            input,
        };
        assert(vm@.registers =~= Seq::new(REGISTER_COUNT as nat, |i: int| 0u8));
        assert(vm@.keys =~= Seq::new(KEY_COUNT as nat, |i: int| false));
        vm
    }

    /// Puts the bytes of a program into memory from the program counter on.
    pub fn load(&mut self, program: &[u8])
        requires
            old(self).wf(),
            old(self)@.pc + program@.len() <= MEMORY_SIZE,
        ensures
            final(self).wf(),
            final(self)@ == with_memory(
                old(self)@,
                written(old(self)@.memory, old(self)@.pc as int, program@),
            ),
    {
        let ghost start = self@;
        let mut pos: usize = 0;
        assert(start.memory =~= written(start.memory, start.pc as int, program@.take(0)));
        while pos < program.len()
            invariant
                self.wf(),
                start.pc + program@.len() <= MEMORY_SIZE,
                pos <= program@.len(),
                self@ == with_memory(
                    start,
                    written(start.memory, start.pc as int, program@.take(pos as int)),
                ),
            decreases program@.len() - pos,
        {
            self.memory.set(self.program_counter + pos, program[pos]);
            pos = pos + 1;
            assert(self@.memory =~= written(start.memory, start.pc as int, program@.take(pos as int)));
        }
        assert(program@.take(program@.len() as int) =~= program@);
    }

    /// Moves the program counter to `value`, or to the next instruction where
    /// `value` is `None`.
    pub fn update_program_counter(&mut self, value: Option<usize>)
        requires
            value is None ==> old(self)@.pc + 2 <= usize::MAX,
        ensures
            final(self)@ == with_pc(old(self)@, next_pc(old(self)@, value)),
    {
        match value {
            Some(val) => self.program_counter = val,
            None => self.program_counter = self.program_counter + 2,
        }
    }

    /// The instruction stored at `start_address`, high byte first.
    pub fn get_op(&self, start_address: usize) -> (op: u16)
        requires
            self.wf(),
            start_address + 1 < MEMORY_SIZE,
        ensures
            op == instruction_at(self@.memory, start_address as int),
    {
        let ins1 = self.memory.get(start_address);
        let ins2 = self.memory.get(start_address + 1);
        let op: u16 = ((ins1 as u16) << 8) | ins2 as u16;
        assert(op == ins1 as int * 256 + ins2 as int) by (bit_vector)
            requires
                op == ((ins1 as u16) << 8u16) | ins2 as u16,
        ;
        op
    }

    /// Whether `op` can be executed in the present state (see `can_execute`).
    pub fn can_execute(&self, op: u16) -> (r: bool)
        requires
            self.wf(),
        ensures
            r == can_execute(self@, op),
    {
        let code = get_op_code(op);
        let x = get_x(op) as usize;
        let y = get_y(op) as usize;
        let n = get_4_bit_constant(op);
        let kk = get_constant(op);
        let fits_skip = self.program_counter <= usize::MAX - 4;
        if code == 3 {
            fits_skip || self.registers[x] != kk
        } else if code == 4 {
            fits_skip || self.registers[x] == kk
        } else if code == 5 {
            fits_skip || self.registers[x] != self.registers[y]
        } else if code == 9 {
            fits_skip || self.registers[x] == self.registers[y]
        } else if code == 7 {
            self.registers[x] as u16 + kk as u16 <= 255
        } else if code == 11 {
            self.address_register as u32 + self.registers[0] as u32 <= 65535
        } else if code == 13 {
            self.address_register as usize + n as usize <= MEMORY_SIZE && (n == 0 || (
            self.registers[x] as usize + 8 < SCREEN_WIDTH && self.registers[y] as usize
                + n as usize <= SCREEN_HEIGHT))
        } else if code == 14 {
            if n == 1 || n == 14 {
                let key = self.registers[x] as usize;
                if key < KEY_COUNT {
                    let pressed = self.input.is_set(key);
                    let skip = if n == 1 { !pressed } else { pressed };
                    fits_skip || !skip
                } else {
                    false
                }
            } else {
                true
            }
        } else if code == 15 {
            if kk == 30 {
                self.address_register as u32 + x as u32 <= 65535
            } else if kk == 51 {
                (self.address_register as usize) + 2 < MEMORY_SIZE
            } else if kk == 85 || kk == 101 {
                (self.address_register as usize) + 15 < MEMORY_SIZE
            } else {
                true
            }
        } else {
            true
        }
    }

    /// Whether a cycle can be run in the present state (see `can_step`).
    pub fn can_step(&self) -> (r: bool)
        requires
            self.wf(),
        ensures
            r == can_step(self@),
    {
        if self.program_counter < MEMORY_SIZE - 1 {
            let op = self.get_op(self.program_counter);
            self.can_execute(op)
        } else {
            false
        }
    }

    fn set_register(&mut self, i: usize, v: u8)
        requires
            old(self).wf(),
            i < REGISTER_COUNT,
        ensures
            final(self).wf(),
            final(self)@ == with_reg(old(self)@, i as int, v),
    {
        self.registers.set(i, v);
    }

    /// `8XYN`: register to register arithmetic and logic.
    fn execute_arith(&mut self, reg1: usize, reg2: usize, case: u8)
        requires
            old(self).wf(),
            reg1 < REGISTER_COUNT,
            reg2 < REGISTER_COUNT,
        ensures
            final(self).wf(),
            final(self)@ == arith_result(old(self)@, reg1 as int, reg2 as int, case as int),
    {
        let vx = self.registers[reg1];
        let vy = self.registers[reg2];
        if case == 0 {
            self.set_register(reg1, vy);
        } else if case == 1 {
            self.set_register(reg1, vx | vy);
        } else if case == 2 {
            self.set_register(reg1, vx & vy);
        } else if case == 3 {
            self.set_register(reg1, vx ^ vy);
        } else if case == 4 {
            let carry = vx as u16 + vy as u16 > 255;
            let val = vx.wrapping_add(vy);
            self.set_register(reg1, val);
            self.set_register(15, if carry { 1 } else { 0 });
        } else if case == 5 {
            let borrow = vx < vy;
            let val = vx.wrapping_sub(vy);
            self.set_register(reg1, val);
            self.set_register(15, if !borrow { 1 } else { 0 });
        } else if case == 6 {
            let lsb = vx & 0b00000001;
            let shifted = vx >> 1;
            assert(lsb == vx % 2 && shifted == vx / 2) by (bit_vector)
                requires
                    lsb == vx & 1u8,
                    shifted == vx >> 1u8,
            ;
            self.set_register(reg1, shifted);
            self.set_register(15, lsb);
        } else if case == 7 {
            let borrow = vy < vx;
            let val = vy.wrapping_sub(vx);
            self.set_register(reg2, val);
            self.set_register(15, if !borrow { 1 } else { 0 });
        } else if case == 8 {
            let msb = vx & 0b10000000;
            let shifted = vx << 1;
            assert(msb == (if vx >= 128 { 128u8 } else { 0u8 }) && shifted == (vx as int * 2) % 256)
                by (bit_vector)
                requires
                    msb == vx & 128u8,
                    shifted == vx << 1u8,
            ;
            self.set_register(reg1, shifted);
            self.set_register(15, msb);
        }
    }

    /// `DXYN`: draws the `N` bytes at `I` as a sprite at `(VX, VY)`.
    fn execute_draw(&mut self, reg1: usize, reg2: usize, con: u8)
        requires
            old(self).wf(),
            reg1 < REGISTER_COUNT,
            reg2 < REGISTER_COUNT,
            old(self)@.index + con <= MEMORY_SIZE,
            con > 0 ==> old(self)@.registers[reg1 as int] + 8 < SCREEN_WIDTH
                && old(self)@.registers[reg2 as int] + con <= SCREEN_HEIGHT,
        ensures
            final(self).wf(),
            final(self)@ == sprite_result(old(self)@, reg1 as int, reg2 as int, con as int),
    {
        let x: usize = self.registers[reg1] as usize;
        let y: usize = self.registers[reg2] as usize;
        let block = self.memory.get_block(self.address_register as usize, con as usize);
        let res: bool = self.display.draw(block, x, y);
        self.set_register(15, if res { 1 } else { 0 });
    }

    /// `FXKK`: timers, keypad, the address register and transfers between
    /// registers and memory.
    fn execute_misc(&mut self, input: u16)
        requires
            old(self).wf(),
            op_code_of(input) == 15,
            can_execute(old(self)@, input),
        ensures
            final(self).wf(),
            final(self)@ == misc_result(old(self)@, x_of(input) as int, constant_of(input) as int),
    {
        let op = get_constant(input);
        if op == 7 {
            let reg1: usize = get_x(input) as usize;
            let v = self.delay_timer;
            self.set_register(reg1, v);
        } else if op == 10 {
            let key_pressed = self.input.any_pressed();
            if key_pressed {
                let reg1: usize = get_x(input) as usize;
                let k = self.input.get_key_pressed();
                self.set_register(reg1, k);
            }
        } else if op == 21 {
            let reg1 = get_x(input);
            self.delay_timer = reg1;
        } else if op == 24 {
            let reg1 = get_x(input);
            self.sound_timer = reg1;
        } else if op == 30 {
            let reg1 = get_x(input);
            self.address_register = self.address_register + reg1 as u16;
        } else if op == 41 {
            let reg1: usize = get_x(input) as usize;
            let vx = self.registers[reg1];
            let val = vx & 0b00001111;
            assert(val == vx % 16) by (bit_vector)
                requires
                    val == vx & 15u8,
            ;
            self.address_register = 0x00 + val as u16;
        } else if op == 51 {
            let reg1: usize = get_x(input) as usize;
            let val = self.registers[reg1];
            let ghost before = self@;
            self.memory.set(self.address_register as usize, val / 100);
            self.memory.set((self.address_register + 1) as usize, (val % 100) / 10);
            self.memory.set((self.address_register + 2) as usize, val % 10);
            assert(self@.memory =~= written(
                before.memory,
                before.index as int,
                seq![val / 100, (val % 100) / 10, val % 10],
            ));
        } else if op == 85 {
            let ghost before = self@;
            let mut i: usize = 0;
            assert(before.memory =~= written(
                before.memory,
                before.index as int,
                before.registers.take(0),
            ));
            while i < self.registers.len()
                invariant
                    self.wf(),
                    self@.registers == before.registers,
                    self@.index == before.index,
                    before.index + 15 < MEMORY_SIZE,
                    self@ == with_memory(
                        before,
                        written(before.memory, before.index as int, before.registers.take(i as int)),
                    ),
                    i <= REGISTER_COUNT,
                decreases REGISTER_COUNT - i,
            {
                let v = self.registers[i];
                self.memory.set(self.address_register as usize + i, v);
                i = i + 1;
                assert(self@.memory =~= written(
                    before.memory,
                    before.index as int,
                    before.registers.take(i as int),
                ));
            }
            assert(before.registers.take(REGISTER_COUNT as int) =~= before.registers);
        } else if op == 101 {
            let ghost before = self@;
            let mut i: usize = 0;
            while i < self.registers.len()
                invariant
                    self.wf(),
                    before.index + 15 < MEMORY_SIZE,
                    i <= REGISTER_COUNT,
                    self@.memory == before.memory,
                    self@.index == before.index,
                    forall|j: int|
                        0 <= j < i ==> #[trigger] self@.registers[j] == before.memory[before.index
                            + j],
                    self@ == with_registers(before, self@.registers),
                decreases REGISTER_COUNT - i,
            {
                let v = self.memory.get(self.address_register as usize + i);
                self.set_register(i, v);
                i = i + 1;
            }
            assert(self@.registers =~= before.memory.subrange(
                before.index as int,
                before.index + REGISTER_COUNT,
            ));
        }
    }

    /// Executes the instruction `input`. The result is where execution goes
    /// next, if not to the next instruction, and the unknown instruction that
    /// the machine reports, if any.
    pub fn execute(&mut self, input: u16) -> (r: (Option<usize>, Option<u16>))
        requires
            old(self).wf(),
            can_execute(old(self)@, input),
        ensures
            final(self).wf(),
            final(self)@ == executed(old(self)@, input),
            r.0 == jump_of(old(self)@, input),
            r.1 == notice_of(input),
        decreases input,
    {
        let code = get_op_code(input);
        if code == 0 {
            if input == 0x00E0 {
                self.display.clear();
                (None, None)
            } else if input == 0x00EE {
                (None, None)
            } else {
                (None, Some(input))
            }
        } else if code == 1 {
            (Some(get_address(input) as usize), None)
        } else if code == 2 {
            let address = get_address(input);
            assert(address < input);
            self.execute(address)
        } else if code == 3 {
            let reg: usize = get_x(input) as usize;
            let val = get_constant(input);
            if self.registers[reg] == val {
                (Some(self.program_counter + 4), None)
            } else {
                (None, None)
            }
        } else if code == 4 {
            let reg: usize = get_x(input) as usize;
            let val = get_constant(input);
            if self.registers[reg] != val {
                (Some(self.program_counter + 4), None)
            } else {
                (None, None)
            }
        } else if code == 5 {
            let reg1: usize = get_x(input) as usize;
            let reg2: usize = get_y(input) as usize;
            if self.registers[reg1] == self.registers[reg2] {
                (Some(self.program_counter + 4), None)
            } else {
                (None, None)
            }
        } else if code == 6 {
            let reg: usize = get_x(input) as usize;
            let val = get_constant(input);
            self.set_register(reg, val);
            (None, None)
        } else if code == 7 {
            let reg: usize = get_x(input) as usize;
            let addr = get_constant(input);
            let v = self.registers[reg] + addr;
            self.set_register(reg, v);
            (None, None)
        } else if code == 8 {
            let reg1: usize = get_x(input) as usize;
            let reg2: usize = get_y(input) as usize;
            let case = get_4_bit_constant(input);
            self.execute_arith(reg1, reg2, case);
            (None, None)
        } else if code == 9 {
            let reg1: usize = get_x(input) as usize;
            let reg2: usize = get_y(input) as usize;
            if self.registers[reg1] != self.registers[reg2] {
                (Some(self.program_counter + 4), None)
            } else {
                (None, None)
            }
        } else if code == 10 {
            self.address_register = get_address(input);
            (None, None)
        } else if code == 11 {
            (Some((self.address_register + (self.registers[0] as u16)) as usize), None)
        } else if code == 12 {
            let reg1: usize = get_x(input) as usize;
            let con = get_constant(input);
            let v = lsfr(self.cycle_count) & con;
            self.set_register(reg1, v);
            (None, None)
        } else if code == 13 {
            let reg1: usize = get_x(input) as usize;
            let reg2: usize = get_y(input) as usize;
            let con = get_4_bit_constant(input);
            self.execute_draw(reg1, reg2, con);
            (None, None)
        } else if code == 14 {
            let op = get_4_bit_constant(input);
            let reg1: usize = get_x(input) as usize;
            if op == 1 {
                if !self.input.is_set(self.registers[reg1] as usize) {
                    (Some(self.program_counter + 4), None)
                } else {
                    (None, None)
                }
            } else if op == 14 {
                if self.input.is_set(self.registers[reg1] as usize) {
                    (Some(self.program_counter + 4), None)
                } else {
                    (None, None)
                }
            } else {
                (None, None)
            }
        } else {
            let waits = get_constant(input) == 10 && !self.input.any_pressed();
            let pc = self.program_counter;
            self.execute_misc(input);
            if waits {
                (Some(pc), None)
            } else {
                (None, None)
            }
        }
    }

    /// Runs one cycle: fetches the instruction at the program counter,
    /// executes it, moves the program counter and counts the cycle. The result
    /// is the unknown instruction that the machine reports, if any.
    pub fn step(&mut self) -> (notice: Option<u16>)
        requires
            old(self).wf(),
            can_step(old(self)@),
        ensures
            final(self).wf(),
            final(self)@ == stepped(old(self)@),
            notice == notice_of(fetched(old(self)@)),
    {
        let op = self.get_op(self.program_counter);
        let (jump, notice) = self.execute(op);
        self.update_program_counter(jump);
        self.cycle_count = self.cycle_count.wrapping_add(1);
        notice
    }

    /// The value of register `V{i}`.
    pub fn register(&self, i: usize) -> (r: u8)
        requires
            self.wf(),
            i < REGISTER_COUNT,
        ensures
            r == self@.registers[i as int],
    {
        self.registers[i]
    }

    /// The address register `I`.
    pub fn address_register(&self) -> (r: u16)
        ensures
            r == self@.index,
    {
        self.address_register
    }

    /// The address of the next instruction.
    pub fn program_counter(&self) -> (r: usize)
        ensures
            r == self@.pc,
    {
        self.program_counter
    }

    /// The delay timer.
    pub fn delay_timer(&self) -> (r: u8)
        ensures
            r == self@.delay,
    {
        self.delay_timer
    }

    /// The sound timer.
    pub fn sound_timer(&self) -> (r: u8)
        ensures
            r == self@.sound,
    {
        self.sound_timer
    }

    /// The number of cycles run, modulo 256.
    pub fn cycle_count(&self) -> (r: u8)
        ensures
            r == self@.cycle,
    {
        self.cycle_count
    }

    /// The memory of the machine.
    pub fn memory(&self) -> (r: &Memory)
        ensures
            r@ == self@.memory,
    {
        &self.memory
    }

    /// The display of the machine.
    pub fn display(&self) -> (r: &Screen)
        ensures
            r@ == self@.pixels,
    {
        &self.display
    }

    /// Marks key `key` of the keypad as pressed.
    pub fn press_key(&mut self, key: usize)
        requires
            old(self).wf(),
            key < KEY_COUNT,
        ensures
            final(self).wf(),
            final(self)@ == (Machine { keys: old(self)@.keys.update(key as int, true), ..old(self)@ }),
    {
        self.input.set(key);
    }
}

} // verus!
