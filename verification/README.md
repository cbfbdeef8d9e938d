# chip8_vm

A CHIP-8 virtual machine whose behaviour is specified and proved with Verus.

- `src/decode.rs`: the fields of an instruction and the shift register used as random source.
- `src/memory.rs`, `src/screen.rs`, `src/input.rs`: memory, the 64 x 32 display and the keypad.
- `src/machine.rs`: the model of the machine state and of what every instruction does.
- `src/vm.rs`: the machine itself; `execute` runs one instruction, `step` one cycle.
- `src/laws.rs`: properties that relate several operations.
- `app/main.rs`: reads a program file and runs the machine on a terminal.
