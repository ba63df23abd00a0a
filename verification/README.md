# chip8

A CHIP-8 virtual machine whose instructions are proved against a mathematical
model with Verus.

- `src/state.rs`: the model. `CpuState` is the machine as mathematical values;
  `decode` tells instructions apart, `apply` says what each one does,
  `can_apply` when it runs to its end, and `step` what one cycle does.
- `src/cpu.rs`: the machine itself (`Cpu`), whose view is a `CpuState`; each
  instruction, `dispatch_operation` and `tick` are proved to do what the model
  says.
- `src/stack.rs`, `src/pc.rs`, `src/display.rs`, `src/keypad.rs`: the call
  stack, the program counter, the screen (and its text rendering) and the
  keypad.
- `src/laws.rs`: properties of the machine that span instructions and cycles.
- `app/main.rs`: the terminal front end (file reading, keyboard, drawing).
