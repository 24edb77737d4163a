# chip8

A CHIP-8 emulator core written in Verus.

- `src/machine.rs` is the mathematical model: the machine state (`Machine`), what each
  instruction does to it (`execute`), when an instruction stays inside the machine
  (`executable`), and one cycle (`cycle`).
- `src/cpu.rs`, `src/memory.rs`, `src/display.rs` hold the registers, RAM and screen,
  each viewed as part of the model.
- `src/emulator.rs` is the executable emulator, proved to follow the model
  instruction by instruction.
- `src/keypad.rs` maps host key codes to the sixteen-key keypad.
- `src/laws.rs` states and proves properties that span instructions: call and return,
  drawing twice, storing and loading registers, the font, arithmetic flags.
- `app/` is the SDL front end: window, keyboard events, timing and printing.
