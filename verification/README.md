# chip8

A CHIP-8 interpreter core written in Verus.

- `src/machine.rs` — the abstract machine (`Machine`) and the meaning of every
  instruction as spec functions, plus `Effect`, what an instruction asks of
  the display and keypad.
- `src/state.rs` — the executable interpreter `State`, each operation proved
  against `Machine`.
- `src/keypad.rs` — which keyboard key is which keypad key.
- `src/laws.rs` — properties that relate instructions to one another (a
  sprite drawn twice is erased, a call is undone by a return, ...).
- `src/random.rs` — the random byte that CXNN draws.
- `app/` — the program: reads the ROM, drives an SDL window and keyboard.
