# chip8

A CHIP-8 interpreter whose core is verified with Verus.

- `src/` is the verified library: the machine state (`cpu`), the
  instruction semantics as a mathematical model (`semantics`), the
  fetch/decode/execute step (`execute`, `draw`), the keypad layout and
  frame geometry of the front end (`display`), the timers (`timers`), the
  random source of `Cxnn` (`random`) and properties proved of the model
  (`laws`).
- `app/` is the program around it: it reads the ROM file, opens the SDL2
  window, runs the timer and screen threads, and drives the machine one
  step every two milliseconds.

Run it with `chip8 ROM`.
