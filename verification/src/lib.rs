//! A CHIP-8 interpreter core: the machine state, the instruction set, the
//! keypad layout, the screen's pixel geometry and the timers, each with
//! its contract.
pub mod cpu;
pub mod display;
pub mod draw;
pub mod execute;
pub mod random;
pub mod semantics;
pub mod timers;
pub mod laws;
