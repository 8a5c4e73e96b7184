//! The instruction set and the machine that runs it.

pub mod instructions;
pub mod keycode;
pub mod proc;

pub use instructions::{Addr, Instruction, Val, Vx};
pub use keycode::Keycode;
pub use proc::{Machine, Proc, ProgramState, Rect};
