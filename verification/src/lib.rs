use vstd::prelude::*;

pub mod emulator;
pub mod font;
pub mod isa;
pub mod laws;
pub mod screen;
pub mod window;

pub use emulator::decode;
pub use emulator::Emulator;
pub use isa::Fault;
pub use isa::Instr;
pub use screen::Screen;
pub use window::Window;

verus! {

} // verus!
