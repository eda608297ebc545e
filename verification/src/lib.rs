pub mod args;
pub mod chip;
pub mod instructions;
pub mod laws;
pub mod model;

pub use chip::Chip8;
pub use model::VmError;
