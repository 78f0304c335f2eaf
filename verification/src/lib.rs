pub mod audio;
pub mod config;
pub mod cpu;
pub mod display;
pub mod input;

pub use audio::AudioIntent;
pub use audio::BeepingState;
pub use config::ChipConfig;
pub use cpu::Chip8;
pub use cpu::Chip8Error;
pub use cpu::CpuState;
pub use cpu::Machine;
pub use display::Display;
pub use input::Input;
