pub mod collector;
pub mod connector;
pub mod core_errors;
pub mod cpu;
pub mod mario_core;
pub mod mem;
pub mod registry;
pub mod storage;
pub mod text;
