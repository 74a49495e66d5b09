//! A CHIP-8 virtual machine: fetch, decode and execute one instruction per
//! step, over a state whose every change is stated in the contracts.
pub mod state;
pub mod vm;
pub mod laws;
