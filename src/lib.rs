//! An interpreter for the Universal Machine: eight word registers, a program
//! counter, and a store of word segments addressed by 32-bit identifiers.
//!
//! The semantics of every operation is stated over the ghost model in
//! [`state`]; the executable machine in [`universal_machine`] and the handlers
//! in [`register`] are proved to follow it, and [`rumdis`] decodes and
//! dispatches one instruction word at a time; [`rumload`] reads a
//! program image into words.
pub mod state;
pub mod universal_machine;
pub mod register;
pub mod rumdis;
pub mod rumload;
pub mod laws;
