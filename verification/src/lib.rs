//! A declarative engine for cellular automata: coordinates and bounds,
//! neighbourhoods, transition rules and the per-tick runtime.

pub mod datatypes;
pub mod lang;
pub mod render;
pub mod runtime;
