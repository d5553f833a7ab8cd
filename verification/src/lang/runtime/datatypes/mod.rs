pub mod coords;
pub mod generation;
pub mod states;
