pub mod boundary;
pub mod environment;
pub mod neighborhood;
pub mod rule;
pub mod state;
