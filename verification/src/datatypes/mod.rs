pub mod coords;
pub mod ident;
pub mod neighborhood;
pub mod state;
