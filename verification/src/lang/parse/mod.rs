//! Reading program texts.

use vstd::prelude::*;

pub mod blocks;
pub mod grammar;
pub mod lexer;

verus! {

/// Why a program text or a parsed program was rejected.
#[derive(Debug, Clone, Copy, PartialEq, Eq, Structural)]
pub enum Error {
    /// The text does not follow the grammar.
    SyntaxError,
    /// An integer literal does not fit the machine integer it is read into.
    UnrepresentableNumber,
    /// One of the five blocks appears more than once.
    MultipleDefinitionsForBlock,
    /// One of the five blocks does not appear.
    MissingBlock,
    /// More than one state is marked as the default.
    MultipleDefaultStates,
    /// A rule or a static boundary names a state that was not declared.
    UnknownState,
    /// An extent of the environment is zero or exceeds the coordinate range.
    InvalidExtent,
    /// The neighbourhood holds a rule that cannot be applied in the
    /// environment: a circle, a compound without children, or an axis that
    /// the environment lacks.
    UnsupportedNeighborhood,
    /// The boundary is infinite and no state is marked as the default.
    MissingDefaultState,
}


/// Reads a program: its five blocks, each exactly once and in any order.
/// Fails with the first error that the text gives rise to: a syntax
/// error, an unrepresentable number, a multiple definition of a block or
/// a missing block.
pub fn parse(s: &str) -> (r: Result<crate::lang::ProgramBuilder, Error>)
    ensures
        match r {
            Ok(builder) => crate::lang::parse::grammar::program(s@) == Ok::<
                crate::lang::parse::grammar::ProgramModel,
                Error,
            >(builder.model()) && builder.complete(),
            Err(e) => crate::lang::parse::grammar::program(s@) == Err::<
                crate::lang::parse::grammar::ProgramModel,
                Error,
            >(e),
        },
{
    crate::lang::parse::grammar::parse_program(s)
}

} // verus!
