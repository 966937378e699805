//! The validated request for one password.

use crate::error::Error;
use crate::symbols::SymbolsSet;
use crate::universe::{universe, Args};
use vstd::prelude::*;

verus! {

/// What it takes to generate and deliver one password.
#[derive(Debug)]
pub struct Request {
    /// The universe to draw from.
    pub symbols: SymbolsSet,
    /// Length of the password, in unicode scalar values.
    pub length: u32,
    /// Whether the password goes to the clipboard instead of the standard output.
    pub copy: bool,
}

impl Request {
    /// Validates `args`: builds their universe and keeps length and delivery
    /// as given. Fails with [`Error::EmptySet`] exactly when the universe
    /// holds no symbol.
    pub fn new(args: &Args) -> (made: Result<Request, Error>)
        ensures
            made is Ok <==> !args.universe_symbols().is_empty(),
            made matches Ok(request) ==> {
                &&& request.symbols@ == args.universe_symbols()
                &&& request.length == args.length
                &&& request.copy == args.copy
            },
            made matches Err(error) ==> error is EmptySet,
    {
        match universe(args) {
            Ok(symbols) => Ok(Request { symbols, length: args.length, copy: args.copy }),
            Err(error) => Err(error),
        }
    }

    /// Whether the universe has exactly one symbol, so that the password can
    /// only be that symbol repeated. This deserves a warning, not a failure.
    pub fn has_single_symbol(&self) -> (single: bool)
        ensures
            single == (self.symbols@.len() == 1),
    {
        self.symbols.len() == 1
    }
}

} // verus!
