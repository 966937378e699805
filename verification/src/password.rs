//! Drawing a password from a universe of symbols.

use crate::symbols::SymbolsSet;
use rand::rngs::OsRng;
use vstd::prelude::*;

verus! {

/// Whether every character of `password` is a member of `symbols`.
pub open spec fn drawn_from(password: Seq<char>, symbols: Set<char>) -> bool {
    forall|i: int| 0 <= i < password.len() ==> symbols.contains(#[trigger] password[i])
}

/// Whether `password` is one character repeated.
pub open spec fn uniform(password: Seq<char>) -> bool {
    forall|i: int, j: int|
        0 <= i < password.len() && 0 <= j < password.len() ==> password[i] == password[j]
}

/// A set with one member has no two different members: whatever is drawn
/// from it, and however often, is that one symbol.
pub proof fn lemma_single_symbol(symbols: SymbolsSet, first: char, second: char)
    requires
        symbols.wf(),
        symbols@.len() == 1,
        symbols@.contains(first),
        symbols@.contains(second),
    ensures
        first == second,
{
    symbols.lemma_listing();
    if first != second {
        assert(symbols@.remove(first).len() == 0);
        assert(symbols@.remove(first).contains(second));
    }
}

/// Generates a password of `length` symbols, each drawn from `symbols` on
/// its own, with the operating system's entropy source behind `rng`.
pub fn generate(symbols: &SymbolsSet, length: u32, rng: &mut OsRng) -> (password: String)
    ensures
        password@.len() == length,
        drawn_from(password@, symbols@),
        symbols@.len() == 1 ==> uniform(password@),
{
    let mut password = String::new();
    let mut drawn: u32 = 0;
    while drawn < length
        invariant
            drawn <= length,
            password@.len() == drawn,
            drawn_from(password@, symbols@),
        decreases length - drawn,
    {
        let symbol = symbols.sample(rng);
        password.push(symbol);
        drawn = drawn + 1;
    }
    proof {
        if symbols@.len() == 1 {
            use_type_invariant(symbols);
            assert forall|i: int, j: int|
                0 <= i < password@.len() && 0 <= j < password@.len() implies password@[i]
                == password@[j] by {
                lemma_single_symbol(*symbols, password@[i], password@[j]);
            }
        }
    }
    password
}

} // verus!
