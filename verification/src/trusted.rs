//! Declarations of the outside items this library relies on.
//!
//! Nothing in this file is proved: each contract restates what the named
//! outside item documents, and the proofs elsewhere rest on it.

use arboard::Error as ClipboardFailure;
use rand::rngs::OsRng;
use rand::seq::IteratorRandom;
use vstd::prelude::*;

verus! {

/// `rand::rngs::OsRng`, the random number generator backed by the operating
/// system's entropy source. It is a handle without contents.
#[verifier::external_type_specification]
#[verifier::external_body]
pub struct ExOsRng(OsRng);

/// `arboard::Error`, the failure reported by a clipboard operation.
#[verifier::external_type_specification]
#[verifier::external_body]
pub struct ExClipboardFailure(ClipboardFailure);

/// `nix::errno::Errno`, the error number reported by a failed system call.
#[verifier::external_type_specification]
#[verifier::external_body]
pub struct ExErrno(nix::errno::Errno);

/// `String::push`: appends one character at the end of the string.
pub assume_specification[ String::push ](s: &mut String, ch: char)
    ensures
        final(s)@ == old(s)@.push(ch),
;

/// `rand::seq::IteratorRandom::choose` over the elements of `symbols`, drawing from `rng`.
///
/// Claimed: the call returns `None` if and only if `symbols` is empty, and
/// otherwise one of its elements. Which element is left open: it depends on
/// the entropy source. Nothing is claimed of how likely each element is.
///
/// `OsRng` panics when the operating system fails to supply entropy. No
/// argument brings that about or prevents it; such a failure ends the run.
#[verifier::external_body]
pub(crate) fn choose_symbol(symbols: &Vec<char>, rng: &mut OsRng) -> (picked: Option<char>)
    ensures
        picked is None <==> symbols@.len() == 0,
        picked matches Some(c) ==> symbols@.contains(c),
{
    symbols.iter().choose(rng).copied()
}

} // verus!
