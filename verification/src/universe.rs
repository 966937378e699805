//! The universe of symbols that a password is drawn from.

use crate::error::Error;
use crate::symbols::{
    digits_symbols, latin_lower_symbols, latin_upper_symbols, special_symbols, SymbolsSet,
};
use vstd::prelude::*;

verus! {

/// What the user asked for.
#[derive(Debug)]
pub struct Args {
    /// Turns off latin lowercase symbols.
    pub no_latin_lower: bool,
    /// Turns off latin uppercase symbols.
    pub no_latin_upper: bool,
    /// Turns off latin symbols.
    pub no_latin: bool,
    /// Turns off digits.
    pub no_digits: bool,
    /// Turns off special symbols.
    pub no_special: bool,
    /// Additional symbols to allow.
    pub allowed: Vec<SymbolsSet>,
    /// Symbols to deny. Takes precedence over everything allowed.
    pub disallowed: Vec<SymbolsSet>,
    /// Be verbose.
    pub verbose: bool,
    /// Copy the generated password to the clipboard instead of printing it.
    pub copy: bool,
    /// Length of the generated password, in unicode scalar values.
    pub length: u32,
}

/// The characters that are a member of at least one of `sets`.
pub open spec fn members_of(sets: Seq<SymbolsSet>) -> Set<char> {
    Set::new(|c: char| exists|i: int| 0 <= i < sets.len() && (#[trigger] sets[i])@.contains(c))
}

impl Args {
    /// Whether the latin uppercase symbols are in use.
    pub open spec fn latin_upper_enabled(self) -> bool {
        !self.no_latin && !self.no_latin_upper
    }

    /// Whether the latin lowercase symbols are in use.
    pub open spec fn latin_lower_enabled(self) -> bool {
        !self.no_latin && !self.no_latin_lower
    }

    /// The symbols of the categories that are in use.
    pub open spec fn base_symbols(self) -> Set<char> {
        Set::new(
            |c: char|
                {
                    ||| self.latin_upper_enabled() && latin_upper_symbols().contains(c)
                    ||| self.latin_lower_enabled() && latin_lower_symbols().contains(c)
                    ||| !self.no_digits && digits_symbols().contains(c)
                    ||| !self.no_special && special_symbols().contains(c)
                },
        )
    }

    /// The universe: the categories in use and everything allowed, less
    /// everything denied.
    pub open spec fn universe_symbols(self) -> Set<char> {
        self.base_symbols().union(members_of(self.allowed@)).difference(
            members_of(self.disallowed@),
        )
    }
}

/// What is denied is not in the universe, whatever else allows it.
pub proof fn lemma_denied_is_out(args: Args, n: int, c: char)
    requires
        0 <= n < args.disallowed@.len(),
        args.disallowed@[n]@.contains(c),
    ensures
        !args.universe_symbols().contains(c),
{
    assert(members_of(args.disallowed@).contains(c));
}

/// What is allowed and not denied is in the universe, whatever is switched off.
pub proof fn lemma_allowed_is_in(args: Args, n: int, c: char)
    requires
        0 <= n < args.allowed@.len(),
        args.allowed@[n]@.contains(c),
        !members_of(args.disallowed@).contains(c),
    ensures
        args.universe_symbols().contains(c),
{
    assert(members_of(args.allowed@).contains(c));
}

/// Turning off both cases of the latin symbols is turning off the latin symbols.
pub proof fn lemma_both_cases_off_is_latin_off(args: Args, other: Args)
    requires
        args.no_latin_lower && args.no_latin_upper,
        other.no_latin,
        other.no_digits == args.no_digits,
        other.no_special == args.no_special,
        other.allowed == args.allowed,
        other.disallowed == args.disallowed,
    ensures
        args.base_symbols() == other.base_symbols(),
        args.universe_symbols() == other.universe_symbols(),
{
    assert(args.base_symbols() =~= other.base_symbols());
}

/// Taking one more set into account adds its members.
pub proof fn lemma_members_of_next(sets: Seq<SymbolsSet>, n: int)
    requires
        0 <= n < sets.len(),
    ensures
        members_of(sets.take(n + 1)) == members_of(sets.take(n)).union(sets[n]@),
{
    let more = sets.take(n + 1);
    let less = sets.take(n);
    assert forall|c: char| members_of(more).contains(c) <==> members_of(less).union(
        sets[n]@,
    ).contains(c) by {
        if members_of(more).contains(c) {
            let i: int = choose|i: int| 0 <= i < more.len() && (#[trigger] more[i])@.contains(c);
            if i < n {
                assert(less[i]@.contains(c));
            }
        }
        if members_of(less).contains(c) {
            let i: int = choose|i: int| 0 <= i < less.len() && (#[trigger] less[i])@.contains(c);
            assert(more[i]@.contains(c));
        }
        if sets[n]@.contains(c) {
            assert(more[n]@.contains(c));
        }
    }
    assert(members_of(more) =~= members_of(less).union(sets[n]@));
}

/// Puts `another` into the accumulator: it becomes the accumulator where
/// there was none, and is added to it otherwise.
pub fn merge(maybe_set: &mut Option<SymbolsSet>, another: SymbolsSet)
    ensures
        *final(maybe_set) is Some,
        (*final(maybe_set))->0@ == match *old(maybe_set) {
            Some(set) => set@.union(another@),
            None => another@,
        },
{
    if let Some(set) = maybe_set {
        *set = set.add(&another);
    } else {
        *maybe_set = Some(another)
    }
}

/// Builds the universe of symbols that `args` describes.
///
/// The categories in use come first, then every allowed set in turn, then
/// every denied set is taken away in turn. The result is the universe of
/// `args` wherever that holds a symbol, and [`Error::EmptySet`] otherwise:
/// whether nothing was enabled or allowed, or a denied set took the last
/// symbol away.
pub fn universe(args: &Args) -> (built: Result<SymbolsSet, Error>)
    ensures
        built is Ok <==> !args.universe_symbols().is_empty(),
        built matches Ok(symbols) ==> symbols@ == args.universe_symbols(),
        built matches Err(error) ==> error is EmptySet,
{
    let ghost base = args.base_symbols();
    let mut maybe_set: Option<SymbolsSet> = None;
    if !args.no_latin && !args.no_latin_upper {
        merge(&mut maybe_set, SymbolsSet::latin_upper());
    }
    assert(maybe_set matches Some(set) ==> set@ =~= Set::new(
        |c: char| args.latin_upper_enabled() && latin_upper_symbols().contains(c),
    ));
    if !args.no_latin && !args.no_latin_lower {
        merge(&mut maybe_set, SymbolsSet::latin_lower());
    }
    assert(maybe_set matches Some(set) ==> set@ =~= Set::new(
        |c: char|
            {
                ||| args.latin_upper_enabled() && latin_upper_symbols().contains(c)
                ||| args.latin_lower_enabled() && latin_lower_symbols().contains(c)
            },
    ));
    if !args.no_digits {
        merge(&mut maybe_set, SymbolsSet::digits());
    }
    assert(maybe_set matches Some(set) ==> set@ =~= Set::new(
        |c: char|
            {
                ||| args.latin_upper_enabled() && latin_upper_symbols().contains(c)
                ||| args.latin_lower_enabled() && latin_lower_symbols().contains(c)
                ||| !args.no_digits && digits_symbols().contains(c)
            },
    ));
    if !args.no_special {
        merge(&mut maybe_set, SymbolsSet::special());
    }
    assert(maybe_set matches Some(set) ==> set@ =~= base);
    assert(maybe_set is None ==> base =~= Set::<char>::empty());

    let mut i: usize = 0;
    while i < args.allowed.len()
        invariant
            i <= args.allowed@.len(),
            maybe_set matches Some(set) ==> set@ == base.union(
                members_of(args.allowed@.take(i as int)),
            ),
            maybe_set is None ==> i == 0 && base == Set::<char>::empty(),
        decreases args.allowed@.len() - i,
    {
        proof {
            lemma_members_of_next(args.allowed@, i as int);
            assert(members_of(args.allowed@.take(0)) =~= Set::<char>::empty());
            assert(base.union(members_of(args.allowed@.take(i as int))).union(args.allowed@[i as int]@)
                =~= base.union(members_of(args.allowed@.take(i + 1))));
            if maybe_set is None {
                assert(args.allowed@[i as int]@ =~= base.union(
                    members_of(args.allowed@.take(i + 1)),
                ));
            }
        }
        merge(&mut maybe_set, args.allowed[i].clone());
        i = i + 1;
    }
    proof {
        assert(args.allowed@.take(args.allowed@.len() as int) =~= args.allowed@);
        assert(members_of(args.disallowed@.take(0)) =~= Set::<char>::empty());
    }
    let ghost gathered = base.union(members_of(args.allowed@));
    let mut symbols = match maybe_set {
        Some(set) => set,
        None => {
            proof {
                assert(members_of(args.allowed@) =~= Set::<char>::empty());
                assert(args.universe_symbols() =~= Set::<char>::empty());
            }
            return Err(Error::EmptySet);
        },
    };
    assert(symbols@.difference(members_of(args.disallowed@.take(0))) =~= symbols@);

    let mut j: usize = 0;
    while j < args.disallowed.len()
        invariant
            j <= args.disallowed@.len(),
            gathered == args.base_symbols().union(members_of(args.allowed@)),
            symbols@ == gathered.difference(members_of(args.disallowed@.take(j as int))),
        decreases args.disallowed@.len() - j,
    {
        proof {
            lemma_members_of_next(args.disallowed@, j as int);
            assert(gathered.difference(members_of(args.disallowed@.take(j as int))).difference(
                args.disallowed@[j as int]@,
            ) =~= gathered.difference(members_of(args.disallowed@.take(j + 1))));
        }
        match symbols.subtract(&args.disallowed[j]) {
            Some(rest) => {
                symbols = rest;
            },
            None => {
                proof {
                    let spent = gathered.difference(members_of(args.disallowed@.take(j + 1)));
                    assert forall|c: char| !args.universe_symbols().contains(c) by {
                        if args.universe_symbols().contains(c) {
                            assert(spent.contains(c)) by {
                                if members_of(args.disallowed@.take(j + 1)).contains(c) {
                                    let k: int = choose|k: int|
                                        0 <= k < args.disallowed@.take(j + 1).len() && (
                                        #[trigger] args.disallowed@.take(j + 1)[k])@.contains(c);
                                    assert(args.disallowed@[k]@.contains(c));
                                }
                            }
                        }
                    }
                    assert(args.universe_symbols() =~= Set::<char>::empty());
                }
                return Err(Error::EmptySet);
            },
        }
        j = j + 1;
    }
    proof {
        assert(args.disallowed@.take(args.disallowed@.len() as int) =~= args.disallowed@);
        use_type_invariant(&symbols);
        symbols.lemma_listing();
    }
    Ok(symbols)
}

} // verus!
