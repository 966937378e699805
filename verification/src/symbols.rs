//! Symbols manipulations.

use crate::ascending::{
    ascending, lemma_ascending_distinct, lemma_ascending_push, lemma_ascending_unique,
};
use crate::trusted::choose_symbol;
use rand::rngs::OsRng;
use vstd::prelude::*;
use vstd::string::StringExecFns;

verus! {

/// The latin uppercase symbols, `A` to `Z`.
pub open spec fn latin_upper_symbols() -> Set<char> {
    Set::new(|c: char| 'A' <= c && c <= 'Z')
}

/// The latin lowercase symbols, `a` to `z`.
pub open spec fn latin_lower_symbols() -> Set<char> {
    Set::new(|c: char| 'a' <= c && c <= 'z')
}

/// The digits, `0` to `9`.
pub open spec fn digits_symbols() -> Set<char> {
    Set::new(|c: char| '0' <= c && c <= '9')
}

/// The special symbols: the punctuation of ASCII, which is every printable
/// ASCII character but the space, the letters and the digits.
pub open spec fn special_symbols() -> Set<char> {
    Set::new(
        |c: char|
            ('!' <= c && c <= '/') || (':' <= c && c <= '@') || ('[' <= c && c <= '`') || ('{' <= c
                && c <= '~'),
    )
}

/// A non-empty set of symbols.
///
/// The members are kept in ascending code point order, each once, so that a
/// set of characters has exactly one representation.
#[derive(Debug)]
pub struct SymbolsSet {
    inner: Vec<char>,
}

/// Unable to parse a [`SymbolsSet`] from a string.
#[derive(Debug)]
pub struct SymbolsSetParseError {}

impl SymbolsSetParseError {
    /// Returns the line that describes the error to the user.
    pub fn message(&self) -> (text: String)
        ensures
            text@ == "Symbols set can't be empty"@,
    {
        String::from_str("Symbols set can't be empty")
    }
}

impl View for SymbolsSet {
    type V = Set<char>;

    /// The members of the set.
    closed spec fn view(&self) -> Set<char> {
        self.inner@.to_set()
    }
}

/// Appends the ASCII characters from `lo` to `hi`, both included, to `inner`.
fn push_ascii_range(inner: &mut Vec<char>, lo: u8, hi: u8)
    requires
        lo <= hi < 128,
        ascending(old(inner)@),
        forall|i: int| 0 <= i < old(inner)@.len() ==> (old(inner)@[i] as int) < lo,
    ensures
        ascending(final(inner)@),
        final(inner)@.len() == old(inner)@.len() + (hi - lo + 1),
        final(inner)@.to_set() == old(inner)@.to_set().union(
            Set::new(|c: char| lo as int <= c as int && c as int <= hi as int),
        ),
        forall|i: int| 0 <= i < final(inner)@.len() ==> final(inner)@[i] as int <= hi,
{
    let ghost before = inner@;
    let mut b: u8 = lo;
    while b <= hi
        invariant
            lo <= b <= hi + 1,
            hi < 128,
            ascending(inner@),
            inner@.len() == before.len() + (b - lo),
            forall|i: int| 0 <= i < inner@.len() ==> (inner@[i] as int) < b,
            inner@.to_set() == before.to_set().union(
                Set::new(|c: char| lo as int <= c as int && (c as int) < b as int),
            ),
        decreases hi + 1 - b,
    {
        let c = b as char;
        proof {
            lemma_ascending_push(inner@, c);
            assert(inner@.push(c).to_set() =~= before.to_set().union(
                Set::new(|c: char| lo as int <= c as int && (c as int) < b as int + 1),
            ));
        }
        inner.push(c);
        b = b + 1;
    }
}

/// The first position of `inner` whose element is not below `c`.
fn lower_bound(inner: &Vec<char>, c: char) -> (at: usize)
    requires
        ascending(inner@),
    ensures
        at <= inner@.len(),
        forall|i: int| 0 <= i < at ==> inner@[i] < c,
        forall|i: int| at <= i < inner@.len() ==> c <= inner@[i],
{
    let mut lo: usize = 0;
    let mut hi: usize = inner.len();
    while lo < hi
        invariant
            lo <= hi <= inner@.len(),
            ascending(inner@),
            forall|i: int| 0 <= i < lo ==> inner@[i] < c,
            forall|i: int| hi <= i < inner@.len() ==> c <= inner@[i],
        decreases hi - lo,
    {
        let mid: usize = lo + (hi - lo) / 2;
        if inner[mid] < c {
            lo = mid + 1;
        } else {
            hi = mid;
        }
    }
    lo
}

/// Whether `c` is an element of `inner`.
fn holds(inner: &Vec<char>, c: char) -> (found: bool)
    requires
        ascending(inner@),
    ensures
        found == inner@.contains(c),
{
    let at = lower_bound(inner, c);
    if at < inner.len() && inner[at] == c {
        true
    } else {
        proof {
            if inner@.contains(c) {
                let k: int = choose|k: int| 0 <= k < inner@.len() && inner@[k] == c;
                if k > at {
                    assert(inner@[at as int] < inner@[k]);
                }
            }
        }
        false
    }
}

/// Puts `c` at its place in `inner`, unless it is there already.
fn insert_symbol(inner: &mut Vec<char>, c: char)
    requires
        ascending(old(inner)@),
    ensures
        ascending(final(inner)@),
        final(inner)@.to_set() == old(inner)@.to_set().insert(c),
{
    let ghost before = inner@;
    let at = lower_bound(inner, c);
    if at < inner.len() && inner[at] == c {
        assert(before.to_set().insert(c) =~= before.to_set());
    } else {
        inner.insert(at, c);
        proof {
            let after = inner@;
            assert(after == before.insert(at as int, c));
            assert forall|i: int, j: int| 0 <= i < j < after.len() implies after[i] < after[j] by {
                if j < at {
                } else if j == at {
                } else if i < at {
                    assert(before[i] < before[j - 1]);
                } else if i == at {
                    if j - 1 > at {
                        assert(before[at as int] < before[j - 1]);
                    }
                } else {
                    assert(before[i - 1] < before[j - 1]);
                }
            }
            assert forall|x: char| after.to_set().contains(x) <==> before.to_set().insert(
                c,
            ).contains(x) by {
                if after.contains(x) {
                    let k: int = choose|k: int| 0 <= k < after.len() && after[k] == x;
                    if k < at {
                        assert(before[k] == x);
                    } else if k > at {
                        assert(before[k - 1] == x);
                    }
                }
                if before.contains(x) {
                    let k: int = choose|k: int| 0 <= k < before.len() && before[k] == x;
                    if k < at {
                        assert(after[k] == x);
                    } else {
                        assert(after[k + 1] == x);
                    }
                }
                if x == c {
                    assert(after[at as int] == c);
                }
            }
            assert(after.to_set() =~= before.to_set().insert(c));
        }
    }
}

impl SymbolsSet {
    /// What holds of every set: it has a member, and its members stand in
    /// ascending code point order.
    #[verifier::type_invariant]
    pub closed spec fn wf(self) -> bool {
        self.inner@.len() > 0 && ascending(self.inner@)
    }

    /// The canonical listing: the members in ascending code point order.
    pub closed spec fn listing(self) -> Seq<char> {
        self.inner@
    }

    /// The listing of a set is ascending and holds exactly the members, so a
    /// set is finite, has as many members as its listing is long, and is not empty.
    pub proof fn lemma_listing(self)
        requires
            self.wf(),
        ensures
            ascending(self.listing()),
            self.listing().to_set() == self@,
            self@.finite(),
            self@.len() == self.listing().len(),
            self@.len() > 0,
    {
        lemma_ascending_distinct(self.inner@);
    }

    /// The listing of a set is the one ascending sequence of its members.
    pub proof fn lemma_listing_is(self, members: Seq<char>)
        requires
            self.wf(),
            ascending(members),
            members.to_set() == self@,
        ensures
            self.listing() == members,
    {
        lemma_ascending_unique(self.inner@, members);
    }

    /// Returns a set of latin uppercase symbols.
    pub fn latin_upper() -> (set: Self)
        ensures
            set@ == latin_upper_symbols(),
            set@.len() == 26,
    {
        let mut inner: Vec<char> = Vec::new();
        push_ascii_range(&mut inner, 0x41, 0x5a);
        proof {
            lemma_ascending_distinct(inner@);
            assert(inner@.to_set() =~= latin_upper_symbols());
        }
        SymbolsSet { inner }
    }

    /// Returns a set of latin lowercase symbols.
    pub fn latin_lower() -> (set: Self)
        ensures
            set@ == latin_lower_symbols(),
            set@.len() == 26,
    {
        let mut inner: Vec<char> = Vec::new();
        push_ascii_range(&mut inner, 0x61, 0x7a);
        proof {
            lemma_ascending_distinct(inner@);
            assert(inner@.to_set() =~= latin_lower_symbols());
        }
        SymbolsSet { inner }
    }

    /// Returns a set of digits symbols.
    pub fn digits() -> (set: Self)
        ensures
            set@ == digits_symbols(),
            set@.len() == 10,
    {
        let mut inner: Vec<char> = Vec::new();
        push_ascii_range(&mut inner, 0x30, 0x39);
        proof {
            lemma_ascending_distinct(inner@);
            assert(inner@.to_set() =~= digits_symbols());
        }
        SymbolsSet { inner }
    }

    /// Returns a set of special symbols.
    pub fn special() -> (set: Self)
        ensures
            set@ == special_symbols(),
            set@.len() == 32,
    {
        let mut inner: Vec<char> = Vec::new();
        push_ascii_range(&mut inner, 0x21, 0x2f);
        push_ascii_range(&mut inner, 0x3a, 0x40);
        push_ascii_range(&mut inner, 0x5b, 0x60);
        push_ascii_range(&mut inner, 0x7b, 0x7e);
        proof {
            lemma_ascending_distinct(inner@);
            assert(inner@.to_set() =~= special_symbols());
        }
        SymbolsSet { inner }
    }

    /// Returns the set of the symbols in `list`.
    pub fn from<const N: usize>(list: [char; N]) -> (set: Self)
        requires
            N > 0,
        ensures
            set@ == list@.to_set(),
    {
        let mut inner: Vec<char> = Vec::new();
        let mut i: usize = 0;
        while i < N
            invariant
                i <= N,
                N == list@.len(),
                ascending(inner@),
                inner@.to_set() == list@.subrange(0, i as int).to_set(),
                i > 0 ==> inner@.len() > 0,
            decreases N - i,
        {
            let c = list[i];
            insert_symbol(&mut inner, c);
            proof {
                assert(list@.subrange(0, i + 1) =~= list@.subrange(0, i as int).push(c));
                list@.subrange(0, i as int).lemma_push_to_set_commute(c);
                assert(inner@.to_set().contains(c));
            }
            i = i + 1;
        }
        proof {
            assert(list@.subrange(0, N as int) =~= list@);
        }
        SymbolsSet { inner }
    }

    /// Returns the set of the distinct characters of `s`, if there is any.
    pub fn from_str(s: &str) -> (parsed: Result<Self, SymbolsSetParseError>)
        ensures
            parsed is Ok <==> s@.len() > 0,
            parsed matches Ok(set) ==> set@ == s@.to_set(),
    {
        let mut inner: Vec<char> = Vec::new();
        for c in it: s.chars()
            invariant
                it.seq() == s@,
                ascending(inner@),
                inner@.to_set() == s@.subrange(0, it.index() as int).to_set(),
        {
            insert_symbol(&mut inner, c);
            proof {
                let n: int = it.index() as int;
                assert(s@.subrange(0, n + 1) =~= s@.subrange(0, n).push(c));
                s@.subrange(0, n).lemma_push_to_set_commute(c);
            }
        }
        proof {
            assert(s@.subrange(0, s@.len() as int) =~= s@);
            if s@.len() > 0 {
                assert(s@.to_set().contains(s@[0]));
                assert(inner@.contains(s@[0]));
            } else {
                if inner@.len() > 0 {
                    assert(inner@.to_set().contains(inner@[0]));
                }
            }
        }
        if inner.len() == 0 {
            Err(SymbolsSetParseError {  })
        } else {
            Ok(SymbolsSet { inner })
        }
    }

    /// Subtracts another set from the current.
    ///
    /// Returns [`None`] if the result is an empty set.
    pub fn subtract(&self, other: &SymbolsSet) -> (rest: Option<Self>)
        ensures
            rest is None <==> self@.difference(other@).is_empty(),
            rest is None <==> self@.subset_of(other@),
            rest matches Some(set) ==> set@ == self@.difference(other@),
    {
        proof {
            use_type_invariant(self);
            use_type_invariant(other);
        }
        let mut inner: Vec<char> = Vec::new();
        let mut i: usize = 0;
        while i < self.inner.len()
            invariant
                i <= self.inner@.len(),
                ascending(self.inner@),
                ascending(other.inner@),
                ascending(inner@),
                forall|k: int| 0 <= k < inner@.len() && i < self.inner@.len() ==> inner@[k]
                    < self.inner@[i as int],
                inner@.to_set() == self.inner@.subrange(0, i as int).to_set().difference(
                    other.inner@.to_set(),
                ),
            decreases self.inner@.len() - i,
        {
            let c = self.inner[i];
            let ghost seen = self.inner@.subrange(0, i as int);
            proof {
                assert(self.inner@.subrange(0, i + 1) =~= seen.push(c));
                seen.lemma_push_to_set_commute(c);
                if i + 1 < self.inner@.len() {
                    assert(self.inner@[i as int] < self.inner@[i + 1]);
                }
            }
            if !holds(&other.inner, c) {
                proof {
                    lemma_ascending_push(inner@, c);
                    assert(inner@.push(c).to_set() =~= seen.push(c).to_set().difference(
                        other.inner@.to_set(),
                    ));
                }
                inner.push(c);
            } else {
                proof {
                    assert(inner@.to_set() =~= seen.push(c).to_set().difference(
                        other.inner@.to_set(),
                    ));
                }
            }
            i = i + 1;
        }
        proof {
            assert(self.inner@.subrange(0, self.inner@.len() as int) =~= self.inner@);
            if inner@.len() > 0 {
                assert(inner@.to_set().contains(inner@[0]));
            } else {
                assert(inner@.to_set() =~= Set::<char>::empty());
                assert forall|c: char| self@.contains(c) implies other@.contains(c) by {
                    assert(!self@.difference(other@).contains(c));
                }
            }
        }
        if inner.len() == 0 {
            None
        } else {
            Some(SymbolsSet { inner })
        }
    }

    /// Adds another set to the current.
    pub fn add(&self, other: &SymbolsSet) -> (sum: Self)
        ensures
            sum@ == self@.union(other@),
            !sum@.is_empty(),
    {
        proof {
            use_type_invariant(self);
            use_type_invariant(other);
        }
        let a = &self.inner;
        let b = &other.inner;
        let mut inner: Vec<char> = Vec::new();
        let mut i: usize = 0;
        let mut j: usize = 0;
        while i < a.len() || j < b.len()
            invariant
                i <= a@.len(),
                j <= b@.len(),
                ascending(a@),
                ascending(b@),
                ascending(inner@),
                forall|k: int| 0 <= k < inner@.len() && i < a@.len() ==> inner@[k] < a@[i as int],
                forall|k: int| 0 <= k < inner@.len() && j < b@.len() ==> inner@[k] < b@[j as int],
                inner@.to_set() == a@.subrange(0, i as int).to_set().union(
                    b@.subrange(0, j as int).to_set(),
                ),
                i + j > 0 ==> inner@.len() > 0,
            decreases (a@.len() - i) + (b@.len() - j),
        {
            let ghost seen_a = a@.subrange(0, i as int);
            let ghost seen_b = b@.subrange(0, j as int);
            proof {
                if i < a@.len() {
                    assert(a@.subrange(0, i + 1) =~= seen_a.push(a@[i as int]));
                    seen_a.lemma_push_to_set_commute(a@[i as int]);
                    if i + 1 < a@.len() {
                        assert(a@[i as int] < a@[i + 1]);
                    }
                }
                if j < b@.len() {
                    assert(b@.subrange(0, j + 1) =~= seen_b.push(b@[j as int]));
                    seen_b.lemma_push_to_set_commute(b@[j as int]);
                    if j + 1 < b@.len() {
                        assert(b@[j as int] < b@[j + 1]);
                    }
                }
            }
            if j >= b.len() || (i < a.len() && a[i] < b[j]) {
                let c = a[i];
                proof {
                    lemma_ascending_push(inner@, c);
                    assert(inner@.push(c).to_set() =~= seen_a.push(c).to_set().union(
                        seen_b.to_set(),
                    ));
                }
                inner.push(c);
                i = i + 1;
            } else if i >= a.len() || b[j] < a[i] {
                let c = b[j];
                proof {
                    lemma_ascending_push(inner@, c);
                    assert(inner@.push(c).to_set() =~= seen_a.to_set().union(
                        seen_b.push(c).to_set(),
                    ));
                }
                inner.push(c);
                j = j + 1;
            } else {
                let c = a[i];
                proof {
                    lemma_ascending_push(inner@, c);
                    assert(inner@.push(c).to_set() =~= seen_a.push(c).to_set().union(
                        seen_b.push(c).to_set(),
                    ));
                }
                inner.push(c);
                i = i + 1;
                j = j + 1;
            }
        }
        proof {
            assert(a@.subrange(0, a@.len() as int) =~= a@);
            assert(b@.subrange(0, b@.len() as int) =~= b@);
            assert(inner@.to_set().contains(inner@[0]));
        }
        SymbolsSet { inner }
    }

    /// Returns the amount of symbols.
    pub fn len(&self) -> (amount: usize)
        ensures
            amount == self@.len(),
            amount > 0,
    {
        proof {
            use_type_invariant(self);
            lemma_ascending_distinct(self.inner@);
        }
        self.inner.len()
    }

    /// Always returns false, since the set is never empty.
    #[must_use]
    pub fn is_empty(&self) -> (empty: bool)
        ensures
            !empty,
            empty == self@.is_empty(),
    {
        proof {
            use_type_invariant(self);
            assert(self.inner@.to_set().contains(self.inner@[0]));
        }
        false
    }

    /// Whether `c` is a member of the set.
    pub fn contains(&self, c: char) -> (found: bool)
        ensures
            found == self@.contains(c),
    {
        proof {
            use_type_invariant(self);
        }
        holds(&self.inner, c)
    }

    /// Draws one member of the set from the operating system's entropy source.
    pub fn sample(&self, rng: &mut OsRng) -> (symbol: char)
        ensures
            self@.contains(symbol),
    {
        proof {
            use_type_invariant(self);
        }
        match choose_symbol(&self.inner, rng) {
            Some(symbol) => symbol,
            None => {
                // Not reached: the set has a member.
                assert(false);
                self.inner[0]
            },
        }
    }

    /// Returns the members in ascending code point order.
    pub fn to_vec(&self) -> (members: Vec<char>)
        ensures
            members@ == self.listing(),
    {
        self.inner.clone()
    }

    /// Returns the members in ascending code point order, one after the other.
    pub fn to_string(&self) -> (text: String)
        ensures
            text@ == self.listing(),
    {
        let mut text = String::new();
        let mut i: usize = 0;
        while i < self.inner.len()
            invariant
                i <= self.inner@.len(),
                text@ == self.inner@.subrange(0, i as int),
            decreases self.inner@.len() - i,
        {
            text.push(self.inner[i]);
            proof {
                assert(self.inner@.subrange(0, i + 1) =~= self.inner@.subrange(0, i as int).push(
                    self.inner@[i as int],
                ));
            }
            i = i + 1;
        }
        proof {
            assert(self.inner@.subrange(0, self.inner@.len() as int) =~= self.inner@);
        }
        text
    }
}

impl Clone for SymbolsSet {
    fn clone(&self) -> (copy: Self)
        ensures
            copy@ == self@,
            copy.listing() == self.listing(),
    {
        proof {
            use_type_invariant(self);
        }
        SymbolsSet { inner: self.inner.clone() }
    }
}

impl std::str::FromStr for SymbolsSet {
    type Err = SymbolsSetParseError;

    fn from_str(s: &str) -> (parsed: Result<Self, Self::Err>)
        ensures
            parsed is Ok <==> s@.len() > 0,
            parsed matches Ok(set) ==> set@ == s@.to_set(),
    {
        SymbolsSet::from_str(s)
    }
}

/// Adding is commutative: the sets that `a.add(b)` and `b.add(a)` return have
/// the same members, at least one, and the same listing.
pub proof fn lemma_add_commutes(a: SymbolsSet, b: SymbolsSet, ab: SymbolsSet, ba: SymbolsSet)
    requires
        a.wf(),
        b.wf(),
        ab.wf(),
        ba.wf(),
        ab@ == a@.union(b@),
        ba@ == b@.union(a@),
    ensures
        ab@ == ba@,
        ab.listing() == ba.listing(),
        !ab@.is_empty(),
{
    assert(a@.union(b@) =~= b@.union(a@));
    lemma_members_determine_listing(ab, ba);
    ab.lemma_listing();
}

/// Nothing is left of a set when a set with the same members is subtracted
/// from it, so that `subtract` returns `None`.
pub proof fn lemma_subtract_equal(a: SymbolsSet, b: SymbolsSet)
    requires
        a.wf(),
        b.wf(),
        a@ == b@,
    ensures
        a@.difference(b@).is_empty(),
        a@.subset_of(b@),
{
    assert(a@.difference(b@) =~= Set::<char>::empty());
}

/// Two sets with the same members have the same listing: how a set was made
/// does not show in the order of its members.
pub proof fn lemma_members_determine_listing(a: SymbolsSet, b: SymbolsSet)
    requires
        a.wf(),
        b.wf(),
        a@ == b@,
    ensures
        a.listing() == b.listing(),
{
    lemma_ascending_unique(a.inner@, b.inner@);
}

} // verus!
