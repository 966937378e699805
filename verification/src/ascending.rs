//! Sequences of characters in strictly ascending code point order.
//!
//! Such a sequence is the canonical listing of a finite set of characters:
//! it holds every member once, and a set has exactly one such listing.

use vstd::prelude::*;

verus! {

/// Whether `s` lists its elements in strictly ascending code point order.
pub open spec fn ascending(s: Seq<char>) -> bool {
    forall|i: int, j: int| 0 <= i < j < s.len() ==> s[i] < s[j]
}

/// An ascending sequence holds no element twice, so it is as long as the set
/// of its elements is large.
pub proof fn lemma_ascending_distinct(s: Seq<char>)
    requires
        ascending(s),
    ensures
        s.no_duplicates(),
        s.to_set().finite(),
        s.to_set().len() == s.len(),
{
    assert(s.no_duplicates()) by {
        assert forall|i: int, j: int| 0 <= i < s.len() && 0 <= j < s.len() && i != j implies s[i]
            != s[j] by {
            if i < j {
                assert(s[i] < s[j]);
            } else {
                assert(s[j] < s[i]);
            }
        }
    }
    vstd::seq_lib::seq_to_set_is_finite(s);
    s.unique_seq_to_set();
}

/// Appending an element above all others keeps the order and adds that one member.
pub proof fn lemma_ascending_push(s: Seq<char>, c: char)
    requires
        ascending(s),
        forall|i: int| 0 <= i < s.len() ==> s[i] < c,
    ensures
        ascending(s.push(c)),
        s.push(c).to_set() == s.to_set().insert(c),
{
    let t = s.push(c);
    assert forall|x: char| t.to_set().contains(x) <==> s.to_set().insert(c).contains(x) by {
        if t.contains(x) {
            let k: int = choose|k: int| 0 <= k < t.len() && t[k] == x;
            if k < s.len() {
                assert(s[k] == x);
            }
        }
        if s.contains(x) {
            let k: int = choose|k: int| 0 <= k < s.len() && s[k] == x;
            assert(t[k] == x);
        }
        if x == c {
            assert(t[s.len() as int] == c);
        }
    }
    assert(t.to_set() =~= s.to_set().insert(c));
}

/// A set of characters has at most one ascending listing.
pub proof fn lemma_ascending_unique(a: Seq<char>, b: Seq<char>)
    requires
        ascending(a),
        ascending(b),
        a.to_set() == b.to_set(),
    ensures
        a == b,
    decreases a.len(),
{
    lemma_ascending_distinct(a);
    lemma_ascending_distinct(b);
    assert(a.len() == b.len());
    if a.len() > 0 {
        let la = a.last();
        let lb = b.last();
        assert(la == lb) by {
            assert(a.contains(la));
            assert(b.to_set().contains(la));
            assert(b.contains(la));
            let i: int = choose|i: int| 0 <= i < b.len() && b[i] == la;
            assert(b[i] <= lb);
            assert(b.contains(lb));
            assert(a.to_set().contains(lb));
            assert(a.contains(lb));
            let j: int = choose|j: int| 0 <= j < a.len() && a[j] == lb;
            assert(a[j] <= la);
        }
        let ra = a.drop_last();
        let rb = b.drop_last();
        assert(ascending(ra));
        assert(ascending(rb));
        assert forall|x: char| ra.to_set().contains(x) <==> rb.to_set().contains(x) by {
            if ra.contains(x) {
                let k: int = choose|k: int| 0 <= k < ra.len() && ra[k] == x;
                assert(a[k] == x);
                assert(a[k] < la);
                assert(a.contains(x));
                assert(b.to_set().contains(x));
                assert(b.contains(x));
                let m: int = choose|m: int| 0 <= m < b.len() && b[m] == x;
                assert(m < b.len() - 1);
                assert(rb[m] == x);
            }
            if rb.contains(x) {
                let k: int = choose|k: int| 0 <= k < rb.len() && rb[k] == x;
                assert(b[k] == x);
                assert(b[k] < lb);
                assert(b.contains(x));
                assert(a.to_set().contains(x));
                assert(a.contains(x));
                let m: int = choose|m: int| 0 <= m < a.len() && a[m] == x;
                assert(m < a.len() - 1);
                assert(ra[m] == x);
            }
        }
        assert(ra.to_set() =~= rb.to_set());
        lemma_ascending_unique(ra, rb);
        assert(a =~= ra.push(la));
        assert(b =~= rb.push(lb));
    } else {
        assert(a =~= b);
    }
}

} // verus!
