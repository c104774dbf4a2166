//! The order of keywords: bytewise, and bytewise after case folding.

use vstd::prelude::*;
use crate::xml::starts_at;

verus! {

/// The lower-case form of an ASCII letter; any other byte unchanged.
pub open spec fn fold_byte(b: u8) -> u8 {
    if 0x41 <= b <= 0x5a {
        (b + 0x20) as u8
    } else {
        b
    }
}

/// The case-folded form of a byte string.
pub open spec fn folded(s: Seq<u8>) -> Seq<u8> {
    Seq::new(s.len(), |i: int| fold_byte(s[i]))
}

/// Whether `a` comes before `b` in the lexicographic order of bytes, given
/// that the two agree before position `i`.
pub open spec fn before_from(a: Seq<u8>, b: Seq<u8>, i: int) -> bool
    decreases a.len() - i,
{
    if i < 0 || i >= b.len() {
        false
    } else if i >= a.len() {
        true
    } else if a[i] != b[i] {
        a[i] < b[i]
    } else {
        before_from(a, b, i + 1)
    }
}

/// Whether `a` comes before `b` in the lexicographic order of bytes.
pub open spec fn bytes_before(a: Seq<u8>, b: Seq<u8>) -> bool {
    before_from(a, b, 0)
}

/// Whether every key of `keys` comes before the keys that follow it.
pub open spec fn strictly_ascending(keys: Seq<Seq<u8>>) -> bool {
    forall|i: int, j: int|
        0 <= i < j < keys.len() ==> bytes_before(#[trigger] keys[i], #[trigger] keys[j])
}

/// Whether `a` does not come after `b` once the case of both is folded.
pub open spec fn fold_ordered(a: Seq<u8>, b: Seq<u8>) -> bool {
    !bytes_before(folded(b), folded(a))
}

/// No byte string comes before itself.
pub proof fn lemma_before_irreflexive(a: Seq<u8>, i: int)
    requires
        0 <= i,
    ensures
        !before_from(a, a, i),
    decreases a.len() - i,
{
    if i < a.len() {
        lemma_before_irreflexive(a, i + 1);
    }
}

/// The keys of an ascending list are pairwise distinct.
pub proof fn lemma_ascending_is_distinct(keys: Seq<Seq<u8>>)
    requires
        strictly_ascending(keys),
    ensures
        keys.no_duplicates(),
{
    assert forall|i: int, j: int| 0 <= i < keys.len() && 0 <= j < keys.len() && i != j implies keys[i]
        != keys[j] by {
        lemma_before_irreflexive(keys[i], 0);
        if i < j {
            assert(bytes_before(keys[i], keys[j]));
        } else {
            assert(bytes_before(keys[j], keys[i]));
        }
    }
}

/// Of two byte strings at most one comes before the other.
pub proof fn lemma_before_asymmetric(a: Seq<u8>, b: Seq<u8>, i: int)
    requires
        0 <= i,
        before_from(a, b, i),
    ensures
        !before_from(b, a, i),
    decreases a.len() - i,
{
    if i < a.len() && i < b.len() && a[i] == b[i] {
        lemma_before_asymmetric(a, b, i + 1);
    }
}

/// Whether folding keeps the order of the bytes of `a` and `b` wherever
/// the byte of `a` is the smaller of the two at one position.
pub open spec fn fold_keeps_order(a: Seq<u8>, b: Seq<u8>) -> bool {
    forall|p: int|
        0 <= p < a.len() && p < b.len() && a[p] < b[p] ==> fold_byte(#[trigger] a[p]) < fold_byte(
            b[p],
        )
}

/// Where folding keeps the order of the bytes, it keeps the order of the
/// strings.
pub proof fn lemma_fold_keeps_before(a: Seq<u8>, b: Seq<u8>, i: int)
    requires
        0 <= i,
        before_from(a, b, i),
        fold_keeps_order(a, b),
    ensures
        before_from(folded(a), folded(b), i),
    decreases a.len() - i,
{
    if i < a.len() && i < b.len() {
        if a[i] == b[i] {
            lemma_fold_keeps_before(a, b, i + 1);
        } else {
        }
    }
}

/// The keys of a list that ascends bytewise are in order after case
/// folding too, each with the one that follows it, provided that folding
/// keeps the order of the bytes in which neighbours first differ. Keys
/// such as `B` and `a` are left out: `B` comes first bytewise, and `a`
/// comes first once both are folded.
pub proof fn lemma_ascending_keys_fold_ordered(keys: Seq<Seq<u8>>)
    requires
        strictly_ascending(keys),
        forall|i: int| 0 <= i < keys.len() - 1 ==> fold_keeps_order(#[trigger] keys[i], keys[i + 1]),
    ensures
        forall|i: int| 0 <= i < keys.len() - 1 ==> fold_ordered(#[trigger] keys[i], keys[i + 1]),
{
    assert forall|i: int| 0 <= i < keys.len() - 1 implies fold_ordered(
        #[trigger] keys[i],
        keys[i + 1],
    ) by {
        assert(bytes_before(keys[i], keys[i + 1]));
        lemma_fold_keeps_before(keys[i], keys[i + 1], 0);
        lemma_before_asymmetric(folded(keys[i]), folded(keys[i + 1]), 0);
    }
}

/// Folding changes no byte of a string without upper-case letters, so it
/// keeps the order of such a string with any other.
pub proof fn lemma_lower_case_keeps_order(a: Seq<u8>, b: Seq<u8>)
    requires
        folded(a) == a,
        folded(b) == b,
    ensures
        fold_keeps_order(a, b),
{
}

/// Folds the case of a byte.
pub fn fold(b: u8) -> (res: u8)
    ensures
        res == fold_byte(b),
{
    if 0x41 <= b && b <= 0x5a {
        b + 0x20
    } else {
        b
    }
}

/// Folds the case of a byte string.
pub fn fold_case(s: &[u8]) -> (res: Vec<u8>)
    ensures
        res@ == folded(s@),
{
    let mut out: Vec<u8> = Vec::new();
    let mut i: usize = 0;
    while i < s.len()
        invariant
            i <= s@.len(),
            out@.len() == i,
            forall|j: int| 0 <= j < i ==> out@[j] == fold_byte(s@[j]),
        decreases s@.len() - i,
    {
        out.push(fold(s[i]));
        i = i + 1;
    }
    out
}

/// Tests whether two byte strings are equal.
pub fn same_bytes(a: &[u8], b: &[u8]) -> (res: bool)
    ensures
        res == (a@ == b@),
{
    if a.len() != b.len() {
        return false;
    }
    let res = starts_at(a, 0, b);
    assert(a@.subrange(0, a@.len() as int) == a@);
    res
}

/// Tests whether `a` comes before `b` once the case of both is folded.
pub fn folded_before(a: &[u8], b: &[u8]) -> (res: bool)
    ensures
        res == bytes_before(folded(a@), folded(b@)),
{
    let mut i: usize = 0;
    while i < a.len() && i < b.len()
        invariant
            i <= a@.len(),
            i <= b@.len(),
            bytes_before(folded(a@), folded(b@)) == before_from(folded(a@), folded(b@), i as int),
        decreases a@.len() - i,
    {
        let x: u8 = fold(a[i]);
        let y: u8 = fold(b[i]);
        if x != y {
            return x < y;
        }
        i = i + 1;
    }
    i < b.len()
}

} // verus!
