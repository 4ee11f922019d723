//! What every voice pool shares: which key each slot sounds, the first free
//! slot, and how many slots sound.
use vstd::prelude::*;

verus! {

/// The first index below `n` whose slot sounds no key.
pub open spec fn first_free_below(keys: Seq<Option<u8>>, n: int) -> Option<int>
    decreases n,
{
    if n <= 0 {
        None
    } else {
        match first_free_below(keys, n - 1) {
            Some(i) => Some(i),
            None => if keys[n - 1] is None {
                Some(n - 1)
            } else {
                None
            },
        }
    }
}

/// The first slot that sounds no key.
pub open spec fn first_free(keys: Seq<Option<u8>>) -> Option<int> {
    first_free_below(keys, keys.len() as int)
}

/// Some slot sounds `note`.
pub open spec fn sounds(keys: Seq<Option<u8>>, note: u8) -> bool {
    exists|i: int| 0 <= i < keys.len() && #[trigger] keys[i] == Some(note)
}

/// The first index below `n` whose slot sounds `note`.
pub open spec fn first_sounding_below(keys: Seq<Option<u8>>, note: u8, n: int) -> Option<int>
    decreases n,
{
    if n <= 0 {
        None
    } else {
        match first_sounding_below(keys, note, n - 1) {
            Some(i) => Some(i),
            None => if keys[n - 1] == Some(note) {
                Some(n - 1)
            } else {
                None
            },
        }
    }
}

/// The first slot that sounds `note`.
pub open spec fn first_sounding(keys: Seq<Option<u8>>, note: u8) -> Option<int> {
    first_sounding_below(keys, note, keys.len() as int)
}

/// How many of the first `n` slots sound a key.
pub open spec fn sounding_below(keys: Seq<Option<u8>>, n: int) -> nat
    decreases n,
{
    if n <= 0 {
        0
    } else {
        sounding_below(keys, n - 1) + if keys[n - 1] is Some {
            1nat
        } else {
            0nat
        }
    }
}

/// How many slots sound a key.
pub open spec fn sounding_count(keys: Seq<Option<u8>>) -> nat {
    sounding_below(keys, keys.len() as int)
}

/// `first_free_below` finds a free slot with only busy slots before it, and
/// finds none only where every slot is busy.
pub proof fn lemma_first_free_below(keys: Seq<Option<u8>>, n: int)
    requires
        0 <= n <= keys.len(),
    ensures
        match first_free_below(keys, n) {
            Some(i) => 0 <= i < n && keys[i] is None && forall|j: int|
                0 <= j < i ==> (#[trigger] keys[j]) is Some,
            None => forall|j: int| 0 <= j < n ==> (#[trigger] keys[j]) is Some,
        },
    decreases n,
{
    if n > 0 {
        lemma_first_free_below(keys, n - 1);
    }
}

/// `first_sounding_below` finds a slot that sounds the note with no such
/// slot before it, and finds none only where no slot sounds it.
pub proof fn lemma_first_sounding_below(keys: Seq<Option<u8>>, note: u8, n: int)
    requires
        0 <= n <= keys.len(),
    ensures
        match first_sounding_below(keys, note, n) {
            Some(i) => 0 <= i < n && keys[i] == Some(note) && forall|j: int|
                0 <= j < i ==> (#[trigger] keys[j]) != Some(note),
            None => forall|j: int| 0 <= j < n ==> (#[trigger] keys[j]) != Some(note),
        },
    decreases n,
{
    if n > 0 {
        lemma_first_sounding_below(keys, note, n - 1);
    }
}

/// No more slots sound than there are.
pub proof fn lemma_sounding_below_bound(keys: Seq<Option<u8>>, n: int)
    requires
        0 <= n <= keys.len(),
    ensures
        sounding_below(keys, n) <= n,
    decreases n,
{
    if n > 0 {
        lemma_sounding_below_bound(keys, n - 1);
    }
}

/// A pool in which every slot sounds is counted as full.
pub proof fn lemma_sounding_below_full(keys: Seq<Option<u8>>, n: int)
    requires
        0 <= n <= keys.len(),
        forall|j: int| 0 <= j < n ==> (#[trigger] keys[j]) is Some,
    ensures
        sounding_below(keys, n) == n,
    decreases n,
{
    if n > 0 {
        lemma_sounding_below_full(keys, n - 1);
    }
}

/// Giving a key to a free slot raises the count by one.
pub proof fn lemma_sounding_below_claim(keys: Seq<Option<u8>>, i: int, note: u8, n: int)
    requires
        0 <= i < keys.len(),
        0 <= n <= keys.len(),
        keys[i] is None,
    ensures
        sounding_below(keys.update(i, Some(note)), n) == sounding_below(keys, n) + if i < n {
            1nat
        } else {
            0nat
        },
    decreases n,
{
    if n > 0 {
        lemma_sounding_below_claim(keys, i, note, n - 1);
    }
}

} // verus!
