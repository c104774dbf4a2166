//! The keys of resources.
//!
//! A resource file names its entries by Windows-style paths rooted at a
//! backslash. The index holds them without the leading backslash and with
//! every other backslash turned into a slash, so that a key is the tail
//! of a URL path.

use vstd::prelude::*;

verus! {

/// The backslash that separates the parts of a stored path.
pub const BACKSLASH: u8 = 0x5c;

/// The slash that separates the parts of a key.
pub const SLASH: u8 = 0x2f;

/// The byte that stands for `b` in a key.
pub open spec fn key_byte(b: u8) -> u8 {
    if b == BACKSLASH {
        SLASH
    } else {
        b
    }
}

/// The key of the resource stored under `path`, or `None` where the path
/// does not begin with a backslash.
pub open spec fn resource_key(path: Seq<u8>) -> Option<Seq<u8>> {
    if path.len() >= 1 && path[0] == BACKSLASH {
        Some(Seq::new((path.len() - 1) as nat, |i: int| key_byte(path[i + 1])))
    } else {
        None
    }
}

/// Whether no byte of `key` is a backslash.
pub open spec fn free_of_backslash(key: Seq<u8>) -> bool {
    forall|i: int| 0 <= i < key.len() ==> #[trigger] key[i] != BACKSLASH
}

/// A key has one byte less than its path, holds no backslash, and so does
/// not begin with one.
pub proof fn lemma_resource_key_shape(path: Seq<u8>)
    requires
        resource_key(path) is Some,
    ensures
        resource_key(path).unwrap().len() == path.len() - 1,
        free_of_backslash(resource_key(path).unwrap()),
        resource_key(path).unwrap().len() > 0 ==> resource_key(path).unwrap()[0] != BACKSLASH,
{
}

/// Turns the stored path of a resource into its key.
pub fn normalise_resource_key(path: &[u8]) -> (res: Option<Vec<u8>>)
    ensures
        match res {
            Some(key) => resource_key(path@) == Some(key@) && free_of_backslash(key@),
            None => resource_key(path@) is None,
        },
{
    if path.len() < 1 || path[0] != BACKSLASH {
        return None;
    }
    let mut key: Vec<u8> = Vec::new();
    let mut i: usize = 1;
    while i < path.len()
        invariant
            1 <= i <= path@.len(),
            key@.len() == i - 1,
            forall|j: int| 0 <= j < i - 1 ==> key@[j] == key_byte(path@[j + 1]),
        decreases path@.len() - i,
    {
        let b: u8 = path[i];
        if b == BACKSLASH {
            key.push(SLASH);
        } else {
            key.push(b);
        }
        i = i + 1;
    }
    Some(key)
}

} // verus!
