//! The attribute scan over the XML text of a header.
//!
//! The text is scanned in its UTF-8 form. An attribute is its name,
//! preceded by white space and followed by `="`, and its value runs up to
//! the next `"`. The four entities `&lt;`, `&gt;`, `&amp;` and `&quot;` in
//! a value stand for `<`, `>`, `&` and `"`.

use vstd::prelude::*;
use crate::wire::byte_position;
use crate::wire::find_byte;

verus! {

/// Whether `b` is a space, a tab, a line feed or a carriage return.
pub open spec fn is_space(b: u8) -> bool {
    b == 0x20 || b == 0x09 || b == 0x0a || b == 0x0d
}

/// Whether the bytes of `pat` stand in `s` at `pos`.
pub open spec fn matches_at(s: Seq<u8>, pos: int, pat: Seq<u8>) -> bool {
    0 <= pos && pos + pat.len() <= s.len() && s.subrange(pos, pos + pat.len()) == pat
}

/// Whether the attribute `name` opens at `pos`: the name after a white
/// space, then `="`.
pub open spec fn attribute_opens_at(s: Seq<u8>, pos: int, name: Seq<u8>) -> bool {
    pos >= 1 && is_space(s[pos - 1]) && matches_at(s, pos, name) && pos + name.len() + 2
        <= s.len() && s[pos + name.len()] == 0x3d && s[pos + name.len() + 1] == 0x22
}

/// The first position at or after `from` where the attribute `name` opens.
pub open spec fn attribute_position(s: Seq<u8>, name: Seq<u8>, from: int) -> Option<int>
    decreases s.len() - from,
{
    if from < 0 || from >= s.len() {
        None
    } else if attribute_opens_at(s, from, name) {
        Some(from)
    } else {
        attribute_position(s, name, from + 1)
    }
}

/// The value of the first attribute `name` as it is written, entities
/// included, or `None` where there is no such attribute or its value is
/// not closed.
pub open spec fn raw_attribute(s: Seq<u8>, name: Seq<u8>) -> Option<Seq<u8>> {
    match attribute_position(s, name, 0) {
        None => None,
        Some(pos) => {
            let start = pos + name.len() + 2;
            match byte_position(s, 0x22, start) {
                None => None,
                Some(end) => Some(s.subrange(start, end)),
            }
        },
    }
}

/// The length of the entity that opens at `i`, or zero where none does.
pub open spec fn entity_len(s: Seq<u8>, i: int) -> int {
    if matches_at(s, i, seq![0x26u8, 0x6cu8, 0x74u8, 0x3bu8]) {
        4
    } else if matches_at(s, i, seq![0x26u8, 0x67u8, 0x74u8, 0x3bu8]) {
        4
    } else if matches_at(s, i, seq![0x26u8, 0x61u8, 0x6du8, 0x70u8, 0x3bu8]) {
        5
    } else if matches_at(s, i, seq![0x26u8, 0x71u8, 0x75u8, 0x6fu8, 0x74u8, 0x3bu8]) {
        6
    } else {
        0
    }
}

/// The byte that the entity at `i` stands for; the byte at `i` itself
/// where no entity opens there.
pub open spec fn entity_byte(s: Seq<u8>, i: int) -> u8 {
    if matches_at(s, i, seq![0x26u8, 0x6cu8, 0x74u8, 0x3bu8]) {
        0x3c
    } else if matches_at(s, i, seq![0x26u8, 0x67u8, 0x74u8, 0x3bu8]) {
        0x3e
    } else if matches_at(s, i, seq![0x26u8, 0x61u8, 0x6du8, 0x70u8, 0x3bu8]) {
        0x26
    } else if matches_at(s, i, seq![0x26u8, 0x71u8, 0x75u8, 0x6fu8, 0x74u8, 0x3bu8]) {
        0x22
    } else {
        s[i]
    }
}

/// The bytes of `s` from `i` on with every entity replaced by the byte it
/// stands for.
pub open spec fn unescaped_from(s: Seq<u8>, i: int) -> Seq<u8>
    decreases s.len() - i,
{
    if i < 0 || i >= s.len() {
        Seq::empty()
    } else if entity_len(s, i) > 0 {
        seq![entity_byte(s, i)] + unescaped_from(s, i + entity_len(s, i))
    } else {
        seq![s[i]] + unescaped_from(s, i + 1)
    }
}

/// The value of the first attribute `name`, entities replaced.
pub open spec fn attribute(s: Seq<u8>, name: Seq<u8>) -> Option<Seq<u8>> {
    match raw_attribute(s, name) {
        None => None,
        Some(raw) => Some(unescaped_from(raw, 0)),
    }
}

/// Tests whether the bytes of `pat` stand in `s` at `pos`.
pub fn starts_at(s: &[u8], pos: usize, pat: &[u8]) -> (res: bool)
    ensures
        res == matches_at(s@, pos as int, pat@),
{
    if pat.len() > s.len() || pos > s.len() - pat.len() {
        return false;
    }
    let mut j: usize = 0;
    while j < pat.len()
        invariant
            j <= pat@.len(),
            pos + pat@.len() <= s@.len() <= usize::MAX,
            forall|k: int| 0 <= k < j ==> s@[pos + k] == pat@[k],
        decreases pat@.len() - j,
    {
        if s[pos + j] != pat[j] {
            return false;
        }
        j = j + 1;
    }
    assert(s@.subrange(pos as int, pos + pat@.len()) =~= pat@);
    true
}

/// Tests whether the attribute `name` opens at `pos`.
fn opens_at(s: &[u8], pos: usize, name: &[u8]) -> (res: bool)
    ensures
        res == attribute_opens_at(s@, pos as int, name@),
{
    if pos < 1 || pos >= s.len() {
        return false;
    }
    let before: u8 = s[pos - 1];
    if !(before == 0x20 || before == 0x09 || before == 0x0a || before == 0x0d) {
        return false;
    }
    if !starts_at(s, pos, name) {
        return false;
    }
    if s.len() - pos - name.len() < 2 {
        return false;
    }
    s[pos + name.len()] == 0x3d && s[pos + name.len() + 1] == 0x22
}

/// Finds the first position at or after `from` where the attribute opens.
fn find_attribute_position(s: &[u8], name: &[u8], from: usize) -> (res: Option<usize>)
    ensures
        match res {
            Some(pos) => attribute_position(s@, name@, from as int) == Some(pos as int)
                && attribute_opens_at(s@, pos as int, name@),
            None => attribute_position(s@, name@, from as int) is None,
        },
{
    let mut i: usize = from;
    while i < s.len()
        invariant
            from <= i,
            attribute_position(s@, name@, from as int) == attribute_position(
                s@,
                name@,
                i as int,
            ),
        decreases s@.len() - i,
    {
        if opens_at(s, i, name) {
            return Some(i);
        }
        i = i + 1;
    }
    None
}

/// The length of the entity that opens at `i` and the byte it stands for.
fn read_entity(s: &[u8], i: usize) -> (res: (usize, u8))
    requires
        i < s@.len(),
    ensures
        res.0 as int == entity_len(s@, i as int),
        res.1 == entity_byte(s@, i as int),
        res.0 <= s@.len() - i,
{
    let lt: [u8; 4] = [0x26, 0x6c, 0x74, 0x3b];
    let gt: [u8; 4] = [0x26, 0x67, 0x74, 0x3b];
    let amp: [u8; 5] = [0x26, 0x61, 0x6d, 0x70, 0x3b];
    let quot: [u8; 6] = [0x26, 0x71, 0x75, 0x6f, 0x74, 0x3b];
    if starts_at(s, i, lt.as_slice()) {
        (4, 0x3c)
    } else if starts_at(s, i, gt.as_slice()) {
        (4, 0x3e)
    } else if starts_at(s, i, amp.as_slice()) {
        (5, 0x26)
    } else if starts_at(s, i, quot.as_slice()) {
        (6, 0x22)
    } else {
        (0, s[i])
    }
}

/// Replaces every entity of `s` by the byte it stands for.
pub fn unescape(s: &[u8]) -> (res: Vec<u8>)
    ensures
        res@ == unescaped_from(s@, 0),
{
    let mut out: Vec<u8> = Vec::new();
    let mut i: usize = 0;
    while i < s.len()
        invariant
            i <= s@.len(),
            unescaped_from(s@, 0) == out@ + unescaped_from(s@, i as int),
        decreases s@.len() - i,
    {
        let (len, byte) = read_entity(s, i);
        out.push(byte);
        if len > 0 {
            i = i + len;
        } else {
            i = i + 1;
        }
    }
    out
}

/// Finds the value of the first attribute `name` in the text `s`.
pub fn find_attribute(s: &[u8], name: &[u8]) -> (res: Option<Vec<u8>>)
    ensures
        match res {
            Some(value) => attribute(s@, name@) == Some(value@),
            None => attribute(s@, name@) is None,
        },
{
    let pos: usize = match find_attribute_position(s, name, 0) {
        Some(p) => p,
        None => { return None; },
    };
    let total: usize = s.len();
    let start: usize = pos + name.len() + 2;
    let end: usize = match find_byte(s, 0x22, start) {
        Some(e) => e,
        None => { return None; },
    };
    let raw = vstd::slice::slice_subrange(s, start, end);
    Some(unescape(raw))
}

} // verus!
