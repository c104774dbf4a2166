//! The names of the files of a dictionary.
//!
//! A dictionary is named by its MDX file. Its first resource file has the
//! same name with the extension `mdd`; the following ones have the
//! extensions `1.mdd`, `2.mdd` and so on, and are looked for in this
//! order up to the first that is missing. The persistent cache has the
//! extension `db`.

use vstd::prelude::*;
use vstd::string::StringExecFns;
use vstd::string::StringSliceAdditionalSpecFns;
use crate::error::MDictError;
use crate::mem_index::MAX_RESOURCE_FILES;
use crate::order::fold_case;
use crate::order::folded;
use crate::order::same_bytes;

verus! {

/// The extension of the persistent cache.
pub const CACHE_EXTENSION: &'static str = "db";

/// Whether an extension names an MDX file: it reads `mdx`, whatever the
/// case of its letters.
pub open spec fn names_mdx(extension: Seq<u8>) -> bool {
    folded(extension) == "mdx".spec_bytes()
}

/// The view of an optional extension.
pub open spec fn extension_view(extension: Option<&str>) -> Option<Seq<u8>> {
    match extension {
        Some(e) => Some(e.spec_bytes()),
        None => None,
    }
}

/// Tests whether an extension names an MDX file.
pub fn is_mdx_extension(extension: &str) -> (res: bool)
    ensures
        res == names_mdx(extension.spec_bytes()),
{
    let lower = fold_case(extension.as_bytes());
    same_bytes(lower.as_slice(), "mdx".as_bytes())
}

/// Accepts the extension of the path that names a dictionary, if the path
/// has one: any other than that of an MDX file is an invalid input.
pub fn check_extension(extension: Option<&str>) -> (res: Result<(), MDictError>)
    ensures
        res is Ok <==> extension is Some && names_mdx(extension.unwrap().spec_bytes()),
        res is Err ==> res == Err::<(), MDictError>(MDictError::InvalidInput),
{
    match extension {
        Some(e) => if is_mdx_extension(e) {
            Ok(())
        } else {
            Err(MDictError::InvalidInput)
        },
        None => Err(MDictError::InvalidInput),
    }
}

/// The character of a decimal digit.
pub open spec fn digit_char(d: nat) -> char {
    (0x30 + d) as char
}

/// A number written in decimal, without leading zeros.
pub open spec fn decimal_text(n: nat) -> Seq<char>
    decreases n,
{
    if n < 10 {
        seq![digit_char(n)]
    } else {
        decimal_text(n / 10) + seq![digit_char(n % 10)]
    }
}

/// The extension of the resource file with the number `i`.
pub open spec fn companion_extension(i: nat) -> Seq<char> {
    if i == 0 {
        "mdd"@
    } else {
        decimal_text(i) + ".mdd"@
    }
}

/// The text of one decimal digit.
fn digit_text(d: usize) -> (res: &'static str)
    requires
        d < 10,
    ensures
        res@ == seq![digit_char(d as nat)],
{
    proof {
        reveal_strlit("0");
        reveal_strlit("1");
        reveal_strlit("2");
        reveal_strlit("3");
        reveal_strlit("4");
        reveal_strlit("5");
        reveal_strlit("6");
        reveal_strlit("7");
        reveal_strlit("8");
        reveal_strlit("9");
    }
    let res = if d == 0 {
        "0"
    } else if d == 1 {
        "1"
    } else if d == 2 {
        "2"
    } else if d == 3 {
        "3"
    } else if d == 4 {
        "4"
    } else if d == 5 {
        "5"
    } else if d == 6 {
        "6"
    } else if d == 7 {
        "7"
    } else if d == 8 {
        "8"
    } else {
        "9"
    };
    res
}

/// Appends a number in decimal to a text.
fn push_decimal(text: &mut String, n: usize)
    ensures
        final(text)@ == old(text)@ + decimal_text(n as nat),
    decreases n,
{
    if n >= 10 {
        push_decimal(text, n / 10);
    }
    text.append(digit_text(n % 10));
}

/// Makes the extension of the resource file with the number `i`.
pub fn mdd_extension(i: usize) -> (res: String)
    ensures
        res@ == companion_extension(i as nat),
{
    let mut text = String::new();
    if i > 0 {
        push_decimal(&mut text, i);
        text.append(".mdd");
    } else {
        text.append("mdd");
    }
    text
}

/// A step of the search for the resource files of a dictionary.
#[derive(Clone, Copy, Debug, PartialEq, Eq, Structural)]
pub enum Probe {
    /// Look for the resource file with this number.
    Look(usize),
    /// The dictionary has this many resource files.
    Done(usize),
}

/// The first step of the search: look for the first resource file.
pub fn first_probe() -> (res: Probe)
    ensures
        res == Probe::Look(0),
{
    Probe::Look(0)
}

/// The step that follows the search for the resource file with the number
/// `looked`: the next file is looked for where this one is present, until
/// the dictionary has as many files as an index can name; the search ends
/// at the first file that is missing.
pub fn next_probe(looked: usize, present: bool) -> (res: Probe)
    ensures
        res == if !present {
            Probe::Done(looked)
        } else if looked + 1 < MAX_RESOURCE_FILES {
            Probe::Look((looked + 1) as usize)
        } else if looked < MAX_RESOURCE_FILES {
            Probe::Done((looked + 1) as usize)
        } else {
            Probe::Done(looked)
        },
{
    if !present {
        Probe::Done(looked)
    } else if looked < MAX_RESOURCE_FILES - 1 {
        Probe::Look(looked + 1)
    } else if looked < MAX_RESOURCE_FILES {
        Probe::Done(looked + 1)
    } else {
        Probe::Done(looked)
    }
}

} // verus!
