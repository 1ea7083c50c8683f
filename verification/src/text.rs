//! Small operations on text.

use vstd::prelude::*;
use vstd::string::*;

verus! {

/// The text `s` without its first and its last character; empty where `s` has
/// fewer than two characters.
pub open spec fn inner(s: Seq<char>) -> Seq<char> {
    if s.len() <= 1 {
        Seq::empty()
    } else {
        s.subrange(1, s.len() - 1)
    }
}

/// The text `s` with every colon turned into a period.
pub open spec fn path_safe(s: Seq<char>) -> Seq<char> {
    s.map_values(|c: char| if c == ':' { '.' } else { c })
}

/// Strips the first and the last character, whatever they are: this takes a
/// text out of the quotes or brackets around it.
pub fn remove_first_and_last(value: String) -> (r: String)
    ensures
        r@ == inner(value@),
{
    let n: usize = value.as_str().unicode_len();
    if n <= 1 {
        String::new()
    } else {
        String::from_str(value.as_str().substring_char(1, n - 1))
    }
}

/// Replaces each colon by a period, so that a name can stand in a file path.
pub fn replace_colons(value: &str) -> (r: String)
    ensures
        r@ == path_safe(value@),
{
    let n: usize = value.unicode_len();
    let mut out = String::new();
    let mut i: usize = 0;
    while i < n
        invariant
            n == value@.len(),
            i <= n,
            out@ == path_safe(value@.take(i as int)),
        decreases n - i,
    {
        let c = value.get_char(i);
        if c == ':' {
            proof {
                reveal_strlit(".");
            }
            out.append(".");
            assert(out@ =~= path_safe(value@.take(i + 1)));
        } else {
            out.append(value.substring_char(i, i + 1));
            assert(out@ =~= path_safe(value@.take(i + 1)));
        }
        i += 1;
    }
    assert(value@.take(n as int) =~= value@);
    out
}

} // verus!
