//! Small verified helpers on strings: concatenation, length, in-place growth,
//! ownership hand-offs, and a scan for the first word's end.

use vstd::prelude::*;
use vstd::string::StrSliceExecFns;
use vstd::string::StringExecFns;

verus! {

/// Join a first and a last name with a single space between them.
pub fn concatenate_names(first: &str, last: &str) -> (r: String)
    ensures
        r@ == first@ + " "@ + last@,
{
    let mut full = first.to_owned();
    full.append(" ");
    full.append(last);
    full
}

/// The length of a string, in characters.
pub fn calculate_length(s: &String) -> (r: usize)
    ensures
        r == s@.len(),
{
    s.as_str().unicode_len()
}

/// Append ", world" to the string in place.
pub fn change(s: &mut String)
    ensures
        final(s)@ == old(s)@ + ", world"@,
{
    s.append(", world");
}

/// Hand a freshly made string to the caller.
pub fn gives_ownership() -> (r: String)
    ensures
        r@ == "yours"@,
{
    String::from_str("yours")
}

/// Take a string and hand the very same string back.
pub fn takes_and_gives_back_ownership(a_string: String) -> (r: String)
    ensures
        r == a_string,
{
    a_string
}

/// A string built locally and moved out to the caller.
pub fn dangle() -> (r: String)
    ensures
        r@ == "hello"@,
{
    String::from_str("hello")
}

/// The index of the character just past the first word: the position of the
/// first space, or the length of the string when it has no space.
pub fn first_word(s: &String) -> (r: usize)
    ensures
        r <= s@.len(),
        forall|i: int| 0 <= i < r ==> s@[i] != ' ',
        r < s@.len() ==> s@[r as int] == ' ',
{
    let st = s.as_str();
    let n = st.unicode_len();
    let mut i: usize = 0;
    while i < n
        invariant
            i <= n == s@.len(),
            st@ == s@,
            forall|k: int| 0 <= k < i ==> s@[k] != ' ',
        decreases n - i,
    {
        if st.get_char(i) == ' ' {
            return i;
        }
        i += 1;
    }
    n
}

} // verus!
