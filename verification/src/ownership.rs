//! Values that are moved into a function and handed back.

use vstd::prelude::*;
use vstd::utf8::encode_utf8;

verus! {

/// The text itself, handed back, and its length in bytes.
pub fn calculate_length(s: String) -> (r: (String, usize))
    ensures
        r.0@ == s@,
        r.1 == encode_utf8(s@).len(),
{
    let length = s.as_str().as_bytes().len();
    (s, length)
}

} // verus!
