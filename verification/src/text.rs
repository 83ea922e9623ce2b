use vstd::prelude::*;
use vstd::string::StringExecFns;

verus! {

/// Whether `s` reads `word`.
pub fn is_word(s: &String, word: &str) -> (r: bool)
    ensures
        r == (s@ == word@),
{
    let w = String::from_str(word);
    *s == w
}

} // verus!
