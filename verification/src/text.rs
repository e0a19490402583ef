//! Small operations on text that the other modules share.

use crate::ast::Path;
use crate::check_rules::path_text;
use vstd::prelude::*;

verus! {

/// `String::push` appends one character.
pub assume_specification[ String::push ](s: &mut String, c: char)
    ensures
        final(s)@ == old(s)@.push(c),
;

/// Equality of string slices, as `str`'s `PartialEq` decides it: the two
/// hold the same characters.
#[verifier::external_body]
pub(crate) fn str_eq(a: &str, b: &str) -> (r: bool)
    ensures
        r == (a@ == b@),
{
    a == b
}

/// The characters of a text.
pub fn chars_of(s: &str) -> (r: Vec<char>)
    ensures
        r@ == s@,
{
    let mut v: Vec<char> = Vec::new();
    for c in it: s.chars()
        invariant
            v@ == it.seq().take(it.index() as int),
    {
        v.push(c);
    }
    v
}

/// The segments of a path joined by dots.
pub fn path_to_string(path: &Path) -> (r: String)
    ensures
        r@ == path_text(path@),
{
    let mut out = String::new();
    let mut i: usize = 0;
    while i < path.0.len()
        invariant
            i <= path.0.len(),
            out@ == path_text(path@.take(i as int)),
        decreases path.0.len() - i,
    {
        proof {
            assert(path@.take(i + 1).drop_last() =~= path@.take(i as int));
            assert(path@.take(i + 1).last() == path.0@[i as int]@);
            reveal_strlit(".");
            assert("."@ =~= seq!['.']);
            assert(path_text(path@.take(0)) =~= Seq::<char>::empty());
        }
        if i > 0 {
            out.append(".");
        }
        out.append(path.0[i].0.as_str());
        i += 1;
    }
    proof {
        assert(path@.take(path.0.len() as int) =~= path@);
    }
    out
}

} // verus!
