//! Verified character-level helpers over names: the translator matches
//! compound type names by their characters.

use vstd::prelude::*;
use vstd::std_specs::iter::IteratorSpec;

verus! {

broadcast use vstd::string::group_string_axioms;

/// The characters of a string slice, as a vector.
pub fn chars_of(s: &str) -> (v: Vec<char>)
    ensures
        v@ == s@,
{
    let mut it = s.chars();
    let mut v: Vec<char> = Vec::new();
    proof {
        assert(v@ + it.remaining() =~= s@);
    }
    loop
        invariant
            it.obeys_prophetic_iter_laws(),
            it.decrease() is Some,
            v@ + it.remaining() =~= s@,
        ensures
            v@ + it.remaining() =~= s@,
            it.remaining().len() == 0,
        decreases it.decrease()->0,
    {
        let ghost prev_v = v@;
        let ghost prev_rem = it.remaining();
        let c_opt = it.next();
        match c_opt {
            Some(c) => {
                v.push(c);
                proof {
                    assert(v@ + it.remaining() =~= prev_v + prev_rem);
                }
            },
            None => {
                break;
            },
        }
    }
    proof {
        assert(v@ =~= s@);
    }
    v
}

/// Compares a name with a literal by characters.
pub fn string_eq_literal(s: &String, lit: &str) -> (r: bool)
    ensures
        r == (s@ == lit@),
{
    let other = lit.to_owned();
    *s == other
}

/// Whether the characters of `cs` from `from` (inclusive) to `to` (exclusive)
/// are exactly the characters of `lit`.
pub fn slice_matches(cs: &Vec<char>, from: usize, to: usize, lit: &str) -> (r: bool)
    requires
        from <= to <= cs@.len(),
    ensures
        r == (cs@.subrange(from as int, to as int) == lit@),
{
    let lv = chars_of(lit);
    let n = to - from;
    if n != lv.len() {
        proof {
            assert(cs@.subrange(from as int, to as int).len() == n);
        }
        return false;
    }
    let mut j: usize = 0;
    while j < n
        invariant
            n == to - from,
            from <= to <= cs@.len(),
            n == lv@.len(),
            lv@ == lit@,
            0 <= j <= n,
            forall|k: int| 0 <= k < j ==> cs@[from + k] == lit@[k],
        decreases n - j,
    {
        if cs[from + j] != lv[j] {
            proof {
                assert(cs@.subrange(from as int, to as int)[j as int] == cs@[from + j]);
            }
            return false;
        }
        j = j + 1;
    }
    proof {
        assert(cs@.subrange(from as int, to as int) =~= lit@);
    }
    true
}

} // verus!
