//! Search by name: whether a text mentions a fragment, letters of the basic
//! Latin alphabet compared without regard to case.

use vstd::prelude::*;
use vstd::string::StrSliceExecFns;

verus! {

/// The code of a character, with the capital letters `A` to `Z` taken as
/// their small letters.
pub open spec fn folded(c: char) -> u32 {
    if 65 <= c as u32 <= 90 {
        (c as u32 + 32) as u32
    } else {
        c as u32
    }
}

/// Whether the fragment stands in the text at the given position.
pub open spec fn occurs_at(text: Seq<char>, fragment: Seq<char>, at: int) -> bool {
    &&& 0 <= at
    &&& at + fragment.len() <= text.len()
    &&& forall|k: int| 0 <= k < fragment.len() ==> folded(text[at + k]) == folded(#[trigger] fragment[k])
}

/// Whether the fragment stands somewhere in the text. The empty fragment
/// stands in every text.
pub open spec fn mentions(text: Seq<char>, fragment: Seq<char>) -> bool {
    exists|at: int| occurs_at(text, fragment, at)
}

/// Folds a character.
fn fold(c: char) -> (code: u32)
    ensures
        code == folded(c),
{
    let code = c as u32;
    if 65 <= code && code <= 90 {
        code + 32
    } else {
        code
    }
}

/// The characters of a text.
fn characters(text: &str) -> (chars: Vec<char>)
    ensures
        chars@ == text@,
{
    let count = text.unicode_len();
    let mut chars: Vec<char> = Vec::new();
    let mut i: usize = 0;
    while i < count
        invariant
            0 <= i <= count,
            count == text@.len(),
            chars@ == text@.take(i as int),
        decreases count - i,
    {
        chars.push(text.get_char(i));
        proof {
            assert(text@.take(i + 1) =~= text@.take(i as int).push(text@[i as int]));
        }
        i = i + 1;
    }
    proof {
        assert(text@.take(i as int) == text@);
    }
    chars
}

/// Whether the fragment stands in the text at the given position.
fn stands_at(text: &Vec<char>, fragment: &Vec<char>, at: usize) -> (stands: bool)
    requires
        at + fragment.len() <= text.len(),
    ensures
        stands == occurs_at(text@, fragment@, at as int),
{
    let mut k: usize = 0;
    while k < fragment.len()
        invariant
            0 <= k <= fragment.len(),
            at + fragment.len() <= text.len(),
            forall|j: int| 0 <= j < k ==> folded(text@[at + j]) == folded(#[trigger] fragment@[j]),
        decreases fragment.len() - k,
    {
        if fold(text[at + k]) != fold(fragment[k]) {
            return false;
        }
        k = k + 1;
    }
    true
}

/// Says whether a text mentions a fragment, letters compared without regard
/// to case.
pub fn text_mentions(text: &str, fragment: &str) -> (found: bool)
    ensures
        found == mentions(text@, fragment@),
{
    let letters = characters(text);
    let wanted = characters(fragment);
    if wanted.len() > letters.len() {
        proof {
            assert forall|at: int| !occurs_at(text@, fragment@, at) by {}
        }
        return false;
    }
    let last = letters.len() - wanted.len();
    let mut at: usize = 0;
    loop
        invariant
            letters@ == text@,
            wanted@ == fragment@,
            0 <= at <= last,
            last == letters.len() - wanted.len(),
            forall|before: int| 0 <= before < at ==> !occurs_at(text@, fragment@, before),
        decreases last - at,
    {
        if stands_at(&letters, &wanted, at) {
            proof {
                assert(occurs_at(text@, fragment@, at as int));
            }
            return true;
        }
        if at == last {
            proof {
                assert forall|at: int| !occurs_at(text@, fragment@, at) by {}
            }
            return false;
        }
        at = at + 1;
    }
}

} // verus!
