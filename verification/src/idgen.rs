//! Server-minted identifiers: short strings drawn from a 38-symbol
//! URL-safe alphabet.

use vstd::prelude::*;
use rand::Rng;

verus! {

/// Relies on rand::Rng::random_range over rand::rng(): a uniform draw
/// below the bound. Which value comes back depends on the thread's
/// generator, so only the bound is promised.
#[verifier::external_body]
fn random_below(bound: usize) -> (r: usize)
    requires
        bound >= 1,
    ensures
        r < bound,
{
    rand::rng().random_range(0..bound)
}

/// The identifier alphabet: `_`, `-`, the digits, then the lowercase
/// letters.
pub open spec fn id_alphabet() -> Seq<char> {
    "_-0123456789abcdefghijklmnopqrstuvwxyz"@
}

pub open spec fn is_id_char(c: char) -> bool {
    id_alphabet().contains(c)
}

fn alphabet_char(i: usize) -> (c: char)
    requires
        i < 38,
    ensures
        is_id_char(c),
{
    proof {
        reveal_strlit("_-0123456789abcdefghijklmnopqrstuvwxyz");
    }
    let c: char = if i == 0 {
        '_'
    } else if i == 1 {
        '-'
    } else if i < 12 {
        (46 + (i as u8)) as char
    } else {
        (85 + (i as u8)) as char
    };
    proof {
        assert(id_alphabet()[i as int] == c);
        assert(is_id_char(c));
    }
    c
}

/// An identifier of `length` characters, each drawn from the alphabet.
pub fn generate_nanoid(length: usize) -> (r: String)
    ensures
        r@.len() == length,
        forall|i: int| 0 <= i < r@.len() ==> is_id_char(#[trigger] r@[i]),
{
    let mut id = String::new();
    let mut k: usize = 0;
    while k < length
        invariant
            k <= length,
            id@.len() == k,
            forall|i: int| 0 <= i < id@.len() ==> is_id_char(#[trigger] id@[i]),
        decreases length - k,
    {
        let idx = random_below(38);
        let c = alphabet_char(idx);
        push_id_char(&mut id, c);
        k += 1;
    }
    id
}

/// Append one alphabet character to the identifier being built.
fn push_id_char(id: &mut String, c: char)
    requires
        is_id_char(c),
    ensures
        final(id)@ == old(id)@ + seq![c],
{
    proof {
        reveal_strlit("_-0123456789abcdefghijklmnopqrstuvwxyz");
    }
    let alphabet = "_-0123456789abcdefghijklmnopqrstuvwxyz";
    let n = alphabet.unicode_len();
    let mut i: usize = 0;
    while i < n
        invariant
            n == id_alphabet().len(),
            i <= n,
            id@ == old(id)@,
            is_id_char(c),
            alphabet@ == id_alphabet(),
            forall|j: int| 0 <= j < i ==> id_alphabet()[j] != c,
        decreases n - i,
    {
        if alphabet.get_char(i) == c {
            crate::text::push_char_of(id, alphabet, i);
            return;
        }
        i += 1;
    }
    proof {
        let w = choose|w: int| 0 <= w < id_alphabet().len() && id_alphabet()[w] == c;
        assert(id_alphabet()[w] != c);
        assert(false);
    }
}

/// A fresh 8-character identifier.
pub fn generate_id() -> (r: String)
    ensures
        r@.len() == 8,
        forall|i: int| 0 <= i < r@.len() ==> is_id_char(#[trigger] r@[i]),
{
    generate_nanoid(8)
}

} // verus!
