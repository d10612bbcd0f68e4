//! Verified helpers for working with strings as sequences of characters,
//! and for reading and writing decimal numbers.

use vstd::prelude::*;

verus! {

/// Character-by-character string equality.
pub fn str_eq(a: &str, b: &str) -> (r: bool)
    ensures
        r == (a@ == b@),
{
    let alen = a.unicode_len();
    let blen = b.unicode_len();
    if alen != blen {
        return false;
    }
    let mut i: usize = 0;
    while i < alen
        invariant
            alen == a@.len(),
            blen == b@.len(),
            alen == blen,
            i <= alen,
            forall|j: int| 0 <= j < i ==> a@[j] == b@[j],
        decreases alen - i,
    {
        if a.get_char(i) != b.get_char(i) {
            return false;
        }
        i += 1;
    }
    proof {
        assert(a@ =~= b@);
    }
    true
}

/// Whether `s` begins with the characters of `prefix`.
pub open spec fn spec_starts_with(s: Seq<char>, prefix: Seq<char>) -> bool {
    prefix.len() <= s.len() && s.subrange(0, prefix.len() as int) == prefix
}

pub fn starts_with(s: &str, prefix: &str) -> (r: bool)
    ensures
        r == spec_starts_with(s@, prefix@),
{
    let plen = prefix.unicode_len();
    let slen = s.unicode_len();
    if plen > slen {
        assert(!spec_starts_with(s@, prefix@));
        return false;
    }
    let mut i: usize = 0;
    while i < plen
        invariant
            plen == prefix@.len(),
            slen == s@.len(),
            plen <= slen,
            i <= plen,
            forall|j: int| 0 <= j < i ==> s@[j] == prefix@[j],
        decreases plen - i,
    {
        if s.get_char(i) != prefix.get_char(i) {
            assert(s@.subrange(0, plen as int)[i as int] != prefix@[i as int]);
            return false;
        }
        i += 1;
    }
    proof {
        assert(s@.subrange(0, plen as int) =~= prefix@);
    }
    true
}

/// The characters of `s` from position `from` (inclusive) to the end,
/// as an owned string.
pub fn suffix_from(s: &str, from: usize) -> (r: String)
    requires
        from <= s@.len(),
    ensures
        r@ == s@.subrange(from as int, s@.len() as int),
{
    let len = s.unicode_len();
    let sub = s.substring_char(from, len);
    sub.to_owned()
}

/// Append a single character of `s` to `out`.
pub fn push_char_of(out: &mut String, s: &str, i: usize)
    requires
        i < s@.len(),
    ensures
        final(out)@ == old(out)@ + seq![s@[i as int]],
{
    let len = s.unicode_len();
    let piece = s.substring_char(i, i + 1);
    out.append(piece);
    proof {
        assert(old(out)@ + s@.subrange(i as int, i + 1 as int) =~= old(out)@ + seq![s@[i as int]]);
    }
}


/// `s` split on the character `sep`, empty pieces kept.
pub open spec fn split_on_spec(s: Seq<char>, sep: char) -> Seq<Seq<char>>
    decreases s.len(),
{
    if s.len() == 0 {
        seq![Seq::<char>::empty()]
    } else {
        let rest = split_on_spec(s.drop_last(), sep);
        if s.last() == sep {
            rest.push(Seq::<char>::empty())
        } else {
            rest.update(rest.len() - 1, rest.last().push(s.last()))
        }
    }
}

pub proof fn lemma_split_on_nonempty(s: Seq<char>, sep: char)
    ensures
        split_on_spec(s, sep).len() >= 1,
    decreases s.len(),
{
    if s.len() > 0 {
        lemma_split_on_nonempty(s.drop_last(), sep);
    }
}

/// Split `s` on a separator character, keeping empty pieces.
pub fn split_on_char(s: &str, sep: char) -> (r: Vec<String>)
    ensures
        r@.map_values(|t: String| t@) == split_on_spec(s@, sep),
{
    let len = s.unicode_len();
    let mut out: Vec<String> = Vec::new();
    let mut cur = String::new();
    let mut i: usize = 0;
    proof {
        assert(split_on_spec(s@.subrange(0, 0), sep) =~= seq![Seq::<char>::empty()]);
        assert(out@.map_values(|t: String| t@) =~= split_on_spec(
            s@.subrange(0, 0),
            sep,
        ).drop_last());
    }
    while i < len
        invariant
            len == s@.len(),
            i <= len,
            cur@ == split_on_spec(s@.subrange(0, i as int), sep).last(),
            out@.map_values(|t: String| t@) == split_on_spec(
                s@.subrange(0, i as int),
                sep,
            ).drop_last(),
        decreases len - i,
    {
        let ghost p = s@.subrange(0, i as int);
        let ghost p1 = s@.subrange(0, i + 1 as int);
        proof {
            assert(p1.drop_last() =~= p);
            lemma_split_on_nonempty(p, sep);
        }
        let c = s.get_char(i);
        if c == sep {
            let ghost o0 = out@;
            out.push(cur);
            cur = String::new();
            proof {
                assert(split_on_spec(p1, sep) == split_on_spec(p, sep).push(
                    Seq::<char>::empty(),
                ));
                assert(split_on_spec(p1, sep).drop_last() =~= split_on_spec(p, sep));
                assert(out@.map_values(|t: String| t@) =~= o0.map_values(|t: String| t@).push(
                    split_on_spec(p, sep).last(),
                ));
                assert(o0.map_values(|t: String| t@).push(split_on_spec(p, sep).last())
                    =~= split_on_spec(p, sep));
            }
        } else {
            push_char_of(&mut cur, s, i);
            proof {
                let sp = split_on_spec(p, sep);
                let sp1 = split_on_spec(p1, sep);
                assert(sp1 == sp.update(sp.len() - 1, sp.last().push(c)));
                assert(sp1.drop_last() =~= sp.drop_last());
            }
        }
        i += 1;
    }
    proof {
        assert(s@.subrange(0, len as int) =~= s@);
        lemma_split_on_nonempty(s@, sep);
    }
    let ghost o0 = out@;
    out.push(cur);
    proof {
        assert(out@.map_values(|t: String| t@) =~= o0.map_values(|t: String| t@).push(
            split_on_spec(s@, sep).last(),
        ));
        assert(o0.map_values(|t: String| t@).push(split_on_spec(s@, sep).last()) =~= split_on_spec(
            s@,
            sep,
        ));
    }
    out
}


/// Whether `n` occurs in `h` starting at position `i`.
pub open spec fn contains_at(h: Seq<char>, n: Seq<char>, i: int) -> bool {
    0 <= i && i + n.len() <= h.len() && h.subrange(i, i + n.len()) == n
}

/// Whether `n` occurs anywhere in `h`.
pub open spec fn contains_sub(h: Seq<char>, n: Seq<char>) -> bool {
    exists|i: int| contains_at(h, n, i)
}

/// Whether the needle matches at one position.
pub fn matches_at(h: &str, n: &str, i: usize) -> (r: bool)
    requires
        i + n@.len() <= h@.len(),
    ensures
        r == contains_at(h@, n@, i as int),
{
    let nlen = n.unicode_len();
    let hlen = h.unicode_len();
    let mut j: usize = 0;
    while j < nlen
        invariant
            hlen == h@.len(),
            nlen == n@.len(),
            i + nlen <= hlen,
            j <= nlen,
            forall|m: int| 0 <= m < j ==> h@[i + m] == n@[m],
        decreases nlen - j,
    {
        if h.get_char(i + j) != n.get_char(j) {
            proof {
                if contains_at(h@, n@, i as int) {
                    assert(h@.subrange(i as int, i + n@.len())[j as int] == n@[j as int]);
                }
            }
            return false;
        }
        j += 1;
    }
    proof {
        assert(h@.subrange(i as int, i + n@.len()) =~= n@);
    }
    true
}

/// Whether the needle occurs in the haystack.
pub fn str_contains(h: &str, n: &str) -> (r: bool)
    ensures
        r == contains_sub(h@, n@),
{
    let hlen = h.unicode_len();
    let nlen = n.unicode_len();
    if nlen > hlen {
        proof {
            if contains_sub(h@, n@) {
                let w = choose|w: int| contains_at(h@, n@, w);
            }
        }
        return false;
    }
    if nlen == 0 {
        proof {
            assert(h@.subrange(0, 0) =~= n@);
            assert(contains_at(h@, n@, 0));
        }
        return true;
    }
    let mut i: usize = 0;
    while i <= hlen - nlen
        invariant
            hlen == h@.len(),
            nlen == n@.len(),
            1 <= nlen <= hlen,
            i <= hlen - nlen + 1,
            forall|w: int| 0 <= w < i ==> !contains_at(h@, n@, w),
        decreases hlen + 1 - i,
    {
        if matches_at(h, n, i) {
            return true;
        }
        i += 1;
    }
    proof {
        if contains_sub(h@, n@) {
            let w = choose|w: int| contains_at(h@, n@, w);
            assert(!contains_at(h@, n@, w));
        }
    }
    false
}

} // verus!
