//! Verified reading and writing of unsigned numbers in a radix:
//! decimal values in requests and configuration, hexadecimal ports,
//! octal file modes, and zero-padded decimal rendering of timestamps.

use vstd::prelude::*;

verus! {

/// The numeric value a character carries as a digit: `0`-`9`, then
/// lowercase and uppercase letters. Characters that are digits in no
/// radix get a sentinel value of 99 (no radix reaches it).
pub open spec fn char_digit_val(c: char) -> nat {
    if '0' <= c && c <= '9' {
        (c as nat - 48) as nat
    } else if 'a' <= c && c <= 'z' {
        (c as nat - 87) as nat
    } else if 'A' <= c && c <= 'Z' {
        (c as nat - 55) as nat
    } else {
        99
    }
}

pub open spec fn is_radix_digit(c: char, radix: nat) -> bool {
    char_digit_val(c) < radix
}

/// The value of a sequence of digit characters read in `radix`.
pub open spec fn radix_of(s: Seq<char>, radix: nat) -> nat
    decreases s.len(),
{
    if s.len() == 0 {
        0
    } else {
        radix_of(s.drop_last(), radix) * radix + char_digit_val(s.last())
    }
}

pub open spec fn all_radix_digits(s: Seq<char>, radix: nat) -> bool {
    forall|i: int| 0 <= i < s.len() ==> is_radix_digit(s[i], radix)
}

/// What parsing an unsigned number from `s` in `radix` yields, for a type
/// whose greatest value is `max`: an optional leading `+`, then at least
/// one digit, and a value within range; anything else is rejected.
pub open spec fn parse_radix_spec(s: Seq<char>, radix: nat, max: nat) -> Option<nat> {
    let skip: int = if s.len() > 0 && s[0] == '+' {
        1
    } else {
        0
    };
    let t = s.subrange(skip, s.len() as int);
    if t.len() > 0 && all_radix_digits(t, radix) && radix_of(t, radix) <= max {
        Some(radix_of(t, radix))
    } else {
        None
    }
}

/// A digit prefix never exceeds the value of the whole digit string.
proof fn lemma_radix_prefix_le(s: Seq<char>, i: int, radix: nat)
    requires
        0 <= i <= s.len(),
        radix >= 1,
    ensures
        radix_of(s.subrange(0, i), radix) <= radix_of(s, radix),
    decreases s.len() - i,
{
    if i == s.len() {
        assert(s.subrange(0, i) =~= s);
    } else {
        lemma_radix_prefix_le(s, i + 1, radix);
        let p = s.subrange(0, i);
        let q = s.subrange(0, i + 1);
        assert(q.drop_last() =~= p);
        assert(radix_of(q, radix) == radix_of(p, radix) * radix + char_digit_val(q.last()));
        assert(radix_of(p, radix) * radix >= radix_of(p, radix) * 1) by (nonlinear_arith)
            requires radix >= 1, radix_of(p, radix) >= 0;
    }
}

/// The digit value of `c` in `radix`, or `None` where `c` is no such digit.
fn digit_in_radix(c: char, radix: u32) -> (r: Option<u32>)
    requires
        2 <= radix <= 36,
    ensures
        match r {
            Some(v) => is_radix_digit(c, radix as nat) && v == char_digit_val(c),
            None => !is_radix_digit(c, radix as nat),
        },
{
    let v: u32 = if '0' <= c && c <= '9' {
        (c as u32) - 48
    } else if 'a' <= c && c <= 'z' {
        (c as u32) - 87
    } else if 'A' <= c && c <= 'Z' {
        (c as u32) - 55
    } else {
        99
    };
    if v < radix {
        Some(v)
    } else {
        None
    }
}

/// Parse an unsigned number from `s` in `radix`, rejecting values above
/// `max`: the behaviour of an unsigned `from_str_radix` capped at `max`.
pub fn parse_radix_bounded(s: &str, radix: u32, max: u64) -> (r: Option<u64>)
    requires
        2 <= radix <= 36,
    ensures
        match r {
            Some(v) => parse_radix_spec(s@, radix as nat, max as nat) == Some(v as nat),
            None => parse_radix_spec(s@, radix as nat, max as nat) is None,
        },
{
    let len = s.unicode_len();
    let mut start: usize = 0;
    if len > 0 && s.get_char(0) == '+' {
        start = 1;
    }
    let ghost t = s@.subrange(start as int, s@.len() as int);
    if start >= len {
        assert(t.len() == 0);
        return None;
    }
    let mut acc: u64 = 0;
    let mut i: usize = start;
    while i < len
        invariant
            2 <= radix <= 36,
            len == s@.len(),
            start <= i <= len,
            start == (if s@.len() > 0 && s@[0] == '+' { 1int } else { 0int }),
            t == s@.subrange(start as int, s@.len() as int),
            all_radix_digits(t.subrange(0, i - start), radix as nat),
            acc as nat == radix_of(t.subrange(0, i - start), radix as nat),
            acc <= max,
        decreases len - i,
    {
        let c = s.get_char(i);
        proof {
            assert(t[i - start] == s@[i as int]);
        }
        let d = match digit_in_radix(c, radix) {
            Some(d) => d,
            None => {
                proof {
                    assert(!is_radix_digit(t[i - start], radix as nat));
                    assert(0 <= i - start < t.len());
                    assert(!all_radix_digits(t, radix as nat));
                    assert(parse_radix_spec(s@, radix as nat, max as nat) is None);
                }
                return None;
            },
        };
        let ghost pre = t.subrange(0, i - start);
        let ghost pre1 = t.subrange(0, i + 1 - start);
        proof {
            assert(pre1.drop_last() =~= pre);
            assert(radix_of(pre1, radix as nat) == acc as nat * (radix as nat) + d);
        }
        if acc > max / (radix as u64) {
            // The prefix already exceeds `max`, so the whole string does.
            proof {
                assert(acc as nat * (radix as nat) > max as nat) by (nonlinear_arith)
                    requires
                        2 <= radix <= 36,
                        acc as nat >= max as nat / (radix as nat) + 1,
                ;
                lemma_radix_prefix_le(t, i + 1 - start, radix as nat);
            }
            return None;
        }
        proof {
            assert(acc as nat * (radix as nat) <= max as nat) by (nonlinear_arith)
                requires
                    2 <= radix <= 36,
                    acc as nat <= max as nat / (radix as nat),
            ;
        }
        let prod: u64 = acc * (radix as u64);
        if (d as u64) > max - prod {
            proof {
                lemma_radix_prefix_le(t, i + 1 - start, radix as nat);
            }
            return None;
        }
        acc = prod + (d as u64);
        i += 1;
    }
    proof {
        assert(t.subrange(0, i - start) =~= t);
    }
    Some(acc)
}

/// Parse a decimal `u64`: an optional leading `+` then digits.
pub fn parse_u64(s: &str) -> (r: Option<u64>)
    ensures
        match r {
            Some(v) => parse_radix_spec(s@, 10, u64::MAX as nat) == Some(v as nat),
            None => parse_radix_spec(s@, 10, u64::MAX as nat) is None,
        },
{
    parse_radix_bounded(s, 10, u64::MAX)
}

/// Parse a decimal `usize`: an optional leading `+` then digits.
pub fn parse_usize(s: &str) -> (r: Option<usize>)
    ensures
        match r {
            Some(v) => parse_radix_spec(s@, 10, usize::MAX as nat) == Some(v as nat),
            None => parse_radix_spec(s@, 10, usize::MAX as nat) is None,
        },
{
    match parse_radix_bounded(s, 10, usize::MAX as u64) {
        Some(v) => Some(v as usize),
        None => None,
    }
}

/// The digit character for a value below ten.
pub open spec fn digit_char(d: nat) -> char {
    (48 + d) as char
}

/// The decimal digits of `n`, most significant first, no padding.
pub open spec fn dec_digits(n: nat) -> Seq<char>
    decreases n,
{
    if n < 10 {
        seq![digit_char(n)]
    } else {
        dec_digits(n / 10) + seq![digit_char(n % 10)]
    }
}

/// `n` in decimal, left-padded with zeros to at least `width` characters.
pub open spec fn dec_padded(n: nat, width: nat) -> Seq<char> {
    if dec_digits(n).len() >= width {
        dec_digits(n)
    } else {
        Seq::new((width - dec_digits(n).len()) as nat, |i: int| '0') + dec_digits(n)
    }
}

fn digit_str(d: u64) -> (r: &'static str)
    requires
        d < 10,
    ensures
        r@ =~= seq![digit_char(d as nat)],
{
    proof {
        reveal_strlit("0");
        reveal_strlit("1");
        reveal_strlit("2");
        reveal_strlit("3");
        reveal_strlit("4");
        reveal_strlit("5");
        reveal_strlit("6");
        reveal_strlit("7");
        reveal_strlit("8");
        reveal_strlit("9");
    }
    match d {
        0 => "0",
        1 => "1",
        2 => "2",
        3 => "3",
        4 => "4",
        5 => "5",
        6 => "6",
        7 => "7",
        8 => "8",
        _ => "9",
    }
}

/// Render `n` in decimal.
pub fn u64_to_dec(n: u64) -> (r: String)
    ensures
        r@ == dec_digits(n as nat),
    decreases n,
{
    if n < 10 {
        digit_str(n).to_owned()
    } else {
        let mut s = u64_to_dec(n / 10);
        s.append(digit_str(n % 10));
        s
    }
}

/// Render `n` in decimal, zero-padded on the left to `width` characters.
pub fn u64_to_dec_pad(n: u64, width: usize) -> (r: String)
    ensures
        r@ == dec_padded(n as nat, width as nat),
{
    let digits = u64_to_dec(n);
    let dlen = digits.as_str().unicode_len();
    if dlen >= width {
        return digits;
    }
    let mut out = String::new();
    let mut k: usize = 0;
    while k < width - dlen
        invariant
            dlen == dec_digits(n as nat).len(),
            dlen < width,
            k <= width - dlen,
            out@ =~= Seq::new(k as nat, |i: int| '0'),
        decreases width - dlen - k,
    {
        proof {
            reveal_strlit("0");
        }
        out.append("0");
        proof {
            assert(out@ =~= Seq::new((k + 1) as nat, |i: int| '0'));
        }
        k += 1;
    }
    out.append(digits.as_str());
    proof {
        assert(out@ =~= dec_padded(n as nat, width as nat));
    }
    out
}

} // verus!
