//! Discovery of listening TCP ports from the kernel's connection
//! tables: each data line's local address is read, and ports bound on
//! the wildcard address are collected, deduplicated, and filtered
//! against an exclusion list.

use vstd::prelude::*;
use crate::escape;
use crate::num;
use crate::text;

verus! {

/// A line with its trailing carriage return removed.
pub open spec fn strip_cr(l: Seq<char>) -> Seq<char> {
    if l.len() > 0 && l.last() == '\r' {
        l.drop_last()
    } else {
        l
    }
}

/// The lines of a text: split on line feeds, a final empty piece
/// dropped, carriage returns stripped.
pub open spec fn lines_spec(s: Seq<char>) -> Seq<Seq<char>> {
    let raw = text::split_on_spec(s, '\n');
    let kept = if raw.last().len() == 0 {
        raw.drop_last()
    } else {
        raw
    };
    kept.map_values(|l: Seq<char>| strip_cr(l))
}

pub open spec fn wildcard_ipv4() -> Seq<char> {
    "00000000"@
}

pub open spec fn wildcard_ipv6() -> Seq<char> {
    "00000000000000000000000000000000"@
}

/// The port one table line contributes: its second whitespace field is
/// `ip:port` in hex; a line whose address is the wildcard, with a port
/// that reads as hex, contributes that port.
pub open spec fn line_port(line: Seq<char>) -> Option<u16> {
    let toks = escape::ws_tokens(line);
    if toks.len() < 2 {
        None
    } else {
        let parts = text::split_on_spec(toks[1], ':');
        if parts.len() < 2 {
            None
        } else if parts[0] == wildcard_ipv4() || parts[0] == wildcard_ipv6() {
            match num::parse_radix_spec(parts[1], 16, u16::MAX as nat) {
                Some(v) => Some(v as u16),
                None => None,
            }
        } else {
            None
        }
    }
}

/// The ports a run of table lines contributes, in line order.
pub open spec fn ports_in_lines(lines: Seq<Seq<char>>) -> Seq<u16>
    decreases lines.len(),
{
    if lines.len() == 0 {
        Seq::empty()
    } else {
        ports_in_lines(lines.drop_last()) + (match line_port(lines.last()) {
            Some(p) => seq![p],
            None => Seq::<u16>::empty(),
        })
    }
}

/// The ports a whole table text contributes: every line after the
/// header.
pub open spec fn ports_of_content(s: Seq<char>) -> Seq<u16> {
    let lines = lines_spec(s);
    if lines.len() <= 1 {
        Seq::empty()
    } else {
        ports_in_lines(lines.skip(1))
    }
}

/// Scan one table text and append the ports of its data lines.
pub fn parse_proc_net_tcp(content: &str, ports: &mut Vec<u16>)
    ensures
        final(ports)@ == old(ports)@ + ports_of_content(content@),
{
    proof {
        reveal_strlit("00000000");
        reveal_strlit("00000000000000000000000000000000");
    }
    let raw = text::split_on_char(content, '\n');
    let ghost rawv = raw@.map_values(|t: String| t@);
    let mut raw = raw;
    proof {
        text::lemma_split_on_nonempty(content@, '\n');
    }
    if raw[raw.len() - 1].as_str().unicode_len() == 0 {
        raw.pop();
        proof {
            assert(raw@.map_values(|t: String| t@) =~= rawv.drop_last());
        }
    }
    let ghost lv = lines_spec(content@);
    proof {
        assert(raw@.map_values(|t: String| t@).map_values(|l: Seq<char>| strip_cr(l)) =~= lv);
    }
    let n = raw.len();
    if n <= 1 {
        proof {
            assert(old(ports)@ + ports_of_content(content@) =~= old(ports)@);
        }
        return ;
    }
    let mut i: usize = 1;
    proof {
        assert(ports@ =~= old(ports)@ + ports_in_lines(lv.subrange(1, 1)));
    }
    while i < n
        invariant
            n == raw@.len(),
            1 <= i <= n,
            lv == lines_spec(content@),
            lv.len() == n,
            forall|j: int| 0 <= j < n ==> lv[j] == strip_cr((#[trigger] raw@[j])@),
            ports@ == old(ports)@ + ports_in_lines(lv.subrange(1, i as int)),
        decreases n - i,
    {
        proof {
            reveal_strlit("00000000");
            reveal_strlit("00000000000000000000000000000000");
            assert(lv.subrange(1, i + 1 as int).drop_last() =~= lv.subrange(1, i as int));
            assert(lv.subrange(1, i + 1 as int).last() == lv[i as int]);
        }
        let line = strip_cr_exec(raw[i].as_str());
        assert(line@ == lv[i as int]);
        let toks = escape::split_whitespace_tokens(line.as_str());
        if toks.len() >= 2 {
            let parts = text::split_on_char(toks[1].as_str(), ':');
            proof {
                assert(toks@.map_values(|t: String| t@)[1] == escape::ws_tokens(line@)[1]);
                text::lemma_split_on_nonempty(toks@[1]@, ':');
            }
            if parts.len() >= 2 {
                proof {
                    assert(parts@.map_values(|t: String| t@)[0] == text::split_on_spec(
                        escape::ws_tokens(line@)[1],
                        ':',
                    )[0]);
                    assert(parts@.map_values(|t: String| t@)[1] == text::split_on_spec(
                        escape::ws_tokens(line@)[1],
                        ':',
                    )[1]);
                }
                let ip_ok = text::str_eq(parts[0].as_str(), "00000000") || text::str_eq(
                    parts[0].as_str(),
                    "00000000000000000000000000000000",
                );
                if ip_ok {
                    match num::parse_radix_bounded(parts[1].as_str(), 16, 0xFFFF) {
                        Some(v) => {
                            let ghost p0 = ports@;
                            ports.push(v as u16);
                            proof {
                                assert(ports@ =~= p0 + seq![v as u16]);
                                assert(old(ports)@ + ports_in_lines(lv.subrange(1, i + 1 as int))
                                    =~= ports@);
                            }
                        },
                        None => {
                            proof {
                                assert(old(ports)@ + ports_in_lines(lv.subrange(1, i + 1 as int))
                                    =~= ports@);
                            }
                        },
                    }
                } else {
                    proof {
                        assert(old(ports)@ + ports_in_lines(lv.subrange(1, i + 1 as int))
                            =~= ports@);
                    }
                }
            } else {
                proof {
                    assert(old(ports)@ + ports_in_lines(lv.subrange(1, i + 1 as int)) =~= ports@);
                }
            }
        } else {
            proof {
                assert(old(ports)@ + ports_in_lines(lv.subrange(1, i + 1 as int)) =~= ports@);
            }
        }
        i += 1;
    }
    proof {
        assert(lv.subrange(1, n as int) =~= lv.skip(1));
    }
}

/// Remove a trailing carriage return.
fn strip_cr_exec(l: &str) -> (r: String)
    ensures
        r@ == strip_cr(l@),
{
    let len = l.unicode_len();
    if len > 0 && l.get_char(len - 1) == '\r' {
        let r = l.substring_char(0, len - 1);
        proof {
            assert(r@ =~= l@.drop_last());
        }
        r.to_owned()
    } else {
        l.to_owned()
    }
}

/// Keeping order, the first occurrence of each port not on the excluded
/// list.
pub open spec fn filter_ports_spec(ports: Seq<u16>, excluded: Seq<u16>) -> Seq<u16>
    decreases ports.len(),
{
    if ports.len() == 0 {
        Seq::empty()
    } else {
        let pre = filter_ports_spec(ports.drop_last(), excluded);
        if excluded.contains(ports.last()) || pre.contains(ports.last()) {
            pre
        } else {
            pre.push(ports.last())
        }
    }
}

fn vec_contains_u16(v: &Vec<u16>, x: u16) -> (r: bool)
    ensures
        r == v@.contains(x),
{
    let n = v.len();
    let mut i: usize = 0;
    while i < n
        invariant
            n == v@.len(),
            i <= n,
            forall|j: int| 0 <= j < i ==> v@[j] != x,
        decreases n - i,
    {
        if v[i] == x {
            return true;
        }
        i += 1;
    }
    proof {
        if v@.contains(x) {
            let w = choose|w: int| 0 <= w < v@.len() && v@[w] == x;
            assert(v@[w] != x);
        }
    }
    false
}

/// Deduplicate collected ports and drop the excluded ones, keeping the
/// order of first appearance.
pub fn filter_ports(ports: &Vec<u16>, excluded: &Vec<u16>) -> (r: Vec<u16>)
    ensures
        r@ == filter_ports_spec(ports@, excluded@),
{
    let n = ports.len();
    let mut out: Vec<u16> = Vec::new();
    let mut i: usize = 0;
    proof {
        assert(filter_ports_spec(ports@.subrange(0, 0), excluded@) =~= out@);
    }
    while i < n
        invariant
            n == ports@.len(),
            i <= n,
            out@ == filter_ports_spec(ports@.subrange(0, i as int), excluded@),
        decreases n - i,
    {
        proof {
            assert(ports@.subrange(0, i + 1 as int).drop_last() =~= ports@.subrange(0, i as int));
            assert(ports@.subrange(0, i + 1 as int).last() == ports@[i as int]);
        }
        let p = ports[i];
        if !vec_contains_u16(excluded, p) && !vec_contains_u16(&out, p) {
            out.push(p);
        }
        i += 1;
    }
    proof {
        assert(ports@.subrange(0, n as int) =~= ports@);
    }
    out
}

/// Every port the two tables show bound on the wildcard address, with
/// the excluded ports dropped and duplicates removed. A table that
/// could not be read contributes nothing.
pub fn collect_open_ports(tcp: Option<&str>, tcp6: Option<&str>, excluded: &Vec<u16>) -> (r: Vec<
    u16,
>)
    ensures
        ({
            let from4 = match tcp {
                Some(c) => ports_of_content(c@),
                None => Seq::<u16>::empty(),
            };
            let from6 = match tcp6 {
                Some(c) => ports_of_content(c@),
                None => Seq::<u16>::empty(),
            };
            r@ == filter_ports_spec(from4 + from6, excluded@)
        }),
{
    let mut ports: Vec<u16> = Vec::new();
    match tcp {
        Some(c) => parse_proc_net_tcp(c, &mut ports),
        None => {},
    }
    match tcp6 {
        Some(c) => parse_proc_net_tcp(c, &mut ports),
        None => {},
    }
    proof {
        let from4 = match tcp {
            Some(c) => ports_of_content(c@),
            None => Seq::<u16>::empty(),
        };
        let from6 = match tcp6 {
            Some(c) => ports_of_content(c@),
            None => Seq::<u16>::empty(),
        };
        assert(ports@ =~= from4 + from6);
    }
    filter_ports(&ports, excluded)
}

} // verus!
