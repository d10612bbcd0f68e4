//! The bounded log ring: an ordered sequence of raw tagged lines with a
//! fixed capacity; appending to a full ring evicts the oldest line. The
//! same shape backs a per-consumer broadcast inbox with a smaller bound.

use vstd::prelude::*;
use std::collections::VecDeque;

verus! {

/// Capacity of one subscriber's broadcast inbox: a consumer that falls
/// this far behind loses its oldest pending lines, never the producer.
pub const BROADCAST_INBOX_CAPACITY: usize = 100;

/// What one append does to the contents: the line goes on the end, and the
/// head is dropped where the ring is already at capacity.
pub open spec fn ring_push_spec(contents: Seq<Seq<char>>, cap: nat, line: Seq<char>) -> Seq<
    Seq<char>,
> {
    if contents.len() < cap {
        contents.push(line)
    } else {
        contents.subrange(1, contents.len() as int).push(line)
    }
}

/// The contents after appending each of `lines` in order.
pub open spec fn ring_push_all_spec(
    contents: Seq<Seq<char>>,
    cap: nat,
    lines: Seq<Seq<char>>,
) -> Seq<Seq<char>>
    decreases lines.len(),
{
    if lines.len() == 0 {
        contents
    } else {
        ring_push_spec(ring_push_all_spec(contents, cap, lines.drop_last()), cap, lines.last())
    }
}

/// A bounded ordered sequence of log lines, oldest first.
pub struct LogRing {
    lines: VecDeque<String>,
    cap: usize,
}

impl LogRing {
    /// The lines the ring holds, oldest first.
    pub closed spec fn view(&self) -> Seq<Seq<char>> {
        self.lines@.map_values(|s: String| s@)
    }

    pub closed spec fn cap(&self) -> nat {
        self.cap as nat
    }

    pub open spec fn wf(&self) -> bool {
        self@.len() <= self.cap() && self.cap() >= 1
    }

    pub fn new(cap: usize) -> (r: LogRing)
        requires
            cap >= 1,
        ensures
            r.wf(),
            r@ == Seq::<Seq<char>>::empty(),
            r.cap() == cap,
    {
        let r = LogRing { lines: VecDeque::new(), cap };
        proof {
            assert(r@ =~= Seq::<Seq<char>>::empty());
        }
        r
    }

    pub fn len(&self) -> (n: usize)
        ensures
            n == self@.len(),
    {
        self.lines.len()
    }

    /// Append a line; a full ring drops its oldest line to make room.
    pub fn push(&mut self, line: String)
        requires
            old(self).wf(),
        ensures
            final(self).wf(),
            final(self).cap() == old(self).cap(),
            final(self)@ == ring_push_spec(old(self)@, old(self).cap(), line@),
    {
        if self.lines.len() >= self.cap {
            self.lines.pop_front();
        }
        self.lines.push_back(line);
        proof {
            if old(self)@.len() >= old(self).cap() {
                assert(self@ =~= old(self)@.subrange(1, old(self)@.len() as int).push(line@));
            } else {
                assert(self@ =~= old(self)@.push(line@));
            }
        }
    }

    /// The last `min(n, len)` lines, oldest first.
    pub fn tail(&self, n: usize) -> (r: Vec<String>)
        ensures
            r@.map_values(|s: String| s@) == self@.subrange(
                if n < self@.len() {
                    self@.len() - n
                } else {
                    0
                },
                self@.len() as int,
            ),
    {
        let len = self.lines.len();
        let start: usize = if n < len {
            len - n
        } else {
            0
        };
        let mut out: Vec<String> = Vec::new();
        let mut i: usize = start;
        proof {
            assert(out@.map_values(|s: String| s@) =~= self@.subrange(
                start as int,
                start as int,
            ));
        }
        while i < len
            invariant
                len == self@.len(),
                start <= i <= len,
                out@.map_values(|s: String| s@) == self@.subrange(start as int, i as int),
            decreases len - i,
        {
            let line = self.lines[i].clone();
            assert(line@ == self@[i as int]);
            out.push(line);
            proof {
                assert(self@.subrange(start as int, i + 1 as int) =~= self@.subrange(
                    start as int,
                    i as int,
                ).push(self@[i as int]));
                assert(out@.map_values(|s: String| s@) =~= self@.subrange(
                    start as int,
                    i as int,
                ).push(self@[i as int]));
            }
            i += 1;
        }
        out
    }

    /// Every line, oldest first.
    pub fn snapshot(&self) -> (r: Vec<String>)
        ensures
            r@.map_values(|s: String| s@) == self@,
    {
        let r = self.tail(self.lines.len());
        proof {
            assert(self@.subrange(0, self@.len() as int) =~= self@);
        }
        r
    }
}

/// A ring never holds more lines than its capacity, and a run of appends
/// to an empty ring keeps exactly the last `cap` lines: the earlier lines
/// are the evicted prefix.
pub proof fn lemma_ring_eviction(lines: Seq<Seq<char>>, cap: nat)
    requires
        cap >= 1,
    ensures
        ring_push_all_spec(Seq::empty(), cap, lines).len() <= cap,
        lines.len() <= cap ==> ring_push_all_spec(Seq::empty(), cap, lines) == lines,
        lines.len() > cap ==> ring_push_all_spec(Seq::empty(), cap, lines) == lines.subrange(
            lines.len() - cap,
            lines.len() as int,
        ),
    decreases lines.len(),
{
    if lines.len() == 0 {
        assert(ring_push_all_spec(Seq::empty(), cap, lines) =~= lines);
    } else {
        let pre = lines.drop_last();
        lemma_ring_eviction(pre, cap);
        let r0 = ring_push_all_spec(Seq::empty(), cap, pre);
        let r = ring_push_all_spec(Seq::empty(), cap, lines);
        assert(r == ring_push_spec(r0, cap, lines.last()));
        if pre.len() < cap {
            assert(r =~= lines);
        } else if pre.len() == cap {
            assert(r0 == pre);
            assert(r =~= lines.subrange(lines.len() - cap, lines.len() as int));
        } else {
            assert(r0 == pre.subrange(pre.len() - cap, pre.len() as int));
            assert(r =~= lines.subrange(lines.len() - cap, lines.len() as int));
        }
    }
}

} // verus!
