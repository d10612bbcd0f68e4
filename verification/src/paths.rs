//! Textual path resolution against the workspace root: paths are split on
//! `/`, `.` and `..` are resolved without touching the filesystem, and
//! absolute user paths are deliberately allowed to leave the workspace.

use vstd::prelude::*;
use crate::text;

verus! {

/// `s` split on `/`, empty pieces kept: splitting `a//b` gives an empty
/// middle piece, and the result always has one more piece than separators.
pub open spec fn split_path(s: Seq<char>) -> Seq<Seq<char>>
    decreases s.len(),
{
    if s.len() == 0 {
        seq![Seq::<char>::empty()]
    } else {
        let rest = split_path(s.drop_last());
        if s.last() == '/' {
            rest.push(Seq::<char>::empty())
        } else {
            rest.update(rest.len() - 1, rest.last().push(s.last()))
        }
    }
}

/// Splitting always yields at least one piece.
pub proof fn lemma_split_path_nonempty(s: Seq<char>)
    ensures
        split_path(s).len() >= 1,
    decreases s.len(),
{
    if s.len() > 0 {
        lemma_split_path_nonempty(s.drop_last());
    }
}

pub open spec fn dot() -> Seq<char> {
    seq!['.']
}

pub open spec fn dotdot() -> Seq<char> {
    seq!['.', '.']
}

/// One step of normalization: empty pieces and `.` disappear, `..` removes
/// the piece before it where there is one, and anything else is kept.
pub open spec fn norm_step(acc: Seq<Seq<char>>, c: Seq<char>) -> Seq<Seq<char>> {
    if c.len() == 0 || c == dot() {
        acc
    } else if c == dotdot() {
        if acc.len() == 0 {
            acc
        } else {
            acc.drop_last()
        }
    } else {
        acc.push(c)
    }
}

/// The normalized components of a piece list.
pub open spec fn norm_fold(cs: Seq<Seq<char>>) -> Seq<Seq<char>>
    decreases cs.len(),
{
    if cs.len() == 0 {
        Seq::empty()
    } else {
        norm_step(norm_fold(cs.drop_last()), cs.last())
    }
}

/// Components joined with `/` between them.
pub open spec fn join_components(cs: Seq<Seq<char>>) -> Seq<char>
    decreases cs.len(),
{
    if cs.len() == 0 {
        Seq::empty()
    } else if cs.len() == 1 {
        cs[0]
    } else {
        join_components(cs.drop_last()) + seq!['/'] + cs.last()
    }
}

pub open spec fn is_absolute(s: Seq<char>) -> bool {
    s.len() > 0 && s[0] == '/'
}

/// The normalized components of a path string.
pub open spec fn path_components(s: Seq<char>) -> Seq<Seq<char>> {
    norm_fold(split_path(s))
}

/// `s` with `.` and `..` resolved textually: the normalized components,
/// joined, with a leading `/` kept for absolute paths.
pub open spec fn normalize_path_spec(s: Seq<char>) -> Seq<char> {
    if is_absolute(s) {
        seq!['/'] + join_components(path_components(s))
    } else {
        join_components(path_components(s))
    }
}

/// What resolving `user` against the workspace root `base` yields: an
/// absolute `user` path is normalized and returned as it is — it may leave
/// the workspace, a deliberate deployment decision — and a relative one is
/// joined to `base` first; an empty result becomes `.`.
pub open spec fn validate_path_spec(base: Seq<char>, user: Seq<char>) -> Seq<char> {
    let n = if is_absolute(user) {
        normalize_path_spec(user)
    } else if base.len() == 0 {
        normalize_path_spec(user)
    } else {
        normalize_path_spec(base + seq!['/'] + user)
    };
    if n.len() == 0 {
        dot()
    } else {
        n
    }
}

/// An absolute user path is resolved without regard to the workspace root:
/// two deployments with different roots hand it the same way through.
pub proof fn lemma_validate_absolute_ignores_root(
    base1: Seq<char>,
    base2: Seq<char>,
    user: Seq<char>,
)
    requires
        is_absolute(user),
    ensures
        validate_path_spec(base1, user) == validate_path_spec(base2, user),
{
}

/// Resolving `..` against a workspace root names the root's parent: its
/// components are those of the root with the last one removed, so the
/// result stays within the root's own ancestry.
pub proof fn lemma_validate_parent_within_root(base: Seq<char>)
    requires
        base.len() > 0,
    ensures
        path_components(base + seq!['/'] + dotdot()) == (if path_components(base).len() == 0 {
            path_components(base)
        } else {
            path_components(base).drop_last()
        }),
        path_components(base + seq!['/'] + dotdot()).is_prefix_of(path_components(base)),
{
    let s1 = base + seq!['/'];
    let s2 = s1 + seq!['.'];
    let s3 = s2 + seq!['.'];
    lemma_split_path_nonempty(base);
    assert(s1.drop_last() =~= base);
    assert(split_path(s1) == split_path(base).push(Seq::<char>::empty()));
    assert(s2.drop_last() =~= s1);
    assert(split_path(s2) =~= split_path(base).push(seq!['.']));
    assert(s3.drop_last() =~= s2);
    assert(seq!['.'].push('.') =~= dotdot());
    assert(split_path(s3) =~= split_path(base).push(dotdot()));
    assert(s3 =~= base + seq!['/'] + dotdot());
    assert(split_path(s3).drop_last() =~= split_path(base));
    let nb = path_components(base);
    assert(path_components(s3) == norm_step(nb, dotdot()));
    if nb.len() == 0 {
        assert(path_components(s3) =~= nb);
    } else {
        assert(nb.drop_last().is_prefix_of(nb));
    }
}

pub open spec fn views_of(vs: Seq<String>) -> Seq<Seq<char>> {
    vs.map_values(|s: String| s@)
}

/// Apply one normalization step to the component stack.
fn apply_component(comps: &mut Vec<String>, c: &str)
    ensures
        views_of(final(comps)@) == norm_step(views_of(old(comps)@), c@),
{
    proof {
        reveal_strlit(".");
        reveal_strlit("..");
        assert((".")@ =~= dot());
        assert(("..")@ =~= dotdot());
    }
    if c.unicode_len() == 0 || text::str_eq(c, ".") {
        assert(c@.len() == 0 || c@ == dot());
        return;
    }
    if text::str_eq(c, "..") {
        assert(c@ == dotdot());
        if comps.len() > 0 {
            comps.pop();
            proof {
                assert(views_of(comps@) =~= views_of(old(comps)@).drop_last());
            }
        }
        return;
    }
    assert(!(c@.len() == 0 || c@ == dot() || c@ == dotdot()));
    comps.push(c.to_owned());
    proof {
        assert(views_of(comps@) =~= views_of(old(comps)@).push(c@));
    }
}

/// Resolve `.` and `..` in `path` textually, without touching the
/// filesystem. `..` at the start of a relative path, or at the root of an
/// absolute one, is dropped.
pub fn normalize_path(path: &str) -> (r: String)
    ensures
        r@ == normalize_path_spec(path@),
{
    let len = path.unicode_len();
    let absolute = len > 0 && path.get_char(0) == '/';
    let mut comps: Vec<String> = Vec::new();
    let mut cur = String::new();
    let mut i: usize = 0;
    proof {
        assert(split_path(path@.subrange(0, 0)) =~= seq![Seq::<char>::empty()]);
    }
    while i < len
        invariant
            len == path@.len(),
            i <= len,
            cur@ == split_path(path@.subrange(0, i as int)).last(),
            views_of(comps@) == norm_fold(
                split_path(path@.subrange(0, i as int)).drop_last(),
            ),
        decreases len - i,
    {
        let ghost p = path@.subrange(0, i as int);
        let ghost p1 = path@.subrange(0, i + 1 as int);
        proof {
            assert(p1.drop_last() =~= p);
            lemma_split_path_nonempty(p);
        }
        let c = path.get_char(i);
        if c == '/' {
            apply_component(&mut comps, cur.as_str());
            cur = String::new();
            proof {
                assert(split_path(p1) == split_path(p).push(Seq::<char>::empty()));
                assert(split_path(p1).drop_last() =~= split_path(p));
            }
        } else {
            text::push_char_of(&mut cur, path, i);
            proof {
                let sp = split_path(p);
                let sp1 = split_path(p1);
                assert(sp1 == sp.update(sp.len() - 1, sp.last().push(c)));
                assert(sp1.drop_last() =~= sp.drop_last());
            }
        }
        i += 1;
    }
    proof {
        assert(path@.subrange(0, len as int) =~= path@);
        lemma_split_path_nonempty(path@);
    }
    apply_component(&mut comps, cur.as_str());
    assert(views_of(comps@) == path_components(path@));

    // Render the components, with a leading `/` for absolute paths.
    let mut out = String::new();
    if absolute {
        proof {
            reveal_strlit("/");
        }
        out.append("/");
    }
    let ghost cv = views_of(comps@);
    let mut k: usize = 0;
    let n = comps.len();
    while k < n
        invariant
            n == comps@.len(),
            k <= n,
            cv == views_of(comps@),
            out@ == (if absolute { seq!['/'] } else { Seq::<char>::empty() }) + join_components(
                cv.subrange(0, k as int),
            ),
        decreases n - k,
    {
        if k > 0 {
            proof {
                reveal_strlit("/");
            }
            out.append("/");
        }
        out.append(comps[k].as_str());
        proof {
            let pre = cv.subrange(0, k as int);
            let pre1 = cv.subrange(0, k + 1 as int);
            assert(pre1.drop_last() =~= pre);
            assert(pre1.last() == cv[k as int]);
            if k == 0 {
                assert(join_components(pre1) == cv[0]);
                assert(out@ =~= (if absolute { seq!['/'] } else { Seq::<char>::empty() })
                    + join_components(pre1));
            } else {
                assert(join_components(pre1) == join_components(pre) + seq!['/'] + cv[k as int]);
                assert(out@ =~= (if absolute { seq!['/'] } else { Seq::<char>::empty() })
                    + join_components(pre1));
            }
        }
        k += 1;
    }
    proof {
        assert(cv.subrange(0, n as int) =~= cv);
        if !absolute {
            assert(out@ =~= join_components(cv));
        }
    }
    out
}

/// Resolve a user-supplied path against the workspace root: absolute paths
/// are normalized and returned even where they leave the workspace, and
/// relative paths are joined to the root first; an empty result becomes `.`.
pub fn validate_path(base: &str, user: &str) -> (r: String)
    ensures
        r@ == validate_path_spec(base@, user@),
{
    proof {
        reveal_strlit(".");
        reveal_strlit("/");
    }
    let user_len = user.unicode_len();
    let n: String = if user_len > 0 && user.get_char(0) == '/' {
        normalize_path(user)
    } else if base.unicode_len() == 0 {
        normalize_path(user)
    } else {
        let mut joined = base.to_owned();
        joined.append("/");
        joined.append(user);
        proof {
            assert(joined@ =~= base@ + seq!['/'] + user@);
        }
        normalize_path(joined.as_str())
    };
    if n.as_str().unicode_len() == 0 {
        let r = String::from_str(".");
        assert(r@ =~= dot());
        r
    } else {
        n
    }
}

} // verus!
