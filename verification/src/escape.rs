//! Spawn construction: shell-safe escaping of arguments, the `shell -c`
//! script a command with arguments becomes, and whitespace splitting for
//! bare commands.

use vstd::prelude::*;
use crate::text;

verus! {

/// Characters that pass through shell escaping unquoted.
pub open spec fn is_safe_char(c: char) -> bool {
    ||| 'A' <= c <= 'Z'
    ||| 'a' <= c <= 'z'
    ||| '0' <= c <= '9'
    ||| c == ','
    ||| c == '.'
    ||| c == '_'
    ||| c == '+'
    ||| c == ':'
    ||| c == '@'
    ||| c == '/'
    ||| c == '-'
}

pub open spec fn all_safe(s: Seq<char>) -> bool {
    forall|i: int| 0 <= i < s.len() ==> is_safe_char(#[trigger] s[i])
}

/// The inside of a quoted argument: each embedded single quote becomes
/// `'\''`, everything else stays.
pub open spec fn quoted_body(s: Seq<char>) -> Seq<char>
    decreases s.len(),
{
    if s.len() == 0 {
        Seq::empty()
    } else {
        quoted_body(s.drop_last()) + (if s.last() == '\'' {
            seq!['\'', '\\', '\'', '\'']
        } else {
            seq![s.last()]
        })
    }
}

/// A shell-safe rendering of one argument: empty becomes `''`, a string
/// of safe characters passes through, anything else is single-quoted
/// with embedded quotes escaped.
pub open spec fn shell_escape_spec(s: Seq<char>) -> Seq<char> {
    if s.len() == 0 {
        seq!['\'', '\'']
    } else if all_safe(s) {
        s
    } else {
        seq!['\''] + quoted_body(s) + seq!['\'']
    }
}

fn is_safe_char_exec(c: char) -> (r: bool)
    ensures
        r == is_safe_char(c),
{
    ('A' <= c && c <= 'Z') || ('a' <= c && c <= 'z') || ('0' <= c && c <= '9') || c == ','
        || c == '.' || c == '_' || c == '+' || c == ':' || c == '@' || c == '/' || c == '-'
}

/// Render one argument shell-safe, as `shell_escape_spec` says.
pub fn shell_escape(s: &str) -> (r: String)
    ensures
        r@ == shell_escape_spec(s@),
{
    let len = s.unicode_len();
    if len == 0 {
        proof {
            reveal_strlit("''");
        }
        let r = String::from_str("''");
        assert(r@ =~= seq!['\'', '\'']);
        return r;
    }
    let mut safe = true;
    let mut i: usize = 0;
    while i < len
        invariant
            len == s@.len(),
            i <= len,
            safe == all_safe(s@.subrange(0, i as int)),
        decreases len - i,
    {
        let c = s.get_char(i);
        let ghost pre = s@.subrange(0, i as int);
        let ghost pre1 = s@.subrange(0, i + 1 as int);
        if !is_safe_char_exec(c) {
            safe = false;
        }
        proof {
            if safe {
                assert forall|j: int| 0 <= j < pre1.len() implies is_safe_char(
                    #[trigger] pre1[j],
                ) by {
                    if j < i {
                        assert(pre[j] == pre1[j]);
                    }
                }
            } else {
                if all_safe(pre1) {
                    if !all_safe(pre) {
                        let w = choose|w: int| 0 <= w < pre.len() && !is_safe_char(pre[w]);
                        assert(pre1[w] == pre[w]);
                    } else {
                        assert(!is_safe_char(pre1[i as int]));
                    }
                }
            }
        }
        i += 1;
    }
    proof {
        assert(s@.subrange(0, len as int) =~= s@);
    }
    if safe {
        return s.to_owned();
    }
    proof {
        reveal_strlit("'");
        reveal_strlit("'\\''");
    }
    let mut out = String::from_str("'");
    assert(out@ =~= seq!['\'']);
    let mut k: usize = 0;
    while k < len
        invariant
            len == s@.len(),
            k <= len,
            out@ == seq!['\''] + quoted_body(s@.subrange(0, k as int)),
        decreases len - k,
    {
        let ghost pre = s@.subrange(0, k as int);
        let ghost pre1 = s@.subrange(0, k + 1 as int);
        proof {
            assert(pre1.drop_last() =~= pre);
        }
        let c = s.get_char(k);
        if c == '\'' {
            out.append("'\\''");
            proof {
                reveal_strlit("'\\''");
                assert(("'\\''")@ =~= seq!['\'', '\\', '\'', '\'']);
                assert(out@ =~= seq!['\''] + quoted_body(pre1));
            }
        } else {
            text::push_char_of(&mut out, s, k);
            proof {
                assert(out@ =~= seq!['\''] + quoted_body(pre1));
            }
        }
        k += 1;
    }
    out.append("'");
    proof {
        assert(s@.subrange(0, len as int) =~= s@);
        assert(out@ =~= seq!['\''] + quoted_body(s@) + seq!['\'']);
    }
    out
}

/// The script handed to `shell -c`: the command, then each argument
/// escaped and joined with single spaces.
pub open spec fn script_spec(cmd: Seq<char>, args: Seq<Seq<char>>) -> Seq<char>
    decreases args.len(),
{
    if args.len() == 0 {
        cmd
    } else {
        script_spec(cmd, args.drop_last()) + seq![' '] + shell_escape_spec(args.last())
    }
}

/// Build the `shell -c` script for a command and its arguments.
pub fn build_script(command: &str, args: &Vec<String>) -> (r: String)
    ensures
        r@ == script_spec(command@, args@.map_values(|s: String| s@)),
{
    let ghost av = args@.map_values(|s: String| s@);
    let mut script = command.to_owned();
    let n = args.len();
    let mut i: usize = 0;
    while i < n
        invariant
            n == args@.len(),
            av == args@.map_values(|s: String| s@),
            av.len() == n,
            i <= n,
            script@ == script_spec(command@, av.subrange(0, i as int)),
        decreases n - i,
    {
        proof {
            reveal_strlit(" ");
            assert(av.subrange(0, i + 1 as int).drop_last() =~= av.subrange(0, i as int));
        }
        script.append(" ");
        let esc = shell_escape(args[i].as_str());
        script.append(esc.as_str());
        proof {
            assert((" ")@ =~= seq![' ']);
            assert(script@ =~= script_spec(command@, av.subrange(0, i + 1 as int)));
        }
        i += 1;
    }
    proof {
        assert(av.subrange(0, n as int) =~= av);
    }
    script
}

/// The whitespace that separates tokens of a bare command.
pub open spec fn is_space(c: char) -> bool {
    c == ' ' || c == '\t' || c == '\n' || c == '\r' || c == '\u{b}' || c == '\u{c}'
}

/// `s` split on whitespace, empty pieces kept.
pub open spec fn ws_split_raw(s: Seq<char>) -> Seq<Seq<char>>
    decreases s.len(),
{
    if s.len() == 0 {
        seq![Seq::<char>::empty()]
    } else {
        let rest = ws_split_raw(s.drop_last());
        if is_space(s.last()) {
            rest.push(Seq::<char>::empty())
        } else {
            rest.update(rest.len() - 1, rest.last().push(s.last()))
        }
    }
}

proof fn lemma_ws_split_raw_nonempty(s: Seq<char>)
    ensures
        ws_split_raw(s).len() >= 1,
    decreases s.len(),
{
    if s.len() > 0 {
        lemma_ws_split_raw_nonempty(s.drop_last());
    }
}

/// The pieces that are not empty.
pub open spec fn nonempty_of(cs: Seq<Seq<char>>) -> Seq<Seq<char>>
    decreases cs.len(),
{
    if cs.len() == 0 {
        Seq::empty()
    } else if cs.last().len() == 0 {
        nonempty_of(cs.drop_last())
    } else {
        nonempty_of(cs.drop_last()).push(cs.last())
    }
}

/// The whitespace-separated tokens of a bare command.
pub open spec fn ws_tokens(s: Seq<char>) -> Seq<Seq<char>> {
    nonempty_of(ws_split_raw(s))
}

/// Split a bare command on whitespace into its tokens.
pub fn split_whitespace_tokens(s: &str) -> (r: Vec<String>)
    ensures
        r@.map_values(|t: String| t@) == ws_tokens(s@),
{
    let len = s.unicode_len();
    let mut toks: Vec<String> = Vec::new();
    let mut cur = String::new();
    let mut i: usize = 0;
    proof {
        assert(ws_split_raw(s@.subrange(0, 0)) =~= seq![Seq::<char>::empty()]);
        assert(toks@.map_values(|t: String| t@) =~= nonempty_of(
            ws_split_raw(s@.subrange(0, 0)).drop_last(),
        ));
    }
    while i < len
        invariant
            len == s@.len(),
            i <= len,
            cur@ == ws_split_raw(s@.subrange(0, i as int)).last(),
            toks@.map_values(|t: String| t@) == nonempty_of(
                ws_split_raw(s@.subrange(0, i as int)).drop_last(),
            ),
        decreases len - i,
    {
        let ghost p = s@.subrange(0, i as int);
        let ghost p1 = s@.subrange(0, i + 1 as int);
        proof {
            assert(p1.drop_last() =~= p);
            lemma_ws_split_raw_nonempty(p);
        }
        let c = s.get_char(i);
        let space = c == ' ' || c == '\t' || c == '\n' || c == '\r' || c == '\u{b}' || c
            == '\u{c}';
        if space {
            if cur.as_str().unicode_len() > 0 {
                let ghost t0 = toks@;
                toks.push(cur);
                proof {
                    assert(toks@.map_values(|t: String| t@) =~= t0.map_values(|t: String| t@)
                        .push(ws_split_raw(p).last()));
                }
            } else {
                proof {
                    assert(nonempty_of(ws_split_raw(p)) =~= nonempty_of(
                        ws_split_raw(p).drop_last(),
                    ));
                }
            }
            cur = String::new();
            proof {
                assert(ws_split_raw(p1) == ws_split_raw(p).push(Seq::<char>::empty()));
                assert(ws_split_raw(p1).drop_last() =~= ws_split_raw(p));
            }
        } else {
            text::push_char_of(&mut cur, s, i);
            proof {
                let sp = ws_split_raw(p);
                let sp1 = ws_split_raw(p1);
                assert(sp1 == sp.update(sp.len() - 1, sp.last().push(c)));
                assert(sp1.drop_last() =~= sp.drop_last());
            }
        }
        i += 1;
    }
    proof {
        assert(s@.subrange(0, len as int) =~= s@);
        lemma_ws_split_raw_nonempty(s@);
    }
    if cur.as_str().unicode_len() > 0 {
        let ghost t0 = toks@;
        toks.push(cur);
        proof {
            assert(toks@.map_values(|t: String| t@) =~= t0.map_values(|t: String| t@).push(
                ws_split_raw(s@).last(),
            ));
            assert(toks@.map_values(|t: String| t@) =~= ws_tokens(s@));
        }
    } else {
        proof {
            assert(nonempty_of(ws_split_raw(s@)) =~= nonempty_of(ws_split_raw(s@).drop_last()));
        }
    }
    toks
}

/// How a request's command is handed to the OS.
pub enum SpawnPlan {
    /// Run `shell -c <script>`.
    Shell { shell: String, script: String },
    /// Run `program` with `args` directly.
    Direct { program: String, args: Vec<String> },
}

/// Build the spawn plan of a request: with a shell, the command and its
/// escaped arguments become one `-c` script; without one, explicit
/// arguments are passed through, and a bare command with whitespace is
/// split into tokens, the first being the binary.
pub fn spawn_plan(command: &str, args: &Option<Vec<String>>, shell: &Option<String>) -> (r:
    SpawnPlan)
    ensures
        match shell {
            Some(sh) => r matches SpawnPlan::Shell { shell: rsh, script } && rsh@ == sh@
                && script@ == script_spec(
                command@,
                match args {
                    Some(a) => a@.map_values(|s: String| s@),
                    None => Seq::<Seq<char>>::empty(),
                },
            ),
            None => match args {
                Some(a) => r matches SpawnPlan::Direct { program, args: ra } && program@
                    == command@ && ra@.map_values(|s: String| s@) == a@.map_values(
                    |s: String| s@,
                ),
                None => {
                    let toks = ws_tokens(command@);
                    if toks.len() > 1 {
                        r matches SpawnPlan::Direct { program, args: ra } && program@ == toks[0]
                            && ra@.map_values(|s: String| s@) == toks.skip(1)
                    } else {
                        r matches SpawnPlan::Direct { program, args: ra } && program@ == command@
                            && ra@.len() == 0
                    }
                },
            },
        },
{
    match shell {
        Some(sh) => {
            let script = match args {
                Some(a) => build_script(command, a),
                None => {
                    let empty_args: Vec<String> = Vec::new();
                    let r = build_script(command, &empty_args);
                    proof {
                        assert(empty_args@.map_values(|s: String| s@) =~= Seq::<
                            Seq<char>,
                        >::empty());
                    }
                    r
                },
            };
            SpawnPlan::Shell { shell: sh.clone(), script }
        },
        None => match args {
            Some(a) => {
                let mut copy: Vec<String> = Vec::new();
                let n = a.len();
                let mut i: usize = 0;
                while i < n
                    invariant
                        n == a@.len(),
                        i <= n,
                        copy@.len() == i,
                        forall|j: int| 0 <= j < i ==> (#[trigger] copy@[j]) == a@[j],
                    decreases n - i,
                {
                    let c = a[i].clone();
                    assert(c == a@[i as int]);
                    copy.push(c);
                    i += 1;
                }
                proof {
                    assert(copy@.map_values(|s: String| s@) =~= a@.map_values(|s: String| s@));
                }
                SpawnPlan::Direct { program: command.to_owned(), args: copy }
            },
            None => {
                let mut toks = split_whitespace_tokens(command);
                let ghost tv = ws_tokens(command@);
                if toks.len() > 1 {
                    let program = toks.remove(0);
                    proof {
                        assert(program@ == tv[0]);
                        assert(toks@.map_values(|s: String| s@) =~= tv.skip(1));
                    }
                    SpawnPlan::Direct { program, args: toks }
                } else {
                    let none_args: Vec<String> = Vec::new();
                    SpawnPlan::Direct { program: command.to_owned(), args: none_args }
                }
            },
        },
    }
}

} // verus!
