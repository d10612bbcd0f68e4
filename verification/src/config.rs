//! Configuration resolution: environment values, overridden by
//! command-line flags, with fixed defaults; a missing token falls back
//! to a fallback variable and then to a freshly minted one.

use vstd::prelude::*;
use crate::api::Config;
use crate::num;
use crate::text;

verus! {

/// The environment values configuration reads.
pub struct ConfigEnv {
    pub addr: Option<String>,
    pub workspace_path: Option<String>,
    pub max_file_size: Option<String>,
    pub token: Option<String>,
    pub token_fallback: Option<String>,
}

/// The value of the last argument that begins with `prefix`, without the
/// prefix.
pub open spec fn flag_value(args: Seq<Seq<char>>, prefix: Seq<char>) -> Option<Seq<char>>
    decreases args.len(),
{
    if args.len() == 0 {
        None
    } else if text::spec_starts_with(args.last(), prefix) {
        Some(args.last().skip(prefix.len() as int))
    } else {
        flag_value(args.drop_last(), prefix)
    }
}

/// The value of the last argument that begins with `prefix` and whose
/// remainder is a decimal `u64`.
pub open spec fn flag_u64(args: Seq<Seq<char>>, prefix: Seq<char>) -> Option<nat>
    decreases args.len(),
{
    if args.len() == 0 {
        None
    } else if text::spec_starts_with(args.last(), prefix) && num::parse_radix_spec(
        args.last().skip(prefix.len() as int),
        10,
        u64::MAX as nat,
    ) is Some {
        num::parse_radix_spec(args.last().skip(prefix.len() as int), 10, u64::MAX as nat)
    } else {
        flag_u64(args.drop_last(), prefix)
    }
}

/// What the size limit resolves to from the environment alone.
pub open spec fn env_max_spec(env_max: Option<String>) -> nat {
    match env_max {
        Some(s) => match num::parse_radix_spec(s@, 10, u64::MAX as nat) {
            Some(v) => v,
            None => 104857600,
        },
        None => 104857600,
    }
}

/// Two prefixes that differ at some index cannot both begin one string.
proof fn lemma_prefixes_exclusive(a: Seq<char>, p1: Seq<char>, p2: Seq<char>, k: int)
    requires
        0 <= k < p1.len(),
        k < p2.len(),
        p1[k] != p2[k],
    ensures
        !(text::spec_starts_with(a, p1) && text::spec_starts_with(a, p2)),
{
    if text::spec_starts_with(a, p1) && text::spec_starts_with(a, p2) {
        assert(a.subrange(0, p1.len() as int)[k] == a[k]);
        assert(a.subrange(0, p2.len() as int)[k] == a[k]);
    }
}

/// Resolve the configuration: each field takes the last matching
/// command-line flag, else its environment value, else its default. The
/// token falls back from `TOKEN` to the fallback variable to
/// `minted_token`, so a token is always present.
pub fn resolve_config(env: ConfigEnv, args: &Vec<String>, minted_token: String) -> (r: Config)
    ensures
        ({
            let av = args@.map_values(|s: String| s@);
            &&& r.addr@ == (match flag_value(av, "--addr="@) {
                Some(v) => v,
                None => match env.addr {
                    Some(a) => a@,
                    None => "0.0.0.0:9757"@,
                },
            })
            &&& r.workspace_path@ == (match flag_value(av, "--workspace-path="@) {
                Some(v) => v,
                None => match env.workspace_path {
                    Some(w) => w@,
                    None => "/home/devbox/project"@,
                },
            })
            &&& r.max_file_size as nat == (match flag_u64(av, "--max-file-size="@) {
                Some(v) => v,
                None => env_max_spec(env.max_file_size),
            })
            &&& r.token matches Some(t) && t@ == (match flag_value(av, "--token="@) {
                Some(v) => v,
                None => match env.token {
                    Some(t0) => t0@,
                    None => match env.token_fallback {
                        Some(t1) => t1@,
                        None => minted_token@,
                    },
                },
            })
        }),
{
    proof {
        reveal_strlit("--addr=");
        reveal_strlit("--workspace-path=");
        reveal_strlit("--max-file-size=");
        reveal_strlit("--token=");
        reveal_strlit("0.0.0.0:9757");
        reveal_strlit("/home/devbox/project");
    }
    let ghost av = args@.map_values(|s: String| s@);
    let mut addr: String = match env.addr {
        Some(a) => a,
        None => String::from_str("0.0.0.0:9757"),
    };
    let mut workspace: String = match env.workspace_path {
        Some(w) => w,
        None => String::from_str("/home/devbox/project"),
    };
    let mut max_file_size: u64 = match &env.max_file_size {
        Some(s) => match num::parse_u64(s.as_str()) {
            Some(v) => v,
            None => 104857600,
        },
        None => 104857600,
    };
    let mut token: Option<String> = match env.token {
        Some(t) => Some(t),
        None => match env.token_fallback {
            Some(t) => Some(t),
            None => None,
        },
    };

    let n = args.len();
    let mut i: usize = 0;
    while i < n
        invariant
            n == args@.len(),
            i <= n,
            av == args@.map_values(|s: String| s@),
            av.len() == n,
            addr@ == (match flag_value(av.subrange(0, i as int), "--addr="@) {
                Some(v) => v,
                None => match env.addr {
                    Some(a) => a@,
                    None => "0.0.0.0:9757"@,
                },
            }),
            workspace@ == (match flag_value(av.subrange(0, i as int), "--workspace-path="@) {
                Some(v) => v,
                None => match env.workspace_path {
                    Some(w) => w@,
                    None => "/home/devbox/project"@,
                },
            }),
            max_file_size as nat == (match flag_u64(av.subrange(0, i as int), "--max-file-size="@) {
                Some(v) => v,
                None => env_max_spec(env.max_file_size),
            }),
            (match flag_value(av.subrange(0, i as int), "--token="@) {
                Some(v) => token matches Some(t) && t@ == v,
                None => match env.token {
                    Some(t0) => token matches Some(t) && t@ == t0@,
                    None => match env.token_fallback {
                        Some(t1) => token matches Some(t) && t@ == t1@,
                        None => token is None,
                    },
                },
            }),
        decreases n - i,
    {
        let ghost pre = av.subrange(0, i as int);
        let ghost pre1 = av.subrange(0, i + 1 as int);
        proof {
            assert(pre1.drop_last() =~= pre);
            assert(pre1.last() == av[i as int]);
            reveal_strlit("--addr=");
            reveal_strlit("--workspace-path=");
            reveal_strlit("--max-file-size=");
            reveal_strlit("--token=");
            lemma_prefixes_exclusive(av[i as int], "--addr="@, "--token="@, 2);
            lemma_prefixes_exclusive(av[i as int], "--addr="@, "--workspace-path="@, 2);
            lemma_prefixes_exclusive(av[i as int], "--addr="@, "--max-file-size="@, 2);
            lemma_prefixes_exclusive(av[i as int], "--token="@, "--workspace-path="@, 2);
            lemma_prefixes_exclusive(av[i as int], "--token="@, "--max-file-size="@, 2);
            lemma_prefixes_exclusive(av[i as int], "--workspace-path="@, "--max-file-size="@, 2);
        }
        let arg = &args[i];
        if text::starts_with(arg.as_str(), "--addr=") {
            addr = text::suffix_from(arg.as_str(), 7);
        } else if text::starts_with(arg.as_str(), "--token=") {
            token = Some(text::suffix_from(arg.as_str(), 8));
        } else if text::starts_with(arg.as_str(), "--workspace-path=") {
            workspace = text::suffix_from(arg.as_str(), 17);
        } else if text::starts_with(arg.as_str(), "--max-file-size=") {
            let rest = text::suffix_from(arg.as_str(), 16);
            match num::parse_u64(rest.as_str()) {
                Some(v) => {
                    max_file_size = v;
                },
                None => {},
            }
        }
        i += 1;
    }
    proof {
        assert(av.subrange(0, n as int) =~= av);
    }
    let token: String = match token {
        Some(t) => t,
        None => minted_token,
    };
    Config { addr, workspace_path: workspace, max_file_size, token: Some(token) }
}

/// A token rendered for display: long tokens keep their first and last
/// three characters around a fixed mask, anything else is all mask.
pub fn mask_token(t: &str) -> (r: String)
    ensures
        ({
            if t@.len() > 6 {
                r@ == t@.subrange(0, 3) + "******"@ + t@.subrange(t@.len() - 3, t@.len() as int)
            } else {
                r@ == "******"@
            }
        }),
{
    proof {
        reveal_strlit("******");
    }
    let len = t.unicode_len();
    if len > 6 {
        let mut s = t.substring_char(0, 3).to_owned();
        s.append("******");
        let tail = t.substring_char(len - 3, len);
        s.append(tail);
        s
    } else {
        String::from_str("******")
    }
}

} // verus!
