//! Raw log lines carry a bracketed tag; the level and the displayed
//! content are derived from the tag again whenever a line is read.

use vstd::prelude::*;
use crate::text;

verus! {

pub open spec fn tag_stdout() -> Seq<char> {
    "[stdout] "@
}

pub open spec fn tag_stderr() -> Seq<char> {
    "[stderr] "@
}

pub open spec fn tag_system() -> Seq<char> {
    "[system] "@
}

pub open spec fn tag_exec() -> Seq<char> {
    "[exec] "@
}

pub open spec fn tag_cd() -> Seq<char> {
    "[cd] "@
}

/// The level and content a raw ring line stands for.
pub open spec fn parse_log_entry_spec(raw: Seq<char>) -> (Seq<char>, Seq<char>) {
    if text::spec_starts_with(raw, tag_stdout()) {
        ("stdout"@, raw.skip(tag_stdout().len() as int))
    } else if text::spec_starts_with(raw, tag_stderr()) {
        ("stderr"@, raw.skip(tag_stderr().len() as int))
    } else if text::spec_starts_with(raw, tag_system()) {
        ("system"@, raw.skip(tag_system().len() as int))
    } else if text::spec_starts_with(raw, tag_exec()) {
        ("system"@, "Executing: "@ + raw.skip(tag_exec().len() as int))
    } else if text::spec_starts_with(raw, tag_cd()) {
        ("system"@, "Changed directory to: "@ + raw.skip(tag_cd().len() as int))
    } else {
        ("unknown"@, raw)
    }
}

/// Derive `(level, content)` from a raw ring line: `[stdout]`, `[stderr]`
/// and `[system]` tags carry their content as it is, `[exec]` and `[cd]`
/// lines become `system` messages, and an untagged line is `unknown`.
pub fn parse_log_entry(raw: &str) -> (r: (String, String))
    ensures
        (r.0@, r.1@) == parse_log_entry_spec(raw@),
{
    proof {
        reveal_strlit("[stdout] ");
        reveal_strlit("[stderr] ");
        reveal_strlit("[system] ");
        reveal_strlit("[exec] ");
        reveal_strlit("[cd] ");
    }
    if text::starts_with(raw, "[stdout] ") {
        ("stdout".to_owned(), text::suffix_from(raw, 9))
    } else if text::starts_with(raw, "[stderr] ") {
        ("stderr".to_owned(), text::suffix_from(raw, 9))
    } else if text::starts_with(raw, "[system] ") {
        ("system".to_owned(), text::suffix_from(raw, 9))
    } else if text::starts_with(raw, "[exec] ") {
        let mut content = String::from_str("Executing: ");
        let rest = text::suffix_from(raw, 7);
        content.append(rest.as_str());
        ("system".to_owned(), content)
    } else if text::starts_with(raw, "[cd] ") {
        let mut content = String::from_str("Changed directory to: ");
        let rest = text::suffix_from(raw, 5);
        content.append(rest.as_str());
        ("system".to_owned(), content)
    } else {
        ("unknown".to_owned(), raw.to_owned())
    }
}

/// A raw ring line for `content` under the given tag.
pub open spec fn tagged_line_spec(tag: Seq<char>, content: Seq<char>) -> Seq<char> {
    tag + content
}

/// Tag one line of child output for the ring: `[stdout] <line>`.
pub fn tag_stdout_line(line: &str) -> (r: String)
    ensures
        r@ == tagged_line_spec(tag_stdout(), line@),
{
    let mut s = String::from_str("[stdout] ");
    s.append(line);
    s
}

/// Tag one line of child error output for the ring: `[stderr] <line>`.
pub fn tag_stderr_line(line: &str) -> (r: String)
    ensures
        r@ == tagged_line_spec(tag_stderr(), line@),
{
    let mut s = String::from_str("[stderr] ");
    s.append(line);
    s
}

/// The synthetic ring line for an injected session command: `[exec] <cmd>`.
pub fn tag_exec_line(command: &str) -> (r: String)
    ensures
        r@ == tagged_line_spec(tag_exec(), command@),
{
    let mut s = String::from_str("[exec] ");
    s.append(command);
    s
}

/// The synthetic ring line for a session directory change: `[cd] <path>`.
pub fn tag_cd_line(path: &str) -> (r: String)
    ensures
        r@ == tagged_line_spec(tag_cd(), path@),
{
    let mut s = String::from_str("[cd] ");
    s.append(path);
    s
}

/// A line tagged `[stdout]` reads back as level `stdout` with its content
/// unchanged, and a line tagged `[stderr]` as level `stderr` likewise: the
/// tag written by a log pump is the one the reader derives.
pub proof fn lemma_tag_round_trip(line: Seq<char>)
    ensures
        parse_log_entry_spec(tagged_line_spec(tag_stdout(), line)) == ("stdout"@, line),
        parse_log_entry_spec(tagged_line_spec(tag_stderr(), line)) == ("stderr"@, line),
{
    reveal_strlit("[stdout] ");
    reveal_strlit("[stderr] ");
    let s = tagged_line_spec(tag_stdout(), line);
    assert(s.subrange(0, tag_stdout().len() as int) =~= tag_stdout());
    assert(s.skip(tag_stdout().len() as int) =~= line);
    let e = tagged_line_spec(tag_stderr(), line);
    assert(e.subrange(0, tag_stderr().len() as int) =~= tag_stderr());
    assert(!text::spec_starts_with(e, tag_stdout())) by {
        assert(e.subrange(0, 9)[1] == '[' || true);
        assert(e[1] != tag_stdout()[1] || e[4] != tag_stdout()[4]);
        if text::spec_starts_with(e, tag_stdout()) {
            assert(e.subrange(0, 9)[4] == e[4]);
        }
    }
    assert(e.skip(tag_stderr().len() as int) =~= line);
}

} // verus!
