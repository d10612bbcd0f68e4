//! The computing side of the file surface: write-content preparation
//! with base64 decoding, octal mode parsing, binary-content detection
//! by header sniffing, and the directories a search walks past.

use vstd::prelude::*;
use crate::error::AppError;
use crate::num;
use crate::text;
use base64::Engine;
use vstd::string::StringSliceAdditionalSpecFns;
use vstd::string::StrSliceExecFns;

verus! {

/// What base64 decoding of a string yields, where it is well formed.
/// Relies on base64's standard-alphabet engine; the byte-level decoding
/// relation is not restated here.
pub uninterp spec fn base64_decoded(s: Seq<char>) -> Option<Seq<u8>>;

/// Relies on base64::Engine::decode with the STANDARD engine: the bytes
/// a well-formed base64 string denotes, or an error for a malformed one.
#[verifier::external_body]
fn decode_base64(s: &str) -> (r: Result<Vec<u8>, String>)
    ensures
        r matches Ok(bytes) ==> base64_decoded(s@) == Some(bytes@),
        r is Err <==> base64_decoded(s@) is None,
{
    base64::engine::general_purpose::STANDARD.decode(s).map_err(|e| e.to_string())
}

/// The bytes a write request stores: base64-encoded content is decoded,
/// anything else is taken as UTF-8 text; content above the size bound is
/// rejected.
pub fn prepare_write_content(content: &str, encoding: Option<&str>, max_file_size: u64) -> (r:
    Result<Vec<u8>, AppError>)
    ensures
        ({
            let decoded = if encoding matches Some(e) && e@ == "base64"@ {
                base64_decoded(content@)
            } else {
                Some(content.spec_bytes())
            };
            match decoded {
                None => r matches Err(AppError::BadRequest(_)),
                Some(bytes) => {
                    if bytes.len() > max_file_size {
                        r matches Err(AppError::BadRequest(m)) && m@ == "File too large"@
                    } else {
                        r matches Ok(b) && b@ == bytes
                    }
                },
            }
        }),
{
    proof {
        reveal_strlit("base64");
    }
    let is_b64 = match encoding {
        Some(e) => text::str_eq(e, "base64"),
        None => false,
    };
    let bytes: Vec<u8> = if is_b64 {
        match decode_base64(content) {
            Ok(b) => b,
            Err(e) => {
                let mut m = String::from_str("Invalid base64: ");
                m.append(e.as_str());
                return Err(AppError::BadRequest(m));
            },
        }
    } else {
        content.as_bytes_vec()
    };
    if bytes.len() as u64 > max_file_size {
        return Err(AppError::BadRequest(String::from_str("File too large")));
    }
    Ok(bytes)
}

/// Leading and trailing whitespace removed.
pub open spec fn trim_spec(s: Seq<char>) -> Seq<char>
    decreases s.len(),
{
    if s.len() == 0 {
        s
    } else if crate::escape::is_space(s.first()) {
        trim_spec(s.drop_first())
    } else if crate::escape::is_space(s.last()) {
        trim_spec(s.drop_last())
    } else {
        s
    }
}

/// Remove leading and trailing whitespace.
pub fn trim(s: &str) -> (r: String)
    ensures
        r@ == trim_spec(s@),
    decreases s@.len(),
{
    let len = s.unicode_len();
    if len == 0 {
        return String::new();
    }
    let first = s.get_char(0);
    if first == ' ' || first == '\t' || first == '\n' || first == '\r' || first == '\u{b}'
        || first == '\u{c}' {
        let rest = s.substring_char(1, len);
        proof {
            assert(rest@ =~= s@.drop_first());
        }
        return trim(rest);
    }
    let last = s.get_char(len - 1);
    if last == ' ' || last == '\t' || last == '\n' || last == '\r' || last == '\u{b}' || last
        == '\u{c}' {
        let rest = s.substring_char(0, len - 1);
        proof {
            assert(rest@ =~= s@.drop_last());
        }
        return trim(rest);
    }
    s.to_owned()
}

/// The trimmed mode string with a `0o` or `0O` prefix removed.
pub open spec fn mode_digits_spec(t: Seq<char>) -> Seq<char> {
    if text::spec_starts_with(t, "0o"@) || text::spec_starts_with(t, "0O"@) {
        t.skip(2)
    } else {
        t
    }
}

/// Read a permission mode: the string is trimmed, an optional `0o`
/// prefix dropped, and the rest read in octal. An empty string and a
/// string that is not octal are rejected with their own messages.
pub fn parse_mode(mode_str: &str) -> (r: Result<u32, AppError>)
    ensures
        ({
            let t = trim_spec(mode_str@);
            if t.len() == 0 {
                r matches Err(AppError::BadRequest(m)) && m@ == "Mode cannot be empty"@
            } else {
                match num::parse_radix_spec(mode_digits_spec(t), 8, u32::MAX as nat) {
                    Some(v) => r matches Ok(x) && x == v,
                    None => r matches Err(AppError::BadRequest(m)) && m@
                        == "Invalid mode (expect octal like 755)"@,
                }
            }
        }),
{
    proof {
        reveal_strlit("0o");
        reveal_strlit("0O");
    }
    let t = trim(mode_str);
    let tlen = t.as_str().unicode_len();
    if tlen == 0 {
        return Err(AppError::BadRequest(String::from_str("Mode cannot be empty")));
    }
    let digits: String = if text::starts_with(t.as_str(), "0o") || text::starts_with(
        t.as_str(),
        "0O",
    ) {
        text::suffix_from(t.as_str(), 2)
    } else {
        t
    };
    match num::parse_radix_bounded(digits.as_str(), 8, u32::MAX as u64) {
        Some(v) => Ok(v as u32),
        None => Err(AppError::BadRequest(String::from_str(
            "Invalid mode (expect octal like 755)",
        ))),
    }
}

/// A control byte other than tab, line feed and carriage return.
pub open spec fn is_ctrl_byte(b: u8) -> bool {
    (b <= 0x08) || b == 0x0B || b == 0x0C || (0x0E <= b && b <= 0x1F) || b == 0x7F
}

pub open spec fn count_ctrl(s: Seq<u8>) -> nat
    decreases s.len(),
{
    if s.len() == 0 {
        0
    } else {
        count_ctrl(s.drop_last()) + (if is_ctrl_byte(s.last()) {
            1nat
        } else {
            0nat
        })
    }
}

/// The byte-length class of a UTF-8 leading byte: 1 to 4, or 0 for an
/// invalid one.
pub open spec fn utf8_class(b: u8) -> int {
    if b <= 0x7F {
        1
    } else if b & 0xE0 == 0xC0 {
        2
    } else if b & 0xF0 == 0xE0 {
        3
    } else if b & 0xF8 == 0xF0 {
        4
    } else {
        0
    }
}

pub open spec fn utf8_first_mask(l: int) -> u8 {
    if l == 2 {
        0x1F
    } else if l == 3 {
        0x0F
    } else {
        0x07
    }
}

pub open spec fn utf8_min_cp(l: int) -> u32 {
    if l == 2 {
        0x80
    } else if l == 3 {
        0x800
    } else {
        0x10000
    }
}

pub open spec fn is_cont_byte(b: u8) -> bool {
    b & 0xC0 == 0x80
}

/// The code point of the sequence starting at `i`, after `j`
/// continuation bytes.
pub open spec fn utf8_cp_upto(bytes: Seq<u8>, i: int, l: int, j: int) -> u32
    decreases j,
{
    if j <= 0 {
        (bytes[i] & utf8_first_mask(l)) as u32
    } else {
        (utf8_cp_upto(bytes, i, l, j - 1) << 6) | ((bytes[i + j] & 0x3F) as u32)
    }
}

/// Whether `bytes` from `i` on are a valid UTF-8 prefix: complete
/// sequences must be well formed — continuation bytes in place, no
/// overlong encoding, no surrogate, nothing past the last code point —
/// and a truncated sequence at the very end is tolerated.
pub open spec fn utf8_prefix_valid_from(bytes: Seq<u8>, i: int) -> bool
    decreases bytes.len() - i,
        when 0 <= i <= bytes.len()
{
    if i >= bytes.len() {
        true
    } else {
        let l = utf8_class(bytes[i]);
        if l == 0 {
            false
        } else if i + l > bytes.len() {
            true
        } else if l == 1 {
            utf8_prefix_valid_from(bytes, i + 1)
        } else {
            let cp = utf8_cp_upto(bytes, i, l, l - 1);
            &&& (forall|j: int| 1 <= j < l ==> is_cont_byte(#[trigger] bytes[i + j]))
            &&& cp >= utf8_min_cp(l)
            &&& !(0xD800 <= cp <= 0xDFFF)
            &&& cp <= 0x10FFFF
            &&& utf8_prefix_valid_from(bytes, i + l)
        }
    }
}

/// Validate that the slice is a valid UTF-8 prefix: every complete
/// sequence well formed, an incomplete trailing sequence tolerated.
pub fn is_valid_utf8_prefix(bytes: &[u8]) -> (r: bool)
    ensures
        r == utf8_prefix_valid_from(bytes@, 0),
{
    let n = bytes.len();
    let mut i: usize = 0;
    while i < n
        invariant
            n == bytes@.len(),
            0 <= i <= n,
            utf8_prefix_valid_from(bytes@, 0) == utf8_prefix_valid_from(bytes@, i as int),
        decreases n - i,
    {
        let b = bytes[i];
        if b <= 0x7F {
            i += 1;
            continue ;
        }
        let l: usize = if b & 0xE0 == 0xC0 {
            2
        } else if b & 0xF0 == 0xE0 {
            3
        } else if b & 0xF8 == 0xF0 {
            4
        } else {
            return false;
        };
        assert(l as int == utf8_class(bytes@[i as int]));
        if l > n - i {
            // Truncated at the end: accepted as a prefix.
            return true;
        }
        let mask: u8 = if l == 2 {
            0x1F
        } else if l == 3 {
            0x0F
        } else {
            0x07
        };
        let mut cp: u32 = (b & mask) as u32;
        let mut j: usize = 1;
        while j < l
            invariant
                n == bytes@.len(),
                i + l <= n,
                2 <= l <= 4,
                1 <= j <= l,
                utf8_prefix_valid_from(bytes@, 0) == utf8_prefix_valid_from(bytes@, i as int),
                l as int == utf8_class(bytes@[i as int]),
                cp == utf8_cp_upto(bytes@, i as int, l as int, j - 1),
                forall|m: int| 1 <= m < j ==> is_cont_byte(#[trigger] bytes@[i + m]),
            decreases l - j,
        {
            let cb = bytes[i + j];
            if cb & 0xC0 != 0x80 {
                proof {
                    assert(!is_cont_byte(bytes@[i + j]));
                    assert(!utf8_prefix_valid_from(bytes@, i as int));
                }
                return false;
            }
            cp = (cp << 6) | ((cb & 0x3F) as u32);
            j += 1;
        }
        let min_cp: u32 = if l == 2 {
            0x80
        } else if l == 3 {
            0x800
        } else {
            0x10000
        };
        if cp < min_cp {
            return false;
        }
        if 0xD800 <= cp && cp <= 0xDFFF {
            return false;
        }
        if cp > 0x10FFFF {
            return false;
        }
        i += l;
    }
    true
}

/// The part of a header that sniffing examines: its first 256 bytes.
pub open spec fn sniff_sample(header: Seq<u8>) -> Seq<u8> {
    if header.len() > 256 {
        header.take(256)
    } else {
        header
    }
}

/// Whether the sniffed header looks like UTF-8 text: no null byte, no
/// more than one control character in ten, and a valid UTF-8 prefix.
/// Only the first 256 bytes are examined.
pub open spec fn is_probably_text_spec(header: Seq<u8>) -> bool {
    if header.len() == 0 {
        true
    } else {
        &&& (forall|i: int|
            0 <= i < sniff_sample(header).len() ==> (#[trigger] sniff_sample(header)[i]) != 0)
        &&& count_ctrl(sniff_sample(header)) * 10 <= sniff_sample(header).len()
        &&& utf8_prefix_valid_from(sniff_sample(header), 0)
    }
}

/// Decide from a sniffed header whether a file is probably UTF-8 text:
/// an early null byte or a high control-character density marks it
/// binary, and the header must be a valid UTF-8 prefix.
pub fn is_probably_text(header: &[u8]) -> (r: bool)
    ensures
        r == is_probably_text_spec(header@),
{
    let n = header.len();
    if n == 0 {
        return true;
    }
    let sample_len: usize = if n > 256 {
        256
    } else {
        n
    };
    let ghost sample = sniff_sample(header@);
    proof {
        assert(sample =~= header@.subrange(0, sample_len as int));
    }
    let mut ctrl: usize = 0;
    let mut i: usize = 0;
    while i < sample_len
        invariant
            n == header@.len(),
            sample_len <= n,
            sample_len <= 256,
            i <= sample_len,
            sample == header@.subrange(0, sample_len as int),
            sample == sniff_sample(header@),
            sample_len == sample.len(),
            sample.len() == sample_len,
            forall|j: int| 0 <= j < i ==> (#[trigger] sample[j]) != 0,
            ctrl == count_ctrl(sample.take(i as int)),
            ctrl <= i,
        decreases sample_len - i,
    {
        let b = header[i];
        proof {
            assert(sample[i as int] == header@[i as int]);
            assert(sample.take(i + 1 as int).drop_last() =~= sample.take(i as int));
        }
        if b == 0 {
            proof {
                assert(sample[i as int] == 0);
            }
            return false;
        }
        if b <= 0x08 || b == 0x0B || b == 0x0C || (0x0E <= b && b <= 0x1F) || b == 0x7F {
            ctrl += 1;
        }
        i += 1;
    }
    proof {
        assert(sample.take(sample_len as int) =~= sample);
    }
    if ctrl * 10 > sample_len {
        // More than one control character in ten: treated as binary.
        return false;
    }
    let sub = slice_take(header, sample_len);
    is_valid_utf8_prefix(sub)
}

/// The first `k` bytes of a slice.
fn slice_take(s: &[u8], k: usize) -> (r: &[u8])
    requires
        k <= s@.len(),
    ensures
        r@ == s@.subrange(0, k as int),
{
    vstd::slice::slice_subrange(s, 0, k)
}


/// The default page size of a directory listing.
pub fn default_limit() -> (r: usize)
    ensures
        r == 100,
{
    100
}

/// One page of a directory listing: at most `limit` entries starting at
/// `offset`; an offset past the end gives an empty page.
pub fn paginate_files(files: Vec<crate::api::FileInfo>, offset: usize, limit: usize) -> (r: Vec<
    crate::api::FileInfo,
>)
    ensures
        r@ == (if offset < files@.len() {
            files@.subrange(
                offset as int,
                offset + (if limit < files@.len() - offset {
                    limit as int
                } else {
                    files@.len() - offset
                }),
            )
        } else {
            Seq::<crate::api::FileInfo>::empty()
        }),
{
    let mut files = files;
    if offset >= files.len() {
        let r: Vec<crate::api::FileInfo> = Vec::new();
        proof {
            assert(r@ =~= Seq::<crate::api::FileInfo>::empty());
        }
        return r;
    }
    let ghost files0 = files@;
    let mut tail = files.split_off(offset);
    tail.truncate(limit);
    proof {
        assert(tail@ =~= files0.subrange(
            offset as int,
            offset + (if limit < files0.len() - offset {
                limit as int
            } else {
                files0.len() - offset
            }),
        ));
    }
    tail
}

/// The directory names a search never descends into.
pub open spec fn ignored_dirs() -> Seq<Seq<char>> {
    seq![
        "node_modules"@,
        ".git"@,
        ".svn"@,
        ".hg"@,
        "target"@,
        "dist"@,
        "build"@,
        ".cache"@,
        ".npm"@,
        ".yarn"@,
        "__pycache__"@,
        ".venv"@,
        "venv"@,
        ".tox"@,
        "vendor"@,
        ".idea"@,
        ".vscode"@,
        "coverage"@,
        ".nyc_output"@,
        ".next"@,
        ".nuxt"@,
        ".output"@,
        "out"@,
        ".turbo"@,
        ".parcel-cache"@,
    ]
}

pub open spec fn should_ignore_dir_spec(name: Seq<char>) -> bool {
    (name.len() > 0 && name[0] == '.') || ignored_dirs().contains(name)
}

/// Whether a search skips this directory: hidden directories and a list
/// of known heavy ones.
pub fn should_ignore_dir(name: &str) -> (r: bool)
    ensures
        r == should_ignore_dir_spec(name@),
{
    proof {
        reveal_strlit("node_modules");
        reveal_strlit(".git");
        reveal_strlit(".svn");
        reveal_strlit(".hg");
        reveal_strlit("target");
        reveal_strlit("dist");
        reveal_strlit("build");
        reveal_strlit(".cache");
        reveal_strlit(".npm");
        reveal_strlit(".yarn");
        reveal_strlit("__pycache__");
        reveal_strlit(".venv");
        reveal_strlit("venv");
        reveal_strlit(".tox");
        reveal_strlit("vendor");
        reveal_strlit(".idea");
        reveal_strlit(".vscode");
        reveal_strlit("coverage");
        reveal_strlit(".nyc_output");
        reveal_strlit(".next");
        reveal_strlit(".nuxt");
        reveal_strlit(".output");
        reveal_strlit("out");
        reveal_strlit(".turbo");
        reveal_strlit(".parcel-cache");
    }
    if starts_with_dot(name) {
        return true;
    }
    let hit = text::str_eq(name, "node_modules") || text::str_eq(name, ".git") || text::str_eq(
        name,
        ".svn",
    ) || text::str_eq(name, ".hg") || text::str_eq(name, "target") || text::str_eq(name, "dist")
        || text::str_eq(name, "build") || text::str_eq(name, ".cache") || text::str_eq(
        name,
        ".npm",
    ) || text::str_eq(name, ".yarn") || text::str_eq(name, "__pycache__") || text::str_eq(
        name,
        ".venv",
    ) || text::str_eq(name, "venv") || text::str_eq(name, ".tox") || text::str_eq(name, "vendor")
        || text::str_eq(name, ".idea") || text::str_eq(name, ".vscode") || text::str_eq(
        name,
        "coverage",
    ) || text::str_eq(name, ".nyc_output") || text::str_eq(name, ".next") || text::str_eq(
        name,
        ".nuxt",
    ) || text::str_eq(name, ".output") || text::str_eq(name, "out") || text::str_eq(
        name,
        ".turbo",
    ) || text::str_eq(name, ".parcel-cache");
    proof {
        if hit {
            assert(ignored_dirs().contains(name@));
        } else {
            if ignored_dirs().contains(name@) {
                let w = choose|w: int|
                    0 <= w < ignored_dirs().len() && ignored_dirs()[w] == name@;
                assert(ignored_dirs()[w] == name@);
                assert(false);
            }
        }
    }
    hit
}

/// Whether the name begins with a dot.
fn starts_with_dot(name: &str) -> (r: bool)
    ensures
        r == (name@.len() > 0 && name@[0] == '.'),
{
    let len = name.unicode_len();
    len > 0 && name.get_char(0) == '.'
}


/// What lowercasing yields; the result depends on the characters alone.
pub uninterp spec fn lower_of(s: Seq<char>) -> Seq<char>;

/// Relies on str::to_lowercase: the Unicode lowercase form of the
/// string, a function of its characters alone.
#[verifier::external_body]
fn lowercase(s: &str) -> (r: String)
    ensures
        r@ == lower_of(s@),
{
    s.to_lowercase()
}

/// Whether a file name matches a search pattern: a case-insensitive
/// substring match, both sides lowercased.
pub fn filename_matches(name: &str, pattern: &str) -> (r: bool)
    ensures
        r == text::contains_sub(lower_of(name@), lower_of(pattern@)),
{
    let n = lowercase(name);
    let p = lowercase(pattern);
    text::str_contains(n.as_str(), p.as_str())
}

/// Leading and trailing double quotes removed.
pub open spec fn trim_quotes_spec(s: Seq<char>) -> Seq<char>
    decreases s.len(),
{
    if s.len() > 0 && s.first() == '"' {
        trim_quotes_spec(s.drop_first())
    } else if s.len() > 0 && s.last() == '"' {
        trim_quotes_spec(s.drop_last())
    } else {
        s
    }
}

fn trim_quotes(s: &str) -> (r: String)
    ensures
        r@ == trim_quotes_spec(s@),
    decreases s@.len(),
{
    let len = s.unicode_len();
    if len == 0 {
        return String::new();
    }
    if s.get_char(0) == '"' {
        let rest = s.substring_char(1, len);
        proof {
            assert(rest@ =~= s@.drop_first());
        }
        return trim_quotes(rest);
    }
    if s.get_char(len - 1) == '"' {
        let rest = s.substring_char(0, len - 1);
        proof {
            assert(rest@ =~= s@.drop_last());
        }
        return trim_quotes(rest);
    }
    s.to_owned()
}

/// The filename the `Content-Disposition` header names: its first
/// `filename=` field, trimmed and unquoted, where that leaves anything.
pub open spec fn cd_filename_from(parts: Seq<Seq<char>>, i: int) -> Option<Seq<char>>
    decreases parts.len() - i,
        when 0 <= i <= parts.len()
{
    if i >= parts.len() {
        None
    } else {
        let t = trim_spec(parts[i]);
        if text::spec_starts_with(t, "filename="@) && trim_quotes_spec(
            t.skip("filename="@.len() as int),
        ).len() > 0 {
            Some(trim_quotes_spec(t.skip("filename="@.len() as int)))
        } else {
            cd_filename_from(parts, i + 1)
        }
    }
}

pub open spec fn cd_filename_spec(cd: Seq<char>) -> Option<Seq<char>> {
    cd_filename_from(text::split_on_spec(cd, ';'), 0)
}

/// Read the filename out of a `Content-Disposition` header value: the
/// first `filename=` field whose unquoted value is not empty.
pub fn filename_from_content_disposition(cd: &str) -> (r: Option<String>)
    ensures
        match r {
            Some(v) => cd_filename_spec(cd@) == Some(v@),
            None => cd_filename_spec(cd@) is None,
        },
{
    proof {
        reveal_strlit("filename=");
    }
    let parts = text::split_on_char(cd, ';');
    let ghost pv = parts@.map_values(|t: String| t@);
    let n = parts.len();
    let mut i: usize = 0;
    while i < n
        invariant
            n == parts@.len(),
            i <= n,
            pv == parts@.map_values(|t: String| t@),
            pv == text::split_on_spec(cd@, ';'),
            pv.len() == n,
            cd_filename_from(pv, 0) == cd_filename_from(pv, i as int),
        decreases n - i,
    {
        proof {
            reveal_strlit("filename=");
        }
        let t = trim(parts[i].as_str());
        assert(t@ == trim_spec(pv[i as int]));
        if text::starts_with(t.as_str(), "filename=") {
            let suf = text::suffix_from(t.as_str(), 9);
            proof {
                assert(suf@ =~= t@.skip("filename="@.len() as int));
            }
            let v = trim_quotes(suf.as_str());
            if v.as_str().unicode_len() > 0 {
                proof {
                    assert(cd_filename_from(pv, i as int) == Some(v@));
                }
                return Some(v);
            }
        }
        i += 1;
    }
    None
}

/// Leftmost, non-overlapping replacement of `n` by `t` in `h`, with the
/// number of replacements made.
pub open spec fn replace_spec(h: Seq<char>, n: Seq<char>, t: Seq<char>) -> (Seq<char>, nat)
    decreases h.len(),
        when n.len() > 0
{
    if h.len() < n.len() {
        (h, 0)
    } else if h.subrange(0, n.len() as int) == n {
        let r = replace_spec(h.skip(n.len() as int), n, t);
        (t + r.0, r.1 + 1)
    } else {
        let r = replace_spec(h.drop_first(), n, t);
        (seq![h.first()] + r.0, r.1)
    }
}

/// Replace every non-overlapping occurrence of `from` in `content`,
/// scanning left to right, and count the replacements: what a content
/// replacement writes back and reports.
pub fn replace_all(content: &str, from: &str, to: &str) -> (r: (String, usize))
    requires
        from@.len() > 0,
    ensures
        r.0@ == replace_spec(content@, from@, to@).0,
        r.1 as nat == replace_spec(content@, from@, to@).1,
{
    let hlen = content.unicode_len();
    let nlen = from.unicode_len();
    let mut out = String::new();
    let mut count: usize = 0;
    let mut i: usize = 0;
    proof {
        assert(content@.skip(0) =~= content@);
        assert(out@ + replace_spec(content@, from@, to@).0 =~= replace_spec(
            content@,
            from@,
            to@,
        ).0);
    }
    while i < hlen
        invariant
            hlen == content@.len(),
            nlen == from@.len(),
            nlen >= 1,
            i <= hlen,
            count <= i,
            replace_spec(content@, from@, to@).0 == out@ + replace_spec(
                content@.skip(i as int),
                from@,
                to@,
            ).0,
            replace_spec(content@, from@, to@).1 == count + replace_spec(
                content@.skip(i as int),
                from@,
                to@,
            ).1,
        decreases hlen - i,
    {
        let ghost rest = content@.skip(i as int);
        if nlen <= hlen - i && text::matches_at(content, from, i) {
            proof {
                assert(rest.subrange(0, from@.len() as int) =~= content@.subrange(
                    i as int,
                    i + from@.len(),
                ));
                assert(rest.skip(from@.len() as int) =~= content@.skip(i + nlen));
            }
            out.append(to);
            count += 1;
            i += nlen;
        } else {
            proof {
                if rest.len() >= from@.len() {
                    if i + nlen <= hlen {
                        assert(rest.subrange(0, from@.len() as int) =~= content@.subrange(
                            i as int,
                            i + from@.len(),
                        ));
                    }
                    assert(rest.drop_first() =~= content@.skip(i + 1));
                    assert(seq![rest.first()] =~= seq![content@[i as int]]);
                } else {
                    assert(rest.drop_first() =~= content@.skip(i + 1));
                }
            }
            text::push_char_of(&mut out, content, i);
            proof {
                if rest.len() < from@.len() {
                    assert(replace_spec(rest, from@, to@).0 == rest);
                    assert(replace_spec(content@.skip(i + 1), from@, to@).0 == content@.skip(
                        i + 1,
                    ));
                    assert(rest =~= seq![content@[i as int]] + content@.skip(i + 1));
                }
            }
            i += 1;
        }
    }
    proof {
        assert(content@.skip(hlen as int) =~= Seq::<char>::empty());
        assert(replace_spec(Seq::<char>::empty(), from@, to@).0 =~= Seq::<char>::empty());
        assert(out@ + Seq::<char>::empty() =~= out@);
    }
    (out, count)
}

} // verus!
