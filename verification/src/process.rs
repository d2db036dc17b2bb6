//! Resolving process command lines to executable base names, and matching
//! a snapshot of command lines against a watch-list.
//!
//! A command line as reported by the process table is a sequence of tokens
//! separated by spaces or NUL bytes. The executable base name is the final
//! component of the executable's path: trailing separators are ignored, a
//! trailing current-directory component (`.`) is dropped, and a path whose
//! final component is a parent-directory step (`..`), a root, or nothing at
//! all has the empty base name. When the first token is a shell interpreter
//! invoking a script, the script's name is used instead, so script-based
//! workloads match by script name rather than by `sh`.

use vstd::prelude::*;
use vstd::string::*;

verus! {

/// A token separator in a reported command line: a space or a NUL byte.
pub open spec fn is_cmd_sep(c: char) -> bool {
    c == ' ' || c == '\0'
}

/// Index of the first separator at or after `from`, or `s.len()` if none.
pub open spec fn token_end(s: Seq<char>, from: int) -> int
    recommends
        0 <= from <= s.len(),
    decreases s.len() - from,
{
    if from < 0 || from >= s.len() {
        s.len() as int
    } else if is_cmd_sep(s[from]) {
        from
    } else {
        token_end(s, from + 1)
    }
}

/// Index just after the final `/` strictly before `i`, or `0` if there is
/// no `/` in `p` before `i`.
pub open spec fn base_name_start(p: Seq<char>, i: int) -> int
    recommends
        0 <= i <= p.len(),
    decreases i,
{
    if i <= 0 {
        0
    } else if p[i - 1] == '/' {
        i
    } else {
        base_name_start(p, i - 1)
    }
}

/// A shell interpreter whose first argument is the script to run.
pub open spec fn is_interpreter(t: Seq<char>) -> bool {
    t == "/bin/sh"@ || t == "/bin/bash"@
}

/// The token of `s` that designates the executable: the first token,
/// unless that token is a recognized interpreter and a second token
/// exists, in which case the second token (the script).
pub open spec fn selected_path(s: Seq<char>) -> Seq<char> {
    let e1 = token_end(s, 0);
    if is_interpreter(s.subrange(0, e1)) && e1 < s.len() {
        s.subrange(e1 + 1, token_end(s, e1 + 1))
    } else {
        s.subrange(0, e1)
    }
}

/// The base name of the path prefix `p[0..e)`: its final component.
/// Trailing separators are ignored and a non-leading current-directory
/// component (`.`) is dropped; the name is empty when what remains ends
/// in a parent-directory step (`..`), is a lone `.`, a root, or nothing
/// at all.
pub open spec fn base_name_upto(p: Seq<char>, e: int) -> Seq<char>
    recommends
        0 <= e <= p.len(),
    decreases e,
{
    if e <= 0 {
        Seq::empty()
    } else if p[e - 1] == '/' {
        base_name_upto(p, e - 1)
    } else if p[e - 1] == '.' && e == 1 {
        Seq::empty()
    } else if p[e - 1] == '.' && p[e - 2] == '/' {
        base_name_upto(p, e - 2)
    } else if p[e - 1] == '.' && p[e - 2] == '.' && (e == 2 || p[e - 3] == '/') {
        Seq::empty()
    } else {
        p.subrange(base_name_start(p, e), e)
    }
}

/// The base name of a path: its final component.
pub open spec fn base_name(p: Seq<char>) -> Seq<char> {
    base_name_upto(p, p.len() as int)
}

/// The executable base name that a reported command line resolves to.
pub open spec fn resolved_name(s: Seq<char>) -> Seq<char> {
    base_name(selected_path(s))
}

/// Failure of a whole process scan: the process enumeration mechanism
/// itself was unavailable. Failures on single entries are skipped during
/// a scan and never reported.
#[derive(Clone, Copy, Debug, PartialEq, Eq, Structural)]
pub enum ScanError {
    EnumerationUnavailable,
}

impl ScanError {
    /// A human-readable description of the failure.
    pub fn message(&self) -> (r: String)
        ensures
            r@ == "process enumeration unavailable"@,
    {
        String::from_str("process enumeration unavailable")
    }
}

/// Finds the end of the token starting at `from`: the index of the first
/// separator at or after `from`, or `n` if none follows.
fn find_token_end(s: &str, from: usize, n: usize) -> (r: usize)
    requires
        from <= n,
        n == s@.len(),
    ensures
        r == token_end(s@, from as int),
        from <= r <= n,
{
    let mut i = from;
    while i < n
        invariant
            from <= i <= n,
            n == s@.len(),
            token_end(s@, from as int) == token_end(s@, i as int),
        decreases n - i,
    {
        let c = s.get_char(i);
        if c == ' ' || c == '\0' {
            assert(token_end(s@, i as int) == i);
            return i;
        }
        i = i + 1;
    }
    assert(token_end(s@, i as int) == i);
    i
}

/// Finds where the final component of `s[0..e)` begins: the index just
/// after the last `/` before `e`, or `0` when there is none.
fn find_base_name_start(s: &str, e: usize) -> (r: usize)
    requires
        e <= s@.len(),
    ensures
        r == base_name_start(s@, e as int),
        r <= e,
{
    let mut i = e;
    while i > 0
        invariant
            i <= e,
            e <= s@.len(),
            base_name_start(s@, e as int) == base_name_start(s@, i as int),
        decreases i,
    {
        let c = s.get_char(i - 1);
        if c == '/' {
            assert(base_name_start(s@, i as int) == i);
            return i;
        }
        i = i - 1;
    }
    assert(base_name_start(s@, 0) == 0);
    0
}

/// Extracts the base name of `path`: walks back over trailing separators
/// and current-directory components, then hands out the final component,
/// or the empty string when none remains.
fn base_name_of(path: &str, n: usize) -> (r: &str)
    requires
        n == path@.len(),
    ensures
        r@ == base_name(path@),
{
    let mut e = n;
    loop
        invariant
            e <= n,
            n == path@.len(),
            base_name(path@) == base_name_upto(path@, e as int),
        decreases e,
    {
        if e == 0 {
            let r = path.substring_char(0, 0);
            proof {
                assert(r@ =~= base_name_upto(path@, 0));
            }
            return r;
        }
        let c = path.get_char(e - 1);
        if c == '/' {
            e = e - 1;
        } else if c == '.' && e == 1 {
            let r = path.substring_char(0, 0);
            proof {
                assert(r@ =~= base_name_upto(path@, e as int));
            }
            return r;
        } else if c == '.' && path.get_char(e - 2) == '/' {
            e = e - 2;
        } else if c == '.' && path.get_char(e - 2) == '.' && (e == 2 || path.get_char(e - 3)
            == '/') {
            let r = path.substring_char(0, 0);
            proof {
                assert(r@ =~= base_name_upto(path@, e as int));
            }
            return r;
        } else {
            let s = find_base_name_start(path, e);
            return path.substring_char(s, e);
        }
    }
}

/// Character-for-character string equality.
pub(crate) fn str_eq(a: &str, b: &str) -> (r: bool)
    ensures
        r == (a@ == b@),
{
    let an = a.unicode_len();
    let bn = b.unicode_len();
    if an != bn {
        return false;
    }
    let mut i: usize = 0;
    while i < an
        invariant
            i <= an,
            an == a@.len(),
            bn == b@.len(),
            an == bn,
            forall|k: int| 0 <= k < i ==> a@[k] == b@[k],
        decreases an - i,
    {
        if a.get_char(i) != b.get_char(i) {
            return false;
        }
        i = i + 1;
    }
    proof {
        assert(a@ =~= b@);
    }
    true
}

/// True iff some command line in `commands` resolves to a base name that
/// the watch-list `names` holds: the set of resolved executable base
/// names of the snapshot intersects the watch-list.
pub open spec fn spec_found_process(names: Seq<Seq<char>>, commands: Seq<Seq<char>>) -> bool {
    exists|i: int, j: int|
        0 <= i < commands.len() && 0 <= j < names.len() && names[j] == resolved_name(
            commands[i],
        )
}

/// Scanning is deterministic: two scans of the same watch-list against an
/// unchanged snapshot of command lines yield the same result.
pub proof fn lemma_found_process_idempotent(
    names: Seq<Seq<char>>,
    commands: Seq<Seq<char>>,
    r1: bool,
    r2: bool,
)
    requires
        r1 == spec_found_process(names, commands),
        r2 == spec_found_process(names, commands),
    ensures
        r1 == r2,
{
}

/// Resolves a reported command line to the executable base name used for
/// watch-list matching. Never fails on a well-formed string: garbled
/// entries are the process table's concern, handled where it is read.
pub fn command_file_name(command: &str) -> (r: Result<String, ScanError>)
    ensures
        r is Ok,
        r->Ok_0@ == resolved_name(command@),
{
    let n = command.unicode_len();
    let e1 = find_token_end(command, 0, n);
    let first = command.substring_char(0, e1);
    proof {
        reveal_strlit("/bin/sh");
        reveal_strlit("/bin/bash");
    }
    let interpreter = str_eq(first, "/bin/sh") || str_eq(first, "/bin/bash");
    let ps: usize;
    let pe: usize;
    if interpreter && e1 < n {
        ps = e1 + 1;
        pe = find_token_end(command, ps, n);
    } else {
        ps = 0;
        pe = e1;
    }
    let path = command.substring_char(ps, pe);
    assert(path@ == selected_path(command@));
    let m = pe - ps;
    let base = base_name_of(path, m);
    assert(base@ == resolved_name(command@));
    Ok(String::from_str(base))
}

/// Tests whether at least one currently running process, given as the
/// snapshot `commands` of reported command lines, resolves to a base name
/// on the watch-list `process_names`. Matching is exact, case-sensitive
/// string equality on the resolved base name.
pub fn found_process(process_names: &[String], commands: &[String]) -> (r: bool)
    ensures
        r == spec_found_process(process_names.deep_view(), commands.deep_view()),
{
    let nc = commands.len();
    let nn = process_names.len();
    let mut i: usize = 0;
    while i < nc
        invariant
            i <= nc,
            nc == commands@.len(),
            nn == process_names@.len(),
            forall|k: int, j: int|
                0 <= k < i && 0 <= j < nn ==> process_names.deep_view()[j] != resolved_name(
                    commands.deep_view()[k],
                ),
        decreases nc - i,
    {
        let name = match command_file_name(commands[i].as_str()) {
            Ok(n) => n,
            Err(_) => vstd::pervasive::unreached(),
        };
        let mut j: usize = 0;
        while j < nn
            invariant
                i < nc,
                j <= nn,
                nc == commands@.len(),
                nn == process_names@.len(),
                name@ == resolved_name(commands.deep_view()[i as int]),
                forall|k: int|
                    0 <= k < j ==> process_names.deep_view()[k] != resolved_name(
                        commands.deep_view()[i as int],
                    ),
            decreases nn - j,
        {
            if str_eq(process_names[j].as_str(), name.as_str()) {
                assert(process_names.deep_view()[j as int] == resolved_name(
                    commands.deep_view()[i as int],
                ));
                return true;
            }
            assert(process_names.deep_view()[j as int] == process_names@[j as int]@);
            j = j + 1;
        }
        i = i + 1;
    }
    false
}

/// How a signed buffer byte compares against a byte of a UTF-8 encoding:
/// the buffer byte reinterpreted as unsigned.
pub open spec fn byte_of(c: i8) -> u8 {
    if c >= 0 {
        c as u8
    } else {
        (c + 256) as u8
    }
}

/// Whether `bytes` is exactly the content of `chars` up to its first NUL;
/// when no NUL is present, whether `bytes` begins with all of `chars`.
pub open spec fn chars_match(bytes: Seq<u8>, chars: Seq<i8>) -> bool
    decreases chars.len(),
{
    if chars.len() == 0 {
        true
    } else if chars[0] == 0 {
        bytes.len() == 0
    } else if bytes.len() == 0 {
        false
    } else if byte_of(chars[0]) == bytes[0] {
        chars_match(bytes.drop_first(), chars.drop_first())
    } else {
        false
    }
}

/// Compares a process name against a fixed-size NUL-terminated buffer of
/// signed bytes, as a system-wide process snapshot reports executable
/// names on hosts that use such buffers.
pub fn chars_equal(s: &str, chars: &[i8; 260]) -> (r: bool)
    ensures
        r == chars_match(s.spec_bytes(), chars@),
{
    broadcast use vstd::array::group_array_axioms;

    let bytes: &[u8] = s.as_bytes();
    let bn = bytes.len();
    proof {
        assert(bytes@.skip(0) =~= bytes@);
        assert(chars@.skip(0) =~= chars@);
    }
    let mut i: usize = 0;
    while i < 260
        invariant
            i <= 260,
            i <= bn,
            bn == bytes@.len(),
            bytes@ == s.spec_bytes(),
            chars@.len() == 260,
            chars_match(s.spec_bytes(), chars@) == chars_match(
                bytes@.skip(i as int),
                chars@.skip(i as int),
            ),
        decreases 260 - i,
    {
        let c = chars[i];
        if c == 0 {
            return bn == i;
        }
        if i >= bn {
            return false;
        }
        let b: u8 = if c >= 0 {
            c as u8
        } else {
            ((c as i32) + 256) as u8
        };
        assert(b == byte_of(chars@[i as int]));
        if b != bytes[i] {
            return false;
        }
        proof {
            assert(bytes@.skip(i as int).drop_first() =~= bytes@.skip(i as int + 1));
            assert(chars@.skip(i as int).drop_first() =~= chars@.skip(i as int + 1));
        }
        i = i + 1;
    }
    assert(chars@.skip(260).len() == 0);
    true
}

/// True iff some name buffer in the snapshot `buffers` holds, up to its
/// first NUL, exactly the UTF-8 bytes of a name on the watch-list
/// `names`.
pub open spec fn spec_found_process_buffers(
    names: Seq<Seq<char>>,
    buffers: Seq<Seq<i8>>,
) -> bool {
    exists|i: int, j: int|
        0 <= i < buffers.len() && 0 <= j < names.len() && chars_match(
            vstd::utf8::encode_utf8(names[j]),
            buffers[i],
        )
}

/// Tests whether at least one entry of a system-wide process snapshot,
/// reported as fixed-size NUL-terminated name buffers, matches a name on
/// the watch-list `process_names`: the byte-buffer counterpart of
/// `found_process`.
pub fn found_process_buffers(process_names: &[String], buffers: &[[i8; 260]]) -> (r: bool)
    ensures
        r == spec_found_process_buffers(process_names.deep_view(), buffers.deep_view()),
{
    let nb = buffers.len();
    let nn = process_names.len();
    let mut i: usize = 0;
    while i < nb
        invariant
            i <= nb,
            nb == buffers@.len(),
            nn == process_names@.len(),
            forall|k: int, j: int|
                0 <= k < i && 0 <= j < nn ==> !chars_match(
                    vstd::utf8::encode_utf8(process_names.deep_view()[j]),
                    buffers.deep_view()[k],
                ),
        decreases nb - i,
    {
        let mut j: usize = 0;
        while j < nn
            invariant
                i < nb,
                j <= nn,
                nb == buffers@.len(),
                nn == process_names@.len(),
                forall|k: int|
                    0 <= k < j ==> !chars_match(
                        vstd::utf8::encode_utf8(process_names.deep_view()[k]),
                        buffers.deep_view()[i as int],
                    ),
            decreases nn - j,
        {
            proof {
                assert(process_names.deep_view()[j as int] == process_names@[j as int]@);
                assert(buffers.deep_view()[i as int] =~= buffers@[i as int]@);
            }
            if chars_equal(process_names[j].as_str(), &buffers[i]) {
                return true;
            }
            j = j + 1;
        }
        i = i + 1;
    }
    false
}

} // verus!
