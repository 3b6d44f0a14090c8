//! Discovery of the debugging endpoint in the attach tool's output: the
//! first line fragment of the shape `available at: http://<host>/<token>/`
//! yields the same URI with the scheme turned into `ws://`.

use vstd::prelude::*;
use crate::text::occurs_at;

verus! {

/// Characters allowed in the host part: digits, dots and colons.
pub open spec fn is_host_char(c: char) -> bool {
    ||| ('0' <= c && c <= '9')
    ||| c == '.'
    ||| c == ':'
}

/// The length of the run of host characters starting at `i`.
pub open spec fn host_run(s: Seq<char>, i: int) -> int
    decreases s.len() - i,
{
    if 0 <= i < s.len() && is_host_char(s[i]) {
        1 + host_run(s, i + 1)
    } else {
        0
    }
}

/// The length of the run of non-slash characters starting at `i`.
pub open spec fn token_run(s: Seq<char>, i: int) -> int
    decreases s.len() - i,
{
    if 0 <= i < s.len() && s[i] != '/' {
        1 + token_run(s, i + 1)
    } else {
        0
    }
}

/// The scheme-to-path span of a URI match whose `http://` starts at `j`:
/// at least one host character, a slash, at least one non-slash character,
/// and a closing slash when one follows. Yields the end of the match.
pub open spec fn uri_end_at(s: Seq<char>, j: int) -> Option<int> {
    let h = host_run(s, j + 7);
    let k = j + 7 + h;
    if !occurs_at(s, "http://"@, j) {
        None
    } else if h < 1 {
        None
    } else if !(k < s.len() && s[k] == '/') {
        None
    } else {
        let p = token_run(s, k + 1);
        if p < 1 {
            None
        } else {
            let q = k + 1 + p;
            if q < s.len() && s[q] == '/' {
                Some(q + 1)
            } else {
                Some(q)
            }
        }
    }
}

/// The marker that precedes the URI in the tool's output.
pub open spec fn marker() -> Seq<char> {
    "available at: "@
}

/// Whether a complete match of marker plus URI starts at position `i`, and
/// where the URI then ends.
pub open spec fn match_at(s: Seq<char>, i: int) -> Option<int> {
    if occurs_at(s, marker(), i) {
        uri_end_at(s, i + marker().len())
    } else {
        None
    }
}

/// The websocket form of the first URI match at or after position `i`: the
/// matched `http://<host>/<token>/?` with its scheme replaced by `ws://`.
pub open spec fn extract_from(s: Seq<char>, i: int) -> Option<Seq<char>>
    decreases s.len() - i,
{
    if i > s.len() {
        None
    } else {
        match match_at(s, i) {
            Some(end) => Some(
                "ws://"@ + s.subrange(i + marker().len() + 7, end),
            ),
            None => {
                if i < s.len() {
                    extract_from(s, i + 1)
                } else {
                    None
                }
            },
        }
    }
}

/// What URI discovery yields on one line of output.
pub open spec fn extract_spec(s: Seq<char>) -> Option<Seq<char>> {
    extract_from(s, 0)
}

/// The length of the run of host characters starting at `i`, computed.
fn host_run_exec(line: &str, i: usize) -> (r: usize)
    requires
        i <= line@.len(),
        line@.len() <= usize::MAX - 1,
    ensures
        r == host_run(line@, i as int),
        i + r <= line@.len(),
    decreases line@.len() - i,
{
    let n = line.unicode_len();
    if i < n {
        let c = line.get_char(i);
        if ('0' <= c && c <= '9') || c == '.' || c == ':' {
            return 1 + host_run_exec(line, i + 1);
        }
    }
    0
}

/// The length of the run of non-slash characters starting at `i`, computed.
fn token_run_exec(line: &str, i: usize) -> (r: usize)
    requires
        i <= line@.len(),
        line@.len() <= usize::MAX - 1,
    ensures
        r == token_run(line@, i as int),
        i + r <= line@.len(),
    decreases line@.len() - i,
{
    let n = line.unicode_len();
    if i < n {
        let c = line.get_char(i);
        if c != '/' {
            return 1 + token_run_exec(line, i + 1);
        }
    }
    0
}

/// Scans one line of the attach tool's output for the endpoint URI; the
/// first `available at: http://...` match comes back with its scheme
/// replaced by `ws://`.
pub fn extract_ws_uri(line: &str) -> (r: Option<String>)
    requires
        line@.len() <= usize::MAX - 1,
    ensures
        match r {
            Some(uri) => extract_spec(line@) == Some(uri@),
            None => extract_spec(line@) is None,
        },
{
    let n = line.unicode_len();
    let mut i: usize = 0;
    loop
        invariant
            i <= n + 1,
            n == line@.len(),
            n <= usize::MAX - 1,
            extract_spec(line@) == extract_from(line@, i as int),
        decreases n + 1 - i,
    {
        if i > n {
            return None;
        }
        match try_match_at(line, i) {
            Some(uri) => {
                return Some(uri);
            },
            None => {
                if i < n {
                    i += 1;
                } else {
                    return None;
                }
            },
        }
    }
}

/// Attempts the marker-plus-URI match at position `i`.
fn try_match_at(line: &str, i: usize) -> (r: Option<String>)
    requires
        i <= line@.len() + 1,
        line@.len() <= usize::MAX - 1,
    ensures
        match r {
            Some(uri) => match_at(line@, i as int) is Some && uri@ == "ws://"@ + line@.subrange(
                i + marker().len() + 7,
                match_at(line@, i as int).unwrap(),
            ),
            None => match_at(line@, i as int) is None,
        },
{
    proof {
        reveal_strlit("available at: ");
        reveal_strlit("http://");
        reveal_strlit("ws://");
    }
    if !crate::text::occurs_at_exec(line, "available at: ", i) {
        return None;
    }
    let j = i + 14;
    if !crate::text::occurs_at_exec(line, "http://", j) {
        return None;
    }
    let h = host_run_exec(line, j + 7);
    if h < 1 {
        return None;
    }
    let k = j + 7 + h;
    let n = line.unicode_len();
    if !(k < n && line.get_char(k) == '/') {
        return None;
    }
    let p = token_run_exec(line, k + 1);
    if p < 1 {
        return None;
    }
    let q = k + 1 + p;
    let end = if q < n && line.get_char(q) == '/' {
        q + 1
    } else {
        q
    };
    let mut uri = String::from_str("ws://");
    uri.append(line.substring_char(j + 7, end));
    Some(uri)
}

} // verus!
