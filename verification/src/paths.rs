//! Path handling around a transfer: endpoint splitting (`host:path`),
//! platform normalization of a local path, and the derivation of the
//! partial-file (marker) path from the target path.  The marker path is a
//! pure function of the target path, so repeated resume attempts always
//! find the same marker; the resume offset is the marker's length.

use vstd::prelude::*;

use crate::strutil::contains_char;
use vstd::string::StrSliceExecFns;
use vstd::string::StringExecFns;

verus! {

/// `s` with every `/` replaced by `\`.
pub open spec fn backslashed(s: Seq<char>) -> Seq<char> {
    s.map_values(|c: char| if c == '/' { '\\' } else { c })
}

/// A path as the platform writes it: unchanged off Windows; on Windows the
/// separators become backslashes and an absolute path gains a `C:` drive.
pub open spec fn normalize_path_spec(s: Seq<char>, windows: bool) -> Seq<char> {
    if windows {
        if s.len() > 0 && s[0] == '/' {
            "C:"@ + backslashed(s)
        } else {
            backslashed(s)
        }
    } else {
        s
    }
}

/// Normalize a path for the platform named by `windows`.
pub fn normalize_path(path: &str, windows: bool) -> (r: String)
    ensures
        r@ == normalize_path_spec(path@, windows),
{
    if !windows {
        return String::from_str(path);
    }
    let len = path.unicode_len();
    let mut r = if len > 0 && path.get_char(0) == '/' {
        String::from_str("C:")
    } else {
        String::new()
    };
    let ghost prefix = r@;
    let mut i: usize = 0;
    proof {
        assert(r@ =~= prefix + backslashed(path@.take(0)));
    }
    while i < len
        invariant
            i <= len,
            len == path@.len(),
            r@ == prefix + backslashed(path@.take(i as int)),
        decreases len - i,
    {
        let c = path.get_char(i);
        if c == '/' {
            r.push('\\');
        } else {
            r.push(c);
        }
        proof {
            assert(backslashed(path@.take(i + 1)) =~= backslashed(path@.take(i as int)).push(
                if path@[i as int] == '/' { '\\' } else { path@[i as int] },
            ));
            assert(r@ =~= prefix + backslashed(path@.take(i + 1)));
        }
        i = i + 1;
    }
    proof {
        assert(path@.take(len as int) =~= path@);
        if len > 0 && path@[0] == '/' {
            assert(r@ == "C:"@ + backslashed(path@));
        } else {
            assert(Seq::<char>::empty() + backslashed(path@) =~= backslashed(path@));
        }
    }
    r
}

/// Index of the first occurrence of `c` in `s`, or `-1`.
pub open spec fn find_char(s: Seq<char>, c: char) -> int
    decreases s.len(),
{
    if s.len() == 0 {
        -1
    } else if s[0] == c {
        0
    } else if find_char(s.skip(1), c) == -1 {
        -1
    } else {
        1 + find_char(s.skip(1), c)
    }
}

/// A run of non-occurrences followed by an occurrence (or the end)
/// determines `find_char`.
pub proof fn lemma_find_char_is(s: Seq<char>, c: char, k: int)
    requires
        0 <= k <= s.len(),
        forall|j: int| 0 <= j < k ==> s[j] != c,
        k == s.len() || s[k] == c,
    ensures
        find_char(s, c) == if k == s.len() { -1int } else { k },
    decreases k,
{
    if k == 0 {
    } else {
        assert forall|j: int| 0 <= j < k - 1 implies s.skip(1)[j] != c by {
            assert(s.skip(1)[j] == s[j + 1]);
        }
        if k < s.len() {
            assert(s.skip(1)[k - 1] == s[k]);
        }
        lemma_find_char_is(s.skip(1), c, k - 1);
    }
}

/// The two endpoints of one transfer, resolved from the command line: the
/// remote side split at the first `:` of its `host:path` form, and the
/// local side normalized for the platform.
pub struct EndpointPaths {
    pub remote_host: String,
    pub remote_path: String,
    pub local_path: String,
}

/// Split the remote endpoint at its first `:`.  An endpoint without a `:`
/// is read as a bare host with the degenerate remote path `:`.
pub fn split_host_path(remote: &str, local_path: &str, windows: bool) -> (r: EndpointPaths)
    ensures
        contains_char(remote@, ':') ==> {
            let idx = find_char(remote@, ':');
            r.remote_host@ == remote@.take(idx) && r.remote_path@ == remote@.skip(idx + 1)
        },
        !contains_char(remote@, ':') ==> r.remote_host@ == remote@ && r.remote_path@ == ":"@,
        r.local_path@ == normalize_path_spec(local_path@, windows),
{
    let len = remote.unicode_len();
    let mut i: usize = 0;
    while i < len && remote.get_char(i) != ':'
        invariant
            i <= len,
            len == remote@.len(),
            forall|j: int| 0 <= j < i ==> remote@[j] != ':',
        decreases len - i,
    {
        i = i + 1;
    }
    proof {
        lemma_find_char_is(remote@, ':', i as int);
    }
    if i < len {
        proof {
            assert(contains_char(remote@, ':')) by {
                assert(remote@[i as int] == ':');
            }
        }
        EndpointPaths {
            remote_host: String::from_str(remote.substring_char(0, i)),
            remote_path: String::from_str(remote.substring_char(i + 1, len)),
            local_path: normalize_path(local_path, windows),
        }
    } else {
        proof {
            assert(!contains_char(remote@, ':'));
        }
        EndpointPaths {
            remote_host: String::from_str(remote),
            remote_path: String::from_str(":"),
            local_path: normalize_path(local_path, windows),
        }
    }
}

/// `c` separates path components.
pub open spec fn is_sep(c: char) -> bool {
    c == '/' || c == '\\'
}

/// Index of the last separator in `s`, or `-1`: the file name starts just
/// after it.
pub open spec fn last_sep(s: Seq<char>) -> int
    decreases s.len(),
{
    if s.len() == 0 {
        -1
    } else if is_sep(s[s.len() - 1]) {
        s.len() - 1
    } else {
        last_sep(s.drop_last())
    }
}

/// Index of the last `.` in `s`, or `-1`.
pub open spec fn last_dot(s: Seq<char>) -> int
    decreases s.len(),
{
    if s.len() == 0 {
        -1
    } else if s[s.len() - 1] == '.' {
        s.len() - 1
    } else {
        last_dot(s.drop_last())
    }
}

/// Where the extension of the file name begins, or the length of `s` if
/// the file name has none.  A dot that opens the file name (a hidden file)
/// does not begin an extension.
pub open spec fn stem_len(s: Seq<char>) -> int {
    if last_dot(s) > last_sep(s) + 1 {
        last_dot(s)
    } else {
        s.len() as int
    }
}

/// The marker (partial-file) path of a target path: the extension of the
/// file name is replaced by `part`, or `.part` is appended if it has none.
pub open spec fn part_path_spec(s: Seq<char>) -> Seq<char> {
    s.take(stem_len(s)) + ".part"@
}

/// Scanned run without the sought character pins down `last_sep`/`last_dot`.
proof fn lemma_last_index_is(s: Seq<char>, k: int, dot: bool)
    requires
        -1 <= k < s.len(),
        k >= 0 ==> if dot {
            s[k] == '.'
        } else {
            is_sep(s[k])
        },
        forall|j: int| k < j < s.len() ==> if dot {
            s[j] != '.'
        } else {
            !is_sep(s[j])
        },
    ensures
        dot ==> last_dot(s) == k,
        !dot ==> last_sep(s) == k,
    decreases s.len(),
{
    if s.len() == 0 {
    } else if k == s.len() - 1 {
    } else {
        assert(forall|j: int| k < j < s.len() - 1 ==> s.drop_last()[j] == s[j]);
        lemma_last_index_is(s.drop_last(), k, dot);
    }
}

/// Derive the marker path from the target path.
pub fn part_path_of(local_path: &str) -> (r: String)
    ensures
        r@ == part_path_spec(local_path@),
{
    let len = local_path.unicode_len();
    // scan for the last separator
    let mut sep: usize = len;
    let mut i: usize = len;
    while i > 0 && sep == len
        invariant
            i <= len,
            len == local_path@.len(),
            sep == len || (i == sep < len && is_sep(local_path@[sep as int])),
            forall|j: int| (if sep == len { i as int } else { sep + 1 }) <= j < len
                ==> !is_sep(local_path@[j]),
        decreases i,
    {
        i = i - 1;
        if local_path.get_char(i) == '/' || local_path.get_char(i) == '\\' {
            sep = i;
        }
    }
    // scan for the last dot
    let mut dot: usize = len;
    let mut i2: usize = len;
    while i2 > 0 && dot == len
        invariant
            i2 <= len,
            len == local_path@.len(),
            dot == len || (i2 == dot < len && local_path@[dot as int] == '.'),
            forall|j: int| (if dot == len { i2 as int } else { dot + 1 }) <= j < len
                ==> local_path@[j] != '.',
        decreases i2,
    {
        i2 = i2 - 1;
        if local_path.get_char(i2) == '.' {
            dot = i2;
        }
    }
    proof {
        lemma_last_index_is(
            local_path@,
            if sep == len { -1int } else { sep as int },
            false,
        );
        lemma_last_index_is(local_path@, if dot == len { -1int } else { dot as int }, true);
    }
    let dot_in_name = dot != len && (if sep == len { dot > 0 } else { dot > sep + 1 });
    let stem: usize = if dot_in_name { dot } else { len };
    proof {
        assert(stem == stem_len(local_path@));
    }
    let r = String::from_str(local_path.substring_char(0, stem)).concat(".part");
    proof {
        assert(r@ =~= part_path_spec(local_path@));
    }
    r
}

/// The resume offset a marker of the given length dictates: its byte
/// length if the marker exists, zero otherwise.
pub fn resume_offset(part_len: Option<u64>) -> (r: u64)
    ensures
        r == (match part_len {
            Some(n) => n,
            None => 0u64,
        }),
{
    match part_len {
        Some(n) => n,
        None => 0,
    }
}

} // verus!
