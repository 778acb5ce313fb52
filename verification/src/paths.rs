//! The traversal guard on manifest paths, and the name of the temporary file
//! that a download is streamed into.
//!
//! Paths are relative to the models directory and use `/` between segments.

use crate::text::{chars_of, join2};
use vstd::prelude::*;

verus! {

/// A path that starts at the root of the file system.
pub open spec fn is_absolute(p: Seq<char>) -> bool {
    p.len() > 0 && p[0] == '/'
}

/// The segment `..` stands in `p` at position `i`.
pub open spec fn parent_segment_at(p: Seq<char>, i: int) -> bool {
    &&& 0 <= i
    &&& i + 2 <= p.len()
    &&& p[i] == '.'
    &&& p[i + 1] == '.'
    &&& (i == 0 || p[i - 1] == '/')
    &&& (i + 2 == p.len() || p[i + 2] == '/')
}

/// Some segment of `p` is `..`.
pub open spec fn has_parent_segment(p: Seq<char>) -> bool {
    exists|i: int| parent_segment_at(p, i)
}

/// A path that may lead out of the directory it is resolved in.
pub open spec fn escapes(p: Seq<char>) -> bool {
    is_absolute(p) || has_parent_segment(p)
}

/// Position at which the last segment of `p` begins.
pub open spec fn last_segment_start(p: Seq<char>) -> int
    decreases p.len(),
{
    if p.len() == 0 || p.last() == '/' {
        p.len() as int
    } else {
        last_segment_start(p.drop_last())
    }
}

/// The last segment of `p`: what follows its last `/`.
pub open spec fn file_name(p: Seq<char>) -> Seq<char> {
    p.subrange(last_segment_start(p), p.len() as int)
}

/// The last segment of `p` names a file: it is neither empty nor `.` nor `..`.
pub open spec fn has_file_name(p: Seq<char>) -> bool {
    let name = file_name(p);
    name.len() > 0 && name != seq!['.'] && name != seq!['.', '.']
}

/// The sibling of `p` whose name is that of `p` followed by `.partial`.
pub open spec fn partial_path(p: Seq<char>) -> Seq<char> {
    p + seq!['.', 'p', 'a', 'r', 't', 'i', 'a', 'l']
}

/// Where the last segment begins lies within the path, and no `/` follows it.
pub proof fn lemma_last_segment(p: Seq<char>)
    ensures
        0 <= last_segment_start(p) <= p.len(),
        last_segment_start(p) > 0 ==> p[last_segment_start(p) - 1] == '/',
        forall|j: int| last_segment_start(p) <= j < p.len() ==> p[j] != '/',
    decreases p.len(),
{
    if p.len() == 0 || p.last() == '/' {
    } else {
        let q = p.drop_last();
        lemma_last_segment(q);
        assert forall|j: int| last_segment_start(p) <= j < p.len() implies p[j] != '/' by {
            if j < q.len() {
                assert(p[j] == q[j]);
            }
        }
        if last_segment_start(p) > 0 {
            assert(p[last_segment_start(p) - 1] == q[last_segment_start(q) - 1]);
        }
    }
}

/// The sibling of a path with a file name keeps its directory, and its own
/// file name is the old one followed by `.partial`.
pub proof fn lemma_partial_is_sibling(p: Seq<char>)
    requires
        has_file_name(p),
    ensures
        last_segment_start(partial_path(p)) == last_segment_start(p),
        file_name(partial_path(p)) == partial_path(file_name(p)),
        partial_path(p).subrange(0, last_segment_start(p)) == p.subrange(
            0,
            last_segment_start(p),
        ),
{
    let suffix = seq!['.', 'p', 'a', 'r', 't', 'i', 'a', 'l'];
    lemma_last_segment(p);
    lemma_start_after_append(p, suffix);
    let q = partial_path(p);
    let k = last_segment_start(p);
    assert(q.subrange(k, q.len() as int) =~= p.subrange(k, p.len() as int) + suffix);
    assert(q.subrange(0, k) =~= p.subrange(0, k));
}

/// Appending characters other than `/` does not move the last segment.
proof fn lemma_start_after_append(p: Seq<char>, tail: Seq<char>)
    requires
        forall|j: int| 0 <= j < tail.len() ==> tail[j] != '/',
    ensures
        last_segment_start(p + tail) == last_segment_start(p),
    decreases tail.len(),
{
    if tail.len() == 0 {
        assert(p + tail =~= p);
    } else {
        let shorter = tail.drop_last();
        let whole = p + tail;
        assert(whole.last() == tail.last());
        assert(whole.drop_last() =~= p + shorter);
        assert forall|j: int| 0 <= j < shorter.len() implies shorter[j] != '/' by {
            assert(shorter[j] == tail[j]);
        }
        lemma_start_after_append(p, shorter);
    }
}

/// Decides whether a path may lead out of the directory it is resolved in.
pub fn path_escapes(path: &str) -> (r: bool)
    ensures
        r == escapes(path@),
{
    let v = chars_of(path);
    let n = v.len();
    if n > 0 && v[0] == '/' {
        return true;
    }
    let mut i: usize = 0;
    while i < n
        invariant
            n == v.len(),
            v@ == path@,
            i <= n,
            forall|j: int| 0 <= j < i ==> !parent_segment_at(path@, j),
        decreases n - i,
    {
        if v[i] == '.' && n - i >= 2 && v[i + 1] == '.' && (i == 0 || v[i - 1] == '/') && (n - i
            == 2 || v[i + 2] == '/') {
            assert(parent_segment_at(path@, i as int));
            return true;
        }
        i += 1;
    }
    false
}

/// Where a download of `path` is streamed to: the sibling named
/// `<name>.partial`. `None` when the path has no file name.
pub fn temp_path(path: &str) -> (r: Option<String>)
    ensures
        has_file_name(path@) ==> (r matches Some(p) && p@ == partial_path(path@)),
        !has_file_name(path@) ==> r is None,
{
    let v = chars_of(path);
    let n = v.len();
    let mut start: usize = n;
    while start > 0 && v[start - 1] != '/'
        invariant
            start <= n,
            n == v.len(),
            forall|j: int| start <= j < n ==> v@[j] != '/',
        decreases start,
    {
        start -= 1;
    }
    proof {
        lemma_start_is_last_segment(v@, start as int);
        let name = file_name(v@);
        if name.len() == 1 {
            assert(name[0] == v@[start as int]);
            assert((name == seq!['.']) <==> v@[start as int] == '.') by {
                if v@[start as int] == '.' {
                    assert(name =~= seq!['.']);
                } else {
                    assert(seq!['.'][0] == '.');
                }
            }
        }
        if name.len() == 2 {
            assert(name[0] == v@[start as int]);
            assert(name[1] == v@[start + 1]);
            assert((name == seq!['.', '.']) <==> (v@[start as int] == '.' && v@[start + 1]
                == '.')) by {
                if v@[start as int] == '.' && v@[start + 1] == '.' {
                    assert(name =~= seq!['.', '.']);
                } else {
                    assert(seq!['.', '.'][0] == '.');
                    assert(seq!['.', '.'][1] == '.');
                }
            }
        }
        if name.len() != 1 {
            assert(name != seq!['.']) by {
                assert(seq!['.'].len() == 1);
            }
        }
        if name.len() != 2 {
            assert(name != seq!['.', '.']) by {
                assert(seq!['.', '.'].len() == 2);
            }
        }
    }
    let len = n - start;
    if len == 0 {
        return None;
    }
    if len == 1 && v[start] == '.' {
        return None;
    }
    if len == 2 && v[start] == '.' && v[start + 1] == '.' {
        return None;
    }
    proof {
        reveal_strlit(".partial");
        assert(".partial"@ =~= seq!['.', 'p', 'a', 'r', 't', 'i', 'a', 'l']);
    }
    Some(join2(path, ".partial"))
}

/// A position that follows a `/` or the start, with no `/` after it, is where
/// the last segment begins.
proof fn lemma_start_is_last_segment(p: Seq<char>, k: int)
    requires
        0 <= k <= p.len(),
        k == 0 || p[k - 1] == '/',
        forall|j: int| k <= j < p.len() ==> p[j] != '/',
    ensures
        last_segment_start(p) == k,
    decreases p.len(),
{
    if p.len() == 0 || p.last() == '/' {
    } else {
        let q = p.drop_last();
        assert forall|j: int| k <= j < q.len() implies q[j] != '/' by {
            assert(q[j] == p[j]);
        }
        if k > 0 {
            assert(q[k - 1] == p[k - 1]);
        }
        lemma_start_is_last_segment(q, k);
    }
}

} // verus!
