//! Verified operations on path and query strings.

use vstd::prelude::*;

use crate::navigation::opt_view;

verus! {

/// The view of a list of strings.
pub open spec fn strs_view(strs: Seq<String>) -> Seq<Seq<char>> {
    strs.map_values(|s: String| s@)
}

/// Pushing a string distributes over the view of a string list.
pub proof fn lemma_strs_view_push(strs: Seq<String>, s: String)
    ensures
        strs_view(strs.push(s)) == strs_view(strs).push(s@),
{
    assert(strs_view(strs.push(s)) =~= strs_view(strs).push(s@));
}

/// Dropping the last string distributes over the view of a string list.
pub proof fn lemma_strs_view_drop_last(strs: Seq<String>)
    requires
        strs.len() > 0,
    ensures
        strs_view(strs.drop_last()) == strs_view(strs).drop_last(),
        strs_view(strs).last() == strs.last()@,
{
    assert(strs_view(strs.drop_last()) =~= strs_view(strs).drop_last());
}

/// Splitting a path into its non-empty segments, with every `/` acting as a
/// separator: `cur` is the segment collected so far and `acc` the segments
/// already complete.
pub open spec fn split_rec(path: Seq<char>, cur: Seq<char>, acc: Seq<Seq<char>>) -> Seq<Seq<char>>
    decreases path.len(),
{
    if path.len() == 0 {
        if cur.len() == 0 {
            acc
        } else {
            acc.push(cur)
        }
    } else if path[0] == '/' {
        split_rec(
            path.drop_first(),
            Seq::<char>::empty(),
            if cur.len() == 0 {
                acc
            } else {
                acc.push(cur)
            },
        )
    } else {
        split_rec(path.drop_first(), cur.push(path[0]), acc)
    }
}

/// The ordered non-empty segments of `path`; leading, trailing and repeated
/// `/` are ignored.
pub open spec fn split_path_spec(path: Seq<char>) -> Seq<Seq<char>> {
    split_rec(path, Seq::<char>::empty(), Seq::<Seq<char>>::empty())
}

/// Split `path` into its non-empty segments.
pub fn split_path(path: &str) -> (segments: Vec<String>)
    ensures
        strs_view(segments@) == split_path_spec(path@),
{
    let len = path.unicode_len();
    let mut segments: Vec<String> = Vec::new();
    let mut start: usize = 0;
    let mut i: usize = 0;
    proof {
        assert(path@.skip(0) =~= path@);
        assert(path@.subrange(0, 0) =~= Seq::<char>::empty());
        assert(strs_view(segments@) =~= Seq::<Seq<char>>::empty());
    }
    while i < len
        invariant
            len == path@.len(),
            start <= i <= len,
            forall|j: int| start <= j < i ==> path@[j] != '/',
            split_path_spec(path@) == split_rec(
                path@.skip(i as int),
                path@.subrange(start as int, i as int),
                strs_view(segments@),
            ),
        decreases len - i,
    {
        let ghost pre_acc = strs_view(segments@);
        let c = path.get_char(i);
        if c == '/' {
            if i > start {
                let seg = path.substring_char(start, i);
                segments.push(seg.to_owned());
                proof {
                    assert(strs_view(segments@) =~= pre_acc.push(
                        path@.subrange(start as int, i as int),
                    ));
                }
            }
            proof {
                assert(path@.skip(i as int).drop_first() =~= path@.skip(i as int + 1));
                assert(path@.subrange(i as int + 1, i as int + 1) =~= Seq::<char>::empty());
            }
            start = i + 1;
        } else {
            proof {
                assert(path@.skip(i as int).drop_first() =~= path@.skip(i as int + 1));
                assert(path@.subrange(start as int, i as int).push(path@[i as int])
                    =~= path@.subrange(start as int, i as int + 1));
            }
        }
        i += 1;
    }
    let ghost pre_acc = strs_view(segments@);
    if len > start {
        let seg = path.substring_char(start, len);
        segments.push(seg.to_owned());
        proof {
            assert(strs_view(segments@) =~= pre_acc.push(
                path@.subrange(start as int, len as int),
            ));
        }
    }
    proof {
        assert(path@.skip(len as int) =~= Seq::<char>::empty());
        assert(strs_view(segments@) =~= split_path_spec(path@));
    }
    segments
}

/// The path written for a chain of segments: `/` when the chain is empty,
/// else `/` before each segment.
pub open spec fn joined_path(segments: Seq<Seq<char>>) -> Seq<char> {
    if segments.len() == 0 {
        seq!['/']
    } else {
        join_rec(segments)
    }
}

/// `/` before each segment, in order.
pub open spec fn join_rec(segments: Seq<Seq<char>>) -> Seq<char>
    decreases segments.len(),
{
    if segments.len() == 0 {
        Seq::<char>::empty()
    } else {
        seq!['/'] + segments[0] + join_rec(segments.drop_first())
    }
}

/// Write the path for a chain of segments.
pub fn build_path(segments: &Vec<String>) -> (path: String)
    ensures
        path@ == joined_path(strs_view(segments@)),
{
    let ghost all = strs_view(segments@);
    if segments.len() == 0 {
        let path = String::from_str("/");
        proof {
            reveal_strlit("/");
            assert(path@ =~= joined_path(all));
        }
        return path;
    }
    let mut path = String::new();
    let mut i: usize = 0;
    proof {
        assert(all.skip(0) =~= all);
        assert(Seq::<char>::empty() + join_rec(all) =~= join_rec(all));
    }
    while i < segments.len()
        invariant
            i <= segments@.len(),
            all == strs_view(segments@),
            join_rec(all) == path@ + join_rec(all.skip(i as int)),
        decreases segments@.len() - i,
    {
        path.append("/");
        path.append(segments[i].as_str());
        proof {
            reveal_strlit("/");
            assert(all.skip(i as int).drop_first() =~= all.skip(i as int + 1));
            assert(join_rec(all) =~= path@ + join_rec(all.skip(i as int + 1)));
        }
        i += 1;
    }
    proof {
        assert(all.skip(segments@.len() as int) =~= Seq::<Seq<char>>::empty());
        assert(path@ =~= join_rec(all));
    }
    path
}

/// Whether `prefix` is a prefix of `text`.
pub open spec fn is_prefix(prefix: Seq<char>, text: Seq<char>) -> bool {
    prefix.len() <= text.len() && text.take(prefix.len() as int) == prefix
}

/// Whether `text` starts with `prefix`.
pub fn str_starts_with(text: &str, prefix: &str) -> (starts: bool)
    ensures
        starts == is_prefix(prefix@, text@),
{
    let text_len = text.unicode_len();
    let prefix_len = prefix.unicode_len();
    if prefix_len > text_len {
        proof {
            assert(!is_prefix(prefix@, text@));
        }
        return false;
    }
    let mut i: usize = 0;
    while i < prefix_len
        invariant
            prefix_len == prefix@.len(),
            text_len == text@.len(),
            prefix_len <= text_len,
            i <= prefix_len,
            forall|j: int| 0 <= j < i ==> text@[j] == prefix@[j],
        decreases prefix_len - i,
    {
        if text.get_char(i) != prefix.get_char(i) {
            proof {
                assert(text@.take(prefix@.len() as int)[i as int] != prefix@[i as int]);
            }
            return false;
        }
        i += 1;
    }
    proof {
        assert(text@.take(prefix@.len() as int) =~= prefix@);
    }
    true
}

/// Whether `text` starts with the character `first`.
pub fn starts_with_char(text: &str, first: char) -> (starts: bool)
    ensures
        starts == (text@.len() > 0 && text@[0] == first),
{
    if text.unicode_len() == 0 {
        false
    } else {
        text.get_char(0) == first
    }
}

/// The first index of `c` in `text`, or `-1` when it does not occur.
pub open spec fn find_char_spec(text: Seq<char>, c: char) -> int
    decreases text.len(),
{
    if text.len() == 0 {
        -1
    } else if text[0] == c {
        0
    } else {
        let rest = find_char_spec(text.drop_first(), c);
        if rest == -1 {
            -1
        } else {
            rest + 1
        }
    }
}

/// When no index below `i` holds `c`, the first occurrence of `c` is `i`
/// when `text[i]` is `c`, and there is none when `i` is the length.
proof fn lemma_find_char_from(text: Seq<char>, c: char, i: int)
    requires
        0 <= i <= text.len(),
        forall|j: int| 0 <= j < i ==> text[j] != c,
    ensures
        i < text.len() && text[i] == c ==> find_char_spec(text, c) == i,
        i == text.len() ==> find_char_spec(text, c) == -1,
    decreases text.len(),
{
    if text.len() == 0 || i == 0 {
    } else {
        let rest = text.drop_first();
        assert(forall|j: int| 0 <= j < i - 1 ==> rest[j] != c);
        lemma_find_char_from(rest, c, i - 1);
        if i < text.len() {
            assert(rest[i - 1] == text[i]);
        }
    }
}

/// The first index of `c` in `text`, if it occurs.
pub fn find_char(text: &str, c: char) -> (found: Option<usize>)
    ensures
        match found {
            Some(i) => find_char_spec(text@, c) == i as int && i < text@.len(),
            None => find_char_spec(text@, c) == -1,
        },
{
    let len = text.unicode_len();
    let mut i: usize = 0;
    while i < len
        invariant
            len == text@.len(),
            i <= len,
            forall|j: int| 0 <= j < i ==> text@[j] != c,
        decreases len - i,
    {
        if text.get_char(i) == c {
            proof {
                lemma_find_char_from(text@, c, i as int);
            }
            return Some(i);
        }
        i += 1;
    }
    proof {
        lemma_find_char_from(text@, c, len as int);
    }
    None
}

/// A relative path joined onto the current path: a `/` is put between them
/// unless the current path already ends with one.
pub open spec fn relative_join(current: Seq<char>, relative: Seq<char>) -> Seq<char> {
    if current.len() > 0 && current.last() == '/' {
        current + relative
    } else {
        current + seq!['/'] + relative
    }
}

/// Join a relative path onto the current path.
pub fn join_relative(current: &str, relative: &str) -> (joined: String)
    ensures
        joined@ == relative_join(current@, relative@),
{
    let len = current.unicode_len();
    let base = String::from_str(current);
    if len > 0 && current.get_char(len - 1) == '/' {
        let joined = base.concat(relative);
        proof {
            assert(joined@ =~= relative_join(current@, relative@));
        }
        joined
    } else {
        let joined = base.concat("/").concat(relative);
        proof {
            reveal_strlit("/");
            assert(joined@ =~= relative_join(current@, relative@));
        }
        joined
    }
}

/// The path part of a history entry: everything before the first `?`, or
/// the whole entry when it holds none.
pub open spec fn entry_path(entry: Seq<char>) -> Seq<char> {
    let cut = find_char_spec(entry, '?');
    if cut == -1 {
        entry
    } else {
        entry.take(cut)
    }
}

/// The query part of a history entry: everything after the first `?`, or
/// nothing when the entry holds none.
pub open spec fn entry_query(entry: Seq<char>) -> Option<Seq<char>> {
    let cut = find_char_spec(entry, '?');
    if cut == -1 {
        None
    } else {
        Some(entry.skip(cut + 1))
    }
}

/// Split a history entry at its first `?` into path and query.
pub fn split_entry(entry: &str) -> (parts: (String, Option<String>))
    ensures
        parts.0@ == entry_path(entry@),
        opt_view(parts.1) == entry_query(entry@),
{
    let len = entry.unicode_len();
    match find_char(entry, '?') {
        Some(cut) => {
            let path = entry.substring_char(0, cut).to_owned();
            let query = entry.substring_char(cut + 1, len).to_owned();
            proof {
                assert(entry@.subrange(0, cut as int) =~= entry@.take(cut as int));
                assert(entry@.subrange(cut as int + 1, len as int) =~= entry@.skip(cut as int + 1));
            }
            (path, Some(query))
        },
        None => {
            let path = entry.substring_char(0, len).to_owned();
            proof {
                assert(entry@.subrange(0, len as int) =~= entry@);
            }
            (path, None)
        },
    }
}

/// A host path normalized for matching: the prefix is stripped when the
/// path starts with it, and a leading `/` is put on when one is missing.
pub open spec fn normalized_path(path: Seq<char>, prefix: Option<Seq<char>>) -> Seq<char> {
    let stripped = match prefix {
        Some(p) => if is_prefix(p, path) {
            path.skip(p.len() as int)
        } else {
            path
        },
        None => path,
    };
    if stripped.len() > 0 && stripped[0] == '/' {
        stripped
    } else {
        seq!['/'] + stripped
    }
}

/// Normalize a host path for matching: strip `prefix` when the path starts
/// with it, then make the path absolute.
pub fn normalize_path(path: &str, prefix: Option<&String>) -> (normalized: String)
    ensures
        normalized@ == normalized_path(path@, match prefix {
            Some(p) => Some(p@),
            None => None,
        }),
{
    let stripped: &str = match prefix {
        Some(p) => {
            if str_starts_with(path, p.as_str()) {
                let len = path.unicode_len();
                let cut = p.as_str().unicode_len();
                path.substring_char(cut, len)
            } else {
                path
            }
        },
        None => path,
    };
    if starts_with_char(stripped, '/') {
        stripped.to_owned()
    } else {
        let absolute = String::from_str("/").concat(stripped);
        proof {
            reveal_strlit("/");
            assert(absolute@ =~= seq!['/'] + stripped@);
        }
        absolute
    }
}

/// A host query string normalized: the leading `?` is dropped, and an
/// empty query stands for none.
pub open spec fn normalized_query(query: Seq<char>) -> Option<Seq<char>> {
    let bare = if query.len() > 0 && query[0] == '?' {
        query.drop_first()
    } else {
        query
    };
    if bare.len() == 0 {
        None
    } else {
        Some(bare)
    }
}

/// Normalize a host query string: drop the leading `?`; an empty query
/// stands for none.
pub fn normalize_query(query: &str) -> (normalized: Option<String>)
    ensures
        opt_view(normalized) == normalized_query(query@),
{
    let len = query.unicode_len();
    let bare: &str = if starts_with_char(query, '?') {
        let cut = query.substring_char(1, len);
        proof {
            assert(query@.subrange(1, len as int) =~= query@.drop_first());
        }
        cut
    } else {
        query
    };
    if bare.unicode_len() == 0 {
        None
    } else {
        Some(bare.to_owned())
    }
}

/// A path prepared for a prefixed host history: `None` for a path starting
/// with `//`, which is rejected; otherwise the prefix is put before a path
/// that is not absolute.
pub open spec fn prepared_path(path: Seq<char>, prefix: Option<Seq<char>>) -> Option<Seq<char>> {
    if path.len() >= 2 && path[0] == '/' && path[1] == '/' {
        None
    } else {
        match prefix {
            Some(p) => if !(path.len() > 0 && path[0] == '/') {
                Some(p + path)
            } else {
                Some(path)
            },
            None => Some(path),
        }
    }
}

/// Prepare a path for a prefixed host history: reject a path starting with
/// `//`, and put the prefix before a path that is not absolute.
pub fn prepare_path(path: String, prefix: Option<&String>) -> (prepared: Option<String>)
    ensures
        opt_view(prepared) == prepared_path(path@, match prefix {
            Some(p) => Some(p@),
            None => None,
        }),
{
    let len = path.as_str().unicode_len();
    if len >= 2 && path.as_str().get_char(0) == '/' && path.as_str().get_char(1) == '/' {
        return None;
    }
    match prefix {
        Some(p) => {
            if !starts_with_char(path.as_str(), '/') {
                let joined = p.clone().concat(path.as_str());
                Some(joined)
            } else {
                Some(path)
            }
        },
        None => Some(path),
    }
}

/// The segment of `path` after its last `/`; the whole of `path` when it
/// holds no `/`.
pub open spec fn tail_segment(path: Seq<char>) -> Seq<char>
    decreases path.len(),
{
    if path.len() == 0 {
        Seq::<char>::empty()
    } else if path.last() == '/' {
        Seq::<char>::empty()
    } else {
        tail_segment(path.drop_last()).push(path.last())
    }
}

/// Without any `/`, the tail segment is the whole text.
proof fn lemma_tail_segment_no_slash(path: Seq<char>)
    requires
        forall|i: int| 0 <= i < path.len() ==> path[i] != '/',
    ensures
        tail_segment(path) =~= path,
    decreases path.len(),
{
    if path.len() > 0 {
        lemma_tail_segment_no_slash(path.drop_last());
    }
}

/// With the last `/` at `k`, the tail segment is everything after `k`.
proof fn lemma_tail_segment_after_slash(path: Seq<char>, k: int)
    requires
        0 <= k < path.len(),
        path[k] == '/',
        forall|i: int| k < i < path.len() ==> path[i] != '/',
    ensures
        tail_segment(path) =~= path.skip(k + 1),
    decreases path.len(),
{
    if k == path.len() - 1 {
    } else {
        lemma_tail_segment_after_slash(path.drop_last(), k);
        assert(path.drop_last().skip(k + 1) =~= path.skip(k + 1).drop_last());
    }
}

/// The segment of `path` after its last `/`, or the whole of `path` when it
/// holds none.
pub fn last_segment(path: &str) -> (tail: String)
    ensures
        tail@ == tail_segment(path@),
{
    let len = path.unicode_len();
    let mut i: usize = len;
    while i > 0
        invariant
            len == path@.len(),
            i <= len,
            forall|j: int| i <= j < len ==> path@[j] != '/',
        decreases i,
    {
        if path.get_char(i - 1) == '/' {
            let tail = path.substring_char(i, len).to_owned();
            proof {
                lemma_tail_segment_after_slash(path@, i - 1);
            }
            return tail;
        }
        i -= 1;
    }
    let tail = path.substring_char(0, len).to_owned();
    proof {
        lemma_tail_segment_no_slash(path@);
        assert(path@.subrange(0, len as int) =~= path@);
    }
    tail
}

} // verus!
