//! Repository paths as the file browser walks them: the breadcrumb trail of
//! a folder, the folder above it, and the folder that each crumb leads to.
use crate::text::{first_index_of, join_with, last_index_of, owned, split_on};
use vstd::prelude::*;

verus! {

/// The chars of each string.
pub open spec fn views(v: Seq<String>) -> Seq<Seq<char>> {
    v.map_values(|s: String| s@)
}

/// The breadcrumb trail of a folder path: none for the root, else the
/// path's parts between slashes.
pub open spec fn breadcrumbs_of(path: Seq<char>) -> Seq<Seq<char>> {
    if path.len() == 0 {
        Seq::empty()
    } else {
        split_on(path, '/')
    }
}

/// The folder above `path`: everything before its last slash, or the root.
pub open spec fn parent_of(path: Seq<char>) -> Seq<char> {
    let d = last_index_of(path, '/');
    if d < 0 {
        Seq::empty()
    } else {
        path.subrange(0, d)
    }
}

/// The folder that crumb `idx` of a trail leads to: the first `idx + 1`
/// crumbs joined by slashes.
pub open spec fn crumb_target(crumbs: Seq<Seq<char>>, idx: int) -> Seq<char> {
    join_with(crumbs.take(idx + 1), seq!['/'])
}

pub proof fn lemma_first_index_found(t: Seq<char>, c: char, k: int)
    requires
        0 <= k < t.len(),
        t[k] == c,
        forall|j: int| 0 <= j < k ==> t[j] != c,
    ensures
        first_index_of(t, c) == k,
    decreases t.len(),
{
    if k > 0 {
        assert forall|j: int| 0 <= j < k - 1 implies t.drop_first()[j] != c by {
            assert(t.drop_first()[j] == t[j + 1]);
        }
        lemma_first_index_found(t.drop_first(), c, k - 1);
    }
}

pub proof fn lemma_first_index_absent(t: Seq<char>, c: char)
    requires
        forall|j: int| 0 <= j < t.len() ==> t[j] != c,
    ensures
        first_index_of(t, c) == -1,
    decreases t.len(),
{
    if t.len() > 0 {
        assert forall|j: int| 0 <= j < t.len() - 1 implies t.drop_first()[j] != c by {
            assert(t.drop_first()[j] == t[j + 1]);
        }
        lemma_first_index_absent(t.drop_first(), c);
    }
}

pub proof fn lemma_first_index_bounds(t: Seq<char>, c: char)
    ensures
        -1 <= first_index_of(t, c) < t.len(),
        first_index_of(t, c) >= 0 ==> t[first_index_of(t, c)] == c,
        forall|j: int| 0 <= j < t.len() && (first_index_of(t, c) < 0 || j < first_index_of(t, c))
            ==> t[j] != c,
    decreases t.len(),
{
    if t.len() > 0 {
        lemma_first_index_bounds(t.drop_first(), c);
        assert forall|j: int|
            0 <= j < t.len() && (first_index_of(t, c) < 0 || j < first_index_of(t, c)) implies t[j]
            != c by {
            if j > 0 {
                assert(t[j] == t.drop_first()[j - 1]);
            }
        }
    }
}

pub proof fn lemma_last_index_bounds(t: Seq<char>, c: char)
    ensures
        -1 <= last_index_of(t, c) < t.len(),
        last_index_of(t, c) >= 0 ==> t[last_index_of(t, c)] == c,
        forall|j: int| last_index_of(t, c) < j < t.len() ==> t[j] != c,
    decreases t.len(),
{
    if t.len() > 0 && t.last() != c {
        lemma_last_index_bounds(t.drop_last(), c);
        assert forall|j: int| last_index_of(t, c) < j < t.len() implies t[j] != c by {
            if j < t.len() - 1 {
                assert(t[j] == t.drop_last()[j]);
            }
        }
    }
}

pub proof fn lemma_last_index_found(t: Seq<char>, c: char, k: int)
    requires
        0 <= k < t.len(),
        t[k] == c,
        forall|j: int| k < j < t.len() ==> t[j] != c,
    ensures
        last_index_of(t, c) == k,
    decreases t.len(),
{
    if k < t.len() - 1 {
        lemma_last_index_found(t.drop_last(), c, k);
    }
}

pub proof fn lemma_last_index_absent(t: Seq<char>, c: char)
    requires
        forall|j: int| 0 <= j < t.len() ==> t[j] != c,
    ensures
        last_index_of(t, c) == -1,
    decreases t.len(),
{
    if t.len() > 0 {
        lemma_last_index_absent(t.drop_last(), c);
    }
}

/// Splitting yields at least one part.
pub proof fn lemma_split_nonempty(s: Seq<char>, c: char)
    ensures
        split_on(s, c).len() >= 1,
    decreases s.len(),
{
    let d = first_index_of(s, c);
    lemma_first_index_bounds(s, c);
    if d >= 0 && d < s.len() {
        lemma_split_nonempty(s.subrange(d + 1, s.len() as int), c);
    }
}

/// Joining the parts of a split with the separator gives back the string.
pub proof fn lemma_join_split(s: Seq<char>, c: char)
    ensures
        join_with(split_on(s, c), seq![c]) == s,
    decreases s.len(),
{
    let d = first_index_of(s, c);
    lemma_first_index_bounds(s, c);
    if d >= 0 && d < s.len() {
        let rest = s.subrange(d + 1, s.len() as int);
        lemma_join_split(rest, c);
        lemma_split_nonempty(rest, c);
        let parts = seq![s.subrange(0, d)] + split_on(rest, c);
        assert(parts.drop_first() =~= split_on(rest, c));
        assert(parts[0] == s.subrange(0, d));
        assert(join_with(parts, seq![c]) == s.subrange(0, d) + seq![c] + rest);
        assert(s.subrange(0, d) + seq![c] + rest =~= s);
    }
}

/// The last crumb of a folder's trail leads back to the folder itself.
pub proof fn lemma_last_crumb_is_path(path: Seq<char>)
    requires
        path.len() > 0,
    ensures
        breadcrumbs_of(path).len() >= 1,
        crumb_target(breadcrumbs_of(path), breadcrumbs_of(path).len() - 1) == path,
{
    lemma_split_nonempty(path, '/');
    let crumbs = split_on(path, '/');
    assert(crumbs.take(crumbs.len() as int) =~= crumbs);
    lemma_join_split(path, '/');
}

/// Where `s` has a slash, its last slash lies after its first: at the first
/// one itself, or at the last slash of the part after the first one.
proof fn lemma_last_slash_after_first(s: Seq<char>, c: char)
    requires
        0 <= first_index_of(s, c) < s.len(),
    ensures
        ({
            let d = first_index_of(s, c);
            let rest = s.subrange(d + 1, s.len() as int);
            last_index_of(s, c) == (if last_index_of(rest, c) < 0 {
                d
            } else {
                d + 1 + last_index_of(rest, c)
            })
        }),
{
    let d = first_index_of(s, c);
    let rest = s.subrange(d + 1, s.len() as int);
    lemma_first_index_bounds(s, c);
    lemma_last_index_bounds(rest, c);
    let lr = last_index_of(rest, c);
    if lr < 0 {
        assert forall|j: int| d < j < s.len() implies s[j] != c by {
            assert(s[j] == rest[j - d - 1]);
            if rest[j - d - 1] == c {
                lemma_last_index_bounds(rest, c);
                assert(lr >= j - d - 1);
            }
        }
        lemma_last_index_found(s, c, d);
    } else {
        assert(s[d + 1 + lr] == rest[lr]);
        assert forall|j: int| d + 1 + lr < j < s.len() implies s[j] != c by {
            assert(s[j] == rest[j - d - 1]);
        }
        lemma_last_index_found(s, c, d + 1 + lr);
    }
}

/// "Up" leads where the second-to-last breadcrumb leads; from a folder at
/// the top, "Up" leads to the root.
pub proof fn lemma_up_is_previous_crumb(path: Seq<char>)
    requires
        path.len() > 0,
    ensures
        breadcrumbs_of(path).len() >= 2 ==> parent_of(path) == crumb_target(
            breadcrumbs_of(path),
            breadcrumbs_of(path).len() - 2,
        ),
        breadcrumbs_of(path).len() == 1 ==> parent_of(path).len() == 0,
    decreases path.len(),
{
    let parts = split_on(path, '/');
    let d = first_index_of(path, '/');
    lemma_first_index_bounds(path, '/');
    lemma_split_nonempty(path, '/');
    if d < 0 {
        assert(parts.len() == 1);
        assert forall|j: int| 0 <= j < path.len() implies path[j] != '/' by {}
        lemma_last_index_absent(path, '/');
    } else {
        let rest = path.subrange(d + 1, path.len() as int);
        let tail = split_on(rest, '/');
        lemma_split_nonempty(rest, '/');
        assert(parts == seq![path.subrange(0, d)] + tail);
        assert(parts.len() >= 2);
        lemma_last_slash_after_first(path, '/');
        lemma_first_index_bounds(rest, '/');
        let target = crumb_target(parts, parts.len() - 2);
        if tail.len() == 1 {
            // no slash after the first one
            if first_index_of(rest, '/') >= 0 {
                lemma_split_nonempty(
                    rest.subrange(first_index_of(rest, '/') + 1, rest.len() as int),
                    '/',
                );
            }
            assert(first_index_of(rest, '/') < 0);
            lemma_last_index_absent(rest, '/');
            assert(parts.take(1) =~= seq![path.subrange(0, d)]);
        } else {
            if first_index_of(rest, '/') < 0 {
                assert(tail == seq![rest]);
            }
            assert(rest.len() > 0);
            lemma_up_is_previous_crumb(rest);
            assert(breadcrumbs_of(rest) == tail);
            let lr = last_index_of(rest, '/');
            lemma_last_index_bounds(rest, '/');
            assert(lr >= 0) by {
                if lr < 0 {
                    lemma_first_index_bounds(rest, '/');
                    assert(rest[first_index_of(rest, '/')] == '/');
                }
            }
            let pt = parts.take(parts.len() - 1);
            assert(pt == seq![path.subrange(0, d)] + tail.take(tail.len() - 1));
            assert(pt.drop_first() =~= tail.take(tail.len() - 1));
            assert(pt[0] == path.subrange(0, d));
            assert(join_with(pt, seq!['/']) == path.subrange(0, d) + seq!['/'] + join_with(
                tail.take(tail.len() - 1),
                seq!['/'],
            ));
            assert(path.subrange(0, d) + seq!['/'] + rest.subrange(0, lr) =~= path.subrange(
                0,
                d + 1 + lr,
            ));
        }
    }
}

/// The parts of `path` between slashes.
pub fn split_path(path: &str) -> (parts: Vec<String>)
    ensures
        views(parts@) == split_on(path@, '/'),
{
    let n = path.unicode_len();
    let mut parts: Vec<String> = Vec::new();
    let mut start: usize = 0;
    let mut i: usize = 0;
    proof {
        assert(path@.subrange(0, n as int) =~= path@);
    }
    while i < n
        invariant
            n == path@.len(),
            start <= i <= n,
            views(parts@) + split_on(path@.subrange(start as int, n as int), '/') == split_on(
                path@,
                '/',
            ),
            forall|k: int| start <= k < i ==> path@[k] != '/',
        decreases n - i,
    {
        if path.get_char(i) == '/' {
            let seg = owned(path.substring_char(start, i));
            proof {
                let sub = path@.subrange(start as int, n as int);
                assert forall|j: int| 0 <= j < i - start implies sub[j] != '/' by {
                    assert(sub[j] == path@[start + j]);
                }
                lemma_first_index_found(sub, '/', i - start);
                assert(sub.subrange(0, i - start) =~= path@.subrange(start as int, i as int));
                assert(sub.subrange(i - start + 1, sub.len() as int) =~= path@.subrange(
                    i + 1,
                    n as int,
                ));
                assert(views(parts@.push(seg)) =~= views(parts@).push(seg@));
                assert(views(parts@).push(seg@) + split_on(path@.subrange(i + 1, n as int), '/')
                    =~= views(parts@) + split_on(sub, '/'));
            }
            parts.push(seg);
            start = i + 1;
        }
        i = i + 1;
    }
    let last = owned(path.substring_char(start, n));
    proof {
        let sub = path@.subrange(start as int, n as int);
        assert forall|j: int| 0 <= j < sub.len() implies sub[j] != '/' by {
            assert(sub[j] == path@[start + j]);
        }
        lemma_first_index_absent(sub, '/');
        assert(views(parts@.push(last)) =~= views(parts@).push(last@));
        assert(views(parts@).push(last@) =~= views(parts@) + split_on(sub, '/'));
    }
    parts.push(last);
    parts
}

/// The breadcrumb trail of a folder path.
pub fn breadcrumbs_for(path: &str) -> (crumbs: Vec<String>)
    ensures
        views(crumbs@) == breadcrumbs_of(path@),
{
    if path.is_empty() {
        let v: Vec<String> = Vec::new();
        assert(views(v@) =~= Seq::<Seq<char>>::empty());
        v
    } else {
        split_path(path)
    }
}

/// The folder above `path`.
pub fn parent_path(path: &str) -> (parent: String)
    ensures
        parent@ == parent_of(path@),
{
    let n = path.unicode_len();
    let mut i: usize = n;
    while i > 0 && path.get_char(i - 1) != '/'
        invariant
            n == path@.len(),
            i <= n,
            forall|j: int| i <= j < n ==> path@[j] != '/',
        decreases i,
    {
        i = i - 1;
    }
    if i == 0 {
        proof {
            lemma_last_index_absent(path@, '/');
        }
        String::new()
    } else {
        proof {
            lemma_last_index_found(path@, '/', i - 1);
        }
        owned(path.substring_char(0, i - 1))
    }
}

/// The parts joined by `sep`.
pub fn join_strings(parts: &Vec<String>, sep: &str) -> (r: String)
    ensures
        r@ == join_with(views(parts@), sep@),
{
    let n = parts.len();
    if n == 0 {
        assert(views(parts@) =~= Seq::<Seq<char>>::empty());
        return String::new();
    }
    // Build from the back: r holds the join of parts[i..].
    let mut i: usize = n - 1;
    let mut r = parts[i].clone();
    proof {
        assert(views(parts@).skip(i as int) =~= seq![parts@[i as int]@]);
    }
    while i > 0
        invariant
            n == parts@.len(),
            i < n,
            r@ == join_with(views(parts@).skip(i as int), sep@),
        decreases i,
    {
        let mut next = parts[i - 1].clone();
        next.append(sep);
        next.append(r.as_str());
        proof {
            let tail = views(parts@).skip(i - 1);
            assert(tail.len() >= 2);
            assert(tail.drop_first() =~= views(parts@).skip(i as int));
            assert(tail[0] == parts@[i - 1]@);
        }
        r = next;
        i = i - 1;
    }
    assert(views(parts@).skip(0) =~= views(parts@));
    r
}

} // verus!
