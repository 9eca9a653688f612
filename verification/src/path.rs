use vstd::prelude::*;
use vstd::string::StrSliceExecFns;
use vstd::string::StringExecFns;

verus! {

/// A query path with one trailing `/` taken off, if it had one.
pub open spec fn normalized(path: Seq<char>) -> Seq<char> {
    if path.len() > 0 && path.last() == '/' {
        path.drop_last()
    } else {
        path
    }
}

/// Position of the first `/` in `s`, or `s.len()` where it holds none.
pub open spec fn first_slash(s: Seq<char>) -> nat
    decreases s.len(),
{
    if s.len() == 0 || s[0] == '/' {
        0
    } else {
        1 + first_slash(s.drop_first())
    }
}

/// Whether `s` holds a `/`.
pub open spec fn has_slash(s: Seq<char>) -> bool {
    first_slash(s) < s.len()
}

/// The pieces of `s` between its `/` characters, in order. A string without
/// `/` is one piece, the empty string included.
pub open spec fn segments(s: Seq<char>) -> Seq<Seq<char>>
    decreases s.len(),
{
    let k = first_slash(s);
    if k >= s.len() {
        seq![s]
    } else {
        seq![s.take(k as int)] + segments(s.skip(k as int + 1))
    }
}

/// How many segments a query path addresses: none for the empty path.
pub open spec fn depth(q: Seq<char>) -> nat {
    if q.len() == 0 {
        0
    } else {
        segments(q).len()
    }
}

/// The last segment of `s`: what follows its last `/`.
pub open spec fn leaf(s: Seq<char>) -> Seq<char> {
    segments(s).last()
}

/// What stands in front of the names directly below `q`: `q` and a `/`, or
/// nothing at the top level.
pub open spec fn dir_prefix(q: Seq<char>) -> Seq<char> {
    if q.len() == 0 {
        q
    } else {
        q.push('/')
    }
}

/// The part of `p` that follows the directory `q`, for `p` below `q`.
pub open spec fn below(p: Seq<char>, q: Seq<char>) -> Seq<char> {
    p.skip(dir_prefix(q).len() as int)
}

/// The name of the child of `q` through which `p` is reached.
pub open spec fn child_name(p: Seq<char>, q: Seq<char>) -> Seq<char> {
    below(p, q).take(first_slash(below(p, q)) as int)
}

/// The full path of the child of `q` through which `p` is reached.
pub open spec fn child_path(p: Seq<char>, q: Seq<char>) -> Seq<char> {
    p.take((dir_prefix(q).len() + first_slash(below(p, q))) as int)
}

/// What `first_slash` finds: a position within bounds, no `/` before it, and
/// a `/` at it unless it is the end.
pub proof fn lemma_first_slash(s: Seq<char>)
    ensures
        first_slash(s) <= s.len(),
        forall|i: int| 0 <= i < first_slash(s) ==> s[i] != '/',
        first_slash(s) < s.len() ==> s[first_slash(s) as int] == '/',
    decreases s.len(),
{
    if s.len() == 0 || s[0] == '/' {
    } else {
        let t = s.drop_first();
        lemma_first_slash(t);
        assert forall|i: int| 0 <= i < first_slash(s) implies s[i] != '/' by {
            if i > 0 {
                assert(s[i] == t[i - 1]);
            }
        }
        if first_slash(s) < s.len() {
            assert(s[first_slash(s) as int] == t[first_slash(t) as int]);
        }
    }
}

/// A position with no `/` before it and a `/` at it, or the end, is the one
/// that `first_slash` finds.
pub proof fn lemma_first_slash_is(s: Seq<char>, k: int)
    requires
        0 <= k <= s.len(),
        forall|i: int| 0 <= i < k ==> s[i] != '/',
        k < s.len() ==> s[k] == '/',
    ensures
        first_slash(s) == k,
{
    lemma_first_slash(s);
    let f = first_slash(s) as int;
    if f < k {
        assert(s[f] != '/');
    } else if k < f {
        assert(s[k] != '/');
    }
}

/// The segments of `a`, a `/` and `b` are those of `a` followed by those of `b`.
pub proof fn lemma_segments_join(a: Seq<char>, b: Seq<char>)
    ensures
        segments(a.push('/') + b) == segments(a) + segments(b),
    decreases a.len(),
{
    let s = a.push('/') + b;
    lemma_first_slash(a);
    let k = first_slash(a) as int;
    if k >= a.len() {
        assert(s[a.len() as int] == '/');
        assert forall|i: int| 0 <= i < a.len() implies s[i] != '/' by {
            assert(s[i] == a[i]);
        }
        lemma_first_slash_is(s, a.len() as int);
        assert(s.take(a.len() as int) == a);
        assert(s.skip(a.len() as int + 1) == b);
        assert(segments(s) == seq![a] + segments(b));
    } else {
        assert(s[k] == a[k]);
        assert forall|i: int| 0 <= i < k implies s[i] != '/' by {
            assert(s[i] == a[i]);
        }
        lemma_first_slash_is(s, k);
        let a2 = a.skip(k + 1);
        assert(s.take(k) == a.take(k));
        assert(s.skip(k + 1) == a2.push('/') + b);
        lemma_segments_join(a2, b);
        assert(segments(s) == seq![a.take(k)] + (segments(a2) + segments(b)));
        assert(segments(a) == seq![a.take(k)] + segments(a2));
        assert(seq![a.take(k)] + (segments(a2) + segments(b)) == (seq![a.take(k)] + segments(a2))
            + segments(b));
    }
}

/// A string has at least one segment, and none of its segments holds a `/`.
pub proof fn lemma_segments_shape(s: Seq<char>)
    ensures
        segments(s).len() >= 1,
        forall|i: int| 0 <= i < segments(s).len() ==> !has_slash(#[trigger] segments(s)[i]),
    decreases s.len(),
{
    lemma_first_slash(s);
    let k = first_slash(s) as int;
    if k >= s.len() {
    } else {
        let head = s.take(k);
        let rest = s.skip(k + 1);
        lemma_segments_shape(rest);
        lemma_first_slash_is(head, k);
        assert forall|i: int| 0 <= i < segments(s).len() implies !has_slash(
            #[trigger] segments(s)[i],
        ) by {
            if i > 0 {
                assert(segments(s)[i] == segments(rest)[i - 1]);
            }
        }
    }
}

/// The last segment begins after the last `/`, or at the start where there
/// is none.
pub proof fn lemma_leaf_at(s: Seq<char>, k: int)
    requires
        0 <= k <= s.len(),
        forall|i: int| k <= i < s.len() ==> s[i] != '/',
        k > 0 ==> s[k - 1] == '/',
    ensures
        leaf(s) == s.skip(k),
    decreases s.len(),
{
    lemma_first_slash(s);
    let f = first_slash(s) as int;
    if f >= s.len() {
        if k > 0 {
            assert(s[k - 1] != '/');
        }
        assert(s.skip(0) == s);
    } else {
        if f >= k {
            assert(s[f] != '/');
        }
        let rest = s.skip(f + 1);
        lemma_segments_shape(rest);
        assert forall|i: int| k - f - 1 <= i < rest.len() implies rest[i] != '/' by {
            assert(rest[i] == s[i + f + 1]);
        }
        if k - f - 1 > 0 {
            assert(rest[k - f - 2] == s[k - 1]);
        }
        lemma_leaf_at(rest, k - f - 1);
        assert(rest.skip(k - f - 1) == s.skip(k));
        assert(segments(s).last() == segments(rest).last());
    }
}

/// The characters of `s`, in order, for access by position.
pub fn chars_of(s: &str) -> (v: Vec<char>)
    ensures
        v@ == s@,
{
    let mut v: Vec<char> = Vec::new();
    for c in it: s.chars()
        invariant
            v@ == it.seq().take(it.index() as int),
    {
        v.push(c);
    }
    v
}

/// The characters of `s` from position `from` up to, not including, `to`.
pub fn piece(s: &str, from: usize, to: usize) -> (r: String)
    requires
        from <= to <= s@.len(),
    ensures
        r@ == s@.subrange(from as int, to as int),
{
    String::from_str(s.substring_char(from, to))
}

/// Whether two character sequences are the same.
pub fn same_chars(a: &Vec<char>, b: &Vec<char>) -> (same: bool)
    ensures
        same == (a@ == b@),
{
    if a.len() != b.len() {
        return false;
    }
    let mut i: usize = 0;
    while i < a.len()
        invariant
            a.len() == b.len(),
            i <= a.len(),
            forall|j: int| 0 <= j < i ==> a@[j] == b@[j],
        decreases a.len() - i,
    {
        if a[i] != b[i] {
            return false;
        }
        i = i + 1;
    }
    assert(a@ =~= b@);
    true
}

/// The position of the first `/` of `s` at or after `from`, or the length of
/// `s` where none follows.
pub fn find_slash(s: &Vec<char>, from: usize) -> (k: usize)
    requires
        from <= s.len(),
    ensures
        from <= k <= s.len(),
        k == from + first_slash(s@.skip(from as int)),
{
    let mut k: usize = from;
    while k < s.len() && s[k] != '/'
        invariant
            from <= k <= s.len(),
            forall|i: int| from <= i < k ==> s@[i] != '/',
        decreases s.len() - k,
    {
        k = k + 1;
    }
    proof {
        lemma_first_slash_is(s@.skip(from as int), k - from);
    }
    k
}

/// Whether `p` begins with the directory prefix of `q`.
pub fn has_dir_prefix(p: &Vec<char>, q: &Vec<char>) -> (b: bool)
    ensures
        b == dir_prefix(q@).is_prefix_of(p@),
{
    if q.len() == 0 {
        assert(dir_prefix(q@) =~= Seq::<char>::empty());
        true
    } else {
        starts_with_dir(p, q)
    }
}

/// Whether `p` begins with `q` and a `/`.
pub fn starts_with_dir(p: &Vec<char>, q: &Vec<char>) -> (b: bool)
    ensures
        b == q@.push('/').is_prefix_of(p@),
{
    let n = q.len();
    if p.len() <= n {
        return false;
    }
    let mut i: usize = 0;
    while i < n
        invariant
            n == q.len(),
            n < p.len(),
            i <= n,
            forall|j: int| 0 <= j < i ==> p@[j] == q@[j],
        decreases n - i,
    {
        if p[i] != q[i] {
            assert(q@.push('/')[i as int] == q@[i as int]);
            return false;
        }
        i = i + 1;
    }
    if p[n] != '/' {
        assert(q@.push('/')[n as int] == '/');
        return false;
    }
    assert(q@.push('/') =~= p@.subrange(0, n + 1));
    true
}

/// Takes one trailing `/` off `path`, if it has one.
pub fn strip_trailing_slash(path: &str) -> (r: &str)
    ensures
        r@ == normalized(path@),
{
    let v = chars_of(path);
    let n = v.len();
    if n > 0 && v[n - 1] == '/' {
        let r = path.substring_char(0, n - 1);
        assert(r@ =~= path@.drop_last());
        r
    } else {
        path
    }
}

} // verus!
