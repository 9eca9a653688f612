use crate::index::{
    directory_line, file_line, index_listing, opens_directory, placement, IndexRecordView,
};
use crate::model::GitIndexView;
use crate::path::{
    below, child_name, child_path, depth, dir_prefix, first_slash, has_slash, lemma_first_slash,
    lemma_first_slash_is, lemma_segments_join, lemma_segments_shape, segments,
};
use vstd::prelude::*;

verus! {

/// Whether entry `j` puts a line into the listing of `q`.
pub open spec fn emits(records: Seq<IndexRecordView>, q: Seq<char>, j: int) -> bool {
    placement(records[j].path, q) is File || opens_directory(records, q, j)
}

/// The line that entry `j` puts into the listing of `q`, where it puts one.
pub open spec fn line_of(records: Seq<IndexRecordView>, q: Seq<char>, j: int) -> GitIndexView {
    if placement(records[j].path, q) is File {
        file_line(records[j])
    } else {
        directory_line(records[j].path, q)
    }
}

/// How many lines the entries before `j` put into the listing of `q`.
pub open spec fn lines_before(records: Seq<IndexRecordView>, q: Seq<char>, j: int) -> nat {
    index_listing(records.take(j), q).len()
}

/// The segments that a query path addresses: none for the empty path.
pub open spec fn query_segments(q: Seq<char>) -> Seq<Seq<char>> {
    if q.len() == 0 {
        Seq::empty()
    } else {
        segments(q)
    }
}

/// Whether `f` names something directly in the directory `q`: the segments
/// of `q` and exactly one more.
pub open spec fn is_immediate_child(f: Seq<char>, q: Seq<char>) -> bool {
    &&& segments(f).len() == depth(q) + 1
    &&& segments(f).take(depth(q) as int) == query_segments(q)
}

/// No two entries of the index have the same path.
pub open spec fn distinct_paths(records: Seq<IndexRecordView>) -> bool {
    forall|i: int, j: int|
        0 <= i < j < records.len() ==> (#[trigger] records[i]).path != (#[trigger] records[j]).path
}

/// No entry of the index stands where the listing of `q` shows a directory.
pub open spec fn no_file_at_directory(records: Seq<IndexRecordView>, q: Seq<char>) -> bool {
    forall|i: int, j: int|
        0 <= i < records.len() && 0 <= j < records.len() && placement(
            (#[trigger] records[j]).path,
            q,
        ) is Directory ==> (#[trigger] records[i]).path != child_path(records[j].path, q)
}

/// Whether an entry opens a directory depends on the entries up to it alone.
proof fn lemma_opens_in_prefix(records: Seq<IndexRecordView>, q: Seq<char>, n: int, j: int)
    requires
        0 <= j < n <= records.len(),
    ensures
        opens_directory(records.take(n), q, j) == opens_directory(records, q, j),
{
    let head = records.take(n);
    assert(head[j] == records[j]);
    if opens_directory(records, q, j) {
        assert forall|i: int|
            0 <= i < j && placement((#[trigger] head[i]).path, q) is Directory implies child_path(
            head[i].path,
            q,
        ) != child_path(head[j].path, q) by {
            assert(head[i] == records[i]);
        }
    }
    if opens_directory(head, q, j) {
        assert forall|i: int|
            0 <= i < j && placement(
                (#[trigger] records[i]).path,
                q,
            ) is Directory implies child_path(records[i].path, q) != child_path(
            records[j].path,
            q,
        ) by {
            assert(head[i] == records[i]);
        }
    }
}

/// One more entry adds its line to the listing, or nothing.
pub proof fn lemma_listing_step(records: Seq<IndexRecordView>, q: Seq<char>, n: int)
    requires
        0 <= n < records.len(),
    ensures
        index_listing(records.take(n + 1), q) == if emits(records, q, n) {
            index_listing(records.take(n), q).push(line_of(records, q, n))
        } else {
            index_listing(records.take(n), q)
        },
{
    let upto = records.take(n + 1);
    assert(upto.drop_last() =~= records.take(n));
    assert(upto.last() == records[n]);
    lemma_opens_in_prefix(records, q, n + 1, n);
}

/// Later entries stand behind more lines, and behind the line of every
/// earlier entry that has one.
pub proof fn lemma_lines_before_grow(records: Seq<IndexRecordView>, q: Seq<char>, a: int, b: int)
    requires
        0 <= a <= b <= records.len(),
    ensures
        lines_before(records, q, a) <= lines_before(records, q, b),
        a < b && emits(records, q, a) ==> lines_before(records, q, a) < lines_before(
            records,
            q,
            b,
        ),
    decreases b - a,
{
    if a < b {
        lemma_lines_before_grow(records, q, a, b - 1);
        lemma_listing_step(records, q, b - 1);
    }
}

/// Every line that the first `n` entries give is the line of one of them:
/// the entry that stands behind exactly that many lines.
proof fn lemma_line_origin_within(
    records: Seq<IndexRecordView>,
    q: Seq<char>,
    k: int,
    n: int,
) -> (j: int)
    requires
        0 <= n <= records.len(),
        0 <= k < lines_before(records, q, n),
    ensures
        0 <= j < n,
        emits(records, q, j),
        lines_before(records, q, j) == k,
        index_listing(records.take(n), q)[k] == line_of(records, q, j),
    decreases n,
{
    if n == 0 {
        assert(records.take(0) =~= Seq::<IndexRecordView>::empty());
        0
    } else {
        lemma_listing_step(records, q, n - 1);
        if k < lines_before(records, q, n - 1) {
            lemma_line_origin_within(records, q, k, n - 1)
        } else {
            n - 1
        }
    }
}

/// Every line of a listing is the line of one entry: the entry that stands
/// behind exactly that many lines.
pub proof fn lemma_line_origin(records: Seq<IndexRecordView>, q: Seq<char>, k: int) -> (j: int)
    requires
        0 <= k < index_listing(records, q).len(),
    ensures
        0 <= j < records.len(),
        emits(records, q, j),
        lines_before(records, q, j) == k,
        index_listing(records, q)[k] == line_of(records, q, j),
{
    assert(records.take(records.len() as int) =~= records);
    lemma_line_origin_within(records, q, k, records.len() as int)
}

/// Nothing is lost: every entry that puts a line into the listing has that
/// line there, behind the lines of the entries before it.
pub proof fn lemma_line_listed(records: Seq<IndexRecordView>, q: Seq<char>, j: int)
    requires
        0 <= j < records.len(),
        emits(records, q, j),
    ensures
        lines_before(records, q, j) < index_listing(records, q).len(),
        index_listing(records, q)[lines_before(records, q, j) as int] == line_of(records, q, j),
{
    assert(records.take(records.len() as int) =~= records);
    lemma_lines_before_grow(records, q, j, records.len() as int);
    let k = lines_before(records, q, j) as int;
    let o = lemma_line_origin(records, q, k);
    if o < j {
        lemma_lines_before_grow(records, q, o, j);
    } else if j < o {
        lemma_lines_before_grow(records, q, j, o);
    }
}

/// The first entry that lies in the same directory below `q` as entry `j`.
proof fn lemma_first_opener(records: Seq<IndexRecordView>, q: Seq<char>, j: int) -> (i: int)
    requires
        0 <= j < records.len(),
        placement(records[j].path, q) is Directory,
    ensures
        0 <= i <= j,
        opens_directory(records, q, i),
        child_path(records[i].path, q) == child_path(records[j].path, q),
    decreases j,
{
    if opens_directory(records, q, j) {
        j
    } else {
        let earlier = choose|e: int|
            0 <= e < j && placement((#[trigger] records[e]).path, q) is Directory && child_path(
                records[e].path,
                q,
            ) == child_path(records[j].path, q);
        lemma_first_opener(records, q, earlier)
    }
}

/// Every directory is shown: for every entry that lies deeper than the
/// level of `q`, the listing has a line for the directory below `q` in which
/// it lies.
pub proof fn lemma_directory_listed(records: Seq<IndexRecordView>, q: Seq<char>, j: int) -> (k:
    int)
    requires
        0 <= j < records.len(),
        placement(records[j].path, q) is Directory,
    ensures
        0 <= k < index_listing(records, q).len(),
        index_listing(records, q)[k] == directory_line(records[j].path, q),
{
    let i = lemma_first_opener(records, q, j);
    lemma_line_listed(records, q, i);
    let p = records[j].path;
    let o = records[i].path;
    assert(child_name(p, q) =~= child_path(p, q).skip(dir_prefix(q).len() as int)) by {
        lemma_first_slash(below(p, q));
    }
    assert(child_name(o, q) =~= child_path(o, q).skip(dir_prefix(q).len() as int)) by {
        lemma_first_slash(below(o, q));
    }
    lines_before(records, q, i) as int
}

/// The lines of a listing carry no abbreviated ids.
pub proof fn lemma_listing_unabbreviated(records: Seq<IndexRecordView>, q: Seq<char>)
    ensures
        forall|k: int|
            0 <= k < index_listing(records, q).len() ==> (#[trigger] index_listing(
                records,
                q,
            )[k]).unabbreviated() == index_listing(records, q)[k],
{
    assert forall|k: int| 0 <= k < index_listing(records, q).len() implies (#[trigger] index_listing(
        records,
        q,
    )[k]).unabbreviated() == index_listing(records, q)[k] by {
        let j = lemma_line_origin(records, q, k);
    }
}

/// A name without `/`, put below `q`, is an immediate child of `q`.
pub proof fn lemma_child_segments(q: Seq<char>, name: Seq<char>)
    requires
        !has_slash(name),
    ensures
        segments(dir_prefix(q) + name) == query_segments(q) + seq![name],
        is_immediate_child(dir_prefix(q) + name, q),
{
    let f = dir_prefix(q) + name;
    if q.len() == 0 {
        assert(f =~= name);
        assert(segments(name) == seq![name]);
        assert(query_segments(q) + seq![name] =~= seq![name]);
    } else {
        assert(f =~= q.push('/') + name);
        lemma_segments_join(q, name);
        assert(segments(name) == seq![name]);
    }
    assert(segments(f).take(depth(q) as int) =~= query_segments(q));
}

/// Placement told by segments: an entry below `q` has the segments of `q`
/// and at least one more. It is a file where it has exactly one more, and
/// else it lies in the directory that its next segment names.
pub proof fn lemma_placement_by_segments(p: Seq<char>, q: Seq<char>)
    requires
        p != q,
        dir_prefix(q).is_prefix_of(p),
    ensures
        segments(p) == query_segments(q) + segments(below(p, q)),
        segments(p).len() >= depth(q) + 1,
        placement(p, q) is File <==> segments(p).len() == depth(q) + 1,
        placement(p, q) is Directory <==> segments(p).len() > depth(q) + 1,
        child_name(p, q) == segments(p)[depth(q) as int],
        child_path(p, q) == dir_prefix(q) + child_name(p, q),
{
    let rest = below(p, q);
    assert(p =~= dir_prefix(q) + rest);
    if q.len() == 0 {
        assert(p =~= rest);
        assert(query_segments(q) + segments(rest) =~= segments(rest));
    } else {
        assert(p =~= q.push('/') + rest);
        lemma_segments_join(q, rest);
    }
    lemma_first_slash(rest);
    let f = first_slash(rest) as int;
    if f < rest.len() {
        lemma_segments_shape(rest.skip(f + 1));
    } else {
        assert(rest.take(f) =~= rest);
    }
    assert(segments(rest)[0] == rest.take(f));
    assert(child_path(p, q) =~= dir_prefix(q) + child_name(p, q));
}

/// Every line of the listing of `q` other than an entry at `q` itself names
/// an immediate child of `q`: the listing never reaches deeper.
pub proof fn lemma_line_depth(records: Seq<IndexRecordView>, q: Seq<char>, k: int)
    requires
        0 <= k < index_listing(records, q).len(),
    ensures
        index_listing(records, q)[k].full_path() == q || is_immediate_child(
            index_listing(records, q)[k].full_path(),
            q,
        ),
        index_listing(records, q)[k] is Directory ==> is_immediate_child(
            index_listing(records, q)[k].full_path(),
            q,
        ),
{
    let j = lemma_line_origin(records, q, k);
    let p = records[j].path;
    let rest = below(p, q);
    if p != q {
        assert(dir_prefix(q).is_prefix_of(p));
        lemma_first_slash(rest);
        let f = first_slash(rest) as int;
        let name = rest.take(f);
        lemma_first_slash_is(name, f);
        lemma_child_segments(q, name);
        assert(child_path(p, q) =~= dir_prefix(q) + name);
        if placement(p, q) is File {
            assert(name =~= rest);
            assert(p =~= dir_prefix(q) + rest);
        }
    }
}

/// Depth correctness: where no entry of the index stands at `q` itself,
/// every line of the listing of `q` names an immediate child of `q`.
pub proof fn lemma_depth_correct(records: Seq<IndexRecordView>, q: Seq<char>)
    requires
        forall|j: int| 0 <= j < records.len() ==> (#[trigger] records[j]).path != q,
    ensures
        forall|k: int|
            0 <= k < index_listing(records, q).len() ==> is_immediate_child(
                (#[trigger] index_listing(records, q)[k]).full_path(),
                q,
            ),
{
    assert forall|k: int| 0 <= k < index_listing(records, q).len() implies is_immediate_child(
        (#[trigger] index_listing(records, q)[k]).full_path(),
        q,
    ) by {
        let j = lemma_line_origin(records, q, k);
        lemma_line_depth(records, q, k);
        assert(records[j].path != q);
    }
}

/// No duplicate directories: two directory lines of a listing never have the
/// same path, however many entries lie in a directory.
pub proof fn lemma_directories_distinct(
    records: Seq<IndexRecordView>,
    q: Seq<char>,
    k1: int,
    k2: int,
)
    requires
        0 <= k1 < k2 < index_listing(records, q).len(),
        index_listing(records, q)[k1] is Directory,
        index_listing(records, q)[k2] is Directory,
    ensures
        index_listing(records, q)[k1].full_path() != index_listing(records, q)[k2].full_path(),
{
    let j1 = lemma_line_origin(records, q, k1);
    let j2 = lemma_line_origin(records, q, k2);
    if j2 <= j1 {
        lemma_lines_before_grow(records, q, j2, j1);
    }
    assert(placement((#[trigger] records[j1]).path, q) is Directory);
}

/// No duplicates at all: in an index whose paths are distinct and in which
/// no entry stands where a directory shows, no two lines of a listing have
/// the same full path.
pub proof fn lemma_paths_distinct(records: Seq<IndexRecordView>, q: Seq<char>, k1: int, k2: int)
    requires
        distinct_paths(records),
        no_file_at_directory(records, q),
        0 <= k1 < k2 < index_listing(records, q).len(),
    ensures
        index_listing(records, q)[k1].full_path() != index_listing(records, q)[k2].full_path(),
{
    let j1 = lemma_line_origin(records, q, k1);
    let j2 = lemma_line_origin(records, q, k2);
    if j2 <= j1 {
        lemma_lines_before_grow(records, q, j2, j1);
    }
    assert(j1 < j2);
    let earlier = records[j1].path;
    let later = records[j2].path;
    if placement(earlier, q) is File && placement(later, q) is File {
        assert((#[trigger] records[j1]).path != (#[trigger] records[j2]).path);
    } else if placement(earlier, q) is File {
        assert((#[trigger] records[j1]).path != child_path((#[trigger] records[j2]).path, q));
    } else if placement(later, q) is File {
        assert((#[trigger] records[j2]).path != child_path((#[trigger] records[j1]).path, q));
    } else {
        assert(placement((#[trigger] records[j1]).path, q) is Directory);
    }
}

} // verus!
