use crate::model::{
    GitIndex, GitIndexDirectory, GitIndexDirectoryView, GitIndexEntry, GitIndexEntryView,
    GitIndexView,
};
use crate::oid::GitOid;
use crate::path::{
    below, chars_of, child_name, child_path, dir_prefix, find_slash, has_dir_prefix, has_slash,
    leaf, normalized, piece, same_chars, strip_trailing_slash,
};
use crate::text::MaybeLossyUtf8;
use vstd::prelude::*;

verus! {

/// One entry of the staged index as the listing reads it: the full path,
/// relative to the repository, and what the index records of the file.
#[derive(Debug)]
pub struct IndexRecord {
    pub path: MaybeLossyUtf8,
    pub id: GitOid,
    pub file_size: u32,
    pub mode: u32,
    pub uid: u32,
    pub gid: u32,
    pub ctime: i32,
    pub mtime: i32,
}

/// An entry of the index with its path as characters and its id as bytes.
pub struct IndexRecordView {
    pub path: Seq<char>,
    pub id: Seq<u8>,
    pub file_size: u32,
    pub mode: u32,
    pub uid: u32,
    pub gid: u32,
    pub ctime: i32,
    pub mtime: i32,
}

impl View for IndexRecord {
    type V = IndexRecordView;

    open spec fn view(&self) -> IndexRecordView {
        IndexRecordView {
            path: self.path@,
            id: self.id@,
            file_size: self.file_size,
            mode: self.mode,
            uid: self.uid,
            gid: self.gid,
            ctime: self.ctime,
            mtime: self.mtime,
        }
    }
}

impl DeepView for IndexRecord {
    type V = IndexRecordView;

    open spec fn deep_view(&self) -> IndexRecordView {
        self@
    }
}

/// Where an entry stands with respect to the directory asked for.
pub enum Placement {
    /// Not at the path asked for and not below it.
    Outside,
    /// At the path asked for, or a file directly below it.
    File,
    /// Deeper: inside a directory that lies directly below the path.
    Directory,
}

/// Where the entry with full path `p` stands with respect to `q`.
pub open spec fn placement(p: Seq<char>, q: Seq<char>) -> Placement {
    if p == q {
        Placement::File
    } else if dir_prefix(q).is_prefix_of(p) {
        if has_slash(below(p, q)) {
            Placement::Directory
        } else {
            Placement::File
        }
    } else {
        Placement::Outside
    }
}

/// Whether entry `i` lies in a directory below `q` that no earlier entry
/// lies in.
pub open spec fn opens_directory(records: Seq<IndexRecordView>, q: Seq<char>, i: int) -> bool {
    &&& placement(records[i].path, q) is Directory
    &&& forall|j: int|
        0 <= j < i && placement((#[trigger] records[j]).path, q) is Directory ==> child_path(
            records[j].path,
            q,
        ) != child_path(records[i].path, q)
}

/// The line for a file entry. Its abbreviated id is left empty: only the
/// object store can abbreviate an id.
pub open spec fn file_line(r: IndexRecordView) -> GitIndexView {
    GitIndexView::Entry(
        GitIndexEntryView {
            ctime: r.ctime,
            file_size: r.file_size,
            gid: r.gid,
            id: r.id,
            mode: r.mode,
            mtime: r.mtime,
            name: leaf(r.path),
            path: r.path,
            short_id: Seq::empty(),
            uid: r.uid,
        },
    )
}

/// The line for the directory below `q` in which the entry with path `p` lies.
pub open spec fn directory_line(p: Seq<char>, q: Seq<char>) -> GitIndexView {
    GitIndexView::Directory(
        GitIndexDirectoryView { name: child_name(p, q), path: child_path(p, q) },
    )
}

/// The listing of the directory `q` of an index: in the order of the index,
/// a line for each entry at `q` or directly below it, and a line for each
/// directory directly below `q`, where the first entry inside it stands.
pub open spec fn index_listing(records: Seq<IndexRecordView>, q: Seq<char>) -> Seq<GitIndexView>
    decreases records.len(),
{
    if records.len() == 0 {
        Seq::empty()
    } else {
        let earlier = index_listing(records.drop_last(), q);
        let r = records.last();
        match placement(r.path, q) {
            Placement::Outside => earlier,
            Placement::File => earlier.push(file_line(r)),
            Placement::Directory => if opens_directory(records, q, records.len() - 1) {
                earlier.push(directory_line(r.path, q))
            } else {
                earlier
            },
        }
    }
}

/// The paths of the directories that the entries before `n` have opened.
pub open spec fn opened(records: Seq<IndexRecordView>, q: Seq<char>, n: int) -> Set<Seq<char>> {
    Set::new(
        |d: Seq<char>|
            exists|j: int|
                0 <= j < n && placement((#[trigger] records[j]).path, q) is Directory
                    && child_path(records[j].path, q) == d,
    )
}

/// Whether `d` is one of `seen`.
pub open spec fn among(seen: Seq<Vec<char>>, d: Seq<char>) -> bool {
    exists|k: int| 0 <= k < seen.len() && (#[trigger] seen[k])@ == d
}

/// One more path is among those seen, besides those that were.
proof fn lemma_among_push(seen: Seq<Vec<char>>, x: Vec<char>, d: Seq<char>)
    ensures
        among(seen.push(x), d) <==> among(seen, d) || x@ == d,
{
    let more = seen.push(x);
    if among(more, d) {
        let k = choose|k: int| 0 <= k < more.len() && (#[trigger] more[k])@ == d;
        if k < seen.len() {
            assert(seen[k]@ == d);
        }
    }
    if among(seen, d) {
        let k = choose|k: int| 0 <= k < seen.len() && (#[trigger] seen[k])@ == d;
        assert(more[k]@ == d);
    }
    if x@ == d {
        assert(more[seen.len() as int]@ == d);
    }
}

/// The first `n` characters of `s`.
fn prefix_chars(s: &Vec<char>, n: usize) -> (r: Vec<char>)
    requires
        n <= s.len(),
    ensures
        r@ == s@.take(n as int),
{
    let mut r: Vec<char> = Vec::new();
    let mut i: usize = 0;
    while i < n
        invariant
            i <= n <= s.len(),
            r@ == s@.take(i as int),
        decreases n - i,
    {
        r.push(s[i]);
        i = i + 1;
        assert(r@ =~= s@.take(i as int));
    }
    r
}

/// Whether `a` is the first `n` characters of `s`.
fn is_prefix_chars(a: &Vec<char>, s: &Vec<char>, n: usize) -> (b: bool)
    requires
        n <= s.len(),
    ensures
        b == (a@ == s@.take(n as int)),
{
    if a.len() != n {
        return false;
    }
    let mut i: usize = 0;
    while i < n
        invariant
            i <= n <= s.len(),
            a.len() == n,
            forall|j: int| 0 <= j < i ==> a@[j] == s@[j],
        decreases n - i,
    {
        if a[i] != s[i] {
            assert(s@.take(n as int)[i as int] == s@[i as int]);
            return false;
        }
        i = i + 1;
    }
    assert(a@ =~= s@.take(n as int));
    true
}

/// Whether one of `seen` is the first `n` characters of `s`. The latest is
/// tried first: in an index sorted by path it is the likely one.
fn seen_prefix(seen: &Vec<Vec<char>>, s: &Vec<char>, n: usize) -> (b: bool)
    requires
        n <= s.len(),
    ensures
        b == among(seen@, s@.take(n as int)),
{
    let mut k: usize = seen.len();
    while k > 0
        invariant
            k <= seen.len(),
            n <= s.len(),
            forall|j: int| k <= j < seen.len() ==> (#[trigger] seen[j])@ != s@.take(n as int),
        decreases k,
    {
        k = k - 1;
        if is_prefix_chars(&seen[k], s, n) {
            return true;
        }
    }
    false
}

/// Where the last segment of `s` begins.
fn leaf_start(s: &Vec<char>) -> (k: usize)
    ensures
        k <= s.len(),
        s@.skip(k as int) == leaf(s@),
{
    let mut k: usize = s.len();
    while k > 0 && s[k - 1] != '/'
        invariant
            k <= s.len(),
            forall|i: int| k <= i < s.len() ==> s@[i] != '/',
        decreases k,
    {
        k = k - 1;
    }
    proof {
        crate::path::lemma_leaf_at(s@, k as int);
    }
    k
}

/// The line for a file entry, with an empty abbreviated id.
fn file_entry(record: &IndexRecord, chars: &Vec<char>) -> (line: GitIndex)
    requires
        chars@ == record.path@,
    ensures
        line@ == file_line(record@),
{
    let start = leaf_start(chars);
    let name = piece(record.path.as_str(), start, chars.len());
    assert(record.path@.subrange(start as int, chars.len() as int) =~= record.path@.skip(
        start as int,
    ));
    GitIndex::Entry(
        GitIndexEntry {
            ctime: record.ctime,
            file_size: record.file_size,
            gid: record.gid,
            id: record.id,
            mode: record.mode,
            mtime: record.mtime,
            name: MaybeLossyUtf8(name),
            path: record.path.duplicate(),
            short_id: String::new(),
            uid: record.uid,
        },
    )
}

/// Lists the directory `path` of an index given by its entries. One trailing
/// `/` of `path` is ignored, and the empty path is the top level. A path at
/// which nothing lies gives an empty listing.
pub fn list_index_records(records: &Vec<IndexRecord>, path: &str) -> (listing: Vec<GitIndex>)
    ensures
        listing.deep_view() == index_listing(records.deep_view(), normalized(path@)),
{
    let query = strip_trailing_slash(path);
    let q = chars_of(query);
    let ghost rv = records.deep_view();
    let mut listing: Vec<GitIndex> = Vec::new();
    let mut seen: Vec<Vec<char>> = Vec::new();
    let mut i: usize = 0;
    assert(listing.deep_view() =~= index_listing(rv.take(0), q@));
    while i < records.len()
        invariant
            i <= records.len(),
            rv == records.deep_view(),
            q@ == normalized(path@),
            listing.deep_view() == index_listing(rv.take(i as int), q@),
            forall|d: Seq<char>| #[trigger] opened(rv, q@, i as int).contains(d) <==> among(seen@, d),
        decreases records.len() - i,
    {
        let record = &records[i];
        let p = chars_of(record.path.as_str());
        let ghost before = rv.take(i as int);
        let ghost upto = rv.take(i as int + 1);
        let ghost seen_before = seen@;
        proof {
            assert(rv[i as int] == record@);
            assert(upto.drop_last() =~= before);
            assert(upto.last() == record@);
        }
        if same_chars(&p, &q) {
            listing.push(file_entry(record, &p));
            assert(listing.deep_view() =~= index_listing(before, q@).push(file_line(record@)));
        } else if has_dir_prefix(&p, &q) {
            let start: usize = if q.len() == 0 {
                0
            } else {
                q.len() + 1
            };
            assert(start == dir_prefix(q@).len());
            let k = find_slash(&p, start);
            if k == p.len() {
                listing.push(file_entry(record, &p));
                assert(listing.deep_view() =~= index_listing(before, q@).push(file_line(record@)));
            } else {
                assert(placement(record@.path, q@) is Directory);
                assert(p@.take(k as int) == child_path(record@.path, q@));
                let known = seen_prefix(&seen, &p, k);
                proof {
                    if known {
                        let d = p@.take(k as int);
                        assert(opened(rv, q@, i as int).contains(d));
                        let j = choose|j: int|
                            0 <= j < i && placement((#[trigger] rv[j]).path, q@) is Directory
                                && child_path(rv[j].path, q@) == d;
                        assert(upto[j] == rv[j]);
                        assert(!opens_directory(upto, q@, i as int));
                    } else {
                        let d = p@.take(k as int);
                        assert(!opened(rv, q@, i as int).contains(d));
                        assert forall|j: int|
                            0 <= j < i && placement(
                                (#[trigger] upto[j]).path,
                                q@,
                            ) is Directory implies child_path(upto[j].path, q@) != child_path(
                            upto[i as int].path,
                            q@,
                        ) by {
                            assert(upto[j] == rv[j]);
                            if child_path(rv[j].path, q@) == d {
                                assert(opened(rv, q@, i as int).contains(d));
                            }
                        }
                        assert(opens_directory(upto, q@, i as int));
                    }
                }
                if !known {
                    let name = piece(record.path.as_str(), start, k);
                    let dir = piece(record.path.as_str(), 0, k);
                    assert(name@ =~= child_name(record@.path, q@));
                    assert(dir@ =~= child_path(record@.path, q@));
                    listing.push(
                        GitIndex::Directory(
                            GitIndexDirectory {
                                name: MaybeLossyUtf8(name),
                                path: MaybeLossyUtf8(dir),
                            },
                        ),
                    );
                    seen.push(prefix_chars(&p, k));
                    assert(seen@ == seen_before.push(seen@.last()));
                    assert(seen@.last()@ == child_path(record@.path, q@));
                    assert(listing.deep_view() =~= index_listing(before, q@).push(
                        directory_line(record@.path, q@),
                    ));
                }
            }
        }
        proof {
            assert(listing.deep_view() == index_listing(upto, q@));
            let next = i as int + 1;
            assert forall|d: Seq<char>| #[trigger]
                opened(rv, q@, next).contains(d) <==> among(seen@, d) by {
                lemma_opened_step(rv, q@, i as int, d);
                assert(opened(rv, q@, i as int).contains(d) <==> among(seen_before, d));
                if seen@ != seen_before {
                    lemma_among_push(seen_before, seen@.last(), d);
                    assert(seen@ == seen_before.push(seen@.last()));
                }
            }
        }
        i = i + 1;
    }
    assert(rv.take(i as int) =~= rv);
    listing
}

/// What one more entry adds to the directories opened so far: its own, where
/// it lies in one.
proof fn lemma_opened_step(records: Seq<IndexRecordView>, q: Seq<char>, n: int, d: Seq<char>)
    requires
        0 <= n < records.len(),
    ensures
        opened(records, q, n + 1).contains(d) <==> opened(records, q, n).contains(d) || (placement(
            records[n].path,
            q,
        ) is Directory && child_path(records[n].path, q) == d),
{
    if opened(records, q, n + 1).contains(d) {
        let j = choose|j: int|
            0 <= j < n + 1 && placement((#[trigger] records[j]).path, q) is Directory
                && child_path(records[j].path, q) == d;
        if j < n {
            assert(opened(records, q, n).contains(d));
        }
    }
    if opened(records, q, n).contains(d) {
        let j = choose|j: int|
            0 <= j < n && placement((#[trigger] records[j]).path, q) is Directory && child_path(
                records[j].path,
                q,
            ) == d;
        assert(0 <= j < n + 1);
    }
    if placement(records[n].path, q) is Directory && child_path(records[n].path, q) == d {
        assert(placement((#[trigger] records[n]).path, q) is Directory);
    }
}

} // verus!
