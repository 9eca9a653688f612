use crate::index_laws::query_segments;
use crate::model::{GitIndex, GitTree};
use crate::oid::GitOid;
use crate::path::{chars_of, find_slash, lemma_first_slash, piece, same_chars, segments};
use vstd::prelude::*;

verus! {

/// The segments of a path for display, one for each step from the top: none
/// for the empty path.
pub fn path_segments(path: &str) -> (parts: Vec<String>)
    ensures
        parts.deep_view() == query_segments(path@),
{
    let s = chars_of(path);
    let mut parts: Vec<String> = Vec::new();
    if s.len() == 0 {
        assert(parts.deep_view() =~= Seq::<Seq<char>>::empty());
        return parts;
    }
    let mut start: usize = 0;
    assert(s@.skip(0) =~= s@);
    assert(parts.deep_view() + segments(s@.skip(0)) =~= segments(s@));
    loop
        invariant_except_break
            parts.deep_view() + segments(s@.skip(start as int)) == segments(s@),
        invariant
            s@ == path@,
            start <= s.len(),
        ensures
            parts.deep_view() == segments(s@),
        decreases s.len() - start,
    {
        let k = find_slash(&s, start);
        let part = piece(path, start, k);
        let ghost rest = s@.skip(start as int);
        let ghost before = parts.deep_view();
        proof {
            lemma_first_slash(rest);
            assert(part@ =~= rest.take(k - start));
        }
        parts.push(part);
        assert(parts.deep_view() =~= before.push(part@));
        if k == s.len() {
            assert(before.push(part@) =~= before + seq![rest]);
            break;
        }
        proof {
            assert(rest.skip(k - start + 1) =~= s@.skip(k + 1));
            assert(before.push(part@) + segments(s@.skip(k + 1)) =~= before + (seq![part@]
                + segments(s@.skip(k + 1))));
        }
        start = k + 1;
    }
    parts
}

/// Whether a listing of the index is one file at exactly `path`.
pub open spec fn is_sole_index_file(listing: Seq<GitIndex>, path: Seq<char>) -> bool {
    listing.len() == 1 && listing[0] is Entry && listing[0]@.full_path() == path
}

/// The id of the file that a listing of the index consists of, where the
/// listing is one file at exactly `path`: then the file itself is what was
/// asked for, not a directory.
pub fn sole_index_file(listing: &Vec<GitIndex>, path: &str) -> (id: Option<GitOid>)
    ensures
        id is Some <==> is_sole_index_file(listing@, path@),
        id matches Some(found) ==> listing[0] matches GitIndex::Entry(e) && found == e.id,
{
    if listing.len() != 1 {
        return None;
    }
    match &listing[0] {
        GitIndex::Entry(e) => {
            if same_chars(&chars_of(e.path.as_str()), &chars_of(path)) {
                Some(e.id)
            } else {
                None
            }
        },
        GitIndex::Directory(_) => None,
    }
}

/// Whether a listing of a tree is one entry at exactly `path`.
pub open spec fn is_sole_tree_entry(listing: Seq<GitTree>, path: Seq<char>) -> bool {
    listing.len() == 1 && listing[0]@.full_path() == path
}

/// The id of the entry that a listing of a tree consists of, where the
/// listing is one entry at exactly `path`.
pub fn sole_tree_entry(listing: &Vec<GitTree>, path: &str) -> (id: Option<GitOid>)
    ensures
        id is Some <==> is_sole_tree_entry(listing@, path@),
        id matches Some(found) ==> found == listing[0].id,
{
    if listing.len() != 1 {
        return None;
    }
    let line = &listing[0];
    let mut full = chars_of(line.root.as_str());
    let mut name = chars_of(line.name.as_str());
    full.append(&mut name);
    if same_chars(&full, &chars_of(path)) {
        Some(line.id)
    } else {
        None
    }
}

} // verus!
