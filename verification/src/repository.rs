use crate::backend::{
    blob_as_object, blob_content, blob_is_binary, blob_size, branch_name,
    branch_reference, branch_upstream, commit_as_object, commit_author, commit_committer,
    commit_message, commit_time, commit_tree, each_tag, find_blob, find_commit,
    find_reference, find_remote, find_tree, id_to_oid, index_entries, index_time_seconds,
    object_ids, oid_to_id, open_repository, reference_commit, reference_kind,
    reference_name, reference_resolve, reference_shorthand, reference_target, remote_url,
    repository_branches, repository_head, repository_index, repository_references,
    repository_remotes, repository_revwalk, repository_statuses, revwalk_ids, revwalk_push_head,
    signature_email, signature_name, status_bits, status_entries, status_entry_path,
    status_entry_status, string_array_bytes, time_offset_minutes, time_seconds, tree_entries,
    tree_entry_filemode, tree_entry_id, tree_entry_kind, tree_entry_name, tree_entry_object,
    walk_tree, entries_of, entry_filemode, entry_kind, entry_name, entry_oid, object_oid, oid_bytes, tree_oid, email_of, index_entries_of, index_seconds,
    name_of, author_of, bits_of, blob_binary_of, blob_bytes_of, blob_oid, blob_size_of,
    branch_name_of, branch_reference_of, commit_oid, committer_of, message_bytes_of,
    offset_minutes_of, reference_kind_of, reference_name_of, reference_shorthand_of,
    reference_target_of, seconds_of, status_entries_of, status_of, status_path_of, strings_of,
    time_of, url_of,
};
use crate::datetime::{commit_moment, commit_moment_of};
use crate::error::{is_backend_failure, is_open_failure, GitError, GitResult};
use crate::index::{index_listing, list_index_records, IndexRecord, IndexRecordView};
use crate::index_laws::{
    is_immediate_child, lemma_child_segments, lemma_directories_distinct, lemma_line_depth,
    lemma_listing_unabbreviated,
};
use crate::model::{
    branch_kind, content_of, reference_kind_as, unabbreviated, GitBlob, GitBlobView, GitBranch,
    GitCommit, GitIndex, GitIndexEntry, GitObjectType, GitReference, GitRemote, GitSignature,
    GitStatus, GitTag, GitTree, GitTreeView, GitUpstream,
};
use crate::oid::{hex_text, is_abbreviation, lemma_empty_abbreviation, zero_bytes, GitOid};
use crate::path::{dir_prefix, has_slash, normalized, strip_trailing_slash};
use crate::text::{or_empty, text_of, text_or_empty, MaybeLossyUtf8};
use crate::tree::{
    found_items, found_view, gather_found, item_line, list_tree_items, rooted, tree_line, tree_listing,
    tree_step, TreeItem, TreeItemView, TreeRecord, TreeRecordView, TreeSearch, TreeStep,
};
use crate::tree_laws::{lemma_all_listed, lemma_found_listing, lines_of};
use vstd::std_specs::convert::FromSpec;
use vstd::prelude::*;
use vstd::string::StringExecFns;

verus! {

/// A repository that is open for browsing.
pub struct GitRepository {
    repo: git2::Repository,
}

impl vstd::std_specs::convert::FromSpecImpl<git2::Repository> for GitRepository {
    open spec fn obeys_from_spec() -> bool {
        false
    }

    open spec fn from_spec(repo: git2::Repository) -> Self {
        arbitrary()
    }
}

impl From<git2::Repository> for GitRepository {
    fn from(repo: git2::Repository) -> (r: Self) {
        GitRepository { repo }
    }
}

/// The id that an object has and its abbreviated id, which is empty where
/// the backend gives none. Either way the abbreviated id is the hex text of
/// the id cut short.
fn short_id_of(object: &git2::Object<'_>) -> (ids: (GitOid, String))
    ensures
        ids.0@ == object_oid(*object),
        ids.1@.is_prefix_of(hex_text(ids.0@)),
        is_abbreviation(ids.1@),
{
    let (id, short) = object_ids(object);
    let short = or_empty(short);
    assert(id@.len() == 20);
    (id, short)
}

/// The id that a reference points to, or the zero id where it points to
/// none.
pub open spec fn target_or_zero(reference: git2::Reference<'_>) -> Seq<u8> {
    match reference_target_of(reference) {
        Some(oid) => oid_bytes(oid),
        None => zero_bytes(),
    }
}

/// Whether `id` is the id that `reference` stands for: what it points to
/// itself, or what a direct reference points to that it leads to, or the
/// zero id where that points to nothing.
pub open spec fn leads_to(id: Seq<u8>, reference: git2::Reference<'_>) -> bool {
    id == target_or_zero(reference) || exists|direct: git2::Reference<'_>|
        id == #[trigger] target_or_zero(direct)
}

/// The id that the backend gives, if any, as the library holds ids.
fn given_id(target: Option<git2::Oid>) -> (id: Option<GitOid>)
    ensures
        match target {
            Some(oid) => id matches Some(given) && given@ == oid_bytes(oid),
            None => id is None,
        },
{
    match target {
        Some(oid) => Some(oid_to_id(oid)),
        None => None,
    }
}

/// The id that a reference stands for: the target of the direct reference
/// that it leads to, or its own target where it leads to none, or the zero
/// id where there is no target.
fn reference_id(reference: &git2::Reference<'_>) -> (id: GitOid)
    ensures
        leads_to(id@, *reference),
{
    match reference_resolve(reference) {
        Some(direct) => {
            let id = GitOid::or_zero(given_id(reference_target(&direct)));
            assert(id@ == target_or_zero(direct));
            id
        },
        None => GitOid::or_zero(given_id(reference_target(reference))),
    }
}

/// The abbreviated id of the commit that a reference leads to, or the empty
/// text where it leads to none: either way the hex text of some id cut
/// short.
fn reference_short_id(reference: &git2::Reference<'_>) -> (short: String)
    ensures
        is_abbreviation(short@),
{
    match reference_commit(reference) {
        Ok(commit) => short_id_of(commit_as_object(&commit)).1,
        Err(_) => {
            proof {
                lemma_empty_abbreviation();
            }
            String::new()
        },
    }
}

/// The signature as text: the texts that its e-mail address and its name
/// stand for.
fn signature_of(signature: &git2::Signature<'_>) -> (s: GitSignature)
    ensures
        s.email@ == text_of(email_of(*signature)),
        s.name@ == text_of(name_of(*signature)),
{
    let email = signature_email(signature);
    let name = signature_name(signature);
    GitSignature::from_bytes(email.as_slice(), name.as_slice())
}

/// Whether `line` is the followed branch `followed`: its full name, its short
/// name, which is empty where the backend gives none, the id that its
/// reference stands for, and an abbreviated id.
pub open spec fn is_upstream_line(line: GitUpstream, followed: git2::Branch<'_>) -> bool {
    &&& line.name@ == text_of(reference_name_of(branch_reference_of(followed)))
    &&& line.shorthand@ == text_or_empty(branch_name_of(followed))
    &&& leads_to(line.target@, branch_reference_of(followed))
    &&& is_abbreviation(line.target_short@)
}

/// Whether `line` is the branch `branch` of the kind `kind`: its kind, its
/// full name, its short name, which is empty where the backend gives none,
/// the id that its reference stands for, an abbreviated id, and, where it
/// tracks a branch, such a line for some branch.
pub open spec fn is_branch_line(
    line: GitBranch,
    branch: git2::Branch<'_>,
    kind: git2::BranchType,
) -> bool {
    &&& line.kind == branch_kind(kind)
    &&& line.name@ == text_of(reference_name_of(branch_reference_of(branch)))
    &&& line.shorthand@ == text_or_empty(branch_name_of(branch))
    &&& leads_to(line.target@, branch_reference_of(branch))
    &&& is_abbreviation(line.target_short@)
    &&& line.upstream matches Some(upper) ==> (exists|followed: git2::Branch<'_>| #[trigger]
        is_upstream_line(upper, followed))
}

/// Whether `lines` are the lines of `branches`, one for each, in their
/// order.
pub open spec fn are_branch_lines(
    lines: Seq<GitBranch>,
    branches: Seq<(git2::Branch<'_>, git2::BranchType)>,
) -> bool {
    &&& lines.len() == branches.len()
    &&& forall|i: int|
        0 <= i < lines.len() ==> is_branch_line(#[trigger] lines[i], branches[i].0, branches[i].1)
}

/// Whether `line` is the reference `reference`: its kind, its full name,
/// its short name, the id that it stands for, and an abbreviated id.
pub open spec fn is_reference_line(line: GitReference, reference: git2::Reference<'_>) -> bool {
    &&& line.kind == reference_kind_as(reference_kind_of(reference))
    &&& line.name@ == text_of(reference_name_of(reference))
    &&& line.shorthand@ == text_of(reference_shorthand_of(reference))
    &&& leads_to(line.target@, reference)
    &&& is_abbreviation(line.target_short@)
}

/// Whether `lines` are the lines of `references`, one for each, in their
/// order.
pub open spec fn are_reference_lines(
    lines: Seq<GitReference>,
    references: Seq<git2::Reference<'_>>,
) -> bool {
    &&& lines.len() == references.len()
    &&& forall|i: int|
        0 <= i < lines.len() ==> is_reference_line(#[trigger] lines[i], references[i])
}

/// Whether `line` is the commit `commit`: its id, the hex text of that id,
/// cut short, for its abbreviated id, the texts of its author, committer
/// and message, and the moment that its time stands for.
pub open spec fn is_commit_line(line: GitCommit, commit: git2::Commit<'_>) -> bool {
    &&& line.id@ == commit_oid(commit)
    &&& line.short_id@.is_prefix_of(hex_text(line.id@))
    &&& line.author.email@ == text_of(email_of(author_of(commit)))
    &&& line.author.name@ == text_of(name_of(author_of(commit)))
    &&& line.committer.email@ == text_of(email_of(committer_of(commit)))
    &&& line.committer.name@ == text_of(name_of(committer_of(commit)))
    &&& line.message@ == text_of(message_bytes_of(commit))
    &&& line.time == commit_moment_of(
        seconds_of(time_of(commit)),
        offset_minutes_of(time_of(commit)),
    )
}

/// Whether `lines` are the lines of `commits`, one for each, in their order.
pub open spec fn are_commit_lines(lines: Seq<GitCommit>, commits: Seq<git2::Commit<'_>>) -> bool {
    &&& lines.len() == commits.len()
    &&& forall|i: int| 0 <= i < lines.len() ==> is_commit_line(#[trigger] lines[i], commits[i])
}

/// Whether `blob` is the blob `found`, which has the id `id`: that id, an
/// abbreviated id that is its hex text cut short, the size of the blob, the
/// backend's judgement of whether it is binary, and its bytes, held as that
/// judgement says.
pub open spec fn is_blob_of(blob: GitBlobView, found: git2::Blob<'_>, id: Seq<u8>) -> bool {
    &&& blob_oid(found) == id
    &&& blob.id == id
    &&& blob.short_id.is_prefix_of(hex_text(id))
    &&& blob.size == blob_size_of(found)
    &&& blob.is_binary == blob_binary_of(found)
    &&& blob.content == content_of(blob_binary_of(found), blob_bytes_of(found))
}

/// Whether `line` is the status entry `entry`: the text of its path, and
/// its flags, both as flags and as a number.
pub open spec fn is_status_line(line: GitStatus, entry: git2::StatusEntry<'_>) -> bool {
    &&& line.path@ == text_of(status_path_of(entry))
    &&& line.status_bits == bits_of(status_of(entry))
    &&& line.status.0 == line.status_bits
}

/// Whether `lines` are the lines of `entries`, one for each, in their order.
pub open spec fn are_status_lines(
    lines: Seq<GitStatus>,
    entries: Seq<git2::StatusEntry<'_>>,
) -> bool {
    &&& lines.len() == entries.len()
    &&& forall|i: int| 0 <= i < lines.len() ==> is_status_line(#[trigger] lines[i], entries[i])
}

/// Whether `line` is the remote of the name `name`: the text of the name,
/// and for the URL the text of what some remote holds, or nothing.
pub open spec fn is_remote_line(line: GitRemote, name: Seq<u8>) -> bool {
    &&& line.name@ == text_of(name)
    &&& line.url@.len() == 0 || exists|remote: git2::Remote<'_>|
        line.url@ == text_of(#[trigger] url_of(remote))
}

/// Whether `lines` are the lines of the remotes of the names `names`, one
/// for each, in their order.
pub open spec fn are_remote_lines(lines: Seq<GitRemote>, names: Seq<Seq<u8>>) -> bool {
    &&& lines.len() == names.len()
    &&& forall|i: int| 0 <= i < lines.len() ==> is_remote_line(#[trigger] lines[i], names[i])
}

/// Whether `tag` is a tag as a visit notes it: its short name is that of
/// some reference, and it carries an abbreviated id.
pub open spec fn is_tag_line(tag: GitTag) -> bool {
    &&& is_abbreviation(tag.target_short@)
    &&& exists|reference: git2::Reference<'_>|
        tag.shorthand@ == text_of(#[trigger] reference_shorthand_of(reference))
}

/// Whether every one of `tags` is a tag as a visit notes it.
pub open spec fn are_tag_lines(tags: Seq<GitTag>) -> bool {
    forall|i: int| 0 <= i < tags.len() ==> is_tag_line(#[trigger] tags[i])
}

/// Whether `after` is `before` with one more tag at its end, of the name
/// that `name` stands for and with the id `target`.
pub open spec fn noted_tag(
    before: Seq<GitTag>,
    after: Seq<GitTag>,
    name: Seq<u8>,
    target: Seq<u8>,
) -> bool {
    &&& after.len() == before.len() + 1
    &&& after.drop_last() == before
    &&& after.last().name@ == text_of(name)
    &&& after.last().target@ == target
    &&& is_tag_line(after.last())
}

/// The branch that `branch` tracks, where it tracks one.
fn upstream_of(branch: &git2::Branch<'_>) -> (upstream: Option<GitUpstream>)
    ensures
        upstream matches Some(upper) ==> (exists|followed: git2::Branch<'_>| #[trigger]
            is_upstream_line(upper, followed)),
{
    match branch_upstream(branch) {
        Some(followed) => {
            let reference = branch_reference(&followed);
            let upper = GitUpstream::from_parts(
                reference_name(reference).as_slice(),
                branch_name(&followed),
                reference_id(reference),
                reference_short_id(reference),
            );
            let upstream = Some(upper);
            assert(is_upstream_line(upstream->0, followed));
            upstream
        },
        None => None,
    }
}

/// The line for a branch of the kind `kind`.
fn branch_line(branch: &git2::Branch<'_>, kind: git2::BranchType) -> (line: GitBranch)
    ensures
        is_branch_line(line, *branch, kind),
{
    let reference = branch_reference(branch);
    GitBranch::from_parts(
        kind,
        reference_name(reference).as_slice(),
        branch_name(branch),
        reference_id(reference),
        reference_short_id(reference),
        upstream_of(branch),
    )
}

/// The line for a reference.
fn reference_line(reference: &git2::Reference<'_>) -> (line: GitReference)
    ensures
        is_reference_line(line, *reference),
{
    GitReference::from_parts(
        reference_kind(reference),
        reference_name(reference).as_slice(),
        reference_shorthand(reference).as_slice(),
        reference_id(reference),
        reference_short_id(reference),
    )
}

/// The line for a commit.
fn commit_line(commit: &git2::Commit<'_>) -> (line: GitCommit)
    ensures
        is_commit_line(line, *commit),
{
    let time = commit_time(commit);
    let (id, short_id) = short_id_of(commit_as_object(commit));
    GitCommit::from_parts(
        signature_of(&commit_author(commit)),
        signature_of(&commit_committer(commit)),
        id,
        short_id,
        commit_message(commit).as_slice(),
        commit_moment(time_seconds(&time), time_offset_minutes(&time)),
    )
}

/// The line for a status entry.
fn status_line(entry: &git2::StatusEntry<'_>) -> (line: GitStatus)
    ensures
        is_status_line(line, *entry),
{
    let status = status_entry_status(entry);
    GitStatus::from_parts(status_entry_path(entry).as_slice(), status_bits(&status))
}

/// The visit of the backend at one tag: the tag is noted at the end of
/// `tags`, under the name that `name` stands for, with the id that the
/// backend gives and the short name of its reference, where that reference
/// can be found, nothing changes where it cannot, and either way the backend
/// is told to go on.
pub(crate) fn visit_tag(tags: &mut Vec<GitTag>, repo: &git2::Repository, oid: git2::Oid, name: &[u8]) -> (go_on:
    bool)
    ensures
        go_on,
        final(tags)@ == old(tags)@ || noted_tag(old(tags)@, final(tags)@, name@, oid_bytes(oid)),
        are_tag_lines(old(tags)@) ==> are_tag_lines(final(tags)@),
{
    let text = MaybeLossyUtf8::from_bytes(name);
    match find_reference(repo, text.as_str()) {
        Some(reference) => {
            let tag = GitTag::from_parts(
                text,
                reference_shorthand(&reference).as_slice(),
                oid_to_id(oid),
                reference_short_id(&reference),
            );
            assert(tag.shorthand@ == text_of(reference_shorthand_of(reference)));
            assert(is_tag_line(tag));
            tags.push(tag);
            assert(tags@.drop_last() =~= old(tags)@);
        },
        None => {},
    }
    true
}

/// The entry of the index as plain values: what the backend holds for it.
pub open spec fn index_record_of(entry: git2::IndexEntry) -> IndexRecordView {
    IndexRecordView {
        path: text_of(entry.path@),
        id: oid_bytes(entry.id),
        file_size: entry.file_size,
        mode: entry.mode,
        uid: entry.uid,
        gid: entry.gid,
        ctime: index_seconds(entry.ctime),
        mtime: index_seconds(entry.mtime),
    }
}

/// The entries of an index as plain values, one for each, in their order.
pub open spec fn index_records_of(entries: Seq<git2::IndexEntry>) -> Seq<IndexRecordView> {
    Seq::new(entries.len(), |i: int| index_record_of(entries[i]))
}

/// The entry of the index as the listing reads it.
fn index_record(entry: &git2::IndexEntry) -> (record: IndexRecord)
    ensures
        record@ == index_record_of(*entry),
{
    IndexRecord {
        path: MaybeLossyUtf8::from_bytes(entry.path.as_slice()),
        id: oid_to_id(entry.id),
        file_size: entry.file_size,
        mode: entry.mode,
        uid: entry.uid,
        gid: entry.gid,
        ctime: index_time_seconds(&entry.ctime),
        mtime: index_time_seconds(&entry.mtime),
    }
}

/// The kind of object as the library names it.
pub open spec fn kind_of(kind: Option<git2::ObjectType>) -> Option<GitObjectType> {
    match kind {
        Some(kind) => Some(GitObjectType::from_spec(kind)),
        None => None,
    }
}

/// The entry of a tree as plain values: what the backend holds for it.
pub open spec fn record_of(entry: git2::TreeEntry<'_>) -> TreeRecordView {
    TreeRecordView {
        name: entry_name(entry),
        id: entry_oid(entry),
        kind: kind_of(entry_kind(entry)),
        filemode: entry_filemode(entry),
    }
}

/// The entry of a tree as plain values.
fn tree_record(entry: &git2::TreeEntry<'_>) -> (record: TreeRecord)
    ensures
        record@ == record_of(*entry),
{
    let kind = match tree_entry_kind(entry) {
        Some(kind) => Some(GitObjectType::from(kind)),
        None => None,
    };
    TreeRecord {
        name: tree_entry_name(entry),
        id: oid_to_id(tree_entry_id(entry)),
        kind,
        filemode: tree_entry_filemode(entry),
    }
}

/// The abbreviated id of the object that an entry of a tree points to, or
/// the empty text where the object cannot be had: either way the hex text
/// of the id that the entry holds, cut short.
fn tree_entry_short_id(repo: &git2::Repository, entry: &git2::TreeEntry<'_>) -> (short: String)
    ensures
        short@.is_prefix_of(hex_text(entry_oid(*entry))),
{
    match tree_entry_object(entry, repo) {
        Ok(object) => short_id_of(&object).1,
        Err(_) => String::new(),
    }
}

/// Whether `item` is the entry `entry` under the prefix `root`, with the hex
/// text of its id, cut short, as its abbreviated id.
pub open spec fn is_item_of(item: TreeItemView, entry: git2::TreeEntry<'_>, root: Seq<char>) -> bool {
    &&& item.root == root
    &&& item.entry == record_of(entry)
    &&& item.short_id.is_prefix_of(hex_text(item.entry.id))
}

/// Whether `items` are the entries `entries` under the prefix `root`, one
/// for each, in their order.
pub open spec fn are_items_of(
    items: Seq<TreeItemView>,
    entries: Seq<git2::TreeEntry<'_>>,
    root: Seq<char>,
) -> bool {
    &&& items.len() == entries.len()
    &&& forall|i: int| 0 <= i < items.len() ==> is_item_of(#[trigger] items[i], entries[i], root)
}

/// Whether `line` is the line of the entry `entry` under the prefix `root`,
/// with the hex text of its id, cut short, as its abbreviated id.
pub open spec fn is_line_of(line: GitTreeView, entry: git2::TreeEntry<'_>, root: Seq<char>) -> bool {
    &&& line.unabbreviated() == tree_line(record_of(entry), root)
    &&& line.short_id.is_prefix_of(hex_text(line.id))
}

/// Whether `lines` are the lines of the entries `entries` under the prefix
/// `root`, one for each, in their order.
pub open spec fn are_lines_of(
    lines: Seq<GitTreeView>,
    entries: Seq<git2::TreeEntry<'_>>,
    root: Seq<char>,
) -> bool {
    &&& lines.len() == entries.len()
    &&& forall|i: int| 0 <= i < lines.len() ==> is_line_of(#[trigger] lines[i], entries[i], root)
}

/// Whether no two of the entries have names that read as the same text.
pub open spec fn distinct_names(entries: Seq<git2::TreeEntry<'_>>) -> bool {
    forall|i: int, j: int|
        0 <= i < j < entries.len() ==> text_of(entry_name(#[trigger] entries[i])) != text_of(
            entry_name(#[trigger] entries[j]),
        )
}

/// Whether none of the entries has a name that reads with a `/` in it.
pub open spec fn plain_entry_names(entries: Seq<git2::TreeEntry<'_>>) -> bool {
    forall|i: int|
        0 <= i < entries.len() ==> !has_slash(text_of(entry_name(#[trigger] entries[i])))
}

/// No duplicates: where no two entries of a tree have names that read as
/// the same text, no two of their lines have the same full path.
pub proof fn lemma_listed_distinct(
    lines: Seq<GitTreeView>,
    entries: Seq<git2::TreeEntry<'_>>,
    root: Seq<char>,
    a: int,
    b: int,
)
    requires
        are_lines_of(lines, entries, root),
        distinct_names(entries),
        0 <= a < b < lines.len(),
    ensures
        lines[a].full_path() != lines[b].full_path(),
{
    let one = text_of(entry_name(entries[a]));
    let two = text_of(entry_name(entries[b]));
    assert(is_line_of(lines[a], entries[a], root));
    assert(is_line_of(lines[b], entries[b], root));
    if lines[a].full_path() == lines[b].full_path() {
        assert(one =~= (root + one).skip(root.len() as int));
        assert(two =~= (root + two).skip(root.len() as int));
    }
}

/// Depth correctness: where none of the entries of a tree has a name that
/// reads with a `/` in it, every one of their lines under the path `q` and
/// a `/`, or under nothing for the empty path, names an immediate child of
/// `q`.
pub proof fn lemma_listed_depth(
    lines: Seq<GitTreeView>,
    entries: Seq<git2::TreeEntry<'_>>,
    q: Seq<char>,
    k: int,
)
    requires
        are_lines_of(lines, entries, dir_prefix(q)),
        plain_entry_names(entries),
        0 <= k < lines.len(),
    ensures
        is_immediate_child(lines[k].full_path(), q),
{
    assert(is_line_of(lines[k], entries[k], dir_prefix(q)));
    lemma_child_segments(q, text_of(entry_name(entries[k])));
}

/// Whether `lines` list the tree `tree`, found by a walk as the entry
/// `found` at the path `q`: the entry is a tree at that path, the tree is
/// the one that it points to, and the lines are those of the entries of the
/// tree under `q` and a `/`.
pub open spec fn shows_tree(
    lines: Seq<GitTreeView>,
    q: Seq<char>,
    tree: git2::Tree<'_>,
    found: TreeRecordView,
    root: Seq<char>,
) -> bool {
    &&& root + found.walk_name() == q
    &&& rooted(root)
    &&& found.is_tree()
    &&& tree_oid(tree) == found.id
    &&& are_lines_of(lines, entries_of(tree), q.push('/'))
}

/// Whether `items` are one entry that a walk found at the path `q`, alone:
/// an entry that is no tree, with the hex text of its id, cut short, as its
/// abbreviated id, or a tree without one.
pub open spec fn found_alone(items: Seq<TreeItemView>, q: Seq<char>) -> bool {
    &&& items.len() == 1
    &&& items[0].path() == q
    &&& rooted(items[0].root)
    &&& if items[0].entry.is_tree() {
        items[0].short_id.len() == 0
    } else {
        items[0].short_id.is_prefix_of(hex_text(items[0].entry.id))
    }
}

/// Whether `items` are a tree that a walk found at the path `q`, followed
/// by the entries of the tree that it points to, under `q` and a `/`.
pub open spec fn found_with_tree(items: Seq<TreeItemView>, q: Seq<char>) -> bool {
    &&& items.len() >= 1
    &&& items[0].path() == q
    &&& rooted(items[0].root)
    &&& items[0].entry.is_tree()
    &&& items[0].short_id.len() == 0
    &&& exists|tree: git2::Tree<'_>|
        tree_oid(tree) == items[0].entry.id && are_items_of(
            items.skip(1),
            #[trigger] entries_of(tree),
            q.push('/'),
        )
}

/// Whether `items` are what the backend holds at the path `q`, as a listing
/// takes it: for the empty path the entries of some tree, under nothing; for
/// another path nothing, or what a walk found there, with the entries of
/// the tree found where it is a tree that can be had.
pub open spec fn held_at(items: Seq<TreeItemView>, q: Seq<char>) -> bool {
    if q.len() == 0 {
        exists|top: git2::Tree<'_>| are_items_of(items, #[trigger] entries_of(top), q)
    } else {
        ||| items.len() == 0
        ||| found_alone(items, q)
        ||| found_with_tree(items, q)
    }
}

/// Whether `line` is the line of an entry that is no tree and stands at the
/// path `q`, with the hex text of its id, cut short, as its abbreviated id.
pub open spec fn is_entry_at(line: GitTreeView, q: Seq<char>) -> bool {
    exists|entry: TreeRecordView|
        line.unabbreviated() == #[trigger] tree_line(entry, line.root) && line.root
            + entry.walk_name() == q && !entry.is_tree() && rooted(line.root)
            && line.short_id.is_prefix_of(hex_text(line.id))
}

/// What a listing of the path `q`, which is not empty, is: empty, where
/// nothing stands at `q` or the tree there cannot be had; the one line of
/// an entry at `q` that is no tree; or the lines of the entries of the tree
/// at `q`.
pub open spec fn lists_found(lines: Seq<GitTreeView>, q: Seq<char>) -> bool {
    ||| lines.len() == 0
    ||| lines.len() == 1 && is_entry_at(lines[0], q)
    ||| exists|tree: git2::Tree<'_>, found: TreeRecordView, root: Seq<char>| #[trigger]
        shows_tree(lines, q, tree, found, root)
}

/// What a walk through a tree of the repository is for, and what it has
/// taken down so far.
pub enum WalkNotes {
    /// The walk searches for the entry at one path; with the search goes the
    /// abbreviated id of what it has found.
    Search { search: TreeSearch, short_id: String },
    /// The walk takes down every entry that it meets.
    Collect { items: Vec<TreeItem> },
}

impl WalkNotes {
    /// What a search has found is at the path searched for, under a prefix
    /// as a walk hands them out, and where it is no tree, what goes with it
    /// as an abbreviated id is the hex text of its id, cut short. What has
    /// been taken down stands under such prefixes too.
    pub open spec fn wf(&self) -> bool {
        match self {
            WalkNotes::Search { search, short_id } => {
                &&& search.wf()
                &&& search.found matches Some(item) ==> rooted(item.root@) && (
                item.entry@.is_tree() || short_id@.is_prefix_of(hex_text(item.entry.id@)))
            },
            WalkNotes::Collect { items } => forall|i: int|
                0 <= i < items.len() ==> rooted((#[trigger] items[i]).root@),
        }
    }

    /// Whether two notes are for the same: both take down every entry, or
    /// both search for the same path.
    pub open spec fn same_purpose(&self, other: &WalkNotes) -> bool {
        match (self, other) {
            (WalkNotes::Search { search: one, .. }, WalkNotes::Search { search: two, .. }) => one.query@
                == two.query@,
            (WalkNotes::Collect { .. }, WalkNotes::Collect { .. }) => true,
            _ => false,
        }
    }
}

/// What a walk is told after a step of a search.
pub open spec fn told(step: TreeStep) -> git2::TreeWalkResult {
    match step {
        TreeStep::Found => git2::TreeWalkResult::Abort,
        TreeStep::Skip => git2::TreeWalkResult::Skip,
        TreeStep::Continue => git2::TreeWalkResult::Ok,
    }
}

/// What a visit at the entry `record` under the prefix `root` makes of the
/// notes `before`, and what it tells the walk. A search takes the step that
/// `tree_step` gives for the entry: it keeps the entry where that is the one
/// searched for, and only then, and only for an entry that is no tree, does
/// the abbreviated id change: to the hex text of the entry's id, cut short.
/// Notes of every entry grow by this entry.
pub open spec fn visited(
    before: WalkNotes,
    after: WalkNotes,
    root: Seq<char>,
    record: TreeRecordView,
    next: git2::TreeWalkResult,
) -> bool {
    match before {
        WalkNotes::Search { search, short_id } => {
            let step = tree_step(search.query@, root, record.walk_name(), record.is_tree());
            &&& after matches WalkNotes::Search { search: then, short_id: then_id }
            &&& next == told(step)
            &&& then.query@ == search.query@
            &&& step is Found ==> (then.found matches Some(item) && item@ == (TreeItemView {
                root: root,
                entry: record,
                short_id: Seq::empty(),
            }))
            &&& !(step is Found) ==> then.found == search.found
            &&& !(step is Found) || record.is_tree() ==> then_id == short_id
            &&& step is Found && !record.is_tree() ==> then_id@.is_prefix_of(hex_text(record.id))
        },
        WalkNotes::Collect { items } => {
            &&& after matches WalkNotes::Collect { items: then }
            &&& next == git2::TreeWalkResult::Ok
            &&& then@.len() == items@.len() + 1
            &&& then@.drop_last() == items@
            &&& then@.last()@ == (TreeItemView {
                root: root,
                entry: record,
                short_id: Seq::empty(),
            })
        },
    }
}

/// The visit of a walk at one entry of a tree of the repository. A walk that
/// searches lets the search visit the entry, looks up the abbreviated id of
/// an entry that the search keeps, and goes on as the search says. A walk
/// that takes down every entry notes this one with the prefix of its tree
/// and goes on: the notes and the walk fare as `visited` says for what the
/// backend holds of the entry.
pub(crate) fn visit_entry(
    notes: &mut WalkNotes,
    repo: &git2::Repository,
    root: &str,
    entry: &git2::TreeEntry<'_>,
) -> (next: git2::TreeWalkResult)
    requires
        old(notes).wf(),
        rooted(root@),
    ensures
        final(notes).wf(),
        final(notes).same_purpose(old(notes)),
        visited(*old(notes), *final(notes), root@, record_of(*entry), next),
{
    let record = tree_record(entry);
    let ghost met = record@;
    let next = match notes {
        WalkNotes::Search { search, short_id } => {
            let is_tree = record.is_tree();
            match search.visit(root, record) {
                TreeStep::Found => {
                    if !is_tree {
                        *short_id = tree_entry_short_id(repo, entry);
                    }
                    git2::TreeWalkResult::Abort
                },
                TreeStep::Skip => git2::TreeWalkResult::Skip,
                TreeStep::Continue => git2::TreeWalkResult::Ok,
            }
        },
        WalkNotes::Collect { items } => {
            let ghost before = items@;
            items.push(
                TreeItem { root: String::from_str(root), entry: record, short_id: String::new() },
            );
            assert(items@.drop_last() =~= before);
            git2::TreeWalkResult::Ok
        },
    };
    assert(visited(*old(notes), *notes, root@, met, next));
    next
}

impl GitRepository {
    /// The tree of the commit that HEAD points to.
    fn head_tree(&self) -> (r: GitResult<git2::Tree<'_>>)
        ensures
            r matches Err(e) ==> is_backend_failure(e@) && (e is ObjectNotFound || e is Unhandled),
    {
        let head = match repository_head(&self.repo) {
            Ok(head) => head,
            Err(e) => {
                return Err(GitError::from_backend(&e));
            },
        };
        let commit = match reference_commit(&head) {
            Ok(commit) => commit,
            Err(e) => {
                return Err(GitError::from_backend(&e));
            },
        };
        match commit_tree(&commit) {
            Ok(top) => Ok(top),
            Err(e) => Err(GitError::from_backend(&e)),
        }
    }

    /// The entries of the staged index, as `list_index_records` takes them:
    /// one record for each entry that the index holds, in its order. A
    /// failure is what `classified` makes of the backend's error.
    pub fn index_records(&self) -> (r: GitResult<Vec<IndexRecord>>)
        ensures
            r matches Ok(records) ==> exists|index: git2::Index|
                records.deep_view() == index_records_of(#[trigger] index_entries_of(index)),
            r matches Err(e) ==> is_backend_failure(e@) && (e is ObjectNotFound || e is Unhandled),
    {
        let index = match repository_index(&self.repo) {
            Ok(index) => index,
            Err(e) => {
                return Err(GitError::from_backend(&e));
            },
        };
        let entries = index_entries(&index);
        let mut records: Vec<IndexRecord> = Vec::new();
        let mut i: usize = 0;
        while i < entries.len()
            invariant
                i <= entries.len(),
                records.len() == i,
                forall|k: int|
                    0 <= k < i ==> (#[trigger] records[k])@ == index_record_of(entries@[k]),
            decreases entries.len() - i,
        {
            records.push(index_record(&entries[i]));
            i = i + 1;
        }
        assert(records.deep_view() =~= index_records_of(index_entries_of(index)));
        Ok(records)
    }

    /// The entries that a whole walk through the tree of the commit that
    /// HEAD points to meets, in the order of the walk, as `list_tree_items`
    /// takes them. Each stands under a prefix that is empty or ends in `/`.
    /// A failure is what `classified` makes of the backend's error.
    pub fn walk_items(&self) -> (r: GitResult<Vec<TreeItem>>)
        ensures
            r matches Ok(items) ==> forall|i: int|
                0 <= i < items.len() ==> rooted((#[trigger] items[i]).root@),
            r matches Err(e) ==> is_backend_failure(e@) && (e is ObjectNotFound || e is Unhandled),
    {
        let top = match self.head_tree() {
            Ok(top) => top,
            Err(e) => {
                return Err(e);
            },
        };
        let mut notes = WalkNotes::Collect { items: Vec::new() };
        walk_tree(&top, &self.repo, &mut notes);
        match notes {
            WalkNotes::Collect { items } => Ok(items),
            WalkNotes::Search { .. } => Ok(Vec::new()),
        }
    }

    /// Opens the repository at `location`. A failure is what
    /// `classified_on_open` makes of the backend's error: where the backend
    /// finds no repository there, the failure says so and carries the
    /// location.
    pub fn open(location: &str) -> (r: GitResult<GitRepository>)
        ensures
            r matches Err(e) ==> is_open_failure(e@, location@),
            r matches Err(GitError::RepositoryNotFound(at)) ==> at@ == location@,
    {
        match open_repository(location) {
            Ok(repo) => Ok(GitRepository { repo }),
            Err(e) => Err(GitError::from_open(location, &e)),
        }
    }

    /// The status of the paths of the working tree and the index: one line
    /// for each entry of the status listing that the backend gives, in its
    /// order, with the text of the entry's path and its flags, both as flags
    /// and as a number. A failure is what `classified` makes of the
    /// backend's error.
    pub fn gather_status(&self) -> (r: GitResult<Vec<GitStatus>>)
        ensures
            r matches Ok(lines) ==> exists|statuses: git2::Statuses<'_>|
                are_status_lines(lines@, #[trigger] status_entries_of(statuses)),
            r matches Err(e) ==> is_backend_failure(e@) && (e is ObjectNotFound || e is Unhandled),
    {
        let statuses = match repository_statuses(&self.repo) {
            Ok(statuses) => statuses,
            Err(e) => {
                return Err(GitError::from_backend(&e));
            },
        };
        let entries = status_entries(&statuses);
        let mut lines: Vec<GitStatus> = Vec::new();
        let mut i: usize = 0;
        while i < entries.len()
            invariant
                i <= entries.len(),
                lines.len() == i,
                forall|k: int| 0 <= k < i ==> is_status_line(#[trigger] lines[k], entries@[k]),
            decreases entries.len() - i,
        {
            lines.push(status_line(&entries[i]));
            i = i + 1;
        }
        assert(are_status_lines(lines@, status_entries_of(statuses)));
        Ok(lines)
    }

    /// The branches: one line for each branch that the backend gives, in its
    /// order, with its kind, names and the id that it stands for, and with
    /// the branch that it tracks. A failure is what `classified` makes of
    /// the backend's error.
    pub fn list_branch(&self) -> (r: GitResult<Vec<GitBranch>>)
        ensures
            r matches Ok(lines) ==> (exists|branches: Seq<(git2::Branch<'_>, git2::BranchType)>| #[trigger]
                are_branch_lines(lines@, branches)),
            r matches Err(e) ==> is_backend_failure(e@) && (e is ObjectNotFound || e is Unhandled),
    {
        let branches = match repository_branches(&self.repo) {
            Ok(branches) => branches,
            Err(e) => {
                return Err(GitError::from_backend(&e));
            },
        };
        let mut lines: Vec<GitBranch> = Vec::new();
        let mut i: usize = 0;
        while i < branches.len()
            invariant
                i <= branches.len(),
                lines.len() == i,
                forall|k: int|
                    0 <= k < i ==> is_branch_line(
                        #[trigger] lines[k],
                        branches@[k].0,
                        branches@[k].1,
                    ),
            decreases branches.len() - i,
        {
            lines.push(branch_line(&branches[i].0, branches[i].1));
            i = i + 1;
        }
        let r = Ok(lines);
        assert(are_branch_lines(r->Ok_0@, branches@));
        r
    }

    /// The commits from which HEAD descends, HEAD's own first: one line for
    /// each commit that the backend can read, in the order of its walk
    /// through the history, with its id, the texts of its author, committer
    /// and message, and the moment that its time stands for. A failure is
    /// what `classified` makes of the backend's error.
    pub fn list_commit(&self) -> (r: GitResult<Vec<GitCommit>>)
        ensures
            r matches Ok(lines) ==> (exists|commits: Seq<git2::Commit<'_>>| #[trigger]
                are_commit_lines(lines@, commits)),
            r matches Err(e) ==> is_backend_failure(e@) && (e is ObjectNotFound || e is Unhandled),
    {
        let mut walk = match repository_revwalk(&self.repo) {
            Ok(walk) => walk,
            Err(e) => {
                return Err(GitError::from_backend(&e));
            },
        };
        match revwalk_push_head(&mut walk) {
            Ok(_) => {},
            Err(e) => {
                return Err(GitError::from_backend(&e));
            },
        }
        let ids = revwalk_ids(walk);
        let mut lines: Vec<GitCommit> = Vec::new();
        let ghost mut read: Seq<git2::Commit<'_>> = Seq::empty();
        let mut i: usize = 0;
        while i < ids.len()
            invariant
                are_commit_lines(lines@, read),
            decreases ids.len() - i,
        {
            match find_commit(&self.repo, ids[i]) {
                Some(commit) => {
                    let line = commit_line(&commit);
                    proof {
                        read = read.push(commit);
                    }
                    lines.push(line);
                },
                None => {},
            }
            i = i + 1;
        }
        let r = Ok(lines);
        assert(are_commit_lines(r->Ok_0@, read));
        r
    }

    /// The references: one line for each reference that the backend gives,
    /// in its order, with its kind, names and the id that it stands for. A
    /// failure is what `classified` makes of the backend's error.
    pub fn list_reference(&self) -> (r: GitResult<Vec<GitReference>>)
        ensures
            r matches Ok(lines) ==> (exists|references: Seq<git2::Reference<'_>>| #[trigger]
                are_reference_lines(lines@, references)),
            r matches Err(e) ==> is_backend_failure(e@) && (e is ObjectNotFound || e is Unhandled),
    {
        let references = match repository_references(&self.repo) {
            Ok(references) => references,
            Err(e) => {
                return Err(GitError::from_backend(&e));
            },
        };
        let mut lines: Vec<GitReference> = Vec::new();
        let mut i: usize = 0;
        while i < references.len()
            invariant
                i <= references.len(),
                lines.len() == i,
                forall|k: int|
                    0 <= k < i ==> is_reference_line(#[trigger] lines[k], references@[k]),
            decreases references.len() - i,
        {
            lines.push(reference_line(&references[i]));
            i = i + 1;
        }
        let r = Ok(lines);
        assert(are_reference_lines(r->Ok_0@, references@));
        r
    }

    /// The line for the remote of the name `name`: the text of the name, and
    /// the URL of the remote that the backend finds under that text, or no
    /// URL where it finds none.
    fn remote_line(&self, name: &Vec<u8>) -> (line: GitRemote)
        ensures
            is_remote_line(line, name@),
    {
        let text = MaybeLossyUtf8::from_bytes(name.as_slice());
        match find_remote(&self.repo, text.as_str()) {
            Some(remote) => {
                let line = GitRemote::from_parts(text, Some(remote_url(&remote)));
                assert(line.url@ == text_of(url_of(remote)));
                line
            },
            None => GitRemote::from_parts(text, None),
        }
    }

    /// The remotes: one line for each name that the backend gives, in its
    /// order, with the text of the name and the URL of the remote, which is
    /// empty where the backend cannot find the remote by its name. A failure
    /// is what `classified` makes of the backend's error.
    pub fn list_remote(&self) -> (r: GitResult<Vec<GitRemote>>)
        ensures
            r matches Ok(lines) ==> exists|array: git2::string_array::StringArray|
                are_remote_lines(lines@, #[trigger] strings_of(array)),
            r matches Err(e) ==> is_backend_failure(e@) && (e is ObjectNotFound || e is Unhandled),
    {
        let array = match repository_remotes(&self.repo) {
            Ok(array) => array,
            Err(e) => {
                return Err(GitError::from_backend(&e));
            },
        };
        let names = string_array_bytes(&array);
        let mut lines: Vec<GitRemote> = Vec::new();
        let mut i: usize = 0;
        while i < names.len()
            invariant
                i <= names.len(),
                lines.len() == i,
                names@.len() == strings_of(array).len(),
                forall|k: int|
                    0 <= k < names@.len() ==> (#[trigger] names@[k])@ == strings_of(array)[k],
                forall|k: int|
                    0 <= k < i ==> is_remote_line(#[trigger] lines[k], strings_of(array)[k]),
            decreases names.len() - i,
        {
            lines.push(self.remote_line(&names[i]));
            i = i + 1;
        }
        assert(are_remote_lines(lines@, strings_of(array)));
        Ok(lines)
    }

    /// The tags whose references the backend can find, in the order in
    /// which the backend visits them. Each has the short name of some
    /// reference and carries an abbreviated id. A failure is what
    /// `classified` makes of the backend's error.
    pub fn list_tag(&self) -> (r: GitResult<Vec<GitTag>>)
        ensures
            r matches Ok(tags) ==> are_tag_lines(tags@),
            r matches Err(e) ==> is_backend_failure(e@) && (e is ObjectNotFound || e is Unhandled),
    {
        let mut tags: Vec<GitTag> = Vec::new();
        match each_tag(&self.repo, &mut tags) {
            Ok(_) => Ok(tags),
            Err(e) => Err(GitError::from_backend(&e)),
        }
    }

    /// The blob with the id `id`: the backend is asked for that id, and what
    /// comes back is the blob that it gives, with that id, its size, the
    /// backend's judgement of whether it is binary, and its bytes as that
    /// judgement has them held. Its abbreviated id is the hex text of the id
    /// cut short. A failure is what `classified` makes of the backend's
    /// error.
    pub fn get_blob(&self, id: GitOid) -> (r: GitResult<GitBlob>)
        ensures
            r matches Ok(blob) ==> (exists|found: git2::Blob<'_>| #[trigger]
                is_blob_of(blob@, found, id@)),
            r matches Ok(blob) ==> blob.id@ == id@,
            r matches Ok(blob) ==> blob@.consistent(),
            r matches Ok(blob) ==> blob.short_id@.is_prefix_of(hex_text(blob.id@)),
            r matches Err(e) ==> is_backend_failure(e@) && (e is ObjectNotFound || e is Unhandled),
    {
        match find_blob(&self.repo, id_to_oid(&id)) {
            Ok(found) => {
                let (id, short_id) = short_id_of(blob_as_object(&found));
                let blob = GitBlob::new(
                    id,
                    short_id,
                    blob_size(&found),
                    blob_is_binary(&found),
                    blob_content(&found),
                );
                assert(is_blob_of(blob@, found, id@));
                Ok(blob)
            },
            Err(e) => Err(GitError::from_backend(&e)),
        }
    }

    /// The abbreviated id of the blob with the id `id`, or the empty text
    /// where the blob cannot be had: either way the hex text of `id`, cut
    /// short.
    fn blob_short_id(&self, id: &GitOid) -> (short: String)
        ensures
            short@.is_prefix_of(hex_text(id@)),
    {
        match find_blob(&self.repo, id_to_oid(id)) {
            Ok(blob) => short_id_of(blob_as_object(&blob)).1,
            Err(_) => String::new(),
        }
    }

    /// Lists the directory `path` of the staged index: what `index_listing`
    /// says for the entries that the index holds, each file with the hex
    /// text of its id, cut short as the store cuts it, for its abbreviated
    /// id. Whatever the index holds, every line is at the path or directly
    /// below it, and no directory is listed twice.
    pub fn list_index(&self, path: &str) -> (r: GitResult<Vec<GitIndex>>)
        ensures
            r matches Ok(lines) ==> exists|index: git2::Index|
                unabbreviated(lines.deep_view()) == index_listing(
                    index_records_of(#[trigger] index_entries_of(index)),
                    normalized(path@),
                ),
            r matches Ok(lines) ==> forall|k: int|
                0 <= k < lines.len() ==> (#[trigger] lines[k])@.full_path() == normalized(path@)
                    || is_immediate_child(lines[k]@.full_path(), normalized(path@)),
            r matches Ok(lines) ==> forall|a: int, b: int|
                0 <= a < b < lines.len() && (#[trigger] lines[a]) is Directory
                    && (#[trigger] lines[b]) is Directory ==> lines[a]@.full_path()
                    != lines[b]@.full_path(),
            r matches Ok(lines) ==> forall|k: int|
                0 <= k < lines.len() ==> ((#[trigger] lines[k]) matches GitIndex::Entry(e)
                    ==> e.short_id@.is_prefix_of(hex_text(e.id@))),
            r matches Err(e) ==> is_backend_failure(e@) && (e is ObjectNotFound || e is Unhandled),
    {
        let records = match self.index_records() {
            Ok(records) => records,
            Err(e) => {
                return Err(e);
            },
        };
        let listing = list_index_records(&records, path);
        let ghost plain = listing.deep_view();
        proof {
            lemma_listing_unabbreviated(records.deep_view(), normalized(path@));
        }
        let mut lines: Vec<GitIndex> = Vec::new();
        for line in it: listing
            invariant
                it.seq().len() == plain.len(),
                forall|i: int| 0 <= i < plain.len() ==> (#[trigger] it.seq()[i])@ == plain[i],
                lines.len() == it.index(),
                forall|i: int|
                    0 <= i < lines.len() ==> (#[trigger] lines[i])@.unabbreviated() == plain[i],
                forall|i: int|
                    0 <= i < lines.len() ==> ((#[trigger] lines[i]) matches GitIndex::Entry(e)
                        ==> e.short_id@.is_prefix_of(hex_text(e.id@))),
                forall|i: int| 0 <= i < plain.len() ==> (#[trigger] plain[i]).unabbreviated() == plain[i],
        {
            match line {
                GitIndex::Directory(d) => {
                    lines.push(GitIndex::Directory(d));
                },
                GitIndex::Entry(e) => {
                    let short_id = self.blob_short_id(&e.id);
                    lines.push(GitIndex::Entry(GitIndexEntry { short_id, ..e }));
                },
            }
        }
        assert(unabbreviated(lines.deep_view()) =~= plain);
        proof {
            let rv = records.deep_view();
            let q = normalized(path@);
            assert forall|k: int| 0 <= k < lines.len() implies (#[trigger] lines[k])@.full_path()
                == q || is_immediate_child(lines[k]@.full_path(), q) by {
                lemma_line_depth(rv, q, k);
                assert(lines[k]@.unabbreviated() == plain[k]);
            }
            assert forall|a: int, b: int|
                0 <= a < b < lines.len() && (#[trigger] lines[a]) is Directory
                    && (#[trigger] lines[b]) is Directory implies lines[a]@.full_path()
                != lines[b]@.full_path() by {
                assert(lines[a]@.unabbreviated() == plain[a]);
                assert(lines[b]@.unabbreviated() == plain[b]);
                lemma_directories_distinct(rv, q, a, b);
            }
        }
        Ok(lines)
    }

    /// The entries that stand directly in `tree`, in its order, each under
    /// the prefix `root` and with the abbreviated id that the store gives
    /// for it.
    fn tree_items(&self, tree: &git2::Tree<'_>, root: &str) -> (items: Vec<TreeItem>)
        ensures
            are_items_of(items.deep_view(), entries_of(*tree), root@),
    {
        let entries = tree_entries(tree);
        let mut items: Vec<TreeItem> = Vec::new();
        let mut i: usize = 0;
        while i < entries.len()
            invariant
                i <= entries.len(),
                entries@ == entries_of(*tree),
                items.len() == i,
                forall|k: int|
                    0 <= k < items.len() ==> is_item_of(
                        (#[trigger] items[k])@,
                        entries_of(*tree)[k],
                        root@,
                    ),
            decreases entries.len() - i,
        {
            let entry = &entries[i];
            items.push(
                TreeItem {
                    root: String::from_str(root),
                    entry: tree_record(entry),
                    short_id: tree_entry_short_id(&self.repo, entry),
                },
            );
            i = i + 1;
        }
        assert forall|k: int| 0 <= k < items.len() implies is_item_of(
            #[trigger] items.deep_view()[k],
            entries_of(*tree)[k],
            root@,
        ) by {
            assert(items.deep_view()[k] == items[k]@);
        }
        items
    }

    /// The entries of the tree with the id `id`, each under the prefix
    /// `root`, or nothing where the backend cannot give the tree.
    fn found_tree_items(&self, id: &GitOid, root: &str) -> (items: Vec<TreeItem>)
        ensures
            items.len() == 0 || exists|tree: git2::Tree<'_>|
                tree_oid(tree) == id@ && are_items_of(
                    items.deep_view(),
                    #[trigger] entries_of(tree),
                    root@,
                ),
    {
        match find_tree(&self.repo, id_to_oid(id)) {
            Ok(tree) => {
                let items = self.tree_items(&tree, root);
                assert(tree_oid(tree) == id@ && are_items_of(
                    items.deep_view(),
                    entries_of(tree),
                    root@,
                ));
                items
            },
            Err(_) => Vec::new(),
        }
    }

    /// Lists the path `path` in the tree of the commit that HEAD points to:
    /// what `tree_listing` says for what the backend holds at the path, as
    /// `held_at` has it. One
    /// trailing `/` of `path` is ignored. The empty path lists the entries
    /// of the top tree, one line for each, in their order. Another path is
    /// searched for by a walk: nothing found gives an empty listing, an
    /// entry that is no tree gives that entry alone, and a tree gives the
    /// entries of that tree, one line for each, in their order, under the
    /// path and a `/`. Every line stands under a prefix that is empty or
    /// ends in `/`, and its abbreviated id is the hex text of its own id,
    /// cut short.
    pub fn list_tree(&self, path: &str) -> (r: GitResult<Vec<GitTree>>)
        ensures
            r matches Ok(lines) ==> (exists|items: Seq<TreeItemView>|
                lines.deep_view() == #[trigger] tree_listing(items, normalized(path@)) && held_at(
                    items,
                    normalized(path@),
                )),
            r matches Ok(lines) ==> normalized(path@).len() == 0 ==> exists|top: git2::Tree<'_>|
                are_lines_of(lines.deep_view(), #[trigger] entries_of(top), normalized(path@)),
            r matches Ok(lines) ==> normalized(path@).len() > 0 ==> lists_found(
                lines.deep_view(),
                normalized(path@),
            ),
            r matches Ok(lines) ==> forall|i: int|
                0 <= i < lines.len() ==> rooted((#[trigger] lines[i]).root@)
                    && lines[i].short_id@.is_prefix_of(hex_text(lines[i].id@)),
            r matches Err(e) ==> is_backend_failure(e@) && (e is ObjectNotFound || e is Unhandled),
    {
        let query = strip_trailing_slash(path);
        let ghost q = normalized(path@);
        let top = match self.head_tree() {
            Ok(top) => top,
            Err(e) => {
                return Err(e);
            },
        };
        if query.is_empty() {
            let items = self.tree_items(&top, query);
            let lines = list_tree_items(&items, path);
            proof {
                let iv = items.deep_view();
                assert(q =~= Seq::<char>::empty());
                assert(held_at(iv, q));
                assert forall|i: int| 0 <= i < iv.len() implies (#[trigger] iv[i]).root == q by {
                    assert(is_item_of(iv[i], entries_of(top)[i], q));
                }
                lemma_all_listed(iv, q);
                assert(lines.deep_view() == lines_of(iv));
                assert forall|i: int| 0 <= i < lines.len() implies is_line_of(
                    #[trigger] lines.deep_view()[i],
                    entries_of(top)[i],
                    q,
                ) by {
                    assert(lines.deep_view()[i] == item_line(iv[i]));
                    assert(is_item_of(iv[i], entries_of(top)[i], q));
                }
                assert(are_lines_of(lines.deep_view(), entries_of(top), q));
                assert forall|i: int| 0 <= i < lines.len() implies rooted(
                    (#[trigger] lines[i]).root@,
                ) && lines[i].short_id@.is_prefix_of(hex_text(lines[i].id@)) by {
                    assert(lines.deep_view()[i] == lines[i]@);
                    assert(lines.deep_view()[i] == item_line(iv[i]));
                }
            }
            return Ok(lines);
        }
        let mut notes = WalkNotes::Search {
            search: TreeSearch::new(query),
            short_id: String::new(),
        };
        walk_tree(&top, &self.repo, &mut notes);
        let (search, short_id) = match notes {
            WalkNotes::Search { search, short_id } => (search, short_id),
            WalkNotes::Collect { .. } => {
                let none: Vec<TreeItem> = Vec::new();
                return Ok(list_tree_items(&none, path));
            },
        };
        let found = search.found;
        let tree_found = match &found {
            Some(item) => if item.entry.is_tree() {
                Some(item.entry.id)
            } else {
                None
            },
            None => None,
        };
        let children = match tree_found {
            Some(id) => {
                let root = String::from_str(query).concat("/");
                proof {
                    reveal_strlit("/");
                    assert(root@ =~= q.push('/'));
                }
                self.found_tree_items(&id, root.as_str())
            },
            None => Vec::new(),
        };
        let ghost fv = found_view(found);
        let ghost kv = children.deep_view();
        let ghost sv = short_id@;
        let items = gather_found(found, short_id, children);
        let lines = list_tree_items(&items, path);
        proof {
            assert forall|i: int| 0 <= i < kv.len() implies (#[trigger] kv[i]).root == q.push(
                '/',
            ) && kv[i].short_id.is_prefix_of(hex_text(kv[i].entry.id)) by {
                let tree = choose|tree: git2::Tree<'_>|
                    tree_oid(tree) == tree_found->0@ && are_items_of(
                        kv,
                        #[trigger] entries_of(tree),
                        q.push('/'),
                    );
                assert(is_item_of(kv[i], entries_of(tree)[i], q.push('/')));
            }
            lemma_found_listing(q, fv, sv, kv);
            assert(lines.deep_view().len() == lines.len());
            let iv = items.deep_view();
            assert(iv == found_items(fv, sv, kv));
            match fv {
                None => {},
                Some(item) => {
                    if item.entry.is_tree() {
                        if kv.len() > 0 {
                            let tree = choose|tree: git2::Tree<'_>|
                                tree_oid(tree) == tree_found->0@ && are_items_of(
                                    kv,
                                    #[trigger] entries_of(tree),
                                    q.push('/'),
                                );
                            assert(iv.skip(1) =~= kv);
                            assert(found_with_tree(iv, q));
                        } else {
                            assert(found_alone(iv, q));
                        }
                    } else {
                        assert(found_alone(iv, q));
                    }
                },
            }
            assert(held_at(iv, q));
            match fv {
                None => {},
                Some(item) => {
                    assert(rooted(item.root));
                    if item.entry.is_tree() {
                        assert(lines.deep_view() == lines_of(kv));
                        assert forall|i: int| 0 <= i < lines.len() implies lines.deep_view()[i]
                            == item_line(#[trigger] kv[i]) by {}
                        if kv.len() > 0 {
                            let tree = choose|tree: git2::Tree<'_>|
                                tree_oid(tree) == tree_found->0@ && are_items_of(
                                    kv,
                                    #[trigger] entries_of(tree),
                                    q.push('/'),
                                );
                            assert forall|i: int| 0 <= i < lines.len() implies is_line_of(
                                #[trigger] lines.deep_view()[i],
                                entries_of(tree)[i],
                                q.push('/'),
                            ) by {
                                assert(lines.deep_view()[i] == item_line(kv[i]));
                                assert(is_item_of(kv[i], entries_of(tree)[i], q.push('/')));
                            }
                            assert(shows_tree(lines.deep_view(), q, tree, item.entry, item.root));
                        }
                        assert forall|i: int| 0 <= i < lines.len() implies rooted(
                            (#[trigger] lines[i]).root@,
                        ) && lines[i].short_id@.is_prefix_of(hex_text(lines[i].id@)) by {
                            assert(lines.deep_view()[i] == lines[i]@);
                            assert(lines.deep_view()[i] == item_line(kv[i]));
                            assert(kv[i].root == q.push('/'));
                        }
                    } else {
                        let line = lines.deep_view()[0];
                        assert(line == lines[0]@);
                        assert(sv.is_prefix_of(hex_text(item.entry.id)));
                        assert(line.unabbreviated() == tree_line(item.entry, line.root));
                        assert(is_entry_at(line, q));
                    }
                },
            }
        }
        Ok(lines)
    }
}

} // verus!
