use crate::oid::{hex_text, GitOid};
use crate::text::given_bytes;
use crate::model::GitTag;
use crate::repository::{are_tag_lines, visit_entry, visit_tag, WalkNotes};
use vstd::prelude::*;

verus! {

/// `git2::Error`, carried through as it is.
#[verifier::external_type_specification]
#[verifier::external_body]
pub struct ExError(git2::Error);

/// `git2::ErrorClass`, with its variants as they are.
#[verifier::external_type_specification]
pub struct ExErrorClass(git2::ErrorClass);

/// `git2::ErrorCode`, with its variants as they are.
#[verifier::external_type_specification]
pub struct ExErrorCode(git2::ErrorCode);

/// `git2::ObjectType`, with its variants as they are.
#[verifier::external_type_specification]
pub struct ExObjectType(git2::ObjectType);

/// `git2::TreeWalkResult`, with its variants as they are.
#[verifier::external_type_specification]
pub struct ExTreeWalkResult(git2::TreeWalkResult);

/// `git2::Repository`, carried through as it is.
#[verifier::external_type_specification]
#[verifier::external_body]
pub struct ExRepository(git2::Repository);

/// `git2::Oid`, carried through as it is.
#[verifier::external_type_specification]
#[verifier::external_body]
pub struct ExOid(git2::Oid);

/// `git2::Index`, carried through as it is.
#[verifier::external_type_specification]
#[verifier::external_body]
pub struct ExIndex(git2::Index);

/// `git2::IndexTime`, carried through as it is.
#[verifier::external_type_specification]
#[verifier::external_body]
pub struct ExIndexTime(git2::IndexTime);

/// `git2::IndexEntry`, with its fields as they are.
#[verifier::external_type_specification]
pub struct ExIndexEntry(git2::IndexEntry);

/// `git2::Blob`, carried through as it is.
#[verifier::external_type_specification]
#[verifier::external_body]
pub struct ExBlob<'repo>(git2::Blob<'repo>);

/// `git2::Object`, carried through as it is.
#[verifier::external_type_specification]
#[verifier::external_body]
pub struct ExObject<'repo>(git2::Object<'repo>);

/// `git2::Reference`, carried through as it is.
#[verifier::external_type_specification]
#[verifier::external_body]
pub struct ExReference<'repo>(git2::Reference<'repo>);

/// `git2::Commit`, carried through as it is.
#[verifier::external_type_specification]
#[verifier::external_body]
pub struct ExCommit<'repo>(git2::Commit<'repo>);

/// `git2::Tree`, carried through as it is.
#[verifier::external_type_specification]
#[verifier::external_body]
pub struct ExTree<'repo>(git2::Tree<'repo>);

/// `git2::TreeEntry`, carried through as it is.
#[verifier::external_type_specification]
#[verifier::external_body]
pub struct ExTreeEntry<'tree>(git2::TreeEntry<'tree>);

/// `git2::BranchType`, with its variants as they are.
#[verifier::external_type_specification]
pub struct ExBranchType(git2::BranchType);

/// `git2::ReferenceType`, with its variants as they are.
#[verifier::external_type_specification]
pub struct ExReferenceType(git2::ReferenceType);

/// `git2::Status`, carried through as it is.
#[verifier::external_type_specification]
#[verifier::external_body]
pub struct ExStatus(git2::Status);

/// `git2::Statuses`, carried through as it is.
#[verifier::external_type_specification]
#[verifier::external_body]
pub struct ExStatuses<'repo>(git2::Statuses<'repo>);

/// `git2::StatusEntry`, carried through as it is.
#[verifier::external_type_specification]
#[verifier::external_body]
pub struct ExStatusEntry<'statuses>(git2::StatusEntry<'statuses>);

/// `git2::Branch`, carried through as it is.
#[verifier::external_type_specification]
#[verifier::external_body]
pub struct ExBranch<'repo>(git2::Branch<'repo>);

/// `git2::Revwalk`, carried through as it is.
#[verifier::external_type_specification]
#[verifier::external_body]
pub struct ExRevwalk<'repo>(git2::Revwalk<'repo>);

/// `git2::Signature`, carried through as it is.
#[verifier::external_type_specification]
#[verifier::external_body]
pub struct ExSignature<'a>(git2::Signature<'a>);

/// `git2::Time`, carried through as it is.
#[verifier::external_type_specification]
#[verifier::external_body]
pub struct ExTime(git2::Time);

/// `git2::string_array::StringArray`, carried through as it is.
#[verifier::external_type_specification]
#[verifier::external_body]
pub struct ExStringArray(git2::string_array::StringArray);

/// `git2::Remote`, carried through as it is.
#[verifier::external_type_specification]
#[verifier::external_body]
pub struct ExRemote<'repo>(git2::Remote<'repo>);

/// The class that a backend error holds: what `git2::Error::class` gives.
pub uninterp spec fn class_of(e: git2::Error) -> git2::ErrorClass;

/// The code that a backend error holds: what `git2::Error::code` gives.
pub uninterp spec fn code_of(e: git2::Error) -> git2::ErrorCode;

/// The message that a backend error holds: what `git2::Error::message` gives.
pub uninterp spec fn message_of(e: git2::Error) -> Seq<char>;

/// The name of a class of failures, as `Debug` prints it.
pub uninterp spec fn class_name_of(class: git2::ErrorClass) -> Seq<char>;

/// The name of a code of failures, as `Debug` prints it.
pub uninterp spec fn code_name_of(code: git2::ErrorCode) -> Seq<char>;

/// `git2::Error::class`: the part of the backend in which the failure
/// arose, which the error holds.
pub assume_specification[ git2::Error::class ](e: &git2::Error) -> (class: git2::ErrorClass)
    ensures
        class == class_of(*e),
;

/// `git2::Error::code`: what kind of failure it was, which the error holds.
pub assume_specification[ git2::Error::code ](e: &git2::Error) -> (code: git2::ErrorCode)
    ensures
        code == code_of(*e),
;

/// `git2::Error::message`: the backend's own words for the failure, which
/// the error holds.
pub assume_specification<'a>[ git2::Error::message ](e: &'a git2::Error) -> (message: &'a str)
    ensures
        message@ == message_of(*e),
;

/// `Debug` of `git2::ErrorClass`: the name of a class of failures.
#[verifier::external_body]
pub(crate) fn error_class_name(class: git2::ErrorClass) -> (name: String)
    ensures
        name@ == class_name_of(class),
{
    format!("{class:?}")
}

/// `Debug` of `git2::ErrorCode`: the name of a code of failures.
#[verifier::external_body]
pub(crate) fn error_code_name(code: git2::ErrorCode) -> (name: String)
    ensures
        name@ == code_name_of(code),
{
    format!("{code:?}")
}

/// The twenty bytes of a backend id: what `git2::Oid::as_bytes` gives.
pub uninterp spec fn oid_bytes(oid: git2::Oid) -> Seq<u8>;

/// The id of a blob: the bytes of what `git2::Blob::id` gives.
pub uninterp spec fn blob_oid(blob: git2::Blob<'_>) -> Seq<u8>;

/// The id of an object: the bytes of what `git2::Object::id` gives.
pub uninterp spec fn object_oid(object: git2::Object<'_>) -> Seq<u8>;

/// The id of a tree: the bytes of what `git2::Tree::id` gives.
pub uninterp spec fn tree_oid(tree: git2::Tree<'_>) -> Seq<u8>;

/// The id that an entry of a tree points to: the bytes of what
/// `git2::TreeEntry::id` gives.
pub uninterp spec fn entry_oid(entry: git2::TreeEntry<'_>) -> Seq<u8>;

/// The name that an entry of a tree holds, in bytes: what
/// `git2::TreeEntry::name_bytes` gives.
pub uninterp spec fn entry_name(entry: git2::TreeEntry<'_>) -> Seq<u8>;

/// The kind of object that an entry of a tree points to: what
/// `git2::TreeEntry::kind` gives.
pub uninterp spec fn entry_kind(entry: git2::TreeEntry<'_>) -> Option<git2::ObjectType>;

/// The file mode that an entry of a tree holds: what
/// `git2::TreeEntry::filemode` gives.
pub uninterp spec fn entry_filemode(entry: git2::TreeEntry<'_>) -> i32;

/// The entries that stand directly in a tree, in the order in which the
/// tree stores them: what `git2::Tree::iter` gives.
pub uninterp spec fn entries_of(tree: git2::Tree<'_>) -> Seq<git2::TreeEntry<'_>>;

/// `git2::Oid::as_bytes`: the twenty bytes of a backend id.
#[verifier::external_body]
pub(crate) fn oid_to_id(oid: git2::Oid) -> (id: GitOid)
    ensures
        id@ == oid_bytes(oid),
{
    let mut raw = [0u8; 20];
    raw.copy_from_slice(oid.as_bytes());
    GitOid(raw)
}

/// `git2::Oid::from_bytes`: the backend id of twenty bytes, which it accepts
/// whatever they are and keeps as they are.
#[verifier::external_body]
pub(crate) fn id_to_oid(id: &GitOid) -> (oid: git2::Oid)
    ensures
        oid_bytes(oid) == id@,
{
    git2::Oid::from_bytes(&id.0).unwrap_or(git2::Oid::zero())
}

/// `git2::Repository::open`: the repository at a location, or why there is
/// none to be had.
#[verifier::external_body]
pub(crate) fn open_repository(location: &str) -> (r: Result<git2::Repository, git2::Error>) {
    git2::Repository::open(location)
}

/// `git2::Repository::index`: the staged index of the repository.
#[verifier::external_body]
pub(crate) fn repository_index(repo: &git2::Repository) -> (r: Result<git2::Index, git2::Error>) {
    repo.index()
}

/// The entries that an index holds, in its order: what `git2::Index::iter`
/// gives.
pub uninterp spec fn index_entries_of(index: git2::Index) -> Seq<git2::IndexEntry>;

/// `git2::Index::iter`: the entries of the index, in its order.
#[verifier::external_body]
pub(crate) fn index_entries(index: &git2::Index) -> (entries: Vec<git2::IndexEntry>)
    ensures
        entries@ == index_entries_of(*index),
{
    index.iter().collect()
}

/// The whole seconds that a time of the index holds: what
/// `git2::IndexTime::seconds` gives.
pub uninterp spec fn index_seconds(time: git2::IndexTime) -> i32;

/// `git2::IndexTime::seconds`: the whole seconds of a time of the index.
#[verifier::external_body]
pub(crate) fn index_time_seconds(time: &git2::IndexTime) -> (seconds: i32)
    ensures
        seconds == index_seconds(*time),
{
    time.seconds()
}

/// `git2::Repository::find_blob`: the blob with an id, or why it cannot be
/// had. A blob that is found is the one with the id asked for.
#[verifier::external_body]
pub(crate) fn find_blob<'a>(repo: &'a git2::Repository, oid: git2::Oid) -> (r: Result<
    git2::Blob<'a>,
    git2::Error,
>)
    ensures
        r matches Ok(blob) ==> blob_oid(blob) == oid_bytes(oid),
{
    repo.find_blob(oid)
}

/// `git2::Blob::as_object`: the blob as an object, under the same id.
#[verifier::external_body]
pub(crate) fn blob_as_object<'a, 'repo>(blob: &'a git2::Blob<'repo>) -> (object: &'a git2::Object<
    'repo,
>)
    ensures
        object_oid(*object) == blob_oid(*blob),
{
    blob.as_object()
}

/// Whether the backend takes a blob for binary: what `git2::Blob::is_binary`
/// gives.
pub uninterp spec fn blob_binary_of(blob: git2::Blob<'_>) -> bool;

/// `git2::Blob::is_binary`: whether the backend takes the blob for binary.
#[verifier::external_body]
pub(crate) fn blob_is_binary(blob: &git2::Blob<'_>) -> (binary: bool)
    ensures
        binary == blob_binary_of(*blob),
{
    blob.is_binary()
}

/// The bytes that a blob holds: what `git2::Blob::content` gives.
pub uninterp spec fn blob_bytes_of(blob: git2::Blob<'_>) -> Seq<u8>;

/// `git2::Blob::content`: a copy of the bytes of the blob.
#[verifier::external_body]
pub(crate) fn blob_content(blob: &git2::Blob<'_>) -> (bytes: Vec<u8>)
    ensures
        bytes@ == blob_bytes_of(*blob),
{
    blob.content().to_vec()
}

/// The size of a blob in bytes: what `git2::Blob::size` gives.
pub uninterp spec fn blob_size_of(blob: git2::Blob<'_>) -> usize;

/// `git2::Blob::size`: the size of the blob in bytes.
#[verifier::external_body]
pub(crate) fn blob_size(blob: &git2::Blob<'_>) -> (size: usize)
    ensures
        size == blob_size_of(*blob),
{
    blob.size()
}

/// `git2::Object::id` and `git2::Object::short_id`: the id of an object,
/// and its abbreviated id as text, where the backend can give one. The
/// abbreviated id is the hex text of the id cut short: its first digits, as
/// many as the backend needs to tell the object from all others.
#[verifier::external_body]
pub(crate) fn object_ids(object: &git2::Object<'_>) -> (ids: (GitOid, Option<String>))
    ensures
        ids.0@ == object_oid(*object),
        ids.1 matches Some(short) ==> short@.is_prefix_of(hex_text(ids.0@)),
{
    let mut raw = [0u8; 20];
    raw.copy_from_slice(object.id().as_bytes());
    let short = object.short_id().ok().and_then(|buf| buf.as_str().map(str::to_string));
    (GitOid(raw), short)
}

/// `git2::Repository::head`: the reference that HEAD points to.
#[verifier::external_body]
pub(crate) fn repository_head<'a>(repo: &'a git2::Repository) -> (r: Result<
    git2::Reference<'a>,
    git2::Error,
>) {
    repo.head()
}

/// `git2::Reference::peel_to_commit`: the commit that a reference leads to.
#[verifier::external_body]
pub(crate) fn reference_commit<'repo>(reference: &git2::Reference<'repo>) -> (r: Result<
    git2::Commit<'repo>,
    git2::Error,
>) {
    reference.peel_to_commit()
}

/// `git2::Commit::tree`: the tree of a commit.
#[verifier::external_body]
pub(crate) fn commit_tree<'repo>(commit: &git2::Commit<'repo>) -> (r: Result<
    git2::Tree<'repo>,
    git2::Error,
>) {
    commit.tree()
}

/// `git2::Repository::find_tree`: the tree with an id, or why it cannot be
/// had. A tree that is found is the one with the id asked for.
#[verifier::external_body]
pub(crate) fn find_tree<'a>(repo: &'a git2::Repository, oid: git2::Oid) -> (r: Result<
    git2::Tree<'a>,
    git2::Error,
>)
    ensures
        r matches Ok(tree) ==> tree_oid(tree) == oid_bytes(oid),
{
    repo.find_tree(oid)
}

/// `git2::Tree::iter`: the entries that stand directly in a tree, in its order.
#[verifier::external_body]
pub(crate) fn tree_entries<'a>(tree: &'a git2::Tree<'_>) -> (entries: Vec<git2::TreeEntry<'a>>)
    ensures
        entries@ == entries_of(*tree),
{
    tree.iter().collect()
}

/// `git2::TreeEntry::name_bytes`: a copy of the name of an entry.
#[verifier::external_body]
pub(crate) fn tree_entry_name(entry: &git2::TreeEntry<'_>) -> (name: Vec<u8>)
    ensures
        name@ == entry_name(*entry),
{
    entry.name_bytes().to_vec()
}

/// `git2::TreeEntry::id`: the id of the object that an entry points to.
#[verifier::external_body]
pub(crate) fn tree_entry_id(entry: &git2::TreeEntry<'_>) -> (oid: git2::Oid)
    ensures
        oid_bytes(oid) == entry_oid(*entry),
{
    entry.id()
}

/// `git2::TreeEntry::kind`: the kind of object that an entry points to.
#[verifier::external_body]
pub(crate) fn tree_entry_kind(entry: &git2::TreeEntry<'_>) -> (kind: Option<git2::ObjectType>)
    ensures
        kind == entry_kind(*entry),
{
    entry.kind()
}

/// `git2::TreeEntry::filemode`: the file mode of an entry.
#[verifier::external_body]
pub(crate) fn tree_entry_filemode(entry: &git2::TreeEntry<'_>) -> (mode: i32)
    ensures
        mode == entry_filemode(*entry),
{
    entry.filemode()
}

/// `git2::TreeEntry::to_object`: the object that an entry points to, which
/// is looked up by the id that the entry holds and has that id.
#[verifier::external_body]
pub(crate) fn tree_entry_object<'a>(
    entry: &git2::TreeEntry<'_>,
    repo: &'a git2::Repository,
) -> (r: Result<git2::Object<'a>, git2::Error>)
    ensures
        r matches Ok(object) ==> object_oid(object) == entry_oid(*entry),
{
    entry.to_object(repo)
}

/// `git2::Tree::walk` in pre-order, with `visit_entry` as the visitor. The
/// walk hands the visitor the prefix of the tree in which an entry stands:
/// nothing at the top, and below it the names of the trees on the way, each
/// followed by a `/`. It reaches the notes only through the visitor, so
/// what every visit keeps still holds after the walk: the notes are for the
/// same as before, a search has found something only at the path searched
/// for, and what was found or taken down stands under such prefixes.
#[verifier::external_body]
pub(crate) fn walk_tree(tree: &git2::Tree<'_>, repo: &git2::Repository, notes: &mut WalkNotes)
    requires
        old(notes).wf(),
    ensures
        final(notes).wf(),
        final(notes).same_purpose(old(notes)),
{
    tree.walk(git2::TreeWalkMode::PreOrder, |root, entry| visit_entry(notes, repo, root, entry))
        .unwrap_or_default();
}

/// `git2::Repository::statuses` with the default options: the status of the
/// working tree and the index.
#[verifier::external_body]
pub(crate) fn repository_statuses<'a>(repo: &'a git2::Repository) -> (r: Result<
    git2::Statuses<'a>,
    git2::Error,
>) {
    repo.statuses(None)
}

/// The entries that a status listing holds, in its order: what
/// `git2::Statuses::iter` gives.
pub uninterp spec fn status_entries_of(statuses: git2::Statuses<'_>) -> Seq<git2::StatusEntry<'_>>;

/// `git2::Statuses::iter`: the entries of a status listing, in its order.
#[verifier::external_body]
pub(crate) fn status_entries<'a>(statuses: &'a git2::Statuses<'_>) -> (entries: Vec<
    git2::StatusEntry<'a>,
>)
    ensures
        entries@ == status_entries_of(*statuses),
{
    statuses.iter().collect()
}

/// The path that a status entry holds, in bytes: what
/// `git2::StatusEntry::path_bytes` gives.
pub uninterp spec fn status_path_of(entry: git2::StatusEntry<'_>) -> Seq<u8>;

/// `git2::StatusEntry::path_bytes`: a copy of the path of a status entry.
#[verifier::external_body]
pub(crate) fn status_entry_path(entry: &git2::StatusEntry<'_>) -> (path: Vec<u8>)
    ensures
        path@ == status_path_of(*entry),
{
    entry.path_bytes().to_vec()
}

/// The status flags that a status entry holds: what
/// `git2::StatusEntry::status` gives.
pub uninterp spec fn status_of(entry: git2::StatusEntry<'_>) -> git2::Status;

/// `git2::StatusEntry::status`: the status flags of a status entry.
#[verifier::external_body]
pub(crate) fn status_entry_status(entry: &git2::StatusEntry<'_>) -> (status: git2::Status)
    ensures
        status == status_of(*entry),
{
    entry.status()
}

/// The status flags as a number: what `git2::Status::bits` gives.
pub uninterp spec fn bits_of(status: git2::Status) -> u32;

/// `git2::Status::bits`: the status flags as a number.
#[verifier::external_body]
pub(crate) fn status_bits(status: &git2::Status) -> (bits: u32)
    ensures
        bits == bits_of(*status),
{
    status.bits()
}

/// The names that git2 has for the status flags that are set in `bits`, in
/// the order in which git2 declares the flags.
pub uninterp spec fn flag_names(bits: u32) -> Seq<Seq<char>>;

/// `git2::Status::iter_names` on what `git2::Status::from_bits_truncate`
/// makes of `bits`: the names of the flags that are set.
#[verifier::external_body]
pub(crate) fn status_names(bits: u32) -> (names: Vec<String>)
    ensures
        names.deep_view() == flag_names(bits),
{
    git2::Status::from_bits_truncate(bits).iter_names().map(|(name, _)| name.to_string()).collect()
}

/// `git2::Repository::branches` without a filter: the branches that the
/// backend can read, each with its type.
#[verifier::external_body]
pub(crate) fn repository_branches<'a>(repo: &'a git2::Repository) -> (r: Result<
    Vec<(git2::Branch<'a>, git2::BranchType)>,
    git2::Error,
>) {
    Ok(repo.branches(None)?.flatten().collect())
}

/// The reference of a branch: what `git2::Branch::get` gives.
pub uninterp spec fn branch_reference_of(branch: git2::Branch<'_>) -> git2::Reference<'_>;

/// `git2::Branch::get`: the reference of a branch.
#[verifier::external_body]
pub(crate) fn branch_reference<'a, 'repo>(branch: &'a git2::Branch<'repo>) -> (reference:
    &'a git2::Reference<'repo>)
    ensures
        *reference == branch_reference_of(*branch),
{
    branch.get()
}

/// The short name of a branch, in bytes, where the backend gives one: what
/// `git2::Branch::name_bytes` gives.
pub uninterp spec fn branch_name_of(branch: git2::Branch<'_>) -> Option<Seq<u8>>;

/// `git2::Branch::name_bytes`: a copy of the short name of a branch, where
/// the backend gives one.
#[verifier::external_body]
pub(crate) fn branch_name(branch: &git2::Branch<'_>) -> (name: Option<Vec<u8>>)
    ensures
        given_bytes(name) == branch_name_of(*branch),
{
    branch.name_bytes().ok().map(|bytes| bytes.to_vec())
}

/// `git2::Branch::upstream`: the branch that a branch tracks, where it
/// tracks one.
#[verifier::external_body]
pub(crate) fn branch_upstream<'repo>(branch: &git2::Branch<'repo>) -> (upstream: Option<
    git2::Branch<'repo>,
>) {
    branch.upstream().ok()
}

/// The full name of a reference, in bytes: what
/// `git2::Reference::name_bytes` gives.
pub uninterp spec fn reference_name_of(reference: git2::Reference<'_>) -> Seq<u8>;

/// `git2::Reference::name_bytes`: a copy of the full name of a reference.
#[verifier::external_body]
pub(crate) fn reference_name(reference: &git2::Reference<'_>) -> (name: Vec<u8>)
    ensures
        name@ == reference_name_of(*reference),
{
    reference.name_bytes().to_vec()
}

/// The short name of a reference, in bytes: what
/// `git2::Reference::shorthand_bytes` gives.
pub uninterp spec fn reference_shorthand_of(reference: git2::Reference<'_>) -> Seq<u8>;

/// `git2::Reference::shorthand_bytes`: a copy of the short name of a reference.
#[verifier::external_body]
pub(crate) fn reference_shorthand(reference: &git2::Reference<'_>) -> (name: Vec<u8>)
    ensures
        name@ == reference_shorthand_of(*reference),
{
    reference.shorthand_bytes().to_vec()
}

/// Whether a reference is direct or symbolic: what `git2::Reference::kind`
/// gives.
pub uninterp spec fn reference_kind_of(reference: git2::Reference<'_>) -> Option<git2::ReferenceType>;

/// `git2::Reference::kind`: whether a reference is direct or symbolic.
#[verifier::external_body]
pub(crate) fn reference_kind(reference: &git2::Reference<'_>) -> (kind: Option<
    git2::ReferenceType,
>)
    ensures
        kind == reference_kind_of(*reference),
{
    reference.kind()
}

/// `git2::Reference::resolve`: the direct reference that a reference leads
/// to, where the backend finds one.
#[verifier::external_body]
pub(crate) fn reference_resolve<'repo>(reference: &git2::Reference<'repo>) -> (direct: Option<
    git2::Reference<'repo>,
>) {
    reference.resolve().ok()
}

/// The id that a reference points to, where it is direct: what
/// `git2::Reference::target` gives.
pub uninterp spec fn reference_target_of(reference: git2::Reference<'_>) -> Option<git2::Oid>;

/// `git2::Reference::target`: the id that a direct reference points to.
#[verifier::external_body]
pub(crate) fn reference_target(reference: &git2::Reference<'_>) -> (target: Option<git2::Oid>)
    ensures
        target == reference_target_of(*reference),
{
    reference.target()
}

/// The id of a commit: the bytes of what `git2::Commit::id` gives.
pub uninterp spec fn commit_oid(commit: git2::Commit<'_>) -> Seq<u8>;

/// `git2::Commit::as_object`: the commit as an object, under the same id.
#[verifier::external_body]
pub(crate) fn commit_as_object<'a, 'repo>(commit: &'a git2::Commit<'repo>) -> (object:
    &'a git2::Object<'repo>)
    ensures
        object_oid(*object) == commit_oid(*commit),
{
    commit.as_object()
}

/// `git2::Repository::revwalk`: a walk through the history, not yet started.
#[verifier::external_body]
pub(crate) fn repository_revwalk<'a>(repo: &'a git2::Repository) -> (r: Result<
    git2::Revwalk<'a>,
    git2::Error,
>) {
    repo.revwalk()
}

/// `git2::Revwalk::push_head`: starts the walk at HEAD.
#[verifier::external_body]
pub(crate) fn revwalk_push_head(walk: &mut git2::Revwalk<'_>) -> (r: Result<(), git2::Error>) {
    walk.push_head()
}

/// `Iterator::next` of `git2::Revwalk`, to the end: the ids that a walk
/// through the history gives, in its order, without those that the backend
/// fails to give.
#[verifier::external_body]
pub(crate) fn revwalk_ids(walk: git2::Revwalk<'_>) -> (ids: Vec<git2::Oid>) {
    walk.flatten().collect()
}

/// `git2::Repository::find_commit`: the commit with an id, where the backend
/// finds it. A commit that is found is the one with the id asked for.
#[verifier::external_body]
pub(crate) fn find_commit<'a>(repo: &'a git2::Repository, oid: git2::Oid) -> (commit: Option<
    git2::Commit<'a>,
>)
    ensures
        commit matches Some(found) ==> commit_oid(found) == oid_bytes(oid),
{
    repo.find_commit(oid).ok()
}

/// The author of a commit: what `git2::Commit::author` gives.
pub uninterp spec fn author_of(commit: git2::Commit<'_>) -> git2::Signature<'_>;

/// `git2::Commit::author`: the author of a commit.
#[verifier::external_body]
pub(crate) fn commit_author<'a>(commit: &'a git2::Commit<'_>) -> (author: git2::Signature<'a>)
    ensures
        author == author_of(*commit),
{
    commit.author()
}

/// The committer of a commit: what `git2::Commit::committer` gives.
pub uninterp spec fn committer_of(commit: git2::Commit<'_>) -> git2::Signature<'_>;

/// `git2::Commit::committer`: the committer of a commit.
#[verifier::external_body]
pub(crate) fn commit_committer<'a>(commit: &'a git2::Commit<'_>) -> (committer: git2::Signature<
    'a,
>)
    ensures
        committer == committer_of(*commit),
{
    commit.committer()
}

/// The message of a commit, in bytes: what `git2::Commit::message_bytes`
/// gives.
pub uninterp spec fn message_bytes_of(commit: git2::Commit<'_>) -> Seq<u8>;

/// `git2::Commit::message_bytes`: a copy of the message of a commit.
#[verifier::external_body]
pub(crate) fn commit_message(commit: &git2::Commit<'_>) -> (message: Vec<u8>)
    ensures
        message@ == message_bytes_of(*commit),
{
    commit.message_bytes().to_vec()
}

/// The time of a commit: what `git2::Commit::time` gives.
pub uninterp spec fn time_of(commit: git2::Commit<'_>) -> git2::Time;

/// `git2::Commit::time`: the time of a commit.
#[verifier::external_body]
pub(crate) fn commit_time(commit: &git2::Commit<'_>) -> (time: git2::Time)
    ensures
        time == time_of(*commit),
{
    commit.time()
}

/// The e-mail address that a signature holds, in bytes: what
/// `git2::Signature::email_bytes` gives.
pub uninterp spec fn email_of(signature: git2::Signature<'_>) -> Seq<u8>;

/// The name that a signature holds, in bytes: what
/// `git2::Signature::name_bytes` gives.
pub uninterp spec fn name_of(signature: git2::Signature<'_>) -> Seq<u8>;

/// `git2::Signature::email_bytes`: a copy of the e-mail address of a signature.
#[verifier::external_body]
pub(crate) fn signature_email(signature: &git2::Signature<'_>) -> (email: Vec<u8>)
    ensures
        email@ == email_of(*signature),
{
    signature.email_bytes().to_vec()
}

/// `git2::Signature::name_bytes`: a copy of the name of a signature.
#[verifier::external_body]
pub(crate) fn signature_name(signature: &git2::Signature<'_>) -> (name: Vec<u8>)
    ensures
        name@ == name_of(*signature),
{
    signature.name_bytes().to_vec()
}

/// The seconds since the epoch that a time holds: what `git2::Time::seconds`
/// gives.
pub uninterp spec fn seconds_of(time: git2::Time) -> i64;

/// `git2::Time::seconds`: the seconds since the epoch.
#[verifier::external_body]
pub(crate) fn time_seconds(time: &git2::Time) -> (seconds: i64)
    ensures
        seconds == seconds_of(*time),
{
    time.seconds()
}

/// The offset of the time zone that a time holds, in minutes: what
/// `git2::Time::offset_minutes` gives.
pub uninterp spec fn offset_minutes_of(time: git2::Time) -> i32;

/// `git2::Time::offset_minutes`: the offset of the time zone, in minutes.
#[verifier::external_body]
pub(crate) fn time_offset_minutes(time: &git2::Time) -> (minutes: i32)
    ensures
        minutes == offset_minutes_of(*time),
{
    time.offset_minutes()
}

/// `git2::Repository::references`: the references that the backend can read.
#[verifier::external_body]
pub(crate) fn repository_references<'a>(repo: &'a git2::Repository) -> (r: Result<
    Vec<git2::Reference<'a>>,
    git2::Error,
>) {
    Ok(repo.references()?.flatten().collect())
}

/// `git2::Repository::remotes`: the names of the remotes.
#[verifier::external_body]
pub(crate) fn repository_remotes(repo: &git2::Repository) -> (r: Result<
    git2::string_array::StringArray,
    git2::Error,
>) {
    repo.remotes()
}

/// The strings that an array holds, in bytes and in its order: what
/// `git2::string_array::StringArray::iter_bytes` gives.
pub uninterp spec fn strings_of(array: git2::string_array::StringArray) -> Seq<Seq<u8>>;

/// `git2::string_array::StringArray::iter_bytes`: copies of the strings of
/// an array, in its order.
#[verifier::external_body]
pub(crate) fn string_array_bytes(array: &git2::string_array::StringArray) -> (strings: Vec<
    Vec<u8>,
>)
    ensures
        strings@.len() == strings_of(*array).len(),
        forall|i: int| 0 <= i < strings@.len() ==> (#[trigger] strings@[i])@ == strings_of(*array)[i],
{
    array.iter_bytes().map(|bytes| bytes.to_vec()).collect()
}

/// `git2::Repository::find_remote`: the remote with a name, where the
/// backend finds it.
#[verifier::external_body]
pub(crate) fn find_remote<'a>(repo: &'a git2::Repository, name: &str) -> (remote: Option<
    git2::Remote<'a>,
>) {
    repo.find_remote(name).ok()
}

/// The URL that a remote holds, in bytes: what `git2::Remote::url_bytes`
/// gives.
pub uninterp spec fn url_of(remote: git2::Remote<'_>) -> Seq<u8>;

/// `git2::Remote::url_bytes`: a copy of the URL of a remote.
#[verifier::external_body]
pub(crate) fn remote_url(remote: &git2::Remote<'_>) -> (url: Vec<u8>)
    ensures
        url@ == url_of(*remote),
{
    remote.url_bytes().to_vec()
}

/// `git2::Repository::find_reference`: the reference with a name, where the
/// backend finds it.
#[verifier::external_body]
pub(crate) fn find_reference<'a>(repo: &'a git2::Repository, name: &str) -> (reference: Option<
    git2::Reference<'a>,
>) {
    repo.find_reference(name).ok()
}

/// `git2::Repository::tag_foreach`, with `visit_tag` as the visitor. The
/// backend reaches the tags only through the visitor, so what every visit
/// keeps still holds afterwards: every tag has the short name of some
/// reference and carries an abbreviated id.
#[verifier::external_body]
pub(crate) fn each_tag(repo: &git2::Repository, tags: &mut Vec<GitTag>) -> (r: Result<
    (),
    git2::Error,
>)
    requires
        are_tag_lines(old(tags)@),
    ensures
        are_tag_lines(final(tags)@),
{
    repo.tag_foreach(|oid, name| visit_tag(tags, repo, oid, name))
}

/// The offset, in seconds, that `time::UtcOffset::from_hms` makes of so many
/// hours and minutes and no seconds. It takes hours up to twenty-five and
/// minutes up to fifty-nine either way, gives the minutes the sign of the
/// hours where the two differ, and refuses anything else.
pub open spec fn hms_offset(hours: i8, minutes: i8) -> Option<i32> {
    if -25 <= hours <= 25 && -59 <= minutes <= 59 {
        let signed: int = if (hours > 0 && minutes < 0) || (hours < 0 && minutes > 0) {
            -minutes
        } else {
            minutes as int
        };
        Some((3600 * hours + 60 * signed) as i32)
    } else {
        None
    }
}

/// `time::UtcOffset::from_hms` with no seconds, and
/// `time::UtcOffset::whole_seconds` of the offset that it gives.
#[verifier::external_body]
pub(crate) fn offset_seconds(hours: i8, minutes: i8) -> (seconds: Option<i32>)
    ensures
        seconds == hms_offset(hours, minutes),
{
    time::UtcOffset::from_hms(hours, minutes, 0).ok().map(|offset| offset.whole_seconds())
}

/// The first second that the time crate holds, in seconds after the epoch:
/// midnight on the first day of the year -9999. The crate is built without
/// its feature for larger dates, which would widen the range.
pub open spec fn first_second() -> int {
    -377_705_116_800
}

/// The last second that the time crate holds, in seconds after the epoch:
/// the last second of the year 9999.
pub open spec fn last_second() -> int {
    253_402_300_799
}

/// Whether the time crate holds the moment so many seconds after the epoch.
pub open spec fn holds_timestamp(seconds: i64) -> bool {
    first_second() <= seconds <= last_second()
}

/// `time::OffsetDateTime::from_unix_timestamp`: it holds the moment so many
/// seconds after the epoch where the moment lies in the years that the
/// crate holds, and refuses every other.
#[verifier::external_body]
pub(crate) fn holds(seconds: i64) -> (held: bool)
    ensures
        held == holds_timestamp(seconds),
{
    time::OffsetDateTime::from_unix_timestamp(seconds).is_ok()
}

/// Whether the moment so many seconds after the epoch can be shown at the
/// offset of so many seconds: the time crate holds the moment, it has the
/// offset, which is less than twenty-six hours either way, and the local
/// time at the offset still lies in the years that it holds.
pub open spec fn shows_at(seconds: i64, offset_seconds: i32) -> bool {
    &&& holds_timestamp(seconds)
    &&& -93_599 <= offset_seconds <= 93_599
    &&& first_second() <= seconds + offset_seconds <= last_second()
}

/// `time::OffsetDateTime::checked_to_offset` on what
/// `time::OffsetDateTime::from_unix_timestamp` makes of the seconds and
/// `time::UtcOffset::from_whole_seconds` of the offset. The first refuses a
/// moment outside the years that the crate holds, the second an offset of
/// twenty-six hours or more, and the conversion gives nothing where the
/// year of the local time at the offset is outside those years.
#[verifier::external_body]
pub(crate) fn shows(seconds: i64, offset_seconds: i32) -> (shown: bool)
    ensures
        shown == shows_at(seconds, offset_seconds),
{
    let at = time::OffsetDateTime::from_unix_timestamp(seconds);
    let offset = time::UtcOffset::from_whole_seconds(offset_seconds);
    match (at, offset) {
        (Ok(at), Ok(offset)) => at.checked_to_offset(offset).is_some(),
        _ => false,
    }
}

} // verus!
