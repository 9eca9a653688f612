use crate::backend::{flag_names, status_names};
use crate::datetime::CommitMoment;
use crate::oid::GitOid;
use crate::text::{given_bytes, text_of, text_or_empty, MaybeLossyUtf8};
use vstd::std_specs::convert::FromSpec;
use vstd::prelude::*;

verus! {

/// What a blob holds: bytes as they are where the store takes the blob for
/// binary, the text that the bytes stand for where it does not.
#[derive(Debug)]
pub enum GitBlobContent {
    Binary(Vec<u8>),
    Text(MaybeLossyUtf8),
}

/// The content of a blob as bytes or as characters.
pub enum GitBlobContentView {
    Binary(Seq<u8>),
    Text(Seq<char>),
}

impl View for GitBlobContent {
    type V = GitBlobContentView;

    open spec fn view(&self) -> GitBlobContentView {
        match self {
            GitBlobContent::Binary(bytes) => GitBlobContentView::Binary(bytes@),
            GitBlobContent::Text(text) => GitBlobContentView::Text(text@),
        }
    }
}

/// The content of a blob of the given bytes, taken for binary or not.
pub open spec fn content_of(is_binary: bool, bytes: Seq<u8>) -> GitBlobContentView {
    if is_binary {
        GitBlobContentView::Binary(bytes)
    } else {
        GitBlobContentView::Text(text_of(bytes))
    }
}

impl GitBlobContent {
    /// The content of a blob of the given bytes. Whether a blob is binary is
    /// the store's judgement and is taken as given.
    pub fn classify(is_binary: bool, bytes: Vec<u8>) -> (content: Self)
        ensures
            content@ == content_of(is_binary, bytes@),
    {
        if is_binary {
            GitBlobContent::Binary(bytes)
        } else {
            GitBlobContent::Text(MaybeLossyUtf8::from_bytes(bytes.as_slice()))
        }
    }
}

/// A blob of the store.
#[derive(Debug)]
pub struct GitBlob {
    pub content: GitBlobContent,
    pub id: GitOid,
    pub is_binary: bool,
    pub short_id: String,
    pub size: usize,
}

/// A blob with its texts as characters and its id as bytes.
pub struct GitBlobView {
    pub content: GitBlobContentView,
    pub id: Seq<u8>,
    pub is_binary: bool,
    pub short_id: Seq<char>,
    pub size: usize,
}

impl View for GitBlob {
    type V = GitBlobView;

    open spec fn view(&self) -> GitBlobView {
        GitBlobView {
            content: self.content@,
            id: self.id@,
            is_binary: self.is_binary,
            short_id: self.short_id@,
            size: self.size,
        }
    }
}

impl GitBlobView {
    /// The content is held as bytes exactly where the blob is binary.
    pub open spec fn consistent(self) -> bool {
        self.is_binary <==> self.content is Binary
    }
}

impl GitBlob {
    /// The blob with the given id, abbreviated id, size and bytes, taken for
    /// binary or not.
    pub fn new(id: GitOid, short_id: String, size: usize, is_binary: bool, bytes: Vec<u8>) -> (blob:
        Self)
        ensures
            blob@ == (GitBlobView {
                content: content_of(is_binary, bytes@),
                id: id@,
                is_binary: is_binary,
                short_id: short_id@,
                size: size,
            }),
            blob@.consistent(),
    {
        GitBlob { content: GitBlobContent::classify(is_binary, bytes), id, is_binary, short_id, size }
    }
}

/// The kinds of object that an entry of a tree can point to.
#[derive(Clone, Copy, Debug, PartialEq, Eq, Structural)]
pub enum GitObjectType {
    Any,
    Blob,
    Commit,
    Tag,
    Tree,
}

impl vstd::std_specs::convert::FromSpecImpl<git2::ObjectType> for GitObjectType {
    open spec fn obeys_from_spec() -> bool {
        true
    }

    open spec fn from_spec(t: git2::ObjectType) -> Self {
        match t {
            git2::ObjectType::Any => GitObjectType::Any,
            git2::ObjectType::Blob => GitObjectType::Blob,
            git2::ObjectType::Commit => GitObjectType::Commit,
            git2::ObjectType::Tag => GitObjectType::Tag,
            git2::ObjectType::Tree => GitObjectType::Tree,
        }
    }
}

impl From<git2::ObjectType> for GitObjectType {
    fn from(t: git2::ObjectType) -> (kind: Self) {
        match t {
            git2::ObjectType::Any => GitObjectType::Any,
            git2::ObjectType::Blob => GitObjectType::Blob,
            git2::ObjectType::Commit => GitObjectType::Commit,
            git2::ObjectType::Tag => GitObjectType::Tag,
            git2::ObjectType::Tree => GitObjectType::Tree,
        }
    }
}

/// Whether a branch is of this repository or of a remote.
#[derive(Clone, Copy, Debug, PartialEq, Eq, Structural)]
pub enum GitBranchType {
    Local,
    Remote,
}

impl vstd::std_specs::convert::FromSpecImpl<git2::BranchType> for GitBranchType {
    open spec fn obeys_from_spec() -> bool {
        true
    }

    open spec fn from_spec(t: git2::BranchType) -> Self {
        match t {
            git2::BranchType::Local => GitBranchType::Local,
            git2::BranchType::Remote => GitBranchType::Remote,
        }
    }
}

impl From<git2::BranchType> for GitBranchType {
    fn from(t: git2::BranchType) -> (kind: Self) {
        match t {
            git2::BranchType::Local => GitBranchType::Local,
            git2::BranchType::Remote => GitBranchType::Remote,
        }
    }
}

/// Whether a reference names an object or another reference.
#[derive(Clone, Copy, Debug, PartialEq, Eq, Structural)]
pub enum GitReferenceType {
    Direct,
    Symbolic,
}

impl vstd::std_specs::convert::FromSpecImpl<git2::ReferenceType> for GitReferenceType {
    open spec fn obeys_from_spec() -> bool {
        true
    }

    open spec fn from_spec(t: git2::ReferenceType) -> Self {
        match t {
            git2::ReferenceType::Direct => GitReferenceType::Direct,
            git2::ReferenceType::Symbolic => GitReferenceType::Symbolic,
        }
    }
}

impl From<git2::ReferenceType> for GitReferenceType {
    fn from(t: git2::ReferenceType) -> (kind: Self) {
        match t {
            git2::ReferenceType::Direct => GitReferenceType::Direct,
            git2::ReferenceType::Symbolic => GitReferenceType::Symbolic,
        }
    }
}

/// The branch that a branch tracks.
#[derive(Debug)]
pub struct GitUpstream {
    pub name: MaybeLossyUtf8,
    pub shorthand: MaybeLossyUtf8,
    pub target: GitOid,
    pub target_short: String,
}

/// A branch.
#[derive(Debug)]
pub struct GitBranch {
    pub kind: GitBranchType,
    pub name: MaybeLossyUtf8,
    pub shorthand: MaybeLossyUtf8,
    pub target: GitOid,
    pub target_short: String,
    pub upstream: Option<GitUpstream>,
}

/// The kind of a branch as the library names it.
pub open spec fn branch_kind(kind: git2::BranchType) -> GitBranchType {
    GitBranchType::from_spec(kind)
}

/// The kind of a reference as the library names it, where it has one.
pub open spec fn reference_kind_as(kind: Option<git2::ReferenceType>) -> Option<GitReferenceType> {
    match kind {
        Some(kind) => Some(GitReferenceType::from_spec(kind)),
        None => None,
    }
}

impl GitUpstream {
    /// The tracked branch with the full name `name`, the short name
    /// `shorthand`, which is empty where none is given, and the id and
    /// abbreviated id given.
    pub fn from_parts(
        name: &[u8],
        shorthand: Option<Vec<u8>>,
        target: GitOid,
        target_short: String,
    ) -> (line: Self)
        ensures
            line.name@ == text_of(name@),
            line.shorthand@ == text_or_empty(given_bytes(shorthand)),
            line.target@ == target@,
            line.target_short@ == target_short@,
    {
        GitUpstream {
            name: MaybeLossyUtf8::from_bytes(name),
            shorthand: MaybeLossyUtf8::from_bytes_or_empty(shorthand),
            target,
            target_short,
        }
    }
}

impl GitBranch {
    /// The branch of the kind `kind` with the full name `name`, the short
    /// name `shorthand`, which is empty where none is given, the id and
    /// abbreviated id given, and the branch that it tracks.
    pub fn from_parts(
        kind: git2::BranchType,
        name: &[u8],
        shorthand: Option<Vec<u8>>,
        target: GitOid,
        target_short: String,
        upstream: Option<GitUpstream>,
    ) -> (line: Self)
        ensures
            line.kind == branch_kind(kind),
            line.name@ == text_of(name@),
            line.shorthand@ == text_or_empty(given_bytes(shorthand)),
            line.target@ == target@,
            line.target_short@ == target_short@,
            line.upstream == upstream,
    {
        GitBranch {
            kind: GitBranchType::from(kind),
            name: MaybeLossyUtf8::from_bytes(name),
            shorthand: MaybeLossyUtf8::from_bytes_or_empty(shorthand),
            target,
            target_short,
            upstream,
        }
    }
}

/// Who made a commit, or who committed it.
#[derive(Debug)]
pub struct GitSignature {
    pub email: MaybeLossyUtf8,
    pub name: MaybeLossyUtf8,
}

impl GitSignature {
    /// The signature with the given e-mail address and name.
    pub fn from_bytes(email: &[u8], name: &[u8]) -> (signature: Self)
        ensures
            signature.email@ == text_of(email@),
            signature.name@ == text_of(name@),
    {
        GitSignature {
            email: MaybeLossyUtf8::from_bytes(email),
            name: MaybeLossyUtf8::from_bytes(name),
        }
    }
}

/// A commit.
#[derive(Debug)]
pub struct GitCommit {
    pub author: GitSignature,
    pub committer: GitSignature,
    pub id: GitOid,
    pub message: MaybeLossyUtf8,
    pub short_id: String,
    pub time: CommitMoment,
}

impl GitCommit {
    /// The commit with the author, committer, id, abbreviated id and time
    /// given and the message that `message` stands for.
    pub fn from_parts(
        author: GitSignature,
        committer: GitSignature,
        id: GitOid,
        short_id: String,
        message: &[u8],
        time: CommitMoment,
    ) -> (line: Self)
        ensures
            line.author == author,
            line.committer == committer,
            line.id@ == id@,
            line.short_id@ == short_id@,
            line.message@ == text_of(message@),
            line.time == time,
    {
        GitCommit {
            author,
            committer,
            id,
            message: MaybeLossyUtf8::from_bytes(message),
            short_id,
            time,
        }
    }
}

/// A reference.
#[derive(Debug)]
pub struct GitReference {
    pub kind: Option<GitReferenceType>,
    pub name: MaybeLossyUtf8,
    pub shorthand: MaybeLossyUtf8,
    pub target: GitOid,
    pub target_short: String,
}

impl GitReference {
    /// The reference of the kind `kind` with the full name `name`, the short
    /// name `shorthand`, and the id and abbreviated id given.
    pub fn from_parts(
        kind: Option<git2::ReferenceType>,
        name: &[u8],
        shorthand: &[u8],
        target: GitOid,
        target_short: String,
    ) -> (line: Self)
        ensures
            line.kind == reference_kind_as(kind),
            line.name@ == text_of(name@),
            line.shorthand@ == text_of(shorthand@),
            line.target@ == target@,
            line.target_short@ == target_short@,
    {
        let kind = match kind {
            Some(kind) => Some(GitReferenceType::from(kind)),
            None => None,
        };
        GitReference {
            kind,
            name: MaybeLossyUtf8::from_bytes(name),
            shorthand: MaybeLossyUtf8::from_bytes(shorthand),
            target,
            target_short,
        }
    }
}

/// A remote.
#[derive(Debug)]
pub struct GitRemote {
    pub name: MaybeLossyUtf8,
    pub url: MaybeLossyUtf8,
}

impl GitRemote {
    /// The remote of the name given, with the URL that `url` stands for,
    /// which is empty where none is given.
    pub fn from_parts(name: MaybeLossyUtf8, url: Option<Vec<u8>>) -> (line: Self)
        ensures
            line.name@ == name@,
            line.url@ == text_or_empty(given_bytes(url)),
    {
        GitRemote { name, url: MaybeLossyUtf8::from_bytes_or_empty(url) }
    }
}

/// The status flags of a path, as the bits that the backend sets for them.
#[derive(Clone, Copy, Debug, PartialEq, Eq)]
pub struct GitStatusFlag(pub u32);

impl GitStatusFlag {
    /// The names of the flags that are set.
    pub fn names(&self) -> (names: Vec<String>)
        ensures
            names.deep_view() == flag_names(self.0),
    {
        status_names(self.0)
    }
}

/// The status of a path of the working tree or the index.
#[derive(Debug)]
pub struct GitStatus {
    pub path: MaybeLossyUtf8,
    pub status: GitStatusFlag,
    pub status_bits: u32,
}

impl GitStatus {
    /// The status of the path that `path` stands for, with the flags that
    /// are set in `bits`, both as flags and as a number.
    pub fn from_parts(path: &[u8], bits: u32) -> (line: Self)
        ensures
            line.path@ == text_of(path@),
            line.status.0 == bits,
            line.status_bits == bits,
    {
        GitStatus { path: MaybeLossyUtf8::from_bytes(path), status: GitStatusFlag(bits), status_bits: bits }
    }
}

/// A tag.
#[derive(Debug)]
pub struct GitTag {
    pub name: MaybeLossyUtf8,
    pub shorthand: MaybeLossyUtf8,
    pub target: GitOid,
    pub target_short: String,
}

impl GitTag {
    /// The tag of the name given, with the short name that `shorthand`
    /// stands for and the id and abbreviated id given.
    pub fn from_parts(
        name: MaybeLossyUtf8,
        shorthand: &[u8],
        target: GitOid,
        target_short: String,
    ) -> (line: Self)
        ensures
            line.name@ == name@,
            line.shorthand@ == text_of(shorthand@),
            line.target@ == target@,
            line.target_short@ == target_short@,
    {
        GitTag { name, shorthand: MaybeLossyUtf8::from_bytes(shorthand), target, target_short }
    }
}

/// One line of a listing of a tree: an entry of the tree, with the directory
/// prefix under which it stands.
#[derive(Debug)]
pub struct GitTree {
    pub filemode: i32,
    pub id: GitOid,
    pub kind: Option<GitObjectType>,
    pub name: MaybeLossyUtf8,
    pub root: String,
    pub short_id: String,
}

/// A line of a tree listing with its texts as characters and its id as bytes.
pub struct GitTreeView {
    pub filemode: i32,
    pub id: Seq<u8>,
    pub kind: Option<GitObjectType>,
    pub name: Seq<char>,
    pub root: Seq<char>,
    pub short_id: Seq<char>,
}

impl View for GitTree {
    type V = GitTreeView;

    open spec fn view(&self) -> GitTreeView {
        GitTreeView {
            filemode: self.filemode,
            id: self.id@,
            kind: self.kind,
            name: self.name@,
            root: self.root@,
            short_id: self.short_id@,
        }
    }
}

impl DeepView for GitTree {
    type V = GitTreeView;

    open spec fn deep_view(&self) -> GitTreeView {
        self@
    }
}

impl GitTreeView {
    /// The full path of the line: the prefix and the name.
    pub open spec fn full_path(self) -> Seq<char> {
        self.root + self.name
    }

    /// The line with an empty abbreviated id.
    pub open spec fn unabbreviated(self) -> GitTreeView {
        GitTreeView { short_id: Seq::empty(), ..self }
    }
}

/// A directory of the staged index. The index stores no directories: one is
/// listed wherever an entry lies deeper than the level asked for.
#[derive(Debug)]
pub struct GitIndexDirectory {
    pub name: MaybeLossyUtf8,
    pub path: MaybeLossyUtf8,
}

/// A directory of the index with its texts as characters.
pub struct GitIndexDirectoryView {
    pub name: Seq<char>,
    pub path: Seq<char>,
}

impl View for GitIndexDirectory {
    type V = GitIndexDirectoryView;

    open spec fn view(&self) -> GitIndexDirectoryView {
        GitIndexDirectoryView { name: self.name@, path: self.path@ }
    }
}

/// A file of the staged index.
#[derive(Debug)]
pub struct GitIndexEntry {
    pub ctime: i32,
    pub file_size: u32,
    pub gid: u32,
    pub id: GitOid,
    pub mode: u32,
    pub mtime: i32,
    pub name: MaybeLossyUtf8,
    pub path: MaybeLossyUtf8,
    pub short_id: String,
    pub uid: u32,
}

/// A file of the index with its texts as characters and its id as bytes.
pub struct GitIndexEntryView {
    pub ctime: i32,
    pub file_size: u32,
    pub gid: u32,
    pub id: Seq<u8>,
    pub mode: u32,
    pub mtime: i32,
    pub name: Seq<char>,
    pub path: Seq<char>,
    pub short_id: Seq<char>,
    pub uid: u32,
}

impl View for GitIndexEntry {
    type V = GitIndexEntryView;

    open spec fn view(&self) -> GitIndexEntryView {
        GitIndexEntryView {
            ctime: self.ctime,
            file_size: self.file_size,
            gid: self.gid,
            id: self.id@,
            mode: self.mode,
            mtime: self.mtime,
            name: self.name@,
            path: self.path@,
            short_id: self.short_id@,
            uid: self.uid,
        }
    }
}

/// One line of a listing of the staged index.
#[derive(Debug)]
pub enum GitIndex {
    Directory(GitIndexDirectory),
    Entry(GitIndexEntry),
}

/// A line of an index listing with its texts as characters.
pub enum GitIndexView {
    Directory(GitIndexDirectoryView),
    Entry(GitIndexEntryView),
}

impl View for GitIndex {
    type V = GitIndexView;

    open spec fn view(&self) -> GitIndexView {
        match self {
            GitIndex::Directory(d) => GitIndexView::Directory(d@),
            GitIndex::Entry(e) => GitIndexView::Entry(e@),
        }
    }
}

impl DeepView for GitIndex {
    type V = GitIndexView;

    open spec fn deep_view(&self) -> GitIndexView {
        self@
    }
}

impl GitIndexView {
    /// The full path of the line.
    pub open spec fn full_path(self) -> Seq<char> {
        match self {
            GitIndexView::Directory(d) => d.path,
            GitIndexView::Entry(e) => e.path,
        }
    }

    /// The line with an empty abbreviated id.
    pub open spec fn unabbreviated(self) -> GitIndexView {
        match self {
            GitIndexView::Directory(d) => self,
            GitIndexView::Entry(e) => GitIndexView::Entry(
                GitIndexEntryView { short_id: Seq::empty(), ..e },
            ),
        }
    }
}

/// The lines with empty abbreviated ids.
pub open spec fn unabbreviated(lines: Seq<GitIndexView>) -> Seq<GitIndexView> {
    Seq::new(lines.len(), |i: int| lines[i].unabbreviated())
}

impl GitIndex {
    /// The full path of the line.
    pub fn full_path(&self) -> (path: &MaybeLossyUtf8)
        ensures
            path@ == self@.full_path(),
    {
        match self {
            GitIndex::Directory(d) => &d.path,
            GitIndex::Entry(e) => &e.path,
        }
    }
}

} // verus!
