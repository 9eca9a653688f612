use crate::model::{GitObjectType, GitTree, GitTreeView};
use crate::oid::GitOid;
use crate::path::{chars_of, normalized, same_chars, starts_with_dir, strip_trailing_slash};
use crate::text::{strict_text_of, strict_utf8, text_of, MaybeLossyUtf8};
use vstd::prelude::*;
use vstd::string::StringExecFns;

verus! {

/// One entry of a tree as the listing reads it.
#[derive(Debug)]
pub struct TreeRecord {
    /// The name as the tree stores it, in bytes.
    pub name: Vec<u8>,
    pub id: GitOid,
    pub kind: Option<GitObjectType>,
    pub filemode: i32,
}

/// An entry of a tree with its name and id as bytes.
pub struct TreeRecordView {
    pub name: Seq<u8>,
    pub id: Seq<u8>,
    pub kind: Option<GitObjectType>,
    pub filemode: i32,
}

impl View for TreeRecord {
    type V = TreeRecordView;

    open spec fn view(&self) -> TreeRecordView {
        TreeRecordView { name: self.name@, id: self.id@, kind: self.kind, filemode: self.filemode }
    }
}

impl TreeRecordView {
    /// The name by which a walk knows the entry: its text, read strictly.
    pub open spec fn walk_name(self) -> Seq<char> {
        strict_text_of(self.name)
    }

    /// Whether the entry points to a tree.
    pub open spec fn is_tree(self) -> bool {
        self.kind == Some(GitObjectType::Tree)
    }
}

/// The line for an entry that stands under the prefix `root`. Its
/// abbreviated id is left empty: only the object store can abbreviate an id.
pub open spec fn tree_line(entry: TreeRecordView, root: Seq<char>) -> GitTreeView {
    GitTreeView {
        filemode: entry.filemode,
        id: entry.id,
        kind: entry.kind,
        name: text_of(entry.name),
        root: root,
        short_id: Seq::empty(),
    }
}

impl TreeRecord {
    /// The name by which a walk knows the entry: empty where the stored name
    /// is not valid UTF-8.
    pub fn walk_name(&self) -> (name: String)
        ensures
            name@ == self@.walk_name(),
    {
        match strict_utf8(self.name.as_slice()) {
            Some(name) => name,
            None => String::new(),
        }
    }

    /// Whether the entry points to a tree.
    pub fn is_tree(&self) -> (b: bool)
        ensures
            b == self@.is_tree(),
    {
        match self.kind {
            Some(GitObjectType::Tree) => true,
            _ => false,
        }
    }

    /// The line for this entry under the prefix `root`.
    pub fn line(&self, root: &str) -> (line: GitTree)
        ensures
            line@ == tree_line(self@, root@),
    {
        GitTree {
            filemode: self.filemode,
            id: self.id,
            kind: self.kind,
            name: MaybeLossyUtf8::from_bytes(self.name.as_slice()),
            root: String::from_str(root),
            short_id: String::new(),
        }
    }
}

/// What a walk does after it has visited an entry.
#[derive(Clone, Copy, Debug, PartialEq, Eq, Structural)]
pub enum TreeStep {
    /// Go on, into the entry if it is a tree.
    Continue,
    /// Go on, but not into this tree.
    Skip,
    /// Stop: this entry is the one asked for.
    Found,
}

/// What a walk in search of `q` does at the entry `name` under `root`: it
/// stops at the entry whose path is `q`, and it stays out of every tree that
/// does not lie on the way to `q`.
pub open spec fn tree_step(q: Seq<char>, root: Seq<char>, name: Seq<char>, is_tree: bool) -> TreeStep {
    let here = root + name;
    if here == q {
        TreeStep::Found
    } else if is_tree && !here.push('/').is_prefix_of(q) {
        TreeStep::Skip
    } else {
        TreeStep::Continue
    }
}

/// `a` followed by `b`.
fn joined(a: &str, b: &str) -> (r: Vec<char>)
    ensures
        r@ == a@ + b@,
{
    let mut r = chars_of(a);
    let mut tail = chars_of(b);
    r.append(&mut tail);
    r
}

/// The step at an entry, for a query given by its characters.
pub fn walk_step(query: &Vec<char>, root: &str, name: &str, is_tree: bool) -> (step: TreeStep)
    ensures
        step == tree_step(query@, root@, name@, is_tree),
{
    let here = joined(root, name);
    if same_chars(&here, query) {
        TreeStep::Found
    } else if is_tree && !starts_with_dir(query, &here) {
        TreeStep::Skip
    } else {
        TreeStep::Continue
    }
}

/// Skipping a tree hides nothing: where the walk stays out of a tree, no
/// entry below that tree has the path asked for.
pub proof fn lemma_skip_hides_nothing(
    q: Seq<char>,
    root: Seq<char>,
    name: Seq<char>,
    below_root: Seq<char>,
    below_name: Seq<char>,
)
    requires
        tree_step(q, root, name, true) is Skip,
        (root + name).push('/').is_prefix_of(below_root),
    ensures
        below_root + below_name != q,
{
    let dir = (root + name).push('/');
    if below_root + below_name == q {
        assert(dir.is_prefix_of(q)) by {
            assert(dir =~= below_root.subrange(0, dir.len() as int));
            assert(dir =~= q.subrange(0, dir.len() as int));
        }
    }
}

/// One entry met on a walk through a tree and its subtrees: the entry, the
/// prefix of the tree in which it stands (empty at the top, else ending in
/// `/`), and the abbreviated id of what it points to, which is empty where
/// nobody has asked the object store for it.
#[derive(Debug)]
pub struct TreeItem {
    pub root: String,
    pub entry: TreeRecord,
    pub short_id: String,
}

/// An entry met on a walk, with its texts as characters.
pub struct TreeItemView {
    pub root: Seq<char>,
    pub entry: TreeRecordView,
    pub short_id: Seq<char>,
}

impl View for TreeItem {
    type V = TreeItemView;

    open spec fn view(&self) -> TreeItemView {
        TreeItemView { root: self.root@, entry: self.entry@, short_id: self.short_id@ }
    }
}

/// The line for an entry met on a walk: the entry under the prefix of its
/// tree, with its abbreviated id.
pub open spec fn item_line(item: TreeItemView) -> GitTreeView {
    GitTreeView { short_id: item.short_id, ..tree_line(item.entry, item.root) }
}

impl TreeItem {
    /// The line for this entry.
    pub fn line(&self) -> (line: GitTree)
        ensures
            line@ == item_line(self@),
    {
        let mut line = self.entry.line(self.root.as_str());
        line.short_id = self.short_id.clone();
        line
    }
}

impl DeepView for TreeItem {
    type V = TreeItemView;

    open spec fn deep_view(&self) -> TreeItemView {
        self@
    }
}

impl TreeItemView {
    /// The path at which a walk finds the entry.
    pub open spec fn path(self) -> Seq<char> {
        self.root + self.entry.walk_name()
    }
}

/// Whether `root` is a prefix as a walk hands them out: empty, at the top of
/// the tree, or ending in `/`.
pub open spec fn rooted(root: Seq<char>) -> bool {
    root.len() == 0 || root.last() == '/'
}

/// The search of a walk for the entry at one path: what is searched for, and
/// the entry found there with the prefix of its tree, once the walk has met it.
pub struct TreeSearch {
    pub query: Vec<char>,
    pub found: Option<TreeItem>,
}

impl TreeSearch {
    /// What has been found is at the path searched for.
    pub open spec fn wf(&self) -> bool {
        self.found matches Some(item) ==> item@.path() == self.query@
    }

    /// A search for the entry at `query`, with nothing found yet.
    pub fn new(query: &str) -> (search: Self)
        ensures
            search.wf(),
            search.query@ == query@,
            search.found is None,
    {
        TreeSearch { query: chars_of(query), found: None }
    }

    /// The visit of a walk at the entry `record` under the prefix `root`:
    /// the search keeps the entry if it is the one searched for, and the
    /// walk is told how to go on.
    pub fn visit(&mut self, root: &str, record: TreeRecord) -> (step: TreeStep)
        ensures
            step == tree_step(old(self).query@, root@, record@.walk_name(), record@.is_tree()),
            final(self).query@ == old(self).query@,
            step is Found ==> (final(self).found matches Some(item) && item@ == (TreeItemView {
                root: root@,
                entry: record@,
                short_id: Seq::empty(),
            })),
            !(step is Found) ==> final(self).found == old(self).found,
            old(self).wf() ==> final(self).wf(),
    {
        let name = record.walk_name();
        let step = walk_step(&self.query, root, name.as_str(), record.is_tree());
        match step {
            TreeStep::Found => {
                self.found = Some(
                    TreeItem { root: String::from_str(root), entry: record, short_id: String::new() },
                );
            },
            _ => {},
        }
        step
    }
}

/// What a search and the tree that it found give for a listing: nothing
/// where nothing was found; the entry found, with its abbreviated id, where
/// it is no tree; and else the tree found, followed by the entries that
/// stand in it.
pub open spec fn found_items(
    found: Option<TreeItemView>,
    short_id: Seq<char>,
    children: Seq<TreeItemView>,
) -> Seq<TreeItemView> {
    match found {
        None => Seq::empty(),
        Some(item) => if item.entry.is_tree() {
            seq![TreeItemView { short_id: Seq::empty(), ..item }] + children
        } else {
            seq![TreeItemView { short_id: short_id, ..item }]
        },
    }
}

/// The view of what a search may have found.
pub open spec fn found_view(found: Option<TreeItem>) -> Option<TreeItemView> {
    match found {
        Some(item) => Some(item@),
        None => None,
    }
}

/// Puts together what a search found, the abbreviated id looked up for it,
/// and the entries of the tree found, where it is a tree, as a listing takes
/// them.
pub fn gather_found(found: Option<TreeItem>, short_id: String, children: Vec<TreeItem>) -> (items:
    Vec<TreeItem>)
    ensures
        items.deep_view() == found_items(found_view(found), short_id@, children.deep_view()),
{
    let mut items: Vec<TreeItem> = Vec::new();
    let ghost below = children.deep_view();
    let ghost wanted = found_items(found_view(found), short_id@, below);
    match found {
        Some(item) => {
            if item.entry.is_tree() {
                let mut rest = children;
                let ghost kept = rest@;
                items.push(TreeItem { root: item.root, entry: item.entry, short_id: String::new() });
                items.append(&mut rest);
                assert(items.deep_view() =~= wanted) by {
                    assert(items@.len() == 1 + kept.len());
                    assert forall|i: int| 0 <= i < items@.len() implies items.deep_view()[i]
                        == wanted[i] by {
                        if i > 0 {
                            assert(items@[i] == kept[i - 1]);
                            assert(below[i - 1] == kept[i - 1]@);
                        }
                    }
                }
            } else {
                items.push(TreeItem { root: item.root, entry: item.entry, short_id });
                assert(items.deep_view() =~= wanted);
            }
        },
        None => {
            assert(items.deep_view() =~= Seq::<TreeItemView>::empty());
        },
    }
    items
}

/// The position of the first of `items` whose path is `q`, or their number
/// where none has it.
pub open spec fn first_at(items: Seq<TreeItemView>, q: Seq<char>) -> nat
    decreases items.len(),
{
    if items.len() == 0 || items[0].path() == q {
        0
    } else {
        1 + first_at(items.drop_first(), q)
    }
}

/// The lines for those of `items` that stand directly under `root`, in order,
/// each with the abbreviated id that its item carries.
pub open spec fn children_of(items: Seq<TreeItemView>, root: Seq<char>) -> Seq<GitTreeView>
    decreases items.len(),
{
    if items.len() == 0 {
        Seq::empty()
    } else {
        let earlier = children_of(items.drop_last(), root);
        if items.last().root == root {
            earlier.push(item_line(items.last()))
        } else {
            earlier
        }
    }
}

/// The listing of the path `q` in a tree given by the entries of a whole
/// walk, in the order of the walk. The empty path lists the top level. Any
/// other path is looked up: a tree found there is listed, another entry found
/// there is the listing, and nothing found there is an empty listing.
pub open spec fn tree_listing(items: Seq<TreeItemView>, q: Seq<char>) -> Seq<GitTreeView> {
    if q.len() == 0 {
        children_of(items, Seq::empty())
    } else {
        let at = first_at(items, q) as int;
        if at >= items.len() {
            Seq::empty()
        } else if items[at].entry.is_tree() {
            children_of(items, q.push('/'))
        } else {
            seq![item_line(items[at])]
        }
    }
}

/// A position whose item has the path `q`, with no such item before it, or
/// the end with no such item at all, is the one that `first_at` finds.
pub proof fn lemma_first_at_is(items: Seq<TreeItemView>, q: Seq<char>, k: int)
    requires
        0 <= k <= items.len(),
        forall|i: int| 0 <= i < k ==> (#[trigger] items[i]).path() != q,
        k < items.len() ==> items[k].path() == q,
    ensures
        first_at(items, q) == k,
    decreases items.len(),
{
    if items.len() == 0 || items[0].path() == q {
        if k > 0 {
            assert(items[0].path() != q);
        }
    } else {
        let rest = items.drop_first();
        assert forall|i: int| 0 <= i < k - 1 implies (#[trigger] rest[i]).path() != q by {
            assert(rest[i] == items[i + 1]);
        }
        lemma_first_at_is(rest, q, k - 1);
    }
}

/// The lines for those of `items` that stand directly under `root`.
fn children_lines(items: &Vec<TreeItem>, root: &str) -> (lines: Vec<GitTree>)
    ensures
        lines.deep_view() == children_of(items.deep_view(), root@),
{
    let wanted = chars_of(root);
    let ghost iv = items.deep_view();
    let mut lines: Vec<GitTree> = Vec::new();
    let mut i: usize = 0;
    assert(lines.deep_view() =~= children_of(iv.take(0), root@));
    while i < items.len()
        invariant
            i <= items.len(),
            iv == items.deep_view(),
            wanted@ == root@,
            lines.deep_view() == children_of(iv.take(i as int), root@),
        decreases items.len() - i,
    {
        let item = &items[i];
        let ghost upto = iv.take(i as int + 1);
        proof {
            assert(upto.drop_last() =~= iv.take(i as int));
            assert(upto.last() == item@);
        }
        let at = chars_of(item.root.as_str());
        if same_chars(&at, &wanted) {
            lines.push(item.line());
            assert(lines.deep_view() =~= children_of(iv.take(i as int), root@).push(
                item_line(item@),
            ));
        }
        i = i + 1;
    }
    assert(iv.take(i as int) =~= iv);
    lines
}

/// Lists the path `path` in a tree given by the entries of a whole walk. One
/// trailing `/` of `path` is ignored. The search goes as a walk does: it
/// stops at the first entry at the path, and it passes over what lies below
/// a tree that is not on the way.
pub fn list_tree_items(items: &Vec<TreeItem>, path: &str) -> (listing: Vec<GitTree>)
    ensures
        listing.deep_view() == tree_listing(items.deep_view(), normalized(path@)),
{
    let query = strip_trailing_slash(path);
    let q = chars_of(query);
    if q.len() == 0 {
        let lines = children_lines(items, "");
        proof {
            reveal_strlit("");
            assert(""@ =~= Seq::<char>::empty());
        }
        return lines;
    }
    let ghost iv = items.deep_view();
    let mut i: usize = 0;
    while i < items.len()
        invariant
            i <= items.len(),
            iv == items.deep_view(),
            q@ == normalized(path@),
            q@ == query@,
            q.len() > 0,
            forall|j: int| 0 <= j < i ==> (#[trigger] iv[j]).path() != q@,
        decreases items.len() - i,
    {
        let item = &items[i];
        assert(iv[i as int] == item@);
        let name = item.entry.walk_name();
        let is_tree = item.entry.is_tree();
        let step = walk_step(&q, item.root.as_str(), name.as_str(), is_tree);
        match step {
            TreeStep::Found => {
                proof {
                    lemma_first_at_is(iv, q@, i as int);
                }
                if is_tree {
                    let root = String::from_str(query).concat("/");
                    proof {
                        reveal_strlit("/");
                        assert(root@ =~= q@.push('/'));
                    }
                    return children_lines(items, root.as_str());
                } else {
                    let mut listing: Vec<GitTree> = Vec::new();
                    listing.push(item.line());
                    assert(listing.deep_view() =~= seq![item_line(item@)]);
                    return listing;
                }
            },
            TreeStep::Skip => {
                let here = joined(item.root.as_str(), name.as_str());
                let ghost entered = i;
                i = i + 1;
                while i < items.len() && starts_with_dir(&chars_of(items[i].root.as_str()), &here)
                    invariant
                        entered < i <= items.len(),
                        iv == items.deep_view(),
                        is_tree,
                        here@ == item@.root + name@,
                        tree_step(q@, item@.root, name@, true) is Skip,
                        forall|j: int| 0 <= j < i ==> (#[trigger] iv[j]).path() != q@,
                    decreases items.len() - i,
                {
                    proof {
                        let below = iv[i as int];
                        assert(below == items[i as int]@);
                        lemma_skip_hides_nothing(
                            q@,
                            item@.root,
                            name@,
                            below.root,
                            below.entry.walk_name(),
                        );
                    }
                    i = i + 1;
                }
            },
            TreeStep::Continue => {
                i = i + 1;
            },
        }
    }
    proof {
        lemma_first_at_is(iv, q@, i as int);
    }
    Vec::new()
}

} // verus!
