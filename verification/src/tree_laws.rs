use crate::index_laws::{is_immediate_child, lemma_child_segments};
use crate::model::GitTreeView;
use crate::path::{dir_prefix, has_slash, normalized};
use crate::text::text_of;
use crate::tree::{
    children_of, first_at, found_items, item_line, lemma_first_at_is, tree_listing, TreeItemView,
};
use vstd::prelude::*;

verus! {

/// No two entries of the walk have the same path.
pub open spec fn distinct_item_paths(items: Seq<TreeItemView>) -> bool {
    forall|i: int, j: int|
        0 <= i < j < items.len() ==> (#[trigger] items[i]).path() != (#[trigger] items[j]).path()
}

/// No two entries of the walk read as the same full path: the prefix and
/// the text that the name stands for.
pub open spec fn distinct_shown_paths(items: Seq<TreeItemView>) -> bool {
    forall|i: int, j: int|
        0 <= i < j < items.len() ==> item_line(#[trigger] items[i]).full_path() != item_line(
            #[trigger] items[j],
        ).full_path()
}

/// No entry of the walk has a name that reads with a `/` in it.
pub open spec fn slashless_names(items: Seq<TreeItemView>) -> bool {
    forall|i: int| 0 <= i < items.len() ==> !has_slash(text_of((#[trigger] items[i]).entry.name))
}

/// How many of the first `j` entries stand directly under `root`.
pub open spec fn children_before(items: Seq<TreeItemView>, root: Seq<char>, j: int) -> nat {
    children_of(items.take(j), root).len()
}

/// One more entry adds its line to the children of `root`, or nothing.
pub proof fn lemma_children_step(items: Seq<TreeItemView>, root: Seq<char>, n: int)
    requires
        0 <= n < items.len(),
    ensures
        children_of(items.take(n + 1), root) == if items[n].root == root {
            children_of(items.take(n), root).push(item_line(items[n]))
        } else {
            children_of(items.take(n), root)
        },
{
    let upto = items.take(n + 1);
    assert(upto.drop_last() =~= items.take(n));
    assert(upto.last() == items[n]);
}

/// Later entries stand behind more children, and behind every earlier child.
pub proof fn lemma_children_before_grow(
    items: Seq<TreeItemView>,
    root: Seq<char>,
    a: int,
    b: int,
)
    requires
        0 <= a <= b <= items.len(),
    ensures
        children_before(items, root, a) <= children_before(items, root, b),
        a < b && items[a].root == root ==> children_before(items, root, a) < children_before(
            items,
            root,
            b,
        ),
    decreases b - a,
{
    if a < b {
        lemma_children_before_grow(items, root, a, b - 1);
        lemma_children_step(items, root, b - 1);
    }
}

/// Every line that the first `n` entries give among the children of `root`
/// is the line of one of them.
proof fn lemma_child_origin_within(
    items: Seq<TreeItemView>,
    root: Seq<char>,
    k: int,
    n: int,
) -> (j: int)
    requires
        0 <= n <= items.len(),
        0 <= k < children_before(items, root, n),
    ensures
        0 <= j < n,
        items[j].root == root,
        children_before(items, root, j) == k,
        children_of(items.take(n), root)[k] == item_line(items[j]),
    decreases n,
{
    if n == 0 {
        assert(items.take(0) =~= Seq::<TreeItemView>::empty());
        0
    } else {
        lemma_children_step(items, root, n - 1);
        if k < children_before(items, root, n - 1) {
            lemma_child_origin_within(items, root, k, n - 1)
        } else {
            n - 1
        }
    }
}

/// Every line among the children of `root` is the line of one entry that
/// stands directly under `root`: the entry behind exactly that many children.
pub proof fn lemma_child_origin(items: Seq<TreeItemView>, root: Seq<char>, k: int) -> (j: int)
    requires
        0 <= k < children_of(items, root).len(),
    ensures
        0 <= j < items.len(),
        items[j].root == root,
        children_before(items, root, j) == k,
        children_of(items, root)[k] == item_line(items[j]),
{
    assert(items.take(items.len() as int) =~= items);
    lemma_child_origin_within(items, root, k, items.len() as int)
}

/// Every entry that stands directly under `root` has its line among the
/// children of `root`.
pub proof fn lemma_child_listed(items: Seq<TreeItemView>, root: Seq<char>, j: int)
    requires
        0 <= j < items.len(),
        items[j].root == root,
    ensures
        children_before(items, root, j) < children_of(items, root).len(),
        children_of(items, root)[children_before(items, root, j) as int] == item_line(items[j]),
{
    assert(items.take(items.len() as int) =~= items);
    lemma_children_before_grow(items, root, j, items.len() as int);
    let k = children_before(items, root, j) as int;
    let o = lemma_child_origin(items, root, k);
    if o < j {
        lemma_children_before_grow(items, root, o, j);
    } else if j < o {
        lemma_children_before_grow(items, root, j, o);
    }
}

/// The lines of the given entries, one for each, in order.
pub open spec fn lines_of(items: Seq<TreeItemView>) -> Seq<GitTreeView> {
    Seq::new(items.len(), |i: int| item_line(items[i]))
}

/// Where every entry stands directly under `root`, every entry has its
/// line among the children of `root`, in order, and there is no other line.
pub proof fn lemma_all_listed(items: Seq<TreeItemView>, root: Seq<char>)
    requires
        forall|i: int| 0 <= i < items.len() ==> (#[trigger] items[i]).root == root,
    ensures
        children_of(items, root) == lines_of(items),
    decreases items.len(),
{
    if items.len() > 0 {
        let before = items.drop_last();
        assert forall|i: int| 0 <= i < before.len() implies (#[trigger] before[i]).root == root by {
            assert(before[i] == items[i]);
        }
        lemma_all_listed(before, root);
        assert(items.last().root == root);
        assert(children_of(items, root) =~= lines_of(items));
    } else {
        assert(children_of(items, root) =~= lines_of(items));
    }
}

/// An entry that does not stand under `root`, put in front, adds nothing to
/// the children of `root`.
pub proof fn lemma_stranger_in_front(first: TreeItemView, items: Seq<TreeItemView>, root: Seq<char>)
    requires
        first.root != root,
    ensures
        children_of(seq![first] + items, root) == children_of(items, root),
    decreases items.len(),
{
    let all = seq![first] + items;
    if items.len() > 0 {
        assert(all.drop_last() =~= seq![first] + items.drop_last());
        assert(all.last() == items.last());
        lemma_stranger_in_front(first, items.drop_last(), root);
    } else {
        assert(all.drop_last() =~= Seq::<TreeItemView>::empty());
        assert(all.last() == first);
        assert(children_of(all.drop_last(), root) =~= Seq::<GitTreeView>::empty());
    }
}

/// What is listed after a search: nothing where nothing was found at the
/// path; where an entry that is no tree was found there, that entry alone,
/// with its abbreviated id; and where a tree was found there, the entries
/// that stand in it, in their order, each under the path and a `/`.
pub proof fn lemma_found_listing(
    q: Seq<char>,
    found: Option<TreeItemView>,
    short_id: Seq<char>,
    children: Seq<TreeItemView>,
)
    requires
        q.len() > 0,
        found matches Some(item) ==> item.path() == q,
        forall|i: int| 0 <= i < children.len() ==> (#[trigger] children[i]).root == q.push('/'),
    ensures
        tree_listing(found_items(found, short_id, children), q) == match found {
            None => Seq::<GitTreeView>::empty(),
            Some(item) => if item.entry.is_tree() {
                lines_of(children)
            } else {
                seq![item_line(TreeItemView { short_id: short_id, ..item })]
            },
        },
{
    let items = found_items(found, short_id, children);
    match found {
        None => {
            lemma_first_at_is(items, q, 0);
        },
        Some(item) => {
            lemma_first_at_is(items, q, 0);
            if item.entry.is_tree() {
                let first = TreeItemView { short_id: Seq::empty(), ..item };
                assert(first.root != q.push('/')) by {
                    if first.root == q.push('/') {
                        assert(first.path().len() > q.len());
                    }
                }
                lemma_stranger_in_front(first, children, q.push('/'));
                lemma_all_listed(children, q.push('/'));
            }
        },
    }
}

/// Every line of a listing is the line of one of the entries of the walk.
pub proof fn lemma_tree_line_origin(items: Seq<TreeItemView>, q: Seq<char>, k: int) -> (j: int)
    requires
        0 <= k < tree_listing(items, q).len(),
    ensures
        0 <= j < items.len(),
        tree_listing(items, q)[k] == item_line(items[j]),
{
    if q.len() == 0 {
        lemma_child_origin(items, Seq::empty(), k)
    } else {
        let at = first_at(items, q) as int;
        if items[at].entry.is_tree() {
            lemma_child_origin(items, q.push('/'), k)
        } else {
            at
        }
    }
}

/// Exact match of a file: in a walk whose entries have different paths,
/// where the path asked for is that of an entry which is no tree, the
/// listing is that one entry under its own prefix, whatever else the tree
/// holds.
pub proof fn lemma_exact_entry(items: Seq<TreeItemView>, q: Seq<char>, k: int)
    requires
        q.len() > 0,
        0 <= k < items.len(),
        items[k].path() == q,
        distinct_item_paths(items),
        !items[k].entry.is_tree(),
    ensures
        tree_listing(items, q) == seq![item_line(items[k])],
{
    assert forall|i: int| 0 <= i < k implies (#[trigger] items[i]).path() != q by {
        assert((#[trigger] items[i]).path() != (#[trigger] items[k]).path());
    }
    lemma_first_at_is(items, q, k);
}

/// Exact match of a directory: in a walk whose entries have different
/// paths, where the path asked for is that of a tree, the listing holds the
/// entries that stand directly in that tree, each under the path and a `/`.
pub proof fn lemma_exact_tree(items: Seq<TreeItemView>, q: Seq<char>, k: int)
    requires
        q.len() > 0,
        0 <= k < items.len(),
        items[k].path() == q,
        distinct_item_paths(items),
        items[k].entry.is_tree(),
    ensures
        tree_listing(items, q) == children_of(items, q.push('/')),
        forall|n: int|
            0 <= n < tree_listing(items, q).len() ==> (#[trigger] tree_listing(items, q)[n]).root
                == q.push('/'),
{
    assert forall|i: int| 0 <= i < k implies (#[trigger] items[i]).path() != q by {
        assert((#[trigger] items[i]).path() != (#[trigger] items[k]).path());
    }
    lemma_first_at_is(items, q, k);
    assert forall|n: int| 0 <= n < tree_listing(items, q).len() implies (#[trigger] tree_listing(
        items,
        q,
    )[n]).root == q.push('/') by {
        let j = lemma_child_origin(items, q.push('/'), n);
    }
}

/// The empty path lists the top level and nothing deeper: every line stands
/// under the empty prefix, and every entry of the top level has its line.
pub proof fn lemma_top_level(items: Seq<TreeItemView>)
    ensures
        tree_listing(items, Seq::empty()) == children_of(items, Seq::empty()),
        forall|n: int|
            0 <= n < tree_listing(items, Seq::empty()).len() ==> (#[trigger] tree_listing(
                items,
                Seq::empty(),
            )[n]).root.len() == 0,
        forall|j: int|
            0 <= j < items.len() && (#[trigger] items[j]).root.len() == 0 ==> tree_listing(
                items,
                Seq::empty(),
            ).contains(item_line(items[j])),
{
    let top = Seq::<char>::empty();
    assert forall|n: int| 0 <= n < tree_listing(items, top).len() implies (#[trigger] tree_listing(
        items,
        top,
    )[n]).root.len() == 0 by {
        let j = lemma_child_origin(items, top, n);
    }
    assert forall|j: int| 0 <= j < items.len() && (#[trigger] items[j]).root.len() == 0 implies
        tree_listing(items, top).contains(item_line(items[j])) by {
        assert(items[j].root =~= top);
        lemma_child_listed(items, top, j);
    }
}

/// Whether the path asked for is that of an entry which is no tree.
pub open spec fn finds_entry(items: Seq<TreeItemView>, q: Seq<char>) -> bool {
    q.len() > 0 && first_at(items, q) < items.len() && !items[first_at(
        items,
        q,
    ) as int].entry.is_tree()
}

/// Depth correctness: in a tree in which no name reads with a `/` in it,
/// every line of a listing names an immediate child of the path asked for,
/// unless that path is the path of an entry which is no tree.
pub proof fn lemma_tree_depth_correct(items: Seq<TreeItemView>, q: Seq<char>)
    requires
        slashless_names(items),
        !finds_entry(items, q),
    ensures
        forall|n: int|
            0 <= n < tree_listing(items, q).len() ==> is_immediate_child(
                (#[trigger] tree_listing(items, q)[n]).full_path(),
                q,
            ),
{
    let root = dir_prefix(q);
    assert forall|n: int| 0 <= n < tree_listing(items, q).len() implies is_immediate_child(
        (#[trigger] tree_listing(items, q)[n]).full_path(),
        q,
    ) by {
        if q.len() == 0 {
            assert(q =~= Seq::<char>::empty());
        }
        assert(tree_listing(items, q) == children_of(items, root));
        let j = lemma_child_origin(items, root, n);
        assert(!has_slash(text_of((#[trigger] items[j]).entry.name)));
        lemma_child_segments(q, text_of(items[j].entry.name));
    }
}

/// No duplicates: in a tree in which no two entries read as the same full
/// path, no two lines of a listing have the same full path.
pub proof fn lemma_tree_paths_distinct(items: Seq<TreeItemView>, q: Seq<char>, n1: int, n2: int)
    requires
        distinct_shown_paths(items),
        0 <= n1 < n2 < tree_listing(items, q).len(),
    ensures
        tree_listing(items, q)[n1].full_path() != tree_listing(items, q)[n2].full_path(),
{
    if tree_listing(items, q).len() > 1 {
        let root = dir_prefix(q);
        if q.len() == 0 {
            assert(q =~= Seq::<char>::empty());
        }
        assert(tree_listing(items, q) == children_of(items, root));
        let j1 = lemma_child_origin(items, root, n1);
        let j2 = lemma_child_origin(items, root, n2);
        if j2 <= j1 {
            lemma_children_before_grow(items, root, j2, j1);
        }
        assert(j1 < j2);
        assert(item_line(#[trigger] items[j1]).full_path() != item_line(
            #[trigger] items[j2],
        ).full_path());
    }
}

} // verus!
