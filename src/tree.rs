use vstd::prelude::*;

use crate::collection::{CollectionFolder, CollectionItem, CollectionItemOrFolder, NodeModel, nodes_view};

verus! {

// ---------------------------------------------------------------------------
// Edits of a collection tree. Folders are matched by name. The edits reach the
// top level of the tree and, for requests inside folders, the children of the
// top-level folders; deeper nodes are never touched.

pub open spec fn is_folder_named(n: NodeModel, name: Seq<char>) -> bool {
    n is Folder && n->Folder_name == name
}

pub open spec fn is_item_named(n: NodeModel, name: Seq<char>) -> bool {
    n is Item && n->Item_name == name
}

/// Holds of every node but a folder of that name.
pub open spec fn not_folder_named(name: Seq<char>) -> spec_fn(NodeModel) -> bool {
    |n: NodeModel| !is_folder_named(n, name)
}

/// Holds of every node but a request of that name.
pub open spec fn not_item_named(name: Seq<char>) -> spec_fn(NodeModel) -> bool {
    |n: NodeModel| !is_item_named(n, name)
}

/// The position of the first folder with that name, or the length of the
/// list where there is none.
pub open spec fn first_folder(s: Seq<NodeModel>, name: Seq<char>) -> int
    decreases s.len(),
{
    if s.len() == 0 {
        0
    } else if is_folder_named(s[0], name) {
        0
    } else {
        1 + first_folder(s.drop_first(), name)
    }
}

/// The list with `item` appended to the children of the first folder named
/// `folder`; the list unchanged where there is no such folder.
pub open spec fn with_item_added(s: Seq<NodeModel>, folder: Seq<char>, item: NodeModel) -> Seq<
    NodeModel,
> {
    let i = first_folder(s, folder);
    if i < s.len() {
        s.update(i, NodeModel::Folder { name: folder, items: s[i]->Folder_items.push(item) })
    } else {
        s
    }
}

/// A node with the requests named `name` removed from it, where it is a
/// folder named `folder`.
pub open spec fn strip_folder(n: NodeModel, folder: Seq<char>, name: Seq<char>) -> NodeModel {
    if is_folder_named(n, folder) {
        NodeModel::Folder { name: folder, items: n->Folder_items.filter(not_item_named(name)) }
    } else {
        n
    }
}

/// `first_folder` names the first folder with that name, and only such a node.
pub proof fn lemma_first_folder(s: Seq<NodeModel>, name: Seq<char>)
    ensures
        0 <= first_folder(s, name) <= s.len(),
        first_folder(s, name) < s.len() ==> is_folder_named(s[first_folder(s, name)], name),
        forall|j: int| 0 <= j < first_folder(s, name) ==> !is_folder_named(#[trigger] s[j], name),
    decreases s.len(),
{
    if s.len() > 0 && !is_folder_named(s[0], name) {
        lemma_first_folder(s.drop_first(), name);
        assert forall|j: int| 0 <= j < first_folder(s, name) implies !is_folder_named(
            #[trigger] s[j],
            name,
        ) by {
            if j > 0 {
                assert(s[j] == s.drop_first()[j - 1]);
            }
        }
    }
}

/// Appends `item` to the children of the first top-level folder named `folder`.
pub fn add_to_folder(items: &mut Vec<CollectionItemOrFolder>, folder: &str, item: CollectionItem)
    ensures
        nodes_view(final(items)@) == with_item_added(
            nodes_view(old(items)@),
            folder@,
            CollectionItemOrFolder::Item(item)@,
        ),
{
    let ghost s = nodes_view(items@);
    let ghost it = CollectionItemOrFolder::Item(item)@;
    proof {
        lemma_first_folder(s, folder@);
    }
    let target = String::from_str(folder);
    let mut i: usize = 0;
    while i < items.len()
        invariant
            0 <= i <= items.len(),
            s == nodes_view(items@),
            s == nodes_view(old(items)@),
            target@ == folder@,
            it == CollectionItemOrFolder::Item(item)@,
            0 <= first_folder(s, folder@) <= s.len(),
            first_folder(s, folder@) < s.len() ==> is_folder_named(s[first_folder(s, folder@)], folder@),
            forall|j: int| 0 <= j < first_folder(s, folder@) ==> !is_folder_named(#[trigger] s[j], folder@),
            forall|j: int| 0 <= j < i ==> !is_folder_named(#[trigger] s[j], folder@),
        decreases items.len() - i,
    {
        let hit = match &items[i] {
            CollectionItemOrFolder::Folder(f) => f.name == target,
            _ => false,
        };
        if hit {
            assert(is_folder_named(s[i as int], folder@));
            assert(first_folder(s, folder@) == i);
            let ghost whole = items@;
            let node = items.remove(i);
            assert(node == whole[i as int]);
            assert(node@ == s[i as int]);
            assert(nodes_view(items@) =~= s.remove(i as int));
            assert(node is Folder);
            match node {
                CollectionItemOrFolder::Folder(mut f) => {
                    let ghost before = f.item@;
                    f.item.push(CollectionItemOrFolder::Item(item));
                    let n = CollectionItemOrFolder::Folder(f);
                    let ghost target_items = s[i as int]->Folder_items.push(it);
                    assert forall|j: int| 0 <= j < before.len() + 1 implies n@->Folder_items[j]
                        == target_items[j] by {
                        if j < before.len() {
                            assert(f.item@[j] == before[j]);
                        }
                    }
                    assert(n@->Folder_items =~= target_items);
                    let ghost w = with_item_added(s, folder@, it);
                    assert(n@ == w[i as int]);
                    let ghost mid = items@;
                    items.insert(i, n);
                    assert forall|j: int| 0 <= j < s.len() implies nodes_view(items@)[j] == w[j] by {
                        if j < i {
                            assert(items@[j] == mid[j]);
                            assert(mid[j] == whole[j]);
                        } else if j > i {
                            assert(items@[j] == mid[j - 1]);
                            assert(mid[j - 1] == whole[j]);
                        }
                    }
                    assert(nodes_view(items@) =~= w);
                },
                CollectionItemOrFolder::Item(x) => {
                    items.insert(i, CollectionItemOrFolder::Item(x));
                },
            }
            return;
        }
        i = i + 1;
    }
    assert(first_folder(s, folder@) == s.len());
}

/// Removes every top-level folder named `name`, keeping all other nodes in order.
pub fn remove_folders(items: Vec<CollectionItemOrFolder>, name: &str) -> (r: Vec<CollectionItemOrFolder>)
    ensures
        nodes_view(r@) == nodes_view(items@).filter(not_folder_named(name@)),
{
    let ghost s = nodes_view(items@);
    let ghost p = not_folder_named(name@);
    let target = String::from_str(name);
    let mut rest = items;
    let mut out: Vec<CollectionItemOrFolder> = Vec::new();
    let ghost mut k: int = 0;
    proof {
        reveal(Seq::filter);
        assert(s.take(0) =~= Seq::<NodeModel>::empty());
        assert(nodes_view(out@) =~= Seq::<NodeModel>::empty());
        assert(nodes_view(rest@) =~= s.skip(0));
    }
    while rest.len() > 0
        invariant
            target@ == name@,
            0 <= k <= s.len(),
            p == not_folder_named(name@),
            nodes_view(rest@) == s.skip(k),
            nodes_view(out@) == s.take(k).filter(p),
        decreases rest.len(),
    {
        let ghost prev = out@;
        let ghost before_rest = rest@;
        let n = rest.remove(0);
        assert(n == before_rest[0]);
        assert(nodes_view(before_rest) == s.skip(k));
        assert(nodes_view(before_rest).len() == before_rest.len());
        assert(k < s.len());
        assert(s.skip(k)[0] == s[k]);
        assert(nodes_view(before_rest)[0] == n@);
        assert(n@ == s[k]);
        assert(rest@ =~= before_rest.drop_first());
        assert forall|j: int| 0 <= j < rest@.len() implies nodes_view(rest@)[j] == s.skip(k + 1)[j] by {
            assert(rest@[j] == before_rest[j + 1]);
            assert(nodes_view(before_rest)[j + 1] == s.skip(k)[j + 1]);
        }
        assert(nodes_view(rest@) =~= s.skip(k + 1));
        let drop = match &n {
            CollectionItemOrFolder::Folder(f) => f.name == target,
            _ => false,
        };
        assert(drop == is_folder_named(n@, name@));
        proof {
            reveal(Seq::filter);
            assert(s.take(k + 1).drop_last() =~= s.take(k));
            assert(s.take(k + 1).last() == s[k]);
        }
        if !drop {
            out.push(n);
            assert(nodes_view(out@) =~= nodes_view(prev).push(n@));
        }
        proof {
            k = k + 1;
        }
    }
    assert(s.take(k) =~= s);
    out
}

/// Removes every top-level request named `name`, keeping all other nodes in order.
pub fn remove_items(items: Vec<CollectionItemOrFolder>, name: &str) -> (r: Vec<CollectionItemOrFolder>)
    ensures
        nodes_view(r@) == nodes_view(items@).filter(not_item_named(name@)),
{
    let ghost s = nodes_view(items@);
    let ghost p = not_item_named(name@);
    let target = String::from_str(name);
    let mut rest = items;
    let mut out: Vec<CollectionItemOrFolder> = Vec::new();
    let ghost mut k: int = 0;
    proof {
        reveal(Seq::filter);
        assert(s.take(0) =~= Seq::<NodeModel>::empty());
        assert(nodes_view(out@) =~= Seq::<NodeModel>::empty());
        assert(nodes_view(rest@) =~= s.skip(0));
    }
    while rest.len() > 0
        invariant
            target@ == name@,
            0 <= k <= s.len(),
            p == not_item_named(name@),
            nodes_view(rest@) == s.skip(k),
            nodes_view(out@) == s.take(k).filter(p),
        decreases rest.len(),
    {
        let ghost prev = out@;
        let ghost before_rest = rest@;
        let n = rest.remove(0);
        assert(n == before_rest[0]);
        assert(nodes_view(before_rest) == s.skip(k));
        assert(nodes_view(before_rest).len() == before_rest.len());
        assert(k < s.len());
        assert(s.skip(k)[0] == s[k]);
        assert(nodes_view(before_rest)[0] == n@);
        assert(n@ == s[k]);
        assert(rest@ =~= before_rest.drop_first());
        assert forall|j: int| 0 <= j < rest@.len() implies nodes_view(rest@)[j] == s.skip(k + 1)[j] by {
            assert(rest@[j] == before_rest[j + 1]);
            assert(nodes_view(before_rest)[j + 1] == s.skip(k)[j + 1]);
        }
        assert(nodes_view(rest@) =~= s.skip(k + 1));
        let drop = match &n {
            CollectionItemOrFolder::Item(i) => i.name == target,
            _ => false,
        };
        assert(drop == is_item_named(n@, name@));
        proof {
            reveal(Seq::filter);
            assert(s.take(k + 1).drop_last() =~= s.take(k));
            assert(s.take(k + 1).last() == s[k]);
        }
        if !drop {
            out.push(n);
            assert(nodes_view(out@) =~= nodes_view(prev).push(n@));
        }
        proof {
            k = k + 1;
        }
    }
    assert(s.take(k) =~= s);
    out
}

/// Removes the requests named `name` from every top-level folder named
/// `folder`; every other node stays as it is.
pub fn remove_items_in_folders(items: Vec<CollectionItemOrFolder>, folder: &str, name: &str) -> (r:
    Vec<CollectionItemOrFolder>)
    ensures
        nodes_view(r@) == nodes_view(items@).map_values(
            |n: NodeModel| strip_folder(n, folder@, name@),
        ),
{
    let ghost s = nodes_view(items@);
    let target = String::from_str(folder);
    let mut rest = items;
    let mut out: Vec<CollectionItemOrFolder> = Vec::new();
    let ghost mut k: int = 0;
    proof {
        assert(nodes_view(rest@) =~= s.skip(0));
    }
    while rest.len() > 0
        invariant
            target@ == folder@,
            0 <= k <= s.len(),
            nodes_view(rest@) == s.skip(k),
            out.len() == k,
            forall|j: int|
                0 <= j < k ==> (#[trigger] out@[j])@ == strip_folder(s[j], folder@, name@),
        decreases rest.len(),
    {
        let ghost before_rest = rest@;
        let n = rest.remove(0);
        assert(n == before_rest[0]);
        assert(nodes_view(before_rest) == s.skip(k));
        assert(nodes_view(before_rest).len() == before_rest.len());
        assert(k < s.len());
        assert(s.skip(k)[0] == s[k]);
        assert(nodes_view(before_rest)[0] == n@);
        assert(n@ == s[k]);
        assert(rest@ =~= before_rest.drop_first());
        assert forall|j: int| 0 <= j < rest@.len() implies nodes_view(rest@)[j] == s.skip(k + 1)[j] by {
            assert(rest@[j] == before_rest[j + 1]);
            assert(nodes_view(before_rest)[j + 1] == s.skip(k)[j + 1]);
        }
        assert(nodes_view(rest@) =~= s.skip(k + 1));
        let m = match n {
            CollectionItemOrFolder::Folder(f) => {
                if f.name == target {
                    let ghost fv = nodes_view(f.item@);
                    assert(fv =~= s[k]->Folder_items);
                    let kept = remove_items(f.item, name);
                    let g = CollectionItemOrFolder::Folder(CollectionFolder { name: f.name, item: kept });
                    assert(g@->Folder_items =~= fv.filter(not_item_named(name@)));
                    g
                } else {
                    CollectionItemOrFolder::Folder(f)
                }
            },
            CollectionItemOrFolder::Item(i) => CollectionItemOrFolder::Item(i),
        };
        out.push(m);
        proof {
            k = k + 1;
        }
    }
    assert(nodes_view(out@) =~= s.map_values(|n: NodeModel| strip_folder(n, folder@, name@)));
    out
}

/// Deleting the folders named `name` from a list removes exactly those: no
/// folder of that name is left, every other node is kept, and the kept nodes
/// are nodes of the list.
pub proof fn lemma_delete_folder_precision(s: Seq<NodeModel>, name: Seq<char>)
    ensures
        forall|i: int|
            0 <= i < s.filter(not_folder_named(name)).len() ==> !is_folder_named(
                #[trigger] s.filter(not_folder_named(name))[i],
                name,
            ),
        forall|i: int|
            0 <= i < s.len() && !is_folder_named(#[trigger] s[i], name) ==> s.filter(
                not_folder_named(name),
            ).contains(s[i]),
        forall|n: NodeModel| #[trigger] s.filter(not_folder_named(name)).contains(n) ==> s.contains(n),
{
    let p = not_folder_named(name);
    assert forall|i: int| 0 <= i < s.filter(p).len() implies !is_folder_named(
        #[trigger] s.filter(p)[i],
        name,
    ) by {
        s.lemma_filter_pred(p, i);
    }
    assert forall|i: int| 0 <= i < s.len() && !is_folder_named(#[trigger] s[i], name) implies s.filter(
        p,
    ).contains(s[i]) by {
        s.lemma_filter_contains(p, i);
    }
    assert forall|n: NodeModel| #[trigger] s.filter(p).contains(n) implies s.contains(n) by {
        s.lemma_filter_contains_rev(p, n);
    }
}

/// Adding a request under the folder `folder` appends exactly one node, the
/// request, to the children of the first folder of that name and changes
/// nothing else.
pub proof fn lemma_add_request_precision(s: Seq<NodeModel>, folder: Seq<char>, item: NodeModel)
    requires
        first_folder(s, folder) < s.len(),
    ensures
        ({
            let r = with_item_added(s, folder, item);
            let i = first_folder(s, folder);
            &&& r.len() == s.len()
            &&& forall|j: int| 0 <= j < s.len() && j != i ==> r[j] == s[j]
            &&& r[i] is Folder
            &&& r[i]->Folder_name == folder
            &&& r[i]->Folder_items.len() == s[i]->Folder_items.len() + 1
            &&& r[i]->Folder_items.drop_last() == s[i]->Folder_items
            &&& r[i]->Folder_items.last() == item
        }),
{
    lemma_first_folder(s, folder);
    let i = first_folder(s, folder);
    assert(s[i]->Folder_items.push(item).drop_last() =~= s[i]->Folder_items);
}

} // verus!
