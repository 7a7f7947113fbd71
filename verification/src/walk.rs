//! The recursive, filterable directory walker.
//!
//! [`collect_spec`] says exactly which path strings a walk of one snapshotted
//! root yields: the root itself unconditionally, then for every directory in
//! enumeration order each child that passes the filters — a passing file
//! child contributes its path, a passing directory child contributes its own
//! whole walk followed by its path once more, and a failing child is pruned
//! together with its entire subtree. [`collect_resources`] is the verified
//! executable walker.

use vstd::prelude::*;

use crate::matcher::{config_of, eval_filters, filter_passes, FilterConfig, Matcher};
use crate::pathname::{child_path, descends, join_path, lemma_descends_trans,
    lemma_sibling_separation};
use crate::tree::{children_wf, name_wf, node_wf, FsChild, FsNode};

verus! {

/// The paths a walk contributes below one directory, children considered in
/// enumeration order.
pub open spec fn walk_entries(parent: Seq<char>, kids: Seq<FsChild>, f: FilterConfig) -> Seq<
    Seq<char>,
>
    decreases kids,
{
    if kids.len() == 0 {
        Seq::empty()
    } else {
        walk_entries(parent, kids.drop_last(), f) + child_entries(parent, kids.last(), f)
    }
}

/// The paths one directory entry contributes: nothing when the filters
/// reject it; its path when it is a file; its own subtree's walk followed by
/// its path again when it is a directory.
pub open spec fn child_entries(parent: Seq<char>, c: FsChild, f: FilterConfig) -> Seq<Seq<char>>
    decreases c,
{
    let cpath = child_path(parent, c.name@);
    if !filter_passes(f, cpath) {
        Seq::empty()
    } else {
        match c.node {
            FsNode::File => seq![cpath],
            FsNode::Dir(gkids) => (seq![cpath] + walk_entries(cpath, gkids@, f)).push(cpath),
        }
    }
}

/// Every path a walk of an existing root yields: the root first, whatever
/// the filters say, then the entries of its subtree.
pub open spec fn collect_spec(path: Seq<char>, node: FsNode, f: FilterConfig) -> Seq<Seq<char>> {
    match node {
        FsNode::File => seq![path],
        FsNode::Dir(kids) => seq![path] + walk_entries(path, kids@, f),
    }
}

/// Walks one existing root over its snapshot, returning every surviving
/// path in walk order.
pub fn collect_resources(
    path: &String,
    node: &FsNode,
    gi: Option<&Matcher>,
    ge: Option<&Matcher>,
    li: Option<&Matcher>,
    le: Option<&Matcher>,
) -> (r: Vec<String>)
    ensures
        r.deep_view() == collect_spec(path@, *node, config_of(gi, ge, li, le)),
    decreases *node,
{
    let ghost f = config_of(gi, ge, li, le);
    let mut result: Vec<String> = Vec::new();
    result.push(path.clone());
    match node {
        FsNode::File => {
            proof {
                assert(result.deep_view() =~= collect_spec(path@, *node, f));
            }
            result
        },
        FsNode::Dir(kids) => {
            let n = kids.len();
            let mut i: usize = 0;
            proof {
                assert(result.deep_view() =~= seq![path@] + walk_entries(
                    path@,
                    kids@.take(0),
                    f,
                ));
            }
            while i < n
                invariant
                    i <= n,
                    n == kids@.len(),
                    *node == FsNode::Dir(*kids),
                    f == config_of(gi, ge, li, le),
                    result.deep_view() == seq![path@] + walk_entries(path@, kids@.take(i as int), f),
                decreases n - i,
            {
                let child = &kids[i];
                let cpath = join_path(path, &child.name);
                let ghost pre = result.deep_view();
                if eval_filters(gi, ge, li, le, &cpath) {
                    match &child.node {
                        FsNode::File => {
                            result.push(cpath);
                            proof {
                                assert(result.deep_view() =~= pre + child_entries(
                                    path@,
                                    kids@[i as int],
                                    f,
                                ));
                            }
                        },
                        FsNode::Dir(_) => {
                            proof {
                                assert(node->Dir_0 == *kids);
                                assert(decreases_to!(*node => node->Dir_0));
                                assert(decreases_to!(*kids => kids@[i as int]));
                                assert(decreases_to!(kids@[i as int] => kids@[i as int].node));
                            }
                            let mut nested = collect_resources(&cpath, &child.node, gi, ge, li, le);
                            let ghost nested_view = nested.deep_view();
                            result.append(&mut nested);
                            result.push(cpath);
                            proof {
                                assert(result.deep_view() =~= pre + (nested_view.push(cpath@)));
                                assert(nested_view.push(cpath@) =~= child_entries(
                                    path@,
                                    kids@[i as int],
                                    f,
                                ));
                            }
                        },
                    }
                } else {
                    proof {
                        assert(result.deep_view() =~= pre + child_entries(
                            path@,
                            kids@[i as int],
                            f,
                        ));
                    }
                }
                proof {
                    let upto = kids@.take(i as int + 1);
                    assert(upto.drop_last() =~= kids@.take(i as int));
                    assert(upto.last() == kids@[i as int]);
                    assert(result.deep_view() =~= seq![path@] + walk_entries(path@, upto, f));
                }
                i = i + 1;
            }
            proof {
                assert(kids@.take(n as int) =~= kids@);
            }
            result
        },
    }
}

/// Everything a walk contributes below a directory lies strictly inside
/// that directory's subtree.
pub proof fn lemma_walk_descends(parent: Seq<char>, kids: Seq<FsChild>, f: FilterConfig)
    ensures
        forall|x: Seq<char>|
            #[trigger] walk_entries(parent, kids, f).contains(x) ==> descends(parent, x)
                && x.len() > parent.len(),
    decreases kids,
{
    broadcast use vstd::seq_lib::lemma_seq_concat_contains_all_elements;
    broadcast use vstd::seq_lib::lemma_seq_empty_contains_nothing;

    if kids.len() > 0 {
        lemma_walk_descends(parent, kids.drop_last(), f);
        let c = kids.last();
        let cpath = child_path(parent, c.name@);
        assert(cpath.subrange(0, parent.len() as int) =~= parent);
        assert(descends(parent, cpath));
        let front = walk_entries(parent, kids.drop_last(), f);
        let part = child_entries(parent, c, f);
        assert(walk_entries(parent, kids, f) == front + part);
        assert forall|x: Seq<char>|
            #[trigger] walk_entries(parent, kids, f).contains(x) implies descends(parent, x)
            && x.len() > parent.len() by {
            if !front.contains(x) {
                assert(part.contains(x));
                assert(filter_passes(f, cpath));
                match c.node {
                    FsNode::File => {
                        let j = choose|j: int| 0 <= j < part.len() && part[j] == x;
                        assert(x == cpath);
                    },
                    FsNode::Dir(gkids) => {
                        lemma_walk_descends(cpath, gkids@, f);
                        let inner = seq![cpath] + walk_entries(cpath, gkids@, f);
                        let j = choose|j: int| 0 <= j < part.len() && part[j] == x;
                        if 1 <= j < inner.len() {
                            assert(walk_entries(cpath, gkids@, f)[j - 1] == x);
                            assert(walk_entries(cpath, gkids@, f).contains(x));
                            lemma_descends_trans(parent, cpath, x);
                        } else {
                            assert(x == cpath);
                        }
                    },
                }
            }
        }
    }
}

/// Everything a walk contributes below a directory lies in the subtree of
/// one of its passing children.
pub proof fn lemma_walk_under_children(parent: Seq<char>, kids: Seq<FsChild>, f: FilterConfig)
    ensures
        forall|x: Seq<char>|
            #[trigger] walk_entries(parent, kids, f).contains(x) ==> exists|j: int|
                0 <= j < kids.len() && filter_passes(f, child_path(parent, #[trigger] kids[j].name@))
                    && descends(child_path(parent, kids[j].name@), x),
    decreases kids,
{
    broadcast use vstd::seq_lib::lemma_seq_concat_contains_all_elements;

    if kids.len() > 0 {
        lemma_walk_under_children(parent, kids.drop_last(), f);
        let c = kids.last();
        let cpath = child_path(parent, c.name@);
        assert forall|x: Seq<char>|
            #[trigger] walk_entries(parent, kids, f).contains(x) implies exists|j: int|
            0 <= j < kids.len() && filter_passes(f, child_path(parent, #[trigger] kids[j].name@))
                && descends(child_path(parent, kids[j].name@), x) by {
            if walk_entries(parent, kids.drop_last(), f).contains(x) {
                let j = choose|j: int|
                    0 <= j < kids.drop_last().len() && filter_passes(
                        f,
                        child_path(parent, kids.drop_last()[j].name@),
                    ) && descends(child_path(parent, kids.drop_last()[j].name@), x);
                assert(kids[j] == kids.drop_last()[j]);
            } else {
                assert(child_entries(parent, c, f).contains(x));
                assert(filter_passes(f, cpath));
                let last = kids.len() - 1;
                assert(kids[last] == c);
                match c.node {
                    FsNode::File => {
                        assert(x == cpath);
                        assert(descends(cpath, x));
                    },
                    FsNode::Dir(gkids) => {
                        let inner = (seq![cpath] + walk_entries(cpath, gkids@, f)).push(cpath);
                        let j = choose|j: int| 0 <= j < inner.len() && inner[j] == x;
                        if 0 < j < inner.len() - 1 {
                            assert(walk_entries(cpath, gkids@, f)[j - 1] == x);
                            assert(walk_entries(cpath, gkids@, f).contains(x));
                            lemma_walk_descends(cpath, gkids@, f);
                        } else {
                            assert(x == cpath);
                        }
                        assert(descends(cpath, x));
                    },
                }
            }
        }
    }
}

/// Pruning: when the filters reject one child of a well-formed directory,
/// nothing anywhere inside that child's subtree — the child itself
/// included — appears in the directory's walk.
pub proof fn lemma_excluded_child_pruned_in_walk(
    parent: Seq<char>,
    kids: Seq<FsChild>,
    f: FilterConfig,
    i: int,
)
    requires
        children_wf(kids),
        0 <= i < kids.len(),
        !filter_passes(f, child_path(parent, kids[i].name@)),
    ensures
        forall|x: Seq<char>|
            #[trigger] walk_entries(parent, kids, f).contains(x) ==> !descends(
                child_path(parent, kids[i].name@),
                x,
            ),
{
    lemma_walk_under_children(parent, kids, f);
    lemma_children_wf_names(kids);
    assert forall|x: Seq<char>|
        #[trigger] walk_entries(parent, kids, f).contains(x) implies !descends(
        child_path(parent, kids[i].name@),
        x,
    ) by {
        let j = choose|j: int|
            0 <= j < kids.len() && filter_passes(f, child_path(parent, kids[j].name@)) && descends(
                child_path(parent, kids[j].name@),
                x,
            );
        assert(kids[j].name@ != kids[i].name@);
        lemma_sibling_separation(parent, kids[i].name@, kids[j].name@, x);
    }
}

/// Pruning, stated on a whole collected root: exclusion of a directory
/// entry removes the entry's entire subtree from the result, not just the
/// entry itself.
pub proof fn lemma_excluded_child_pruned(path: Seq<char>, node: FsNode, f: FilterConfig, i: int)
    requires
        node_wf(node),
        node is Dir,
        0 <= i < node->Dir_0@.len(),
        !filter_passes(f, child_path(path, node->Dir_0@[i].name@)),
    ensures
        forall|x: Seq<char>|
            #[trigger] collect_spec(path, node, f).contains(x) ==> !descends(
                child_path(path, node->Dir_0@[i].name@),
                x,
            ),
{
    broadcast use vstd::seq_lib::lemma_seq_concat_contains_all_elements;

    let kids = node->Dir_0@;
    let cpath = child_path(path, kids[i].name@);
    lemma_excluded_child_pruned_in_walk(path, kids, f, i);
    assert(collect_spec(path, node, f) == seq![path] + walk_entries(path, kids, f));
    assert forall|x: Seq<char>|
        #[trigger] collect_spec(path, node, f).contains(x) implies !descends(cpath, x) by {
        if !walk_entries(path, kids, f).contains(x) {
            let j = choose|j: int|
                0 <= j < seq![path].len() && seq![path][j] == x;
            assert(x == path);
            assert(x.len() < cpath.len());
        }
    }
}

/// In a well-formed directory every entry name is well formed and the names
/// are pairwise distinct.
pub proof fn lemma_children_wf_names(kids: Seq<FsChild>)
    requires
        children_wf(kids),
    ensures
        forall|j: int| 0 <= j < kids.len() ==> name_wf(#[trigger] kids[j].name@),
        forall|j: int, k: int|
            0 <= j < k < kids.len() ==> #[trigger] kids[j].name@ != #[trigger] kids[k].name@,
    decreases kids,
{
    if kids.len() > 0 {
        lemma_children_wf_names(kids.drop_last());
        assert(forall|j: int|
            0 <= j < kids.len() - 1 ==> #[trigger] kids[j] == kids.drop_last()[j]);
    }
}

} // verus!
