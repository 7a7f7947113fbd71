//! An in-memory picture of the filesystem subtrees the walker visits.
//!
//! The walker itself performs no I/O: a caller snapshots each declared root
//! into an [`FsNode`] tree (entry names on the edges, full paths only at the
//! roots) and hands the walker an [`Fs`] value mapping declared path strings
//! to those trees. A declared path absent from the snapshot stands for a
//! path that does not exist.

use vstd::prelude::*;

verus! {

/// One filesystem entry: a plain file, or a directory with its children in
/// enumeration order.
pub enum FsNode {
    /// A non-directory entry.
    File,
    /// A directory and its direct children, in enumeration order.
    Dir(Vec<FsChild>),
}

/// A directory entry: its own name (one path component) and what it is.
pub struct FsChild {
    /// The entry's name, without any separator.
    pub name: String,
    /// The entry itself.
    pub node: FsNode,
}

/// A snapshotted root: the declared path and the tree found there.
pub struct FsRoot {
    /// The declared path, as the declaration spelled it.
    pub path: String,
    /// The tree rooted at that path.
    pub node: FsNode,
}

/// A snapshot of every declared root that exists on the filesystem.
pub struct Fs {
    /// The snapshotted roots. A declared path with no entry here does not
    /// exist.
    pub roots: Vec<FsRoot>,
}

/// The tree recorded for `path`: the first root with that path, if any.
pub open spec fn lookup_spec(roots: Seq<FsRoot>, path: Seq<char>) -> Option<FsNode>
    decreases roots.len(),
{
    if roots.len() == 0 {
        None
    } else if roots[0].path@ == path {
        Some(roots[0].node)
    } else {
        lookup_spec(roots.drop_first(), path)
    }
}

impl Fs {
    /// Finds the tree snapshotted for a declared path, if the path exists.
    pub fn lookup(&self, path: &String) -> (r: Option<&FsNode>)
        ensures
            match r {
                Some(node) => lookup_spec(self.roots@, path@) == Some(*node),
                None => lookup_spec(self.roots@, path@) is None,
            },
    {
        let n = self.roots.len();
        let mut i: usize = 0;
        proof {
            assert(self.roots@.subrange(0, n as int) =~= self.roots@);
        }
        while i < n
            invariant
                i <= n,
                n == self.roots@.len(),
                lookup_spec(self.roots@, path@) == lookup_spec(
                    self.roots@.subrange(i as int, n as int),
                    path@,
                ),
            decreases n - i,
        {
            let r = &self.roots[i];
            if r.path == *path {
                proof {
                    assert(self.roots@.subrange(i as int, n as int)[0] == self.roots@[i as int]);
                }
                return Some(&self.roots[i].node);
            }
            proof {
                let tail = self.roots@.subrange(i as int, n as int);
                assert(tail[0] == self.roots@[i as int]);
                assert(tail.drop_first() =~= self.roots@.subrange(i as int + 1, n as int));
            }
            i = i + 1;
        }
        None
    }
}

/// Well-formedness of a snapshotted tree: in every directory the entry
/// names are nonempty, separator-free and pairwise distinct.
pub open spec fn node_wf(node: FsNode) -> bool
    decreases node,
{
    match node {
        FsNode::File => true,
        FsNode::Dir(kids) => children_wf(kids@),
    }
}

/// Well-formedness of one directory's children.
pub open spec fn children_wf(kids: Seq<FsChild>) -> bool
    decreases kids,
{
    if kids.len() == 0 {
        true
    } else {
        &&& name_wf(kids.last().name@)
        &&& (forall|i: int| 0 <= i < kids.len() - 1 ==> kids[i].name@ != kids.last().name@)
        &&& node_wf(kids.last().node)
        &&& children_wf(kids.drop_last())
    }
}

/// A single entry name: nonempty and separator-free.
pub open spec fn name_wf(name: Seq<char>) -> bool {
    name.len() > 0 && forall|i: int| 0 <= i < name.len() ==> name[i] != '/'
}

} // verus!
