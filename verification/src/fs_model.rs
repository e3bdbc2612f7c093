//! An explicit model of a filesystem, local or remote, as a finite map
//! from absolute paths to nodes. A directory's whole tree is modelled as
//! one node carrying a content fingerprint, because the engines treat a
//! destination as a unit: it is linked, copied or removed as a whole.

use vstd::prelude::*;

verus! {

/// What stands at a path.
#[derive(Debug)]
pub enum FsNode {
    /// A directory tree whose contents fingerprint to `content`.
    Dir { content: u64 },
    /// A plain file whose contents fingerprint to `content`.
    File { content: u64 },
    /// A symbolic link to `target`; the link is its own entry and is
    /// removed as a link, never followed.
    Symlink { target: String },
    /// A directory junction (reparse point) to `target`, semantically a
    /// live link like a symlink.
    Junction { target: String },
}

impl Clone for FsNode {
    /// A clone is equal to the original.
    fn clone(&self) -> (r: Self)
        ensures
            r == *self,
    {
        match self {
            FsNode::Dir { content } => FsNode::Dir { content: *content },
            FsNode::File { content } => FsNode::File { content: *content },
            FsNode::Symlink { target } => FsNode::Symlink { target: target.clone() },
            FsNode::Junction { target } => FsNode::Junction { target: target.clone() },
        }
    }
}

/// A filesystem: a map from absolute path to node.
pub struct FsModel {
    entries: vstd::hash_map::StringHashMap<FsNode>,
}

/// The fingerprint visible at `path`, following one level of link: what a
/// reader of the destination would actually see.
pub open spec fn spec_effective_content(m: Map<Seq<char>, FsNode>, path: Seq<char>) -> Option<
    u64,
> {
    if m.contains_key(path) {
        match m[path] {
            FsNode::Dir { content } => Some(content),
            FsNode::File { content } => Some(content),
            FsNode::Symlink { target } => if m.contains_key(target@) {
                spec_node_content(m[target@])
            } else {
                None
            },
            FsNode::Junction { target } => if m.contains_key(target@) {
                spec_node_content(m[target@])
            } else {
                None
            },
        }
    } else {
        None
    }
}

/// The fingerprint a node itself carries, when it is not a link.
pub open spec fn spec_node_content(n: FsNode) -> Option<u64> {
    match n {
        FsNode::Dir { content } => Some(content),
        FsNode::File { content } => Some(content),
        FsNode::Symlink { .. } => None,
        FsNode::Junction { .. } => None,
    }
}

/// Whether `path` is a directory holding `content`.
pub open spec fn spec_is_dir_with(m: Map<Seq<char>, FsNode>, path: Seq<char>, content: u64) -> bool {
    m.contains_key(path) && m[path] == (FsNode::Dir { content })
}

impl FsModel {
    /// The abstract state: path to node.
    pub closed spec fn view(&self) -> Map<Seq<char>, FsNode> {
        self.entries@
    }

    /// An empty filesystem.
    pub fn new() -> (r: Self)
        ensures
            r@ == Map::<Seq<char>, FsNode>::empty(),
    {
        FsModel { entries: vstd::hash_map::StringHashMap::new() }
    }

    /// Whether anything exists at `path`.
    pub fn contains(&self, path: &str) -> (r: bool)
        ensures
            r == self@.contains_key(path@),
    {
        self.entries.contains_key(path)
    }

    /// The node at `path`, if any.
    pub fn get(&self, path: &str) -> (r: Option<&FsNode>)
        ensures
            match r {
                Some(n) => self@.contains_key(path@) && *n == self@[path@],
                None => !self@.contains_key(path@),
            },
    {
        self.entries.get(path)
    }

    /// Creates or replaces the node at `path`.
    pub fn set(&mut self, path: String, node: FsNode)
        ensures
            final(self)@ == old(self)@.insert(path@, node),
    {
        self.entries.insert(path, node);
    }

    /// Removes whatever stands at `path`; removing an absent path leaves
    /// the filesystem unchanged, so removal is idempotent.
    pub fn remove(&mut self, path: &str)
        ensures
            final(self)@ == old(self)@.remove(path@),
    {
        self.entries.remove(path);
    }

    /// The fingerprint visible at `path`, following one level of link.
    pub fn effective_content(&self, path: &str) -> (r: Option<u64>)
        ensures
            r == spec_effective_content(self@, path@),
    {
        match self.entries.get(path) {
            None => None,
            Some(node) => match node {
                FsNode::Dir { content } => Some(*content),
                FsNode::File { content } => Some(*content),
                FsNode::Symlink { target } => self.node_content_at(target.as_str()),
                FsNode::Junction { target } => self.node_content_at(target.as_str()),
            },
        }
    }

    /// The fingerprint the node at `path` itself carries.
    fn node_content_at(&self, path: &str) -> (r: Option<u64>)
        ensures
            r == if self@.contains_key(path@) {
                spec_node_content(self@[path@])
            } else {
                None::<u64>
            },
    {
        match self.entries.get(path) {
            None => None,
            Some(node) => match node {
                FsNode::Dir { content } => Some(*content),
                FsNode::File { content } => Some(*content),
                FsNode::Symlink { .. } => None,
                FsNode::Junction { .. } => None,
            },
        }
    }
}

} // verus!
