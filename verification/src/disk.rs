//! A root on disk. The handle holds the root alone; reading and writing the
//! files below it is left to the program that uses the library.

use vstd::prelude::*;
use vstd::string::*;
use crate::path::{is_relative, join, join_path};

verus! {

/// A root of a tree on disk.
#[derive(Debug, Clone, PartialEq, Eq)]
pub struct RealFileSystem {
    pub root: String,
}

impl RealFileSystem {
    /// A second handle with the same root.
    pub fn duplicate(&self) -> (r: Self)
        ensures
            r.root@ == self.root@,
    {
        RealFileSystem { root: self.root.clone() }
    }

    /// A handle whose root is `path` below this root.
    pub fn subsystem(&self, path: &str) -> (r: Self)
        requires
            is_relative(path@),
        ensures
            r.root@ == join(self.root@, path@),
    {
        RealFileSystem { root: join_path(self.root.as_str(), path) }
    }

    /// The full path of `path` under this root.
    pub fn full_path_for(&self, path: &str) -> (r: String)
        requires
            is_relative(path@),
        ensures
            r@ == join(self.root@, path@),
    {
        join_path(self.root.as_str(), path)
    }
}

} // verus!
