//! Project discovery: the root of a project and the choice of its
//! TypeScript files. Walking and reading the disk is the caller's part; what
//! is decided of the paths it finds is decided here.

use vstd::prelude::*;
use vstd::string::*;
use crate::text::{split_on, split_text, str_eq, texts};

verus! {

/// A project: the directory from which its files are enumerated.
#[derive(Debug, Clone)]
pub struct Project {
    pub root: String,
}

/// The first of the directories that holds a `.git` entry. The list pairs
/// each directory with whether it holds one.
pub open spec fn first_git_root(ancestors: Seq<(String, bool)>) -> Option<Seq<char>>
    decreases ancestors.len(),
{
    if ancestors.len() == 0 {
        None
    } else if ancestors[0].1 {
        Some(ancestors[0].0@)
    } else {
        first_git_root(ancestors.drop_first())
    }
}

/// The extension of a path: what follows the last dot of its last
/// component, the components being parted by `/`. A component without a
/// dot has none, nor has one whose only dot is its first character, nor has
/// the component `..`.
pub open spec fn extension_of(path: Seq<char>) -> Option<Seq<char>> {
    let name = split_on(path, '/').last();
    let pieces = split_on(name, '.');
    if pieces.len() < 2 || (pieces.len() == 2 && pieces[0].len() == 0) || name == seq!['.', '.'] {
        None
    } else {
        Some(pieces.last())
    }
}

/// Whether a path names a TypeScript source: its extension is `ts` or
/// `tsx`.
pub open spec fn typescript_path(path: Seq<char>) -> bool {
    extension_of(path) == Some("ts"@) || extension_of(path) == Some("tsx"@)
}

/// The extension of `path`, if it has one.
pub fn path_extension(path: &str) -> (ext: Option<String>)
    ensures
        match ext {
            Some(e) => extension_of(path@) == Some(e@),
            None => extension_of(path@) is None,
        },
{
    let components = split_text(path, '/');
    let name = &components[components.len() - 1];
    assert(name@ == split_on(path@, '/').last()) by {
        assert(texts(components@).last() == components@.last()@);
    }
    let pieces = split_text(name.as_str(), '.');
    assert(forall|i: int| 0 <= i < pieces@.len() ==> texts(pieces@)[i] == pieces@[i]@);
    proof {
        reveal_strlit("..");
        assert(".."@ =~= seq!['.', '.']);
    }
    if pieces.len() < 2 || (pieces.len() == 2 && pieces[0].as_str().is_empty()) || str_eq(
        name.as_str(),
        "..",
    ) {
        None
    } else {
        Some(pieces[pieces.len() - 1].clone())
    }
}

/// Whether `path` names a TypeScript source.
pub fn is_typescript_file(path: &str) -> (yes: bool)
    ensures
        yes == typescript_path(path@),
{
    match path_extension(path) {
        Some(ext) => str_eq(ext.as_str(), "ts") || str_eq(ext.as_str(), "tsx"),
        None => false,
    }
}

impl Project {
    /// The root of the repository that holds a path: the first of the
    /// path's ancestors, itself included and nearest first, that holds a
    /// `.git` entry. The caller lists the ancestors and says of each
    /// whether it holds one.
    pub fn find_git_root(ancestors: &Vec<(String, bool)>) -> (root: Option<String>)
        ensures
            match root {
                Some(r) => first_git_root(ancestors@) == Some(r@),
                None => first_git_root(ancestors@) is None,
            },
    {
        let n = ancestors.len();
        let mut i: usize = 0;
        assert(ancestors@.skip(0) =~= ancestors@);
        while i < n
            invariant
                n == ancestors@.len(),
                i <= n,
                first_git_root(ancestors@) == first_git_root(ancestors@.skip(i as int)),
            decreases n - i,
        {
            proof {
                assert(ancestors@.skip(i as int).drop_first() =~= ancestors@.skip(i as int + 1));
            }
            if ancestors[i].1 {
                return Some(ancestors[i].0.clone());
            }
            i = i + 1;
        }
        None
    }

    /// The project of a canonical path: rooted at the repository that holds
    /// the path, or at the path itself where no ancestor is a repository.
    pub fn discover(canonical_path: &str, ancestors: &Vec<(String, bool)>) -> (project: Project)
        ensures
            project.root@ == match first_git_root(ancestors@) {
                Some(r) => r,
                None => canonical_path@,
            },
    {
        match Project::find_git_root(ancestors) {
            Some(root) => Project { root },
            None => Project { root: canonical_path.to_owned() },
        }
    }

    /// The TypeScript sources among the paths that a walk of the project
    /// found, in the order of the walk.
    pub fn find_typescript_files(&self, walked: &Vec<String>) -> (files: Vec<String>)
        ensures
            texts(files@) == texts(walked@).filter(|p: Seq<char>| typescript_path(p)),
    {
        let ghost all = texts(walked@);
        let ghost keep = |p: Seq<char>| typescript_path(p);
        let mut files: Vec<String> = Vec::new();
        let n = walked.len();
        let mut i: usize = 0;
        assert(all.take(0).filter(keep) =~= Seq::<Seq<char>>::empty());
        assert(texts(files@) =~= Seq::<Seq<char>>::empty());
        while i < n
            invariant
                n == walked@.len(),
                i <= n,
                all == texts(walked@),
                keep == (|p: Seq<char>| typescript_path(p)),
                texts(files@) == all.take(i as int).filter(keep),
            decreases n - i,
        {
            proof {
                assert(all.take(i as int + 1) =~= all.take(i as int).push(all[i as int]));
                all.take(i as int).lemma_filter_push(all[i as int], keep);
            }
            let ghost before = files@;
            if is_typescript_file(walked[i].as_str()) {
                let path = walked[i].clone();
                files.push(path);
                assert(texts(files@) =~= texts(before).push(path@));
            }
            i = i + 1;
        }
        assert(all.take(n as int) =~= all);
        files
    }
}

} // verus!
