//! The resolution of imports: which specifiers can lead to a file of the
//! project, where such a file is looked for, and which lookup counts. The
//! lookups themselves are the caller's part.

use vstd::prelude::*;
use vstd::string::*;
use crate::parser::pair_views;
use crate::text::{starts_with_char, texts};

verus! {

/// Whether an import specifier is relative: it begins with a dot. Only a
/// relative specifier can lead to a file of the project.
pub open spec fn relative_specifier(specifier: Seq<char>) -> bool {
    specifier.len() > 0 && specifier[0] == '.'
}

/// The paths under which the file that an import names is looked for, in
/// the order in which they are tried: the target itself, then the target
/// with `.ts`, `.tsx`, `/index.ts` and `/index.tsx` after it. The target is
/// the specifier joined to the directory of the importing file.
pub open spec fn candidates_of(target: Seq<char>) -> Seq<Seq<char>> {
    seq![
        target,
        target + ".ts"@,
        target + ".tsx"@,
        target + "/index.ts"@,
        target + "/index.tsx"@,
    ]
}

/// The first of the given lookups that found a file.
pub open spec fn first_found(lookups: Seq<Option<String>>) -> Option<Seq<char>>
    decreases lookups.len(),
{
    if lookups.len() == 0 {
        None
    } else {
        match lookups[0] {
            Some(found) => Some(found@),
            None => first_found(lookups.drop_first()),
        }
    }
}

/// The file that an import leads to: none for a specifier that is not
/// relative, else what the first successful lookup found.
pub open spec fn resolved_import(specifier: Seq<char>, lookups: Seq<Option<String>>) -> Option<
    Seq<char>,
> {
    if relative_specifier(specifier) {
        first_found(lookups)
    } else {
        None
    }
}

/// The pairs (importing file, imported file) of a file's imports: one for
/// each import that leads to a file, in the order of the imports.
pub open spec fn import_pairs(path: Seq<char>, targets: Seq<Option<String>>) -> Seq<
    (Seq<char>, Seq<char>),
>
    decreases targets.len(),
{
    if targets.len() == 0 {
        Seq::empty()
    } else {
        let before = import_pairs(path, targets.drop_last());
        match targets.last() {
            Some(to) => before.push((path, to@)),
            None => before,
        }
    }
}

/// Whether `specifier` is a relative import specifier.
pub fn is_relative_import(specifier: &str) -> (yes: bool)
    ensures
        yes == relative_specifier(specifier@),
{
    starts_with_char(specifier, '.')
}

fn with_suffix(target: &str, suffix: &str) -> (path: String)
    ensures
        path@ == target@ + suffix@,
{
    let mut path = String::new();
    path.append(target);
    path.append(suffix);
    assert(path@ =~= target@ + suffix@);
    path
}

/// The paths under which the file that an import names is looked for, in
/// the order in which they are to be tried.
pub fn import_candidates(target: &str) -> (candidates: Vec<String>)
    ensures
        texts(candidates@) == candidates_of(target@),
{
    let mut candidates: Vec<String> = Vec::new();
    candidates.push(target.to_owned());
    candidates.push(with_suffix(target, ".ts"));
    candidates.push(with_suffix(target, ".tsx"));
    candidates.push(with_suffix(target, "/index.ts"));
    candidates.push(with_suffix(target, "/index.tsx"));
    assert(texts(candidates@) =~= candidates_of(target@));
    candidates
}

/// The file that an import leads to. `lookups` holds, for each candidate
/// path in the order of `import_candidates`, the canonical path of the file
/// that was found there, or nothing.
pub fn resolve_import_path(import_path: &str, lookups: &Vec<Option<String>>) -> (resolved: Option<
    String,
>)
    ensures
        match resolved {
            Some(to) => resolved_import(import_path@, lookups@) == Some(to@),
            None => resolved_import(import_path@, lookups@) is None,
        },
{
    if !is_relative_import(import_path) {
        return None;
    }
    let n = lookups.len();
    let mut i: usize = 0;
    assert(lookups@.skip(0) =~= lookups@);
    while i < n
        invariant
            n == lookups@.len(),
            i <= n,
            relative_specifier(import_path@),
            first_found(lookups@) == first_found(lookups@.skip(i as int)),
        decreases n - i,
    {
        proof {
            assert(lookups@.skip(i as int).drop_first() =~= lookups@.skip(i as int + 1));
            assert(lookups@.skip(i as int)[0] == lookups@[i as int]);
        }
        match &lookups[i] {
            Some(found) => {
                return Some(found.clone());
            },
            None => {},
        }
        i = i + 1;
    }
    None
}

/// The pairs (importing file, imported file) of the file `path`. `targets`
/// holds, for each import of the file, the file that it leads to or
/// nothing.
pub fn extract_import_edges(path: &str, targets: &Vec<Option<String>>) -> (pairs: Vec<
    (String, String),
>)
    ensures
        pair_views(pairs@) == import_pairs(path@, targets@),
{
    let mut pairs: Vec<(String, String)> = Vec::new();
    let n = targets.len();
    let mut i: usize = 0;
    assert(pair_views(pairs@) =~= import_pairs(path@, targets@.take(0)));
    while i < n
        invariant
            n == targets@.len(),
            i <= n,
            pair_views(pairs@) == import_pairs(path@, targets@.take(i as int)),
        decreases n - i,
    {
        proof {
            assert(targets@.take(i as int + 1).drop_last() =~= targets@.take(i as int));
        }
        let ghost before = pairs@;
        match &targets[i] {
            Some(to) => {
                let pair = (path.to_owned(), to.clone());
                pairs.push(pair);
                assert(pair_views(pairs@) =~= pair_views(before).push((pair.0@, pair.1@)));
            },
            None => {},
        }
        i = i + 1;
    }
    assert(targets@.take(n as int) =~= targets@);
    pairs
}

/// A file imports another exactly where one of its imports leads to it:
/// the pair (path, to) is among the import pairs of `path` if and only if
/// one of the targets is `to`.
pub proof fn lemma_import_pair_iff_target(
    path: Seq<char>,
    targets: Seq<Option<String>>,
    to: Seq<char>,
)
    ensures
        import_pairs(path, targets).contains((path, to)) <==> exists|i: int|
            0 <= i < targets.len() && (#[trigger] targets[i]) is Some && targets[i]->0@ == to,
    decreases targets.len(),
{
    if targets.len() == 0 {
    } else {
        let rest = targets.drop_last();
        let before = import_pairs(path, rest);
        lemma_import_pair_iff_target(path, rest, to);
        let all = import_pairs(path, targets);
        let last = targets.len() - 1;
        if all.contains((path, to)) {
            let k = choose|k: int| 0 <= k < all.len() && all[k] == (path, to);
            if k < before.len() {
                assert(before[k] == (path, to));
                assert(before.contains((path, to)));
                let i = choose|i: int|
                    0 <= i < rest.len() && (#[trigger] rest[i]) is Some && rest[i]->0@ == to;
                assert(targets[i] == rest[i]);
            } else {
                assert(targets[last] is Some && targets[last]->0@ == to);
            }
        }
        if exists|i: int|
            0 <= i < targets.len() && (#[trigger] targets[i]) is Some && targets[i]->0@ == to {
            let i = choose|i: int|
                0 <= i < targets.len() && (#[trigger] targets[i]) is Some && targets[i]->0@ == to;
            if i < last {
                assert(rest[i] == targets[i]);
                assert(before.contains((path, to)));
                let k = choose|k: int| 0 <= k < before.len() && before[k] == (path, to);
                assert(all[k] == (path, to));
            } else {
                assert(all[all.len() - 1] == (path, to));
            }
        }
    }
}

} // verus!
