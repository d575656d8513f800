//! Resolved paths as lists of their components.
use crate::text::{same, texts_view};
use vstd::prelude::*;

verus! {

/// Whether a path lies under a directory, component by component.
pub open spec fn lies_under(path: Seq<Seq<char>>, dir: Seq<Seq<char>>) -> bool {
    dir.len() <= path.len() && path.take(dir.len() as int) == dir
}

/// Decides whether a path lies under a directory.
pub fn path_lies_under(path: &Vec<String>, dir: &Vec<String>) -> (r: bool)
    ensures
        r == lies_under(texts_view(path@), texts_view(dir@)),
{
    let ghost p = texts_view(path@);
    let ghost d = texts_view(dir@);
    if path.len() < dir.len() {
        return false;
    }
    let mut i: usize = 0;
    while i < dir.len()
        invariant
            i <= dir.len() <= path.len(),
            p == texts_view(path@),
            d == texts_view(dir@),
            forall|j: int| 0 <= j < i ==> p[j] == #[trigger] d[j],
        decreases dir.len() - i,
    {
        assert(p[i as int] == path@[i as int]@ && d[i as int] == dir@[i as int]@);
        if !same(path[i].as_str(), dir[i].as_str()) {
            assert(p.take(d.len() as int)[i as int] != d[i as int]);
            return false;
        }
        i += 1;
    }
    assert(p.take(d.len() as int) =~= d);
    true
}

/// Whether a path lies under one of the directories that could be resolved.
pub open spec fn lies_under_any(path: Seq<Seq<char>>, roots: Seq<Option<Vec<String>>>) -> bool {
    exists|i: int|
        0 <= i < roots.len() && (#[trigger] roots[i]) is Some && lies_under(
            path,
            texts_view(roots[i]->0@),
        )
}

/// Decides whether a path lies under one of the directories that could be resolved.
pub fn path_in_roots(path: &Vec<String>, roots: &Vec<Option<Vec<String>>>) -> (r: bool)
    ensures
        r == lies_under_any(texts_view(path@), roots@),
{
    let mut i: usize = 0;
    while i < roots.len()
        invariant
            i <= roots.len(),
            forall|j: int|
                0 <= j < i && (#[trigger] roots@[j]) is Some ==> !lies_under(
                    texts_view(path@),
                    texts_view(roots@[j]->0@),
                ),
        decreases roots.len() - i,
    {
        match &roots[i] {
            Some(root) => if path_lies_under(path, root) {
                return true;
            },
            None => {},
        }
        i += 1;
    }
    false
}

} // verus!
