//! Paths of nodes in a scene, as lists of node names.
use vstd::prelude::*;

use crate::explorer::texts;

verus! {

pub open spec fn ends_with(path: Seq<Seq<char>>, needle: Seq<Seq<char>>) -> bool {
    needle.len() <= path.len() && path.subrange(path.len() - needle.len(), path.len() as int)
        == needle
}

/// Whether the scene path ends with the names of `needle`.
pub fn path_ends_with(path: &Vec<String>, needle: &Vec<String>) -> (r: bool)
    ensures
        r == ends_with(texts(path@), texts(needle@)),
{
    let n = path.len();
    let m = needle.len();
    if m > n {
        return false;
    }
    let ghost tp = texts(path@);
    let ghost tn = texts(needle@);
    let mut i: usize = 0;
    while i < m
        invariant
            n == path@.len(),
            m == needle@.len(),
            m <= n,
            i <= m,
            tp == texts(path@),
            tn == texts(needle@),
            forall|j: int| 0 <= j < i ==> tp[n - m + j] == tn[j],
        decreases m - i,
    {
        if !(path[n - m + i] == needle[i]) {
            assert(tp.subrange(n - m, n as int)[i as int] != tn[i as int]);
            return false;
        }
        i = i + 1;
    }
    assert(tp.subrange(n - m, n as int) =~= tn);
    true
}


/// Something that stands at a path in a scene.
pub trait PathChecksExt {
    spec fn path_view(&self) -> Seq<Seq<char>>;

    fn path_vec(&self) -> (r: Vec<String>)
        ensures
            texts(r@) == self.path_view(),
    ;

    fn path_ends_with(&self, needle: &Vec<String>) -> (r: bool)
        ensures
            r == ends_with(self.path_view(), texts(needle@)),
    {
        path_ends_with(&self.path_vec(), needle)
    }
}

/// A scene path: the names of the nodes from the root down.
#[derive(Clone, Debug)]
pub struct ScenePath {
    pub names: Vec<String>,
}

impl PathChecksExt for ScenePath {
    open spec fn path_view(&self) -> Seq<Seq<char>> {
        texts(self.names@)
    }

    fn path_vec(&self) -> (r: Vec<String>) {
        let mut r: Vec<String> = Vec::new();
        let mut i: usize = 0;
        while i < self.names.len()
            invariant
                i <= self.names@.len(),
                texts(r@) == texts(self.names@).subrange(0, i as int),
            decreases self.names@.len() - i,
        {
            let ghost before = r@;
            let name = self.names[i].clone();
            r.push(name);
            assert(texts(r@) =~= texts(before).push(self.names@[i as int]@));
            assert(texts(r@) =~= texts(self.names@).subrange(0, i + 1));
            i = i + 1;
        }
        assert(texts(self.names@).subrange(0, i as int) =~= texts(self.names@));
        r
    }
}

} // verus!
