use vstd::prelude::*;

use crate::files::string_views;

verus! {

/// An absolute directory path, held as its components below the root.
#[derive(Debug, PartialEq, Eq)]
pub struct DirPath {
    pub parts: Vec<String>,
}

impl View for DirPath {
    type V = Seq<Seq<char>>;

    open spec fn view(&self) -> Seq<Seq<char>> {
        string_views(self.parts@)
    }
}

impl DirPath {
    /// The filesystem root.
    pub fn root() -> (r: DirPath)
        ensures
            r@ == Seq::<Seq<char>>::empty(),
    {
        let r = DirPath { parts: Vec::new() };
        assert(r@ =~= Seq::<Seq<char>>::empty());
        r
    }

    /// A copy of the first `n` components.
    fn prefix(&self, n: usize) -> (r: DirPath)
        requires
            n <= self@.len(),
        ensures
            r@ == self@.take(n as int),
    {
        let mut parts: Vec<String> = Vec::new();
        let mut i: usize = 0;
        while i < n
            invariant
                n <= self.parts.len(),
                i <= n,
                parts.len() == i,
                string_views(parts@) == self@.take(i as int),
            decreases n - i,
        {
            let part = self.parts[i].clone();
            assert(part@ == self.parts@[i as int]@);
            let ghost before = parts@;
            parts.push(part);
            assert forall|k: int| 0 <= k < i implies string_views(parts@)[k] == self@[k] by {
                assert(parts@[k] == before[k]);
                assert(string_views(before)[k] == self@.take(i as int)[k]);
            }
            assert(string_views(parts@) =~= self@.take(i + 1));
            i = i + 1;
        }
        DirPath { parts }
    }

    /// A copy of this path.
    pub fn duplicate(&self) -> (r: DirPath)
        ensures
            r@ == self@,
    {
        let r = self.prefix(self.parts.len());
        assert(self@.take(self@.len() as int) =~= self@);
        r
    }

    /// The containing directory, or `None` at the root.
    pub fn parent(&self) -> (r: Option<DirPath>)
        ensures
            r is None <==> self@.len() == 0,
            r is Some ==> r->0@ == self@.drop_last(),
    {
        if self.parts.len() == 0 {
            None
        } else {
            let r = self.prefix(self.parts.len() - 1);
            assert(self@.take(self@.len() - 1) =~= self@.drop_last());
            Some(r)
        }
    }

    /// The child of this directory with the given name.
    pub fn join(&self, name: &String) -> (r: DirPath)
        ensures
            r@ == self@.push(name@),
    {
        let mut r = self.duplicate();
        r.parts.push(name.clone());
        assert(r@ =~= self@.push(name@));
        r
    }
}

} // verus!
