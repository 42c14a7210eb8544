//! File-system paths as the shell builds them: a root handed over by the
//! operating system (or by the user), followed by the components the shell
//! joins onto it.

use vstd::prelude::*;

verus! {

/// A path: `root` joined with each of `parts` in turn.
#[derive(Debug, PartialEq)]
pub struct FsPath {
    pub root: String,
    pub parts: Vec<String>,
}

/// The model of a list of texts.
pub open spec fn texts(s: Seq<String>) -> Seq<Seq<char>> {
    s.map_values(|t: String| t@)
}

impl View for FsPath {
    type V = (Seq<char>, Seq<Seq<char>>);

    open spec fn view(&self) -> (Seq<char>, Seq<Seq<char>>) {
        (self.root@, texts(self.parts@))
    }
}

/// `base` joined with each of `more` in turn.
pub open spec fn joined(base: (Seq<char>, Seq<Seq<char>>), more: Seq<Seq<char>>) -> (Seq<char>, Seq<Seq<char>>) {
    (base.0, base.1 + more)
}

/// The path that consists of its root alone.
pub open spec fn root_only(root: Seq<char>) -> (Seq<char>, Seq<Seq<char>>) {
    (root, Seq::empty())
}

impl FsPath {
    /// The path `root`, with nothing joined onto it.
    pub fn from_root(root: String) -> (p: FsPath)
        ensures
            p@ == root_only(root@),
    {
        let p = FsPath { root, parts: Vec::new() };
        assert(texts(p.parts@) =~= Seq::empty());
        p
    }

    /// A copy of this path.
    pub fn duplicate(&self) -> (p: FsPath)
        ensures
            p@ == self@,
    {
        let mut parts: Vec<String> = Vec::new();
        let mut i: usize = 0;
        while i < self.parts.len()
            invariant
                i <= self.parts@.len(),
                parts@.len() == i,
                forall|j: int| 0 <= j < i ==> #[trigger] parts@[j]@ == self.parts@[j]@,
            decreases self.parts.len() - i,
        {
            let part = self.parts[i].clone();
            parts.push(part);
            i += 1;
        }
        assert(texts(parts@) =~= texts(self.parts@));
        FsPath { root: self.root.clone(), parts }
    }

    /// This path joined with the component `part`, as `Path::join` does with
    /// a relative component.
    pub fn join(&self, part: &str) -> (p: FsPath)
        ensures
            p@ == joined(self@, seq![part@]),
    {
        let mut p = self.duplicate();
        let ghost before = p.parts@;
        p.parts.push(part.to_owned());
        assert(texts(p.parts@) =~= texts(before) + seq![part@]);
        p
    }
}

} // verus!
