//! Absolute paths as lists of components; the root has none.
use vstd::prelude::*;
use crate::text::{append_str, copy_of};

verus! {

/// An absolute path, held as its components from the root down.
pub struct FsPath {
    pub parts: Vec<String>,
}

impl View for FsPath {
    type V = Seq<Seq<char>>;

    open spec fn view(&self) -> Seq<Seq<char>> {
        self.parts@.map_values(|p: String| p@)
    }
}

/// The text of a path: `/` for the root, else each component after a `/`.
pub open spec fn parts_text(ps: Seq<Seq<char>>) -> Seq<char>
    decreases ps.len(),
{
    if ps.len() == 0 {
        Seq::empty()
    } else {
        parts_text(ps.drop_last()) + seq!['/'] + ps.last()
    }
}

pub open spec fn path_text(ps: Seq<Seq<char>>) -> Seq<char> {
    if ps.len() == 0 {
        seq!['/']
    } else {
        parts_text(ps)
    }
}

impl FsPath {
    /// The filesystem root.
    pub fn root() -> (r: FsPath)
        ensures
            r@ == Seq::<Seq<char>>::empty(),
    {
        let r = FsPath { parts: Vec::new() };
        assert(r@ =~= Seq::<Seq<char>>::empty());
        r
    }

    /// A copy of the path.
    pub fn duplicate(&self) -> (r: FsPath)
        ensures
            r@ == self@,
    {
        let mut parts: Vec<String> = Vec::new();
        let mut i: usize = 0;
        while i < self.parts.len()
            invariant
                i <= self.parts@.len(),
                parts@.len() == i,
                forall|k: int| 0 <= k < i ==> parts@[k]@ == self.parts@[k]@,
            decreases self.parts@.len() - i,
        {
            parts.push(copy_of(self.parts[i].as_str()));
            i = i + 1;
        }
        let r = FsPath { parts };
        assert(r@ =~= self@);
        r
    }

    /// The path of the entry `name` inside this directory.
    pub fn join(&self, name: &str) -> (r: FsPath)
        ensures
            r@ == self@.push(name@),
    {
        let mut r = self.duplicate();
        r.parts.push(copy_of(name));
        assert(r@ =~= self@.push(name@));
        r
    }

    /// Whether two paths name the same place.
    pub fn same(&self, other: &FsPath) -> (r: bool)
        ensures
            r == (self@ == other@),
    {
        if self.parts.len() != other.parts.len() {
            assert(self@.len() != other@.len());
            return false;
        }
        let mut i: usize = 0;
        while i < self.parts.len()
            invariant
                self.parts@.len() == other.parts@.len(),
                i <= self.parts@.len(),
                forall|k: int| 0 <= k < i ==> self@[k] == other@[k],
            decreases self.parts@.len() - i,
        {
            if self.parts[i] != other.parts[i] {
                assert(self@[i as int] != other@[i as int]);
                return false;
            }
            i = i + 1;
        }
        assert(self@ =~= other@);
        true
    }
}

/// Whether the path is the filesystem root.
pub fn is_root(path: &FsPath) -> (r: bool)
    ensures
        r == (path@.len() == 0),
{
    path.parts.len() == 0
}

/// The directory that holds the path; the root has none.
pub fn maybe_parent(path: &FsPath) -> (r: Option<FsPath>)
    ensures
        path@.len() == 0 ==> r is None,
        path@.len() > 0 ==> r is Some && r->0@ == path@.drop_last(),
{
    if path.parts.len() == 0 {
        None
    } else {
        let mut p = path.duplicate();
        p.parts.pop();
        assert(p@ =~= path@.drop_last());
        Some(p)
    }
}

/// The last component of a path other than the root.
pub fn file_name(path: &FsPath) -> (r: String)
    requires
        path@.len() > 0,
    ensures
        r@ == path@.last(),
{
    copy_of(path.parts[path.parts.len() - 1].as_str())
}

/// The text of a path, components separated by `/`.
pub fn path_to_string(path: &FsPath) -> (r: String)
    ensures
        r@ == path_text(path@),
{
    let slash = "/";
    proof {
        reveal_strlit("/");
    }
    if path.parts.len() == 0 {
        return copy_of(slash);
    }
    let mut s = String::new();
    let mut i: usize = 0;
    while i < path.parts.len()
        invariant
            slash@ == seq!['/'],
            i <= path@.len(),
            s@ == parts_text(path@.subrange(0, i as int)),
        decreases path@.len() - i,
    {
        append_str(&mut s, slash);
        append_str(&mut s, path.parts[i].as_str());
        assert(path@.subrange(0, i + 1).drop_last() =~= path@.subrange(0, i as int));
        i = i + 1;
    }
    assert(path@.subrange(0, path@.len() as int) =~= path@);
    s
}

/// Where a symbolic link at `link` points when its target reads
/// `target`: an absolute target stands alone, a relative one is taken
/// from the directory that holds the link.
pub fn link_target(link: &FsPath, target: FsPath, target_is_absolute: bool) -> (r: FsPath)
    ensures
        target_is_absolute || link@.len() == 0 ==> r@ == target@,
        !target_is_absolute && link@.len() > 0 ==> r@ == link@.drop_last() + target@,
{
    if target_is_absolute || link.parts.len() == 0 {
        return target;
    }
    let mut r = link.duplicate();
    r.parts.pop();
    let ghost base = r@;
    assert(base =~= link@.drop_last());
    let mut i: usize = 0;
    while i < target.parts.len()
        invariant
            i <= target@.len(),
            r@ == base + target@.subrange(0, i as int),
        decreases target@.len() - i,
    {
        let ghost prev = r@;
        r.parts.push(copy_of(target.parts[i].as_str()));
        assert(r@ =~= prev.push(target@[i as int]));
        assert(target@.subrange(0, i + 1) =~= target@.subrange(0, i as int).push(target@[i as int]));
        i = i + 1;
    }
    assert(target@.subrange(0, i as int) =~= target@);
    r
}

} // verus!
