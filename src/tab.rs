//! A tab: a name and its own navigation context.
use vstd::prelude::*;
use crate::context::Context;
use crate::path::FsPath;
use crate::text::copy_of;

verus! {

pub struct Tab {
    pub name: String,
    pub context: Context,
}

/// A tab is named after its directory: `/` for the root, else the last
/// component.
pub open spec fn tab_name(path: Seq<Seq<char>>) -> Seq<char> {
    if path.len() == 0 { seq!['/'] } else { path.last() }
}

/// The name of a tab showing `path`.
pub fn tab_name_from_path(path: &FsPath) -> (r: String)
    ensures
        r@ == tab_name(path@),
{
    if path.parts.len() == 0 {
        proof {
            reveal_strlit("/");
        }
        let r = copy_of("/");
        assert(r@ =~= seq!['/']);
        r
    } else {
        copy_of(path.parts[path.parts.len() - 1].as_str())
    }
}

} // verus!
