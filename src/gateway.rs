//! The module manager's command lines, and the package file that an unload
//! leaves behind.
use crate::naming::{file_stem, is_package, is_package_file, stem_of};
use crate::plan::texts;
use vstd::prelude::*;
use vstd::string::*;

verus! {

/// The arguments that load the package file at `path`: `load`, the path, and
/// an empty argument string.
pub open spec fn load_args_spec(path: Seq<char>) -> Seq<Seq<char>> {
    seq![seq!['l', 'o', 'a', 'd'], path, seq![]]
}

/// The arguments that unload the module `name`: `unload` and the name.
pub open spec fn unload_args_spec(name: Seq<char>) -> Seq<Seq<char>> {
    seq![seq!['u', 'n', 'l', 'o', 'a', 'd'], name]
}

/// Whether the entry `p` is the package file of the module `name`.
pub open spec fn is_file_of(p: Seq<char>, name: Seq<char>) -> bool {
    is_package(p) && stem_of(p) == name
}

/// The module manager's arguments for loading the package file at `path`.
pub fn load_args(path: &str) -> (r: Vec<String>)
    ensures
        texts(r@) == load_args_spec(path@),
{
    proof {
        reveal_strlit("load");
        reveal_strlit("");
    }
    let verb = String::from_str("load");
    let last = String::from_str("");
    assert(verb@ =~= seq!['l', 'o', 'a', 'd']);
    assert(last@ =~= Seq::<char>::empty());
    let r = vec![verb, String::from_str(path), last];
    assert(texts(r@) =~= load_args_spec(path@));
    r
}

/// The module manager's arguments for unloading the module `name`.
pub fn unload_args(name: &str) -> (r: Vec<String>)
    ensures
        texts(r@) == unload_args_spec(name@),
{
    proof {
        reveal_strlit("unload");
    }
    let verb = String::from_str("unload");
    assert(verb@ =~= seq!['u', 'n', 'l', 'o', 'a', 'd']);
    let r = vec![verb, String::from_str(name)];
    assert(texts(r@) =~= unload_args_spec(name@));
    r
}

/// The first entry of a directory listing that is the package file of the
/// module `name`, if there is one. Names match exactly, case included.
pub fn find_kpm_file(entries: &Vec<String>, name: &str) -> (r: Option<String>)
    ensures
        r is None <==> forall|i: int|
            0 <= i < entries@.len() ==> !is_file_of(#[trigger] entries@[i]@, name@),
        r matches Some(p) ==> exists|i: int|
            0 <= i < entries@.len() && p@ == entries@[i]@ && is_file_of(entries@[i]@, name@)
                && forall|j: int| 0 <= j < i ==> !is_file_of(#[trigger] entries@[j]@, name@),
{
    let mut i: usize = 0;
    while i < entries.len()
        invariant
            i <= entries.len(),
            forall|j: int| 0 <= j < i ==> !is_file_of(#[trigger] entries@[j]@, name@),
        decreases entries.len() - i,
    {
        let entry = &entries[i];
        if is_package_file(entry.as_str()) {
            let stem = file_stem(entry.as_str());
            if stem == String::from_str(name) {
                return Some(entry.clone());
            }
        }
        i = i + 1;
    }
    None
}

} // verus!
