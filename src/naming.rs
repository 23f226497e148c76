//! How a path names a module: its file name, stem and extension.
use vstd::prelude::*;
use vstd::string::*;

verus! {

/// The directory that holds the package files.
pub const KPM_DIR: &'static str = "/data/adb/kpm";

/// The privileged helper that loads and unloads modules.
pub const KPMMGR_PATH: &'static str = "/data/adb/ksu/bin/kpmmgr";

/// The extension that marks a package file.
pub open spec fn package_ext() -> Seq<char> {
    seq!['k', 'p', 'm']
}

/// Index just past the last '/' of `p`, or 0 when there is none.
pub open spec fn name_start(p: Seq<char>) -> int
    decreases p.len(),
{
    if p.len() == 0 {
        0
    } else if p.last() == '/' {
        p.len() as int
    } else {
        name_start(p.drop_last())
    }
}

/// The last component of a path: what follows its last '/'.
pub open spec fn file_name(p: Seq<char>) -> Seq<char> {
    p.subrange(name_start(p), p.len() as int)
}

/// Index of the last '.' of `s`, or -1 when there is none.
pub open spec fn last_dot(s: Seq<char>) -> int
    decreases s.len(),
{
    if s.len() == 0 {
        -1
    } else if s.last() == '.' {
        s.len() - 1
    } else {
        last_dot(s.drop_last())
    }
}

/// A file name has an extension when a '.' other than a leading one splits it,
/// and it is not the parent entry `..`.
pub open spec fn has_ext(name: Seq<char>) -> bool {
    last_dot(name) > 0 && name != seq!['.', '.']
}

/// The extension of a path's file name: what follows its last '.'.
pub open spec fn ext_of(p: Seq<char>) -> Option<Seq<char>> {
    let n = file_name(p);
    if has_ext(n) {
        Some(n.subrange(last_dot(n) + 1, n.len() as int))
    } else {
        None
    }
}

/// The stem of a path's file name: the name without its extension. This is
/// the module's name.
pub open spec fn stem_of(p: Seq<char>) -> Seq<char> {
    let n = file_name(p);
    if has_ext(n) {
        n.subrange(0, last_dot(n))
    } else {
        n
    }
}

/// A package file is one whose extension is the package extension.
pub open spec fn is_package(p: Seq<char>) -> bool {
    ext_of(p) == Some(package_ext())
}

proof fn lemma_name_start_bounds(p: Seq<char>)
    ensures
        0 <= name_start(p) <= p.len(),
    decreases p.len(),
{
    if p.len() > 0 {
        lemma_name_start_bounds(p.drop_last());
    }
}

proof fn lemma_last_dot_bounds(s: Seq<char>)
    ensures
        -1 <= last_dot(s) < s.len(),
        last_dot(s) >= 0 ==> s[last_dot(s)] == '.',
    decreases s.len(),
{
    if s.len() > 0 {
        lemma_last_dot_bounds(s.drop_last());
    }
}

/// A package file always names a module: its stem is not empty.
pub(crate) proof fn lemma_package_has_name(p: Seq<char>)
    requires
        is_package(p),
    ensures
        stem_of(p).len() > 0,
{
    lemma_name_start_bounds(p);
    lemma_last_dot_bounds(file_name(p));
}

/// Returns the index just past the last '/' of `p`.
fn find_name_start(p: &str) -> (r: usize)
    ensures
        r == name_start(p@),
{
    let len = p.unicode_len();
    let mut i: usize = len;
    assert(p@.subrange(0, len as int) =~= p@);
    while i > 0 && p.get_char(i - 1) != '/'
        invariant
            i <= len == p@.len(),
            name_start(p@) == name_start(p@.subrange(0, i as int)),
        decreases i,
    {
        assert(p@.subrange(0, i as int).drop_last() =~= p@.subrange(0, i - 1));
        i = i - 1;
    }
    if i > 0 {
        assert(p@.subrange(0, i as int).last() == '/');
    } else {
        assert(p@.subrange(0, 0) =~= Seq::<char>::empty());
    }
    i
}

/// Returns one more than the index of the last '.' of `s` (0 when there is none).
fn find_last_dot(s: &str) -> (r: usize)
    ensures
        r == last_dot(s@) + 1,
{
    let len = s.unicode_len();
    let mut i: usize = len;
    assert(s@.subrange(0, len as int) =~= s@);
    while i > 0 && s.get_char(i - 1) != '.'
        invariant
            i <= len == s@.len(),
            last_dot(s@) == last_dot(s@.subrange(0, i as int)),
        decreases i,
    {
        assert(s@.subrange(0, i as int).drop_last() =~= s@.subrange(0, i - 1));
        i = i - 1;
    }
    if i > 0 {
        assert(s@.subrange(0, i as int).last() == '.');
    } else {
        assert(s@.subrange(0, 0) =~= Seq::<char>::empty());
    }
    i
}

/// The file name of `path`, as a slice of it.
pub fn file_name_of(path: &str) -> (r: &str)
    ensures
        r@ == file_name(path@),
{
    let start = find_name_start(path);
    proof {
        lemma_name_start_bounds(path@);
    }
    path.substring_char(start, path.unicode_len())
}

/// Whether the file name `name` has an extension; when it has, `dot` is one
/// more than the index of its last '.'.
fn name_has_ext(name: &str, dot: usize) -> (r: bool)
    requires
        dot == last_dot(name@) + 1,
    ensures
        r == has_ext(name@),
{
    if dot <= 1 {
        return false;
    }
    let len = name.unicode_len();
    if len == 2 && name.get_char(0) == '.' && name.get_char(1) == '.' {
        assert(name@ =~= seq!['.', '.']);
        return false;
    }
    assert(name@ != seq!['.', '.']) by {
        if name@ =~= seq!['.', '.'] {
            assert(name@[0] == '.' && name@[1] == '.');
        }
    }
    true
}

/// The stem of `path`: its file name without the extension. For a package
/// file this is the module's name.
pub fn file_stem(path: &str) -> (r: String)
    ensures
        r@ == stem_of(path@),
{
    let name = file_name_of(path);
    let dot = find_last_dot(name);
    proof {
        lemma_last_dot_bounds(name@);
    }
    if name_has_ext(name, dot) {
        String::from_str(name.substring_char(0, dot - 1))
    } else {
        String::from_str(name)
    }
}

/// Whether `path` names a package file.
pub fn is_package_file(path: &str) -> (r: bool)
    ensures
        r == is_package(path@),
{
    let name = file_name_of(path);
    let dot = find_last_dot(name);
    proof {
        lemma_last_dot_bounds(name@);
    }
    if !name_has_ext(name, dot) {
        return false;
    }
    let len = name.unicode_len();
    let ext = name.substring_char(dot, len);
    let r = ext.unicode_len() == 3 && ext.get_char(0) == 'k' && ext.get_char(1) == 'p'
        && ext.get_char(2) == 'm';
    assert(r ==> ext@ =~= package_ext());
    assert(ext@ =~= package_ext() ==> r) by {
        if ext@ =~= package_ext() {
            assert(ext@[0] == 'k' && ext@[1] == 'p' && ext@[2] == 'm');
        }
    }
    r
}

} // verus!
