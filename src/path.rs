use vstd::prelude::*;

use crate::print::{is_single_component, single_component, target_name, writes};
use crate::text::char_vec;

verus! {

broadcast use vstd::string::group_string_axioms;

/// `root` with one trailing separator, as it stands in front of its entries.
pub open spec fn dir_prefix(root: Seq<char>, sep: char) -> Seq<char> {
    if root.len() > 0 && root.last() == sep {
        root
    } else {
        root.push(sep)
    }
}

/// The path of the entry `name` of directory `root`.
pub open spec fn joined(root: Seq<char>, name: Seq<char>, sep: char) -> Seq<char> {
    dir_prefix(root, sep) + name
}

/// `path` names an entry directly inside the directory `root`.
pub open spec fn entry_of(root: Seq<char>, path: Seq<char>, sep: char) -> bool {
    let d = dir_prefix(root, sep);
    d.len() <= path.len() && path.take(d.len() as int) == d && single_component(
        path.skip(d.len() as int),
        sep,
    )
}

/// Whether the resolved `path` names an entry directly inside the resolved
/// directory `root`, where paths are separated by `sep`.
pub fn is_entry_of(root: &str, path: &str, sep: char) -> (r: bool)
    ensures
        r == entry_of(root@, path@, sep),
{
    let rs = char_vec(root);
    let ps = char_vec(path);
    let ends_with_sep = rs.len() > 0 && rs[rs.len() - 1] == sep;
    let dlen: usize = if ends_with_sep { rs.len() } else {
        if rs.len() >= ps.len() {
            return false;
        }
        rs.len() + 1
    };
    let ghost d = dir_prefix(root@, sep);
    assert(d.len() == dlen);
    if dlen > ps.len() {
        return false;
    }
    let mut i: usize = 0;
    while i < rs.len()
        invariant
            rs@ == root@,
            ps@ == path@,
            rs.len() <= dlen <= ps.len(),
            d == dir_prefix(root@, sep),
            d.len() == dlen,
            i <= rs.len(),
            forall|j: int| 0 <= j < i ==> ps@[j] == d[j],
        decreases rs.len() - i,
    {
        if ps[i] != rs[i] {
            assert(path@.take(dlen as int)[i as int] != d[i as int]);
            return false;
        }
        i = i + 1;
    }
    if !ends_with_sep {
        if ps[rs.len()] != sep {
            assert(path@.take(dlen as int)[rs.len() as int] != d[rs.len() as int]);
            return false;
        }
    }
    assert(path@.take(dlen as int) =~= d);
    let rest = path.substring_char(dlen, ps.len());
    is_single_component(rest, sep)
}

/// The file that a request writes, joined to any directory, names an entry
/// directly inside that directory: no description leads a write out of it.
pub proof fn written_file_stays_in_root(desc: Seq<char>, root: Seq<char>, sep: char)
    requires
        writes(desc, sep),
    ensures
        entry_of(root, joined(root, target_name(desc, sep), sep), sep),
{
    let d = dir_prefix(root, sep);
    let n = target_name(desc, sep);
    let path = joined(root, n, sep);
    assert(path.take(d.len() as int) =~= d);
    assert(path.skip(d.len() as int) =~= n);
}

} // verus!
