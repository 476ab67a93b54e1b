use vstd::prelude::*;

use crate::text::{
    chars_of, eq_str, eq_vec, last_index_of, last_index_of_vec, slice_vec, split_by, split_vec, string_of, vviews,
    CharClass,
};

verus! {

/// The pieces of a Unix path between its `/` separators.
pub open spec fn pieces(p: Seq<char>) -> Seq<Seq<char>> {
    split_by(p, CharClass::Is('/'))
}

/// Keeps the pieces that name something: repeated or trailing separators
/// leave empty pieces, and `.` pieces are normalized away.
pub open spec fn named(ps: Seq<Seq<char>>) -> Seq<Seq<char>>
    decreases ps.len(),
{
    if ps.len() == 0 {
        seq![]
    } else {
        let r = named(ps.drop_last());
        if ps.last().len() > 0 && ps.last() != "."@ {
            r.push(ps.last())
        } else {
            r
        }
    }
}

/// The named components of a path, in order (`..` included).
pub open spec fn path_parts(p: Seq<char>) -> Seq<Seq<char>> {
    named(pieces(p))
}

/// Whether the path starts at the root.
pub open spec fn is_absolute(p: Seq<char>) -> bool {
    p.len() > 0 && p[0] == '/'
}

/// Whether a relative path starts with a `.` component (`.` or `./…`),
/// the one place where `.` is kept.
pub open spec fn starts_at_current(p: Seq<char>) -> bool {
    !is_absolute(p) && pieces(p)[0] == "."@
}

/// Equality of paths as `Path` compares them on Unix: the same components,
/// so repeated separators, a trailing separator and inner `.` do not count.
pub open spec fn same_path(a: Seq<char>, b: Seq<char>) -> bool {
    &&& is_absolute(a) == is_absolute(b)
    &&& starts_at_current(a) == starts_at_current(b)
    &&& path_parts(a) == path_parts(b)
}

/// `Path::file_name` on Unix: the last component when it is a name; none
/// for an empty path, the root, `.`, or a path that ends in `..`.
pub open spec fn file_name(p: Seq<char>) -> Option<Seq<char>> {
    let parts = path_parts(p);
    if parts.len() == 0 || parts.last() == ".."@ {
        None
    } else {
        Some(parts.last())
    }
}

fn named_vec(ps: &Vec<Vec<char>>) -> (r: Vec<Vec<char>>)
    ensures
        vviews(r@) == named(vviews(ps@)),
{
    let ghost all = vviews(ps@);
    let mut r: Vec<Vec<char>> = Vec::new();
    let mut i: usize = 0;
    assert(all.take(0) =~= Seq::<Seq<char>>::empty());
    while i < ps.len()
        invariant
            i <= ps.len(),
            all == vviews(ps@),
            vviews(r@) == named(all.take(i as int)),
        decreases ps.len() - i,
    {
        let ghost before = r@;
        assert(all.take(i + 1).drop_last() =~= all.take(i as int));
        assert(all.take(i + 1).last() == ps@[i as int]@);
        let p = &ps[i];
        if p.len() > 0 && !eq_str(p, ".") {
            r.push(crate::text::copy_vec(p));
            assert(vviews(r@) =~= vviews(before).push(ps@[i as int]@));
        }
        i = i + 1;
    }
    assert(all.take(ps.len() as int) =~= all);
    r
}

/// The named components of a path.
pub fn parts_of(p: &str) -> (r: Vec<Vec<char>>)
    ensures
        vviews(r@) == path_parts(p@),
{
    let v = chars_of(p);
    let ps = split_vec(&v, &CharClass::Is('/'));
    named_vec(&ps)
}

fn starts_at_root(p: &Vec<char>) -> (r: bool)
    ensures
        r == is_absolute(p@),
{
    p.len() > 0 && p[0] == '/'
}

fn starts_with_current(p: &Vec<char>) -> (r: bool)
    ensures
        r == starts_at_current(p@),
{
    if starts_at_root(p) {
        return false;
    }
    let ps = split_vec(p, &CharClass::Is('/'));
    proof {
        crate::text::lemma_split_len(p@, CharClass::Is('/'));
    }
    assert(vviews(ps@)[0] == ps@[0]@);
    eq_str(&ps[0], ".")
}

fn same_parts(a: &Vec<Vec<char>>, b: &Vec<Vec<char>>) -> (r: bool)
    ensures
        r == (vviews(a@) == vviews(b@)),
{
    if a.len() != b.len() {
        assert(vviews(a@).len() != vviews(b@).len());
        return false;
    }
    let mut i: usize = 0;
    while i < a.len()
        invariant
            i <= a.len(),
            a.len() == b.len(),
            forall|j: int| 0 <= j < i ==> #[trigger] a@[j]@ == b@[j]@,
        decreases a.len() - i,
    {
        if !eq_vec(&a[i], &b[i]) {
            assert(vviews(a@)[i as int] != vviews(b@)[i as int]);
            return false;
        }
        i = i + 1;
    }
    assert(vviews(a@) =~= vviews(b@));
    true
}

/// Whether two paths are equal as `Path` values.
pub fn paths_equal(a: &str, b: &str) -> (r: bool)
    ensures
        r == same_path(a@, b@),
{
    let av = chars_of(a);
    let bv = chars_of(b);
    if starts_at_root(&av) != starts_at_root(&bv) {
        return false;
    }
    if starts_with_current(&av) != starts_with_current(&bv) {
        return false;
    }
    let ap = parts_of(a);
    let bp = parts_of(b);
    same_parts(&ap, &bp)
}

/// The last component of a path when it is a name (`Path::file_name`).
pub fn path_file_name(p: &str) -> (r: Option<String>)
    ensures
        crate::updater::oview(r) == file_name(p@),
{
    let parts = parts_of(p);
    if parts.len() == 0 {
        return None;
    }
    let last = &parts[parts.len() - 1];
    assert(vviews(parts@).last() == last@);
    if eq_str(last, "..") {
        None
    } else {
        Some(string_of(last))
    }
}

/// `Path::extension` on Unix: what follows the last `.` of the file name,
/// none when there is no file name, no `.`, or only a leading one.
pub open spec fn extension(p: Seq<char>) -> Option<Seq<char>> {
    match file_name(p) {
        Some(n) => match last_index_of(n, '.') {
            Some(i) => if i > 0 {
                Some(n.subrange(i + 1, n.len() as int))
            } else {
                None
            },
            None => None,
        },
        None => None,
    }
}

/// The extension of a path's file name.
pub fn path_extension(p: &str) -> (r: Option<String>)
    ensures
        crate::updater::oview(r) == extension(p@),
{
    match path_file_name(p) {
        Some(n) => {
            let v = chars_of(n.as_str());
            match last_index_of_vec(&v, '.') {
                Some(i) => if i > 0 {
                    Some(string_of(&slice_vec(&v, i + 1, v.len())))
                } else {
                    None
                },
                None => None,
            }
        },
        None => None,
    }
}

/// Path equality is an equivalence: reflexive, symmetric and transitive.
pub proof fn lemma_same_path_equivalence(a: Seq<char>, b: Seq<char>, c: Seq<char>)
    ensures
        same_path(a, a),
        same_path(a, b) ==> same_path(b, a),
        same_path(a, b) && same_path(b, c) ==> same_path(a, c),
{
}

} // verus!
