use vstd::prelude::*;

use crate::hotkeys::{quoted, quoted_vec};
use crate::text::{
    CharClass, chars_of, free_of, join, join_vec, lemma_nonempty_id, lemma_split_append_free,
    lemma_split_len, lemma_split_push_sep, nonempty, nonempty_vec, split_by, split_vec, string_of,
    strings_of, sviews, vviews,
};

verus! {

/// The state of the recording-widget shell extension.
#[derive(Debug, Clone, Copy, PartialEq, Eq, Structural)]
pub struct WidgetExtensionStatus {
    /// Its files are there to install.
    pub available: bool,
    /// It is copied into the user's extension directory.
    pub installed: bool,
    /// It is listed in the shell's enabled extensions.
    pub enabled: bool,
}

/// The status reported where no GNOME Shell exists: nothing available.
pub fn widget_status_unsupported() -> (r: WidgetExtensionStatus)
    ensures
        r == (WidgetExtensionStatus { available: false, installed: false, enabled: false }),
{
    WidgetExtensionStatus { available: false, installed: false, enabled: false }
}

/// The pieces at odd positions (between the 1st and 2nd quote, the 3rd and
/// 4th, ...).
pub open spec fn odd_pieces(ps: Seq<Seq<char>>) -> Seq<Seq<char>> {
    Seq::new(ps.len() / 2, |i: int| ps[2 * i + 1])
}

/// The strings of a GVariant string array such as `['a', 'b']`: the quoted
/// parts, without the empty ones. `@as []` and `[]` give none.
pub open spec fn spec_parse_gvariant_strings(s: Seq<char>) -> Seq<Seq<char>> {
    nonempty(odd_pieces(split_by(s, CharClass::Is('\''))))
}

/// Parses a GVariant string array.
pub fn parse_gvariant_strings(s: &str) -> (r: Vec<String>)
    ensures
        sviews(r@) == spec_parse_gvariant_strings(s@),
{
    let sv = chars_of(s);
    let pieces = split_vec(&sv, &CharClass::Is('\''));
    let ghost ps = vviews(pieces@);
    let mut odd: Vec<Vec<char>> = Vec::new();
    let mut i: usize = 1;
    while i < pieces.len()
        invariant
            1 <= i <= pieces.len() + 1,
            i % 2 == 1,
            ps == vviews(pieces@),
            vviews(odd@) == odd_pieces(ps).take((i / 2) as int),
        decreases pieces.len() + 1 - i,
    {
        let ghost o0 = vviews(odd@);
        let p = crate::text::copy_vec(&pieces[i]);
        odd.push(p);
        assert(vviews(odd@) =~= o0.push(ps[i as int]));
        assert(odd_pieces(ps).take(((i + 2) / 2) as int) =~= odd_pieces(ps).take((i / 2) as int).push(
            ps[i as int],
        ));
        i = i + 2;
    }
    assert(odd_pieces(ps).take((i / 2) as int) =~= odd_pieces(ps));
    let kept = nonempty_vec(&odd);
    strings_of(&kept)
}

/// The strings quoted, in order.
pub open spec fn quote_all(l: Seq<Seq<char>>) -> Seq<Seq<char>> {
    l.map_values(|x: Seq<char>| quoted(x))
}

/// A GVariant string array: `['a', 'b']`.
pub open spec fn spec_format_gvariant_strings(l: Seq<Seq<char>>) -> Seq<char> {
    "["@ + join(quote_all(l), ", "@) + "]"@
}

/// Writes a GVariant string array.
pub fn format_gvariant_strings(list: &[String]) -> (r: String)
    ensures
        r@ == spec_format_gvariant_strings(sviews(list@)),
{
    let mut q: Vec<Vec<char>> = Vec::new();
    let mut i: usize = 0;
    while i < list.len()
        invariant
            i <= list.len(),
            vviews(q@) == quote_all(sviews(list@)).take(i as int),
        decreases list.len() - i,
    {
        let x = chars_of(list[i].as_str());
        let ghost q0 = vviews(q@);
        q.push(quoted_vec(&x));
        assert(vviews(q@) =~= q0.push(quoted(list@[i as int]@)));
        i = i + 1;
        assert(vviews(q@) =~= quote_all(sviews(list@)).take(i as int));
    }
    assert(quote_all(sviews(list@)).take(list.len() as int) =~= quote_all(sviews(list@)));
    let sep = chars_of(", ");
    let inner = join_vec(&q, &sep);
    let mut out = chars_of("[");
    crate::text::push_all(&mut out, &inner);
    crate::text::push_str(&mut out, "]");
    string_of(&out)
}

/// The enabled-extension list after enabling or disabling `uuid`; none when
/// it is already in the wanted state (nothing to write).
pub open spec fn spec_toggle_extension(l: Seq<Seq<char>>, uuid: Seq<char>, enable: bool) -> Option<
    Seq<Seq<char>>,
> {
    if enable && !l.contains(uuid) {
        Some(l.push(uuid))
    } else if !enable && l.contains(uuid) {
        Some(l.filter(|x: Seq<char>| x != uuid))
    } else {
        None
    }
}

/// Adds `uuid` to, or removes it from, the list of enabled extensions; none
/// when the list is already right.
pub fn toggle_extension(list: &Vec<String>, uuid: &str, enable: bool) -> (r: Option<Vec<String>>)
    ensures
        match spec_toggle_extension(sviews(list@), uuid@, enable) {
            Some(l) => r matches Some(v) && sviews(v@) == l,
            None => r is None,
        },
{
    let already = crate::hotkeys::contains_string(list, uuid);
    assert(already == sviews(list@).contains(uuid@));
    if enable && !already {
        let mut v: Vec<String> = Vec::new();
        let mut i: usize = 0;
        while i < list.len()
            invariant
                i <= list.len(),
                sviews(v@) == sviews(list@).take(i as int),
            decreases list.len() - i,
        {
            let ghost v0 = sviews(v@);
            v.push(list[i].clone());
            assert(sviews(v@) =~= v0.push(list@[i as int]@));
            i = i + 1;
            assert(sviews(v@) =~= sviews(list@).take(i as int));
        }
        assert(sviews(list@).take(list.len() as int) =~= sviews(list@));
        let ghost v1 = sviews(v@);
        v.push(uuid.to_owned());
        assert(sviews(v@) =~= v1.push(uuid@));
        Some(v)
    } else if !enable && already {
        let ghost f = |x: Seq<char>| x != uuid@;
        let mut v: Vec<String> = Vec::new();
        let mut i: usize = 0;
        while i < list.len()
            invariant
                i <= list.len(),
                f == (|x: Seq<char>| x != uuid@),
                sviews(v@) == sviews(list@).take(i as int).filter(f),
            decreases list.len() - i,
        {
            proof {
                reveal(Seq::filter);
                assert(sviews(list@).take(i + 1).drop_last() =~= sviews(list@).take(i as int));
                assert(sviews(list@).take(i + 1).last() == list@[i as int]@);
            }
            let x = chars_of(list[i].as_str());
            if !crate::text::eq_str(&x, uuid) {
                let ghost v0 = sviews(v@);
                v.push(list[i].clone());
                assert(sviews(v@) =~= v0.push(list@[i as int]@));
            }
            i = i + 1;
        }
        assert(sviews(list@).take(list.len() as int) =~= sviews(list@));
        Some(v)
    } else {
        None
    }
}

/// Whether the installed copy of the extension is current: both metadata
/// versions were read and they match.
pub fn ext_versions_match(src: Option<u64>, dst: Option<u64>) -> (r: bool)
    ensures
        r == (src is Some && dst is Some && src == dst),
{
    match (src, dst) {
        (Some(s), Some(d)) => s == d,
        _ => false,
    }
}

/// A list that a GVariant string array can carry as written: every string
/// is non-empty and holds no single quote.
pub open spec fn gv_ok(l: Seq<Seq<char>>) -> bool {
    forall|i: int| 0 <= i < l.len() ==> #[trigger] l[i].len() > 0 && free_of(l[i], CharClass::Is('\''))
}

proof fn lemma_gv_step(s: Seq<char>, sep: Seq<char>, x: Seq<char>)
    requires
        free_of(sep, CharClass::Is('\'')),
        free_of(x, CharClass::Is('\'')),
    ensures
        ({
            let a = split_by(s, CharClass::Is('\''));
            split_by(s + sep + quoted(x), CharClass::Is('\'')) == a.update(a.len() - 1, a.last() + sep).push(
                x,
            ).push(Seq::empty())
        }),
{
    reveal_strlit("'");
    let k = CharClass::Is('\'');
    let a = split_by(s, k);
    lemma_split_len(s, k);
    let s1 = s + sep;
    lemma_split_append_free(s, sep, k);
    let a1 = a.update(a.len() - 1, a.last() + sep);
    let s2 = s1.push('\'');
    lemma_split_push_sep(s1, '\'', k);
    let a2 = a1.push(Seq::<char>::empty());
    let s3 = s2 + x;
    lemma_split_append_free(s2, x, k);
    assert(a2.last() + x =~= x);
    let a3 = a2.update(a2.len() - 1, x);
    assert(a3 =~= a1.push(x));
    let s4 = s3.push('\'');
    lemma_split_push_sep(s3, '\'', k);
    assert(s + sep + quoted(x) =~= s4);
}

/// The text before the closing bracket of a formatted array.
pub open spec fn gv_open(l: Seq<Seq<char>>) -> Seq<char> {
    "["@ + join(quote_all(l), ", "@)
}

proof fn lemma_gv_pieces(l: Seq<Seq<char>>)
    requires
        gv_ok(l),
    ensures
        split_by(gv_open(l), CharClass::Is('\'')).len() == 2 * l.len() + 1,
        forall|i: int| 0 <= i < l.len() ==> #[trigger] split_by(gv_open(l), CharClass::Is('\''))[2 * i + 1] == l[i],
    decreases l.len(),
{
    reveal_strlit("[");
    reveal_strlit(", ");
    let k = CharClass::Is('\'');
    if l.len() == 0 {
        assert(gv_open(l) =~= "["@);
        assert("["@ =~= Seq::<char>::empty() + "["@);
        assert(free_of("["@, k));
        lemma_split_append_free(Seq::<char>::empty(), "["@, k);
    } else {
        let l0 = l.drop_last();
        let x = l.last();
        assert forall|i: int| 0 <= i < l0.len() implies #[trigger] l0[i].len() > 0 && free_of(
            l0[i],
            k,
        ) by {
            assert(l0[i] == l[i]);
        }
        assert(x.len() > 0 && free_of(x, k));
        lemma_gv_pieces(l0);
        assert(quote_all(l).drop_last() =~= quote_all(l0));
        assert(quote_all(l).last() == quoted(x));
        let sep: Seq<char> = if l.len() == 1 {
            Seq::empty()
        } else {
            ", "@
        };
        assert(free_of(sep, k));
        if l.len() == 1 {
            assert(join(quote_all(l), ", "@) == quote_all(l)[0]);
            assert(gv_open(l0) =~= "["@);
            assert(gv_open(l) =~= gv_open(l0) + sep + quoted(x));
        } else {
            assert(join(quote_all(l), ", "@) == join(quote_all(l0), ", "@) + ", "@ + quoted(x));
            assert(gv_open(l) =~= gv_open(l0) + sep + quoted(x));
        }
        lemma_gv_step(gv_open(l0), sep, x);
        let a = split_by(gv_open(l0), k);
        let b = a.update(a.len() - 1, a.last() + sep).push(x).push(Seq::empty());
        assert(split_by(gv_open(l), k) == b);
        assert forall|i: int| 0 <= i < l.len() implies #[trigger] split_by(gv_open(l), k)[2 * i + 1] == l[i] by {
            if i < l0.len() {
                assert(b[2 * i + 1] == a[2 * i + 1]);
                assert(a[2 * i + 1] == l0[i]);
            } else {
                assert(b[2 * i + 1] == x);
            }
        }
    }
}

/// Reading back a formatted GVariant string array gives the list that was
/// written, for lists of non-empty strings without single quotes.
pub proof fn lemma_gvariant_roundtrip(l: Seq<Seq<char>>)
    requires
        gv_ok(l),
    ensures
        spec_parse_gvariant_strings(spec_format_gvariant_strings(l)) == l,
{
    reveal_strlit("]");
    let k = CharClass::Is('\'');
    lemma_gv_pieces(l);
    let a = split_by(gv_open(l), k);
    assert(free_of("]"@, k));
    lemma_split_append_free(gv_open(l), "]"@, k);
    assert(spec_format_gvariant_strings(l) =~= gv_open(l) + "]"@);
    let b = split_by(spec_format_gvariant_strings(l), k);
    assert(b == a.update(a.len() - 1, a.last() + "]"@));
    assert(odd_pieces(b) =~= l) by {
        assert forall|i: int| 0 <= i < l.len() implies odd_pieces(b)[i] == l[i] by {
            assert(b[2 * i + 1] == a[2 * i + 1]);
        }
    }
    assert forall|i: int| 0 <= i < l.len() implies #[trigger] l[i].len() > 0 by {}
    lemma_nonempty_id(l);
}

} // verus!
