//! Character-level text utilities with a mathematical model over `Seq<char>`.
//!
//! Every operation here is specified by a spec function on sequences of
//! characters and implemented over `Vec<char>`; the string-facing modules
//! of the crate convert `&str` / `String` at their edges.
use vstd::prelude::*;

verus! {

/// The Unicode `White_Space` property, as used by `str::trim` and
/// `str::split_whitespace`.
pub open spec fn is_ws(c: char) -> bool {
    let u = c as u32;
    (0x09 <= u && u <= 0x0D) || u == 0x20 || u == 0x85 || u == 0xA0 || u == 0x1680 || (0x2000
        <= u && u <= 0x200A) || u == 0x2028 || u == 0x2029 || u == 0x202F || u == 0x205F || u
        == 0x3000
}

/// ASCII punctuation: `!"#$%&'()*+,-./:;<=>?@[\]^_`{|}~`.
pub open spec fn is_ascii_punct(c: char) -> bool {
    let u = c as u32;
    (0x21 <= u && u <= 0x2F) || (0x3A <= u && u <= 0x40) || (0x5B <= u && u <= 0x60) || (0x7B
        <= u && u <= 0x7E)
}

/// A set of characters used to trim or split text.
pub enum CharClass {
    /// Unicode white space.
    Whitespace,
    /// Exactly this character.
    Is(char),
    /// Either of two characters.
    Either(char, char),
    /// One of three characters.
    OneOf(char, char, char),
    /// ASCII punctuation, the em dash or the en dash.
    PunctOrDash,
}

pub open spec fn in_class(k: CharClass, c: char) -> bool {
    match k {
        CharClass::Whitespace => is_ws(c),
        CharClass::Is(a) => c == a,
        CharClass::Either(a, b) => c == a || c == b,
        CharClass::OneOf(a, b, d) => c == a || c == b || c == d,
        CharClass::PunctOrDash => is_ascii_punct(c) || c == '\u{2014}' || c == '\u{2013}',
    }
}

pub fn class_has(k: &CharClass, c: char) -> (r: bool)
    ensures
        r == in_class(*k, c),
{
    match k {
        CharClass::Whitespace => {
            let u = c as u32;
            (0x09 <= u && u <= 0x0D) || u == 0x20 || u == 0x85 || u == 0xA0 || u == 0x1680 || (
            0x2000 <= u && u <= 0x200A) || u == 0x2028 || u == 0x2029 || u == 0x202F || u
                == 0x205F || u == 0x3000
        },
        CharClass::Is(a) => c == *a,
        CharClass::Either(a, b) => c == *a || c == *b,
        CharClass::OneOf(a, b, d) => c == *a || c == *b || c == *d,
        CharClass::PunctOrDash => {
            let u = c as u32;
            (0x21 <= u && u <= 0x2F) || (0x3A <= u && u <= 0x40) || (0x5B <= u && u <= 0x60) || (
            0x7B <= u && u <= 0x7E) || c == '\u{2014}' || c == '\u{2013}'
        },
    }
}

/// Drops leading characters of the class.
pub open spec fn trim_start_by(s: Seq<char>, k: CharClass) -> Seq<char>
    decreases s.len(),
{
    if s.len() > 0 && in_class(k, s[0]) {
        trim_start_by(s.drop_first(), k)
    } else {
        s
    }
}

/// Drops trailing characters of the class.
pub open spec fn trim_end_by(s: Seq<char>, k: CharClass) -> Seq<char>
    decreases s.len(),
{
    if s.len() > 0 && in_class(k, s.last()) {
        trim_end_by(s.drop_last(), k)
    } else {
        s
    }
}

/// Drops leading and trailing characters of the class (`str::trim_matches`).
pub open spec fn trim_by(s: Seq<char>, k: CharClass) -> Seq<char> {
    trim_end_by(trim_start_by(s, k), k)
}

/// `str::trim`.
pub open spec fn trim(s: Seq<char>) -> Seq<char> {
    trim_by(s, CharClass::Whitespace)
}

pub proof fn lemma_trim_start_at(s: Seq<char>, k: CharClass, i: int)
    requires
        0 <= i <= s.len(),
        forall|j: int| 0 <= j < i ==> in_class(k, #[trigger] s[j]),
        i == s.len() || !in_class(k, s[i]),
    ensures
        trim_start_by(s, k) == s.subrange(i, s.len() as int),
    decreases i,
{
    if i > 0 {
        let t = s.drop_first();
        assert forall|j: int| 0 <= j < i - 1 implies in_class(k, #[trigger] t[j]) by {
            assert(t[j] == s[j + 1]);
        }
        lemma_trim_start_at(t, k, i - 1);
        assert(t.subrange(i - 1, t.len() as int) =~= s.subrange(i, s.len() as int));
    } else {
        assert(s.subrange(0, s.len() as int) =~= s);
    }
}

pub proof fn lemma_trim_end_at(s: Seq<char>, k: CharClass, i: int)
    requires
        0 <= i <= s.len(),
        forall|j: int| i <= j < s.len() ==> in_class(k, #[trigger] s[j]),
        i == 0 || !in_class(k, s[i - 1]),
    ensures
        trim_end_by(s, k) == s.subrange(0, i),
    decreases s.len() - i,
{
    if i < s.len() {
        let t = s.drop_last();
        assert forall|j: int| i <= j < t.len() implies in_class(k, #[trigger] t[j]) by {
            assert(t[j] == s[j]);
        }
        lemma_trim_end_at(t, k, i);
        assert(t.subrange(0, i) =~= s.subrange(0, i));
    } else {
        assert(s.subrange(0, s.len() as int) =~= s);
    }
}

/// Drops the leading characters of the class (`str::trim_start_matches`).
pub fn trim_start_vec(s: &Vec<char>, k: &CharClass) -> (r: Vec<char>)
    ensures
        r@ == trim_start_by(s@, *k),
{
    let mut i: usize = 0;
    while i < s.len() && class_has(k, s[i])
        invariant
            i <= s.len(),
            forall|j: int| 0 <= j < i ==> in_class(*k, #[trigger] s@[j]),
        decreases s.len() - i,
    {
        i = i + 1;
    }
    proof {
        lemma_trim_start_at(s@, *k, i as int);
    }
    slice_vec(s, i, s.len())
}

/// Drops the trailing characters of the class (`str::trim_end_matches`).
pub fn trim_end_vec(s: &Vec<char>, k: &CharClass) -> (r: Vec<char>)
    ensures
        r@ == trim_end_by(s@, *k),
{
    let mut i: usize = s.len();
    while i > 0 && class_has(k, s[i - 1])
        invariant
            i <= s.len(),
            forall|j: int| i <= j < s.len() ==> in_class(*k, #[trigger] s@[j]),
        decreases i,
    {
        i = i - 1;
    }
    proof {
        lemma_trim_end_at(s@, *k, i as int);
    }
    slice_vec(s, 0, i)
}

/// The slice `s[from..to]` as a new vector.
pub fn slice_vec(s: &Vec<char>, from: usize, to: usize) -> (r: Vec<char>)
    requires
        from <= to <= s.len(),
    ensures
        r@ == s@.subrange(from as int, to as int),
{
    let mut r: Vec<char> = Vec::new();
    let mut i = from;
    while i < to
        invariant
            from <= i <= to <= s.len(),
            r@ == s@.subrange(from as int, i as int),
        decreases to - i,
    {
        r.push(s[i]);
        i = i + 1;
        assert(r@ =~= s@.subrange(from as int, i as int));
    }
    r
}

/// Index range `[lo, hi)` that remains after trimming the class on both ends.
pub fn trim_bounds(s: &Vec<char>, k: &CharClass) -> (r: (usize, usize))
    ensures
        r.0 <= r.1 <= s.len(),
        trim_by(s@, *k) == s@.subrange(r.0 as int, r.1 as int),
{
    let n = s.len();
    let mut lo: usize = 0;
    while lo < n && class_has(k, s[lo])
        invariant
            lo <= n == s.len(),
            forall|j: int| 0 <= j < lo ==> in_class(*k, #[trigger] s@[j]),
        decreases n - lo,
    {
        lo = lo + 1;
    }
    proof {
        lemma_trim_start_at(s@, *k, lo as int);
    }
    let ghost t = s@.subrange(lo as int, n as int);
    let mut hi: usize = n;
    while hi > lo && class_has(k, s[hi - 1])
        invariant
            lo <= hi <= n == s.len(),
            t == s@.subrange(lo as int, n as int),
            forall|j: int| hi <= j < n ==> in_class(*k, #[trigger] s@[j]),
        decreases hi,
    {
        hi = hi - 1;
    }
    proof {
        assert forall|j: int| hi - lo <= j < t.len() implies in_class(*k, #[trigger] t[j]) by {
            assert(t[j] == s@[j + lo]);
        }
        if hi > lo {
            assert(t[hi - lo - 1] == s@[hi - 1]);
        }
        lemma_trim_end_at(t, *k, hi - lo);
        assert(t.subrange(0, hi - lo) =~= s@.subrange(lo as int, hi as int));
    }
    (lo, hi)
}

/// `trim_by` over a vector.
pub fn trim_vec(s: &Vec<char>, k: &CharClass) -> (r: Vec<char>)
    ensures
        r@ == trim_by(s@, *k),
{
    let (lo, hi) = trim_bounds(s, k);
    slice_vec(s, lo, hi)
}

} // verus!

verus! {

/// Views of a sequence of character vectors.
pub open spec fn vviews(v: Seq<Vec<char>>) -> Seq<Seq<char>> {
    v.map_values(|x: Vec<char>| x@)
}

/// `str::split` on a character class: the pieces between separators, in
/// order; there is always at least one piece.
pub open spec fn split_by(s: Seq<char>, k: CharClass) -> Seq<Seq<char>>
    decreases s.len(),
{
    if s.len() == 0 {
        seq![Seq::empty()]
    } else {
        let r = split_by(s.drop_last(), k);
        if in_class(k, s.last()) {
            r.push(Seq::empty())
        } else {
            r.update(r.len() - 1, r.last().push(s.last()))
        }
    }
}

pub proof fn lemma_split_len(s: Seq<char>, k: CharClass)
    ensures
        split_by(s, k).len() >= 1,
    decreases s.len(),
{
    if s.len() > 0 {
        lemma_split_len(s.drop_last(), k);
    }
}

/// Copy of a vector of characters.
pub fn copy_vec(s: &Vec<char>) -> (r: Vec<char>)
    ensures
        r@ == s@,
{
    let r = slice_vec(s, 0, s.len());
    assert(s@.subrange(0, s@.len() as int) =~= s@);
    r
}

/// `split_by` over a vector.
pub fn split_vec(s: &Vec<char>, k: &CharClass) -> (r: Vec<Vec<char>>)
    ensures
        vviews(r@) == split_by(s@, *k),
{
    let mut pieces: Vec<Vec<char>> = Vec::new();
    let mut cur: Vec<char> = Vec::new();
    let mut i: usize = 0;
    assert(s@.take(0) =~= Seq::<char>::empty());
    assert(vviews(pieces@).push(cur@) =~= seq![Seq::<char>::empty()]);
    while i < s.len()
        invariant
            i <= s.len(),
            vviews(pieces@).push(cur@) == split_by(s@.take(i as int), *k),
        decreases s.len() - i,
    {
        let c = s[i];
        let ghost before = s@.take(i as int);
        let ghost old_pieces = pieces@;
        let ghost old_cur = cur@;
        proof {
            lemma_split_len(before, *k);
        }
        if class_has(k, c) {
            pieces.push(cur);
            cur = Vec::new();
            assert(vviews(pieces@) =~= vviews(old_pieces).push(old_cur));
        } else {
            cur.push(c);
            assert(vviews(pieces@) =~= vviews(old_pieces));
        }
        i = i + 1;
        assert(s@.take(i as int).drop_last() =~= before);
        assert(s@.take(i as int).last() == c);
        assert(vviews(pieces@).push(cur@) =~= split_by(s@.take(i as int), *k));
    }
    assert(s@.take(s.len() as int) =~= s@);
    let ghost old_pieces = pieces@;
    pieces.push(cur);
    assert(vviews(pieces@) =~= vviews(old_pieces).push(cur@));
    pieces
}

/// Drops the empty pieces, keeping the order of the others.
pub open spec fn nonempty(ps: Seq<Seq<char>>) -> Seq<Seq<char>>
    decreases ps.len(),
{
    if ps.len() == 0 {
        seq![]
    } else {
        let r = nonempty(ps.drop_last());
        if ps.last().len() > 0 {
            r.push(ps.last())
        } else {
            r
        }
    }
}

pub fn nonempty_vec(ps: &Vec<Vec<char>>) -> (r: Vec<Vec<char>>)
    ensures
        vviews(r@) == nonempty(vviews(ps@)),
{
    let mut r: Vec<Vec<char>> = Vec::new();
    let ghost all = vviews(ps@);
    let mut i: usize = 0;
    assert(all.take(0) =~= Seq::<Seq<char>>::empty());
    while i < ps.len()
        invariant
            i <= ps.len(),
            all == vviews(ps@),
            vviews(r@) == nonempty(all.take(i as int)),
        decreases ps.len() - i,
    {
        let x = copy_vec(&ps[i]);
        assert(all[i as int] == x@);
        assert(all.take(i + 1).drop_last() =~= all.take(i as int));
        assert(all.take(i + 1).last() == x@);
        let ghost rr = r@;
        if x.len() > 0 {
            r.push(x);
            assert(vviews(r@) =~= vviews(rr).push(all[i as int]));
        }
        i = i + 1;
    }
    assert(all.take(ps.len() as int) =~= all);
    r
}

/// The words of the text (`str::split_whitespace`).
pub open spec fn words(s: Seq<char>) -> Seq<Seq<char>> {
    nonempty(split_by(s, CharClass::Whitespace))
}

pub fn words_vec(s: &Vec<char>) -> (r: Vec<Vec<char>>)
    ensures
        vviews(r@) == words(s@),
{
    let parts = split_vec(s, &CharClass::Whitespace);
    nonempty_vec(&parts)
}

/// Drops one trailing carriage return.
pub open spec fn strip_cr(x: Seq<char>) -> Seq<char> {
    if x.len() > 0 && x.last() == '\r' {
        x.drop_last()
    } else {
        x
    }
}

/// `str::lines`: pieces between line feeds, a final line feed ends the last
/// line instead of starting an empty one, and a carriage return before a
/// line feed is dropped.
pub open spec fn lines(s: Seq<char>) -> Seq<Seq<char>> {
    if s.len() == 0 {
        seq![]
    } else {
        let parts = split_by(s, CharClass::Is('\n'));
        let body = if s.last() == '\n' {
            parts.drop_last()
        } else {
            parts
        };
        Seq::new(
            body.len(),
            |i: int|
                if i < parts.len() - 1 {
                    strip_cr(body[i])
                } else {
                    body[i]
                },
        )
    }
}

pub fn strip_cr_vec(x: &Vec<char>) -> (r: Vec<char>)
    ensures
        r@ == strip_cr(x@),
{
    if x.len() > 0 && x[x.len() - 1] == '\r' {
        slice_vec(x, 0, x.len() - 1)
    } else {
        copy_vec(x)
    }
}

pub fn lines_vec(s: &Vec<char>) -> (r: Vec<Vec<char>>)
    ensures
        vviews(r@) == lines(s@),
{
    let mut r: Vec<Vec<char>> = Vec::new();
    if s.len() == 0 {
        assert(vviews(r@) =~= lines(s@));
        return r;
    }
    let parts = split_vec(s, &CharClass::Is('\n'));
    proof {
        lemma_split_len(s@, CharClass::Is('\n'));
    }
    let n = parts.len();
    let body_len = if s[s.len() - 1] == '\n' {
        n - 1
    } else {
        n
    };
    let ghost ps = split_by(s@, CharClass::Is('\n'));
    let ghost body = if s@.last() == '\n' {
        ps.drop_last()
    } else {
        ps
    };
    assert(body.len() == body_len);
    let ghost target = Seq::new(
        body_len as nat,
        |j: int|
            if j < ps.len() - 1 {
                strip_cr(body[j])
            } else {
                body[j]
            },
    );
    let mut i: usize = 0;
    assert(target.take(0) =~= vviews(r@));
    while i < body_len
        invariant
            i <= body_len <= n == parts.len() == ps.len(),
            body_len == body.len() == target.len(),
            vviews(parts@) == ps,
            forall|j: int| 0 <= j < body_len ==> body[j] == ps[j],
            forall|j: int|
                0 <= j < body_len ==> #[trigger] target[j] == (if j < ps.len() - 1 {
                    strip_cr(body[j])
                } else {
                    body[j]
                }),
            vviews(r@) == target.take(i as int),
        decreases body_len - i,
    {
        assert(parts@[i as int]@ == ps[i as int]);
        let x = if i < n - 1 {
            strip_cr_vec(&parts[i])
        } else {
            copy_vec(&parts[i])
        };
        assert(x@ == target[i as int]);
        let ghost r0 = r@;
        r.push(x);
        assert(vviews(r@) =~= vviews(r0).push(target[i as int]));
        i = i + 1;
        assert(vviews(r@) =~= target.take(i as int));
    }
    assert(target.take(body_len as int) =~= target);
    assert(target =~= lines(s@));
    r
}

} // verus!

verus! {

/// `p` occurs in `s` starting at index `i`.
pub open spec fn matches_at(s: Seq<char>, p: Seq<char>, i: int) -> bool {
    0 <= i && i + p.len() <= s.len() && s.subrange(i, i + p.len()) == p
}

/// `str::contains` with a string pattern.
pub open spec fn contains(s: Seq<char>, p: Seq<char>) -> bool {
    exists|i: int| #[trigger] matches_at(s, p, i)
}

/// `str::starts_with`.
pub open spec fn starts_with(s: Seq<char>, p: Seq<char>) -> bool {
    matches_at(s, p, 0)
}

/// `str::ends_with`.
pub open spec fn ends_with(s: Seq<char>, p: Seq<char>) -> bool {
    matches_at(s, p, s.len() - p.len())
}

pub fn matches_at_vec(s: &Vec<char>, p: &Vec<char>, i: usize) -> (r: bool)
    ensures
        r == matches_at(s@, p@, i as int),
{
    if i > s.len() || p.len() > s.len() - i {
        return false;
    }
    let mut j: usize = 0;
    while j < p.len()
        invariant
            i + p.len() <= s.len(),
            j <= p.len(),
            forall|t: int| 0 <= t < j ==> s@[i + t] == p@[t],
        decreases p.len() - j,
    {
        if s[i + j] != p[j] {
            assert(s@.subrange(i as int, i + p.len())[j as int] != p@[j as int]);
            return false;
        }
        j = j + 1;
    }
    assert(s@.subrange(i as int, i + p.len()) =~= p@);
    true
}

pub fn contains_vec(s: &Vec<char>, p: &Vec<char>) -> (r: bool)
    ensures
        r == contains(s@, p@),
{
    if p.len() > s.len() {
        return false;
    }
    let last = s.len() - p.len();
    let mut i: usize = 0;
    while i <= last
        invariant
            last == s.len() - p.len(),
            i <= last,
            forall|t: int| 0 <= t < i ==> !matches_at(s@, p@, t),
        decreases last - i,
    {
        if matches_at_vec(s, p, i) {
            return true;
        }
        if i == last {
            assert forall|t: int| !matches_at(s@, p@, t) by {
                if 0 <= t <= last {
                    assert(t < i || t == i);
                }
            }
            return false;
        }
        i = i + 1;
    }
    false
}

pub fn starts_with_vec(s: &Vec<char>, p: &Vec<char>) -> (r: bool)
    ensures
        r == starts_with(s@, p@),
{
    matches_at_vec(s, p, 0)
}

pub fn ends_with_vec(s: &Vec<char>, p: &Vec<char>) -> (r: bool)
    ensures
        r == ends_with(s@, p@),
{
    if p.len() > s.len() {
        return false;
    }
    matches_at_vec(s, p, s.len() - p.len())
}

/// `str::strip_prefix`.
pub open spec fn strip_prefix(s: Seq<char>, p: Seq<char>) -> Option<Seq<char>> {
    if starts_with(s, p) {
        Some(s.subrange(p.len() as int, s.len() as int))
    } else {
        None
    }
}

pub fn strip_prefix_vec(s: &Vec<char>, p: &Vec<char>) -> (r: Option<Vec<char>>)
    ensures
        match r {
            Some(v) => strip_prefix(s@, p@) == Some(v@),
            None => strip_prefix(s@, p@) is None,
        },
{
    if starts_with_vec(s, p) {
        Some(slice_vec(s, p.len(), s.len()))
    } else {
        None
    }
}

pub fn eq_vec(a: &Vec<char>, b: &Vec<char>) -> (r: bool)
    ensures
        r == (a@ == b@),
{
    if a.len() != b.len() {
        return false;
    }
    let r = matches_at_vec(a, b, 0);
    assert(a@.subrange(0, b@.len() as int) =~= a@);
    r
}

/// Characters of a string slice, in order.
pub fn chars_of(s: &str) -> (v: Vec<char>)
    ensures
        v@ == s@,
{
    let mut v: Vec<char> = Vec::new();
    for c in it: s.chars()
        invariant
            v@ == it.seq().take(it.index() as int),
    {
        v.push(c);
    }
    v
}

/// `str::eq`, against a vector of characters.
pub fn eq_str(a: &Vec<char>, b: &str) -> (r: bool)
    ensures
        r == (a@ == b@),
{
    let bv = chars_of(b);
    eq_vec(a, &bv)
}

/// Appends one character to a string (`String::push`).
#[verifier::external_body]
fn string_push(s: &mut String, c: char)
    ensures
        final(s)@ == old(s)@.push(c),
{
    s.push(c);
}

/// The string made of these characters.
pub fn string_of(v: &Vec<char>) -> (r: String)
    ensures
        r@ == v@,
{
    let mut r = String::new();
    let mut i: usize = 0;
    while i < v.len()
        invariant
            i <= v.len(),
            r@ == v@.take(i as int),
        decreases v.len() - i,
    {
        string_push(&mut r, v[i]);
        i = i + 1;
        assert(r@ =~= v@.take(i as int));
    }
    assert(v@.take(v.len() as int) =~= v@);
    r
}

/// Views of a sequence of strings.
pub open spec fn sviews(v: Seq<String>) -> Seq<Seq<char>> {
    v.map_values(|x: String| x@)
}

pub fn strings_of(v: &Vec<Vec<char>>) -> (r: Vec<String>)
    ensures
        sviews(r@) == vviews(v@),
{
    let mut r: Vec<String> = Vec::new();
    let mut i: usize = 0;
    while i < v.len()
        invariant
            i <= v.len(),
            sviews(r@) == vviews(v@).take(i as int),
        decreases v.len() - i,
    {
        let s = string_of(&v[i]);
        let ghost r0 = r@;
        r.push(s);
        assert(sviews(r@) =~= sviews(r0).push(v@[i as int]@));
        i = i + 1;
        assert(sviews(r@) =~= vviews(v@).take(i as int));
    }
    assert(vviews(v@).take(v.len() as int) =~= vviews(v@));
    r
}

/// Appends the characters of `b` to `a`.
pub fn push_all(a: &mut Vec<char>, b: &Vec<char>)
    ensures
        final(a)@ == old(a)@ + b@,
{
    let mut i: usize = 0;
    while i < b.len()
        invariant
            i <= b.len(),
            a@ == old(a)@ + b@.take(i as int),
        decreases b.len() - i,
    {
        a.push(b[i]);
        i = i + 1;
        assert(a@ =~= old(a)@ + b@.take(i as int));
    }
    assert(b@.take(b.len() as int) =~= b@);
}

/// Appends the characters of a literal.
pub fn push_str(a: &mut Vec<char>, b: &str)
    ensures
        final(a)@ == old(a)@ + b@,
{
    let bv = chars_of(b);
    push_all(a, &bv);
}

/// What `str::to_lowercase` returns for a text: the Unicode lowercase
/// mapping, applied character by character with context rules.
pub uninterp spec fn lowercase(s: Seq<char>) -> Seq<char>;

/// `str::to_lowercase`. Claimed: the result is `lowercase` of the argument,
/// a function of the text alone.
#[verifier::external_body]
fn to_lowercase(s: &str) -> (r: String)
    ensures
        r@ == lowercase(s@),
{
    s.to_lowercase()
}

/// Lowercase of a vector of characters.
pub fn lowercase_vec(s: &Vec<char>) -> (r: Vec<char>)
    ensures
        r@ == lowercase(s@),
{
    let st = string_of(s);
    let l = to_lowercase(st.as_str());
    chars_of(l.as_str())
}

/// The pieces joined by a separator (`[T]::join`).
pub open spec fn join(parts: Seq<Seq<char>>, sep: Seq<char>) -> Seq<char>
    decreases parts.len(),
{
    if parts.len() == 0 {
        Seq::empty()
    } else if parts.len() == 1 {
        parts[0]
    } else {
        join(parts.drop_last(), sep) + sep + parts.last()
    }
}

pub fn join_vec(parts: &Vec<Vec<char>>, sep: &Vec<char>) -> (r: Vec<char>)
    ensures
        r@ == join(vviews(parts@), sep@),
{
    let mut r: Vec<char> = Vec::new();
    let ghost all = vviews(parts@);
    let mut i: usize = 0;
    assert(all.take(0) =~= Seq::<Seq<char>>::empty());
    while i < parts.len()
        invariant
            i <= parts.len(),
            all == vviews(parts@),
            r@ == join(all.take(i as int), sep@),
        decreases parts.len() - i,
    {
        let ghost r0 = r@;
        if i > 0 {
            push_all(&mut r, sep);
        }
        push_all(&mut r, &parts[i]);
        assert(all.take(i + 1).drop_last() =~= all.take(i as int));
        assert(all.take(i + 1).last() == parts@[i as int]@);
        if i == 0 {
            assert(r@ =~= parts@[0]@);
        }
        i = i + 1;
    }
    assert(all.take(parts.len() as int) =~= all);
    r
}

/// Every piece concatenated, in order.
pub open spec fn concat(parts: Seq<Seq<char>>) -> Seq<char>
    decreases parts.len(),
{
    if parts.len() == 0 {
        Seq::empty()
    } else {
        concat(parts.drop_last()) + parts.last()
    }
}

/// Each occurrence of one character replaced by another (`str::replace`
/// with single-character patterns).
pub open spec fn replace_char(s: Seq<char>, from: char, to: char) -> Seq<char> {
    s.map_values(|c: char| if c == from { to } else { c })
}

pub fn replace_char_vec(s: &Vec<char>, from: char, to: char) -> (r: Vec<char>)
    ensures
        r@ == replace_char(s@, from, to),
{
    let mut r: Vec<char> = Vec::new();
    let mut i: usize = 0;
    while i < s.len()
        invariant
            i <= s.len(),
            r@ == replace_char(s@, from, to).take(i as int),
        decreases s.len() - i,
    {
        let c = s[i];
        if c == from {
            r.push(to);
        } else {
            r.push(c);
        }
        i = i + 1;
        assert(r@ =~= replace_char(s@, from, to).take(i as int));
    }
    assert(replace_char(s@, from, to).take(s.len() as int) =~= replace_char(s@, from, to));
    r
}

pub open spec fn is_digit(c: char) -> bool {
    '0' <= c && c <= '9'
}

pub open spec fn all_digits(s: Seq<char>) -> bool {
    forall|i: int| 0 <= i < s.len() ==> is_digit(#[trigger] s[i])
}

/// Decimal value of a string of digits.
pub open spec fn digits_value(s: Seq<char>) -> nat
    decreases s.len(),
{
    if s.len() == 0 {
        0
    } else {
        digits_value(s.drop_last()) * 10 + ((s.last() as nat) - ('0' as nat)) as nat
    }
}

/// `str::parse::<u32>`: an optional `+` sign followed by at least one
/// decimal digit, with a value that fits in `u32`.
pub open spec fn parse_u32(s: Seq<char>) -> Option<u32> {
    let d = if s.len() > 0 && s[0] == '+' {
        s.drop_first()
    } else {
        s
    };
    if d.len() > 0 && all_digits(d) && digits_value(d) <= u32::MAX {
        Some(digits_value(d) as u32)
    } else {
        None
    }
}

proof fn lemma_digits_grow(s: Seq<char>, i: int)
    requires
        0 <= i <= s.len(),
        all_digits(s),
    ensures
        digits_value(s.take(i)) <= digits_value(s),
    decreases s.len() - i,
{
    if i < s.len() {
        lemma_digits_grow(s, i + 1);
        assert(s.take(i + 1).drop_last() =~= s.take(i));
        assert(is_digit(s[i]));
    } else {
        assert(s.take(i) =~= s);
    }
}

pub fn parse_u32_vec(s: &Vec<char>) -> (r: Option<u32>)
    ensures
        r == parse_u32(s@),
{
    let start: usize = if s.len() > 0 && s[0] == '+' {
        1
    } else {
        0
    };
    let ghost d = if s@.len() > 0 && s@[0] == '+' {
        s@.drop_first()
    } else {
        s@
    };
    assert(d =~= s@.subrange(start as int, s@.len() as int));
    if start >= s.len() {
        return None;
    }
    let mut acc: u64 = 0;
    let mut i: usize = start;
    while i < s.len()
        invariant
            start <= i <= s.len(),
            d == s@.subrange(start as int, s@.len() as int),
            d == (if s@.len() > 0 && s@[0] == '+' {
                s@.drop_first()
            } else {
                s@
            }),
            all_digits(s@.subrange(start as int, i as int)),
            acc == digits_value(s@.subrange(start as int, i as int)),
            acc <= u32::MAX,
        decreases s.len() - i,
    {
        let c = s[i];
        if !('0' <= c && c <= '9') {
            assert(d[i - start] == c);
            assert(!all_digits(d));
            return None;
        }
        let dv = (c as u64) - ('0' as u64);
        let next = acc * 10 + dv;
        let ghost pre = s@.subrange(start as int, i as int);
        let ghost post = s@.subrange(start as int, i + 1);
        assert(post.drop_last() =~= pre);
        assert(post.last() == c);
        assert(all_digits(post));
        assert(digits_value(post) == next);
        if next > 0xFFFF_FFFF {
            proof {
                if all_digits(d) {
                    assert(d.take(i + 1 - start) =~= post);
                    lemma_digits_grow(d, i + 1 - start);
                }
            }
            return None;
        }
        acc = next;
        i = i + 1;
    }
    assert(s@.subrange(start as int, s@.len() as int) =~= d);
    Some(acc as u32)
}

} // verus!

verus! {

/// Index of the first occurrence of a character.
pub open spec fn index_of(s: Seq<char>, c: char) -> Option<int>
    decreases s.len(),
{
    if s.len() == 0 {
        None
    } else if s[0] == c {
        Some(0)
    } else {
        match index_of(s.drop_first(), c) {
            Some(i) => Some(i + 1),
            None => None,
        }
    }
}

proof fn lemma_index_of_at(s: Seq<char>, c: char, i: int)
    requires
        0 <= i <= s.len(),
        forall|j: int| 0 <= j < i ==> #[trigger] s[j] != c,
    ensures
        index_of(s, c) == (if i == s.len() {
            index_of(s.subrange(i, s.len() as int), c)
        } else if s[i] == c {
            Some(i)
        } else {
            match index_of(s.subrange(i + 1, s.len() as int), c) {
                Some(t) => Some(t + i + 1),
                None => None,
            }
        }),
    decreases i,
{
    if i > 0 {
        let t = s.drop_first();
        assert forall|j: int| 0 <= j < i - 1 implies #[trigger] t[j] != c by {
            assert(t[j] == s[j + 1]);
        }
        lemma_index_of_at(t, c, i - 1);
        assert(t.subrange(i - 1, t.len() as int) =~= s.subrange(i, s.len() as int));
        if i < s.len() {
            assert(t.subrange(i, t.len() as int) =~= s.subrange(i + 1, s.len() as int));
        }
    } else {
        assert(s.subrange(0, s.len() as int) =~= s);
        if s.len() > 0 {
            assert(s.subrange(1, s.len() as int) =~= s.drop_first());
        }
    }
}

pub fn index_of_vec(s: &Vec<char>, c: char) -> (r: Option<usize>)
    ensures
        match r {
            Some(i) => index_of(s@, c) == Some(i as int) && i < s.len() && s@[i as int] == c,
            None => index_of(s@, c) is None,
        },
{
    let mut i: usize = 0;
    while i < s.len()
        invariant
            i <= s.len(),
            forall|j: int| 0 <= j < i ==> #[trigger] s@[j] != c,
        decreases s.len() - i,
    {
        if s[i] == c {
            proof {
                lemma_index_of_at(s@, c, i as int);
            }
            return Some(i);
        }
        i = i + 1;
    }
    proof {
        lemma_index_of_at(s@, c, i as int);
        assert(s@.subrange(i as int, s@.len() as int) =~= Seq::<char>::empty());
    }
    None
}

/// `str::split_once` on a character: the text before and after its first
/// occurrence.
pub open spec fn split_once(s: Seq<char>, c: char) -> Option<(Seq<char>, Seq<char>)> {
    match index_of(s, c) {
        Some(i) => Some((s.subrange(0, i), s.subrange(i + 1, s.len() as int))),
        None => None,
    }
}

pub fn split_once_vec(s: &Vec<char>, c: char) -> (r: Option<(Vec<char>, Vec<char>)>)
    ensures
        match r {
            Some(p) => split_once(s@, c) == Some((p.0@, p.1@)),
            None => split_once(s@, c) is None,
        },
{
    match index_of_vec(s, c) {
        Some(i) => Some((slice_vec(s, 0, i), slice_vec(s, i + 1, s.len()))),
        None => None,
    }
}

/// Index of the last occurrence of a character.
pub open spec fn last_index_of(s: Seq<char>, c: char) -> Option<int>
    decreases s.len(),
{
    if s.len() == 0 {
        None
    } else if s.last() == c {
        Some(s.len() - 1)
    } else {
        last_index_of(s.drop_last(), c)
    }
}

pub fn last_index_of_vec(s: &Vec<char>, c: char) -> (r: Option<usize>)
    ensures
        match r {
            Some(i) => last_index_of(s@, c) == Some(i as int) && i < s.len(),
            None => last_index_of(s@, c) is None,
        },
{
    let mut i: usize = s.len();
    assert(s@.take(i as int) =~= s@);
    while i > 0
        invariant
            i <= s.len(),
            last_index_of(s@, c) == last_index_of(s@.take(i as int), c),
        decreases i,
    {
        assert(s@.take(i as int).last() == s@[i - 1]);
        assert(s@.take(i as int).drop_last() =~= s@.take(i - 1));
        if s[i - 1] == c {
            return Some(i - 1);
        }
        i = i - 1;
    }
    None
}

/// No character of `t` belongs to the class.
pub open spec fn free_of(t: Seq<char>, k: CharClass) -> bool {
    forall|j: int| 0 <= j < t.len() ==> !in_class(k, #[trigger] t[j])
}

/// Appending text without separators extends the last piece.
pub proof fn lemma_split_append_free(s: Seq<char>, t: Seq<char>, k: CharClass)
    requires
        free_of(t, k),
    ensures
        split_by(s + t, k) == split_by(s, k).update(
            split_by(s, k).len() - 1,
            split_by(s, k).last() + t,
        ),
    decreases t.len(),
{
    lemma_split_len(s, k);
    let a = split_by(s, k);
    if t.len() == 0 {
        assert(s + t =~= s);
        assert(a.last() + t =~= a.last());
        assert(a.update(a.len() - 1, a.last() + t) =~= a);
    } else {
        let t0 = t.drop_last();
        assert forall|j: int| 0 <= j < t0.len() implies !in_class(k, #[trigger] t0[j]) by {
            assert(t0[j] == t[j]);
        }
        lemma_split_append_free(s, t0, k);
        assert((s + t).drop_last() =~= s + t0);
        assert((s + t).last() == t.last());
        assert(!in_class(k, t[t.len() - 1]));
        let r = a.update(a.len() - 1, a.last() + t0);
        assert(r.last() == a.last() + t0);
        assert((a.last() + t0).push(t.last()) =~= a.last() + t);
        assert(r.update(r.len() - 1, r.last().push(t.last())) =~= a.update(
            a.len() - 1,
            a.last() + t,
        ));
    }
}

/// Appending a separator starts a new, empty piece.
pub proof fn lemma_split_push_sep(s: Seq<char>, c: char, k: CharClass)
    requires
        in_class(k, c),
    ensures
        split_by(s.push(c), k) == split_by(s, k).push(Seq::empty()),
{
    assert(s.push(c).drop_last() =~= s);
}

/// Dropping empty pieces changes nothing when there are none.
pub proof fn lemma_nonempty_id(ps: Seq<Seq<char>>)
    requires
        forall|i: int| 0 <= i < ps.len() ==> #[trigger] ps[i].len() > 0,
    ensures
        nonempty(ps) == ps,
    decreases ps.len(),
{
    if ps.len() > 0 {
        let t = ps.drop_last();
        assert forall|i: int| 0 <= i < t.len() implies #[trigger] t[i].len() > 0 by {
            assert(t[i] == ps[i]);
        }
        lemma_nonempty_id(t);
        assert(ps.last().len() > 0);
        assert(t.push(ps.last()) =~= ps);
    }
}

/// Every piece of a split is free of separators.
pub proof fn lemma_split_pieces_free(s: Seq<char>, k: CharClass)
    ensures
        forall|i: int| 0 <= i < split_by(s, k).len() ==> free_of(#[trigger] split_by(s, k)[i], k),
    decreases s.len(),
{
    if s.len() > 0 {
        let t = s.drop_last();
        lemma_split_pieces_free(t, k);
        lemma_split_len(t, k);
        let r = split_by(t, k);
        if !in_class(k, s.last()) {
            let l = r.last().push(s.last());
            assert(free_of(r.last(), k));
            assert forall|j: int| 0 <= j < l.len() implies !in_class(k, #[trigger] l[j]) by {
                if j < r.last().len() {
                    assert(l[j] == r.last()[j]);
                }
            }
        }
    }
}

/// Dropping the empty pieces keeps any property of the pieces, and what
/// remains is non-empty.
pub proof fn lemma_nonempty_keeps(ps: Seq<Seq<char>>, p: spec_fn(Seq<char>) -> bool)
    requires
        forall|i: int| 0 <= i < ps.len() ==> p(#[trigger] ps[i]),
    ensures
        forall|i: int| 0 <= i < nonempty(ps).len() ==> p(#[trigger] nonempty(ps)[i]) && nonempty(ps)[i].len() > 0,
    decreases ps.len(),
{
    if ps.len() > 0 {
        let t = ps.drop_last();
        assert forall|i: int| 0 <= i < t.len() implies p(#[trigger] t[i]) by {
            assert(t[i] == ps[i]);
        }
        lemma_nonempty_keeps(t, p);
        assert(p(ps[ps.len() - 1]));
        let r = nonempty(t);
        if ps.last().len() > 0 {
            let x = ps.last();
            assert forall|i: int| 0 <= i < r.push(x).len() implies p(#[trigger] r.push(x)[i])
                && r.push(x)[i].len() > 0 by {
                if i < r.len() {
                    assert(r.push(x)[i] == r[i]);
                }
            }
        }
    }
}

/// The pieces joined by one separator character are split back into the
/// same pieces, when no piece holds a separator.
pub proof fn lemma_split_join(parts: Seq<Seq<char>>, c: char, k: CharClass)
    requires
        parts.len() >= 1,
        in_class(k, c),
        forall|i: int| 0 <= i < parts.len() ==> free_of(#[trigger] parts[i], k),
    ensures
        split_by(join(parts, seq![c]), k) == parts,
    decreases parts.len(),
{
    if parts.len() == 1 {
        assert(join(parts, seq![c]) == parts[0]);
        assert(Seq::<char>::empty() + parts[0] =~= parts[0]);
        assert(free_of(parts[0], k));
        lemma_split_append_free(Seq::<char>::empty(), parts[0], k);
        assert(split_by(Seq::<char>::empty(), k) == seq![Seq::<char>::empty()]);
        assert(seq![Seq::<char>::empty()].update(0, Seq::<char>::empty() + parts[0]) =~= parts);
    } else {
        let t = parts.drop_last();
        assert forall|i: int| 0 <= i < t.len() implies free_of(#[trigger] t[i], k) by {
            assert(t[i] == parts[i]);
        }
        lemma_split_join(t, c, k);
        let j = join(t, seq![c]);
        assert(join(parts, seq![c]) == j + seq![c] + parts.last());
        assert(j + seq![c] =~= j.push(c));
        lemma_split_push_sep(j, c, k);
        assert(free_of(parts[parts.len() - 1], k));
        lemma_split_append_free(j.push(c), parts.last(), k);
        let a = t.push(Seq::<char>::empty());
        assert(a.update(a.len() - 1, a.last() + parts.last()) =~= parts);
    }
}

/// The first character of joined pieces is that of the first piece.
pub proof fn lemma_join_first(parts: Seq<Seq<char>>, sep: Seq<char>)
    requires
        parts.len() >= 1,
        parts[0].len() > 0,
    ensures
        join(parts, sep).len() > 0,
        join(parts, sep)[0] == parts[0][0],
    decreases parts.len(),
{
    if parts.len() > 1 {
        let t = parts.drop_last();
        assert(t[0] == parts[0]);
        lemma_join_first(t, sep);
        let j = join(t, sep);
        assert((j + sep + parts.last())[0] == j[0]);
    }
}

/// The last character of joined pieces is that of the last piece.
pub proof fn lemma_join_last(parts: Seq<Seq<char>>, sep: Seq<char>)
    requires
        parts.len() >= 1,
        parts.last().len() > 0,
    ensures
        join(parts, sep).len() > 0,
        join(parts, sep).last() == parts.last().last(),
{
    if parts.len() > 1 {
        let j = join(parts.drop_last(), sep);
        let r = j + sep + parts.last();
        assert(r.len() == j.len() + sep.len() + parts.last().len());
        assert(r[r.len() - 1] == parts.last()[parts.last().len() - 1]);
    }
}

} // verus!
