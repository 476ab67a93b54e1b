//! GNOME custom keybindings: converting hotkeys between the Tauri notation
//! (`Super+Alt+Control+Space`) and the gsettings notation
//! (`<Super><Alt><Control>space`), the Cyrillic-layout duplicates of a
//! binding, and parsers for what `gsettings` and `setxkbmap` print.
use vstd::prelude::*;
use crate::text::{
    CharClass, in_class, lemma_split_len, nonempty, nonempty_vec, slice_vec, strings_of, trim_by,
    words, words_vec, eq_vec, chars_of, contains, contains_vec, eq_str, lines, lines_vec, lowercase,
    lowercase_vec, push_all, push_str, split_by, split_vec, string_of, strip_prefix,
    strip_prefix_vec, sviews, trim, trim_vec, vviews,
};

verus! {

/// One step of the hotkey conversion: modifiers accumulate in order, any
/// other part becomes the key (the last one wins).
pub open spec fn hotkey_step(acc: (Seq<char>, Seq<char>), part: Seq<char>) -> (Seq<char>, Seq<char>) {
    if part == "Super"@ {
        (acc.0 + "<Super>"@, acc.1)
    } else if part == "Alt"@ {
        (acc.0 + "<Alt>"@, acc.1)
    } else if part == "Control"@ {
        (acc.0 + "<Control>"@, acc.1)
    } else if part == "Shift"@ {
        (acc.0 + "<Shift>"@, acc.1)
    } else if part == "`"@ {
        (acc.0, "grave"@)
    } else {
        (acc.0, lowercase(part))
    }
}

pub open spec fn hotkey_fold(parts: Seq<Seq<char>>) -> (Seq<char>, Seq<char>)
    decreases parts.len(),
{
    if parts.len() == 0 {
        (Seq::empty(), Seq::empty())
    } else {
        hotkey_step(hotkey_fold(parts.drop_last()), parts.last())
    }
}

/// The gsettings form of a Tauri hotkey; empty for an empty hotkey.
pub open spec fn gsettings_binding(hotkey: Seq<char>) -> Seq<char> {
    if hotkey.len() == 0 {
        Seq::empty()
    } else {
        let mk = hotkey_fold(split_by(hotkey, CharClass::Is('+')));
        mk.0 + mk.1
    }
}

/// Converts a hotkey from the Tauri notation (`Super+Alt+Control+Space`)
/// to the gsettings notation (`<Super><Alt><Control>space`).
pub fn tauri_hotkey_to_gsettings(hotkey: &str) -> (r: String)
    ensures
        r@ == gsettings_binding(hotkey@),
{
    let h = chars_of(hotkey);
    if h.len() == 0 {
        return String::new();
    }
    let parts = split_vec(&h, &CharClass::Is('+'));
    let ghost ps = vviews(parts@);
    let mut mods: Vec<char> = Vec::new();
    let mut key: Vec<char> = Vec::new();
    let mut i: usize = 0;
    assert(ps.take(0) =~= Seq::<Seq<char>>::empty());
    while i < parts.len()
        invariant
            i <= parts.len(),
            ps == vviews(parts@),
            (mods@, key@) == hotkey_fold(ps.take(i as int)),
        decreases parts.len() - i,
    {
        let p = &parts[i];
        assert(ps[i as int] == p@);
        assert(ps.take(i + 1).drop_last() =~= ps.take(i as int));
        assert(ps.take(i + 1).last() == p@);
        if eq_str(p, "Super") {
            push_str(&mut mods, "<Super>");
        } else if eq_str(p, "Alt") {
            push_str(&mut mods, "<Alt>");
        } else if eq_str(p, "Control") {
            push_str(&mut mods, "<Control>");
        } else if eq_str(p, "Shift") {
            push_str(&mut mods, "<Shift>");
        } else if eq_str(p, "`") {
            key = chars_of("grave");
        } else {
            key = lowercase_vec(p);
        }
        i = i + 1;
    }
    assert(ps.take(parts.len() as int) =~= ps);
    push_all(&mut mods, &key);
    string_of(&mods)
}

pub open spec fn spec_binding_is_empty(v: Seq<char>) -> bool {
    v.len() == 0 || v == "''"@ || contains(v, "No such"@)
}

/// Whether a gsettings `binding` value means "not set": empty, an empty
/// GVariant string `''`, or a `No such ...` error text.
pub fn binding_is_empty(value: &str) -> (r: bool)
    ensures
        r == spec_binding_is_empty(value@),
{
    let v = chars_of(value);
    v.len() == 0 || eq_str(&v, "''") || {
        let p = chars_of("No such");
        contains_vec(&v, &p)
    }
}

pub open spec fn spec_command_is_legacy(command: Seq<char>) -> bool {
    let c = trim(command);
    !spec_binding_is_empty(c) && !contains(c, "--trigger"@) && !contains(c, "--pause"@)
}

/// Whether a keybinding `command` is of the old script form: set, and
/// neither a `--trigger` nor a `--pause` invocation.
pub fn command_is_legacy(command: &str) -> (r: bool)
    ensures
        r == spec_command_is_legacy(command@),
{
    let c0 = chars_of(command);
    let c = trim_vec(&c0, &CharClass::Whitespace);
    let cs = string_of(&c);
    if binding_is_empty(cs.as_str()) {
        return false;
    }
    let t = chars_of("--trigger");
    let p = chars_of("--pause");
    !contains_vec(&c, &t) && !contains_vec(&c, &p)
}

/// The `(layout, variant)` fields as the lines of `setxkbmap -query` set
/// them: a later line overrides an earlier one, a missing field is empty.
pub open spec fn setxkbmap_fold(ls: Seq<Seq<char>>) -> (Seq<char>, Seq<char>)
    decreases ls.len(),
{
    if ls.len() == 0 {
        (Seq::empty(), Seq::empty())
    } else {
        let acc = setxkbmap_fold(ls.drop_last());
        let line = ls.last();
        match strip_prefix(line, "layout:"@) {
            Some(rest) => (trim(rest), acc.1),
            None => match strip_prefix(line, "variant:"@) {
                Some(rest) => (acc.0, trim(rest)),
                None => acc,
            },
        }
    }
}

/// Parses the output of `setxkbmap -query` into `(layout, variant)`.
pub fn parse_setxkbmap_query(stdout: &str) -> (r: (String, String))
    ensures
        (r.0@, r.1@) == setxkbmap_fold(lines(stdout@)),
{
    let s = chars_of(stdout);
    let ls = lines_vec(&s);
    let ghost lv = vviews(ls@);
    let lp = chars_of("layout:");
    let vp = chars_of("variant:");
    let mut layout: Vec<char> = Vec::new();
    let mut variant: Vec<char> = Vec::new();
    let mut i: usize = 0;
    assert(lv.take(0) =~= Seq::<Seq<char>>::empty());
    while i < ls.len()
        invariant
            i <= ls.len(),
            lv == vviews(ls@),
            lp@ == "layout:"@,
            vp@ == "variant:"@,
            (layout@, variant@) == setxkbmap_fold(lv.take(i as int)),
        decreases ls.len() - i,
    {
        let line = &ls[i];
        assert(lv[i as int] == line@);
        assert(lv.take(i + 1).drop_last() =~= lv.take(i as int));
        assert(lv.take(i + 1).last() == line@);
        match strip_prefix_vec(line, &lp) {
            Some(rest) => {
                layout = trim_vec(&rest, &CharClass::Whitespace);
            },
            None => {
                match strip_prefix_vec(line, &vp) {
                    Some(rest) => {
                        variant = trim_vec(&rest, &CharClass::Whitespace);
                    },
                    None => {},
                }
            },
        }
        i = i + 1;
    }
    assert(lv.take(ls.len() as int) =~= lv);
    (string_of(&layout), string_of(&variant))
}

pub open spec fn spec_setxkbmap_args(layout: Seq<char>, variant: Seq<char>) -> Seq<Seq<char>> {
    if variant.len() == 0 {
        seq!["-layout"@, layout]
    } else {
        seq!["-layout"@, layout, "-variant"@, variant]
    }
}

/// The arguments for re-running `setxkbmap` with a layout and an optional
/// variant (given only when non-empty).
pub fn build_setxkbmap_args(layout: &str, variant: &str) -> (r: Vec<String>)
    ensures
        sviews(r@) == spec_setxkbmap_args(layout@, variant@),
{
    let mut args: Vec<String> = Vec::new();
    args.push(String::from_str("-layout"));
    args.push(String::from_str(layout));
    let v = chars_of(variant);
    if v.len() > 0 {
        args.push(String::from_str("-variant"));
        args.push(String::from_str(variant));
    }
    assert(sviews(args@) =~= spec_setxkbmap_args(layout@, variant@));
    args
}

} // verus!

verus! {

/// The Cyrillic (ЙЦУКЕН) keysym on the same physical key as a Latin
/// (QWERTY) key; `grave` (the key left of `1`) carries `Ё`.
pub open spec fn cyrillic_keysym(key: Seq<char>) -> Option<Seq<char>> {
    if key == "q"@ {
        Some("Cyrillic_shorti"@)
    } else if key == "w"@ {
        Some("Cyrillic_tse"@)
    } else if key == "e"@ {
        Some("Cyrillic_u"@)
    } else if key == "r"@ {
        Some("Cyrillic_ka"@)
    } else if key == "t"@ {
        Some("Cyrillic_ie"@)
    } else if key == "y"@ {
        Some("Cyrillic_en"@)
    } else if key == "u"@ {
        Some("Cyrillic_ghe"@)
    } else if key == "i"@ {
        Some("Cyrillic_sha"@)
    } else if key == "o"@ {
        Some("Cyrillic_shcha"@)
    } else if key == "p"@ {
        Some("Cyrillic_ze"@)
    } else if key == "a"@ {
        Some("Cyrillic_ef"@)
    } else if key == "s"@ {
        Some("Cyrillic_yeru"@)
    } else if key == "d"@ {
        Some("Cyrillic_ve"@)
    } else if key == "f"@ {
        Some("Cyrillic_a"@)
    } else if key == "g"@ {
        Some("Cyrillic_pe"@)
    } else if key == "h"@ {
        Some("Cyrillic_er"@)
    } else if key == "j"@ {
        Some("Cyrillic_o"@)
    } else if key == "k"@ {
        Some("Cyrillic_el"@)
    } else if key == "l"@ {
        Some("Cyrillic_de"@)
    } else if key == "z"@ {
        Some("Cyrillic_ya"@)
    } else if key == "x"@ {
        Some("Cyrillic_che"@)
    } else if key == "c"@ {
        Some("Cyrillic_es"@)
    } else if key == "v"@ {
        Some("Cyrillic_em"@)
    } else if key == "b"@ {
        Some("Cyrillic_i"@)
    } else if key == "n"@ {
        Some("Cyrillic_te"@)
    } else if key == "m"@ {
        Some("Cyrillic_softsign"@)
    } else if key == "grave"@ {
        Some("Cyrillic_io"@)
    } else {
        None
    }
}

/// Looks up the Cyrillic keysym on the key of a Latin keysym.
pub fn latin_to_cyrillic_keysym(key: &str) -> (r: Option<&'static str>)
    ensures
        match r {
            Some(x) => cyrillic_keysym(key@) == Some(x@),
            None => cyrillic_keysym(key@) is None,
        },
{
    let k = chars_of(key);
    if eq_str(&k, "q") {
        return Some("Cyrillic_shorti");
    }
    if eq_str(&k, "w") {
        return Some("Cyrillic_tse");
    }
    if eq_str(&k, "e") {
        return Some("Cyrillic_u");
    }
    if eq_str(&k, "r") {
        return Some("Cyrillic_ka");
    }
    if eq_str(&k, "t") {
        return Some("Cyrillic_ie");
    }
    if eq_str(&k, "y") {
        return Some("Cyrillic_en");
    }
    if eq_str(&k, "u") {
        return Some("Cyrillic_ghe");
    }
    if eq_str(&k, "i") {
        return Some("Cyrillic_sha");
    }
    if eq_str(&k, "o") {
        return Some("Cyrillic_shcha");
    }
    if eq_str(&k, "p") {
        return Some("Cyrillic_ze");
    }
    if eq_str(&k, "a") {
        return Some("Cyrillic_ef");
    }
    if eq_str(&k, "s") {
        return Some("Cyrillic_yeru");
    }
    if eq_str(&k, "d") {
        return Some("Cyrillic_ve");
    }
    if eq_str(&k, "f") {
        return Some("Cyrillic_a");
    }
    if eq_str(&k, "g") {
        return Some("Cyrillic_pe");
    }
    if eq_str(&k, "h") {
        return Some("Cyrillic_er");
    }
    if eq_str(&k, "j") {
        return Some("Cyrillic_o");
    }
    if eq_str(&k, "k") {
        return Some("Cyrillic_el");
    }
    if eq_str(&k, "l") {
        return Some("Cyrillic_de");
    }
    if eq_str(&k, "z") {
        return Some("Cyrillic_ya");
    }
    if eq_str(&k, "x") {
        return Some("Cyrillic_che");
    }
    if eq_str(&k, "c") {
        return Some("Cyrillic_es");
    }
    if eq_str(&k, "v") {
        return Some("Cyrillic_em");
    }
    if eq_str(&k, "b") {
        return Some("Cyrillic_i");
    }
    if eq_str(&k, "n") {
        return Some("Cyrillic_te");
    }
    if eq_str(&k, "m") {
        return Some("Cyrillic_softsign");
    }
    if eq_str(&k, "grave") {
        return Some("Cyrillic_io");
    }
    None
}

/// The key of a gsettings binding: what follows its last `>`.
pub open spec fn binding_key(b: Seq<char>) -> Seq<char> {
    split_by(b, CharClass::Is('>')).last()
}

/// The Cyrillic duplicate of a binding: same modifiers, Cyrillic keysym.
pub open spec fn spec_cyrillic_binding(b: Seq<char>) -> Option<Seq<char>> {
    let key = binding_key(b);
    match cyrillic_keysym(key) {
        Some(c) => Some(b.subrange(0, b.len() - key.len()) + c),
        None => None,
    }
}

proof fn lemma_split_last_suffix(s: Seq<char>, k: CharClass)
    ensures
        split_by(s, k).last().len() <= s.len(),
        s.subrange(s.len() - split_by(s, k).last().len(), s.len() as int) == split_by(s, k).last(),
    decreases s.len(),
{
    lemma_split_len(s, k);
    if s.len() == 0 {
        assert(s.subrange(0, 0) =~= Seq::<char>::empty());
    } else {
        let t = s.drop_last();
        lemma_split_last_suffix(t, k);
        lemma_split_len(t, k);
        let r = split_by(t, k);
        let l = split_by(s, k).last();
        if in_class(k, s.last()) {
            assert(l =~= Seq::<char>::empty());
            assert(s.subrange(s.len() as int, s.len() as int) =~= l);
        } else {
            assert(l == r.last().push(s.last()));
            assert(s.subrange(s.len() - l.len(), s.len() as int) =~= t.subrange(
                t.len() - r.last().len(),
                t.len() as int,
            ).push(s.last()));
        }
    }
}

/// The Cyrillic-layout duplicate of a gsettings binding, or `None` when
/// its key has none.
pub fn cyrillic_binding(binding: &str) -> (r: Option<String>)
    ensures
        match r {
            Some(x) => spec_cyrillic_binding(binding@) == Some(x@),
            None => spec_cyrillic_binding(binding@) is None,
        },
{
    let b = chars_of(binding);
    let parts = split_vec(&b, &CharClass::Is('>'));
    proof {
        lemma_split_len(b@, CharClass::Is('>'));
        lemma_split_last_suffix(b@, CharClass::Is('>'));
    }
    let key = &parts[parts.len() - 1];
    assert(key@ == binding_key(b@));
    let ks = string_of(key);
    match latin_to_cyrillic_keysym(ks.as_str()) {
        Some(c) => {
            let mut out = slice_vec(&b, 0, b.len() - key.len());
            push_str(&mut out, c);
            Some(string_of(&out))
        },
        None => None,
    }
}

/// A gsettings path entry without its quotes and surrounding blanks.
pub open spec fn clean_path(p: Seq<char>) -> Seq<char> {
    trim(trim_by(trim(p), CharClass::Is('\'')))
}

/// The paths of a gsettings string list (`['p1', 'p2']`); `@as []` and an
/// empty text give no paths.
pub open spec fn spec_parse_gsettings_paths(raw: Seq<char>) -> Seq<Seq<char>> {
    if raw == "@as []"@ || raw.len() == 0 {
        seq![]
    } else {
        nonempty(
            split_by(trim_by(raw, CharClass::Either('[', ']')), CharClass::Is(',')).map_values(
                |p: Seq<char>| clean_path(p),
            ),
        )
    }
}

fn clean_path_vec(p: &Vec<char>) -> (r: Vec<char>)
    ensures
        r@ == clean_path(p@),
{
    let a = trim_vec(p, &CharClass::Whitespace);
    let b = trim_vec(&a, &CharClass::Is('\''));
    trim_vec(&b, &CharClass::Whitespace)
}

/// Parses a gsettings string list of paths.
pub fn parse_gsettings_paths(raw: &str) -> (r: Vec<String>)
    ensures
        sviews(r@) == spec_parse_gsettings_paths(raw@),
{
    let rv = chars_of(raw);
    if rv.len() == 0 || eq_str(&rv, "@as []") {
        let r: Vec<String> = Vec::new();
        assert(sviews(r@) =~= spec_parse_gsettings_paths(raw@));
        return r;
    }
    let inner = trim_vec(&rv, &CharClass::Either('[', ']'));
    let parts = split_vec(&inner, &CharClass::Is(','));
    let ghost pv = vviews(parts@);
    let mut cleaned: Vec<Vec<char>> = Vec::new();
    let mut i: usize = 0;
    while i < parts.len()
        invariant
            i <= parts.len(),
            pv == vviews(parts@),
            vviews(cleaned@) == pv.map_values(|p: Seq<char>| clean_path(p)).take(i as int),
        decreases parts.len() - i,
    {
        let c = clean_path_vec(&parts[i]);
        let ghost c0 = cleaned@;
        cleaned.push(c);
        assert(vviews(cleaned@) =~= vviews(c0).push(clean_path(pv[i as int])));
        i = i + 1;
        assert(vviews(cleaned@) =~= pv.map_values(|p: Seq<char>| clean_path(p)).take(i as int));
    }
    assert(pv.map_values(|p: Seq<char>| clean_path(p)).take(parts.len() as int) =~= pv.map_values(
        |p: Seq<char>| clean_path(p),
    ));
    let kept = nonempty_vec(&cleaned);
    strings_of(&kept)
}

/// `ps` with `p` appended unless it is already there.
pub open spec fn with_path(ps: Seq<Seq<char>>, p: Seq<char>) -> Seq<Seq<char>> {
    if ps.contains(p) {
        ps
    } else {
        ps.push(p)
    }
}

/// The keybinding path list after adding the slots of one hotkey: its
/// Latin slot, and its Cyrillic slot when its key has a Cyrillic duplicate.
pub open spec fn spec_append_keybinding_paths(
    ps: Seq<Seq<char>>,
    hotkey: Seq<char>,
    latin_path: Seq<char>,
    cyr_path: Seq<char>,
) -> Seq<Seq<char>> {
    if hotkey.len() == 0 {
        ps
    } else {
        let p1 = with_path(ps, latin_path);
        if spec_cyrillic_binding(gsettings_binding(hotkey)) is Some {
            with_path(p1, cyr_path)
        } else {
            p1
        }
    }
}

/// Whether a list of strings holds a given text.
pub fn contains_string(list: &Vec<String>, x: &str) -> (r: bool)
    ensures
        r == sviews(list@).contains(x@),
{
    let xv = chars_of(x);
    let mut i: usize = 0;
    while i < list.len()
        invariant
            i <= list.len(),
            xv@ == x@,
            forall|j: int| 0 <= j < i ==> sviews(list@)[j] != x@,
        decreases list.len() - i,
    {
        let e = chars_of(list[i].as_str());
        if eq_vec(&e, &xv) {
            assert(sviews(list@)[i as int] == x@);
            return true;
        }
        i = i + 1;
    }
    false
}

fn push_if_absent(paths: &mut Vec<String>, p: &str)
    ensures
        sviews(final(paths)@) == with_path(sviews(old(paths)@), p@),
{
    if !contains_string(paths, p) {
        let ghost p0 = paths@;
        paths.push(String::from_str(p));
        assert(sviews(paths@) =~= sviews(p0).push(p@));
    }
}

/// Adds the Latin and (where it applies) Cyrillic slot paths of a hotkey to
/// the keybinding path list, each only if missing; an empty hotkey adds
/// nothing.
pub fn append_keybinding_paths(paths: &mut Vec<String>, hotkey: &str, latin_path: &str, cyr_path: &str)
    ensures
        sviews(final(paths)@) == spec_append_keybinding_paths(
            sviews(old(paths)@),
            hotkey@,
            latin_path@,
            cyr_path@,
        ),
{
    let h = chars_of(hotkey);
    if h.len() == 0 {
        return;
    }
    push_if_absent(paths, latin_path);
    let binding = tauri_hotkey_to_gsettings(hotkey);
    if cyrillic_binding(binding.as_str()).is_some() {
        push_if_absent(paths, cyr_path);
    }
}

/// A gsettings value without surrounding blanks and single quotes.
pub open spec fn spec_unquote_gsettings_value(raw: Seq<char>) -> Seq<char> {
    trim_by(trim(raw), CharClass::Is('\''))
}

/// Strips the blanks and then the single quotes around a gsettings value.
pub fn unquote_gsettings_value(raw: &str) -> (r: String)
    ensures
        r@ == spec_unquote_gsettings_value(raw@),
{
    let v = chars_of(raw);
    let t = trim_vec(&v, &CharClass::Whitespace);
    let u = trim_vec(&t, &CharClass::Is('\''));
    string_of(&u)
}

/// The first line that contains the pattern.
pub open spec fn first_line_with(ls: Seq<Seq<char>>, pat: Seq<char>) -> Option<Seq<char>>
    decreases ls.len(),
{
    if ls.len() == 0 {
        None
    } else if contains(ls[0], pat) {
        Some(ls[0])
    } else {
        first_line_with(ls.drop_first(), pat)
    }
}

/// The second word of a line, or `???` when it has fewer than two words.
pub open spec fn second_word_or_unknown(line: Seq<char>) -> Seq<char> {
    if words(line).len() > 1 {
        words(line)[1]
    } else {
        "???"@
    }
}

pub open spec fn spec_builtin_conflict_name(text: Seq<char>, binding: Seq<char>) -> Option<Seq<char>> {
    match first_line_with(lines(text), binding) {
        Some(l) => Some(second_word_or_unknown(l)),
        None => None,
    }
}

/// In the output of `gsettings list-recursively`, the setting that already
/// uses a binding: the second word of the first line that mentions it.
pub fn builtin_conflict_name(text: &str, binding: &str) -> (r: Option<String>)
    ensures
        match r {
            Some(x) => spec_builtin_conflict_name(text@, binding@) == Some(x@),
            None => spec_builtin_conflict_name(text@, binding@) is None,
        },
{
    let t = chars_of(text);
    let b = chars_of(binding);
    let ls = lines_vec(&t);
    let ghost lv = vviews(ls@);
    let mut i: usize = 0;
    assert(lv.subrange(0, lv.len() as int) =~= lv);
    while i < ls.len()
        invariant
            i <= ls.len(),
            lv == vviews(ls@),
            lv == lines(t@),
            t@ == text@,
            b@ == binding@,
            first_line_with(lv, b@) == first_line_with(lv.subrange(i as int, lv.len() as int), b@),
        decreases ls.len() - i,
    {
        let line = &ls[i];
        assert(lv.subrange(i as int, lv.len() as int)[0] == line@);
        if contains_vec(line, &b) {
            assert(first_line_with(lv.subrange(i as int, lv.len() as int), b@) == Some(line@));
            let ws = words_vec(line);
            assert(first_line_with(lv, b@) == Some(line@));
            assert(spec_builtin_conflict_name(text@, binding@) == Some(second_word_or_unknown(line@)));
            if ws.len() > 1 {
                assert(vviews(ws@)[1] == ws@[1]@);
                return Some(string_of(&ws[1]));
            } else {
                return Some(String::from_str("???"));
            }
        }
        assert(lv.subrange(i as int, lv.len() as int).drop_first() =~= lv.subrange(
            i + 1,
            lv.len() as int,
        ));
        i = i + 1;
    }
    None
}

/// A value in single quotes, as gsettings takes a string.
pub open spec fn quoted(x: Seq<char>) -> Seq<char> {
    "'"@ + x + "'"@
}

pub fn quoted_vec(x: &Vec<char>) -> (r: Vec<char>)
    ensures
        r@ == quoted(x@),
{
    let mut r = chars_of("'");
    push_all(&mut r, x);
    push_str(&mut r, "'");
    r
}

/// One `gsettings set <schema>:<path> <key> <value>` write.
pub struct KeybindingWrite {
    pub path: String,
    pub key: String,
    pub value: String,
}

pub open spec fn write_view(w: KeybindingWrite) -> (Seq<char>, Seq<char>, Seq<char>) {
    (w.path@, w.key@, w.value@)
}

pub open spec fn writes_view(ws: Seq<KeybindingWrite>) -> Seq<(Seq<char>, Seq<char>, Seq<char>)> {
    ws.map_values(|w: KeybindingWrite| write_view(w))
}

/// The writes that register one hotkey: name, command and binding of its
/// Latin slot, then the same for its Cyrillic slot when its key has a
/// Cyrillic duplicate; nothing for an empty hotkey.
pub open spec fn spec_register_hotkey_pair(
    hotkey: Seq<char>,
    latin_path: Seq<char>,
    cyr_path: Seq<char>,
    name: Seq<char>,
    name_ru: Seq<char>,
    command: Seq<char>,
) -> Seq<(Seq<char>, Seq<char>, Seq<char>)> {
    if hotkey.len() == 0 {
        seq![]
    } else {
        let b = gsettings_binding(hotkey);
        let base = seq![
            (latin_path, "name"@, quoted(name)),
            (latin_path, "command"@, quoted(command)),
            (latin_path, "binding"@, quoted(b)),
        ];
        match spec_cyrillic_binding(b) {
            Some(cb) => base + seq![
                (cyr_path, "name"@, quoted(name_ru)),
                (cyr_path, "command"@, quoted(command)),
                (cyr_path, "binding"@, quoted(cb)),
            ],
            None => base,
        }
    }
}

fn write_of(path: &str, key: &str, value: &Vec<char>) -> (w: KeybindingWrite)
    ensures
        write_view(w) == (path@, key@, quoted(value@)),
{
    let q = quoted_vec(value);
    KeybindingWrite { path: String::from_str(path), key: String::from_str(key), value: string_of(&q) }
}

/// The gsettings writes that register the Latin slot of a hotkey and, when
/// its key has one, its Cyrillic-layout duplicate.
pub fn register_hotkey_pair(
    hotkey: &str,
    latin_path: &str,
    cyr_path: &str,
    name: &str,
    name_ru: &str,
    command: &str,
) -> (r: Vec<KeybindingWrite>)
    ensures
        writes_view(r@) == spec_register_hotkey_pair(
            hotkey@,
            latin_path@,
            cyr_path@,
            name@,
            name_ru@,
            command@,
        ),
{
    let mut r: Vec<KeybindingWrite> = Vec::new();
    let h = chars_of(hotkey);
    if h.len() == 0 {
        assert(writes_view(r@) =~= seq![]);
        return r;
    }
    let binding = tauri_hotkey_to_gsettings(hotkey);
    let bv = chars_of(binding.as_str());
    let nv = chars_of(name);
    let cv = chars_of(command);
    r.push(write_of(latin_path, "name", &nv));
    r.push(write_of(latin_path, "command", &cv));
    r.push(write_of(latin_path, "binding", &bv));
    let ghost base = writes_view(r@);
    match cyrillic_binding(binding.as_str()) {
        Some(cb) => {
            let nrv = chars_of(name_ru);
            let cbv = chars_of(cb.as_str());
            r.push(write_of(cyr_path, "name", &nrv));
            r.push(write_of(cyr_path, "command", &cv));
            r.push(write_of(cyr_path, "binding", &cbv));
        },
        None => {},
    }
    assert(writes_view(r@) =~= spec_register_hotkey_pair(
        hotkey@,
        latin_path@,
        cyr_path@,
        name@,
        name_ru@,
        command@,
    ));
    r
}

/// The custom keybinding paths to scan for a conflict: those listed, but
/// not the slots of this application (`arcanaglyph-…`).
pub open spec fn spec_foreign_paths(ps: Seq<Seq<char>>) -> Seq<Seq<char>> {
    ps.filter(|p: Seq<char>| !contains(p, "arcanaglyph-"@))
}

/// The custom keybinding paths that belong to other applications, from the
/// output of `gsettings get … custom-keybindings`.
pub fn foreign_keybinding_paths(raw: &str) -> (r: Vec<String>)
    ensures
        sviews(r@) == spec_foreign_paths(spec_parse_gsettings_paths(trim(raw@))),
{
    let rv = chars_of(raw);
    let t = trim_vec(&rv, &CharClass::Whitespace);
    let ts = string_of(&t);
    let all = parse_gsettings_paths(ts.as_str());
    let ghost f = |p: Seq<char>| !contains(p, "arcanaglyph-"@);
    let ghost av = sviews(all@);
    let ours = chars_of("arcanaglyph-");
    let mut r: Vec<String> = Vec::new();
    let mut i: usize = 0;
    while i < all.len()
        invariant
            i <= all.len(),
            av == sviews(all@),
            ours@ == "arcanaglyph-"@,
            f == (|p: Seq<char>| !contains(p, "arcanaglyph-"@)),
            sviews(r@) == av.take(i as int).filter(f),
        decreases all.len() - i,
    {
        proof {
            reveal(Seq::filter);
            assert(av.take(i + 1).drop_last() =~= av.take(i as int));
            assert(av.take(i + 1).last() == all@[i as int]@);
        }
        let pv = chars_of(all[i].as_str());
        if !contains_vec(&pv, &ours) {
            let ghost r0 = sviews(r@);
            r.push(all[i].clone());
            assert(sviews(r@) =~= r0.push(all@[i as int]@));
        }
        i = i + 1;
    }
    assert(av.take(av.len() as int) =~= av);
    r
}

/// How a conflict with a built-in shortcut is named: the setting and its
/// schema, `name (schema)`.
pub fn builtin_conflict_label(name: &str, schema: &str) -> (r: String)
    ensures
        r@ == name@ + " ("@ + schema@ + ")"@,
{
    let mut r = name.to_owned();
    r.append(" (");
    r.append(schema);
    r.append(")");
    r
}

/// How a conflict with another application's custom keybinding is named.
pub fn custom_conflict_label(name: &str) -> (r: String)
    ensures
        r@ == name@ + " (custom keybinding)"@,
{
    let mut r = name.to_owned();
    r.append(" (custom keybinding)");
    r
}

} // verus!
