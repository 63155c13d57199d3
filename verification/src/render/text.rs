use vstd::prelude::*;

use crate::strings::{
    ascii_lower, chars_eq, chars_of, is_blank, lower_seq, string_from_chars, to_ascii_lowercase,
    trim, trim_ws,
};

verus! {

/// The font the interface text is drawn in.
#[derive(Clone, Debug)]
pub struct FontConfig {
    pub family: String,
    pub size: u32,
    pub weight: u16,
}

/// Seconds an unused shaped text stays cached.
pub const UI_TEXT_CACHE_TTL_SECS: u64 = 30;

/// The pixel size of interface text at an interface scale: scale 1 is
/// two pixels smaller (at least 8), scale 2 is the configured size, and
/// each further step adds four pixels (never past `u32::MAX`).
pub open spec fn font_size_spec(size: u32, scale: i32) -> int {
    let s: int = if scale < 1 {
        1
    } else {
        scale as int
    };
    if s == 1 {
        let d: int = if size < 2 {
            0
        } else {
            size - 2
        };
        if d < 8 {
            8
        } else {
            d
        }
    } else if s == 2 {
        size as int
    } else {
        let add: int = if (s - 2) * 4 > u32::MAX {
            u32::MAX as int
        } else {
            (s - 2) * 4
        };
        if size + add > u32::MAX {
            u32::MAX as int
        } else {
            size + add
        }
    }
}

pub fn font_size_for_scale(font: &FontConfig, scale: i32) -> (r: u32)
    ensures
        r == font_size_spec(font.size, scale),
{
    let s: i32 = if scale < 1 {
        1
    } else {
        scale
    };
    if s == 1 {
        let d: u32 = font.size.saturating_sub(2);
        if d < 8 {
            8
        } else {
            d
        }
    } else if s == 2 {
        font.size
    } else {
        let steps: u32 = (s - 2) as u32;
        let add: u32 = if steps > u32::MAX / 4 {
            u32::MAX
        } else {
            steps * 4
        };
        font.size.saturating_add(add)
    }
}

/// The family to draw with: the configured one trimmed, or `default_family`
/// when it is blank.
pub fn normalized_family(font: &FontConfig, default_family: &str) -> (r: String)
    ensures
        is_blank(font.family@) ==> r@ == default_family@,
        !is_blank(font.family@) ==> r@ == trim_ws(font.family@),
{
    let t: Vec<char> = trim(chars_of(font.family.as_str()).as_slice());
    if t.len() == 0 {
        string_from_chars(chars_of(default_family).as_slice())
    } else {
        string_from_chars(t.as_slice())
    }
}

/// A font family as the text shaper takes it: one of the generic families,
/// or a family by name.
#[derive(Clone, Debug)]
pub enum FamilyKind {
    Serif,
    SansSerif,
    Cursive,
    Fantasy,
    Monospace,
    Name(String),
}

pub open spec fn generic_family(k: Seq<char>) -> Option<FamilyKind> {
    if k == "serif"@ {
        Some(FamilyKind::Serif)
    } else if k == "sans-serif"@ || k == "sans_serif"@ || k == "sansserif"@ || k == "sans"@ {
        Some(FamilyKind::SansSerif)
    } else if k == "cursive"@ {
        Some(FamilyKind::Cursive)
    } else if k == "fantasy"@ {
        Some(FamilyKind::Fantasy)
    } else if k == "monospace"@ {
        Some(FamilyKind::Monospace)
    } else {
        None
    }
}

/// The generic family names are exactly `serif`; `sans-serif`,
/// `sans_serif`, `sansserif` and `sans`; `cursive`; `fantasy`; and
/// `monospace`, each naming its generic family. A configured family
/// names a generic one when it reads as one of them once trimmed and in
/// ASCII lowercase; any other family is looked up by name.
pub proof fn law_generic_family_names(family: Seq<char>)
    ensures
        ({
            let k = lower_seq(trim_ws(family));
            &&& k == "serif"@ ==> generic_family(k) == Some(FamilyKind::Serif)
            &&& (k == "sans-serif"@ || k == "sans_serif"@ || k == "sansserif"@ || k == "sans"@)
                ==> generic_family(k) == Some(FamilyKind::SansSerif)
            &&& k == "cursive"@ ==> generic_family(k) == Some(FamilyKind::Cursive)
            &&& k == "fantasy"@ ==> generic_family(k) == Some(FamilyKind::Fantasy)
            &&& k == "monospace"@ ==> generic_family(k) == Some(FamilyKind::Monospace)
            &&& generic_family(k) is Some ==> (k == "serif"@ || k == "sans-serif"@ || k
                == "sans_serif"@ || k == "sansserif"@ || k == "sans"@ || k == "cursive"@ || k
                == "fantasy"@ || k == "monospace"@)
        }),
{
    reveal_strlit("serif");
    reveal_strlit("sans-serif");
    reveal_strlit("sans_serif");
    reveal_strlit("sansserif");
    reveal_strlit("sans");
    reveal_strlit("cursive");
    reveal_strlit("fantasy");
    reveal_strlit("monospace");
    assert("sans-serif"@[4] != "sans_serif"@[4]);
    assert("sansserif"@[0] != "monospace"@[0]);
    assert("cursive"@[0] != "fantasy"@[0]);
    assert("serif"@.len() != "sans-serif"@.len() && "serif"@.len() != "sansserif"@.len()
        && "serif"@.len() != "sans"@.len() && "serif"@.len() != "cursive"@.len()
        && "serif"@.len() != "monospace"@.len() && "sans"@.len() != "cursive"@.len()
        && "sans-serif"@.len() != "cursive"@.len() && "sansserif"@.len() != "cursive"@.len()
        && "sans-serif"@.len() != "monospace"@.len() && "sans"@.len() != "monospace"@.len()
        && "cursive"@.len() != "monospace"@.len());
}

fn is_word(v: &[char], w: &str) -> (r: bool)
    ensures
        r == (v@ == w@),
{
    let wc: Vec<char> = chars_of(w);
    chars_eq(v, wc.as_slice())
}

/// Reads a family name: the generic family names (trimmed, any ASCII
/// case) name their generic family; any other text is a family by name, as
/// given.
pub fn resolve_family(family: &str) -> (r: FamilyKind)
    ensures
        match generic_family(lower_seq(trim_ws(family@))) {
            Some(g) => r == g,
            None => r matches FamilyKind::Name(n) && n@ == family@,
        },
{
    let k: Vec<char> = to_ascii_lowercase(trim(chars_of(family).as_slice()).as_slice());
    let ks: &[char] = k.as_slice();
    if is_word(ks, "serif") {
        FamilyKind::Serif
    } else if is_word(ks, "sans-serif") || is_word(ks, "sans_serif") || is_word(ks, "sansserif")
        || is_word(ks, "sans") {
        FamilyKind::SansSerif
    } else if is_word(ks, "cursive") {
        FamilyKind::Cursive
    } else if is_word(ks, "fantasy") {
        FamilyKind::Fantasy
    } else if is_word(ks, "monospace") {
        FamilyKind::Monospace
    } else {
        FamilyKind::Name(string_from_chars(chars_of(family).as_slice()))
    }
}

/// The lowercase mapping of a character (`char::to_lowercase`), one or more
/// characters.
pub uninterp spec fn char_lowercase(c: char) -> Seq<char>;

/// `char::to_lowercase`, collected. The Unicode mapping itself is named,
/// not stated; std's documentation gives that an ASCII character maps to
/// its ASCII lowercase letter.
#[verifier::external_body]
fn lowercase_of(c: char) -> (r: Vec<char>)
    ensures
        r@ == char_lowercase(c),
        (c as u32) < 128 ==> r@ == seq![ascii_lower(c)],
{
    c.to_lowercase().collect()
}

/// The lowercase form of one character: the ASCII lowercase letter for
/// an ASCII character, `char::to_lowercase` otherwise.
pub open spec fn lower_char_seq(c: char) -> Seq<char> {
    if (c as u32) < 128 {
        seq![ascii_lower(c)]
    } else {
        char_lowercase(c)
    }
}

/// A font name folded for comparison: spaces, hyphens and underscores
/// dropped, the rest lowercased.
pub open spec fn fold_spec(name: Seq<char>) -> Seq<char>
    decreases name.len(),
{
    if name.len() == 0 {
        Seq::empty()
    } else {
        let c = name.last();
        let rest = fold_spec(name.drop_last());
        if c == ' ' || c == '-' || c == '_' {
            rest
        } else {
            rest + lower_char_seq(c)
        }
    }
}

pub fn fold_font_name(name: &str) -> (r: String)
    ensures
        r@ == fold_spec(name@),
{
    let c: Vec<char> = chars_of(name);
    let mut out: Vec<char> = Vec::new();
    let mut i: usize = 0;
    while i < c.len()
        invariant
            i <= c@.len(),
            out@ == fold_spec(c@.take(i as int)),
        decreases c.len() - i,
    {
        proof {
            assert(c@.take(i + 1).drop_last() =~= c@.take(i as int));
            assert(c@.take(i + 1).last() == c@[i as int]);
        }
        let ch: char = c[i];
        if !(ch == ' ' || ch == '-' || ch == '_') {
            let low: Vec<char> = lowercase_of(ch);
            out = crate::strings::concat(out.as_slice(), low.as_slice());
        }
        i = i + 1;
    }
    proof {
        assert(c@.take(c.len() as int) =~= c@);
    }
    string_from_chars(out.as_slice())
}

/// A font face the system knows: its family names and PostScript name.
#[derive(Clone, Debug)]
pub struct FontFace {
    pub families: Vec<String>,
    pub post_script_name: String,
}

/// The first family of `families`, from `i` on, that folds to `folded`.
pub open spec fn family_match_from(families: Seq<String>, folded: Seq<char>, i: int) -> Option<
    Seq<char>,
>
    decreases families.len() - i,
{
    if i < 0 || i >= families.len() {
        None
    } else if fold_spec(families[i]@) == folded {
        Some(families[i]@)
    } else {
        family_match_from(families, folded, i + 1)
    }
}

/// What one face offers for the folded name: a family of it that folds to
/// the name, else its first family when its PostScript name folds to it.
pub open spec fn face_match(face: FontFace, folded: Seq<char>) -> Option<Seq<char>> {
    match family_match_from(face.families@, folded, 0) {
        Some(f) => Some(f),
        None => if fold_spec(face.post_script_name@) == folded && face.families@.len() > 0 {
            Some(face.families@[0]@)
        } else {
            None
        },
    }
}

/// The first face, from `i` on, that offers a family for the folded name.
pub open spec fn faces_match_from(faces: Seq<FontFace>, folded: Seq<char>, i: int) -> Option<
    Seq<char>,
>
    decreases faces.len() - i,
{
    if i < 0 || i >= faces.len() {
        None
    } else {
        match face_match(faces[i], folded) {
            Some(f) => Some(f),
            None => faces_match_from(faces, folded, i + 1),
        }
    }
}

/// The installed family a configured name stands for: none for a blank or
/// generic name; otherwise the first face's family whose name (or whose
/// face's PostScript name) matches it up to case, spaces, hyphens and
/// underscores.
pub open spec fn named_family_spec(faces: Seq<FontFace>, requested: Seq<char>) -> Option<Seq<char>> {
    let r = trim_ws(requested);
    if r.len() == 0 || generic_family(lower_seq(trim_ws(r))) is Some {
        None
    } else {
        faces_match_from(faces, fold_spec(r), 0)
    }
}

fn family_match(families: &Vec<String>, folded: &String) -> (r: Option<String>)
    ensures
        match family_match_from(families@, folded@, 0) {
            Some(f) => r matches Some(x) && x@ == f,
            None => r is None,
        },
{
    let mut i: usize = 0;
    while i < families.len()
        invariant
            i <= families@.len(),
            family_match_from(families@, folded@, 0) == family_match_from(
                families@,
                folded@,
                i as int,
            ),
        decreases families.len() - i,
    {
        let f: String = fold_font_name(families[i].as_str());
        if f == *folded {
            return Some(families[i].clone());
        }
        i = i + 1;
    }
    None
}

/// Resolves a configured family name against the installed faces.
pub fn resolve_named_family(faces: &[FontFace], requested_family: &str) -> (r: Option<String>)
    ensures
        match named_family_spec(faces@, requested_family@) {
            Some(f) => r matches Some(x) && x@ == f,
            None => r is None,
        },
{
    let requested: String = string_from_chars(
        trim(chars_of(requested_family).as_slice()).as_slice(),
    );
    if chars_of(requested.as_str()).len() == 0 {
        return None;
    }
    match resolve_family(requested.as_str()) {
        FamilyKind::Name(_) => {},
        _ => {
            return None;
        },
    }
    let folded: String = fold_font_name(requested.as_str());
    let mut i: usize = 0;
    while i < faces.len()
        invariant
            i <= faces@.len(),
            folded@ == fold_spec(requested@),
            requested@ == trim_ws(requested_family@),
            generic_family(lower_seq(trim_ws(requested@))) is None,
            requested@.len() > 0,
            faces_match_from(faces@, folded@, 0) == faces_match_from(faces@, folded@, i as int),
        decreases faces.len() - i,
    {
        let face: &FontFace = &faces[i];
        match family_match(&face.families, &folded) {
            Some(f) => {
                return Some(f);
            },
            None => {},
        }
        let ps: String = fold_font_name(face.post_script_name.as_str());
        if ps == folded && face.families.len() > 0 {
            return Some(face.families[0].clone());
        }
        i = i + 1;
    }
    None
}

/// A shaped text is kept while used within the last `UI_TEXT_CACHE_TTL_SECS`
/// seconds.
pub fn keep_text_cache_entry(last_used_at_ms: u64, now_ms: u64) -> (r: bool)
    ensures
        r == ((if now_ms >= last_used_at_ms {
            now_ms - last_used_at_ms
        } else {
            0
        }) / 1000 < UI_TEXT_CACHE_TTL_SECS),
{
    now_ms.saturating_sub(last_used_at_ms) / 1000 < UI_TEXT_CACHE_TTL_SECS
}

proof fn lemma_ascii_lower_same(x: char, y: char)
    requires
        ascii_lower(x) == ascii_lower(y),
    ensures
        lower_char_seq(x) == lower_char_seq(y) || x == y,
        (x == ' ' || x == '-' || x == '_') <==> (y == ' ' || y == '-' || y == '_'),
{
    if (x as u32) < 128 && (y as u32) < 128 {
    } else if !('A' <= x && x <= 'Z') && !('A' <= y && y <= 'Z') {
        assert(x == y);
    } else if 'A' <= x && x <= 'Z' {
        assert((ascii_lower(x) as u32) < 128);
        assert((y as u32) < 128);
    } else {
        assert((ascii_lower(y) as u32) < 128);
        assert((x as u32) < 128);
    }
}

/// Font names match up to ASCII case: two names that differ only in the
/// case of ASCII letters fold alike (so a family configured as
/// `dejavu sans` finds the installed `DejaVu Sans`).
pub proof fn law_fold_ignores_ascii_case(a: Seq<char>, b: Seq<char>)
    requires
        lower_seq(a) == lower_seq(b),
    ensures
        fold_spec(a) == fold_spec(b),
    decreases a.len(),
{
    assert(lower_seq(a).len() == a.len() && lower_seq(b).len() == b.len());
    if a.len() > 0 {
        let n = a.len() - 1;
        assert(lower_seq(a)[n] == ascii_lower(a[n]) && lower_seq(b)[n] == ascii_lower(b[n]));
        assert(lower_seq(a.drop_last()) =~= lower_seq(a).drop_last());
        assert(lower_seq(b.drop_last()) =~= lower_seq(b).drop_last());
        law_fold_ignores_ascii_case(a.drop_last(), b.drop_last());
        lemma_ascii_lower_same(a.last(), b.last());
    }
}

} // verus!
