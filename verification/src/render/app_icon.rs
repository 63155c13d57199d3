use vstd::prelude::*;

use crate::render::raster::{RasterFormat, NODE_ICON_RASTER_PX};
use crate::paths::{
    comp_lt, components_spec, extension, extension_spec, file_stem, file_stem_spec,
    lemma_path_lt_irreflexive, lemma_path_lt_transitive, part_text, part_text_of, part_view,
    parts_view, path_components, path_lt, path_lt_spec, Comp, PathPart,
};
use crate::strings::{
    chars_eq, chars_eq_ignore_ascii_case, chars_of, contains_chars, contains_seq, eq_ignore_case,
    has_prefix, is_blank, lower_seq, parse_unsigned, parse_unsigned_chars, prefix_to,
    replace_escape, replace_escape_chars, starts_with, string_from_chars, suffix_from,
    to_ascii_lowercase, trim, trim_class, trim_spec, trim_ws, TrimClass,
};

verus! {

// ---------------------------------------------------------------------------
// Which icon names to look for
// ---------------------------------------------------------------------------

pub open spec fn strings_view(v: Seq<String>) -> Seq<Seq<char>> {
    v.map_values(|s: String| s@)
}

/// `values` with `value` appended, unless it is blank or already there.
pub open spec fn push_unique_spec(values: Seq<Seq<char>>, value: Seq<char>) -> Seq<Seq<char>> {
    if !is_blank(value) && !values.contains(value) {
        values.push(value)
    } else {
        values
    }
}

/// Appends `value` unless it is blank or already in `values`.
pub fn push_unique(values: &mut Vec<String>, value: String)
    ensures
        strings_view(final(values)@) == push_unique_spec(strings_view(old(values)@), value@),
{
    let c: Vec<char> = chars_of(value.as_str());
    let t: Vec<char> = trim(c.as_slice());
    if t.len() == 0 {
        return;
    }
    let mut i: usize = 0;
    while i < values.len()
        invariant
            i <= values.len(),
            values@ == old(values)@,
            forall|j: int| 0 <= j < i ==> values@[j]@ != value@,
        decreases values.len() - i,
    {
        if values[i] == value {
            proof {
                assert(strings_view(values@)[i as int] == value@);
            }
            return;
        }
        i = i + 1;
    }
    proof {
        if strings_view(values@).contains(value@) {
            let k = choose|k: int|
                0 <= k < strings_view(values@).len() && strings_view(values@)[k] == value@;
            assert(values@[k]@ == value@);
        }
    }
    let ghost before = values@;
    values.push(value);
    proof {
        assert(strings_view(values@) =~= strings_view(before).push(value@));
    }
}

/// The last segment of an application id, after its last `.` or `/`
/// (`rsplit(['.', '/']).next()`): the whole id when it has neither.
pub open spec fn id_tail(app_id: Seq<char>) -> Seq<char>
    decreases app_id.len(),
{
    if app_id.len() == 0 {
        app_id
    } else if app_id.last() == '.' || app_id.last() == '/' {
        Seq::empty()
    } else {
        id_tail(app_id.drop_last()).push(app_id.last())
    }
}

pub fn app_id_tail(app_id: &str) -> (r: String)
    ensures
        r@ == id_tail(app_id@),
{
    let c: Vec<char> = chars_of(app_id);
    let mut start: usize = c.len();
    proof {
        assert(c@.take(c.len() as int) =~= c@);
        assert(c@.skip(c.len() as int) =~= Seq::<char>::empty());
        assert(c@ + Seq::<char>::empty() =~= c@);
        assert(id_tail(c@) + Seq::<char>::empty() =~= id_tail(c@));
    }
    while start > 0 && c[start - 1] != '.' && c[start - 1] != '/'
        invariant
            start <= c.len(),
            id_tail(c@) == id_tail(c@.take(start as int)) + c@.skip(start as int),
        decreases start,
    {
        proof {
            let p = c@.take(start as int);
            assert(p.drop_last() =~= c@.take(start - 1));
            assert(c@.skip(start - 1) =~= seq![c@[start - 1]] + c@.skip(start as int));
            assert(id_tail(p) == id_tail(p.drop_last()).push(p.last()));
            assert(id_tail(c@.take(start - 1)).push(c@[start - 1]) + c@.skip(start as int)
                =~= id_tail(c@.take(start - 1)) + c@.skip(start - 1));
        }
        start = start - 1;
    }
    proof {
        assert(c@.take(c.len() as int) =~= c@);
        assert(c@.skip(c.len() as int) =~= Seq::<char>::empty());
        assert(id_tail(c@) == id_tail(c@.take(c.len() as int)) + Seq::<char>::empty());
        assert(id_tail(c@.take(start as int)) =~= Seq::<char>::empty());
    }
    let tail: Vec<char> = suffix_from(c.as_slice(), start);
    string_from_chars(tail.as_slice())
}

/// The names an application's icon may go by, in the order they are tried:
/// the id, its last segment, and the icon its desktop entry names; each
/// once, blank ones left out.
pub open spec fn icon_candidates_spec(app_id: Seq<char>, desktop_icon: Option<Seq<char>>) -> Seq<
    Seq<char>,
> {
    let a = push_unique_spec(Seq::empty(), app_id);
    let b = if id_tail(app_id).len() > 0 {
        push_unique_spec(a, id_tail(app_id))
    } else {
        a
    };
    match desktop_icon {
        Some(i) => push_unique_spec(b, i),
        None => b,
    }
}

pub fn app_icon_candidates(app_id: &str, desktop_icon: Option<String>) -> (r: Vec<String>)
    ensures
        strings_view(r@) == icon_candidates_spec(
            app_id@,
            match desktop_icon {
                Some(i) => Some(i@),
                None => None,
            },
        ),
{
    let mut out: Vec<String> = Vec::new();
    proof {
        assert(strings_view(out@) =~= Seq::<Seq<char>>::empty());
    }
    let id: String = string_from_chars(chars_of(app_id).as_slice());
    push_unique(&mut out, id);
    let tail: String = app_id_tail(app_id);
    let tail_len: usize = chars_of(tail.as_str()).len();
    if tail_len > 0 {
        push_unique(&mut out, tail);
    }
    match desktop_icon {
        Some(i) => push_unique(&mut out, i),
        None => {},
    }
    out
}

// ---------------------------------------------------------------------------
// Desktop entries
// ---------------------------------------------------------------------------

/// A desktop-entry value with its escapes `\s`, `\n` and `\t` read as
/// spaces, then stripped of surrounding quotes and spaces.
pub open spec fn unescape_spec(value: Seq<char>) -> Seq<char> {
    trim_spec(
        replace_escape(replace_escape(replace_escape(value, 's', ' '), 'n', ' '), 't', ' '),
        TrimClass::QuoteOrSpace,
    )
}

pub fn unescape_desktop_value(value: &str) -> (r: String)
    ensures
        r@ == unescape_spec(value@),
{
    let c: Vec<char> = chars_of(value);
    let a: Vec<char> = replace_escape_chars(c.as_slice(), 's', ' ');
    let b: Vec<char> = replace_escape_chars(a.as_slice(), 'n', ' ');
    let d: Vec<char> = replace_escape_chars(b.as_slice(), 't', ' ');
    let t: Vec<char> = trim_class(d.as_slice(), TrimClass::QuoteOrSpace);
    string_from_chars(t.as_slice())
}

/// The keys of a desktop entry that matter here.
#[derive(Clone, Debug)]
pub struct DesktopEntry {
    pub icon: Option<String>,
    pub startup_wm_class: Option<String>,
}

/// Where a parse stands: inside the `[Desktop Entry]` group or not, and
/// the values read so far.
pub type DesktopParse = (bool, Option<Seq<char>>, Option<Seq<char>>);

/// The text split at its line feeds: the finished lines, and the line
/// still open at the end.
pub open spec fn line_split(s: Seq<char>) -> (Seq<Seq<char>>, Seq<char>)
    decreases s.len(),
{
    if s.len() == 0 {
        (Seq::empty(), Seq::empty())
    } else {
        let (done, open) = line_split(s.drop_last());
        if s.last() == '\n' {
            (done.push(open), Seq::empty())
        } else {
            (done, open.push(s.last()))
        }
    }
}

/// The lines of a text (`str::lines`, but for a carriage return before a
/// line feed, which stays on the line; every line is trimmed before use,
/// and the trim takes it away).
pub open spec fn lines_spec(s: Seq<char>) -> Seq<Seq<char>> {
    let (done, open) = line_split(s);
    if open.len() > 0 {
        done.push(open)
    } else {
        done
    }
}

/// Reading one line of a desktop file: comments and blank lines are
/// skipped, a `[group]` header enters or leaves the `[Desktop Entry]`
/// group, and inside it `Icon=` and `StartupWMClass=` set their value (a
/// later line wins).
pub open spec fn desktop_step(st: DesktopParse, raw_line: Seq<char>) -> DesktopParse {
    let line = trim_ws(raw_line);
    if line.len() == 0 || line[0] == '#' {
        st
    } else if line[0] == '[' {
        (eq_ignore_case(line, "[Desktop Entry]"@), st.1, st.2)
    } else if !st.0 {
        st
    } else if has_prefix(line, "Icon="@) {
        (st.0, Some(unescape_spec(line.skip(5))), st.2)
    } else if has_prefix(line, "StartupWMClass="@) {
        (st.0, st.1, Some(unescape_spec(line.skip(15))))
    } else {
        st
    }
}

pub open spec fn desktop_fold(lines: Seq<Seq<char>>) -> DesktopParse
    decreases lines.len(),
{
    if lines.len() == 0 {
        (false, None, None)
    } else {
        desktop_step(desktop_fold(lines.drop_last()), lines.last())
    }
}

pub open spec fn opt_string_view(o: Option<String>) -> Option<Seq<char>> {
    match o {
        Some(s) => Some(s@),
        None => None,
    }
}

fn desktop_line(
    in_group: &mut bool,
    entry: &mut DesktopEntry,
    raw_line: &[char],
)
    ensures
        (*final(in_group), opt_string_view(final(entry).icon), opt_string_view(
            final(entry).startup_wm_class,
        )) == desktop_step(
            (*old(in_group), opt_string_view(old(entry).icon), opt_string_view(
                old(entry).startup_wm_class,
            )),
            raw_line@,
        ),
{
    let line: Vec<char> = trim(raw_line);
    if line.len() == 0 || line[0] == '#' {
        return;
    }
    if line[0] == '[' {
        let header: Vec<char> = chars_of("[Desktop Entry]");
        *in_group = chars_eq_ignore_ascii_case(line.as_slice(), header.as_slice());
        return;
    }
    if !*in_group {
        return;
    }
    let icon_key: Vec<char> = chars_of("Icon=");
    let class_key: Vec<char> = chars_of("StartupWMClass=");
    proof {
        reveal_strlit("Icon=");
        reveal_strlit("StartupWMClass=");
    }
    if starts_with(line.as_slice(), icon_key.as_slice()) {
        let v: Vec<char> = suffix_from(line.as_slice(), 5);
        let vs: String = string_from_chars(v.as_slice());
        entry.icon = Some(unescape_desktop_value(vs.as_str()));
    } else if starts_with(line.as_slice(), class_key.as_slice()) {
        let v: Vec<char> = suffix_from(line.as_slice(), 15);
        let vs: String = string_from_chars(v.as_slice());
        entry.startup_wm_class = Some(unescape_desktop_value(vs.as_str()));
    }
}

/// Reads the `Icon` and `StartupWMClass` keys of the `[Desktop Entry]`
/// group of a desktop file's text.
pub fn parse_desktop_entry(text: &str) -> (r: DesktopEntry)
    ensures
        desktop_fold(lines_spec(text@)) == (
            desktop_fold(lines_spec(text@)).0,
            opt_string_view(r.icon),
            opt_string_view(r.startup_wm_class),
        ),
{
    let c: Vec<char> = chars_of(text);
    let mut in_group: bool = false;
    let mut entry: DesktopEntry = DesktopEntry { icon: None, startup_wm_class: None };
    let mut line: Vec<char> = Vec::new();
    let mut i: usize = 0;
    while i < c.len()
        invariant
            i <= c.len(),
            line@ == line_split(c@.take(i as int)).1,
            (in_group, opt_string_view(entry.icon), opt_string_view(entry.startup_wm_class))
                == desktop_fold(line_split(c@.take(i as int)).0),
        decreases c.len() - i,
    {
        proof {
            assert(c@.take(i + 1).drop_last() =~= c@.take(i as int));
            assert(c@.take(i + 1).last() == c@[i as int]);
        }
        if c[i] == '\n' {
            proof {
                let done = line_split(c@.take(i as int)).0;
                assert(done.push(line@).drop_last() =~= done);
            }
            desktop_line(&mut in_group, &mut entry, line.as_slice());
            line = Vec::new();
        } else {
            line.push(c[i]);
        }
        i = i + 1;
    }
    proof {
        assert(c@.take(c.len() as int) =~= c@);
    }
    if line.len() > 0 {
        proof {
            let done = line_split(c@).0;
            assert(done.push(line@).drop_last() =~= done);
        }
        desktop_line(&mut in_group, &mut entry, line.as_slice());
    }
    entry
}

/// A desktop entry belongs to an application when its file stem, or its
/// `StartupWMClass`, equals the application id up to ASCII case.
pub open spec fn desktop_entry_matches_spec(
    stem: Option<Seq<char>>,
    wm_class: Option<Seq<char>>,
    app_id: Seq<char>,
) -> bool {
    (stem matches Some(s) && eq_ignore_case(s, app_id)) || (wm_class matches Some(w)
        && eq_ignore_case(w, app_id))
}

pub fn desktop_entry_matches(stem: Option<&str>, wm_class: Option<&str>, app_id: &str) -> (r: bool)
    ensures
        r == desktop_entry_matches_spec(
            match stem {
                Some(s) => Some(s@),
                None => None,
            },
            match wm_class {
                Some(w) => Some(w@),
                None => None,
            },
            app_id@,
        ),
{
    let id: Vec<char> = chars_of(app_id);
    let stem_ok: bool = match stem {
        Some(s) => chars_eq_ignore_ascii_case(chars_of(s).as_slice(), id.as_slice()),
        None => false,
    };
    let class_ok: bool = match wm_class {
        Some(w) => chars_eq_ignore_ascii_case(chars_of(w).as_slice(), id.as_slice()),
        None => false,
    };
    stem_ok || class_ok
}

/// The icon named by the first desktop entry, in the order the entries
/// were found, that belongs to the application and names an icon.
pub open spec fn first_desktop_icon_spec(
    entries: Seq<(Option<String>, DesktopEntry)>,
    app_id: Seq<char>,
) -> Option<Seq<char>>
    decreases entries.len(),
{
    if entries.len() == 0 {
        None
    } else if desktop_entry_matches_spec(
        opt_string_view(entries[0].0),
        opt_string_view(entries[0].1.startup_wm_class),
        app_id,
    ) && entries[0].1.icon is Some {
        opt_string_view(entries[0].1.icon)
    } else {
        first_desktop_icon_spec(entries.drop_first(), app_id)
    }
}

/// Among desktop entries found by walking the application directories
/// (each with its file stem), the icon of the first one that belongs to
/// `app_id` and names an icon.
pub fn first_matching_desktop_icon(entries: &[(Option<String>, DesktopEntry)], app_id: &str) -> (r:
    Option<String>)
    ensures
        opt_string_view(r) == first_desktop_icon_spec(entries@, app_id@),
{
    let mut i: usize = 0;
    proof {
        assert(entries@.skip(0) =~= entries@);
    }
    while i < entries.len()
        invariant
            i <= entries.len(),
            first_desktop_icon_spec(entries@, app_id@) == first_desktop_icon_spec(
                entries@.skip(i as int),
                app_id@,
            ),
        decreases entries.len() - i,
    {
        proof {
            assert(entries@.skip(i as int).drop_first() =~= entries@.skip(i + 1));
            assert(entries@.skip(i as int)[0] == entries@[i as int]);
        }
        let stem: Option<&str> = match &entries[i].0 {
            Some(s) => Some(s.as_str()),
            None => None,
        };
        let class: Option<&str> = match &entries[i].1.startup_wm_class {
            Some(w) => Some(w.as_str()),
            None => None,
        };
        if desktop_entry_matches(stem, class, app_id) {
            match &entries[i].1.icon {
                Some(icon) => {
                    return Some(icon.clone());
                },
                None => {},
            }
        }
        i = i + 1;
    }
    proof {
        assert(entries@.skip(i as int) =~= Seq::<(Option<String>, DesktopEntry)>::empty());
    }
    None
}

// ---------------------------------------------------------------------------
// Which applications still need an icon
// ---------------------------------------------------------------------------

/// A node on screen, as the icon loader sees it.
#[derive(Clone, Debug)]
pub struct IconNode {
    /// The node is drawn in a state that shows its application icon (as a
    /// node or a core).
    pub shows_icon: bool,
    /// The application the node belongs to, if known.
    pub app_id: Option<String>,
}

/// The application ids to look up, in order: those of nodes that show an
/// icon, not yet in the cache, each once (a lookup fills the cache, found
/// or not).
pub open spec fn icon_load_order_spec(nodes: Seq<IconNode>, cached: Seq<Seq<char>>) -> Seq<
    Seq<char>,
>
    decreases nodes.len(),
{
    if nodes.len() == 0 {
        Seq::empty()
    } else {
        let prev = icon_load_order_spec(nodes.drop_last(), cached);
        let n = nodes.last();
        if n.shows_icon && n.app_id is Some && !cached.contains(n.app_id->0@) && !prev.contains(
            n.app_id->0@,
        ) {
            prev.push(n.app_id->0@)
        } else {
            prev
        }
    }
}

/// Each application's icon is looked up at most once per frame, and
/// never when it is already cached.
pub proof fn law_icon_lookups_once(nodes: Seq<IconNode>, cached: Seq<Seq<char>>)
    ensures
        icon_load_order_spec(nodes, cached).no_duplicates(),
        forall|k: int|
            0 <= k < icon_load_order_spec(nodes, cached).len() ==> !cached.contains(
                #[trigger] icon_load_order_spec(nodes, cached)[k],
            ),
    decreases nodes.len(),
{
    if nodes.len() > 0 {
        law_icon_lookups_once(nodes.drop_last(), cached);
    }
}

fn string_listed(values: &Vec<String>, value: &String) -> (r: bool)
    ensures
        r == strings_view(values@).contains(value@),
{
    let mut i: usize = 0;
    while i < values.len()
        invariant
            i <= values.len(),
            forall|j: int| 0 <= j < i ==> values@[j]@ != value@,
        decreases values.len() - i,
    {
        if values[i] == *value {
            proof {
                assert(strings_view(values@)[i as int] == value@);
            }
            return true;
        }
        i = i + 1;
    }
    proof {
        if strings_view(values@).contains(value@) {
            let k = choose|k: int|
                0 <= k < strings_view(values@).len() && strings_view(values@)[k] == value@;
            assert(values@[k]@ == value@);
        }
    }
    false
}

/// Which application icons a frame still has to resolve, given the nodes
/// it draws and the application ids already in the icon cache.
pub fn app_icon_load_order(nodes: &[IconNode], cached: &Vec<String>) -> (r: Vec<String>)
    ensures
        strings_view(r@) == icon_load_order_spec(nodes@, strings_view(cached@)),
{
    let mut out: Vec<String> = Vec::new();
    let mut i: usize = 0;
    proof {
        assert(nodes@.take(0) =~= Seq::<IconNode>::empty());
        assert(strings_view(out@) =~= Seq::<Seq<char>>::empty());
    }
    while i < nodes.len()
        invariant
            i <= nodes.len(),
            strings_view(out@) == icon_load_order_spec(nodes@.take(i as int), strings_view(cached@)),
        decreases nodes.len() - i,
    {
        proof {
            assert(nodes@.take(i + 1).drop_last() =~= nodes@.take(i as int));
            assert(nodes@.take(i + 1).last() == nodes@[i as int]);
        }
        if nodes[i].shows_icon {
            match &nodes[i].app_id {
                Some(a) => {
                    if !string_listed(cached, a) && !string_listed(&out, a) {
                        let ghost before = out@;
                        out.push(a.clone());
                        proof {
                            assert(strings_view(out@) =~= strings_view(before).push(a@));
                        }
                    }
                },
                None => {},
            }
        }
        i = i + 1;
    }
    proof {
        assert(nodes@.take(nodes.len() as int) =~= nodes@);
    }
    out
}

// ---------------------------------------------------------------------------
// Choosing among icon files
// ---------------------------------------------------------------------------


/// Index of the first `x` in `s`.
pub open spec fn first_x(s: Seq<char>, i: int) -> Option<int>
    decreases s.len() - i,
{
    if i < 0 || i >= s.len() {
        None
    } else if s[i] == 'x' {
        Some(i)
    } else {
        first_x(s, i + 1)
    }
}

/// The icon size a path component announces: `scalable` (any ASCII case)
/// is the raster size; `<w>x<h>` (split at the first `x`, both numbers)
/// is the smaller side.
pub open spec fn size_of_part(part: Seq<char>) -> Option<nat> {
    if eq_ignore_case(part, "scalable"@) {
        Some(NODE_ICON_RASTER_PX as nat)
    } else {
        match first_x(part, 0) {
            Some(i) => match (
                parse_unsigned(part.take(i), u32::MAX as nat),
                parse_unsigned(part.skip(i + 1), u32::MAX as nat),
            ) {
                (Some(w), Some(h)) => Some(if w < h {
                    w
                } else {
                    h
                }),
                _ => None,
            },
            None => None,
        }
    }
}

/// The size announced by the first component of `comps`, from `k` on,
/// that announces one.
pub open spec fn size_hint_from(comps: Seq<Comp>, k: int) -> Option<nat>
    decreases comps.len() - k,
{
    if k < 0 || k >= comps.len() {
        None
    } else {
        match size_of_part(part_text(comps[k])) {
            Some(v) => Some(v),
            None => size_hint_from(comps, k + 1),
        }
    }
}

/// The icon size a path announces in its directories (`48x48`,
/// `scalable`, ...).
pub open spec fn icon_size_hint_spec(path: Seq<char>) -> Option<nat> {
    size_hint_from(components_spec(path), 0)
}

proof fn lemma_first_x(s: Seq<char>, i: int)
    requires
        0 <= i,
    ensures
        first_x(s, i) matches Some(k) ==> i <= k < s.len() && s[k] == 'x',
    decreases s.len() - i,
{
    if i < s.len() && s[i] != 'x' {
        lemma_first_x(s, i + 1);
    }
}

fn part_size(part: &[char]) -> (r: Option<u32>)
    ensures
        match size_of_part(part@) {
            Some(v) => r == Some(v as u32) && v <= u32::MAX,
            None => r is None,
        },
{
    let scalable: Vec<char> = chars_of("scalable");
    if chars_eq_ignore_ascii_case(part, scalable.as_slice()) {
        return Some(NODE_ICON_RASTER_PX);
    }
    let mut i: usize = 0;
    while i < part.len() && part[i] != 'x'
        invariant
            i <= part.len(),
            first_x(part@, 0) == first_x(part@, i as int),
        decreases part.len() - i,
    {
        i = i + 1;
    }
    if i == part.len() {
        return None;
    }
    proof {
        assert(first_x(part@, 0) == Some(i as int));
    }
    let w_text: Vec<char> = prefix_to(part, i);
    let h_text: Vec<char> = suffix_from(part, i + 1);
    let w: Option<u64> = parse_unsigned_chars(w_text.as_slice(), u32::MAX as u64);
    let h: Option<u64> = parse_unsigned_chars(h_text.as_slice(), u32::MAX as u64);
    match (w, h) {
        (Some(w), Some(h)) => {
            proof {
                assert(w <= u32::MAX && h <= u32::MAX);
            }
            Some(if w < h {
                w as u32
            } else {
                h as u32
            })
        },
        _ => None,
    }
}

/// The icon size a path announces in its components.
pub fn icon_size_hint(path: &str) -> (r: Option<u32>)
    ensures
        match icon_size_hint_spec(path@) {
            Some(v) => r == Some(v as u32) && v <= u32::MAX,
            None => r is None,
        },
{
    let parts: Vec<PathPart> = path_components(path);
    let ghost comps = parts_view(parts@);
    let mut k: usize = 0;
    while k < parts.len()
        invariant
            k <= parts.len(),
            comps == parts_view(parts@),
            comps == components_spec(path@),
            size_hint_from(comps, 0) == size_hint_from(comps, k as int),
        decreases parts.len() - k,
    {
        let text: Vec<char> = part_text_of(&parts[k]);
        proof {
            assert(comps[k as int] == part_view(parts@[k as int]));
        }
        match part_size(text.as_slice()) {
            Some(v) => {
                return Some(v);
            },
            None => {},
        }
        k = k + 1;
    }
    None
}

/// Points for the format: lower is better.
pub open spec fn format_score(ext: Seq<char>) -> Option<int> {
    let e = lower_seq(ext);
    if e == "svg"@ {
        Some(0)
    } else if e == "png"@ {
        Some(40)
    } else if e == "jpg"@ || e == "jpeg"@ {
        Some(60)
    } else {
        None
    }
}

/// An announced size read as the `i32` it is cast to: sizes past
/// `i32::MAX` wrap around.
pub open spec fn size_as_i32(v: int) -> int {
    if v <= i32::MAX {
        v
    } else {
        v - 0x1_0000_0000
    }
}

/// Distance of the announced size from the raster size, 24 when none is
/// announced.
pub open spec fn size_distance(hint: Option<nat>) -> int {
    match hint {
        Some(v) => {
            let d = size_as_i32(v as int) - 64;
            if d < 0 {
                -d
            } else {
                d
            }
        },
        None => 24,
    }
}

/// The distance of the announced size can be taken in `i32`: the size less
/// 64 neither overflows nor is `i32::MIN`, whose absolute value overflows.
pub open spec fn size_distance_fits(hint: Option<nat>) -> bool {
    match hint {
        Some(v) => size_as_i32(v as int) - 64 > i32::MIN,
        None => true,
    }
}

/// How well a file fits as the icon `icon_name` (lower is better), or
/// `None` when it is not one: its stem must be the name and its format
/// SVG, PNG or JPEG. The score adds the format's points, the distance of
/// the announced size from the raster size (24 when none is announced),
/// and 12 for the fallback `hicolor` theme.
pub open spec fn icon_score_spec(path: Seq<char>, icon_name: Seq<char>) -> Option<int> {
    match (file_stem_spec(path), extension_spec(path)) {
        (Some(stem), Some(ext)) => if stem != icon_name {
            None
        } else {
            match format_score(ext) {
                Some(f) => {
                    let theme: int = if contains_seq(path, "/hicolor/"@) {
                        12
                    } else {
                        0
                    };
                    Some(f + size_distance(icon_size_hint_spec(path)) + theme)
                },
                None => None,
            }
        },
        _ => None,
    }
}

/// The score of a file can be computed in `i32` without overflow: always
/// when the file is not a candidate, else when the size distance and the
/// sum both fit.
pub open spec fn icon_score_fits(path: Seq<char>, icon_name: Seq<char>) -> bool {
    match icon_score_spec(path, icon_name) {
        Some(total) => total <= i32::MAX && size_distance_fits(icon_size_hint_spec(path)),
        None => true,
    }
}

/// Distance of a size from the 64-pixel raster, counted the same on both
/// sides.
pub open spec fn distance_from_raster(v: int) -> int {
    if v >= 64 {
        v - 64
    } else {
        64 - v
    }
}

/// Sizes the same distance above and below the raster size score the same
/// distance, and the size part of a score is the distance of the announced
/// size from the raster size: an announced size `64 + d` and one of `64 - d`
/// both count `d`.
pub proof fn law_size_distance_symmetric(d: nat)
    requires
        0 < d <= 64,
    ensures
        size_distance(Some((64 + d) as nat)) == d,
        size_distance(Some((64 - d) as nat)) == d,
        size_distance(Some(64)) == 0,
        size_distance(None) == 24,
{
}

/// Two candidate files for the same name, of formats with the same points,
/// both inside or both outside the `hicolor` theme, and announcing sizes
/// that fit in `i32`, score apart by exactly how much farther one size is
/// from the raster size than the other: a size farther from 64 pixels, on
/// either side, never scores lower.
pub proof fn law_closer_size_scores_lower(
    p1: Seq<char>,
    p2: Seq<char>,
    name: Seq<char>,
    v1: nat,
    v2: nat,
)
    requires
        icon_score_spec(p1, name) is Some,
        icon_score_spec(p2, name) is Some,
        icon_size_hint_spec(p1) == Some(v1),
        icon_size_hint_spec(p2) == Some(v2),
        v1 <= i32::MAX,
        v2 <= i32::MAX,
        format_score(extension_spec(p1)->0) == format_score(extension_spec(p2)->0),
        contains_seq(p1, "/hicolor/"@) == contains_seq(p2, "/hicolor/"@),
    ensures
        icon_score_spec(p1, name)->0 - icon_score_spec(p2, name)->0 == distance_from_raster(v1 as int)
            - distance_from_raster(v2 as int),
        distance_from_raster(v1 as int) <= distance_from_raster(v2 as int) ==> icon_score_spec(
            p1,
            name,
        )->0 <= icon_score_spec(p2, name)->0,
{
}

/// The score of a candidate announcing a size that fits in `i32` is its
/// format's points plus the distance of the size from 64 pixels, plus 12 in
/// the `hicolor` theme.
pub proof fn law_icon_score_parts(path: Seq<char>, name: Seq<char>, v: nat)
    requires
        icon_score_spec(path, name) is Some,
        icon_size_hint_spec(path) == Some(v),
        v <= i32::MAX,
    ensures
        icon_score_spec(path, name)->0 == format_score(extension_spec(path)->0)->0
            + distance_from_raster(v as int) + (if contains_seq(path, "/hicolor/"@) {
            12int
        } else {
            0int
        }),
{
}

/// Format points of an icon file by its extension, in any ASCII case: SVG
/// scores 0, PNG 40, JPEG (`jpg` or `jpeg`) 60, and any other extension
/// makes the file no candidate.
pub proof fn law_icon_format_points(ext: Seq<char>)
    ensures
        lower_seq(ext) == "svg"@ ==> format_score(ext) == Some(0int),
        lower_seq(ext) == "png"@ ==> format_score(ext) == Some(40int),
        lower_seq(ext) == "jpg"@ || lower_seq(ext) == "jpeg"@ ==> format_score(ext) == Some(60int),
        lower_seq(ext) != "svg"@ && lower_seq(ext) != "png"@ && lower_seq(ext) != "jpg"@
            && lower_seq(ext) != "jpeg"@ ==> format_score(ext) is None,
{
    reveal_strlit("svg");
    reveal_strlit("png");
    reveal_strlit("jpg");
    reveal_strlit("jpeg");
    assert("svg"@[0] != "png"@[0] && "svg"@[0] != "jpg"@[0] && "png"@[0] != "jpg"@[0]);
}

/// Only a file named after the icon (its stem is the name) and with an
/// extension of a known format is a candidate.
pub proof fn law_icon_candidate_needs_name_and_format(path: Seq<char>, name: Seq<char>)
    ensures
        icon_score_spec(path, name) is Some <==> (file_stem_spec(path) == Some(name)
            && extension_spec(path) is Some && format_score(extension_spec(path)->0) is Some),
{
}

/// A `scalable` directory (in any ASCII case) announces the raster size,
/// 64 pixels.
pub proof fn law_scalable_is_raster_size(part: Seq<char>)
    ensures
        eq_ignore_case(part, "scalable"@) ==> size_of_part(part) == Some(64nat),
{
}

fn is_word(v: &[char], w: &str) -> (r: bool)
    ensures
        r == (v@ == w@),
{
    let wc: Vec<char> = chars_of(w);
    chars_eq(v, wc.as_slice())
}

/// The score of a candidate taken in `i64`, and whether its size distance
/// fits in `i32`.
fn icon_score_wide(path: &str, icon_name: &str) -> (r: Option<(i64, bool)>)
    ensures
        match icon_score_spec(path@, icon_name@) {
            Some(v) => r == Some((v as i64, size_distance_fits(icon_size_hint_spec(path@))))
                && 0 <= v <= 0x1_0000_0000,
            None => r is None,
        },
{
    let stem: String = match file_stem(path) {
        Some(s) => s,
        None => {
            return None;
        },
    };
    let sc: Vec<char> = chars_of(stem.as_str());
    let nc: Vec<char> = chars_of(icon_name);
    if !chars_eq(sc.as_slice(), nc.as_slice()) {
        return None;
    }
    let ext: String = match extension(path) {
        Some(e) => e,
        None => {
            return None;
        },
    };
    let lower: Vec<char> = to_ascii_lowercase(chars_of(ext.as_str()).as_slice());
    let format: i64 = if is_word(lower.as_slice(), "svg") {
        0
    } else if is_word(lower.as_slice(), "png") {
        40
    } else if is_word(lower.as_slice(), "jpg") || is_word(lower.as_slice(), "jpeg") {
        60
    } else {
        return None;
    };
    let (size, fits): (i64, bool) = match icon_size_hint(path) {
        Some(v) => {
            let w: i64 = if v <= 2147483647u32 {
                v as i64
            } else {
                v as i64 - 0x1_0000_0000i64
            };
            let d: i64 = w - 64;
            (if d < 0 {
                -d
            } else {
                d
            }, d > -2147483648i64)
        },
        None => (24, true),
    };
    let pc: Vec<char> = chars_of(path);
    let hicolor: Vec<char> = chars_of("/hicolor/");
    let theme: i64 = if contains_chars(pc.as_slice(), hicolor.as_slice()) {
        12
    } else {
        0
    };
    Some((format + size + theme, fits))
}

/// Whether the score of a file can be computed without overflow; where it
/// cannot, taking it panics.
pub fn icon_score_in_range(path: &str, icon_name: &str) -> (r: bool)
    ensures
        r == icon_score_fits(path@, icon_name@),
{
    match icon_score_wide(path, icon_name) {
        Some((total, fits)) => fits && total <= 2147483647i64,
        None => true,
    }
}

/// The score of a candidate icon file.
pub fn icon_candidate_score(path: &str, icon_name: &str) -> (r: Option<i32>)
    requires
        icon_score_fits(path@, icon_name@),
    ensures
        match icon_score_spec(path@, icon_name@) {
            Some(v) => r == Some(v as i32),
            None => r is None,
        },
{
    match icon_score_wide(path, icon_name) {
        Some((total, _)) => Some(total as i32),
        None => None,
    }
}

/// `(score, path)` comes before the best so far: a lower score, or an
/// equal score and a path that comes first.
pub open spec fn icon_better(score: int, path: Seq<char>, best_score: int, best_path: Seq<char>) -> bool {
    score < best_score || (score == best_score && path_lt_spec(path, best_path))
}

/// Picks the best-scored icon file among the files found (in the order
/// found): the lowest score, ties going to the path that comes first.
pub fn find_best_icon_path(cands: &[(i32, String)]) -> (r: Option<String>)
    ensures
        r is None <==> cands@.len() == 0,
        r matches Some(p) ==> exists|i: int|
            0 <= i < cands@.len() && #[trigger] cands@[i].1@ == p@ && forall|j: int|
                0 <= j < cands@.len() ==> !icon_better(
                    #[trigger] cands@[j].0 as int,
                    cands@[j].1@,
                    cands@[i].0 as int,
                    p@,
                ),
{
    if cands.len() == 0 {
        return None;
    }
    let mut best: usize = 0;
    let mut i: usize = 1;
    proof {
        lemma_path_lt_irreflexive(cands@[0].1@);
    }
    while i < cands.len()
        invariant
            1 <= i <= cands.len(),
            best < i,
            forall|j: int|
                0 <= j < i ==> !icon_better(
                    #[trigger] cands@[j].0 as int,
                    cands@[j].1@,
                    cands@[best as int].0 as int,
                    cands@[best as int].1@,
                ),
        decreases cands.len() - i,
    {
        let (s, p) = (cands[i].0, &cands[i].1);
        let (bs, bp) = (cands[best].0, &cands[best].1);
        let better: bool = s < bs || (s == bs && path_lt(p.as_str(), bp.as_str()));
        if better {
            proof {
                let np = cands@[i as int].1@;
                let ob = best as int;
                lemma_path_lt_irreflexive(np);
                assert forall|j: int| 0 <= j < i + 1 implies !icon_better(
                    #[trigger] cands@[j].0 as int,
                    cands@[j].1@,
                    s as int,
                    np,
                ) by {
                    if j < i && icon_better(cands@[j].0 as int, cands@[j].1@, s as int, np) {
                        if cands@[j].0 == s && s == bs {
                            lemma_path_lt_transitive(cands@[j].1@, np, cands@[ob].1@);
                        }
                        assert(icon_better(
                            cands@[j].0 as int,
                            cands@[j].1@,
                            cands@[ob].0 as int,
                            cands@[ob].1@,
                        ));
                    }
                }
            }
            best = i;
        }
        i = i + 1;
    }
    Some(cands[best].1.clone())
}

// ---------------------------------------------------------------------------
// Where icons and desktop entries live
// ---------------------------------------------------------------------------

pub open spec fn opt_str_view(o: Option<&str>) -> Option<Seq<char>> {
    match o {
        Some(s) => Some(s@),
        None => None,
    }
}

/// The non-blank pieces, in order.
pub open spec fn non_blank(pieces: Seq<Seq<char>>) -> Seq<Seq<char>>
    decreases pieces.len(),
{
    if pieces.len() == 0 {
        pieces
    } else if is_blank(pieces.last()) {
        non_blank(pieces.drop_last())
    } else {
        non_blank(pieces.drop_last()).push(pieces.last())
    }
}

/// The XDG data directories: `XDG_DATA_HOME` (else `~/.local/share`), then
/// the non-blank entries of `XDG_DATA_DIRS` (else `/usr/local/share` and
/// `/usr/share`).
pub open spec fn data_roots_spec(
    xdg_data_home: Option<Seq<char>>,
    home: Option<Seq<char>>,
    xdg_data_dirs: Option<Seq<char>>,
) -> Seq<Seq<char>> {
    let first: Seq<Seq<char>> = match xdg_data_home {
        Some(h) => seq![h],
        None => match home {
            Some(h) => seq![crate::paths::join_spec(h, ".local/share"@)],
            None => Seq::empty(),
        },
    };
    let dirs = match xdg_data_dirs {
        Some(v) => if is_blank(v) {
            "/usr/local/share:/usr/share"@
        } else {
            v
        },
        None => "/usr/local/share:/usr/share"@,
    };
    first + non_blank(crate::strings::split_spec(dirs, ':'))
}

pub fn data_roots(xdg_data_home: Option<&str>, home: Option<&str>, xdg_data_dirs: Option<&str>) -> (r:
    Vec<String>)
    ensures
        strings_view(r@) == data_roots_spec(
            opt_str_view(xdg_data_home),
            opt_str_view(home),
            opt_str_view(xdg_data_dirs),
        ),
{
    let mut roots: Vec<String> = Vec::new();
    match xdg_data_home {
        Some(h) => {
            roots.push(string_from_chars(chars_of(h).as_slice()));
        },
        None => match home {
            Some(h) => {
                roots.push(crate::paths::join_path(h, ".local/share"));
            },
            None => {},
        },
    }
    let ghost first = strings_view(roots@);
    let dirs: Vec<char> = match xdg_data_dirs {
        Some(v) => {
            let c: Vec<char> = chars_of(v);
            if trim(c.as_slice()).len() == 0 {
                chars_of("/usr/local/share:/usr/share")
            } else {
                c
            }
        },
        None => chars_of("/usr/local/share:/usr/share"),
    };
    let pieces: Vec<Vec<char>> = crate::strings::split_char(dirs.as_slice(), ':');
    let ghost pv = pieces@.map_values(|v: Vec<char>| v@);
    let mut i: usize = 0;
    while i < pieces.len()
        invariant
            i <= pieces.len(),
            pv == pieces@.map_values(|v: Vec<char>| v@),
            strings_view(roots@) == first + non_blank(pv.take(i as int)),
        decreases pieces.len() - i,
    {
        proof {
            assert(pv.take(i + 1).drop_last() =~= pv.take(i as int));
            assert(pv.take(i + 1).last() == pieces@[i as int]@);
        }
        if trim(pieces[i].as_slice()).len() > 0 {
            let ghost before = roots@;
            let piece: String = string_from_chars(pieces[i].as_slice());
            roots.push(piece);
            proof {
                assert(strings_view(roots@) =~= strings_view(before).push(piece@));
                assert(first + non_blank(pv.take(i as int)).push(piece@) =~= (first + non_blank(
                    pv.take(i as int),
                )).push(piece@));
            }
        }
        i = i + 1;
    }
    proof {
        assert(pv.take(pieces.len() as int) =~= pv);
    }
    roots
}

/// Each directory joined with `name`.
pub open spec fn joined_all(dirs: Seq<Seq<char>>, name: Seq<char>) -> Seq<Seq<char>> {
    dirs.map_values(|d: Seq<char>| crate::paths::join_spec(d, name))
}

fn join_each(dirs: &[String], name: &str) -> (r: Vec<String>)
    ensures
        strings_view(r@) == joined_all(strings_view(dirs@), name@),
{
    let mut out: Vec<String> = Vec::new();
    let mut i: usize = 0;
    while i < dirs.len()
        invariant
            i <= dirs.len(),
            strings_view(out@) == joined_all(strings_view(dirs@.take(i as int)), name@),
        decreases dirs.len() - i,
    {
        let ghost before = out@;
        let j: String = crate::paths::join_path(dirs[i].as_str(), name);
        out.push(j);
        proof {
            assert(strings_view(out@) =~= strings_view(before).push(j@));
            assert(joined_all(strings_view(dirs@.take(i + 1)), name@) =~= joined_all(
                strings_view(dirs@.take(i as int)),
                name@,
            ).push(j@));
        }
        i = i + 1;
    }
    proof {
        assert(dirs@.take(dirs.len() as int) =~= dirs@);
    }
    out
}

/// The places desktop entries are looked for: `applications` under each
/// data directory (those that are directories are searched).
pub fn desktop_entry_dirs(data_roots: &[String]) -> (r: Vec<String>)
    ensures
        strings_view(r@) == joined_all(strings_view(data_roots@), "applications"@),
{
    join_each(data_roots, "applications")
}

/// The places icons are looked for, in order: `icons` under each data
/// directory, `~/.icons`, and `/usr/share/pixmaps` (those that are
/// directories are searched).
pub open spec fn icon_search_roots_spec(data_roots: Seq<Seq<char>>, home: Option<Seq<char>>) -> Seq<
    Seq<char>,
> {
    let legacy: Seq<Seq<char>> = match home {
        Some(h) => seq![crate::paths::join_spec(h, ".icons"@)],
        None => Seq::empty(),
    };
    joined_all(data_roots, "icons"@) + legacy + seq!["/usr/share/pixmaps"@]
}

pub fn icon_search_roots(data_roots: &[String], home: Option<&str>) -> (r: Vec<String>)
    ensures
        strings_view(r@) == icon_search_roots_spec(strings_view(data_roots@), opt_str_view(home)),
{
    let mut out: Vec<String> = join_each(data_roots, "icons");
    let ghost a = strings_view(out@);
    match home {
        Some(h) => {
            let l: String = crate::paths::join_path(h, ".icons");
            out.push(l);
            proof {
                assert(strings_view(out@) =~= a.push(l@));
            }
        },
        None => {},
    }
    let ghost b = strings_view(out@);
    let p: String = string_from_chars(chars_of("/usr/share/pixmaps").as_slice());
    out.push(p);
    proof {
        assert(strings_view(out@) =~= b.push(p@));
        assert(icon_search_roots_spec(strings_view(data_roots@), opt_str_view(home)) =~= b.push(
            p@,
        ));
    }
    out
}

/// How an icon file is read.
#[derive(Clone, Copy, Debug, PartialEq, Eq, Structural)]
pub enum IconFormat {
    /// Rendered from vector graphics.
    Svg,
    /// Decoded from PNG or JPEG.
    Raster(RasterFormat),
}

pub open spec fn icon_format_spec(path: Seq<char>) -> Option<IconFormat> {
    match extension_spec(path) {
        Some(e) => if lower_seq(e) == "svg"@ {
            Some(IconFormat::Svg)
        } else if lower_seq(e) == "png"@ {
            Some(IconFormat::Raster(RasterFormat::Png))
        } else if lower_seq(e) == "jpg"@ || lower_seq(e) == "jpeg"@ {
            Some(IconFormat::Raster(RasterFormat::Jpeg))
        } else {
            None
        },
        None => None,
    }
}

/// How to read an icon file, by its extension (any ASCII case); `None`
/// for other files.
pub fn icon_format(path: &str) -> (r: Option<IconFormat>)
    ensures
        r == icon_format_spec(path@),
{
    match extension(path) {
        Some(e) => {
            let l: Vec<char> = to_ascii_lowercase(chars_of(e.as_str()).as_slice());
            if is_word(l.as_slice(), "svg") {
                Some(IconFormat::Svg)
            } else if is_word(l.as_slice(), "png") {
                Some(IconFormat::Raster(RasterFormat::Png))
            } else if is_word(l.as_slice(), "jpg") || is_word(l.as_slice(), "jpeg") {
                Some(IconFormat::Raster(RasterFormat::Jpeg))
            } else {
                None
            }
        },
        None => None,
    }
}

} // verus!
