use vstd::prelude::*;

use crate::strings::{
    chars_eq, chars_lt, chars_of, concat, concat3, lemma_seq_lt_irreflexive, seq_lt,
    string_from_chars,
};

verus! {

/// `PathBuf::push` of `name` onto `dir` on Unix: an absolute `name`
/// replaces `dir`; otherwise a `/` is put between them unless `dir` is
/// empty or already ends in one.
pub open spec fn join_spec(dir: Seq<char>, name: Seq<char>) -> Seq<char> {
    if name.len() > 0 && name[0] == '/' {
        name
    } else if dir.len() == 0 || dir.last() == '/' {
        dir + name
    } else {
        dir + seq!['/'] + name
    }
}

/// `Path::new(dir).join(name)`, as text.
pub fn join_path(dir: &str, name: &str) -> (r: String)
    ensures
        r@ == join_spec(dir@, name@),
{
    let d: Vec<char> = chars_of(dir);
    let n: Vec<char> = chars_of(name);
    if n.len() > 0 && n[0] == '/' {
        return string_from_chars(n.as_slice());
    }
    if d.len() == 0 || d[d.len() - 1] == '/' {
        let joined: Vec<char> = concat(d.as_slice(), n.as_slice());
        string_from_chars(joined.as_slice())
    } else {
        let sep: Vec<char> = chars_of("/");
        proof {
            reveal_strlit("/");
            assert(sep@ =~= seq!['/']);
        }
        let joined: Vec<char> = concat3(d.as_slice(), sep.as_slice(), n.as_slice());
        string_from_chars(joined.as_slice())
    }
}

// ---------------------------------------------------------------------------
// Components of a Unix path
// ---------------------------------------------------------------------------

/// A component of a path (`std::path::Component` on Unix). The variants
/// are in the order in which paths compare them.
#[derive(Clone, Debug, PartialEq, Eq)]
pub enum PathPart {
    RootDir,
    CurDir,
    ParentDir,
    Normal(String),
}

pub ghost enum Comp {
    RootDir,
    CurDir,
    ParentDir,
    Normal(Seq<char>),
}

pub open spec fn part_view(p: PathPart) -> Comp {
    match p {
        PathPart::RootDir => Comp::RootDir,
        PathPart::CurDir => Comp::CurDir,
        PathPart::ParentDir => Comp::ParentDir,
        PathPart::Normal(s) => Comp::Normal(s@),
    }
}

pub open spec fn parts_view(v: Seq<PathPart>) -> Seq<Comp> {
    v.map_values(|p: PathPart| part_view(p))
}

/// The text split at its slashes: the finished pieces and the open one.
pub open spec fn slash_split(s: Seq<char>) -> (Seq<Seq<char>>, Seq<char>)
    decreases s.len(),
{
    if s.len() == 0 {
        (Seq::empty(), Seq::empty())
    } else {
        let (done, open) = slash_split(s.drop_last());
        if s.last() == '/' {
            (done.push(open), Seq::empty())
        } else {
            (done, open.push(s.last()))
        }
    }
}

/// The pieces between the slashes of a path, empty ones included.
pub open spec fn slash_pieces(s: Seq<char>) -> Seq<Seq<char>> {
    slash_split(s).0.push(slash_split(s).1)
}

/// The component a piece stands for: none for an empty piece or `.`.
pub open spec fn piece_comp(piece: Seq<char>) -> Option<Comp> {
    if piece.len() == 0 || piece == seq!['.'] {
        None
    } else if piece == seq!['.', '.'] {
        Some(Comp::ParentDir)
    } else {
        Some(Comp::Normal(piece))
    }
}

pub open spec fn collect_comps(pieces: Seq<Seq<char>>) -> Seq<Comp>
    decreases pieces.len(),
{
    if pieces.len() == 0 {
        Seq::empty()
    } else {
        let rest = collect_comps(pieces.drop_last());
        match piece_comp(pieces.last()) {
            Some(c) => rest.push(c),
            None => rest,
        }
    }
}

/// `Path::components` on Unix: a leading `/` is the root; a leading `.`
/// of a relative path is the current directory; empty pieces and other
/// `.` pieces drop out.
pub open spec fn components_spec(p: Seq<char>) -> Seq<Comp> {
    let pieces = slash_pieces(p);
    if p.len() > 0 && p[0] == '/' {
        seq![Comp::RootDir] + collect_comps(pieces.drop_first())
    } else if pieces[0] == seq!['.'] {
        seq![Comp::CurDir] + collect_comps(pieces.drop_first())
    } else {
        collect_comps(pieces)
    }
}

fn piece_part(piece: &[char]) -> (r: Option<PathPart>)
    ensures
        match piece_comp(piece@) {
            Some(c) => r matches Some(p) && part_view(p) == c,
            None => r is None,
        },
{
    if piece.len() == 0 || (piece.len() == 1 && piece[0] == '.') {
        proof {
            if piece.len() == 1 {
                assert(piece@ =~= seq!['.']);
            }
        }
        None
    } else if piece.len() == 2 && piece[0] == '.' && piece[1] == '.' {
        proof {
            assert(piece@ =~= seq!['.', '.']);
        }
        Some(PathPart::ParentDir)
    } else {
        proof {
            assert(piece@ != seq!['.']);
            assert(piece@ != seq!['.', '.']);
        }
        Some(PathPart::Normal(string_from_chars(piece)))
    }
}

/// The pieces of `c` between slashes, from index `from` on.
fn pieces_of(c: &[char]) -> (r: Vec<Vec<char>>)
    ensures
        r@.map_values(|v: Vec<char>| v@) == slash_pieces(c@),
{
    let mut done: Vec<Vec<char>> = Vec::new();
    let mut open: Vec<char> = Vec::new();
    let mut i: usize = 0;
    while i < c.len()
        invariant
            i <= c.len(),
            done@.map_values(|v: Vec<char>| v@) == slash_split(c@.take(i as int)).0,
            open@ == slash_split(c@.take(i as int)).1,
        decreases c.len() - i,
    {
        proof {
            assert(c@.take(i + 1).drop_last() =~= c@.take(i as int));
            assert(c@.take(i + 1).last() == c@[i as int]);
        }
        if c[i] == '/' {
            let ghost before = done@;
            let piece: Vec<char> = open;
            open = Vec::new();
            done.push(piece);
            proof {
                assert(done@.map_values(|v: Vec<char>| v@) =~= before.map_values(
                    |v: Vec<char>| v@,
                ).push(piece@));
            }
        } else {
            open.push(c[i]);
        }
        i = i + 1;
    }
    proof {
        assert(c@.take(c.len() as int) =~= c@);
    }
    let ghost before = done@;
    let last: Vec<char> = open;
    done.push(last);
    proof {
        assert(done@.map_values(|v: Vec<char>| v@) =~= before.map_values(|v: Vec<char>| v@).push(
            last@,
        ));
    }
    done
}

fn collect_parts(pieces: &Vec<Vec<char>>, from: usize, start: Vec<PathPart>) -> (r: Vec<PathPart>)
    requires
        from <= pieces@.len(),
    ensures
        parts_view(r@) == parts_view(start@) + collect_comps(
            pieces@.map_values(|v: Vec<char>| v@).skip(from as int),
        ),
{
    let ghost pv = pieces@.map_values(|v: Vec<char>| v@).skip(from as int);
    let ghost head = parts_view(start@);
    let mut out: Vec<PathPart> = start;
    let mut i: usize = from;
    proof {
        assert(pv.take(0) =~= Seq::<Seq<char>>::empty());
        assert(head + Seq::<Comp>::empty() =~= head);
    }
    while i < pieces.len()
        invariant
            from <= i <= pieces.len(),
            pv == pieces@.map_values(|v: Vec<char>| v@).skip(from as int),
            parts_view(out@) == head + collect_comps(pv.take(i - from)),
        decreases pieces.len() - i,
    {
        proof {
            assert(pv.take(i - from + 1).drop_last() =~= pv.take(i - from));
            assert(pv.take(i - from + 1).last() == pieces@[i as int]@);
        }
        match piece_part(pieces[i].as_slice()) {
            Some(p) => {
                let ghost before = out@;
                out.push(p);
                proof {
                    assert(parts_view(out@) =~= parts_view(before).push(part_view(p)));
                    assert(head + collect_comps(pv.take(i - from)).push(part_view(p)) =~= (head
                        + collect_comps(pv.take(i - from))).push(part_view(p)));
                }
            },
            None => {},
        }
        i = i + 1;
    }
    proof {
        assert(pv.take(pieces.len() - from) =~= pv);
    }
    out
}

/// The components of a path.
pub fn path_components(path: &str) -> (r: Vec<PathPart>)
    ensures
        parts_view(r@) == components_spec(path@),
{
    let c: Vec<char> = chars_of(path);
    let pieces: Vec<Vec<char>> = pieces_of(c.as_slice());
    let ghost pv = pieces@.map_values(|v: Vec<char>| v@);
    proof {
        assert(pv.len() > 0);
        assert(pv.skip(1) =~= pv.drop_first());
        assert(pv.skip(0) =~= pv);
    }
    let mut head: Vec<PathPart> = Vec::new();
    if c.len() > 0 && c[0] == '/' {
        head.push(PathPart::RootDir);
        proof {
            assert(parts_view(head@) =~= seq![Comp::RootDir]);
        }
        collect_parts(&pieces, 1, head)
    } else if pieces[0].len() == 1 && pieces[0][0] == '.' {
        head.push(PathPart::CurDir);
        proof {
            assert(pieces@[0]@ =~= seq!['.']);
            assert(parts_view(head@) =~= seq![Comp::CurDir]);
        }
        collect_parts(&pieces, 1, head)
    } else {
        proof {
            assert(pieces@[0]@ != seq!['.']);
            assert(parts_view(head@) =~= Seq::<Comp>::empty());
            assert(Seq::<Comp>::empty() + collect_comps(pv) =~= collect_comps(pv));
        }
        collect_parts(&pieces, 0, head)
    }
}

pub open spec fn comp_rank(c: Comp) -> int {
    match c {
        Comp::RootDir => 0,
        Comp::CurDir => 1,
        Comp::ParentDir => 2,
        Comp::Normal(_) => 3,
    }
}

/// The order of components: by kind, then a normal component by its text.
pub open spec fn comp_lt(a: Comp, b: Comp) -> bool {
    if comp_rank(a) != comp_rank(b) {
        comp_rank(a) < comp_rank(b)
    } else {
        match (a, b) {
            (Comp::Normal(x), Comp::Normal(y)) => seq_lt(x, y),
            _ => false,
        }
    }
}

/// Lexicographic order of component lists.
pub open spec fn comps_lt(a: Seq<Comp>, b: Seq<Comp>) -> bool
    decreases a.len(),
{
    if a.len() == 0 {
        b.len() > 0
    } else if b.len() == 0 {
        false
    } else if a[0] != b[0] {
        comp_lt(a[0], b[0])
    } else {
        comps_lt(a.drop_first(), b.drop_first())
    }
}

/// `Path`'s order: component by component.
pub open spec fn path_lt_spec(a: Seq<char>, b: Seq<char>) -> bool {
    comps_lt(components_spec(a), components_spec(b))
}

fn part_rank(p: &PathPart) -> (r: u8)
    ensures
        r as int == comp_rank(part_view(*p)),
{
    match p {
        PathPart::RootDir => 0,
        PathPart::CurDir => 1,
        PathPart::ParentDir => 2,
        PathPart::Normal(_) => 3,
    }
}

/// Compares two components: -1, 0 or 1.
fn part_compare(a: &PathPart, b: &PathPart) -> (r: i8)
    ensures
        r == 0 <==> part_view(*a) == part_view(*b),
        r < 0 <==> comp_lt(part_view(*a), part_view(*b)),
        -1 <= r <= 1,
{
    let ra: u8 = part_rank(a);
    let rb: u8 = part_rank(b);
    if ra < rb {
        return -1;
    }
    if rb < ra {
        return 1;
    }
    match (a, b) {
        (PathPart::Normal(x), PathPart::Normal(y)) => {
            let xc: Vec<char> = chars_of(x.as_str());
            let yc: Vec<char> = chars_of(y.as_str());
            proof {
                lemma_seq_lt_irreflexive(x@);
            }
            if chars_eq(xc.as_slice(), yc.as_slice()) {
                0
            } else if chars_lt(xc.as_slice(), yc.as_slice()) {
                -1
            } else {
                1
            }
        },
        _ => 0,
    }
}

/// `a < b` in the order of `Path`.
pub fn path_lt(a: &str, b: &str) -> (r: bool)
    ensures
        r == path_lt_spec(a@, b@),
{
    let pa: Vec<PathPart> = path_components(a);
    let pb: Vec<PathPart> = path_components(b);
    let ghost ca = parts_view(pa@);
    let ghost cb = parts_view(pb@);
    let mut i: usize = 0;
    proof {
        assert(ca.skip(0) =~= ca);
        assert(cb.skip(0) =~= cb);
    }
    while i < pa.len() && i < pb.len()
        invariant
            i <= pa.len(),
            i <= pb.len(),
            ca == parts_view(pa@),
            cb == parts_view(pb@),
            ca == components_spec(a@),
            cb == components_spec(b@),
            comps_lt(ca, cb) == comps_lt(ca.skip(i as int), cb.skip(i as int)),
        decreases pa.len() - i,
    {
        let c: i8 = part_compare(&pa[i], &pb[i]);
        proof {
            assert(ca.skip(i as int)[0] == part_view(pa@[i as int]));
            assert(cb.skip(i as int)[0] == part_view(pb@[i as int]));
        }
        if c != 0 {
            return c < 0;
        }
        proof {
            assert(ca.skip(i as int).drop_first() =~= ca.skip(i + 1));
            assert(cb.skip(i as int).drop_first() =~= cb.skip(i + 1));
        }
        i = i + 1;
    }
    i == pa.len() && i < pb.len()
}

/// The last component of a path when it is a normal one
/// (`Path::file_name`).
pub open spec fn file_name_spec(p: Seq<char>) -> Option<Seq<char>> {
    let comps = components_spec(p);
    if comps.len() > 0 && comps.last() is Normal {
        Some(comps.last()->Normal_0)
    } else {
        None
    }
}

/// Index of the last `.` in `s`, if any.
pub open spec fn last_dot(s: Seq<char>) -> Option<int>
    decreases s.len(),
{
    if s.len() == 0 {
        None
    } else if s.last() == '.' {
        Some(s.len() - 1)
    } else {
        last_dot(s.drop_last())
    }
}

/// A file name split at its last dot into stem and extension; a name
/// whose only dot leads it (`.bashrc`), and `..`, have no extension.
pub open spec fn split_file_name(name: Seq<char>) -> (Seq<char>, Option<Seq<char>>) {
    if name == seq!['.', '.'] {
        (name, None)
    } else {
        match last_dot(name) {
            None => (name, None),
            Some(i) => if i == 0 {
                (name, None)
            } else {
                (name.take(i), Some(name.skip(i + 1)))
            },
        }
    }
}

/// `Path::file_stem`.
pub open spec fn file_stem_spec(p: Seq<char>) -> Option<Seq<char>> {
    match file_name_spec(p) {
        Some(n) => Some(split_file_name(n).0),
        None => None,
    }
}

/// `Path::extension`.
pub open spec fn extension_spec(p: Seq<char>) -> Option<Seq<char>> {
    match file_name_spec(p) {
        Some(n) => split_file_name(n).1,
        None => None,
    }
}

proof fn lemma_last_dot(s: Seq<char>)
    ensures
        last_dot(s) matches Some(i) ==> 0 <= i < s.len() && s[i] == '.' && forall|j: int|
            i < j < s.len() ==> s[j] != '.',
        last_dot(s) is None ==> forall|j: int| 0 <= j < s.len() ==> s[j] != '.',
    decreases s.len(),
{
    if s.len() > 0 && s.last() != '.' {
        lemma_last_dot(s.drop_last());
        assert forall|j: int| 0 <= j < s.len() - 1 implies s[j] == s.drop_last()[j] by {}
    }
}

fn split_name(name: &[char]) -> (r: (Vec<char>, Option<Vec<char>>))
    ensures
        r.0@ == split_file_name(name@).0,
        match split_file_name(name@).1 {
            Some(e) => r.1 matches Some(x) && x@ == e,
            None => r.1 is None,
        },
{
    if name.len() == 2 && name[0] == '.' && name[1] == '.' {
        proof {
            assert(name@ =~= seq!['.', '.']);
            assert(name@.take(name.len() as int) =~= name@);
        }
        return (crate::strings::prefix_to(name, name.len()), None);
    }
    proof {
        assert(name@ != seq!['.', '.']);
        lemma_last_dot(name@);
    }
    let mut i: usize = name.len();
    proof {
        assert(name@.take(name.len() as int) =~= name@);
    }
    while i > 0 && name[i - 1] != '.'
        invariant
            i <= name.len(),
            last_dot(name@) == last_dot(name@.take(i as int)),
        decreases i,
    {
        proof {
            assert(name@.take(i as int).drop_last() =~= name@.take(i - 1));
        }
        i = i - 1;
    }
    proof {
        assert(name@.take(name.len() as int) =~= name@);
    }
    if i == 0 {
        proof {
            assert(name@.take(0) =~= Seq::<char>::empty());
        }
        proof {
            assert(name@.take(name.len() as int) =~= name@);
        }
        (crate::strings::prefix_to(name, name.len()), None)
    } else if i == 1 {
        proof {
            assert(last_dot(name@.take(1)) == Some(0int));
            assert(name@.take(name.len() as int) =~= name@);
        }
        (crate::strings::prefix_to(name, name.len()), None)
    } else {
        proof {
            assert(last_dot(name@.take(i as int)) == Some(i - 1));
        }
        let stem: Vec<char> = crate::strings::prefix_to(name, i - 1);
        let ext: Vec<char> = crate::strings::suffix_from(name, i);
        (stem, Some(ext))
    }
}

/// The file name of a path, as a `String`.
pub fn file_name(path: &str) -> (r: Option<String>)
    ensures
        match file_name_spec(path@) {
            Some(n) => r matches Some(x) && x@ == n,
            None => r is None,
        },
{
    let parts: Vec<PathPart> = path_components(path);
    if parts.len() == 0 {
        return None;
    }
    proof {
        assert(parts_view(parts@).last() == part_view(parts@.last()));
    }
    match &parts[parts.len() - 1] {
        PathPart::Normal(n) => Some(n.clone()),
        _ => None,
    }
}

/// `Path::file_stem`.
pub fn file_stem(path: &str) -> (r: Option<String>)
    ensures
        match file_stem_spec(path@) {
            Some(n) => r matches Some(x) && x@ == n,
            None => r is None,
        },
{
    match file_name(path) {
        Some(n) => {
            let (stem, _) = split_name(chars_of(n.as_str()).as_slice());
            Some(string_from_chars(stem.as_slice()))
        },
        None => None,
    }
}

/// `Path::extension`.
pub fn extension(path: &str) -> (r: Option<String>)
    ensures
        match extension_spec(path@) {
            Some(n) => r matches Some(x) && x@ == n,
            None => r is None,
        },
{
    match file_name(path) {
        Some(n) => {
            let (_, ext) = split_name(chars_of(n.as_str()).as_slice());
            match ext {
                Some(e) => Some(string_from_chars(e.as_slice())),
                None => None,
            }
        },
        None => None,
    }
}

proof fn lemma_comps_lt_irreflexive(a: Seq<Comp>)
    ensures
        !comps_lt(a, a),
    decreases a.len(),
{
    if a.len() > 0 {
        lemma_comps_lt_irreflexive(a.drop_first());
    }
}

proof fn lemma_comp_lt_transitive(a: Comp, b: Comp, c: Comp)
    requires
        comp_lt(a, b),
        comp_lt(b, c),
    ensures
        comp_lt(a, c),
{
    if comp_rank(a) == comp_rank(b) && comp_rank(b) == comp_rank(c) {
        match (a, b, c) {
            (Comp::Normal(x), Comp::Normal(y), Comp::Normal(z)) => {
                crate::strings::lemma_seq_lt_transitive(x, y, z);
            },
            _ => {},
        }
    }
}

proof fn lemma_comp_lt_not_equal(a: Comp, b: Comp)
    requires
        comp_lt(a, b),
    ensures
        a != b,
{
    if a == b {
        match a {
            Comp::Normal(x) => lemma_seq_lt_irreflexive(x),
            _ => {},
        }
    }
}

proof fn lemma_comps_lt_transitive(a: Seq<Comp>, b: Seq<Comp>, c: Seq<Comp>)
    requires
        comps_lt(a, b),
        comps_lt(b, c),
    ensures
        comps_lt(a, c),
    decreases a.len(),
{
    if a.len() > 0 && b.len() > 0 && c.len() > 0 {
        if a[0] == b[0] && b[0] == c[0] {
            lemma_comps_lt_transitive(a.drop_first(), b.drop_first(), c.drop_first());
        } else if a[0] != b[0] && b[0] != c[0] {
            lemma_comp_lt_transitive(a[0], b[0], c[0]);
            lemma_comp_lt_not_equal(a[0], c[0]);
        }
    }
}

/// No path comes before itself.
pub proof fn lemma_path_lt_irreflexive(a: Seq<char>)
    ensures
        !path_lt_spec(a, a),
{
    lemma_comps_lt_irreflexive(components_spec(a));
}

/// The order of paths is transitive.
pub proof fn lemma_path_lt_transitive(a: Seq<char>, b: Seq<char>, c: Seq<char>)
    requires
        path_lt_spec(a, b),
        path_lt_spec(b, c),
    ensures
        path_lt_spec(a, c),
{
    lemma_comps_lt_transitive(components_spec(a), components_spec(b), components_spec(c));
}

/// The text of a component (`Component::as_os_str`).
pub open spec fn part_text(c: Comp) -> Seq<char> {
    match c {
        Comp::RootDir => seq!['/'],
        Comp::CurDir => seq!['.'],
        Comp::ParentDir => seq!['.', '.'],
        Comp::Normal(s) => s,
    }
}

pub fn part_text_of(p: &PathPart) -> (r: Vec<char>)
    ensures
        r@ == part_text(part_view(*p)),
{
    match p {
        PathPart::RootDir => {
            let mut v: Vec<char> = Vec::new();
            v.push('/');
            proof {
                assert(v@ =~= seq!['/']);
            }
            v
        },
        PathPart::CurDir => {
            let mut v: Vec<char> = Vec::new();
            v.push('.');
            proof {
                assert(v@ =~= seq!['.']);
            }
            v
        },
        PathPart::ParentDir => {
            let mut v: Vec<char> = Vec::new();
            v.push('.');
            v.push('.');
            proof {
                assert(v@ =~= seq!['.', '.']);
            }
            v
        },
        PathPart::Normal(s) => chars_of(s.as_str()),
    }
}

} // verus!
