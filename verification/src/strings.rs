use vstd::prelude::*;

verus! {

// ---------------------------------------------------------------------------
// Conversions between `str`/`String` and character vectors
// ---------------------------------------------------------------------------

/// The characters of `s`, in order.
pub fn chars_of(s: &str) -> (v: Vec<char>)
    ensures
        v@ == s@,
{
    let mut v: Vec<char> = Vec::new();
    for c in it: s.chars()
        invariant
            v@ == it.seq().take(it.index() as int),
    {
        v.push(c);
    }
    v
}

/// Appends one character to a `String` (`String::push`).
#[verifier::external_body]
fn string_push(s: &mut String, c: char)
    ensures
        final(s)@ == old(s)@.push(c),
{
    s.push(c);
}

/// A `String` holding exactly the characters `v`.
pub fn string_from_chars(v: &[char]) -> (s: String)
    ensures
        s@ == v@,
{
    let mut s: String = String::new();
    let mut i: usize = 0;
    while i < v.len()
        invariant
            i <= v.len(),
            s@ == v@.take(i as int),
        decreases v.len() - i,
    {
        string_push(&mut s, v[i]);
        assert(v@.take(i as int).push(v@[i as int]) =~= v@.take(i + 1));
        i = i + 1;
    }
    assert(v@.take(v.len() as int) =~= v@);
    s
}

/// `a` followed by `b`.
pub fn concat(a: &[char], b: &[char]) -> (r: Vec<char>)
    ensures
        r@ == a@ + b@,
{
    let mut r: Vec<char> = Vec::new();
    let mut i: usize = 0;
    while i < a.len()
        invariant
            i <= a.len(),
            r@ == a@.take(i as int),
        decreases a.len() - i,
    {
        r.push(a[i]);
        assert(a@.take(i as int).push(a@[i as int]) =~= a@.take(i + 1));
        i = i + 1;
    }
    let mut j: usize = 0;
    assert(a@.take(a.len() as int) =~= a@);
    while j < b.len()
        invariant
            j <= b.len(),
            r@ == a@ + b@.take(j as int),
        decreases b.len() - j,
    {
        r.push(b[j]);
        assert((a@ + b@.take(j as int)).push(b@[j as int]) =~= a@ + b@.take(j + 1));
        j = j + 1;
    }
    assert(b@.take(b.len() as int) =~= b@);
    r
}

/// `a`, `b` and `c` joined.
pub fn concat3(a: &[char], b: &[char], c: &[char]) -> (r: Vec<char>)
    ensures
        r@ == a@ + b@ + c@,
{
    let ab: Vec<char> = concat(a, b);
    concat(ab.as_slice(), c)
}

/// The parts joined with `sep` between them (`[..].join(sep)`).
pub open spec fn join_spec(parts: Seq<Seq<char>>, sep: Seq<char>) -> Seq<char>
    decreases parts.len(),
{
    if parts.len() == 0 {
        Seq::empty()
    } else if parts.len() == 1 {
        parts[0]
    } else {
        join_spec(parts.drop_last(), sep) + sep + parts.last()
    }
}

pub fn join_strings(parts: &[String], sep: &str) -> (r: Vec<char>)
    ensures
        r@ == join_spec(parts@.map_values(|p: String| p@), sep@),
{
    let ghost pv = parts@.map_values(|p: String| p@);
    let sc: Vec<char> = chars_of(sep);
    let mut r: Vec<char> = Vec::new();
    let mut i: usize = 0;
    while i < parts.len()
        invariant
            i <= parts.len(),
            sc@ == sep@,
            pv == parts@.map_values(|p: String| p@),
            r@ == join_spec(pv.take(i as int), sep@),
        decreases parts.len() - i,
    {
        let pc: Vec<char> = chars_of(parts[i].as_str());
        proof {
            assert(pv.take(i + 1).drop_last() =~= pv.take(i as int));
            assert(pv.take(i + 1).last() == pc@);
        }
        if i == 0 {
            r = pc;
            proof {
                assert(pv.take(1) =~= seq![pc@]);
            }
        } else {
            r = concat3(r.as_slice(), sc.as_slice(), pc.as_slice());
        }
        i = i + 1;
    }
    proof {
        assert(pv.take(parts.len() as int) =~= pv);
    }
    r
}

/// The characters of `s` from index `start` on.
pub fn suffix_from(s: &[char], start: usize) -> (r: Vec<char>)
    requires
        start <= s.len(),
    ensures
        r@ == s@.skip(start as int),
{
    let mut r: Vec<char> = Vec::new();
    let mut i: usize = start;
    while i < s.len()
        invariant
            start <= i <= s.len(),
            r@ == s@.subrange(start as int, i as int),
        decreases s.len() - i,
    {
        r.push(s[i]);
        assert(s@.subrange(start as int, i as int).push(s@[i as int]) =~= s@.subrange(
            start as int,
            i + 1,
        ));
        i = i + 1;
    }
    assert(s@.subrange(start as int, s.len() as int) =~= s@.skip(start as int));
    r
}

/// The characters of `s` before index `end`.
pub fn prefix_to(s: &[char], end: usize) -> (r: Vec<char>)
    requires
        end <= s.len(),
    ensures
        r@ == s@.take(end as int),
{
    let mut r: Vec<char> = Vec::new();
    let mut i: usize = 0;
    while i < end
        invariant
            i <= end <= s.len(),
            r@ == s@.take(i as int),
        decreases end - i,
    {
        r.push(s[i]);
        assert(s@.take(i as int).push(s@[i as int]) =~= s@.take(i + 1));
        i = i + 1;
    }
    r
}

/// Every `\` followed by `c` put in place by `with`, left to right
/// (`str::replace` of a two-character pattern).
pub open spec fn replace_escape(s: Seq<char>, c: char, with: char) -> Seq<char>
    decreases s.len(),
{
    if s.len() < 2 {
        s
    } else if s[0] == '\\' && s[1] == c {
        seq![with] + replace_escape(s.skip(2), c, with)
    } else {
        seq![s[0]] + replace_escape(s.skip(1), c, with)
    }
}

pub fn replace_escape_chars(s: &[char], c: char, with: char) -> (r: Vec<char>)
    ensures
        r@ == replace_escape(s@, c, with),
{
    let mut r: Vec<char> = Vec::new();
    let mut i: usize = 0;
    assert(s@.skip(0) =~= s@);
    while i < s.len()
        invariant
            i <= s.len(),
            r@ + replace_escape(s@.skip(i as int), c, with) == replace_escape(s@, c, with),
        decreases s.len() - i,
    {
        let ghost rest = s@.skip(i as int);
        if i + 1 < s.len() && s[i] == '\\' && s[i + 1] == c {
            proof {
                assert(rest.skip(2) =~= s@.skip(i + 2));
                assert(r@.push(with) + replace_escape(s@.skip(i + 2), c, with) =~= r@ + (seq![with]
                    + replace_escape(rest.skip(2), c, with)));
            }
            r.push(with);
            i = i + 2;
        } else {
            proof {
                assert(rest.skip(1) =~= s@.skip(i + 1));
                if rest.len() >= 2 {
                    assert(!(rest[0] == '\\' && rest[1] == c));
                }
                assert(r@.push(s@[i as int]) + replace_escape(s@.skip(i + 1), c, with) =~= r@ + (
                seq![rest[0]] + replace_escape(rest.skip(1), c, with)));
            }
            r.push(s[i]);
            i = i + 1;
        }
    }
    assert(s@.skip(s.len() as int) =~= Seq::<char>::empty());
    assert(r@ + Seq::<char>::empty() =~= r@);
    r
}

/// `s` split at every `sep`: the finished pieces and the open one.
pub open spec fn split_parts(s: Seq<char>, sep: char) -> (Seq<Seq<char>>, Seq<char>)
    decreases s.len(),
{
    if s.len() == 0 {
        (Seq::empty(), Seq::empty())
    } else {
        let (done, open) = split_parts(s.drop_last(), sep);
        if s.last() == sep {
            (done.push(open), Seq::empty())
        } else {
            (done, open.push(s.last()))
        }
    }
}

/// The pieces of `s` between the `sep`s, empty ones included
/// (`str::split` with one character).
pub open spec fn split_spec(s: Seq<char>, sep: char) -> Seq<Seq<char>> {
    split_parts(s, sep).0.push(split_parts(s, sep).1)
}

pub fn split_char(s: &[char], sep: char) -> (r: Vec<Vec<char>>)
    ensures
        r@.map_values(|v: Vec<char>| v@) == split_spec(s@, sep),
{
    let mut done: Vec<Vec<char>> = Vec::new();
    let mut open: Vec<char> = Vec::new();
    let mut i: usize = 0;
    while i < s.len()
        invariant
            i <= s.len(),
            done@.map_values(|v: Vec<char>| v@) == split_parts(s@.take(i as int), sep).0,
            open@ == split_parts(s@.take(i as int), sep).1,
        decreases s.len() - i,
    {
        proof {
            assert(s@.take(i + 1).drop_last() =~= s@.take(i as int));
            assert(s@.take(i + 1).last() == s@[i as int]);
        }
        if s[i] == sep {
            let ghost before = done@;
            let piece: Vec<char> = open;
            open = Vec::new();
            done.push(piece);
            proof {
                assert(done@.map_values(|v: Vec<char>| v@) =~= before.map_values(
                    |v: Vec<char>| v@,
                ).push(piece@));
            }
        } else {
            open.push(s[i]);
        }
        i = i + 1;
    }
    proof {
        assert(s@.take(s.len() as int) =~= s@);
    }
    let ghost before = done@;
    let last: Vec<char> = open;
    done.push(last);
    proof {
        assert(done@.map_values(|v: Vec<char>| v@) =~= before.map_values(|v: Vec<char>| v@).push(
            last@,
        ));
    }
    done
}

// ---------------------------------------------------------------------------
// Character classes
// ---------------------------------------------------------------------------

/// Unicode `White_Space`, the set that `char::is_whitespace` and
/// `str::trim` use.
pub open spec fn is_ws(c: char) -> bool {
    let u = c as u32;
    ||| 0x09 <= u <= 0x0d
    ||| u == 0x20
    ||| u == 0x85
    ||| u == 0xa0
    ||| u == 0x1680
    ||| 0x2000 <= u <= 0x200a
    ||| u == 0x2028
    ||| u == 0x2029
    ||| u == 0x202f
    ||| u == 0x205f
    ||| u == 0x3000
}

pub fn is_whitespace(c: char) -> (r: bool)
    ensures
        r == is_ws(c),
{
    let u: u32 = c as u32;
    (0x09 <= u && u <= 0x0d) || u == 0x20 || u == 0x85 || u == 0xa0 || u == 0x1680 || (0x2000
        <= u && u <= 0x200a) || u == 0x2028 || u == 0x2029 || u == 0x202f || u == 0x205f || u
        == 0x3000
}

pub open spec fn is_ascii_digit(c: char) -> bool {
    '0' <= c && c <= '9'
}

pub open spec fn is_ascii_alnum(c: char) -> bool {
    ||| is_ascii_digit(c)
    ||| ('a' <= c && c <= 'z')
    ||| ('A' <= c && c <= 'Z')
}

pub fn is_ascii_alphanumeric(c: char) -> (r: bool)
    ensures
        r == is_ascii_alnum(c),
{
    ('0' <= c && c <= '9') || ('a' <= c && c <= 'z') || ('A' <= c && c <= 'Z')
}

/// ASCII lowercase of one character; every other character is unchanged.
pub open spec fn ascii_lower(c: char) -> char {
    if 'A' <= c && c <= 'Z' {
        ((c as u32) + 32) as char
    } else {
        c
    }
}

/// ASCII uppercase of one character; every other character is unchanged.
pub open spec fn ascii_upper(c: char) -> char {
    if 'a' <= c && c <= 'z' {
        ((c as u32) - 32) as char
    } else {
        c
    }
}

pub fn to_ascii_lower_char(c: char) -> (r: char)
    ensures
        r == ascii_lower(c),
{
    if 'A' <= c && c <= 'Z' {
        let b: u8 = c as u8;
        let l: char = (b + 32) as char;
        l
    } else {
        c
    }
}

pub fn to_ascii_upper_char(c: char) -> (r: char)
    ensures
        r == ascii_upper(c),
{
    if 'a' <= c && c <= 'z' {
        let b: u8 = c as u8;
        let u: char = (b - 32) as char;
        u
    } else {
        c
    }
}

pub open spec fn lower_seq(s: Seq<char>) -> Seq<char> {
    s.map_values(|c: char| ascii_lower(c))
}

pub open spec fn upper_seq(s: Seq<char>) -> Seq<char> {
    s.map_values(|c: char| ascii_upper(c))
}

/// ASCII lowercase of every character (`to_ascii_lowercase`).
pub fn to_ascii_lowercase(s: &[char]) -> (r: Vec<char>)
    ensures
        r@ == lower_seq(s@),
{
    let mut r: Vec<char> = Vec::new();
    let mut i: usize = 0;
    while i < s.len()
        invariant
            i <= s.len(),
            r@ == lower_seq(s@.take(i as int)),
        decreases s.len() - i,
    {
        let c: char = to_ascii_lower_char(s[i]);
        r.push(c);
        assert(lower_seq(s@.take(i + 1)) =~= lower_seq(s@.take(i as int)).push(c));
        i = i + 1;
    }
    assert(s@.take(s.len() as int) =~= s@);
    r
}

/// ASCII uppercase of every character (`to_ascii_uppercase`).
pub fn to_ascii_uppercase(s: &[char]) -> (r: Vec<char>)
    ensures
        r@ == upper_seq(s@),
{
    let mut r: Vec<char> = Vec::new();
    let mut i: usize = 0;
    while i < s.len()
        invariant
            i <= s.len(),
            r@ == upper_seq(s@.take(i as int)),
        decreases s.len() - i,
    {
        let c: char = to_ascii_upper_char(s[i]);
        r.push(c);
        assert(upper_seq(s@.take(i + 1)) =~= upper_seq(s@.take(i as int)).push(c));
        i = i + 1;
    }
    assert(s@.take(s.len() as int) =~= s@);
    r
}

// ---------------------------------------------------------------------------
// Comparisons
// ---------------------------------------------------------------------------

/// Character sequences are equal.
pub fn chars_eq(a: &[char], b: &[char]) -> (r: bool)
    ensures
        r == (a@ == b@),
{
    if a.len() != b.len() {
        return false;
    }
    let mut i: usize = 0;
    while i < a.len()
        invariant
            a.len() == b.len(),
            i <= a.len(),
            a@.take(i as int) == b@.take(i as int),
        decreases a.len() - i,
    {
        if a[i] != b[i] {
            assert(a@[i as int] != b@[i as int]);
            return false;
        }
        assert(a@.take(i + 1) =~= a@.take(i as int).push(a@[i as int]));
        assert(b@.take(i + 1) =~= b@.take(i as int).push(b@[i as int]));
        i = i + 1;
    }
    assert(a@.take(a.len() as int) =~= a@);
    assert(b@.take(b.len() as int) =~= b@);
    true
}

/// Equality up to ASCII case (`eq_ignore_ascii_case`).
pub open spec fn eq_ignore_case(a: Seq<char>, b: Seq<char>) -> bool {
    lower_seq(a) == lower_seq(b)
}

pub fn chars_eq_ignore_ascii_case(a: &[char], b: &[char]) -> (r: bool)
    ensures
        r == eq_ignore_case(a@, b@),
{
    let la: Vec<char> = to_ascii_lowercase(a);
    let lb: Vec<char> = to_ascii_lowercase(b);
    chars_eq(la.as_slice(), lb.as_slice())
}

/// `prefix` is a prefix of `s`.
pub open spec fn has_prefix(s: Seq<char>, prefix: Seq<char>) -> bool {
    prefix.len() <= s.len() && s.take(prefix.len() as int) == prefix
}

pub fn starts_with(s: &[char], prefix: &[char]) -> (r: bool)
    ensures
        r == has_prefix(s@, prefix@),
{
    if prefix.len() > s.len() {
        return false;
    }
    let mut i: usize = 0;
    while i < prefix.len()
        invariant
            prefix.len() <= s.len(),
            i <= prefix.len(),
            s@.take(i as int) == prefix@.take(i as int),
        decreases prefix.len() - i,
    {
        if s[i] != prefix[i] {
            assert(s@.take(prefix.len() as int)[i as int] != prefix@[i as int]);
            return false;
        }
        assert(s@.take(i + 1) =~= s@.take(i as int).push(s@[i as int]));
        assert(prefix@.take(i + 1) =~= prefix@.take(i as int).push(prefix@[i as int]));
        i = i + 1;
    }
    assert(prefix@.take(prefix.len() as int) =~= prefix@);
    true
}

/// `needle` occurs in `s` at some position.
pub open spec fn occurs_at(s: Seq<char>, needle: Seq<char>, i: int) -> bool {
    0 <= i && i + needle.len() <= s.len() && s.subrange(i, i + needle.len()) == needle
}

pub open spec fn contains_seq(s: Seq<char>, needle: Seq<char>) -> bool {
    exists|i: int| occurs_at(s, needle, i)
}

/// `needle` occurs in `s` starting at position `at`.
pub fn matches_at(s: &[char], needle: &[char], at: usize) -> (r: bool)
    ensures
        r == occurs_at(s@, needle@, at as int),
{
    if at > s.len() || needle.len() > s.len() - at {
        return false;
    }
    let mut i: usize = 0;
    while i < needle.len()
        invariant
            at + needle.len() <= s.len(),
            i <= needle.len(),
            s@.subrange(at as int, at + i) == needle@.take(i as int),
        decreases needle.len() - i,
    {
        if s[at + i] != needle[i] {
            assert(s@.subrange(at as int, at + needle.len())[i as int] != needle@[i as int]);
            return false;
        }
        assert(s@.subrange(at as int, at + i + 1) =~= s@.subrange(at as int, at + i).push(
            s@[at + i],
        ));
        assert(needle@.take(i + 1) =~= needle@.take(i as int).push(needle@[i as int]));
        i = i + 1;
    }
    assert(needle@.take(needle.len() as int) =~= needle@);
    true
}

/// `needle` occurs somewhere in `s` (`str::contains`).
pub fn contains_chars(s: &[char], needle: &[char]) -> (r: bool)
    ensures
        r == contains_seq(s@, needle@),
{
    let mut at: usize = 0;
    loop
        invariant
            at <= s.len(),
            forall|j: int| 0 <= j < at ==> !occurs_at(s@, needle@, j),
        decreases s.len() - at,
    {
        if matches_at(s, needle, at) {
            return true;
        }
        if at == s.len() {
            assert forall|j: int| !occurs_at(s@, needle@, j) by {
                if 0 <= j && j < at {
                    assert(!occurs_at(s@, needle@, j));
                }
            }
            return false;
        }
        at = at + 1;
    }
}

/// Lexicographic order of character sequences, by code point (the order
/// of `str`, whose UTF-8 byte order agrees with code point order).
pub open spec fn seq_lt(a: Seq<char>, b: Seq<char>) -> bool
    decreases a.len(),
{
    if a.len() == 0 {
        b.len() > 0
    } else if b.len() == 0 {
        false
    } else if a[0] != b[0] {
        a[0] < b[0]
    } else {
        seq_lt(a.drop_first(), b.drop_first())
    }
}

/// No sequence comes before itself.
pub proof fn lemma_seq_lt_irreflexive(a: Seq<char>)
    ensures
        !seq_lt(a, a),
    decreases a.len(),
{
    if a.len() > 0 {
        lemma_seq_lt_irreflexive(a.drop_first());
    }
}

/// The order of sequences is transitive.
pub proof fn lemma_seq_lt_transitive(a: Seq<char>, b: Seq<char>, c: Seq<char>)
    requires
        seq_lt(a, b),
        seq_lt(b, c),
    ensures
        seq_lt(a, c),
    decreases a.len(),
{
    if a.len() > 0 && b.len() > 0 && c.len() > 0 && a[0] == b[0] && b[0] == c[0] {
        lemma_seq_lt_transitive(a.drop_first(), b.drop_first(), c.drop_first());
    }
}

/// Of two different sequences, one comes first.
pub proof fn lemma_seq_lt_total(a: Seq<char>, b: Seq<char>)
    requires
        a != b,
    ensures
        seq_lt(a, b) || seq_lt(b, a),
    decreases a.len(),
{
    if a.len() > 0 && b.len() > 0 && a[0] == b[0] {
        if a.drop_first() == b.drop_first() {
            assert(a =~= seq![a[0]] + a.drop_first());
            assert(b =~= seq![b[0]] + b.drop_first());
        }
        lemma_seq_lt_total(a.drop_first(), b.drop_first());
    } else if a.len() > 0 && b.len() > 0 {
        assert(a[0] < b[0] || b[0] < a[0]);
    } else if a.len() == 0 && b.len() == 0 {
        assert(a =~= b);
    }
}

pub fn chars_lt(a: &[char], b: &[char]) -> (r: bool)
    ensures
        r == seq_lt(a@, b@),
{
    let mut i: usize = 0;
    assert(a@.skip(0) =~= a@);
    assert(b@.skip(0) =~= b@);
    while i < a.len() && i < b.len() && a[i] == b[i]
        invariant
            i <= a.len(),
            i <= b.len(),
            seq_lt(a@, b@) == seq_lt(a@.skip(i as int), b@.skip(i as int)),
        decreases a.len() - i,
    {
        assert(a@.skip(i as int).drop_first() =~= a@.skip(i + 1));
        assert(b@.skip(i as int).drop_first() =~= b@.skip(i + 1));
        i = i + 1;
    }
    if i == a.len() {
        i < b.len()
    } else if i == b.len() {
        false
    } else {
        a[i] < b[i]
    }
}

// ---------------------------------------------------------------------------
// Trimming
// ---------------------------------------------------------------------------

/// Character classes that the library trims away (`trim`, `trim_matches`).
#[derive(Clone, Copy, PartialEq, Eq, Structural, Debug)]
pub enum TrimClass {
    /// Unicode white space (`trim`).
    Whitespace,
    /// `"`, `'` and a space (the desktop-entry value trim).
    QuoteOrSpace,
    /// One given character (`trim_matches(c)`, `trim_start_matches(c)`).
    Exactly(char),
}

pub open spec fn in_class(cls: TrimClass, c: char) -> bool {
    match cls {
        TrimClass::Whitespace => is_ws(c),
        TrimClass::QuoteOrSpace => c == '"' || c == '\'' || c == ' ',
        TrimClass::Exactly(x) => c == x,
    }
}

pub fn class_test(cls: TrimClass, c: char) -> (r: bool)
    ensures
        r == in_class(cls, c),
{
    match cls {
        TrimClass::Whitespace => is_whitespace(c),
        TrimClass::QuoteOrSpace => c == '"' || c == '\'' || c == ' ',
        TrimClass::Exactly(x) => c == x,
    }
}

/// `s` without its leading characters of class `cls`.
pub open spec fn trim_start_spec(s: Seq<char>, cls: TrimClass) -> Seq<char>
    decreases s.len(),
{
    if s.len() > 0 && in_class(cls, s[0]) {
        trim_start_spec(s.drop_first(), cls)
    } else {
        s
    }
}

/// `s` without its trailing characters of class `cls`.
pub open spec fn trim_end_spec(s: Seq<char>, cls: TrimClass) -> Seq<char>
    decreases s.len(),
{
    if s.len() > 0 && in_class(cls, s.last()) {
        trim_end_spec(s.drop_last(), cls)
    } else {
        s
    }
}

/// `s` without leading and trailing characters of class `cls`.
pub open spec fn trim_spec(s: Seq<char>, cls: TrimClass) -> Seq<char> {
    trim_end_spec(trim_start_spec(s, cls), cls)
}

/// `str::trim`.
pub open spec fn trim_ws(s: Seq<char>) -> Seq<char> {
    trim_spec(s, TrimClass::Whitespace)
}

pub fn trim_start_class(s: &[char], cls: TrimClass) -> (r: Vec<char>)
    ensures
        r@ == trim_start_spec(s@, cls),
{
    let mut i: usize = 0;
    assert(s@.skip(0) =~= s@);
    while i < s.len() && class_test(cls, s[i])
        invariant
            i <= s.len(),
            trim_start_spec(s@, cls) == trim_start_spec(s@.skip(i as int), cls),
        decreases s.len() - i,
    {
        assert(s@.skip(i as int).drop_first() =~= s@.skip(i + 1));
        i = i + 1;
    }
    let mut r: Vec<char> = Vec::new();
    let mut j: usize = i;
    while j < s.len()
        invariant
            i <= j <= s.len(),
            r@ == s@.subrange(i as int, j as int),
        decreases s.len() - j,
    {
        r.push(s[j]);
        assert(s@.subrange(i as int, j + 1) =~= s@.subrange(i as int, j as int).push(s@[j as int]));
        j = j + 1;
    }
    assert(s@.skip(i as int) =~= s@.subrange(i as int, s.len() as int));
    r
}

pub fn trim_end_class(s: &[char], cls: TrimClass) -> (r: Vec<char>)
    ensures
        r@ == trim_end_spec(s@, cls),
{
    let mut n: usize = s.len();
    assert(s@.take(s.len() as int) =~= s@);
    while n > 0 && class_test(cls, s[n - 1])
        invariant
            n <= s.len(),
            trim_end_spec(s@, cls) == trim_end_spec(s@.take(n as int), cls),
        decreases n,
    {
        assert(s@.take(n as int).drop_last() =~= s@.take(n - 1));
        n = n - 1;
    }
    let mut r: Vec<char> = Vec::new();
    let mut j: usize = 0;
    while j < n
        invariant
            j <= n <= s.len(),
            r@ == s@.take(j as int),
        decreases n - j,
    {
        r.push(s[j]);
        assert(s@.take(j + 1) =~= s@.take(j as int).push(s@[j as int]));
        j = j + 1;
    }
    r
}

pub fn trim_class(s: &[char], cls: TrimClass) -> (r: Vec<char>)
    ensures
        r@ == trim_spec(s@, cls),
{
    let a: Vec<char> = trim_start_class(s, cls);
    trim_end_class(a.as_slice(), cls)
}

/// `str::trim`.
pub fn trim(s: &[char]) -> (r: Vec<char>)
    ensures
        r@ == trim_ws(s@),
{
    trim_class(s, TrimClass::Whitespace)
}

/// A sequence is blank when trimming leaves nothing.
pub open spec fn is_blank(s: Seq<char>) -> bool {
    trim_ws(s).len() == 0
}

// ---------------------------------------------------------------------------
// Decimal numbers
// ---------------------------------------------------------------------------

pub open spec fn digit_char(d: nat) -> char
    recommends
        d < 10,
{
    ((d + 48) as u32) as char
}

/// Decimal digits of `n`, most significant first, without leading zeros
/// (`"0"` for zero): what `format!("{}", n)` prints.
pub open spec fn decimal(n: nat) -> Seq<char>
    decreases n,
{
    if n < 10 {
        seq![digit_char(n)]
    } else {
        decimal(n / 10).push(digit_char(n % 10))
    }
}

pub fn u64_to_decimal(n: u64) -> (r: Vec<char>)
    ensures
        r@ == decimal(n as nat),
    decreases n,
{
    if n < 10 {
        let d: u8 = n as u8;
        let c: char = (d + 48) as char;
        let mut r: Vec<char> = Vec::new();
        r.push(c);
        proof {
            assert(r@ =~= seq![digit_char(n as nat)]);
        }
        r
    } else {
        let mut r: Vec<char> = u64_to_decimal(n / 10);
        let d: u8 = (n % 10) as u8;
        let c: char = (d + 48) as char;
        r.push(c);
        r
    }
}

/// Decimal text of a signed number.
pub open spec fn decimal_i64(n: int) -> Seq<char> {
    if n < 0 {
        seq!['-'] + decimal((-n) as nat)
    } else {
        decimal(n as nat)
    }
}

pub fn i64_to_decimal(n: i64) -> (r: Vec<char>)
    ensures
        r@ == decimal_i64(n as int),
{
    if n < 0 {
        let m: u64 = if n == i64::MIN {
            9223372036854775808u64
        } else {
            (-n) as u64
        };
        let digits: Vec<char> = u64_to_decimal(m);
        let mut r: Vec<char> = Vec::new();
        r.push('-');
        let mut i: usize = 0;
        while i < digits.len()
            invariant
                i <= digits.len(),
                r@ == seq!['-'] + digits@.take(i as int),
            decreases digits.len() - i,
        {
            r.push(digits[i]);
            assert(seq!['-'] + digits@.take(i + 1) =~= (seq!['-'] + digits@.take(i as int)).push(
                digits@[i as int],
            ));
            i = i + 1;
        }
        assert(digits@.take(digits.len() as int) =~= digits@);
        r
    } else {
        u64_to_decimal(n as u64)
    }
}

/// Value of a sequence of ASCII decimal digits.
pub open spec fn digits_value(s: Seq<char>) -> nat
    decreases s.len(),
{
    if s.len() == 0 {
        0
    } else {
        digits_value(s.drop_last()) * 10 + ((s.last() as u32) - 48) as nat
    }
}

pub open spec fn all_digits(s: Seq<char>) -> bool {
    forall|i: int| 0 <= i < s.len() ==> is_ascii_digit(#[trigger] s[i])
}

/// The digits that `str::parse` of an unsigned integer reads: the text
/// without an optional leading `+`.
pub open spec fn unsigned_digits(s: Seq<char>) -> Seq<char> {
    if s.len() > 0 && s[0] == '+' {
        s.drop_first()
    } else {
        s
    }
}

/// `str::parse` of an unsigned integer type whose largest value is `max`:
/// an optional `+`, then at least one ASCII digit and nothing else, and a
/// value no larger than `max`.
pub open spec fn parse_unsigned(s: Seq<char>, max: nat) -> Option<nat> {
    let d = unsigned_digits(s);
    if d.len() > 0 && all_digits(d) && digits_value(d) <= max {
        Some(digits_value(d))
    } else {
        None
    }
}

proof fn lemma_digits_value_monotone(s: Seq<char>, k: int)
    requires
        0 <= k <= s.len(),
        all_digits(s),
    ensures
        digits_value(s.take(k)) <= digits_value(s),
    decreases s.len() - k,
{
    if k < s.len() {
        lemma_digits_value_monotone(s, k + 1);
        assert(s.take(k + 1).drop_last() =~= s.take(k));
        assert(is_ascii_digit(s[k]));
    } else {
        assert(s.take(k) =~= s);
    }
}

/// Parses an unsigned decimal number no larger than `max`, as
/// `str::parse::<u64>` (`max == u64::MAX`) or `str::parse::<u32>`
/// (`max == u32::MAX`) does.
pub fn parse_unsigned_chars(s: &[char], max: u64) -> (r: Option<u64>)
    ensures
        r matches Some(v) ==> parse_unsigned(s@, max as nat) == Some(v as nat),
        r is None ==> parse_unsigned(s@, max as nat) is None,
{
    let start: usize = if s.len() > 0 && s[0] == '+' {
        1
    } else {
        0
    };
    let ghost d = unsigned_digits(s@);
    proof {
        assert(d =~= s@.skip(start as int));
    }
    if start >= s.len() {
        return None;
    }
    let mut value: u64 = 0;
    let mut i: usize = start;
    while i < s.len()
        invariant
            start <= i <= s.len(),
            start < s.len(),
            d == s@.skip(start as int),
            d == unsigned_digits(s@),
            all_digits(d.take(i - start)),
            value as nat == digits_value(d.take(i - start)),
            value <= max,
        decreases s.len() - i,
    {
        let c: char = s[i];
        if !('0' <= c && c <= '9') {
            proof {
                assert(d[i - start] == c);
                assert(!is_ascii_digit(d[i - start]));
                assert(!all_digits(d));
            }
            return None;
        }
        let digit: u64 = ((c as u32) - 48) as u64;
        proof {
            assert(d.take(i - start + 1).drop_last() =~= d.take(i - start));
            assert(d.take(i - start + 1).last() == c);
            assert(digits_value(d.take(i - start + 1)) == value * 10 + digit);
        }
        if digit > max || value > (max - digit) / 10 {
            proof {
                if digit <= max {
                    assert(value * 10 + digit > max) by (nonlinear_arith)
                        requires
                            value > (max - digit) / 10,
                            digit <= max,
                    ;
                }
                if all_digits(d) {
                    lemma_digits_value_monotone(d, i - start + 1);
                }
            }
            return None;
        }
        proof {
            assert(value * 10 + digit <= max) by (nonlinear_arith)
                requires
                    value <= (max - digit) / 10,
                    digit <= max,
            ;
        }
        value = value * 10 + digit;
        proof {
            assert forall|j: int| 0 <= j < d.take(i - start + 1).len() implies is_ascii_digit(
                #[trigger] d.take(i - start + 1)[j],
            ) by {
                if j < i - start {
                    assert(d.take(i - start + 1)[j] == d.take(i - start)[j]);
                }
            }
        }
        i = i + 1;
    }
    proof {
        assert(d.take(i - start) =~= d);
    }
    Some(value)
}

} // verus!
