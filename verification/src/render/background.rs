use vstd::prelude::*;

use crate::paths::{join_path, join_spec};
use crate::strings::{
    chars_eq, chars_of, concat, has_prefix, lower_seq, starts_with, string_from_chars, suffix_from,
    to_ascii_lowercase, trim, trim_class, trim_spec, trim_ws, TrimClass,
};

verus! {

// ---------------------------------------------------------------------------
// What the background shows
// ---------------------------------------------------------------------------

/// How the background is drawn.
#[derive(Clone, Copy, Debug, PartialEq, Eq, Structural)]
pub enum BackgroundMode {
    /// No background is drawn.
    Disabled,
    Classic,
    FieldShader,
}

/// The background needs a new frame over time: an animated shader.
pub fn background_animates(mode: BackgroundMode, animated: bool) -> (r: bool)
    ensures
        r == (mode == BackgroundMode::FieldShader && animated),
{
    mode == BackgroundMode::FieldShader && animated
}

/// A background resource loaded under a key (the image's or shader's
/// path): the key it was loaded for, whether it is there, and the key
/// whose loading failed.
#[derive(Clone, Debug)]
pub struct BackgroundResource {
    pub key: Option<String>,
    pub loaded: bool,
    pub failed_key: Option<String>,
}

pub open spec fn opt_is(o: Option<String>, k: Seq<char>) -> bool {
    o matches Some(s) && s@ == k
}

fn opt_equals(o: &Option<String>, k: &str) -> (r: bool)
    ensures
        r == opt_is(*o, k@),
{
    match o {
        Some(s) => chars_eq(chars_of(s.as_str()).as_slice(), chars_of(k).as_slice()),
        None => false,
    }
}

impl BackgroundResource {
    /// Loading is due for `key`: it is not loaded under that key, and it did
    /// not already fail under it.
    pub open spec fn needs_load_spec(&self, key: Seq<char>) -> bool {
        !(opt_is(self.key, key) && self.loaded) && !opt_is(self.failed_key, key)
    }

    pub fn needs_load(&self, key: &str) -> (r: bool)
        ensures
            r == self.needs_load_spec(key@),
    {
        !(opt_equals(&self.key, key) && self.loaded) && !opt_equals(&self.failed_key, key)
    }

    /// The resource loaded under `key`.
    pub fn record_success(&mut self, key: &str)
        ensures
            opt_is(final(self).key, key@),
            final(self).loaded,
            final(self).failed_key is None,
    {
        self.key = Some(string_from_chars(chars_of(key).as_slice()));
        self.loaded = true;
        self.failed_key = None;
    }

    /// Loading under `key` failed: nothing is loaded, and the key is not
    /// tried again until it changes.
    pub fn record_failure(&mut self, key: &str)
        ensures
            final(self).key is None,
            !final(self).loaded,
            opt_is(final(self).failed_key, key@),
    {
        self.key = None;
        self.loaded = false;
        self.failed_key = Some(string_from_chars(chars_of(key).as_slice()));
    }
}

/// After a load under a key, whether it succeeded or failed, no second
/// load is asked for under the same key.
pub proof fn law_no_reload_under_same_key(r: BackgroundResource, key: Seq<char>)
    requires
        (opt_is(r.key, key) && r.loaded && r.failed_key is None) || (r.key is None && !r.loaded
            && opt_is(r.failed_key, key)),
    ensures
        !r.needs_load_spec(key),
{
}

// ---------------------------------------------------------------------------
// Paths in the background settings
// ---------------------------------------------------------------------------

pub open spec fn is_name_char(c: char) -> bool {
    ('a' <= c && c <= 'z') || ('A' <= c && c <= 'Z') || ('0' <= c && c <= '9') || c == '_'
}

/// How many characters at the start of `s` can be part of a variable name.
pub open spec fn name_len(s: Seq<char>) -> nat
    decreases s.len(),
{
    if s.len() > 0 && is_name_char(s[0]) {
        1 + name_len(s.drop_first())
    } else {
        0
    }
}

/// The value of variable `name`, if set.
pub open spec fn env_lookup(env: Seq<(String, String)>, name: Seq<char>) -> Option<Seq<char>>
    decreases env.len(),
{
    if env.len() == 0 {
        None
    } else if env[0].0@ == name {
        Some(env[0].1@)
    } else {
        env_lookup(env.drop_first(), name)
    }
}

/// The text with each `$env.NAME` (a name of letters, digits and
/// underscores) put in place by the variable's value; an unset variable
/// leaves nothing, and `$env.` not followed by a name stays as it is.
pub open spec fn expand_env_spec(s: Seq<char>, env: Seq<(String, String)>) -> Seq<char>
    decreases s.len(),
{
    if s.len() == 0 {
        s
    } else if s.len() >= 5 && has_prefix(s, "$env."@) && name_len(s.skip(5)) > 0 {
        proof {
            lemma_name_len(s.skip(5));
        }
        let n = name_len(s.skip(5)) as int;
        let value = match env_lookup(env, s.skip(5).take(n)) {
            Some(v) => v,
            None => Seq::empty(),
        };
        value + expand_env_spec(s.skip(5 + n), env)
    } else {
        seq![s[0]] + expand_env_spec(s.skip(1), env)
    }
}

pub proof fn lemma_name_len(s: Seq<char>)
    ensures
        name_len(s) <= s.len(),
        forall|k: int| 0 <= k < name_len(s) ==> is_name_char(#[trigger] s[k]),
        name_len(s) < s.len() ==> !is_name_char(s[name_len(s) as int]),
    decreases s.len(),
{
    if s.len() > 0 && is_name_char(s[0]) {
        lemma_name_len(s.drop_first());
        assert forall|k: int| 0 <= k < name_len(s) implies is_name_char(#[trigger] s[k]) by {
            if k > 0 {
                assert(s[k] == s.drop_first()[k - 1]);
            }
        }
    }
}

fn is_name_char_exec(c: char) -> (r: bool)
    ensures
        r == is_name_char(c),
{
    ('a' <= c && c <= 'z') || ('A' <= c && c <= 'Z') || ('0' <= c && c <= '9') || c == '_'
}

fn env_value(env: &[(String, String)], name: &[char]) -> (r: Option<Vec<char>>)
    ensures
        match env_lookup(env@, name@) {
            Some(v) => r matches Some(x) && x@ == v,
            None => r is None,
        },
{
    let mut i: usize = 0;
    proof {
        assert(env@.skip(0) =~= env@);
    }
    while i < env.len()
        invariant
            i <= env@.len(),
            env_lookup(env@, name@) == env_lookup(env@.skip(i as int), name@),
        decreases env.len() - i,
    {
        proof {
            assert(env@.skip(i as int).drop_first() =~= env@.skip(i + 1));
        }
        let k: Vec<char> = chars_of(env[i].0.as_str());
        if chars_eq(k.as_slice(), name) {
            return Some(chars_of(env[i].1.as_str()));
        }
        i = i + 1;
    }
    None
}

/// Puts environment variables in place in a setting (`$env.NAME`), given
/// the environment as `(name, value)` pairs. The text must be ASCII (other
/// text makes the byte-wise scan cut a character).
pub fn expand_env_vars(raw: &str, env: &[(String, String)]) -> (r: String)
    requires
        forall|i: int| 0 <= i < raw@.len() ==> (#[trigger] raw@[i] as u32) < 128,
    ensures
        r@ == expand_env_spec(raw@, env@),
{
    let c: Vec<char> = chars_of(raw);
    let marker: Vec<char> = chars_of("$env.");
    proof {
        reveal_strlit("$env.");
    }
    let mut out: Vec<char> = Vec::new();
    let mut i: usize = 0;
    proof {
        assert(c@.skip(0) =~= c@);
    }
    while i < c.len()
        invariant
            i <= c@.len(),
            marker@ == "$env."@,
            out@ + expand_env_spec(c@.skip(i as int), env@) == expand_env_spec(c@, env@),
        decreases c.len() - i,
    {
        let ghost rest = c@.skip(i as int);
        let rest_c: Vec<char> = suffix_from(c.as_slice(), i);
        if c.len() - i >= 5 && starts_with(rest_c.as_slice(), marker.as_slice()) {
            let start: usize = i + 5;
            let mut end: usize = start;
            proof {
                lemma_name_len(rest.skip(5));
                assert(c@.skip(start as int) =~= rest.skip(5));
            }
            while end < c.len() && is_name_char_exec(c[end])
                invariant
                    start <= end <= c@.len(),
                    start == i + 5,
                    rest == c@.skip(i as int),
                    end - start <= name_len(rest.skip(5)),
                decreases c.len() - end,
            {
                proof {
                    lemma_name_len(rest.skip(5));
                    if end - start == name_len(rest.skip(5)) {
                        assert(rest.skip(5)[end - start] == c@[end as int]);
                    }
                }
                end = end + 1;
            }
            proof {
                lemma_name_len(rest.skip(5));
                if end - start < name_len(rest.skip(5)) {
                    assert(rest.skip(5)[end - start] == c@[end as int]);
                    assert(is_name_char(rest.skip(5)[end - start]));
                }
            }
            if end > start {
                let name: Vec<char> = crate::strings::prefix_to(
                    suffix_from(c.as_slice(), start).as_slice(),
                    end - start,
                );
                let value: Option<Vec<char>> = env_value(env, name.as_slice());
                let ghost before = out@;
                match value {
                    Some(v) => {
                        out = concat(out.as_slice(), v.as_slice());
                    },
                    None => {},
                }
                proof {
                    assert(rest.skip(5 + (end - start) as int) =~= c@.skip(end as int));
                    assert(name@ =~= rest.skip(5).take((end - start) as int));
                }
                i = end;
                continue ;
            }
        }
        proof {
            assert(rest.skip(1) =~= c@.skip(i + 1));
        }
        out.push(c[i]);
        i = i + 1;
    }
    proof {
        assert(c@.skip(c.len() as int) =~= Seq::<char>::empty());
        assert(out@ + Seq::<char>::empty() =~= out@);
    }
    string_from_chars(out.as_slice())
}

pub open spec fn ascii(s: Seq<char>) -> bool {
    forall|i: int| 0 <= i < s.len() ==> (#[trigger] s[i] as u32) < 128
}

/// A background path setting trimmed, stripped of quotes, and with a
/// leading `~/` put in place by the home directory.
pub open spec fn background_joined(raw: Seq<char>, home: Option<Seq<char>>) -> Seq<char> {
    let out = trim_spec(trim_ws(raw), TrimClass::Exactly('"'));
    if out.len() >= 2 && out[0] == '~' && out[1] == '/' && home is Some {
        join_spec(home->0, out.skip(2))
    } else {
        out
    }
}

/// A background path setting made usable: trimmed, stripped of quotes, a
/// leading `~/` put in place by the home directory, and `$env.NAME`
/// references expanded.
pub open spec fn background_path_spec(
    raw: Seq<char>,
    home: Option<Seq<char>>,
    env: Seq<(String, String)>,
) -> Seq<char> {
    expand_env_spec(background_joined(raw, home), env)
}

pub fn expand_user_path(raw: &str, home: Option<&str>, env: &[(String, String)]) -> (r: String)
    requires
        ascii(
            background_joined(
                raw@,
                match home {
                    Some(h) => Some(h@),
                    None => None,
                },
            ),
        ),
    ensures
        r@ == background_path_spec(
            raw@,
            match home {
                Some(h) => Some(h@),
                None => None,
            },
            env@,
        ),
{
    let t: Vec<char> = trim(chars_of(raw).as_slice());
    let out: Vec<char> = trim_class(t.as_slice(), TrimClass::Exactly('"'));
    let joined: String = if out.len() >= 2 && out[0] == '~' && out[1] == '/' && home.is_some() {
        let rest: Vec<char> = suffix_from(out.as_slice(), 2);
        let rs: String = string_from_chars(rest.as_slice());
        join_path(home.unwrap(), rs.as_str())
    } else {
        string_from_chars(out.as_slice())
    };
    expand_env_vars(joined.as_str(), env)
}

/// Which shader the animated background runs.
#[derive(Clone, Debug)]
pub enum ShaderChoice {
    /// The built-in star field.
    BuiltinStars,
    /// A shader read from a file.
    Path(String),
}

/// The shader chosen by the settings: the `path` setting when given;
/// otherwise the `shader` setting (trimmed and lowercased), where blank and
/// `stars` mean the built-in one and anything else names a file.
pub open spec fn shader_choice_spec(
    path: Seq<char>,
    shader: Seq<char>,
    home: Option<Seq<char>>,
    env: Seq<(String, String)>,
) -> Option<Seq<char>> {
    if trim_ws(path).len() > 0 {
        Some(background_path_spec(path, home, env))
    } else {
        let key = lower_seq(trim_ws(shader));
        if key.len() == 0 || key == "stars"@ {
            None
        } else {
            Some(background_path_spec(key, home, env))
        }
    }
}

pub fn field_shader_choice(
    path: &str,
    shader: &str,
    home: Option<&str>,
    env: &[(String, String)],
) -> (r: ShaderChoice)
    requires
        trim_ws(path@).len() > 0 ==> ascii(
            background_joined(
                path@,
                match home {
                    Some(h) => Some(h@),
                    None => None,
                },
            ),
        ),
        trim_ws(path@).len() == 0 && lower_seq(trim_ws(shader@)).len() > 0 && lower_seq(
            trim_ws(shader@),
        ) != "stars"@ ==> ascii(
            background_joined(
                lower_seq(trim_ws(shader@)),
                match home {
                    Some(h) => Some(h@),
                    None => None,
                },
            ),
        ),
    ensures
        match shader_choice_spec(
            path@,
            shader@,
            match home {
                Some(h) => Some(h@),
                None => None,
            },
            env@,
        ) {
            Some(p) => r matches ShaderChoice::Path(x) && x@ == p,
            None => r is BuiltinStars,
        },
{
    let pt: Vec<char> = trim(chars_of(path).as_slice());
    if pt.len() > 0 {
        return ShaderChoice::Path(expand_user_path(path, home, env));
    }
    let key: Vec<char> = to_ascii_lowercase(trim(chars_of(shader).as_slice()).as_slice());
    let stars: Vec<char> = chars_of("stars");
    if key.len() == 0 || chars_eq(key.as_slice(), stars.as_slice()) {
        return ShaderChoice::BuiltinStars;
    }
    let ks: String = string_from_chars(key.as_slice());
    proof {
        reveal_strlit("stars");
    }
    ShaderChoice::Path(expand_user_path(ks.as_str(), home, env))
}

/// The key a shader is cached under: `builtin:stars`, or `path:` and the
/// file's path.
pub fn shader_key(choice: &ShaderChoice) -> (r: String)
    ensures
        choice is BuiltinStars ==> r@ == "builtin:stars"@,
        choice matches ShaderChoice::Path(p) ==> r@ == "path:"@ + p@,
{
    match choice {
        ShaderChoice::BuiltinStars => string_from_chars(chars_of("builtin:stars").as_slice()),
        ShaderChoice::Path(p) => {
            let head: Vec<char> = chars_of("path:");
            string_from_chars(concat(head.as_slice(), chars_of(p.as_str()).as_slice()).as_slice())
        },
    }
}

} // verus!
