use vstd::prelude::*;

use crate::paths::{join_path, join_spec};
use crate::strings::{
    chars_eq, chars_lt, chars_of, concat, concat3, decimal, has_prefix, is_blank,
    lemma_seq_lt_irreflexive,
    lemma_seq_lt_transitive, lower_seq, parse_unsigned, parse_unsigned_chars, seq_lt,
    starts_with, string_from_chars, to_ascii_lowercase, trim, trim_start_class, trim_start_spec,
    trim_ws, u64_to_decimal, TrimClass,
};

verus! {

// ---------------------------------------------------------------------------
// Settings read from the environment
// ---------------------------------------------------------------------------

/// A setting's value as the runtime compares it: trimmed and in ASCII
/// lowercase.
pub open spec fn setting_key(s: Seq<char>) -> Seq<char> {
    lower_seq(trim_ws(s))
}

pub fn normalize_setting(raw: &str) -> (r: Vec<char>)
    ensures
        r@ == setting_key(raw@),
{
    let c: Vec<char> = chars_of(raw);
    let t: Vec<char> = trim(c.as_slice());
    to_ascii_lowercase(t.as_slice())
}

/// The characters `v` spell the word `w`.
fn is_word(v: &[char], w: &str) -> (r: bool)
    ensures
        r == (v@ == w@),
{
    let wc: Vec<char> = chars_of(w);
    chars_eq(v, wc.as_slice())
}

/// Which compositor backend to run.
#[derive(Clone, Copy, Debug, PartialEq, Eq, Structural)]
pub enum RuntimeBackend {
    Auto,
    Winit,
    Tty,
}

/// The backend that a `HALLEY_WL_BACKEND` key names.
pub open spec fn backend_for_key(k: Seq<char>) -> Option<RuntimeBackend> {
    if k == "auto"@ {
        Some(RuntimeBackend::Auto)
    } else if k == "winit"@ {
        Some(RuntimeBackend::Winit)
    } else if k == "tty"@ {
        Some(RuntimeBackend::Tty)
    } else {
        None
    }
}

pub open spec fn invalid_backend_message(k: Seq<char>) -> Seq<char> {
    "invalid HALLEY_WL_BACKEND="@ + k + " (expected auto|winit|tty)"@
}

impl RuntimeBackend {
    /// Reads a `HALLEY_WL_BACKEND` value (`auto`, `winit` or `tty`, in any
    /// ASCII case, surrounding white space ignored).
    pub fn from_setting(raw: &str) -> (r: Result<RuntimeBackend, String>)
        ensures
            backend_for_key(setting_key(raw@)) matches Some(b) ==> r == Ok::<
                RuntimeBackend,
                String,
            >(b),
            backend_for_key(setting_key(raw@)) is None ==> (r matches Err(m) && m@
                == invalid_backend_message(setting_key(raw@))),
    {
        let k: Vec<char> = normalize_setting(raw);
        if is_word(k.as_slice(), "auto") {
            Ok(RuntimeBackend::Auto)
        } else if is_word(k.as_slice(), "winit") {
            Ok(RuntimeBackend::Winit)
        } else if is_word(k.as_slice(), "tty") {
            Ok(RuntimeBackend::Tty)
        } else {
            let head: Vec<char> = chars_of("invalid HALLEY_WL_BACKEND=");
            let tail: Vec<char> = chars_of(" (expected auto|winit|tty)");
            let msg: Vec<char> = concat3(head.as_slice(), k.as_slice(), tail.as_slice());
            Err(string_from_chars(msg.as_slice()))
        }
    }
}

pub open spec fn opt_str_view(o: Option<&str>) -> Option<Seq<char>> {
    match o {
        Some(s) => Some(s@),
        None => None,
    }
}

/// The backend chosen when none is configured.
pub open spec fn auto_backend_spec(
    stdin_is_terminal: bool,
    wayland_display_set: bool,
    display_set: bool,
    session_type: Option<Seq<char>>,
) -> RuntimeBackend {
    if !stdin_is_terminal || wayland_display_set || display_set {
        RuntimeBackend::Winit
    } else if session_type matches Some(t) && (setting_key(t) == "wayland"@ || setting_key(t)
        == "x11"@) {
        RuntimeBackend::Winit
    } else {
        RuntimeBackend::Tty
    }
}

/// Picks a backend from the surroundings: a nested window when standard
/// input is no terminal, when a host display is set (`WAYLAND_DISPLAY`,
/// `DISPLAY`) or when the session type is `wayland` or `x11`; the TTY
/// otherwise.
pub fn auto_backend(
    stdin_is_terminal: bool,
    wayland_display_set: bool,
    display_set: bool,
    session_type: Option<&str>,
) -> (r: RuntimeBackend)
    ensures
        r == auto_backend_spec(
            stdin_is_terminal,
            wayland_display_set,
            display_set,
            opt_str_view(session_type),
        ),
        r != RuntimeBackend::Auto,
{
    if !stdin_is_terminal || wayland_display_set || display_set {
        return RuntimeBackend::Winit;
    }
    match session_type {
        Some(t) => {
            let k: Vec<char> = normalize_setting(t);
            if is_word(k.as_slice(), "wayland") || is_word(k.as_slice(), "x11") {
                RuntimeBackend::Winit
            } else {
                RuntimeBackend::Tty
            }
        },
        None => RuntimeBackend::Tty,
    }
}

/// `HALLEY_WL_BACKEND` takes `auto`, `winit` and `tty`, in any ASCII case
/// with surrounding white space ignored, each naming its backend; any other
/// value is refused.
pub proof fn law_backend_setting_words(raw: Seq<char>)
    ensures
        lower_seq(trim_ws(raw)) == "auto"@ ==> backend_for_key(setting_key(raw)) == Some(
            RuntimeBackend::Auto,
        ),
        lower_seq(trim_ws(raw)) == "winit"@ ==> backend_for_key(setting_key(raw)) == Some(
            RuntimeBackend::Winit,
        ),
        lower_seq(trim_ws(raw)) == "tty"@ ==> backend_for_key(setting_key(raw)) == Some(
            RuntimeBackend::Tty,
        ),
        lower_seq(trim_ws(raw)) != "auto"@ && lower_seq(trim_ws(raw)) != "winit"@ && lower_seq(
            trim_ws(raw),
        ) != "tty"@ ==> backend_for_key(setting_key(raw)) is None,
{
    reveal_strlit("auto");
    reveal_strlit("winit");
    reveal_strlit("tty");
    assert("auto"@.len() != "winit"@.len() && "auto"@[0] != "tty"@[0] && "winit"@.len()
        != "tty"@.len());
}

/// Choosing a backend: non-terminal input or a host display (`WAYLAND_DISPLAY`
/// or `DISPLAY`) always runs in a nested window; otherwise a session type
/// that reads `wayland` or `x11` once trimmed and in ASCII lowercase runs
/// nested too, and any other session type, or none, runs on the TTY.
pub proof fn law_auto_backend_choice(
    stdin_is_terminal: bool,
    wayland_display_set: bool,
    display_set: bool,
    session_type: Seq<char>,
)
    ensures
        !stdin_is_terminal || wayland_display_set || display_set ==> auto_backend_spec(
            stdin_is_terminal,
            wayland_display_set,
            display_set,
            Some(session_type),
        ) == RuntimeBackend::Winit && auto_backend_spec(
            stdin_is_terminal,
            wayland_display_set,
            display_set,
            None,
        ) == RuntimeBackend::Winit,
        lower_seq(trim_ws(session_type)) == "wayland"@ ==> auto_backend_spec(
            true,
            false,
            false,
            Some(session_type),
        ) == RuntimeBackend::Winit,
        lower_seq(trim_ws(session_type)) == "x11"@ ==> auto_backend_spec(
            true,
            false,
            false,
            Some(session_type),
        ) == RuntimeBackend::Winit,
        lower_seq(trim_ws(session_type)) != "wayland"@ && lower_seq(trim_ws(session_type))
            != "x11"@ ==> auto_backend_spec(true, false, false, Some(session_type))
            == RuntimeBackend::Tty,
        auto_backend_spec(true, false, false, None) == RuntimeBackend::Tty,
{
}

/// The backend that actually runs: the configured one, or, for `Auto`, the
/// TTY when detection chose it and a nested window otherwise.
pub fn launch_backend(configured: RuntimeBackend, detected: RuntimeBackend) -> (r: RuntimeBackend)
    ensures
        configured != RuntimeBackend::Auto ==> r == configured,
        configured == RuntimeBackend::Auto ==> r == (if detected == RuntimeBackend::Tty {
            RuntimeBackend::Tty
        } else {
            RuntimeBackend::Winit
        }),
        r != RuntimeBackend::Auto,
{
    match configured {
        RuntimeBackend::Auto => match detected {
            RuntimeBackend::Tty => RuntimeBackend::Tty,
            _ => RuntimeBackend::Winit,
        },
        other => other,
    }
}

// ---------------------------------------------------------------------------
// Runtime directory and session bus
// ---------------------------------------------------------------------------

/// A runtime directory is private enough when its permission bits are
/// exactly `0o700`.
pub fn runtime_dir_mode_usable(mode: u32) -> (r: bool)
    ensures
        r == (mode & 0o777u32 == 0o700u32),
{
    mode & 0o777u32 == 0o700u32
}

/// `/run/user/<uid>`.
pub fn run_user_dir(uid: u32) -> (r: String)
    ensures
        r@ == "/run/user/"@ + decimal(uid as nat),
{
    let head: Vec<char> = chars_of("/run/user/");
    let digits: Vec<char> = u64_to_decimal(uid as u64);
    let all: Vec<char> = concat(head.as_slice(), digits.as_slice());
    string_from_chars(all.as_slice())
}

/// Name of the fallback runtime directory under the temporary directory:
/// `halley-runtime-<uid>`.
pub fn fallback_runtime_dir_name(uid: u32) -> (r: String)
    ensures
        r@ == "halley-runtime-"@ + decimal(uid as nat),
{
    let head: Vec<char> = chars_of("halley-runtime-");
    let digits: Vec<char> = u64_to_decimal(uid as u64);
    let all: Vec<char> = concat(head.as_slice(), digits.as_slice());
    string_from_chars(all.as_slice())
}

/// Path of the session bus socket inside a runtime directory.
pub fn session_bus_path(runtime_dir: &str) -> (r: String)
    ensures
        r@ == join_spec(runtime_dir@, "bus"@),
{
    join_path(runtime_dir, "bus")
}

/// `DBUS_SESSION_BUS_ADDRESS` for a bus socket at `bus_path`.
pub fn dbus_session_bus_address(bus_path: &str) -> (r: String)
    ensures
        r@ == "unix:path="@ + bus_path@,
{
    let head: Vec<char> = chars_of("unix:path=");
    let p: Vec<char> = chars_of(bus_path);
    let all: Vec<char> = concat(head.as_slice(), p.as_slice());
    string_from_chars(all.as_slice())
}

/// `halley.log` inside the runtime directory, when there is one.
pub fn default_halley_log_path(runtime_dir: Option<&str>) -> (r: Option<String>)
    ensures
        runtime_dir is None ==> r is None,
        runtime_dir matches Some(d) ==> (r matches Some(p) && p@ == join_spec(d@, "halley.log"@)),
{
    match runtime_dir {
        Some(d) => Some(join_path(d, "halley.log")),
        None => None,
    }
}

// ---------------------------------------------------------------------------
// Host display discovery
// ---------------------------------------------------------------------------

/// One entry of a directory listing: its file name and whether it is a
/// Unix socket (an entry whose metadata cannot be read is no socket).
#[derive(Clone, Debug)]
pub struct DirEntryInfo {
    pub name: String,
    pub is_socket: bool,
}

pub open spec fn wayland_socket_ok(e: DirEntryInfo) -> bool {
    has_prefix(e.name@, "wayland-"@) && e.is_socket
}

/// `found` is the least, in text order, of the names of the `wayland-*`
/// sockets among `entries`.
pub open spec fn least_wayland_socket(entries: Seq<DirEntryInfo>, found: Seq<char>) -> bool {
    &&& exists|i: int|
        0 <= i < entries.len() && wayland_socket_ok(entries[i]) && #[trigger] entries[i].name@
            == found
    &&& forall|j: int|
        0 <= j < entries.len() && wayland_socket_ok(#[trigger] entries[j]) ==> !seq_lt(
            entries[j].name@,
            found,
        )
}

/// The first (in text order) socket named `wayland-*` in a directory.
pub fn first_wayland_socket_in_dir(entries: &[DirEntryInfo]) -> (r: Option<String>)
    ensures
        r is None <==> forall|i: int| 0 <= i < entries@.len() ==> !wayland_socket_ok(
            #[trigger] entries@[i],
        ),
        r matches Some(n) ==> least_wayland_socket(entries@, n@),
{
    let prefix: Vec<char> = chars_of("wayland-");
    let mut best: Option<Vec<char>> = None;
    let mut i: usize = 0;
    while i < entries.len()
        invariant
            i <= entries.len(),
            prefix@ == "wayland-"@,
            best is None <==> forall|j: int| 0 <= j < i ==> !wayland_socket_ok(
                #[trigger] entries@[j],
            ),
            best matches Some(b) ==> (exists|j: int|
                0 <= j < i && wayland_socket_ok(entries@[j]) && #[trigger] entries@[j].name@
                    == b@),
            best matches Some(b) ==> forall|j: int|
                0 <= j < i && wayland_socket_ok(#[trigger] entries@[j]) ==> !seq_lt(
                    entries@[j].name@,
                    b@,
                ),
        decreases entries.len() - i,
    {
        let name: Vec<char> = chars_of(entries[i].name.as_str());
        if starts_with(name.as_slice(), prefix.as_slice()) && entries[i].is_socket {
            let replace: bool = match &best {
                None => true,
                Some(b) => chars_lt(name.as_slice(), b.as_slice()),
            };
            if replace {
                proof {
                    lemma_seq_lt_irreflexive(name@);
                    if best is Some {
                        let b = best->0;
                        assert forall|j: int|
                            0 <= j < i && wayland_socket_ok(#[trigger] entries@[j]) implies !seq_lt(
                            entries@[j].name@,
                            name@,
                        ) by {
                            if seq_lt(entries@[j].name@, name@) {
                                lemma_seq_lt_transitive(entries@[j].name@, name@, b@);
                            }
                        }
                    }
                    assert(entries@[i as int].name@ == name@);
                }
                best = Some(name);
            } else {
                proof {
                    let b = best->0;
                    let w = choose|j: int|
                        0 <= j < i && wayland_socket_ok(entries@[j]) && #[trigger] entries@[j].name@
                            == b@;
                    assert(0 <= w < i + 1 && wayland_socket_ok(entries@[w]) && entries@[w].name@
                        == b@);
                }
            }
        } else {
            proof {
                assert(!wayland_socket_ok(entries@[i as int]));
                if best is Some {
                    let b = best->0;
                    let w = choose|j: int|
                        0 <= j < i && wayland_socket_ok(entries@[j]) && #[trigger] entries@[j].name@
                            == b@;
                    assert(0 <= w < i + 1 && wayland_socket_ok(entries@[w]) && entries@[w].name@
                        == b@);
                }
            }
        }
        i = i + 1;
    }
    match best {
        Some(b) => Some(string_from_chars(b.as_slice())),
        None => None,
    }
}

pub open spec fn x11_socket_ok(e: DirEntryInfo) -> bool {
    e.name@.len() > 0 && e.name@[0] == 'X' && e.is_socket
}

/// The display that an X11 socket `X<n>` stands for: `:` and the name
/// without its leading `X`s.
pub open spec fn x11_display_of(name: Seq<char>) -> Seq<char> {
    seq![':'] + trim_start_spec(name, TrimClass::Exactly('X'))
}

/// `found` is the least, in text order, of the displays of the X11 sockets
/// among `entries`.
pub open spec fn least_x11_display(entries: Seq<DirEntryInfo>, found: Seq<char>) -> bool {
    &&& exists|i: int|
        0 <= i < entries.len() && x11_socket_ok(entries[i]) && #[trigger] x11_display_of(
            entries[i].name@,
        ) == found
    &&& forall|j: int|
        0 <= j < entries.len() && x11_socket_ok(#[trigger] entries[j]) ==> !seq_lt(
            x11_display_of(entries[j].name@),
            found,
        )
}

/// The first (in text order) X11 display with a socket in
/// `/tmp/.X11-unix`, given that directory's listing.
pub fn first_x11_display(entries: &[DirEntryInfo]) -> (r: Option<String>)
    ensures
        r is None <==> forall|i: int| 0 <= i < entries@.len() ==> !x11_socket_ok(
            #[trigger] entries@[i],
        ),
        r matches Some(d) ==> least_x11_display(entries@, d@),
{
    let colon: Vec<char> = chars_of(":");
    proof {
        reveal_strlit(":");
        assert(colon@ =~= seq![':']);
    }
    let mut best: Option<Vec<char>> = None;
    let mut i: usize = 0;
    while i < entries.len()
        invariant
            i <= entries.len(),
            colon@ == seq![':'],
            best is None <==> forall|j: int| 0 <= j < i ==> !x11_socket_ok(#[trigger] entries@[j]),
            best matches Some(b) ==> (exists|j: int|
                0 <= j < i && x11_socket_ok(entries@[j]) && #[trigger] x11_display_of(
                    entries@[j].name@,
                ) == b@),
            best matches Some(b) ==> forall|j: int|
                0 <= j < i && x11_socket_ok(#[trigger] entries@[j]) ==> !seq_lt(
                    x11_display_of(entries@[j].name@),
                    b@,
                ),
        decreases entries.len() - i,
    {
        let name: Vec<char> = chars_of(entries[i].name.as_str());
        if name.len() > 0 && name[0] == 'X' && entries[i].is_socket {
            let rest: Vec<char> = trim_start_class(name.as_slice(), TrimClass::Exactly('X'));
            let display: Vec<char> = concat(colon.as_slice(), rest.as_slice());
            proof {
                assert(display@ == x11_display_of(entries@[i as int].name@));
            }
            let replace: bool = match &best {
                None => true,
                Some(b) => chars_lt(display.as_slice(), b.as_slice()),
            };
            if replace {
                proof {
                    lemma_seq_lt_irreflexive(display@);
                    if best is Some {
                        let b = best->0;
                        assert forall|j: int|
                            0 <= j < i && x11_socket_ok(#[trigger] entries@[j]) implies !seq_lt(
                            x11_display_of(entries@[j].name@),
                            display@,
                        ) by {
                            if seq_lt(x11_display_of(entries@[j].name@), display@) {
                                lemma_seq_lt_transitive(
                                    x11_display_of(entries@[j].name@),
                                    display@,
                                    b@,
                                );
                            }
                        }
                    }
                }
                best = Some(display);
            } else {
                proof {
                    let b = best->0;
                    let w = choose|j: int|
                        0 <= j < i && x11_socket_ok(entries@[j]) && #[trigger] x11_display_of(
                            entries@[j].name@,
                        ) == b@;
                    assert(0 <= w < i + 1 && x11_socket_ok(entries@[w]) && x11_display_of(
                        entries@[w].name@,
                    ) == b@);
                }
            }
        } else {
            proof {
                assert(!x11_socket_ok(entries@[i as int]));
                if best is Some {
                    let b = best->0;
                    let w = choose|j: int|
                        0 <= j < i && x11_socket_ok(entries@[j]) && #[trigger] x11_display_of(
                            entries@[j].name@,
                        ) == b@;
                    assert(0 <= w < i + 1 && x11_socket_ok(entries@[w]) && x11_display_of(
                        entries@[w].name@,
                    ) == b@);
                }
            }
        }
        i = i + 1;
    }
    match best {
        Some(b) => Some(string_from_chars(b.as_slice())),
        None => None,
    }
}

/// The display number that an entry `X<n>` of `/tmp/.X11-unix` takes:
/// one leading `X` stripped, the rest read as a `u32`.
pub open spec fn x11_entry_number(name: Seq<char>) -> Option<nat> {
    if name.len() > 0 && name[0] == 'X' {
        parse_unsigned(name.drop_first(), u32::MAX as nat)
    } else {
        None
    }
}

pub open spec fn display_number_used(names: Seq<String>, k: nat) -> bool {
    exists|i: int| 0 <= i < names.len() && #[trigger] x11_entry_number(names[i]@) == Some(k)
}

/// The first display number from `k` on below 4096 that no entry takes,
/// or 4096 when all are taken.
pub open spec fn first_free_display_from(names: Seq<String>, k: nat) -> nat
    decreases 4096 - k,
{
    if k >= 4096 {
        4096
    } else if !display_number_used(names, k) {
        k
    } else {
        first_free_display_from(names, k + 1)
    }
}

fn x11_entry_number_of(name: &str) -> (r: Option<u32>)
    ensures
        r matches Some(v) ==> x11_entry_number(name@) == Some(v as nat),
        r is None ==> x11_entry_number(name@) is None,
{
    let c: Vec<char> = chars_of(name);
    if c.len() > 0 && c[0] == 'X' {
        let mut rest: Vec<char> = Vec::new();
        let mut i: usize = 1;
        while i < c.len()
            invariant
                1 <= i <= c.len(),
                rest@ == c@.subrange(1, i as int),
            decreases c.len() - i,
        {
            rest.push(c[i]);
            assert(c@.subrange(1, i as int).push(c@[i as int]) =~= c@.subrange(1, i + 1));
            i = i + 1;
        }
        assert(rest@ =~= c@.drop_first());
        match parse_unsigned_chars(rest.as_slice(), u32::MAX as u64) {
            Some(v) => Some(v as u32),
            None => None,
        }
    } else {
        None
    }
}

/// The first X11 display (`:<n>`) that no socket of `/tmp/.X11-unix` takes,
/// given the names in that directory; `:4096` when the first 4096 are all
/// taken.
pub fn next_free_x11_display(names: &[String]) -> (r: String)
    ensures
        r@ == seq![':'] + decimal(first_free_display_from(names@, 0)),
{
    let mut nums: Vec<Option<u32>> = Vec::new();
    let mut i: usize = 0;
    while i < names.len()
        invariant
            i <= names.len(),
            nums@.len() == i,
            forall|j: int|
                0 <= j < i ==> (#[trigger] nums@[j] matches Some(v) ==> x11_entry_number(
                    names@[j]@,
                ) == Some(v as nat)) && (nums@[j] is None ==> x11_entry_number(names@[j]@) is None),
        decreases names.len() - i,
    {
        let n: Option<u32> = x11_entry_number_of(names[i].as_str());
        nums.push(n);
        i = i + 1;
    }
    let mut idx: u32 = 0;
    let mut found: bool = false;
    while idx < 4096 && !found
        invariant
            idx <= 4096,
            nums@.len() == names@.len(),
            forall|j: int|
                0 <= j < names@.len() ==> (#[trigger] nums@[j] matches Some(v) ==> x11_entry_number(
                    names@[j]@,
                ) == Some(v as nat)) && (nums@[j] is None ==> x11_entry_number(names@[j]@) is None),
            found ==> idx < 4096 && first_free_display_from(names@, 0) == idx,
            !found ==> first_free_display_from(names@, 0) == first_free_display_from(
                names@,
                idx as nat,
            ),
        decreases 4096 - idx + (if found { 0int } else { 1int }),
    {
        let mut used: bool = false;
        let mut j: usize = 0;
        while j < nums.len()
            invariant
                j <= nums.len(),
                nums@.len() == names@.len(),
                forall|t: int|
                    0 <= t < names@.len() ==> (#[trigger] nums@[t] matches Some(v)
                        ==> x11_entry_number(names@[t]@) == Some(v as nat)) && (nums@[t] is None
                        ==> x11_entry_number(names@[t]@) is None),
                used == exists|t: int|
                    0 <= t < j && #[trigger] x11_entry_number(names@[t]@) == Some(idx as nat),
            decreases nums.len() - j,
        {
            let hit: bool = match nums[j] {
                Some(v) => v == idx,
                None => false,
            };
            proof {
                assert(nums@[j as int] == nums[j as int]);
                if hit {
                    assert(x11_entry_number(names@[j as int]@) == Some(idx as nat));
                }
                if !hit {
                    assert(x11_entry_number(names@[j as int]@) != Some(idx as nat));
                }
            }
            used = used || hit;
            j = j + 1;
        }
        if used {
            proof {
                assert(display_number_used(names@, idx as nat));
            }
            idx = idx + 1;
        } else {
            proof {
                assert(!display_number_used(names@, idx as nat));
            }
            found = true;
        }
    }
    let n: u32 = if found {
        idx
    } else {
        4096
    };
    let colon: Vec<char> = chars_of(":");
    proof {
        reveal_strlit(":");
        assert(colon@ =~= seq![':']);
    }
    let digits: Vec<char> = u64_to_decimal(n as u64);
    let all: Vec<char> = concat(colon.as_slice(), digits.as_slice());
    string_from_chars(all.as_slice())
}

// ---------------------------------------------------------------------------
// Xwayland satellite
// ---------------------------------------------------------------------------

/// When the X11 bridge (`xwayland-satellite`) runs.
#[derive(Clone, Copy, Debug, PartialEq, Eq, Structural)]
pub enum XwaylandMode {
    /// Started on the first request from a client.
    OnDemand,
    /// Started right away; failing to find it is no error.
    Auto,
    /// Started right away; failing to find it is an error.
    On,
    /// Never started.
    Off,
}

/// The mode that a `HALLEY_DEV_WL_XWAYLAND` key names.
pub open spec fn xwayland_mode_for_key(k: Seq<char>) -> Option<XwaylandMode> {
    if k == "ondemand"@ || k == "on_demand"@ {
        Some(XwaylandMode::OnDemand)
    } else if k == "auto"@ {
        Some(XwaylandMode::Auto)
    } else if k == "on"@ || k == "true"@ || k == "1"@ {
        Some(XwaylandMode::On)
    } else if k == "off"@ || k == "false"@ || k == "0"@ {
        Some(XwaylandMode::Off)
    } else {
        None
    }
}

pub open spec fn invalid_xwayland_mode_message(k: Seq<char>) -> Seq<char> {
    "invalid HALLEY_DEV_WL_XWAYLAND="@ + k + " (expected ondemand|auto|on|off)"@
}

impl XwaylandMode {
    /// Reads a `HALLEY_DEV_WL_XWAYLAND` value (`ondemand` when unset).
    pub fn from_setting(raw: &str) -> (r: Result<XwaylandMode, String>)
        ensures
            xwayland_mode_for_key(setting_key(raw@)) matches Some(m) ==> r == Ok::<
                XwaylandMode,
                String,
            >(m),
            xwayland_mode_for_key(setting_key(raw@)) is None ==> (r matches Err(msg) && msg@
                == invalid_xwayland_mode_message(setting_key(raw@))),
    {
        let k: Vec<char> = normalize_setting(raw);
        let ks: &[char] = k.as_slice();
        if is_word(ks, "ondemand") || is_word(ks, "on_demand") {
            Ok(XwaylandMode::OnDemand)
        } else if is_word(ks, "auto") {
            Ok(XwaylandMode::Auto)
        } else if is_word(ks, "on") || is_word(ks, "true") || is_word(ks, "1") {
            Ok(XwaylandMode::On)
        } else if is_word(ks, "off") || is_word(ks, "false") || is_word(ks, "0") {
            Ok(XwaylandMode::Off)
        } else {
            let head: Vec<char> = chars_of("invalid HALLEY_DEV_WL_XWAYLAND=");
            let tail: Vec<char> = chars_of(" (expected ondemand|auto|on|off)");
            let msg: Vec<char> = concat3(head.as_slice(), ks, tail.as_slice());
            Err(string_from_chars(msg.as_slice()))
        }
    }
}

/// The supervisor of the `xwayland-satellite` child process: whether a
/// child runs, when the next start may be tried (milliseconds on a
/// monotonic clock) and whether a client asked for X11.
#[derive(Clone, Debug)]
pub struct XwaylandSatellite {
    pub mode: XwaylandMode,
    pub satellite_bin: String,
    pub wayland_display: String,
    pub display: String,
    pub child_running: bool,
    pub restart_delay_ms: u64,
    pub restart_after_ms: Option<u64>,
    pub request_pending: bool,
    pub disabled: bool,
}

/// What polling the child process (`Child::try_wait`) reported.
#[derive(Clone, Copy, Debug, PartialEq, Eq, Structural)]
pub enum ChildPoll {
    StillRunning,
    Exited,
    QueryFailed,
}

/// What the supervisor asks for after a tick.
#[derive(Clone, Copy, Debug, PartialEq, Eq, Structural)]
pub enum SatelliteStep {
    Wait,
    Spawn,
}

/// The mode wants a child now.
pub open spec fn wants_child(mode: XwaylandMode, request_pending: bool) -> bool {
    match mode {
        XwaylandMode::On => true,
        XwaylandMode::OnDemand => request_pending,
        XwaylandMode::Auto => true,
        XwaylandMode::Off => false,
    }
}

/// The supervisor after it learned how its child fares: a child that
/// exited (or could not be polled) is gone, and a restart waits one delay.
pub open spec fn after_poll(s: XwaylandSatellite, now_ms: u64, poll: ChildPoll) -> XwaylandSatellite {
    if s.child_running && poll != ChildPoll::StillRunning {
        XwaylandSatellite {
            child_running: false,
            restart_after_ms: Some((now_ms + s.restart_delay_ms) as u64),
            ..s
        }
    } else {
        s
    }
}

/// A child should be started now.
pub open spec fn spawn_due(s: XwaylandSatellite, now_ms: u64) -> bool {
    &&& !s.child_running
    &&& !s.disabled
    &&& wants_child(s.mode, s.request_pending)
    &&& !(s.restart_after_ms matches Some(t) && now_ms < t)
}

/// One tick: the new state and the step.
pub open spec fn tick_spec(s: XwaylandSatellite, now_ms: u64, poll: ChildPoll) -> (
    XwaylandSatellite,
    SatelliteStep,
) {
    let p = after_poll(s, now_ms, poll);
    (p, if spawn_due(p, now_ms) {
        SatelliteStep::Spawn
    } else {
        SatelliteStep::Wait
    })
}

/// The state after a client asked for X11.
pub open spec fn request_start_spec(s: XwaylandSatellite) -> XwaylandSatellite {
    XwaylandSatellite { request_pending: true, ..s }
}

/// The state after a start was tried.
pub open spec fn spawn_finished_spec(s: XwaylandSatellite, now_ms: u64, started: bool) -> XwaylandSatellite {
    if started {
        XwaylandSatellite {
            child_running: true,
            request_pending: false,
            restart_after_ms: None,
            ..s
        }
    } else {
        XwaylandSatellite { restart_after_ms: Some((now_ms + s.restart_delay_ms) as u64), ..s }
    }
}

impl XwaylandSatellite {
    /// A client asked for X11.
    pub fn request_start(&mut self)
        ensures
            *final(self) == request_start_spec(*old(self)),
    {
        self.request_pending = true;
    }

    /// Takes in how the child fares and says whether to start one now.
    pub fn tick(&mut self, now_ms: u64, poll: ChildPoll) -> (step: SatelliteStep)
        requires
            now_ms + old(self).restart_delay_ms <= u64::MAX,
        ensures
            (*final(self), step) == tick_spec(*old(self), now_ms, poll),
            step == SatelliteStep::Spawn ==> !old(self).disabled && old(self).mode
                != XwaylandMode::Off,
            step == SatelliteStep::Spawn ==> !final(self).child_running,
            step == SatelliteStep::Spawn ==> (final(self).restart_after_ms matches Some(t) ==> t
                <= now_ms),
    {
        if self.child_running {
            match poll {
                ChildPoll::StillRunning => {},
                _ => {
                    self.child_running = false;
                    self.restart_after_ms = Some(now_ms + self.restart_delay_ms);
                },
            }
        }
        if self.child_running || self.disabled {
            return SatelliteStep::Wait;
        }
        let should_start: bool = match self.mode {
            XwaylandMode::On => true,
            XwaylandMode::OnDemand => self.request_pending,
            XwaylandMode::Auto => true,
            XwaylandMode::Off => false,
        };
        if !should_start {
            return SatelliteStep::Wait;
        }
        match self.restart_after_ms {
            Some(t) => {
                if now_ms < t {
                    return SatelliteStep::Wait;
                }
            },
            None => {},
        }
        SatelliteStep::Spawn
    }

    /// Records the outcome of a start: a started child clears the request
    /// and the restart time; a failed start waits one delay.
    pub fn spawn_finished(&mut self, now_ms: u64, started: bool)
        requires
            !started ==> now_ms + old(self).restart_delay_ms <= u64::MAX,
        ensures
            *final(self) == spawn_finished_spec(*old(self), now_ms, started),
    {
        if started {
            self.child_running = true;
            self.request_pending = false;
            self.restart_after_ms = None;
        } else {
            self.restart_after_ms = Some(now_ms + self.restart_delay_ms);
        }
    }
}

/// A request on an idle on-demand supervisor whose restart delay has run
/// out makes the next tick start the child.
pub proof fn law_request_then_tick_starts(s: XwaylandSatellite, now_ms: u64, poll: ChildPoll)
    requires
        !s.child_running,
        !s.disabled,
        s.mode != XwaylandMode::Off,
        s.restart_after_ms matches Some(t) ==> t <= now_ms,
    ensures
        tick_spec(request_start_spec(s), now_ms, poll).1 == SatelliteStep::Spawn,
{
}

/// While the started child keeps running, ticks never start another.
pub proof fn law_no_second_child(s: XwaylandSatellite, start_ms: u64, now_ms: u64)
    ensures
        tick_spec(spawn_finished_spec(s, start_ms, true), now_ms, ChildPoll::StillRunning).1
            == SatelliteStep::Wait,
{
}

/// After the child exits, no start comes before the restart delay ran out.
pub proof fn law_restart_waits_for_delay(
    s: XwaylandSatellite,
    exit_ms: u64,
    poll: ChildPoll,
    later_ms: u64,
)
    requires
        s.child_running,
        poll != ChildPoll::StillRunning,
        exit_ms + s.restart_delay_ms <= u64::MAX,
        later_ms < exit_ms + s.restart_delay_ms,
    ensures
        tick_spec(s, exit_ms, poll).1 == SatelliteStep::Wait || s.restart_delay_ms == 0,
        tick_spec(tick_spec(s, exit_ms, poll).0, later_ms, ChildPoll::StillRunning).1
            == SatelliteStep::Wait,
{
}

/// A supervisor in mode `Off`, or a disabled one, never starts a child.
pub proof fn law_off_never_starts(s: XwaylandSatellite, now_ms: u64, poll: ChildPoll)
    requires
        s.mode == XwaylandMode::Off || s.disabled,
    ensures
        tick_spec(s, now_ms, poll).1 == SatelliteStep::Wait,
        tick_spec(request_start_spec(s), now_ms, poll).1 == SatelliteStep::Wait,
{
}

/// A setting given and not blank.
pub open spec fn given(o: Option<Seq<char>>) -> bool {
    o matches Some(v) && !is_blank(v)
}

fn is_given(o: Option<&str>) -> (r: bool)
    ensures
        r == given(opt_str_view(o)),
{
    match o {
        Some(v) => {
            let c: Vec<char> = chars_of(v);
            let t: Vec<char> = trim(c.as_slice());
            t.len() > 0
        },
        None => false,
    }
}

/// The program to run: `HALLEY_DEV_WL_XWAYLAND_PATH` when given,
/// `xwayland-satellite` otherwise.
pub open spec fn satellite_bin_spec(setting: Option<Seq<char>>) -> Seq<char> {
    if given(setting) {
        setting->0
    } else {
        "xwayland-satellite"@
    }
}

pub fn satellite_bin(setting: Option<&str>) -> (r: String)
    ensures
        r@ == satellite_bin_spec(opt_str_view(setting)),
{
    if is_given(setting) {
        let v: &str = setting.unwrap();
        let c: Vec<char> = chars_of(v);
        string_from_chars(c.as_slice())
    } else {
        let c: Vec<char> = chars_of("xwayland-satellite");
        string_from_chars(c.as_slice())
    }
}

/// Restart delay: `HALLEY_DEV_WL_XWAYLAND_RESTART_MS` read as a number
/// (1500 when unset or unreadable), at least 50.
pub open spec fn restart_delay_spec(setting: Option<Seq<char>>) -> nat {
    let v: nat = match setting {
        Some(t) => match parse_unsigned(trim_ws(t), u64::MAX as nat) {
            Some(n) => n,
            None => 1500,
        },
        None => 1500,
    };
    if v < 50 {
        50
    } else {
        v
    }
}

pub fn restart_delay_ms(setting: Option<&str>) -> (r: u64)
    ensures
        r as nat == restart_delay_spec(opt_str_view(setting)),
{
    let v: u64 = match setting {
        Some(t) => {
            let c: Vec<char> = chars_of(t);
            let tr: Vec<char> = trim(c.as_slice());
            match parse_unsigned_chars(tr.as_slice(), u64::MAX) {
                Some(n) => n,
                None => 1500,
            }
        },
        None => 1500,
    };
    if v < 50 {
        50
    } else {
        v
    }
}

/// The X11 display to serve: `HALLEY_DEV_WL_XWAYLAND_DISPLAY` when given,
/// the first free one otherwise.
pub open spec fn satellite_display_spec(setting: Option<Seq<char>>, x11_names: Seq<String>) -> Seq<
    char,
> {
    if given(setting) {
        setting->0
    } else {
        seq![':'] + decimal(first_free_display_from(x11_names, 0))
    }
}

/// How probing the program (`<bin> --version`) went.
#[derive(Clone, Debug)]
pub enum SatelliteProbe {
    Found,
    NotFound,
    /// Another failure, with its message.
    Failed(String),
}

/// A supervisor that never starts anything.
pub open spec fn disabled_satellite(
    s: XwaylandSatellite,
    mode: XwaylandMode,
    bin: Seq<char>,
    wayland_display: Seq<char>,
) -> bool {
    &&& s.mode == mode
    &&& s.satellite_bin@ == bin
    &&& s.wayland_display@ == wayland_display
    &&& s.display@ == Seq::<char>::empty()
    &&& !s.child_running
    &&& s.restart_delay_ms == 1500
    &&& s.restart_after_ms is None
    &&& !s.request_pending
    &&& s.disabled
}

fn disabled_with(mode: XwaylandMode, bin: String, wayland_display: &str) -> (s: XwaylandSatellite)
    ensures
        disabled_satellite(s, mode, bin@, wayland_display@),
{
    let wd: Vec<char> = chars_of(wayland_display);
    XwaylandSatellite {
        mode,
        satellite_bin: bin,
        wayland_display: string_from_chars(wd.as_slice()),
        display: String::new(),
        child_running: false,
        restart_delay_ms: 1500,
        restart_after_ms: None,
        request_pending: false,
        disabled: true,
    }
}

/// Sets up the X11 bridge supervisor, given the mode, the settings, how
/// probing the program went and the names in `/tmp/.X11-unix`. In mode
/// `Off`, or when the program cannot be probed, the supervisor is
/// disabled; in mode `On` a program that cannot be probed is an error.
/// An enabled supervisor has a start pending at once unless it runs on
/// demand.
pub fn configure_xwayland_satellite(
    mode: XwaylandMode,
    wayland_display: &str,
    bin_setting: Option<&str>,
    probe: SatelliteProbe,
    display_setting: Option<&str>,
    x11_names: &[String],
    restart_setting: Option<&str>,
) -> (r: Result<XwaylandSatellite, String>)
    ensures
        mode == XwaylandMode::Off ==> (r matches Ok(s) && disabled_satellite(
            s,
            mode,
            Seq::<char>::empty(),
            wayland_display@,
        )),
        mode != XwaylandMode::Off && probe is NotFound ==> if mode == XwaylandMode::On {
            r matches Err(m)
                && m@ == "HALLEY_DEV_WL_XWAYLAND=on but `xwayland-satellite` was not found in PATH"@
        } else {
            r matches Ok(s) && disabled_satellite(
                s,
                mode,
                satellite_bin_spec(opt_str_view(bin_setting)),
                wayland_display@,
            )
        },
        probe matches SatelliteProbe::Failed(e) ==> mode != XwaylandMode::Off ==> if mode
            == XwaylandMode::On {
            r matches Err(m) && m@ == "failed to probe xwayland-satellite: "@ + e@
        } else {
            r matches Ok(s) && disabled_satellite(
                s,
                mode,
                satellite_bin_spec(opt_str_view(bin_setting)),
                wayland_display@,
            )
        },
        mode != XwaylandMode::Off && probe is Found ==> (r matches Ok(s) && {
            &&& s.mode == mode
            &&& s.satellite_bin@ == satellite_bin_spec(opt_str_view(bin_setting))
            &&& s.wayland_display@ == wayland_display@
            &&& s.display@ == satellite_display_spec(opt_str_view(display_setting), x11_names@)
            &&& !s.child_running
            &&& s.restart_delay_ms == restart_delay_spec(opt_str_view(restart_setting))
            &&& s.restart_after_ms is None
            &&& s.request_pending == (mode == XwaylandMode::On || mode == XwaylandMode::Auto)
            &&& !s.disabled
        }),
{
    if mode == XwaylandMode::Off {
        return Ok(disabled_with(mode, String::new(), wayland_display));
    }
    let bin: String = satellite_bin(bin_setting);
    match probe {
        SatelliteProbe::Found => {},
        SatelliteProbe::NotFound => {
            if mode == XwaylandMode::On {
                let c: Vec<char> = chars_of(
                    "HALLEY_DEV_WL_XWAYLAND=on but `xwayland-satellite` was not found in PATH",
                );
                return Err(string_from_chars(c.as_slice()));
            }
            return Ok(disabled_with(mode, bin, wayland_display));
        },
        SatelliteProbe::Failed(e) => {
            if mode == XwaylandMode::On {
                let head: Vec<char> = chars_of("failed to probe xwayland-satellite: ");
                let ec: Vec<char> = chars_of(e.as_str());
                let c: Vec<char> = concat(head.as_slice(), ec.as_slice());
                return Err(string_from_chars(c.as_slice()));
            }
            return Ok(disabled_with(mode, bin, wayland_display));
        },
    }
    let display: String = if is_given(display_setting) {
        let c: Vec<char> = chars_of(display_setting.unwrap());
        string_from_chars(c.as_slice())
    } else {
        next_free_x11_display(x11_names)
    };
    let delay: u64 = restart_delay_ms(restart_setting);
    let wd: Vec<char> = chars_of(wayland_display);
    let pending: bool = match mode {
        XwaylandMode::On => true,
        XwaylandMode::Auto => true,
        _ => false,
    };
    Ok(
        XwaylandSatellite {
            mode,
            satellite_bin: bin,
            wayland_display: string_from_chars(wd.as_slice()),
            display,
            child_running: false,
            restart_delay_ms: delay,
            restart_after_ms: None,
            request_pending: pending,
            disabled: false,
        },
    )
}

// ---------------------------------------------------------------------------
// Host display and autostart
// ---------------------------------------------------------------------------

/// What to do about the host display before a nested session starts.
#[derive(Clone, Debug)]
pub enum HostDisplayPlan {
    /// `WAYLAND_DISPLAY` or `DISPLAY` is already set.
    KeepEnvironment,
    /// Point `WAYLAND_DISPLAY` at a socket found in the runtime directory.
    SetWaylandDisplay(String),
    /// Point `DISPLAY` at an X11 display found in `/tmp/.X11-unix`.
    SetDisplay(String),
    /// No host display; `warn_ignored_backend` when a host backend was asked
    /// for on a terminal, which is not launched.
    NoHost { warn_ignored_backend: bool },
}

pub open spec fn host_display_plan_spec(
    p: HostDisplayPlan,
    wayland_display_set: bool,
    display_set: bool,
    wayland_socket: Option<Seq<char>>,
    x11_display: Option<Seq<char>>,
    stdin_is_terminal: bool,
    host_backend: Option<Seq<char>>,
) -> bool {
    if wayland_display_set || display_set {
        p is KeepEnvironment
    } else if wayland_socket is Some {
        p matches HostDisplayPlan::SetWaylandDisplay(w) && w@ == wayland_socket->0
    } else if x11_display is Some {
        p matches HostDisplayPlan::SetDisplay(d) && d@ == x11_display->0
    } else {
        p matches HostDisplayPlan::NoHost { warn_ignored_backend } && warn_ignored_backend == (
        stdin_is_terminal && host_backend is Some && host_backend->0 != "none"@)
    }
}

/// Decides how a nested session finds its host display: an existing
/// setting wins, then a Wayland socket, then an X11 display.
pub fn host_display_plan(
    wayland_display_set: bool,
    display_set: bool,
    wayland_socket: Option<String>,
    x11_display: Option<String>,
    stdin_is_terminal: bool,
    host_backend: Option<&str>,
) -> (r: HostDisplayPlan)
    ensures
        host_display_plan_spec(
            r,
            wayland_display_set,
            display_set,
            match wayland_socket {
                Some(w) => Some(w@),
                None => None,
            },
            match x11_display {
                Some(d) => Some(d@),
                None => None,
            },
            stdin_is_terminal,
            opt_str_view(host_backend),
        ),
{
    if wayland_display_set || display_set {
        return HostDisplayPlan::KeepEnvironment;
    }
    if let Some(w) = wayland_socket {
        return HostDisplayPlan::SetWaylandDisplay(w);
    }
    if let Some(d) = x11_display {
        return HostDisplayPlan::SetDisplay(d);
    }
    let warn: bool = stdin_is_terminal && match host_backend {
        Some(b) => !is_word(chars_of(b).as_slice(), "none"),
        None => false,
    };
    HostDisplayPlan::NoHost { warn_ignored_backend: warn }
}

/// The autostart command lines to launch, in order: each trimmed, blank
/// ones skipped.
pub open spec fn autostart_lines_spec(commands: Seq<String>) -> Seq<Seq<char>>
    decreases commands.len(),
{
    if commands.len() == 0 {
        Seq::empty()
    } else {
        let rest = autostart_lines_spec(commands.drop_last());
        let t = trim_ws(commands.last()@);
        if t.len() == 0 {
            rest
        } else {
            rest.push(t)
        }
    }
}

pub fn autostart_command_lines(commands: &[String]) -> (r: Vec<String>)
    ensures
        r@.map_values(|c: String| c@) == autostart_lines_spec(commands@),
{
    let mut out: Vec<String> = Vec::new();
    let mut i: usize = 0;
    while i < commands.len()
        invariant
            i <= commands.len(),
            out@.map_values(|c: String| c@) == autostart_lines_spec(commands@.take(i as int)),
        decreases commands.len() - i,
    {
        let c: Vec<char> = chars_of(commands[i].as_str());
        let t: Vec<char> = trim(c.as_slice());
        proof {
            assert(commands@.take(i + 1).drop_last() =~= commands@.take(i as int));
            assert(commands@.take(i + 1).last() == commands@[i as int]);
        }
        if t.len() > 0 {
            let line: String = string_from_chars(t.as_slice());
            let ghost before = out@;
            out.push(line);
            proof {
                assert(out@.map_values(|c: String| c@) =~= before.map_values(|c: String| c@).push(
                    t@,
                ));
            }
        }
        i = i + 1;
    }
    proof {
        assert(commands@.take(commands.len() as int) =~= commands@);
    }
    out
}

} // verus!
