use vstd::prelude::*;

use crate::strings::{
    chars_eq, chars_of, concat, concat3, decimal, join_spec, join_strings, string_from_chars,
    u64_to_decimal,
};

verus! {

// ---------------------------------------------------------------------------
// Which DRM cards to try
// ---------------------------------------------------------------------------

/// `list` with `x` appended unless it holds it already.
pub open spec fn push_unique_spec(list: Seq<Seq<char>>, x: Seq<char>) -> Seq<Seq<char>> {
    if list.contains(x) {
        list
    } else {
        list.push(x)
    }
}

/// The cards of `all`, in order, each once, after those of `start`.
pub open spec fn append_unique_spec(start: Seq<Seq<char>>, all: Seq<Seq<char>>) -> Seq<Seq<char>>
    decreases all.len(),
{
    if all.len() == 0 {
        start
    } else {
        push_unique_spec(append_unique_spec(start, all.drop_last()), all.last())
    }
}

/// The cards to probe: the seat's primary GPU first, then every other GPU
/// of the seat that is not in the list yet.
pub open spec fn card_candidates_spec(primary: Option<Seq<char>>, all: Seq<Seq<char>>) -> Seq<
    Seq<char>,
> {
    let start = match primary {
        Some(p) => seq![p],
        None => Seq::empty(),
    };
    append_unique_spec(start, all)
}

pub open spec fn strings_view(v: Seq<String>) -> Seq<Seq<char>> {
    v.map_values(|s: String| s@)
}

fn contains_string(list: &Vec<String>, x: &String) -> (r: bool)
    ensures
        r == strings_view(list@).contains(x@),
{
    let xc: Vec<char> = chars_of(x.as_str());
    let mut i: usize = 0;
    while i < list.len()
        invariant
            i <= list.len(),
            xc@ == x@,
            forall|j: int| 0 <= j < i ==> list@[j]@ != x@,
        decreases list.len() - i,
    {
        let lc: Vec<char> = chars_of(list[i].as_str());
        if chars_eq(lc.as_slice(), xc.as_slice()) {
            proof {
                assert(strings_view(list@)[i as int] == x@);
            }
            return true;
        }
        i = i + 1;
    }
    proof {
        if strings_view(list@).contains(x@) {
            let k = choose|k: int| 0 <= k < strings_view(list@).len() && strings_view(list@)[k]
                == x@;
            assert(list@[k]@ == x@);
        }
    }
    false
}

pub fn drm_card_candidates(primary: Option<String>, all: &[String]) -> (r: Vec<String>)
    ensures
        strings_view(r@) == card_candidates_spec(
            match primary {
                Some(p) => Some(p@),
                None => None,
            },
            strings_view(all@),
        ),
{
    let mut out: Vec<String> = Vec::new();
    match primary {
        Some(p) => {
            out.push(p);
        },
        None => {},
    }
    let ghost start = strings_view(out@);
    proof {
        assert(start =~= match primary {
            Some(p) => seq![p@],
            None => Seq::<Seq<char>>::empty(),
        });
    }
    let mut i: usize = 0;
    while i < all.len()
        invariant
            i <= all.len(),
            strings_view(out@) == append_unique_spec(start, strings_view(all@).take(i as int)),
        decreases all.len() - i,
    {
        let card: String = all[i].clone();
        proof {
            assert(strings_view(all@).take(i + 1).drop_last() =~= strings_view(all@).take(
                i as int,
            ));
        }
        if !contains_string(&out, &card) {
            let ghost before = out@;
            out.push(card);
            proof {
                assert(strings_view(out@) =~= strings_view(before).push(card@));
            }
        }
        i = i + 1;
    }
    proof {
        assert(strings_view(all@).take(all.len() as int) =~= strings_view(all@));
    }
    out
}

/// Why no card could be set up: every candidate was tried and failed;
/// the last failure is quoted.
pub open spec fn probe_failure_message_spec(
    seat: Seq<char>,
    tried: Seq<Seq<char>>,
    last_err: Option<Seq<char>>,
) -> Seq<char> {
    "failed to initialize tty drm device for seat="@ + seat + " (tried: "@ + join_spec(
        tried,
        ", "@,
    ) + "): "@ + match last_err {
        Some(e) => e,
        None => "unknown error"@,
    }
}

pub fn drm_probe_failure_message(seat: &str, tried: &[String], last_err: Option<String>) -> (r:
    String)
    ensures
        r@ == probe_failure_message_spec(
            seat@,
            strings_view(tried@),
            match last_err {
                Some(e) => Some(e@),
                None => None,
            },
        ),
{
    let a: Vec<char> = chars_of("failed to initialize tty drm device for seat=");
    let b: Vec<char> = chars_of(seat);
    let c: Vec<char> = chars_of(" (tried: ");
    let d: Vec<char> = join_strings(tried, ", ");
    let e: Vec<char> = chars_of("): ");
    let f: Vec<char> = match &last_err {
        Some(m) => chars_of(m.as_str()),
        None => chars_of("unknown error"),
    };
    let ab: Vec<char> = concat3(a.as_slice(), b.as_slice(), c.as_slice());
    let all: Vec<char> = concat(concat3(ab.as_slice(), d.as_slice(), e.as_slice()).as_slice(), f.as_slice());
    proof {
        assert(strings_view(tried@) == tried@.map_values(|p: String| p@));
    }
    string_from_chars(all.as_slice())
}

/// The message when a seat has no DRM card at all.
pub fn no_drm_card_message(seat: &str) -> (r: String)
    ensures
        r@ == "no drm card devices found for seat="@ + seat@,
{
    let a: Vec<char> = chars_of("no drm card devices found for seat=");
    let b: Vec<char> = chars_of(seat);
    string_from_chars(concat(a.as_slice(), b.as_slice()).as_slice())
}

// ---------------------------------------------------------------------------
// Which connector, mode and CRTC to scan out on
// ---------------------------------------------------------------------------

/// A connected connector: its name (`HDMI-A-1`, ...) and its modes' sizes,
/// in the order the driver lists them.
#[derive(Clone, Debug)]
pub struct ConnectorModes {
    pub name: String,
    pub modes: Vec<(u16, u16)>,
}

/// An output that the configuration asks for.
#[derive(Clone, Debug)]
pub struct ViewportRequest {
    pub connector: String,
    pub width: u32,
    pub height: u32,
}

/// The chosen connector and mode, as indexes.
#[derive(Clone, Copy, Debug, PartialEq, Eq, Structural)]
pub struct ScanoutChoice {
    pub connector: usize,
    pub mode: usize,
}

/// First connector from `i` on named `name`.
pub open spec fn first_connector_from(conns: Seq<ConnectorModes>, name: Seq<char>, i: int) -> Option<
    int,
>
    decreases conns.len() - i,
{
    if i < 0 || i >= conns.len() {
        None
    } else if conns[i].name@ == name {
        Some(i)
    } else {
        first_connector_from(conns, name, i + 1)
    }
}

/// First mode from `i` on of size `size`.
pub open spec fn first_mode_from(modes: Seq<(u16, u16)>, size: (u16, u16), i: int) -> Option<int>
    decreases modes.len() - i,
{
    if i < 0 || i >= modes.len() {
        None
    } else if modes[i] == size {
        Some(i)
    } else {
        first_mode_from(modes, size, i + 1)
    }
}

/// First request from `i` on whose connector is connected.
pub open spec fn first_served_request_from(
    conns: Seq<ConnectorModes>,
    reqs: Seq<ViewportRequest>,
    i: int,
) -> Option<int>
    decreases reqs.len() - i,
{
    if i < 0 || i >= reqs.len() {
        None
    } else if first_connector_from(conns, reqs[i].connector@, 0) is Some {
        Some(i)
    } else {
        first_served_request_from(conns, reqs, i + 1)
    }
}

/// The mode size a request asks for, cut to the 16 bits a mode holds.
pub open spec fn requested_size(req: ViewportRequest) -> (u16, u16) {
    (req.width as u16, req.height as u16)
}

pub open spec fn scanout_spec(conns: Seq<ConnectorModes>, reqs: Seq<ViewportRequest>) -> Result<
    ScanoutChoice,
    Seq<char>,
> {
    if conns.len() == 0 {
        Err("no connected drm connector with a usable mode found"@)
    } else if reqs.len() == 0 {
        if conns[0].modes@.len() == 0 {
            Err("connector "@ + conns[0].name@ + " has no modes"@)
        } else {
            Ok(ScanoutChoice { connector: 0, mode: 0 })
        }
    } else {
        match first_served_request_from(conns, reqs, 0) {
            None => Err(
                "none of configured viewport connectors are connected: "@ + join_spec(
                    reqs.map_values(|r: ViewportRequest| r.connector@),
                    ", "@,
                ),
            ),
            Some(k) => {
                let c = first_connector_from(conns, reqs[k].connector@, 0)->0;
                match first_mode_from(conns[c].modes@, requested_size(reqs[k]), 0) {
                    Some(m) => Ok(ScanoutChoice { connector: c as usize, mode: m as usize }),
                    None => Err(
                        "configured viewport "@ + reqs[k].connector@ + " requests "@ + decimal(
                            reqs[k].width as nat,
                        ) + "x"@ + decimal(reqs[k].height as nat)
                            + ", but no such mode is available"@,
                    ),
                }
            },
        }
    }
}

proof fn lemma_first_connector_from(conns: Seq<ConnectorModes>, name: Seq<char>, i: int)
    requires
        0 <= i,
    ensures
        first_connector_from(conns, name, i) matches Some(c) ==> i <= c < conns.len()
            && conns[c].name@ == name,
    decreases conns.len() - i,
{
    if i < conns.len() && conns[i].name@ != name {
        lemma_first_connector_from(conns, name, i + 1);
    }
}

proof fn lemma_connector_search(conns: Seq<ConnectorModes>, name: Seq<char>, i: int)
    requires
        0 <= i,
    ensures
        first_connector_from(conns, name, i) matches Some(c) ==> forall|j: int|
            i <= j < c ==> (#[trigger] conns[j]).name@ != name,
        first_connector_from(conns, name, i) is None ==> forall|j: int|
            i <= j < conns.len() ==> (#[trigger] conns[j]).name@ != name,
    decreases conns.len() - i,
{
    if i < conns.len() && conns[i].name@ != name {
        lemma_connector_search(conns, name, i + 1);
    }
}

proof fn lemma_request_search(conns: Seq<ConnectorModes>, reqs: Seq<ViewportRequest>, i: int)
    requires
        0 <= i,
    ensures
        first_served_request_from(conns, reqs, i) matches Some(k) ==> i <= k < reqs.len()
            && first_connector_from(conns, reqs[k].connector@, 0) is Some && forall|j: int|
            i <= j < k ==> first_connector_from(conns, (#[trigger] reqs[j]).connector@, 0) is None,
        first_served_request_from(conns, reqs, i) is None ==> forall|j: int|
            i <= j < reqs.len() ==> first_connector_from(conns, (#[trigger] reqs[j]).connector@, 0)
                is None,
    decreases reqs.len() - i,
{
    if i < reqs.len() && first_connector_from(conns, reqs[i].connector@, 0) is None {
        lemma_request_search(conns, reqs, i + 1);
    }
}

/// With outputs configured, the chosen connector is the first connected
/// one named by the earliest configured output whose connector is
/// connected (every output configured before it names a connector that is
/// not connected), in a mode of the size that output asks for. When no
/// configured output names a connected connector, nothing is chosen.
pub proof fn law_scanout_follows_first_connected_request(
    conns: Seq<ConnectorModes>,
    reqs: Seq<ViewportRequest>,
)
    requires
        reqs.len() > 0,
        conns.len() <= usize::MAX,
        forall|i: int| 0 <= i < conns.len() ==> (#[trigger] conns[i]).modes@.len() <= usize::MAX,
    ensures
        scanout_spec(conns, reqs) matches Ok(c) ==> exists|k: int|
            0 <= k < reqs.len() && c.connector < conns.len() && conns[c.connector as int].name@
                == (#[trigger] reqs[k]).connector@ && (forall|j: int|
                0 <= j < c.connector ==> (#[trigger] conns[j]).name@ != reqs[k].connector@)
                && c.mode < conns[c.connector as int].modes@.len()
                && conns[c.connector as int].modes@[c.mode as int] == requested_size(reqs[k])
                && (forall|j: int, i: int|
                0 <= j < k && 0 <= i < conns.len() ==> (#[trigger] conns[i]).name@ != (
                #[trigger] reqs[j]).connector@),
        (forall|j: int, i: int|
            0 <= j < reqs.len() && 0 <= i < conns.len() ==> (#[trigger] conns[i]).name@ != (
            #[trigger] reqs[j]).connector@) ==> scanout_spec(conns, reqs) is Err,
{
    lemma_request_search(conns, reqs, 0);
    if conns.len() > 0 {
        match first_served_request_from(conns, reqs, 0) {
            Some(k) => {
                let name = reqs[k].connector@;
                lemma_first_connector_from(conns, name, 0);
                lemma_connector_search(conns, name, 0);
                let c = first_connector_from(conns, name, 0)->0;
                lemma_first_mode_from(conns[c].modes@, requested_size(reqs[k]), 0);
                assert forall|j: int, i: int|
                    0 <= j < k && 0 <= i < conns.len() implies (#[trigger] conns[i]).name@ != (
                    #[trigger] reqs[j]).connector@ by {
                    assert(first_connector_from(conns, reqs[j].connector@, 0) is None);
                    lemma_connector_search(conns, reqs[j].connector@, 0);
                }
                if (forall|j: int, i: int|
                    0 <= j < reqs.len() && 0 <= i < conns.len() ==> (#[trigger] conns[i]).name@
                        != (#[trigger] reqs[j]).connector@) {
                    assert(conns[c].name@ != reqs[k].connector@);
                }
                match first_mode_from(conns[c].modes@, requested_size(reqs[k]), 0) {
                    Some(m) => {
                        assert(conns[c].modes@.len() <= usize::MAX);
                        let ch = ScanoutChoice { connector: c as usize, mode: m as usize };
                        assert(scanout_spec(conns, reqs) == Ok::<ScanoutChoice, Seq<char>>(ch));
                        assert(ch.connector as int == c && ch.mode as int == m);
                        assert(conns[c].name@ == reqs[k].connector@);
                        assert(conns[c].modes@[m] == requested_size(reqs[k]));
                        assert(forall|j: int| 0 <= j < c ==> (#[trigger] conns[j]).name@ != reqs[k].connector@);
                    },
                    None => {},
                }
            },
            None => {},
        }
    }
}

/// With no connector connected nothing is chosen; without configured
/// outputs, the first connected connector is chosen in its first mode, and
/// nothing when it has no mode.
pub proof fn law_scanout_without_configuration(
    conns: Seq<ConnectorModes>,
    reqs: Seq<ViewportRequest>,
)
    ensures
        conns.len() == 0 ==> scanout_spec(conns, reqs) is Err,
        reqs.len() == 0 && conns.len() > 0 && conns[0].modes@.len() > 0 ==> scanout_spec(conns, reqs)
            == Ok::<ScanoutChoice, Seq<char>>(ScanoutChoice { connector: 0, mode: 0 }),
        reqs.len() == 0 && conns.len() > 0 && conns[0].modes@.len() == 0 ==> scanout_spec(
            conns,
            reqs,
        ) is Err,
{
}

proof fn lemma_first_mode_from(modes: Seq<(u16, u16)>, size: (u16, u16), i: int)
    requires
        0 <= i,
    ensures
        first_mode_from(modes, size, i) matches Some(m) ==> i <= m < modes.len() && modes[m]
            == size,
    decreases modes.len() - i,
{
    if i < modes.len() && modes[i] != size {
        lemma_first_mode_from(modes, size, i + 1);
    }
}

fn find_connector(conns: &[ConnectorModes], name: &String) -> (r: Option<usize>)
    ensures
        match first_connector_from(conns@, name@, 0) {
            Some(c) => r == Some(c as usize),
            None => r is None,
        },
        r matches Some(c) ==> c < conns@.len() && first_connector_from(conns@, name@, 0) == Some(
            c as int,
        ),
{
    proof {
        lemma_first_connector_from(conns@, name@, 0);
    }
    let mut i: usize = 0;
    while i < conns.len()
        invariant
            i <= conns.len(),
            first_connector_from(conns@, name@, 0) == first_connector_from(conns@, name@, i as int),
        decreases conns.len() - i,
    {
        if conns[i].name == *name {
            return Some(i);
        }
        i = i + 1;
    }
    None
}

fn find_mode(modes: &Vec<(u16, u16)>, size: (u16, u16)) -> (r: Option<usize>)
    ensures
        match first_mode_from(modes@, size, 0) {
            Some(m) => r == Some(m as usize),
            None => r is None,
        },
        r matches Some(m) ==> m < modes@.len() && first_mode_from(modes@, size, 0) == Some(
            m as int,
        ),
{
    proof {
        lemma_first_mode_from(modes@, size, 0);
    }
    let mut i: usize = 0;
    while i < modes.len()
        invariant
            i <= modes.len(),
            first_mode_from(modes@, size, 0) == first_mode_from(modes@, size, i as int),
        decreases modes.len() - i,
    {
        let m: (u16, u16) = modes[i];
        if m.0 == size.0 && m.1 == size.1 {
            return Some(i);
        }
        i = i + 1;
    }
    None
}

/// Chooses the connector and mode to scan out on. Without configured
/// outputs, the first connected connector in its first mode; otherwise the
/// first configured output whose connector is connected, in the mode of the
/// configured size.
pub fn select_tty_scanout(connected: &[ConnectorModes], configured: &[ViewportRequest]) -> (r: Result<
    ScanoutChoice,
    String,
>)
    ensures
        match scanout_spec(connected@, configured@) {
            Ok(c) => r == Ok::<ScanoutChoice, String>(c),
            Err(m) => r matches Err(e) && e@ == m,
        },
{
    if connected.len() == 0 {
        let c: Vec<char> = chars_of("no connected drm connector with a usable mode found");
        return Err(string_from_chars(c.as_slice()));
    }
    if configured.len() == 0 {
        if connected[0].modes.len() == 0 {
            let a: Vec<char> = chars_of("connector ");
            let b: Vec<char> = chars_of(connected[0].name.as_str());
            let c: Vec<char> = chars_of(" has no modes");
            return Err(string_from_chars(concat3(a.as_slice(), b.as_slice(), c.as_slice()).as_slice()));
        }
        return Ok(ScanoutChoice { connector: 0, mode: 0 });
    }
    let mut k: usize = 0;
    while k < configured.len()
        invariant
            k <= configured.len(),
            connected@.len() > 0,
            configured@.len() > 0,
            first_served_request_from(connected@, configured@, 0) == first_served_request_from(
                connected@,
                configured@,
                k as int,
            ),
        decreases configured.len() - k,
    {
        let wanted: &ViewportRequest = &configured[k];
        match find_connector(connected, &wanted.connector) {
            Some(c) => {
                let size: (u16, u16) = (wanted.width as u16, wanted.height as u16);
                proof {
                    assert(*wanted == configured@[k as int]);
                    assert(size == requested_size(configured@[k as int]));
                    assert(first_served_request_from(connected@, configured@, k as int) == Some(
                        k as int,
                    ));
                    assert(first_connector_from(connected@, configured@[k as int].connector@, 0)
                        == Some(c as int));
                }
                match find_mode(&connected[c].modes, size) {
                    Some(m) => {
                        proof {
                            assert(first_served_request_from(connected@, configured@, k as int)
                                == Some(k as int));
                        }
                        return Ok(ScanoutChoice { connector: c, mode: m });
                    },
                    None => {
                        let a: Vec<char> = chars_of("configured viewport ");
                        let b: Vec<char> = chars_of(wanted.connector.as_str());
                        let c1: Vec<char> = chars_of(" requests ");
                        let w: Vec<char> = u64_to_decimal(wanted.width as u64);
                        let x: Vec<char> = chars_of("x");
                        let h: Vec<char> = u64_to_decimal(wanted.height as u64);
                        let e: Vec<char> = chars_of(", but no such mode is available");
                        let p1: Vec<char> = concat3(a.as_slice(), b.as_slice(), c1.as_slice());
                        let p2: Vec<char> = concat3(w.as_slice(), x.as_slice(), h.as_slice());
                        let p3: Vec<char> = concat3(p1.as_slice(), p2.as_slice(), e.as_slice());
                        proof {
                            assert(p3@ =~= "configured viewport "@ + wanted.connector@
                                + " requests "@ + decimal(wanted.width as nat) + "x"@ + decimal(
                                wanted.height as nat,
                            ) + ", but no such mode is available"@);
                        }
                        return Err(string_from_chars(p3.as_slice()));
                    },
                }
            },
            None => {},
        }
        k = k + 1;
    }
    let mut names: Vec<String> = Vec::new();
    let mut j: usize = 0;
    while j < configured.len()
        invariant
            j <= configured.len(),
            names@.map_values(|p: String| p@) == configured@.take(j as int).map_values(
                |r: ViewportRequest| r.connector@,
            ),
        decreases configured.len() - j,
    {
        let ghost before = names@;
        let name: String = configured[j].connector.clone();
        names.push(name);
        proof {
            assert(configured@.take(j + 1).map_values(|r: ViewportRequest| r.connector@)
                =~= configured@.take(j as int).map_values(|r: ViewportRequest| r.connector@).push(
                configured@[j as int].connector@,
            ));
            assert(names@.map_values(|p: String| p@) =~= before.map_values(|p: String| p@).push(
                name@,
            ));
        }
        j = j + 1;
    }
    proof {
        assert(configured@.take(configured.len() as int) =~= configured@);
    }
    let a: Vec<char> = chars_of("none of configured viewport connectors are connected: ");
    let b: Vec<char> = join_strings(names.as_slice(), ", ");
    Err(string_from_chars(concat(a.as_slice(), b.as_slice()).as_slice()))
}

/// The encoder a connector drives: its current one, else its first.
pub fn connector_encoder(current: Option<u32>, encoders: &[u32]) -> (r: Option<u32>)
    ensures
        current is Some ==> r == current,
        current is None ==> r == (if encoders@.len() > 0 {
            Some(encoders@[0])
        } else {
            None
        }),
{
    match current {
        Some(e) => Some(e),
        None => if encoders.len() > 0 {
            Some(encoders[0])
        } else {
            None
        },
    }
}

/// What the connector's encoder reports: the CRTC it is bound to, and the
/// CRTCs it could drive (in the device's order).
#[derive(Clone, Debug)]
pub struct EncoderState {
    pub crtc: Option<u32>,
    pub possible_crtcs: Vec<u32>,
}

pub open spec fn crtc_spec(encoder: Option<EncoderState>, all_crtcs: Seq<u32>) -> Option<u32> {
    let from_encoder: Option<u32> = match encoder {
        Some(e) => match e.crtc {
            Some(c) => Some(c),
            None => if e.possible_crtcs@.len() > 0 {
                Some(e.possible_crtcs@[0])
            } else {
                None
            },
        },
        None => None,
    };
    match from_encoder {
        Some(c) => Some(c),
        None => if all_crtcs.len() > 0 {
            Some(all_crtcs[0])
        } else {
            None
        },
    }
}

/// The CRTC to scan out with: the one the encoder is bound to, else the
/// first it could drive, else the device's first. `encoder` is `None` when
/// the connector has no encoder or it could not be queried.
pub fn choose_crtc(encoder: Option<EncoderState>, all_crtcs: &[u32]) -> (r: Result<u32, String>)
    ensures
        match crtc_spec(encoder, all_crtcs@) {
            Some(c) => r == Ok::<u32, String>(c),
            None => r matches Err(m) && m@ == "failed to find a usable CRTC for selected connector"@,
        },
{
    let from_encoder: Option<u32> = match &encoder {
        Some(e) => match e.crtc {
            Some(c) => Some(c),
            None => if e.possible_crtcs.len() > 0 {
                Some(e.possible_crtcs[0])
            } else {
                None
            },
        },
        None => None,
    };
    match from_encoder {
        Some(c) => Ok(c),
        None => if all_crtcs.len() > 0 {
            Ok(all_crtcs[0])
        } else {
            let m: Vec<char> = chars_of("failed to find a usable CRTC for selected connector");
            Err(string_from_chars(m.as_slice()))
        },
    }
}

/// The connected connectors to switch off: with configured outputs, every
/// one but the selected one (the backend drives a single output); none
/// otherwise.
pub fn connectors_to_disable(connected: &[u32], selected: u32, any_configured: bool) -> (r: Vec<
    u32,
>)
    ensures
        !any_configured ==> r@.len() == 0,
        any_configured ==> r@ == connected@.filter(|c: u32| c != selected),
{
    let mut out: Vec<u32> = Vec::new();
    if !any_configured {
        return out;
    }
    let mut i: usize = 0;
    while i < connected.len()
        invariant
            i <= connected.len(),
            out@ == connected@.take(i as int).filter(|c: u32| c != selected),
        decreases connected.len() - i,
    {
        proof {
            reveal(Seq::filter);
            assert(connected@.take(i + 1).drop_last() =~= connected@.take(i as int));
        }
        if connected[i] != selected {
            out.push(connected[i]);
        }
        i = i + 1;
    }
    proof {
        assert(connected@.take(connected.len() as int) =~= connected@);
    }
    out
}

} // verus!
