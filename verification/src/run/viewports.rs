use vstd::prelude::*;

use crate::strings::{
    chars_lt, chars_of, lemma_seq_lt_irreflexive, lemma_seq_lt_total, lemma_seq_lt_transitive,
    seq_lt,
};

verus! {

// ---------------------------------------------------------------------------
// The output section of the configuration, as the TTY backend reloads it
// ---------------------------------------------------------------------------

/// One configured output. The refresh rate is kept in millihertz, the
/// configured rate rounded.
#[derive(Debug)]
pub struct TtyViewport {
    pub connector: String,
    pub enabled: bool,
    pub offset_x: i32,
    pub offset_y: i32,
    pub width: u32,
    pub height: u32,
    pub refresh_millihz: Option<i64>,
    pub transform_degrees: u16,
    pub vrr: String,
}

/// Everything an output entry says, as plain values.
pub type ViewportKey = (Seq<char>, bool, i32, i32, u32, u32, Option<i64>, u16, Seq<char>);

pub open spec fn viewport_key(v: TtyViewport) -> ViewportKey {
    (
        v.connector@,
        v.enabled,
        v.offset_x,
        v.offset_y,
        v.width,
        v.height,
        v.refresh_millihz,
        v.transform_degrees,
        v.vrr@,
    )
}

pub open spec fn viewport_keys(vs: Seq<TtyViewport>) -> Seq<ViewportKey> {
    vs.map_values(|v: TtyViewport| viewport_key(v))
}

impl TtyViewport {
    /// A copy of the entry.
    pub fn duplicate(&self) -> (r: TtyViewport)
        ensures
            viewport_key(r) == viewport_key(*self),
    {
        TtyViewport {
            connector: self.connector.clone(),
            enabled: self.enabled,
            offset_x: self.offset_x,
            offset_y: self.offset_y,
            width: self.width,
            height: self.height,
            refresh_millihz: self.refresh_millihz,
            transform_degrees: self.transform_degrees,
            vrr: self.vrr.clone(),
        }
    }
}

/// The output section: the outputs and the camera (center and size, kept
/// as given).
#[derive(Debug)]
pub struct ViewportSection<C> {
    pub tty_viewports: Vec<TtyViewport>,
    pub viewport_center: C,
    pub viewport_size: C,
}

fn duplicate_all(vs: &Vec<TtyViewport>) -> (r: Vec<TtyViewport>)
    ensures
        viewport_keys(r@) == viewport_keys(vs@),
{
    let mut out: Vec<TtyViewport> = Vec::new();
    let mut i: usize = 0;
    while i < vs.len()
        invariant
            i <= vs.len(),
            viewport_keys(out@) == viewport_keys(vs@.take(i as int)),
        decreases vs.len() - i,
    {
        let ghost before = out@;
        let d: TtyViewport = vs[i].duplicate();
        out.push(d);
        proof {
            assert(viewport_keys(out@) =~= viewport_keys(before).push(viewport_key(d)));
            assert(viewport_keys(vs@.take(i + 1)) =~= viewport_keys(vs@.take(i as int)).push(
                viewport_key(vs@[i as int]),
            ));
        }
        i = i + 1;
    }
    proof {
        assert(vs@.take(vs.len() as int) =~= vs@);
    }
    out
}

/// After a reload that must not touch the outputs: `next` takes the
/// outputs and the camera of the running configuration.
pub fn keep_last_good_tty_viewport<C: Copy>(next: &mut ViewportSection<C>, current: &ViewportSection<C>)
    ensures
        viewport_keys(final(next).tty_viewports@) == viewport_keys(current.tty_viewports@),
        final(next).viewport_center == current.viewport_center,
        final(next).viewport_size == current.viewport_size,
{
    next.tty_viewports = duplicate_all(&current.tty_viewports);
    next.viewport_center = current.viewport_center;
    next.viewport_size = current.viewport_size;
}

/// The last entry of `prev` for `connector`, if any (a later entry for
/// the same connector wins).
pub open spec fn last_entry_for(prev: Seq<TtyViewport>, connector: Seq<char>) -> Option<TtyViewport>
    decreases prev.len(),
{
    if prev.len() == 0 {
        None
    } else if prev.last().connector@ == connector {
        Some(prev.last())
    } else {
        last_entry_for(prev.drop_last(), connector)
    }
}

/// An entry of the new configuration, with the placement of the running
/// one for the same connector when there is one.
pub open spec fn preserved_key(v: TtyViewport, prev: Seq<TtyViewport>) -> ViewportKey {
    match last_entry_for(prev, v.connector@) {
        Some(p) => (
            v.connector@,
            p.enabled,
            p.offset_x,
            p.offset_y,
            p.width,
            p.height,
            p.refresh_millihz,
            p.transform_degrees,
            p.vrr@,
        ),
        None => viewport_key(v),
    }
}

fn find_last_entry(prev: &Vec<TtyViewport>, connector: &String) -> (r: Option<usize>)
    ensures
        match last_entry_for(prev@, connector@) {
            Some(p) => r matches Some(i) && i < prev@.len() && prev@[i as int] == p,
            None => r is None,
        },
{
    let mut i: usize = prev.len();
    assert(prev@.take(prev.len() as int) =~= prev@);
    while i > 0
        invariant
            i <= prev.len(),
            last_entry_for(prev@, connector@) == last_entry_for(prev@.take(i as int), connector@),
        decreases i,
    {
        proof {
            assert(prev@.take(i as int).drop_last() =~= prev@.take(i - 1));
        }
        if prev[i - 1].connector == *connector {
            return Some(i - 1);
        }
        i = i - 1;
    }
    None
}

/// Takes a new configuration but keeps the output section of the running
/// one: the camera, and for every output that both name, its placement,
/// size, refresh rate, transform and VRR setting. Outputs only the new
/// configuration names stay as given there.
pub fn preserve_viewport_section<C: Copy>(prev: &ViewportSection<C>, next: ViewportSection<C>) -> (r:
    ViewportSection<C>)
    ensures
        r.viewport_center == prev.viewport_center,
        r.viewport_size == prev.viewport_size,
        viewport_keys(r.tty_viewports@) == next.tty_viewports@.map_values(
            |v: TtyViewport| preserved_key(v, prev.tty_viewports@),
        ),
{
    let mut out: Vec<TtyViewport> = Vec::new();
    let mut i: usize = 0;
    let ghost target = next.tty_viewports@.map_values(
        |v: TtyViewport| preserved_key(v, prev.tty_viewports@),
    );
    while i < next.tty_viewports.len()
        invariant
            i <= next.tty_viewports.len(),
            target == next.tty_viewports@.map_values(
                |v: TtyViewport| preserved_key(v, prev.tty_viewports@),
            ),
            viewport_keys(out@) == target.take(i as int),
        decreases next.tty_viewports.len() - i,
    {
        let v: &TtyViewport = &next.tty_viewports[i];
        let entry: TtyViewport = match find_last_entry(&prev.tty_viewports, &v.connector) {
            Some(k) => {
                let p: &TtyViewport = &prev.tty_viewports[k];
                TtyViewport {
                    connector: v.connector.clone(),
                    enabled: p.enabled,
                    offset_x: p.offset_x,
                    offset_y: p.offset_y,
                    width: p.width,
                    height: p.height,
                    refresh_millihz: p.refresh_millihz,
                    transform_degrees: p.transform_degrees,
                    vrr: p.vrr.clone(),
                }
            },
            None => v.duplicate(),
        };
        let ghost before = out@;
        proof {
            assert(viewport_key(entry) == target[i as int]);
        }
        out.push(entry);
        proof {
            assert(viewport_keys(out@) =~= viewport_keys(before).push(viewport_key(entry)));
            assert(target.take(i + 1) =~= target.take(i as int).push(target[i as int]));
        }
        i = i + 1;
    }
    proof {
        assert(target.take(next.tty_viewports.len() as int) =~= target);
    }
    ViewportSection {
        tty_viewports: out,
        viewport_center: prev.viewport_center,
        viewport_size: prev.viewport_size,
    }
}

/// Keeping the output section twice against the same running
/// configuration gives what keeping it once gave.
pub proof fn law_preserve_viewports_idempotent(
    prev: Seq<TtyViewport>,
    next: Seq<TtyViewport>,
    once: Seq<TtyViewport>,
)
    requires
        viewport_keys(once) == next.map_values(|v: TtyViewport| preserved_key(v, prev)),
    ensures
        once.map_values(|v: TtyViewport| preserved_key(v, prev)) == viewport_keys(once),
{
    let lhs = once.map_values(|v: TtyViewport| preserved_key(v, prev));
    assert(viewport_keys(once).len() == once.len());
    assert(next.map_values(|v: TtyViewport| preserved_key(v, prev)).len() == next.len());
    assert forall|i: int| 0 <= i < once.len() implies lhs[i] == viewport_keys(once)[i] by {
        assert(viewport_keys(once)[i] == viewport_key(once[i]));
        assert(next.map_values(|v: TtyViewport| preserved_key(v, prev))[i] == preserved_key(
            next[i],
            prev,
        ));
    }
    assert(lhs =~= viewport_keys(once));
}

/// No two outputs name the same connector.
pub open spec fn distinct_connectors(vs: Seq<TtyViewport>) -> bool {
    forall|i: int, j: int|
        0 <= i < vs.len() && 0 <= j < vs.len() && i != j ==> #[trigger] vs[i].connector@
            != #[trigger] vs[j].connector@
}

proof fn lemma_last_entry_is_own(vs: Seq<TtyViewport>, i: int)
    requires
        distinct_connectors(vs),
        0 <= i < vs.len(),
    ensures
        last_entry_for(vs, vs[i].connector@) == Some(vs[i]),
    decreases vs.len(),
{
    if i != vs.len() - 1 {
        let d = vs.drop_last();
        assert(d[i] == vs[i]);
        assert(vs.last() == vs[vs.len() - 1]);
        assert(distinct_connectors(d)) by {
            assert forall|a: int, b: int|
                0 <= a < d.len() && 0 <= b < d.len() && a != b implies #[trigger] d[a].connector@
                != #[trigger] d[b].connector@ by {
                assert(d[a] == vs[a] && d[b] == vs[b]);
            }
        }
        lemma_last_entry_is_own(d, i);
    }
}

/// Keeping the output section of a configuration against itself changes
/// nothing, when no connector is named twice.
pub proof fn law_preserve_viewports_against_itself(vs: Seq<TtyViewport>)
    requires
        distinct_connectors(vs),
    ensures
        vs.map_values(|v: TtyViewport| preserved_key(v, vs)) == viewport_keys(vs),
{
    let lhs = vs.map_values(|v: TtyViewport| preserved_key(v, vs));
    assert forall|i: int| 0 <= i < vs.len() implies lhs[i] == viewport_keys(vs)[i] by {
        lemma_last_entry_is_own(vs, i);
    }
    assert(lhs =~= viewport_keys(vs));
}

// ---------------------------------------------------------------------------
// Did the output section change?
// ---------------------------------------------------------------------------

/// Where `x` goes in `sorted`: before the first entry whose connector
/// comes after `x`'s, so that equal connectors keep their order.
pub open spec fn insert_position(sorted: Seq<ViewportKey>, x: ViewportKey, i: int) -> int
    decreases sorted.len() - i,
{
    if i < 0 || i >= sorted.len() {
        sorted.len() as int
    } else if seq_lt(x.0, sorted[i].0) {
        i
    } else {
        insert_position(sorted, x, i + 1)
    }
}

/// The entries sorted by connector name, entries with the same connector in
/// their given order (a stable sort).
pub open spec fn sort_by_connector(s: Seq<ViewportKey>) -> Seq<ViewportKey>
    decreases s.len(),
{
    if s.len() == 0 {
        s
    } else {
        let sorted = sort_by_connector(s.drop_last());
        sorted.insert(insert_position(sorted, s.last(), 0), s.last())
    }
}

proof fn lemma_insert_position(sorted: Seq<ViewportKey>, x: ViewportKey, i: int)
    requires
        0 <= i <= sorted.len(),
    ensures
        i <= insert_position(sorted, x, i) <= sorted.len(),
    decreases sorted.len() - i,
{
    if i < sorted.len() && !seq_lt(x.0, sorted[i].0) {
        lemma_insert_position(sorted, x, i + 1);
    }
}

/// The entries come in connector order (equal connectors in any order).
pub open spec fn sorted_by_connector(s: Seq<ViewportKey>) -> bool {
    forall|i: int, j: int| 0 <= i < j < s.len() ==> !seq_lt(#[trigger] s[j].0, #[trigger] s[i].0)
}

/// No two of the entries have the same connector, and none is there
/// twice.
pub open spec fn distinct_keys(m: vstd::multiset::Multiset<ViewportKey>) -> bool {
    &&& forall|x: ViewportKey| #[trigger] m.count(x) <= 1
    &&& forall|x: ViewportKey, y: ViewportKey|
        #[trigger] m.count(x) > 0 && #[trigger] m.count(y) > 0 && x.0 == y.0 ==> x == y
}

proof fn lemma_insert_position_props(sorted: Seq<ViewportKey>, x: ViewportKey, i: int)
    requires
        0 <= i <= sorted.len(),
    ensures
        forall|k: int| i <= k < insert_position(sorted, x, i) ==> !seq_lt(x.0, #[trigger] sorted[k].0),
        insert_position(sorted, x, i) < sorted.len() ==> seq_lt(
            x.0,
            sorted[insert_position(sorted, x, i)].0,
        ),
    decreases sorted.len() - i,
{
    if i < sorted.len() && !seq_lt(x.0, sorted[i].0) {
        lemma_insert_position_props(sorted, x, i + 1);
    }
}

proof fn lemma_sort_sorted(s: Seq<ViewportKey>)
    ensures
        sorted_by_connector(sort_by_connector(s)),
        sort_by_connector(s).to_multiset() == s.to_multiset(),
    decreases s.len(),
{
    broadcast use vstd::seq_lib::group_to_multiset_ensures;

    if s.len() > 0 {
        let d = s.drop_last();
        let x = s.last();
        lemma_sort_sorted(d);
        let so = sort_by_connector(d);
        let p = insert_position(so, x, 0);
        lemma_insert_position(so, x, 0);
        lemma_insert_position_props(so, x, 0);
        let n = so.insert(p, x);
        assert(sort_by_connector(s) == n);
        assert forall|i: int, j: int| 0 <= i < j < n.len() implies !seq_lt(
            #[trigger] n[j].0,
            #[trigger] n[i].0,
        ) by {
            if j < p {
                assert(n[i] == so[i] && n[j] == so[j]);
            } else if j == p {
                assert(n[i] == so[i] && n[j] == x);
            } else if i > p {
                assert(n[i] == so[i - 1] && n[j] == so[j - 1]);
            } else if i == p {
                assert(n[i] == x && n[j] == so[j - 1]);
                if seq_lt(so[j - 1].0, x.0) {
                    lemma_seq_lt_transitive(so[j - 1].0, x.0, so[p].0);
                    if j - 1 == p {
                        lemma_seq_lt_irreflexive(so[p].0);
                    }
                }
            } else {
                assert(n[i] == so[i] && n[j] == so[j - 1]);
            }
        }
        assert(s =~= d.push(x));
    }
}

proof fn lemma_sorted_drop_first(p: Seq<ViewportKey>)
    requires
        sorted_by_connector(p),
        p.len() > 0,
    ensures
        sorted_by_connector(p.drop_first()),
{
    assert forall|i: int, j: int| 0 <= i < j < p.drop_first().len() implies !seq_lt(
        #[trigger] p.drop_first()[j].0,
        #[trigger] p.drop_first()[i].0,
    ) by {
        assert(p.drop_first()[i] == p[i + 1] && p.drop_first()[j] == p[j + 1]);
    }
}

proof fn lemma_sorted_unique(p: Seq<ViewportKey>, q: Seq<ViewportKey>)
    requires
        sorted_by_connector(p),
        sorted_by_connector(q),
        p.to_multiset() == q.to_multiset(),
        distinct_keys(p.to_multiset()),
    ensures
        p == q,
    decreases p.len(),
{
    broadcast use vstd::seq_lib::group_to_multiset_ensures;
    broadcast use vstd::multiset::group_multiset_axioms;

    assert(p.to_multiset().len() == p.len());
    assert(q.to_multiset().len() == q.len());
    if p.len() == 0 {
        assert(q.len() == 0);
        assert(p =~= q);
    } else {
        assert(q.len() == p.len());
        assert(p.to_multiset().count(p[0]) > 0);
        assert(q.contains(p[0]));
        let k = choose|k: int| 0 <= k < q.len() && q[k] == p[0];
        assert(q.to_multiset().count(q[0]) > 0);
        assert(p.contains(q[0]));
        let m = choose|m: int| 0 <= m < p.len() && p[m] == q[0];
        if p[0].0 != q[0].0 {
            lemma_seq_lt_total(p[0].0, q[0].0);
            if seq_lt(p[0].0, q[0].0) {
                if k == 0 {
                    lemma_seq_lt_irreflexive(p[0].0);
                }
                assert(!seq_lt(q[k].0, q[0].0));
            } else {
                if m == 0 {
                    lemma_seq_lt_irreflexive(q[0].0);
                }
                assert(!seq_lt(p[m].0, p[0].0));
            }
        }
        assert(p[0] == q[0]);
        let p1 = p.drop_first();
        let q1 = q.drop_first();
        assert(p.remove(0) =~= p1);
        assert(q.remove(0) =~= q1);
        assert(p1.to_multiset() == p.to_multiset().remove(p[0]));
        assert(q1.to_multiset() == q.to_multiset().remove(q[0]));
        lemma_sorted_drop_first(p);
        lemma_sorted_drop_first(q);
        let m1 = p1.to_multiset();
        assert forall|x: ViewportKey| #[trigger] m1.count(x) <= 1 by {
            assert(p.to_multiset().count(x) <= 1);
        }
        assert forall|x: ViewportKey, y: ViewportKey|
            #[trigger] m1.count(x) > 0 && #[trigger] m1.count(y) > 0 && x.0 == y.0 implies x == y by {
            assert(p.to_multiset().count(x) > 0 && p.to_multiset().count(y) > 0);
        }
        lemma_sorted_unique(p1, q1);
        assert(p =~= seq![p[0]] + p1);
        assert(q =~= seq![q[0]] + q1);
    }
}

/// Whether the output section changed does not depend on the order the
/// outputs are listed in: two lists with the same entries, no connector
/// named twice, sort the same.
pub proof fn law_output_order_does_not_matter(a: Seq<TtyViewport>, b: Seq<TtyViewport>)
    requires
        viewport_keys(a).to_multiset() == viewport_keys(b).to_multiset(),
        distinct_connectors(a),
    ensures
        sort_by_connector(viewport_keys(a)) == sort_by_connector(viewport_keys(b)),
{
    broadcast use vstd::seq_lib::group_to_multiset_ensures;

    let ka = viewport_keys(a);
    let kb = viewport_keys(b);
    lemma_sort_sorted(ka);
    lemma_sort_sorted(kb);
    assert(ka.no_duplicates()) by {
        assert forall|i: int, j: int| 0 <= i < ka.len() && 0 <= j < ka.len() && i != j implies ka[i]
            != ka[j] by {
            assert(ka[i].0 == a[i].connector@ && ka[j].0 == a[j].connector@);
        }
    }
    ka.lemma_multiset_has_no_duplicates();
    let m = ka.to_multiset();
    assert forall|x: ViewportKey| #[trigger] m.count(x) <= 1 by {
        if m.count(x) > 0 {
            assert(m.contains(x));
        }
    }
    assert forall|x: ViewportKey, y: ViewportKey|
        #[trigger] m.count(x) > 0 && #[trigger] m.count(y) > 0 && x.0 == y.0 implies x == y by {
        assert(ka.contains(x) && ka.contains(y));
        let i = choose|i: int| 0 <= i < ka.len() && ka[i] == x;
        let j = choose|j: int| 0 <= j < ka.len() && ka[j] == y;
        assert(ka[i].0 == a[i].connector@ && ka[j].0 == a[j].connector@);
    }
    lemma_sorted_unique(sort_by_connector(ka), sort_by_connector(kb));
}

fn key_of(v: &TtyViewport) -> (r: TtyViewport)
    ensures
        viewport_key(r) == viewport_key(*v),
{
    v.duplicate()
}

fn same_entry(a: &TtyViewport, b: &TtyViewport) -> (r: bool)
    ensures
        r == (viewport_key(*a) == viewport_key(*b)),
{
    a.connector == b.connector && a.enabled == b.enabled && a.offset_x == b.offset_x && a.offset_y
        == b.offset_y && a.width == b.width && a.height == b.height && a.refresh_millihz
        == b.refresh_millihz && a.transform_degrees == b.transform_degrees && a.vrr == b.vrr
}

fn connector_before(x: &[char], v: &TtyViewport) -> (r: bool)
    ensures
        r == seq_lt(x@, v.connector@),
{
    let vc: Vec<char> = chars_of(v.connector.as_str());
    chars_lt(x, vc.as_slice())
}

fn sorted_entries(vs: &Vec<TtyViewport>) -> (r: Vec<TtyViewport>)
    ensures
        viewport_keys(r@) == sort_by_connector(viewport_keys(vs@)),
{
    let mut out: Vec<TtyViewport> = Vec::new();
    let mut i: usize = 0;
    while i < vs.len()
        invariant
            i <= vs.len(),
            viewport_keys(out@) == sort_by_connector(viewport_keys(vs@.take(i as int))),
        decreases vs.len() - i,
    {
        let x: TtyViewport = key_of(&vs[i]);
        let xc: Vec<char> = chars_of(x.connector.as_str());
        let ghost sorted = viewport_keys(out@);
        let ghost xk = viewport_key(x);
        proof {
            assert(viewport_keys(vs@.take(i + 1)).drop_last() =~= viewport_keys(vs@.take(i as int)));
            assert(viewport_keys(vs@.take(i + 1)).last() == xk);
            lemma_insert_position(sorted, xk, 0);
        }
        let mut j: usize = 0;
        while j < out.len() && !connector_before(xc.as_slice(), &out[j])
            invariant
                j <= out.len(),
                sorted == viewport_keys(out@),
                xk == viewport_key(x),
                xc@ == x.connector@,
                insert_position(sorted, xk, 0) == insert_position(sorted, xk, j as int),
            decreases out.len() - j,
        {
            j = j + 1;
        }
        proof {
            if j < out.len() {
                assert(sorted[j as int].0 == out@[j as int].connector@);
            }
            assert(insert_position(sorted, xk, 0) == j);
        }
        out.insert(j, x);
        proof {
            assert(viewport_keys(out@) =~= sorted.insert(j as int, xk));
        }
        i = i + 1;
    }
    proof {
        assert(vs@.take(vs.len() as int) =~= vs@);
    }
    out
}

/// The output section changed: the outputs, each sorted by connector,
/// differ in some entry.
pub fn viewport_section_changed(prev: &Vec<TtyViewport>, next: &Vec<TtyViewport>) -> (r: bool)
    ensures
        r == (sort_by_connector(viewport_keys(prev@)) != sort_by_connector(viewport_keys(next@))),
{
    let a: Vec<TtyViewport> = sorted_entries(prev);
    let b: Vec<TtyViewport> = sorted_entries(next);
    if a.len() != b.len() {
        proof {
            assert(viewport_keys(a@).len() != viewport_keys(b@).len());
        }
        return true;
    }
    let mut i: usize = 0;
    while i < a.len()
        invariant
            i <= a.len(),
            a.len() == b.len(),
            viewport_keys(a@) == sort_by_connector(viewport_keys(prev@)),
            viewport_keys(b@) == sort_by_connector(viewport_keys(next@)),
            forall|j: int| 0 <= j < i ==> viewport_key(a@[j]) == viewport_key(b@[j]),
        decreases a.len() - i,
    {
        if !same_entry(&a[i], &b[i]) {
            proof {
                assert(viewport_keys(a@)[i as int] == viewport_key(a@[i as int]));
                assert(viewport_keys(b@)[i as int] == viewport_key(b@[i as int]));
                assert(viewport_keys(a@)[i as int] != viewport_keys(b@)[i as int]);
                assert(viewport_keys(a@) != viewport_keys(b@));
            }
            return true;
        }
        i = i + 1;
    }
    proof {
        assert(viewport_keys(a@) =~= viewport_keys(b@));
    }
    false
}

} // verus!
