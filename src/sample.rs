//! Counter snapshots, their deltas, the interface-exclusion predicate, and
//! the conversion of deltas over elapsed time into rows of rates.

use vstd::prelude::*;
use crate::rate::{effective_micros, Rate, MICROS_PER_SECOND};

verus! {

/// Counters of one interface as the platform reports them: cumulative totals
/// in a snapshot, or byte deltas (with cumulative packets and errors) after
/// `delta_since`.
#[derive(Debug)]
pub struct Counters {
    pub name: String,
    pub rx_bytes: u64,
    pub tx_bytes: u64,
    pub packets_in: u64,
    pub packets_out: u64,
    pub errors_in: u64,
    pub errors_out: u64,
}

pub ghost struct CountersView {
    pub name: Seq<char>,
    pub rx_bytes: nat,
    pub tx_bytes: nat,
    pub packets_in: nat,
    pub packets_out: nat,
    pub errors_in: nat,
    pub errors_out: nat,
}

impl View for Counters {
    type V = CountersView;

    open spec fn view(&self) -> CountersView {
        CountersView {
            name: self.name@,
            rx_bytes: self.rx_bytes as nat,
            tx_bytes: self.tx_bytes as nat,
            packets_in: self.packets_in as nat,
            packets_out: self.packets_out as nat,
            errors_in: self.errors_in as nat,
            errors_out: self.errors_out as nat,
        }
    }
}

/// One displayed line: byte deltas over `micros` microseconds, plus the
/// cumulative packet and error totals.
#[derive(Debug)]
pub struct RowData {
    pub interface: String,
    pub rx_bytes: u64,
    pub tx_bytes: u64,
    pub micros: u64,
    pub packets_in: u64,
    pub packets_out: u64,
    pub errors_in: u64,
    pub errors_out: u64,
}

pub ghost struct RowView {
    pub interface: Seq<char>,
    pub rx_bytes: nat,
    pub tx_bytes: nat,
    pub micros: nat,
    pub packets_in: nat,
    pub packets_out: nat,
    pub errors_in: nat,
    pub errors_out: nat,
}

impl View for RowData {
    type V = RowView;

    open spec fn view(&self) -> RowView {
        RowView {
            interface: self.interface@,
            rx_bytes: self.rx_bytes as nat,
            tx_bytes: self.tx_bytes as nat,
            micros: self.micros as nat,
            packets_in: self.packets_in as nat,
            packets_out: self.packets_out as nat,
            errors_in: self.errors_in as nat,
            errors_out: self.errors_out as nat,
        }
    }
}

impl RowData {
    /// The elapsed time is positive, so both rates are finite and non-negative.
    pub open spec fn wf(&self) -> bool {
        0 < self.micros <= i64::MAX
    }

    pub fn rx_rate(&self) -> (r: Rate)
        requires
            self.wf(),
        ensures
            r.wf(),
            r.spec_bytes() == self.rx_bytes,
            r.spec_micros() == self.micros,
    {
        Rate::over(self.rx_bytes, self.micros as i64)
    }

    pub fn tx_rate(&self) -> (r: Rate)
        requires
            self.wf(),
        ensures
            r.wf(),
            r.spec_bytes() == self.tx_bytes,
            r.spec_micros() == self.micros,
    {
        Rate::over(self.tx_bytes, self.micros as i64)
    }
}

pub open spec fn views_of_counters(s: Seq<Counters>) -> Seq<CountersView> {
    s.map_values(|c: Counters| c@)
}

pub open spec fn views_of_rows(s: Seq<RowData>) -> Seq<RowView> {
    s.map_values(|r: RowData| r@)
}

pub open spec fn lo() -> Seq<char> {
    seq!['l', 'o']
}

pub open spec fn veth() -> Seq<char> {
    seq!['v', 'e', 't', 'h']
}

pub open spec fn docker() -> Seq<char> {
    seq!['d', 'o', 'c', 'k', 'e', 'r']
}

pub open spec fn bridge() -> Seq<char> {
    seq!['b', 'r', '-']
}

pub open spec fn vmnet() -> Seq<char> {
    seq!['v', 'm', 'n', 'e', 't']
}

pub open spec fn virbr() -> Seq<char> {
    seq!['v', 'i', 'r', 'b', 'r']
}

/// Loopback, virtual-ethernet, container, bridge and hypervisor interfaces.
pub open spec fn is_excluded_name(name: Seq<char>) -> bool {
    lo().is_prefix_of(name) || veth().is_prefix_of(name) || docker().is_prefix_of(name)
        || bridge().is_prefix_of(name) || vmnet().is_prefix_of(name) || virbr().is_prefix_of(
        name,
    )
}

/// Whether `name` begins with `prefix`.
pub fn starts_with(name: &str, prefix: &str) -> (r: bool)
    ensures
        r == prefix@.is_prefix_of(name@),
{
    let n = name.unicode_len();
    let p = prefix.unicode_len();
    if p > n {
        return false;
    }
    let mut i: usize = 0;
    while i < p
        invariant
            p == prefix@.len(),
            n == name@.len(),
            p <= n,
            i <= p,
            forall|k: int| 0 <= k < i ==> prefix@[k] == name@[k],
        decreases p - i,
    {
        if name.get_char(i) != prefix.get_char(i) {
            return false;
        }
        i += 1;
    }
    assert(prefix@ =~= name@.subrange(0, p as int));
    true
}

/// Whether an interface of this name is left out of the table unless
/// virtual interfaces are shown.
pub fn is_excluded(name: &str) -> (r: bool)
    ensures
        r == is_excluded_name(name@),
{
    proof {
        reveal_strlit("lo");
        reveal_strlit("veth");
        reveal_strlit("docker");
        reveal_strlit("br-");
        reveal_strlit("vmnet");
        reveal_strlit("virbr");
        assert("lo"@ =~= lo());
        assert("veth"@ =~= veth());
        assert("docker"@ =~= docker());
        assert("br-"@ =~= bridge());
        assert("vmnet"@ =~= vmnet());
        assert("virbr"@ =~= virbr());
    }
    starts_with(name, "lo") || starts_with(name, "veth") || starts_with(name, "docker")
        || starts_with(name, "br-") || starts_with(name, "vmnet") || starts_with(name, "virbr")
}

/// Whether a sample stays in the output.
pub open spec fn kept(c: CountersView, show_virtual: bool) -> bool {
    show_virtual || !is_excluded_name(c.name)
}

/// The row for one sample over `micros` microseconds.
pub open spec fn row_of(c: CountersView, micros: int) -> RowView {
    RowView {
        interface: c.name,
        rx_bytes: c.rx_bytes,
        tx_bytes: c.tx_bytes,
        micros: micros as nat,
        packets_in: c.packets_in,
        packets_out: c.packets_out,
        errors_in: c.errors_in,
        errors_out: c.errors_out,
    }
}

/// The rows of the kept samples, in the order of the samples.
pub open spec fn collected(s: Seq<CountersView>, micros: int, show_virtual: bool) -> Seq<RowView>
    decreases s.len(),
{
    if s.len() == 0 {
        Seq::empty()
    } else {
        let rest = collected(s.drop_last(), micros, show_virtual);
        if kept(s.last(), show_virtual) {
            rest.push(row_of(s.last(), micros))
        } else {
            rest
        }
    }
}

/// One row per kept sample, with rates over the elapsed time; a non-positive
/// elapsed time is taken as one second.
pub fn collect(elapsed_micros: i64, samples: &Vec<Counters>, show_virtual: bool) -> (rows: Vec<
    RowData,
>)
    ensures
        views_of_rows(rows@) == collected(
            views_of_counters(samples@),
            effective_micros(elapsed_micros as int),
            show_virtual,
        ),
        forall|i: int| 0 <= i < rows@.len() ==> (#[trigger] rows@[i]).wf(),
{
    let micros: u64 = if elapsed_micros <= 0 {
        MICROS_PER_SECOND
    } else {
        elapsed_micros as u64
    };
    let ghost m = effective_micros(elapsed_micros as int);
    let mut rows: Vec<RowData> = Vec::new();
    let mut i: usize = 0;
    while i < samples.len()
        invariant
            micros == m,
            0 < m <= i64::MAX,
            i <= samples@.len(),
            views_of_rows(rows@) == collected(
                views_of_counters(samples@.subrange(0, i as int)),
                m,
                show_virtual,
            ),
            forall|k: int| 0 <= k < rows@.len() ==> (#[trigger] rows@[k]).wf(),
        decreases samples@.len() - i,
    {
        let c = &samples[i];
        let ghost before = rows@;
        let keep = show_virtual || !is_excluded(c.name.as_str());
        if keep {
            rows.push(
                RowData {
                    interface: c.name.clone(),
                    rx_bytes: c.rx_bytes,
                    tx_bytes: c.tx_bytes,
                    micros,
                    packets_in: c.packets_in,
                    packets_out: c.packets_out,
                    errors_in: c.errors_in,
                    errors_out: c.errors_out,
                },
            );
        }
        proof {
            let s1 = views_of_counters(samples@.subrange(0, i + 1));
            assert(s1.drop_last() =~= views_of_counters(samples@.subrange(0, i as int)));
            assert(s1.last() == samples@[i as int]@);
            if keep {
                assert(views_of_rows(rows@) =~= views_of_rows(before).push(row_of(s1.last(), m)));
            } else {
                assert(rows@ == before);
            }
        }
        i += 1;
    }
    assert(samples@.subrange(0, samples@.len() as int) =~= samples@);
    rows
}

/// The first entry of `prev` with this name.
pub open spec fn prior_of(prev: Seq<CountersView>, name: Seq<char>) -> Option<CountersView>
    decreases prev.len(),
{
    if prev.len() == 0 {
        None
    } else if prev[0].name == name {
        Some(prev[0])
    } else {
        prior_of(prev.drop_first(), name)
    }
}

pub open spec fn saturating_diff(a: nat, b: nat) -> nat {
    if a >= b {
        (a - b) as nat
    } else {
        0
    }
}

/// Bytes moved since the earlier snapshot, which holds no entry for an
/// interface first seen now (its delta is zero); packets and errors stay
/// cumulative. A counter that went backwards yields zero.
pub open spec fn delta_of(c: CountersView, prev: Seq<CountersView>) -> CountersView {
    match prior_of(prev, c.name) {
        Some(p) => CountersView {
            name: c.name,
            rx_bytes: saturating_diff(c.rx_bytes, p.rx_bytes),
            tx_bytes: saturating_diff(c.tx_bytes, p.tx_bytes),
            packets_in: c.packets_in,
            packets_out: c.packets_out,
            errors_in: c.errors_in,
            errors_out: c.errors_out,
        },
        None => CountersView {
            name: c.name,
            rx_bytes: 0,
            tx_bytes: 0,
            packets_in: c.packets_in,
            packets_out: c.packets_out,
            errors_in: c.errors_in,
            errors_out: c.errors_out,
        },
    }
}

/// Index of the first entry of `prev` named `name`.
fn find_prior(prev: &Vec<Counters>, name: &String) -> (r: Option<usize>)
    ensures
        match r {
            Some(j) => j < prev@.len() && prior_of(views_of_counters(prev@), name@) == Some(
                prev@[j as int]@,
            ),
            None => prior_of(views_of_counters(prev@), name@) is None,
        },
{
    let ghost v = views_of_counters(prev@);
    let mut i: usize = 0;
    assert(v.subrange(0, v.len() as int) =~= v);
    while i < prev.len()
        invariant
            i <= prev@.len(),
            v == views_of_counters(prev@),
            prior_of(v, name@) == prior_of(v.subrange(i as int, v.len() as int), name@),
        decreases prev@.len() - i,
    {
        let ghost tail = v.subrange(i as int, v.len() as int);
        assert(tail.drop_first() =~= v.subrange(i + 1, v.len() as int));
        assert(tail[0] == prev@[i as int]@);
        if prev[i].name == *name {
            return Some(i);
        }
        i += 1;
    }
    assert(v.subrange(i as int, v.len() as int) =~= Seq::<CountersView>::empty());
    None
}

/// The per-interface deltas of `current` against the earlier snapshot
/// `previous`, in the order of `current`.
pub fn delta_since(current: &Vec<Counters>, previous: &Vec<Counters>) -> (r: Vec<Counters>)
    ensures
        views_of_counters(r@) == views_of_counters(current@).map_values(
            |c: CountersView| delta_of(c, views_of_counters(previous@)),
        ),
{
    let ghost pv = views_of_counters(previous@);
    let mut r: Vec<Counters> = Vec::new();
    let mut i: usize = 0;
    while i < current.len()
        invariant
            i <= current@.len(),
            pv == views_of_counters(previous@),
            r@.len() == i,
            forall|k: int| 0 <= k < i ==> #[trigger] r@[k]@ == delta_of(current@[k]@, pv),
        decreases current@.len() - i,
    {
        let c = &current[i];
        let (rx, tx): (u64, u64) = match find_prior(previous, &c.name) {
            Some(j) => {
                let p = &previous[j];
                (
                    if c.rx_bytes >= p.rx_bytes {
                        c.rx_bytes - p.rx_bytes
                    } else {
                        0
                    },
                    if c.tx_bytes >= p.tx_bytes {
                        c.tx_bytes - p.tx_bytes
                    } else {
                        0
                    },
                )
            },
            None => (0, 0),
        };
        r.push(
            Counters {
                name: c.name.clone(),
                rx_bytes: rx,
                tx_bytes: tx,
                packets_in: c.packets_in,
                packets_out: c.packets_out,
                errors_in: c.errors_in,
                errors_out: c.errors_out,
            },
        );
        i += 1;
    }
    assert(views_of_counters(r@) =~= views_of_counters(current@).map_values(
        |c: CountersView| delta_of(c, pv),
    ));
    r
}

/// A non-positive elapsed time gives exactly the rows of an elapsed time of one second.
pub proof fn lemma_nonpositive_elapsed_is_one_second(
    samples: Seq<CountersView>,
    elapsed_micros: int,
    show_virtual: bool,
)
    requires
        elapsed_micros <= 0,
    ensures
        collected(samples, effective_micros(elapsed_micros), show_virtual) == collected(
            samples,
            effective_micros(MICROS_PER_SECOND as int),
            show_virtual,
        ),
{
}

/// Two collections of the same samples over the same elapsed time hold
/// identical rows, rates included.
pub proof fn lemma_collect_deterministic(
    first: Seq<RowData>,
    second: Seq<RowData>,
    samples: Seq<CountersView>,
    elapsed_micros: int,
    show_virtual: bool,
)
    requires
        views_of_rows(first) == collected(samples, effective_micros(elapsed_micros), show_virtual),
        views_of_rows(second) == collected(samples, effective_micros(elapsed_micros), show_virtual),
    ensures
        views_of_rows(first) == views_of_rows(second),
{
}

/// Unless virtual interfaces are shown, no row carries an excluded name.
pub proof fn lemma_excluded_names_absent(samples: Seq<CountersView>, micros: int)
    ensures
        forall|i: int|
            0 <= i < collected(samples, micros, false).len() ==> !is_excluded_name(
                #[trigger] collected(samples, micros, false)[i].interface,
            ),
    decreases samples.len(),
{
    if samples.len() > 0 {
        let rest = collected(samples.drop_last(), micros, false);
        lemma_excluded_names_absent(samples.drop_last(), micros);
        let all = collected(samples, micros, false);
        assert forall|i: int| 0 <= i < all.len() implies !is_excluded_name(
            #[trigger] all[i].interface,
        ) by {
            if i < rest.len() {
                assert(all[i] == rest[i]);
            }
        }
    }
}

} // verus!
