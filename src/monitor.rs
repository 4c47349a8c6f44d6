//! The decisions of one tick: whether to sample, what to show, whether to quit.

use vstd::prelude::*;
use crate::rank::{all_wf, rank, ranked};
use crate::rate::effective_micros;
use crate::sample::{
    collect, collected, delta_of, delta_since, views_of_counters, views_of_rows, Counters,
    CountersView, RowData,
};

verus! {

/// What the loop does with the time measured since the last tick.
#[derive(Clone, Copy, Debug, PartialEq, Eq, Structural)]
pub enum TickStep {
    /// No time has passed at the clock's resolution: pause briefly and measure again.
    Wait,
    /// Sample, rank and draw.
    Sample,
}

pub fn tick_step(elapsed_micros: i64) -> (s: TickStep)
    ensures
        s == (if elapsed_micros <= 0 {
            TickStep::Wait
        } else {
            TickStep::Sample
        }),
{
    if elapsed_micros <= 0 {
        TickStep::Wait
    } else {
        TickStep::Sample
    }
}

/// `q` is the only key that ends the program.
pub fn is_quit_key(c: char) -> (r: bool)
    ensures
        r == (c == 'q'),
{
    c == 'q'
}

/// The rows of one tick: the deltas of `current` against `previous`, kept and
/// turned into rates over `micros`.
pub open spec fn tick_rows(
    current: Seq<CountersView>,
    previous: Seq<CountersView>,
    micros: int,
    show_virtual: bool,
) -> Seq<crate::sample::RowView> {
    collected(current.map_values(|c: CountersView| delta_of(c, previous)), micros, show_virtual)
}

/// The state carried from one tick to the next: the last snapshot of the
/// counters, and whether virtual interfaces are shown.
pub struct Monitor {
    previous: Vec<Counters>,
    show_virtual: bool,
}

impl Monitor {
    pub closed spec fn previous_view(&self) -> Seq<CountersView> {
        views_of_counters(self.previous@)
    }

    pub closed spec fn spec_show_virtual(&self) -> bool {
        self.show_virtual
    }

    /// Starts from a first snapshot, so the first tick already has a baseline.
    pub fn new(seed: Vec<Counters>, show_virtual: bool) -> (m: Monitor)
        ensures
            m.previous_view() == views_of_counters(seed@),
            m.spec_show_virtual() == show_virtual,
    {
        Monitor { previous: seed, show_virtual }
    }

    pub fn show_virtual(&self) -> (r: bool)
        ensures
            r == self.spec_show_virtual(),
    {
        self.show_virtual
    }

    /// Takes a fresh snapshot taken `elapsed_micros` after the previous one,
    /// keeps it as the next baseline, and returns the ranked rows of the
    /// traffic in between.
    pub fn tick(&mut self, current: Vec<Counters>, elapsed_micros: i64) -> (rows: Vec<RowData>)
        ensures
            final(self).previous_view() == views_of_counters(current@),
            final(self).spec_show_virtual() == old(self).spec_show_virtual(),
            ranked(rows@),
            all_wf(rows@),
            exists|u: Seq<RowData>|
                views_of_rows(u) == tick_rows(
                    views_of_counters(current@),
                    old(self).previous_view(),
                    effective_micros(elapsed_micros as int),
                    old(self).spec_show_virtual(),
                ) && #[trigger] u.to_multiset() == rows@.to_multiset(),
    {
        let deltas = delta_since(&current, &self.previous);
        let unranked = collect(elapsed_micros, &deltas, self.show_virtual);
        let ghost u = unranked@;
        let rows = rank(unranked);
        self.previous = current;
        assert(views_of_rows(u) == tick_rows(
            views_of_counters(current@),
            old(self).previous_view(),
            effective_micros(elapsed_micros as int),
            old(self).spec_show_virtual(),
        ));
        rows
    }
}

} // verus!
