//! The text drawn each tick: the header line and the table's cells.

use vstd::prelude::*;
use crate::rate::{append_decimal, digits, humanize, rate_text, MICROS_PER_SECOND};
use crate::sample::RowData;

verus! {

/// Decimal text of `n`.
pub fn decimal(n: u64) -> (s: String)
    ensures
        s@ == digits(n as nat),
{
    let mut s = String::new();
    append_decimal(&mut s, n as u128);
    assert(s@ =~= digits(n as nat));
    s
}

pub open spec fn header_start() -> Seq<char> {
    " Nettui - live (q:quit)   tick: "@
}

pub open spec fn header_middle() -> Seq<char> {
    " ms   ifaces: "@
}

/// The header line: the quit key, how long the last tick took in whole
/// milliseconds, and how many interfaces are shown.
pub open spec fn header_of(count: nat, tick_micros: nat) -> Seq<char> {
    header_start() + digits(tick_micros / 1000) + header_middle() + digits(count) + seq![' ']
}

/// The header line for `count` shown interfaces after a tick of `tick_micros`.
pub fn header_text(count: u64, tick_micros: u64) -> (s: String)
    ensures
        s@ == header_of(count as nat, tick_micros as nat),
{
    let mut s = String::from_str(" Nettui - live (q:quit)   tick: ");
    append_decimal(&mut s, (tick_micros / 1000) as u128);
    s.append(" ms   ifaces: ");
    append_decimal(&mut s, count as u128);
    s.append(" ");
    proof {
        reveal_strlit(" ");
    }
    assert(s@ =~= header_of(count as nat, tick_micros as nat));
    s
}

/// The seven cells of a row: name, receive rate, transmit rate, packets in,
/// packets out, errors in, errors out.
pub open spec fn cells_of(r: RowData) -> Seq<Seq<char>> {
    seq![
        r.interface@,
        rate_text(r.rx_bytes * MICROS_PER_SECOND, r.micros as int),
        rate_text(r.tx_bytes * MICROS_PER_SECOND, r.micros as int),
        digits(r.packets_in as nat),
        digits(r.packets_out as nat),
        digits(r.errors_in as nat),
        digits(r.errors_out as nat),
    ]
}

pub open spec fn texts(s: Seq<String>) -> Seq<Seq<char>> {
    s.map_values(|t: String| t@)
}

/// The cells shown for one row.
pub fn cells(row: &RowData) -> (c: Vec<String>)
    requires
        row.wf(),
    ensures
        texts(c@) == cells_of(*row),
{
    let rx = humanize(&row.rx_rate());
    let tx = humanize(&row.tx_rate());
    let c = vec![
        row.interface.clone(),
        rx,
        tx,
        decimal(row.packets_in),
        decimal(row.packets_out),
        decimal(row.errors_in),
        decimal(row.errors_out),
    ];
    assert(texts(c@) =~= cells_of(*row));
    c
}

/// The cells of every row, in order.
pub fn table(rows: &Vec<RowData>) -> (t: Vec<Vec<String>>)
    requires
        forall|i: int| 0 <= i < rows@.len() ==> (#[trigger] rows@[i]).wf(),
    ensures
        t@.len() == rows@.len(),
        forall|i: int| 0 <= i < rows@.len() ==> texts(#[trigger] t@[i]@) == cells_of(rows@[i]),
{
    let mut t: Vec<Vec<String>> = Vec::new();
    let mut i: usize = 0;
    while i < rows.len()
        invariant
            i <= rows@.len(),
            t@.len() == i,
            forall|k: int| 0 <= k < rows@.len() ==> (#[trigger] rows@[k]).wf(),
            forall|k: int| 0 <= k < i ==> texts(#[trigger] t@[k]@) == cells_of(rows@[k]),
        decreases rows@.len() - i,
    {
        t.push(cells(&rows[i]));
        i += 1;
    }
    t
}

} // verus!
