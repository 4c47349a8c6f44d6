//! Ordering rows by combined throughput, highest first.

use vstd::prelude::*;
use crate::sample::RowData;

verus! {

broadcast use vstd::seq_lib::group_to_multiset_ensures;

/// Combined bytes of a row; its throughput is `total / micros`.
pub open spec fn total(r: RowData) -> int {
    r.rx_bytes + r.tx_bytes
}

/// `a`'s combined rate is at least `b`'s, compared exactly as fractions.
pub open spec fn at_least(a: RowData, b: RowData) -> bool {
    total(a) * b.micros >= total(b) * a.micros
}

pub open spec fn all_wf(s: Seq<RowData>) -> bool {
    forall|i: int| 0 <= i < s.len() ==> (#[trigger] s[i]).wf()
}

/// Each row's combined rate is at least that of every row after it.
pub open spec fn ranked(s: Seq<RowData>) -> bool {
    forall|i: int, j: int| 0 <= i < j < s.len() ==> at_least(#[trigger] s[i], #[trigger] s[j])
}

pub open spec fn adjacent_ranked(s: Seq<RowData>) -> bool {
    forall|i: int| 0 <= i < s.len() - 1 ==> at_least(#[trigger] s[i], s[i + 1])
}

/// Comparing rates by cross-multiplication is transitive when durations are positive.
pub proof fn lemma_at_least_transitive(a: RowData, b: RowData, c: RowData)
    requires
        a.wf(),
        b.wf(),
        c.wf(),
        at_least(a, b),
        at_least(b, c),
    ensures
        at_least(a, c),
{
    let (ta, tb, tc) = (total(a), total(b), total(c));
    let (da, db, dc) = (a.micros as int, b.micros as int, c.micros as int);
    assert(ta * db * dc >= tb * da * dc) by (nonlinear_arith)
        requires
            ta * db >= tb * da,
            dc > 0,
    ;
    assert(tb * dc * da >= tc * db * da) by (nonlinear_arith)
        requires
            tb * dc >= tc * db,
            da > 0,
    ;
    assert(ta * dc >= tc * da) by (nonlinear_arith)
        requires
            ta * db * dc >= tb * da * dc,
            tb * dc * da >= tc * db * da,
            db > 0,
    ;
}

proof fn lemma_chain(s: Seq<RowData>, i: int, j: int)
    requires
        all_wf(s),
        adjacent_ranked(s),
        0 <= i < j < s.len(),
    ensures
        at_least(s[i], s[j]),
    decreases j - i,
{
    if i + 1 < j {
        lemma_chain(s, i + 1, j);
        lemma_at_least_transitive(s[i], s[i + 1], s[j]);
    }
}

/// A sequence ordered between neighbours is ordered between every pair.
pub proof fn lemma_adjacent_ranked_is_ranked(s: Seq<RowData>)
    requires
        all_wf(s),
        adjacent_ranked(s),
    ensures
        ranked(s),
{
    assert forall|i: int, j: int| 0 <= i < j < s.len() implies at_least(
        #[trigger] s[i],
        #[trigger] s[j],
    ) by {
        lemma_chain(s, i, j);
    }
}

/// Whether `a` ranks at or above `b`.
fn ranks_at_least(a: &RowData, b: &RowData) -> (r: bool)
    requires
        a.wf(),
        b.wf(),
    ensures
        r == at_least(*a, *b),
{
    let ta: u128 = a.rx_bytes as u128 + a.tx_bytes as u128;
    let tb: u128 = b.rx_bytes as u128 + b.tx_bytes as u128;
    assert(ta * (b.micros as u128) <= 0x1_FFFF_FFFF_FFFF_FFFEu128 * 0x7FFF_FFFF_FFFF_FFFFu128)
        by (nonlinear_arith)
        requires
            ta <= 0x1_FFFF_FFFF_FFFF_FFFEu128,
            b.micros <= 0x7FFF_FFFF_FFFF_FFFFu64,
    ;
    assert(tb * (a.micros as u128) <= 0x1_FFFF_FFFF_FFFF_FFFEu128 * 0x7FFF_FFFF_FFFF_FFFFu128)
        by (nonlinear_arith)
        requires
            tb <= 0x1_FFFF_FFFF_FFFF_FFFEu128,
            a.micros <= 0x7FFF_FFFF_FFFF_FFFFu64,
    ;
    ta * (b.micros as u128) >= tb * (a.micros as u128)
}

/// The rows ordered by combined rate, highest first; rows of equal rate
/// keep no particular order among themselves.
pub fn rank(rows: Vec<RowData>) -> (out: Vec<RowData>)
    requires
        all_wf(rows@),
    ensures
        out@.to_multiset() == rows@.to_multiset(),
        ranked(out@),
        all_wf(out@),
{
    let ghost orig = rows@;
    let mut rest = rows;
    let mut out: Vec<RowData> = Vec::new();
    while rest.len() > 0
        invariant
            all_wf(rest@),
            all_wf(out@),
            adjacent_ranked(out@),
            out@.to_multiset().add(rest@.to_multiset()) == orig.to_multiset(),
        decreases rest@.len(),
    {
        let ghost before_rest = rest@;
        let x = rest.pop().unwrap();
        proof {
            assert(before_rest =~= rest@.push(x));
        }
        let mut p: usize = 0;
        while p < out.len() && ranks_at_least(&out[p], &x)
            invariant
                p <= out@.len(),
                all_wf(out@),
                x.wf(),
                forall|k: int| 0 <= k < p ==> at_least(#[trigger] out@[k], x),
            decreases out@.len() - p,
        {
            p += 1;
        }
        let ghost before_out = out@;
        out.insert(p, x);
        proof {
            assert(out@ == before_out.insert(p as int, x));
            assert forall|i: int| 0 <= i < out@.len() - 1 implies at_least(
                #[trigger] out@[i],
                out@[i + 1],
            ) by {
                if i + 1 < p {
                    assert(out@[i] == before_out[i] && out@[i + 1] == before_out[i + 1]);
                } else if i + 1 == p {
                    assert(out@[i] == before_out[i]);
                } else if i == p {
                    assert(out@[i + 1] == before_out[p as int]);
                    assert(!at_least(before_out[p as int], x));
                } else {
                    assert(out@[i] == before_out[i - 1] && out@[i + 1] == before_out[i]);
                }
            }
            assert(out@.to_multiset() == before_out.to_multiset().insert(x));
            assert(before_rest.to_multiset() == rest@.to_multiset().insert(x));
            assert(out@.to_multiset().add(rest@.to_multiset()) =~= orig.to_multiset());
        }
    }
    proof {
        assert(rest@ =~= Seq::<RowData>::empty());
        assert(out@.to_multiset().add(rest@.to_multiset()) =~= out@.to_multiset());
        lemma_adjacent_ranked_is_ranked(out@);
    }
    out
}

} // verus!
