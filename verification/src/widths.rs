//! Run-length compression of the PDF `W` (glyph width) array.
//!
//! CIDFontType2 lists widths as `low [w0 w1 ...]` blocks: a block gives the
//! widths of the consecutive glyph ids starting at `low`.  Compression
//! scans (glyph id, width) pairs in ascending id order and extends the
//! current block while ids stay consecutive, flushing it otherwise.

use vstd::prelude::*;

verus! {

/// The compressor state after a pair stream: the flushed runs, the start
/// and the one-past-the-highest id of the open run, and its widths.
pub open spec fn spec_width_state(pairs: Seq<(u32, i64)>) -> (
    Seq<(u32, Seq<i64>)>,
    u32,
    int,
    Seq<i64>,
)
    decreases pairs.len(),
{
    if pairs.len() == 0 {
        (Seq::empty(), 0u32, 0int, Seq::empty())
    } else {
        let (runs, low, high, cur) = spec_width_state(pairs.drop_last());
        let p = pairs.last();
        if p.0 == high {
            (runs, low, high + 1, cur.push(p.1))
        } else {
            (runs.push((low, cur)), p.0, p.0 + 1, seq![p.1])
        }
    }
}

/// The width runs for a pair stream: the flushed runs plus the final one.
/// On an empty stream this is the single degenerate run `(0, [])`.
pub open spec fn spec_width_runs(pairs: Seq<(u32, i64)>) -> Seq<(u32, Seq<i64>)> {
    let (runs, low, high, cur) = spec_width_state(pairs);
    runs.push((low, cur))
}

/// The pairs a single run stands for: `(low + j, widths[j])`.
pub open spec fn spec_expand_run(low: u32, ws: Seq<i64>) -> Seq<(u32, i64)> {
    Seq::new(ws.len(), |j: int| ((low + j) as u32, ws[j]))
}

/// Decompression: the pairs all runs together stand for.
pub open spec fn spec_expand_runs(runs: Seq<(u32, Seq<i64>)>) -> Seq<(u32, i64)>
    decreases runs.len(),
{
    if runs.len() == 0 {
        Seq::empty()
    } else {
        spec_expand_runs(runs.drop_last()) + spec_expand_run(runs.last().0, runs.last().1)
    }
}

/// Pair streams the compressor accepts: glyph ids strictly ascending.
pub open spec fn spec_strictly_ascending(pairs: Seq<(u32, i64)>) -> bool {
    forall|i: int| 0 <= i < pairs.len() - 1 ==> (#[trigger] pairs[i]).0 < pairs[i + 1].0
}

/// Runs never touch: each run ends strictly before the next begins, so no
/// two truly-consecutive ids are split across runs (the degenerate empty
/// first run aside, which stands for no ids at all).
pub open spec fn spec_runs_gapped(runs: Seq<(u32, Seq<i64>)>) -> bool {
    forall|i: int|
        0 <= i < runs.len() - 1 ==> (#[trigger] runs[i]).0 + runs[i].1.len() < runs[i + 1].0
}

proof fn lemma_ascending_prefix(pairs: Seq<(u32, i64)>)
    requires
        spec_strictly_ascending(pairs),
        pairs.len() > 0,
    ensures
        spec_strictly_ascending(pairs.drop_last()),
{
    assert forall|i: int| 0 <= i < pairs.drop_last().len() - 1 implies (#[trigger] pairs.drop_last()[i]).0
        < pairs.drop_last()[i + 1].0 by {
        assert(pairs[i].0 < pairs[i + 1].0);
    }
}

/// The compressor invariant, proved over the whole pair stream: the open
/// run is consistent (`high = low + |cur|`, ending at the last id seen),
/// flushed runs are pairwise gapped and end before the open run, and
/// expanding everything gives the input back.
proof fn lemma_width_state(pairs: Seq<(u32, i64)>)
    requires
        spec_strictly_ascending(pairs),
    ensures
        ({
            let (runs, low, high, cur) = spec_width_state(pairs);
            &&& high == low + cur.len()
            &&& pairs.len() == 0 ==> runs.len() == 0 && low == 0 && high == 0 && cur.len() == 0
            &&& pairs.len() > 0 ==> high == pairs.last().0 + 1 && cur.len() > 0
            &&& spec_runs_gapped(runs)
            &&& runs.len() > 0 ==> runs.last().0 + runs.last().1.len() < low
            &&& spec_expand_runs(runs) + spec_expand_run(low, cur) == pairs
        }),
    decreases pairs.len(),
{
    if pairs.len() == 0 {
        let (runs, low, high, cur) = spec_width_state(pairs);
        assert(spec_expand_run(low, cur) =~= Seq::<(u32, i64)>::empty());
        assert(spec_expand_runs(runs) + spec_expand_run(low, cur) =~= pairs);
    } else {
        let prefix = pairs.drop_last();
        lemma_ascending_prefix(pairs);
        lemma_width_state(prefix);
        let (runs0, low0, high0, cur0) = spec_width_state(prefix);
        let p = pairs.last();
        if prefix.len() > 0 {
            assert(prefix.last() == pairs[pairs.len() - 2]);
            assert(p.0 > prefix.last().0);
        }
        if p.0 == high0 {
            let (runs, low, high, cur) = spec_width_state(pairs);
            assert(runs == runs0 && low == low0 && high == high0 + 1 && cur == cur0.push(p.1));
            assert(spec_expand_run(low0, cur0.push(p.1)) =~= spec_expand_run(low0, cur0).push(
                (p.0, p.1),
            ));
            assert(spec_expand_runs(runs) + spec_expand_run(low, cur) =~= (spec_expand_runs(runs0)
                + spec_expand_run(low0, cur0)).push(p));
            assert((spec_expand_runs(runs0) + spec_expand_run(low0, cur0)).push(p) =~= pairs);
        } else {
            let (runs, low, high, cur) = spec_width_state(pairs);
            assert(runs == runs0.push((low0, cur0)) && low == p.0 && high == p.0 + 1 && cur
                =~= seq![p.1]);
            // the new pair starts strictly after the closed run
            assert(p.0 > high0 || prefix.len() == 0);
            assert(spec_runs_gapped(runs0.push((low0, cur0)))) by {
                assert forall|i: int| 0 <= i < runs.len() - 1 implies (#[trigger] runs[i]).0
                    + runs[i].1.len() < runs[i + 1].0 by {
                    if i < runs0.len() - 1 {
                        assert(runs[i] == runs0[i] && runs[i + 1] == runs0[i + 1]);
                    } else {
                        assert(runs[i] == runs0.last() && runs[i + 1] == (low0, cur0));
                    }
                }
            }
            assert(spec_expand_run(p.0, seq![p.1]) =~= Seq::<(u32, i64)>::empty().push(p));
            assert(spec_expand_runs(runs) =~= spec_expand_runs(runs0) + spec_expand_run(
                low0,
                cur0,
            )) by {
                assert(runs.drop_last() =~= runs0);
                assert(runs.last() == (low0, cur0));
            }
            assert(spec_expand_runs(runs) + spec_expand_run(low, cur) =~= (spec_expand_runs(runs0)
                + spec_expand_run(low0, cur0)).push(p));
            assert((spec_expand_runs(runs0) + spec_expand_run(low0, cur0)).push(p) =~= pairs);
        }
    }
}

/// Law: width-array compression round-trips and is maximal.  For any
/// strictly ascending (glyph id, width) pairs, expanding the generated
/// runs reconstructs exactly the original pairs — every glyph id keeps its
/// width — and consecutive runs always leave a gap, so no run splits two
/// truly-contiguous ids and no run covers an id that was absent.
pub proof fn lemma_width_runs_round_trip(pairs: Seq<(u32, i64)>)
    requires
        spec_strictly_ascending(pairs),
    ensures
        spec_expand_runs(spec_width_runs(pairs)) == pairs,
        spec_runs_gapped(spec_width_runs(pairs)),
{
    lemma_width_state(pairs);
    let (runs, low, high, cur) = spec_width_state(pairs);
    let full = spec_width_runs(pairs);
    assert(full == runs.push((low, cur)));
    assert(full.drop_last() =~= runs);
    assert(full.last() == (low, cur));
    assert(spec_expand_runs(full) =~= spec_expand_runs(runs) + spec_expand_run(low, cur));
    assert(spec_expand_runs(full) =~= pairs);
    assert forall|i: int| 0 <= i < full.len() - 1 implies (#[trigger] full[i]).0 + full[i].1.len()
        < full[i + 1].0 by {
        if i < runs.len() - 1 {
            assert(full[i] == runs[i] && full[i + 1] == runs[i + 1]);
        } else {
            assert(full[i] == runs.last() && full[i + 1] == (low, cur));
        }
    }
}

/// Compresses (glyph id, width) pairs, given in strictly ascending id
/// order, into the `W`-array runs `(low, [w0 w1 ...])`.
pub fn compress_width_pairs(pairs: &Vec<(u32, i64)>) -> (r: Vec<(u32, Vec<i64>)>)
    requires
        spec_strictly_ascending(pairs@),
        forall|i: int| 0 <= i < pairs@.len() ==> (#[trigger] pairs@[i]).0 < 0xFFFF_FFFF,
    ensures
        r@.len() == spec_width_runs(pairs@).len(),
        forall|i: int|
            0 <= i < r@.len() ==> (#[trigger] r@[i]).0 == spec_width_runs(pairs@)[i].0
                && r@[i].1@ == spec_width_runs(pairs@)[i].1,
{
    let mut runs: Vec<(u32, Vec<i64>)> = Vec::new();
    let mut low: u32 = 0;
    let mut high: u32 = 0;
    let mut cur: Vec<i64> = Vec::new();
    let n = pairs.len();
    for i in 0..n
        invariant
            n == pairs@.len(),
            spec_strictly_ascending(pairs@),
            forall|j: int| 0 <= j < pairs@.len() ==> (#[trigger] pairs@[j]).0 < 0xFFFF_FFFF,
            ({
                let (sruns, slow, shigh, scur) = spec_width_state(pairs@.take(i as int));
                &&& runs@.len() == sruns.len()
                &&& (forall|j: int|
                    0 <= j < runs@.len() ==> (#[trigger] runs@[j]).0 == sruns[j].0 && runs@[j].1@
                        == sruns[j].1)
                &&& low == slow
                &&& high == shigh
                &&& cur@ == scur
            }),
            i > 0 ==> high == pairs@[i - 1].0 + 1,
    {
        proof {
            assert(pairs@.take(i + 1).drop_last() =~= pairs@.take(i as int));
            assert(pairs@.take(i + 1).last() == pairs@[i as int]);
            if i > 0 {
                assert(pairs@[i - 1].0 < pairs@[i as int].0);
            }
        }
        let p = pairs[i];
        if p.0 == high {
            cur.push(p.1);
            high = high + 1;
        } else {
            runs.push((low, cur));
            cur = Vec::new();
            cur.push(p.1);
            low = p.0;
            high = p.0 + 1;
        }
    }
    proof {
        assert(pairs@.take(n as int) =~= pairs@);
    }
    runs.push((low, cur));
    proof {
        let (sruns, slow, shigh, scur) = spec_width_state(pairs@);
        assert(spec_width_runs(pairs@) == sruns.push((slow, scur)));
        assert forall|j: int| 0 <= j < runs@.len() implies (#[trigger] runs@[j]).0
            == spec_width_runs(pairs@)[j].0 && runs@[j].1@ == spec_width_runs(pairs@)[j].1 by {
            if j < runs@.len() - 1 {
                assert(spec_width_runs(pairs@)[j] == sruns[j]);
            } else {
                assert(spec_width_runs(pairs@)[j] == (slow, scur));
            }
        }
    }
    runs
}

} // verus!
