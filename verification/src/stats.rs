//! The five-number loudness summary of one event's waveform.
//!
//! The analyzer takes the stored samples, replaces each by its absolute
//! amplitude, sorts ascending and reads the summary off the sorted values
//! by position: minimum, the values at indices `len/4`, `len/2` and
//! `3*len/4`, and maximum.  The positional (integer-floor) indexing is the
//! defined semantics of this design, not an approximation of interpolated
//! quantiles.  An empty waveform has no summary.

use vstd::prelude::*;
use vstd::relations::{sorted_by, total_ordering};
use vstd::seq_lib::lemma_sorted_unique;
use crate::detector::abs_amplitude;

verus! {

/// Ascending order on absolute amplitudes.
pub open spec fn amplitude_le() -> spec_fn(u16, u16) -> bool {
    |a: u16, b: u16| a <= b
}

/// The absolute amplitude of each sample, in waveform order.
pub open spec fn abs_values(s: Seq<i16>) -> Seq<u16> {
    s.map_values(|x: i16| abs_amplitude(x))
}

/// Five-number summary of absolute amplitude, on the scale where 32767 is
/// full scale 1.0; amplitudes are clamped to that range, so the summary
/// stays within the normalized scale.
#[derive(Clone, Copy, Debug, PartialEq, Eq, Structural)]
pub struct AudioStats {
    pub min: u16,
    pub q1: u16,
    pub median: u16,
    pub q3: u16,
    pub max: u16,
}

/// The summary of a non-empty waveform: positions 0, `n/4`, `n/2`,
/// `3*n/4` and `n-1` of the ascending absolute amplitudes.
pub open spec fn five_number_summary(s: Seq<i16>) -> AudioStats {
    let sorted = abs_values(s).sort_by(amplitude_le());
    let n = sorted.len() as int;
    AudioStats {
        min: sorted[0],
        q1: sorted[n / 4],
        median: sorted[n / 2],
        q3: sorted[3 * n / 4],
        max: sorted[n - 1],
    }
}

pub proof fn lemma_amplitude_le_total()
    ensures
        total_ordering(amplitude_le()),
{
}

/// Sorts a vector of amplitudes ascending in place.
fn sort_amplitudes(v: &mut Vec<u16>)
    ensures
        final(v)@.len() == old(v)@.len(),
        final(v)@.to_multiset() == old(v)@.to_multiset(),
        sorted_by(final(v)@, amplitude_le()),
{
    broadcast use vstd::seq_lib::to_multiset_update;

    let n = v.len();
    if n <= 1 {
        return;
    }
    let mut i: usize = 1;
    while i < n
        invariant
            1 <= i <= n,
            n == v@.len(),
            v@.to_multiset() == old(v)@.to_multiset(),
            sorted_by(v@.take(i as int), amplitude_le()),
        decreases n - i,
    {
        let ghost x = v@[i as int];
        let mut j: usize = i;
        while j > 0 && v[j - 1] > v[j]
            invariant
                j <= i < n == v@.len(),
                v@.to_multiset() == old(v)@.to_multiset(),
                v@[j as int] == x,
                sorted_by(v@.take(j as int), amplitude_le()),
                forall|k: int| j < k <= i ==> x < #[trigger] v@[k],
                forall|a: int, b: int|
                    j < a <= b <= i ==> #[trigger] v@[a] <= #[trigger] v@[b],
                forall|a: int, b: int| 0 <= a < j < b <= i ==> #[trigger] v@[a] <= #[trigger] v@[b],
            decreases j,
        {
            let hi = v[j];
            let lo = v[j - 1];
            let ghost before = v@;
            v.set(j - 1, hi);
            v.set(j, lo);
            proof {
                broadcast use vstd::multiset::group_multiset_axioms;
                broadcast use vstd::seq_lib::group_to_multiset_ensures;

                let s1 = before.update(j - 1, hi);
                let s2 = s1.update(j as int, lo);
                vstd::seq_lib::to_multiset_update(before, j - 1, hi);
                vstd::seq_lib::to_multiset_update(s1, j as int, lo);
                assert(s1[j as int] == hi && before[j - 1] == lo);
                assert(before.contains(lo)) by {
                    assert(before[j - 1] == lo);
                }
                assert(before.to_multiset().count(lo) > 0);
                assert(s2.to_multiset() =~= before.to_multiset());
                assert(v@ =~= s2);
                assert(v@.to_multiset() =~= before.to_multiset());
                assert forall|a: int| 0 <= a < j - 1 implies #[trigger] v@[a] <= v@[j as int] by {
                    assert(amplitude_le()(before.take(j as int)[a], before.take(j as int)[j - 1]));
                }
                assert(v@.take(j - 1) =~= before.take(j - 1));
                assert forall|a: int, b: int| 0 <= a < b < j - 1 implies #[trigger] amplitude_le()(
                    v@.take(j - 1)[a],
                    v@.take(j - 1)[b],
                ) by {
                    assert(amplitude_le()(before.take(j as int)[a], before.take(j as int)[b]));
                }
                assert(sorted_by(v@.take(j - 1), amplitude_le()));
            }
            j = j - 1;
        }
        proof {
            assert forall|a: int, b: int| 0 <= a <= b <= i implies #[trigger] amplitude_le()(
                v@.take(i + 1)[a],
                v@.take(i + 1)[b],
            ) by {
                let s = v@.take(i + 1);
                if b < j {
                    assert(amplitude_le()(v@.take(j as int)[a], v@.take(j as int)[b]));
                } else if a < j && b == j {
                    assert(amplitude_le()(v@.take(j as int)[a], v@.take(j as int)[j - 1]));
                    assert(v@[j - 1] <= v@[j as int]);
                } else if a == j && b == j {
                } else if a == j && b > j {
                    assert(x < v@[b]);
                } else if a < j && b > j {
                    assert(v@[a] <= v@[b]);
                } else {
                    assert(j < a <= b <= i);
                    assert(v@[a] <= v@[b]);
                }
            }
            assert(sorted_by(v@.take(i + 1), amplitude_le()));
        }
        i = i + 1;
    }
    proof {
        assert(v@.take(n as int) =~= v@);
    }
}

/// Summarises one waveform: `None` for an empty one, otherwise the
/// five-number summary of its absolute amplitudes, which is always
/// monotonically non-decreasing from minimum to maximum.
pub fn analyze(samples: &Vec<i16>) -> (r: Option<AudioStats>)
    ensures
        r is Some <==> samples@.len() > 0,
        samples@.len() > 0 ==> r == Some(five_number_summary(samples@)),
        r matches Some(st) ==> st.min <= st.q1 <= st.median <= st.q3 <= st.max,
{
    if samples.len() == 0 {
        return None;
    }
    let mut amps: Vec<u16> = Vec::new();
    let mut i: usize = 0;
    while i < samples.len()
        invariant
            i <= samples@.len(),
            amps@.len() == i,
            forall|k: int| 0 <= k < i ==> amps@[k] == abs_amplitude(samples@[k]),
        decreases samples@.len() - i,
    {
        let s = samples[i];
        let a: u16 = if s >= 0 {
            s as u16
        } else if s == i16::MIN {
            32767
        } else {
            (-s) as u16
        };
        assert(a == abs_amplitude(samples@[i as int]));
        amps.push(a);
        i = i + 1;
    }
    proof {
        assert(amps@ =~= abs_values(samples@));
    }
    sort_amplitudes(&mut amps);
    proof {
        let target = abs_values(samples@).sort_by(amplitude_le());
        abs_values(samples@).lemma_sort_by_ensures(amplitude_le());
        lemma_amplitude_le_total();
        lemma_sorted_unique(amps@, target, amplitude_le());
        assert(amps@ =~= target);
    }
    let n = amps.len();
    assert(n == abs_values(samples@).sort_by(amplitude_le()).len());
    assert(n >= 1);
    let q3_index: usize = ((3u128 * (n as u128)) / 4) as usize;
    proof {
        assert(3 * (n as int) / 4 < n as int) by (nonlinear_arith)
            requires n >= 1;
        assert(q3_index == 3 * (n as int) / 4);
    }
    let st = AudioStats {
        min: amps[0],
        q1: amps[n / 4],
        median: amps[n / 2],
        q3: amps[q3_index],
        max: amps[n - 1],
    };
    proof {
        let s = amps@;
        let ni = n as int;
        assert(ni / 4 <= ni / 2) by (nonlinear_arith)
            requires ni >= 1;
        assert(ni / 2 <= 3 * ni / 4) by (nonlinear_arith)
            requires ni >= 1;
        assert(3 * ni / 4 <= ni - 1) by (nonlinear_arith)
            requires ni >= 1;
        assert(amplitude_le()(s[0], s[ni / 4]));
        assert(amplitude_le()(s[ni / 4], s[ni / 2]));
        assert(amplitude_le()(s[ni / 2], s[3 * ni / 4]));
        assert(amplitude_le()(s[3 * ni / 4], s[ni - 1]));
    }
    Some(st)
}

} // verus!
