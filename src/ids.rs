//! Normalisation of identifier lists: sorted, without repeats.
use vstd::prelude::*;

verus! {

/// Strictly increasing, hence sorted and free of repeats.
pub open spec fn strictly_increasing(s: Seq<u64>) -> bool {
    forall|a: int, b: int| 0 <= a < b < s.len() ==> s[a] < s[b]
}

/// `ids` sorted in increasing order with repeats removed.
pub fn normalize_ids(ids: &[u64]) -> (r: Vec<u64>)
    ensures
        strictly_increasing(r@),
        r@.to_set() == ids@.to_set(),
{
    let mut out: Vec<u64> = Vec::new();
    let mut i: usize = 0;
    while i < ids.len()
        invariant
            0 <= i <= ids@.len(),
            strictly_increasing(out@),
            forall|v: u64| out@.contains(v) <==> ids@.subrange(0, i as int).contains(v),
        decreases ids@.len() - i,
    {
        let x = ids[i];
        let mut j: usize = 0;
        while j < out.len() && out[j] < x
            invariant
                0 <= j <= out@.len(),
                forall|k: int| 0 <= k < j ==> out@[k] < x,
            decreases out@.len() - j,
        {
            j = j + 1;
        }
        let ghost before = out@;
        if j < out.len() && out[j] == x {
            assert(out@[j as int] == x);
            assert(forall|v: u64| out@.contains(v) <==> (before.contains(v) || v == x));
        } else {
            out.insert(j, x);
            assert forall|a: int, b: int| 0 <= a < b < out@.len() implies out@[a] < out@[b] by {
                if b < j {
                    assert(out@[a] == before[a] && out@[b] == before[b]);
                } else if b == j {
                    assert(out@[a] == before[a]);
                } else if a < j {
                    assert(out@[a] == before[a] && out@[b] == before[b - 1]);
                    assert(before[j as int] > x);
                    if b - 1 > j {
                        assert(before[j as int] < before[b - 1]);
                    }
                } else if a == j {
                    assert(out@[b] == before[b - 1]);
                    assert(before[j as int] > x);
                    if b - 1 > j {
                        assert(before[j as int] < before[b - 1]);
                    }
                } else {
                    assert(out@[a] == before[a - 1] && out@[b] == before[b - 1]);
                }
            }
            assert forall|v: u64| out@.contains(v) <==> (before.contains(v) || v == x) by {
                if out@.contains(v) {
                    let k = choose|k: int| 0 <= k < out@.len() && out@[k] == v;
                    if k < j {
                        assert(before[k] == v);
                    } else if k > j {
                        assert(before[k - 1] == v);
                    }
                }
                if before.contains(v) {
                    let k = choose|k: int| 0 <= k < before.len() && before[k] == v;
                    if k < j {
                        assert(out@[k] == v);
                    } else {
                        assert(out@[k + 1] == v);
                    }
                }
                if v == x {
                    assert(out@[j as int] == x);
                }
            }
        }
        assert forall|v: u64| ids@.subrange(0, i + 1).contains(v) <==> (ids@.subrange(
            0,
            i as int,
        ).contains(v) || v == x) by {
            let p = ids@.subrange(0, i + 1);
            let q = ids@.subrange(0, i as int);
            if p.contains(v) {
                let k = choose|k: int| 0 <= k < p.len() && p[k] == v;
                if k < i {
                    assert(q[k] == v);
                }
            }
            if q.contains(v) {
                let k = choose|k: int| 0 <= k < q.len() && q[k] == v;
                assert(p[k] == v);
            }
            if v == x {
                assert(p[i as int] == x);
            }
        }
        assert forall|v: u64| out@.contains(v) <==> ids@.subrange(0, i + 1).contains(v) by {
            assert(before.contains(v) <==> ids@.subrange(0, i as int).contains(v));
        }
        i = i + 1;
    }
    assert(ids@.subrange(0, i as int) =~= ids@);
    assert(out@.to_set() =~= ids@.to_set());
    out
}

} // verus!
