//! Maximal runs of equal keys in a sequence.
//!
//! History views group consecutive observations that share something: a
//! battery between two gaps, or a collection instant. A missing key marks a
//! separator that belongs to no run.

use vstd::prelude::*;

verus! {

/// The text of each key.
pub open spec fn key_views(keys: Seq<Option<String>>) -> Seq<Option<Seq<char>>> {
    keys.map_values(
        |key: Option<String>|
            match key {
                Some(k) => Some(k@),
                None => None,
            },
    )
}

/// Whether `keys[s..e]` is a maximal run of one present key.
pub open spec fn is_run(keys: Seq<Option<Seq<char>>>, s: int, e: int) -> bool {
    &&& 0 <= s < e <= keys.len()
    &&& keys[s] is Some
    &&& forall|i: int| s <= i < e ==> #[trigger] keys[i] == keys[s]
    &&& (s == 0 || keys[s - 1] != keys[s])
    &&& (e == keys.len() || keys[e] != keys[s])
}

/// Whether `runs` lists, in order, every maximal run of present keys.
pub open spec fn are_runs(keys: Seq<Option<Seq<char>>>, runs: Seq<(usize, usize)>) -> bool {
    &&& forall|k: int| 0 <= k < runs.len() ==> is_run(keys, #[trigger] runs[k].0 as int, runs[k].1 as int)
    &&& forall|a: int, b: int| 0 <= a < b < runs.len() ==> #[trigger] runs[a].1 <= #[trigger] runs[b].0
    &&& forall|i: int|
        0 <= i < keys.len() && (#[trigger] keys[i]) is Some ==> exists|k: int|
            0 <= k < runs.len() && (#[trigger] runs[k]).0 <= i < runs[k].1
}

fn same_key(a: &Option<String>, b: &Option<String>) -> (r: bool)
    ensures
        r == (key_views(seq![*a])[0] == key_views(seq![*b])[0]),
{
    match (a, b) {
        (Some(x), Some(y)) => x.eq(y),
        (None, None) => true,
        _ => false,
    }
}

/// Every maximal run of equal present keys, in order.
pub fn maximal_runs(keys: &[Option<String>]) -> (r: Vec<(usize, usize)>)
    ensures
        are_runs(key_views(keys@), r@),
{
    let ghost kv = key_views(keys@);
    let n = keys.len();
    let mut out: Vec<(usize, usize)> = Vec::new();
    let mut i: usize = 0;
    while i < n
        invariant
            n == keys@.len(),
            kv == key_views(keys@),
            kv.len() == n,
            i <= n,
            forall|k: int| 0 <= k < out@.len() ==> is_run(kv, #[trigger] out@[k].0 as int, out@[k].1 as int),
            forall|a: int, b: int| 0 <= a < b < out@.len() ==> #[trigger] out@[a].1 <= #[trigger] out@[b].0,
            forall|k: int| 0 <= k < out@.len() ==> #[trigger] out@[k].1 <= i,
            forall|x: int|
                0 <= x < i && (#[trigger] kv[x]) is Some ==> exists|k: int|
                    0 <= k < out@.len() && (#[trigger] out@[k]).0 <= x < out@[k].1,
            i < n && i > 0 ==> kv[i - 1] is None || kv[i - 1] != kv[i as int],
        decreases n - i,
    {
        proof {
            assert(kv[i as int] == key_views(seq![keys@[i as int]])[0]);
        }
        match &keys[i] {
            None => {
                i = i + 1;
                proof {
                    assert(kv[i - 1] is None);
                }
            },
            Some(_) => {
                let mut j: usize = i + 1;
                while j < n && same_key(&keys[j], &keys[i])
                    invariant
                        n == keys@.len(),
                        kv == key_views(keys@),
                        kv.len() == n,
                        i < j <= n,
                        kv[i as int] is Some,
                        forall|x: int| i <= x < j ==> #[trigger] kv[x] == kv[i as int],
                    decreases n - j,
                {
                    proof {
                        assert(kv[j as int] == key_views(seq![keys@[j as int]])[0]);
                    }
                    j = j + 1;
                }
                proof {
                    if j < n {
                        assert(kv[j as int] == key_views(seq![keys@[j as int]])[0]);
                    }
                    assert(is_run(kv, i as int, j as int));
                }
                let ghost old_out = out@;
                out.push((i, j));
                proof {
                    assert forall|x: int|
                        0 <= x < j && (#[trigger] kv[x]) is Some implies exists|k: int|
                            0 <= k < out@.len() && (#[trigger] out@[k]).0 <= x < out@[k].1 by {
                        if x < i {
                            let k = choose|k: int|
                                0 <= k < old_out.len() && (#[trigger] old_out[k]).0 <= x < old_out[k].1;
                            assert(out@[k] == old_out[k]);
                        } else {
                            assert(out@[old_out.len() as int] == (i, j));
                        }
                    }
                }
                i = j;
            },
        }
    }
    out
}

} // verus!
