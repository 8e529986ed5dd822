//! Mirror racing: which mirrors to probe, and the order in which to try them
//! once the probes have answered.

use vstd::prelude::*;
use crate::text::{chars_eq, chars_of};

verus! {

broadcast use vstd::seq_lib::group_to_multiset_ensures;

/// The views of a list of strings.
pub open spec fn strs_view(v: Seq<String>) -> Seq<Seq<char>> {
    v.map_values(|s: String| s@)
}

/// The mirror at `i` is probed: it is not empty and no earlier mirror is the same URL.
pub open spec fn is_probe_target(urls: Seq<Seq<char>>, i: int) -> bool {
    &&& 0 <= i < urls.len()
    &&& urls[i].len() > 0
    &&& forall|j: int| 0 <= j < i ==> urls[j] != urls[i]
}

/// The positions of the mirrors to probe, in order: each distinct non-empty URL
/// once, at its first position.
pub fn probe_targets(urls: &Vec<String>) -> (r: Vec<usize>)
    ensures
        forall|k: int| 0 <= k < r@.len() ==> is_probe_target(strs_view(urls@), #[trigger] r@[k] as int),
        forall|i: int| is_probe_target(strs_view(urls@), i) ==> r@.contains(i as usize),
        forall|a: int, b: int| 0 <= a < b < r@.len() ==> r@[a] < r@[b],
{
    let ghost u = strs_view(urls@);
    let mut r: Vec<usize> = Vec::new();
    let mut i: usize = 0;
    while i < urls.len()
        invariant
            u == strs_view(urls@),
            i <= urls@.len(),
            forall|k: int| 0 <= k < r@.len() ==> is_probe_target(u, #[trigger] r@[k] as int),
            forall|k: int| 0 <= k < r@.len() ==> #[trigger] r@[k] < i,
            forall|x: int| 0 <= x < i && is_probe_target(u, x) ==> r@.contains(x as usize),
            forall|a: int, b: int| 0 <= a < b < r@.len() ==> r@[a] < r@[b],
        decreases urls@.len() - i,
    {
        let cur = chars_of(urls[i].as_str());
        let mut fresh = cur.len() > 0;
        let mut j: usize = 0;
        while fresh && j < i
            invariant
                u == strs_view(urls@),
                i < urls@.len(),
                cur@ == u[i as int],
                j <= i,
                fresh ==> forall|k: int| 0 <= k < j ==> u[k] != u[i as int],
                fresh ==> u[i as int].len() > 0,
                !fresh ==> !is_probe_target(u, i as int),
            decreases i - j + (if fresh { 1int } else { 0int }),
        {
            let other = chars_of(urls[j].as_str());
            assert(u[j as int] == other@);
            if chars_eq(other.as_slice(), cur.as_slice()) {
                assert(u[j as int] == u[i as int]);
                fresh = false;
            } else {
                j = j + 1;
            }
        }
        let ghost old_r = r@;
        if fresh {
            r.push(i);
            assert(r@[r@.len() - 1] == i);
        }
        proof {
            assert forall|x: int| 0 <= x < i + 1 && is_probe_target(u, x) implies r@.contains(x as usize) by {
                if x < i {
                    let k = choose|k: int| 0 <= k < old_r.len() && old_r[k] == x as usize;
                    assert(r@[k] == old_r[k]);
                } else {
                    assert(r@[r@.len() - 1] == i);
                }
            }
        }
        i = i + 1;
    }
    r
}


/// Probe answers ordered by latency, fastest first.
pub open spec fn by_latency(s: Seq<(usize, u64)>) -> bool {
    forall|a: int, b: int| 0 <= a < b < s.len() ==> s[a].1 <= s[b].1
}

/// Orders the answers of the mirror probes (position, latency) fastest first.
pub fn sort_by_latency(answers: &Vec<(usize, u64)>) -> (r: Vec<(usize, u64)>)
    ensures
        by_latency(r@),
        r@.to_multiset() == answers@.to_multiset(),
{
    let mut r: Vec<(usize, u64)> = Vec::new();
    let mut k: usize = 0;
    while k < answers.len()
        invariant
            k <= answers@.len(),
            by_latency(r@),
            r@.to_multiset() == answers@.subrange(0, k as int).to_multiset(),
        decreases answers@.len() - k,
    {
        let x = answers[k];
        let mut p: usize = 0;
        while p < r.len() && r[p].1 <= x.1
            invariant
                p <= r@.len(),
                forall|q: int| 0 <= q < p ==> r@[q].1 <= x.1,
            decreases r@.len() - p,
        {
            p = p + 1;
        }
        let ghost old_r = r@;
        r.insert(p, x);
        assert(r@ == old_r.insert(p as int, x));
        assert forall|a: int, b: int| 0 <= a < b < r@.len() implies r@[a].1 <= r@[b].1 by {
            if b < p {
            } else if b == p {
            } else if a < p {
                assert(r@[b] == old_r[b - 1]);
            } else if a == p {
                assert(r@[b] == old_r[b - 1]);
                assert(old_r[p as int].1 > x.1);
                assert(old_r[p as int].1 <= old_r[b - 1].1 || b - 1 == p);
            } else {
                assert(r@[a] == old_r[a - 1]);
                assert(r@[b] == old_r[b - 1]);
            }
        }
        assert(answers@.subrange(0, k + 1) =~= answers@.subrange(0, k as int).push(x));
        k = k + 1;
    }
    assert(answers@.subrange(0, answers@.len() as int) =~= answers@);
    r
}

/// The mirrors named by `order`, in that order, skipping positions out of range.
pub open spec fn picked(urls: Seq<Seq<char>>, order: Seq<usize>) -> Seq<Seq<char>>
    decreases order.len(),
{
    if order.len() == 0 {
        seq![]
    } else {
        let rest = picked(urls, order.drop_last());
        let i = order.last() as int;
        if i < urls.len() {
            rest.push(urls[i])
        } else {
            rest
        }
    }
}

/// The probed mirrors among the first `n` (each distinct non-empty URL at its
/// first position) that `order` does not name, in the order given.
pub open spec fn leftovers(urls: Seq<Seq<char>>, order: Seq<usize>, n: int) -> Seq<Seq<char>>
    decreases n,
{
    if n <= 0 {
        seq![]
    } else {
        let rest = leftovers(urls, order, n - 1);
        if is_probe_target(urls, n - 1) && !order.contains((n - 1) as usize) {
            rest.push(urls[n - 1])
        } else {
            rest
        }
    }
}

/// The order in which to try mirrors: the answering ones in `order`, then each
/// silent distinct non-empty URL once, as a last resort; the given order when
/// none answered.
pub open spec fn mirror_order(urls: Seq<Seq<char>>, order: Seq<usize>) -> Seq<Seq<char>> {
    if order.len() == 0 {
        urls
    } else {
        picked(urls, order) + leftovers(urls, order, urls.len() as int)
    }
}

/// Whether `order` holds `i`.
fn holds(order: &Vec<usize>, i: usize) -> (r: bool)
    ensures
        r == order@.contains(i),
{
    let mut k: usize = 0;
    while k < order.len()
        invariant
            k <= order@.len(),
            forall|q: int| 0 <= q < k ==> order@[q] != i,
        decreases order@.len() - k,
    {
        if order[k] == i {
            return true;
        }
        k = k + 1;
    }
    false
}

/// The mirrors in the order to try them, given the positions of the mirrors
/// that answered, fastest first.
pub fn ordered_mirrors(urls: &Vec<String>, order: &Vec<usize>) -> (r: Vec<String>)
    ensures
        strs_view(r@) == mirror_order(strs_view(urls@), order@),
{
    let ghost u = strs_view(urls@);
    if order.len() == 0 {
        let r = urls.clone();
        assert(strs_view(r@) =~= u);
        return r;
    }
    let mut r: Vec<String> = Vec::new();
    let mut k: usize = 0;
    while k < order.len()
        invariant
            u == strs_view(urls@),
            k <= order@.len(),
            strs_view(r@) == picked(u, order@.subrange(0, k as int)),
        decreases order@.len() - k,
    {
        let i = order[k];
        assert(order@.subrange(0, k + 1).drop_last() =~= order@.subrange(0, k as int));
        if i < urls.len() {
            r.push(urls[i].clone());
        }
        assert(strs_view(r@) =~= picked(u, order@.subrange(0, k + 1)));
        k = k + 1;
    }
    assert(order@.subrange(0, order@.len() as int) =~= order@);
    let ghost head = strs_view(r@);
    let targets = probe_targets(urls);
    let mut n: usize = 0;
    while n < urls.len()
        invariant
            u == strs_view(urls@),
            forall|k: int| 0 <= k < targets@.len() ==> is_probe_target(u, #[trigger] targets@[k] as int),
            forall|i: int| is_probe_target(u, i) ==> targets@.contains(i as usize),
            n <= urls@.len(),
            head == picked(u, order@),
            strs_view(r@) == head + leftovers(u, order@, n as int),
        decreases urls@.len() - n,
    {
        let ghost before = strs_view(r@);
        assert(u[n as int] == urls@[n as int]@);
        let first = holds(&targets, n);
        assert(first == is_probe_target(u, n as int)) by {
            if first {
                let k = choose|k: int| 0 <= k < targets@.len() && targets@[k] == n;
                assert(is_probe_target(u, targets@[k] as int));
            }
        }
        if first && !holds(order, n) {
            let c = urls[n].clone();
            r.push(c);
            assert(strs_view(r@) =~= before.push(u[n as int]));
        } else {
            assert(strs_view(r@) =~= before);
        }
        assert(((n + 1) - 1) as usize == n);
        assert(strs_view(r@) =~= head + leftovers(u, order@, n + 1));
        n = n + 1;
    }
    r
}

/// When no probe answers, the mirrors are tried in the order given.
pub proof fn lemma_no_answer_keeps_order(urls: Seq<Seq<char>>)
    ensures
        mirror_order(urls, seq![]) == urls,
{
}

/// The mirrors in the order to try them, from the probe answers (position,
/// latency): answering mirrors fastest first, then the silent ones.
pub fn mirrors_to_try(urls: &Vec<String>, answers: &Vec<(usize, u64)>) -> (r: Vec<String>)
    ensures
        exists|s: Seq<(usize, u64)>|
            by_latency(s) && s.to_multiset() == answers@.to_multiset() && strs_view(r@)
                == mirror_order(strs_view(urls@), s.map_values(|a: (usize, u64)| a.0)),
        answers@.len() == 0 ==> strs_view(r@) == strs_view(urls@),
{
    let order = answer_order(answers);
    ordered_mirrors(urls, &order)
}

/// The positions of the mirrors that answered, fastest first.
pub fn answer_order(answers: &Vec<(usize, u64)>) -> (r: Vec<usize>)
    ensures
        r@.len() == answers@.len(),
        exists|s: Seq<(usize, u64)>|
            by_latency(s) && s.to_multiset() == answers@.to_multiset() && r@ == s.map_values(
                |a: (usize, u64)| a.0,
            ),
{
    let sorted = sort_by_latency(answers);
    let mut r: Vec<usize> = Vec::new();
    let mut k: usize = 0;
    while k < sorted.len()
        invariant
            k <= sorted@.len(),
            r@ == sorted@.subrange(0, k as int).map_values(|a: (usize, u64)| a.0),
        decreases sorted@.len() - k,
    {
        r.push(sorted[k].0);
        k = k + 1;
        assert(r@ =~= sorted@.subrange(0, k as int).map_values(|a: (usize, u64)| a.0));
    }
    assert(sorted@.subrange(0, sorted@.len() as int) =~= sorted@);
    assert(sorted@.len() == answers@.len()) by {
        assert(sorted@.to_multiset().len() == answers@.to_multiset().len());
    }
    r
}

} // verus!
