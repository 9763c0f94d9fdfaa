//! Round-robin scatter/gather scheduling.
//!
//! A batch of `n` items is partitioned over `w` worker slots: the item at
//! input index `i` goes to slot `i % w`, and each slot sees its items in
//! input order. Results are reassembled by visiting the slots cyclically,
//! `0, 1, ..., w - 1, 0, 1, ...`, taking one result per visit. Because the
//! collection pattern equals the dispatch pattern and every slot preserves
//! the order of its own items, the merged output is in input order, with no
//! sequence numbers attached to any item.

use vstd::prelude::*;
use vstd::arithmetic::div_mod::*;
use vstd::arithmetic::mul::*;
use vstd::multiset::Multiset;

verus! {

/// How many of the input indices `0, ..., n - 1` round-robin dispatch over
/// `w` slots assigns to slot `k`: the number of `i < n` with `i % w == k`.
pub open spec fn slot_len(n: int, w: int, k: int) -> int {
    if n > k {
        (n - 1 - k) / w + 1
    } else {
        0
    }
}

/// The subsequence of `s` that round-robin dispatch over `w` slots hands to
/// slot `k`, in input order: the elements at indices `k`, `k + w`, `k + 2*w`, ...
pub open spec fn slot_seq<T>(s: Seq<T>, w: int, k: int) -> Seq<T> {
    Seq::new(slot_len(s.len() as int, w, k) as nat, |j: int| s[j * w + k])
}

/// All `w` slot subsequences of `s`, in slot order.
pub open spec fn dispatch_seq<T>(s: Seq<T>, w: int) -> Seq<Seq<T>> {
    Seq::new(w as nat, |k: int| slot_seq(s, w, k))
}

/// The round-robin merge of `boxes`: a sequence of length `n` whose element
/// `i` is taken from box `i % boxes.len()` at position `i / boxes.len()`.
pub open spec fn round_robin_merge<T>(boxes: Seq<Seq<T>>, n: int) -> Seq<T> {
    Seq::new(n as nat, |i: int| boxes[i % (boxes.len() as int)][i / (boxes.len() as int)])
}

/// Slot lengths are never negative.
pub proof fn lemma_slot_len_nonneg(n: int, w: int, k: int)
    requires
        1 <= w,
        0 <= k,
    ensures
        0 <= slot_len(n, w, k),
{
    if n > k {
        lemma_div_pos_is_pos(n - 1 - k, w);
    }
}

/// After `i` items have been dispatched, the slot that receives item `i`,
/// slot `i % w`, holds exactly `i / w` items.
proof fn lemma_slot_len_at(i: int, w: int)
    requires
        1 <= w,
        0 <= i,
    ensures
        slot_len(i, w, i % w) == i / w,
{
    let k: int = i % w;
    let q: int = i / w;
    lemma_fundamental_div_mod(i, w);
    lemma_mod_division_less_than_divisor(i, w);
    lemma_div_pos_is_pos(i, w);
    if i > k {
        assert(w * q == i - k);
        assert(q >= 1) by (nonlinear_arith)
            requires
                w * q > 0,
                1 <= w,
                0 <= q,
        ;
        assert(w * q - 1 == (q - 1) * w + (w - 1)) by (nonlinear_arith);
        lemma_fundamental_div_mod_converse_div(w * q - 1, w, q - 1, w - 1);
        assert(slot_len(i, w, k) == (i - 1 - k) / w + 1);
        assert(i - 1 - k == w * q - 1);
    } else {
        assert(w * q == i - k);
        assert(w * q <= 0);
        assert(q <= 0) by (nonlinear_arith)
            requires
                w * q <= 0,
                1 <= w,
        ;
        assert(q == 0);
    }
}

/// Dispatching one more item grows the slot it is assigned to by one and
/// leaves every other slot unchanged.
proof fn lemma_slot_len_step(n: int, w: int, k: int)
    requires
        1 <= w,
        0 <= k < w,
        0 <= n,
    ensures
        slot_len(n + 1, w, k) == slot_len(n, w, k) + if n % w == k {
            1int
        } else {
            0int
        },
{
    let q: int = n / w;
    let r: int = n % w;
    lemma_fundamental_div_mod(n, w);
    lemma_mod_division_less_than_divisor(n, w);
    lemma_div_pos_is_pos(n, w);
    if r == k {
        lemma_slot_len_at(n, w);
        assert(n >= k) by (nonlinear_arith)
            requires
                n == w * q + k,
                0 <= q,
                1 <= w,
                0 <= k,
        ;
        assert(n + 1 > k);
        assert(n - k == q * w + 0) by (nonlinear_arith)
            requires
                n == w * q + k,
        ;
        lemma_fundamental_div_mod_converse_div(n - k, w, q, 0);
        assert(slot_len(n + 1, w, k) == (n - k) / w + 1);
    } else {
        if n <= k {
            if n == k {
                lemma_small_mod(n as nat, w as nat);
                assert(false);
            }
            assert(slot_len(n, w, k) == 0);
            assert(slot_len(n + 1, w, k) == 0);
        } else {
            if r > k {
                assert(n - k == q * w + (r - k)) by (nonlinear_arith)
                    requires
                        n == w * q + r,
                ;
                lemma_fundamental_div_mod_converse_div(n - k, w, q, r - k);
                lemma_fundamental_div_mod_converse_div(n - 1 - k, w, q, r - k - 1);
                assert(n - 1 - k == q * w + (r - k - 1)) by (nonlinear_arith)
                    requires
                        n == w * q + r,
                ;
            } else {
                assert(n - k == (q - 1) * w + (w + r - k)) by (nonlinear_arith)
                    requires
                        n == w * q + r,
                ;
                lemma_fundamental_div_mod_converse_div(n - k, w, q - 1, w + r - k);
                assert(n - 1 - k == (q - 1) * w + (w + r - k - 1)) by (nonlinear_arith)
                    requires
                        n == w * q + r,
                ;
                lemma_fundamental_div_mod_converse_div(n - 1 - k, w, q - 1, w + r - k - 1);
            }
            assert((n - k) / w == (n - 1 - k) / w);
        }
    }
}

/// Slot `k` holds the items at input indices `j * w + k`: such an index is
/// in the batch exactly when `j` is below the slot's length.
proof fn lemma_slot_len_bound(n: int, w: int, k: int, j: int)
    requires
        1 <= w,
        0 <= k < w,
        0 <= j,
    ensures
        j * w + k < n <==> j < slot_len(n, w, k),
{
    if j * w + k < n {
        assert(0 <= j * w) by (nonlinear_arith)
            requires
                0 <= j,
                1 <= w,
        ;
        assert(n > k);
        lemma_div_by_multiple(j, w);
        lemma_div_is_ordered(j * w, n - 1 - k, w);
        assert(j <= (n - 1 - k) / w);
    }
    if j < slot_len(n, w, k) {
        if n > k {
            let m: int = n - 1 - k;
            assert(j <= m / w);
            lemma_fundamental_div_mod(m, w);
            lemma_mod_division_less_than_divisor(m, w);
            lemma_mul_inequality(j, m / w, w);
            assert((m / w) * w <= m) by (nonlinear_arith)
                requires
                    m == w * (m / w) + m % w,
                    m % w >= 0,
            ;
            assert(j * w + k <= n - 1);
        }
    }
}

/// Where input item `i` sits after dispatch: in slot `i % w`, at position
/// `i / w`, unchanged.
pub proof fn lemma_slot_seq_index<T>(s: Seq<T>, w: int, i: int)
    requires
        1 <= w,
        0 <= i < s.len(),
    ensures
        0 <= i % w < w,
        0 <= i / w < slot_seq(s, w, i % w).len(),
        slot_seq(s, w, i % w)[i / w] == s[i],
{
    let k: int = i % w;
    let q: int = i / w;
    lemma_fundamental_div_mod(i, w);
    lemma_mod_division_less_than_divisor(i, w);
    lemma_div_pos_is_pos(i, w);
    lemma_slot_len_nonneg(s.len() as int, w, k);
    assert(q * w + k == i) by (nonlinear_arith)
        requires
            i == w * q + k,
    ;
    lemma_slot_len_bound(s.len() as int, w, k, q);
}

/// Dispatching the prefix of `s` one item longer appends `s[i]` to the slot
/// `i % w` and leaves every other slot as it was.
proof fn lemma_slot_seq_step<T>(s: Seq<T>, w: int, k: int, i: int)
    requires
        1 <= w,
        0 <= k < w,
        0 <= i < s.len(),
    ensures
        slot_seq(s.take(i + 1), w, k) == if i % w == k {
            slot_seq(s.take(i), w, k).push(s[i])
        } else {
            slot_seq(s.take(i), w, k)
        },
{
    let pre = slot_seq(s.take(i), w, k);
    let post = slot_seq(s.take(i + 1), w, k);
    lemma_slot_len_step(i, w, k);
    lemma_slot_len_nonneg(i, w, k);
    assert forall|j: int| 0 <= j < pre.len() implies post[j] == pre[j] by {
        lemma_slot_len_bound(i, w, k, j);
        assert(0 <= j * w) by (nonlinear_arith)
            requires
                0 <= j,
                1 <= w,
        ;
    }
    if i % w == k {
        lemma_slot_len_at(i, w);
        let q: int = i / w;
        lemma_fundamental_div_mod(i, w);
        lemma_div_pos_is_pos(i, w);
        assert(q * w + k == i) by (nonlinear_arith)
            requires
                i == w * q + k,
        ;
        assert(post[q] == s[i]);
        assert(post =~= pre.push(s[i]));
    } else {
        assert(post =~= pre);
    }
}

/// Partition `jobs` over `w` worker slots by round-robin dispatch: the item
/// at input index `i` goes to slot `i % w`, and each slot receives its items
/// in input order.
pub fn dispatch<T>(jobs: Vec<T>, w: usize) -> (inboxes: Vec<Vec<T>>)
    requires
        1 <= w,
    ensures
        inboxes@.len() == w as int,
        forall|k: int|
            0 <= k < w ==> (#[trigger] inboxes@[k])@ == slot_seq(jobs@, w as int, k),
{
    let ghost orig = jobs@;
    let mut jobs = jobs;
    let mut inboxes: Vec<Vec<T>> = Vec::new();
    let mut k: usize = 0;
    while k < w
        invariant
            k <= w,
            inboxes@.len() == k as int,
            forall|t: int| 0 <= t < k ==> (#[trigger] inboxes@[t])@ == Seq::<T>::empty(),
        decreases w - k,
    {
        inboxes.push(Vec::new());
        k += 1;
    }
    proof {
        assert forall|t: int| 0 <= t < w implies (#[trigger] inboxes@[t])@ == slot_seq(
            orig.take(0),
            w as int,
            t,
        ) by {
            lemma_slot_len_nonneg(0, w as int, t);
            assert(slot_seq(orig.take(0), w as int, t) =~= Seq::<T>::empty());
        }
    }
    let n: usize = jobs.len();
    proof {
        assert(orig.len() == n as int);
    }
    let mut i: usize = 0;
    while jobs.len() > 0
        invariant
            1 <= w,
            orig.len() <= usize::MAX,
            i + jobs@.len() == orig.len(),
            jobs@ == orig.skip(i as int),
            inboxes@.len() == w as int,
            forall|t: int|
                0 <= t < w ==> (#[trigger] inboxes@[t])@ == slot_seq(
                    orig.take(i as int),
                    w as int,
                    t,
                ),
        decreases jobs@.len(),
    {
        let x = jobs.remove(0);
        proof {
            assert(orig.skip(i as int).remove(0) =~= orig.skip(i as int + 1));
            assert(x == orig[i as int]);
        }
        let k: usize = i % w;
        proof {
            lemma_mod_division_less_than_divisor(i as int, w as int);
        }
        let ghost before = inboxes@;
        inboxes[k].push(x);
        proof {
            assert forall|t: int| 0 <= t < w implies (#[trigger] inboxes@[t])@ == slot_seq(
                orig.take(i as int + 1),
                w as int,
                t,
            ) by {
                lemma_slot_seq_step(orig, w as int, t, i as int);
                if t != k as int {
                    assert(inboxes@[t] == before[t]);
                }
            }
        }
        i += 1;
    }
    proof {
        assert(orig.take(orig.len() as int) =~= orig);
    }
    inboxes
}

/// Reassemble a batch of `n` results from the `w` worker outboxes by visiting
/// them cyclically, `0, 1, ..., w - 1, 0, 1, ...`, taking the front result at
/// each visit and appending it to the output.
///
/// The outboxes must hold exactly the round-robin share of an `n`-item batch,
/// which is what each worker produces when it answers every item it was
/// dispatched. The output then has the result from box `i % w` at position
/// `i / w` as its element `i` — for outboxes produced in dispatch order, the
/// original input order.
pub fn collect_round_robin<T>(outboxes: Vec<Vec<T>>, n: usize) -> (out: Vec<T>)
    requires
        1 <= outboxes@.len(),
        forall|k: int|
            0 <= k < outboxes@.len() ==> (#[trigger] outboxes@[k])@.len() == slot_len(
                n as int,
                outboxes@.len() as int,
                k,
            ),
    ensures
        out@.len() == n as int,
        forall|i: int|
            0 <= i < n ==> #[trigger] out@[i] == outboxes@[i % (outboxes@.len() as int)]@[i / (
            outboxes@.len() as int)],
        out@ == round_robin_merge(outboxes@.map_values(|b: Vec<T>| b@), n as int),
{
    let ghost orig = outboxes@.map_values(|b: Vec<T>| b@);
    let mut outboxes = outboxes;
    let w: usize = outboxes.len();
    let mut out: Vec<T> = Vec::new();
    let mut i: usize = 0;
    proof {
        assert forall|k: int| 0 <= k < w implies (#[trigger] outboxes@[k])@ == orig[k].skip(
            slot_len(0, w as int, k),
        ) by {
            lemma_slot_len_nonneg(0, w as int, k);
            assert(slot_len(0, w as int, k) == 0);
            assert(orig[k].skip(0) =~= orig[k]);
        }
    }
    while i < n
        invariant
            1 <= w == outboxes@.len(),
            i <= n,
            orig.len() == w as int,
            out@.len() == i as int,
            forall|t: int|
                0 <= t < i ==> #[trigger] out@[t] == orig[t % (w as int)][t / (w as int)],
            forall|k: int|
                0 <= k < w ==> (#[trigger] outboxes@[k])@ == orig[k].skip(
                    slot_len(i as int, w as int, k),
                ),
            forall|k: int| 0 <= k < w ==> orig[k].len() == slot_len(n as int, w as int, k),
        decreases n - i,
    {
        let k: usize = i % w;
        proof {
            lemma_mod_division_less_than_divisor(i as int, w as int);
            lemma_slot_len_at(i as int, w as int);
            lemma_div_pos_is_pos(i as int, w as int);
            lemma_slot_len_bound(n as int, w as int, k as int, (i as int) / (w as int));
            lemma_fundamental_div_mod(i as int, w as int);
            assert(((i as int) / (w as int)) * (w as int) + k as int == i as int)
                by (nonlinear_arith)
                requires
                    i as int == (w as int) * ((i as int) / (w as int)) + k as int,
            ;
            assert(((i as int) / (w as int)) < slot_len(n as int, w as int, k as int));
            assert(orig[k as int].skip((i as int) / (w as int)).len() > 0);
        }
        let x = outboxes[k].remove(0);
        proof {
            let c: int = slot_len(i as int, w as int, k as int);
            assert(x == orig[k as int].skip(c)[0]);
            assert(x == orig[k as int][c + 0]);
            assert(orig[k as int].skip(c).remove(0) =~= orig[k as int].skip(c + 1));
            lemma_slot_len_step(i as int, w as int, k as int);
        }
        out.push(x);
        proof {
            assert forall|t: int| 0 <= t < w implies (#[trigger] outboxes@[t])@ == orig[t].skip(
                slot_len(i as int + 1, w as int, t),
            ) by {
                lemma_slot_len_step(i as int, w as int, t);
            }
        }
        i += 1;
    }
    proof {
        assert(out@ =~= round_robin_merge(orig, n as int));
    }
    out
}

/// Round-robin collection in the dispatch pattern restores the input order:
/// merging the slot subsequences of `s` cyclically yields `s` itself, with no
/// sequence numbers attached to any item. Item `i` was sent to slot `i % w`
/// as that slot's `i / w`-th item, and the merge reads slot `i % w` for the
/// `i / w`-th time exactly at output position `i`.
pub proof fn lemma_round_robin_round_trip<T>(s: Seq<T>, w: int)
    requires
        1 <= w,
    ensures
        round_robin_merge(dispatch_seq(s, w), s.len() as int) == s,
{
    let boxes = dispatch_seq(s, w);
    let merged = round_robin_merge(boxes, s.len() as int);
    assert forall|i: int| 0 <= i < s.len() implies merged[i] == s[i] by {
        lemma_slot_seq_index(s, w, i);
    }
    assert(merged =~= s);
}

/// The content of the output does not depend on the pool width: dispatching
/// over `w1` slots and over `w2` slots, then collecting each in its own
/// round-robin pattern, produces the same result list.
pub proof fn lemma_width_independent<T>(s: Seq<T>, w1: int, w2: int)
    requires
        1 <= w1,
        1 <= w2,
    ensures
        round_robin_merge(dispatch_seq(s, w1), s.len() as int) == round_robin_merge(
            dispatch_seq(s, w2),
            s.len() as int,
        ),
{
    lemma_round_robin_round_trip(s, w1);
    lemma_round_robin_round_trip(s, w2);
}

/// An empty batch dispatches nothing to any slot and collects to the empty
/// result list.
pub proof fn lemma_empty_batch<T>(w: int)
    requires
        1 <= w,
    ensures
        forall|k: int| 0 <= k < w ==> (#[trigger] dispatch_seq(Seq::<T>::empty(), w)[k]).len()
            == 0,
        round_robin_merge(dispatch_seq(Seq::<T>::empty(), w), 0) == Seq::<T>::empty(),
{
    assert forall|k: int| 0 <= k < w implies (#[trigger] dispatch_seq(Seq::<T>::empty(), w)[
    k]).len() == 0 by {
        lemma_slot_len_nonneg(0, w, k);
    }
    assert(round_robin_merge(dispatch_seq(Seq::<T>::empty(), w), 0) =~= Seq::<T>::empty());
}

/// Scatter a batch over `w` round-robin slots and gather it back in the same
/// cyclic pattern. The result is the input, in order — executable witness
/// that the two patterns cancel.
pub fn scatter_gather<T>(items: Vec<T>, w: usize) -> (out: Vec<T>)
    requires
        1 <= w,
    ensures
        out@ == items@,
{
    let ghost orig = items@;
    let n: usize = items.len();
    let inboxes = dispatch(items, w);
    proof {
        assert forall|k: int| 0 <= k < w implies (#[trigger] inboxes@[k])@.len() == slot_len(
            n as int,
            w as int,
            k,
        ) by {
            lemma_slot_len_nonneg(n as int, w as int, k);
        }
    }
    let out = collect_round_robin(inboxes, n);
    proof {
        lemma_round_robin_round_trip(orig, w as int);
        assert(inboxes@.map_values(|b: Vec<T>| b@) =~= dispatch_seq(orig, w as int));
    }
    out
}

/// The (input index, item) pairs that slot `k` receives, in arrival order.
pub open spec fn slot_pairs<T>(s: Seq<T>, w: int, k: int) -> Seq<(int, T)> {
    Seq::new(
        slot_len(s.len() as int, w, k) as nat,
        |j: int| (j * w + k, s[j * w + k]),
    )
}

/// The multiset of (input index, item) pairs received by slots `0, ..., k - 1`.
pub open spec fn dispatched_pairs_upto<T>(s: Seq<T>, w: int, k: int) -> Multiset<(int, T)>
    decreases k,
{
    if k <= 0 {
        Multiset::empty()
    } else {
        dispatched_pairs_upto(s, w, k - 1).add(slot_pairs(s, w, k - 1).to_multiset())
    }
}

/// The multiset of (input index, item) pairs handed out across the whole pool.
pub open spec fn dispatched_pairs<T>(s: Seq<T>, w: int) -> Multiset<(int, T)> {
    dispatched_pairs_upto(s, w, w)
}

/// The batch itself as (input index, item) pairs.
pub open spec fn indexed_pairs<T>(s: Seq<T>) -> Seq<(int, T)> {
    Seq::new(s.len(), |i: int| (i, s[i]))
}

/// No slot receives anything from an empty batch.
proof fn lemma_pairs_upto_empty<T>(w: int, k: int)
    requires
        1 <= w,
        k <= w,
    ensures
        dispatched_pairs_upto(Seq::<T>::empty(), w, k) == Multiset::<(int, T)>::empty(),
    decreases k,
{
    if k > 0 {
        broadcast use vstd::seq_lib::group_to_multiset_ensures;

        lemma_pairs_upto_empty::<T>(w, k - 1);
        lemma_slot_len_nonneg(0, w, k - 1);
        let es = Seq::<(int, T)>::empty();
        assert(slot_pairs(Seq::<T>::empty(), w, k - 1) =~= es);
        assert forall|p: (int, T)| es.to_multiset().count(p) == 0 by {
            assert(!es.contains(p));
        }
        assert(es.to_multiset() =~= Multiset::<(int, T)>::empty());
        assert(dispatched_pairs_upto(Seq::<T>::empty(), w, k) =~= Multiset::<(int, T)>::empty());
    }
}

/// Extending the batch by one item appends that item's pair to the slot it
/// is dispatched to and leaves every other slot's pairs unchanged.
proof fn lemma_slot_pairs_step<T>(s: Seq<T>, w: int, k: int, i: int)
    requires
        1 <= w,
        0 <= k < w,
        0 <= i < s.len(),
    ensures
        slot_pairs(s.take(i + 1), w, k) == if i % w == k {
            slot_pairs(s.take(i), w, k).push((i, s[i]))
        } else {
            slot_pairs(s.take(i), w, k)
        },
{
    let pre = slot_pairs(s.take(i), w, k);
    let post = slot_pairs(s.take(i + 1), w, k);
    lemma_slot_len_step(i, w, k);
    lemma_slot_len_nonneg(i, w, k);
    assert forall|j: int| 0 <= j < pre.len() implies post[j] == pre[j] by {
        lemma_slot_len_bound(i, w, k, j);
        assert(0 <= j * w) by (nonlinear_arith)
            requires
                0 <= j,
                1 <= w,
        ;
    }
    if i % w == k {
        lemma_slot_len_at(i, w);
        let q: int = i / w;
        lemma_fundamental_div_mod(i, w);
        lemma_div_pos_is_pos(i, w);
        assert(q * w + k == i) by (nonlinear_arith)
            requires
                i == w * q + k,
        ;
        assert(post[q] == (i, s[i]));
        assert(post =~= pre.push((i, s[i])));
    } else {
        assert(post =~= pre);
    }
}

/// Appending item `i` to the dispatched prefix inserts exactly the pair
/// `(i, s[i])` into the pairs received by the first `k` slots when the
/// receiving slot `i % w` is among them, and changes nothing otherwise.
proof fn lemma_pairs_upto_step<T>(s: Seq<T>, w: int, k: int, i: int)
    requires
        1 <= w,
        0 <= k <= w,
        0 <= i < s.len(),
    ensures
        dispatched_pairs_upto(s.take(i + 1), w, k) == if i % w < k {
            dispatched_pairs_upto(s.take(i), w, k).insert((i, s[i]))
        } else {
            dispatched_pairs_upto(s.take(i), w, k)
        },
    decreases k,
{
    broadcast use vstd::seq_lib::group_to_multiset_ensures;

    lemma_mod_division_less_than_divisor(i, w);
    if k > 0 {
        lemma_pairs_upto_step(s, w, k - 1, i);
        lemma_slot_pairs_step(s, w, k - 1, i);
        let a0 = dispatched_pairs_upto(s.take(i), w, k - 1);
        let b0 = slot_pairs(s.take(i), w, k - 1).to_multiset();
        let p = (i, s[i]);
        if i % w == k - 1 {
            assert(slot_pairs(s.take(i + 1), w, k - 1).to_multiset() =~= b0.insert(p));
            assert(a0.add(b0.insert(p)) =~= a0.add(b0).insert(p));
        } else if i % w < k - 1 {
            assert(a0.insert(p).add(b0) =~= a0.add(b0).insert(p));
        }
    }
}

/// Exactly-once dispatch for a batch prefix.
proof fn lemma_exactly_once_prefix<T>(s: Seq<T>, w: int, n: int)
    requires
        1 <= w,
        0 <= n <= s.len(),
    ensures
        dispatched_pairs(s.take(n), w) == indexed_pairs(s.take(n)).to_multiset(),
    decreases n,
{
    broadcast use vstd::seq_lib::group_to_multiset_ensures;

    if n == 0 {
        assert(s.take(0) =~= Seq::<T>::empty());
        lemma_pairs_upto_empty::<T>(w, w);
        let es = Seq::<(int, T)>::empty();
        assert(indexed_pairs(s.take(0)) =~= es);
        assert forall|p: (int, T)| es.to_multiset().count(p) == 0 by {
            assert(!es.contains(p));
        }
        assert(es.to_multiset() =~= Multiset::<(int, T)>::empty());
    } else {
        lemma_exactly_once_prefix(s, w, n - 1);
        lemma_mod_division_less_than_divisor(n - 1, w);
        lemma_pairs_upto_step(s, w, w, n - 1);
        assert(indexed_pairs(s.take(n)) =~= indexed_pairs(s.take(n - 1)).push((n - 1, s[n - 1])));
    }
}

/// Round-robin dispatch hands out every job exactly once: taken across the
/// whole pool, the multiset of (input index, item) pairs the slots receive
/// is exactly the batch, each pair once.
pub proof fn lemma_dispatch_exactly_once<T>(s: Seq<T>, w: int)
    requires
        1 <= w,
    ensures
        dispatched_pairs(s, w) == indexed_pairs(s).to_multiset(),
{
    lemma_exactly_once_prefix(s, w, s.len() as int);
    assert(s.take(s.len() as int) =~= s);
}

/// The decision core of the concurrent collector. The surrounding loop owns
/// the channels; this tracks which slot to visit next, how many slots have
/// disconnected, and the results appended so far, one event at a time.
pub struct Collector<T> {
    /// Number of worker slots in the pool.
    pub width: usize,
    /// The slot the next blocking receive must visit.
    pub next_slot: usize,
    /// How many visits have found their slot disconnected. A disconnected
    /// slot stays in the rotation, and the cycle stops once this count
    /// reaches the pool width. For outboxes fed by round-robin dispatch,
    /// every visit before the batch is exhausted finds a result, so the
    /// failures are the last `width` visits, one per slot, and nothing is
    /// left uncollected when the cycle stops.
    pub disconnected: usize,
    /// The results collected so far, in visit order.
    pub results: Vec<T>,
}

impl<T> Collector<T> {
    /// The collector's bookkeeping stays within the pool's bounds.
    pub open spec fn wf(&self) -> bool {
        1 <= self.width && self.next_slot < self.width && self.disconnected <= self.width
    }

    /// Collection is complete once every slot has disconnected.
    pub open spec fn is_done(&self) -> bool {
        self.disconnected == self.width
    }

    /// Start collecting from a pool of `width` worker slots, beginning the
    /// cycle at slot 0 with nothing received yet.
    pub fn new(width: usize) -> (c: Collector<T>)
        requires
            1 <= width,
        ensures
            c.wf(),
            c.width == width,
            c.next_slot == 0,
            c.disconnected == 0,
            c.results@ == Seq::<T>::empty(),
    {
        Collector { width, next_slot: 0, disconnected: 0, results: Vec::new() }
    }

    /// A result arrived from the slot under visit: append it to the output —
    /// order-preserving, append-only — and move to the next slot in the cycle.
    pub fn on_receive(&mut self, x: T)
        requires
            old(self).wf(),
            !old(self).is_done(),
        ensures
            final(self).wf(),
            final(self).width == old(self).width,
            final(self).disconnected == old(self).disconnected,
            final(self).results@ == old(self).results@.push(x),
            final(self).next_slot as int == (old(self).next_slot + 1) % (old(self).width as int),
    {
        self.results.push(x);
        self.advance();
    }

    /// The slot under visit reported disconnection: count it and move on to
    /// the next slot in the cycle without removing anything from the rotation.
    pub fn on_disconnect(&mut self)
        requires
            old(self).wf(),
            !old(self).is_done(),
        ensures
            final(self).wf(),
            final(self).width == old(self).width,
            final(self).disconnected == old(self).disconnected + 1,
            final(self).results@ == old(self).results@,
            final(self).next_slot as int == (old(self).next_slot + 1) % (old(self).width as int),
    {
        self.disconnected += 1;
        self.advance();
    }

    /// Whether every slot has disconnected, so the cycle must stop.
    pub fn done(&self) -> (r: bool)
        ensures
            r == self.is_done(),
    {
        self.disconnected == self.width
    }

    /// The collected results, in visit order.
    pub fn into_results(self) -> (r: Vec<T>)
        ensures
            r@ == self.results@,
    {
        self.results
    }

    /// Step the round-robin cursor one slot forward, wrapping at the pool width.
    fn advance(&mut self)
        requires
            old(self).wf(),
        ensures
            final(self).width == old(self).width,
            final(self).disconnected == old(self).disconnected,
            final(self).results == old(self).results,
            final(self).next_slot as int == (old(self).next_slot + 1) % (old(self).width as int),
            final(self).wf(),
    {
        if self.next_slot + 1 == self.width {
            self.next_slot = 0;
            proof {
                lemma_mod_self_0(self.width as int);
            }
        } else {
            self.next_slot = self.next_slot + 1;
            proof {
                lemma_small_mod((self.next_slot) as nat, self.width as nat);
            }
        }
    }
}

} // verus!
