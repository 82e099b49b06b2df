//! Partitioning the transaction stream for replay.
//!
//! [`group_by_client`] splits the full ordered stream into one history
//! per client, keeping each client's records in arrival order — the
//! state machine's correctness depends on that order, since reference
//! lookups take the first match and a withdrawal's sufficiency check
//! depends on the balance accumulated so far. [`split`] then cuts a
//! list of such groups into chunks that independent workers can own
//! exclusively, so that clients never share a worker's state.

use vstd::prelude::*;
use vstd::slice::slice_subrange;

use crate::account::Transaction;

verus! {

/// Filtering a sequence that has no matching element yields the empty
/// sequence.
proof fn lemma_filter_none<A>(s: Seq<A>, pred: spec_fn(A) -> bool)
    requires
        forall|i: int| 0 <= i < s.len() ==> !pred(#[trigger] s[i]),
    ensures
        s.filter(pred) == Seq::<A>::empty(),
    decreases s.len(),
{
    reveal(Seq::filter);
    if s.len() == 0 {
        assert(s =~= Seq::<A>::empty());
    } else {
        lemma_filter_none(s.drop_last(), pred);
    }
}

/// Filtering after appending one element appends it exactly when it
/// matches.
proof fn lemma_filter_push<A>(s: Seq<A>, x: A, pred: spec_fn(A) -> bool)
    ensures
        s.push(x).filter(pred) == if pred(x) {
            s.filter(pred).push(x)
        } else {
            s.filter(pred)
        },
{
    reveal(Seq::filter);
    assert(s.push(x).drop_last() =~= s);
    assert(s.push(x).last() == x);
    assert(s.push(x).len() == s.len() + 1);
}

/// The position of the first transaction of `client` in `s`, or the
/// length of `s` when `client` never appears.
pub open spec fn first_position(s: Seq<Transaction>, client: u16) -> int
    decreases s.len(),
{
    if s.len() == 0 {
        0
    } else if s[0].client == client {
        0
    } else {
        1 + first_position(s.skip(1), client)
    }
}

/// A client that never appears in the first `k` transactions appears
/// no earlier than position `k`.
proof fn lemma_first_position_lower_bound(s: Seq<Transaction>, client: u16, k: int)
    requires
        0 <= k <= s.len(),
        forall|m: int| 0 <= m < k ==> (#[trigger] s[m]).client != client,
    ensures
        first_position(s, client) >= k,
    decreases s.len(),
{
    if s.len() > 0 && s[0].client != client {
        let rest: int = if k > 0 {
            k - 1
        } else {
            0
        };
        assert forall|m: int| 0 <= m < rest implies (#[trigger] s.skip(1)[m]).client
            != client by {
            assert(s.skip(1)[m] == s[m + 1]);
            assert(s[m + 1].client != client);
        }
        lemma_first_position_lower_bound(s.skip(1), client, rest);
    }
}

/// A client that appears at position `m` appears no later than `m`.
proof fn lemma_first_position_upper_bound(s: Seq<Transaction>, client: u16, m: int)
    requires
        0 <= m < s.len(),
        s[m].client == client,
    ensures
        first_position(s, client) <= m,
    decreases m,
{
    if s[0].client != client {
        assert(s.skip(1)[m - 1] == s[m]);
        lemma_first_position_upper_bound(s.skip(1), client, m - 1);
    }
}

/// `client` occurs somewhere in the stream `s`.
pub open spec fn appears_in(s: Seq<Transaction>, client: u16) -> bool {
    exists|j: int| 0 <= j < s.len() && (#[trigger] s[j]).client == client
}

/// When `first_position` lands strictly inside `s`, it lands on a
/// transaction of `client` — so the client occurs in the stream.
proof fn lemma_first_position_hits(s: Seq<Transaction>, client: u16)
    requires
        first_position(s, client) < s.len(),
    ensures
        0 <= first_position(s, client),
        s[first_position(s, client)].client == client,
    decreases s.len(),
{
    if s.len() > 0 && s[0].client != client {
        lemma_first_position_lower_bound(s.skip(1), client, 0);
        lemma_first_position_hits(s.skip(1), client);
        assert(s.skip(1)[first_position(s.skip(1), client)]
            == s[first_position(s, client)]);
    }
}

/// Some group in `groups` is keyed by `client`.
pub open spec fn has_client(groups: Seq<(u16, Vec<Transaction>)>, client: u16) -> bool {
    exists|i: int| 0 <= i < groups.len() && (#[trigger] groups[i]).0 == client
}

/// The position of the group keyed by `client`, if one exists.
fn find_group(groups: &Vec<(u16, Vec<Transaction>)>, client: u16) -> (r: Option<usize>)
    ensures
        match r {
            Some(i) => i < groups@.len() && groups@[i as int].0 == client,
            None => forall|i: int|
                0 <= i < groups@.len() ==> (#[trigger] groups@[i]).0 != client,
        },
{
    let mut k: usize = 0;
    while k < groups.len()
        invariant
            k <= groups@.len(),
            forall|i: int| 0 <= i < k ==> (#[trigger] groups@[i]).0 != client,
        decreases groups@.len() - k,
    {
        if groups[k].0 == client {
            return Some(k);
        }
        k = k + 1;
    }
    None
}

/// Group the full ordered transaction stream by client identifier.
///
/// Each client appears exactly once, in order of first appearance,
/// paired with precisely its own records from the stream, in their
/// original arrival order; no record is dropped, duplicated or moved
/// across clients.
pub fn group_by_client(transactions: &Vec<Transaction>) -> (r: Vec<(u16, Vec<Transaction>)>)
    ensures
        forall|i: int, j: int| 0 <= i < j < r@.len() ==> r@[i].0 != r@[j].0,
        forall|i: int|
            0 <= i < r@.len() ==> appears_in(transactions@, (#[trigger] r@[i]).0),
        forall|i: int, j: int|
            0 <= i < j < r@.len() ==> first_position(transactions@, r@[i].0) < first_position(
                transactions@,
                r@[j].0,
            ),
        forall|i: int|
            0 <= i < r@.len() ==> (#[trigger] r@[i]).1@ == transactions@.filter(
                |t: Transaction| t.client == r@[i].0,
            ),
        forall|j: int|
            0 <= j < transactions@.len() ==> has_client(r@, (#[trigger] transactions@[j]).client),
{
    let mut groups: Vec<(u16, Vec<Transaction>)> = Vec::new();
    let mut k: usize = 0;
    while k < transactions.len()
        invariant
            k <= transactions@.len(),
            forall|i: int, j: int| 0 <= i < j < groups@.len() ==> groups@[i].0 != groups@[j].0,
            forall|i: int|
                0 <= i < groups@.len() ==> first_position(transactions@, (#[trigger] groups@[i]).0)
                    < k,
            forall|i: int, j: int|
                0 <= i < j < groups@.len() ==> first_position(transactions@, groups@[i].0)
                    < first_position(transactions@, groups@[j].0),
            forall|i: int|
                0 <= i < groups@.len() ==> (#[trigger] groups@[i]).1@ == transactions@.take(
                    k as int,
                ).filter(|t: Transaction| t.client == groups@[i].0),
            forall|j: int|
                0 <= j < k ==> has_client(groups@, (#[trigger] transactions@[j]).client),
        decreases transactions@.len() - k,
    {
        let ghost prefix = transactions@.take(k as int);
        let ghost old_groups = groups@;
        let record = transactions[k].clone();
        let ghost rv = record;
        assert(transactions@.take(k as int + 1) =~= prefix.push(transactions@[k as int]));

        match find_group(&groups, record.client) {
            Some(idx) => {
                let mut pair = groups.remove(idx);
                pair.1.push(record);
                let ghost new_pair = pair;
                groups.insert(idx, pair);
                proof {
                    assert(groups@ =~= old_groups.update(idx as int, new_pair));
                    assert(forall|i: int|
                        0 <= i < groups@.len() ==> (#[trigger] groups@[i]).0 == old_groups[i].0);
                    assert forall|i: int| 0 <= i < groups@.len() implies (
                    #[trigger] groups@[i]).1@ == prefix.push(rv).filter(
                        |t: Transaction| t.client == groups@[i].0,
                    ) by {
                        lemma_filter_push(prefix, rv, |t: Transaction| t.client == groups@[i].0);
                    }
                    assert forall|j: int| 0 <= j < k + 1 implies has_client(
                        groups@,
                        (#[trigger] transactions@[j]).client,
                    ) by {
                        if j == k as int {
                            assert(groups@[idx as int].0 == transactions@[j].client);
                        } else {
                            let w = choose|i: int|
                                0 <= i < old_groups.len() && (#[trigger] old_groups[i]).0
                                    == transactions@[j].client;
                            assert(groups@[w].0 == transactions@[j].client);
                        }
                    }
                }
            },
            None => {
                let ghost no_such = groups@;
                let client = record.client;
                let mut fresh_group: Vec<Transaction> = Vec::new();
                fresh_group.push(record);
                groups.push((client, fresh_group));
                proof {
                    let pred = |t: Transaction| t.client == client;
                    assert forall|m: int| 0 <= m < prefix.len() implies !pred(
                        #[trigger] prefix[m],
                    ) by {
                        assert(prefix[m] == transactions@[m]);
                    }
                    lemma_filter_none(prefix, pred);
                    assert forall|m: int| 0 <= m < k implies (
                    #[trigger] transactions@[m]).client != client by {
                        assert(prefix[m] == transactions@[m]);
                    }
                    lemma_first_position_lower_bound(transactions@, client, k as int);
                    lemma_first_position_upper_bound(transactions@, client, k as int);
                    assert forall|i: int| 0 <= i < groups@.len() implies (
                    #[trigger] groups@[i]).1@ == prefix.push(rv).filter(
                        |t: Transaction| t.client == groups@[i].0,
                    ) by {
                        lemma_filter_push(prefix, rv, |t: Transaction| t.client == groups@[i].0);
                        if i < no_such.len() {
                            assert(groups@[i] == no_such[i]);
                        } else {
                            assert(groups@[i].0 == client);
                            assert(groups@[i].1@ =~= Seq::<Transaction>::empty().push(rv));
                        }
                    }
                    assert forall|j: int| 0 <= j < k + 1 implies has_client(
                        groups@,
                        (#[trigger] transactions@[j]).client,
                    ) by {
                        if j == k as int {
                            assert(groups@[groups@.len() - 1].0 == transactions@[j].client);
                        } else {
                            let w = choose|i: int|
                                0 <= i < no_such.len() && (#[trigger] no_such[i]).0
                                    == transactions@[j].client;
                            assert(groups@[w].0 == transactions@[j].client);
                        }
                    }
                }
            },
        }
        k = k + 1;
    }
    proof {
        assert(transactions@.take(transactions@.len() as int) =~= transactions@);
        assert forall|i: int| 0 <= i < groups@.len() implies appears_in(
            transactions@,
            (#[trigger] groups@[i]).0,
        ) by {
            lemma_first_position_hits(transactions@, groups@[i].0);
        }
    }
    groups
}

/// The chunks of `s` with `n` elements each, the last chunk possibly
/// shorter.
pub open spec fn spec_chunks<T>(s: Seq<T>, n: nat) -> Seq<Seq<T>>
    recommends
        n > 0,
    decreases s.len(),
{
    if n == 0 || s.len() == 0 {
        Seq::empty()
    } else if s.len() <= n {
        seq![s]
    } else {
        seq![s.take(n as int)] + spec_chunks(s.skip(n as int), n)
    }
}

/// Cut `arr` into consecutive chunks of `n` elements, the last chunk
/// possibly shorter. Every element appears in exactly one chunk and
/// the overall order is kept.
pub fn split<T>(arr: &[T], n: usize) -> (r: Vec<&[T]>)
    requires
        n > 0,
    ensures
        r@.map_values(|c: &[T]| c@) == spec_chunks(arr@, n as nat),
    decreases arr@.len(),
{
    if arr.len() == 0 {
        let chunks: Vec<&[T]> = Vec::new();
        assert(chunks@.map_values(|c: &[T]| c@) =~= spec_chunks(arr@, n as nat));
        return chunks;
    }
    if arr.len() <= n {
        let mut chunks: Vec<&[T]> = Vec::new();
        chunks.push(arr);
        assert(chunks@.map_values(|c: &[T]| c@) =~= spec_chunks(arr@, n as nat));
        return chunks;
    }
    let head = slice_subrange(arr, 0, n);
    let tail = slice_subrange(arr, n, arr.len());
    let mut chunks = split(tail, n);
    let ghost rest = chunks@;
    chunks.insert(0, head);
    proof {
        assert(head@ =~= arr@.take(n as int));
        assert(tail@ =~= arr@.skip(n as int));
        assert(chunks@.map_values(|c: &[T]| c@) =~= seq![head@] + rest.map_values(
            |c: &[T]| c@,
        ));
        assert(chunks@.map_values(|c: &[T]| c@) =~= spec_chunks(arr@, n as nat));
    }
    chunks
}

} // verus!
