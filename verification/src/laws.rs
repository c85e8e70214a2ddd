//! The laws the engine obeys across calls, stated and proved once over the
//! spec-level transition relations that the operations' contracts use.

use vstd::prelude::*;

use crate::ballot::Ballot;
use crate::ballot::Vote;
use crate::ballot::VoteRecord;
use crate::ballot::distinct_voters;
use crate::ballot::has_voted;
use crate::ballot::registration_applied;
use crate::ballot::vote_applied;

verus! {

/// Law: a well-formed ballot's registry never exceeds its capacity.
pub proof fn lemma_registry_bounded(b: Ballot)
    requires
        b.well_formed(),
    ensures
        b.registry().len() <= b.max_voters,
{
}

/// One successful cast keeps the tally duplicate-free and leaves the caster
/// with a record that carries the cast choice.
proof fn lemma_cast_shape(pre: Seq<VoteRecord>, post: Seq<VoteRecord>, v: u64, c: Vote)
    requires
        distinct_voters(pre),
        vote_applied(pre, post, v, c),
    ensures
        distinct_voters(post),
        has_voted(post, v),
        forall|i: int| 0 <= i < post.len() && (#[trigger] post[i]).who == v ==> post[i].vote == c,
{
    let rec = VoteRecord { who: v, vote: c };
    if has_voted(pre, v) {
        let w = choose|w: int|
            0 <= w < pre.len() && (#[trigger] pre[w]).who == v && post =~= pre.update(w, rec);
        assert(post[w] == rec);
        assert(has_voted(post, v)) by {
            assert(post[w].who == v);
        }
        assert forall|a: int, b: int|
            0 <= a < post.len() && 0 <= b < post.len() && a != b implies (#[trigger] post[a]).who
            != (#[trigger] post[b]).who by {
            assert(post[a].who == pre[a].who);
            assert(post[b].who == pre[b].who);
        }
        assert forall|i: int|
            0 <= i < post.len() && (#[trigger] post[i]).who == v implies post[i].vote == c by {
            if i != w {
                assert(post[i] == pre[i]);
                assert(pre[i].who == v && pre[w].who == v);
            }
        }
    } else {
        assert(post[pre.len() as int] == rec);
        assert(has_voted(post, v)) by {
            assert(post[pre.len() as int].who == v);
        }
        assert forall|a: int, b: int|
            0 <= a < post.len() && 0 <= b < post.len() && a != b implies (#[trigger] post[a]).who
            != (#[trigger] post[b]).who by {
            if a < pre.len() && b < pre.len() {
                assert(post[a] == pre[a] && post[b] == pre[b]);
            } else if b == pre.len() {
                assert(post[a] == pre[a]);
                assert(pre[a].who != v);
            } else {
                assert(post[b] == pre[b]);
                assert(pre[b].who != v);
            }
        }
        assert forall|i: int|
            0 <= i < post.len() && (#[trigger] post[i]).who == v implies post[i].vote == c by {
            if i < pre.len() {
                assert(post[i] == pre[i]);
                assert(pre[i].who != v);
            }
        }
    }
}

/// Law: casting a second vote overwrites rather than duplicates. After the
/// same voter's choice is applied twice in a row — first `c1`, then `c2` —
/// the tally holds exactly one record for that voter, and it carries `c2`.
pub proof fn lemma_revote_overwrites(
    pre: Seq<VoteRecord>,
    mid: Seq<VoteRecord>,
    post: Seq<VoteRecord>,
    v: u64,
    c1: Vote,
    c2: Vote,
)
    requires
        distinct_voters(pre),
        vote_applied(pre, mid, v, c1),
        vote_applied(mid, post, v, c2),
    ensures
        distinct_voters(post),
        has_voted(post, v),
        forall|i: int, j: int|
            0 <= i < post.len() && 0 <= j < post.len() && (#[trigger] post[i]).who == v && (
            #[trigger] post[j]).who == v ==> i == j,
        forall|i: int| 0 <= i < post.len() && (#[trigger] post[i]).who == v ==> post[i].vote == c2,
{
    lemma_cast_shape(pre, mid, v, c1);
    lemma_cast_shape(mid, post, v, c2);
}

/// Law: registering the same voter twice is idempotent. The second
/// registration changes nothing, and the registry ends up with exactly one
/// entry for that voter, never having grown by more than one.
pub proof fn lemma_reregistration_idempotent(pre: Seq<u64>, mid: Seq<u64>, post: Seq<u64>, v: u64)
    requires
        pre.no_duplicates(),
        registration_applied(pre, mid, v),
        registration_applied(mid, post, v),
    ensures
        mid.no_duplicates(),
        mid.contains(v),
        post =~= mid,
        post.len() <= pre.len() + 1,
        forall|i: int, j: int|
            0 <= i < post.len() && 0 <= j < post.len() && post[i] == v && post[j] == v ==> i == j,
{
    if pre.contains(v) {
        assert(mid =~= pre);
    } else {
        assert(mid =~= pre.push(v));
        assert(mid[pre.len() as int] == v);
        assert(mid.contains(v));
        assert forall|a: int, b: int|
            0 <= a < mid.len() && 0 <= b < mid.len() && a != b implies mid[a] != mid[b] by {
            if a < pre.len() && b < pre.len() {
            } else if b == pre.len() {
                assert(mid[a] == pre[a]);
                assert(!pre.contains(v));
                assert(pre[a] != v);
            } else {
                assert(mid[b] == pre[b]);
                assert(pre[b] != v);
            }
        }
    }
    assert(mid.contains(v));
    assert(post =~= mid);
}

} // verus!
