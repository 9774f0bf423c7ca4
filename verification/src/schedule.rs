//! What holds of the store over whole runs of operations.
//!
//! Every operation takes the store exclusively, so whatever callers do at the
//! same time reaches the store as one sequence of operations. The lemmas here
//! speak of every such sequence.

use crate::tokens::{
    expired, redeem_outcome, redeem_store, redeemable, RoleId, TokenError, TokenKey, TokenMap,
    TokenRecord,
};
use crate::time::Timestamp;
use vstd::prelude::*;

verus! {

/// One operation on the store.
pub ghost enum Op {
    /// A record is put under a key.
    Issue { key: TokenKey, record: TokenRecord },
    /// The record under a key is removed.
    Revoke { key: TokenKey },
    /// The token under a key is redeemed at an instant.
    Redeem { key: TokenKey, at: Timestamp },
}

/// The store after one operation.
pub open spec fn step(m: TokenMap, op: Op) -> TokenMap {
    match op {
        Op::Issue { key, record } => m.insert(key, record),
        Op::Revoke { key } => m.remove(key),
        Op::Redeem { key, at } => redeem_store(m, key, at),
    }
}

/// The store after a sequence of operations, first to last.
pub open spec fn run(m: TokenMap, ops: Seq<Op>) -> TokenMap
    decreases ops.len(),
{
    if ops.len() == 0 {
        m
    } else {
        step(run(m, ops.drop_last()), ops.last())
    }
}

/// Whether `op`, applied to `m`, is a redemption of `key` that hands out its
/// roles.
pub open spec fn grants(m: TokenMap, op: Op, key: TokenKey) -> bool {
    op matches Op::Redeem { key: k, at } && k == key && redeem_outcome(m, key, at) is Ok
}

/// How many operations of the sequence are redemptions of `key` that hand out
/// its roles.
pub open spec fn grant_count(m: TokenMap, ops: Seq<Op>, key: TokenKey) -> nat
    decreases ops.len(),
{
    if ops.len() == 0 {
        0
    } else {
        grant_count(m, ops.drop_last(), key) + if grants(
            run(m, ops.drop_last()),
            ops.last(),
            key,
        ) {
            1nat
        } else {
            0nat
        }
    }
}

/// How many operations of the sequence are redemptions of `key`, whatever
/// they return.
pub open spec fn attempt_count(ops: Seq<Op>, key: TokenKey) -> nat
    decreases ops.len(),
{
    if ops.len() == 0 {
        0
    } else {
        attempt_count(ops.drop_last(), key) + if ops.last() matches Op::Redeem { key: k, .. }
            && k == key {
            1nat
        } else {
            0nat
        }
    }
}

/// The uses that the store still holds for `key`: none for an absent key.
pub open spec fn uses_left(m: TokenMap, key: TokenKey) -> nat {
    if m.contains_key(key) {
        m[key].limit
    } else {
        0
    }
}

/// No operation of the sequence puts a record under `key`.
pub open spec fn never_issues(ops: Seq<Op>, key: TokenKey) -> bool {
    forall|i: int|
        0 <= i < ops.len() ==> !(#[trigger] ops[i] matches Op::Issue { key: k, .. } && k == key)
}

/// The sequence touches `key` only by redeeming it, and never after
/// `deadline`.
pub open spec fn only_redeems_in_time(ops: Seq<Op>, key: TokenKey, deadline: Timestamp) -> bool {
    forall|i: int|
        0 <= i < ops.len() ==> match #[trigger] ops[i] {
            Op::Issue { key: k, .. } => k != key,
            Op::Revoke { key: k } => k != key,
            Op::Redeem { key: k, at } => k == key ==> at.nanos() <= deadline.nanos(),
        }
}

/// No record of the store is out of uses.
pub open spec fn no_spent_record(m: TokenMap) -> bool {
    forall|k: TokenKey| #[trigger] m.contains_key(k) ==> m[k].limit > 0
}

/// Every record that the sequence issues has a use.
pub open spec fn issues_with_uses(ops: Seq<Op>) -> bool {
    forall|i: int|
        0 <= i < ops.len() ==> (#[trigger] ops[i] matches Op::Issue { record, .. }
            ==> record.limit > 0)
}

/// A redemption leaves every other key as it was.
pub proof fn lemma_redeem_elsewhere(m: TokenMap, key: TokenKey, at: Timestamp, other: TokenKey)
    requires
        other != key,
    ensures
        redeem_store(m, key, at).contains_key(other) == m.contains_key(other),
        redeem_store(m, key, at)[other] == m[other],
{
}

/// A token redeemed after its expiration gives `Expired` and is removed,
/// however many uses it had left.
pub proof fn lemma_expired_token_is_removed(m: TokenMap, key: TokenKey, at: Timestamp)
    requires
        m.contains_key(key),
        expired(m[key], at),
    ensures
        redeem_outcome(m, key, at) == Err::<Seq<RoleId>, TokenError>(TokenError::Expired),
        redeem_store(m, key, at) == m.remove(key),
        !redeem_store(m, key, at).contains_key(key),
{
}

/// A redemption that succeeds hands out the full list of roles and takes one
/// use: the record stays with one use fewer, or goes with its last use.
pub proof fn lemma_redemption_takes_one_use(m: TokenMap, key: TokenKey, at: Timestamp)
    requires
        redeem_outcome(m, key, at) is Ok,
    ensures
        m.contains_key(key),
        redeem_outcome(m, key, at) == Ok::<Seq<RoleId>, TokenError>(m[key].roles),
        uses_left(redeem_store(m, key, at), key) == m[key].limit - 1,
        redeem_store(m, key, at).contains_key(key) ==> redeem_store(m, key, at)[key].roles
            == m[key].roles && redeem_store(m, key, at)[key].expiration == m[key].expiration,
{
}

/// A redemption leaves the store as it was exactly when it returns
/// `NotFound`: every other outcome has taken a use or removed the record.
pub proof fn lemma_redeem_changes_store_unless_absent(m: TokenMap, key: TokenKey, at: Timestamp)
    ensures
        redeem_store(m, key, at) == m <==> redeem_outcome(m, key, at) == Err::<
            Seq<RoleId>,
            TokenError,
        >(TokenError::NotFound),
{
    let after = redeem_store(m, key, at);
    if m.contains_key(key) {
        if after.contains_key(key) {
            assert(after[key].limit != m[key].limit);
        }
    } else {
        assert(after =~= m);
    }
}

/// Revoking a key that the store does not hold changes nothing, and revoking
/// twice is revoking once.
pub proof fn lemma_revoke_idempotent(m: TokenMap, key: TokenKey)
    ensures
        !m.contains_key(key) ==> step(m, Op::Revoke { key }) == m,
        step(step(m, Op::Revoke { key }), Op::Revoke { key }) == step(m, Op::Revoke { key }),
{
    if !m.contains_key(key) {
        assert(m.remove(key) =~= m);
    }
    assert(m.remove(key).remove(key) =~= m.remove(key));
}

/// After a redemption the key holds no record that is expired at that
/// instant or out of uses.
pub proof fn lemma_redeem_leaves_no_dead_record(m: TokenMap, key: TokenKey, at: Timestamp)
    ensures
        redeem_store(m, key, at).contains_key(key) ==> redeemable(
            redeem_store(m, key, at)[key],
            at,
        ),
{
}

/// A redemption keeps a store free of records that are out of uses.
pub proof fn lemma_redeem_keeps_records_live(m: TokenMap, key: TokenKey, at: Timestamp)
    requires
        no_spent_record(m),
    ensures
        no_spent_record(redeem_store(m, key, at)),
{
    let after = redeem_store(m, key, at);
    assert forall|k: TokenKey| #[trigger] after.contains_key(k) implies after[k].limit > 0 by {
        if k != key {
            assert(m.contains_key(k));
        }
    }
}

/// A store free of records that are out of uses stays so over every sequence
/// of operations that issues no such record.
pub proof fn lemma_run_keeps_records_live(m: TokenMap, ops: Seq<Op>)
    requires
        no_spent_record(m),
        issues_with_uses(ops),
    ensures
        no_spent_record(run(m, ops)),
    decreases ops.len(),
{
    if ops.len() > 0 {
        let front = ops.drop_last();
        assert forall|i: int| 0 <= i < front.len() implies (#[trigger] front[i] matches Op::Issue {
            record,
            ..
        } ==> record.limit > 0) by {
            assert(front[i] == ops[i]);
        }
        lemma_run_keeps_records_live(m, front);
        let before = run(m, front);
        let after = run(m, ops);
        let op = ops[ops.len() - 1];
        match op {
            Op::Issue { key, record } => {
                assert forall|k: TokenKey| #[trigger] after.contains_key(k) implies after[k].limit
                    > 0 by {
                    if k != key {
                        assert(before.contains_key(k));
                    }
                }
            },
            Op::Revoke { key } => {
                assert forall|k: TokenKey| #[trigger] after.contains_key(k) implies after[k].limit
                    > 0 by {
                    assert(before.contains_key(k));
                }
            },
            Op::Redeem { key, at } => {
                lemma_redeem_keeps_records_live(before, key, at);
            },
        }
    }
}

/// No over-redemption: over any sequence of operations that does not issue
/// `key` anew, the redemptions of `key` that succeed, together with the uses
/// still left at the end, are no more than the uses the token began with.
pub proof fn lemma_no_over_redemption(m: TokenMap, ops: Seq<Op>, key: TokenKey)
    requires
        never_issues(ops, key),
    ensures
        grant_count(m, ops, key) + uses_left(run(m, ops), key) <= uses_left(m, key),
        grant_count(m, ops, key) <= uses_left(m, key),
    decreases ops.len(),
{
    if ops.len() > 0 {
        let front = ops.drop_last();
        assert forall|i: int| 0 <= i < front.len() implies !(#[trigger] front[i] matches Op::Issue {
            key: k,
            ..
        } && k == key) by {
            assert(front[i] == ops[i]);
        }
        lemma_no_over_redemption(m, front, key);
        let op = ops[ops.len() - 1];
        assert(!(op matches Op::Issue { key: k, .. } && k == key));
    }
}

/// Where `key` is touched only by redemptions in time, each attempt takes one
/// use until none is left: after `n` attempts the record holds the uses it
/// began with less `n`, and once they are used up it is gone. The attempts
/// that succeed are the first ones, as many as the token had uses.
pub proof fn lemma_uses_count_down(m: TokenMap, ops: Seq<Op>, key: TokenKey)
    requires
        m.contains_key(key),
        only_redeems_in_time(ops, key, m[key].expiration),
    ensures
        grant_count(m, ops, key) == if attempt_count(ops, key) <= m[key].limit {
            attempt_count(ops, key)
        } else {
            m[key].limit
        },
        attempt_count(ops, key) == 0 ==> run(m, ops).contains_key(key) && run(m, ops)[key]
            == m[key],
        0 < attempt_count(ops, key) < m[key].limit ==> run(m, ops).contains_key(key) && run(
            m,
            ops,
        )[key] == (TokenRecord {
            limit: (m[key].limit - attempt_count(ops, key)) as nat,
            ..m[key]
        }),
        0 < attempt_count(ops, key) && m[key].limit <= attempt_count(ops, key) ==> !run(
            m,
            ops,
        ).contains_key(key),
    decreases ops.len(),
{
    if ops.len() > 0 {
        let front = ops.drop_last();
        assert forall|i: int| 0 <= i < front.len() implies match #[trigger] front[i] {
            Op::Issue { key: k, .. } => k != key,
            Op::Revoke { key: k } => k != key,
            Op::Redeem { key: k, at } => k == key ==> at.nanos() <= m[key].expiration.nanos(),
        } by {
            assert(front[i] == ops[i]);
        }
        lemma_uses_count_down(m, front, key);
        let op = ops[ops.len() - 1];
        let before = run(m, front);
        match op {
            Op::Issue { key: k, record } => {},
            Op::Revoke { key: k } => {},
            Op::Redeem { key: k, at } => {
                if k != key {
                    lemma_redeem_elsewhere(before, k, at, key);
                }
            },
        }
    }
}

/// With the uses `L` a token began with: an attempt in time that follows
/// fewer than `L` earlier attempts hands out the roles; the attempt after
/// `L` of them finds nothing (`NotFound`), or, where the token began with no
/// use at all, finds it exhausted (`Expired`).
pub proof fn lemma_exactly_limit_redemptions(
    m: TokenMap,
    ops: Seq<Op>,
    key: TokenKey,
    at: Timestamp,
)
    requires
        m.contains_key(key),
        only_redeems_in_time(ops, key, m[key].expiration),
        !expired(m[key], at),
    ensures
        attempt_count(ops, key) < m[key].limit ==> redeem_outcome(run(m, ops), key, at) == Ok::<
            Seq<RoleId>,
            TokenError,
        >(m[key].roles),
        attempt_count(ops, key) >= m[key].limit ==> redeem_outcome(run(m, ops), key, at) == Err::<
            Seq<RoleId>,
            TokenError,
        >(
            if attempt_count(ops, key) == 0 {
                TokenError::Expired
            } else {
                TokenError::NotFound
            },
        ),
{
    lemma_uses_count_down(m, ops, key);
}

} // verus!
