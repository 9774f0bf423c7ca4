//! What the commands compute around the store: the record of a new token
//! from a command's arguments, and the roles a member still lacks.

use crate::time::{now, Timestamp};
use crate::tokens::{add_token, is_random_uuid, RoleId, TokenData, TokenDb, TokenKey, TokenRecord};
use vstd::prelude::*;

verus! {

/// Redemptions of a token issued without a count.
pub const DEFAULT_USES: u32 = 1;

/// Lifetime in hours of a token issued without one: four days.
pub const DEFAULT_HOURS: u64 = 96;

/// The one role or none that an optional argument stands for.
pub open spec fn optional_role(role: Option<RoleId>) -> Seq<RoleId> {
    match role {
        Some(r) => seq![r],
        None => Seq::empty(),
    }
}

/// The roles named by a command, in the order of its arguments.
pub open spec fn named_roles(
    role0: RoleId,
    role1: Option<RoleId>,
    role2: Option<RoleId>,
    role3: Option<RoleId>,
) -> Seq<RoleId> {
    seq![role0] + optional_role(role1) + optional_role(role2) + optional_role(role3)
}

/// The record of a token issued at `now`: the count defaults to
/// [`DEFAULT_USES`], the lifetime to [`DEFAULT_HOURS`]. There is none when
/// the expiration cannot be stored.
pub open spec fn issued_record(
    roles: Seq<RoleId>,
    uses: Option<u32>,
    time_limit_hours: Option<u64>,
    now: Timestamp,
) -> Option<TokenRecord> {
    let limit = match uses {
        Some(n) => n,
        None => DEFAULT_USES,
    };
    let hours = match time_limit_hours {
        Some(h) => h,
        None => DEFAULT_HOURS,
    };
    match now.hours_later(hours) {
        Some(expiration) => Some(TokenRecord { roles, limit: limit as nat, expiration }),
        None => None,
    }
}

/// Gathers the roles that a command names: the first always, the others
/// where given.
pub fn collect_roles(
    role0: RoleId,
    role1: Option<RoleId>,
    role2: Option<RoleId>,
    role3: Option<RoleId>,
) -> (roles: Vec<RoleId>)
    ensures
        roles@ == named_roles(role0, role1, role2, role3),
        1 <= roles@.len() <= 4,
{
    let mut roles: Vec<RoleId> = Vec::new();
    roles.push(role0);
    if let Some(r) = role1 {
        roles.push(r);
    }
    if let Some(r) = role2 {
        roles.push(r);
    }
    if let Some(r) = role3 {
        roles.push(r);
    }
    assert(roles@ =~= named_roles(role0, role1, role2, role3));
    roles
}

/// Builds the record of a token issued at `now`.
pub fn new_token(
    roles: Vec<RoleId>,
    uses: Option<u32>,
    time_limit_hours: Option<u64>,
    now: Timestamp,
) -> (data: Option<TokenData>)
    ensures
        match issued_record(roles@, uses, time_limit_hours, now) {
            Some(record) => data matches Some(d) && d@ == record,
            None => data is None,
        },
{
    let limit: u32 = match uses {
        Some(n) => n,
        None => DEFAULT_USES,
    };
    let hours: u64 = match time_limit_hours {
        Some(h) => h,
        None => DEFAULT_HOURS,
    };
    match now.plus_hours(hours) {
        Some(expiration) => Some(TokenData { roles, limit, expiration }),
        None => None,
    }
}

/// Issues a token at the instant `now` for the roles that the command names
/// and returns its key.
///
/// Nothing is issued, and the store stays as it was, when the expiration
/// cannot be stored.
pub fn issue_at(
    db: &mut TokenDb,
    role0: RoleId,
    role1: Option<RoleId>,
    role2: Option<RoleId>,
    role3: Option<RoleId>,
    uses: Option<u32>,
    time_limit_hours: Option<u64>,
    now: Timestamp,
) -> (key: Option<TokenKey>)
    ensures
        match issued_record(named_roles(role0, role1, role2, role3), uses, time_limit_hours, now) {
            Some(record) => key matches Some(k) && is_random_uuid(k) && final(db)@ == old(
                db,
            )@.insert(k, record),
            None => key is None && final(db)@ == old(db)@,
        },
{
    let roles = collect_roles(role0, role1, role2, role3);
    match new_token(roles, uses, time_limit_hours, now) {
        Some(data) => Some(add_token(db, data)),
        None => None,
    }
}

/// Issues a token at the instant the system clock shows.
///
/// The result and the store are those of [`issue_at`] for some instant.
pub fn issue(
    db: &mut TokenDb,
    role0: RoleId,
    role1: Option<RoleId>,
    role2: Option<RoleId>,
    role3: Option<RoleId>,
    uses: Option<u32>,
    time_limit_hours: Option<u64>,
) -> (key: Option<TokenKey>)
    ensures
        exists|at: Timestamp|
            match #[trigger] issued_record(
                named_roles(role0, role1, role2, role3),
                uses,
                time_limit_hours,
                at,
            ) {
                Some(record) => key matches Some(k) && is_random_uuid(k) && final(db)@ == old(
                    db,
                )@.insert(k, record),
                None => key is None && final(db)@ == old(db)@,
            },
{
    let at = now();
    issue_at(db, role0, role1, role2, role3, uses, time_limit_hours, at)
}

/// Each element is smaller than those after it.
pub open spec fn strictly_increasing(s: Seq<RoleId>) -> bool {
    forall|i: int, j: int| 0 <= i < j < s.len() ==> s[i] < s[j]
}

/// Whether `role` occurs in `list`.
fn has_role(list: &Vec<RoleId>, role: RoleId) -> (found: bool)
    ensures
        found == list@.contains(role),
{
    let mut i: usize = 0;
    while i < list.len()
        invariant
            i <= list.len(),
            forall|j: int| 0 <= j < i ==> list@[j] != role,
        decreases list.len() - i,
    {
        if list[i] == role {
            return true;
        }
        i += 1;
    }
    false
}

/// Puts `role` at its place in an increasing list, unless it is there.
fn insert_role(list: &mut Vec<RoleId>, role: RoleId)
    requires
        strictly_increasing(old(list)@),
    ensures
        strictly_increasing(final(list)@),
        forall|r: RoleId| final(list)@.contains(r) <==> old(list)@.contains(r) || r == role,
{
    let mut i: usize = 0;
    while i < list.len() && list[i] < role
        invariant
            i <= list.len(),
            *list == *old(list),
            forall|j: int| 0 <= j < i ==> list@[j] < role,
        decreases list.len() - i,
    {
        i += 1;
    }
    if i < list.len() && list[i] == role {
        assert(list@.contains(role));
    } else {
        list.insert(i, role);
        let ghost before = old(list)@;
        let ghost after = list@;
        assert(after[i as int] == role);
        assert forall|a: int, b: int| 0 <= a < b < after.len() implies after[a] < after[b] by {
            if a == i {
                assert(before[i as int] <= before[b - 1]);
            }
        }
        assert forall|r: RoleId| after.contains(r) <==> before.contains(r) || r == role by {
            if after.contains(r) {
                let k = choose|k: int| 0 <= k < after.len() && after[k] == r;
                if k < i {
                    assert(before[k] == r);
                } else if k > i {
                    assert(before[k - 1] == r);
                }
            }
            if before.contains(r) {
                let k = choose|k: int| 0 <= k < before.len() && before[k] == r;
                if k < i {
                    assert(after[k] == r);
                } else {
                    assert(after[k + 1] == r);
                }
            }
        }
    }
}

/// The roles among `granted` that a member who holds `held` still lacks:
/// each once, in increasing order.
pub fn roles_to_grant(granted: &Vec<RoleId>, held: &Vec<RoleId>) -> (fresh: Vec<RoleId>)
    ensures
        strictly_increasing(fresh@),
        forall|r: RoleId| fresh@.contains(r) <==> granted@.contains(r) && !held@.contains(r),
{
    let mut fresh: Vec<RoleId> = Vec::new();
    let mut i: usize = 0;
    while i < granted.len()
        invariant
            i <= granted.len(),
            strictly_increasing(fresh@),
            forall|r: RoleId|
                fresh@.contains(r) <==> granted@.take(i as int).contains(r) && !held@.contains(r),
        decreases granted.len() - i,
    {
        let role = granted[i];
        let ghost seen = granted@.take(i as int);
        let ghost seen_next = granted@.take(i + 1);
        assert forall|r: RoleId| seen_next.contains(r) <==> seen.contains(r) || r == role by {
            if seen.contains(r) {
                let k = choose|k: int| 0 <= k < seen.len() && seen[k] == r;
                assert(seen_next[k] == r);
            }
            if r == role {
                assert(seen_next[i as int] == r);
            }
        }
        if !has_role(held, role) {
            insert_role(&mut fresh, role);
        }
        i += 1;
    }
    assert(granted@.take(i as int) =~= granted@);
    fresh
}

/// Two increasing lists with the same elements are the same list: the
/// contract of [`roles_to_grant`] admits one result.
pub proof fn lemma_increasing_list_unique(a: Seq<RoleId>, b: Seq<RoleId>)
    requires
        strictly_increasing(a),
        strictly_increasing(b),
        forall|r: RoleId| a.contains(r) <==> b.contains(r),
    ensures
        a == b,
    decreases a.len(),
{
    if a.len() == 0 {
        if b.len() > 0 {
            assert(b.contains(b[0]));
        }
        assert(a =~= b);
    } else {
        let top = a.last();
        assert(a.contains(top));
        assert(b.contains(top));
        let k = choose|k: int| 0 <= k < b.len() && b[k] == top;
        if k < b.len() - 1 {
            let above = b.last();
            assert(b.contains(above));
            let h = choose|h: int| 0 <= h < a.len() && a[h] == above;
            assert(a[h] <= top);
        }
        let a0 = a.drop_last();
        let b0 = b.drop_last();
        assert forall|r: RoleId| a0.contains(r) <==> b0.contains(r) by {
            if a0.contains(r) {
                let h = choose|h: int| 0 <= h < a0.len() && a0[h] == r;
                assert(a[h] == r && a.contains(r));
                let g = choose|g: int| 0 <= g < b.len() && b[g] == r;
                assert(r < top);
                assert(b0[g] == r);
            }
            if b0.contains(r) {
                let g = choose|g: int| 0 <= g < b0.len() && b0[g] == r;
                assert(b[g] == r && b.contains(r));
                let h = choose|h: int| 0 <= h < a.len() && a[h] == r;
                assert(r < top);
                assert(a0[h] == r);
            }
        }
        lemma_increasing_list_unique(a0, b0);
        assert(a =~= a0.push(top));
        assert(b =~= b0.push(top));
    }
}

} // verus!
