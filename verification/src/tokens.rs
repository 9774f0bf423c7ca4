//! The token store and the lifecycle of a token: issue, revoke, redeem.

use crate::entries::{entries_map, entries_view, lemma_listing_reads_back, lists_exactly};
use crate::time::{now, Timestamp};
use std::collections::HashMap;
use uuid::Uuid;
use vstd::prelude::*;
use vstd::std_specs::iter::IteratorSpec;

verus! {

broadcast use vstd::std_specs::hash::group_hash_axioms;

/// The identifier of a token: 128 opaque bits.
pub type TokenKey = u128;

/// The identifier of a role that a token grants.
pub type RoleId = u64;

/// What the store keeps for one token.
#[derive(Debug, PartialEq, Eq)]
pub struct TokenData {
    /// The roles granted on every redemption, in the order given at issue.
    pub roles: Vec<RoleId>,
    /// How many redemptions are left.
    pub limit: u32,
    /// The instant after which the token can no longer be redeemed.
    pub expiration: Timestamp,
}

/// The mathematical value of a [`TokenData`].
pub ghost struct TokenRecord {
    pub roles: Seq<RoleId>,
    pub limit: nat,
    pub expiration: Timestamp,
}

impl View for TokenData {
    type V = TokenRecord;

    open spec fn view(&self) -> TokenRecord {
        TokenRecord { roles: self.roles@, limit: self.limit as nat, expiration: self.expiration }
    }
}

impl Clone for TokenData {
    fn clone(&self) -> (copy: Self)
        ensures
            copy@ == self@,
    {
        let roles = self.roles.clone();
        assert(roles@ =~= self.roles@);
        TokenData { roles, limit: self.limit, expiration: self.expiration }
    }
}

/// Why a redemption or a lookup gave nothing.
#[derive(Clone, Copy, Debug, PartialEq, Eq, Structural)]
pub enum TokenError {
    /// The store holds no token under the key.
    NotFound,
    /// The token was past its expiration, or had no redemption left.
    Expired,
}

impl TokenError {
    /// The wording of the error.
    pub open spec fn wording(self) -> Seq<char> {
        match self {
            TokenError::NotFound => "token not found"@,
            TokenError::Expired => "token expired"@,
        }
    }

    /// The error in words, for whoever asked.
    pub fn message(&self) -> (text: &'static str)
        ensures
            text@ == self.wording(),
    {
        match self {
            TokenError::NotFound => "token not found",
            TokenError::Expired => "token expired",
        }
    }
}

/// The store as a mathematical map.
pub type TokenMap = Map<TokenKey, TokenRecord>;

/// Whether `now` lies after the record's expiration.
pub open spec fn expired(record: TokenRecord, now: Timestamp) -> bool {
    now.nanos() > record.expiration.nanos()
}

/// Whether the record can be redeemed at `now`: not expired, and a use is left.
pub open spec fn redeemable(record: TokenRecord, now: Timestamp) -> bool {
    !expired(record, now) && record.limit > 0
}

/// What a redemption of `key` at `now` returns.
pub open spec fn redeem_outcome(m: TokenMap, key: TokenKey, now: Timestamp) -> Result<
    Seq<RoleId>,
    TokenError,
> {
    if !m.contains_key(key) {
        Err(TokenError::NotFound)
    } else if !redeemable(m[key], now) {
        Err(TokenError::Expired)
    } else {
        Ok(m[key].roles)
    }
}

/// The store after a redemption of `key` at `now`: a redeemable record with
/// more than one use left loses one use; in every other case nothing is left
/// under `key`.
pub open spec fn redeem_store(m: TokenMap, key: TokenKey, now: Timestamp) -> TokenMap {
    if m.contains_key(key) && redeemable(m[key], now) && m[key].limit > 1 {
        m.insert(key, TokenRecord { limit: (m[key].limit - 1) as nat, ..m[key] })
    } else {
        m.remove(key)
    }
}

/// The mathematical value of what a redemption returned.
pub open spec fn outcome_view(res: Result<Vec<RoleId>, TokenError>) -> Result<
    Seq<RoleId>,
    TokenError,
> {
    match res {
        Ok(roles) => Ok(roles@),
        Err(e) => Err(e),
    }
}

/// The token store: at most one record under each key.
pub struct TokenDb {
    map: HashMap<TokenKey, TokenData>,
}

impl View for TokenDb {
    type V = TokenMap;

    closed spec fn view(&self) -> TokenMap {
        Map::new(|k: TokenKey| self.map@.contains_key(k), |k: TokenKey| self.map@[k]@)
    }
}

/// Whether `key` has the fixed bits of a random (version 4) UUID: the version
/// digit is 4 and the two variant bits are `10`.
pub open spec fn is_random_uuid(key: TokenKey) -> bool {
    key & 0x0000_0000_0000_f000_c000_0000_0000_0000 == 0x0000_0000_0000_4000_8000_0000_0000_0000
}

/// `Uuid::new_v4` followed by `Uuid::as_u128`: a fresh identifier from the
/// operating system's random source. Trusted: `new_v4` sets the version digit
/// to 4 and the variant bits to `10`, and `as_u128` reads the sixteen bytes
/// most significant first. The other 122 bits are random; nothing is claimed
/// of them, and two calls may return the same key. Where the operating system
/// has no random bytes to give, `new_v4` panics.
#[verifier::external_body]
fn random_key() -> (key: TokenKey)
    ensures
        is_random_uuid(key),
{
    Uuid::new_v4().as_u128()
}

/// An empty store.
pub fn create_db() -> (db: TokenDb)
    ensures
        db@ == TokenMap::empty(),
{
    let db = TokenDb { map: HashMap::new() };
    assert(db@ =~= TokenMap::empty());
    db
}

/// The store that a list of entries stands for. Of two entries with one key
/// the later stays.
pub fn load_db(entries: Vec<(TokenKey, TokenData)>) -> (db: TokenDb)
    ensures
        db@ == entries_map(entries_view(entries@)),
{
    let mut db = create_db();
    let ghost all = entries_view(entries@);
    let mut i: usize = 0;
    while i < entries.len()
        invariant
            i <= entries.len(),
            all == entries_view(entries@),
            db@ == entries_map(all.take(i as int)),
        decreases entries.len() - i,
    {
        let key: TokenKey = entries[i].0;
        let data = entries[i].1.clone();
        proof {
            let upto = all.take(i + 1);
            assert(upto.drop_last() =~= all.take(i as int));
            assert(upto.last() == (key, data@));
        }
        set_token(&mut db, key, data);
        i += 1;
    }
    assert(all.take(i as int) =~= all);
    db
}

/// Every record of the store with its key, each once, in no promised order.
pub fn snapshot(db: &TokenDb) -> (entries: Vec<(TokenKey, TokenData)>)
    ensures
        lists_exactly(entries_view(entries@), db@),
        entries_map(entries_view(entries@)) == db@,
        entries@.len() == db@.len(),
{
    let mut entries: Vec<(TokenKey, TokenData)> = Vec::new();
    for pair in it: db.map.iter()
        invariant
            it.seq() == db.map.iter().remaining(),
            it.seq().no_duplicates(),
            entries@.len() == it.index(),
            forall|i: int|
                0 <= i < entries@.len() ==> (#[trigger] entries@[i]).0 == *it.seq()[i].0
                    && entries@[i].1@ == (*it.seq()[i].1)@,
    {
        let key: TokenKey = *pair.0;
        entries.push((key, pair.1.clone()));
    }
    proof {
        let listed = entries_view(entries@);
        let walked = db.map.iter().remaining();
        assert(db@.dom() =~= db.map@.dom());
        assert forall|i: int| 0 <= i < listed.len() implies db@.contains_key(
            (#[trigger] listed[i]).0,
        ) && db@[listed[i].0] == listed[i].1 by {
            assert(db.map@.contains_key(*walked[i].0));
        }
        assert forall|i: int, j: int| 0 <= i < j < listed.len() implies (#[trigger] listed[i]).0 != (
        #[trigger] listed[j]).0 by {
            assert(db.map@.contains_key(*walked[i].0));
            assert(db.map@.contains_key(*walked[j].0));
            if listed[i].0 == listed[j].0 {
                assert(walked[i] == walked[j]);
            }
        }
        assert forall|k: TokenKey| #[trigger] db@.contains_key(k) implies exists|i: int|
            0 <= i < listed.len() && (#[trigger] listed[i]).0 == k by {
            assert(walked.contains((&k, &db.map@[k])));
            let i = choose|i: int| 0 <= i < walked.len() && walked[i] == (&k, &db.map@[k]);
            assert(listed[i].0 == k);
        }
        lemma_listing_reads_back(listed, db@);
    }
    entries
}

/// The record under `key`.
pub fn _get_token(db: &TokenDb, key: TokenKey) -> (res: Result<TokenData, TokenError>)
    ensures
        match res {
            Ok(data) => db@.contains_key(key) && data@ == db@[key],
            Err(e) => !db@.contains_key(key) && e == TokenError::NotFound,
        },
{
    match db.map.get(&key) {
        Some(data) => Ok(data.clone()),
        None => Err(TokenError::NotFound),
    }
}

/// Puts `data` under `key`, in place of whatever was there.
pub fn set_token(db: &mut TokenDb, key: TokenKey, data: TokenData)
    ensures
        final(db)@ == old(db)@.insert(key, data@),
{
    db.map.insert(key, data);
    assert(db@ =~= old(db)@.insert(key, data@));
}

/// Removes the record under `key`, if there is one.
pub fn rem_token(db: &mut TokenDb, key: TokenKey)
    ensures
        final(db)@ == old(db)@.remove(key),
        !old(db)@.contains_key(key) ==> final(db)@ == old(db)@,
{
    db.map.remove(&key);
    assert(db@ =~= old(db)@.remove(key));
    assert(!old(db)@.contains_key(key) ==> db@ =~= old(db)@);
}

/// Redeems the token under `key` at the instant `now`.
///
/// An absent key gives `NotFound` and changes nothing. A token that is past
/// its expiration or has no use left gives `Expired` and is removed. Any
/// other token gives its full list of roles and loses one use; with its last
/// use it is removed.
pub fn use_token_at(db: &mut TokenDb, key: TokenKey, now: Timestamp) -> (res: Result<
    Vec<RoleId>,
    TokenError,
>)
    ensures
        outcome_view(res) == redeem_outcome(old(db)@, key, now),
        final(db)@ == redeem_store(old(db)@, key, now),
        !old(db)@.contains_key(key) ==> final(db)@ == old(db)@,
{
    let mut ans = match db.map.get(&key) {
        Some(data) => data.clone(),
        None => {
            assert(db@.remove(key) =~= db@);
            return Err(TokenError::NotFound);
        },
    };
    if now.is_after(&ans.expiration) {
        ans.limit = 0;
    }
    let res = if ans.limit == 0 {
        Err(TokenError::Expired)
    } else {
        ans.limit -= 1;
        Ok(ans.roles.clone())
    };
    if ans.limit == 0 {
        rem_token(db, key);
    } else {
        set_token(db, key, ans);
    }
    res
}

/// Puts `data` into the store under a fresh random key and returns the key.
///
/// The key is not compared with those in the store: should it be there
/// already, the new record takes the place of the old one.
pub fn add_token(db: &mut TokenDb, data: TokenData) -> (key: TokenKey)
    ensures
        is_random_uuid(key),
        final(db)@ == old(db)@.insert(key, data@),
{
    let key = random_key();
    set_token(db, key, data);
    key
}

/// Redeems the token under `key` at the instant the system clock shows.
///
/// The result and the store are those of [`use_token_at`] for some instant.
pub fn use_token(db: &mut TokenDb, key: TokenKey) -> (res: Result<Vec<RoleId>, TokenError>)
    ensures
        exists|at: Timestamp|
            outcome_view(res) == #[trigger] redeem_outcome(old(db)@, key, at) && final(db)@
                == redeem_store(old(db)@, key, at),
        !old(db)@.contains_key(key) ==> final(db)@ == old(db)@,
{
    let at = now();
    use_token_at(db, key, at)
}

} // verus!
