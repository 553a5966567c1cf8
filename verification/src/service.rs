//! The decisions of the user lookup, which reads through a cache before the database.

use vstd::prelude::*;
use crate::model::{User, WalletParty};
use crate::sql::{BaseModel, select_text_spec};
use crate::text::{dec_spec, u64_to_dec, lemma_parse_dec_roundtrip};

verus! {

/// How long a user stays in the cache, in seconds.
pub const USER_CACHE_TTL_SECS: usize = 1800;

/// The cache key of user `uid`: `user_id_` and the decimal id.
pub open spec fn user_cache_key_spec(uid: u64) -> Seq<char> {
    "user_id_"@ + dec_spec(uid as nat)
}

/// Each user has a cache entry of their own: different users have different cache keys.
pub proof fn lemma_cache_keys_distinct(a: u64, b: u64)
    requires
        a != b,
    ensures
        user_cache_key_spec(a) != user_cache_key_spec(b),
{
    let p = "user_id_"@;
    if user_cache_key_spec(a) == user_cache_key_spec(b) {
        let ka = user_cache_key_spec(a);
        let kb = user_cache_key_spec(b);
        assert(ka.subrange(p.len() as int, ka.len() as int) =~= dec_spec(a as nat));
        assert(kb.subrange(p.len() as int, kb.len() as int) =~= dec_spec(b as nat));
        lemma_parse_dec_roundtrip(a);
        lemma_parse_dec_roundtrip(b);
    }
}

/// The cache key of user `uid`.
pub fn user_cache_key(uid: u64) -> (k: String)
    ensures
        k@ == user_cache_key_spec(uid),
{
    let mut k = String::from_str("user_id_");
    let d = u64_to_dec(uid);
    k.append(d.as_str());
    k
}

/// What has happened so far in a user lookup.
#[derive(Debug)]
pub enum LookupEvent {
    /// The lookup starts.
    Start,
    /// The user's wallets were listed.
    WalletsListed,
    /// The cache answered, with the user if it held them.
    Cached(Option<User>),
    /// The database answered, with the user if it holds them.
    Fetched(Option<User>),
}

/// What a user lookup does next.
#[derive(Debug)]
pub enum LookupAction {
    /// Run this query to list the user's wallets.
    ListWallets(String),
    /// Read this key from the cache.
    ReadCache(String),
    /// Run this query to fetch the user.
    QueryDb(String),
    /// Store the user under the key for the given number of seconds, then answer with it.
    CacheAndReturn { key: String, ttl_secs: usize, user: User },
    /// Answer with this.
    Return(Option<User>),
}

/// The next step of the lookup of user `uid`: list the user's wallets, then read the
/// cache; a cached user is the answer; otherwise fetch the user from the database, and
/// cache a user that was found before answering with them.
pub fn lookup_step(uid: u64, event: LookupEvent) -> (a: LookupAction)
    ensures
        match event {
            LookupEvent::Start => a matches LookupAction::ListWallets(sql) && sql@
                == "select * from wallet_party where uid = "@ + dec_spec(uid as nat),
            LookupEvent::WalletsListed => a matches LookupAction::ReadCache(key) && key@
                == user_cache_key_spec(uid),
            LookupEvent::Cached(Some(u)) => a == LookupAction::Return(Some(u)),
            LookupEvent::Cached(None) => a matches LookupAction::QueryDb(sql) && sql@
                == select_text_spec(
                "user"@,
                seq!["id"@ + " = "@ + dec_spec(uid as nat)],
                Some("1"@),
            ),
            LookupEvent::Fetched(Some(u)) => a matches LookupAction::CacheAndReturn {
                key,
                ttl_secs,
                user,
            } && key@ == user_cache_key_spec(uid) && ttl_secs == 1800 && user == u,
            LookupEvent::Fetched(None) => a == LookupAction::Return(None),
        },
{
    match event {
        LookupEvent::Start => LookupAction::ListWallets(WalletParty::query_list_sql(uid, None)),
        LookupEvent::WalletsListed => LookupAction::ReadCache(user_cache_key(uid)),
        LookupEvent::Cached(Some(u)) => LookupAction::Return(Some(u)),
        LookupEvent::Cached(None) => LookupAction::QueryDb(User::fetch_by_id_sql(uid)),
        LookupEvent::Fetched(Some(u)) => LookupAction::CacheAndReturn {
            key: user_cache_key(uid),
            ttl_secs: USER_CACHE_TTL_SECS,
            user: u,
        },
        LookupEvent::Fetched(None) => LookupAction::Return(None),
    }
}

} // verus!
