//! The rows of the wallet database and the queries that read them.

use vstd::prelude::*;
use crate::sql::{
    BaseModel, QueryValue, select_text_spec, where_clauses_spec, quote_spec, join_spec,
};
use crate::text::{dec_spec, u64_to_dec};

verus! {

/// A registered user.
#[derive(Debug, Clone)]
pub struct User {
    pub id: u64,
    pub email: Option<String>,
}

/// An unspent transaction output held by a wallet.
#[derive(Debug, Clone)]
pub struct Utxo {
    pub id: String,
    pub wid: i64,
    pub txid: String,
    pub address: String,
    pub vout: i16,
    pub status: i8,
    pub value: i64,
}

/// A wallet.
#[derive(Debug, Clone)]
pub struct Wallet {
    pub id: u64,
    pub uid: i64,
    pub name: String,
    pub wallet_type: u8,
    pub token: i8,
    pub share: i8,
    pub threshold: i8,
    pub status: u8,
}

/// A user's membership in a wallet.
#[derive(Debug, Clone)]
pub struct WalletParty {
    pub id: u64,
    pub wid: i64,
    pub wallet_type: u8,
    pub role: i8,
    pub uid: i64,
    pub status: u8,
}

/// A statement with `?` placeholders and the values bound to them, in order.
#[derive(Debug)]
pub struct BoundQuery {
    pub sql: String,
    pub binds: Vec<u64>,
}

impl BaseModel for User {
    open spec fn spec_table_name() -> Seq<char> {
        "user"@
    }

    fn get_table_name() -> (t: &'static str) {
        proof {
            reveal_strlit("user");
        }
        "user"
    }
}

impl BaseModel for Utxo {
    open spec fn spec_table_name() -> Seq<char> {
        "utxo"@
    }

    fn get_table_name() -> (t: &'static str) {
        proof {
            reveal_strlit("utxo");
        }
        "utxo"
    }
}

impl BaseModel for Wallet {
    open spec fn spec_table_name() -> Seq<char> {
        "wallet"@
    }

    fn get_table_name() -> (t: &'static str) {
        proof {
            reveal_strlit("wallet");
        }
        "wallet"
    }
}

impl BaseModel for WalletParty {
    open spec fn spec_table_name() -> Seq<char> {
        "wallet_party"@
    }

    fn get_table_name() -> (t: &'static str) {
        proof {
            reveal_strlit("wallet_party");
        }
        "wallet_party"
    }
}

impl User {
    /// The query that fetches the user whose email is `email`.
    pub fn query_by_email_sql(email: &str) -> (sql: String)
        ensures
            sql@ == select_text_spec(
                "user"@,
                seq!["email"@ + " = "@ + quote_spec(email@)],
                Some("1"@),
            ),
    {
        let mut filter: Vec<(String, QueryValue)> = Vec::new();
        filter.push((String::from_str("email"), QueryValue::string(String::from_str(email))));
        let ghost f = filter@;
        assert(where_clauses_spec(f) =~= seq!["email"@ + " = "@ + quote_spec(email@)]);
        Self::fetch_one_sql(Some(filter))
    }
}

impl Utxo {
    /// The query that fetches the outputs of wallet `wid` whose status is 1 or 2.
    pub fn query_sql(wid: u64) -> (sql: String)
        ensures
            sql@ == select_text_spec(
                "utxo"@,
                seq![
                    "wid"@ + " = "@ + dec_spec(wid as nat),
                    "status"@ + " in ( "@ + join_spec(seq![dec_spec(1), dec_spec(2)], ","@)
                        + " )"@,
                ],
                None,
            ),
    {
        let mut statuses: Vec<QueryValue> = Vec::new();
        statuses.push(QueryValue::u8(1));
        statuses.push(QueryValue::u8(2));
        let ghost st = statuses@;
        assert(st =~= seq![QueryValue::u8(1), QueryValue::u8(2)]);
        let mut filter: Vec<(String, QueryValue)> = Vec::new();
        filter.push((String::from_str("wid"), QueryValue::u64(wid)));
        filter.push((String::from_str("status"), QueryValue::arr(Box::new(statuses))));
        let ghost f = filter@;
        proof {
            let items = seq![QueryValue::u8(1), QueryValue::u8(2)];
            assert(items.map_values(|x: QueryValue| crate::sql::sql_value_spec(x)->Some_0)
                =~= seq![dec_spec(1), dec_spec(2)]);
            assert(f[1].1 == QueryValue::arr(Box::new(statuses)));
            assert(crate::sql::where_clause_spec(f[1].0@, f[1].1) == "status"@ + " in ( "@
                + join_spec(seq![dec_spec(1), dec_spec(2)], ","@) + " )"@);
            assert(where_clauses_spec(f) =~= seq![
                "wid"@ + " = "@ + dec_spec(wid as nat),
                "status"@ + " in ( "@ + join_spec(seq![dec_spec(1), dec_spec(2)], ","@)
                    + " )"@,
            ]);
        }
        Self::fetch_all_sql(filter)
    }
}

impl WalletParty {
    /// The statement that fetches the membership of user `uid` in wallet `wallet_id`.
    pub fn query_statement(uid: u64, wallet_id: u64) -> (q: BoundQuery)
        ensures
            q.sql@ == "select * from wallet_party where uid = ? & wid = ? limit 1"@,
            q.binds@ == seq![uid, wallet_id],
    {
        let mut binds: Vec<u64> = Vec::new();
        binds.push(uid);
        binds.push(wallet_id);
        BoundQuery {
            sql: String::from_str("select * from wallet_party where uid = ? & wid = ? limit 1"),
            binds,
        }
    }

    /// The query that lists the memberships of user `uid`, only those of type
    /// `wallet_type` when one is given.
    pub fn query_list_sql(uid: u64, wallet_type: Option<usize>) -> (sql: String)
        ensures
            sql@ == match wallet_type {
                Some(t) => "select * from wallet_party where uid = "@ + dec_spec(uid as nat)
                    + " and type = "@ + dec_spec(t as nat),
                None => "select * from wallet_party where uid = "@ + dec_spec(uid as nat),
            },
    {
        let mut sql = String::from_str("select * from wallet_party where uid = ");
        let u = u64_to_dec(uid);
        sql.append(u.as_str());
        match wallet_type {
            Some(t) => {
                sql.append(" and type = ");
                let d = u64_to_dec(t as u64);
                sql.append(d.as_str());
            },
            None => {},
        }
        sql
    }
}

} // verus!
