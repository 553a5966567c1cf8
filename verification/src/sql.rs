//! SELECT statements built with `sql_builder`, and the filter values that go into them.

use vstd::prelude::*;
use sql_builder::SqlBuilder;
use crate::text::{dec_spec, u64_to_dec, parse_u64_spec, lemma_parse_dec_roundtrip};

verus! {

/// `sql_builder::SqlBuilder`, carried through the library as an opaque value.
#[verifier::external_type_specification]
#[verifier::external_body]
pub struct ExSqlBuilder(sql_builder::SqlBuilder);

/// The table that a builder selects from.
pub uninterp spec fn builder_table(b: SqlBuilder) -> Seq<char>;

/// The WHERE conditions that a builder holds, in the order they were added.
pub uninterp spec fn builder_wheres(b: SqlBuilder) -> Seq<Seq<char>>;

/// The LIMIT that a builder holds, if any.
pub uninterp spec fn builder_limit(b: SqlBuilder) -> Option<Seq<char>>;

/// Whether a builder is a SELECT of all columns from one table, with nothing set but
/// WHERE conditions and a LIMIT.
pub uninterp spec fn builder_is_plain_select(b: SqlBuilder) -> bool;

/// Single quotes doubled, as `sql_builder::esc` does.
pub open spec fn escape_spec(s: Seq<char>) -> Seq<char>
    decreases s.len(),
{
    if s.len() == 0 {
        s
    } else if s.last() == '\'' {
        escape_spec(s.drop_last()) + seq!['\'', '\'']
    } else {
        escape_spec(s.drop_last()).push(s.last())
    }
}

/// An SQL string literal holding `s`, as `sql_builder::quote` writes it.
pub open spec fn quote_spec(s: Seq<char>) -> Seq<char> {
    seq!['\''] + escape_spec(s) + seq!['\'']
}

/// The value an SQL string body stands for: each doubled single quote reads as one.
pub open spec fn unescape_spec(s: Seq<char>) -> Seq<char>
    decreases s.len(),
{
    if s.len() >= 2 && s.last() == '\'' && s[s.len() - 2] == '\'' {
        unescape_spec(s.subrange(0, s.len() - 2)).push('\'')
    } else if s.len() > 0 {
        unescape_spec(s.drop_last()).push(s.last())
    } else {
        s
    }
}

/// A quoted string reads back as the value it quotes: between the outer quotes of
/// `quote_spec(s)` stands a body that reads as `s`.
pub proof fn lemma_quote_reads_back(s: Seq<char>)
    ensures
        quote_spec(s).len() >= 2,
        quote_spec(s)[0] == '\'',
        quote_spec(s).last() == '\'',
        unescape_spec(quote_spec(s).subrange(1, quote_spec(s).len() - 1)) == s,
    decreases s.len(),
{
    lemma_escape_reads_back(s);
    let q = quote_spec(s);
    assert(q.subrange(1, q.len() - 1) =~= escape_spec(s));
}

proof fn lemma_escape_reads_back(s: Seq<char>)
    ensures
        unescape_spec(escape_spec(s)) == s,
    decreases s.len(),
{
    if s.len() > 0 {
        let t = s.drop_last();
        lemma_escape_reads_back(t);
        let e = escape_spec(t);
        if s.last() == '\'' {
            let x = e + seq!['\'', '\''];
            assert(x.subrange(0, x.len() - 2) =~= e);
            assert(unescape_spec(x) == unescape_spec(e).push('\''));
        } else {
            let x = e.push(s.last());
            assert(x.drop_last() =~= e);
        }
        assert(t.push(s.last()) =~= s);
    } else {
        assert(escape_spec(s) =~= s);
    }
}

/// Fetching one row asks for the same rows as fetching all of them, limited to one.
pub proof fn lemma_fetch_one_is_limited_fetch_all(table: Seq<char>, wheres: Seq<Seq<char>>)
    ensures
        select_text_spec(table, wheres, Some("1"@)) == select_text_spec(table, wheres, None)
            .drop_last() + " LIMIT 1"@ + ";"@,
{
    let a = "SELECT * FROM "@ + table + where_part_spec(wheres);
    assert(select_text_spec(table, wheres, None) =~= a + Seq::<char>::empty() + ";"@);
    assert(";"@.len() == 1) by {
        reveal_strlit(";");
    }
    assert((a + Seq::<char>::empty() + ";"@).drop_last() =~= a);
    assert(select_text_spec(table, wheres, Some("1"@)) =~= a + (" LIMIT "@ + "1"@) + ";"@);
    assert(" LIMIT 1"@ =~= " LIMIT "@ + "1"@) by {
        reveal_strlit(" LIMIT 1");
        reveal_strlit(" LIMIT ");
        reveal_strlit("1");
    }
}

/// `parts` joined with `sep` between them.
pub open spec fn join_spec(parts: Seq<Seq<char>>, sep: Seq<char>) -> Seq<char>
    decreases parts.len(),
{
    if parts.len() == 0 {
        Seq::<char>::empty()
    } else if parts.len() == 1 {
        parts[0]
    } else {
        join_spec(parts.drop_last(), sep) + sep + parts.last()
    }
}

/// The WHERE part of a SELECT, as `SqlBuilder` writes it: nothing for no condition,
/// the condition itself for one, each in brackets joined by `AND` for more.
pub open spec fn where_part_spec(wheres: Seq<Seq<char>>) -> Seq<char> {
    if wheres.len() == 0 {
        Seq::<char>::empty()
    } else if wheres.len() == 1 {
        " WHERE "@ + wheres[0]
    } else {
        " WHERE "@ + join_spec(wheres.map_values(|w: Seq<char>| "("@ + w + ")"@), " AND "@)
    }
}

/// The text of a plain SELECT of all columns, as `SqlBuilder::sql` writes it.
pub open spec fn select_text_spec(
    table: Seq<char>,
    wheres: Seq<Seq<char>>,
    limit: Option<Seq<char>>,
) -> Seq<char> {
    let limit_part = match limit {
        Some(l) => " LIMIT "@ + l,
        None => Seq::<char>::empty(),
    };
    "SELECT * FROM "@ + table + where_part_spec(wheres) + limit_part + ";"@
}

/// Starts a SELECT of all columns from `table`; a wrapper of `SqlBuilder::select_from`,
/// whose source sets the table and leaves every other part at its default.
#[verifier::external_body]
fn builder_select_from(table: &str) -> (b: SqlBuilder)
    ensures
        builder_table(b) == table@,
        builder_wheres(b) == Seq::<Seq<char>>::empty(),
        builder_limit(b) == None::<Seq<char>>,
        builder_is_plain_select(b),
{
    SqlBuilder::select_from(table)
}

/// Adds the condition `cond`; a wrapper of `SqlBuilder::and_where`, whose source pushes
/// the condition onto the list of conditions and changes nothing else.
#[verifier::external_body]
fn builder_and_where(b: &mut SqlBuilder, cond: &str)
    ensures
        builder_table(*final(b)) == builder_table(*old(b)),
        builder_wheres(*final(b)) == builder_wheres(*old(b)).push(cond@),
        builder_limit(*final(b)) == builder_limit(*old(b)),
        builder_is_plain_select(*final(b)) == builder_is_plain_select(*old(b)),
{
    b.and_where(cond);
}

/// Adds the condition `field = value`; a wrapper of `SqlBuilder::and_where_eq`, whose
/// source pushes `field`, ` = ` and `value`, joined, onto the list of conditions.
#[verifier::external_body]
fn builder_and_where_eq(b: &mut SqlBuilder, field: &str, value: &str)
    ensures
        builder_table(*final(b)) == builder_table(*old(b)),
        builder_wheres(*final(b)) == builder_wheres(*old(b)).push(field@ + " = "@ + value@),
        builder_limit(*final(b)) == builder_limit(*old(b)),
        builder_is_plain_select(*final(b)) == builder_is_plain_select(*old(b)),
{
    b.and_where_eq(field, value);
}

/// Sets the LIMIT; a wrapper of `SqlBuilder::limit`, whose source stores the limit's
/// text and changes nothing else.
#[verifier::external_body]
fn builder_set_limit(b: &mut SqlBuilder, limit: &str)
    ensures
        builder_table(*final(b)) == builder_table(*old(b)),
        builder_wheres(*final(b)) == builder_wheres(*old(b)),
        builder_limit(*final(b)) == Some(limit@),
        builder_is_plain_select(*final(b)) == builder_is_plain_select(*old(b)),
{
    b.limit(limit);
}

/// The SQL text of a plain SELECT; a wrapper of `SqlBuilder::sql`, whose source fails
/// exactly when the table name is empty and otherwise writes the SELECT as
/// `select_text_spec` says.
#[verifier::external_body]
fn builder_sql(b: &SqlBuilder) -> (r: Option<String>)
    requires
        builder_is_plain_select(*b),
    ensures
        r is Some <==> builder_table(*b).len() > 0,
        r matches Some(s) ==> s@ == select_text_spec(
            builder_table(*b),
            builder_wheres(*b),
            builder_limit(*b),
        ),
{
    b.sql().ok()
}

/// Quotes `s` as an SQL string literal; a wrapper of `sql_builder::quote`, whose source
/// doubles every single quote and puts the result between single quotes.
#[verifier::external_body]
fn sql_quote(s: &str) -> (r: String)
    ensures
        r@ == quote_spec(s@),
{
    sql_builder::quote(s)
}

/// A value that a query filter compares a column with.
#[derive(Debug)]
#[allow(non_camel_case_types)]
pub enum QueryValue {
    string(String),
    u8(u8),
    u64(u64),
    arr(Box<Vec<QueryValue>>),
}

/// The SQL text of a single value: a quoted literal for a string, the decimal text for a
/// number, and nothing for a list.
pub open spec fn sql_value_spec(v: QueryValue) -> Option<Seq<char>> {
    match v {
        QueryValue::string(s) => Some(quote_spec(s@)),
        QueryValue::u8(n) => Some(dec_spec(n as nat)),
        QueryValue::u64(n) => Some(dec_spec(n as nat)),
        QueryValue::arr(_) => None,
    }
}

/// The SQL text of every single value reads back as that value: a number's text parses
/// back to the number, a string's text is quoted and unescapes back to the string; a list
/// has no text of its own.
pub proof fn lemma_sql_value_reads_back(v: QueryValue)
    ensures
        v is arr <==> sql_value_spec(v) is None,
        v matches QueryValue::u8(n) ==> parse_u64_spec(sql_value_spec(v)->Some_0) == Some(
            n as u64,
        ),
        v matches QueryValue::u64(n) ==> parse_u64_spec(sql_value_spec(v)->Some_0) == Some(n),
        v matches QueryValue::string(s) ==> {
            let t = sql_value_spec(v)->Some_0;
            &&& t.len() >= 2
            &&& t[0] == '\''
            &&& t.last() == '\''
            &&& unescape_spec(t.subrange(1, t.len() - 1)) == s@
        },
{
    match v {
        QueryValue::u8(n) => lemma_parse_dec_roundtrip(n as u64),
        QueryValue::u64(n) => lemma_parse_dec_roundtrip(n),
        QueryValue::string(s) => lemma_quote_reads_back(s@),
        QueryValue::arr(_) => {},
    }
}

/// The condition for a single value compares the column with the value's text: `key = `
/// followed by text that reads back as the value.
pub proof fn lemma_where_clause_single(key: Seq<char>, v: QueryValue)
    requires
        !(v is arr),
    ensures
        where_clause_spec(key, v) == key + " = "@ + sql_value_spec(v)->Some_0,
        v matches QueryValue::u8(n) ==> parse_u64_spec(sql_value_spec(v)->Some_0) == Some(
            n as u64,
        ),
        v matches QueryValue::u64(n) ==> parse_u64_spec(sql_value_spec(v)->Some_0) == Some(n),
{
    lemma_sql_value_reads_back(v);
}

/// Whether `v` is a single value, or a list of single values.
pub open spec fn value_is_flat(v: QueryValue) -> bool {
    match v {
        QueryValue::arr(items) => forall|i: int|
            0 <= i < items@.len() ==> !((#[trigger] items@[i]) is arr),
        _ => true,
    }
}

/// The WHERE condition for the column `key` and the value `v`: `key = value` for a single
/// value, `key in ( a,b,... )` for a list.
pub open spec fn where_clause_spec(key: Seq<char>, v: QueryValue) -> Seq<char> {
    match v {
        QueryValue::arr(items) => key + " in ( "@ + join_spec(
            items@.map_values(|x: QueryValue| sql_value_spec(x)->Some_0),
            ","@,
        ) + " )"@,
        _ => key + " = "@ + sql_value_spec(v)->Some_0,
    }
}

/// Whether every value of a filter is a single value or a list of single values.
pub open spec fn filter_is_flat(filter: Seq<(String, QueryValue)>) -> bool {
    forall|i: int| 0 <= i < filter.len() ==> value_is_flat(#[trigger] filter[i].1)
}

/// The WHERE conditions of a filter, one for each entry, in order.
pub open spec fn where_clauses_spec(filter: Seq<(String, QueryValue)>) -> Seq<Seq<char>> {
    filter.map_values(|e: (String, QueryValue)| where_clause_spec(e.0@, e.1))
}

/// The SQL text of a single value.
pub fn sql_value(v: &QueryValue) -> (r: Option<String>)
    ensures
        r matches Some(s) ==> sql_value_spec(*v) == Some(s@),
        r is None ==> sql_value_spec(*v) is None,
{
    match v {
        QueryValue::string(s) => Some(sql_quote(s.as_str())),
        QueryValue::u8(n) => Some(u64_to_dec(*n as u64)),
        QueryValue::u64(n) => Some(u64_to_dec(*n)),
        QueryValue::arr(_) => None,
    }
}


/// `parts` joined with `sep` between them.
pub fn join_strings(parts: &Vec<String>, sep: &str) -> (r: String)
    ensures
        r@ == join_spec(parts@.map_values(|p: String| p@), sep@),
{
    let ghost views = parts@.map_values(|p: String| p@);
    let mut r = String::new();
    let n = parts.len();
    let mut i: usize = 0;
    while i < n
        invariant
            n == parts@.len(),
            i <= n,
            views == parts@.map_values(|p: String| p@),
            r@ == join_spec(views.take(i as int), sep@),
        decreases n - i,
    {
        assert(views.take(i + 1).drop_last() =~= views.take(i as int));
        if i == 0 {
            assert(r@ =~= Seq::<char>::empty());
            r.append(parts[i].as_str());
            assert(r@ =~= views.take(1)[0]);
        } else {
            r.append(sep);
            r.append(parts[i].as_str());
        }
        i = i + 1;
    }
    assert(views.take(n as int) =~= views);
    r
}

/// The WHERE condition for the column `key` and the value `v`.
pub fn where_clause(key: &str, v: &QueryValue) -> (r: String)
    requires
        value_is_flat(*v),
    ensures
        r@ == where_clause_spec(key@, *v),
{
    match sql_value(v) {
        Some(s) => {
            let mut r = String::from_str(key);
            r.append(" = ");
            r.append(s.as_str());
            r
        },
        None => {
            match v {
                QueryValue::arr(items) => {
                    let mut list: Vec<String> = Vec::new();
                    let n = items.len();
                    let mut i: usize = 0;
                    while i < n
                        invariant
                            n == items@.len(),
                            i <= n,
                            value_is_flat(*v),
                            *v == QueryValue::arr(*items),
                            list@.len() == i,
                            forall|j: int|
                                0 <= j < i ==> (#[trigger] list@[j])@ == sql_value_spec(
                                    items@[j],
                                )->Some_0,
                        decreases n - i,
                    {
                        assert(!(items@[i as int] is arr));
                        let s = sql_value(&items[i]);
                        match s {
                            Some(s) => list.push(s),
                            None => {
                                assert(false);
                                list.push(String::new());
                            },
                        }
                        i = i + 1;
                    }
                    let joined = join_strings(&list, ",");
                    assert(list@.map_values(|p: String| p@) =~= items@.map_values(
                        |x: QueryValue| sql_value_spec(x)->Some_0,
                    ));
                    let mut r = String::from_str(key);
                    r.append(" in ( ");
                    r.append(joined.as_str());
                    r.append(" )");
                    r
                },
                _ => {
                    assert(false);
                    String::new()
                },
            }
        },
    }
}

/// A builder selecting all columns of `table`, with one WHERE condition for each entry
/// of `filter`, in order.
pub fn select_builder(table: &str, filter: Option<Vec<(String, QueryValue)>>) -> (b: SqlBuilder)
    requires
        filter matches Some(f) ==> filter_is_flat(f@),
    ensures
        builder_table(b) == table@,
        builder_wheres(b) == match filter {
            Some(f) => where_clauses_spec(f@),
            None => Seq::<Seq<char>>::empty(),
        },
        builder_limit(b) == None::<Seq<char>>,
        builder_is_plain_select(b),
{
    let mut b = builder_select_from(table);
    match filter {
        Some(f) => {
            let n = f.len();
            let mut i: usize = 0;
            while i < n
                invariant
                    n == f@.len(),
                    i <= n,
                    filter_is_flat(f@),
                    builder_table(b) == table@,
                    builder_wheres(b) == where_clauses_spec(f@.take(i as int)),
                    builder_limit(b) == None::<Seq<char>>,
                    builder_is_plain_select(b),
                decreases n - i,
            {
                let entry = &f[i];
                assert(value_is_flat(f@[i as int].1));
                match sql_value(&entry.1) {
                    Some(s) => {
                        builder_and_where_eq(&mut b, entry.0.as_str(), s.as_str());
                    },
                    None => {
                        let cond = where_clause(entry.0.as_str(), &entry.1);
                        builder_and_where(&mut b, cond.as_str());
                    },
                }
                assert(where_clauses_spec(f@.take(i + 1)) =~= where_clauses_spec(
                    f@.take(i as int),
                ).push(where_clause_spec(f@[i as int].0@, f@[i as int].1)));
                i = i + 1;
            }
            assert(f@.take(n as int) =~= f@);
        },
        None => {},
    }
    b
}

/// A model stored in a table of the database.
pub trait BaseModel {
    /// The name of the model's table.
    spec fn spec_table_name() -> Seq<char>;

    /// The name of the model's table.
    fn get_table_name() -> (t: &'static str)
        ensures
            t@ == Self::spec_table_name(),
            t@.len() > 0,
    ;

    /// The SQL text of a single value.
    fn get_sql_value(v: &QueryValue) -> (r: Option<String>)
        ensures
            r matches Some(s) ==> sql_value_spec(*v) == Some(s@),
            r is None ==> sql_value_spec(*v) is None,
    {
        sql_value(v)
    }

    /// A builder selecting all columns of the model's table, filtered by `filter`.
    fn get_sql_select_builder(filter: Option<Vec<(String, QueryValue)>>) -> (b: SqlBuilder)
        requires
            filter matches Some(f) ==> filter_is_flat(f@),
        ensures
            builder_table(b) == Self::spec_table_name(),
            builder_wheres(b) == match filter {
                Some(f) => where_clauses_spec(f@),
                None => Seq::<Seq<char>>::empty(),
            },
            builder_limit(b) == None::<Seq<char>>,
            builder_is_plain_select(b),
    {
        select_builder(Self::get_table_name(), filter)
    }

    /// The query that fetches every row matching `filter`.
    fn fetch_all_sql(filter: Vec<(String, QueryValue)>) -> (sql: String)
        requires
            filter_is_flat(filter@),
        ensures
            sql@ == select_text_spec(
                Self::spec_table_name(),
                where_clauses_spec(filter@),
                None,
            ),
    {
        let b = Self::get_sql_select_builder(Some(filter));
        let _table = Self::get_table_name();
        match builder_sql(&b) {
            Some(s) => s,
            None => {
                assert(false);
                String::new()
            },
        }
    }

    /// The query that fetches at most one row matching `filter`.
    fn fetch_one_sql(filter: Option<Vec<(String, QueryValue)>>) -> (sql: String)
        requires
            filter matches Some(f) ==> filter_is_flat(f@),
        ensures
            sql@ == select_text_spec(
                Self::spec_table_name(),
                match filter {
                    Some(f) => where_clauses_spec(f@),
                    None => Seq::<Seq<char>>::empty(),
                },
                Some("1"@),
            ),
    {
        let mut b = Self::get_sql_select_builder(filter);
        builder_set_limit(&mut b, "1");
        let _table = Self::get_table_name();
        match builder_sql(&b) {
            Some(s) => s,
            None => {
                assert(false);
                String::new()
            },
        }
    }

    /// The query that fetches the row whose `id` is `id`.
    fn fetch_by_id_sql(id: u64) -> (sql: String)
        ensures
            sql@ == select_text_spec(
                Self::spec_table_name(),
                seq!["id"@ + " = "@ + dec_spec(id as nat)],
                Some("1"@),
            ),
    {
        let mut filter: Vec<(String, QueryValue)> = Vec::new();
        filter.push((String::from_str("id"), QueryValue::u64(id)));
        let ghost f = filter@;
        assert(where_clauses_spec(f) =~= seq!["id"@ + " = "@ + dec_spec(id as nat)]);
        Self::fetch_one_sql(Some(filter))
    }
}

} // verus!
