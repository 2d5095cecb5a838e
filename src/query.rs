use vstd::prelude::*;

use crate::service::UserFilter;

verus! {

/// Removes the user whose id is the first parameter.
pub const DELETE_USER_SQL: &'static str = "DELETE FROM users WHERE id = $1";

/// Inserts a user from name, email, password, created_at and updated_at, in
/// that order, and returns the id that the store assigned.
pub const INSERT_USER_SQL: &'static str = "INSERT INTO users (name, email, password, created_at, updated_at) VALUES ($1, $2, $3, $4, $5) RETURNING id";

/// Writes name, email, password and updated_at of the user whose id is the
/// fifth parameter.
pub const UPDATE_USER_SQL: &'static str = "UPDATE users SET name = $1, email = $2, password = $3, updated_at = $4 WHERE id = $5";

/// The text of a user query before its conditions.
pub const SELECT_USERS_HEAD: &'static str = "SELECT id, name, email, password, created_at, updated_at, COUNT(*) OVER() AS count FROM users WHERE ";

/// The text between a user query's conditions and its page clause.
pub const SELECT_USERS_ORDER: &'static str = " ORDER BY id ASC ";

/// The condition that every row meets, so that the conditions are never empty.
pub const ALWAYS_TRUE: &'static str = "1 = 1";

/// What joins two conditions of a query.
pub const CONDITION_SEPARATOR: &'static str = " AND ";

/// A value bound to a positional parameter of a query.
#[derive(Clone, Debug, PartialEq)]
pub enum QueryParam {
    Int(i64),
    Text(String),
}

/// A statement and the values of its parameters, the first value bound to `$1`.
pub struct UserQuery {
    pub sql: String,
    pub params: Vec<QueryParam>,
}

pub open spec fn digit_char(d: int) -> char {
    if d == 0 {
        '0'
    } else if d == 1 {
        '1'
    } else if d == 2 {
        '2'
    } else if d == 3 {
        '3'
    } else if d == 4 {
        '4'
    } else if d == 5 {
        '5'
    } else if d == 6 {
        '6'
    } else if d == 7 {
        '7'
    } else if d == 8 {
        '8'
    } else {
        '9'
    }
}

/// The decimal digits of `n`, most significant first, without leading zeros.
pub open spec fn decimal_text(n: nat) -> Seq<char>
    decreases n,
{
    if n < 10 {
        seq![digit_char(n as int)]
    } else {
        decimal_text(n / 10).push(digit_char((n % 10) as int))
    }
}

/// The page clause of a query: a bound that is zero or negative is left out.
pub open spec fn limit_offset_text(limit: int, offset: int) -> Seq<char> {
    if limit > 0 && offset > 0 {
        "LIMIT "@ + decimal_text(limit as nat) + " OFFSET "@ + decimal_text(offset as nat)
    } else if limit > 0 {
        "LIMIT "@ + decimal_text(limit as nat)
    } else if offset > 0 {
        "OFFSET "@ + decimal_text(offset as nat)
    } else {
        Seq::empty()
    }
}

/// The condition that `field` equals the parameter numbered `param`.
pub open spec fn eq_condition_text(field: Seq<char>, param: nat) -> Seq<char> {
    field + " = $"@ + decimal_text(param)
}

/// The condition that `field` differs from the parameter numbered `param`.
pub open spec fn ne_condition_text(field: Seq<char>, param: nat) -> Seq<char> {
    field + " != $"@ + decimal_text(param)
}

/// The fields that a filter sets, in the fixed order id, name, email: each
/// with its column and the value it must equal.
pub open spec fn filter_terms(f: UserFilter) -> Seq<(Seq<char>, QueryParam)> {
    let by_id = if f.id.is_some() {
        seq![("id"@, QueryParam::Int(f.id->0))]
    } else {
        Seq::empty()
    };
    let by_name = if f.name.is_some() {
        seq![("name"@, QueryParam::Text(f.name->0))]
    } else {
        Seq::empty()
    };
    let by_email = if f.email.is_some() {
        seq![("email"@, QueryParam::Text(f.email->0))]
    } else {
        Seq::empty()
    };
    by_id + by_name + by_email
}

/// The parameter values of a filter's query, in the order of its terms.
pub open spec fn filter_params(f: UserFilter) -> Seq<QueryParam> {
    filter_terms(f).map_values(|t: (Seq<char>, QueryParam)| t.1)
}

/// The conditions of a filter's query: the always-true condition, then one
/// equality per term, the `i`-th term bound to parameter `i + 1`.
pub open spec fn filter_conditions(f: UserFilter) -> Seq<Seq<char>> {
    let terms = filter_terms(f);
    seq![ALWAYS_TRUE@] + Seq::new(
        terms.len(),
        |i: int| eq_condition_text(terms[i].0, (i + 1) as nat),
    )
}

/// `parts` with `sep` between each two neighbours.
pub open spec fn join_text(parts: Seq<Seq<char>>, sep: Seq<char>) -> Seq<char>
    decreases parts.len(),
{
    if parts.len() == 0 {
        Seq::empty()
    } else if parts.len() == 1 {
        parts[0]
    } else {
        join_text(parts.drop_last(), sep) + sep + parts.last()
    }
}

/// The statement that selects the users matching `conditions`, ordered by id,
/// with the page clause `page` and the count of all matching rows.
pub open spec fn select_users_text(conditions: Seq<Seq<char>>, page: Seq<char>) -> Seq<char> {
    SELECT_USERS_HEAD@ + join_text(conditions, CONDITION_SEPARATOR@) + SELECT_USERS_ORDER@ + page
}

/// The statement of a filter's query.
pub open spec fn filter_sql(f: UserFilter) -> Seq<char> {
    select_users_text(filter_conditions(f), limit_offset_text(f.limit as int, f.offset as int))
}

fn digit_str(d: u64) -> (r: &'static str)
    requires
        d < 10,
    ensures
        r@ == seq![digit_char(d as int)],
{
    if d == 0 {
        proof { reveal_strlit("0"); }
        assert("0"@ =~= seq!['0']);
        "0"
    } else if d == 1 {
        proof { reveal_strlit("1"); }
        assert("1"@ =~= seq!['1']);
        "1"
    } else if d == 2 {
        proof { reveal_strlit("2"); }
        assert("2"@ =~= seq!['2']);
        "2"
    } else if d == 3 {
        proof { reveal_strlit("3"); }
        assert("3"@ =~= seq!['3']);
        "3"
    } else if d == 4 {
        proof { reveal_strlit("4"); }
        assert("4"@ =~= seq!['4']);
        "4"
    } else if d == 5 {
        proof { reveal_strlit("5"); }
        assert("5"@ =~= seq!['5']);
        "5"
    } else if d == 6 {
        proof { reveal_strlit("6"); }
        assert("6"@ =~= seq!['6']);
        "6"
    } else if d == 7 {
        proof { reveal_strlit("7"); }
        assert("7"@ =~= seq!['7']);
        "7"
    } else if d == 8 {
        proof { reveal_strlit("8"); }
        assert("8"@ =~= seq!['8']);
        "8"
    } else {
        proof { reveal_strlit("9"); }
        assert("9"@ =~= seq!['9']);
        "9"
    }
}

/// The decimal text of `n`.
pub fn decimal(n: u64) -> (r: String)
    ensures
        r@ == decimal_text(n as nat),
    decreases n,
{
    if n < 10 {
        String::from_str(digit_str(n))
    } else {
        let mut s = decimal(n / 10);
        s.append(digit_str(n % 10));
        assert(s@ =~= decimal_text(n as nat));
        s
    }
}

/// Returns the page clause for `limit` and `offset`: `LIMIT x OFFSET y`,
/// `LIMIT x`, `OFFSET y` or nothing, leaving out a bound that is not positive.
pub fn format_limit_offset(limit: i64, offset: i64) -> (r: String)
    ensures
        r@ == limit_offset_text(limit as int, offset as int),
{
    if limit > 0 && offset > 0 {
        let mut s = String::from_str("LIMIT ");
        s.append(decimal(limit as u64).as_str());
        s.append(" OFFSET ");
        s.append(decimal(offset as u64).as_str());
        s
    } else if limit > 0 {
        let mut s = String::from_str("LIMIT ");
        s.append(decimal(limit as u64).as_str());
        s
    } else if offset > 0 {
        let mut s = String::from_str("OFFSET ");
        s.append(decimal(offset as u64).as_str());
        s
    } else {
        String::new()
    }
}

/// Returns the condition `<field> = $<param>`.
pub fn where_condition_eq(field: &str, param: u64) -> (r: String)
    ensures
        r@ == eq_condition_text(field@, param as nat),
{
    let mut s = String::from_str(field);
    s.append(" = $");
    s.append(decimal(param).as_str());
    s
}

/// Returns the condition `<field> != $<param>`.
pub fn where_condition_ne(field: &str, param: u64) -> (r: String)
    ensures
        r@ == ne_condition_text(field@, param as nat),
{
    let mut s = String::from_str(field);
    s.append(" != $");
    s.append(decimal(param).as_str());
    s
}

/// The text of each string of `v`.
pub open spec fn texts(v: Seq<String>) -> Seq<Seq<char>> {
    v.map_values(|s: String| s@)
}

/// Returns the conditions and the parameter values of a filter's query: the
/// always-true condition first, then for each field that the filter sets, in
/// the order id, name, email, an equality bound to the next parameter.
pub fn build_where_conditions(filter: &UserFilter) -> (r: (Vec<String>, Vec<QueryParam>))
    ensures
        texts(r.0@) == filter_conditions(*filter),
        r.1@ == filter_params(*filter),
{
    let ghost terms = filter_terms(*filter);
    let mut conditions: Vec<String> = Vec::new();
    conditions.push(String::from_str(ALWAYS_TRUE));
    let mut params: Vec<QueryParam> = Vec::new();
    let mut counter: u64 = 1;
    let ghost mut k: int = 0;
    if let Some(id) = &filter.id {
        conditions.push(where_condition_eq("id", counter));
        params.push(QueryParam::Int(*id));
        counter = counter + 1;
        proof { k = k + 1; }
    }
    assert(params@ =~= terms.take(k).map_values(|t: (Seq<char>, QueryParam)| t.1));
    if let Some(name) = &filter.name {
        conditions.push(where_condition_eq("name", counter));
        params.push(QueryParam::Text(name.clone()));
        counter = counter + 1;
        proof { k = k + 1; }
    }
    assert(params@ =~= terms.take(k).map_values(|t: (Seq<char>, QueryParam)| t.1));
    if let Some(email) = &filter.email {
        conditions.push(where_condition_eq("email", counter));
        params.push(QueryParam::Text(email.clone()));
        proof { k = k + 1; }
    }
    assert(k == terms.len());
    assert(params@ =~= filter_params(*filter));
    assert(texts(conditions@) =~= filter_conditions(*filter));
    (conditions, params)
}

/// Returns `parts` joined with `sep` between each two neighbours.
pub fn join_conditions(parts: &Vec<String>, sep: &str) -> (r: String)
    ensures
        r@ == join_text(texts(parts@), sep@),
{
    let ghost all = texts(parts@);
    let mut s = String::new();
    let mut i: usize = 0;
    while i < parts.len()
        invariant
            0 <= i <= parts.len(),
            all == texts(parts@),
            s@ == join_text(all.take(i as int), sep@),
        decreases parts.len() - i,
    {
        if i > 0 {
            s.append(sep);
        }
        s.append(parts[i].as_str());
        proof {
            assert(all.take(i + 1).drop_last() =~= all.take(i as int));
            if i == 0 {
                assert(s@ =~= all[0]);
            }
        }
        i = i + 1;
    }
    assert(all.take(parts.len() as int) =~= all);
    s
}

/// Returns the statement that selects the users matching `conditions`,
/// ordered by id, with the page clause `page`.
pub fn select_users_sql(conditions: &Vec<String>, page: &str) -> (r: String)
    ensures
        r@ == select_users_text(texts(conditions@), page@),
{
    let mut s = String::from_str(SELECT_USERS_HEAD);
    s.append(join_conditions(conditions, CONDITION_SEPARATOR).as_str());
    s.append(SELECT_USERS_ORDER);
    s.append(page);
    s
}

/// Returns the statement and parameter values that select the users that
/// `filter` matches, a page of them, and the count of all that match. Values
/// of the filter travel only as parameters, never in the statement's text.
pub fn build_user_query(filter: &UserFilter) -> (r: UserQuery)
    ensures
        r.sql@ == filter_sql(*filter),
        r.params@ == filter_params(*filter),
{
    let (conditions, params) = build_where_conditions(filter);
    let page = format_limit_offset(filter.limit, filter.offset);
    let sql = select_users_sql(&conditions, page.as_str());
    UserQuery { sql, params }
}

/// The text of a filter's query depends only on which fields the filter sets
/// and on its page bounds, never on the values it compares with: those travel
/// as parameters alone.
pub proof fn lemma_query_text_free_of_values(f: UserFilter, g: UserFilter)
    requires
        f.id.is_some() == g.id.is_some(),
        f.name.is_some() == g.name.is_some(),
        f.email.is_some() == g.email.is_some(),
        f.limit == g.limit,
        f.offset == g.offset,
    ensures
        filter_sql(f) == filter_sql(g),
        filter_params(f).len() == filter_params(g).len(),
{
    let tf = filter_terms(f);
    let tg = filter_terms(g);
    assert(tf.len() == tg.len());
    assert forall|i: int| 0 <= i < tf.len() implies #[trigger] tf[i].0 == tg[i].0 by {}
    assert(filter_conditions(f) =~= filter_conditions(g));
}

/// Each field that a filter sets is bound to the parameter numbered one more
/// than the count of fields set before it, in the order id, name, email: its
/// value is that parameter's and its condition names that parameter. There
/// is one condition more than there are parameters.
pub proof fn lemma_field_positions(f: UserFilter)
    ensures
        filter_conditions(f).len() == filter_params(f).len() + 1,
        filter_conditions(f)[0] == ALWAYS_TRUE@,
        ({
            let k: int = if f.id.is_some() { 1 } else { 0 };
            let m: int = k + if f.name.is_some() { 1int } else { 0int };
            &&& f.id.is_some() ==> filter_params(f)[0] == QueryParam::Int(f.id->0)
                && filter_conditions(f)[1] == eq_condition_text("id"@, 1)
            &&& f.name.is_some() ==> filter_params(f)[k] == QueryParam::Text(f.name->0)
                && filter_conditions(f)[k + 1] == eq_condition_text("name"@, (k + 1) as nat)
            &&& f.email.is_some() ==> filter_params(f)[m] == QueryParam::Text(f.email->0)
                && filter_conditions(f)[m + 1] == eq_condition_text("email"@, (m + 1) as nat)
            &&& filter_params(f).len() == m + if f.email.is_some() { 1int } else { 0int }
        }),
{
}

} // verus!
