//! The user directory: the entity model, the row mapping, and the service.
//!
//! The service translates typed requests into reads against its bound pool
//! and maps result rows back into [`User`] records field for field, the
//! struct's own field order being the canonical column order.  Nullable
//! columns map to `None`, never to an empty string.

use vstd::prelude::*;

use crate::engine;
use crate::engine::{as_int, as_nullable_int, as_nullable_text, as_text, Row, Value, ValueV};
use crate::errors::QueryError;
use crate::pool::Pool;

verus! {

/// A user record, one per directory user.  `id` is assigned by the backend
/// on insert; `username` is unique across all users (a schema constraint);
/// the nullable fields are absent or present, absence being distinct from
/// an empty string.  The join date is carried as seconds since the epoch.
#[derive(Clone, Debug)]
pub struct User {
    pub id: i64,
    pub username: String,
    pub name: String,
    pub email: Option<String>,
    pub password_hash: Option<String>,
    pub password_salt: Option<String>,
    pub join_date: Option<i64>,
    pub problems: i64,
}

/// The mathematical user record.
#[verifier::ext_equal]
pub struct UserV {
    pub id: i64,
    pub username: Seq<char>,
    pub name: Seq<char>,
    pub email: Option<Seq<char>>,
    pub password_hash: Option<Seq<char>>,
    pub password_salt: Option<Seq<char>>,
    pub join_date: Option<i64>,
    pub problems: i64,
}

impl DeepView for User {
    type V = UserV;

    open spec fn deep_view(&self) -> UserV {
        UserV {
            id: self.id,
            username: self.username@,
            name: self.name@,
            email: self.email.deep_view(),
            password_hash: self.password_hash.deep_view(),
            password_salt: self.password_salt.deep_view(),
            join_date: self.join_date,
            problems: self.problems,
        }
    }
}

/// The bootstrap administrator the schema migration seeds.
pub open spec fn root_user_v() -> UserV {
    UserV {
        id: 1,
        username: "root"@,
        name: "root"@,
        email: None,
        password_hash: None,
        password_salt: None,
        join_date: None,
        problems: 0,
    }
}

/// A nullable text column value.
pub open spec fn opt_text(o: Option<Seq<char>>) -> ValueV {
    match o {
        None => ValueV::Null,
        Some(s) => ValueV::Text(s),
    }
}

/// A nullable integer column value.
pub open spec fn opt_int(o: Option<i64>) -> ValueV {
    match o {
        None => ValueV::Null,
        Some(i) => ValueV::Int(i),
    }
}

/// The row that stores a user: the struct's fields in order.
pub open spec fn user_to_row(u: UserV) -> Seq<ValueV> {
    seq![
        ValueV::Int(u.id),
        ValueV::Text(u.username),
        ValueV::Text(u.name),
        opt_text(u.email),
        opt_text(u.password_hash),
        opt_text(u.password_salt),
        opt_int(u.join_date),
        ValueV::Int(u.problems),
    ]
}

/// The user a row maps onto, or `None` when the row does not have the
/// user table's shape.
pub open spec fn row_to_user(r: Seq<ValueV>) -> Option<UserV> {
    if r.len() == 8 && as_int(r[0]) is Some && as_text(r[1]) is Some && as_text(r[2]) is Some
        && as_nullable_text(r[3]) is Some && as_nullable_text(r[4]) is Some && as_nullable_text(
        r[5],
    ) is Some && as_nullable_int(r[6]) is Some && as_int(r[7]) is Some {
        Some(
            UserV {
                id: as_int(r[0])->Some_0,
                username: as_text(r[1])->Some_0,
                name: as_text(r[2])->Some_0,
                email: as_nullable_text(r[3])->Some_0,
                password_hash: as_nullable_text(r[4])->Some_0,
                password_salt: as_nullable_text(r[5])->Some_0,
                join_date: as_nullable_int(r[6])->Some_0,
                problems: as_int(r[7])->Some_0,
            },
        )
    } else {
        None
    }
}

/// Rows round-trip: the row that stores a user maps back onto exactly that
/// user; in particular a nullable field is stored as an absent column
/// value exactly when it is absent, with no coercion to an empty string.
pub proof fn lemma_row_round_trip(u: UserV)
    ensures
        row_to_user(user_to_row(u)) == Some(u),
        user_to_row(u)[3] is Null <==> u.email is None,
        user_to_row(u)[4] is Null <==> u.password_hash is None,
        user_to_row(u)[5] is Null <==> u.password_salt is None,
        user_to_row(u)[6] is Null <==> u.join_date is None,
{
    assert(row_to_user(user_to_row(u))->Some_0 =~= u);
}

/// Maps a result row into a user record, field for field.
pub fn user_from_row(row: &Row) -> (r: Result<User, QueryError>)
    ensures
        match r {
            Ok(u) => row_to_user(row.deep_view()) == Some(u.deep_view()),
            Err(e) => row_to_user(row.deep_view()) is None && e == QueryError::Decode,
        },
{
    if row.len() != 8 {
        return Err(QueryError::Decode);
    }
    let id = match &row[0] {
        Value::Int(i) => *i,
        _ => {
            return Err(QueryError::Decode);
        },
    };
    let username = match &row[1] {
        Value::Text(s) => s.clone(),
        _ => {
            return Err(QueryError::Decode);
        },
    };
    let name = match &row[2] {
        Value::Text(s) => s.clone(),
        _ => {
            return Err(QueryError::Decode);
        },
    };
    let email = match &row[3] {
        Value::Null => None,
        Value::Text(s) => Some(s.clone()),
        Value::Int(_) => {
            return Err(QueryError::Decode);
        },
    };
    let password_hash = match &row[4] {
        Value::Null => None,
        Value::Text(s) => Some(s.clone()),
        Value::Int(_) => {
            return Err(QueryError::Decode);
        },
    };
    let password_salt = match &row[5] {
        Value::Null => None,
        Value::Text(s) => Some(s.clone()),
        Value::Int(_) => {
            return Err(QueryError::Decode);
        },
    };
    let join_date = match &row[6] {
        Value::Null => None,
        Value::Int(i) => Some(*i),
        Value::Text(_) => {
            return Err(QueryError::Decode);
        },
    };
    let problems = match &row[7] {
        Value::Int(i) => *i,
        _ => {
            return Err(QueryError::Decode);
        },
    };
    let u = User { id, username, name, email, password_hash, password_salt, join_date, problems };
    proof {
        assert(row_to_user(row.deep_view())->Some_0 =~= u.deep_view());
    }
    Ok(u)
}

/// Encodes a user record as the row that stores it.
pub fn row_of_user(user: &User) -> (r: Row)
    ensures
        r.deep_view() == user_to_row(user.deep_view()),
{
    let mut row: Row = Vec::new();
    row.push(Value::Int(user.id));
    row.push(Value::Text(user.username.clone()));
    row.push(Value::Text(user.name.clone()));
    row.push(match &user.email {
        None => Value::Null,
        Some(s) => Value::Text(s.clone()),
    });
    row.push(match &user.password_hash {
        None => Value::Null,
        Some(s) => Value::Text(s.clone()),
    });
    row.push(match &user.password_salt {
        None => Value::Null,
        Some(s) => Value::Text(s.clone()),
    });
    row.push(match &user.join_date {
        None => Value::Null,
        Some(i) => Value::Int(*i),
    });
    row.push(Value::Int(user.problems));
    proof {
        assert(row.deep_view() =~= user_to_row(user.deep_view()));
    }
    row
}

/// The users service: bound to the pool, it turns typed requests into
/// reads of the user table and hands back materialized [`User`] records.
pub struct UsersService<'a> {
    pub conn: &'a Pool,
}

impl<'a> UsersService<'a> {
    /// Binds a service to a pool.
    pub fn new(conn: &'a Pool) -> (r: Self)
        ensures
            r.conn == conn,
    {
        UsersService { conn }
    }

    /// Queries all users: an unfiltered select over the user table, every
    /// row mapped to a record, in the backend's row order.  Fails exactly
    /// when the table does not exist (the one execution error the
    /// in-memory backend knows for a read).
    pub fn query_all_users(&self) -> (r: Result<Vec<User>, QueryError>)
        requires
            engine::db_wf(self.conn.db.dv()),
        ensures
            match r {
                Ok(us) => self.conn.db.dv().users is Some && {
                    let rows = self.conn.db.dv().users->Some_0;
                    us.deep_view().len() == rows.len() && forall|i: int|
                        0 <= i < rows.len() ==> row_to_user(#[trigger] rows[i]) == Some(
                            us.deep_view()[i],
                        )
                },
                Err(e) => self.conn.db.dv().users is None && e == QueryError::Execute,
            },
    {
        match &self.conn.db.users {
            None => Err(QueryError::Execute),
            Some(rows) => {
                let n = rows.len();
                let mut out: Vec<User> = Vec::new();
                let mut i: usize = 0;
                while i < n
                    invariant
                        n == rows.len(),
                        i <= n,
                        engine::rows_wf(rows.deep_view()),
                        out.deep_view().len() == i,
                        forall|k: int|
                            0 <= k < i ==> row_to_user(#[trigger] rows.deep_view()[k]) == Some(
                                out.deep_view()[k],
                            ),
                    decreases n - i,
                {
                    proof {
                        assert(row_to_user(rows.deep_view()[i as int]) is Some);
                    }
                    match user_from_row(&rows[i]) {
                        Ok(u) => {
                            let ghost prev = out.deep_view();
                            out.push(u);
                            proof {
                                assert(out.deep_view() =~= prev.push(u.deep_view()));
                            }
                        },
                        Err(e) => {
                            return Err(e);
                        },
                    }
                    i += 1;
                }
                Ok(out)
            },
        }
    }
}

} // verus!
