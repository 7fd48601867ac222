//! The in-memory relational engine.
//!
//! The backend state is modelled as typed column values in rows: the user
//! table (absent until the schema migration creates it) and the reserved
//! bookkeeping table of applied migration versions.  The engine enforces the
//! schema constraints itself — a unique username per row, a row identifier
//! assigned on insert — exactly as the migrated schema declares them.

use vstd::prelude::*;
use vstd::string::*;

use crate::errors::{MigrateError, QueryError};
use crate::users::{root_user_v, row_to_user, user_to_row, User, UserV};
use crate::users;

verus! {

/// One column value of a row.
#[derive(Clone, Debug)]
pub enum Value {
    /// An absent value of a nullable column.
    Null,
    /// An integer column value.
    Int(i64),
    /// A text column value.
    Text(String),
}

/// The mathematical column value.
pub enum ValueV {
    Null,
    Int(i64),
    Text(Seq<char>),
}

impl View for Value {
    type V = ValueV;

    open spec fn view(&self) -> ValueV {
        match self {
            Value::Null => ValueV::Null,
            Value::Int(i) => ValueV::Int(*i),
            Value::Text(s) => ValueV::Text(s@),
        }
    }
}

impl DeepView for Value {
    type V = ValueV;

    open spec fn deep_view(&self) -> ValueV {
        self.view()
    }
}

/// One table row: a vector of column values.
pub type Row = Vec<Value>;

/// The integer held by a column value, if it holds one.
pub open spec fn as_int(v: ValueV) -> Option<i64> {
    match v {
        ValueV::Int(i) => Some(i),
        _ => None,
    }
}

/// The text held by a column value, if it holds text.
pub open spec fn as_text(v: ValueV) -> Option<Seq<char>> {
    match v {
        ValueV::Text(s) => Some(s),
        _ => None,
    }
}

/// A nullable text column: `Some(None)` for an absent value, never an
/// empty-string coercion.
pub open spec fn as_nullable_text(v: ValueV) -> Option<Option<Seq<char>>> {
    match v {
        ValueV::Null => Some(None),
        ValueV::Text(s) => Some(Some(s)),
        ValueV::Int(_) => None,
    }
}

/// A nullable integer column: `Some(None)` for an absent value.
pub open spec fn as_nullable_int(v: ValueV) -> Option<Option<i64>> {
    match v {
        ValueV::Null => Some(None),
        ValueV::Int(i) => Some(Some(i)),
        ValueV::Text(_) => None,
    }
}

/// The database: the user table (absent before the schema migration ran)
/// and the applied-version ledger of the migration runner.
pub struct Database {
    /// The rows of the user table; `None` while the table does not exist.
    pub users: Option<Vec<Row>>,
    /// The bookkeeping table: applied migration versions, oldest first.
    pub applied: Vec<u64>,
}

/// The mathematical database state.
#[verifier::ext_equal]
pub struct DbV {
    pub users: Option<Seq<Seq<ValueV>>>,
    pub applied: Seq<u64>,
}

/// A database with no tables: what a fresh connection reaches.
pub open spec fn empty_db() -> DbV {
    DbV { users: None, applied: Seq::empty() }
}

/// Strictly ascending versions: the ledger is an append-only ordered log.
pub open spec fn sorted_strict(s: Seq<u64>) -> bool {
    forall|i: int, j: int| 0 <= i < j < s.len() ==> s[i] < s[j]
}

/// The decoded user of a well-formed row.
pub open spec fn row_user(r: Seq<ValueV>) -> UserV {
    row_to_user(r)->Some_0
}

/// The engine refuses to assign a row identifier beyond this bound, as a
/// backend reports its identifier space exhausted.
pub const MAX_ROWS: usize = 0x7fff_ffff;

/// Well-formedness of the user table: every row maps onto a [`User`]
/// field for field, row identifiers are the backend-assigned sequence
/// `1, 2, ...`, and usernames are unique across all rows (the schema
/// constraint the migration declares).
pub open spec fn rows_wf(rows: Seq<Seq<ValueV>>) -> bool {
    &&& forall|i: int|
        0 <= i < rows.len() ==> row_to_user(#[trigger] rows[i]) is Some && row_user(rows[i]).id
            == i + 1
    &&& forall|i: int, j: int|
        0 <= i < j < rows.len() ==> row_user(#[trigger] rows[i]).username != row_user(
            #[trigger] rows[j],
        ).username
    &&& rows.len() <= MAX_ROWS
}

/// Well-formedness of the whole database state.
pub open spec fn db_wf(d: DbV) -> bool {
    &&& sorted_strict(d.applied)
    &&& match d.users {
        None => true,
        Some(rows) => rows_wf(rows),
    }
}

/// Whether the user table holds a row with this username already.
pub open spec fn username_taken(rows: Seq<Seq<ValueV>>, name: Seq<char>) -> bool {
    exists|i: int| 0 <= i < rows.len() && as_text(#[trigger] rows[i][1]) == Some(name)
}

/// Whether an insert of `u` is accepted: the table exists, the username is
/// free, and the identifier space is not exhausted.
pub open spec fn can_insert(d: DbV, u: UserV) -> bool {
    match d.users {
        None => false,
        Some(rows) => !username_taken(rows, u.username) && rows.len() < MAX_ROWS,
    }
}

/// The user as stored: the backend assigns the row identifier itself.
pub open spec fn stored_user(u: UserV, len: int) -> UserV {
    UserV { id: (len + 1) as i64, ..u }
}

/// The database after an accepted insert of `u`.
pub open spec fn spec_insert(d: DbV, u: UserV) -> DbV {
    let rows = d.users->Some_0;
    DbV { users: Some(rows.push(user_to_row(stored_user(u, rows.len() as int)))), ..d }
}

/// The error a refused insert reports.
pub open spec fn insert_error(d: DbV, u: UserV) -> QueryError {
    match d.users {
        None => QueryError::Execute,
        Some(rows) => if username_taken(rows, u.username) {
            QueryError::Constraint
        } else {
            QueryError::Execute
        },
    }
}

/// The effect of executing the script of `version` on the database, or
/// `None` when the script fails.  The schema script creates the user table
/// and seeds the bootstrap administrator; it fails when the table exists
/// already, and an unknown version has no script to run.
pub open spec fn apply_script(d: DbV, version: u64) -> Option<DbV> {
    if version == 1 && d.users is None {
        Some(DbV { users: Some(seq![user_to_row(root_user_v())]), ..d })
    } else {
        None
    }
}

/// Recording `version` in the applied-version ledger.
pub open spec fn record_version(d: DbV, version: u64) -> DbV {
    DbV { applied: d.applied.push(version), ..d }
}

/// The table created by the schema script is well formed and holds exactly
/// the bootstrap administrator.
pub proof fn lemma_root_table_wf()
    ensures
        rows_wf(seq![user_to_row(root_user_v())]),
        row_to_user(user_to_row(root_user_v())) == Some(root_user_v()),
{
    users::lemma_row_round_trip(root_user_v());
}

/// In a well-formed table, a username is taken exactly when one of the
/// decoded users carries it.
pub proof fn lemma_username_taken_decoded(rows: Seq<Seq<ValueV>>, name: Seq<char>)
    requires
        rows_wf(rows),
    ensures
        username_taken(rows, name) <==> exists|i: int|
            0 <= i < rows.len() && row_user(#[trigger] rows[i]).username == name,
{
    assert forall|i: int| 0 <= i < rows.len() implies as_text(
        #[trigger] rows[i][1],
    ) == Some(row_user(rows[i]).username) by {
        assert(row_to_user(rows[i]) is Some);
    }
}

/// Uniqueness of usernames: once a user with a given username is inserted,
/// a second insert with the same username is refused, whatever the rest of
/// the second record holds.
pub proof fn lemma_username_unique(d: DbV, u1: UserV, u2: UserV)
    requires
        db_wf(d),
        can_insert(d, u1),
        u1.username == u2.username,
    ensures
        !can_insert(spec_insert(d, u1), u2),
        insert_error(spec_insert(d, u1), u2) == QueryError::Constraint,
{
    let rows = d.users->Some_0;
    let stored = stored_user(u1, rows.len() as int);
    users::lemma_row_round_trip(stored);
    let rows2 = spec_insert(d, u1).users->Some_0;
    assert(as_text(rows2[rows.len() as int][1]) == Some(u2.username));
    assert(username_taken(rows2, u2.username));
}

impl Database {
    /// The mathematical state of this database.
    pub open spec fn dv(&self) -> DbV {
        DbV { users: self.users.deep_view(), applied: self.applied@ }
    }

    /// A database with no tables.
    pub fn empty() -> (r: Self)
        ensures
            r.dv() == empty_db(),
            db_wf(r.dv()),
    {
        let r = Database { users: None, applied: Vec::new() };
        proof {
            assert(r.dv() =~= empty_db());
        }
        r
    }

    /// Executes the migration script of `version` and records the version
    /// in the ledger, as one unit of work: on failure neither the script's
    /// effects nor the ledger record are kept.
    pub fn execute_migration(&mut self, version: u64) -> (r: Result<(), MigrateError>)
        ensures
            match r {
                Ok(()) => apply_script(old(self).dv(), version) is Some && final(self).dv()
                    == record_version(apply_script(old(self).dv(), version)->Some_0, version),
                Err(e) => apply_script(old(self).dv(), version) is None && *final(self) == *old(self)
                    && e == MigrateError::ScriptFailed,
            },
    {
        if version == 1 && self.users.is_none() {
            let mut row: Row = Vec::new();
            row.push(Value::Int(1));
            row.push(Value::Text(String::from_str("root")));
            row.push(Value::Text(String::from_str("root")));
            row.push(Value::Null);
            row.push(Value::Null);
            row.push(Value::Null);
            row.push(Value::Null);
            row.push(Value::Int(0));
            proof {
                assert(row.deep_view() =~= user_to_row(root_user_v()));
            }
            let mut table: Vec<Row> = Vec::new();
            table.push(row);
            self.users = Some(table);
            self.applied.push(version);
            proof {
                assert(self.dv() =~~= record_version(
                    apply_script(old(self).dv(), version)->Some_0,
                    version,
                ));
            }
            Ok(())
        } else {
            Err(MigrateError::ScriptFailed)
        }
    }

    /// Inserts a user row.  The backend assigns the row identifier; the
    /// caller's `id` field is ignored.  The insert is refused when the
    /// table does not exist, when the username is taken (the schema's
    /// uniqueness constraint), or when the identifier space is exhausted.
    pub fn insert_user(&mut self, user: &User) -> (r: Result<i64, QueryError>)
        requires
            db_wf(old(self).dv()),
        ensures
            db_wf(final(self).dv()),
            match r {
                Ok(id) => can_insert(old(self).dv(), user.deep_view()) && final(self).dv()
                    == spec_insert(old(self).dv(), user.deep_view()) && id == old(
                    self,
                ).dv().users->Some_0.len() + 1,
                Err(e) => !can_insert(old(self).dv(), user.deep_view()) && *final(self) == *old(self)
                    && e == insert_error(old(self).dv(), user.deep_view()),
            },
    {
        let taken: bool;
        let len: usize;
        match &self.users {
            None => {
                return Err(QueryError::Execute);
            },
            Some(rows) => {
                len = rows.len();
                let mut found = false;
                let mut i: usize = 0;
                while i < len
                    invariant
                        len == rows.len(),
                        i <= len,
                        rows_wf(rows.deep_view()),
                        found == username_taken(
                            rows.deep_view().take(i as int),
                            user.deep_view().username,
                        ),
                    decreases len - i,
                {
                    proof {
                        assert(row_to_user(rows.deep_view()[i as int]) is Some);
                    }
                    match &rows[i][1] {
                        Value::Text(s) => {
                            if s.eq(&user.username) {
                                found = true;
                            }
                        },
                        _ => {},
                    }
                    proof {
                        let rv = rows.deep_view();
                        let nm = user.deep_view().username;
                        assert(rv.take(i + 1).drop_last() =~= rv.take(i as int));
                        assert(rv.take(i + 1).last() == rv[i as int]);
                        if username_taken(rv.take(i + 1), nm) && !username_taken(
                            rv.take(i as int),
                            nm,
                        ) {
                            let k = choose|k: int|
                                0 <= k < i + 1 && as_text(#[trigger] rv.take(i + 1)[k][1]) == Some(
                                    nm,
                                );
                            assert(k == i);
                        }
                        if as_text(rv[i as int][1]) == Some(nm) {
                            assert(rv.take(i + 1)[i as int] == rv[i as int]);
                            assert(username_taken(rv.take(i + 1), nm));
                        }
                    }
                    i += 1;
                }
                proof {
                    assert(rows.deep_view().take(len as int) =~= rows.deep_view());
                }
                taken = found;
            },
        }
        if taken {
            return Err(QueryError::Constraint);
        }
        if len >= MAX_ROWS {
            return Err(QueryError::Execute);
        }
        let mut row = users::row_of_user(user);
        proof {
            assert(row.deep_view().len() == 8);
            assert(row@.len() == 8);
        }
        row.set(0, Value::Int((len as i64) + 1));
        let ghost rowv = row.deep_view();
        let id: i64 = (len as i64) + 1;
        match &mut self.users {
            Some(rows) => {
                let ghost old_rows = rows.deep_view();
                rows.push(row);
                proof {
                    let u = user.deep_view();
                    let stored = stored_user(u, old_rows.len() as int);
                    assert(rowv =~= user_to_row(stored));
                    assert(rows.deep_view() =~= old_rows.push(user_to_row(stored)));
                    assert(self.dv() =~~= spec_insert(old(self).dv(), u));
                    users::lemma_row_round_trip(stored);
                    let new_rows = self.dv().users->Some_0;
                    lemma_username_taken_decoded(old_rows, u.username);
                    assert forall|a: int, b: int| 0 <= a < b < new_rows.len() implies row_user(
                        #[trigger] new_rows[a],
                    ).username != row_user(#[trigger] new_rows[b]).username by {
                        if b == old_rows.len() as int {
                            assert(new_rows[a] == old_rows[a]);
                        }
                    }
                    assert(rows_wf(new_rows));
                }
                Ok(id)
            },
            None => {
                // The early return above covered the missing table.
                proof {
                    assert(false);
                }
                Err(QueryError::Execute)
            },
        }
    }
}

} // verus!
