//! A verified data-access layer for a server application.
//!
//! The layer manages a handle to a relational database, applies versioned
//! schema migrations exactly once each, and exposes narrow service objects
//! that map rows into domain entities — deliberately avoiding a full
//! object-relational mapper so that the shape of every query stays explicit.
//!
//! The database itself is the in-memory engine of [`engine`]; the same
//! service and migration logic runs against any backend whose adapter keeps
//! to the contracts stated here.

pub mod cli;
pub mod drivers;
pub mod engine;
pub mod errors;
pub mod migrations;
pub mod pool;
pub mod url;
pub mod users;

use vstd::prelude::*;

use crate::drivers::DriverRegistry;
use crate::engine::Database;
use crate::errors::{ConnectError, MigrateError, NewServiceError};
use crate::pool::Pool;
use crate::users::UsersService;

verus! {

/// The database service: the single entry point for obtaining database
/// access and for schema lifecycle management.  It owns the pool; entity
/// services borrow it.
pub struct DatabaseService {
    pub conn: Pool,
}

impl DatabaseService {
    /// The state of the owned database.
    pub open spec fn db(&self) -> engine::DbV {
        self.conn.db.dv()
    }

    /// Registers the available backend drivers and hands back the registry.
    /// Registration is idempotent: installing the defaults into the result
    /// again changes nothing (see [`drivers::lemma_install_idempotent`]).
    pub fn setup_drivers() -> (r: DriverRegistry)
        ensures
            r.schemes_v() == drivers::spec_install(Seq::<Seq<char>>::empty()),
            r.registered("sqlite"@),
            r.registered("postgres"@),
    {
        let mut r = DriverRegistry::new();
        r.install_default_drivers();
        proof {
            drivers::lemma_add_scheme(Seq::empty(), "sqlite"@, "postgres"@);
            drivers::lemma_add_scheme(
                drivers::add_scheme(Seq::empty(), "sqlite"@),
                "postgres"@,
                "sqlite"@,
            );
        }
        r
    }

    /// Connects to the given database.  Every call makes an independent
    /// pool.  Fails when the connection string is malformed or when no
    /// driver is registered for its scheme; a registered scheme always
    /// reaches the (fresh, empty) in-memory backend.
    pub fn new(db_url: &str, registry: &DriverRegistry) -> (r: Result<Self, ConnectError>)
        ensures
            match r {
                Ok(s) => url::valid_url(db_url@) && registry.registered(url::url_scheme(db_url@))
                    && s.db() == engine::empty_db() && engine::db_wf(s.db()),
                Err(ConnectError::MalformedUrl) => !url::valid_url(db_url@),
                Err(ConnectError::UnsupportedScheme) => url::valid_url(db_url@)
                    && !registry.registered(url::url_scheme(db_url@)),
            },
    {
        match url::split_scheme(db_url) {
            None => Err(ConnectError::MalformedUrl),
            Some(scheme) => {
                if registry.supports(scheme) {
                    Ok(DatabaseService { conn: Pool { db: Database::empty() } })
                } else {
                    Err(ConnectError::UnsupportedScheme)
                }
            },
        }
    }

    /// Gets a new user service, bound to the owned pool.  The in-memory
    /// pool queues callers instead of refusing them (see [`pool`]), so the
    /// factory always succeeds here.
    pub fn users<'a>(&'a self) -> (r: Result<UsersService<'a>, NewServiceError>)
        ensures
            r matches Ok(s) && s.conn.db.dv() == self.db(),
    {
        Ok(UsersService::new(&self.conn))
    }

    /// Applies all not-yet-applied migrations in ascending version order,
    /// recording each applied version in the ledger together with the
    /// script's effects.  Safe to call on every process start: applied
    /// migrations are skipped, and a run that failed earlier resumes from
    /// the first unapplied version.
    pub fn run_migrations(&mut self) -> (r: Result<(), MigrateError>)
        requires
            engine::db_wf(old(self).db()),
        ensures
            final(self).db() == migrations::spec_run(old(self).db()).0,
            r == migrations::spec_run(old(self).db()).1,
            engine::db_wf(final(self).db()),
    {
        migrations::run_all(&mut self.conn.db)
    }
}

/// Bootstrap: on a fresh database the migration run succeeds and leaves
/// the user table holding exactly one row, which maps onto the bootstrap
/// administrator, whose username is `root`.
pub proof fn lemma_fresh_database_bootstraps_root()
    ensures
        migrations::spec_run(engine::empty_db()).1 == Ok::<(), MigrateError>(()),
        migrations::spec_run(engine::empty_db()).0.users == Some(
            seq![users::user_to_row(users::root_user_v())],
        ),
        users::row_to_user(users::user_to_row(users::root_user_v())) == Some(users::root_user_v()),
        users::root_user_v().username == "root"@,
{
    let d = engine::empty_db();
    let kv = migrations::known_versions();
    assert(d.applied =~= kv.take(0));
    assert(migrations::spec_pending(kv, d.applied) == Some(kv.skip(0)));
    let p = kv.skip(0);
    assert(p =~= seq![1u64]);
    let d2 = engine::apply_script(d, 1)->Some_0;
    let d3 = engine::record_version(d2, 1);
    assert(p.drop_first() =~= Seq::<u64>::empty());
    assert(migrations::run_pending(d3, p.drop_first()) == (d3, Ok::<(), MigrateError>(())));
    assert(migrations::run_pending(d, p) == (d3, Ok::<(), MigrateError>(())));
    engine::lemma_root_table_wf();
}

} // verus!
