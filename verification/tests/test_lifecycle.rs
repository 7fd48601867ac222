use judge_db::cli::Cmd;
use judge_db::engine::Database;
use judge_db::errors::{ConnectError, MigrateError};
use judge_db::migrations::{known_migrations, pending_migrations};
use judge_db::pool::PoolQueue;
use judge_db::DatabaseService;

#[test]
fn connect_rejects_malformed_urls() {
    let drivers = DatabaseService::setup_drivers();
    assert!(matches!(
        DatabaseService::new("no-scheme-here", &drivers),
        Err(ConnectError::MalformedUrl)
    ));
    assert!(matches!(
        DatabaseService::new(":memory:", &drivers),
        Err(ConnectError::MalformedUrl)
    ));
    assert!(matches!(DatabaseService::new("sqlite", &drivers), Err(ConnectError::MalformedUrl)));
}

#[test]
fn connect_requires_a_registered_driver() {
    let drivers = DatabaseService::setup_drivers();
    assert!(matches!(
        DatabaseService::new("mysql://localhost/db", &drivers),
        Err(ConnectError::UnsupportedScheme)
    ));
    assert!(DatabaseService::new("postgres://localhost/db", &drivers).is_ok());
    // Before any driver is registered, nothing connects.
    let none = judge_db::drivers::DriverRegistry::new();
    assert!(matches!(
        DatabaseService::new("sqlite://:memory:", &none),
        Err(ConnectError::UnsupportedScheme)
    ));
}

#[test]
fn driver_setup_is_idempotent() {
    let mut drivers = DatabaseService::setup_drivers();
    let before = drivers.schemes.clone();
    drivers.install_default_drivers();
    drivers.install_default_drivers();
    assert_eq!(drivers.schemes, before);
    assert!(drivers.supports("sqlite"));
    assert!(drivers.supports("postgres"));
    assert!(!drivers.supports("mysql"));
}

#[test]
fn migrations_run_once_and_only_once() {
    let drivers = DatabaseService::setup_drivers();
    let mut db = DatabaseService::new("sqlite://:memory:", &drivers).unwrap();
    db.run_migrations().unwrap();
    let applied_after_first = db.conn.db.applied.clone();
    // Second run: no error, no change in the applied-version ledger.
    db.run_migrations().unwrap();
    assert_eq!(db.conn.db.applied, applied_after_first);
    assert_eq!(db.users().unwrap().query_all_users().unwrap().len(), 1);
}

#[test]
fn inconsistent_ledger_is_a_version_conflict() {
    // Version 2 recorded as applied while version 1 is missing.
    let db = Database { users: None, applied: vec![2] };
    let mut service = DatabaseService { conn: judge_db::pool::Pool { db } };
    assert_eq!(service.run_migrations().unwrap_err(), MigrateError::VersionConflict);
    // The conflict leaves the ledger untouched.
    assert_eq!(service.conn.db.applied, vec![2]);
}

#[test]
fn failed_script_leaves_ledger_and_resumes() {
    // A user table that exists without a ledger entry makes the schema
    // script fail: the ledger must stay where it was.
    let mut service = DatabaseService { conn: judge_db::pool::Pool { db: Database::empty() } };
    service.conn.db.users = Some(vec![]);
    assert_eq!(service.run_migrations().unwrap_err(), MigrateError::ScriptFailed);
    assert_eq!(service.conn.db.applied, Vec::<u64>::new());

    // Once the obstacle is gone, the next run resumes from the first
    // unapplied version and completes.
    service.conn.db.users = None;
    service.run_migrations().unwrap();
    assert_eq!(service.conn.db.applied, vec![1]);
}

#[test]
fn pending_is_the_ordered_difference() {
    let known = vec![1, 2, 3];
    assert_eq!(pending_migrations(&known, &vec![]).unwrap(), vec![1, 2, 3]);
    assert_eq!(pending_migrations(&known, &vec![1]).unwrap(), vec![2, 3]);
    assert_eq!(pending_migrations(&known, &vec![1, 2, 3]).unwrap(), Vec::<u64>::new());
    assert_eq!(pending_migrations(&known, &vec![2]).unwrap_err(), MigrateError::VersionConflict);
    assert_eq!(
        pending_migrations(&known, &vec![1, 2, 3, 4]).unwrap_err(),
        MigrateError::VersionConflict
    );
}

#[test]
fn known_scripts_are_versioned_in_order() {
    let known = known_migrations();
    assert_eq!(known.len(), 1);
    assert_eq!(known[0].version, 1);
    assert!(known[0].sql.contains("CREATE TABLE users"));
    assert!(known[0].sql.contains("'root'"));
}

#[test]
fn contended_pool_completes_every_query() {
    // 50 concurrent queries against a pool of 3 connections: all queue,
    // none fails, every one completes.
    let mut pool = PoolQueue::new(3);
    for _ in 0..50 {
        pool.submit();
    }
    pool.complete_all();
    assert_eq!(pool.completed, 50);
    assert_eq!(pool.waiting, 0);
    assert_eq!(pool.busy, 0);
    assert_eq!(pool.capacity, 3);
}

#[test]
fn bind_target_defaults() {
    let run = Cmd::Run { unix: false, host: None };
    assert_eq!(run.bind_target().as_deref(), Some("0.0.0.0:8000"));
    let run_unix = Cmd::Run { unix: true, host: None };
    assert_eq!(run_unix.bind_target().as_deref(), Some("default.socket"));
    let run_host = Cmd::Run { unix: false, host: Some("127.0.0.1:9000".to_string()) };
    assert_eq!(run_host.bind_target().as_deref(), Some("127.0.0.1:9000"));
    assert_eq!(Cmd::Migrate {}.bind_target(), None);
}
