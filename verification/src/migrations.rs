//! The migration runner.
//!
//! Migrations are ordered, versioned SQL scripts, applied at most once per
//! database.  The runner reads the known script set and the applied-version
//! ledger, plans the ordered difference, and applies each pending script in
//! ascending version order, recording its version in the same unit of work.
//! It stops on the first failure; a later run resumes from the first
//! unapplied version instead of restarting.

use vstd::prelude::*;
use vstd::string::*;

use crate::engine;
use crate::engine::{apply_script, db_wf, record_version, Database, DbV};
use crate::errors::MigrateError;

verus! {

/// An ordered, versioned SQL script.  The body is opaque to the runner:
/// only the engine interprets it.
pub struct Migration {
    pub version: u64,
    pub sql: String,
}

/// The script of the schema migration: it creates the user table, with
/// the uniqueness constraint on usernames, and seeds the bootstrap
/// administrator.
pub const SCHEMA_SQL: &'static str = "CREATE TABLE users (\
     id INTEGER PRIMARY KEY, \
     username TEXT NOT NULL UNIQUE, \
     name TEXT NOT NULL, \
     email TEXT, \
     password_hash TEXT, \
     password_salt TEXT, \
     join_date INTEGER, \
     problems INTEGER NOT NULL DEFAULT 0); \
     INSERT INTO users (username, name, problems) VALUES ('root', 'root', 0);";

/// The versions of the known, compiled-in migration scripts, ascending.
pub open spec fn known_versions() -> Seq<u64> {
    seq![1u64]
}

/// The known migration scripts, ascending by version.
pub fn known_migrations() -> (r: Vec<Migration>)
    ensures
        r.len() == known_versions().len(),
        forall|i: int| 0 <= i < r.len() ==> r[i].version == known_versions()[i],
        r[0].sql@ == SCHEMA_SQL@,
{
    let mut r: Vec<Migration> = Vec::new();
    r.push(Migration { version: 1, sql: String::from_str(SCHEMA_SQL) });
    r
}

/// The ledger is consistent with the known set exactly when it lists a
/// prefix of the known versions: every applied version is known, and no
/// known version below an applied one is missing.  The plan is then the
/// rest of the known versions; an inconsistent ledger has no plan.
pub open spec fn spec_pending(known: Seq<u64>, applied: Seq<u64>) -> Option<Seq<u64>> {
    if applied.len() <= known.len() && applied == known.take(applied.len() as int) {
        Some(known.skip(applied.len() as int))
    } else {
        None
    }
}

/// Computes the ordered set of not-yet-applied versions, or reports the
/// version conflict when the ledger does not match the known set.
pub fn pending_migrations(known: &Vec<u64>, applied: &Vec<u64>) -> (r: Result<
    Vec<u64>,
    MigrateError,
>)
    ensures
        match r {
            Ok(p) => spec_pending(known@, applied@) == Some(p@),
            Err(e) => spec_pending(known@, applied@) is None && e == MigrateError::VersionConflict,
        },
{
    let na = applied.len();
    let nk = known.len();
    if na > nk {
        return Err(MigrateError::VersionConflict);
    }
    let mut i: usize = 0;
    while i < na
        invariant
            na == applied.len(),
            nk == known.len(),
            na <= nk,
            i <= na,
            forall|k: int| 0 <= k < i ==> applied@[k] == known@[k],
        decreases na - i,
    {
        if applied[i] != known[i] {
            proof {
                assert(known@.take(na as int)[i as int] == known@[i as int]);
            }
            return Err(MigrateError::VersionConflict);
        }
        i += 1;
    }
    proof {
        assert(applied@ =~= known@.take(na as int));
    }
    let mut p: Vec<u64> = Vec::new();
    let mut j: usize = na;
    while j < nk
        invariant
            na <= nk,
            nk == known.len(),
            na <= j <= nk,
            p@.len() == j - na,
            forall|k: int| 0 <= k < p@.len() ==> p@[k] == known@[na + k],
        decreases nk - j,
    {
        p.push(known[j]);
        j += 1;
    }
    proof {
        assert(p@ =~= known@.skip(na as int));
    }
    Ok(p)
}

/// Applying a pending plan: each script runs and its version is recorded,
/// in order, stopping at the first failure.
pub open spec fn run_pending(d: DbV, p: Seq<u64>) -> (DbV, Result<(), MigrateError>)
    decreases p.len(),
{
    if p.len() == 0 {
        (d, Ok(()))
    } else {
        match apply_script(d, p[0]) {
            None => (d, Err(MigrateError::ScriptFailed)),
            Some(d2) => run_pending(record_version(d2, p[0]), p.drop_first()),
        }
    }
}

/// How many scripts of a plan run successfully before the first failure
/// (all of them when none fails).
pub open spec fn run_count(d: DbV, p: Seq<u64>) -> int
    decreases p.len(),
{
    if p.len() == 0 {
        0
    } else {
        match apply_script(d, p[0]) {
            None => 0,
            Some(d2) => 1 + run_count(record_version(d2, p[0]), p.drop_first()),
        }
    }
}

/// A full migration run against a database state: plan, then apply.
pub open spec fn spec_run(d: DbV) -> (DbV, Result<(), MigrateError>) {
    match spec_pending(known_versions(), d.applied) {
        None => (d, Err(MigrateError::VersionConflict)),
        Some(p) => run_pending(d, p),
    }
}

/// A run extends the ledger by exactly the versions whose scripts ran
/// successfully, in order, and succeeds exactly when all of them did.
pub proof fn lemma_run_pending_ledger(d: DbV, p: Seq<u64>)
    ensures
        0 <= run_count(d, p) <= p.len(),
        run_pending(d, p).0.applied == d.applied + p.take(run_count(d, p)),
        (run_pending(d, p).1 == Ok::<(), MigrateError>(())) <==> run_count(d, p) == p.len(),
    decreases p.len(),
{
    if p.len() == 0 {
        assert(d.applied + p.take(0) =~= d.applied);
    } else {
        match apply_script(d, p[0]) {
            None => {
                assert(d.applied + p.take(0) =~= d.applied);
            },
            Some(d2) => {
                let d3 = record_version(d2, p[0]);
                let rest = p.drop_first();
                lemma_run_pending_ledger(d3, rest);
                let c = run_count(d3, rest);
                assert(d3.applied + rest.take(c) =~= d.applied + p.take(1 + c));
            },
        }
    }
}

/// Resumption: when the ledger grows by the first `k` versions of the
/// plan, the new plan is exactly the rest — earlier scripts are never
/// re-applied, and the order is kept.
pub proof fn lemma_resume(known: Seq<u64>, applied: Seq<u64>, k: int)
    requires
        spec_pending(known, applied) is Some,
        0 <= k <= spec_pending(known, applied)->Some_0.len(),
    ensures
        spec_pending(known, applied + spec_pending(known, applied)->Some_0.take(k)) == Some(
            spec_pending(known, applied)->Some_0.skip(k),
        ),
{
    let p = spec_pending(known, applied)->Some_0;
    let l = applied.len() as int;
    assert(applied + p.take(k) =~= known.take(l + k));
    assert(p.skip(k) =~= known.skip(l + k));
    assert((applied + p.take(k)).len() == l + k);
    assert(known.take(l + k).take(l + k) =~= known.take(l + k));
}

/// Each ledger entry sits at its own position of the known set, when the
/// ledger lists only known versions and no known version below a listed
/// one is missing.
proof fn lemma_prefix_from_closure(known: Seq<u64>, applied: Seq<u64>, k: int)
    requires
        engine::sorted_strict(known),
        engine::sorted_strict(applied),
        applied.len() <= known.len(),
        forall|v: u64| applied.contains(v) ==> known.contains(v),
        forall|i: int, j: int|
            0 <= i < j < known.len() && applied.contains(known[j]) ==> applied.contains(known[i]),
        0 <= k < applied.len(),
    ensures
        applied[k] == known[k],
    decreases k,
{
    if k > 0 {
        lemma_prefix_from_closure(known, applied, k - 1);
    }
    assert(applied.contains(applied[k]));
    let m = choose|m: int| 0 <= m < known.len() && known[m] == applied[k];
    if m > k {
        // `known[k]` would then lie strictly between two adjacent ledger
        // entries, though the ledger must list it: a contradiction.
        assert(applied.contains(known[m]));
        assert(applied.contains(known[k]));
        let t = choose|t: int| 0 <= t < applied.len() && applied[t] == known[k];
        assert(known[k] < known[m]);
        assert(t < k);
        if k > 0 {
            assert(applied[k - 1] == known[k - 1] < known[k]);
            assert(t > k - 1);
        }
        assert(false);
    }
    if m < k {
        assert(known[m] <= known[k - 1]);
        assert(applied[k - 1] == known[k - 1]);
        assert(false);
    }
}

/// The planner's consistency test is the version-conflict taxonomy: for
/// ordered inputs, a plan exists exactly when every applied version is a
/// known one and no known version below an applied one is missing from
/// the ledger.  (The length bound follows from the other two conditions
/// for a duplicate-free ledger; it is stated explicitly.)
pub proof fn lemma_conflict_characterization(known: Seq<u64>, applied: Seq<u64>)
    requires
        engine::sorted_strict(known),
        engine::sorted_strict(applied),
    ensures
        spec_pending(known, applied) is Some <==> (applied.len() <= known.len() && (forall|v: u64|
            applied.contains(v) ==> known.contains(v)) && (forall|i: int, j: int|
            0 <= i < j < known.len() && applied.contains(known[j]) ==> applied.contains(known[i]))),
{
    let l = applied.len() as int;
    if spec_pending(known, applied) is Some {
        assert forall|v: u64| applied.contains(v) implies known.contains(v) by {
            let k = choose|k: int| 0 <= k < applied.len() && applied[k] == v;
            assert(known.take(l)[k] == known[k]);
            assert(known[k] == v);
        }
        assert forall|i: int, j: int|
            0 <= i < j < known.len() && applied.contains(known[j]) implies applied.contains(
            known[i],
        ) by {
            let t = choose|t: int| 0 <= t < applied.len() && applied[t] == known[j];
            assert(applied[t] == known.take(l)[t]);
            assert(known[t] == known[j]);
            assert(t == j);
            assert(applied[i] == known.take(l)[i] == known[i]);
        }
    } else {
        if applied.len() <= known.len() && (forall|v: u64|
            applied.contains(v) ==> known.contains(v)) && (forall|i: int, j: int|
            0 <= i < j < known.len() && applied.contains(known[j]) ==> applied.contains(
                known[i],
            )) {
            assert forall|k: int| 0 <= k < l implies applied[k] == known.take(l)[k] by {
                lemma_prefix_from_closure(known, applied, k);
            }
            assert(applied =~= known.take(l));
        }
    }
}

/// A consistent ledger is as strictly ordered as the known set.
pub proof fn lemma_consistent_sorted(known: Seq<u64>, applied: Seq<u64>)
    requires
        engine::sorted_strict(known),
        spec_pending(known, applied) is Some,
    ensures
        engine::sorted_strict(applied),
{
    assert forall|i: int, j: int| 0 <= i < j < applied.len() implies applied[i] < applied[j] by {
        assert(applied[i] == known[i]);
        assert(applied[j] == known[j]);
    }
}

/// Idempotence at the set level: after a run that succeeded, a second run
/// succeeds too, applies nothing, and leaves the ledger unchanged.
pub proof fn lemma_migrations_idempotent(d: DbV)
    requires
        spec_run(d).1 == Ok::<(), MigrateError>(()),
    ensures
        spec_run(spec_run(d).0) == (spec_run(d).0, Ok::<(), MigrateError>(())),
{
    let p = spec_pending(known_versions(), d.applied)->Some_0;
    let d2 = spec_run(d).0;
    lemma_run_pending_ledger(d, p);
    assert(p.take(p.len() as int) =~= p);
    lemma_resume(known_versions(), d.applied, p.len() as int);
    assert(p.skip(p.len() as int) =~= Seq::<u64>::empty());
    assert(spec_pending(known_versions(), d2.applied) == Some(Seq::<u64>::empty()));
    assert(run_pending(d2, Seq::<u64>::empty()) == (d2, Ok::<(), MigrateError>(())));
}

/// A failed script leaves the ledger at the last successfully applied
/// version, and the next run plans exactly the remaining scripts: it
/// resumes, it does not restart.
pub proof fn lemma_failed_run_resumes(d: DbV)
    requires
        spec_pending(known_versions(), d.applied) is Some,
    ensures
        ({
            let p = spec_pending(known_versions(), d.applied)->Some_0;
            let k = run_count(d, p);
            spec_run(d).0.applied == d.applied + p.take(k) && spec_pending(
                known_versions(),
                spec_run(d).0.applied,
            ) == Some(p.skip(k))
        }),
{
    let p = spec_pending(known_versions(), d.applied)->Some_0;
    lemma_run_pending_ledger(d, p);
    lemma_resume(known_versions(), d.applied, run_count(d, p));
}

/// The known versions are strictly ascending.
pub proof fn lemma_known_sorted()
    ensures
        engine::sorted_strict(known_versions()),
{
}

/// Runs all pending migrations against the database, in ascending version
/// order, recording each as applied; stops and reports on the first
/// failure.
pub fn run_all(db: &mut Database) -> (r: Result<(), MigrateError>)
    requires
        db_wf(old(db).dv()),
    ensures
        final(db).dv() == spec_run(old(db).dv()).0,
        r == spec_run(old(db).dv()).1,
        db_wf(final(db).dv()),
{
    let known = known_migrations();
    let mut known_v: Vec<u64> = Vec::new();
    let nk = known.len();
    let mut t: usize = 0;
    while t < nk
        invariant
            nk == known.len(),
            t <= nk,
            known_v@.len() == t,
            forall|k: int| 0 <= k < t ==> known_v@[k] == known@[k as int].version,
            forall|i: int| 0 <= i < known@.len() ==> known@[i].version == known_versions()[i],
        decreases nk - t,
    {
        known_v.push(known[t].version);
        t += 1;
    }
    proof {
        assert(known_v@ =~= known_versions());
    }
    let pending = match pending_migrations(&known_v, &db.applied) {
        Err(e) => {
            return Err(e);
        },
        Ok(p) => p,
    };
    let n = pending.len();
    proof {
        assert(pending@.skip(0) =~= pending@);
        assert(db.dv().applied =~= old(db).dv().applied + pending@.take(0));
    }
    let mut i: usize = 0;
    while i < n
        invariant
            n == pending.len(),
            i <= n,
            spec_pending(known_versions(), old(db).dv().applied) == Some(pending@),
            run_pending(old(db).dv(), pending@) == run_pending(db.dv(), pending@.skip(i as int)),
            db.dv().applied == old(db).dv().applied + pending@.take(i as int),
            db_wf(db.dv()),
        decreases n - i,
    {
        let ghost prev = db.dv();
        let v = pending[i];
        match db.execute_migration(v) {
            Ok(()) => {
                proof {
                    assert(pending@.skip(i as int)[0] == v);
                    assert(pending@.skip(i as int).drop_first() =~= pending@.skip(i as int + 1));
                    assert(run_pending(prev, pending@.skip(i as int)) == run_pending(
                        db.dv(),
                        pending@.skip(i as int + 1),
                    ));
                    assert(db.dv().applied =~= old(db).dv().applied + pending@.take(i as int + 1));
                    lemma_known_sorted();
                    lemma_resume(known_versions(), old(db).dv().applied, i as int + 1);
                    lemma_consistent_sorted(known_versions(), db.dv().applied);
                    engine::lemma_root_table_wf();
                }
            },
            Err(e) => {
                proof {
                    assert(pending@.skip(i as int)[0] == v);
                    assert(run_pending(prev, pending@.skip(i as int)) == (
                        prev,
                        Err::<(), MigrateError>(MigrateError::ScriptFailed),
                    ));
                }
                return Err(e);
            },
        }
        i += 1;
    }
    proof {
        assert(pending@.skip(n as int) =~= Seq::<u64>::empty());
        assert(run_pending(db.dv(), Seq::<u64>::empty()) == (db.dv(), Ok::<(), MigrateError>(())));
    }
    Ok(())
}

} // verus!
