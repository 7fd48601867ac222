use judge_db::engine::{Database, Value};
use judge_db::errors::QueryError;
use judge_db::users::{row_of_user, user_from_row, User, UsersService};
use judge_db::DatabaseService;

fn plain_user(username: &str) -> User {
    User {
        id: 0,
        username: username.to_string(),
        name: format!("{} display", username),
        email: None,
        password_hash: None,
        password_salt: None,
        join_date: None,
        problems: 0,
    }
}

#[test]
fn test_basic_usage() {
    let drivers = DatabaseService::setup_drivers();
    let mut db = DatabaseService::new("sqlite://:memory:", &drivers).unwrap();
    db.run_migrations().unwrap();

    let users = db.users().unwrap();
    let all_users = users.query_all_users().unwrap();
    // Should contain only the administrator
    assert_eq!(all_users.len(), 1);
    let fst = all_users.first().unwrap();
    assert_eq!(fst.username, "root");
}

#[test]
fn query_before_migrations_reports_missing_table() {
    let drivers = DatabaseService::setup_drivers();
    let db = DatabaseService::new("sqlite://:memory:", &drivers).unwrap();
    let users = db.users().unwrap();
    assert_eq!(users.query_all_users().unwrap_err(), QueryError::Execute);
}

#[test]
fn query_length_matches_row_count() {
    // Empty table.
    let empty = Database { users: Some(vec![]), applied: vec![1] };
    let pool = judge_db::pool::Pool { db: empty };
    let service = UsersService::new(&pool);
    assert_eq!(service.query_all_users().unwrap().len(), 0);

    // One row: what the migration seeds.
    let drivers = DatabaseService::setup_drivers();
    let mut db = DatabaseService::new("sqlite://:memory:", &drivers).unwrap();
    db.run_migrations().unwrap();
    assert_eq!(db.users().unwrap().query_all_users().unwrap().len(), 1);

    // N rows.
    for i in 0..4 {
        db.conn.db.insert_user(&plain_user(&format!("user{}", i))).unwrap();
    }
    assert_eq!(db.users().unwrap().query_all_users().unwrap().len(), 5);
}

#[test]
fn backend_assigns_row_identifiers() {
    let drivers = DatabaseService::setup_drivers();
    let mut db = DatabaseService::new("sqlite://:memory:", &drivers).unwrap();
    db.run_migrations().unwrap();
    let id = db.conn.db.insert_user(&plain_user("second")).unwrap();
    assert_eq!(id, 2);
    let all = db.users().unwrap().query_all_users().unwrap();
    assert_eq!(all[0].id, 1);
    assert_eq!(all[1].id, 2);
    assert_eq!(all[1].username, "second");
}

#[test]
fn duplicate_username_is_refused() {
    let drivers = DatabaseService::setup_drivers();
    let mut db = DatabaseService::new("sqlite://:memory:", &drivers).unwrap();
    db.run_migrations().unwrap();

    let mut dup = plain_user("root");
    dup.email = Some("other@example.org".to_string());
    // The seeded administrator already carries this username.
    assert_eq!(db.conn.db.insert_user(&dup).unwrap_err(), QueryError::Constraint);

    // A fresh username goes through once and only once.
    assert!(db.conn.db.insert_user(&plain_user("alice")).is_ok());
    assert_eq!(db.conn.db.insert_user(&plain_user("alice")).unwrap_err(), QueryError::Constraint);
}

#[test]
fn insert_without_table_is_an_execution_error() {
    let drivers = DatabaseService::setup_drivers();
    let mut db = DatabaseService::new("sqlite://:memory:", &drivers).unwrap();
    assert_eq!(db.conn.db.insert_user(&plain_user("alice")).unwrap_err(), QueryError::Execute);
}

#[test]
fn nullable_fields_round_trip() {
    let full = User {
        id: 7,
        username: "carol".to_string(),
        name: "Carol".to_string(),
        email: Some("carol@example.org".to_string()),
        password_hash: Some("2c26b46b68ffc68ff99b453c1d30413413422d706483bfa0f98a5e886266e7ae".to_string()),
        password_salt: Some("pepper".to_string()),
        join_date: Some(1700000000),
        problems: 3,
    };
    let decoded = user_from_row(&row_of_user(&full)).unwrap();
    assert_eq!(decoded.email.as_deref(), Some("carol@example.org"));
    assert_eq!(decoded.password_salt.as_deref(), Some("pepper"));
    assert_eq!(decoded.join_date, Some(1700000000));
    assert_eq!(decoded.username, "carol");
    assert_eq!(decoded.problems, 3);

    let bare = plain_user("dave");
    let decoded = user_from_row(&row_of_user(&bare)).unwrap();
    // Absent stays absent: no coercion to an empty string or to zero.
    assert_eq!(decoded.email, None);
    assert_eq!(decoded.password_hash, None);
    assert_eq!(decoded.password_salt, None);
    assert_eq!(decoded.join_date, None);
}

#[test]
fn nullable_fields_survive_storage() {
    let drivers = DatabaseService::setup_drivers();
    let mut db = DatabaseService::new("sqlite://:memory:", &drivers).unwrap();
    db.run_migrations().unwrap();
    let mut stored = plain_user("erin");
    stored.email = Some("erin@example.org".to_string());
    db.conn.db.insert_user(&stored).unwrap();
    db.conn.db.insert_user(&plain_user("frank")).unwrap();

    let all = db.users().unwrap().query_all_users().unwrap();
    assert_eq!(all[0].email, None); // the administrator has none
    assert_eq!(all[1].email.as_deref(), Some("erin@example.org"));
    assert_eq!(all[2].email, None);
}

#[test]
fn malformed_row_does_not_decode() {
    let row = vec![Value::Text("not-an-id".to_string())];
    assert_eq!(user_from_row(&row).unwrap_err(), QueryError::Decode);

    // Right width, but a number where the username belongs.
    let mut row = row_of_user(&plain_user("grace"));
    row[1] = Value::Int(9);
    assert_eq!(user_from_row(&row).unwrap_err(), QueryError::Decode);
}
