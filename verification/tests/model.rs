use bencher_core::cli::{Flag, TargetFamily};
use bencher_core::config::Config;
use bencher_core::rbac::{Permission, Role};
use bencher_core::report::{choose_version, report_project, Adapter, JsonAdapter, QueryAdapter};
use bencher_core::testbed::{validate_slug, InsertTestbed, JsonNewTestbed, QueryTestbed};
use bencher_core::token::{check_max_ttl, same_user_check, to_date_time, QueryToken, MAX_TTL};

#[test]
fn role_wire_names() {
    assert_eq!(Role::Member.to_polar(), "member");
    assert_eq!(Role::Leader.to_polar(), "leader");
    assert_eq!(Role::from_str("member").unwrap(), Role::Member);
    assert_eq!(Role::from_str("leader").unwrap(), Role::Leader);
    assert_eq!(Role::from_str("boss"), Err(String::from("boss")));
}

#[test]
fn permission_wire_names() {
    assert_eq!(Permission::View.to_polar(), "view");
    assert_eq!(Permission::DeleteRole.to_polar(), "delete_role");
    assert_eq!(Permission::Manage.as_str(), "manage");
}

#[test]
fn flag_selection() {
    let f = Flag::try_from(Some(String::from("-x")), TargetFamily::Other).unwrap();
    assert_eq!(f.as_string(), "-x");
    let f = Flag::try_from(None, TargetFamily::Unix).unwrap();
    assert_eq!(f.as_string(), "-c");
    let f = Flag::try_from(None, TargetFamily::Windows).unwrap();
    assert_eq!(f.as_string(), "/C");
    assert!(Flag::try_from(None, TargetFamily::Other).is_err());
}

#[test]
fn slug_validation() {
    // A name is slugified; slugify is not the identity here.
    assert_eq!(validate_slug("My Testbed", None, false), "my-testbed");
    // A submitted slug already in slug form is kept.
    assert_eq!(
        validate_slug("My Testbed", Some(String::from("custom-slug")), false),
        "custom-slug"
    );
    // A submitted slug not in slug form falls back to the name's slug.
    assert_eq!(
        validate_slug("My Testbed", Some(String::from("Not A Slug")), false),
        "my-testbed"
    );
    // A taken slug gets a decimal suffix.
    let s = validate_slug("My Testbed", None, true);
    assert!(s.starts_with("my-testbed"));
    let suffix = &s["my-testbed".len()..];
    assert!(!suffix.is_empty());
    assert!(suffix.chars().all(|c| c.is_ascii_digit()));
}

fn new_testbed() -> JsonNewTestbed {
    JsonNewTestbed {
        project: String::from("the-project"),
        name: String::from("My Testbed"),
        slug: None,
        os_name: Some(String::from("linux")),
        os_version: None,
        runtime_name: None,
        runtime_version: None,
        cpu: None,
        ram: None,
        disk: None,
    }
}

#[test]
fn insert_testbed_from_json() {
    let row = InsertTestbed::from_json(new_testbed(), 42, false);
    assert_eq!(row.uuid.len(), 36);
    assert!(uuid::Uuid::parse_str(&row.uuid).is_ok());
    assert_eq!(row.project_id, 42);
    assert_eq!(row.name, "My Testbed");
    assert_eq!(row.slug, "my-testbed");
    assert_eq!(row.os_name.as_deref(), Some("linux"));
}

fn query_testbed(uuid: &str) -> QueryTestbed {
    QueryTestbed {
        id: 1,
        uuid: String::from(uuid),
        project_id: 42,
        name: String::from("My Testbed"),
        slug: String::from("my-testbed"),
        os_name: None,
        os_version: None,
        runtime_name: None,
        runtime_version: None,
        cpu: None,
        ram: None,
        disk: None,
    }
}

#[test]
fn testbed_to_json_checks_uuid() {
    let good = query_testbed("67e55044-10b1-426f-9247-bb680e5fe0c8");
    let json = good.to_json(String::from("p-uuid")).unwrap();
    assert_eq!(json.uuid, "67e55044-10b1-426f-9247-bb680e5fe0c8");
    assert_eq!(json.project, "p-uuid");
    let bad = query_testbed("not-a-uuid");
    assert!(bad.to_json(String::from("p-uuid")).is_err());
}

#[test]
fn timestamp_validation() {
    assert_eq!(to_date_time(0), Ok(0));
    assert_eq!(to_date_time(1_600_000_000), Ok(1_600_000_000));
    assert!(to_date_time(i64::MAX).is_err());
}

#[test]
fn same_user_and_ttl_rules() {
    assert!(same_user_check(false, 1, 1).is_ok());
    assert!(same_user_check(true, 1, 2).is_ok());
    assert!(same_user_check(false, 1, 2).is_err());
    assert!(check_max_ttl(MAX_TTL).is_ok());
    assert!(check_max_ttl(MAX_TTL + 1).is_err());
}

#[test]
fn token_into_json() {
    let row = QueryToken {
        id: 1,
        uuid: String::from("67e55044-10b1-426f-9247-bb680e5fe0c8"),
        user_id: 9,
        name: String::from("ci"),
        jwt: String::from("signed-key-value"),
        creation: 1_600_000_000,
        expiration: 1_631_536_000,
    };
    let json = row.clone().into_json(String::from("user-uuid")).unwrap();
    assert_eq!(json.token, "signed-key-value");
    assert_eq!(json.creation, 1_600_000_000);
    let mut bad = row;
    bad.expiration = i64::MAX;
    assert!(bad.into_json(String::from("user-uuid")).is_err());
}

#[test]
fn adapter_from_query_checks_uuid() {
    let good = QueryAdapter {
        id: 1,
        uuid: String::from("67e55044-10b1-426f-9247-bb680e5fe0c8"),
        name: String::from("rust"),
    };
    let a = Adapter::from_query(good).unwrap();
    assert_eq!(a.name, "rust");
    let bad = QueryAdapter { id: 1, uuid: String::from("nope"), name: String::from("rust") };
    assert!(Adapter::from_query(bad).is_err());
}

#[test]
fn report_decisions() {
    assert_eq!(report_project(5, 5), Ok(5));
    assert!(report_project(5, 6).is_err());
    assert_eq!(choose_version(Some(3), 9), 3);
    assert_eq!(choose_version(None, 9), 9);
    assert_eq!(JsonAdapter::Rust, JsonAdapter::Rust);
}

#[test]
fn config_defaults() {
    let c = Config::default();
    assert_eq!(c.0.endpoint, "https://bencher.dev");
    assert_eq!(c.0.server.bind_port, 61016);
    assert_eq!(c.0.server.request_body_max_bytes, 1 << 20);
    assert_eq!(c.0.database.file, "data/bencher.db");
    assert_eq!(c.0.logging.name, "Bencher API");
    let key = c.0.secret_key.unwrap();
    assert_eq!(key.len(), 36);
    assert!(uuid::Uuid::parse_str(&key).is_ok());
}
