use ravrosr::registry::{
    compatibility_verdict, deletion_succeeded, posted_schema_id, registered_schema_id, requested_version,
    SchemaLookup, SchemaVersion, SrClient,
};

#[test]
fn client_with_key_and_secret_sends_basic_authorization() {
    let c = SrClient::new("http://localhost:8081", Some("foo"), Some("bar")).ok().unwrap();
    assert_eq!(c.base_url, "http://localhost:8081");
    assert_eq!(c.auth_header.as_deref(), Some("Basic Zm9vOmJhcg=="));
}

#[test]
fn base64_padding_follows_the_length() {
    let one = SrClient::new("u", Some("ab"), Some("")).ok().unwrap();
    assert_eq!(one.auth_header.as_deref(), Some("Basic YWI6"));
    let two = SrClient::new("u", Some("a"), Some("bcd")).ok().unwrap();
    assert_eq!(two.auth_header.as_deref(), Some("Basic YTpiY2Q="));
    let utf8 = SrClient::new("u", Some("é"), Some("?>")).ok().unwrap();
    assert_eq!(utf8.auth_header.as_deref(), Some("Basic w6k6Pz4="));
}

#[test]
fn client_without_both_credentials_has_no_header() {
    let c = SrClient::new("http://localhost:8081", None, None).ok().unwrap();
    assert_eq!(c.auth_header, None);
    let k = SrClient::new("http://localhost:8081", Some("key"), None).ok().unwrap();
    assert_eq!(k.auth_header, None);
    let s = SrClient::new("http://localhost:8081", None, Some("secret")).ok().unwrap();
    assert_eq!(s.auth_header, None);
}

#[test]
fn registry_addresses() {
    let c = SrClient::new("http://sr:8081", None, None).ok().unwrap();
    assert_eq!(c.subject_version_url("user-value", 12), "http://sr:8081/subjects/user-value/versions/12");
    assert_eq!(c.subject_version_url("s", 4294967295), "http://sr:8081/subjects/s/versions/4294967295");
    assert_eq!(c.subject_versions_url("user-value"), "http://sr:8081/subjects/user-value/versions");
    assert_eq!(
        c.compatibility_url("user-value"),
        "http://sr:8081/compatibility/subjects/user-value/versions/latest"
    );
    assert_eq!(c.subject_url("user-value"), "http://sr:8081/subjects/user-value");
}

#[test]
fn version_zero_or_none_means_latest() {
    assert!(requested_version(None) == SchemaVersion::Latest);
    assert!(requested_version(Some(0)) == SchemaVersion::Latest);
    assert!(requested_version(Some(3)) == SchemaVersion::Number(3));
    assert!(requested_version(Some(-1)) == SchemaVersion::Number(4294967295));
}

#[test]
fn schema_ids_read_as_signed() {
    assert_eq!(registered_schema_id(7), 7);
    assert_eq!(registered_schema_id(4294967295), -1);
    assert_eq!(posted_schema_id(Some(12)), Some(12));
    assert_eq!(posted_schema_id(Some(4294967296 + 5)), Some(5));
    assert_eq!(posted_schema_id(Some(-3)), Some(-3));
    assert_eq!(posted_schema_id(None), None);
}

#[test]
fn compatible_only_when_the_answer_says_true() {
    assert!(compatibility_verdict(Some(true)));
    assert!(!compatibility_verdict(Some(false)));
    assert!(!compatibility_verdict(None));
}

#[test]
fn lookup_of_the_latest_version_names_the_subject_itself() {
    let c = SrClient::new("http://sr:8081", None, None).ok().unwrap();
    match c.schema_lookup("user-value", None) {
        SchemaLookup::Latest { subject } => assert_eq!(subject, "user-value"),
        SchemaLookup::Direct { .. } => panic!("expected the latest version"),
    }
    match c.schema_lookup("user-value", Some(0)) {
        SchemaLookup::Latest { subject } => assert_eq!(subject, "user-value"),
        SchemaLookup::Direct { .. } => panic!("expected the latest version"),
    }
    match c.schema_lookup("user-value", Some(2)) {
        SchemaLookup::Direct { url } => assert_eq!(url, "http://sr:8081/subjects/user-value/versions/2"),
        SchemaLookup::Latest { .. } => panic!("expected a direct call"),
    }
}

#[test]
fn deletion_succeeds_on_2xx() {
    assert!(deletion_succeeded(200));
    assert!(deletion_succeeded(204));
    assert!(deletion_succeeded(299));
    assert!(!deletion_succeeded(199));
    assert!(!deletion_succeeded(300));
    assert!(!deletion_succeeded(404));
}
