use cpkgs::errors::RegistryError;
use cpkgs::payloads::{DependencyRequest, LoginRequest, PackageQuery, PackageRequest, UserRequest};
use cpkgs::store::Store;

const NOW: i64 = 1_700_000_000;

fn user_req(username: &str, email: &str, password: &str) -> UserRequest {
    UserRequest {
        username: username.to_string(),
        email: email.to_string(),
        password: password.to_string(),
    }
}

fn pkg_req(name: &str, version: &str) -> PackageRequest {
    PackageRequest {
        name: name.to_string(),
        version: version.to_string(),
        description: None,
        maintainer: "m".to_string(),
        architecture: "amd64".to_string(),
        size: 1024,
        dependencies: Vec::new(),
        tags: Vec::new(),
    }
}

fn store_with_user(username: &str) -> (Store, u64) {
    let mut store = Store::new();
    let u = store
        .create_user(
            &user_req(username, &format!("{}@x.io", username), "pw"),
            "salt".to_string(),
            NOW,
        )
        .expect("user creation");
    (store, u.id)
}

#[test]
fn distinct_keys_all_succeed_duplicate_rejected() {
    let (mut store, uid) = store_with_user("alice");
    assert!(store.create_package(&pkg_req("curl", "7.88.0"), uid, NOW).is_ok());
    assert!(store.create_package(&pkg_req("curl", "7.89.0"), uid, NOW).is_ok());
    assert!(store.create_package(&pkg_req("wget", "7.88.0"), uid, NOW).is_ok());
    let dup = store.create_package(&pkg_req("curl", "7.88.0"), uid, NOW);
    assert_eq!(dup.unwrap_err(), RegistryError::ConstraintViolation);
}

#[test]
fn racing_creates_have_one_winner() {
    let (mut store, uid) = store_with_user("alice");
    let mut outcomes = Vec::new();
    for _ in 0..5 {
        outcomes.push(store.create_package(&pkg_req("curl", "7.88.0"), uid, NOW));
    }
    let wins = outcomes.iter().filter(|r| r.is_ok()).count();
    assert_eq!(wins, 1);
    assert!(outcomes[0].is_ok());
    for loss in &outcomes[1..] {
        assert_eq!(*loss.as_ref().unwrap_err(), RegistryError::ConstraintViolation);
    }
}

#[test]
fn get_after_create_returns_the_stored_fields() {
    let (mut store, uid) = store_with_user("alice");
    let mut req = pkg_req("curl", "7.88.0");
    req.description = Some("transfer tool".to_string());
    req.dependencies.push(DependencyRequest {
        name: "openssl".to_string(),
        version: "3.0".to_string(),
        dependency_type: "RUNTIME".to_string(),
    });
    req.tags.push("net".to_string());
    let created = store.create_package(&req, uid, NOW).expect("create");
    let got = store.get_package(created.id).expect("get");
    assert_eq!(got.id, created.id);
    assert_eq!(got.name, "curl");
    assert_eq!(got.version, "7.88.0");
    assert_eq!(got.description.as_deref(), Some("transfer tool"));
    assert_eq!(got.maintainer, "m");
    assert_eq!(got.architecture, "amd64");
    assert_eq!(got.size, 1024);
    assert_eq!(got.author, uid);
    assert_eq!(got.created_at, NOW);
    assert_eq!(got.updated_at, NOW);
    assert_eq!(store.packages[0].storage_path, "/packages/curl/curl-7.88.0.deb");
    assert_eq!(got.checksum, created.checksum);
    assert_eq!(got.dependencies.len(), 1);
    assert_eq!(got.dependencies[0].name, "openssl");
    assert_eq!(got.dependencies[0].version, "3.0");
    assert_eq!(got.dependencies[0].dependency_type, "RUNTIME");
    assert_eq!(got.tags.len(), 1);
    assert_eq!(got.tags[0].name, "net");
}

#[test]
fn checksum_is_a_hex_digest_of_the_name() {
    let (mut store, uid) = store_with_user("alice");
    let a = store.create_package(&pkg_req("curl", "1.0"), uid, NOW).unwrap();
    let b = store.create_package(&pkg_req("curl", "2.0"), uid, NOW).unwrap();
    let c = store.create_package(&pkg_req("wget", "1.0"), uid, NOW).unwrap();
    assert_eq!(a.checksum.len(), 64);
    assert!(a.checksum.chars().all(|ch| ch.is_ascii_hexdigit() && !ch.is_ascii_uppercase()));
    assert_ne!(a.checksum, "curl");
    assert_eq!(a.checksum, b.checksum);
    assert_ne!(a.checksum, c.checksum);
}

#[test]
fn delete_cascades_rows_and_links_but_keeps_shared_tags() {
    let (mut store, uid) = store_with_user("alice");
    let mut req1 = pkg_req("curl", "1.0");
    req1.tags.push("net".to_string());
    req1.dependencies.push(DependencyRequest {
        name: "openssl".to_string(),
        version: "3.0".to_string(),
        dependency_type: "RUNTIME".to_string(),
    });
    let mut req2 = pkg_req("wget", "1.0");
    req2.tags.push("net".to_string());
    let p1 = store.create_package(&req1, uid, NOW).unwrap();
    let p2 = store.create_package(&req2, uid, NOW).unwrap();
    assert_eq!(store.dependencies.len(), 1);
    assert_eq!(store.links.len(), 2);
    assert_eq!(store.tags.len(), 1);
    store.delete_package(p1.id).expect("delete");
    assert_eq!(store.get_package(p1.id).unwrap_err(), RegistryError::NotFound);
    assert_eq!(store.dependencies.len(), 0);
    assert_eq!(store.links.len(), 1);
    assert_eq!(store.tags.len(), 1);
    let still = store.get_package(p2.id).expect("survivor");
    assert_eq!(still.tags.len(), 1);
    assert_eq!(still.tags[0].name, "net");
}

#[test]
fn maintainer_filter_returns_exactly_the_matching_set() {
    let (mut store, uid) = store_with_user("root");
    for (name, maintainer) in
        [("a", "alice"), ("b", "bob"), ("c", "alice"), ("d", "carol")]
    {
        let mut req = pkg_req(name, "1.0");
        req.maintainer = maintainer.to_string();
        store.create_package(&req, uid, NOW).unwrap();
    }
    let q = PackageQuery {
        search: None,
        tag: None,
        maintainer: Some("alice".to_string()),
        limit: None,
        offset: None,
    };
    let rows = store.list_packages(&q);
    let mut names: Vec<String> = rows.iter().map(|r| r.name.clone()).collect();
    names.sort();
    assert_eq!(names, vec!["a".to_string(), "c".to_string()]);
}

#[test]
fn search_returns_union_of_name_and_description_without_duplicates() {
    let (mut store, uid) = store_with_user("alice");
    let mut by_name = pkg_req("foobar", "1.0");
    by_name.description = Some("a tool".to_string());
    let mut by_desc = pkg_req("wget", "1.0");
    by_desc.description = Some("downloads foo files".to_string());
    let mut by_both = pkg_req("food", "1.0");
    by_both.description = Some("foo processor".to_string());
    let mut by_none = pkg_req("curl", "1.0");
    by_none.description = Some("transfer tool".to_string());
    let no_desc = pkg_req("tar", "1.0");
    for req in [&by_name, &by_desc, &by_both, &by_none, &no_desc] {
        store.create_package(req, uid, NOW).unwrap();
    }
    let rows = store.search_packages(&"foo".to_string());
    let mut names: Vec<String> = rows.iter().map(|r| r.name.clone()).collect();
    names.sort();
    assert_eq!(
        names,
        vec!["foobar".to_string(), "food".to_string(), "wget".to_string()]
    );
    let ids: Vec<u64> = rows.iter().map(|r| r.id).collect();
    let mut dedup = ids.clone();
    dedup.sort();
    dedup.dedup();
    assert_eq!(ids.len(), dedup.len());
}

#[test]
fn name_filter_is_a_substring_match() {
    let (mut store, uid) = store_with_user("alice");
    for name in ["libcurl", "curlish", "wget"] {
        store.create_package(&pkg_req(name, "1.0"), uid, NOW).unwrap();
    }
    let q = PackageQuery {
        search: Some("curl".to_string()),
        tag: None,
        maintainer: None,
        limit: None,
        offset: None,
    };
    let rows = store.list_packages(&q);
    let mut names: Vec<String> = rows.iter().map(|r| r.name.clone()).collect();
    names.sort();
    assert_eq!(names, vec!["curlish".to_string(), "libcurl".to_string()]);
}

#[test]
fn tag_filter_keeps_only_tagged_packages() {
    let (mut store, uid) = store_with_user("alice");
    let mut tagged = pkg_req("curl", "1.0");
    tagged.tags.push("net".to_string());
    store.create_package(&tagged, uid, NOW).unwrap();
    store.create_package(&pkg_req("tar", "1.0"), uid, NOW).unwrap();
    let q = PackageQuery {
        search: None,
        tag: Some("net".to_string()),
        maintainer: None,
        limit: None,
        offset: None,
    };
    let rows = store.list_packages(&q);
    assert_eq!(rows.len(), 1);
    assert_eq!(rows[0].name, "curl");
}

#[test]
fn pagination_clamps_offset_and_limit() {
    let (mut store, uid) = store_with_user("alice");
    for name in ["a", "b", "c", "d"] {
        store.create_package(&pkg_req(name, "1.0"), uid, NOW).unwrap();
    }
    let all = PackageQuery {
        search: None,
        tag: None,
        maintainer: None,
        limit: None,
        offset: None,
    };
    assert_eq!(store.list_packages(&all).len(), 4);
    let page = PackageQuery { limit: Some(2), offset: Some(1), ..all_query() };
    let rows = store.list_packages(&page);
    assert_eq!(rows.len(), 2);
    assert_eq!(rows[0].name, "b");
    assert_eq!(rows[1].name, "c");
    let beyond = PackageQuery { limit: Some(2), offset: Some(10), ..all_query() };
    assert_eq!(store.list_packages(&beyond).len(), 0);
    let zero = PackageQuery { limit: Some(0), offset: None, ..all_query() };
    assert_eq!(store.list_packages(&zero).len(), 0);
    let tail = PackageQuery { limit: Some(10), offset: Some(3), ..all_query() };
    let rows = store.list_packages(&tail);
    assert_eq!(rows.len(), 1);
    assert_eq!(rows[0].name, "d");
}

fn all_query() -> PackageQuery {
    PackageQuery { search: None, tag: None, maintainer: None, limit: None, offset: None }
}

#[test]
fn authenticate_checks_the_stored_credential() {
    let mut store = Store::new();
    store
        .create_user(&user_req("bob", "bob@x.io", "pw"), "s1".to_string(), NOW)
        .expect("create");
    let auth = store
        .authenticate(&"bob".to_string(), &"pw".to_string(), "token-1".to_string())
        .expect("login");
    assert_eq!(auth.token, "token-1");
    assert_eq!(auth.user.username, "bob");
    assert_eq!(auth.user.email, "bob@x.io");
    assert_eq!(auth.user.role, "USER");
    let wrong = store.authenticate(&"bob".to_string(), &"wrong".to_string(), "token-2".to_string());
    assert_eq!(wrong.unwrap_err(), RegistryError::Unauthorized);
    let nobody =
        store.authenticate(&"eve".to_string(), &"pw".to_string(), "token-3".to_string());
    assert_eq!(nobody.unwrap_err(), RegistryError::Unauthorized);
}

#[test]
fn tokens_resolve_to_their_user_until_the_user_goes() {
    let mut store = Store::new();
    let created = store
        .create_user(&user_req("bob", "bob@x.io", "pw"), "s1".to_string(), NOW)
        .unwrap();
    store
        .authenticate(&"bob".to_string(), &"pw".to_string(), "tok".to_string())
        .unwrap();
    assert_eq!(store.user_id_for_token(&"tok".to_string()), Some(created.id));
    assert_eq!(store.user_id_for_token(&"other".to_string()), None);
    store.delete_user(created.id).unwrap();
    assert_eq!(store.user_id_for_token(&"tok".to_string()), None);
}

#[test]
fn token_collision_is_an_internal_failure() {
    let mut store = Store::new();
    store.create_user(&user_req("bob", "bob@x.io", "pw"), "s1".to_string(), NOW).unwrap();
    store
        .authenticate(&"bob".to_string(), &"pw".to_string(), "tok".to_string())
        .unwrap();
    let again = store.authenticate(&"bob".to_string(), &"pw".to_string(), "tok".to_string());
    assert_eq!(again.unwrap_err(), RegistryError::InternalError);
}

#[test]
fn register_creates_and_logs_in() {
    let mut store = Store::new();
    let auth = store
        .register(&user_req("bob", "bob@x.io", "pw"), "s1".to_string(), "tok".to_string(), NOW)
        .expect("register");
    assert_eq!(auth.token, "tok");
    assert_eq!(auth.user.username, "bob");
    assert_eq!(auth.user.role, "USER");
    assert_eq!(store.user_id_for_token(&"tok".to_string()), Some(auth.user.id));
    let dup = store.register(
        &user_req("bob", "other@x.io", "pw"),
        "s2".to_string(),
        "tok2".to_string(),
        NOW,
    );
    assert_eq!(dup.unwrap_err(), RegistryError::ConstraintViolation);
}

#[test]
fn user_uniqueness_covers_username_and_email() {
    let mut store = Store::new();
    store.create_user(&user_req("bob", "bob@x.io", "pw"), "s".to_string(), NOW).unwrap();
    let same_name = store.create_user(&user_req("bob", "b2@x.io", "pw"), "s".to_string(), NOW);
    assert_eq!(same_name.unwrap_err(), RegistryError::ConstraintViolation);
    let same_mail = store.create_user(&user_req("bib", "bob@x.io", "pw"), "s".to_string(), NOW);
    assert_eq!(same_mail.unwrap_err(), RegistryError::ConstraintViolation);
}

#[test]
fn validation_rejects_malformed_fields() {
    let mut store = Store::new();
    let empty_name = store.create_user(&user_req("", "a@x.io", "pw"), "s".to_string(), NOW);
    assert_eq!(empty_name.unwrap_err(), RegistryError::ValidationError);
    let empty_mail = store.create_user(&user_req("a", "", "pw"), "s".to_string(), NOW);
    assert_eq!(empty_mail.unwrap_err(), RegistryError::ValidationError);
    let (mut store, uid) = store_with_user("alice");
    let nameless = store.create_package(&pkg_req("", "1.0"), uid, NOW);
    assert_eq!(nameless.unwrap_err(), RegistryError::ValidationError);
    let mut negative = pkg_req("curl", "1.0");
    negative.size = -1;
    assert_eq!(
        store.create_package(&negative, uid, NOW).unwrap_err(),
        RegistryError::ValidationError
    );
    let mut empty_tag = pkg_req("curl", "1.0");
    empty_tag.tags.push(String::new());
    assert_eq!(
        store.create_package(&empty_tag, uid, NOW).unwrap_err(),
        RegistryError::ValidationError
    );
}

#[test]
fn missing_ids_report_not_found() {
    let mut store = Store::new();
    assert_eq!(store.get_package(99).unwrap_err(), RegistryError::NotFound);
    assert_eq!(store.get_user(99).unwrap_err(), RegistryError::NotFound);
    assert_eq!(store.delete_package(99).unwrap_err(), RegistryError::NotFound);
    assert_eq!(store.delete_user(99).unwrap_err(), RegistryError::NotFound);
    let unknown_author = store.create_package(&pkg_req("curl", "1.0"), 42, NOW);
    assert_eq!(unknown_author.unwrap_err(), RegistryError::NotFound);
    let upd = store.update_package(
        7,
        "curl".to_string(),
        "1.0".to_string(),
        None,
        "m".to_string(),
        "amd64".to_string(),
        1,
        NOW,
    );
    assert_eq!(upd.unwrap_err(), RegistryError::NotFound);
}

#[test]
fn update_package_replaces_fields_and_bumps_updated_at() {
    let (mut store, uid) = store_with_user("alice");
    let created = store.create_package(&pkg_req("curl", "1.0"), uid, NOW).unwrap();
    let updated = store
        .update_package(
            created.id,
            "curl".to_string(),
            "2.0".to_string(),
            Some("new".to_string()),
            "m2".to_string(),
            "arm64".to_string(),
            2048,
            NOW + 5,
        )
        .expect("update");
    assert_eq!(updated.version, "2.0");
    assert_eq!(updated.description.as_deref(), Some("new"));
    assert_eq!(updated.maintainer, "m2");
    assert_eq!(updated.architecture, "arm64");
    assert_eq!(updated.size, 2048);
    assert_eq!(updated.created_at, NOW);
    assert_eq!(updated.updated_at, NOW + 5);
    assert_eq!(updated.checksum, created.checksum);
    assert_eq!(updated.author, uid);
}

#[test]
fn update_package_respects_key_uniqueness() {
    let (mut store, uid) = store_with_user("alice");
    let a = store.create_package(&pkg_req("curl", "1.0"), uid, NOW).unwrap();
    store.create_package(&pkg_req("wget", "1.0"), uid, NOW).unwrap();
    let clash = store.update_package(
        a.id,
        "wget".to_string(),
        "1.0".to_string(),
        None,
        "m".to_string(),
        "amd64".to_string(),
        1,
        NOW,
    );
    assert_eq!(clash.unwrap_err(), RegistryError::ConstraintViolation);
    let keep_own_key = store.update_package(
        a.id,
        "curl".to_string(),
        "1.0".to_string(),
        Some("same key is fine".to_string()),
        "m".to_string(),
        "amd64".to_string(),
        1,
        NOW,
    );
    assert!(keep_own_key.is_ok());
}

#[test]
fn update_user_revalidates_uniqueness() {
    let mut store = Store::new();
    let a = store.create_user(&user_req("a", "a@x.io", "pw"), "s".to_string(), NOW).unwrap();
    store.create_user(&user_req("b", "b@x.io", "pw"), "s".to_string(), NOW).unwrap();
    let clash = store.update_user(a.id, &user_req("b", "a@x.io", "pw"), "s".to_string());
    assert_eq!(clash.unwrap_err(), RegistryError::ConstraintViolation);
    let renamed = store.update_user(a.id, &user_req("a2", "a@x.io", "pw2"), "s".to_string());
    assert_eq!(renamed.unwrap().username, "a2");
    let relisted = store.get_user(a.id).unwrap();
    assert_eq!(relisted.username, "a2");
}

#[test]
fn scenario_curl_package_lifecycle() {
    let mut store = Store::new();
    let author = store
        .create_user(&user_req("m", "m@x.io", "pw"), "s".to_string(), NOW)
        .unwrap();
    let mut req = pkg_req("curl", "7.88.0");
    req.tags.push("net".to_string());
    let created = store.create_package(&req, author.id, NOW).expect("create");
    let mine = store.list_packages_by_user(author.id);
    assert!(mine.iter().any(|p| p.id == created.id && p.name == "curl"));
    let nobody = store.list_packages_by_user(999);
    assert!(nobody.is_empty());
    store.delete_package(created.id).expect("delete");
    assert_eq!(store.get_package(created.id).unwrap_err(), RegistryError::NotFound);
}

#[test]
fn deleting_a_user_keeps_their_packages() {
    let (mut store, uid) = store_with_user("alice");
    let p = store.create_package(&pkg_req("curl", "1.0"), uid, NOW).unwrap();
    store.delete_user(uid).unwrap();
    let still = store.get_package(p.id).expect("package survives");
    assert_eq!(still.author, uid);
    assert_eq!(store.get_user(uid).unwrap_err(), RegistryError::NotFound);
}

#[test]
fn list_users_lists_everyone_in_order() {
    let mut store = Store::new();
    store.create_user(&user_req("a", "a@x.io", "pw"), "s".to_string(), NOW).unwrap();
    store.create_user(&user_req("b", "b@x.io", "pw"), "s".to_string(), NOW).unwrap();
    let users = store.list_users();
    let names: Vec<String> = users.iter().map(|u| u.username.clone()).collect();
    assert_eq!(names, vec!["a".to_string(), "b".to_string()]);
    assert!(users.iter().all(|u| u.role == "USER"));
}

#[test]
fn shared_tags_are_reused_not_duplicated() {
    let (mut store, uid) = store_with_user("alice");
    let mut r1 = pkg_req("curl", "1.0");
    r1.tags.push("net".to_string());
    r1.tags.push("cli".to_string());
    let mut r2 = pkg_req("wget", "1.0");
    r2.tags.push("net".to_string());
    let p1 = store.create_package(&r1, uid, NOW).unwrap();
    let p2 = store.create_package(&r2, uid, NOW).unwrap();
    assert_eq!(store.tags.len(), 2);
    assert_eq!(store.get_package(p1.id).unwrap().tags.len(), 2);
    assert_eq!(store.get_package(p2.id).unwrap().tags.len(), 1);
}

#[test]
fn duplicate_tag_names_in_one_request_link_once() {
    let (mut store, uid) = store_with_user("alice");
    let mut req = pkg_req("curl", "1.0");
    req.tags.push("net".to_string());
    req.tags.push("net".to_string());
    let p = store.create_package(&req, uid, NOW).unwrap();
    assert_eq!(store.tags.len(), 1);
    assert_eq!(store.get_package(p.id).unwrap().tags.len(), 1);
}

#[test]
fn login_payload_fields_drive_authentication() {
    let mut store = Store::new();
    store.create_user(&user_req("bob", "bob@x.io", "pw"), "s".to_string(), NOW).unwrap();
    let login = LoginRequest { username: "bob".to_string(), password: "pw".to_string() };
    let auth = store
        .authenticate(&login.username, &login.password, "tok".to_string())
        .expect("login");
    assert_eq!(auth.user.username, "bob");
}

#[test]
fn empty_query_matches_every_package() {
    let (mut store, uid) = store_with_user("alice");
    for name in ["curl", "wget"] {
        store.create_package(&pkg_req(name, "1.0"), uid, NOW).unwrap();
    }
    assert_eq!(store.search_packages(&String::new()).len(), 2);
}

#[test]
fn offset_without_limit_drops_a_prefix() {
    let (mut store, uid) = store_with_user("alice");
    for name in ["a", "b", "c"] {
        store.create_package(&pkg_req(name, "1.0"), uid, NOW).unwrap();
    }
    let q = PackageQuery {
        search: None,
        tag: None,
        maintainer: None,
        limit: None,
        offset: Some(2),
    };
    let rows = store.list_packages(&q);
    assert_eq!(rows.len(), 1);
    assert_eq!(rows[0].name, "c");
}

#[test]
fn error_messages_name_their_kind() {
    assert_eq!(RegistryError::ValidationError.message(), "validation error");
    assert_eq!(RegistryError::ConstraintViolation.message(), "constraint violation");
    assert_eq!(RegistryError::NotFound.message(), "not found");
    assert_eq!(RegistryError::Unauthorized.message(), "unauthorized");
    assert_eq!(RegistryError::InternalError.message(), "internal error");
}

#[test]
fn update_user_rejects_empty_fields() {
    let mut store = Store::new();
    let a = store.create_user(&user_req("a", "a@x.io", "pw"), "s".to_string(), NOW).unwrap();
    let bad = store.update_user(a.id, &user_req("", "a@x.io", "pw"), "s".to_string());
    assert_eq!(bad.unwrap_err(), RegistryError::ValidationError);
    let missing = store.update_user(99, &user_req("x", "x@x.io", "pw"), "s".to_string());
    assert_eq!(missing.unwrap_err(), RegistryError::NotFound);
}

#[test]
fn maintainer_set_is_stable_under_insertion_order() {
    let mut first = Store::new();
    let mut second = Store::new();
    let u1 = first.create_user(&user_req("r", "r@x.io", "pw"), "s".to_string(), NOW).unwrap();
    let u2 = second.create_user(&user_req("r", "r@x.io", "pw"), "s".to_string(), NOW).unwrap();
    let specs = [("a", "alice"), ("b", "bob"), ("c", "alice")];
    for (name, maintainer) in specs {
        let mut req = pkg_req(name, "1.0");
        req.maintainer = maintainer.to_string();
        first.create_package(&req, u1.id, NOW).unwrap();
    }
    for (name, maintainer) in specs.iter().rev() {
        let mut req = pkg_req(name, "1.0");
        req.maintainer = maintainer.to_string();
        second.create_package(&req, u2.id, NOW).unwrap();
    }
    let q = PackageQuery {
        search: None,
        tag: None,
        maintainer: Some("alice".to_string()),
        limit: None,
        offset: None,
    };
    let mut names1: Vec<String> = first.list_packages(&q).iter().map(|r| r.name.clone()).collect();
    let mut names2: Vec<String> =
        second.list_packages(&q).iter().map(|r| r.name.clone()).collect();
    names1.sort();
    names2.sort();
    assert_eq!(names1, names2);
    assert_eq!(names1, vec!["a".to_string(), "c".to_string()]);
}

#[test]
fn checksum_matches_the_digest_of_the_name() {
    let (mut store, uid) = store_with_user("alice");
    let p = store.create_package(&pkg_req("curl", "1.0"), uid, NOW).unwrap();
    assert_eq!(
        p.checksum,
        "427e4b79b1f0fc90306cbe064b1297b21dc6835bfa656d3bf46bc156e3f24bb0"
    );
}
