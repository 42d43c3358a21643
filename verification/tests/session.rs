use cpkgs::errors::RegistryError;
use cpkgs::facade::bearer_token;
use cpkgs::session::{package_file_name, Config};

#[test]
fn default_session_points_at_the_local_registry() {
    let c = Config::new_with_home("/home/bob");
    assert_eq!(c.registry_url, "http://localhost:3000");
    assert!(c.auth_token.is_none());
    assert_eq!(c.cache_dir, "/home/bob/.cpkgs/cache");
    assert_eq!(c.install_dir, "/home/bob/.cpkgs/packages");
}

#[test]
fn tokens_are_set_and_cleared() {
    let mut c = Config::new_with_home("/home/bob");
    assert_eq!(c.require_token().unwrap_err(), RegistryError::Unauthorized);
    c.set_auth_token("tok".to_string());
    assert_eq!(c.require_token().unwrap(), "tok");
    assert_eq!(c.auth_token.as_deref(), Some("tok"));
    c.clear_auth_token();
    assert!(c.auth_token.is_none());
    assert_eq!(c.require_token().unwrap_err(), RegistryError::Unauthorized);
}

#[test]
fn bearer_header_carries_the_token_or_nothing() {
    let mut c = Config::new_with_home("/h");
    assert_eq!(c.bearer_header(), "Bearer ");
    c.set_auth_token("tok".to_string());
    assert_eq!(c.bearer_header(), "Bearer tok");
}

#[test]
fn request_urls_follow_the_api_layout() {
    let c = Config::new_with_home("/h");
    assert_eq!(c.packages_url(), "http://localhost:3000/api/packages");
    assert_eq!(c.package_url("7"), "http://localhost:3000/api/packages/7");
    assert_eq!(c.download_url("7"), "http://localhost:3000/api/packages/7/download");
    assert_eq!(c.search_url("curl"), "http://localhost:3000/api/packages/search/curl");
    assert_eq!(c.auth_url("login"), "http://localhost:3000/api/auth/login");
    assert_eq!(c.auth_url("register"), "http://localhost:3000/api/auth/register");
    assert_eq!(c.users_url(), "http://localhost:3000/api/users");
}

#[test]
fn install_file_names_join_name_and_version() {
    assert_eq!(package_file_name("curl", "7.88.0"), "curl-7.88.0.deb");
}

#[test]
fn bearer_tokens_are_parsed_from_the_header() {
    assert_eq!(bearer_token("Bearer abc"), Some("abc".to_string()));
    assert_eq!(bearer_token("Bearer "), Some(String::new()));
    assert_eq!(bearer_token("bearer abc"), None);
    assert_eq!(bearer_token("Basic abc"), None);
    assert_eq!(bearer_token(""), None);
    assert_eq!(bearer_token("Bear"), None);
    assert_eq!(bearer_token("Bearer a b c"), Some("a b c".to_string()));
}
