use openbmclapi::cli::default_config_file;
use openbmclapi::config::{bmclapi_default, dav_basepath_default};
use openbmclapi::path_basename;
use openbmclapi::utils::{join_path, starts_with};
use openbmclapi::{LocalStorageConfig, StorageType, WebdavStorageConfig};

#[test]
fn basename_of_paths() {
    assert_eq!(path_basename("/dav/files/ab/abc"), Some("abc".to_string()));
    assert_eq!(path_basename("/dav/files/ab/"), Some("ab".to_string()));
    assert_eq!(path_basename("abc"), Some("abc".to_string()));
    assert_eq!(path_basename("/"), None);
    assert_eq!(path_basename(""), None);
    assert_eq!(path_basename("a/.."), None);
    assert_eq!(path_basename("a/."), Some("a".to_string()));
    assert_eq!(path_basename("foo.txt/."), Some("foo.txt".to_string()));
    assert_eq!(path_basename("a/b/./"), Some("b".to_string()));
    assert_eq!(path_basename("./."), None);
    assert_eq!(path_basename("/."), None);
    assert_eq!(path_basename("."), None);
}

#[test]
fn join_puts_one_separator() {
    assert_eq!(join_path("/dav", "files"), "/dav/files");
    assert_eq!(join_path("/dav/", "/files"), "/dav/files");
    assert_eq!(join_path("/dav", "/files"), "/dav/files");
    assert_eq!(join_path("", "files"), "files");
}

#[test]
fn prefix_test() {
    assert!(starts_with("https://h", "https"));
    assert!(!starts_with("http://h", "https"));
    assert!(!starts_with("ht", "https"));
}

#[test]
fn defaults() {
    assert_eq!(dav_basepath_default(), "/dav");
    assert_eq!(bmclapi_default(), "https://openbmclapi.bangbang93.com");
    assert_eq!(default_config_file(), "config.toml");
}

#[test]
fn storage_type_names() {
    let local = StorageType::Local(LocalStorageConfig { cache_dir: "c".to_string() });
    assert_eq!(local.name(), "local");
    let dav = StorageType::Webdav(WebdavStorageConfig {
        endpoint: "https://h".to_string(),
        dav_basepath: "/dav".to_string(),
        download_basepath: "d".to_string(),
        measure_basepath: None,
        username: "u".to_string(),
        password: "p".to_string(),
    });
    assert_eq!(dav.name(), "webdav");
}
