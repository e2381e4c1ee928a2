use hypr_commons::singleton::{flock_outcome, lock_path, Error as LockError, LockOutcome};
use hypr_commons::xdg_paths::{
    cache_dir, cache_home_from_os_vars, join, BaseDirs, ConfigDirs, Error,
};

fn os(value: Option<&str>) -> Option<Vec<u8>> {
    value.map(|s| s.as_bytes().to_vec())
}

fn dirs(
    home: Option<&str>,
    config: Option<&str>,
    data: Option<&str>,
    runtime: Option<&str>,
) -> Result<BaseDirs, Error> {
    BaseDirs::from_os_vars(os(home), os(config), os(data), os(runtime))
}

#[test]
fn uses_xdg_when_absolute() {
    let got = dirs(
        Some("/home/mason"),
        Some("/custom/config"),
        Some("/custom/data"),
        Some("/run/user/1000"),
    )
    .unwrap();
    assert_eq!(got.config_home(), b"/custom/config");
    assert_eq!(got.data_home(), b"/custom/data");
    assert_eq!(got.runtime_dir(), b"/run/user/1000");
    assert_eq!(got.config_dir("hyprstate"), b"/custom/config/hyprstate");
    assert_eq!(
        got.runtime_path("hyprstate-telemetry.sock"),
        b"/run/user/1000/hyprstate-telemetry.sock"
    );
}

#[test]
fn falls_back_config_and_data_to_home() {
    let got = dirs(Some("/home/mason"), None, None, Some("/run/user/1000")).unwrap();
    assert_eq!(got.config_home(), b"/home/mason/.config");
    assert_eq!(got.data_home(), b"/home/mason/.local/share");
    assert_eq!(got.data_dir("lmtt"), b"/home/mason/.local/share/lmtt");
}

#[test]
fn missing_runtime_is_an_error() {
    assert_eq!(
        dirs(Some("/home/mason"), None, None, None).unwrap_err(),
        Error::MissingRuntimeDir
    );
    assert_eq!(
        dirs(Some("/home/mason"), None, None, Some("")).unwrap_err(),
        Error::MissingRuntimeDir
    );
}

#[test]
fn does_not_synthesize_run_user() {
    let err = dirs(Some("/home/mason"), None, None, None).unwrap_err();
    assert_eq!(err, Error::MissingRuntimeDir);
    assert!(!err.to_string().contains("/run/user/"));
}

#[test]
fn rejects_relative_xdg() {
    assert!(matches!(
        dirs(
            Some("/home/mason"),
            Some("relative"),
            None,
            Some("/run/user/1")
        ),
        Err(Error::Relative {
            var: "XDG_CONFIG_HOME",
            ..
        })
    ));
    assert!(matches!(
        dirs(Some("/home/mason"), None, None, Some("run/user/1")),
        Err(Error::Relative {
            var: "XDG_RUNTIME_DIR",
            ..
        })
    ));
    assert!(matches!(
        dirs(
            Some("/home/mason"),
            Some("~/.config"),
            None,
            Some("/run/user/1")
        ),
        Err(Error::Relative {
            var: "XDG_CONFIG_HOME",
            ..
        })
    ));
}

#[test]
fn rejects_tilde_home() {
    assert_eq!(
        dirs(Some("~"), None, None, Some("/run/user/1")).unwrap_err(),
        Error::MissingHome
    );
}

#[test]
fn missing_home_without_xdg_overrides_fails() {
    assert_eq!(
        dirs(None, None, None, Some("/run/user/1")).unwrap_err(),
        Error::MissingHome
    );
}

#[test]
fn missing_home_is_ok_when_xdg_config_and_data_are_set() {
    let got = dirs(
        None,
        Some("/etc/xdg-override"),
        Some("/var/lib/data"),
        Some("/run/user/1"),
    )
    .unwrap();
    assert_eq!(got.config_home(), b"/etc/xdg-override");
    assert_eq!(got.data_home(), b"/var/lib/data");
}

#[test]
fn config_dirs_do_not_require_runtime() {
    let got = ConfigDirs::from_os_vars(os(Some("/home/mason")), None, None).unwrap();
    assert_eq!(got.config_home(), b"/home/mason/.config");
    assert_eq!(
        got.config_dir("logind-idle-control"),
        b"/home/mason/.config/logind-idle-control"
    );
}

#[test]
fn cache_uses_xdg_when_absolute() {
    let got = cache_home_from_os_vars(os(Some("/home/mason")), os(Some("/custom/cache"))).unwrap();
    assert_eq!(got, b"/custom/cache");
}

#[test]
fn cache_falls_back_to_home() {
    let got = cache_home_from_os_vars(os(Some("/home/mason")), None).unwrap();
    assert_eq!(got, b"/home/mason/.cache");
}

#[test]
fn rejects_relative_cache() {
    assert!(matches!(
        cache_home_from_os_vars(os(Some("/home/mason")), os(Some("relative"))),
        Err(Error::Relative {
            var: "XDG_CACHE_HOME",
            ..
        })
    ));
}

#[test]
fn empty_xdg_config_is_an_error() {
    assert_eq!(
        dirs(Some("/home/mason"), Some(""), None, Some("/run/user/1")).unwrap_err(),
        Error::Empty {
            var: "XDG_CONFIG_HOME"
        }
    );
}

#[test]
fn join_follows_unix_path_rules() {
    assert_eq!(join(b"/a", b"b"), b"/a/b");
    assert_eq!(join(b"/a/", b"b"), b"/a/b");
    assert_eq!(join(b"/a", b"/etc"), b"/etc");
    assert_eq!(join(b"/a", b""), b"/a/");
    assert_eq!(join(b"", b"b"), b"b");
    for (base, rel) in [("/a", "b"), ("/a/", "b"), ("/a", "/etc"), ("/a", ""), ("", "b")] {
        let std_joined = std::path::Path::new(base).join(rel);
        assert_eq!(join(base.as_bytes(), rel.as_bytes()), std_joined.to_str().unwrap().as_bytes());
    }
}

#[test]
fn errors_say_what_was_wrong() {
    assert_eq!(
        Error::MissingHome.to_string(),
        "HOME is unset or empty and an XDG fallback requires it"
    );
    assert_eq!(
        Error::MissingRuntimeDir.to_string(),
        "XDG_RUNTIME_DIR is unset or empty"
    );
    assert_eq!(
        Error::Empty { var: "XDG_DATA_HOME" }.to_string(),
        "XDG_DATA_HOME is set but empty"
    );
    assert_eq!(
        Error::Relative { var: "XDG_CONFIG_HOME", value: b"rel\xffx".to_vec() }.to_string(),
        "XDG_CONFIG_HOME must be an absolute path, got rel\u{fffd}x"
    );
}

#[test]
fn a_set_xdg_value_is_used_verbatim_and_empty_home_fails() {
    assert_eq!(
        dirs(Some(""), None, None, Some("/run/user/1")).unwrap_err(),
        Error::MissingHome
    );
    let got = dirs(Some("/h"), Some("/c"), None, Some("/r")).unwrap();
    assert_eq!(got.config_home(), b"/c");
    assert_eq!(got.data_home(), b"/h/.local/share");
    assert_eq!(
        cache_dir(os(Some("/home/mason")), None, "app").unwrap(),
        b"/home/mason/.cache/app"
    );
    assert_eq!(
        cache_dir(os(Some("rel")), None, "app").unwrap_err(),
        Error::MissingHome
    );
}

#[test]
fn the_lock_file_lives_in_the_runtime_dir() {
    let got = dirs(Some("/home/mason"), None, None, Some("/run/user/1000")).unwrap();
    assert_eq!(lock_path(&got, "vigil"), b"/run/user/1000/vigil.lock");
    assert_eq!(flock_outcome(0, false), LockOutcome::Owned);
    assert_eq!(flock_outcome(-1, true), LockOutcome::Busy);
    assert_eq!(flock_outcome(-1, false), LockOutcome::Failed);
}

#[test]
fn a_lock_error_names_its_cause() {
    assert_eq!(
        LockError::RuntimeDir(Error::MissingRuntimeDir).to_string(),
        "singleton lock: XDG_RUNTIME_DIR is unset or empty"
    );
    let io = std::io::Error::new(std::io::ErrorKind::PermissionDenied, "denied");
    assert_eq!(
        LockError::Io(b"/run/user/1/vigil.lock".to_vec(), io).to_string(),
        "singleton lock /run/user/1/vigil.lock: denied"
    );
}

#[test]
fn home_is_needed_only_by_a_fallback() {
    for home in [Some(""), Some("relative"), Some("~"), None] {
        let got = dirs(home, Some("/etc/xdg-override"), Some("/var/lib/data"), Some("/run/user/1")).unwrap();
        assert_eq!(got.config_home(), b"/etc/xdg-override");
        assert_eq!(got.data_home(), b"/var/lib/data");
        assert_eq!(cache_home_from_os_vars(os(home), os(Some("/c"))).unwrap(), b"/c");
        assert_eq!(
            dirs(home, Some("/etc/xdg-override"), None, Some("/run/user/1")).unwrap_err(),
            Error::MissingHome
        );
    }
}
