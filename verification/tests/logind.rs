use hypr_commons::logind::{
    resolve_step, Answer, Resolve,
    is_candidate, is_graphical_type, reject_manager_path, require_graphical, score_session,
    select_session, session_from_env_lookup, session_from_path, session_id_from_os_var, Error,
    SessionCandidate, SessionProperties, MANAGER_PATH,
};

fn candidate(id: &str, uid: u32, path: &str, props: Option<(&str, &str, &str)>) -> SessionCandidate {
    SessionCandidate {
        id: id.to_string(),
        uid,
        path: path.to_string(),
        properties: props.map(|(class, session_type, state)| SessionProperties {
            class: class.to_string(),
            session_type: session_type.to_string(),
            state: state.to_string(),
        }),
    }
}

#[test]
fn empty_xdg_session_id_is_an_error() {
    assert!(matches!(
        session_id_from_os_var(None),
        Err(Error::MissingSessionId)
    ));
    assert!(matches!(
        session_id_from_os_var(Some(String::from(""))),
        Err(Error::EmptySessionId)
    ));
}

#[test]
fn reads_xdg_session_id() {
    assert_eq!(
        session_id_from_os_var(Some(String::from("c2"))).unwrap(),
        "c2"
    );
}

#[test]
fn manager_path_is_rejected() {
    let path = MANAGER_PATH;
    assert!(matches!(
        reject_manager_path(path),
        Err(Error::ManagerPath)
    ));
    assert!(path == "/org/freedesktop/login1");
}

#[test]
fn session_path_is_accepted() {
    let path = "/org/freedesktop/login1/session/_32";
    assert!(reject_manager_path(path).is_ok());
}

#[test]
fn scores_active_graphical_user_highest() {
    assert_eq!(score_session("user", "wayland", "active"), 7);
    assert_eq!(score_session("user", "x11", "online"), 4);
    assert_eq!(score_session("user", "tty", "active"), 5);
    assert_eq!(score_session("manager", "unspecified", "closing"), 0);
}

#[test]
fn graphical_types_include_mir() {
    assert!(is_graphical_type("wayland"));
    assert!(is_graphical_type("x11"));
    assert!(is_graphical_type("mir"));
    assert!(!is_graphical_type("tty"));
}

#[test]
fn the_first_highest_scoring_own_session_wins() {
    let sessions = vec![
        candidate("c1", 1000, "/org/freedesktop/login1/session/c1", Some(("user", "tty", "online"))),
        candidate("c2", 1000, "/org/freedesktop/login1/session/c2", Some(("user", "wayland", "active"))),
        candidate("c3", 1000, "/org/freedesktop/login1/session/c3", Some(("user", "x11", "active"))),
        candidate("c4", 0, "/org/freedesktop/login1/session/c4", Some(("user", "wayland", "active"))),
    ];
    let s = select_session(1000, sessions).unwrap();
    assert_eq!(s.id(), "c2");
    assert_eq!(s.path(), "/org/freedesktop/login1/session/c2");
}

#[test]
fn foreign_unreadable_and_manager_sessions_never_win() {
    let sessions = vec![
        candidate("c1", 0, "/org/freedesktop/login1/session/c1", Some(("user", "wayland", "active"))),
        candidate("m", 1000, MANAGER_PATH, Some(("user", "wayland", "active"))),
        candidate("c3", 1000, "/org/freedesktop/login1/session/c3", None),
    ];
    assert!(matches!(select_session(1000, sessions), Err(Error::NoSession)));
    let low = vec![candidate("c9", 1000, "/s/c9", Some(("manager", "unspecified", "closing")))];
    assert_eq!(select_session(1000, low).unwrap().id(), "c9");
    assert!(is_candidate(5, 5, "/s/x"));
    assert!(!is_candidate(5, 6, "/s/x"));
    assert!(!is_candidate(5, 5, MANAGER_PATH));
}

#[test]
fn resolution_steps_fail_closed_on_the_manager_path() {
    assert!(matches!(
        session_from_env_lookup("c2".to_string(), MANAGER_PATH.to_string()),
        Err(Error::ManagerPath)
    ));
    let s = session_from_env_lookup("c2".to_string(), "/s/c2".to_string()).unwrap();
    assert_eq!((s.id(), s.path()), ("c2", "/s/c2"));
    assert!(matches!(
        session_from_path(MANAGER_PATH.to_string(), "c2".to_string()),
        Err(Error::ManagerPath)
    ));
    assert!(matches!(
        session_from_path("/s/c2".to_string(), String::new()),
        Err(Error::EmptySessionId)
    ));
    assert_eq!(
        session_from_path("/s/c2".to_string(), "c2".to_string()).unwrap().id(),
        "c2"
    );
}

#[test]
fn a_non_graphical_session_is_refused_by_name() {
    assert!(require_graphical("wayland".to_string()).is_ok());
    match require_graphical("tty".to_string()) {
        Err(e @ Error::NotGraphical { .. }) => {
            assert_eq!(e.to_string(), "not a graphical session (type: tty)")
        }
        other => panic!("unexpected {other:?}"),
    }
    assert_eq!(
        Error::ManagerPath.to_string(),
        "refusing to treat /org/freedesktop/login1 as a session object path"
    );
    assert_eq!(Error::MissingSessionId.to_string(), "XDG_SESSION_ID is unset");
}

#[test]
fn a_dbus_error_shows_zbus_s_message_and_a_session_clones_whole() {
    let e = Error::from(zbus::Error::Failure("no such object".to_string()));
    assert_eq!(e.to_string(), "no such object");
    let s = session_from_path("/s/c2".to_string(), "c2".to_string()).unwrap();
    let c = s.clone();
    assert_eq!(c, s);
    assert_eq!(c.path(), "/s/c2");
}

fn done(state: Resolve) -> Result<hypr_commons::logind::SessionRef, Error> {
    match state {
        Resolve::Done(r) => r,
        _ => panic!("resolution should be over"),
    }
}

#[test]
fn resolution_tries_pid_then_session_id_then_the_list() {
    // The pid's own session wins.
    let s = resolve_step(Resolve::ByPid, Answer::PidPath(Some("/s/c2".to_string())));
    assert!(matches!(&s, Resolve::ReadId { path } if path == "/s/c2"));
    let s = done(resolve_step(s, Answer::Id(Ok("c2".to_string())))).unwrap();
    assert_eq!((s.id(), s.path()), ("c2", "/s/c2"));

    // A failed or manager answer moves on to XDG_SESSION_ID.
    assert!(matches!(resolve_step(Resolve::ByPid, Answer::PidPath(None)), Resolve::ReadEnv));
    let s = resolve_step(Resolve::ByPid, Answer::PidPath(Some(MANAGER_PATH.to_string())));
    assert!(matches!(s, Resolve::ReadEnv));
    let s = resolve_step(s, Answer::EnvVar(Some("c7".to_string())));
    assert!(matches!(&s, Resolve::ById { id } if id == "c7"));
    let got = done(resolve_step(s, Answer::IdPath(Some("/s/c7".to_string())))).unwrap();
    assert_eq!(got.id(), "c7");
    let refused = resolve_step(
        Resolve::ById { id: "c7".to_string() },
        Answer::IdPath(Some(MANAGER_PATH.to_string())),
    );
    assert!(matches!(done(refused), Err(Error::ManagerPath)));

    // Unset, empty, or a failed lookup lists the sessions.
    assert!(matches!(resolve_step(Resolve::ReadEnv, Answer::EnvVar(None)), Resolve::List));
    assert!(matches!(resolve_step(Resolve::ReadEnv, Answer::EnvVar(Some(String::new()))), Resolve::List));
    assert!(matches!(
        resolve_step(Resolve::ById { id: "c7".to_string() }, Answer::IdPath(None)),
        Resolve::List
    ));
    let listed = vec![candidate("c9", 1000, "/s/c9", Some(("user", "wayland", "active")))];
    let got = done(resolve_step(Resolve::List, Answer::Listed(1000, Ok(listed)))).unwrap();
    assert_eq!(got.id(), "c9");
    assert!(matches!(
        done(resolve_step(Resolve::List, Answer::Listed(1000, Ok(Vec::new())))),
        Err(Error::NoSession)
    ));

    // An empty id read from the pid's session is refused; a mismatched
    // answer changes nothing.
    let s = resolve_step(Resolve::ReadId { path: "/s/c2".to_string() }, Answer::Id(Ok(String::new())));
    assert!(matches!(done(s), Err(Error::EmptySessionId)));
    assert!(matches!(resolve_step(Resolve::ByPid, Answer::EnvVar(None)), Resolve::ByPid));
}
