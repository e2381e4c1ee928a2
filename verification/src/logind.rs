//! Fail-closed systemd-logind session resolution.
//!
//! Session resolution order:
//! 1. `GetSessionByPID` (pid `0` = calling process)
//! 2. `GetSession($XDG_SESSION_ID)` when that variable is set and non-empty
//! 3. `ListSessions` scored for the calling uid
//!
//! The manager object path `/org/freedesktop/login1` is never a session
//! path. The D-Bus calls are made by the caller; the order of the steps
//! ([`resolve_step`]) and every decision taken on their answers are made
//! here.

use vstd::prelude::*;
use zbus::Error as DbusError;

use crate::text::{push_str, str_eq};

verus! {

/// `zbus::Error`, carried through as the cause of a failed D-Bus call.
#[verifier::external_type_specification]
#[verifier::external_body]
pub struct ExDbusError(DbusError);

/// logind Manager object path. Never a session.
pub const MANAGER_PATH: &'static str = "/org/freedesktop/login1";

/// Why a session or inhibitor could not be resolved.
#[derive(Debug)]
pub enum Error {
    Dbus(DbusError),
    MissingSessionId,
    EmptySessionId,
    ManagerPath,
    NoSession,
    NotGraphical { session_type: String },
}

impl From<DbusError> for Error {
    fn from(value: DbusError) -> (e: Error)
        ensures
            e == Error::Dbus(value),
    {
        Error::Dbus(value)
    }
}

impl vstd::std_specs::convert::FromSpecImpl<DbusError> for Error {
    open spec fn obeys_from_spec() -> bool {
        true
    }

    open spec fn from_spec(v: DbusError) -> Error {
        Error::Dbus(v)
    }
}

/// `zbus::Error`'s `Display` text. What the text says of the error is left
/// to zbus: nothing is stated of it.
#[verifier::external_body]
fn dbus_message(e: &DbusError) -> String {
    e.to_string()
}

impl Error {
    /// The message `Display` shows for this error.
    pub fn to_string(&self) -> (s: String)
        ensures
            match self {
                Error::Dbus(_) => true,
                Error::MissingSessionId => s@ == "XDG_SESSION_ID is unset"@,
                Error::EmptySessionId => s@ == "XDG_SESSION_ID is set but empty"@,
                Error::ManagerPath => s@ == "refusing to treat "@ + MANAGER_PATH@
                    + " as a session object path"@,
                Error::NoSession => s@ == "no logind session could be resolved"@,
                Error::NotGraphical { session_type } => s@ == "not a graphical session (type: "@
                    + session_type@ + ")"@,
            },
    {
        let mut s = String::new();
        match self {
            Error::Dbus(e) => {
                return dbus_message(e);
            },
            Error::MissingSessionId => push_str(&mut s, "XDG_SESSION_ID is unset"),
            Error::EmptySessionId => push_str(&mut s, "XDG_SESSION_ID is set but empty"),
            Error::ManagerPath => {
                push_str(&mut s, "refusing to treat ");
                push_str(&mut s, MANAGER_PATH);
                push_str(&mut s, " as a session object path");
            },
            Error::NoSession => push_str(&mut s, "no logind session could be resolved"),
            Error::NotGraphical { session_type } => {
                push_str(&mut s, "not a graphical session (type: ");
                push_str(&mut s, session_type.as_str());
                push_str(&mut s, ")");
            },
        }
        s
    }
}

/// A resolved logind session. `path` is never the manager object.
#[derive(Debug, PartialEq, Eq)]
pub struct SessionRef {
    id: String,
    path: String,
}

impl SessionRef {
    /// A resolved session is never the manager object.
    #[verifier::type_invariant]
    spec fn not_the_manager(self) -> bool {
        self.path@ != MANAGER_PATH@
    }

    pub closed spec fn spec_id(self) -> Seq<char> {
        self.id@
    }

    pub closed spec fn spec_path(self) -> Seq<char> {
        self.path@
    }

    pub fn id(&self) -> (r: &str)
        ensures
            r@ == self.spec_id(),
    {
        self.id.as_str()
    }

    /// The session's object path, which is never [`MANAGER_PATH`].
    pub fn path(&self) -> (r: &str)
        ensures
            r@ == self.spec_path(),
            r@ != MANAGER_PATH@,
    {
        proof {
            use_type_invariant(self);
        }
        self.path.as_str()
    }
}


impl Clone for SessionRef {
    fn clone(&self) -> (r: SessionRef)
        ensures
            r == *self,
    {
        proof {
            use_type_invariant(self);
        }
        SessionRef { id: self.id.clone(), path: self.path.clone() }
    }
}

/// `XDG_SESSION_ID` from an explicit value. Unset and empty are errors.
pub fn session_id_from_os_var(value: Option<String>) -> (r: Result<String, Error>)
    ensures
        match value {
            None => r matches Err(Error::MissingSessionId),
            Some(v) => if v@.len() == 0 {
                r matches Err(Error::EmptySessionId)
            } else {
                r matches Ok(id) && id@ == v@
            },
        },
{
    match value {
        None => Err(Error::MissingSessionId),
        Some(v) => {
            if v.as_str().is_empty() {
                Err(Error::EmptySessionId)
            } else {
                Ok(v)
            }
        },
    }
}

pub open spec fn spec_is_graphical_type(session_type: Seq<char>) -> bool {
    session_type == "wayland"@ || session_type == "x11"@ || session_type == "mir"@
}

/// `wayland`, `x11` and `mir` are graphical session types.
pub fn is_graphical_type(session_type: &str) -> (b: bool)
    ensures
        b == spec_is_graphical_type(session_type@),
{
    str_eq(session_type, "wayland") || str_eq(session_type, "x11") || str_eq(session_type, "mir")
}

/// The score of a `ListSessions` candidate. Higher wins.
pub open spec fn spec_score_session(class: Seq<char>, session_type: Seq<char>, state: Seq<char>) -> int {
    (if class == "user"@ {
        1int
    } else {
        0int
    }) + (if spec_is_graphical_type(session_type) {
        2int
    } else {
        0int
    }) + (if state == "active"@ {
        4int
    } else if state == "online"@ {
        1int
    } else {
        0int
    })
}

/// Score a `ListSessions` candidate. Higher wins.
///
/// class=user +1, graphical type +2, active +4 / online +1.
pub fn score_session(class: &str, session_type: &str, state: &str) -> (score: i32)
    ensures
        score == spec_score_session(class@, session_type@, state@),
        0 <= score <= 7,
{
    let mut score: i32 = 0;
    if str_eq(class, "user") {
        score += 1;
    }
    if is_graphical_type(session_type) {
        score += 2;
    }
    if str_eq(state, "active") {
        score += 4;
    } else if str_eq(state, "online") {
        score += 1;
    }
    score
}

/// How the score is made up, as relations between sessions that differ in
/// one property: a `user` class adds exactly 1, a graphical type exactly 2;
/// `active` outscores `online` by 3, and `online` outscores every other
/// state by 1; a session with none of these scores 0. Together these fix
/// every score.
pub proof fn lemma_score_parts(class: Seq<char>, session_type: Seq<char>, state: Seq<char>)
    ensures
        class != "user"@ ==> spec_score_session("user"@, session_type, state) == spec_score_session(
            class,
            session_type,
            state,
        ) + 1,
        !spec_is_graphical_type(session_type) ==> spec_score_session(class, "wayland"@, state)
            == spec_score_session(class, session_type, state) + 2,
        spec_score_session(class, session_type, "active"@) == spec_score_session(
            class,
            session_type,
            "online"@,
        ) + 3,
        state != "active"@ && state != "online"@ ==> spec_score_session(
            class,
            session_type,
            "online"@,
        ) == spec_score_session(class, session_type, state) + 1,
        class != "user"@ && !spec_is_graphical_type(session_type) && state != "active"@ && state
            != "online"@ ==> spec_score_session(class, session_type, state) == 0,
        spec_is_graphical_type("wayland"@) && spec_is_graphical_type("x11"@)
            && spec_is_graphical_type("mir"@),
{
    reveal_strlit("active");
    reveal_strlit("online");
    reveal_strlit("user");
    reveal_strlit("wayland");
    reveal_strlit("x11");
    reveal_strlit("mir");
    assert("active"@[0] != "online"@[0]);
    assert("active"@ != "online"@);
}

/// Refuse the manager object path as a session path.
pub fn reject_manager_path(path: &str) -> (r: Result<(), Error>)
    ensures
        path@ == MANAGER_PATH@ ==> r matches Err(Error::ManagerPath),
        path@ != MANAGER_PATH@ ==> r is Ok,
{
    if str_eq(path, MANAGER_PATH) {
        Err(Error::ManagerPath)
    } else {
        Ok(())
    }
}

/// The path `GetSessionByPID` answered is used only if it is not the
/// manager object; otherwise resolution moves on to the next step.
pub fn accept_pid_session(path: &str) -> (use_it: bool)
    ensures
        use_it == (path@ != MANAGER_PATH@),
{
    reject_manager_path(path).is_ok()
}

/// What [`session_from_path`] answers for the session at `path` whose `Id`
/// read `id`: the manager path is refused, then an empty id.
pub open spec fn from_path_result(path: Seq<char>, id: Seq<char>, r: Result<SessionRef, Error>) -> bool {
    &&& (path == MANAGER_PATH@ ==> (r matches Err(Error::ManagerPath)))
    &&& (path != MANAGER_PATH@ && id.len() == 0 ==> (r matches Err(Error::EmptySessionId)))
    &&& (path != MANAGER_PATH@ && id.len() > 0 ==> (r matches Ok(s) && s.spec_id() == id
        && s.spec_path() == path))
}

/// What [`session_from_env_lookup`] answers for the id `id` that
/// `GetSession` resolved to `path`: the manager path is refused.
pub open spec fn env_lookup_result(id: Seq<char>, path: Seq<char>, r: Result<SessionRef, Error>) -> bool {
    &&& (path == MANAGER_PATH@ ==> (r matches Err(Error::ManagerPath)))
    &&& (path != MANAGER_PATH@ ==> (r matches Ok(s) && s.spec_id() == id && s.spec_path() == path))
}

/// The session at `path`, whose `Id` property read `id`: the manager path is
/// refused, and so is an empty id.
pub fn session_from_path(path: String, id: String) -> (r: Result<SessionRef, Error>)
    ensures
        from_path_result(path@, id@, r),
{
    if reject_manager_path(path.as_str()).is_err() {
        return Err(Error::ManagerPath);
    }
    if id.as_str().is_empty() {
        return Err(Error::EmptySessionId);
    }
    Ok(SessionRef { id, path })
}

/// The session `GetSession($XDG_SESSION_ID)` answered: fail closed if logind
/// answered with the manager object.
pub fn session_from_env_lookup(id: String, path: String) -> (r: Result<SessionRef, Error>)
    ensures
        env_lookup_result(id@, path@, r),
{
    if reject_manager_path(path.as_str()).is_err() {
        return Err(Error::ManagerPath);
    }
    Ok(SessionRef { id, path })
}

/// A graphical session is required: any other type is refused, naming it.
pub fn require_graphical(session_type: String) -> (r: Result<(), Error>)
    ensures
        spec_is_graphical_type(session_type@) ==> r is Ok,
        !spec_is_graphical_type(session_type@) ==> (r matches Err(
            Error::NotGraphical { session_type: t },
        ) && t@ == session_type@),
{
    if is_graphical_type(session_type.as_str()) {
        Ok(())
    } else {
        Err(Error::NotGraphical { session_type })
    }
}

/// The properties of a listed session that scoring reads.
pub struct SessionProperties {
    pub class: String,
    pub session_type: String,
    pub state: String,
}

/// One `ListSessions` entry: its id, uid and path, and its properties if
/// they could be read.
pub struct SessionCandidate {
    pub id: String,
    pub uid: u32,
    pub path: String,
    pub properties: Option<SessionProperties>,
}

/// A listed session worth reading the properties of: the caller's own, and
/// not the manager object.
pub open spec fn spec_is_candidate(uid: u32, session_uid: u32, path: Seq<char>) -> bool {
    session_uid == uid && path != MANAGER_PATH@
}

pub fn is_candidate(uid: u32, session_uid: u32, path: &str) -> (b: bool)
    ensures
        b == spec_is_candidate(uid, session_uid, path@),
{
    session_uid == uid && reject_manager_path(path).is_ok()
}

/// A candidate that competes: the caller's own, not the manager object, and
/// with its properties read.
pub open spec fn eligible(uid: u32, c: SessionCandidate) -> bool {
    spec_is_candidate(uid, c.uid, c.path@) && c.properties is Some
}

pub open spec fn candidate_score(c: SessionCandidate) -> int {
    match c.properties {
        Some(p) => spec_score_session(p.class@, p.session_type@, p.state@),
        None => 0,
    }
}

/// The winner among `cs`: the first eligible candidate of highest score.
pub open spec fn best_index(uid: u32, cs: Seq<SessionCandidate>) -> Option<int>
    decreases cs.len(),
{
    if cs.len() == 0 {
        None
    } else {
        let prev = best_index(uid, cs.drop_last());
        let last = cs.len() - 1;
        if eligible(uid, cs[last]) && (prev is None || candidate_score(cs[last]) > candidate_score(
            cs[prev->0],
        )) {
            Some(last)
        } else {
            prev
        }
    }
}

/// The winner is eligible, scores at least as high as every eligible
/// candidate, and strictly higher than every eligible one before it; there
/// is none exactly when no candidate is eligible.
pub proof fn lemma_best_is_first_highest(uid: u32, cs: Seq<SessionCandidate>)
    ensures
        best_index(uid, cs) matches Some(b) ==> {
            &&& 0 <= b < cs.len()
            &&& eligible(uid, cs[b])
            &&& forall|j: int|
                0 <= j < cs.len() && eligible(uid, cs[j]) ==> candidate_score(cs[j]) <= candidate_score(
                    cs[b],
                )
            &&& forall|j: int|
                0 <= j < b && eligible(uid, cs[j]) ==> candidate_score(cs[j]) < candidate_score(cs[b])
        },
        best_index(uid, cs) is None ==> forall|j: int| 0 <= j < cs.len() ==> !eligible(uid, cs[j]),
    decreases cs.len(),
{
    if cs.len() > 0 {
        let init = cs.drop_last();
        lemma_best_is_first_highest(uid, init);
        assert forall|j: int| 0 <= j < init.len() implies init[j] == cs[j] by {}
    }
}

/// What [`select_session`] answers: the first eligible candidate with the
/// highest score, or [`Error::NoSession`] when none is eligible.
pub open spec fn select_result(uid: u32, cs: Seq<SessionCandidate>, r: Result<SessionRef, Error>) -> bool {
    match best_index(uid, cs) {
        Some(b) => r matches Ok(s) && s.spec_id() == cs[b].id@ && s.spec_path() == cs[b].path@,
        None => r matches Err(Error::NoSession),
    }
}

/// Pick the calling user's session from `ListSessions`: the first eligible
/// candidate with the highest score, or [`Error::NoSession`] when none is
/// eligible.
pub fn select_session(uid: u32, candidates: Vec<SessionCandidate>) -> (r: Result<SessionRef, Error>)
    ensures
        select_result(uid, candidates@, r),
{
    let mut best: Option<(i32, usize)> = None;
    let mut i: usize = 0;
    while i < candidates.len()
        invariant
            i <= candidates@.len(),
            match best_index(uid, candidates@.take(i as int)) {
                Some(b) => best matches Some((s, k)) && k == b && s == candidate_score(
                    candidates@[b],
                ),
                None => best is None,
            },
            best matches Some((_, k)) ==> k < i,
        decreases candidates@.len() - i,
    {
        let c = &candidates[i];
        let ghost pre = candidates@.take(i as int);
        assert(candidates@.take(i + 1).drop_last() =~= pre);
        assert(candidates@.take(i + 1)[i as int] == candidates@[i as int]);
        if is_candidate(uid, c.uid, c.path.as_str()) {
            match &c.properties {
                Some(p) => {
                    let score = score_session(
                        p.class.as_str(),
                        p.session_type.as_str(),
                        p.state.as_str(),
                    );
                    let better = match best {
                        None => true,
                        Some((s, _)) => score > s,
                    };
                    if better {
                        best = Some((score, i));
                    }
                },
                None => {},
            }
        }
        proof {
            lemma_best_is_first_highest(uid, pre);
            if let Some(k) = best_index(uid, pre) {
                assert(pre[k] == candidates@[k]);
            }
        }
        i = i + 1;
    }
    assert(candidates@.take(i as int) =~= candidates@);
    proof {
        lemma_best_is_first_highest(uid, candidates@);
    }
    match best {
        None => Err(Error::NoSession),
        Some((_, k)) => {
            let c = &candidates[k];
            Ok(SessionRef { id: c.id.clone(), path: c.path.clone() })
        },
    }
}

/// Where session resolution stands: the step to take next, or its outcome.
///
/// Resolution tries `GetSessionByPID` (pid `0` is the caller), then
/// `GetSession($XDG_SESSION_ID)`, then `ListSessions` scored for the
/// calling uid. The caller performs each step's D-Bus call or read and hands
/// the answer to [`resolve_step`].
pub enum Resolve {
    /// Ask `GetSessionByPID`.
    ByPid,
    /// Read the `Id` property of the session at this path.
    ReadId { path: String },
    /// Read `XDG_SESSION_ID`.
    ReadEnv,
    /// Ask `GetSession` for this id.
    ById { id: String },
    /// Ask `ListSessions` and read the properties of each candidate
    /// ([`is_candidate`]).
    List,
    /// Resolution is over.
    Done(Result<SessionRef, Error>),
}

/// What a step's call or read answered.
pub enum Answer {
    /// `GetSessionByPID`'s object path, or `None` if the call failed.
    PidPath(Option<String>),
    /// The session's `Id` property, or why it could not be read.
    Id(Result<String, Error>),
    /// The value of `XDG_SESSION_ID`, if set.
    EnvVar(Option<String>),
    /// `GetSession`'s object path, or `None` if the call failed.
    IdPath(Option<String>),
    /// The calling uid and the listed candidates, or why listing failed.
    Listed(u32, Result<Vec<SessionCandidate>, Error>),
}

/// The next step of session resolution, given the step taken and what it
/// answered.
///
/// - `GetSessionByPID`: a path other than the manager's is read for its id;
///   a failure or the manager path moves on to `XDG_SESSION_ID`.
/// - Reading that session's id ends resolution: the session, an empty id
///   refused, or the read's error.
/// - `XDG_SESSION_ID` set and non-empty is asked for with `GetSession`;
///   otherwise the sessions are listed.
/// - `GetSession`'s path ends resolution (the manager path refused); a
///   failed call moves on to listing.
/// - Listing ends resolution: the best candidate ([`select_session`]), or
///   the listing's error.
///
/// An answer to a step other than the one taken, or any answer once
/// resolution is over, changes nothing.
pub fn resolve_step(state: Resolve, answer: Answer) -> (next: Resolve)
    ensures
        match state {
            Resolve::ByPid => match answer {
                Answer::PidPath(Some(p)) => if p@ != MANAGER_PATH@ {
                    next matches Resolve::ReadId { path } && path@ == p@
                } else {
                    next is ReadEnv
                },
                Answer::PidPath(None) => next is ReadEnv,
                _ => next is ByPid,
            },
            Resolve::ReadId { path } => match answer {
                Answer::Id(Ok(id)) => next matches Resolve::Done(r) && from_path_result(path@, id@, r),
                Answer::Id(Err(e)) => next == Resolve::Done(Err(e)),
                _ => next == Resolve::ReadId { path },
            },
            Resolve::ReadEnv => match answer {
                Answer::EnvVar(Some(v)) => if v@.len() > 0 {
                    next matches Resolve::ById { id } && id@ == v@
                } else {
                    next is List
                },
                Answer::EnvVar(None) => next is List,
                _ => next is ReadEnv,
            },
            Resolve::ById { id } => match answer {
                Answer::IdPath(Some(p)) => next matches Resolve::Done(r) && env_lookup_result(
                    id@,
                    p@,
                    r,
                ),
                Answer::IdPath(None) => next is List,
                _ => next == Resolve::ById { id },
            },
            Resolve::List => match answer {
                Answer::Listed(uid, Ok(cs)) => next matches Resolve::Done(r) && select_result(
                    uid,
                    cs@,
                    r,
                ),
                Answer::Listed(_, Err(e)) => next == Resolve::Done(Err(e)),
                _ => next is List,
            },
            Resolve::Done(r) => next == Resolve::Done(r),
        },
{
    match state {
        Resolve::ByPid => match answer {
            Answer::PidPath(Some(p)) => {
                if accept_pid_session(p.as_str()) {
                    Resolve::ReadId { path: p }
                } else {
                    Resolve::ReadEnv
                }
            },
            Answer::PidPath(None) => Resolve::ReadEnv,
            _ => Resolve::ByPid,
        },
        Resolve::ReadId { path } => match answer {
            Answer::Id(Ok(id)) => Resolve::Done(session_from_path(path, id)),
            Answer::Id(Err(e)) => Resolve::Done(Err(e)),
            _ => Resolve::ReadId { path },
        },
        Resolve::ReadEnv => match answer {
            Answer::EnvVar(v) => match session_id_from_os_var(v) {
                Ok(id) => Resolve::ById { id },
                Err(_) => Resolve::List,
            },
            _ => Resolve::ReadEnv,
        },
        Resolve::ById { id } => match answer {
            Answer::IdPath(Some(p)) => Resolve::Done(session_from_env_lookup(id, p)),
            Answer::IdPath(None) => Resolve::List,
            _ => Resolve::ById { id },
        },
        Resolve::List => match answer {
            Answer::Listed(uid, Ok(cs)) => Resolve::Done(select_session(uid, cs)),
            Answer::Listed(_, Err(e)) => Resolve::Done(Err(e)),
            _ => Resolve::List,
        },
        Resolve::Done(r) => Resolve::Done(r),
    }
}

} // verus!
