//! Fail-closed XDG config, data, cache, and runtime paths.
//!
//! - config: `$XDG_CONFIG_HOME` if set and absolute, else `$HOME/.config`
//! - data: `$XDG_DATA_HOME` if set and absolute, else `$HOME/.local/share`
//! - cache: `$XDG_CACHE_HOME` if set and absolute, else `$HOME/.cache`
//! - runtime: `$XDG_RUNTIME_DIR` must be set and absolute
//!
//! There is no `/run/user/<uid>` fallback, no `/tmp` fallback, and no `~`
//! expansion. Relative or empty XDG values are errors. `$HOME` is consulted
//! only where a fallback uses it, and must then be set and absolute.
//!
//! Paths are the raw bytes of Unix paths, exactly as the environment held
//! them; variables are passed in as values, so resolution is a function of
//! what the caller read.

use vstd::prelude::*;
use vstd::utf8::{decode_utf8, encode_utf8, valid_utf8};

use crate::text::push_str;

verus! {

/// A Unix path is absolute when it starts with `/`.
pub open spec fn is_absolute(p: Seq<u8>) -> bool {
    p.len() > 0 && p[0] == 47u8
}

/// `base` joined with `rel` as `Path::join` does on Unix: an absolute `rel`
/// replaces `base`; otherwise `rel` is appended, after a `/` unless `base`
/// is empty or already ends in one.
pub open spec fn spec_join(base: Seq<u8>, rel: Seq<u8>) -> Seq<u8> {
    if is_absolute(rel) {
        rel
    } else if base.len() > 0 && base.last() != 47u8 {
        base.push(47u8) + rel
    } else {
        base + rel
    }
}

/// Joining a relative path onto an absolute one stays absolute.
pub proof fn lemma_join_absolute(base: Seq<u8>, rel: Seq<u8>)
    requires
        is_absolute(base),
    ensures
        is_absolute(spec_join(base, rel)),
{
    if !is_absolute(rel) {
        if base.last() != 47u8 {
            assert((base.push(47u8) + rel)[0] == base[0]);
        } else {
            assert((base + rel)[0] == base[0]);
        }
    }
}

/// `base.join(rel)`.
pub fn join(base: &[u8], rel: &[u8]) -> (p: Vec<u8>)
    ensures
        p@ == spec_join(base@, rel@),
{
    let mut out: Vec<u8> = Vec::new();
    if rel.len() > 0 && rel[0] == 47u8 {
        extend(&mut out, rel);
        assert(out@ =~= rel@);
        return out;
    }
    extend(&mut out, base);
    if base.len() > 0 && base[base.len() - 1] != 47u8 {
        out.push(47u8);
    }
    extend(&mut out, rel);
    assert(out@ =~= spec_join(base@, rel@));
    out
}

fn extend(out: &mut Vec<u8>, tail: &[u8])
    ensures
        final(out)@ == old(out)@ + tail@,
{
    let ghost start = out@;
    let mut i: usize = 0;
    while i < tail.len()
        invariant
            i <= tail@.len(),
            out@ == start + tail@.take(i as int),
        decreases tail@.len() - i,
    {
        out.push(tail[i]);
        i = i + 1;
        assert(out@ =~= start + tail@.take(i as int));
    }
    assert(tail@.take(i as int) =~= tail@);
}

/// Why base directories could not be resolved.
#[derive(Clone, Debug, PartialEq, Eq)]
pub enum Error {
    MissingHome,
    MissingRuntimeDir,
    Relative { var: &'static str, value: Vec<u8> },
    Empty { var: &'static str },
}

/// What an [`Error`] says.
pub enum ErrorView {
    MissingHome,
    MissingRuntimeDir,
    Relative { var: Seq<char>, value: Seq<u8> },
    Empty { var: Seq<char> },
}

impl View for Error {
    type V = ErrorView;

    open spec fn view(&self) -> ErrorView {
        match self {
            Error::MissingHome => ErrorView::MissingHome,
            Error::MissingRuntimeDir => ErrorView::MissingRuntimeDir,
            Error::Relative { var, value } => ErrorView::Relative { var: var@, value: value@ },
            Error::Empty { var } => ErrorView::Empty { var: var@ },
        }
    }
}

/// `String::from_utf8_lossy`'s result on `bytes`: the text, with each
/// invalid sequence replaced by U+FFFD.
pub uninterp spec fn spec_lossy_utf8(bytes: Seq<u8>) -> Seq<char>;

/// `String::from_utf8_lossy`: the bytes as text, each invalid sequence
/// replaced by U+FFFD; valid UTF-8 comes back as the text it encodes. How
/// invalid sequences are delimited is left to the name.
#[verifier::external_body]
pub(crate) fn lossy_utf8(bytes: &[u8]) -> (s: String)
    ensures
        s@ == spec_lossy_utf8(bytes@),
        valid_utf8(bytes@) ==> s@ == decode_utf8(bytes@),
{
    String::from_utf8_lossy(bytes).into_owned()
}

/// The message `Display` shows for an error.
pub open spec fn error_text(e: ErrorView) -> Seq<char> {
    match e {
        ErrorView::MissingHome => "HOME is unset or empty and an XDG fallback requires it"@,
        ErrorView::MissingRuntimeDir => "XDG_RUNTIME_DIR is unset or empty"@,
        ErrorView::Relative { var, value } => var + " must be an absolute path, got "@
            + spec_lossy_utf8(value),
        ErrorView::Empty { var } => var + " is set but empty"@,
    }
}

impl Error {
    /// The message `Display` shows for this error.
    pub fn to_string(&self) -> (s: String)
        ensures
            s@ == error_text(self@),
    {
        let mut s = String::new();
        match self {
            Error::MissingHome => push_str(
                &mut s,
                "HOME is unset or empty and an XDG fallback requires it",
            ),
            Error::MissingRuntimeDir => push_str(&mut s, "XDG_RUNTIME_DIR is unset or empty"),
            Error::Relative { var, value } => {
                push_str(&mut s, var);
                push_str(&mut s, " must be an absolute path, got ");
                let shown = lossy_utf8(value.as_slice());
                push_str(&mut s, shown.as_str());
            },
            Error::Empty { var } => {
                push_str(&mut s, var);
                push_str(&mut s, " is set but empty");
            },
        }
        s
    }
}

pub open spec fn opt_bytes(o: Option<Vec<u8>>) -> Option<Seq<u8>> {
    match o {
        Some(v) => Some(v@),
        None => None,
    }
}

/// The `$HOME` a fallback uses: it must be set and absolute (so empty and
/// `~` are refused).
pub open spec fn spec_parse_home(home: Option<Seq<u8>>) -> Result<Seq<u8>, ErrorView> {
    match home {
        Some(h) => if is_absolute(h) {
            Ok(h)
        } else {
            Err(ErrorView::MissingHome)
        },
        None => Err(ErrorView::MissingHome),
    }
}

/// An XDG variable if set and absolute, else `$HOME/<fallback>`. `$HOME`
/// is consulted only for the fallback.
pub open spec fn spec_xdg_or_fallback(
    var: Seq<char>,
    value: Option<Seq<u8>>,
    home: Option<Seq<u8>>,
    fallback: Seq<u8>,
) -> Result<Seq<u8>, ErrorView> {
    match value {
        None => match spec_parse_home(home) {
            Err(e) => Err(e),
            Ok(h) => Ok(spec_join(h, fallback)),
        },
        Some(v) => if v.len() == 0 {
            Err(ErrorView::Empty { var })
        } else if !is_absolute(v) {
            Err(ErrorView::Relative { var, value: v })
        } else {
            Ok(v)
        },
    }
}

/// A variable that must be set, non-empty and absolute.
pub open spec fn spec_required_absolute(var: Seq<char>, value: Option<Seq<u8>>) -> Result<
    Seq<u8>,
    ErrorView,
> {
    match value {
        None => Err(ErrorView::MissingRuntimeDir),
        Some(v) => if v.len() == 0 {
            Err(ErrorView::MissingRuntimeDir)
        } else if !is_absolute(v) {
            Err(ErrorView::Relative { var, value: v })
        } else {
            Ok(v)
        },
    }
}

fn parse_home(home: Option<&Vec<u8>>) -> (r: Result<&Vec<u8>, Error>)
    ensures
        match r {
            Ok(h) => spec_parse_home(
                match home {
                    Some(h) => Some(h@),
                    None => None,
                },
            ) == Ok::<Seq<u8>, ErrorView>(h@),
            Err(e) => spec_parse_home(
                match home {
                    Some(h) => Some(h@),
                    None => None,
                },
            ) == Err::<Seq<u8>, ErrorView>(e@),
        },
{
    match home {
        None => Err(Error::MissingHome),
        Some(h) => {
            if h.len() == 0 || h[0] != 47u8 {
                Err(Error::MissingHome)
            } else {
                Ok(h)
            }
        },
    }
}

fn xdg_or_fallback(var: &'static str, value: Option<Vec<u8>>, home: Option<&Vec<u8>>, fallback: &str) -> (r:
    Result<Vec<u8>, Error>)
    ensures
        match r {
            Ok(p) => spec_xdg_or_fallback(
                var@,
                opt_bytes(value),
                match home {
                    Some(h) => Some(h@),
                    None => None,
                },
                encode_utf8(fallback@),
            ) == Ok::<Seq<u8>, ErrorView>(p@),
            Err(e) => spec_xdg_or_fallback(
                var@,
                opt_bytes(value),
                match home {
                    Some(h) => Some(h@),
                    None => None,
                },
                encode_utf8(fallback@),
            ) == Err::<Seq<u8>, ErrorView>(e@),
        },
{
    match value {
        None => match parse_home(home) {
            Err(e) => Err(e),
            Ok(h) => Ok(join(h.as_slice(), fallback.as_bytes())),
        },
        Some(v) => {
            if v.len() == 0 {
                Err(Error::Empty { var })
            } else if v[0] != 47u8 {
                Err(Error::Relative { var, value: v })
            } else {
                Ok(v)
            }
        },
    }
}

fn required_absolute(var: &'static str, value: Option<Vec<u8>>) -> (r: Result<Vec<u8>, Error>)
    ensures
        match r {
            Ok(p) => spec_required_absolute(var@, opt_bytes(value)) == Ok::<Seq<u8>, ErrorView>(p@),
            Err(e) => spec_required_absolute(var@, opt_bytes(value)) == Err::<Seq<u8>, ErrorView>(
                e@,
            ),
        },
{
    match value {
        None => Err(Error::MissingRuntimeDir),
        Some(v) => {
            if v.len() == 0 {
                Err(Error::MissingRuntimeDir)
            } else if v[0] != 47u8 {
                Err(Error::Relative { var, value: v })
            } else {
                Ok(v)
            }
        },
    }
}

/// What [`ConfigDirs`] holds.
pub struct ConfigDirsView {
    pub config_home: Seq<u8>,
    pub data_home: Seq<u8>,
}

/// What [`BaseDirs`] holds.
pub struct BaseDirsView {
    pub config_home: Seq<u8>,
    pub data_home: Seq<u8>,
    pub runtime_dir: Seq<u8>,
}

/// Config and data from the values of `XDG_CONFIG_HOME` and
/// `XDG_DATA_HOME`, checked in that order, with `HOME` used only where one of
/// them is unset.
pub open spec fn spec_config_dirs(
    home: Option<Seq<u8>>,
    config_home: Option<Seq<u8>>,
    data_home: Option<Seq<u8>>,
) -> Result<ConfigDirsView, ErrorView> {
    match spec_xdg_or_fallback("XDG_CONFIG_HOME"@, config_home, home, encode_utf8(".config"@)) {
        Err(e) => Err(e),
        Ok(c) => match spec_xdg_or_fallback("XDG_DATA_HOME"@, data_home, home, encode_utf8(".local/share"@)) {
            Err(e) => Err(e),
            Ok(d) => Ok(ConfigDirsView { config_home: c, data_home: d }),
        },
    }
}

/// Adds the required runtime dir from the value of `XDG_RUNTIME_DIR`.
pub open spec fn spec_with_runtime(dirs: ConfigDirsView, runtime_dir: Option<Seq<u8>>) -> Result<
    BaseDirsView,
    ErrorView,
> {
    match spec_required_absolute("XDG_RUNTIME_DIR"@, runtime_dir) {
        Err(e) => Err(e),
        Ok(r) => Ok(
            BaseDirsView { config_home: dirs.config_home, data_home: dirs.data_home, runtime_dir: r },
        ),
    }
}

/// All three from the values of `HOME`, `XDG_CONFIG_HOME`, `XDG_DATA_HOME`
/// and `XDG_RUNTIME_DIR`.
pub open spec fn spec_base_dirs(
    home: Option<Seq<u8>>,
    config_home: Option<Seq<u8>>,
    data_home: Option<Seq<u8>>,
    runtime_dir: Option<Seq<u8>>,
) -> Result<BaseDirsView, ErrorView> {
    match spec_config_dirs(home, config_home, data_home) {
        Err(e) => Err(e),
        Ok(c) => spec_with_runtime(c, runtime_dir),
    }
}

/// The cache home from the values of `HOME` and `XDG_CACHE_HOME`.
pub open spec fn spec_cache_home(home: Option<Seq<u8>>, cache_home: Option<Seq<u8>>) -> Result<
    Seq<u8>,
    ErrorView,
> {
    spec_xdg_or_fallback("XDG_CACHE_HOME"@, cache_home, home, encode_utf8(".cache"@))
}

/// XDG config and data directories. Runtime is not required.
#[derive(Clone, Debug, PartialEq, Eq)]
pub struct ConfigDirs {
    config_home: Vec<u8>,
    data_home: Vec<u8>,
}

/// Resolved XDG base directories including a required runtime dir.
#[derive(Clone, Debug, PartialEq, Eq)]
pub struct BaseDirs {
    config_home: Vec<u8>,
    data_home: Vec<u8>,
    runtime_dir: Vec<u8>,
}

impl View for ConfigDirs {
    type V = ConfigDirsView;

    closed spec fn view(&self) -> ConfigDirsView {
        ConfigDirsView { config_home: self.config_home@, data_home: self.data_home@ }
    }
}

impl View for BaseDirs {
    type V = BaseDirsView;

    closed spec fn view(&self) -> BaseDirsView {
        BaseDirsView {
            config_home: self.config_home@,
            data_home: self.data_home@,
            runtime_dir: self.runtime_dir@,
        }
    }
}

impl ConfigDirs {
    /// Resolve config and data from explicit variable values.
    pub fn from_os_vars(home: Option<Vec<u8>>, config_home: Option<Vec<u8>>, data_home: Option<Vec<u8>>) -> (r:
        Result<ConfigDirs, Error>)
        ensures
            match r {
                Ok(d) => spec_config_dirs(opt_bytes(home), opt_bytes(config_home), opt_bytes(data_home))
                    == Ok::<ConfigDirsView, ErrorView>(d@),
                Err(e) => spec_config_dirs(
                    opt_bytes(home),
                    opt_bytes(config_home),
                    opt_bytes(data_home),
                ) == Err::<ConfigDirsView, ErrorView>(e@),
            },
    {
        let config = match xdg_or_fallback("XDG_CONFIG_HOME", config_home, home.as_ref(), ".config") {
            Ok(c) => c,
            Err(e) => return Err(e),
        };
        let data = match xdg_or_fallback("XDG_DATA_HOME", data_home, home.as_ref(), ".local/share") {
            Ok(d) => d,
            Err(e) => return Err(e),
        };
        Ok(ConfigDirs { config_home: config, data_home: data })
    }

    /// Add the runtime dir, which must be set, non-empty and absolute.
    pub fn with_runtime(self, runtime_dir: Option<Vec<u8>>) -> (r: Result<BaseDirs, Error>)
        ensures
            match r {
                Ok(b) => spec_with_runtime(self@, opt_bytes(runtime_dir)) == Ok::<
                    BaseDirsView,
                    ErrorView,
                >(b@),
                Err(e) => spec_with_runtime(self@, opt_bytes(runtime_dir)) == Err::<
                    BaseDirsView,
                    ErrorView,
                >(e@),
            },
    {
        match required_absolute("XDG_RUNTIME_DIR", runtime_dir) {
            Ok(r) => Ok(
                BaseDirs { config_home: self.config_home, data_home: self.data_home, runtime_dir: r },
            ),
            Err(e) => Err(e),
        }
    }

    pub fn config_home(&self) -> (p: &[u8])
        ensures
            p@ == self@.config_home,
    {
        self.config_home.as_slice()
    }

    pub fn data_home(&self) -> (p: &[u8])
        ensures
            p@ == self@.data_home,
    {
        self.data_home.as_slice()
    }

    /// `$config_home/app`.
    pub fn config_dir(&self, app: &str) -> (p: Vec<u8>)
        ensures
            p@ == spec_join(self@.config_home, encode_utf8(app@)),
    {
        join(self.config_home.as_slice(), app.as_bytes())
    }

    /// `$data_home/app`.
    pub fn data_dir(&self, app: &str) -> (p: Vec<u8>)
        ensures
            p@ == spec_join(self@.data_home, encode_utf8(app@)),
    {
        join(self.data_home.as_slice(), app.as_bytes())
    }
}

/// `$XDG_CACHE_HOME` if set and absolute, else `$HOME/.cache`.
pub fn cache_home_from_os_vars(home: Option<Vec<u8>>, cache_home: Option<Vec<u8>>) -> (r: Result<
    Vec<u8>,
    Error,
>)
    ensures
        match r {
            Ok(p) => spec_cache_home(opt_bytes(home), opt_bytes(cache_home)) == Ok::<
                Seq<u8>,
                ErrorView,
            >(p@),
            Err(e) => spec_cache_home(opt_bytes(home), opt_bytes(cache_home)) == Err::<
                Seq<u8>,
                ErrorView,
            >(e@),
        },
{
    xdg_or_fallback("XDG_CACHE_HOME", cache_home, home.as_ref(), ".cache")
}

/// `$cache_home/app`, the cache home resolved from the values of `HOME` and
/// `XDG_CACHE_HOME`.
pub fn cache_dir(home: Option<Vec<u8>>, cache_home: Option<Vec<u8>>, app: &str) -> (r: Result<
    Vec<u8>,
    Error,
>)
    ensures
        match r {
            Ok(p) => spec_cache_home(opt_bytes(home), opt_bytes(cache_home)) matches Ok(c) && p@
                == spec_join(c, encode_utf8(app@)),
            Err(e) => spec_cache_home(opt_bytes(home), opt_bytes(cache_home)) == Err::<
                Seq<u8>,
                ErrorView,
            >(e@),
        },
{
    match cache_home_from_os_vars(home, cache_home) {
        Ok(c) => Ok(join(c.as_slice(), app.as_bytes())),
        Err(e) => Err(e),
    }
}

impl BaseDirs {
    /// Resolve from explicit variable values.
    pub fn from_os_vars(
        home: Option<Vec<u8>>,
        config_home: Option<Vec<u8>>,
        data_home: Option<Vec<u8>>,
        runtime_dir: Option<Vec<u8>>,
    ) -> (r: Result<BaseDirs, Error>)
        ensures
            match r {
                Ok(b) => spec_base_dirs(
                    opt_bytes(home),
                    opt_bytes(config_home),
                    opt_bytes(data_home),
                    opt_bytes(runtime_dir),
                ) == Ok::<BaseDirsView, ErrorView>(b@),
                Err(e) => spec_base_dirs(
                    opt_bytes(home),
                    opt_bytes(config_home),
                    opt_bytes(data_home),
                    opt_bytes(runtime_dir),
                ) == Err::<BaseDirsView, ErrorView>(e@),
            },
    {
        match ConfigDirs::from_os_vars(home, config_home, data_home) {
            Ok(c) => c.with_runtime(runtime_dir),
            Err(e) => Err(e),
        }
    }

    pub fn config_home(&self) -> (p: &[u8])
        ensures
            p@ == self@.config_home,
    {
        self.config_home.as_slice()
    }

    pub fn data_home(&self) -> (p: &[u8])
        ensures
            p@ == self@.data_home,
    {
        self.data_home.as_slice()
    }

    pub fn runtime_dir(&self) -> (p: &[u8])
        ensures
            p@ == self@.runtime_dir,
    {
        self.runtime_dir.as_slice()
    }

    /// `$config_home/app`.
    pub fn config_dir(&self, app: &str) -> (p: Vec<u8>)
        ensures
            p@ == spec_join(self@.config_home, encode_utf8(app@)),
    {
        join(self.config_home.as_slice(), app.as_bytes())
    }

    /// `$data_home/app`.
    pub fn data_dir(&self, app: &str) -> (p: Vec<u8>)
        ensures
            p@ == spec_join(self@.data_home, encode_utf8(app@)),
    {
        join(self.data_home.as_slice(), app.as_bytes())
    }

    /// `$runtime_dir/name`.
    pub fn runtime_path(&self, name: &str) -> (p: Vec<u8>)
        ensures
            p@ == spec_join(self@.runtime_dir, encode_utf8(name@)),
    {
        join(self.runtime_dir.as_slice(), name.as_bytes())
    }
}

/// Resolution fails closed: whatever it resolves is absolute, the runtime
/// dir is exactly the value given (nothing like `/run/user/<uid>` is ever
/// synthesized), and an XDG value that was set is used as it is.
pub proof fn lemma_resolution_fails_closed(
    home: Option<Seq<u8>>,
    config_home: Option<Seq<u8>>,
    data_home: Option<Seq<u8>>,
    runtime_dir: Option<Seq<u8>>,
)
    ensures
        spec_base_dirs(home, config_home, data_home, runtime_dir) matches Ok(b) ==> {
            &&& is_absolute(b.config_home)
            &&& is_absolute(b.data_home)
            &&& is_absolute(b.runtime_dir)
            &&& runtime_dir == Some(b.runtime_dir)
            &&& (config_home matches Some(c) ==> b.config_home == c)
            &&& (data_home matches Some(d) ==> b.data_home == d)
        },
        runtime_dir is None ==> spec_base_dirs(home, config_home, data_home, runtime_dir) is Err,
{
    if let Ok(h) = spec_parse_home(home) {
        lemma_join_absolute(h, encode_utf8(".config"@));
        lemma_join_absolute(h, encode_utf8(".local/share"@));
    }
}

/// `HOME` is consulted only by a fallback: with both XDG variables set,
/// resolution does not depend on `HOME` at all, and neither does the cache
/// home with `XDG_CACHE_HOME` set.
pub proof fn lemma_home_only_for_fallback(
    home: Option<Seq<u8>>,
    other_home: Option<Seq<u8>>,
    config_home: Option<Seq<u8>>,
    data_home: Option<Seq<u8>>,
    cache_home: Option<Seq<u8>>,
)
    ensures
        config_home is Some && data_home is Some ==> spec_config_dirs(home, config_home, data_home)
            == spec_config_dirs(other_home, config_home, data_home),
        cache_home is Some ==> spec_cache_home(home, cache_home) == spec_cache_home(
            other_home,
            cache_home,
        ),
{
}

} // verus!
