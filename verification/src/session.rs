//! Session modes and the sensitivity filter applied before anything reaches
//! the language model.
use vstd::prelude::*;
use crate::text::{ascii_lower, trim, trimmed_ascii_lower};

verus! {

/// Environment variable that selects the session mode.
pub const ENV_SESSION_MODE: &'static str = "AZ_SESSION_MODE";

/// Mode of a session towards the outside world.
///
/// - `Private`: no outside access; the local model may read every entry,
///   sensitive ones included.
/// - `Connected`: outside tools allowed; entries marked sensitive are
///   excluded before anything is handed to the model.
#[derive(Debug, Clone, Copy, PartialEq, Eq, Structural)]
pub enum SessionMode {
    Private,
    Connected,
}

/// Read filter applied by every read that feeds a language model.
#[derive(Debug, Clone, Copy, PartialEq, Eq, Structural)]
pub enum ReadFilter {
    All,
    ExcludeSensitive,
}

impl Default for ReadFilter {
    fn default() -> (r: Self)
        ensures
            r == ReadFilter::All,
    {
        ReadFilter::All
    }
}

/// Error of [`SessionMode::parse`]: the normalised text that matched no mode.
#[derive(Debug)]
pub enum SessionParseError {
    UnknownMode(String),
}

impl ReadFilter {
    /// Whether an entry with the given sensitivity passes the filter.
    pub open spec fn admits_spec(self, sensitivity: bool) -> bool {
        match self {
            ReadFilter::All => true,
            ReadFilter::ExcludeSensitive => !sensitivity,
        }
    }

    /// Whether an entry with the given sensitivity passes the filter.
    pub fn admits(self, sensitivity: bool) -> (r: bool)
        ensures
            r == self.admits_spec(sensitivity),
    {
        match self {
            ReadFilter::All => true,
            ReadFilter::ExcludeSensitive => !sensitivity,
        }
    }
}

/// The filter that goes with a mode.
pub open spec fn mode_filter(mode: SessionMode) -> ReadFilter {
    match mode {
        SessionMode::Private => ReadFilter::All,
        SessionMode::Connected => ReadFilter::ExcludeSensitive,
    }
}

/// The canonical name of a mode.
pub open spec fn mode_name(mode: SessionMode) -> Seq<char> {
    match mode {
        SessionMode::Private => "private"@,
        SessionMode::Connected => "connected"@,
    }
}

/// Text that names a mode once trimmed and lowered.
pub open spec fn normalized_mode_text(s: Seq<char>) -> Seq<char> {
    ascii_lower(trim(s))
}

/// The mode named by normalised text, if any.
pub open spec fn mode_of_name(n: Seq<char>) -> Option<SessionMode> {
    if n == "private"@ || n == "priv"@ || n == "p"@ {
        Some(SessionMode::Private)
    } else if n == "connected"@ || n == "conn"@ || n == "c"@ {
        Some(SessionMode::Connected)
    } else {
        None
    }
}

/// What `SessionMode::parse` gives for the text `s`.
pub open spec fn parse_spec(s: Seq<char>) -> Result<SessionMode, Seq<char>> {
    match mode_of_name(normalized_mode_text(s)) {
        Some(m) => Ok(m),
        None => Err(normalized_mode_text(s)),
    }
}

impl SessionMode {
    /// Mode used when nothing is specified.
    pub const DEFAULT: SessionMode = SessionMode::Private;

    /// The read filter of the mode: `Private` reads everything,
    /// `Connected` excludes sensitive entries.
    pub fn read_filter(self) -> (r: ReadFilter)
        ensures
            r == mode_filter(self),
    {
        match self {
            SessionMode::Private => ReadFilter::All,
            SessionMode::Connected => ReadFilter::ExcludeSensitive,
        }
    }

    /// The canonical name of the mode.
    pub fn as_str(self) -> (r: &'static str)
        ensures
            r@ == mode_name(self),
    {
        match self {
            SessionMode::Private => "private",
            SessionMode::Connected => "connected",
        }
    }

    /// Parses a mode name, ignoring surrounding white space and ASCII case.
    /// `private`, `priv`, `p` give `Private`; `connected`, `conn`, `c` give
    /// `Connected`; any other text is refused with the normalised text.
    pub fn parse(s: &str) -> (r: Result<SessionMode, SessionParseError>)
        ensures
            match parse_spec(s@) {
                Ok(m) => r == Ok::<SessionMode, SessionParseError>(m),
                Err(n) => r matches Err(SessionParseError::UnknownMode(t)) && t@ == n,
            },
    {
        let n = trimmed_ascii_lower(s);
        if n == String::from_str("private") || n == String::from_str("priv") || n
            == String::from_str("p") {
            Ok(SessionMode::Private)
        } else if n == String::from_str("connected") || n == String::from_str("conn") || n
            == String::from_str("c") {
            Ok(SessionMode::Connected)
        } else {
            Err(SessionParseError::UnknownMode(n))
        }
    }

    /// Resolves the mode: the command-line argument wins over the
    /// environment value, which wins over [`SessionMode::DEFAULT`].
    pub fn resolve_from(cli_arg: Option<&str>, env_value: Option<&str>) -> (r: Result<
        SessionMode,
        SessionParseError,
    >)
        ensures
            match (cli_arg, env_value) {
                (Some(a), _) => match parse_spec(a@) {
                    Ok(m) => r == Ok::<SessionMode, SessionParseError>(m),
                    Err(n) => r matches Err(SessionParseError::UnknownMode(t)) && t@ == n,
                },
                (None, Some(e)) => match parse_spec(e@) {
                    Ok(m) => r == Ok::<SessionMode, SessionParseError>(m),
                    Err(n) => r matches Err(SessionParseError::UnknownMode(t)) && t@ == n,
                },
                (None, None) => r == Ok::<SessionMode, SessionParseError>(SessionMode::Private),
            },
    {
        match cli_arg {
            Some(a) => SessionMode::parse(a),
            None => match env_value {
                Some(e) => SessionMode::parse(e),
                None => Ok(SessionMode::DEFAULT),
            },
        }
    }
}

/// A mode's name parses back to that mode.
pub proof fn lemma_parse_as_str_roundtrip(mode: SessionMode)
    ensures
        parse_spec(mode_name(mode)) == Ok::<SessionMode, Seq<char>>(mode),
{
    reveal_strlit("private");
    reveal_strlit("priv");
    reveal_strlit("p");
    reveal_strlit("connected");
    reveal_strlit("conn");
    reveal_strlit("c");
    let n = mode_name(mode);
    assert(crate::text::trim_start(n) == n);
    assert(crate::text::trim_end(n) == n);
    assert(ascii_lower(n) =~= n);
    assert(normalized_mode_text(n) == n);
    if mode == SessionMode::Connected {
        assert(n.len() != "private"@.len() && n.len() != "priv"@.len() && n.len() != "p"@.len());
    }
}

} // verus!
