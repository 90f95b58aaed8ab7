//! What the command-line client decides on its own: its configuration file,
//! the colour of a language and the shortening of topic lists.
use vstd::prelude::*;
use vstd::string::*;
use vstd::utf8::encode_utf8;

verus! {

/// How search results are shown.
#[derive(Debug, Clone, Copy, PartialEq, Eq, Structural)]
pub enum DisplayMode {
    Condensed,
    Detailed,
}

/// The client's configuration file.
#[derive(Debug, Clone, PartialEq, Eq)]
pub struct Config {
    pub endpoint: Option<String>,
    pub limit: Option<usize>,
    pub display_mode: Option<DisplayMode>,
}

/// What a TOML document holds under one key of its top-level table, as far
/// as the configuration reads it.
#[derive(Debug, Clone, PartialEq, Eq)]
pub enum TomlField {
    Missing,
    Str(String),
    Int(i64),
    /// A value of any other kind: a float, a boolean, a date, an array or a
    /// table.
    Other,
}

/// Why a configuration file was refused.
#[derive(Debug)]
pub enum ConfigError {
    /// The file is no TOML document.
    Syntax(toml::de::Error),
    /// `endpoint` is not a string.
    InvalidEndpoint,
    /// `limit` is not an integer that fits a `usize`.
    InvalidLimit,
    /// `display_mode` is neither `"condensed"` nor `"detailed"`.
    InvalidDisplayMode,
}

/// `toml::de::Error`, the reason a text is no TOML document, carried as an
/// opaque value.
#[verifier::external_type_specification]
#[verifier::external_body]
pub struct ExTomlError(toml::de::Error);

/// What reading `text` as a TOML document gives under `key` of its top-level
/// table; absent where `text` is no TOML document.
pub uninterp spec fn toml_field_of(text: Seq<char>, key: Seq<char>) -> Option<TomlField>;

/// Relies on `toml::from_str` into a `toml::Table`, then `Map::remove`: the
/// value held under `key`, told apart by kind. Whether `text` parses and what
/// it holds depend on `text` alone.
#[verifier::external_body]
fn toml_top_field(text: &str, key: &str) -> (r: Result<TomlField, toml::de::Error>)
    ensures
        r is Ok <==> toml_field_of(text@, key@) is Some,
        r is Ok ==> toml_field_of(text@, key@) == Some(r->Ok_0),
{
    let mut table: toml::Table = toml::from_str(text)?;
    Ok(match table.remove(key) {
        None => TomlField::Missing,
        Some(toml::Value::String(s)) => TomlField::Str(s),
        Some(toml::Value::Integer(i)) => TomlField::Int(i),
        Some(_) => TomlField::Other,
    })
}

/// The endpoint that a field gives; `None` where it is refused.
pub open spec fn endpoint_of(f: TomlField) -> Option<Option<String>> {
    match f {
        TomlField::Missing => Some(None),
        TomlField::Str(s) => Some(Some(s)),
        _ => None,
    }
}

/// The limit that a field gives; `None` where it is refused.
pub open spec fn limit_of(f: TomlField) -> Option<Option<usize>> {
    match f {
        TomlField::Missing => Some(None),
        TomlField::Int(i) => if 0 <= i <= usize::MAX {
            Some(Some(i as usize))
        } else {
            None
        },
        _ => None,
    }
}

/// The display mode that a field gives; `None` where it is refused.
pub open spec fn display_mode_of(f: TomlField) -> Option<Option<DisplayMode>> {
    match f {
        TomlField::Missing => Some(None),
        TomlField::Str(s) => if s@ == "condensed"@ {
            Some(Some(DisplayMode::Condensed))
        } else if s@ == "detailed"@ {
            Some(Some(DisplayMode::Detailed))
        } else {
            None
        },
        _ => None,
    }
}

/// The configuration that three fields give; `None` where one is refused.
pub open spec fn config_from(endpoint: TomlField, limit: TomlField, display_mode: TomlField) -> Option<Config> {
    match (endpoint_of(endpoint), limit_of(limit), display_mode_of(display_mode)) {
        (Some(e), Some(l), Some(d)) => Some(Config { endpoint: e, limit: l, display_mode: d }),
        _ => None,
    }
}

impl Config {
    /// Builds the configuration from the three fields that a file holds.
    /// Each field may be missing; one of the wrong kind is refused, the
    /// first in the order endpoint, limit, display mode.
    pub fn from_fields(endpoint: TomlField, limit: TomlField, display_mode: TomlField) -> (r: Result<Config, ConfigError>)
        ensures
            endpoint_of(endpoint) is None ==> r matches Err(ConfigError::InvalidEndpoint),
            endpoint_of(endpoint) is Some && limit_of(limit) is None ==> r matches Err(ConfigError::InvalidLimit),
            endpoint_of(endpoint) is Some && limit_of(limit) is Some && display_mode_of(display_mode) is None
                ==> r matches Err(ConfigError::InvalidDisplayMode),
            config_from(endpoint, limit, display_mode) is Some
                ==> r == Ok::<Config, ConfigError>(config_from(endpoint, limit, display_mode)->0),
    {
        let endpoint = match endpoint {
            TomlField::Missing => None,
            TomlField::Str(s) => Some(s),
            _ => return Err(ConfigError::InvalidEndpoint),
        };
        let limit = match limit {
            TomlField::Missing => None,
            TomlField::Int(i) => {
                if 0 <= i && (i as u64) <= (usize::MAX as u64) {
                    Some(i as usize)
                } else {
                    return Err(ConfigError::InvalidLimit);
                }
            },
            _ => return Err(ConfigError::InvalidLimit),
        };
        proof {
            reveal_strlit("condensed");
            reveal_strlit("detailed");
        }
        let display_mode = match display_mode {
            TomlField::Missing => None,
            TomlField::Str(s) => {
                if s == String::from_str("condensed") {
                    Some(DisplayMode::Condensed)
                } else if s == String::from_str("detailed") {
                    Some(DisplayMode::Detailed)
                } else {
                    return Err(ConfigError::InvalidDisplayMode);
                }
            },
            _ => return Err(ConfigError::InvalidDisplayMode),
        };
        Ok(Config { endpoint, limit, display_mode })
    }

    /// Reads the configuration file whose text is `contents`; `None` where
    /// there is no such file, which is no error.
    pub fn parse(contents: Option<&str>) -> (r: Result<Option<Config>, ConfigError>)
        ensures
            contents is None ==> r matches Ok(None),
            contents is Some ==> ({
                let text = contents->0@;
                let e = toml_field_of(text, "endpoint"@);
                let l = toml_field_of(text, "limit"@);
                let d = toml_field_of(text, "display_mode"@);
                &&& (e is None || l is None || d is None) ==> (r matches Err(ConfigError::Syntax(_)))
                &&& (e is Some && l is Some && d is Some) ==> {
                    &&& r is Ok <==> config_from(e->0, l->0, d->0) is Some
                    &&& r is Ok ==> r->Ok_0 == Some(config_from(e->0, l->0, d->0)->0)
                }
            }),
    {
        let text = match contents {
            None => return Ok(None),
            Some(text) => text,
        };
        let endpoint = match toml_top_field(text, "endpoint") {
            Ok(f) => f,
            Err(e) => return Err(ConfigError::Syntax(e)),
        };
        let limit = match toml_top_field(text, "limit") {
            Ok(f) => f,
            Err(e) => return Err(ConfigError::Syntax(e)),
        };
        let display_mode = match toml_top_field(text, "display_mode") {
            Ok(f) => f,
            Err(e) => return Err(ConfigError::Syntax(e)),
        };
        match Config::from_fields(endpoint, limit, display_mode) {
            Ok(c) => Ok(Some(c)),
            Err(e) => Err(e),
        }
    }
}

/// A language as the colour listing describes it.
#[derive(Debug, Clone, PartialEq, Eq)]
pub struct Language {
    pub color: Option<String>,
}

/// The value of an ASCII hexadecimal digit.
pub open spec fn hex_digit(b: u8) -> Option<u8> {
    if 48 <= b <= 57 {
        Some((b - 48) as u8)
    } else if 97 <= b <= 102 {
        Some((b - 87) as u8)
    } else if 65 <= b <= 70 {
        Some((b - 55) as u8)
    } else {
        None
    }
}

/// A colour channel written as two bytes, read in base 16 as
/// `u8::from_str_radix` reads it (a leading `+` is allowed); 0 where it does
/// not read.
pub open spec fn channel_of(a: u8, b: u8) -> u8 {
    if a == 43 {
        match hex_digit(b) {
            Some(y) => y,
            None => 0,
        }
    } else {
        match (hex_digit(a), hex_digit(b)) {
            (Some(x), Some(y)) => (16 * x + y) as u8,
            _ => 0,
        }
    }
}

/// `b` without its leading `#` bytes.
pub open spec fn trim_hashes(b: Seq<u8>) -> Seq<u8>
    decreases b.len(),
{
    if b.len() > 0 && b[0] == 35 {
        trim_hashes(b.drop_first())
    } else {
        b
    }
}

/// The colour that a colour code gives: the first six bytes after any `#`,
/// as three channels; none where fewer than six bytes are left.
pub open spec fn rgb_of(code: Seq<u8>) -> Option<(u8, u8, u8)> {
    let t = trim_hashes(code);
    if t.len() < 6 {
        None
    } else {
        Some((channel_of(t[0], t[1]), channel_of(t[2], t[3]), channel_of(t[4], t[5])))
    }
}

fn hex_digit_exec(b: u8) -> (r: Option<u8>)
    ensures
        r == hex_digit(b),
{
    if 48 <= b && b <= 57 {
        Some(b - 48)
    } else if 97 <= b && b <= 102 {
        Some(b - 87)
    } else if 65 <= b && b <= 70 {
        Some(b - 55)
    } else {
        None
    }
}

fn channel(a: u8, b: u8) -> (r: u8)
    ensures
        r == channel_of(a, b),
{
    if a == 43 {
        match hex_digit_exec(b) {
            Some(y) => y,
            None => 0,
        }
    } else {
        match (hex_digit_exec(a), hex_digit_exec(b)) {
            (Some(x), Some(y)) => 16 * x + y,
            _ => 0,
        }
    }
}

impl Language {
    /// The language's colour as red, green and blue; none where it has no
    /// colour or its code is too short.
    pub fn rgb_color(&self) -> (r: Option<(u8, u8, u8)>)
        ensures
            match &self.color {
                None => r is None,
                Some(code) => r == rgb_of(encode_utf8(code@)),
            },
    {
        let code = match &self.color {
            None => return None,
            Some(code) => code,
        };
        let bytes = code.as_str().as_bytes();
        let mut start: usize = 0;
        assert(bytes@.skip(0) =~= bytes@);
        while start < bytes.len() && bytes[start] == 35
            invariant
                start <= bytes@.len(),
                trim_hashes(bytes@) == trim_hashes(bytes@.skip(start as int)),
            decreases bytes@.len() - start,
        {
            assert(bytes@.skip(start as int).drop_first() =~= bytes@.skip(start + 1));
            start = start + 1;
        }
        let ghost t = bytes@.skip(start as int);
        assert(trim_hashes(bytes@) == t);
        if bytes.len() - start < 6 {
            return None;
        }
        assert(t[0] == bytes@[start as int]);
        Some((
            channel(bytes[start], bytes[start + 1]),
            channel(bytes[start + 2], bytes[start + 3]),
            channel(bytes[start + 4], bytes[start + 5]),
        ))
    }
}

/// `v` with at most `max` items shown: longer lists are cut to their first
/// `max` items, followed by `"..."`.
pub fn cap(v: &[String], max: usize) -> (r: Vec<String>)
    ensures
        v@.len() < max ==> r@ == v@,
        v@.len() >= max ==> {
            &&& r@.len() == max + 1
            &&& r@.take(max as int) == v@.take(max as int)
            &&& r@[max as int]@ == "..."@
        },
{
    let n = if v.len() < max { v.len() } else { max };
    let mut r: Vec<String> = Vec::new();
    let mut i: usize = 0;
    while i < n
        invariant
            n <= v@.len(),
            i <= n,
            r@ == v@.take(i as int),
        decreases n - i,
    {
        r.push(v[i].clone());
        assert(v@.take(i + 1) =~= v@.take(i as int).push(v@[i as int]));
        i = i + 1;
    }
    if v.len() < max {
        assert(v@.take(n as int) =~= v@);
        return r;
    }
    r.push(String::from_str("..."));
    assert(r@.take(max as int) =~= v@.take(max as int));
    r
}

/// Results shown when neither the command line nor the file sets a limit.
pub const DEFAULT_LIMIT: usize = 5;

/// What the client does a search with, once the command line and the
/// configuration file are combined.
#[derive(Debug, Clone, PartialEq, Eq)]
pub struct ClientOptions {
    pub endpoint: Option<String>,
    pub limit: usize,
    pub display_mode: DisplayMode,
}

/// Combines the command line with the configuration file: the command line
/// wins where it sets a value, then the file, then the defaults (five
/// results, detailed display). Of the two display flags, `condensed` wins.
pub fn resolve_options(
    endpoint: Option<String>,
    limit: Option<usize>,
    condensed: bool,
    detailed: bool,
    cfg: Option<Config>,
) -> (r: ClientOptions)
    ensures
        r.endpoint == match endpoint {
            Some(e) => Some(e),
            None => match cfg {
                Some(c) => c.endpoint,
                None => None,
            },
        },
        r.limit == match limit {
            Some(l) => l,
            None => match cfg {
                Some(c) => match c.limit {
                    Some(l) => l,
                    None => DEFAULT_LIMIT,
                },
                None => DEFAULT_LIMIT,
            },
        },
        r.display_mode == if condensed {
            DisplayMode::Condensed
        } else if detailed {
            DisplayMode::Detailed
        } else {
            match cfg {
                Some(c) => match c.display_mode {
                    Some(m) => m,
                    None => DisplayMode::Detailed,
                },
                None => DisplayMode::Detailed,
            }
        },
{
    let (cfg_endpoint, cfg_limit, cfg_mode) = match cfg {
        Some(c) => (c.endpoint, c.limit, c.display_mode),
        None => (None, None, None),
    };
    let endpoint = match endpoint {
        Some(e) => Some(e),
        None => cfg_endpoint,
    };
    let limit = match limit {
        Some(l) => l,
        None => match cfg_limit {
            Some(l) => l,
            None => DEFAULT_LIMIT,
        },
    };
    let mut display_mode = match cfg_mode {
        Some(m) => m,
        None => DisplayMode::Detailed,
    };
    if detailed {
        display_mode = DisplayMode::Detailed;
    }
    if condensed {
        display_mode = DisplayMode::Condensed;
    }
    ClientOptions { endpoint, limit, display_mode }
}

/// How recent an index date is, which decides how it is shown.
#[derive(Debug, Clone, Copy, PartialEq, Eq, Structural)]
pub enum Freshness {
    /// Less than a day ago (or later than now).
    Fresh,
    /// Less than three days ago.
    Aging,
    /// Three days ago or earlier.
    Old,
    /// No such pass has completed.
    Never,
}

/// Milliseconds in a day.
pub const DAY_MILLIS: i64 = 86_400_000;

/// How recent `date` is at `now`, both in milliseconds since the Unix epoch.
pub fn freshness(now: i64, date: Option<i64>) -> (r: Freshness)
    ensures
        r == match date {
            None => Freshness::Never,
            Some(d) => if now - d < DAY_MILLIS {
                Freshness::Fresh
            } else if now - d < 3 * DAY_MILLIS {
                Freshness::Aging
            } else {
                Freshness::Old
            },
        },
{
    match date {
        None => Freshness::Never,
        Some(d) => {
            let age = now as i128 - d as i128;
            if age < DAY_MILLIS as i128 {
                Freshness::Fresh
            } else if age < 3 * (DAY_MILLIS as i128) {
                Freshness::Aging
            } else {
                Freshness::Old
            }
        },
    }
}

} // verus!
