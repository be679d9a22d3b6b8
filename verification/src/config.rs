//! Resolution of the runtime paths (media root, www root, listen port and
//! host) from three layers: explicit overrides, process environment
//! variables, and the key-value lines of an env file. Overrides win over
//! the environment, the environment wins over the file, and missing
//! optional values fall back to defaults.
//!
//! The process that hosts the library reads the env file and the process
//! environment and hands their contents in as plain lists; everything that
//! decides is here.

use vstd::prelude::*;

use crate::text::{
    chars_to_string, find_char, find_from, parse_u64_range, spec_parse_u64, spec_trim,
    str_to_chars, trim_range, str_eq,
};

verus! {

pub const DEFAULT_ENV_PATH: &'static str = ".env";

pub const DEFAULT_NEWTUBE_PORT: u16 = 8080;

pub const DEFAULT_NEWTUBE_HOST: &'static str = "127.0.0.1";

/// The resolved runtime configuration.
#[derive(Debug)]
pub struct RuntimePaths {
    pub media_root: String,
    pub www_root: String,
    pub newtube_port: u16,
    pub newtube_host: String,
}

/// Explicit overrides, from command-line arguments or a caller's choice.
#[derive(Debug)]
pub struct RuntimeOverrides {
    pub media_root: Option<String>,
    pub www_root: Option<String>,
    pub newtube_port: Option<u16>,
    pub newtube_host: Option<String>,
    pub env_path: Option<String>,
}

impl Default for RuntimeOverrides {
    fn default() -> (r: Self)
        ensures
            r.media_root is None,
            r.www_root is None,
            r.newtube_port is None,
            r.newtube_host is None,
            r.env_path is None,
    {
        RuntimeOverrides {
            media_root: None,
            www_root: None,
            newtube_port: None,
            newtube_host: None,
            env_path: None,
        }
    }
}

/// A required setting that no layer supplied.
#[derive(Clone, Copy, Debug, PartialEq, Eq, Structural)]
pub enum ConfigError {
    MissingMediaRoot,
    MissingWwwRoot,
}

impl ConfigError {
    pub fn message(&self) -> (r: &'static str)
        ensures
            *self is MissingMediaRoot ==> r@ == "MEDIA_ROOT not set"@,
            *self is MissingWwwRoot ==> r@ == "WWW_ROOT not set"@,
    {
        match self {
            ConfigError::MissingMediaRoot => "MEDIA_ROOT not set",
            ConfigError::MissingWwwRoot => "WWW_ROOT not set",
        }
    }
}

/// The value bound to `key`, later entries shadowing earlier ones, as a
/// map built by inserting each entry in order would answer.
pub open spec fn env_get(vars: Seq<(Seq<char>, Seq<char>)>, key: Seq<char>) -> Option<Seq<char>>
    decreases vars.len(),
{
    if vars.len() == 0 {
        None
    } else if vars.last().0 == key {
        Some(vars.last().1)
    } else {
        env_get(vars.drop_last(), key)
    }
}

/// A process environment variable as the resolution sees it: trimmed,
/// with a blank value counting as absent.
pub open spec fn env_trimmed(vars: Seq<(Seq<char>, Seq<char>)>, key: Seq<char>) -> Option<
    Seq<char>,
> {
    match env_get(vars, key) {
        None => None,
        Some(v) => if spec_trim(v).len() > 0 {
            Some(spec_trim(v))
        } else {
            None
        },
    }
}

/// One lookup across the two ambient layers: the process environment
/// first, then the env file.
pub open spec fn spec_lookup(
    key: Seq<char>,
    file_vars: Seq<(Seq<char>, Seq<char>)>,
    env_vars: Seq<(Seq<char>, Seq<char>)>,
) -> Option<Seq<char>> {
    match env_trimmed(env_vars, key) {
        Some(v) => Some(v),
        None => env_get(file_vars, key),
    }
}

/// The raw value bound to `key` in an entry list.
pub fn env_value(vars: &Vec<(String, String)>, key: &str) -> (r: Option<String>)
    ensures
        r.deep_view() == env_get(vars.deep_view(), key@),
{
    let ghost m = vars.deep_view();
    proof {
        assert(m.take(vars@.len() as int) =~= m);
    }
    let mut i: usize = vars.len();
    while i > 0
        invariant
            i <= vars.len(),
            m == vars.deep_view(),
            env_get(m, key@) == env_get(m.take(i as int), key@),
        decreases i,
    {
        i = i - 1;
        proof {
            assert(m.take(i + 1).drop_last() =~= m.take(i as int));
            assert(m.take(i + 1).last() == m[i as int]);
        }
        if str_eq(vars[i].0.as_str(), key) {
            return Some(vars[i].1.clone());
        }
    }
    proof {
        assert(m.take(0) =~= Seq::<(Seq<char>, Seq<char>)>::empty());
    }
    None
}

/// Trims a string, yielding `None` when nothing is left.
fn trimmed_nonempty(value: &str) -> (r: Option<String>)
    ensures
        r.deep_view() == (if spec_trim(value@).len() > 0 {
            Some(spec_trim(value@))
        } else {
            None::<Seq<char>>
        }),
{
    let chars = str_to_chars(value);
    let n = chars.len();
    let (lo, hi) = trim_range(&chars, 0, n);
    proof {
        assert(chars@.subrange(0, n as int) =~= chars@);
    }
    if lo == hi {
        None
    } else {
        Some(chars_to_string(&chars, lo, hi))
    }
}

/// A process environment variable: present only if set and not blank
/// after trimming, and then handed on trimmed.
pub fn env_var_string(env_vars: &Vec<(String, String)>, key: &str) -> (r: Option<String>)
    ensures
        r.deep_view() == env_trimmed(env_vars.deep_view(), key@),
{
    match env_value(env_vars, key) {
        None => None,
        Some(v) => trimmed_nonempty(v.as_str()),
    }
}

/// A setting looked up in the process environment first, then the env
/// file.
pub fn lookup_value(key: &str, file_vars: &Vec<(String, String)>, env_vars: &Vec<(String, String)>)
    -> (r: Option<String>)
    ensures
        r.deep_view() == spec_lookup(key@, file_vars.deep_view(), env_vars.deep_view()),
{
    match env_var_string(env_vars, key) {
        Some(v) => Some(v),
        None => env_value(file_vars, key),
    }
}

/// What `str::parse::<u16>` accepts.
pub open spec fn spec_parse_u16(s: Seq<char>) -> Option<u16> {
    match spec_parse_u64(s) {
        Some(v) => if v <= u16::MAX {
            Some(v as u16)
        } else {
            None
        },
        None => None,
    }
}

/// The resolved port: an override, else a parseable `NEWTUBE_PORT`
/// value, else the default.
pub open spec fn port_of(
    file_vars: Seq<(Seq<char>, Seq<char>)>,
    env_vars: Seq<(Seq<char>, Seq<char>)>,
    override_port: Option<u16>,
) -> u16 {
    match override_port {
        Some(p) => p,
        None => match spec_lookup("NEWTUBE_PORT"@, file_vars, env_vars) {
            Some(v) => match spec_parse_u16(v) {
                Some(p) => p,
                None => DEFAULT_NEWTUBE_PORT,
            },
            None => DEFAULT_NEWTUBE_PORT,
        },
    }
}

/// The resolved host: a non-blank override (trimmed), else a looked-up
/// `NEWTUBE_HOST` that is not blank, else the default.
pub open spec fn host_of(
    file_vars: Seq<(Seq<char>, Seq<char>)>,
    env_vars: Seq<(Seq<char>, Seq<char>)>,
    override_host: Option<Seq<char>>,
) -> Seq<char> {
    let from_override = match override_host {
        Some(h) => if spec_trim(h).len() > 0 {
            Some(spec_trim(h))
        } else {
            None
        },
        None => None,
    };
    let candidate = match from_override {
        Some(v) => Some(v),
        None => spec_lookup("NEWTUBE_HOST"@, file_vars, env_vars),
    };
    match candidate {
        Some(v) => if spec_trim(v).len() > 0 {
            v
        } else {
            "127.0.0.1"@
        },
        None => "127.0.0.1"@,
    }
}

/// A root directory: an override, else the looked-up variable.
pub open spec fn root_of(
    key: Seq<char>,
    file_vars: Seq<(Seq<char>, Seq<char>)>,
    env_vars: Seq<(Seq<char>, Seq<char>)>,
    override_root: Option<Seq<char>>,
) -> Option<Seq<char>> {
    match override_root {
        Some(p) => Some(p),
        None => spec_lookup(key, file_vars, env_vars),
    }
}

/// Resolves every setting from overrides, process environment and env
/// file. The media root and the www root are required; the port and the
/// host have defaults.
pub fn build_runtime_paths_with_overrides(
    file_vars: &Vec<(String, String)>,
    env_vars: &Vec<(String, String)>,
    overrides: RuntimeOverrides,
) -> (r: Result<RuntimePaths, ConfigError>)
    ensures
        ({
            let f = file_vars.deep_view();
            let e = env_vars.deep_view();
            let media = root_of("MEDIA_ROOT"@, f, e, overrides.media_root.deep_view());
            let www = root_of("WWW_ROOT"@, f, e, overrides.www_root.deep_view());
            match r {
                Ok(p) => {
                    &&& media matches Some(m) && p.media_root@ == m
                    &&& www matches Some(w) && p.www_root@ == w
                    &&& p.newtube_port == port_of(f, e, overrides.newtube_port)
                    &&& p.newtube_host@ == host_of(f, e, overrides.newtube_host.deep_view())
                },
                Err(err) => {
                    &&& err is MissingMediaRoot <==> media is None
                    &&& err is MissingWwwRoot ==> media is Some && www is None
                    &&& media is None || www is None
                },
            }
        }),
{
    let media_root = match overrides.media_root {
        Some(p) => Some(p),
        None => lookup_value("MEDIA_ROOT", file_vars, env_vars),
    };
    let media_root = match media_root {
        Some(p) => p,
        None => {
            return Err(ConfigError::MissingMediaRoot);
        },
    };
    let www_root = match overrides.www_root {
        Some(p) => Some(p),
        None => lookup_value("WWW_ROOT", file_vars, env_vars),
    };
    let www_root = match www_root {
        Some(p) => p,
        None => {
            return Err(ConfigError::MissingWwwRoot);
        },
    };
    let newtube_port = match overrides.newtube_port {
        Some(p) => p,
        None => match lookup_value("NEWTUBE_PORT", file_vars, env_vars) {
            Some(v) => match parse_port_value(v.as_str()) {
                Some(p) => p,
                None => DEFAULT_NEWTUBE_PORT,
            },
            None => DEFAULT_NEWTUBE_PORT,
        },
    };
    let host_candidate = match overrides.newtube_host {
        Some(h) => match trimmed_nonempty(h.as_str()) {
            Some(t) => Some(t),
            None => None,
        },
        None => None,
    };
    let host_candidate = match host_candidate {
        Some(v) => Some(v),
        None => lookup_value("NEWTUBE_HOST", file_vars, env_vars),
    };
    let newtube_host = match host_candidate {
        Some(v) => match trimmed_nonempty(v.as_str()) {
            Some(_) => v,
            None => String::from_str(DEFAULT_NEWTUBE_HOST),
        },
        None => String::from_str(DEFAULT_NEWTUBE_HOST),
    };
    Ok(RuntimePaths { media_root, www_root, newtube_port, newtube_host })
}

/// Resolution without overrides.
pub fn build_runtime_paths(file_vars: &Vec<(String, String)>, env_vars: &Vec<(String, String)>)
    -> (r: Result<RuntimePaths, ConfigError>)
    ensures
        ({
            let f = file_vars.deep_view();
            let e = env_vars.deep_view();
            match r {
                Ok(p) => {
                    &&& spec_lookup("MEDIA_ROOT"@, f, e) matches Some(m) && p.media_root@ == m
                    &&& spec_lookup("WWW_ROOT"@, f, e) matches Some(w) && p.www_root@ == w
                    &&& p.newtube_port == port_of(f, e, None)
                    &&& p.newtube_host@ == host_of(f, e, None)
                },
                Err(err) => {
                    &&& err is MissingMediaRoot <==> spec_lookup("MEDIA_ROOT"@, f, e) is None
                    &&& spec_lookup("MEDIA_ROOT"@, f, e) is None || spec_lookup(
                        "WWW_ROOT"@,
                        f,
                        e,
                    ) is None
                },
            }
        }),
{
    build_runtime_paths_with_overrides(file_vars, env_vars, RuntimeOverrides::default())
}

/// What `str::parse::<u16>` returns for a port value.
pub fn parse_port_value(value: &str) -> (r: Option<u16>)
    ensures
        r == spec_parse_u16(value@),
{
    let chars = str_to_chars(value);
    let n = chars.len();
    proof {
        assert(chars@.subrange(0, n as int) =~= chars@);
    }
    match parse_u64_range(&chars, 0, n) {
        None => None,
        Some(v) => if v <= 65535 {
            Some(v as u16)
        } else {
            None
        },
    }
}

/// An env-file line as a binding: blank lines and comments yield nothing;
/// otherwise an optional `export ` prefix is dropped, the line splits at
/// its first `=`, the trimmed key must be non-empty, and the trimmed
/// value loses one pair of matching single or double quotes.
pub open spec fn spec_env_entry(line: Seq<char>) -> Option<(Seq<char>, Seq<char>)> {
    let t = spec_trim(line);
    if t.len() == 0 || t[0] == '#' {
        None
    } else {
        let rest = if t.len() >= 7 && t.subrange(0, 7) == "export "@ {
            t.skip(7)
        } else {
            t
        };
        match find_from(rest, 0, '=') {
            None => None,
            Some(eq) => {
                let key = spec_trim(rest.subrange(0, eq));
                if key.len() == 0 {
                    None
                } else {
                    let value = spec_trim(rest.subrange(eq + 1, rest.len() as int));
                    Some((key, spec_unquote(value)))
                }
            },
        }
    }
}

/// One pair of matching quotes stripped, if both ends carry the same
/// quote character.
pub open spec fn spec_unquote(v: Seq<char>) -> Seq<char> {
    if v.len() >= 2 && v[0] == '"' && v.last() == '"' {
        v.subrange(1, v.len() - 1)
    } else if v.len() >= 2 && v[0] == '\'' && v.last() == '\'' {
        v.subrange(1, v.len() - 1)
    } else {
        v
    }
}

/// A line without its trailing carriage return.
pub open spec fn strip_cr(line: Seq<char>) -> Seq<char> {
    if line.len() > 0 && line.last() == '\r' {
        line.drop_last()
    } else {
        line
    }
}

/// The bindings of an env file from position `from` on: lines split at
/// `\n` (a trailing `\r` dropped), each contributing its entry if it has
/// one.
pub open spec fn spec_parse_env_from(s: Seq<char>, from: int) -> Seq<(Seq<char>, Seq<char>)>
    decreases s.len() - from,
    via spec_parse_env_from_dec
{
    if from < 0 || from >= s.len() {
        Seq::empty()
    } else {
        match find_from(s, from, '\n') {
            Some(k) => {
                let entry = spec_env_entry(strip_cr(s.subrange(from, k)));
                let rest = spec_parse_env_from(s, k + 1);
                match entry {
                    Some(e) => seq![e] + rest,
                    None => rest,
                }
            },
            None => {
                match spec_env_entry(strip_cr(s.subrange(from, s.len() as int))) {
                    Some(e) => seq![e],
                    None => Seq::empty(),
                }
            },
        }
    }
}

#[via_fn]
proof fn spec_parse_env_from_dec(s: Seq<char>, from: int) {
    crate::text::lemma_find_from_bounds(s, from, '\n');
}

/// All bindings of an env file's text, in order.
pub open spec fn spec_parse_env(s: Seq<char>) -> Seq<(Seq<char>, Seq<char>)> {
    spec_parse_env_from(s, 0)
}

/// Parses one line into its binding, if it has one.
fn env_entry_of_line(v: &Vec<char>, from: usize, to: usize) -> (r: Option<(String, String)>)
    requires
        from <= to <= v@.len(),
    ensures
        r.deep_view() == spec_env_entry(v@.subrange(from as int, to as int)),
{
    let ghost line = v@.subrange(from as int, to as int);
    let (tlo, thi) = trim_range(v, from, to);
    let ghost t = spec_trim(line);
    if tlo == thi {
        return None;
    }
    if v[tlo] == '#' {
        return None;
    }
    let has_export = thi - tlo >= 7 && v[tlo] == 'e' && v[tlo + 1] == 'x' && v[tlo + 2] == 'p'
        && v[tlo + 3] == 'o' && v[tlo + 4] == 'r' && v[tlo + 5] == 't' && v[tlo + 6] == ' ';
    let rlo: usize = if has_export {
        tlo + 7
    } else {
        tlo
    };
    let ghost rest = v@.subrange(rlo as int, thi as int);
    proof {
        reveal_strlit("export ");
        if t.len() >= 7 {
            assert(t.subrange(0, 7) =~= v@.subrange(tlo as int, tlo + 7));
        }
        if has_export {
            assert(t.subrange(0, 7) == "export "@);
            assert(rest =~= t.skip(7));
        } else {
            if t.len() >= 7 && t.subrange(0, 7) == "export "@ {
                assert(t[0] == 'e' && t[1] == 'x' && t[2] == 'p' && t[3] == 'o' && t[4] == 'r'
                    && t[5] == 't' && t[6] == ' ');
                assert(false);
            }
            assert(rest =~= t);
        }
    }
    proof {
        crate::text::lemma_find_from_subrange(v@, rlo as int, thi as int, 0, '=');
    }
    let eq = match find_char(v, rlo, thi, '=') {
        None => {
            return None;
        },
        Some(e) => e,
    };
    let (klo, khi) = trim_range(v, rlo, eq);
    proof {
        assert(v@.subrange(rlo as int, eq as int) =~= rest.subrange(0, eq - rlo));
    }
    if klo == khi {
        return None;
    }
    let (vlo, vhi) = trim_range(v, eq + 1, thi);
    proof {
        assert(v@.subrange(eq + 1, thi as int) =~= rest.subrange(eq - rlo + 1, rest.len() as int));
    }
    let ghost value = spec_trim(rest.subrange(eq - rlo + 1, rest.len() as int));
    let quoted = vhi - vlo >= 2 && ((v[vlo] == '"' && v[vhi - 1] == '"') || (v[vlo] == '\'' && v[vhi
        - 1] == '\''));
    let key = chars_to_string(v, klo, khi);
    let val = if quoted {
        chars_to_string(v, vlo + 1, vhi - 1)
    } else {
        chars_to_string(v, vlo, vhi)
    };
    proof {
        if quoted {
            assert(v@.subrange(vlo + 1, vhi - 1) =~= spec_unquote(value));
        } else {
            assert(v@.subrange(vlo as int, vhi as int) =~= spec_unquote(value));
        }
    }
    Some((key, val))
}

/// Parses the text of an env file into its bindings, in file order.
pub fn parse_env_file(content: &str) -> (r: Vec<(String, String)>)
    ensures
        r.deep_view() == spec_parse_env(content@),
{
    let v = str_to_chars(content);
    let n: usize = v.len();
    let mut r: Vec<(String, String)> = Vec::new();
    let mut pos: usize = 0;
    while pos < n
        invariant
            pos <= n,
            n == v@.len(),
            v@ == content@,
            r.deep_view() + spec_parse_env_from(content@, pos as int) == spec_parse_env(content@),
        decreases n - pos,
    {
        proof {
            crate::text::lemma_find_from_subrange(v@, 0, n as int, pos as int, '\n');
            assert(v@.subrange(0, n as int) =~= v@);
        }
        let nl = find_char(&v, pos, n, '\n');
        let line_end: usize = match nl {
            Some(k) => k,
            None => n,
        };
        let stripped_end: usize = if line_end > pos && v[line_end - 1] == '\r' {
            line_end - 1
        } else {
            line_end
        };
        proof {
            assert(v@.subrange(pos as int, stripped_end as int) =~= strip_cr(
                v@.subrange(pos as int, line_end as int),
            ));
        }
        let entry = env_entry_of_line(&v, pos, stripped_end);
        match entry {
            Some(e) => {
                r.push(e);
            },
            None => {},
        }
        proof {
            assert(r.deep_view() + spec_parse_env_from(
                content@,
                match nl {
                    Some(k) => k + 1,
                    None => n as int,
                },
            ) =~= spec_parse_env(content@));
        }
        pos = match nl {
            Some(k) => k + 1,
            None => n,
        };
    }
    proof {
        assert(r.deep_view() + spec_parse_env_from(content@, pos as int) =~= r.deep_view());
        assert(r.deep_view() =~= spec_parse_env(content@));
    }
    r
}

/// Full resolution as the binaries perform it: the env file's text is
/// parsed, then the layers are combined. The caller reads the file named
/// by `overrides.env_path` (by default `.env`) and passes its text, or
/// nothing when the file does not exist.
pub fn resolve_runtime_paths(
    overrides: RuntimeOverrides,
    env_file_content: Option<&str>,
    env_vars: &Vec<(String, String)>,
) -> (r: Result<RuntimePaths, ConfigError>)
    ensures
        ({
            let f = match env_file_content {
                Some(c) => spec_parse_env(c@),
                None => Seq::empty(),
            };
            let e = env_vars.deep_view();
            let media = root_of("MEDIA_ROOT"@, f, e, overrides.media_root.deep_view());
            let www = root_of("WWW_ROOT"@, f, e, overrides.www_root.deep_view());
            match r {
                Ok(p) => {
                    &&& media matches Some(m) && p.media_root@ == m
                    &&& www matches Some(w) && p.www_root@ == w
                    &&& p.newtube_port == port_of(f, e, overrides.newtube_port)
                    &&& p.newtube_host@ == host_of(f, e, overrides.newtube_host.deep_view())
                },
                Err(err) => {
                    &&& err is MissingMediaRoot <==> media is None
                    &&& err is MissingWwwRoot ==> media is Some && www is None
                    &&& media is None || www is None
                },
            }
        }),
{
    let file_vars = match env_file_content {
        Some(c) => parse_env_file(c),
        None => Vec::new(),
    };
    proof {
        if env_file_content is None {
            assert(file_vars.deep_view() =~= Seq::<(Seq<char>, Seq<char>)>::empty());
        }
    }
    build_runtime_paths_with_overrides(&file_vars, env_vars, overrides)
}

/// Resolution with no overrides at all, as the plain binaries start up.
pub fn load_runtime_paths(env_file_content: Option<&str>, env_vars: &Vec<(String, String)>) -> (r:
    Result<RuntimePaths, ConfigError>)
    ensures
        ({
            let f = match env_file_content {
                Some(c) => spec_parse_env(c@),
                None => Seq::empty(),
            };
            let e = env_vars.deep_view();
            match r {
                Ok(p) => {
                    &&& spec_lookup("MEDIA_ROOT"@, f, e) matches Some(m) && p.media_root@ == m
                    &&& spec_lookup("WWW_ROOT"@, f, e) matches Some(w) && p.www_root@ == w
                    &&& p.newtube_port == port_of(f, e, None)
                    &&& p.newtube_host@ == host_of(f, e, None)
                },
                Err(err) => {
                    &&& err is MissingMediaRoot <==> spec_lookup("MEDIA_ROOT"@, f, e) is None
                    &&& spec_lookup("MEDIA_ROOT"@, f, e) is None || spec_lookup(
                        "WWW_ROOT"@,
                        f,
                        e,
                    ) is None
                },
            }
        }),
{
    resolve_runtime_paths(RuntimeOverrides::default(), env_file_content, env_vars)
}


/// A value as it is written back into an env file: backslashes doubled
/// and double quotes escaped.
pub open spec fn env_escape_char(c: char) -> Seq<char> {
    if c == '\\' {
        seq!['\\', '\\']
    } else if c == '"' {
        seq!['\\', '"']
    } else {
        seq![c]
    }
}

pub open spec fn env_escaped(s: Seq<char>) -> Seq<char>
    decreases s.len(),
{
    if s.len() == 0 {
        Seq::empty()
    } else {
        env_escape_char(s[0]) + env_escaped(s.drop_first())
    }
}

proof fn lemma_env_escaped_push(s: Seq<char>, c: char)
    ensures
        env_escaped(s.push(c)) == env_escaped(s) + env_escape_char(c),
    decreases s.len(),
{
    if s.len() == 0 {
        assert(s.push(c)[0] == c);
        assert(s.push(c).drop_first() =~= Seq::<char>::empty());
        assert(env_escaped(s.push(c)) == env_escape_char(c) + env_escaped(Seq::<char>::empty()));
        assert(env_escape_char(c) + Seq::<char>::empty() =~= env_escape_char(c));
        assert(env_escaped(s) + env_escape_char(c) =~= env_escape_char(c));
    } else {
        assert(s.push(c).drop_first() =~= s.drop_first().push(c));
        lemma_env_escaped_push(s.drop_first(), c);
        assert(env_escaped(s.push(c)) =~= env_escaped(s) + env_escape_char(c));
    }
}

/// Appends the env-file-escaped form of `s`.
fn push_env_escaped(out: &mut String, s: &str)
    ensures
        final(out)@ == old(out)@ + env_escaped(s@),
{
    let n: usize = s.unicode_len();
    let mut i: usize = 0;
    while i < n
        invariant
            i <= n,
            n == s@.len(),
            out@ == old(out)@ + env_escaped(s@.take(i as int)),
        decreases n - i,
    {
        let c = s.get_char(i);
        if c == '\\' {
            crate::text::push_char(out, '\\');
            crate::text::push_char(out, '\\');
        } else if c == '"' {
            crate::text::push_char(out, '\\');
            crate::text::push_char(out, '"');
        } else {
            crate::text::push_char(out, c);
        }
        proof {
            lemma_env_escaped_push(s@.take(i as int), s@[i as int]);
            assert(s@.take(i + 1) =~= s@.take(i as int).push(s@[i as int]));
            assert(out@ =~= old(out)@ + env_escaped(s@.take(i + 1)));
        }
        i = i + 1;
    }
    proof {
        assert(s@.take(n as int) =~= s@);
    }
}

/// One line of the rewrite: an assignment to `key` — indentation and an
/// `export ` prefix allowed and kept — becomes `key="escaped"`; any
/// other line stands as it was.
pub open spec fn spec_upsert_line(line: Seq<char>, key: Seq<char>, esc: Seq<char>) -> (
    Seq<char>,
    bool,
) {
    let ind = crate::text::ltrim_idx(line, 0);
    let indent = line.subrange(0, ind);
    let trimmed = line.subrange(ind, line.len() as int);
    let has_export = trimmed.len() >= 7 && trimmed.subrange(0, 7) == "export "@;
    let prefix = if has_export {
        "export "@
    } else {
        Seq::<char>::empty()
    };
    let rest = if has_export {
        trimmed.skip(7)
    } else {
        trimmed
    };
    match find_from(rest, 0, '=') {
        None => (line, false),
        Some(eq) => if spec_trim(rest.subrange(0, eq)) == key {
            (indent + prefix + key + "=\""@ + esc + "\""@, true)
        } else {
            (line, false)
        },
    }
}

/// The rewritten file from position `from` on: each line (a trailing
/// carriage return dropped) followed by a newline; when no line carried
/// the key, a fresh assignment ends the file.
pub open spec fn spec_upsert_from(
    s: Seq<char>,
    from: int,
    key: Seq<char>,
    esc: Seq<char>,
    updated: bool,
) -> Seq<char>
    decreases s.len() - from + 1,
    via spec_upsert_from_dec
{
    if from < 0 || from >= s.len() {
        if updated {
            Seq::empty()
        } else {
            key + "=\""@ + esc + "\""@ + "\n"@
        }
    } else {
        let end = match find_from(s, from, '\n') {
            Some(k) => k,
            None => s.len() as int,
        };
        let rewritten = spec_upsert_line(strip_cr(s.subrange(from, end)), key, esc);
        rewritten.0 + "\n"@ + spec_upsert_from(s, end + 1, key, esc, updated || rewritten.1)
    }
}

#[via_fn]
proof fn spec_upsert_from_dec(s: Seq<char>, from: int, key: Seq<char>, esc: Seq<char>, updated: bool) {
    crate::text::lemma_find_from_bounds(s, from, '\n');
}

/// The whole file rewritten so that `key` holds `value`: the first and
/// every other assignment to the key is replaced in place, its
/// surroundings kept; a file without one gains it as a final line.
pub open spec fn spec_upsert_env(content: Seq<char>, key: Seq<char>, value: Seq<char>) -> Seq<
    char,
> {
    spec_upsert_from(content, 0, key, env_escaped(value), false)
}

/// Rewrites one line.
fn upsert_line(v: &Vec<char>, from: usize, to: usize, key: &str, esc: &str) -> (r: (String, bool))
    requires
        from <= to <= v@.len(),
    ensures
        (r.0@, r.1) == spec_upsert_line(v@.subrange(from as int, to as int), key@, esc@),
{
    let ghost line = v@.subrange(from as int, to as int);
    // Leading whitespace is kept as indentation.
    let mut lo: usize = from;
    while lo < to && crate::text::is_ws_char(v[lo])
        invariant
            from <= lo <= to <= v@.len(),
            line == v@.subrange(from as int, to as int),
            crate::text::ltrim_idx(line, 0) == crate::text::ltrim_idx(line, lo - from),
        decreases to - lo,
    {
        proof {
            assert(line[lo - from] == v@[lo as int]);
        }
        lo = lo + 1;
    }
    proof {
        if lo < to {
            assert(line[lo - from] == v@[lo as int]);
        }
        assert(crate::text::ltrim_idx(line, 0) == lo - from);
    }
    let ghost trimmed = line.skip(lo - from);
    proof {
        assert(trimmed =~= v@.subrange(lo as int, to as int));
        assert(trimmed =~= line.subrange(lo - from, line.len() as int));
    }
    let has_export = to - lo >= 7 && v[lo] == 'e' && v[lo + 1] == 'x' && v[lo + 2] == 'p' && v[lo
        + 3] == 'o' && v[lo + 4] == 'r' && v[lo + 5] == 't' && v[lo + 6] == ' ';
    let rlo: usize = if has_export {
        lo + 7
    } else {
        lo
    };
    let ghost rest = v@.subrange(rlo as int, to as int);
    proof {
        reveal_strlit("export ");
        if trimmed.len() >= 7 {
            assert(trimmed.subrange(0, 7) =~= v@.subrange(lo as int, lo + 7));
        }
        if has_export {
            assert(trimmed.subrange(0, 7) == "export "@);
            assert(rest =~= trimmed.skip(7));
        } else {
            if trimmed.len() >= 7 && trimmed.subrange(0, 7) == "export "@ {
                assert(trimmed[0] == 'e' && trimmed[1] == 'x' && trimmed[2] == 'p' && trimmed[3]
                    == 'o' && trimmed[4] == 'r' && trimmed[5] == 't' && trimmed[6] == ' ');
                assert(false);
            }
            assert(rest =~= trimmed);
        }
    }
    proof {
        crate::text::lemma_find_from_subrange(v@, rlo as int, to as int, 0, '=');
    }
    let eq = match find_char(v, rlo, to, '=') {
        None => {
            return (chars_to_string(v, from, to), false);
        },
        Some(e) => e,
    };
    let (klo, khi) = trim_range(v, rlo, eq);
    proof {
        assert(v@.subrange(rlo as int, eq as int) =~= rest.subrange(0, eq - rlo));
    }
    let candidate = chars_to_string(v, klo, khi);
    if str_eq(candidate.as_str(), key) {
        let mut out = chars_to_string(v, from, lo);
        if has_export {
            out.append("export ");
        }
        out.append(key);
        out.append("=\"");
        out.append(esc);
        out.append("\"");
        proof {
            assert(v@.subrange(from as int, lo as int) =~= line.subrange(0, lo - from));
            assert(out@ =~= spec_upsert_line(line, key@, esc@).0);
        }
        (out, true)
    } else {
        (chars_to_string(v, from, to), false)
    }
}

/// Rewrites an env file's text so that `key` holds `value`, keeping
/// unrelated lines, comments, indentation and `export ` prefixes.
#[verifier::rlimit(60)]
pub fn upsert_env_lines(content: &str, key: &str, value: &str) -> (r: String)
    ensures
        r@ == spec_upsert_env(content@, key@, value@),
{
    let mut esc = String::new();
    push_env_escaped(&mut esc, value);
    let ghost esc_s = env_escaped(value@);
    proof {
        assert(esc@ =~= esc_s);
    }
    let v = str_to_chars(content);
    let n: usize = v.len();
    let mut out = String::new();
    let mut updated = false;
    let mut pos: usize = 0;
    while pos < n
        invariant
            pos <= n,
            n == v@.len(),
            v@ == content@,
            esc@ == esc_s,
            esc_s == env_escaped(value@),
            out@ + spec_upsert_from(content@, pos as int, key@, esc_s, updated)
                == spec_upsert_env(content@, key@, value@),
        decreases n - pos,
    {
        proof {
            assert(v@.subrange(0, n as int) =~= v@);
        }
        let line_end: usize = match find_char(&v, pos, n, '\n') {
            Some(k) => k,
            None => n,
        };
        let stripped_end: usize = if line_end > pos && v[line_end - 1] == '\r' {
            line_end - 1
        } else {
            line_end
        };
        proof {
            assert(v@.subrange(pos as int, stripped_end as int) =~= strip_cr(
                v@.subrange(pos as int, line_end as int),
            ));
        }
        let rewritten = upsert_line(&v, pos, stripped_end, key, esc.as_str());
        out.append(rewritten.0.as_str());
        out.append("\n");
        updated = updated || rewritten.1;
        proof {
            let nxt = if line_end < n {
                line_end + 1
            } else {
                n as int + 1
            };
            assert(out@ + spec_upsert_from(content@, line_end + 1, key@, esc_s, updated)
                =~= spec_upsert_env(content@, key@, value@));
            assert(spec_upsert_from(content@, n as int, key@, esc_s, updated)
                == spec_upsert_from(content@, n as int + 1, key@, esc_s, updated));
        }
        if line_end == n {
            pos = n;
        } else {
            pos = line_end + 1;
        }
    }
    if !updated {
        out.append(key);
        out.append("=\"");
        out.append(esc.as_str());
        out.append("\"");
        out.append("\n");
    }
    proof {
        assert(out@ =~= spec_upsert_env(content@, key@, value@));
    }
    out
}

} // verus!
