//! Service configuration: the values read from the environment, their
//! defaults, and the `.env` file format used when `dotenv` finds no file.

use vstd::prelude::*;

use vstd::slice::slice_subrange;

use crate::text::{
    chars_of, find, find_char_from, find_exec, parse_unsigned, parse_unsigned_exec,
    string_of, string_of_range, trim, trim_bounds,
};

verus! {

/// The settings of the service.
#[derive(Clone, Debug)]
pub struct Config {
    pub app_name: String,
    pub app_port: u16,
    pub app_host: String,
    pub database_url: String,
    pub smallpict_mode: String,
    pub smallpict_base_url: String,
    pub smallpict_api_key: String,
    pub smallpict_secret_key: String,
    pub smallpict_format: String,
    pub smallpict_quality: u8,
    pub upload_path: String,
}

/// The environment variables that the configuration is built from, each
/// `None` where the variable is unset (or not Unicode).
#[derive(Clone, Debug)]
pub struct EnvVars {
    pub db_host: Option<String>,
    pub db_port: Option<String>,
    pub db_user: Option<String>,
    pub db_pass: Option<String>,
    pub db_name: Option<String>,
    pub db_sslmode: Option<String>,
    pub database_url: Option<String>,
    pub app_name: Option<String>,
    pub app_port: Option<String>,
    pub app_host: Option<String>,
    pub smallpict_mode: Option<String>,
    pub smallpict_base_url: Option<String>,
    pub smallpict_api_key: Option<String>,
    pub smallpict_secret_key: Option<String>,
    pub smallpict_format: Option<String>,
    pub smallpict_quality: Option<String>,
    pub upload_path: Option<String>,
}

/// The value of a variable, or `d` where it is unset.
pub open spec fn value_or(v: Option<String>, d: Seq<char>) -> Seq<char> {
    match v {
        Some(s) => s@,
        None => d,
    }
}

/// A variable read as an unsigned number no larger than `max`, or `d` where it
/// is unset or does not parse.
pub open spec fn number_or(v: Option<String>, max: nat, d: nat) -> nat {
    match v {
        Some(s) => match parse_unsigned(s@, max) {
            Some(n) => n,
            None => d,
        },
        None => d,
    }
}

/// The PostgreSQL connection URL built from its parts.
pub open spec fn database_url_from(
    user: Seq<char>,
    pass: Seq<char>,
    host: Seq<char>,
    port: Seq<char>,
    name: Seq<char>,
    ssl: Seq<char>,
) -> Seq<char> {
    "postgres://"@ + user + ":"@ + pass + "@"@ + host + ":"@ + port + "/"@ + name + "?sslmode="@
        + ssl
}

/// The connection URL that stands where `DATABASE_URL` is unset.
pub open spec fn default_database_url(vars: EnvVars) -> Seq<char> {
    database_url_from(
        value_or(vars.db_user, "postgres"@),
        value_or(vars.db_pass, "postgres"@),
        value_or(vars.db_host, "localhost"@),
        value_or(vars.db_port, "5432"@),
        value_or(vars.db_name, "smallpict"@),
        value_or(vars.db_sslmode, "disable"@),
    )
}

/// The PostgreSQL connection URL built from its parts.
pub fn build_database_url(
    user: &str,
    pass: &str,
    host: &str,
    port: &str,
    name: &str,
    ssl: &str,
) -> (url: String)
    ensures
        url@ == database_url_from(user@, pass@, host@, port@, name@, ssl@),
{
    let mut url = String::from_str("postgres://");
    url.append(user);
    url.append(":");
    url.append(pass);
    url.append("@");
    url.append(host);
    url.append(":");
    url.append(port);
    url.append("/");
    url.append(name);
    url.append("?sslmode=");
    url.append(ssl);
    url
}

/// The value of an optional variable, or `default`.
pub fn string_or(v: &Option<String>, default: &str) -> (s: String)
    ensures
        s@ == value_or(*v, default@),
{
    match v {
        Some(s) => s.clone(),
        None => String::from_str(default),
    }
}

/// A variable read as a number no larger than `max`, or `default`.
fn number_or_exec(v: &Option<String>, max: u64, default: u64) -> (n: u64)
    requires
        max <= u32::MAX,
    ensures
        n == number_or(*v, max as nat, default as nat),
{
    match v {
        Some(s) => match parse_unsigned_exec(s.as_str(), max) {
            Some(n) => n,
            None => default,
        },
        None => default,
    }
}

impl Config {
    /// The configuration from the environment's values: each setting is its
    /// variable where that is set, and its default otherwise; the port and
    /// the quality fall back to their defaults also where they do not parse.
    pub fn from_vars(vars: &EnvVars) -> (c: Config)
        ensures
            c.app_name@ == value_or(vars.app_name, "SmallPict Rust Service"@),
            c.app_port == number_or(vars.app_port, 65535, 8007),
            c.app_host@ == value_or(vars.app_host, "0.0.0.0"@),
            c.database_url@ == match vars.database_url {
                Some(u) => u@,
                None => default_database_url(*vars),
            },
            c.smallpict_mode@ == value_or(vars.smallpict_mode, "locale"@),
            c.smallpict_base_url@ == value_or(vars.smallpict_base_url, "https://api.smallpict.app"@),
            c.smallpict_api_key@ == value_or(vars.smallpict_api_key, ""@),
            c.smallpict_secret_key@ == value_or(vars.smallpict_secret_key, ""@),
            c.smallpict_format@ == value_or(vars.smallpict_format, "auto"@),
            c.smallpict_quality == number_or(vars.smallpict_quality, 255, 80),
            c.upload_path@ == value_or(vars.upload_path, "./uploads"@),
    {
        let db_host = string_or(&vars.db_host, "localhost");
        let db_port = string_or(&vars.db_port, "5432");
        let db_user = string_or(&vars.db_user, "postgres");
        let db_pass = string_or(&vars.db_pass, "postgres");
        let db_name = string_or(&vars.db_name, "smallpict");
        let db_ssl = string_or(&vars.db_sslmode, "disable");
        let default_db_url = build_database_url(
            db_user.as_str(),
            db_pass.as_str(),
            db_host.as_str(),
            db_port.as_str(),
            db_name.as_str(),
            db_ssl.as_str(),
        );
        let database_url = match &vars.database_url {
            Some(u) => u.clone(),
            None => default_db_url,
        };
        let port = number_or_exec(&vars.app_port, 65535, 8007);
        let quality = number_or_exec(&vars.smallpict_quality, 255, 80);
        Config {
            app_name: string_or(&vars.app_name, "SmallPict Rust Service"),
            app_port: port as u16,
            app_host: string_or(&vars.app_host, "0.0.0.0"),
            database_url,
            smallpict_mode: string_or(&vars.smallpict_mode, "locale"),
            smallpict_base_url: string_or(&vars.smallpict_base_url, "https://api.smallpict.app"),
            smallpict_api_key: string_or(&vars.smallpict_api_key, ""),
            smallpict_secret_key: string_or(&vars.smallpict_secret_key, ""),
            smallpict_format: string_or(&vars.smallpict_format, "auto"),
            smallpict_quality: quality as u8,
            upload_path: string_or(&vars.upload_path, "./uploads"),
        }
    }
}

// ---------------------------------------------------------------------------
// The `.env` file format
// ---------------------------------------------------------------------------

/// A value as a `.env` line gives it: without one pair of enclosing double or
/// single quotes, or else cut at its first `#` and trimmed.
pub open spec fn env_value(v: Seq<char>) -> Seq<char> {
    if v.len() >= 2 && v[0] == '"' && v.last() == '"' {
        v.subrange(1, v.len() - 1)
    } else if v.len() >= 2 && v[0] == '\'' && v.last() == '\'' {
        v.subrange(1, v.len() - 1)
    } else {
        match find(v, seq!['#']) {
            Some(i) => trim(v.take(i)),
            None => v,
        }
    }
}

/// A value enclosed in double or single quotes is the text between them,
/// whatever that text holds (a `#` in it is no comment).
pub proof fn lemma_quoted_env_value(x: Seq<char>)
    ensures
        env_value(seq!['"'] + x + seq!['"']) == x,
        env_value(seq!['\''] + x + seq!['\'']) == x,
{
    let d = seq!['"'] + x + seq!['"'];
    let q = seq!['\''] + x + seq!['\''];
    assert(d[0] == '"' && d.last() == '"');
    assert(d.subrange(1, d.len() - 1) =~= x);
    assert(q[0] == '\'' && q.last() == '\'');
    assert(q.subrange(1, q.len() - 1) =~= x);
}

/// An unquoted value without `#` is kept as it is; with a `#`, it ends
/// before the first `#`, trimmed.
pub proof fn lemma_unquoted_env_value(v: Seq<char>)
    requires
        v.len() == 0 || (v[0] != '"' && v[0] != '\''),
    ensures
        find(v, seq!['#']) matches Some(i) ==> env_value(v) == trim(v.take(i)),
        find(v, seq!['#']) is None ==> env_value(v) == v,
{
}

/// The variable that a `.env` line sets: none for a blank line, a comment, or
/// a line without `=`; otherwise the trimmed text before the first `=` and
/// the value after it.
pub open spec fn env_entry(line: Seq<char>) -> Option<(Seq<char>, Seq<char>)> {
    let l = trim(line);
    if l.len() == 0 || l[0] == '#' {
        None
    } else {
        match find(l, seq!['=']) {
            None => None,
            Some(i) => Some((trim(l.take(i)), env_value(trim(l.skip(i + 1))))),
        }
    }
}

/// The lines of `s`, split at each `\n`; a final `\n` ends the last line and
/// starts none.
pub open spec fn split_lines(s: Seq<char>) -> Seq<Seq<char>>
    decreases s.len(),
{
    match find(s, seq!['\n']) {
        Some(i) => if 0 <= i < s.len() {
            seq![s.take(i)] + split_lines(s.skip(i + 1))
        } else {
            seq![]
        },
        None => if s.len() == 0 {
            seq![]
        } else {
            seq![s]
        },
    }
}

/// The variables that the lines set, in order.
pub open spec fn env_entries(lines: Seq<Seq<char>>) -> Seq<(Seq<char>, Seq<char>)>
    decreases lines.len(),
{
    if lines.len() == 0 {
        seq![]
    } else {
        match env_entry(lines[0]) {
            Some(e) => seq![e] + env_entries(lines.drop_first()),
            None => env_entries(lines.drop_first()),
        }
    }
}

/// The characters of each entry.
pub open spec fn entries_view(v: Seq<(String, String)>) -> Seq<(Seq<char>, Seq<char>)> {
    v.map_values(|e: (String, String)| (e.0@, e.1@))
}

/// The value part of a `.env` line, already trimmed.
fn env_value_exec(v: &[char]) -> (r: String)
    ensures
        r@ == env_value(v@),
{
    let n = v.len();
    if n >= 2 && v[0] == '"' && v[n - 1] == '"' {
        return string_of_range(v, 1, n - 1);
    }
    if n >= 2 && v[0] == '\'' && v[n - 1] == '\'' {
        return string_of_range(v, 1, n - 1);
    }
    let hash = vec!['#'];
    assert(hash@ =~= seq!['#']);
    match find_exec(v, hash.as_slice()) {
        Some(i) => {
            proof {
                crate::text::lemma_find_from_found(v@, seq!['#'], 0);
            }
            let head = slice_subrange(v, 0, i);
            assert(head@ =~= v@.take(i as int));
            let (lo, hi) = trim_bounds(head);
            string_of_range(head, lo, hi)
        },
        None => string_of(v),
    }
}

/// The variable that the `.env` line `line` sets.
pub fn parse_env_line(line: &str) -> (r: Option<(String, String)>)
    ensures
        match r {
            Some(e) => env_entry(line@) == Some((e.0@, e.1@)),
            None => env_entry(line@) is None,
        },
{
    let all = chars_of(line);
    parse_env_chars(all.as_slice())
}

fn parse_env_chars(line: &[char]) -> (r: Option<(String, String)>)
    ensures
        match r {
            Some(e) => env_entry(line@) == Some((e.0@, e.1@)),
            None => env_entry(line@) is None,
        },
{
    let (lo, hi) = trim_bounds(line);
    let l = slice_subrange(line, lo, hi);
    assert(l@ =~= trim(line@));
    if l.len() == 0 || l[0] == '#' {
        return None;
    }
    let eq = vec!['='];
    assert(eq@ =~= seq!['=']);
    match find_exec(l, eq.as_slice()) {
        None => None,
        Some(i) => {
            proof {
                crate::text::lemma_find_from_found(l@, seq!['='], 0);
            }
            let head = slice_subrange(l, 0, i);
            assert(head@ =~= l@.take(i as int));
            let (klo, khi) = trim_bounds(head);
            let key = string_of_range(head, klo, khi);
            let rest = slice_subrange(l, i + 1, l.len());
            assert(rest@ =~= l@.skip(i + 1));
            let (vlo, vhi) = trim_bounds(rest);
            let trimmed = slice_subrange(rest, vlo, vhi);
            let value = env_value_exec(trimmed);
            Some((key, value))
        },
    }
}

/// The variables that the content of a `.env` file sets, in the order of its
/// lines.
pub fn parse_env_file(content: &str) -> (r: Vec<(String, String)>)
    ensures
        entries_view(r@) == env_entries(split_lines(content@)),
{
    let v = chars_of(content);
    let mut out: Vec<(String, String)> = Vec::new();
    let mut pos: usize = 0;
    assert(v@.skip(0) =~= v@);
    while pos < v.len()
        invariant
            pos <= v@.len(),
            v@ == content@,
            env_entries(split_lines(content@)) == entries_view(out@) + env_entries(
                split_lines(v@.skip(pos as int)),
            ),
        decreases v@.len() - pos,
    {
        let ghost rest = v@.skip(pos as int);
        let found = find_char_from(v.as_slice(), pos, '\n');
        let end = match found {
            Some(k) => k,
            None => v.len(),
        };
        let line = slice_subrange(v.as_slice(), pos, end);
        assert(line@ =~= rest.take(end - pos));
        let entry = parse_env_chars(line);
        let ghost before = entries_view(out@);
        match entry {
            Some(e) => {
                out.push(e);
            },
            None => {},
        }
        let next = if end < v.len() {
            end + 1
        } else {
            v.len()
        };
        proof {
            assert(entries_view(out@) == before + match env_entry(rest.take(end - pos)) {
                Some(e) => seq![e],
                None => Seq::<(Seq<char>, Seq<char>)>::empty(),
            }) by {
                assert(entries_view(out@) =~= before + match env_entry(
                    rest.take(end - pos),
                ) {
                    Some(e) => seq![e],
                    None => Seq::<(Seq<char>, Seq<char>)>::empty(),
                });
            }
            let lines = split_lines(rest);
            let tail = v@.skip(next as int);
            if end < v@.len() {
                assert(rest.skip(end - pos + 1) =~= tail);
                assert(lines == seq![rest.take(end - pos)] + split_lines(tail));
            } else {
                assert(rest.take(end - pos) =~= rest);
                assert(tail =~= Seq::<char>::empty());
                assert(split_lines(tail) =~= Seq::<Seq<char>>::empty());
                assert(lines == seq![rest]);
            }
            assert(lines.drop_first() =~= split_lines(tail));
            assert(env_entries(lines) == match env_entry(rest.take(end - pos)) {
                Some(e) => seq![e] + env_entries(split_lines(tail)),
                None => env_entries(split_lines(tail)),
            });
            assert(env_entries(split_lines(content@)) =~= entries_view(out@) + env_entries(
                split_lines(tail),
            ));
        }
        pos = next;
    }
    assert(v@.skip(pos as int) =~= Seq::<char>::empty());
    assert(split_lines(Seq::<char>::empty()) =~= Seq::<Seq<char>>::empty());
    assert(entries_view(out@) + Seq::<(Seq<char>, Seq<char>)>::empty() =~= entries_view(out@));
    out
}

} // verus!
