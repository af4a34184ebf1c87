//! Runtime configuration: where it lives, how a configuration file becomes a
//! [`Config`], and how command-line overrides are applied.
use vstd::prelude::*;
use crate::text::{path_join, join_path, concat3, occurs_at, matches_at, first_index_of, contains_seq};

verus! {

/// Runtime configuration (the file's values merged with command-line overrides).
#[derive(Clone, Debug)]
pub struct Config {
    pub database_url: String,
    pub teloxide_token: String,
    pub chat_id: i64,
    pub filter: Option<Vec<String>>,
}

/// Directory used when the platform reports no home directory.
pub open spec fn fallback_config_dir() -> Seq<char> {
    ".config/notify-bot-dut"@
}

/// The project configuration directory that the `directories` crate reports
/// for this application, as a `String`.
///
/// Calls `directories::ProjectDirs::from` and `ProjectDirs::config_dir`. The
/// answer depends on the environment (`$XDG_CONFIG_HOME`, `$HOME`) and on the
/// platform; what is stated is what every platform's answer has: the
/// directory ends in a project path that holds the application name (as is,
/// lowercased on Linux, inside the bundle id on macOS), so a lowercase
/// application name without spaces, such as this one, occurs in the path.
#[verifier::external_body]
fn project_config_dir(qualifier: &str, organization: &str, application: &str) -> (r: Option<String>)
    ensures
        application@ == "notify-bot-dut"@ ==> (r matches Some(p) ==> contains_seq(p@, "notify-bot-dut"@)),
{
    directories::ProjectDirs::from(qualifier, organization, application)
        .map(|d| d.config_dir().to_string_lossy().into_owned())
}

/// The configuration directory given what the platform reported: the
/// project directory when there is one, else the relative fallback.
pub fn config_dir_from(found: Option<String>) -> (dir: String)
    ensures
        dir@ == (match found {
            Some(d) => d@,
            None => fallback_config_dir(),
        }),
{
    match found {
        Some(d) => d,
        None => {
            proof { reveal_strlit(".config/notify-bot-dut"); }
            String::from_str(".config/notify-bot-dut")
        }
    }
}

/// Path of the configuration directory (`~/.config/notify-bot-dut/` on
/// Linux): the project directory the platform reports, or the relative
/// fallback; either way it names the application.
pub fn config_dir() -> (dir: String)
    ensures
        contains_seq(dir@, "notify-bot-dut"@),
{
    proof {
        reveal_strlit("notify-bot-dut");
        reveal_strlit(".config/notify-bot-dut");
        assert(fallback_config_dir().subrange(8, 22) =~= "notify-bot-dut"@);
        assert(occurs_at(fallback_config_dir(), "notify-bot-dut"@, 8));
    }
    let found = project_config_dir("com", "", "notify-bot-dut");
    config_dir_from(found)
}

/// The main separator of path components on this platform (`/` on Unix,
/// `\\` on Windows): `std::path::MAIN_SEPARATOR_STR`. Its value is fixed when
/// the library is built for a platform, so nothing is stated of it here;
/// the functions that join paths take it as an argument.
#[verifier::external_body]
fn main_separator() -> (sep: &'static str) {
    std::path::MAIN_SEPARATOR_STR
}

/// Path of `config.json` inside the configuration directory `dir`, on a
/// platform whose main path separator is `sep`.
pub fn config_file_path_in(dir: &str, sep: &str) -> (path: String)
    ensures
        path@ == path_join(dir@, "config.json"@, sep@),
{
    join_path(dir, "config.json", sep)
}

/// Path of the `config.json` file, inside the configuration directory,
/// joined with this platform's main separator.
pub fn config_file_path() -> (path: String)
    ensures
        exists|dir: Seq<char>, sep: Seq<char>|
            contains_seq(dir, "notify-bot-dut"@) && path@ == path_join(dir, "config.json"@, sep),
{
    let dir = config_dir();
    let sep = main_separator();
    config_file_path_in(dir.as_str(), sep)
}

/// The SQLite connection URL for the database file `college.db` inside `dir`,
/// on a platform whose main path separator is `sep`.
pub fn database_url_in(dir: &str, sep: &str) -> (url: String)
    ensures
        url@ == "sqlite://"@ + path_join(dir@, "college.db"@, sep@) + "?mode=rwc"@,
{
    let file = join_path(dir, "college.db", sep);
    concat3("sqlite://", file.as_str(), "?mode=rwc")
}

impl Config {
    /// Applies command-line overrides: each value that is given replaces the
    /// loaded one, except that an empty filter list leaves the filter as it was.
    pub fn apply_overrides(
        &mut self,
        token: Option<String>,
        chat_id: Option<i64>,
        filter: Option<Vec<String>>,
    )
        ensures
            final(self).database_url == old(self).database_url,
            final(self).teloxide_token == (match token {
                Some(t) => t,
                None => old(self).teloxide_token,
            }),
            final(self).chat_id == (match chat_id {
                Some(c) => c,
                None => old(self).chat_id,
            }),
            final(self).filter == (match filter {
                Some(f) => if f@.len() > 0 { Some(f) } else { old(self).filter },
                None => old(self).filter,
            }),
    {
        if let Some(t) = token {
            self.teloxide_token = t;
        }
        if let Some(c) = chat_id {
            self.chat_id = c;
        }
        if let Some(f) = filter {
            if f.len() > 0 {
                self.filter = Some(f);
            }
        }
    }
}


/// The configuration file as written on disk (every field may be missing).
pub struct ConfigFile {
    pub teloxide_token: Option<String>,
    pub chat_id: Option<i64>,
    pub filter_notice: Option<Vec<String>>,
}

/// Why a configuration file cannot be used.
#[derive(Clone, Copy, Debug, PartialEq, Eq, Structural)]
pub enum ConfigError {
    /// `teloxide_token` is missing or empty.
    MissingToken,
    /// `chat_id` is missing or 0.
    MissingChatId,
}

impl Config {
    /// The configuration that a configuration file gives, with the database
    /// at `database_url`: the token must be present and non-empty (checked
    /// first), the chat id present and non-zero; the filter is taken as it is.
    pub fn from_file(database_url: String, file: ConfigFile) -> (r: Result<Config, ConfigError>)
        ensures
            match file.teloxide_token {
                None => r == Err::<Config, ConfigError>(ConfigError::MissingToken),
                Some(t) => if t@.len() == 0 {
                    r == Err::<Config, ConfigError>(ConfigError::MissingToken)
                } else {
                    match file.chat_id {
                        None => r == Err::<Config, ConfigError>(ConfigError::MissingChatId),
                        Some(c) => if c == 0 {
                            r == Err::<Config, ConfigError>(ConfigError::MissingChatId)
                        } else {
                            r matches Ok(cfg) && cfg.database_url == database_url && cfg.teloxide_token == t
                                && cfg.chat_id == c && cfg.filter == file.filter_notice
                        },
                    }
                },
            },
    {
        let teloxide_token = match file.teloxide_token {
            Some(t) => {
                if t.as_str().unicode_len() == 0 {
                    return Err(ConfigError::MissingToken);
                }
                t
            },
            None => return Err(ConfigError::MissingToken),
        };
        let chat_id = match file.chat_id {
            Some(c) => {
                if c == 0 {
                    return Err(ConfigError::MissingChatId);
                }
                c
            },
            None => return Err(ConfigError::MissingChatId),
        };
        Ok(Config { database_url, teloxide_token, chat_id, filter: file.filter_notice })
    }
}

/// The configuration file written when there is none yet.
pub open spec fn config_template_text() -> Seq<char> {
    "{\n  \"teloxide_token\": \"\",\n  \"chat_id\": 0,\n  \"filter_notice\": [\"23.Nh16\", \"23.Nh44\"]\n}\n"@
}

/// The configuration file written when there is none yet.
pub fn config_template() -> (r: &'static str)
    ensures
        r@ == config_template_text(),
{
    "{\n  \"teloxide_token\": \"\",\n  \"chat_id\": 0,\n  \"filter_notice\": [\"23.Nh16\", \"23.Nh44\"]\n}\n"
}

/// `s` without every leading repetition of `p` (`trim_start_matches(p)`).
pub open spec fn trim_prefix_all(s: Seq<char>, p: Seq<char>) -> Seq<char>
    decreases s.len(),
{
    if p.len() > 0 && occurs_at(s, p, 0) {
        trim_prefix_all(s.skip(p.len() as int), p)
    } else {
        s
    }
}

/// `s` up to its first `c` (the first piece of `split(c)`).
pub open spec fn before_char(s: Seq<char>, c: char) -> Seq<char> {
    match first_index_of(s, c) {
        Some(i) => s.take(i),
        None => s,
    }
}

/// The file path in an SQLite URL: without the `sqlite://` scheme and
/// without the query after `?`.
pub open spec fn sqlite_path_of(url: Seq<char>) -> Seq<char> {
    before_char(trim_prefix_all(url, "sqlite://"@), '?')
}

proof fn lemma_trim_prefix_step(s: Seq<char>, p: Seq<char>, a: int)
    requires
        p.len() > 0,
        0 <= a,
        a + p.len() <= s.len(),
        occurs_at(s.skip(a), p, 0),
    ensures
        trim_prefix_all(s.skip(a), p) == trim_prefix_all(s.skip(a + p.len()), p),
{
    assert(s.skip(a).skip(p.len() as int) =~= s.skip(a + p.len()));
}

/// The file path of the database in an SQLite URL (see [`sqlite_path_of`]).
pub fn sqlite_path_of_url(url: &str) -> (r: String)
    ensures
        r@ == sqlite_path_of(url@),
{
    proof { reveal_strlit("sqlite://"); }
    let n = url.unicode_len();
    let p = "sqlite://";
    let pn = p.unicode_len();
    let mut a: usize = 0;
    assert(url@.skip(0) =~= url@);
    while pn <= n - a && matches_at(url, n, p, pn, a)
        invariant
            n == url@.len(),
            pn == p@.len(),
            pn > 0,
            a <= n,
            trim_prefix_all(url@, p@) == trim_prefix_all(url@.skip(a as int), p@),
        decreases n - a,
    {
        proof {
            assert(url@.skip(a as int).subrange(0, pn as int) =~= url@.subrange(a as int, a + pn));
            lemma_trim_prefix_step(url@, p@, a as int);
        }
        a = a + pn;
    }
    let ghost t = url@.skip(a as int);
    proof {
        if a + pn <= n {
            assert(t.subrange(0, pn as int) =~= url@.subrange(a as int, a + pn));
        }
        assert(!occurs_at(t, p@, 0));
        assert(trim_prefix_all(t, p@) == t);
    }
    let mut i: usize = a;
    while i < n && url.get_char(i) != '?'
        invariant
            a <= i <= n,
            n == url@.len(),
            t == url@.skip(a as int),
            forall|k: int| 0 <= k < i - a ==> t[k] != '?',
        decreases n - i,
    {
        assert(t[i - a] == url@[i as int]);
        i = i + 1;
    }
    proof {
        if i < n {
            assert(t[i - a] == url@[i as int]);
            let j = choose|j: int| 0 <= j < t.len() && t[j] == '?' && forall|k: int| 0 <= k < j ==> t[k] != '?';
            assert(0 <= j < t.len() && t[j] == '?' && forall|k: int| 0 <= k < j ==> t[k] != '?');
            if j < i - a {
                assert(t[j] != '?');
            } else if j > i - a {
                assert(t[i - a] != '?');
            }
            assert(first_index_of(t, '?') == Some(i - a));
        } else {
            assert(first_index_of(t, '?') is None) by {
                if exists|j: int| 0 <= j < t.len() && t[j] == '?' {
                    let j = choose|j: int| 0 <= j < t.len() && t[j] == '?';
                    assert(t[j] != '?');
                }
            }
            assert(t.take(i - a) =~= t);
        }
        assert(t.take(i - a) =~= url@.subrange(a as int, i as int));
    }
    String::from_str(url.substring_char(a, i))
}

} // verus!
