use vstd::prelude::*;
use crate::text::{has_substring, matching_lines, matching_lines_folded};
use crate::scan::{chars_of, find_first};
use crate::search::{search, search_case_insensitive, texts};

verus! {

/// What a run of the tool searches for, where, and how.
#[derive(Debug)]
pub struct Config {
    pub query: String,
    pub filename: String,
    pub case_sensitive: bool,
}

/// Why the arguments did not give a configuration.
#[derive(Debug, Clone, Copy, PartialEq, Eq, Structural)]
pub enum ConfigError {
    /// No query was given, or the query asks for the usage text.
    HelpRequested,
    /// A query was given but no file name.
    MissingFileName,
}

/// An argument that asks for the usage text.
pub open spec fn asks_for_help(arg: Seq<char>) -> bool {
    has_substring(arg, "help"@) || has_substring(arg, "-h"@)
}

/// Case sensitivity from the optional mode flag, else from whether the environment asks
/// for case-insensitive search.
pub open spec fn case_sensitivity(flag: Option<Seq<char>>, insensitive_env: bool) -> bool {
    match flag {
        Some(f) => f == "--case_sensitive"@,
        None => !insensitive_env,
    }
}

/// The mode flag among the arguments, if one was given.
pub open spec fn mode_flag(args: Seq<String>) -> Option<Seq<char>> {
    if args.len() > 3 {
        Some(args[3]@)
    } else {
        None
    }
}

/// Whether two character sequences are equal.
fn same_chars(a: &Vec<char>, b: &Vec<char>) -> (r: bool)
    ensures
        r == (a@ == b@),
{
    if a.len() != b.len() {
        return false;
    }
    let mut k: usize = 0;
    while k < a.len()
        invariant
            a@.len() == b@.len(),
            k <= a@.len(),
            forall|j: int| 0 <= j < k ==> a@[j] == b@[j],
        decreases a@.len() - k,
    {
        if a[k] != b[k] {
            return false;
        }
        k += 1;
    }
    assert(a@ =~= b@);
    true
}

/// Whether `s` contains `pattern`.
fn text_contains(s: &str, pattern: &str) -> (r: bool)
    ensures
        r == has_substring(s@, pattern@),
{
    let t = chars_of(s);
    let p = chars_of(pattern);
    match find_first(&t, &p) {
        Some(_) => true,
        None => false,
    }
}

/// Case sensitivity from the optional mode flag and the environment.
fn is_case_sensitive(flag: Option<&String>, insensitive_env: bool) -> (r: bool)
    ensures
        r == case_sensitivity(
            match flag {
                Some(f) => Some(f@),
                None => None,
            },
            insensitive_env,
        ),
{
    match flag {
        Some(arg) => {
            let a = chars_of(arg.as_str());
            let s = chars_of("--case_sensitive");
            same_chars(&a, &s)
        },
        None => !insensitive_env,
    }
}

impl Config {
    /// Reads a configuration from the program's arguments (the program's name first) and
    /// from whether the environment asks for case-insensitive search.
    pub fn new(args: &Vec<String>, insensitive_env: bool) -> (r: Result<Config, ConfigError>)
        ensures
            match r {
                Ok(c) => {
                    &&& args@.len() >= 3
                    &&& !asks_for_help(args@[1]@)
                    &&& c.query@ == args@[1]@
                    &&& c.filename@ == args@[2]@
                    &&& c.case_sensitive == case_sensitivity(mode_flag(args@), insensitive_env)
                },
                Err(ConfigError::HelpRequested) => args@.len() < 2 || asks_for_help(args@[1]@),
                Err(ConfigError::MissingFileName) => args@.len() == 2 && !asks_for_help(
                    args@[1]@,
                ),
            },
    {
        if args.len() < 2 {
            return Err(ConfigError::HelpRequested);
        }
        let arg = &args[1];
        if text_contains(arg.as_str(), "help") || text_contains(arg.as_str(), "-h") {
            return Err(ConfigError::HelpRequested);
        }
        let query = arg.clone();
        if args.len() < 3 {
            return Err(ConfigError::MissingFileName);
        }
        let filename = args[2].clone();
        let flag = if args.len() > 3 {
            Some(&args[3])
        } else {
            None
        };
        let case_sensitive = is_case_sensitive(flag, insensitive_env);
        Ok(Config { query, filename, case_sensitive })
    }
}

/// The highlighted matching lines of `contents` for this configuration.
pub fn run_search(config: &Config, contents: &str) -> (r: Vec<String>)
    ensures
        texts(r@) == if config.case_sensitive {
            matching_lines(config.query@, contents@)
        } else {
            matching_lines_folded(config.query@, contents@)
        },
{
    if config.case_sensitive {
        search(config.query.as_str(), contents)
    } else {
        search_case_insensitive(config.query.as_str(), contents)
    }
}

} // verus!
