//! Line search in a text: the lines that hold a query, with or without
//! regard to case, and the configuration of a search.

use vstd::prelude::*;

verus! {

/// What to search for, where, and how.
pub struct Config {
    pub query: String,
    pub file_path: String,
    pub ignore_case: bool,
}

impl Config {
    /// Reads a configuration from the arguments of a program: the program's
    /// name, the query, the path of the file. Further arguments are not
    /// looked at. `ignore_case` is taken as given.
    pub fn build(args: Vec<String>, ignore_case: bool) -> (r: Result<Config, &'static str>)
        ensures
            match r {
                Ok(config) => {
                    &&& args@.len() >= 3
                    &&& config.query@ == args@[1]@
                    &&& config.file_path@ == args@[2]@
                    &&& config.ignore_case == ignore_case
                },
                Err(message) => {
                    &&& args@.len() < 3
                    &&& args@.len() < 2 ==> message@ == "Missing query string"@
                    &&& args@.len() == 2 ==> message@ == "Missing file_path string"@
                },
            },
    {
        if args.len() < 2 {
            return Err("Missing query string");
        }
        if args.len() < 3 {
            return Err("Missing file_path string");
        }
        let query = args[1].clone();
        let file_path = args[2].clone();
        Ok(Config { query, file_path, ignore_case })
    }
}

/// `needle` occurs in `haystack` as a run of neighbouring characters.
pub open spec fn is_substring(needle: Seq<char>, haystack: Seq<char>) -> bool {
    exists|i: int|
        0 <= i <= haystack.len() - needle.len() && #[trigger] haystack.subrange(
            i,
            i + needle.len(),
        ) == needle
}

/// The lines of a text as `str::lines` cuts them.
pub uninterp spec fn spec_lines(contents: Seq<char>) -> Seq<Seq<char>>;

/// A string in lower case as `str::to_lowercase` writes it.
pub uninterp spec fn spec_to_lowercase(s: Seq<char>) -> Seq<char>;

/// The strings of `v` as sequences of characters.
pub open spec fn views(v: Seq<&str>) -> Seq<Seq<char>> {
    Seq::new(v.len(), |i: int| v[i]@)
}

/// The lines of `lines` in which `query` occurs, in their order.
pub open spec fn lines_with(lines: Seq<Seq<char>>, query: Seq<char>) -> Seq<Seq<char>>
    decreases lines.len(),
{
    if lines.len() == 0 {
        lines
    } else if is_substring(query, lines.last()) {
        lines_with(lines.drop_last(), query).push(lines.last())
    } else {
        lines_with(lines.drop_last(), query)
    }
}

/// The lines of `lines` in whose lower-case form `query` occurs, in their
/// order.
pub open spec fn lines_with_lowered(lines: Seq<Seq<char>>, query: Seq<char>) -> Seq<Seq<char>>
    decreases lines.len(),
{
    if lines.len() == 0 {
        lines
    } else if is_substring(query, spec_to_lowercase(lines.last())) {
        lines_with_lowered(lines.drop_last(), query).push(lines.last())
    } else {
        lines_with_lowered(lines.drop_last(), query)
    }
}

/// `str::lines`, collected: the lines of the text in order. The contract
/// only names the result.
#[verifier::external_body]
fn lines<'a>(contents: &'a str) -> (out: Vec<&'a str>)
    ensures
        views(out@) == spec_lines(contents@),
{
    contents.lines().collect()
}

/// `str::contains` with a string as the pattern: whether `needle` occurs in
/// `haystack`.
#[verifier::external_body]
fn contains(haystack: &str, needle: &str) -> (found: bool)
    ensures
        found == is_substring(needle@, haystack@),
{
    haystack.contains(needle)
}

/// `str::to_lowercase`: the string in lower case. The contract only names
/// the result.
#[verifier::external_body]
fn to_lowercase(s: &str) -> (lower: String)
    ensures
        lower@ == spec_to_lowercase(s@),
{
    s.to_lowercase()
}

/// Keeps the lines in which `query` occurs.
pub fn filter_lines<'a>(query: &str, lines: Vec<&'a str>) -> (found: Vec<&'a str>)
    ensures
        views(found@) == lines_with(views(lines@), query@),
{
    let n: usize = lines.len();
    let mut found: Vec<&'a str> = Vec::new();
    let mut i: usize = 0;
    while i < n
        invariant
            0 <= i <= n,
            n == lines@.len(),
            views(found@) == lines_with(views(lines@).take(i as int), query@),
        decreases n - i,
    {
        let line: &'a str = lines[i];
        proof {
            let next = views(lines@).take(i as int + 1);
            assert(next.drop_last() =~= views(lines@).take(i as int));
            assert(next.last() == line@);
        }
        let ghost before = found@;
        if contains(line, query) {
            found.push(line);
            assert(views(found@) =~= views(before).push(line@));
        }
        i += 1;
    }
    proof {
        assert(views(lines@).take(n as int) =~= views(lines@));
    }
    found
}

/// Keeps the lines in whose lower-case form `query` occurs.
pub fn filter_lines_lowered<'a>(query: &str, lines: Vec<&'a str>) -> (found: Vec<&'a str>)
    ensures
        views(found@) == lines_with_lowered(views(lines@), query@),
{
    let n: usize = lines.len();
    let mut found: Vec<&'a str> = Vec::new();
    let mut i: usize = 0;
    while i < n
        invariant
            0 <= i <= n,
            n == lines@.len(),
            views(found@) == lines_with_lowered(views(lines@).take(i as int), query@),
        decreases n - i,
    {
        let line: &'a str = lines[i];
        proof {
            let next = views(lines@).take(i as int + 1);
            assert(next.drop_last() =~= views(lines@).take(i as int));
            assert(next.last() == line@);
        }
        let ghost before = found@;
        let lowered = to_lowercase(line);
        if contains(lowered.as_str(), query) {
            found.push(line);
            assert(views(found@) =~= views(before).push(line@));
        }
        i += 1;
    }
    proof {
        assert(views(lines@).take(n as int) =~= views(lines@));
    }
    found
}

/// The lines of `contents` in which `query` occurs as it is written.
pub fn search<'a>(query: &str, contents: &'a str) -> (found: Vec<&'a str>)
    ensures
        views(found@) == lines_with(spec_lines(contents@), query@),
{
    filter_lines(query, lines(contents))
}

/// The lines of `contents` in which `query` occurs when the case of letters
/// is not regarded: both are compared in lower case.
pub fn search_case_insensitive<'a>(query: &str, contents: &'a str) -> (found: Vec<&'a str>)
    ensures
        views(found@) == lines_with_lowered(spec_lines(contents@), spec_to_lowercase(query@)),
{
    let query = to_lowercase(query);
    filter_lines_lowered(query.as_str(), lines(contents))
}

/// The lines of `contents` that a configured search finds.
pub fn find<'a>(config: &Config, contents: &'a str) -> (found: Vec<&'a str>)
    ensures
        views(found@) == (if config.ignore_case {
            lines_with_lowered(spec_lines(contents@), spec_to_lowercase(config.query@))
        } else {
            lines_with(spec_lines(contents@), config.query@)
        }),
{
    if config.ignore_case {
        search_case_insensitive(config.query.as_str(), contents)
    } else {
        search(config.query.as_str(), contents)
    }
}

} // verus!
