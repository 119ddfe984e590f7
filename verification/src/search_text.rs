//! Searching a text for the lines that hold a query.
use vstd::prelude::*;
use vstd::string::*;

verus! {

/// What to look for, and in which file.
pub struct Config {
    pub query: String,
    pub filename: String,
}

impl Config {
    /// Reads the settings from the words of a command line. The first word,
    /// the program's name, is passed over; the second is the query and the
    /// third the name of the file. Further words are ignored.
    pub fn new(args: Vec<String>) -> (result: Result<Config, &'static str>)
        ensures
            args@.len() < 2 <==> result == Err::<Config, &'static str>(
                "Didn't get a query string",
            ),
            args@.len() == 2 <==> result == Err::<Config, &'static str>("Didn't get a file name"),
            args@.len() >= 3 <==> result is Ok,
            result is Ok ==> result->Ok_0.query == args@[1] && result->Ok_0.filename == args@[2],
    {
        proof {
            reveal_strlit("Didn't get a query string");
            reveal_strlit("Didn't get a file name");
        }
        let mut args = args;
        if args.len() < 2 {
            return Err("Didn't get a query string");
        }
        let query = args.remove(1);
        if args.len() < 2 {
            return Err("Didn't get a file name");
        }
        let filename = args.remove(1);
        Ok(Config { query, filename })
    }
}

/// Whether `pattern` occurs in `text` as a contiguous part.
pub open spec fn occurs_in(pattern: Seq<char>, text: Seq<char>) -> bool {
    exists|i: int|
        0 <= i <= text.len() - pattern.len() && #[trigger] text.subrange(i, i + pattern.len())
            == pattern
}

/// The place of the first line feed in `text`, or the length of `text` if it
/// holds none.
pub open spec fn first_line_feed(text: Seq<char>) -> int
    decreases text.len(),
{
    if text.len() == 0 || text[0] == '\n' {
        0
    } else {
        1 + first_line_feed(text.drop_first())
    }
}

/// `line` without the carriage return at its end, if it ends in one.
pub open spec fn without_carriage_return(line: Seq<char>) -> Seq<char> {
    if line.len() > 0 && line.last() == '\r' {
        line.drop_last()
    } else {
        line
    }
}

/// The lines of `text`.
///
/// A line ends with a line feed, or with a carriage return directly followed
/// by a line feed; neither belongs to the line. What stands behind the last
/// line feed is a line of its own unless it is empty.
pub open spec fn lines_of(text: Seq<char>) -> Seq<Seq<char>>
    decreases text.len(),
{
    if text.len() == 0 {
        Seq::empty()
    } else {
        let end = first_line_feed(text);
        if end < 0 || end >= text.len() {
            seq![text]
        } else {
            seq![without_carriage_return(text.subrange(0, end))] + lines_of(
                text.subrange(end + 1, text.len() as int),
            )
        }
    }
}

/// The texts of a list of string slices.
pub open spec fn texts(lines: Seq<&str>) -> Seq<Seq<char>> {
    Seq::new(lines.len(), |i: int| lines[i]@)
}

/// Tells whether `pattern` occurs in `text`, as `str::contains` of the
/// standard library does for a string pattern.
#[verifier::external_body]
fn contains(text: &str, pattern: &str) -> (found: bool)
    ensures
        found == occurs_in(pattern@, text@),
{
    text.contains(pattern)
}

/// Splits `text` into its lines, as `str::lines` of the standard library
/// does: at every line feed, dropping a carriage return in front of it, and
/// without an empty line at the end.
#[verifier::external_body]
fn lines<'a>(text: &'a str) -> (lines: Vec<&'a str>)
    ensures
        texts(lines@) == lines_of(text@),
{
    text.lines().collect()
}

/// The lines among `lines` in which `query` occurs, in their order.
pub open spec fn lines_with(lines: Seq<Seq<char>>, query: Seq<char>) -> Seq<Seq<char>> {
    lines.filter(|line: Seq<char>| occurs_in(query, line))
}

/// The lines of `contents` in which `query` occurs, in their order.
pub fn search<'a>(contents: &'a str, query: &str) -> (found: Vec<&'a str>)
    ensures
        texts(found@) == lines_with(lines_of(contents@), query@),
{
    let all = lines(contents);
    let mut found: Vec<&'a str> = Vec::new();
    let mut i: usize = 0;
    proof {
        reveal(Seq::filter);
        assert(texts(all@).subrange(0, 0) =~= Seq::<Seq<char>>::empty());
        assert(texts(found@) =~= Seq::<Seq<char>>::empty());
    }
    while i < all.len()
        invariant
            i <= all@.len(),
            texts(found@) == lines_with(texts(all@).subrange(0, i as int), query@),
        decreases all@.len() - i,
    {
        let ghost before = found@;
        let line = all[i];
        if contains(line, query) {
            found.push(line);
        }
        proof {
            reveal(Seq::filter);
            let upto = texts(all@).subrange(0, i + 1);
            assert(upto.drop_last() =~= texts(all@).subrange(0, i as int));
            assert(upto.last() == line@);
            if occurs_in(query@, line@) {
                assert(texts(found@) =~= texts(before).push(line@));
            }
        }
        i = i + 1;
    }
    assert(texts(all@).subrange(0, i as int) =~= texts(all@));
    found
}

} // verus!
