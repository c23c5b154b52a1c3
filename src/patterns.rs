//! The allow-list of expected log messages: a set of regular expressions,
//! one for each line of a configuration text that is not a comment.
use vstd::prelude::*;

use crate::text::{lines_of, split_lines, texts};

verus! {

#[verifier::external_type_specification]
#[verifier::external_body]
pub struct ExRegexSet(regex::RegexSet);

#[verifier::external_type_specification]
#[verifier::external_body]
pub struct ExRegexError(regex::Error);

/// The pattern texts a compiled regex set was built from, in order.
pub uninterp spec fn regex_set_patterns(set: regex::RegexSet) -> Seq<Seq<char>>;

/// Whether `regex::RegexSet::new` accepts these patterns: it refuses a set
/// holding any pattern that is not a valid regular expression.
pub uninterp spec fn regex_set_compiles(patterns: Seq<Seq<char>>) -> bool;

/// Whether one regular expression matches somewhere within a haystack.
pub uninterp spec fn regex_finds(pattern: Seq<char>, haystack: Seq<char>) -> bool;

/// Relies on `regex::RegexSet::new`: it fails exactly on the pattern lists
/// it cannot compile, and the set it builds holds the given patterns in order
/// (as `RegexSet::patterns` reports them).
#[verifier::external_body]
fn compile_set(patterns: &Vec<String>) -> (r: Result<regex::RegexSet, regex::Error>)
    ensures
        r is Ok <==> regex_set_compiles(texts(patterns@)),
        r is Ok ==> regex_set_patterns(r->Ok_0) == texts(patterns@),
{
    regex::RegexSet::new(patterns)
}

/// Relies on `regex::RegexSet::is_match`: true iff one of the set's regexes
/// matches somewhere in the haystack.
#[verifier::external_body]
fn set_is_match(set: &regex::RegexSet, haystack: &str) -> (r: bool)
    ensures
        r == (exists|i: int|
            0 <= i < regex_set_patterns(*set).len() && #[trigger] regex_finds(
                regex_set_patterns(*set)[i],
                haystack@,
            )),
{
    set.is_match(haystack)
}

/// A line is expected when any of the patterns matches somewhere in it.
pub open spec fn any_matches(patterns: Seq<Seq<char>>, line: Seq<char>) -> bool {
    exists|i: int| 0 <= i < patterns.len() && #[trigger] regex_finds(patterns[i], line)
}

/// A configuration line starting with `#` is a comment.
pub open spec fn is_comment(line: Seq<char>) -> bool {
    line.len() > 0 && line[0] == '#'
}

/// The configuration lines that are patterns, in order.
pub open spec fn pattern_lines_of(lines: Seq<Seq<char>>) -> Seq<Seq<char>>
    decreases lines.len(),
{
    if lines.len() == 0 {
        Seq::empty()
    } else if is_comment(lines.last()) {
        pattern_lines_of(lines.drop_last())
    } else {
        pattern_lines_of(lines.drop_last()).push(lines.last())
    }
}

/// Why a pattern set could not be built.
#[derive(Debug)]
pub enum PatternError {
    /// A pattern is not a valid regular expression (or the set is too large).
    Invalid(regex::Error),
}

/// An immutable, compiled allow-list of regular expressions.
pub struct PatternSet {
    set: regex::RegexSet,
}

impl View for PatternSet {
    type V = Seq<Seq<char>>;

    /// The source text of each pattern, in order.
    closed spec fn view(&self) -> Seq<Seq<char>> {
        regex_set_patterns(self.set)
    }
}

/// Whether `line` starts with `#`.
pub fn is_comment_line(line: &str) -> (r: bool)
    ensures
        r == is_comment(line@),
{
    line.unicode_len() > 0 && line.get_char(0) == '#'
}

/// The lines of a configuration that are patterns: all but the comments.
pub fn pattern_lines(lines: &Vec<String>) -> (r: Vec<String>)
    ensures
        texts(r@) == pattern_lines_of(texts(lines@)),
{
    let mut out: Vec<String> = Vec::new();
    let mut i: usize = 0;
    while i < lines.len()
        invariant
            i <= lines.len(),
            texts(out@) == pattern_lines_of(texts(lines@).take(i as int)),
        decreases lines.len() - i,
    {
        let ghost prev = texts(lines@).take(i as int);
        proof {
            let next = texts(lines@).take(i + 1);
            assert(next.drop_last() =~= prev);
            assert(next.last() == lines@[i as int]@);
        }
        if !is_comment_line(lines[i].as_str()) {
            let line = lines[i].clone();
            out.push(line);
            assert(texts(out@) =~= pattern_lines_of(prev).push(lines@[i as int]@));
        }
        i = i + 1;
    }
    assert(texts(lines@).take(lines.len() as int) =~= texts(lines@));
    out
}

impl PatternSet {
    /// Compiles each of `patterns` into one set; fails if any of them is not
    /// a valid regular expression.
    pub fn new(patterns: &Vec<String>) -> (r: Result<PatternSet, PatternError>)
        ensures
            r is Ok <==> regex_set_compiles(texts(patterns@)),
            r is Ok ==> r->Ok_0@ == texts(patterns@),
    {
        match compile_set(patterns) {
            Ok(set) => Ok(PatternSet { set }),
            Err(e) => Err(PatternError::Invalid(e)),
        }
    }

    /// Whether any pattern matches somewhere within `line`.
    pub fn matches(&self, line: &str) -> (r: bool)
        ensures
            r == any_matches(self@, line@),
    {
        set_is_match(&self.set, line)
    }

    /// What a relayed response emits for one log line: nothing when expected
    /// lines are suppressed and this one is expected, else the line and `\n`.
    pub fn relay_line(&self, unexpected: bool, line: String) -> (r: Option<String>)
        ensures
            r is Some <==> relay_keeps(self@, unexpected, line@),
            r is Some ==> r->Some_0@ == line@ + seq!['\n'],
    {
        if unexpected && self.matches(line.as_str()) {
            None
        } else {
            let mut out = line;
            out.append("\n");
            proof {
                reveal_strlit("\n");
            }
            Some(out)
        }
    }
}

/// Whether a relayed response keeps `line`.
pub open spec fn relay_keeps(patterns: Seq<Seq<char>>, unexpected: bool, line: Seq<char>) -> bool {
    !(unexpected && any_matches(patterns, line))
}

/// Every configuration line that is not a comment becomes a pattern, and
/// no comment does.
pub proof fn lemma_pattern_lines_exact(lines: Seq<Seq<char>>)
    ensures
        forall|i: int|
            0 <= i < lines.len() && !is_comment(#[trigger] lines[i]) ==> pattern_lines_of(
                lines,
            ).contains(lines[i]),
        forall|j: int|
            0 <= j < pattern_lines_of(lines).len() ==> !is_comment(
                #[trigger] pattern_lines_of(lines)[j],
            ),
    decreases lines.len(),
{
    if lines.len() > 0 {
        let prev = lines.drop_last();
        lemma_pattern_lines_exact(prev);
        assert forall|i: int| 0 <= i < lines.len() && !is_comment(#[trigger] lines[i]) implies pattern_lines_of(
            lines,
        ).contains(lines[i]) by {
            if i < lines.len() - 1 {
                assert(prev[i] == lines[i]);
                let k = choose|k: int| 0 <= k < pattern_lines_of(prev).len() && pattern_lines_of(prev)[k] == prev[i];
                if !is_comment(lines.last()) {
                    assert(pattern_lines_of(lines)[k] == lines[i]);
                }
            } else {
                assert(pattern_lines_of(lines).last() == lines[i]);
            }
        }
    }
}

/// What a relayed response body holds for a finite run of log lines: each
/// kept line followed by `\n`, in the original order.
pub open spec fn relay_text(patterns: Seq<Seq<char>>, unexpected: bool, lines: Seq<Seq<char>>) -> Seq<
    char,
>
    decreases lines.len(),
{
    if lines.len() == 0 {
        Seq::empty()
    } else if relay_keeps(patterns, unexpected, lines.last()) {
        relay_text(patterns, unexpected, lines.drop_last()) + lines.last() + seq!['\n']
    } else {
        relay_text(patterns, unexpected, lines.drop_last())
    }
}

impl PatternSet {
    /// The whole response body that relaying `lines` produces.
    pub fn relay_body(&self, unexpected: bool, lines: &Vec<String>) -> (r: String)
        ensures
            r@ == relay_text(self@, unexpected, texts(lines@)),
    {
        let mut out = String::new();
        let mut i: usize = 0;
        while i < lines.len()
            invariant
                i <= lines.len(),
                out@ == relay_text(self@, unexpected, texts(lines@).take(i as int)),
            decreases lines.len() - i,
        {
            let ghost prev = texts(lines@).take(i as int);
            proof {
                let next = texts(lines@).take(i + 1);
                assert(next.drop_last() =~= prev);
                assert(next.last() == lines@[i as int]@);
            }
            match self.relay_line(unexpected, lines[i].clone()) {
                Some(chunk) => {
                    out.append(chunk.as_str());
                    assert(out@ =~= relay_text(self@, unexpected, prev) + lines@[i as int]@ + seq!['\n']);
                },
                None => {},
            }
            i = i + 1;
        }
        assert(texts(lines@).take(lines.len() as int) =~= texts(lines@));
        out
    }
}

/// Builds the allow-list from a configuration text: one pattern per line,
/// lines starting with `#` skipped. Fails if any pattern line is invalid.
pub fn build_exp_msgs(config: &str) -> (r: Result<PatternSet, PatternError>)
    ensures
        r is Ok <==> regex_set_compiles(pattern_lines_of(lines_of(config@))),
        r is Ok ==> r->Ok_0@ == pattern_lines_of(lines_of(config@)),
{
    let lines = split_lines(config);
    let patterns = pattern_lines(&lines);
    PatternSet::new(&patterns)
}

} // verus!
