//! The line pattern by which a scalar is found in a settings document, and
//! the search for it.

use vstd::prelude::*;
use vstd::string::*;

verus! {

/// What precedes the key in a line pattern: multi-line mode, the start of a
/// line, optional blanks (spaces and tabs) and the opening quote of the key.
pub const PATTERN_HEAD: &'static str = "(?m)^[ \\t]*\"";

/// What follows the key in a line pattern: the closing quote of the key, a
/// colon with optional blanks on both sides, the quoted value as the group
/// `name`, taken as short as possible, an optional comma, optional blanks
/// and the end of the line. Before the end of the line a carriage return
/// counts as a blank, so that a line may end in `\r\n`. Neither this part
/// nor the one before the key admits a line feed, so that a plain key, the
/// colon and the value stand on one line.
pub const PATTERN_TAIL: &'static str = "\"[ \\t]*:[ \\t]*\"(?P<name>.*?)\",?[ \\t\\r]*$";

/// The name of the group that holds the value.
pub const VALUE_GROUP: &'static str = "name";

/// How one character of a key is written in a pattern: a dot is preceded by
/// a backslash, every other character stands for itself.
pub open spec fn escape_char(c: char) -> Seq<char> {
    if c == '.' {
        seq!['\\', '.']
    } else {
        seq![c]
    }
}

/// A key with each of its dots escaped.
pub open spec fn escape_dots(key: Seq<char>) -> Seq<char>
    decreases key.len(),
{
    if key.len() == 0 {
        Seq::empty()
    } else {
        escape_dots(key.drop_last()) + escape_char(key.last())
    }
}

/// The longest key of which a lookup is certain to take place.
pub const MAX_PLAIN_KEY_LEN: usize = 256;

/// Whether `c` may stand in a plain key: a letter or a digit of ASCII, an
/// underscore or a dot.
pub open spec fn is_plain_char(c: char) -> bool {
    ||| 'a' <= c <= 'z'
    ||| 'A' <= c <= 'Z'
    ||| '0' <= c <= '9'
    ||| c == '_'
    ||| c == '.'
}

/// Whether `key` is a plain dotted identifier: at most `MAX_PLAIN_KEY_LEN`
/// characters, each a letter, a digit, an underscore or a dot.
pub open spec fn is_plain_key(key: Seq<char>) -> bool {
    &&& key.len() <= MAX_PLAIN_KEY_LEN
    &&& forall|i: int| 0 <= i < key.len() ==> is_plain_char(#[trigger] key[i])
}

/// The pattern of the line that binds `key`.
pub open spec fn line_pattern(key: Seq<char>) -> Seq<char> {
    PATTERN_HEAD@ + escape_dots(key) + PATTERN_TAIL@
}

/// Escaping the first `i + 1` characters of a key is escaping the first `i`
/// and then the character at `i`.
proof fn lemma_escape_dots_step(key: Seq<char>, i: int)
    requires
        0 <= i < key.len(),
    ensures
        escape_dots(key.take(i + 1)) == escape_dots(key.take(i)) + escape_char(key[i]),
{
    assert(key.take(i + 1).drop_last() =~= key.take(i));
}

/// In an escaped key no dot stands alone: each follows a backslash.
pub proof fn lemma_escaped_dots_follow_backslash(key: Seq<char>)
    ensures
        forall|at: int|
            0 <= at < escape_dots(key).len() && #[trigger] escape_dots(key)[at] == '.' ==> at > 0
                && escape_dots(key)[at - 1] == '\\',
    decreases key.len(),
{
    if key.len() > 0 {
        lemma_escaped_dots_follow_backslash(key.drop_last());
        let head = escape_dots(key.drop_last());
        assert forall|at: int|
            0 <= at < escape_dots(key).len() && #[trigger] escape_dots(key)[at] == '.' implies at
            > 0 && escape_dots(key)[at - 1] == '\\' by {
            if at < head.len() {
                assert(escape_dots(key)[at] == head[at]);
                assert(escape_dots(key)[at - 1] == head[at - 1]);
            }
        }
    }
}

/// Builds the pattern of the line that binds `key`.
pub fn make_json_regex(key: &str) -> (pattern: String)
    ensures
        pattern@ == line_pattern(key@),
{
    let mut pattern = String::from_str(PATTERN_HEAD);
    let n = key.unicode_len();
    let mut i: usize = 0;
    assert(key@.take(0) =~= Seq::<char>::empty());
    while i < n
        invariant
            n == key@.len(),
            i <= n,
            pattern@ == PATTERN_HEAD@ + escape_dots(key@.take(i as int)),
        decreases n - i,
    {
        proof {
            lemma_escape_dots_step(key@, i as int);
            reveal_strlit("\\");
        }
        if key.get_char(i) == '.' {
            pattern.append("\\");
        }
        pattern.append(key.substring_char(i, i + 1));
        assert(key@.subrange(i as int, i + 1) =~= seq![key@[i as int]]);
        assert(pattern@ =~= PATTERN_HEAD@ + escape_dots(key@.take(i + 1)));
        i += 1;
    }
    assert(key@.take(n as int) =~= key@);
    pattern.append(PATTERN_TAIL);
    pattern
}

/// What a search for the value of a key came to.
#[derive(Debug, PartialEq, Eq)]
pub enum Lookup {
    /// `regex_lite` did not accept the pattern, so nothing was searched.
    Refused,
    /// The pattern was searched for and matched nowhere.
    Missing,
    /// The pattern matched, and this is the value that the match binds.
    Bound(String),
}

/// The text that the group called `group` spans in the leftmost match of
/// the regular expression `pattern` in `haystack`, as `regex_lite` finds it;
/// `None` where nothing in `haystack` matches and where no group of that
/// name took part in the match. It names the outcome of the search alone:
/// whether `regex_lite` accepts `pattern` is not part of it.
pub uninterp spec fn regex_capture(
    pattern: Seq<char>,
    group: Seq<char>,
    haystack: Seq<char>,
) -> Option<Seq<char>>;

/// Whether `pattern` is the line pattern of a plain key.
pub open spec fn is_plain_line_pattern(pattern: Seq<char>) -> bool {
    exists|key: Seq<char>| is_plain_key(key) && pattern == #[trigger] line_pattern(key)
}

/// Compiles `pattern` with `regex_lite::Regex::new`, searches `haystack`
/// with `Regex::captures` and copies what `Captures::name` reports for
/// `group`.
///
/// The contract claims two things of `regex_lite`.
///
/// The line pattern of a plain key is never refused. `Regex::new` refuses
/// what it cannot parse, what nests deeper than its limit and what compiles
/// to more than its size limit of 10 MiB. Such a pattern is made of a flag
/// group, two anchors, three bracketed classes of blanks, one named group
/// and literal characters, of which only the dot is escaped; it nests no
/// deeper than its one group and compiles to a few states for each of its
/// at most 512 characters of key. Of other patterns nothing is claimed: the
/// size limit is counted in bytes of memory.
///
/// The outcome of a search that took place is decided by the three texts
/// alone; the contract calls it `regex_capture` and claims nothing of what
/// matches.
#[verifier::external_body]
fn search(pattern: &str, group: &str, haystack: &str) -> (outcome: Lookup)
    ensures
        is_plain_line_pattern(pattern@) ==> outcome !is Refused,
        outcome is Missing ==> regex_capture(pattern@, group@, haystack@) is None,
        outcome matches Lookup::Bound(value) ==> regex_capture(pattern@, group@, haystack@)
            == Some(value@),
{
    let re = match regex_lite::Regex::new(pattern) {
        Ok(re) => re,
        Err(_) => return Lookup::Refused,
    };
    let captures = match re.captures(haystack) {
        Some(captures) => captures,
        None => return Lookup::Missing,
    };
    match captures.name(group) {
        Some(span) => Lookup::Bound(span.as_str().to_string()),
        None => Lookup::Missing,
    }
}

/// The value that `data` binds to `key`: what the group `name` spans in the
/// leftmost match of the line pattern of `key` in `data`.
pub open spec fn bound_value(data: Seq<char>, key: Seq<char>) -> Option<Seq<char>> {
    regex_capture(line_pattern(key), VALUE_GROUP@, data)
}

impl Lookup {
    /// Whether this is a true account of the lookup of `key` in `data`: the
    /// value that `data` binds to `key`, that it binds none, or that `key`
    /// is no plain key and its pattern was refused.
    pub open spec fn tells(self, data: Seq<char>, key: Seq<char>) -> bool {
        match self {
            Lookup::Refused => !is_plain_key(key),
            Lookup::Missing => bound_value(data, key) is None,
            Lookup::Bound(value) => bound_value(data, key) == Some(value@),
        }
    }
}

/// Looks `key` up in `data`: builds the line pattern of `key` and searches
/// `data` for it. The lookup of a plain key always takes place: it gives the
/// value that `data` binds to `key`, or says that there is none.
pub fn extract(data: &str, key: &str) -> (outcome: Lookup)
    ensures
        outcome.tells(data@, key@),
{
    let pattern = make_json_regex(key);
    search(pattern.as_str(), VALUE_GROUP, data)
}

/// Two lookups of one plain key in one document agree: the outcome of a
/// lookup is decided by the document and the key.
pub proof fn lemma_lookups_agree(first: Lookup, second: Lookup, data: Seq<char>, key: Seq<char>)
    requires
        is_plain_key(key),
        first.tells(data, key),
        second.tells(data, key),
    ensures
        first is Missing <==> second is Missing,
        first matches Lookup::Bound(a) ==> second matches Lookup::Bound(b) && a@ == b@,
{
}

} // verus!
