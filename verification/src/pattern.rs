//! Regular expressions, compiled and run by the `regex` crate.
use vstd::prelude::*;

verus! {

#[verifier::external_type_specification]
#[verifier::external_body]
pub struct ExRegex(regex::Regex);

/// Whether `regex::Regex::new` accepts `pattern`.
pub uninterp spec fn regex_compiles(pattern: Seq<char>) -> bool;

/// Whether the regular expression `pattern` matches somewhere in `text`
/// (`regex::Regex::is_match`).
pub uninterp spec fn regex_finds(pattern: Seq<char>, text: Seq<char>) -> bool;

/// The capture groups of the leftmost-first match of `pattern` in `text`
/// (`regex::Regex::captures`), group 0 being the whole match; `None` when
/// there is no match.
pub uninterp spec fn regex_groups(pattern: Seq<char>, text: Seq<char>) -> Option<Seq<Option<Seq<char>>>>;

/// The characters of an optional string.
pub open spec fn text_option(o: Option<String>) -> Option<Seq<char>> {
    match o {
        Some(s) => Some(s@),
        None => None,
    }
}

/// A compiled regular expression, with the pattern it was compiled from.
pub struct Pattern {
    source: String,
    compiled: regex::Regex,
}

impl View for Pattern {
    type V = Seq<char>;

    /// The pattern that was compiled.
    closed spec fn view(&self) -> Seq<char> {
        self.source@
    }
}

impl Pattern {
    /// The compiled form of the regular expression `pattern`; `None` when it
    /// is not a valid expression.
    pub fn new(pattern: &str) -> (r: Option<Pattern>)
        ensures
            r is Some <==> regex_compiles(pattern@),
            r matches Some(p) ==> p@ == pattern@,
    {
        compile(pattern)
    }
}

/// Compiles `pattern` with `regex::Regex::new`. The contract claims that the
/// result is present exactly when the crate accepts the pattern, and that it
/// carries the pattern it was compiled from.
#[verifier::external_body]
pub(crate) fn compile(pattern: &str) -> (r: Option<Pattern>)
    ensures
        r is Some <==> regex_compiles(pattern@),
        r matches Some(p) ==> p@ == pattern@,
{
    match regex::Regex::new(pattern) {
        Ok(compiled) => Some(Pattern { source: pattern.to_string(), compiled }),
        Err(_) => None,
    }
}

/// Runs `regex::Regex::is_match`. The contract claims that the answer is
/// `regex_finds` of the compiled pattern and the text.
#[verifier::external_body]
pub(crate) fn is_match(p: &Pattern, text: &str) -> (b: bool)
    ensures
        b == regex_finds(p@, text@),
{
    p.compiled.is_match(text)
}

/// Runs `regex::Regex::captures` and copies each group out. The contract
/// claims that the result is `regex_groups` of the compiled pattern and the
/// text.
#[verifier::external_body]
pub(crate) fn captures(p: &Pattern, text: &str) -> (r: Option<Vec<Option<String>>>)
    ensures
        match r {
            Some(groups) => regex_groups(p@, text@) == Some(
                groups@.map_values(|g: Option<String>| text_option(g)),
            ),
            None => regex_groups(p@, text@) is None,
        },
{
    p.compiled.captures(text).map(
        |c| c.iter().map(|g| g.map(|m| m.as_str().to_string())).collect(),
    )
}

/// The first position of `names` whose entry `p` matches, if any.
pub open spec fn first_match_index(p: Seq<char>, names: Seq<Seq<char>>) -> Option<int>
    decreases names.len(),
{
    if names.len() == 0 {
        None
    } else if regex_finds(p, names[0]) {
        Some(0)
    } else {
        match first_match_index(p, names.drop_first()) {
            Some(i) => Some(i + 1),
            None => None,
        }
    }
}

/// The first position of `names` whose entry `p` matches, if any.
pub fn first_match(p: &Pattern, names: &Vec<String>) -> (r: Option<usize>)
    ensures
        match r {
            Some(i) => first_match_index(p@, names@.map_values(|s: String| s@)) == Some(i as int)
                && i < names@.len(),
            None => first_match_index(p@, names@.map_values(|s: String| s@)) is None,
        },
{
    let ghost all = names@.map_values(|s: String| s@);
    let mut i: usize = 0;
    assert(all.skip(0) == all);
    while i < names.len()
        invariant
            i <= names@.len(),
            all == names@.map_values(|s: String| s@),
            first_match_index(p@, all) == match first_match_index(p@, all.skip(i as int)) {
                Some(k) => Some(k + i),
                None => None,
            },
        decreases names@.len() - i,
    {
        assert(all.skip(i as int)[0] == names@[i as int]@);
        if is_match(p, names[i].as_str()) {
            return Some(i);
        }
        assert(all.skip(i as int).drop_first() == all.skip(i + 1));
        i = i + 1;
    }
    None
}

} // verus!
