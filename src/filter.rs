use vstd::prelude::*;

verus! {

#[verifier::external_type_specification]
#[verifier::external_body]
pub struct ExRegex(regex::Regex);

/// Relies on regex::Regex's Clone: a copy of the same compiled pattern.
pub assume_specification[ <regex::Regex as Clone>::clone ](re: &regex::Regex) -> regex::Regex;

/// Whether the regular expression `pattern` (default syntax and flags)
/// matches somewhere in `text`.
pub uninterp spec fn pattern_matches(pattern: Seq<char>, text: Seq<char>) -> bool;

/// Whether `pattern` is a valid regular expression (default syntax and
/// flags, default size limits).
pub uninterp spec fn pattern_compiles(pattern: Seq<char>) -> bool;

/// Relies on regex::Regex::new: compiles `pattern` with the default
/// options; on failure the error's text is kept.
#[verifier::external_body]
fn compile_pattern(pattern: &str) -> (r: Result<regex::Regex, String>)
    ensures
        r is Ok <==> pattern_compiles(pattern@),
{
    regex::Regex::new(pattern).map_err(|e| e.to_string())
}

/// Relies on regex::Regex::is_match: whether the compiled pattern matches
/// somewhere in `text`. The answer depends on the pattern and the text
/// alone; a `Filter` is only built by `Filter::new`, which compiles
/// exactly the pattern it keeps.
#[verifier::external_body]
fn filter_is_match(filter: &Filter, text: &str) -> (r: bool)
    ensures
        r == pattern_matches(filter@, text@),
{
    filter.re.is_match(text)
}

/// A pattern that rejected the filter, with the reason given by the
/// regular expression compiler.
#[derive(Debug, Clone)]
pub struct InvalidFilter {
    pub pattern: String,
    pub message: String,
}

/// A compiled benchmark filter together with the pattern it was compiled from.
#[derive(Clone, Debug)]
pub struct Filter {
    pattern: String,
    re: regex::Regex,
}

impl View for Filter {
    type V = Seq<char>;

    /// The pattern the filter was compiled from.
    closed spec fn view(&self) -> Seq<char> {
        self.pattern@
    }
}

impl Filter {
    /// Compiles `pattern`: a filter that keeps the pattern when it is a
    /// valid regular expression, else an error that names it.
    pub fn new(pattern: &str) -> (r: Result<Filter, InvalidFilter>)
        ensures
            r is Ok <==> pattern_compiles(pattern@),
            r matches Ok(f) ==> f@ == pattern@,
            r matches Err(e) ==> e.pattern@ == pattern@,
    {
        match compile_pattern(pattern) {
            Ok(re) => Ok(Filter { pattern: pattern.to_string(), re }),
            Err(message) => Err(InvalidFilter { pattern: pattern.to_string(), message }),
        }
    }

    /// The pattern the filter was compiled from.
    pub fn pattern(&self) -> (r: &str)
        ensures
            r@ == self@,
    {
        self.pattern.as_str()
    }

    /// Whether the filter matches somewhere in `text`.
    pub fn is_match(&self, text: &str) -> (r: bool)
        ensures
            r == pattern_matches(self@, text@),
    {
        filter_is_match(self, text)
    }
}

} // verus!
