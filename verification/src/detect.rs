//! The three signal detectors: timestamp, severity level, JSON fragment.
//!
//! Each detector is a regular expression of the `regex` crate. What an
//! expression matches is not restated here: the contracts speak of the first
//! match of a pattern in a text by name.
use vstd::prelude::*;
use regex::Regex;
use crate::text::contains_text;

verus! {

/// `regex::Regex`, a compiled expression. Nothing inside it is visible here.
#[verifier::external_type_specification]
#[verifier::external_body]
pub struct ExRegex(regex::Regex);

/// `regex::Error`, the reason why a pattern was refused.
#[verifier::external_type_specification]
#[verifier::external_body]
pub struct ExRegexError(regex::Error);

/// The pattern text that a compiled expression was built from, as
/// `Regex::as_str` hands it back. Expressions are made here by `Regex::new`
/// alone, that is with the crate's default options, and the names below speak
/// of matching under those options.
pub uninterp spec fn pattern_of(re: Regex) -> Seq<char>;

/// Whether `Regex::new` accepts the pattern.
pub uninterp spec fn pattern_compiles(pattern: Seq<char>) -> bool;

/// What `Regex::find` reports for a pattern and a text: the text of the
/// leftmost match, or `None` when the pattern matches nowhere.
pub uninterp spec fn first_match(pattern: Seq<char>, text: Seq<char>) -> Option<Seq<char>>;

/// What `str::to_uppercase` makes of a text.
pub uninterp spec fn uppercase(text: Seq<char>) -> Seq<char>;

/// `Regex::new` compiles a pattern with the default options. It fails on a
/// pattern that is malformed or too large, and a compiled expression keeps
/// the pattern text it was given.
pub assume_specification[ Regex::new ](re: &str) -> (r: Result<Regex, regex::Error>)
    ensures
        r is Ok <==> pattern_compiles(re@),
        r matches Ok(compiled) ==> pattern_of(compiled) == re@,
;

/// `Regex::is_match` is true exactly when `Regex::find` has a match to report.
pub assume_specification[ Regex::is_match ](re: &Regex, haystack: &str) -> (b: bool)
    ensures
        b == first_match(pattern_of(*re), haystack@) is Some,
;

/// `str::to_uppercase` maps a text to its upper-case form by the Unicode
/// rules, which depend on the text alone.
pub assume_specification[ str::to_uppercase ](s: &str) -> (out: String)
    ensures
        out@ == uppercase(s@),
;

/// Calls `Regex::find` and copies the matched part of the text
/// (`Match::as_str`) into a string of its own. The match is a slice of the
/// text, so it occurs in the text.
#[verifier::external_body]
fn find_first(re: &Regex, haystack: &str) -> (found: Option<String>)
    ensures
        found is Some <==> first_match(pattern_of(*re), haystack@) is Some,
        found matches Some(m) ==> first_match(pattern_of(*re), haystack@) == Some(m@),
        found matches Some(m) ==> contains_text(haystack@, m@),
{
    re.find(haystack).map(|m| m.as_str().to_string())
}

/// The timestamp pattern: a date, `T` or a space, a time of day, then
/// optionally a fraction of a second and optionally `Z` or an offset.
pub open spec fn timestamp_pattern() -> Seq<char> {
    r"(\d{4}-\d{2}-\d{2}[T ]\d{2}:\d{2}:\d{2}(?:\.\d+)?(?:Z|[+-]\d{2}:\d{2})?)"@
}

/// The level pattern: one word of the severity vocabulary, in any case.
pub open spec fn level_pattern() -> Seq<char> {
    r"(?i)\b(ERROR|WARN|WARNING|INFO|DEBUG|TRACE|FATAL)\b"@
}

/// The JSON fragment pattern: an opening brace, at least one character that is
/// no closing brace, and a closing brace.
pub open spec fn json_pattern() -> Seq<char> {
    r"\{[^}]+\}"@
}

/// The level of a text in which no severity word occurs.
pub open spec fn default_level() -> Seq<char> {
    "INFO"@
}

/// The first timestamp in `text`, if there is one.
pub open spec fn timestamp_in(text: Seq<char>) -> Option<Seq<char>> {
    first_match(timestamp_pattern(), text)
}

/// The first severity word in `text`, in upper case, if there is one.
pub open spec fn level_word_in(text: Seq<char>) -> Option<Seq<char>> {
    match first_match(level_pattern(), text) {
        Some(word) => Some(uppercase(word)),
        None => None,
    }
}

/// The level of `text`: its first severity word in upper case, or `INFO`.
pub open spec fn level_in(text: Seq<char>) -> Seq<char> {
    match level_word_in(text) {
        Some(word) => word,
        None => default_level(),
    }
}

/// Whether `text` holds something that looks like a JSON object.
pub open spec fn has_json_fragment(text: Seq<char>) -> bool {
    first_match(json_pattern(), text) is Some
}

/// Whether `text` carries a boundary signal: any one of the three detectors
/// finds something in it.
pub open spec fn is_boundary(text: Seq<char>) -> bool {
    timestamp_in(text) is Some || level_word_in(text) is Some || has_json_fragment(text)
}

/// Whether the three patterns of the detectors compile.
pub open spec fn patterns_compile() -> bool {
    pattern_compiles(timestamp_pattern()) && pattern_compiles(level_pattern()) && pattern_compiles(
        json_pattern(),
    )
}

/// The three detectors, compiled once and then used for every line and block.
pub struct Detectors {
    timestamp: Regex,
    level: Regex,
    json: Regex,
}

impl Detectors {
    /// Each expression was built from its pattern.
    #[verifier::type_invariant]
    spec fn built_from_patterns(&self) -> bool {
        &&& pattern_of(self.timestamp) == timestamp_pattern()
        &&& pattern_of(self.level) == level_pattern()
        &&& pattern_of(self.json) == json_pattern()
    }

    /// Compiles the three patterns. Fails only if the `regex` crate refuses one
    /// of them.
    pub fn new() -> (made: Option<Detectors>)
        ensures
            made is Some <==> patterns_compile(),
    {
        let timestamp = Regex::new(
            r"(\d{4}-\d{2}-\d{2}[T ]\d{2}:\d{2}:\d{2}(?:\.\d+)?(?:Z|[+-]\d{2}:\d{2})?)",
        );
        let level = Regex::new(r"(?i)\b(ERROR|WARN|WARNING|INFO|DEBUG|TRACE|FATAL)\b");
        let json = Regex::new(r"\{[^}]+\}");
        match (timestamp, level, json) {
            (Ok(timestamp), Ok(level), Ok(json)) => Some(Detectors { timestamp, level, json }),
            _ => None,
        }
    }

    /// The first timestamp in `text`.
    pub fn find_timestamp(&self, text: &str) -> (found: Option<String>)
        ensures
            found is Some <==> timestamp_in(text@) is Some,
            found matches Some(t) ==> timestamp_in(text@) == Some(t@),
            found matches Some(t) ==> contains_text(text@, t@),
    {
        proof {
            use_type_invariant(self);
        }
        find_first(&self.timestamp, text)
    }

    /// The first severity word in `text`, in upper case.
    pub fn find_level(&self, text: &str) -> (found: Option<String>)
        ensures
            found is Some <==> level_word_in(text@) is Some,
            found matches Some(l) ==> level_word_in(text@) == Some(l@),
    {
        proof {
            use_type_invariant(self);
        }
        match find_first(&self.level, text) {
            Some(word) => Some(word.as_str().to_uppercase()),
            None => None,
        }
    }

    /// Whether `text` holds a JSON-looking fragment.
    pub fn finds_json_fragment(&self, text: &str) -> (found: bool)
        ensures
            found == has_json_fragment(text@),
    {
        proof {
            use_type_invariant(self);
        }
        self.json.is_match(text)
    }

    /// Whether `text` starts a new entry.
    pub fn starts_entry(&self, text: &str) -> (found: bool)
        ensures
            found == is_boundary(text@),
    {
        proof {
            use_type_invariant(self);
        }
        self.timestamp.is_match(text) || self.level.is_match(text) || self.json.is_match(text)
    }
}

} // verus!
