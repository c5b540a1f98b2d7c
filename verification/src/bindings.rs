//! The calls this library makes into other crates and into parts of `std`
//! that vstd does not specify. Each item here states what the called
//! function does; nothing here is proved.
use vstd::prelude::*;
use fuzzy_matcher::FuzzyMatcher;
use fuzzy_matcher::skim::SkimMatcherV2;
use unicode_width::UnicodeWidthStr;
use std::collections::HashMap;
use std::path::Path;
use owo_colors::{colors::CustomColor, OwoColorize};

verus! {

/// What `str::to_lowercase` gives for a string: the lowercase mapping of
/// each character, as Unicode defines it.
pub uninterp spec fn lowercase(s: Seq<char>) -> Seq<char>;

/// Calls `str::to_lowercase`; the result is named `lowercase` of the input.
#[verifier::external_body]
pub(crate) fn to_lowercase(s: &str) -> (r: String)
    ensures
        r@ == lowercase(s@),
{
    s.to_lowercase()
}

/// The score that a default `fuzzy_matcher::skim::SkimMatcherV2` gives
/// through `FuzzyMatcher::fuzzy_match` when matching `pattern` against
/// `choice`; `None` when the pattern does not match.
pub uninterp spec fn skim_match_score(choice: Seq<char>, pattern: Seq<char>) -> Option<i64>;

/// Calls `FuzzyMatcher::fuzzy_match` on a default `SkimMatcherV2`.
///
/// The result is named `skim_match_score` of the two strings; the source
/// (`SkimMatcherV2::fuzzy`) returns a score of 0 for an empty pattern.
#[verifier::external_body]
pub(crate) fn skim_fuzzy_match(choice: &str, pattern: &str) -> (r: Option<i64>)
    ensures
        r == skim_match_score(choice@, pattern@),
        pattern@.len() == 0 ==> r == Some(0i64),
{
    SkimMatcherV2::default().fuzzy_match(choice, pattern)
}

/// The score that a default `SkimMatcherV2` gives through
/// `FuzzyMatcher::fuzzy_indices` when matching `pattern` against `choice`;
/// `None` when the pattern does not match.
pub uninterp spec fn skim_indices_score(choice: Seq<char>, pattern: Seq<char>) -> Option<i64>;

/// Calls `FuzzyMatcher::fuzzy_indices` on a default `SkimMatcherV2` and
/// keeps the score; the matched positions are dropped.
///
/// The score is named `skim_indices_score` of the two strings; the source
/// returns a score of 0 for an empty pattern.
#[verifier::external_body]
pub(crate) fn skim_fuzzy_indices_score(choice: &str, pattern: &str) -> (r: Option<i64>)
    ensures
        r == skim_indices_score(choice@, pattern@),
        pattern@.len() == 0 ==> r == Some(0i64),
{
    SkimMatcherV2::default().fuzzy_indices(choice, pattern).map(|(score, _)| score)
}

/// The failures of `strfmt::strfmt`, one for each variant of
/// `strfmt::FmtError`, with the same message.
#[derive(Debug)]
pub enum FormatFailure {
    Invalid(String),
    KeyError(String),
    TypeError(String),
}

/// A `FormatFailure` with its message taken by view.
pub enum FormatFailureView {
    Invalid(Seq<char>),
    KeyError(Seq<char>),
    TypeError(Seq<char>),
}

impl View for FormatFailure {
    type V = FormatFailureView;

    open spec fn view(&self) -> FormatFailureView {
        match self {
            FormatFailure::Invalid(m) => FormatFailureView::Invalid(m@),
            FormatFailure::KeyError(m) => FormatFailureView::KeyError(m@),
            FormatFailure::TypeError(m) => FormatFailureView::TypeError(m@),
        }
    }
}

/// The text of a formatting failure, as `strfmt`'s `Display` writes it:
/// the variant's name with the message in round brackets.
pub open spec fn format_failure_text(f: FormatFailureView) -> Seq<char> {
    match f {
        FormatFailureView::Invalid(m) => "Invalid("@ + m + ")"@,
        FormatFailureView::KeyError(m) => "KeyError("@ + m + ")"@,
        FormatFailureView::TypeError(m) => "TypeError("@ + m + ")"@,
    }
}

impl FormatFailure {
    /// The text of this failure.
    pub fn to_string(&self) -> (r: String)
        ensures
            r@ == format_failure_text(self@),
    {
        let (name, m) = match self {
            FormatFailure::Invalid(m) => ("Invalid(", m),
            FormatFailure::KeyError(m) => ("KeyError(", m),
            FormatFailure::TypeError(m) => ("TypeError(", m),
        };
        let head = crate::text::concat(name, m.as_str());
        crate::text::concat(head.as_str(), ")")
    }
}

/// The text that starts the message of a key error of `strfmt`.
pub open spec fn key_error_prefix() -> Seq<char> {
    seq!['I', 'n', 'v', 'a', 'l', 'i', 'd', ' ', 'k', 'e', 'y', ':', ' ']
}

/// Whether `m` is `"Invalid key: "` followed by a key without `:`.
pub open spec fn is_key_error_message(m: Seq<char>) -> bool {
    exists|k: Seq<char>| m == key_error_prefix() + k && !k.contains(':')
}

/// A formatting result with its parts taken by view.
pub open spec fn format_result_view(r: Result<String, FormatFailure>) -> Result<Seq<char>, FormatFailureView> {
    match r {
        Ok(s) => Ok(s@),
        Err(e) => Err(e@),
    }
}

/// The pairs with both parts taken by view.
pub open spec fn pair_views(v: Seq<(String, String)>) -> Seq<(Seq<char>, Seq<char>)> {
    v.map_values(|p: (String, String)| (p.0@, p.1@))
}

/// What `strfmt::strfmt` gives for a format string and the map made of
/// the given key/value pairs (a later pair replacing an earlier one with
/// the same key).
pub uninterp spec fn strfmt_output(
    template: Seq<char>,
    vars: Seq<(Seq<char>, Seq<char>)>,
) -> Result<Seq<char>, FormatFailureView>;

/// Calls `strfmt::strfmt` with the map made of `vars`.
///
/// The result is named `strfmt_output` of the format string and the pairs.
/// The source (`new_key_error`) builds the message of a key error as
/// `"Invalid key: "` followed by the key, and a key never holds `:`
/// (`Formatter::from_str` ends it at the first `:`).
#[verifier::external_body]
pub(crate) fn strfmt_format(template: &str, vars: &Vec<(String, String)>) -> (r: Result<String, FormatFailure>)
    ensures
        strfmt_output(template@, pair_views(vars@)) == format_result_view(r),
        r matches Err(FormatFailure::KeyError(m)) ==> is_key_error_message(m@),
{
    let map: HashMap<String, String> = vars.iter().cloned().collect();
    match strfmt::strfmt(template, &map) {
        Ok(s) => Ok(s),
        Err(strfmt::FmtError::Invalid(m)) => Err(FormatFailure::Invalid(m)),
        Err(strfmt::FmtError::KeyError(m)) => Err(FormatFailure::KeyError(m)),
        Err(strfmt::FmtError::TypeError(m)) => Err(FormatFailure::TypeError(m)),
    }
}

#[verifier::external_type_specification]
#[verifier::external_body]
pub struct ExRegex(regex::Regex);

/// What `regex::Regex::new` gives for a pattern: `None` when the pattern
/// compiles, otherwise the text of the error.
pub uninterp spec fn regex_compile_error(pattern: Seq<char>) -> Option<Seq<char>>;

/// The texts of the successive non-overlapping matches that
/// `regex::Regex::find_iter` yields for the regex compiled from `pattern`
/// over `text`.
pub uninterp spec fn regex_find_all(pattern: Seq<char>, text: Seq<char>) -> Seq<Seq<char>>;

/// A regex together with the pattern it was compiled from.
pub struct CompiledPattern {
    source: String,
    regex: regex::Regex,
}

impl CompiledPattern {
    /// The pattern this regex was compiled from.
    pub closed spec fn source(&self) -> Seq<char> {
        self.source@
    }
}

/// Calls `regex::Regex::new`; on success keeps the pattern beside the
/// compiled regex, on failure gives the error's text.
#[verifier::external_body]
pub(crate) fn compile_pattern(pattern: &str) -> (r: Result<CompiledPattern, String>)
    ensures
        r is Ok <==> regex_compile_error(pattern@) is None,
        r matches Ok(c) ==> c.source() == pattern@,
        r matches Err(m) ==> regex_compile_error(pattern@) == Some(m@),
{
    match regex::Regex::new(pattern) {
        Ok(regex) => Ok(CompiledPattern { source: pattern.to_owned(), regex }),
        Err(e) => Err(e.to_string()),
    }
}

/// Calls `regex::Regex::find_iter` and gives the text of each match, in
/// order; the result is named `regex_find_all` of the pattern and text.
#[verifier::external_body]
pub(crate) fn find_all_matches(p: &CompiledPattern, text: &str) -> (r: Vec<String>)
    ensures
        crate::text::strs(r@) == regex_find_all(p.source(), text@),
{
    p.regex.find_iter(text).map(|m| m.as_str().to_owned()).collect()
}

/// What `unicode_width::UnicodeWidthStr::width` gives for a string: the
/// number of columns it takes on a terminal.
pub uninterp spec fn display_width(s: Seq<char>) -> usize;

/// Whether every character of `s` is printable ASCII (space to `~`).
pub open spec fn printable_ascii(s: Seq<char>) -> bool {
    forall|i: int| 0 <= i < s.len() ==> ' ' <= #[trigger] s[i] && s[i] <= '~'
}

/// Calls `UnicodeWidthStr::width`; the result is named `display_width`.
///
/// The source (`single_char_width` and `width_in_str`) gives one column to
/// each printable ASCII character, so such a string is as wide as it is long.
#[verifier::external_body]
pub(crate) fn str_width(s: &str) -> (r: usize)
    ensures
        r == display_width(s@),
        printable_ascii(s@) ==> r == s@.len(),
{
    s.width()
}

/// What `Path::join` gives, read back as text, for a base path and a
/// further component.
pub uninterp spec fn joined_path(base: Seq<char>, part: Seq<char>) -> Seq<char>;

/// Calls `std::path::Path::join` and reads the result back as text.
#[verifier::external_body]
pub(crate) fn path_join(base: &str, part: &str) -> (r: String)
    ensures
        r@ == joined_path(base@, part@),
{
    Path::new(base).join(part).to_string_lossy().into_owned()
}

/// What `owo_colors` writes for `s` shown in the foreground color
/// `CustomColor<201, 165, 249>`: the escape code that sets that color, the
/// text, and the escape code that resets the foreground color.
pub open spec fn highlighted(s: Seq<char>) -> Seq<char> {
    "\x1b[38;2;201;165;249m"@ + s + "\x1b[39m"@
}

/// Formats `s` with `OwoColorize::fg::<CustomColor<201, 165, 249>>`, whose
/// `Display` writes the color's `ANSI_FG` code (`"\x1b[38;2;201;165;249m"`,
/// each component written with three digits), the text, then `"\x1b[39m"`.
#[verifier::external_body]
pub(crate) fn highlight(s: &str) -> (r: String)
    ensures
        r@ == highlighted(s@),
{
    format!("{}", s.fg::<CustomColor<201, 165, 249>>())
}

} // verus!
