//! Regular expressions: a compiled pattern and what a search with it finds.

use regex::Regex;
use vstd::prelude::*;

use crate::osc;
use crate::text;

verus! {

/// The compiled form of a regular expression, in the crate `regex`.
#[verifier::external_type_specification]
#[verifier::external_body]
pub struct ExRegex(Regex);

/// A regular expression together with the text that it was compiled from. Only `compile` makes
/// one, so the two belong together.
pub struct Pattern {
    source: String,
    regex: Regex,
}

impl View for Pattern {
    type V = Seq<char>;

    /// The text that the pattern was compiled from.
    closed spec fn view(&self) -> Seq<char> {
        self.source@
    }
}

/// What the capture groups of the regular expression `pattern` hold after a search in `text`, in
/// the order of the groups and with the whole match as group 0, where there is a match.
pub uninterp spec fn regex_captures(pattern: Seq<char>, text: Seq<char>) -> Option<
    Seq<Option<Seq<char>>>,
>;

/// The names of the capture groups of the regular expression `pattern`, in the order of the
/// groups.
pub uninterp spec fn regex_group_names(pattern: Seq<char>) -> Seq<Option<Seq<char>>>;

/// Whether the groups of a match, where there is one, hold stretches of `text`, and the first one,
/// which is the whole match, took part.
pub open spec fn groups_stand_in(groups: Option<Seq<Option<Seq<char>>>>, text: Seq<char>) -> bool {
    groups matches Some(groups) ==> {
        &&& groups.len() > 0
        &&& groups[0] is Some
        &&& forall|i: int|
            0 <= i < groups.len() && #[trigger] groups[i] is Some ==> text::contains_text(
                text,
                groups[i]->0,
            )
    }
}

/// Whether the text is one of the patterns that this library is written with.
pub open spec fn is_own_pattern(pattern: Seq<char>) -> bool {
    ||| pattern == osc::EXIT_CODE_PATTERN@
    ||| pattern == osc::CURRENT_DIR_PATTERN@
    ||| pattern == osc::SHELL_MARK_PATTERN@
}

impl Pattern {
    /// Trusted: `Regex::new` compiles a regular expression. Which texts it accepts is left unsaid,
    /// because it also refuses what takes too much of the machine's memory; the library's own
    /// patterns are small and follow its syntax.
    #[verifier::external_body]
    pub(crate) fn compile(source: &str) -> (r: Option<Pattern>)
        ensures
            r matches Some(pattern) ==> pattern@ == source@,
            is_own_pattern(source@) ==> r is Some,
    {
        let regex = Regex::new(source).ok()?;
        Some(Pattern { source: source.to_string(), regex })
    }

    /// Trusted: `Regex::captures` searches for the leftmost match and returns what its capture
    /// groups hold, which depends on the pattern and the text alone; each holds a stretch of the
    /// text, and the first one, which is the whole match, took part. For the two of the library's
    /// own patterns that it is called with, the contract says what the search finds. It leaves
    /// unsaid which characters outside of ASCII an exit code may hold, which are the decimal
    /// digits of all scripts.
    #[verifier::external_body]
    pub(crate) fn captures(&self, text: &str) -> (r: Option<Vec<Option<String>>>)
        ensures
            r.deep_view() == regex_captures(self@, text@),
            groups_stand_in(r.deep_view(), text@),
            self@ == osc::EXIT_CODE_PATTERN@ ==> osc::exit_groups(text@, r.deep_view()),
            self@ == osc::CURRENT_DIR_PATTERN@ ==> osc::current_dir_groups(text@, r.deep_view()),
    {
        let captures = self.regex.captures(text)?;
        Some(captures.iter().map(|group| group.map(|m| m.as_str().to_string())).collect())
    }

    /// Trusted: `Regex::is_match` tells whether there is a match anywhere in the text. For the one
    /// of the library's own patterns that it is called with, the contract says when that is.
    #[verifier::external_body]
    pub(crate) fn is_match(&self, text: &str) -> (r: bool)
        ensures
            r == (regex_captures(self@, text@) is Some),
            self@ == osc::SHELL_MARK_PATTERN@ ==> r == osc::starts_with_shell_mark(text@),
    {
        self.regex.is_match(text)
    }

    /// Trusted: `Regex::capture_names` lists the names of the capture groups, which depend on the
    /// pattern alone.
    #[verifier::external_body]
    pub(crate) fn capture_names(&self) -> (r: Vec<Option<String>>)
        ensures
            r.deep_view() == regex_group_names(self@),
    {
        self.regex.capture_names().map(|name| name.map(|n| n.to_string())).collect()
    }
}

} // verus!
