//! The calls into outside crates and into std functions that vstd does not
//! specify. Each trusted item below states what the library relies on.
use vstd::prelude::*;
use vstd::utf8::decode_utf8;
use vstd::utf8::valid_utf8;

use unicode_normalization::UnicodeNormalization;

use crate::commands::entries_view;
use crate::commands::MappingEntry;
use crate::commands::MappingEntryView;
use crate::text::contains_spec;
use crate::text::rfind_spec;
use crate::text::starts_with_spec;

verus! {

/// What `regex::Regex::captures` finds in `text` for the regular expression
/// `pattern`: the groups of the leftmost-first match (group 0 is the whole
/// match; a group that did not take part is `None`), or `None` when nothing
/// matches.
pub uninterp spec fn regex_captures_of(pattern: Seq<char>, text: Seq<char>) -> Option<
    Seq<Option<Seq<char>>>,
>;

/// What `regex::Regex::captures_iter` yields for `pattern` on `text`: the
/// groups of each successive non-overlapping match, in order.
pub uninterp spec fn regex_captures_all_of(pattern: Seq<char>, text: Seq<char>) -> Seq<
    Seq<Option<Seq<char>>>,
>;

/// What `regex::Regex::replace` returns for `pattern` on `text`: the text with
/// its leftmost-first match replaced by `replacement` (in which the regex
/// crate expands `$` group references), or the text itself when nothing
/// matches.
pub uninterp spec fn regex_replace_of(
    pattern: Seq<char>,
    text: Seq<char>,
    replacement: Seq<char>,
) -> Seq<char>;

/// Whether `regex::Regex::new` accepts `pattern`: it is valid syntax and the
/// compiled program stays within the crate's default size limits.
pub uninterp spec fn regex_accepts_of(pattern: Seq<char>) -> bool;

/// The compatibility decomposition (NFKD) of `text`, as the
/// `unicode_normalization` crate computes it.
pub uninterp spec fn nfkd_of(text: Seq<char>) -> Seq<char>;

/// What `encoding_rs::GBK.decode` gives for `bytes`: the decoded text and
/// whether malformed sequences were replaced.
pub uninterp spec fn gbk_decode_of(bytes: Seq<u8>) -> (Seq<char>, bool);

/// What `String::from_utf8_lossy` gives for `bytes`.
pub uninterp spec fn utf8_lossy_of(bytes: Seq<u8>) -> Seq<char>;

#[verifier::external_type_specification]
#[verifier::external_body]
pub struct ExRegex(regex::Regex);

#[verifier::external_type_specification]
#[verifier::external_body]
pub struct ExRegexError(regex::Error);

/// Calls `regex::Regex::new`: it succeeds exactly when the crate accepts
/// `source`. Which regular expression a compiled value stands for is
/// recorded by [`CompiledRegex`], the only place that keeps one.
#[verifier::external_body]
fn regex_new(source: &str) -> (res: Result<regex::Regex, regex::Error>)
    ensures
        res is Ok <==> regex_accepts_of(source@),
{
    regex::Regex::new(source)
}

/// A regular expression compiled from a known source text.
pub struct CompiledRegex {
    source: String,
    regex: regex::Regex,
}

impl View for CompiledRegex {
    type V = Seq<char>;

    closed spec fn view(&self) -> Seq<char> {
        self.source@
    }
}

impl CompiledRegex {
    /// Compiles `source`; `None` when the regex crate rejects it.
    pub fn compile(source: &str) -> (res: Option<CompiledRegex>)
        ensures
            res is Some <==> regex_accepts_of(source@),
            res matches Some(r) ==> r@ == source@,
    {
        match regex_new(source) {
            Ok(regex) => Some(CompiledRegex { source: source.to_owned(), regex }),
            Err(_) => None,
        }
    }

    /// Calls `regex::Regex::captures` on `text` and copies out the text of
    /// each group. The compiled regex was built from `self@` by
    /// [`CompiledRegex::compile`], so the result is the named one for that
    /// source. Each group's text is the piece of `text` that it matched.
    #[verifier::external_body]
    pub(crate) fn captures(&self, text: &str) -> (res: Option<Vec<Option<String>>>)
        ensures
            res.deep_view() == regex_captures_of(self@, text@),
            res matches Some(c) ==> forall|i: int|
                0 <= i < c@.len() ==> (#[trigger] c@[i] matches Some(g) ==> contains_spec(
                    text@,
                    g@,
                )),
    {
        self.regex.captures(text).map(
            |c| c.iter().map(|m| m.map(|m| m.as_str().to_string())).collect(),
        )
    }

    /// Calls `regex::Regex::captures_iter` on `text` and copies out the text
    /// of each group of each match.
    #[verifier::external_body]
    pub(crate) fn captures_all(&self, text: &str) -> (res: Vec<Vec<Option<String>>>)
        ensures
            res.deep_view() == regex_captures_all_of(self@, text@),
    {
        self.regex.captures_iter(text).map(
            |c| c.iter().map(|m| m.map(|m| m.as_str().to_string())).collect(),
        ).collect()
    }

    /// Calls `regex::Regex::replace` on `text` with `replacement`.
    #[verifier::external_body]
    pub(crate) fn replace(&self, text: &str, replacement: &str) -> (res: String)
        ensures
            res@ == regex_replace_of(self@, text@, replacement@),
    {
        self.regex.replace(text, replacement).into_owned()
    }
}

/// Calls `UnicodeNormalization::nfkd` on `text` and collects the characters.
#[verifier::external_body]
pub(crate) fn nfkd(text: &str) -> (res: String)
    ensures
        res@ == nfkd_of(text@),
{
    text.nfkd().collect::<String>()
}

/// Calls `encoding_rs::GBK.decode` on `bytes`. It panics only when a buffer
/// size overflows `usize`, which the bound on the length rules out.
#[verifier::external_body]
pub(crate) fn gbk_decode(bytes: &[u8]) -> (res: (String, bool))
    requires
        bytes@.len() <= usize::MAX / 4,
    ensures
        res.0@ == gbk_decode_of(bytes@).0,
        res.1 == gbk_decode_of(bytes@).1,
{
    let (text, _, had_errors) = encoding_rs::GBK.decode(bytes);
    (text.into_owned(), had_errors)
}

/// The part of `path` after its last `/`, or all of it when it has none.
pub open spec fn last_segment(path: Seq<char>) -> Seq<char> {
    match rfind_spec(path, seq!['/']) {
        Some(p) => path.subrange(p + 1, path.len() as int),
        None => path,
    }
}

/// Whether `path` names its file the same way on every platform: it holds
/// no `\` and does not begin with `//` (so no Windows prefix but a drive
/// letter can start it), and its part after the last `/` is not empty, not
/// `.` or `..`, and holds no `:`.
pub open spec fn names_file_plainly(path: Seq<char>) -> bool {
    let name = last_segment(path);
    &&& !path.contains('\\')
    &&& !starts_with_spec(path, seq!['/', '/'])
    &&& name.len() > 0
    &&& name != seq!['.']
    &&& name != seq!['.', '.']
    &&& !name.contains(':')
}

/// Calls `std::path::Path::file_name` on `path`, as text. Its documentation
/// calls the result the final component of the path; for a path that names
/// its file plainly (see [`names_file_plainly`]) that is the part after the
/// last `/`, and an empty path has none. For other paths (with `\`, Windows
/// prefixes, or ending in a separator, `.` or `..`) the result depends on
/// the platform's separators and is left unsaid.
#[verifier::external_body]
pub(crate) fn path_file_name(path: &str) -> (res: Option<String>)
    ensures
        names_file_plainly(path@) ==> res.deep_view() == Some(last_segment(path@)),
        path@.len() == 0 ==> res is None,
{
    std::path::Path::new(path).file_name().map(|n| n.to_string_lossy().into_owned())
}

/// What `serde_json::from_str::<Vec<String>>` gives for `text`: the list of
/// strings it holds, or `None` when it is not a JSON array of strings.
pub uninterp spec fn string_list_of(text: Seq<char>) -> Option<Seq<Seq<char>>>;

/// What `serde_json::from_str::<serde_json::Value>` gives for `text`, read as
/// a mapping file: `None` when it is not JSON, `Some(None)` when it is not
/// an array, else each item (an object by its keys, each with its value when
/// that is a string).
pub uninterp spec fn mapping_entries_of(text: Seq<char>) -> Option<Option<Seq<MappingEntryView>>>;

/// Calls `serde_json::from_str::<Vec<String>>` on `text`.
#[verifier::external_body]
pub(crate) fn parse_string_list(text: &str) -> (res: Option<Vec<String>>)
    ensures
        res.deep_view() == string_list_of(text@),
{
    serde_json::from_str::<Vec<String>>(text).ok()
}

/// Calls `serde_json::from_str::<serde_json::Value>` on `text` and copies out
/// the array's items: each object as its keys with their string values.
#[verifier::external_body]
pub(crate) fn parse_mapping_entries(text: &str) -> (res: Option<Option<Vec<MappingEntry>>>)
    ensures
        match res {
            Some(entries) => mapping_entries_of(text@) == Some(entries_view(&entries)),
            None => mapping_entries_of(text@) is None,
        },
{
    match serde_json::from_str::<serde_json::Value>(text) {
        Err(_) => None,
        Ok(v) => Some(v.as_array().map(|items| items.iter().map(|item| match item.as_object() {
            None => MappingEntry::NotObject,
            Some(obj) => MappingEntry::Object {
                fields: obj.iter().map(|(k, x)| (k.clone(), x.as_str().map(|t| t.to_string()))).collect(),
            },
        }).collect())),
    }
}

/// Calls `std::str::from_utf8`: it succeeds exactly on valid UTF-8 and then
/// yields the decoded characters.
#[verifier::external_body]
pub(crate) fn utf8_decode(bytes: &[u8]) -> (res: Option<String>)
    ensures
        res is Some <==> valid_utf8(bytes@),
        res matches Some(s) ==> s@ == decode_utf8(bytes@),
{
    std::str::from_utf8(bytes).ok().map(|s| s.to_string())
}

/// Calls `String::from_utf8_lossy`. Its documentation states that valid
/// UTF-8 comes back unchanged; what replaces invalid sequences is left to
/// the name.
#[verifier::external_body]
pub(crate) fn utf8_lossy(bytes: &[u8]) -> (res: String)
    ensures
        res@ == utf8_lossy_of(bytes@),
        valid_utf8(bytes@) ==> res@ == decode_utf8(bytes@),
{
    String::from_utf8_lossy(bytes).into_owned()
}

} // verus!
