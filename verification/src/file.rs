//! The snapshot of one parsed log file.
use vstd::prelude::*;
use crate::detect::patterns_compile;
use crate::entry::{entry_views, LogEntry};
use crate::segment::{entries_of, parse_log_entries};
use crate::text::contains_text;

verus! {

/// A parsed log file: where it came from, and its entries.
pub struct LogFile {
    /// The last component of the path, or `unknown`.
    pub name: String,
    /// The path as it was given.
    pub path: String,
    /// The size of the file in bytes.
    pub size: u64,
    /// When the file was last modified, as text, or `Unknown`.
    pub last_modified: String,
    /// The entries of the file, in the order of the text.
    pub entries: Vec<LogEntry>,
}

/// The name shown for a path without a last component.
pub open spec fn unknown_name() -> Seq<char> {
    "unknown"@
}

/// The text shown for a time that could not be had.
pub open spec fn unknown_time() -> Seq<char> {
    "Unknown"@
}

/// An ASCII letter or digit.
pub open spec fn is_ascii_letter_or_digit(c: char) -> bool {
    let n = c as u32;
    ||| 0x30 <= n <= 0x39
    ||| 0x41 <= n <= 0x5A
    ||| 0x61 <= n <= 0x7A
}

/// A path that is one plain name: not empty, and made of ASCII letters and
/// digits alone.
pub open spec fn is_plain_name(path: Seq<char>) -> bool {
    path.len() > 0 && forall|i: int|
        0 <= i < path.len() ==> is_ascii_letter_or_digit(#[trigger] path[i])
}

/// A path that every platform reads by slashes alone, and whose text after
/// the last slash is a name: it is not empty, holds no backslash and no
/// colon, does not begin with two slashes, and ends neither in a slash nor in
/// a dot.
pub open spec fn is_slash_path(path: Seq<char>) -> bool {
    &&& path.len() > 0
    &&& !path.contains('\\')
    &&& !path.contains(':')
    &&& !(path.len() >= 2 && path[0] == '/' && path[1] == '/')
    &&& path.last() != '/'
    &&& path.last() != '.'
}

/// The position after the last slash of `path`, or 0 where it holds none.
pub open spec fn after_slash(path: Seq<char>) -> int
    decreases path.len(),
{
    if path.len() == 0 {
        0
    } else if path.last() == '/' {
        path.len() as int
    } else {
        after_slash(path.drop_last())
    }
}

/// What holds of the last component of a path on every platform: it is not
/// empty and is a piece of the path; it holds no slash unless the path holds a
/// backslash; it is the whole path where the path is one plain name; and it
/// is what follows the last slash where the path is a slash path.
pub open spec fn fits_last_component(component: Seq<char>, path: Seq<char>) -> bool {
    &&& component.len() > 0
    &&& contains_text(path, component)
    &&& !path.contains('\\') ==> !component.contains('/')
    &&& is_plain_name(path) ==> component == path
    &&& is_slash_path(path) ==> component == path.skip(after_slash(path))
}

/// Calls `std::path::Path::file_name` on the path and hands the component
/// back as a string, or `None` where the path has no last component or the
/// component is no valid text. Components are never empty and are pieces of
/// the path they were taken from. The slash separates components on every
/// platform, except in the paths of one platform that begin with backslashes,
/// so a component of a path without a backslash holds no slash. A path has a
/// last component unless it is empty, is a root or a prefix alone, or ends in
/// two dots; a slash or a single dot at the end is passed over. So a slash
/// path, which ends in neither and has no prefix, has what follows its last
/// slash as last component, and a plain name is its own. For other paths,
/// where the last component begins depends on what the platform takes for a
/// separator and a prefix, so no more than this is claimed.
#[verifier::external_body]
fn last_component(path: &str) -> (name: Option<String>)
    ensures
        name matches Some(component) ==> fits_last_component(component@, path@),
        is_plain_name(path@) || is_slash_path(path@) ==> name is Some,
{
    std::path::Path::new(path).file_name().and_then(|name| name.to_str()).map(
        |name| name.to_string(),
    )
}

/// The name to show for a last component that may be missing.
pub fn name_or_unknown(component: Option<String>) -> (name: String)
    ensures
        name@ == match component {
            Some(given) => given@,
            None => unknown_name(),
        },
{
    match component {
        Some(given) => given,
        None => "unknown".to_owned(),
    }
}

/// The time to show for a modification time that may be missing.
pub fn time_or_unknown(modified: Option<String>) -> (shown: String)
    ensures
        shown@ == match modified {
            Some(given) => given@,
            None => unknown_time(),
        },
{
    match modified {
        Some(given) => given,
        None => "Unknown".to_owned(),
    }
}

/// What holds of the name shown for the file that `path` leads to. It is
/// what follows the last slash where the path is a slash path, and the path
/// itself where the path is one plain name. For any other path it is a piece
/// of the path or the word `unknown`. It is never empty, and holds no slash
/// unless the path holds a backslash.
pub open spec fn fits_file_name(name: Seq<char>, path: Seq<char>) -> bool {
    &&& name.len() > 0
    &&& contains_text(path, name) || name == unknown_name()
    &&& !path.contains('\\') ==> !name.contains('/')
    &&& is_plain_name(path) ==> name == path
    &&& is_slash_path(path) ==> name == path.skip(after_slash(path))
}

/// The name of the file that `path` leads to: its last component as the
/// platform sees it, or `unknown` where the path has none.
pub fn file_name_of(path: &str) -> (name: String)
    ensures
        fits_file_name(name@, path@),
{
    let component = last_component(path);
    proof {
        reveal_strlit("unknown");
        if component is None {
            let word = unknown_name();
            assert forall|i: int| 0 <= i < word.len() implies word[i] != '/' by {}
        }
    }
    name_or_unknown(component)
}

/// Builds the snapshot of a file from what was read of it: its path, its
/// text, its size and its modification time as text, if that could be had.
/// Fails only if the `regex` crate refuses one of the detectors' patterns.
pub fn parse_log_file(path: String, content: &str, size: u64, modified: Option<String>) -> (file:
    Option<LogFile>)
    ensures
        file is Some <==> patterns_compile(),
        file matches Some(f) ==> {
            &&& fits_file_name(f.name@, path@)
            &&& f.path@ == path@
            &&& f.size == size
            &&& f.last_modified@ == match modified {
                Some(given) => given@,
                None => unknown_time(),
            }
            &&& entry_views(f.entries@) == entries_of(content@)
        },
{
    match parse_log_entries(content) {
        Some(entries) => {
            let name = file_name_of(path.as_str());
            Some(LogFile { name, path, size, last_modified: time_or_unknown(modified), entries })
        },
        None => None,
    }
}

} // verus!
