//! Which changed files are parsed.
use vstd::prelude::*;

verus! {

/// What a file-system event did to a file.
#[derive(Debug, PartialEq, Eq, Clone, Copy, Structural)]
pub enum ChangeKind {
    /// The file's contents were modified.
    ContentModified,
    /// The file was created.
    FileCreated,
    /// Anything else: metadata, removal, renaming, access.
    Other,
}

/// Whether an event of this kind may lead to a parse of its file.
pub fn is_relevant_change(kind: ChangeKind) -> (r: bool)
    ensures
        r == (kind == ChangeKind::ContentModified || kind == ChangeKind::FileCreated),
{
    match kind {
        ChangeKind::ContentModified | ChangeKind::FileCreated => true,
        ChangeKind::Other => false,
    }
}

/// `s` ends with `t`.
pub open spec fn ends_with_seq(s: Seq<char>, t: Seq<char>) -> bool {
    t.len() <= s.len() && s.subrange(s.len() - t.len(), s.len() as int) == t
}

/// Some entry of `allowed` is a suffix of `ext`.
pub open spec fn extension_allowed(ext: Seq<char>, allowed: Seq<String>) -> bool {
    exists|i: int| 0 <= i < allowed.len() && ends_with_seq(ext, #[trigger] allowed[i]@)
}

/// A changed file is parsed when it is not itself a generated file, its
/// extension ends with one of the watched extensions, and no ignore pattern
/// matches its path.
pub open spec fn path_selected(
    path: Seq<char>,
    ext: Seq<char>,
    output_ext: Seq<char>,
    allowed: Seq<String>,
    ignored: bool,
) -> bool {
    !ends_with_seq(path, output_ext) && extension_allowed(ext, allowed) && !ignored
}

/// Whether `s` ends with `t`.
pub fn str_ends_with(s: &str, t: &str) -> (r: bool)
    ensures
        r == ends_with_seq(s@, t@),
{
    let n = s.unicode_len();
    let m = t.unicode_len();
    if m > n {
        return false;
    }
    let d = n - m;
    let mut i: usize = 0;
    while i < m
        invariant
            n == s@.len(),
            m == t@.len(),
            d == n - m,
            0 <= i <= m,
            forall|x: int| 0 <= x < i ==> s@[d + x] == t@[x],
        decreases m - i,
    {
        if s.get_char(d + i) != t.get_char(i) {
            assert(s@.subrange(d as int, n as int)[i as int] != t@[i as int]);
            return false;
        }
        i = i + 1;
    }
    assert(s@.subrange(d as int, n as int) =~= t@);
    true
}

/// Decides whether a changed file is parsed, given whether an ignore pattern
/// matched its path.
pub fn select_path(
    path: &str,
    extension: &str,
    output_file_extension: &str,
    allowed_extensions: &Vec<String>,
    ignored: bool,
) -> (r: bool)
    ensures
        r == path_selected(path@, extension@, output_file_extension@, allowed_extensions@, ignored),
{
    if str_ends_with(path, output_file_extension) {
        return false;
    }
    let mut found = false;
    let mut i: usize = 0;
    while i < allowed_extensions.len()
        invariant
            0 <= i <= allowed_extensions@.len(),
            found == exists|j: int|
                0 <= j < i && ends_with_seq(extension@, #[trigger] allowed_extensions@[j]@),
        decreases allowed_extensions@.len() - i,
    {
        if str_ends_with(extension, allowed_extensions[i].as_str()) {
            found = true;
        }
        i = i + 1;
    }
    found && !ignored
}

/// Whether the regular expression `pattern` matches somewhere in `text`;
/// `None` when `pattern` is not a valid regular expression.
pub uninterp spec fn regex_match_of(pattern: Seq<char>, text: Seq<char>) -> Option<bool>;

/// Relies on regex::Regex::new to compile `pattern` (`None` when it is
/// invalid) and regex::Regex::is_match to test `text`; the result depends on
/// the two strings alone.
#[verifier::external_body]
fn regex_is_match(pattern: &str, text: &str) -> (r: Option<bool>)
    ensures
        r == regex_match_of(pattern@, text@),
{
    regex::Regex::new(pattern).ok().map(|re| re.is_match(text))
}

/// Some pattern of `patterns` is a valid regular expression that matches
/// somewhere in `text`.
pub open spec fn ignored_by(patterns: Seq<String>, text: Seq<char>) -> bool {
    exists|i: int|
        0 <= i < patterns.len() && regex_match_of(#[trigger] patterns[i]@, text) == Some(true)
}

/// Whether a changed file is parsed: it is not a generated file, its
/// extension ends with one of `allowed_extensions`, and none of
/// `ignore_patterns` matches its path.
pub fn should_parse_path(
    path: &str,
    extension: &str,
    output_file_extension: &str,
    allowed_extensions: &Vec<String>,
    ignore_patterns: &Vec<String>,
) -> (r: bool)
    ensures
        r == path_selected(
            path@,
            extension@,
            output_file_extension@,
            allowed_extensions@,
            ignored_by(ignore_patterns@, path@),
        ),
{
    let mut ignored = false;
    let mut i: usize = 0;
    while i < ignore_patterns.len()
        invariant
            0 <= i <= ignore_patterns@.len(),
            ignored == exists|j: int|
                0 <= j < i && regex_match_of(#[trigger] ignore_patterns@[j]@, path@) == Some(
                    true,
                ),
        decreases ignore_patterns@.len() - i,
    {
        if regex_is_match(ignore_patterns[i].as_str(), path) == Some(true) {
            ignored = true;
        }
        i = i + 1;
    }
    select_path(path, extension, output_file_extension, allowed_extensions, ignored)
}

} // verus!
