//! File-name rules for the artifacts that a test run leaves behind.
use vstd::prelude::*;
use vstd::string::*;

verus! {

/// Index of the last `'.'` in `s`, or -1 where `s` has none.
pub open spec fn last_dot(s: Seq<char>) -> int
    decreases s.len(),
{
    if s.len() == 0 {
        -1
    } else if s.last() == '.' {
        s.len() - 1
    } else {
        last_dot(s.drop_last())
    }
}

/// A single path component that names a file: not empty, not `.` or `..`,
/// and free of separators.
pub open spec fn is_file_name(s: Seq<char>) -> bool {
    &&& s.len() > 0
    &&& s != seq!['.']
    &&& s != seq!['.', '.']
    &&& forall|i: int| 0 <= i < s.len() ==> s[i] != '/'
}

/// The test name of an artifact: its file name without the extension, that is
/// without the last `'.'` and what follows it. A name whose only dot leads it
/// (a hidden file) keeps that dot.
pub open spec fn test_name_of(s: Seq<char>) -> Seq<char> {
    if last_dot(s) <= 0 {
        s
    } else {
        s.subrange(0, last_dot(s))
    }
}

pub open spec fn ends_with(s: Seq<char>, suffix: Seq<char>) -> bool {
    s.len() >= suffix.len() && s.subrange(s.len() - suffix.len(), s.len() as int) == suffix
}

/// Extension of a report artifact: the detail of a test that passed.
pub open spec fn report_suffix() -> Seq<char> {
    seq!['.', 'r', 'e', 'p']
}

/// Extension of an error artifact: the detail of a test that failed.
pub open spec fn error_suffix() -> Seq<char> {
    seq!['.', 'e', 'r', 'r']
}

proof fn lemma_last_dot(s: Seq<char>, k: int)
    requires
        -1 <= k < s.len(),
        k >= 0 ==> s[k] == '.',
        forall|j: int| k < j < s.len() ==> s[j] != '.',
    ensures
        last_dot(s) == k,
    decreases s.len(),
{
    if s.len() > 0 && k < s.len() - 1 {
        assert(s.last() != '.');
        lemma_last_dot(s.drop_last(), k);
    }
}

/// The test name that an artifact's file name stands for: the name with its
/// extension removed, so that `x.rep` and `x.err` both belong to test `x`.
pub fn to_test_name(filename: &str) -> (r: String)
    requires
        is_file_name(filename@),
    ensures
        r@ == test_name_of(filename@),
{
    let n = filename.unicode_len();
    let mut i: usize = n;
    let mut found = false;
    while i > 0 && !found
        invariant
            i <= n,
            n == filename@.len(),
            found ==> i > 0 && filename@[i - 1] == '.',
            forall|j: int| i <= j < n ==> filename@[j] != '.',
        decreases i + (if found { 0int } else { 1int }),
    {
        if filename.get_char(i - 1) == '.' {
            found = true;
        } else {
            i = i - 1;
        }
    }
    proof {
        lemma_last_dot(filename@, i - 1);
    }
    if i <= 1 {
        String::from_str(filename)
    } else {
        String::from_str(filename.substring_char(0, i - 1))
    }
}

/// Whether `name` ends with the four characters of `suffix`.
fn has_suffix(name: &str, suffix: &str) -> (r: bool)
    requires
        suffix@.len() == 4,
    ensures
        r == ends_with(name@, suffix@),
{
    let n = name.unicode_len();
    if n < 4 {
        return false;
    }
    let mut k: usize = 0;
    while k < 4
        invariant
            k <= 4,
            n == name@.len(),
            n >= 4,
            suffix@.len() == 4,
            forall|j: int| 0 <= j < k ==> name@[n - 4 + j] == suffix@[j],
        decreases 4 - k,
    {
        if name.get_char(n - 4 + k) != suffix.get_char(k) {
            proof {
                let tail = name@.subrange(n - 4, n as int);
                assert(tail[k as int] != suffix@[k as int]);
            }
            return false;
        }
        k = k + 1;
    }
    assert(name@.subrange(n - 4, n as int) =~= suffix@);
    true
}

/// Whether a file name is that of a report artifact.
pub fn is_report_name(name: &str) -> (r: bool)
    ensures
        r == ends_with(name@, report_suffix()),
{
    proof {
        reveal_strlit(".rep");
    }
    let r = has_suffix(name, ".rep");
    proof {
        assert(".rep"@ =~= report_suffix());
    }
    r
}

/// Whether a file name is that of an error artifact.
pub fn is_err_name(name: &str) -> (r: bool)
    ensures
        r == ends_with(name@, error_suffix()),
{
    proof {
        reveal_strlit(".err");
    }
    let r = has_suffix(name, ".err");
    proof {
        assert(".err"@ =~= error_suffix());
    }
    r
}

/// A file met while walking the test-data directory, as far as the artifact
/// rules read it.
pub struct ArtifactEntry {
    /// The file name, with each stretch of bytes that is not text replaced
    /// by U+FFFD.
    pub name: String,
    /// Whether the file name is valid text as it stands.
    pub name_is_text: bool,
}

/// Whether the entry is an error artifact. An entry whose name is not text
/// is none.
pub fn is_err_file(entry: &ArtifactEntry) -> (r: bool)
    ensures
        r == (entry.name_is_text && ends_with(entry.name@, error_suffix())),
{
    entry.name_is_text && is_err_name(entry.name.as_str())
}

/// Whether the entry is a report artifact. An entry whose name is not text
/// is none.
pub fn is_report_file(entry: &ArtifactEntry) -> (r: bool)
    ensures
        r == (entry.name_is_text && ends_with(entry.name@, report_suffix())),
{
    entry.name_is_text && is_report_name(entry.name.as_str())
}

/// What a file of the test-data directory is to the collector.
#[derive(Debug, PartialEq, Eq, Structural, Clone, Copy)]
pub enum ArtifactKind {
    Report,
    Error,
    /// Not an artifact: left alone.
    Other,
}

/// Why the artifacts of a run cannot be collected.
#[derive(Debug, PartialEq, Eq, Structural, Clone, Copy)]
pub enum ArtifactError {
    /// An artifact's file name is not text, so no test name can be read
    /// from it.
    NameNotText,
}

/// Sorts a file of the test-data directory: a report, an error, or no
/// artifact, by the extension of its name. An artifact whose name is not
/// text is an error, since its test cannot be named.
pub fn classify_artifact(entry: &ArtifactEntry) -> (r: Result<ArtifactKind, ArtifactError>)
    ensures
        r is Err <==> !entry.name_is_text && (ends_with(entry.name@, report_suffix()) || ends_with(
            entry.name@,
            error_suffix(),
        )),
        r matches Err(e) ==> e == ArtifactError::NameNotText,
        r == Ok::<ArtifactKind, ArtifactError>(ArtifactKind::Report) <==> entry.name_is_text
            && ends_with(entry.name@, report_suffix()),
        r == Ok::<ArtifactKind, ArtifactError>(ArtifactKind::Error) <==> entry.name_is_text
            && ends_with(entry.name@, error_suffix()),
        r == Ok::<ArtifactKind, ArtifactError>(ArtifactKind::Other) <==> !(ends_with(
            entry.name@,
            report_suffix(),
        ) || ends_with(entry.name@, error_suffix())),
{
    let report = is_report_name(entry.name.as_str());
    let error = is_err_name(entry.name.as_str());
    proof {
        if report && error {
            let n = entry.name@.len();
            assert(entry.name@.subrange(n - 4, n as int)[1] == report_suffix()[1]);
        }
    }
    if !report && !error {
        Ok(ArtifactKind::Other)
    } else if !entry.name_is_text {
        Err(ArtifactError::NameNotText)
    } else if report {
        Ok(ArtifactKind::Report)
    } else {
        Ok(ArtifactKind::Error)
    }
}

} // verus!
