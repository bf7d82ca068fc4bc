//! The bot's settings, read from its YAML configuration document.
use vstd::prelude::*;
use vstd::std_specs::iter::IteratorSpec;

verus! {

#[verifier::external_type_specification]
#[verifier::external_body]
pub struct ExYaml(yaml_rust::Yaml);

#[verifier::external_type_specification]
#[verifier::external_body]
pub struct ExScanError(yaml_rust::ScanError);

/// The most nesting marks that a configuration text may hold.
pub const MAX_NESTING_MARKS: usize = 256;

pub open spec fn is_blank_or_end(s: Seq<char>, i: int) -> bool {
    i >= s.len() || s[i] == ' ' || s[i] == '\t' || s[i] == '\n' || s[i] == '\r' || s[i] == '\0'
}

/// Whether the character at `i` can open a level of nesting in YAML: the
/// value mark `:`, the openers `[` and `{`, and the entry and key marks `-`
/// and `?` where a blank or the end follows them. Every level of a
/// document's nesting, block or flow, starts at one such character.
pub open spec fn is_nesting_mark(s: Seq<char>, i: int) -> bool {
    ||| s[i] == ':'
    ||| s[i] == '['
    ||| s[i] == '{'
    ||| (s[i] == '-' || s[i] == '?') && is_blank_or_end(s, i + 1)
}

/// How many of the first `n` characters of `s` are nesting marks.
pub open spec fn marks_in(s: Seq<char>, n: int) -> nat
    decreases n,
{
    if n <= 0 {
        0
    } else {
        marks_in(s, n - 1) + if is_nesting_mark(s, n - 1) {
            1nat
        } else {
            0nat
        }
    }
}

/// How many nesting marks `s` holds: a bound on how deep its documents nest.
pub open spec fn nesting_marks(s: Seq<char>) -> nat {
    marks_in(s, s.len() as int)
}

/// Relies on yaml_rust::YamlLoader::load_from_str to parse a text into its
/// documents, or to refuse it. The loader recurses once per level of
/// nesting, with no bound on block nesting, so the text must nest shallowly
/// enough for the stack.
#[verifier::external_body]
fn load_documents(text: &str) -> (r: Result<Vec<yaml_rust::Yaml>, yaml_rust::ScanError>)
    requires
        nesting_marks(text@) <= MAX_NESTING_MARKS,
{
    yaml_rust::YamlLoader::load_from_str(text)
}

/// Relies on yaml_rust's `Index<&str>` for `Yaml`: the value under `key` of
/// a mapping, or the bad value where there is none. It never panics.
#[verifier::external_body]
fn field<'a>(node: &'a yaml_rust::Yaml, key: &str) -> (r: &'a yaml_rust::Yaml) {
    &node[key]
}

/// Relies on yaml_rust::Yaml::as_str: the text of a string value.
#[verifier::external_body]
fn as_text(node: &yaml_rust::Yaml) -> (r: Option<String>) {
    node.as_str().map(|s| s.to_string())
}

/// Relies on yaml_rust::Yaml::as_i64: the number of an integer value.
#[verifier::external_body]
fn as_integer(node: &yaml_rust::Yaml) -> (r: Option<i64>) {
    node.as_i64()
}

fn chars_of(text: &str) -> (r: Vec<char>)
    ensures
        r@ == text@,
{
    broadcast use vstd::string::group_string_axioms;

    let mut it = text.chars();
    let mut out: Vec<char> = Vec::new();
    loop
        invariant
            it.remaining() == text@.subrange(out@.len() as int, text@.len() as int),
            out@ == text@.take(out@.len() as int),
            out@.len() <= text@.len(),
        ensures
            out@ == text@,
        decreases text@.len() - out@.len(),
    {
        match it.next() {
            Some(c) => {
                out.push(c);
            },
            None => {
                assert(out@ =~= text@);
                break ;
            },
        }
    }
    out
}

/// Whether `text` holds no more nesting marks than the loader is given.
pub fn nesting_within_bound(text: &str) -> (r: bool)
    ensures
        r == (nesting_marks(text@) <= MAX_NESTING_MARKS),
{
    let cs = chars_of(text);
    let n = cs.len();
    let mut count: usize = 0;
    let mut i: usize = 0;
    while i < n
        invariant
            n == cs@.len(),
            cs@ == text@,
            i <= n,
            count == marks_in(text@, i as int),
            count <= MAX_NESTING_MARKS,
        decreases n - i,
    {
        let c = cs[i];
        let blank_after = i + 1 >= n || cs[i + 1] == ' ' || cs[i + 1] == '\t' || cs[i + 1] == '\n'
            || cs[i + 1] == '\r' || cs[i + 1] == '\0';
        let mark = c == ':' || c == '[' || c == '{' || ((c == '-' || c == '?') && blank_after);
        assert(mark == is_nesting_mark(text@, i as int));
        if mark {
            if count == MAX_NESTING_MARKS {
                proof {
                    lemma_marks_grow(text@, i as int + 1, text@.len() as int);
                }
                return false;
            }
            count = count + 1;
        }
        i = i + 1;
    }
    true
}

proof fn lemma_marks_grow(s: Seq<char>, a: int, b: int)
    requires
        0 <= a <= b,
    ensures
        marks_in(s, a) <= marks_in(s, b),
    decreases b - a,
{
    if a < b {
        lemma_marks_grow(s, a, b - 1);
    }
}

/// A setting of the configuration document.
#[derive(Debug, PartialEq, Eq, Structural, Clone, Copy)]
pub enum SettingKey {
    /// `repository.directory`: the canonical clone.
    RepositoryDirectory,
    /// `repository.commit_file`: where the base commit is first read from.
    CommitFile,
    /// `fate.tmp_directory`: parent of the disposable working copies.
    TmpDirectory,
    /// `fate.result_directory`: where reports and captured streams go.
    ResultDirectory,
    /// `fate.samples_directory`: handed to the build/test command.
    SamplesDirectory,
    /// `fate.pre_run_command`.
    PreRunCommand,
    /// `fate.command`: the build/test command.
    Command,
    /// `fate.run_interval_sec`: seconds between two polls.
    RunIntervalSec,
}

/// Why the settings could not be read.
#[derive(Debug, PartialEq, Eq, Structural, Clone, Copy)]
pub enum SettingsError {
    /// The text is no valid YAML.
    Unreadable,
    /// The text holds no document.
    NoDocument,
    /// The text holds more nesting marks than are accepted.
    TooDeep,
    /// The setting is absent, or not of its type.
    Missing(SettingKey),
    /// The poll interval is below zero.
    NegativeInterval,
}

/// The settings of the bot.
pub struct Settings {
    pub repository_directory: String,
    pub commit_file: String,
    pub tmp_directory: String,
    pub result_directory: String,
    pub samples_directory: String,
    pub pre_run_command: String,
    pub command: String,
    pub run_interval_sec: u64,
}

/// A text setting as found: present, or the error that names it.
pub fn text_setting(value: Option<String>, key: SettingKey) -> (r: Result<String, SettingsError>)
    ensures
        value is None <==> r == Err::<String, SettingsError>(SettingsError::Missing(key)),
        value matches Some(v) ==> (r matches Ok(s) && s@ == v@),
{
    match value {
        Some(v) => Ok(v),
        None => Err(SettingsError::Missing(key)),
    }
}

/// The poll interval as found: a whole number of seconds, not below zero.
pub fn interval_setting(value: Option<i64>) -> (r: Result<u64, SettingsError>)
    ensures
        value is None ==> r == Err::<u64, SettingsError>(
            SettingsError::Missing(SettingKey::RunIntervalSec),
        ),
        value matches Some(v) ==> (v < 0 <==> r == Err::<u64, SettingsError>(
            SettingsError::NegativeInterval,
        )),
        value matches Some(v) ==> (v >= 0 ==> r == Ok::<u64, SettingsError>(v as u64)),
{
    match value {
        Some(v) => if v < 0 {
            Err(SettingsError::NegativeInterval)
        } else {
            Ok(v as u64)
        },
        None => Err(SettingsError::Missing(SettingKey::RunIntervalSec)),
    }
}

/// The settings as found in the document, each one present or not.
pub struct RawSettings {
    pub repository_directory: Option<String>,
    pub commit_file: Option<String>,
    pub tmp_directory: Option<String>,
    pub result_directory: Option<String>,
    pub samples_directory: Option<String>,
    pub pre_run_command: Option<String>,
    pub command: Option<String>,
    pub run_interval_sec: Option<i64>,
}

/// What is wrong with found settings, if anything: the first missing one in
/// the order of `SettingKey`, else a negative interval.
pub open spec fn settings_problem(raw: RawSettings) -> Option<SettingsError> {
    if raw.repository_directory is None {
        Some(SettingsError::Missing(SettingKey::RepositoryDirectory))
    } else if raw.commit_file is None {
        Some(SettingsError::Missing(SettingKey::CommitFile))
    } else if raw.tmp_directory is None {
        Some(SettingsError::Missing(SettingKey::TmpDirectory))
    } else if raw.result_directory is None {
        Some(SettingsError::Missing(SettingKey::ResultDirectory))
    } else if raw.samples_directory is None {
        Some(SettingsError::Missing(SettingKey::SamplesDirectory))
    } else if raw.pre_run_command is None {
        Some(SettingsError::Missing(SettingKey::PreRunCommand))
    } else if raw.command is None {
        Some(SettingsError::Missing(SettingKey::Command))
    } else if raw.run_interval_sec is None {
        Some(SettingsError::Missing(SettingKey::RunIntervalSec))
    } else if raw.run_interval_sec.unwrap() < 0 {
        Some(SettingsError::NegativeInterval)
    } else {
        None
    }
}

pub open spec fn text_of(t: Option<String>) -> Seq<char> {
    t.unwrap()@
}

fn lookup_text(doc: &yaml_rust::Yaml, section: &str, key: &str) -> (r: Option<String>) {
    as_text(field(field(doc, section), key))
}

impl Settings {
    /// The settings from values found: each setting as found, or the first
    /// problem with them.
    pub fn from_raw(raw: RawSettings) -> (r: Result<Settings, SettingsError>)
        ensures
            r is Err <==> settings_problem(raw) is Some,
            r matches Err(e) ==> settings_problem(raw) == Some(e),
            r matches Ok(s) ==> {
                &&& s.repository_directory@ == text_of(raw.repository_directory)
                &&& s.commit_file@ == text_of(raw.commit_file)
                &&& s.tmp_directory@ == text_of(raw.tmp_directory)
                &&& s.result_directory@ == text_of(raw.result_directory)
                &&& s.samples_directory@ == text_of(raw.samples_directory)
                &&& s.pre_run_command@ == text_of(raw.pre_run_command)
                &&& s.command@ == text_of(raw.command)
                &&& s.run_interval_sec == raw.run_interval_sec.unwrap()
            },
    {
        let repository_directory = text_setting(
            raw.repository_directory,
            SettingKey::RepositoryDirectory,
        )?;
        let commit_file = text_setting(raw.commit_file, SettingKey::CommitFile)?;
        let tmp_directory = text_setting(raw.tmp_directory, SettingKey::TmpDirectory)?;
        let result_directory = text_setting(raw.result_directory, SettingKey::ResultDirectory)?;
        let samples_directory = text_setting(raw.samples_directory, SettingKey::SamplesDirectory)?;
        let pre_run_command = text_setting(raw.pre_run_command, SettingKey::PreRunCommand)?;
        let command = text_setting(raw.command, SettingKey::Command)?;
        let run_interval_sec = interval_setting(raw.run_interval_sec)?;
        Ok(
            Settings {
                repository_directory,
                commit_file,
                tmp_directory,
                result_directory,
                samples_directory,
                pre_run_command,
                command,
                run_interval_sec,
            },
        )
    }

    /// Reads the settings from a parsed configuration document: the text
    /// settings under `repository` and `fate`, and the integer
    /// `fate.run_interval_sec`. What the document holds is decided by the
    /// YAML library; a failure names a missing setting or a negative interval.
    pub fn from_yaml(doc: &yaml_rust::Yaml) -> (r: Result<Settings, SettingsError>)
        ensures
            r matches Err(e) ==> (e is Missing || e is NegativeInterval),
    {
        let raw = RawSettings {
            repository_directory: lookup_text(doc, "repository", "directory"),
            commit_file: lookup_text(doc, "repository", "commit_file"),
            tmp_directory: lookup_text(doc, "fate", "tmp_directory"),
            result_directory: lookup_text(doc, "fate", "result_directory"),
            samples_directory: lookup_text(doc, "fate", "samples_directory"),
            pre_run_command: lookup_text(doc, "fate", "pre_run_command"),
            command: lookup_text(doc, "fate", "command"),
            run_interval_sec: as_integer(field(field(doc, "fate"), "run_interval_sec")),
        };
        Settings::from_raw(raw)
    }

    /// Reads the settings from the text of the configuration file: its first
    /// document holds them. A text with too many nesting marks is refused
    /// before it is parsed.
    pub fn parse(text: &str) -> (r: Result<Settings, SettingsError>)
        ensures
            r == Err::<Settings, SettingsError>(SettingsError::TooDeep) <==> nesting_marks(text@)
                > MAX_NESTING_MARKS,
            r matches Err(e) ==> (e is Unreadable || e is NoDocument || e is Missing
                || e is NegativeInterval || e is TooDeep),
    {
        if !nesting_within_bound(text) {
            return Err(SettingsError::TooDeep);
        }
        match load_documents(text) {
            Err(_) => Err(SettingsError::Unreadable),
            Ok(docs) => {
                if docs.len() == 0 {
                    Err(SettingsError::NoDocument)
                } else {
                    Settings::from_yaml(&docs[0])
                }
            },
        }
    }
}

} // verus!
