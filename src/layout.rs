//! Where a run's files go, and how a configured command line becomes a
//! program and its arguments.
use vstd::prelude::*;
use vstd::string::*;

verus! {

/// The environment variable that carries the samples directory to the
/// build/test command.
pub const SAMPLES_VARIABLE: &'static str = "FATE_SAMPLES";

/// `dir`, a separator, then `name`.
pub open spec fn joined(dir: Seq<char>, name: Seq<char>) -> Seq<char> {
    dir + seq!['/'] + name
}

/// The path of a file or directory `name` inside directory `dir`.
pub fn join_path(dir: &str, name: &str) -> (r: String)
    ensures
        r@ == joined(dir@, name@),
{
    proof {
        reveal_strlit("/");
    }
    let mut out = String::from_str(dir);
    out.append("/");
    out.append(name);
    out
}

/// The four captured streams of a run.
#[derive(Debug, PartialEq, Eq, Structural, Clone, Copy)]
pub enum Stream {
    PreRunStdout,
    PreRunStderr,
    CommandStdout,
    CommandStderr,
}

/// What follows the commit identifier in the name of a stream's file.
pub open spec fn stream_suffix(s: Stream) -> Seq<char> {
    match s {
        Stream::PreRunStdout => seq!['.', 'p', 'r', 'e', 'r', 'u', 'n', '.', 's', 't', 'd', 'o', 'u', 't'],
        Stream::PreRunStderr => seq!['.', 'p', 'r', 'e', 'r', 'u', 'n', '.', 's', 't', 'd', 'e', 'r', 'r'],
        Stream::CommandStdout => seq!['.', 'c', 'm', 'd', '.', 's', 't', 'd', 'o', 'u', 't'],
        Stream::CommandStderr => seq!['.', 'c', 'm', 'd', '.', 's', 't', 'd', 'e', 'r', 'r'],
    }
}

fn suffix_text(s: Stream) -> (r: &'static str)
    ensures
        r@ == stream_suffix(s),
{
    match s {
        Stream::PreRunStdout => {
            proof {
                reveal_strlit(".prerun.stdout");
            }
            ".prerun.stdout"
        },
        Stream::PreRunStderr => {
            proof {
                reveal_strlit(".prerun.stderr");
            }
            ".prerun.stderr"
        },
        Stream::CommandStdout => {
            proof {
                reveal_strlit(".cmd.stdout");
            }
            ".cmd.stdout"
        },
        Stream::CommandStderr => {
            proof {
                reveal_strlit(".cmd.stderr");
            }
            ".cmd.stderr"
        },
    }
}

/// The file of the aggregated report of `commit`: named by the commit, in
/// the result directory.
pub fn report_path(result_directory: &str, commit: &str) -> (r: String)
    ensures
        r@ == joined(result_directory@, commit@),
{
    join_path(result_directory, commit)
}

/// The file that holds one captured stream of the run of `commit`.
pub fn stream_path(result_directory: &str, commit: &str, stream: Stream) -> (r: String)
    ensures
        r@ == joined(result_directory@, commit@ + stream_suffix(stream)),
{
    let mut r = join_path(result_directory, commit);
    r.append(suffix_text(stream));
    assert(r@ =~= joined(result_directory@, commit@ + stream_suffix(stream)));
    r
}

/// The working copy of `commit`: named by the commit, in the directory of
/// disposable copies. The same commit always gets the same place.
pub fn workspace_path(tmp_directory: &str, commit: &str) -> (r: String)
    ensures
        r@ == joined(tmp_directory@, commit@),
{
    join_path(tmp_directory, commit)
}

pub open spec fn test_data_suffix() -> Seq<char> {
    seq!['/', 't', 'e', 's', 't', 's', '/', 'd', 'a', 't', 'a', '/', 'f', 'a', 't', 'e', '/']
}

/// The directory of a working copy in which the test suite leaves its
/// artifacts.
pub fn test_data_path(workspace: &str) -> (r: String)
    ensures
        r@ == workspace@ + test_data_suffix(),
{
    proof {
        reveal_strlit("/tests/data/fate/");
    }
    let mut r = String::from_str(workspace);
    r.append("/tests/data/fate/");
    r
}

/// The pieces of `s` between single spaces, as `str::split(" ")` gives them:
/// two spaces in a row give an empty piece, and there is always one piece.
pub open spec fn split_spaces(s: Seq<char>) -> Seq<Seq<char>>
    decreases s.len(),
{
    if s.len() == 0 {
        seq![Seq::empty()]
    } else {
        let p = split_spaces(s.drop_last());
        if s.last() == ' ' {
            p.push(Seq::empty())
        } else {
            p.update(p.len() - 1, p.last().push(s.last()))
        }
    }
}

proof fn lemma_split_spaces_nonempty(s: Seq<char>)
    ensures
        split_spaces(s).len() >= 1,
    decreases s.len(),
{
    if s.len() > 0 {
        lemma_split_spaces_nonempty(s.drop_last());
    }
}

/// A command to run: the program and its arguments.
pub struct CommandLine {
    pub program: String,
    pub args: Vec<String>,
}

pub open spec fn texts(v: Seq<String>) -> Seq<Seq<char>> {
    v.map_values(|s: String| s@)
}

/// Splits a configured command line at each space: the first piece names
/// the program, the others are its arguments.
pub fn split_command(line: &str) -> (r: CommandLine)
    ensures
        seq![r.program@] + texts(r.args@) == split_spaces(line@),
{
    let n = line.unicode_len();
    let ghost s = line@;
    let mut pieces: Vec<String> = Vec::new();
    let mut start: usize = 0;
    let mut i: usize = 0;
    assert(texts(pieces@).push(s.subrange(0, 0)) =~~= split_spaces(s.take(0)));
    while i < n
        invariant
            n == s.len(),
            s == line@,
            start <= i <= n,
            texts(pieces@).push(s.subrange(start as int, i as int)) == split_spaces(s.take(i as int)),
        decreases n - i,
    {
        let c = line.get_char(i);
        proof {
            let t = s.take(i + 1);
            assert(t.drop_last() =~= s.take(i as int));
            assert(t.last() == c);
            lemma_split_spaces_nonempty(s.take(i as int));
        }
        if c == ' ' {
            let ghost before = texts(pieces@);
            pieces.push(String::from_str(line.substring_char(start, i)));
            proof {
                assert(texts(pieces@) =~= before.push(s.subrange(start as int, i as int)));
                let t = s.take(i + 1);
                assert(split_spaces(t) == split_spaces(s.take(i as int)).push(Seq::empty()));
                assert(texts(pieces@).push(s.subrange(i + 1, i + 1)) =~~= split_spaces(
                    s.take(i + 1),
                ));
            }
            start = i + 1;
        } else {
            proof {
                assert(s.subrange(start as int, i + 1) =~= s.subrange(start as int, i as int).push(
                    c,
                ));
                assert(texts(pieces@).push(s.subrange(start as int, i + 1)) =~= split_spaces(
                    s.take(i + 1),
                ));
            }
        }
        i = i + 1;
    }
    assert(s.take(n as int) =~= s);
    let ghost before = texts(pieces@);
    pieces.push(String::from_str(line.substring_char(start, n)));
    assert(texts(pieces@) =~= split_spaces(s));
    let program = pieces.remove(0);
    assert(seq![program@] + texts(pieces@) =~= split_spaces(s));
    CommandLine { program, args: pieces }
}

} // verus!
