//! Commit identifiers, and which commits of a history walk are still unseen.
use vstd::prelude::*;

verus! {

#[verifier::external_type_specification]
#[verifier::external_body]
pub struct ExGitError(git2::Error);

pub open spec fn is_hex_digit(c: char) -> bool {
    ('0' <= c && c <= '9') || ('a' <= c && c <= 'f') || ('A' <= c && c <= 'F')
}

/// Text that names an object id: one to forty hex digits.
pub open spec fn is_oid_text(s: Seq<char>) -> bool {
    &&& 1 <= s.len() <= 40
    &&& forall|i: int| 0 <= i < s.len() ==> is_hex_digit(#[trigger] s[i])
}

pub open spec fn lower_hex_digit(c: char) -> char {
    if c == 'A' {
        'a'
    } else if c == 'B' {
        'b'
    } else if c == 'C' {
        'c'
    } else if c == 'D' {
        'd'
    } else if c == 'E' {
        'e'
    } else if c == 'F' {
        'f'
    } else {
        c
    }
}

/// The canonical text of the id that `s` names: its digits in lower case,
/// with zeros after them up to forty digits.
pub open spec fn canonical_oid_text(s: Seq<char>) -> Seq<char> {
    s.map_values(|c: char| lower_hex_digit(c)) + Seq::new((40 - s.len()) as nat, |i: int| '0')
}

/// Relies on git2::Oid::from_str, which accepts one to forty hex digits in
/// either case and refuses anything else, and on the id's `Display`, which
/// prints forty lower-case digits, those given followed by zeros.
#[verifier::external_body]
fn parse_oid(text: &str) -> (r: Result<String, git2::Error>)
    ensures
        r is Ok <==> is_oid_text(text@),
        r matches Ok(s) ==> s@ == canonical_oid_text(text@),
{
    git2::Oid::from_str(text).map(|oid| oid.to_string())
}

/// Why a text is no commit identifier.
#[derive(Debug, PartialEq, Eq, Clone, Copy)]
pub enum CommitIdError {
    /// It is empty, longer than forty characters, or holds a character that
    /// is no hex digit.
    Malformed,
}

/// The identifier of one commit, held as its canonical text: forty
/// lower-case hex digits.
#[derive(Debug, PartialEq, Eq, Clone)]
pub struct CommitId {
    text: String,
}

impl View for CommitId {
    type V = Seq<char>;

    closed spec fn view(&self) -> Seq<char> {
        self.text@
    }
}

impl CommitId {
    /// Reads a commit identifier from its hex text, as the version-control
    /// library reads it.
    pub fn parse(text: &str) -> (r: Result<CommitId, CommitIdError>)
        ensures
            r is Ok <==> is_oid_text(text@),
            r matches Ok(c) ==> c@ == canonical_oid_text(text@),
            r matches Err(e) ==> e == CommitIdError::Malformed,
    {
        match parse_oid(text) {
            Ok(s) => Ok(CommitId { text: s }),
            Err(_) => Err(CommitIdError::Malformed),
        }
    }

    pub fn as_str(&self) -> (r: &str)
        ensures
            r@ == self@,
    {
        self.text.as_str()
    }

    /// Whether two identifiers name the same commit.
    pub fn same_as(&self, other: &CommitId) -> (r: bool)
        ensures
            r == (self@ == other@),
    {
        self.text == other.text
    }

    /// A second identifier of the same commit.
    pub fn duplicate(&self) -> (r: CommitId)
        ensures
            r@ == self@,
    {
        CommitId { text: self.text.clone() }
    }
}

pub open spec fn commit_texts(v: Seq<CommitId>) -> Seq<Seq<char>> {
    v.map_values(|c: CommitId| c@)
}

/// The commits of a history walk, newest first, that come before the base
/// commit: the walk cut at the base, which is left out. Where the base does
/// not occur, the whole walk.
pub open spec fn unseen(walk: Seq<Seq<char>>, base: Seq<char>) -> Seq<Seq<char>>
    decreases walk.len(),
{
    if walk.len() == 0 || walk[0] == base {
        Seq::empty()
    } else {
        seq![walk[0]] + unseen(walk.drop_first(), base)
    }
}

proof fn lemma_unseen_prefix(walk: Seq<Seq<char>>, base: Seq<char>, k: int)
    requires
        0 <= k <= walk.len(),
        k == walk.len() || walk[k] == base,
        forall|j: int| 0 <= j < k ==> walk[j] != base,
    ensures
        unseen(walk, base) == walk.take(k),
    decreases k,
{
    if k == 0 {
        assert(walk.take(0) =~= Seq::<Seq<char>>::empty());
    } else {
        lemma_unseen_prefix(walk.drop_first(), base, k - 1);
        assert(seq![walk[0]] + walk.drop_first().take(k - 1) =~= walk.take(k));
    }
}

/// The unseen commits of a walk that starts at the branch tip and goes back
/// through ancestry, newest first: those before `base`. A base equal to the
/// tip leaves nothing to do.
pub fn unseen_commits(walk: &Vec<CommitId>, base: &CommitId) -> (r: Vec<CommitId>)
    ensures
        commit_texts(r@) == unseen(commit_texts(walk@), base@),
        r@.len() <= walk@.len(),
{
    let ghost w = commit_texts(walk@);
    let mut out: Vec<CommitId> = Vec::new();
    let mut i: usize = 0;
    while i < walk.len() && !walk[i].same_as(base)
        invariant
            i <= walk@.len(),
            w == commit_texts(walk@),
            forall|j: int| 0 <= j < i ==> w[j] != base@,
            out@.len() == i,
            commit_texts(out@) == w.take(i as int),
        decreases walk@.len() - i,
    {
        let c = walk[i].duplicate();
        out.push(c);
        assert(w[i as int] == walk@[i as int]@);
        assert(commit_texts(out@)[i as int] == w[i as int]);
        assert(commit_texts(out@) =~= w.take(i + 1));
        i = i + 1;
    }
    proof {
        lemma_unseen_prefix(w, base@, i as int);
    }
    out
}

} // verus!
