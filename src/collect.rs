//! Gathering the artifacts of one test run into one outcome per test, and the
//! aggregated report made from them.
use vstd::prelude::*;
use vstd::string::*;
use crate::util::{is_file_name, test_name_of, to_test_name};

verus! {

/// A test's outcome as the contracts see it: test name, report body, error body.
pub type OutcomeView = (Seq<char>, Option<Seq<char>>, Option<Seq<char>>);

/// An artifact as the contracts see it: file name and body.
pub type ArtifactView = (Seq<char>, Seq<char>);

/// A file read from the test-data directory: its file name and its content.
pub struct Artifact {
    pub file_name: String,
    pub body: String,
}

impl View for Artifact {
    type V = ArtifactView;

    open spec fn view(&self) -> ArtifactView {
        (self.file_name@, self.body@)
    }
}

/// What one test left behind: a report, an error, or both.
pub struct TestOutcome {
    pub name: String,
    pub report: Option<String>,
    pub error: Option<String>,
}

pub open spec fn text_view(t: Option<String>) -> Option<Seq<char>> {
    match t {
        Some(s) => Some(s@),
        None => None,
    }
}

impl View for TestOutcome {
    type V = OutcomeView;

    open spec fn view(&self) -> OutcomeView {
        (self.name@, text_view(self.report), text_view(self.error))
    }
}

/// The outcomes of one run, one entry per test name, in the order in which
/// the names were first met.
pub struct TestResults {
    entries: Vec<TestOutcome>,
}

pub open spec fn artifacts_view(v: Seq<Artifact>) -> Seq<ArtifactView> {
    v.map_values(|a: Artifact| a@)
}

pub open spec fn has_test(m: Seq<OutcomeView>, name: Seq<char>) -> bool {
    exists|i: int| 0 <= i < m.len() && m[i].0 == name
}

pub open spec fn test_index(m: Seq<OutcomeView>, name: Seq<char>) -> int {
    choose|i: int| 0 <= i < m.len() && m[i].0 == name
}

/// No test name stands twice.
pub open spec fn names_unique(m: Seq<OutcomeView>) -> bool {
    forall|i: int, j: int| 0 <= i < j < m.len() ==> m[i].0 != m[j].0
}

/// A report body recorded for `name`: it replaces what the test had.
pub open spec fn with_report(m: Seq<OutcomeView>, name: Seq<char>, body: Seq<char>) -> Seq<
    OutcomeView,
> {
    if has_test(m, name) {
        m.update(test_index(m, name), (name, Some(body), None))
    } else {
        m.push((name, Some(body), None))
    }
}

/// An error body recorded for `name`: it joins the test's report, if any.
pub open spec fn with_error(m: Seq<OutcomeView>, name: Seq<char>, body: Seq<char>) -> Seq<
    OutcomeView,
> {
    if has_test(m, name) {
        let i = test_index(m, name);
        m.update(i, (name, m[i].1, Some(body)))
    } else {
        m.push((name, None, Some(body)))
    }
}

pub open spec fn reports_merged(m: Seq<OutcomeView>, arts: Seq<ArtifactView>) -> Seq<OutcomeView>
    decreases arts.len(),
{
    if arts.len() == 0 {
        m
    } else {
        with_report(
            reports_merged(m, arts.drop_last()),
            test_name_of(arts.last().0),
            arts.last().1,
        )
    }
}

pub open spec fn errors_merged(m: Seq<OutcomeView>, arts: Seq<ArtifactView>) -> Seq<OutcomeView>
    decreases arts.len(),
{
    if arts.len() == 0 {
        m
    } else {
        with_error(errors_merged(m, arts.drop_last()), test_name_of(arts.last().0), arts.last().1)
    }
}

/// The outcomes that a run's report artifacts, then its error artifacts, give.
pub open spec fn collected(reports: Seq<ArtifactView>, errors: Seq<ArtifactView>) -> Seq<
    OutcomeView,
> {
    errors_merged(reports_merged(Seq::empty(), reports), errors)
}

/// Whether some artifact of `arts` belongs to test `name`.
pub open spec fn names_test(arts: Seq<ArtifactView>, name: Seq<char>) -> bool {
    exists|i: int| 0 <= i < arts.len() && test_name_of(arts[i].0) == name
}

pub open spec fn all_file_names(arts: Seq<ArtifactView>) -> bool {
    forall|i: int| 0 <= i < arts.len() ==> is_file_name(#[trigger] arts[i].0)
}

/// The report bodies of `m`, in order, joined into one text.
pub open spec fn joined_reports(m: Seq<OutcomeView>) -> Seq<char>
    decreases m.len(),
{
    if m.len() == 0 {
        Seq::empty()
    } else {
        joined_reports(m.drop_last()) + match m.last().1 {
            Some(b) => b,
            None => Seq::empty(),
        }
    }
}

fn copy_text(t: &Option<String>) -> (r: Option<String>)
    ensures
        text_view(r) == text_view(*t),
{
    match t {
        Some(s) => Some(s.clone()),
        None => None,
    }
}

impl TestResults {
    pub closed spec fn view(&self) -> Seq<OutcomeView> {
        self.entries@.map_values(|e: TestOutcome| e@)
    }

    pub open spec fn wf(&self) -> bool {
        names_unique(self.view())
    }

    /// No outcome at all.
    pub fn new() -> (r: TestResults)
        ensures
            r.view() == Seq::<OutcomeView>::empty(),
            r.wf(),
    {
        let r = TestResults { entries: Vec::new() };
        assert(r.view() =~= Seq::<OutcomeView>::empty());
        r
    }

    pub fn len(&self) -> (r: usize)
        ensures
            r == self.view().len(),
    {
        self.entries.len()
    }

    /// The outcome at `i`, in the order in which the tests were first met.
    pub fn get(&self, i: usize) -> (r: &TestOutcome)
        requires
            i < self.view().len(),
        ensures
            r@ == self.view()[i as int],
    {
        &self.entries[i]
    }

    /// Where test `name` stands, if it has an outcome.
    pub fn find(&self, name: &String) -> (r: Option<usize>)
        requires
            self.wf(),
        ensures
            r is None <==> !has_test(self.view(), name@),
            r matches Some(i) ==> i < self.view().len() && i == test_index(self.view(), name@),
    {
        let mut i: usize = 0;
        while i < self.entries.len()
            invariant
                i <= self.entries@.len(),
                self.wf(),
                forall|j: int| 0 <= j < i ==> self.view()[j].0 != name@,
            decreases self.entries@.len() - i,
        {
            if self.entries[i].name == *name {
                proof {
                    let v = self.view();
                    assert(v[i as int].0 == name@);
                    assert(has_test(v, name@));
                    let k = test_index(v, name@);
                    assert(v[k].0 == name@);
                    assert(k == i) by {
                        if k < i {
                            assert(v[k].0 != v[i as int].0);
                        } else if k > i {
                            assert(v[i as int].0 != v[k].0);
                        }
                    }
                }
                return Some(i);
            }
            i = i + 1;
        }
        None
    }

    /// Records a report body for test `name`, replacing what it had.
    pub fn add_report(&mut self, name: String, body: String)
        requires
            old(self).wf(),
        ensures
            final(self).wf(),
            final(self).view() == with_report(old(self).view(), name@, body@),
    {
        let ghost nm = name@;
        let entry = TestOutcome { name, report: Some(body), error: None };
        match self.find(&entry.name) {
            Some(i) => {
                self.entries.set(i, entry);
                assert(self.view() =~= with_report(old(self).view(), nm, body@));
            },
            None => {
                self.entries.push(entry);
                assert(self.view() =~= with_report(old(self).view(), nm, body@));
            },
        }
    }

    /// Records an error body for test `name`, beside its report if it has one.
    pub fn add_error(&mut self, name: String, body: String)
        requires
            old(self).wf(),
        ensures
            final(self).wf(),
            final(self).view() == with_error(old(self).view(), name@, body@),
    {
        match self.find(&name) {
            Some(i) => {
                let report = copy_text(&self.entries[i].report);
                let entry = TestOutcome { name, report, error: Some(body) };
                self.entries.set(i, entry);
                assert(self.view() =~= with_error(old(self).view(), name@, body@));
            },
            None => {
                let ghost nm = name@;
                let entry = TestOutcome { name, report: None, error: Some(body) };
                self.entries.push(entry);
                assert(self.view() =~= with_error(old(self).view(), nm, body@));
            },
        }
    }
}

/// Gathers a run's artifacts into one outcome per test: first each report
/// artifact, in order, then each error artifact, in order. A report and an
/// error of the same test name meet in one outcome.
pub fn collect_results(reports: &Vec<Artifact>, errors: &Vec<Artifact>) -> (r: TestResults)
    requires
        all_file_names(artifacts_view(reports@)),
        all_file_names(artifacts_view(errors@)),
    ensures
        r.wf(),
        r.view() == collected(artifacts_view(reports@), artifacts_view(errors@)),
{
    let ghost rv = artifacts_view(reports@);
    let ghost ev = artifacts_view(errors@);
    let mut results = TestResults::new();
    let mut i: usize = 0;
    while i < reports.len()
        invariant
            i <= reports@.len(),
            rv == artifacts_view(reports@),
            all_file_names(rv),
            results.wf(),
            results.view() == reports_merged(Seq::empty(), rv.take(i as int)),
        decreases reports@.len() - i,
    {
        let a = &reports[i];
        assert(is_file_name(rv[i as int].0));
        let name = to_test_name(a.file_name.as_str());
        results.add_report(name, a.body.clone());
        assert(rv.take(i + 1).drop_last() =~= rv.take(i as int));
        i = i + 1;
    }
    assert(rv.take(i as int) =~= rv);
    let ghost base = results.view();
    let mut j: usize = 0;
    while j < errors.len()
        invariant
            j <= errors@.len(),
            ev == artifacts_view(errors@),
            all_file_names(ev),
            results.wf(),
            results.view() == errors_merged(base, ev.take(j as int)),
        decreases errors@.len() - j,
    {
        let a = &errors[j];
        assert(is_file_name(ev[j as int].0));
        let name = to_test_name(a.file_name.as_str());
        results.add_error(name, a.body.clone());
        assert(ev.take(j + 1).drop_last() =~= ev.take(j as int));
        j = j + 1;
    }
    assert(ev.take(j as int) =~= ev);
    results
}

/// The aggregated report of a run: the report bodies of its outcomes, in
/// order, joined into one text. Error bodies take no part in it.
pub fn aggregate_report(results: &TestResults) -> (r: String)
    ensures
        r@ == joined_reports(results.view()),
{
    let mut out = String::new();
    let mut i: usize = 0;
    while i < results.len()
        invariant
            i <= results.view().len(),
            out@ == joined_reports(results.view().take(i as int)),
        decreases results.view().len() - i,
    {
        let entry = results.get(i);
        assert(results.view().take(i + 1).drop_last() =~= results.view().take(i as int));
        match &entry.report {
            Some(body) => {
                out.append(body.as_str());
            },
            None => {
                assert(out@ + Seq::<char>::empty() =~= out@);
            },
        }
        i = i + 1;
    }
    assert(results.view().take(i as int) =~= results.view());
    out
}

proof fn lemma_reports_merged(arts: Seq<ArtifactView>)
    ensures
        names_unique(reports_merged(Seq::empty(), arts)),
        forall|k: int|
            0 <= k < reports_merged(Seq::empty(), arts).len() ==> {
                let e = #[trigger] reports_merged(Seq::empty(), arts)[k];
                e.1 is Some && e.2 is None
            },
        forall|n: Seq<char>|
            #[trigger] has_test(reports_merged(Seq::empty(), arts), n) <==> names_test(arts, n),
    decreases arts.len(),
{
    if arts.len() > 0 {
        let prev = arts.drop_last();
        lemma_reports_merged(prev);
        let m = reports_merged(Seq::empty(), prev);
        let n0 = test_name_of(arts.last().0);
        let c = reports_merged(Seq::empty(), arts);
        assert(c == with_report(m, n0, arts.last().1));
        assert(test_name_of(arts[arts.len() - 1].0) == n0);
        assert(names_test(arts, n0));
        assert forall|n: Seq<char>| n != n0 implies (names_test(arts, n) <==> names_test(prev, n))
            by {
            if names_test(prev, n) {
                let i = choose|i: int| 0 <= i < prev.len() && test_name_of(prev[i].0) == n;
                assert(arts[i] == prev[i]);
            }
            if names_test(arts, n) {
                let i = choose|i: int| 0 <= i < arts.len() && test_name_of(arts[i].0) == n;
                assert(prev[i] == arts[i]);
            }
        }
        assert forall|n: Seq<char>| has_test(c, n) <==> (has_test(m, n) || n == n0) by {
            if has_test(m, n0) {
                let t = test_index(m, n0);
                if has_test(m, n) {
                    let w = choose|i: int| 0 <= i < m.len() && m[i].0 == n;
                    assert(c[w].0 == n);
                }
                if has_test(c, n) {
                    let w = choose|i: int| 0 <= i < c.len() && c[i].0 == n;
                    if w != t {
                        assert(m[w].0 == n);
                    }
                }
                if n == n0 {
                    assert(c[t].0 == n);
                }
            } else {
                if has_test(m, n) {
                    let w = choose|i: int| 0 <= i < m.len() && m[i].0 == n;
                    assert(c[w].0 == n);
                }
                if n == n0 {
                    assert(c[m.len() as int].0 == n);
                }
                if has_test(c, n) {
                    let w = choose|i: int| 0 <= i < c.len() && c[i].0 == n;
                    if w < m.len() {
                        assert(m[w].0 == n);
                    }
                }
            }
        }
        if !has_test(m, n0) {
            assert forall|i: int, j: int| 0 <= i < j < c.len() implies c[i].0 != c[j].0 by {
                if j == m.len() {
                    assert(m[i].0 != n0);
                }
            }
        } else {
            let t = test_index(m, n0);
            assert forall|i: int, j: int| 0 <= i < j < c.len() implies c[i].0 != c[j].0 by {
                if i == t {
                    assert(m[j].0 != m[t].0);
                } else if j == t {
                    assert(m[i].0 != m[t].0);
                }
            }
        }
    }
}

proof fn lemma_errors_merged(m: Seq<OutcomeView>, arts: Seq<ArtifactView>)
    requires
        names_unique(m),
        forall|k: int| 0 <= k < m.len() ==> (#[trigger] m[k]).1 is Some && m[k].2 is None,
    ensures
        names_unique(errors_merged(m, arts)),
        forall|n: Seq<char>|
            #[trigger] has_test(errors_merged(m, arts), n) <==> has_test(m, n) || names_test(
                arts,
                n,
            ),
        forall|k: int|
            0 <= k < errors_merged(m, arts).len() ==> {
                let e = #[trigger] errors_merged(m, arts)[k];
                &&& (e.1 is Some <==> has_test(m, e.0))
                &&& (e.2 is Some <==> names_test(arts, e.0))
            },
    decreases arts.len(),
{
    if arts.len() > 0 {
        let prev = arts.drop_last();
        lemma_errors_merged(m, prev);
        let p = errors_merged(m, prev);
        let n0 = test_name_of(arts.last().0);
        let c = errors_merged(m, arts);
        assert(c == with_error(p, n0, arts.last().1));
        assert(test_name_of(arts[arts.len() - 1].0) == n0);
        assert(names_test(arts, n0));
        assert forall|n: Seq<char>| n != n0 implies (names_test(arts, n) <==> names_test(prev, n))
            by {
            if names_test(prev, n) {
                let i = choose|i: int| 0 <= i < prev.len() && test_name_of(prev[i].0) == n;
                assert(arts[i] == prev[i]);
            }
            if names_test(arts, n) {
                let i = choose|i: int| 0 <= i < arts.len() && test_name_of(arts[i].0) == n;
                assert(prev[i] == arts[i]);
            }
        }
        if has_test(p, n0) {
            let t = test_index(p, n0);
            assert forall|n: Seq<char>| has_test(c, n) <==> has_test(p, n) by {
                if has_test(p, n) {
                    let w = choose|i: int| 0 <= i < p.len() && p[i].0 == n;
                    assert(c[w].0 == n);
                }
                if has_test(c, n) {
                    let w = choose|i: int| 0 <= i < c.len() && c[i].0 == n;
                    assert(p[w].0 == n);
                }
            }
            assert forall|i: int, j: int| 0 <= i < j < c.len() implies c[i].0 != c[j].0 by {
                assert(p[i].0 != p[j].0);
            }
            assert forall|k: int| 0 <= k < c.len() implies {
                let e = #[trigger] c[k];
                &&& (e.1 is Some <==> has_test(m, e.0))
                &&& (e.2 is Some <==> names_test(arts, e.0))
            } by {
                let e = p[k];
                if k != t {
                    assert(e.0 != n0);
                }
            }
        } else {
            assert(!has_test(m, n0));
            assert forall|n: Seq<char>| has_test(c, n) <==> (has_test(p, n) || n == n0) by {
                if has_test(p, n) {
                    let w = choose|i: int| 0 <= i < p.len() && p[i].0 == n;
                    assert(c[w].0 == n);
                }
                if n == n0 {
                    assert(c[p.len() as int].0 == n);
                }
                if has_test(c, n) {
                    let w = choose|i: int| 0 <= i < c.len() && c[i].0 == n;
                    if w < p.len() {
                        assert(p[w].0 == n);
                    }
                }
            }
            assert forall|i: int, j: int| 0 <= i < j < c.len() implies c[i].0 != c[j].0 by {
                if j == p.len() {
                    assert(p[i].0 != n0);
                }
            }
            assert forall|k: int| 0 <= k < c.len() implies {
                let e = #[trigger] c[k];
                &&& (e.1 is Some <==> has_test(m, e.0))
                &&& (e.2 is Some <==> names_test(arts, e.0))
            } by {
                if k < p.len() {
                    let e = p[k];
                    if e.0 == n0 {
                        assert(has_test(p, n0));
                    }
                }
            }
        }
    }
}

/// The body of the last artifact of `arts` that belongs to test `name`.
pub open spec fn last_body(arts: Seq<ArtifactView>, name: Seq<char>) -> Option<Seq<char>>
    decreases arts.len(),
{
    if arts.len() == 0 {
        None
    } else if test_name_of(arts.last().0) == name {
        Some(arts.last().1)
    } else {
        last_body(arts.drop_last(), name)
    }
}

/// The report that `m` holds for test `name`, if it has the test.
pub open spec fn report_in(m: Seq<OutcomeView>, name: Seq<char>) -> Option<Seq<char>> {
    if has_test(m, name) {
        m[test_index(m, name)].1
    } else {
        None
    }
}

proof fn lemma_last_body(arts: Seq<ArtifactView>, name: Seq<char>)
    ensures
        last_body(arts, name) is Some <==> names_test(arts, name),
    decreases arts.len(),
{
    if arts.len() > 0 {
        let prev = arts.drop_last();
        lemma_last_body(prev, name);
        if names_test(prev, name) {
            let i = choose|i: int| 0 <= i < prev.len() && test_name_of(prev[i].0) == name;
            assert(arts[i] == prev[i]);
        }
        if test_name_of(arts.last().0) == name {
            assert(test_name_of(arts[arts.len() - 1].0) == name);
        } else if names_test(arts, name) {
            let i = choose|i: int| 0 <= i < arts.len() && test_name_of(arts[i].0) == name;
            assert(prev[i] == arts[i]);
        }
    }
}

proof fn lemma_report_bodies(arts: Seq<ArtifactView>)
    ensures
        forall|k: int|
            0 <= k < reports_merged(Seq::empty(), arts).len() ==> {
                let e = #[trigger] reports_merged(Seq::empty(), arts)[k];
                e.1 == last_body(arts, e.0)
            },
    decreases arts.len(),
{
    if arts.len() > 0 {
        let prev = arts.drop_last();
        lemma_report_bodies(prev);
        lemma_reports_merged(prev);
        let m = reports_merged(Seq::empty(), prev);
        let n0 = test_name_of(arts.last().0);
        let c = reports_merged(Seq::empty(), arts);
        assert(c == with_report(m, n0, arts.last().1));
        assert forall|k: int| 0 <= k < c.len() implies (#[trigger] c[k]).1 == last_body(
            arts,
            c[k].0,
        ) by {
            if c[k].0 != n0 {
                if has_test(m, n0) {
                    let t = test_index(m, n0);
                    assert(k != t);
                }
                assert(c[k] == m[k]);
            }
        }
    }
}

proof fn lemma_error_bodies(m: Seq<OutcomeView>, arts: Seq<ArtifactView>)
    requires
        names_unique(m),
        forall|k: int| 0 <= k < m.len() ==> (#[trigger] m[k]).1 is Some && m[k].2 is None,
    ensures
        forall|k: int|
            0 <= k < errors_merged(m, arts).len() ==> {
                let e = #[trigger] errors_merged(m, arts)[k];
                &&& e.1 == report_in(m, e.0)
                &&& e.2 == last_body(arts, e.0)
            },
    decreases arts.len(),
{
    if arts.len() > 0 {
        let prev = arts.drop_last();
        lemma_error_bodies(m, prev);
        lemma_errors_merged(m, prev);
        let p = errors_merged(m, prev);
        let n0 = test_name_of(arts.last().0);
        let c = errors_merged(m, arts);
        assert(c == with_error(p, n0, arts.last().1));
        if has_test(p, n0) {
            let t = test_index(p, n0);
            assert forall|k: int| 0 <= k < c.len() implies {
                let e = #[trigger] c[k];
                &&& e.1 == report_in(m, e.0)
                &&& e.2 == last_body(arts, e.0)
            } by {
                if k != t {
                    assert(p[k].0 != p[t].0);
                }
            }
        } else {
            assert(!has_test(m, n0));
            assert forall|k: int| 0 <= k < c.len() implies {
                let e = #[trigger] c[k];
                &&& e.1 == report_in(m, e.0)
                &&& e.2 == last_body(arts, e.0)
            } by {
                if k < p.len() {
                    if p[k].0 == n0 {
                        assert(has_test(p, n0));
                    }
                }
            }
        }
    }
}

/// Collected outcomes hold each test name once; a name has an outcome
/// exactly when some artifact, report or error, belongs to it; and an
/// outcome has a report, or an error, exactly when an artifact of that kind
/// belongs to its test, and then it holds the body of the last such
/// artifact. Nothing is dropped and nothing stands twice.
pub proof fn lemma_collected_outcomes(reports: Seq<ArtifactView>, errors: Seq<ArtifactView>)
    ensures
        names_unique(collected(reports, errors)),
        forall|n: Seq<char>|
            #[trigger] has_test(collected(reports, errors), n) <==> names_test(reports, n)
                || names_test(errors, n),
        forall|k: int|
            0 <= k < collected(reports, errors).len() ==> {
                let e = #[trigger] collected(reports, errors)[k];
                &&& (e.1 is Some <==> names_test(reports, e.0))
                &&& (e.2 is Some <==> names_test(errors, e.0))
                &&& e.1 == last_body(reports, e.0)
                &&& e.2 == last_body(errors, e.0)
            },
{
    lemma_reports_merged(reports);
    let m = reports_merged(Seq::empty(), reports);
    lemma_errors_merged(m, errors);
    lemma_report_bodies(reports);
    lemma_error_bodies(m, errors);
    let c = collected(reports, errors);
    assert forall|k: int| 0 <= k < c.len() implies (#[trigger] c[k]).1 == last_body(
        reports,
        c[k].0,
    ) by {
        let n = c[k].0;
        lemma_last_body(reports, n);
        if has_test(m, n) {
            let t = test_index(m, n);
            assert(m[t].0 == n);
        }
    }
    assert forall|k: int| 0 <= k < c.len() implies (#[trigger] c[k]).2 == last_body(
        errors,
        c[k].0,
    ) by {
    }
}

} // verus!
