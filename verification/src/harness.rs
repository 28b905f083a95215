//! The conformance-harness logic: pairing fixture files into test cases,
//! judging one decoder run against an expectation, and keeping the final
//! pass/fail/skip counts. Spawning the decoder and reading files is I/O
//! and stays outside; this module makes every decision.

use vstd::prelude::*;

use crate::json::Json;
use crate::json::JsonV;
use crate::json::json_eq;
use crate::json::json_view;

verus! {

/// The handle on the decoder under test: the executable path the process
/// spawner will use.
pub struct DecoderExe {
    decoder: String,
}

impl DecoderExe {
    /// The stored executable path.
    pub closed spec fn path_spec(&self) -> Seq<char> {
        self.decoder@
    }

    /// Wraps the path of the decoder executable.
    pub fn new(decoder: String) -> (r: Self)
        ensures
            r.path_spec() == decoder@,
    {
        DecoderExe { decoder }
    }

    /// The executable path, for the process spawner.
    pub fn path(&self) -> (r: &String)
        ensures
            r@ == self.path_spec(),
    {
        &self.decoder
    }
}

/// One fixture file: its path, its raw bytes, and — for a file that holds
/// a JSON document — the parsed form, supplied by the loader's caller.
#[derive(Debug)]
pub struct TestFile {
    pub path: String,
    pub data: Vec<u8>,
    pub json: Option<Json>,
}

/// The fixture set, loaded once at startup and immutable afterwards.
#[derive(Debug)]
pub struct TestFiles {
    pub files: Vec<TestFile>,
}

impl TestFiles {
    /// Wraps a loaded fixture set.
    pub fn new(files: Vec<TestFile>) -> (r: Self)
        ensures
            r.files == files,
    {
        TestFiles { files }
    }

    /// All fixture files, in load order.
    pub fn iter_files(&self) -> (r: &Vec<TestFile>)
        ensures
            r == &self.files,
    {
        &self.files
    }
}

/// A test case whose fixture must decode successfully to exactly the
/// expected canonical JSON.
#[derive(Debug)]
pub struct ValidTestCase {
    pub name: String,
    pub input: Vec<u8>,
    pub expected: Json,
}

/// A test case whose fixture must make the decoder fail.
#[derive(Debug)]
pub struct InvalidTestCase {
    pub name: String,
    pub input: Vec<u8>,
}

impl ValidTestCase {
    /// The fixture's name.
    pub fn name(&self) -> (r: &str)
        ensures
            r@ == self.name@,
    {
        self.name.as_str()
    }

    /// The fixture's raw input bytes.
    pub fn input(&self) -> (r: &Vec<u8>)
        ensures
            r == &self.input,
    {
        &self.input
    }

    /// Judges one decoder run: pass exactly when the decoder succeeded
    /// and its output, parsed as JSON, deep-equals the expected JSON.
    pub fn get_result(&self, success: bool, stdout: String, stderr: String, actual: Option<
        Json,
    >) -> (r: TestVerdict)
        ensures
            !success ==> (r matches TestVerdict::ExpectedSuccess { stderr: s } && s == stderr),
            (success && actual is None) ==> (r matches TestVerdict::UnreadableOutput {
                stdout: s,
            } && s == stdout),
            success ==> (actual matches Some(a) ==> ((a@ == self.expected@ ==> r
                == TestVerdict::Pass) && (a@ != self.expected@ ==> (r
                matches TestVerdict::Mismatch { expected: x, actual: y } && x@ == self.expected@
                && y@ == a@)))),
    {
        evaluate(Expectation::Success(&self.expected), success, stdout, stderr, actual)
    }
}

impl InvalidTestCase {
    /// The fixture's name.
    pub fn name(&self) -> (r: &str)
        ensures
            r@ == self.name@,
    {
        self.name.as_str()
    }

    /// The fixture's raw input bytes.
    pub fn input(&self) -> (r: &Vec<u8>)
        ensures
            r == &self.input,
    {
        &self.input
    }

    /// Judges one decoder run: pass exactly when the decoder failed; any
    /// successful exit is a failure, whatever it printed.
    pub fn get_result(&self, success: bool, stdout: String) -> (r: TestVerdict)
        ensures
            success ==> (r matches TestVerdict::ExpectedFailure { stdout: s } && s == stdout),
            !success ==> r == TestVerdict::Pass,
    {
        evaluate(Expectation::Failure, success, stdout, String::new(), Option::None)
    }
}

/// What one decoder run should have done: succeed with exactly this JSON,
/// or fail.
pub enum Expectation<'a> {
    Success(&'a Json),
    Failure,
}

/// The outcome of judging one decoder run.
#[derive(Debug)]
pub enum TestVerdict {
    Pass,
    ExpectedSuccess { stderr: String },
    UnreadableOutput { stdout: String },
    Mismatch { expected: Json, actual: Json },
    ExpectedFailure { stdout: String },
}

impl TestVerdict {
    /// Whether this verdict is a pass.
    pub fn passed(&self) -> (r: bool)
        ensures
            r == (*self is Pass),
    {
        match self {
            TestVerdict::Pass => true,
            _ => false,
        }
    }
}

/// Judges one decoder run against an expectation. A success expectation
/// passes exactly when the run succeeded and produced the expected JSON;
/// a failure expectation passes exactly when the run failed.
pub fn evaluate(
    expectation: Expectation<'_>,
    success: bool,
    stdout: String,
    stderr: String,
    actual: Option<Json>,
) -> (r: TestVerdict)
    ensures
        expectation matches Expectation::Success(expected) ==> ((!success ==> (r
            matches TestVerdict::ExpectedSuccess { stderr: s } && s == stderr)) && ((success
            && actual is None) ==> (r matches TestVerdict::UnreadableOutput { stdout: s } && s
            == stdout)) && (success ==> (actual matches Some(a) ==> ((a@ == expected@ ==> r
            == TestVerdict::Pass) && (a@ != expected@ ==> (r matches TestVerdict::Mismatch {
            expected: x,
            actual: y,
        } && x@ == expected@ && y@ == a@)))))),
        expectation is Failure ==> ((success ==> (r matches TestVerdict::ExpectedFailure {
            stdout: s,
        } && s == stdout)) && (!success ==> r == TestVerdict::Pass)),
{
    match expectation {
        Expectation::Success(expected) => {
            if !success {
                TestVerdict::ExpectedSuccess { stderr }
            } else {
                match actual {
                    Option::None => TestVerdict::UnreadableOutput { stdout },
                    Option::Some(a) => {
                        if json_eq(&a, expected) {
                            TestVerdict::Pass
                        } else {
                            TestVerdict::Mismatch { expected: expected.deep_clone(), actual: a }
                        }
                    },
                }
            }
        },
        Expectation::Failure => {
            if success {
                TestVerdict::ExpectedFailure { stdout }
            } else {
                TestVerdict::Pass
            }
        },
    }
}

/// The running pass/fail/skip counts of one harness run.
#[derive(Debug)]
pub struct RunSummary {
    pub passes: usize,
    pub failures: usize,
    pub skipped: usize,
}

impl RunSummary {
    /// A fresh summary with all counts at zero.
    pub fn new() -> (r: Self)
        ensures
            r.passes == 0 && r.failures == 0 && r.skipped == 0,
    {
        RunSummary { passes: 0, failures: 0, skipped: 0 }
    }

    /// Counts one judged run.
    pub fn record(&mut self, passed: bool)
        requires
            old(self).passes < usize::MAX,
            old(self).failures < usize::MAX,
        ensures
            passed ==> *final(self) == (RunSummary {
                passes: (old(self).passes + 1) as usize,
                ..*old(self)
            }),
            !passed ==> *final(self) == (RunSummary {
                failures: (old(self).failures + 1) as usize,
                ..*old(self)
            }),
    {
        if passed {
            self.passes = self.passes + 1;
        } else {
            self.failures = self.failures + 1;
        }
    }

    /// Counts one skipped fixture.
    pub fn record_skip(&mut self)
        requires
            old(self).skipped < usize::MAX,
        ensures
            *final(self) == (RunSummary {
                skipped: (old(self).skipped + 1) as usize,
                ..*old(self)
            }),
    {
        self.skipped = self.skipped + 1;
    }

    /// Whether the whole run failed: true exactly when any fixture failed,
    /// and then the harness must exit with a non-zero status.
    pub fn failed(&self) -> (r: bool)
        ensures
            r == (self.failures > 0),
    {
        self.failures > 0
    }
}

/// Whether `p` is a prefix of `s`.
pub open spec fn starts_with(s: Seq<char>, p: Seq<char>) -> bool {
    s.len() >= p.len() && s.take(p.len() as int) == p
}

/// Whether `p` is a suffix of `s`.
pub open spec fn ends_with(s: Seq<char>, p: Seq<char>) -> bool {
    s.len() >= p.len() && s.skip((s.len() - p.len()) as int) == p
}

/// The directory prefix of fixtures that must decode.
pub open spec fn dir_valid() -> Seq<char> {
    seq!['v', 'a', 'l', 'i', 'd', '/']
}

/// The directory prefix of fixtures that must fail.
pub open spec fn dir_invalid() -> Seq<char> {
    seq!['i', 'n', 'v', 'a', 'l', 'i', 'd', '/']
}

/// The extension of fixture inputs.
pub open spec fn ext_kdl() -> Seq<char> {
    seq!['.', 'k', 'd', 'l']
}

/// The path of the expected-output file that belongs to a fixture input:
/// the same path with the extension swapped for `json`.
pub open spec fn expected_path(p: Seq<char>) -> Seq<char> {
    p.take((p.len() - 3) as int) + seq!['j', 's', 'o', 'n']
}

/// The first fixture file with the given path, if any.
pub open spec fn spec_find(files: Seq<TestFile>, p: Seq<char>) -> Option<TestFile>
    decreases files.len(),
{
    if files.len() == 0 {
        Option::None
    } else if files[0].path@ == p {
        Option::Some(files[0])
    } else {
        spec_find(files.drop_first(), p)
    }
}

/// Why loading the fixture set failed: a fixture that must decode has no
/// expected-output file, or has one that is not valid JSON of the
/// canonical shape.
#[derive(Debug)]
pub enum LoadError {
    MissingExpected { path: String },
    InvalidJson { path: String },
}

/// The model of a loading failure.
pub enum LoadErrV {
    Missing(Seq<char>),
    BadJson(Seq<char>),
}

/// What loading the first `n` fixture files yields: the valid cases as
/// (name, input, expected) triples and the invalid cases as (name, input)
/// pairs, in file order — or the first failure. Only files ending in the
/// fixture extension count; a valid fixture is paired with the parsed
/// form of its expected-output file, found anywhere in the set.
pub open spec fn spec_load(files: Seq<TestFile>, n: nat) -> Result<
    (Seq<(Seq<char>, Seq<u8>, JsonV)>, Seq<(Seq<char>, Seq<u8>)>),
    LoadErrV,
>
    decreases n,
{
    if n == 0 {
        Result::Ok((Seq::empty(), Seq::empty()))
    } else {
        let prev = spec_load(files, (n - 1) as nat);
        if prev is Err {
            prev
        } else {
            let vs = prev->Ok_0.0;
            let ivs = prev->Ok_0.1;
            let tf = files[n - 1];
            let p = tf.path@;
            if !ends_with(p, ext_kdl()) {
                prev
            } else if starts_with(p, dir_valid()) {
                let ep = expected_path(p);
                match spec_find(files, ep) {
                    Option::None => Result::Err(LoadErrV::Missing(ep)),
                    Option::Some(ef) => match ef.json {
                        Option::None => Result::Err(LoadErrV::BadJson(ep)),
                        Option::Some(j) => Result::Ok(
                            (vs.push((p, tf.data@, json_view(j))), ivs),
                        ),
                    },
                }
            } else if starts_with(p, dir_invalid()) {
                Result::Ok((vs, ivs.push((p, tf.data@))))
            } else {
                prev
            }
        }
    }
}

/// Once loading has failed on a prefix, the whole load fails the same way.
proof fn lemma_load_err_persists(files: Seq<TestFile>, i: nat, j: nat)
    requires
        i <= j,
        spec_load(files, i) is Err,
    ensures
        spec_load(files, j) == spec_load(files, i),
    decreases j,
{
    if j > i {
        lemma_load_err_persists(files, i, (j - 1) as nat);
    }
}

/// Whether `p` is a prefix of `s`, checked character-wise.
fn str_has_prefix(s: &str, p: &str) -> (r: bool)
    ensures
        r == starts_with(s@, p@),
{
    let n = s.unicode_len();
    let m = p.unicode_len();
    if n < m {
        return false;
    }
    let head = s.substring_char(0, m);
    proof {
        assert(s@.subrange(0, m as int) =~= s@.take(m as int));
    }
    str_eq(head, p)
}

/// Whether `p` is a suffix of `s`, checked character-wise.
fn str_has_suffix(s: &str, p: &str) -> (r: bool)
    ensures
        r == ends_with(s@, p@),
{
    let n = s.unicode_len();
    let m = p.unicode_len();
    if n < m {
        return false;
    }
    let tail = s.substring_char(n - m, n);
    proof {
        assert(s@.subrange((n - m) as int, n as int) =~= s@.skip((n - m) as int));
    }
    str_eq(tail, p)
}

/// The expected-output path of a fixture input path.
fn make_expected_path(path: &str) -> (r: String)
    requires
        ends_with(path@, ext_kdl()),
    ensures
        r@ == expected_path(path@),
{
    proof {
        reveal_strlit("json");
        assert("json"@ =~= seq!['j', 's', 'o', 'n']);
    }
    let n = path.unicode_len();
    let stem = path.substring_char(0, n - 3);
    proof {
        assert(path@.subrange(0, (n - 3) as int) =~= path@.take((n - 3) as int));
    }
    let mut r = String::from_str(stem);
    r.append("json");
    r
}

/// Finds the first fixture file with the given path.
fn find_file<'a>(files: &'a Vec<TestFile>, p: &String) -> (r: Option<&'a TestFile>)
    ensures
        r is Some <==> spec_find(files@, p@) is Some,
        r matches Some(tf) ==> *tf == spec_find(files@, p@)->Some_0,
{
    let n = files.len();
    let mut j: usize = 0;
    proof {
        assert(files@.skip(0) =~= files@);
    }
    while j < n
        invariant
            j <= n,
            n == files@.len(),
            spec_find(files@, p@) == spec_find(files@.skip(j as int), p@),
        decreases n - j,
    {
        proof {
            assert(files@.skip(j as int)[0] == files@[j as int]);
            assert(files@.skip(j as int).drop_first() =~= files@.skip(j as int + 1));
        }
        if files[j].path == *p {
            return Option::Some(&files[j]);
        }
        j = j + 1;
    }
    proof {
        assert(files@.skip(n as int) =~= Seq::<TestFile>::empty());
    }
    Option::None
}

/// Pairs the fixture set into test cases: every fixture input under the
/// valid directory with the parsed form of its expected-output file, and
/// every one under the invalid directory on its own, both in file order.
/// Fails exactly when some valid fixture's expected-output file is
/// missing, or present but not parsed as canonical JSON.
pub fn load(files: &TestFiles) -> (r: Result<
    (Vec<ValidTestCase>, Vec<InvalidTestCase>),
    LoadError,
>)
    ensures
        r is Ok <==> spec_load(files.files@, files.files@.len()) is Ok,
        r matches Ok(pair) ==> ({
            let m = spec_load(files.files@, files.files@.len())->Ok_0;
            &&& pair.0@.len() == m.0.len()
            &&& forall|i: int|
                0 <= i < m.0.len() ==> (#[trigger] pair.0@[i]).name@ == m.0[i].0 && pair.0@[i].input@
                    == m.0[i].1 && pair.0@[i].expected@ == m.0[i].2
            &&& pair.1@.len() == m.1.len()
            &&& forall|i: int|
                0 <= i < m.1.len() ==> (#[trigger] pair.1@[i]).name@ == m.1[i].0 && pair.1@[i].input@
                    == m.1[i].1
        }),
        r matches Err(e) ==> ({
            let me = spec_load(files.files@, files.files@.len())->Err_0;
            match e {
                LoadError::MissingExpected { path } => me == LoadErrV::Missing(path@),
                LoadError::InvalidJson { path } => me == LoadErrV::BadJson(path@),
            }
        }),
{
    proof {
        reveal_strlit(".kdl");
        reveal_strlit("valid/");
        reveal_strlit("invalid/");
        assert(".kdl"@ =~= ext_kdl());
        assert("valid/"@ =~= dir_valid());
        assert("invalid/"@ =~= dir_invalid());
    }
    let ghost fs = files.files@;
    let n = files.files.len();
    let mut valid: Vec<ValidTestCase> = Vec::new();
    let mut invalid: Vec<InvalidTestCase> = Vec::new();
    let mut i: usize = 0;
    while i < n
        invariant
            i <= n,
            n == fs.len(),
            fs == files.files@,
            ".kdl"@ == ext_kdl(),
            "valid/"@ == dir_valid(),
            "invalid/"@ == dir_invalid(),
            spec_load(fs, i as nat) is Ok,
            valid@.len() == spec_load(fs, i as nat)->Ok_0.0.len(),
            forall|k: int|
                0 <= k < valid@.len() ==> (#[trigger] valid@[k]).name@ == spec_load(
                    fs,
                    i as nat,
                )->Ok_0.0[k].0 && valid@[k].input@ == spec_load(fs, i as nat)->Ok_0.0[k].1
                    && valid@[k].expected@ == spec_load(fs, i as nat)->Ok_0.0[k].2,
            invalid@.len() == spec_load(fs, i as nat)->Ok_0.1.len(),
            forall|k: int|
                0 <= k < invalid@.len() ==> (#[trigger] invalid@[k]).name@ == spec_load(
                    fs,
                    i as nat,
                )->Ok_0.1[k].0 && invalid@[k].input@ == spec_load(fs, i as nat)->Ok_0.1[k].1,
        decreases n - i,
    {
        let f = &files.files[i];
        let ghost prev = spec_load(fs, i as nat);
        let ghost cur = spec_load(fs, (i + 1) as nat);
        if str_has_suffix(f.path.as_str(), ".kdl") {
            if str_has_prefix(f.path.as_str(), "valid/") {
                let ep = make_expected_path(f.path.as_str());
                match find_file(&files.files, &ep) {
                    Option::None => {
                        proof {
                            assert(cur == Result::<
                                (Seq<(Seq<char>, Seq<u8>, JsonV)>, Seq<(Seq<char>, Seq<u8>)>),
                                LoadErrV,
                            >::Err(LoadErrV::Missing(ep@)));
                            lemma_load_err_persists(fs, (i + 1) as nat, n as nat);
                        }
                        return Result::Err(LoadError::MissingExpected { path: ep });
                    },
                    Option::Some(ef) => {
                        match &ef.json {
                            Option::None => {
                                proof {
                                    lemma_load_err_persists(fs, (i + 1) as nat, n as nat);
                                }
                                return Result::Err(LoadError::InvalidJson { path: ep });
                            },
                            Option::Some(j) => {
                                let case = ValidTestCase {
                                    name: f.path.clone(),
                                    input: vstd::slice::slice_to_vec(f.data.as_slice()),
                                    expected: j.deep_clone(),
                                };
                                valid.push(case);
                            },
                        }
                    },
                }
            } else if str_has_prefix(f.path.as_str(), "invalid/") {
                let case = InvalidTestCase {
                    name: f.path.clone(),
                    input: vstd::slice::slice_to_vec(f.data.as_slice()),
                };
                invalid.push(case);
            }
        }
        i = i + 1;
    }
    Result::Ok((valid, invalid))
}

/// Character-wise string equality.
fn str_eq(a: &str, b: &str) -> (r: bool)
    ensures
        r == (a@ == b@),
{
    let n = a.unicode_len();
    let m = b.unicode_len();
    if n != m {
        return false;
    }
    let mut i: usize = 0;
    while i < n
        invariant
            i <= n,
            n == a@.len() == b@.len(),
            forall|k: int| 0 <= k < i ==> a@[k] == b@[k],
        decreases n - i,
    {
        if a.get_char(i) != b.get_char(i) {
            return false;
        }
        i = i + 1;
    }
    proof {
        assert(a@ =~= b@);
    }
    true
}

/// Four spaces of indentation.
pub open spec fn indent_prefix() -> Seq<char> {
    seq![' ', ' ', ' ', ' ']
}

/// The text split at every newline; the separators are consumed. A text
/// without a newline is one segment; every newline ends a segment, so a
/// trailing newline leaves an empty final segment.
pub open spec fn split_nl(s: Seq<char>) -> Seq<Seq<char>>
    decreases s.len(),
{
    let k = crate::render::first_at(s, '\n', '\n');
    if k < 0 || k >= s.len() {
        seq![s]
    } else {
        seq![s.take(k)] + split_nl(s.skip(k + 1))
    }
}

/// A segment with one carriage return stripped from its end, as a
/// newline-terminated line of text loses its carriage return too.
pub open spec fn strip_cr(l: Seq<char>) -> Seq<char> {
    if l.len() > 0 && l.last() == '\r' {
        l.drop_last()
    } else {
        l
    }
}

/// The lines of the text: every newline-terminated segment with its
/// optional carriage return stripped, and the text after the last newline
/// as a final line unless it is empty.
pub open spec fn spec_lines(s: Seq<char>) -> Seq<Seq<char>> {
    let segs = split_nl(s);
    let kept = Seq::new((segs.len() - 1) as nat, |i: int| strip_cr(segs[i]));
    if segs.last().len() == 0 {
        kept
    } else {
        kept + seq![segs.last()]
    }
}

/// The lines each prefixed with the indentation, joined by newlines.
pub open spec fn join_indent(ls: Seq<Seq<char>>) -> Seq<char>
    decreases ls.len(),
{
    if ls.len() == 0 {
        Seq::empty()
    } else if ls.len() == 1 {
        indent_prefix() + ls[0]
    } else {
        join_indent(ls.drop_last()) + seq!['\n'] + indent_prefix() + ls.last()
    }
}

/// What indenting a report text yields: each of its lines behind four
/// spaces, joined by newlines.
pub open spec fn spec_indented(s: Seq<char>) -> Seq<char> {
    join_indent(spec_lines(s))
}

/// Indents a report text by four spaces per line, for failure diffs.
#[verifier::loop_isolation(false)]
pub fn indented(s: String) -> (r: String)
    ensures
        r@ == spec_indented(s@),
{
    let sref = s.as_str();
    let n = sref.unicode_len();
    let mut segs: Vec<String> = Vec::new();
    let mut p: usize = 0;
    let ghost whole = split_nl(s@);
    proof {
        assert(s@.subrange(0, n as int) =~= s@);
        assert(s@.skip(0) =~= s@);
    }
    loop
        invariant
            p <= n,
            n == s@.len(),
            segs@.len() <= whole.len(),
            forall|k: int|
                0 <= k < segs@.len() ==> (#[trigger] segs@[k])@ == whole.take(segs@.len() as int)[k],
            whole =~= whole.take(segs@.len() as int) + split_nl(s@.skip(p as int)),
        decreases n - p,
    {
        let rem = sref.substring_char(p, n);
        proof {
            assert(rem@ =~= s@.skip(p as int));
        }
        let rlen = n - p;
        let k = crate::render::find_first(rem, '\n', '\n');
        if k >= rlen {
            let ghost before = segs@;
            segs.push(String::from_str(rem));
            proof {
                assert(split_nl(s@.skip(p as int)) =~= seq![rem@]);
                assert(whole.len() == before.len() + 1);
                assert(whole == whole.take(before.len() as int) + seq![rem@]);
                assert((whole.take(before.len() as int) + seq![rem@])[before.len() as int]
                    == rem@);
                assert(whole.take(segs@.len() as int) =~= whole.take(before.len() as int).push(
                    rem@,
                ));
            }
            break ;
        }
        let piece = rem.substring_char(0, k);
        let ghost before = segs@;
        segs.push(String::from_str(piece));
        proof {
            assert(piece@ =~= rem@.take(k as int));
            assert(rem@.skip(k as int + 1) =~= s@.skip(p as int + k + 1));
            assert(split_nl(s@.skip(p as int)) =~= seq![rem@.take(k as int)] + split_nl(
                s@.skip(p as int + k + 1),
            ));
            assert(split_nl(s@.skip(p as int))[0] == piece@);
            assert(whole.len() >= before.len() + 1);
            assert(whole == whole.take(before.len() as int) + split_nl(s@.skip(p as int)));
            assert((whole.take(before.len() as int) + split_nl(s@.skip(p as int)))[before.len() as int]
                == piece@);
            assert(whole.take(segs@.len() as int) =~= whole.take(before.len() as int).push(
                piece@,
            ));
        }
        p = p + k + 1;
    }
    let nseg = segs.len();
    proof {
        assert(whole.take(nseg as int) =~= whole);
        assert(nseg == whole.len());
    }
    let last_empty = segs[nseg - 1].as_str().unicode_len() == 0;
    let m: usize = if last_empty {
        nseg - 1
    } else {
        nseg
    };
    let ghost lines = spec_lines(s@);
    proof {
        reveal_strlit("\n");
        reveal_strlit("    ");
        assert("\n"@ =~= seq!['\n']);
        assert("    "@ =~= indent_prefix());
        assert(lines.len() == m);
        assert(forall|k: int| 0 <= k < m - 1 ==> lines[k] == strip_cr(whole[k]));
        if m > 0 {
            if last_empty {
                assert(lines[m - 1] == strip_cr(whole[m - 1]));
            } else {
                assert(lines[m - 1] == whole[m - 1]);
            }
        }
    }
    let mut r = String::new();
    let mut i: usize = 0;
    while i < m
        invariant
            i <= m,
            m <= nseg == segs@.len(),
            m == lines.len(),
            (m == nseg) || (m + 1 == nseg),
            "\n"@ == seq!['\n'],
            "    "@ == indent_prefix(),
            forall|k: int| 0 <= k < m - 1 ==> lines[k] == strip_cr(segs@[k]@),
            m > 0 && m == nseg ==> lines[m - 1] == segs@[m - 1]@,
            m > 0 && m + 1 == nseg ==> lines[m - 1] == strip_cr(segs@[m - 1]@),
            r@ =~= join_indent(lines.take(i as int)),
        decreases m - i,
    {
        if i > 0 {
            r.append("\n");
        }
        r.append("    ");
        let seg = &segs[i];
        let slen = seg.as_str().unicode_len();
        let keep_cr = m == nseg && i == m - 1;
        if !keep_cr && slen > 0 && seg.as_str().get_char(slen - 1) == '\r' {
            let stripped = seg.as_str().substring_char(0, slen - 1);
            proof {
                assert(stripped@ =~= seg@.drop_last());
            }
            r.append(stripped);
        } else {
            r.append(seg.as_str());
        }
        proof {
            assert(lines.take(i as int + 1).drop_last() =~= lines.take(i as int));
            assert(lines.take(i as int + 1).last() == lines[i as int]);
        }
        i = i + 1;
    }
    proof {
        assert(lines.take(m as int) =~= lines);
    }
    r
}

/// Whether the skip list names this fixture.
pub fn contains_name(skips: &Vec<String>, name: &str) -> (r: bool)
    ensures
        r == (exists|i: int| 0 <= i < skips@.len() && skips@[i]@ == name@),
{
    let n = skips.len();
    let mut i: usize = 0;
    while i < n
        invariant
            i <= n,
            n == skips@.len(),
            forall|k: int| 0 <= k < i ==> skips@[k]@ != name@,
        decreases n - i,
    {
        if str_eq(skips[i].as_str(), name) {
            return true;
        }
        i = i + 1;
    }
    false
}

} // verus!
