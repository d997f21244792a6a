//! The baseline stage (compile and run the submitted test cases) and the
//! coverage stage (measure block coverage of the input cases).

use vstd::prelude::*;

use crate::packet::DockedPacket;
use crate::stage::{command, occurrences, words, Expect, Script, Step};
use crate::text::{concat, decimal, decimal_string, path_join};
use crate::util_docker::ExitStatus;

verus! {

/// Tag of the image.
pub const DOCKER_TAG: &'static str = "gcov";

/// Timeout for the execution of one test case, in seconds.
pub const TIMEOUT_TEST_CASE_SECS: u64 = 10;

/// Result for baseline evaluation.
#[derive(Clone, Copy, Debug, PartialEq, Eq, Structural)]
pub struct ResultBaseline {
    pub compiled: bool,
    pub input_pass: usize,
    pub input_fail: usize,
    pub crash_pass: usize,
    pub crash_fail: usize,
}

/// The human-readable verdict on a baseline result.
pub open spec fn baseline_text(r: ResultBaseline) -> Seq<char> {
    if !r.compiled {
        "[failure] unable to compile the program"@
    } else if r.input_pass == 0 {
        "[failure] none of the "@ + decimal((r.input_pass + r.input_fail) as nat)
            + " test case(s) under 'input/' directory executes successfully"@
    } else if r.input_fail != 0 {
        "[failure] "@ + decimal(r.input_fail as nat) + " out of "@ + decimal(
            (r.input_pass + r.input_fail) as nat,
        ) + " test case(s) under 'input/' directory crash or timeout"@
    } else if r.crash_pass == 0 {
        "[failure] none of the "@ + decimal((r.crash_pass + r.crash_fail) as nat)
            + " test case(s) under 'crash/' directory actually crash the program"@
    } else {
        "[success] baseline check passed"@
    }
}

impl ResultBaseline {
    /// The verdict in words.
    pub fn to_human_readable(&self) -> (r: String)
        ensures
            r@ == baseline_text(*self),
    {
        if !self.compiled {
            return String::from_str("[failure] unable to compile the program");
        }
        if self.input_pass == 0 {
            let n = decimal_string(self.input_pass as u128 + self.input_fail as u128);
            let a = concat("[failure] none of the ", n.as_str());
            return concat(
                a.as_str(),
                " test case(s) under 'input/' directory executes successfully",
            );
        }
        if self.input_fail != 0 {
            let f = decimal_string(self.input_fail as u128);
            let n = decimal_string(self.input_pass as u128 + self.input_fail as u128);
            let a = concat("[failure] ", f.as_str());
            let b = concat(a.as_str(), " out of ");
            let c = concat(b.as_str(), n.as_str());
            return concat(c.as_str(), " test case(s) under 'input/' directory crash or timeout");
        }
        if self.crash_pass == 0 {
            let n = decimal_string(self.crash_pass as u128 + self.crash_fail as u128);
            let a = concat("[failure] none of the ", n.as_str());
            return concat(
                a.as_str(),
                " test case(s) under 'crash/' directory actually crash the program",
            );
        }
        String::from_str("[success] baseline check passed")
    }
}

/// The shell line that runs `program` on the test case `case` under the
/// per-case timeout.
pub open spec fn case_line(program: Seq<char>, case: Seq<char>) -> Seq<char> {
    "timeout 10 "@ + program + " < "@ + case
}

/// The shell line that runs `program` on the test case `case`.
pub fn case_command(program: &str, case: &str) -> (r: Vec<String>)
    ensures
        words(r@) == seq!["bash"@, "-c"@, case_line(program@, case@)],
{
    let a = concat("timeout 10 ", program);
    let b = concat(a.as_str(), " < ");
    let line = concat(b.as_str(), case);
    let mut r: Vec<String> = Vec::new();
    r.push(String::from_str("bash"));
    r.push(String::from_str("-c"));
    r.push(line);
    proof {
        assert(words(r@) =~= seq!["bash"@, "-c"@, case_line(program@, case@)]);
    }
    r
}

/// Steps that run `program` on each case of `cases` with any outcome.
pub(crate) fn case_steps(steps: &mut Vec<Step>, program: &str, cases: &Vec<String>)
    ensures
        final(steps)@.len() == old(steps)@.len() + cases@.len(),
        forall|i: int| 0 <= i < old(steps)@.len() ==> final(steps)@[i] == old(steps)@[i],
        forall|i: int|
            0 <= i < cases@.len() ==> {
                let st = #[trigger] final(steps)@[old(steps)@.len() + i];
                &&& words(st.cmd@) == seq!["bash"@, "-c"@, case_line(program@, cases@[i]@)]
                &&& st.timeout_ms == Some(10000u64)
                &&& st.expect == Expect::Any
            },
{
    let mut i: usize = 0;
    while i < cases.len()
        invariant
            i <= cases@.len(),
            steps@.len() == old(steps)@.len() + i,
            forall|k: int| 0 <= k < old(steps)@.len() ==> steps@[k] == old(steps)@[k],
            forall|k: int|
                0 <= k < i ==> {
                    let st = #[trigger] steps@[old(steps)@.len() + k];
                    &&& words(st.cmd@) == seq!["bash"@, "-c"@, case_line(program@, cases@[k]@)]
                    &&& st.timeout_ms == Some(10000u64)
                    &&& st.expect == Expect::Any
                },
        decreases cases@.len() - i,
    {
        let cmd = case_command(program, cases[i].as_str());
        steps.push(Step { cmd, timeout_ms: Some(10000), expect: Expect::Any });
        i = i + 1;
    }
}

/// The baseline stage: compile `main.c` to `main` in the workspace, then run
/// every input case and every crash case.
pub fn baseline_script(docked: &DockedPacket) -> (r: Script)
    ensures
        r.statuses@.len() == 0,
        r.steps@.len() == 1 + docked.path_input_cases@.len() + docked.path_crash_cases@.len(),
        words(r.steps@[0].cmd@) == seq![
            "gcc"@,
            docked.path_program@,
            "-o"@,
            path_join(docked.path_output@, "main"@),
        ],
        r.steps@[0].timeout_ms is None,
        r.steps@[0].expect == Expect::Success,
        forall|i: int|
            0 <= i < docked.path_input_cases@.len() ==> words(#[trigger] r.steps@[1 + i].cmd@)
                == seq![
                "bash"@,
                "-c"@,
                case_line(path_join(docked.path_output@, "main"@), docked.path_input_cases@[i]@),
            ] && r.steps@[1 + i].expect == Expect::Any && r.steps@[1 + i].timeout_ms == Some(
                10000u64,
            ),
        forall|i: int|
            0 <= i < docked.path_crash_cases@.len() ==> words(
                #[trigger] r.steps@[1 + docked.path_input_cases@.len() + i].cmd@,
            ) == seq![
                "bash"@,
                "-c"@,
                case_line(path_join(docked.path_output@, "main"@), docked.path_crash_cases@[i]@),
            ] && r.steps@[1 + docked.path_input_cases@.len() + i].expect == Expect::Any
                && r.steps@[1 + docked.path_input_cases@.len() + i].timeout_ms == Some(10000u64),
{
    let (_, compiled) = docked.wks_path("main");
    let gcc = command(&["gcc", docked.path_program.as_str(), "-o", compiled.as_str()]);
    proof {
        assert(words(gcc@) =~= seq!["gcc"@, docked.path_program@, "-o"@, compiled@]);
    }
    let mut steps: Vec<Step> = Vec::new();
    steps.push(Step { cmd: gcc, timeout_ms: None, expect: Expect::Success });
    case_steps(&mut steps, compiled.as_str(), &docked.path_input_cases);
    case_steps(&mut steps, compiled.as_str(), &docked.path_crash_cases);
    Script::new(steps)
}

/// The baseline result from the statuses of the baseline steps: the compile
/// status, then one status per input case, then one per crash case. An
/// input case passes when it succeeds; a crash case when it fails.
pub open spec fn baseline_of(statuses: Seq<ExitStatus>, n_inputs: nat, n_crashes: nat) -> ResultBaseline {
    if statuses[0] != ExitStatus::Success {
        ResultBaseline {
            compiled: false,
            input_pass: 0,
            input_fail: 0,
            crash_pass: 0,
            crash_fail: 0,
        }
    } else {
        let ip = occurrences(statuses.subrange(1, 1 + n_inputs as int), ExitStatus::Success);
        let cp = occurrences(
            statuses.subrange(1 + n_inputs as int, 1 + n_inputs + n_crashes as int),
            ExitStatus::Failure,
        );
        ResultBaseline {
            compiled: true,
            input_pass: ip as usize,
            input_fail: (n_inputs - ip) as usize,
            crash_pass: cp as usize,
            crash_fail: (n_crashes - cp) as usize,
        }
    }
}

/// The baseline result once its script has stopped: after a failed compile
/// only the compile status is there, else one status per case.
pub fn baseline_result(statuses: &Vec<ExitStatus>, n_inputs: usize, n_crashes: usize) -> (r:
    ResultBaseline)
    requires
        statuses@.len() > 0,
        statuses@[0] == ExitStatus::Success ==> statuses@.len() == 1 + n_inputs + n_crashes,
    ensures
        r == baseline_of(statuses@, n_inputs as nat, n_crashes as nat),
{
    if !matches!(statuses[0], ExitStatus::Success) {
        return ResultBaseline {
            compiled: false,
            input_pass: 0,
            input_fail: 0,
            crash_pass: 0,
            crash_fail: 0,
        };
    }
    let total = statuses.len();
    assert(total == 1 + n_inputs + n_crashes);
    let input_pass = crate::stage::count_status(statuses, 1, 1 + n_inputs, ExitStatus::Success);
    let crash_pass = crate::stage::count_status(
        statuses,
        1 + n_inputs,
        1 + n_inputs + n_crashes,
        ExitStatus::Failure,
    );
    ResultBaseline {
        compiled: true,
        input_pass,
        input_fail: n_inputs - input_pass,
        crash_pass,
        crash_fail: n_crashes - crash_pass,
    }
}


/// Result for coverage measurement.
#[derive(Clone, Copy, Debug, PartialEq, Eq, Structural)]
pub struct ResultGcov {
    pub completed: bool,
    pub num_blocks: usize,
    pub cov_blocks: usize,
}

/// Coverage in hundredths of a percent, rounded to the nearest, halves up.
pub open spec fn hundredths(cov: nat, num: nat) -> nat {
    ((cov * 10000 + num / 2) / num) as nat
}

/// A number of hundredths written with two decimals.
pub open spec fn two_decimals(h: nat) -> Seq<char> {
    decimal(h / 100) + "."@ + if h % 100 < 10 {
        "0"@ + decimal(h % 100)
    } else {
        decimal(h % 100)
    }
}

/// The human-readable verdict on a coverage result.
pub open spec fn gcov_text(r: ResultGcov) -> Seq<char> {
    if !r.completed {
        "[failure] unable to complete GCOV measurement"@
    } else if r.num_blocks > r.cov_blocks {
        "[failure] GCOV coverage at "@ + two_decimals(
            hundredths(r.cov_blocks as nat, r.num_blocks as nat),
        ) + "%"@
    } else {
        "[success] 100% GCOV coverage"@
    }
}

impl ResultGcov {
    /// The result of a stage whose commands did not all succeed.
    pub fn incomplete() -> (r: ResultGcov)
        ensures
            r == (ResultGcov { completed: false, num_blocks: 0, cov_blocks: 0 }),
    {
        ResultGcov { completed: false, num_blocks: 0, cov_blocks: 0 }
    }

    /// The verdict in words, with the coverage to two decimals.
    pub fn to_human_readable(&self) -> (r: String)
        ensures
            r@ == gcov_text(*self),
    {
        if !self.completed {
            return String::from_str("[failure] unable to complete GCOV measurement");
        }
        if self.num_blocks > self.cov_blocks {
            let num = self.num_blocks as u128;
            let cov = self.cov_blocks as u128;
            assert(cov * 10000 <= 10000 * 0xffff_ffff_ffff_ffffu128) by (nonlinear_arith)
                requires
                    cov <= 0xffff_ffff_ffff_ffffu128,
            ;
            let h = (cov * 10000 + num / 2) / num;
            let whole = decimal_string(h / 100);
            let frac = decimal_string(h % 100);
            let a = concat("[failure] GCOV coverage at ", whole.as_str());
            let b = concat(a.as_str(), ".");
            let c = if h % 100 < 10 {
                let z = concat(b.as_str(), "0");
                concat(z.as_str(), frac.as_str())
            } else {
                concat(b.as_str(), frac.as_str())
            };
            return concat(c.as_str(), "%");
        }
        String::from_str("[success] 100% GCOV coverage")
    }
}

/// One function of a coverage report.
pub struct GcovFunction {
    pub name: String,
    pub blocks: u64,
    pub blocks_executed: u64,
}

/// One line of a coverage report: the function it belongs to, if any, and
/// the execution count of each of its branches.
pub struct GcovLine {
    pub function_name: Option<String>,
    pub branch_counts: Vec<u64>,
}

/// One source file of a coverage report.
pub struct GcovFile {
    pub functions: Vec<GcovFunction>,
    pub lines: Vec<GcovLine>,
}

/// A coverage report.
pub struct GcovReport {
    pub files: Vec<GcovFile>,
}

/// The number of branches never taken.
pub open spec fn untaken(c: Seq<u64>) -> nat
    decreases c.len(),
{
    if c.len() == 0 {
        0
    } else {
        untaken(c.drop_last()) + if c.last() == 0 {
            1nat
        } else {
            0nat
        }
    }
}

/// The line belongs to the function `n`.
pub open spec fn line_of(l: GcovLine, n: Seq<char>) -> bool {
    l.function_name matches Some(f) && f@ == n
}

/// The untaken branches of the lines of function `n`.
pub open spec fn untaken_of(lines: Seq<GcovLine>, n: Seq<char>) -> nat
    decreases lines.len(),
{
    if lines.len() == 0 {
        0
    } else {
        untaken_of(lines.drop_last(), n) + if line_of(lines.last(), n) {
            untaken(lines.last().branch_counts@)
        } else {
            0
        }
    }
}

/// Every line that names a function names one of the file's functions.
pub open spec fn lines_known(f: GcovFile) -> bool {
    forall|j: int|
        0 <= j < f.lines@.len() && (#[trigger] f.lines@[j]).function_name is Some ==> exists|i: int|
            0 <= i < f.functions@.len() && (#[trigger] f.functions@[i]).name@
                == f.lines@[j].function_name->0@
}

/// Entry `i` is the last function of its name: a later entry of the same
/// name replaces it.
pub open spec fn last_of_name(fs: Seq<GcovFunction>, i: int) -> bool {
    forall|j: int| i < j < fs.len() ==> (#[trigger] fs[j]).name@ != fs[i].name@
}

/// Blocks of the first `k` functions that count.
pub open spec fn file_blocks(fs: Seq<GcovFunction>, k: int) -> nat
    decreases k,
{
    if k <= 0 {
        0
    } else {
        file_blocks(fs, k - 1) + if last_of_name(fs, k - 1) {
            fs[k - 1].blocks as nat
        } else {
            0
        }
    }
}

/// Covered blocks of the first `k` functions that count: those executed,
/// plus the untaken branches of their lines.
pub open spec fn file_covered(f: GcovFile, k: int) -> nat
    decreases k,
{
    if k <= 0 {
        0
    } else {
        file_covered(f, k - 1) + if last_of_name(f.functions@, k - 1) {
            f.functions@[k - 1].blocks_executed as nat + untaken_of(
                f.lines@,
                f.functions@[k - 1].name@,
            )
        } else {
            0
        }
    }
}

/// Blocks over the first `k` files.
pub open spec fn report_blocks(files: Seq<GcovFile>, k: int) -> nat
    decreases k,
{
    if k <= 0 {
        0
    } else {
        report_blocks(files, k - 1) + file_blocks(files[k - 1].functions@, files[k - 1].functions@.len() as int)
    }
}

/// Covered blocks over the first `k` files.
pub open spec fn report_covered(files: Seq<GcovFile>, k: int) -> nat
    decreases k,
{
    if k <= 0 {
        0
    } else {
        report_covered(files, k - 1) + file_covered(files[k - 1], files[k - 1].functions@.len() as int)
    }
}

/// Every file of the report names only known functions.
pub open spec fn report_known(files: Seq<GcovFile>) -> bool {
    forall|k: int| 0 <= k < files.len() ==> lines_known(#[trigger] files[k])
}

proof fn lemma_file_blocks_mono(fs: Seq<GcovFunction>, a: int, b: int)
    requires
        a <= b,
    ensures
        file_blocks(fs, a) <= file_blocks(fs, b),
    decreases b - a,
{
    if a < b {
        lemma_file_blocks_mono(fs, a, b - 1);
    }
}

proof fn lemma_file_covered_mono(f: GcovFile, a: int, b: int)
    requires
        a <= b,
    ensures
        file_covered(f, a) <= file_covered(f, b),
    decreases b - a,
{
    if a < b {
        lemma_file_covered_mono(f, a, b - 1);
    }
}

proof fn lemma_untaken_of_mono(lines: Seq<GcovLine>, n: Seq<char>, a: int, b: int)
    requires
        0 <= a <= b <= lines.len(),
    ensures
        untaken_of(lines.subrange(0, a), n) <= untaken_of(lines.subrange(0, b), n),
    decreases b - a,
{
    if a < b {
        lemma_untaken_of_mono(lines, n, a, b - 1);
        assert(lines.subrange(0, b).drop_last() =~= lines.subrange(0, b - 1));
    }
}

proof fn lemma_report_mono(files: Seq<GcovFile>, a: int, b: int)
    requires
        a <= b,
    ensures
        report_blocks(files, a) <= report_blocks(files, b),
        report_covered(files, a) <= report_covered(files, b),
    decreases b - a,
{
    if a < b {
        lemma_report_mono(files, a, b - 1);
    }
}

fn untaken_count(c: &Vec<u64>) -> (r: usize)
    ensures
        r == untaken(c@),
{
    let mut n: usize = 0;
    let mut i: usize = 0;
    while i < c.len()
        invariant
            i <= c@.len(),
            n == untaken(c@.subrange(0, i as int)),
            n <= i,
        decreases c@.len() - i,
    {
        proof {
            assert(c@.subrange(0, i + 1).drop_last() =~= c@.subrange(0, i as int));
        }
        if c[i] == 0 {
            n = n + 1;
        }
        i = i + 1;
    }
    proof {
        assert(c@.subrange(0, c@.len() as int) =~= c@);
    }
    n
}

fn names_match(line: &GcovLine, name: &String) -> (r: bool)
    ensures
        r == line_of(*line, name@),
{
    match &line.function_name {
        Some(f) => *f == *name,
        None => false,
    }
}

/// The untaken branches of function `name`, unless they exceed `usize`.
fn untaken_for(lines: &Vec<GcovLine>, name: &String) -> (r: Option<usize>)
    ensures
        match r {
            Some(n) => n == untaken_of(lines@, name@),
            None => untaken_of(lines@, name@) > usize::MAX,
        },
{
    let mut n: usize = 0;
    let mut i: usize = 0;
    while i < lines.len()
        invariant
            i <= lines@.len(),
            n == untaken_of(lines@.subrange(0, i as int), name@),
        decreases lines@.len() - i,
    {
        proof {
            assert(lines@.subrange(0, i + 1).drop_last() =~= lines@.subrange(0, i as int));
        }
        if names_match(&lines[i], name) {
            let z = untaken_count(&lines[i].branch_counts);
            match n.checked_add(z) {
                Some(m) => {
                    n = m;
                },
                None => {
                    proof {
                        lemma_untaken_of_mono(lines@, name@, i + 1, lines@.len() as int);
                        assert(lines@.subrange(0, lines@.len() as int) =~= lines@);
                    }
                    return None;
                },
            }
        }
        i = i + 1;
    }
    proof {
        assert(lines@.subrange(0, lines@.len() as int) =~= lines@);
    }
    Some(n)
}

fn is_last_of_name(fs: &Vec<GcovFunction>, i: usize) -> (r: bool)
    requires
        i < fs@.len(),
    ensures
        r == last_of_name(fs@, i as int),
{
    let n = fs.len();
    let mut j: usize = i + 1;
    while j < fs.len()
        invariant
            i < j <= fs@.len(),
            forall|k: int| i < k < j ==> (#[trigger] fs@[k]).name@ != fs@[i as int].name@,
        decreases fs@.len() - j,
    {
        if fs[j].name == fs[i].name {
            return false;
        }
        j = j + 1;
    }
    true
}

fn knows_lines(f: &GcovFile) -> (r: bool)
    ensures
        r == lines_known(*f),
{
    let mut j: usize = 0;
    while j < f.lines.len()
        invariant
            j <= f.lines@.len(),
            forall|k: int|
                0 <= k < j && (#[trigger] f.lines@[k]).function_name is Some ==> exists|i: int|
                    0 <= i < f.functions@.len() && (#[trigger] f.functions@[i]).name@
                        == f.lines@[k].function_name->0@,
        decreases f.lines@.len() - j,
    {
        match &f.lines[j].function_name {
            None => {},
            Some(n) => {
                let mut found = false;
                let mut i: usize = 0;
                while i < f.functions.len()
                    invariant
                        i <= f.functions@.len(),
                        f.lines@[j as int].function_name == Some(*n),
                        found ==> exists|k: int|
                            0 <= k < f.functions@.len() && (#[trigger] f.functions@[k]).name@
                                == n@,
                        !found ==> forall|k: int|
                            0 <= k < i ==> (#[trigger] f.functions@[k]).name@ != n@,
                    decreases f.functions@.len() - i,
                {
                    if f.functions[i].name == *n {
                        found = true;
                    }
                    i = i + 1;
                }
                if !found {
                    return false;
                }
            },
        }
        j = j + 1;
    }
    true
}

/// The totals of one file, unless they exceed `usize`.
fn file_totals(f: &GcovFile) -> (r: Option<(usize, usize)>)
    ensures
        match r {
            Some((b, c)) => b == file_blocks(f.functions@, f.functions@.len() as int) && c
                == file_covered(*f, f.functions@.len() as int),
            None => file_blocks(f.functions@, f.functions@.len() as int) > usize::MAX
                || file_covered(*f, f.functions@.len() as int) > usize::MAX,
        },
{
    let fs = &f.functions;
    let ghost len = fs@.len() as int;
    let mut b: usize = 0;
    let mut c: usize = 0;
    let mut i: usize = 0;
    while i < fs.len()
        invariant
            i <= fs@.len(),
            len == fs@.len(),
            *fs == f.functions,
            b == file_blocks(fs@, i as int),
            c == file_covered(*f, i as int),
        decreases fs@.len() - i,
    {
        if is_last_of_name(fs, i) {
            let u = match untaken_for(&f.lines, &fs[i].name) {
                Some(u) => u,
                None => {
                    proof {
                        lemma_file_covered_mono(*f, i + 1, len);
                    }
                    return None;
                },
            };
            let nb = b.checked_add(fs[i].blocks as usize);
            let e = (fs[i].blocks_executed as u128) + (u as u128);
            if fs[i].blocks as u128 > usize::MAX as u128 || e > usize::MAX as u128 {
                proof {
                    lemma_file_blocks_mono(fs@, i + 1, len);
                    lemma_file_covered_mono(*f, i + 1, len);
                }
                return None;
            }
            match nb {
                None => {
                    proof {
                        lemma_file_blocks_mono(fs@, i + 1, len);
                    }
                    return None;
                },
                Some(x) => {
                    b = x;
                },
            }
            match c.checked_add(e as usize) {
                None => {
                    proof {
                        lemma_file_covered_mono(*f, i + 1, len);
                    }
                    return None;
                },
                Some(y) => {
                    c = y;
                },
            }
        }
        i = i + 1;
    }
    Some((b, c))
}

/// The block totals of a coverage report: for each function, its blocks,
/// and as covered its executed blocks plus the untaken branches of its
/// lines; a later function of the same name in a file replaces an earlier
/// one. None when a line names an unknown function or a total exceeds
/// `usize`.
pub fn parse_gcov_json_report(report: &GcovReport) -> (r: Option<(usize, usize)>)
    ensures
        match r {
            Some((b, c)) => report_known(report.files@) && b == report_blocks(
                report.files@,
                report.files@.len() as int,
            ) && c == report_covered(report.files@, report.files@.len() as int),
            None => !report_known(report.files@) || report_blocks(
                report.files@,
                report.files@.len() as int,
            ) > usize::MAX || report_covered(report.files@, report.files@.len() as int)
                > usize::MAX,
        },
{
    let files = &report.files;
    let ghost len = files@.len() as int;
    let mut k: usize = 0;
    while k < files.len()
        invariant
            k <= files@.len(),
            *files == report.files,
            forall|j: int| 0 <= j < k ==> lines_known(#[trigger] files@[j]),
        decreases files@.len() - k,
    {
        if !knows_lines(&files[k]) {
            proof {
                assert(!lines_known(report.files@[k as int]));
            }
            return None;
        }
        k = k + 1;
    }
    let mut b: usize = 0;
    let mut c: usize = 0;
    let mut i: usize = 0;
    while i < files.len()
        invariant
            i <= files@.len(),
            len == files@.len(),
            *files == report.files,
            report_known(files@),
            b == report_blocks(files@, i as int),
            c == report_covered(files@, i as int),
        decreases files@.len() - i,
    {
        match file_totals(&files[i]) {
            None => {
                proof {
                    lemma_report_mono(files@, i + 1, len);
                }
                return None;
            },
            Some((fb, fc)) => {
                match (b.checked_add(fb), c.checked_add(fc)) {
                    (Some(x), Some(y)) => {
                        b = x;
                        c = y;
                    },
                    _ => {
                        proof {
                            lemma_report_mono(files@, i + 1, len);
                        }
                        return None;
                    },
                }
            },
        }
        i = i + 1;
    }
    Some((b, c))
}


/// The shell line that writes the coverage report of the program built in
/// `base` as JSON to `report`.
pub open spec fn report_line(base: Seq<char>, report: Seq<char>) -> Seq<char> {
    "gcov -a -b -o "@ + base + " -n main.c -j -t > "@ + report
}

/// The coverage stage: build `main.c` instrumented for coverage, run every
/// input case, then write the coverage report `report.json` into the
/// workspace. The input cases may end any way; the build and the report
/// must succeed.
pub fn gcov_script(docked: &DockedPacket) -> (r: Script)
    ensures
        r.statuses@.len() == 0,
        r.steps@.len() == 2 + docked.path_input_cases@.len(),
        words(r.steps@[0].cmd@) == seq![
            "gcc"@,
            "-fprofile-arcs"@,
            "-ftest-coverage"@,
            "-g"@,
            docked.path_program@,
            "-o"@,
            path_join(docked.path_output@, "main"@),
        ],
        r.steps@[0].expect == Expect::Success,
        forall|i: int|
            0 <= i < docked.path_input_cases@.len() ==> words(#[trigger] r.steps@[1 + i].cmd@)
                == seq![
                "bash"@,
                "-c"@,
                case_line(path_join(docked.path_output@, "main"@), docked.path_input_cases@[i]@),
            ] && r.steps@[1 + i].expect == Expect::Any && r.steps@[1 + i].timeout_ms == Some(
                10000u64,
            ),
        words(r.steps@[1 + docked.path_input_cases@.len() as int].cmd@) == seq![
            "bash"@,
            "-c"@,
            report_line(docked.path_base@, path_join(docked.path_output@, "report.json"@)),
        ],
        r.steps@[1 + docked.path_input_cases@.len() as int].expect == Expect::Success,
{
    let (_, compiled) = docked.wks_path("main");
    let gcc = command(
        &[
            "gcc",
            "-fprofile-arcs",
            "-ftest-coverage",
            "-g",
            docked.path_program.as_str(),
            "-o",
            compiled.as_str(),
        ],
    );
    proof {
        assert(words(gcc@) =~= seq![
            "gcc"@,
            "-fprofile-arcs"@,
            "-ftest-coverage"@,
            "-g"@,
            docked.path_program@,
            "-o"@,
            compiled@,
        ]);
    }
    let mut steps: Vec<Step> = Vec::new();
    steps.push(Step { cmd: gcc, timeout_ms: None, expect: Expect::Success });
    case_steps(&mut steps, compiled.as_str(), &docked.path_input_cases);
    let (_, report) = docked.wks_path("report.json");
    let a = concat("gcov -a -b -o ", docked.path_base.as_str());
    let b = concat(a.as_str(), " -n main.c -j -t > ");
    let line = concat(b.as_str(), report.as_str());
    let cmd = command(&["bash", "-c", line.as_str()]);
    proof {
        assert(words(cmd@) =~= seq!["bash"@, "-c"@, line@]);
    }
    steps.push(Step { cmd, timeout_ms: None, expect: Expect::Success });
    Script::new(steps)
}

/// The coverage result of a completed stage from its report's totals; a
/// report that cannot be read is an error.
pub fn gcov_result(totals: Option<(usize, usize)>) -> (r: Option<ResultGcov>)
    ensures
        match totals {
            Some((b, c)) => r == Some(ResultGcov { completed: true, num_blocks: b, cov_blocks: c }),
            None => r is None,
        },
{
    match totals {
        Some((b, c)) => Some(ResultGcov { completed: true, num_blocks: b, cov_blocks: c }),
        None => None,
    }
}

} // verus!
