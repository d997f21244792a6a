//! The symbolic-execution stage.

use vstd::prelude::*;

use crate::packet::DockedPacket;
use crate::stage::{command, words, Expect, Script, Step};
use crate::submission::views;
use crate::text::{concat, ends_with, has_prefix, has_suffix, path_join, starts_with};
use crate::tool_aflpp::{crashes_text, crashes_verdict};

verus! {

/// Tag of the image.
pub const DOCKER_TAG: &'static str = "klee";

/// Timeout for symbolic execution, in milliseconds.
pub const TIMEOUT_EXEC_MS: u64 = 900000;

/// Result for symbolic execution.
#[derive(Clone, Copy, Debug, PartialEq, Eq, Structural)]
pub struct ResultKLEE {
    pub completed: bool,
    pub num_crashes: u64,
}

impl ResultKLEE {
    /// The result of a stage whose commands did not all end as expected.
    pub fn incomplete() -> (r: ResultKLEE)
        ensures
            r == (ResultKLEE { completed: false, num_crashes: 0 }),
    {
        ResultKLEE { completed: false, num_crashes: 0 }
    }

    /// The verdict in words.
    pub fn to_human_readable(&self) -> (r: String)
        ensures
            r@ == crashes_text(
                "KLEE"@,
                "KLEE symbolic execution"@,
                self.completed,
                self.num_crashes as nat,
            ),
    {
        crashes_verdict("KLEE", "KLEE symbolic execution", self.completed, self.num_crashes)
    }
}

/// The prefix shared by the files of the test named `n`, a `.ktest` file:
/// its name without the extension, then a dot.
pub open spec fn test_prefix(n: Seq<char>) -> Seq<char> {
    n.subrange(0, n.len() - 6) + "."@
}

/// The prefixes of the tests among `names`, the `.ktest` files.
pub open spec fn test_prefixes_of(names: Seq<Seq<char>>) -> Seq<Seq<char>>
    decreases names.len(),
{
    if names.len() == 0 {
        Seq::empty()
    } else if has_suffix(names.last(), ".ktest"@) {
        test_prefixes_of(names.drop_last()).push(test_prefix(names.last()))
    } else {
        test_prefixes_of(names.drop_last())
    }
}

/// `n` reports an error of one of the tests among `names`.
pub open spec fn is_error_report(names: Seq<Seq<char>>, n: Seq<char>) -> bool {
    has_suffix(n, ".err"@) && exists|j: int|
        0 <= j < test_prefixes_of(names).len() && has_prefix(n, #[trigger] test_prefixes_of(names)[j])
}

/// The number of error reports among the first names.
pub open spec fn error_reports(names: Seq<Seq<char>>, upto: Seq<Seq<char>>) -> nat
    decreases upto.len(),
{
    if upto.len() == 0 {
        0
    } else {
        error_reports(names, upto.drop_last()) + if is_error_report(names, upto.last()) {
            1nat
        } else {
            0nat
        }
    }
}

proof fn lemma_error_reports_bound(names: Seq<Seq<char>>, upto: Seq<Seq<char>>)
    ensures
        error_reports(names, upto) <= upto.len(),
    decreases upto.len(),
{
    if upto.len() > 0 {
        lemma_error_reports_bound(names, upto.drop_last());
    }
}

/// The prefixes of the tests among `names`.
fn test_prefixes(names: &Vec<String>) -> (r: Vec<String>)
    ensures
        r@.map_values(|s: String| s@) == test_prefixes_of(names@.map_values(|s: String| s@)),
{
    proof {
        reveal_strlit(".ktest");
    }
    let ghost v = names@.map_values(|s: String| s@);
    let mut r: Vec<String> = Vec::new();
    let mut i: usize = 0;
    while i < names.len()
        invariant
            i <= names@.len(),
            v == names@.map_values(|s: String| s@),
            r@.map_values(|s: String| s@) == test_prefixes_of(v.subrange(0, i as int)),
        decreases names@.len() - i,
    {
        proof {
            assert(v.subrange(0, i + 1).drop_last() =~= v.subrange(0, i as int));
        }
        let n = names[i].as_str();
        if ends_with(n, ".ktest") {
            let len = n.unicode_len();
            proof {
                reveal_strlit(".ktest");
            }
            assert(".ktest"@.len() == 6);
            let stem = n.substring_char(0, len - 6);
            let p = concat(stem, ".");
            let ghost prev = r@;
            r.push(p);
            proof {
                assert(r@.map_values(|s: String| s@) =~= prev.map_values(|s: String| s@).push(
                    test_prefix(n@),
                ));
            }
        }
        i = i + 1;
    }
    proof {
        assert(v.subrange(0, names@.len() as int) =~= v);
    }
    r
}

fn has_any_prefix(n: &str, prefixes: &Vec<String>) -> (r: bool)
    ensures
        r == exists|j: int|
            0 <= j < prefixes@.len() && has_prefix(
                n@,
                #[trigger] views(prefixes@)[j],
            ),
{
    let mut i: usize = 0;
    while i < prefixes.len()
        invariant
            i <= prefixes@.len(),
            forall|j: int|
                0 <= j < i ==> !has_prefix(n@, #[trigger] views(prefixes@)[j]),
        decreases prefixes@.len() - i,
    {
        if starts_with(n, prefixes[i].as_str()) {
            assert(views(prefixes@)[i as int] == prefixes@[i as int]@);
            return true;
        }
        i = i + 1;
    }
    false
}

/// The number of crashes KLEE reported among the names in its output
/// directory: the `.err` files of its tests.
pub fn count_klee_crashes(names: &Vec<String>) -> (r: u64)
    requires
        names@.len() <= u64::MAX,
    ensures
        r == error_reports(names@.map_values(|s: String| s@), names@.map_values(|s: String| s@)),
{
    let ghost v = names@.map_values(|s: String| s@);
    let prefixes = test_prefixes(names);
    let mut n: u64 = 0;
    let mut i: usize = 0;
    while i < names.len()
        invariant
            i <= names@.len() <= u64::MAX,
            v == names@.map_values(|s: String| s@),
            prefixes@.map_values(|s: String| s@) == test_prefixes_of(v),
            n == error_reports(v, v.subrange(0, i as int)),
        decreases names@.len() - i,
    {
        proof {
            assert(v.subrange(0, i + 1).drop_last() =~= v.subrange(0, i as int));
            lemma_error_reports_bound(v, v.subrange(0, i as int));
        }
        let name = names[i].as_str();
        let hit = ends_with(name, ".err") && has_any_prefix(name, &prefixes);
        proof {
            assert(views(prefixes@) == test_prefixes_of(v));
            assert(v.subrange(0, i + 1).last() == name@);
            assert(hit == is_error_report(v, name@));
        }
        if hit {
            n = n + 1;
        }
        i = i + 1;
    }
    proof {
        assert(v.subrange(0, names@.len() as int) =~= v);
    }
    n
}

impl ResultKLEE {
    /// The result of a completed stage from the names in its output
    /// directory.
    pub fn from_outputs(names: &Vec<String>) -> (r: ResultKLEE)
        requires
            names@.len() <= u64::MAX,
        ensures
            r.completed,
            r.num_crashes == error_reports(
                names@.map_values(|s: String| s@),
                names@.map_values(|s: String| s@),
            ),
    {
        ResultKLEE { completed: true, num_crashes: count_klee_crashes(names) }
    }
}

/// The symbolic-execution stage: build `main.c` to LLVM bitcode, then run
/// KLEE on it with symbolic standard input until its budget runs out. A
/// failure of KLEE leaves the stage incomplete; a timeout does not.
pub fn klee_script(docked: &DockedPacket) -> (r: Script)
    ensures
        r.statuses@.len() == 0,
        r.steps@.len() == 2,
        words(r.steps@[0].cmd@) == seq![
            "clang"@,
            "-emit-llvm"@,
            "-g"@,
            "-O0"@,
            "-c"@,
            docked.path_program@,
            "-o"@,
            path_join(docked.path_output@, "main.bc"@),
        ],
        r.steps@[0].expect == Expect::Success,
        words(r.steps@[1].cmd@) == seq![
            "klee"@,
            "--libc=klee"@,
            "--posix-runtime"@,
            "--debug-print-instructions=compact:stderr"@,
            "--max-time=16min"@,
            "--watchdog"@,
            "--output-dir="@ + path_join(docked.path_output@, "output"@),
            path_join(docked.path_output@, "main.bc"@),
            "-sym-stdin"@,
            "1024"@,
        ],
        r.steps@[1].timeout_ms == Some(TIMEOUT_EXEC_MS),
        r.steps@[1].expect == Expect::NotFailure,
{
    let (_, bc) = docked.wks_path("main.bc");
    let (_, out) = docked.wks_path("output");
    let cc = command(
        &["clang", "-emit-llvm", "-g", "-O0", "-c", docked.path_program.as_str(), "-o", bc.as_str()],
    );
    let out_flag = concat("--output-dir=", out.as_str());
    let run = command(
        &[
            "klee",
            "--libc=klee",
            "--posix-runtime",
            "--debug-print-instructions=compact:stderr",
            "--max-time=16min",
            "--watchdog",
            out_flag.as_str(),
            bc.as_str(),
            "-sym-stdin",
            "1024",
        ],
    );
    proof {
        assert(words(cc@) =~= seq![
            "clang"@,
            "-emit-llvm"@,
            "-g"@,
            "-O0"@,
            "-c"@,
            docked.path_program@,
            "-o"@,
            bc@,
        ]);
        assert(words(run@) =~= seq![
            "klee"@,
            "--libc=klee"@,
            "--posix-runtime"@,
            "--debug-print-instructions=compact:stderr"@,
            "--max-time=16min"@,
            "--watchdog"@,
            out_flag@,
            bc@,
            "-sym-stdin"@,
            "1024"@,
        ]);
    }
    let mut steps: Vec<Step> = Vec::new();
    steps.push(Step { cmd: cc, timeout_ms: None, expect: Expect::Success });
    steps.push(Step { cmd: run, timeout_ms: Some(TIMEOUT_EXEC_MS), expect: Expect::NotFailure });
    Script::new(steps)
}

} // verus!
