//! The hybrid stage: a fuzzer on the side and a concolic helper fed by it.

use vstd::prelude::*;

use crate::packet::DockedPacket;
use crate::stage::{command, words, Expect, Script, Step};
use crate::text::{path_join, join_path};
use crate::tool_aflpp::{count_crashes, crash_count, crashes_text, crashes_verdict};
use crate::util_docker::ExitStatus;

verus! {

/// Tag of the image.
pub const DOCKER_TAG: &'static str = "symcc";

/// Tag of the image that the hybrid image is derived from.
pub const DOCKER_TAG_BASE: &'static str = "symcc-base";

/// Wall-clock budget of the fuzzer and of the helper, in milliseconds.
pub const TIMEOUT_FUZZ_MS: u64 = 5000;

/// Result for hybrid fuzzing.
#[derive(Clone, Copy, Debug, PartialEq, Eq, Structural)]
pub struct ResultSymCC {
    pub completed: bool,
    pub num_crashes: u64,
}

impl ResultSymCC {
    /// The verdict in words.
    pub fn to_human_readable(&self) -> (r: String)
        ensures
            r@ == crashes_text(
                "SymCC"@,
                "SymCC hybrid fuzzing"@,
                self.completed,
                self.num_crashes as nat,
            ),
    {
        crashes_verdict("SymCC", "SymCC hybrid fuzzing", self.completed, self.num_crashes)
    }

    /// The result of the stage from how the helper and the side fuzzer
    /// ended and from the names in the fuzzer's crash directory: complete
    /// only when both ran into their timeout.
    pub fn from_run(helper: ExitStatus, side: ExitStatus, names: &Vec<String>) -> (r: ResultSymCC)
        requires
            names@.len() <= u64::MAX,
        ensures
            r.completed == (helper == ExitStatus::Timeout && side == ExitStatus::Timeout),
            r.completed ==> r.num_crashes == crash_count(names@.map_values(|s: String| s@)),
            !r.completed ==> r.num_crashes == 0,
    {
        if matches!(helper, ExitStatus::Timeout) && matches!(side, ExitStatus::Timeout) {
            ResultSymCC { completed: true, num_crashes: count_crashes(names) }
        } else {
            ResultSymCC { completed: false, num_crashes: 0 }
        }
    }
}

/// The two builds of the hybrid stage: one with the fuzzer's compiler, one
/// with the concolic compiler. Both must succeed.
pub fn symcc_script(docked: &DockedPacket) -> (r: Script)
    ensures
        r.statuses@.len() == 0,
        r.steps@.len() == 2,
        words(r.steps@[0].cmd@) == seq![
            "/afl/afl-clang"@,
            docked.path_program@,
            "-o"@,
            path_join(docked.path_output@, "main-afl"@),
        ],
        r.steps@[0].expect == Expect::Success,
        words(r.steps@[1].cmd@) == seq![
            "symcc"@,
            docked.path_program@,
            "-o"@,
            path_join(docked.path_output@, "main-sym"@),
        ],
        r.steps@[1].expect == Expect::Success,
{
    let (_, afl) = docked.wks_path("main-afl");
    let (_, sym) = docked.wks_path("main-sym");
    let a = command(&["/afl/afl-clang", docked.path_program.as_str(), "-o", afl.as_str()]);
    let b = command(&["symcc", docked.path_program.as_str(), "-o", sym.as_str()]);
    proof {
        assert(words(a@) =~= seq!["/afl/afl-clang"@, docked.path_program@, "-o"@, afl@]);
        assert(words(b@) =~= seq!["symcc"@, docked.path_program@, "-o"@, sym@]);
    }
    let mut steps: Vec<Step> = Vec::new();
    steps.push(Step { cmd: a, timeout_ms: None, expect: Expect::Success });
    steps.push(Step { cmd: b, timeout_ms: None, expect: Expect::Success });
    Script::new(steps)
}

/// The side fuzzer: the main instance `afl-0` over the input cases, run
/// until its budget runs out.
pub fn side_fuzzer_step(docked: &DockedPacket) -> (r: Step)
    ensures
        r.timeout_ms == Some(TIMEOUT_FUZZ_MS),
        r.expect == Expect::Timeout,
        words(r.cmd@) == seq![
            "/afl/afl-fuzz"@,
            "-M"@,
            "afl-0"@,
            "-i"@,
            docked.path_input@,
            "-o"@,
            path_join(docked.path_output@, "output"@),
            "--"@,
            path_join(docked.path_output@, "main-afl"@),
        ],
{
    let (_, out) = docked.wks_path("output");
    let (_, afl) = docked.wks_path("main-afl");
    let r = command(
        &[
            "/afl/afl-fuzz",
            "-M",
            "afl-0",
            "-i",
            docked.path_input.as_str(),
            "-o",
            out.as_str(),
            "--",
            afl.as_str(),
        ],
    );
    proof {
        assert(words(r@) =~= seq![
            "/afl/afl-fuzz"@,
            "-M"@,
            "afl-0"@,
            "-i"@,
            docked.path_input@,
            "-o"@,
            out@,
            "--"@,
            afl@,
        ]);
    }
    Step { cmd: r, timeout_ms: Some(TIMEOUT_FUZZ_MS), expect: Expect::Timeout }
}

/// The concolic helper, bound to the side fuzzer's output, run until its
/// budget runs out.
pub fn helper_step(docked: &DockedPacket) -> (r: Step)
    ensures
        r.timeout_ms == Some(TIMEOUT_FUZZ_MS),
        r.expect == Expect::Timeout,
        words(r.cmd@) == seq![
            "symcc_fuzzing_helper"@,
            "-v"@,
            "-o"@,
            path_join(docked.path_output@, "output"@),
            "-a"@,
            "afl-0"@,
            "-n"@,
            "symcc"@,
            "--"@,
            path_join(docked.path_output@, "main-sym"@),
        ],
{
    let (_, out) = docked.wks_path("output");
    let (_, sym) = docked.wks_path("main-sym");
    let r = command(
        &[
            "symcc_fuzzing_helper",
            "-v",
            "-o",
            out.as_str(),
            "-a",
            "afl-0",
            "-n",
            "symcc",
            "--",
            sym.as_str(),
        ],
    );
    proof {
        assert(words(r@) =~= seq![
            "symcc_fuzzing_helper"@,
            "-v"@,
            "-o"@,
            out@,
            "-a"@,
            "afl-0"@,
            "-n"@,
            "symcc"@,
            "--"@,
            sym@,
        ]);
    }
    Step { cmd: r, timeout_ms: Some(TIMEOUT_FUZZ_MS), expect: Expect::Timeout }
}

/// What to do while waiting for the side fuzzer.
#[derive(Clone, Copy, Debug, PartialEq, Eq, Structural)]
pub enum Readiness {
    /// Its queue is there: start the helper.
    Ready,
    /// It ended before its queue appeared: the stage fails.
    Failed,
    /// Look again after a pause.
    Wait,
}

/// Decide from whether the side fuzzer's queue exists and whether it has
/// ended: ready once the queue exists, failed if it ended first.
pub fn readiness(queue_exists: bool, side_finished: bool) -> (r: Readiness)
    ensures
        queue_exists ==> r == Readiness::Ready,
        !queue_exists && side_finished ==> r == Readiness::Failed,
        !queue_exists && !side_finished ==> r == Readiness::Wait,
{
    if queue_exists {
        Readiness::Ready
    } else if side_finished {
        Readiness::Failed
    } else {
        Readiness::Wait
    }
}

/// Where, on the host, the side fuzzer's queue appears once it is ready,
/// and where its crashes are kept.
pub fn fuzzer_dirs(docked: &DockedPacket) -> (r: (String, String))
    ensures
        r.0@ == path_join(path_join(path_join(docked.host_output@, "output"@), "afl-0"@), "queue"@),
        r.1@ == path_join(path_join(path_join(docked.host_output@, "output"@), "afl-0"@), "crashes"@),
{
    let (out, _) = docked.wks_path("output");
    let afl = join_path(out.as_str(), "afl-0");
    (join_path(afl.as_str(), "queue"), join_path(afl.as_str(), "crashes"))
}

} // verus!
